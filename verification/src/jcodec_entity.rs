//! JSON codec for the entity-side types. Each type has a specification
//! encoder (`enc_*`) into the mathematical JSON tree, a well-formedness
//! predicate (`wf_*`) describing exactly the trees its decoder accepts,
//! an executable encoder pinned to `enc_*`, and a decoder that succeeds
//! if and only if its input is well-formed and whose result re-encodes
//! to the input tree.
use vstd::prelude::*;
use vstd::string::StringExecFns;

use crate::ast::{Entity, EntityAttr, EntityUid, EntityUidEscape, EntityValue, ExtensionFn,
    ExtensionFnEscape};
use crate::json::{JsonV, JsonVal};
use crate::util::str_eq;

verus! {

broadcast use vstd::std_specs::vec::axiom_vec_decreases_to_view, vstd::seq::axiom_seq_index_decreases, crate::json::group_json_view_lemmas;

// ---------------------------------------------------------------- EntityUid
pub open spec fn enc_euid(u: EntityUid) -> JsonV {
    JsonV::Obj(seq![("type"@, JsonV::Str(u.ty@)), ("id"@, JsonV::Str(u.id@))])
}

pub open spec fn wf_euid(j: JsonV) -> bool {
    &&& j matches JsonV::Obj(fs)
    &&& fs.len() == 2
    &&& fs[0].0 == "type"@
    &&& fs[0].1 is Str
    &&& fs[1].0 == "id"@
    &&& fs[1].1 is Str
}

/// Every encoded entity identifier is a tree its decoder accepts.
pub proof fn lemma_enc_euid_wf(u: EntityUid)
    ensures
        wf_euid(enc_euid(u)),
{
}

pub fn encode_euid(u: &EntityUid) -> (r: JsonVal)
    ensures
        r@ == enc_euid(*u),
{
    let mut fs: Vec<(String, JsonVal)> = Vec::new();
    fs.push((String::from_str("type"), JsonVal::Str(u.ty.clone())));
    fs.push((String::from_str("id"), JsonVal::Str(u.id.clone())));
    let r = JsonVal::Obj(fs);
    proof {
        let s = r@->Obj_0;
        let t = enc_euid(*u)->Obj_0;
        assert(fs@.len() == 2);
        assert(s[0] == (fs@[0].0@, fs@[0].1@));
        assert(s[1] == (fs@[1].0@, fs@[1].1@));
        assert(s[0] == t[0]);
        assert(s[1] == t[1]);
        assert(s =~= t);
        assert(r@ == enc_euid(*u));
    }
    r
}

pub fn decode_euid(j: &JsonVal) -> (r: Option<EntityUid>)
    ensures
        r is Some <==> wf_euid(j@),
        r matches Some(u) ==> enc_euid(u) == j@,
{
    match j {
        JsonVal::Obj(fs) => {
            if fs.len() != 2 {
                return None;
            }
            let p0 = &fs[0];
            let p1 = &fs[1];
            if !str_eq(p0.0.as_str(), "type") || !str_eq(p1.0.as_str(), "id") {
                return None;
            }
            match (&p0.1, &p1.1) {
                (JsonVal::Str(ty), JsonVal::Str(id)) => {
                    let u = EntityUid { ty: ty.clone(), id: id.clone() };
                    proof {
                        let s = enc_euid(u)->Obj_0;
                        let t = j@->Obj_0;
                        assert(t.len() == fs@.len());
                        assert(t[0] == (fs@[0].0@, fs@[0].1@));
                        assert(t[1] == (fs@[1].0@, fs@[1].1@));
                        assert(s[0] == t[0]);
                        assert(s[1] == t[1]);
                        assert(s =~= t);
                        assert(enc_euid(u) == j@);
                    }
                    Some(u)
                },
                _ => None,
            }
        },
        _ => None,
    }
}

// -------------------------------------------------------------- ExtensionFn
pub open spec fn enc_extfn(f: ExtensionFn) -> JsonV {
    JsonV::Obj(seq![("fn"@, JsonV::Str(f.func@)), ("arg"@, JsonV::Str(f.arg@))])
}

pub open spec fn wf_extfn(j: JsonV) -> bool {
    &&& j matches JsonV::Obj(fs)
    &&& fs.len() == 2
    &&& fs[0].0 == "fn"@
    &&& fs[0].1 is Str
    &&& fs[1].0 == "arg"@
    &&& fs[1].1 is Str
}

/// Every encoded extension call is a tree its decoder accepts.
pub proof fn lemma_enc_extfn_wf(f: ExtensionFn)
    ensures
        wf_extfn(enc_extfn(f)),
{
}

pub fn encode_extfn(f: &ExtensionFn) -> (r: JsonVal)
    ensures
        r@ == enc_extfn(*f),
{
    let mut fs: Vec<(String, JsonVal)> = Vec::new();
    fs.push((String::from_str("fn"), JsonVal::Str(f.func.clone())));
    fs.push((String::from_str("arg"), JsonVal::Str(f.arg.clone())));
    let r = JsonVal::Obj(fs);
    proof {
        let s = r@->Obj_0;
        let t = enc_extfn(*f)->Obj_0;
        assert(fs@.len() == 2);
        assert(s[0] == (fs@[0].0@, fs@[0].1@));
        assert(s[1] == (fs@[1].0@, fs@[1].1@));
        assert(s[0] == t[0]);
        assert(s[1] == t[1]);
        assert(s =~= t);
        assert(r@ == enc_extfn(*f));
    }
    r
}

pub fn decode_extfn(j: &JsonVal) -> (r: Option<ExtensionFn>)
    ensures
        r is Some <==> wf_extfn(j@),
        r matches Some(f) ==> enc_extfn(f) == j@,
{
    match j {
        JsonVal::Obj(fs) => {
            if fs.len() != 2 {
                return None;
            }
            let p0 = &fs[0];
            let p1 = &fs[1];
            if !str_eq(p0.0.as_str(), "fn") || !str_eq(p1.0.as_str(), "arg") {
                return None;
            }
            match (&p0.1, &p1.1) {
                (JsonVal::Str(func), JsonVal::Str(arg)) => {
                    let f = ExtensionFn { func: func.clone(), arg: arg.clone() };
                    proof {
                        let s = enc_extfn(f)->Obj_0;
                        let t = j@->Obj_0;
                        assert(t.len() == fs@.len());
                        assert(t[0] == (fs@[0].0@, fs@[0].1@));
                        assert(t[1] == (fs@[1].0@, fs@[1].1@));
                        assert(s[0] == t[0]);
                        assert(s[1] == t[1]);
                        assert(s =~= t);
                        assert(enc_extfn(f) == j@);
                    }
                    Some(f)
                },
                _ => None,
            }
        },
        _ => None,
    }
}

// ----------------------------------------------------------- escaped forms
pub open spec fn enc_euid_esc(e: EntityUidEscape) -> JsonV {
    JsonV::Obj(seq![("__entity"@, enc_euid(e.entity))])
}

pub open spec fn wf_euid_esc(j: JsonV) -> bool {
    &&& j matches JsonV::Obj(fs)
    &&& fs.len() == 1
    &&& fs[0].0 == "__entity"@
    &&& wf_euid(fs[0].1)
}

/// Every encoded escaped entity reference is a tree its decoder accepts.
pub proof fn lemma_enc_euid_esc_wf(e: EntityUidEscape)
    ensures
        wf_euid_esc(enc_euid_esc(e)),
{
}

pub fn encode_euid_esc(e: &EntityUidEscape) -> (r: JsonVal)
    ensures
        r@ == enc_euid_esc(*e),
{
    let mut fs: Vec<(String, JsonVal)> = Vec::new();
    fs.push((String::from_str("__entity"), encode_euid(&e.entity)));
    let r = JsonVal::Obj(fs);
    proof {
        let s = r@->Obj_0;
        let t = enc_euid_esc(*e)->Obj_0;
        assert(fs@.len() == 1);
        assert(s[0] == (fs@[0].0@, fs@[0].1@));
        assert(s[0] == t[0]);
        assert(s =~= t);
        assert(r@ == enc_euid_esc(*e));
    }
    r
}

pub fn decode_euid_esc(j: &JsonVal) -> (r: Option<EntityUidEscape>)
    ensures
        r is Some <==> wf_euid_esc(j@),
        r matches Some(e) ==> enc_euid_esc(e) == j@,
{
    match j {
        JsonVal::Obj(fs) => {
            if fs.len() != 1 {
                return None;
            }
            let p0 = &fs[0];
            if !str_eq(p0.0.as_str(), "__entity") {
                return None;
            }
            match decode_euid(&p0.1) {
                Some(u) => {
                    let e = EntityUidEscape { entity: u };
                    proof {
                        let s = enc_euid_esc(e)->Obj_0;
                        let t = j@->Obj_0;
                        assert(t.len() == fs@.len());
                        assert(t[0] == (fs@[0].0@, fs@[0].1@));
                        assert(s[0] == t[0]);
                        assert(s =~= t);
                        assert(enc_euid_esc(e) == j@);
                    }
                    Some(e)
                },
                None => None,
            }
        },
        _ => None,
    }
}

pub open spec fn enc_extfn_esc(e: ExtensionFnEscape) -> JsonV {
    JsonV::Obj(seq![("__extn"@, enc_extfn(e.extn))])
}

pub open spec fn wf_extfn_esc(j: JsonV) -> bool {
    &&& j matches JsonV::Obj(fs)
    &&& fs.len() == 1
    &&& fs[0].0 == "__extn"@
    &&& wf_extfn(fs[0].1)
}

/// Every encoded escaped extension call is a tree its decoder accepts.
pub proof fn lemma_enc_extfn_esc_wf(e: ExtensionFnEscape)
    ensures
        wf_extfn_esc(enc_extfn_esc(e)),
{
}

pub fn encode_extfn_esc(e: &ExtensionFnEscape) -> (r: JsonVal)
    ensures
        r@ == enc_extfn_esc(*e),
{
    let mut fs: Vec<(String, JsonVal)> = Vec::new();
    fs.push((String::from_str("__extn"), encode_extfn(&e.extn)));
    let r = JsonVal::Obj(fs);
    proof {
        let s = r@->Obj_0;
        let t = enc_extfn_esc(*e)->Obj_0;
        assert(fs@.len() == 1);
        assert(s[0] == (fs@[0].0@, fs@[0].1@));
        assert(s[0] == t[0]);
        assert(s =~= t);
        assert(r@ == enc_extfn_esc(*e));
    }
    r
}

pub fn decode_extfn_esc(j: &JsonVal) -> (r: Option<ExtensionFnEscape>)
    ensures
        r is Some <==> wf_extfn_esc(j@),
        r matches Some(e) ==> enc_extfn_esc(e) == j@,
{
    match j {
        JsonVal::Obj(fs) => {
            if fs.len() != 1 {
                return None;
            }
            let p0 = &fs[0];
            if !str_eq(p0.0.as_str(), "__extn") {
                return None;
            }
            match decode_extfn(&p0.1) {
                Some(f) => {
                    let e = ExtensionFnEscape { extn: f };
                    proof {
                        let s = enc_extfn_esc(e)->Obj_0;
                        let t = j@->Obj_0;
                        assert(t.len() == fs@.len());
                        assert(t[0] == (fs@[0].0@, fs@[0].1@));
                        assert(s[0] == t[0]);
                        assert(s =~= t);
                        assert(enc_extfn_esc(e) == j@);
                    }
                    Some(e)
                },
                None => None,
            }
        },
        _ => None,
    }
}

// --------------------------------------------------------------- EntityAttr
pub open spec fn enc_attr(a: EntityAttr) -> JsonV
    decreases a,
{
    match a {
        EntityAttr::String(s) => JsonV::Str(s@),
        EntityAttr::Number(n) => JsonV::Int(n),
        EntityAttr::Boolean(b) => JsonV::Bool(b),
        EntityAttr::SetOf(v) => JsonV::Arr(enc_attr_items(v@)),
        EntityAttr::Record(m) => JsonV::Obj(enc_attr_entries(m@)),
        EntityAttr::EntityUid(u) => enc_euid(u),
        EntityAttr::Function(f) => enc_extfn(f),
        EntityAttr::EntityUidEscape(e) => enc_euid_esc(e),
        EntityAttr::FunctionEscape(e) => enc_extfn_esc(e),
    }
}

pub open spec fn enc_attr_items(s: Seq<EntityAttr>) -> Seq<JsonV>
    decreases s,
{
    Seq::new(
        s.len(),
        |i: int|
            if 0 <= i < s.len() {
                enc_attr(s[i])
            } else {
                JsonV::Null
            },
    )
}

pub open spec fn enc_attr_entries(s: Seq<(String, EntityAttr)>) -> Seq<(Seq<char>, JsonV)>
    decreases s,
{
    Seq::new(
        s.len(),
        |i: int|
            if 0 <= i < s.len() {
                (s[i].0@, enc_attr(s[i].1))
            } else {
                (Seq::empty(), JsonV::Null)
            },
    )
}

/// Does this tree carry one of the four reserved object shapes (bare or
/// escaped entity reference or extension call)?
pub open spec fn is_reserved_obj(j: JsonV) -> bool {
    wf_euid(j) || wf_extfn(j) || wf_euid_esc(j) || wf_extfn_esc(j)
}

pub open spec fn wf_attr(j: JsonV) -> bool
    decreases j,
{
    match j {
        JsonV::Null => false,
        JsonV::Bool(_) => true,
        JsonV::Int(_) => true,
        JsonV::Str(_) => true,
        JsonV::Arr(items) => forall|i: int| 0 <= i < items.len() ==> wf_attr(#[trigger] items[i]),
        JsonV::Obj(fs) => is_reserved_obj(j) || forall|i: int|
            0 <= i < fs.len() ==> wf_attr(#[trigger] fs[i].1),
    }
}

#[verifier::loop_isolation(false)]
pub fn encode_attr(a: &EntityAttr) -> (r: JsonVal)
    ensures
        r@ == enc_attr(*a),
    decreases a,
{
    match a {
        EntityAttr::String(s) => JsonVal::Str(s.clone()),
        EntityAttr::Number(n) => JsonVal::Int(*n),
        EntityAttr::Boolean(b) => JsonVal::Bool(*b),
        EntityAttr::EntityUid(u) => encode_euid(u),
        EntityAttr::Function(f) => encode_extfn(f),
        EntityAttr::EntityUidEscape(e) => encode_euid_esc(e),
        EntityAttr::FunctionEscape(e) => encode_extfn_esc(e),
        EntityAttr::SetOf(v) => {
            let mut out: Vec<JsonVal> = Vec::new();
            let mut i: usize = 0;
            while i < v.len()
                invariant
                    i <= v.len(),
                    out@.len() == i as int,
                    forall|k: int| 0 <= k < i as int ==> out@[k]@ == enc_attr(v@[k]),
                decreases v.len() - i,
            {
                let e = encode_attr(&v[i]);
                out.push(e);
                i = i + 1;
            }
            let r = JsonVal::Arr(out);
            proof {
                let s = r@->Arr_0;
                let t = enc_attr(*a)->Arr_0;
                assert forall|k: int| 0 <= k < s.len() implies s[k] == t[k] by {
                    assert(s[k] == out@[k]@);
                    assert(t[k] == enc_attr(v@[k]));
                }
                assert(s =~= t);
                assert(r@ == enc_attr(*a));
            }
            r
        },
        EntityAttr::Record(m) => {
            let mut out: Vec<(String, JsonVal)> = Vec::new();
            let mut i: usize = 0;
            while i < m.len()
                invariant
                    i <= m.len(),
                    out@.len() == i as int,
                    forall|k: int|
                        0 <= k < i as int ==> out@[k].0@ == m@[k].0@ && out@[k].1@ == enc_attr(
                            m@[k].1,
                        ),
                decreases m.len() - i,
            {
                let p = &m[i];
                let e = encode_attr(&p.1);
                out.push((p.0.clone(), e));
                i = i + 1;
            }
            let r = JsonVal::Obj(out);
            proof {
                let s = r@->Obj_0;
                let t = enc_attr(*a)->Obj_0;
                assert forall|k: int| 0 <= k < s.len() implies s[k] == t[k] by {
                    assert(s[k] == (out@[k].0@, out@[k].1@));
                    assert(t[k] == (m@[k].0@, enc_attr(m@[k].1)));
                }
                assert(s =~= t);
                assert(r@ == enc_attr(*a));
            }
            r
        },
    }
}

#[verifier::loop_isolation(false)]
pub fn decode_attr(j: &JsonVal) -> (r: Option<EntityAttr>)
    ensures
        r is Some <==> wf_attr(j@),
        r matches Some(a) ==> enc_attr(a) == j@,
        r matches Some(a) ==> ((a is EntityUid <==> wf_euid(j@)) && (a is Function <==> wf_extfn(
            j@,
        )) && (a is EntityUidEscape <==> wf_euid_esc(j@)) && (a is FunctionEscape
            <==> wf_extfn_esc(j@)) && (a is Record <==> (j@ is Obj && !is_reserved_obj(j@))) && (
        a is SetOf <==> j@ is Arr)),
    decreases j,
{
    match j {
        JsonVal::Null => None,
        JsonVal::Bool(b) => Some(EntityAttr::Boolean(*b)),
        JsonVal::Int(n) => Some(EntityAttr::Number(*n)),
        JsonVal::Str(s) => Some(EntityAttr::String(s.clone())),
        JsonVal::Arr(items) => {
            let mut out: Vec<EntityAttr> = Vec::new();
            let mut i: usize = 0;
            while i < items.len()
                invariant
                    i <= items.len(),
                    out@.len() == i as int,
                    forall|k: int|
                        0 <= k < i as int ==> wf_attr(#[trigger] items@[k]@) && enc_attr(out@[k])
                            == items@[k]@,
                decreases items.len() - i,
            {
                match decode_attr(&items[i]) {
                    Some(a) => {
                        out.push(a);
                    },
                    None => {
                        proof {
                            assert(j@->Arr_0[i as int] == items@[i as int]@);
                            assert(!wf_attr(j@));
                        }
                        return None;
                    },
                }
                i = i + 1;
            }
            let r = EntityAttr::SetOf(out);
            proof {
                let s = enc_attr(r)->Arr_0;
                let t = j@->Arr_0;
                assert(t.len() == items@.len());
                assert forall|k: int| 0 <= k < s.len() implies s[k] == t[k] by {
                    assert(s[k] == enc_attr(out@[k]));
                    assert(t[k] == items@[k]@);
                }
                assert(s =~= t);
                assert(enc_attr(r) == j@);
                assert forall|k: int| 0 <= k < t.len() implies wf_attr(#[trigger] t[k]) by {
                    assert(t[k] == items@[k]@);
                }
            }
            Some(r)
        },
        JsonVal::Obj(fs) => {
            proof {
                reveal_strlit("type");
                reveal_strlit("id");
                reveal_strlit("fn");
                reveal_strlit("arg");
                reveal_strlit("__entity");
                reveal_strlit("__extn");
            }
            match decode_euid(j) {
                Some(u) => {
                    proof {
                        assert("type"@.len() == 4);
                        assert("fn"@.len() == 2);
                        assert("type"@ != "fn"@);
                        assert(!wf_extfn(j@));
                    }
                    return Some(EntityAttr::EntityUid(u));
                },
                None => {},
            }
            match decode_extfn(j) {
                Some(f) => {
                    return Some(EntityAttr::Function(f));
                },
                None => {},
            }
            match decode_euid_esc(j) {
                Some(e) => {
                    proof {
                        assert("__entity"@.len() == 8);
                        assert("__extn"@.len() == 6);
                        assert("__entity"@ != "__extn"@);
                        assert(!wf_extfn_esc(j@));
                    }
                    return Some(EntityAttr::EntityUidEscape(e));
                },
                None => {},
            }
            match decode_extfn_esc(j) {
                Some(e) => {
                    return Some(EntityAttr::FunctionEscape(e));
                },
                None => {},
            }
            let mut out: Vec<(String, EntityAttr)> = Vec::new();
            let mut i: usize = 0;
            while i < fs.len()
                invariant
                    i <= fs.len(),
                    out@.len() == i as int,
                    forall|k: int|
                        0 <= k < i as int ==> wf_attr(#[trigger] fs@[k].1@) && out@[k].0@
                            == fs@[k].0@ && enc_attr(out@[k].1) == fs@[k].1@,
                decreases fs.len() - i,
            {
                let p = &fs[i];
                match decode_attr(&p.1) {
                    Some(a) => {
                        out.push((p.0.clone(), a));
                    },
                    None => {
                        proof {
                            assert(j@->Obj_0[i as int].1 == fs@[i as int].1@);
                            assert(!wf_attr(j@));
                        }
                        return None;
                    },
                }
                i = i + 1;
            }
            let r = EntityAttr::Record(out);
            proof {
                let s = enc_attr(r)->Obj_0;
                let t = j@->Obj_0;
                assert(t.len() == fs@.len());
                assert forall|k: int| 0 <= k < s.len() implies s[k] == t[k] by {
                    assert(s[k] == (out@[k].0@, enc_attr(out@[k].1)));
                    assert(t[k] == (fs@[k].0@, fs@[k].1@));
                }
                assert(s =~= t);
                assert(enc_attr(r) == j@);
                assert forall|k: int| 0 <= k < t.len() implies wf_attr(#[trigger] t[k].1) by {
                    assert(t[k].1 == fs@[k].1@);
                }
            }
            Some(r)
        },
    }
}

/// Every encoded attribute value is a tree its decoder accepts.
pub proof fn lemma_enc_attr_wf(a: EntityAttr)
    ensures
        wf_attr(enc_attr(a)),
    decreases a,
{
    match a {
        EntityAttr::SetOf(v) => {
            assert forall|i: int| 0 <= i < v@.len() implies wf_attr(
                #[trigger] enc_attr_items(v@)[i],
            ) by {
                assert(enc_attr_items(v@)[i] == enc_attr(v@[i]));
                lemma_enc_attr_wf(v@[i]);
            }
            assert(enc_attr(a) == JsonV::Arr(enc_attr_items(v@)));
            assert(wf_attr(JsonV::Arr(enc_attr_items(v@))));
        },
        EntityAttr::Record(m) => {
            assert forall|i: int| 0 <= i < m@.len() implies wf_attr(
                #[trigger] enc_attr_entries(m@)[i].1,
            ) by {
                assert(enc_attr_entries(m@)[i].1 == enc_attr(m@[i].1));
                lemma_enc_attr_wf(m@[i].1);
            }
            assert(enc_attr(a) == JsonV::Obj(enc_attr_entries(m@)));
            assert(wf_attr(JsonV::Obj(enc_attr_entries(m@))));
        },
        EntityAttr::EntityUid(u) => {
            lemma_enc_euid_wf(u);
        },
        EntityAttr::Function(f) => {
            lemma_enc_extfn_wf(f);
        },
        EntityAttr::EntityUidEscape(e) => {
            lemma_enc_euid_esc_wf(e);
        },
        EntityAttr::FunctionEscape(e) => {
            lemma_enc_extfn_esc_wf(e);
        },
        _ => {},
    }
}

/// The bare and the escaped entity form keep distinct encodings, and an
/// escaped reference survives a round trip: whatever the decoder returns
/// for the encoding of `EntityAttr::EntityUidEscape(u)` is again an
/// escaped reference to the same entity.
pub proof fn lemma_escape_preserved(u: EntityUidEscape, b: EntityAttr)
    requires
        enc_attr(b) == enc_attr(EntityAttr::EntityUidEscape(u)),
        b is EntityUidEscape,
    ensures
        b matches EntityAttr::EntityUidEscape(u2) && u2.entity.ty@ == u.entity.ty@
            && u2.entity.id@ == u.entity.id@,
{
    let u2 = b->EntityUidEscape_0;
    assert(enc_euid_esc(u2) == enc_euid_esc(u));
    assert(enc_euid_esc(u2)->Obj_0[0].1 == enc_euid_esc(u)->Obj_0[0].1);
    assert(enc_euid(u2.entity)->Obj_0[0].1 == enc_euid(u.entity)->Obj_0[0].1);
    assert(enc_euid(u2.entity)->Obj_0[1].1 == enc_euid(u.entity)->Obj_0[1].1);
}

/// The bare entity form likewise survives a round trip.
pub proof fn lemma_bare_entity_preserved(u: EntityUid, b: EntityAttr)
    requires
        enc_attr(b) == enc_attr(EntityAttr::EntityUid(u)),
        b is EntityUid,
    ensures
        b matches EntityAttr::EntityUid(u2) && u2.ty@ == u.ty@ && u2.id@ == u.id@,
{
    let u2 = b->EntityUid_0;
    assert(enc_euid(u2)->Obj_0[0].1 == enc_euid(u)->Obj_0[0].1);
    assert(enc_euid(u2)->Obj_0[1].1 == enc_euid(u)->Obj_0[1].1);
}

// ----------------------------------------------------- sequences of euids
pub open spec fn enc_euids(s: Seq<EntityUid>) -> Seq<JsonV> {
    Seq::new(s.len(), |i: int| enc_euid(s[i]))
}

pub open spec fn wf_euids(s: Seq<JsonV>) -> bool {
    forall|i: int| 0 <= i < s.len() ==> wf_euid(#[trigger] s[i])
}

#[verifier::loop_isolation(false)]
pub fn encode_euids(v: &Vec<EntityUid>) -> (r: Vec<JsonVal>)
    ensures
        r@.len() == v@.len(),
        forall|k: int| 0 <= k < v@.len() ==> (#[trigger] r@[k])@ == enc_euid(v@[k]),
{
    let mut out: Vec<JsonVal> = Vec::new();
    let mut i: usize = 0;
    while i < v.len()
        invariant
            i <= v.len(),
            out@.len() == i as int,
            forall|k: int| 0 <= k < i as int ==> (#[trigger] out@[k])@ == enc_euid(v@[k]),
        decreases v.len() - i,
    {
        out.push(encode_euid(&v[i]));
        i = i + 1;
    }
    out
}

#[verifier::loop_isolation(false)]
pub fn decode_euids(v: &Vec<JsonVal>) -> (r: Option<Vec<EntityUid>>)
    ensures
        r is Some <==> (forall|k: int| 0 <= k < v@.len() ==> wf_euid((#[trigger] v@[k])@)),
        r matches Some(us) ==> us@.len() == v@.len() && forall|k: int|
            0 <= k < v@.len() ==> enc_euid(#[trigger] us@[k]) == v@[k]@,
{
    let mut out: Vec<EntityUid> = Vec::new();
    let mut i: usize = 0;
    while i < v.len()
        invariant
            i <= v.len(),
            out@.len() == i as int,
            forall|k: int|
                0 <= k < i as int ==> wf_euid((#[trigger] v@[k])@) && enc_euid(out@[k]) == v@[k]@,
        decreases v.len() - i,
    {
        match decode_euid(&v[i]) {
            Some(u) => {
                out.push(u);
            },
            None => {
                return None;
            },
        }
        i = i + 1;
    }
    Some(out)
}

// -------------------------------------------- named attribute collections
#[verifier::loop_isolation(false)]
pub fn encode_attr_pairs(m: &Vec<(String, EntityAttr)>) -> (r: Vec<(String, JsonVal)>)
    ensures
        r@.len() == m@.len(),
        forall|k: int|
            0 <= k < m@.len() ==> (#[trigger] r@[k]).0@ == m@[k].0@ && r@[k].1@ == enc_attr(
                m@[k].1,
            ),
{
    let mut out: Vec<(String, JsonVal)> = Vec::new();
    let mut i: usize = 0;
    while i < m.len()
        invariant
            i <= m.len(),
            out@.len() == i as int,
            forall|k: int|
                0 <= k < i as int ==> (#[trigger] out@[k]).0@ == m@[k].0@ && out@[k].1@
                    == enc_attr(m@[k].1),
        decreases m.len() - i,
    {
        let p = &m[i];
        let e = encode_attr(&p.1);
        out.push((p.0.clone(), e));
        i = i + 1;
    }
    out
}

#[verifier::loop_isolation(false)]
pub fn decode_attr_pairs(v: &Vec<(String, JsonVal)>) -> (r: Option<Vec<(String, EntityAttr)>>)
    ensures
        r is Some <==> (forall|k: int| 0 <= k < v@.len() ==> wf_attr((#[trigger] v@[k]).1@)),
        r matches Some(m) ==> m@.len() == v@.len() && forall|k: int|
            0 <= k < v@.len() ==> (#[trigger] m@[k]).0@ == v@[k].0@ && enc_attr(m@[k].1)
                == v@[k].1@,
{
    let mut out: Vec<(String, EntityAttr)> = Vec::new();
    let mut i: usize = 0;
    while i < v.len()
        invariant
            i <= v.len(),
            out@.len() == i as int,
            forall|k: int|
                0 <= k < i as int ==> wf_attr((#[trigger] v@[k]).1@) && out@[k].0@ == v@[k].0@
                    && enc_attr(out@[k].1) == v@[k].1@,
        decreases v.len() - i,
    {
        let p = &v[i];
        match decode_attr(&p.1) {
            Some(a) => {
                out.push((p.0.clone(), a));
            },
            None => {
                return None;
            },
        }
        i = i + 1;
    }
    Some(out)
}

// ------------------------------------------------------------------ Entity
pub open spec fn enc_attr_obj(s: Seq<(String, EntityAttr)>) -> JsonV {
    JsonV::Obj(enc_attr_entries(s))
}

pub open spec fn wf_attr_obj(j: JsonV) -> bool {
    &&& j matches JsonV::Obj(fs)
    &&& forall|i: int| 0 <= i < fs.len() ==> wf_attr((#[trigger] fs[i]).1)
}

pub open spec fn enc_entity(e: Entity) -> JsonV {
    JsonV::Obj(
        seq![
            ("uid"@, enc_euid(e.uid)),
            ("attrs"@, enc_attr_obj(e.attrs@)),
            ("parents"@, JsonV::Arr(enc_euids(e.parents@))),
            ("tags"@, enc_attr_obj(e.tags@)),
        ],
    )
}

pub open spec fn wf_entity(j: JsonV) -> bool {
    &&& j matches JsonV::Obj(fs)
    &&& fs.len() == 4
    &&& fs[0].0 == "uid"@
    &&& wf_euid(fs[0].1)
    &&& fs[1].0 == "attrs"@
    &&& wf_attr_obj(fs[1].1)
    &&& fs[2].0 == "parents"@
    &&& fs[2].1 matches JsonV::Arr(ps) && wf_euids(ps)
    &&& fs[3].0 == "tags"@
    &&& wf_attr_obj(fs[3].1)
}

/// Every encoded entity is a tree its decoder accepts.
pub proof fn lemma_enc_entity_wf(e: Entity)
    ensures
        wf_entity(enc_entity(e)),
{
    lemma_enc_euid_wf(e.uid);
    assert forall|i: int| 0 <= i < e.attrs@.len() implies wf_attr(
        #[trigger] enc_attr_entries(e.attrs@)[i].1,
    ) by {
        assert(enc_attr_entries(e.attrs@)[i].1 == enc_attr(e.attrs@[i].1));
        lemma_enc_attr_wf(e.attrs@[i].1);
    }
    assert forall|i: int| 0 <= i < e.tags@.len() implies wf_attr(
        #[trigger] enc_attr_entries(e.tags@)[i].1,
    ) by {
        assert(enc_attr_entries(e.tags@)[i].1 == enc_attr(e.tags@[i].1));
        lemma_enc_attr_wf(e.tags@[i].1);
    }
    assert forall|i: int| 0 <= i < e.parents@.len() implies wf_euid(
        #[trigger] enc_euids(e.parents@)[i],
    ) by {
        assert(enc_euids(e.parents@)[i] == enc_euid(e.parents@[i]));
        lemma_enc_euid_wf(e.parents@[i]);
    }
}

pub fn encode_entity(e: &Entity) -> (r: JsonVal)
    ensures
        r@ == enc_entity(*e),
{
    let mut fs: Vec<(String, JsonVal)> = Vec::new();
    fs.push((String::from_str("uid"), encode_euid(&e.uid)));
    fs.push((String::from_str("attrs"), JsonVal::Obj(encode_attr_pairs(&e.attrs))));
    fs.push((String::from_str("parents"), JsonVal::Arr(encode_euids(&e.parents))));
    fs.push((String::from_str("tags"), JsonVal::Obj(encode_attr_pairs(&e.tags))));
    let r = JsonVal::Obj(fs);
    proof {
        let s = r@->Obj_0;
        let t = enc_entity(*e)->Obj_0;
        assert(fs@.len() == 4);
        assert(s[0] == (fs@[0].0@, fs@[0].1@));
        assert(s[1] == (fs@[1].0@, fs@[1].1@));
        assert(s[2] == (fs@[2].0@, fs@[2].1@));
        assert(s[3] == (fs@[3].0@, fs@[3].1@));
        assert(fs@[1].1@->Obj_0 =~= enc_attr_entries(e.attrs@));
        assert(fs@[2].1@->Arr_0 =~= enc_euids(e.parents@));
        assert(fs@[3].1@->Obj_0 =~= enc_attr_entries(e.tags@));
        assert(s[0] == t[0]);
        assert(s[1] == t[1]);
        assert(s[2] == t[2]);
        assert(s[3] == t[3]);
        assert(s =~= t);
        assert(r@ == enc_entity(*e));
    }
    r
}

pub fn decode_entity(j: &JsonVal) -> (r: Option<Entity>)
    ensures
        r is Some <==> wf_entity(j@),
        r matches Some(e) ==> enc_entity(e) == j@,
{
    match j {
        JsonVal::Obj(fs) => {
            if fs.len() != 4 {
                return None;
            }
            let p0 = &fs[0];
            let p1 = &fs[1];
            let p2 = &fs[2];
            let p3 = &fs[3];
            if !str_eq(p0.0.as_str(), "uid") || !str_eq(p1.0.as_str(), "attrs") || !str_eq(
                p2.0.as_str(),
                "parents",
            ) || !str_eq(p3.0.as_str(), "tags") {
                return None;
            }
            let Some(uid) = decode_euid(&p0.1) else { return None };
            let attrs_val = match &p1.1 {
                JsonVal::Obj(m) => m,
                _ => {
                    return None;
                },
            };
            let Some(attrs) = decode_attr_pairs(attrs_val) else {
                proof {
                    let o = j@->Obj_0[1].1;
                    assert(o == fs@[1].1@);
                    if wf_attr_obj(o) {
                        assert forall|k: int|
                            0 <= k < attrs_val@.len() implies wf_attr(
                            (#[trigger] attrs_val@[k]).1@,
                        ) by {
                            assert(o->Obj_0[k] == (attrs_val@[k].0@, attrs_val@[k].1@));
                            assert(wf_attr(o->Obj_0[k].1));
                        }
                        assert(false);
                    }
                }
                return None
            };
            let parents_val = match &p2.1 {
                JsonVal::Arr(ps) => ps,
                _ => {
                    return None;
                },
            };
            let Some(parents) = decode_euids(parents_val) else {
                proof {
                    let o = j@->Obj_0[2].1;
                    assert(o == fs@[2].1@);
                    if wf_entity(j@) {
                        assert forall|k: int|
                            0 <= k < parents_val@.len() implies wf_euid(
                            (#[trigger] parents_val@[k])@,
                        ) by {
                            assert(o->Arr_0[k] == parents_val@[k]@);
                            assert(wf_euid(o->Arr_0[k]));
                        }
                        assert(false);
                    }
                }
                return None
            };
            let tags_val = match &p3.1 {
                JsonVal::Obj(m) => m,
                _ => {
                    return None;
                },
            };
            let Some(tags) = decode_attr_pairs(tags_val) else {
                proof {
                    let o = j@->Obj_0[3].1;
                    assert(o == fs@[3].1@);
                    if wf_attr_obj(o) {
                        assert forall|k: int|
                            0 <= k < tags_val@.len() implies wf_attr(
                            (#[trigger] tags_val@[k]).1@,
                        ) by {
                            assert(o->Obj_0[k] == (tags_val@[k].0@, tags_val@[k].1@));
                            assert(wf_attr(o->Obj_0[k].1));
                        }
                        assert(false);
                    }
                }
                return None
            };
            let e = Entity::new_with_tags(uid, attrs, parents, tags);
            proof {
                let s = enc_entity(e)->Obj_0;
                let t = j@->Obj_0;
                assert(t.len() == fs@.len());
                assert(t[0] == (fs@[0].0@, fs@[0].1@));
                assert(t[1] == (fs@[1].0@, fs@[1].1@));
                assert(t[2] == (fs@[2].0@, fs@[2].1@));
                assert(t[3] == (fs@[3].0@, fs@[3].1@));
                assert(enc_attr_entries(e.attrs@) =~= fs@[1].1@->Obj_0);
                assert(enc_euids(e.parents@) =~= fs@[2].1@->Arr_0);
                assert(enc_attr_entries(e.tags@) =~= fs@[3].1@->Obj_0);
                assert(s[0] == t[0]);
                assert(s[1].1 =~= t[1].1);
                assert(s[1] == t[1]);
                assert(s[2].1 =~= t[2].1);
                assert(s[2] == t[2]);
                assert(s[3].1 =~= t[3].1);
                assert(s[3] == t[3]);
                assert(s =~= t);
                assert(enc_entity(e) == j@);
                assert(wf_entity(j@));
            }
            Some(e)
        },
        _ => None,
    }
}

// ------------------------------------------------------------- EntityValue
pub open spec fn enc_entity_value(v: EntityValue) -> JsonV {
    match v {
        EntityValue::EntityUid(u) => enc_euid(u),
        EntityValue::EntityEscape(e) => enc_euid_esc(e),
    }
}

pub open spec fn wf_entity_value(j: JsonV) -> bool {
    wf_euid(j) || wf_euid_esc(j)
}

/// Every encoded slot value is a tree its decoder accepts.
pub proof fn lemma_enc_entity_value_wf(v: EntityValue)
    ensures
        wf_entity_value(enc_entity_value(v)),
{
    match v {
        EntityValue::EntityUid(u) => lemma_enc_euid_wf(u),
        EntityValue::EntityEscape(e) => lemma_enc_euid_esc_wf(e),
    }
}

pub fn encode_entity_value(v: &EntityValue) -> (r: JsonVal)
    ensures
        r@ == enc_entity_value(*v),
{
    match v {
        EntityValue::EntityUid(u) => encode_euid(u),
        EntityValue::EntityEscape(e) => encode_euid_esc(e),
    }
}

pub fn decode_entity_value(j: &JsonVal) -> (r: Option<EntityValue>)
    ensures
        r is Some <==> wf_entity_value(j@),
        r matches Some(v) ==> enc_entity_value(v) == j@,
        r matches Some(v) ==> ((v is EntityUid <==> wf_euid(j@)) && (v is EntityEscape
            <==> wf_euid_esc(j@))),
{
    match decode_euid(j) {
        Some(u) => Some(EntityValue::EntityUid(u)),
        None => match decode_euid_esc(j) {
            Some(e) => Some(EntityValue::EntityEscape(e)),
            None => None,
        },
    }
}

// ----------------------------------------------------------------- clones
impl Clone for EntityAttr {
    /// A clone denotes the same JSON tree as the original.
    fn clone(&self) -> (r: Self)
        ensures
            enc_attr(r) == enc_attr(*self),
    {
        proof {
            lemma_enc_attr_wf(*self);
        }
        let e = encode_attr(self);
        decode_attr(&e).unwrap()
    }
}

/// Field-for-field sameness of two entities up to attribute encoding:
/// what a clone preserves.
pub open spec fn entity_eqv(a: Entity, b: Entity) -> bool {
    &&& a.uid == b.uid
    &&& a.parents@ == b.parents@
    &&& enc_attr_entries(a.attrs@) == enc_attr_entries(b.attrs@)
    &&& enc_attr_entries(a.tags@) == enc_attr_entries(b.tags@)
}

impl Clone for Entity {
    /// A clone keeps the identifier and parents exactly, and its
    /// attributes and tags denote the same JSON trees.
    fn clone(&self) -> (r: Self)
        ensures
            entity_eqv(r, *self),
            enc_entity(r) == enc_entity(*self),
    {
        proof {
            lemma_enc_entity_wf(*self);
        }
        let e = encode_entity(self);
        let d = decode_entity(&e).unwrap();
        let r = Entity::new_with_tags(
            self.uid.clone(),
            d.attrs,
            clone_euids(&self.parents),
            d.tags,
        );
        proof {
            assert(r.parents@ =~= self.parents@);
            let s = enc_entity(r)->Obj_0;
            let t = enc_entity(*self)->Obj_0;
            assert(enc_attr_entries(r.attrs@) =~= enc_attr_entries(self.attrs@));
            assert(enc_attr_entries(r.tags@) =~= enc_attr_entries(self.tags@));
            assert(s[0] == t[0]);
            assert(s[1] == t[1]);
            assert(s[2] == t[2]);
            assert(s[3] == t[3]);
            assert(s =~= t);
            assert(enc_entity(r) == enc_entity(*self));
        }
        r
    }
}

/// Clones a vector of entity identifiers, keeping every element exactly.
#[verifier::loop_isolation(false)]
pub fn clone_euids(v: &Vec<EntityUid>) -> (r: Vec<EntityUid>)
    ensures
        r@ == v@,
{
    let mut out: Vec<EntityUid> = Vec::new();
    let mut i: usize = 0;
    while i < v.len()
        invariant
            i <= v.len(),
            out@.len() == i as int,
            forall|k: int| 0 <= k < i as int ==> out@[k] == v@[k],
        decreases v.len() - i,
    {
        out.push(v[i].clone());
        i = i + 1;
    }
    proof {
        assert(out@ =~= v@);
    }
    out
}


} // verus!
