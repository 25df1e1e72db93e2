//! JSON codec for the schema types. Optional fields are present exactly
//! when they carry a value, as the external schema grammar expects, so the
//! well-formedness predicates scan an object with a cursor.
use vstd::prelude::*;
use vstd::string::StringExecFns;

use crate::json::{entries_of, elts_of, JsonV, JsonVal};
use crate::schema::{Action, AppliesTo, EntityType, Namespace, Schema, TypeJson};
use crate::util::str_eq;

verus! {

broadcast use vstd::std_specs::vec::axiom_vec_decreases_to_view, vstd::seq::axiom_seq_index_decreases, crate::json::group_json_view_lemmas;

// ------------------------------------------------------- strings and maps
pub open spec fn enc_strs(s: Seq<String>) -> Seq<JsonV> {
    Seq::new(s.len(), |i: int| JsonV::Str(s[i]@))
}

pub open spec fn wf_str_arr(j: JsonV) -> bool {
    &&& j matches JsonV::Arr(es)
    &&& forall|i: int| 0 <= i < es.len() ==> (#[trigger] es[i]) is Str
}

#[verifier::loop_isolation(false)]
pub fn encode_strs(v: &Vec<String>) -> (r: Vec<JsonVal>)
    ensures
        elts_of(r@) == enc_strs(v@),
{
    let mut out: Vec<JsonVal> = Vec::new();
    let mut i: usize = 0;
    while i < v.len()
        invariant
            i <= v.len(),
            out@.len() == i as int,
            forall|k: int| 0 <= k < i as int ==> (#[trigger] out@[k])@ == JsonV::Str(v@[k]@),
        decreases v.len() - i,
    {
        out.push(JsonVal::Str(v[i].clone()));
        i = i + 1;
    }
    proof {
        assert(elts_of(out@) =~= enc_strs(v@));
    }
    out
}

#[verifier::loop_isolation(false)]
pub fn decode_strs(v: &Vec<JsonVal>) -> (r: Option<Vec<String>>)
    ensures
        r is Some <==> (forall|k: int| 0 <= k < v@.len() ==> ((#[trigger] v@[k])@) is Str),
        r matches Some(ss) ==> enc_strs(ss@) == elts_of(v@),
{
    let mut out: Vec<String> = Vec::new();
    let mut i: usize = 0;
    while i < v.len()
        invariant
            i <= v.len(),
            out@.len() == i as int,
            forall|k: int|
                0 <= k < i as int ==> ((#[trigger] v@[k])@) is Str && JsonV::Str(out@[k]@)
                    == v@[k]@,
        decreases v.len() - i,
    {
        match &v[i] {
            JsonVal::Str(s) => {
                out.push(s.clone());
            },
            _ => {
                return None;
            },
        }
        i = i + 1;
    }
    proof {
        assert(enc_strs(out@) =~= elts_of(v@));
    }
    Some(out)
}

pub open spec fn enc_str_pairs(s: Seq<(String, String)>) -> Seq<(Seq<char>, JsonV)> {
    Seq::new(s.len(), |i: int| (s[i].0@, JsonV::Str(s[i].1@)))
}

pub open spec fn wf_str_obj(j: JsonV) -> bool {
    &&& j matches JsonV::Obj(fs)
    &&& forall|i: int| 0 <= i < fs.len() ==> ((#[trigger] fs[i]).1) is Str
}

#[verifier::loop_isolation(false)]
pub fn encode_str_pairs(v: &Vec<(String, String)>) -> (r: Vec<(String, JsonVal)>)
    ensures
        entries_of(r@) == enc_str_pairs(v@),
{
    let mut out: Vec<(String, JsonVal)> = Vec::new();
    let mut i: usize = 0;
    while i < v.len()
        invariant
            i <= v.len(),
            out@.len() == i as int,
            forall|k: int|
                0 <= k < i as int ==> (#[trigger] out@[k]).0@ == v@[k].0@ && out@[k].1@
                    == JsonV::Str(v@[k].1@),
        decreases v.len() - i,
    {
        let p = &v[i];
        out.push((p.0.clone(), JsonVal::Str(p.1.clone())));
        i = i + 1;
    }
    proof {
        assert(entries_of(out@) =~= enc_str_pairs(v@));
    }
    out
}

#[verifier::loop_isolation(false)]
pub fn decode_str_pairs(v: &Vec<(String, JsonVal)>) -> (r: Option<Vec<(String, String)>>)
    ensures
        r is Some <==> (forall|k: int| 0 <= k < v@.len() ==> ((#[trigger] v@[k]).1@) is Str),
        r matches Some(ss) ==> enc_str_pairs(ss@) == entries_of(v@),
{
    let mut out: Vec<(String, String)> = Vec::new();
    let mut i: usize = 0;
    while i < v.len()
        invariant
            i <= v.len(),
            out@.len() == i as int,
            forall|k: int|
                0 <= k < i as int ==> ((#[trigger] v@[k]).1@) is Str && out@[k].0@ == v@[k].0@
                    && JsonV::Str(out@[k].1@) == v@[k].1@,
        decreases v.len() - i,
    {
        let p = &v[i];
        match &p.1 {
            JsonVal::Str(s) => {
                out.push((p.0.clone(), s.clone()));
            },
            _ => {
                return None;
            },
        }
        i = i + 1;
    }
    proof {
        assert(enc_str_pairs(out@) =~= entries_of(v@));
    }
    Some(out)
}

// ----------------------------------------------------------------- TypeJson
/// The zero or one object entries that a `required` flag contributes.
pub open spec fn req_entries(r: Option<bool>) -> Seq<(Seq<char>, JsonV)> {
    match r {
        Option::None => Seq::empty(),
        Option::Some(b) => seq![("required"@, JsonV::Bool(b))],
    }
}

/// A field list ends at `i` with an optional `required` entry.
pub open spec fn wf_req_tail(fs: Seq<(Seq<char>, JsonV)>, i: int) -> bool {
    ||| fs.len() == i
    ||| (fs.len() == i + 1 && fs[i].0 == "required"@ && fs[i].1 is Bool)
}

pub open spec fn enc_tj(t: TypeJson) -> JsonV
    decreases t,
{
    match t {
        TypeJson::Long { required } => JsonV::Obj(
            seq![("type"@, JsonV::Str("Long"@))] + req_entries(required),
        ),
        TypeJson::String { required } => JsonV::Obj(
            seq![("type"@, JsonV::Str("String"@))] + req_entries(required),
        ),
        TypeJson::Boolean { required } => JsonV::Obj(
            seq![("type"@, JsonV::Str("Boolean"@))] + req_entries(required),
        ),
        TypeJson::SetOf { element, required } => JsonV::Obj(
            seq![("type"@, JsonV::Str("Set"@)), ("element"@, enc_tj(*element))] + req_entries(
                required,
            ),
        ),
        TypeJson::Entity { name, required } => JsonV::Obj(
            seq![("type"@, JsonV::Str("Entity"@)), ("name"@, JsonV::Str(name@))] + req_entries(
                required,
            ),
        ),
        TypeJson::Record { attributes, required } => JsonV::Obj(
            seq![
                ("type"@, JsonV::Str("Record"@)),
                ("attributes"@, JsonV::Obj(enc_tj_entries(attributes@))),
            ] + req_entries(required),
        ),
        TypeJson::Extension { name, required } => JsonV::Obj(
            seq![("type"@, JsonV::Str("Extension"@)), ("name"@, JsonV::Str(name@))] + req_entries(
                required,
            ),
        ),
        TypeJson::EntityOrCommon { name, required } => JsonV::Obj(
            seq![("type"@, JsonV::Str("EntityOrCommon"@)), ("name"@, JsonV::Str(name@))]
                + req_entries(required),
        ),
    }
}

pub open spec fn enc_tj_entries(s: Seq<(String, TypeJson)>) -> Seq<(Seq<char>, JsonV)>
    decreases s,
{
    Seq::new(
        s.len(),
        |i: int|
            if 0 <= i < s.len() {
                (s[i].0@, enc_tj(s[i].1))
            } else {
                (Seq::empty(), JsonV::Null)
            },
    )
}

pub open spec fn wf_tj(j: JsonV) -> bool
    decreases j,
{
    &&& j matches JsonV::Obj(fs)
    &&& fs.len() >= 1
    &&& fs[0].0 == "type"@
    &&& fs[0].1 matches JsonV::Str(tag)
    &&& if tag == "Long"@ || tag == "String"@ || tag == "Boolean"@ {
        wf_req_tail(fs, 1)
    } else if tag == "Set"@ {
        fs.len() >= 2 && fs[1].0 == "element"@ && wf_tj(fs[1].1) && wf_req_tail(fs, 2)
    } else if tag == "Entity"@ || tag == "Extension"@ || tag == "EntityOrCommon"@ {
        fs.len() >= 2 && fs[1].0 == "name"@ && fs[1].1 is Str && wf_req_tail(fs, 2)
    } else if tag == "Record"@ {
        &&& fs.len() >= 2
        &&& fs[1].0 == "attributes"@
        &&& fs[1].1 matches JsonV::Obj(ats)
        &&& (forall|k: int| 0 <= k < ats.len() ==> wf_tj((#[trigger] ats[k]).1))
        &&& wf_req_tail(fs, 2)
    } else {
        false
    }
}

/// Reads the optional trailing `required` entry starting at `start`.
fn decode_req(fs: &Vec<(String, JsonVal)>, start: usize) -> (r: Option<Option<bool>>)
    requires
        start <= fs@.len(),
    ensures
        r is Some <==> wf_req_tail(entries_of(fs@), start as int),
        r matches Some(rq) ==> entries_of(fs@).subrange(start as int, fs@.len() as int)
            == req_entries(rq) && fs@.len() == start + req_entries(rq).len(),
{
    if fs.len() == start {
        proof {
            assert(entries_of(fs@).subrange(start as int, fs@.len() as int) =~= req_entries(
                Option::<bool>::None,
            ));
        }
        Some(None)
    } else if fs.len() == start + 1 {
        let p = &fs[start];
        if !str_eq(p.0.as_str(), "required") {
            return None;
        }
        match &p.1 {
            JsonVal::Bool(b) => {
                proof {
                    assert(entries_of(fs@).subrange(start as int, fs@.len() as int) =~= req_entries(
                        Option::Some(*b),
                    ));
                }
                Some(Some(*b))
            },
            _ => None,
        }
    } else {
        None
    }
}

/// Appends the entries for an optional `required` flag.
fn push_req(fs: &mut Vec<(String, JsonVal)>, r: &Option<bool>)
    ensures
        entries_of(final (fs)@) == entries_of(old(fs)@) + req_entries(*r),
{
    match r {
        Option::Some(b) => {
            fs.push((String::from_str("required"), JsonVal::Bool(*b)));
        },
        Option::None => {},
    }
    proof {
        assert(entries_of(fs@) =~= entries_of(old(fs)@) + req_entries(*r));
    }
}

#[verifier::loop_isolation(false)]
pub fn encode_tj(t: &TypeJson) -> (r: JsonVal)
    ensures
        r@ == enc_tj(*t),
    decreases t,
{
    let mut fs: Vec<(String, JsonVal)> = Vec::new();
    match t {
        TypeJson::Long { required } => {
            fs.push((String::from_str("type"), JsonVal::Str(String::from_str("Long"))));
            proof {
                assert(entries_of(fs@) =~= seq![("type"@, JsonV::Str("Long"@))]);
            }
            push_req(&mut fs, required);
        },
        TypeJson::String { required } => {
            fs.push((String::from_str("type"), JsonVal::Str(String::from_str("String"))));
            proof {
                assert(entries_of(fs@) =~= seq![("type"@, JsonV::Str("String"@))]);
            }
            push_req(&mut fs, required);
        },
        TypeJson::Boolean { required } => {
            fs.push((String::from_str("type"), JsonVal::Str(String::from_str("Boolean"))));
            proof {
                assert(entries_of(fs@) =~= seq![("type"@, JsonV::Str("Boolean"@))]);
            }
            push_req(&mut fs, required);
        },
        TypeJson::SetOf { element, required } => {
            fs.push((String::from_str("type"), JsonVal::Str(String::from_str("Set"))));
            let el = encode_tj(element);
            fs.push((String::from_str("element"), el));
            proof {
                assert(entries_of(fs@) =~= seq![
                    ("type"@, JsonV::Str("Set"@)),
                    ("element"@, enc_tj(**element)),
                ]);
            }
            push_req(&mut fs, required);
        },
        TypeJson::Entity { name, required } => {
            fs.push((String::from_str("type"), JsonVal::Str(String::from_str("Entity"))));
            fs.push((String::from_str("name"), JsonVal::Str(name.clone())));
            proof {
                assert(entries_of(fs@) =~= seq![
                    ("type"@, JsonV::Str("Entity"@)),
                    ("name"@, JsonV::Str(name@)),
                ]);
            }
            push_req(&mut fs, required);
        },
        TypeJson::Record { attributes, required } => {
            fs.push((String::from_str("type"), JsonVal::Str(String::from_str("Record"))));
            let mut ats: Vec<(String, JsonVal)> = Vec::new();
            let mut i: usize = 0;
            while i < attributes.len()
                invariant
                    i <= attributes.len(),
                    ats@.len() == i as int,
                    forall|k: int|
                        0 <= k < i as int ==> (#[trigger] ats@[k]).0@ == attributes@[k].0@
                            && ats@[k].1@ == enc_tj(attributes@[k].1),
                decreases attributes.len() - i,
            {
                let p = &attributes[i];
                let e = encode_tj(&p.1);
                ats.push((p.0.clone(), e));
                i = i + 1;
            }
            let a_obj = JsonVal::Obj(ats);
            proof {
                assert(a_obj@->Obj_0 =~= enc_tj_entries(attributes@));
                assert(a_obj@ == JsonV::Obj(enc_tj_entries(attributes@)));
            }
            fs.push((String::from_str("attributes"), a_obj));
            proof {
                assert(entries_of(fs@) =~= seq![
                    ("type"@, JsonV::Str("Record"@)),
                    ("attributes"@, JsonV::Obj(enc_tj_entries(attributes@))),
                ]);
            }
            push_req(&mut fs, required);
        },
        TypeJson::Extension { name, required } => {
            fs.push((String::from_str("type"), JsonVal::Str(String::from_str("Extension"))));
            fs.push((String::from_str("name"), JsonVal::Str(name.clone())));
            proof {
                assert(entries_of(fs@) =~= seq![
                    ("type"@, JsonV::Str("Extension"@)),
                    ("name"@, JsonV::Str(name@)),
                ]);
            }
            push_req(&mut fs, required);
        },
        TypeJson::EntityOrCommon { name, required } => {
            fs.push((String::from_str("type"), JsonVal::Str(String::from_str("EntityOrCommon"))));
            fs.push((String::from_str("name"), JsonVal::Str(name.clone())));
            proof {
                assert(entries_of(fs@) =~= seq![
                    ("type"@, JsonV::Str("EntityOrCommon"@)),
                    ("name"@, JsonV::Str(name@)),
                ]);
            }
            push_req(&mut fs, required);
        },
    }
    JsonVal::Obj(fs)
}

#[verifier::loop_isolation(false)]
pub fn decode_tj(j: &JsonVal) -> (r: Option<TypeJson>)
    ensures
        r is Some <==> wf_tj(j@),
        r matches Some(t) ==> enc_tj(t) == j@,
    decreases j,
{
    let fs = match j {
        JsonVal::Obj(fs) => fs,
        _ => {
            return None;
        },
    };
    if fs.len() < 1 {
        return None;
    }
    let p0 = &fs[0];
    if !str_eq(p0.0.as_str(), "type") {
        return None;
    }
    let tag = match &p0.1 {
        JsonVal::Str(tag) => tag,
        _ => {
            return None;
        },
    };
    let ghost te = entries_of(fs@);
    if str_eq(tag.as_str(), "Long") {
        let Some(rq) = decode_req(fs, 1) else { return None };
        let t = TypeJson::Long { required: rq };
        proof {
            assert(enc_tj(t)->Obj_0 =~= te);
        }
        Some(t)
    } else if str_eq(tag.as_str(), "String") {
        let Some(rq) = decode_req(fs, 1) else { return None };
        let t = TypeJson::String { required: rq };
        proof {
            assert(enc_tj(t)->Obj_0 =~= te);
        }
        Some(t)
    } else if str_eq(tag.as_str(), "Boolean") {
        let Some(rq) = decode_req(fs, 1) else { return None };
        let t = TypeJson::Boolean { required: rq };
        proof {
            assert(enc_tj(t)->Obj_0 =~= te);
        }
        Some(t)
    } else if str_eq(tag.as_str(), "Set") {
        if fs.len() < 2 {
            return None;
        }
        let p1 = &fs[1];
        if !str_eq(p1.0.as_str(), "element") {
            return None;
        }
        let Some(el) = decode_tj(&p1.1) else { return None };
        let Some(rq) = decode_req(fs, 2) else { return None };
        let t = TypeJson::SetOf { element: Box::new(el), required: rq };
        proof {
            assert(enc_tj(t)->Obj_0 =~= te);
        }
        Some(t)
    } else if str_eq(tag.as_str(), "Entity") {
        if fs.len() < 2 {
            return None;
        }
        let p1 = &fs[1];
        if !str_eq(p1.0.as_str(), "name") {
            return None;
        }
        let name = match &p1.1 {
            JsonVal::Str(s) => s,
            _ => {
                return None;
            },
        };
        let Some(rq) = decode_req(fs, 2) else { return None };
        let t = TypeJson::Entity { name: name.clone(), required: rq };
        proof {
            assert(enc_tj(t)->Obj_0 =~= te);
        }
        Some(t)
    } else if str_eq(tag.as_str(), "Extension") {
        if fs.len() < 2 {
            return None;
        }
        let p1 = &fs[1];
        if !str_eq(p1.0.as_str(), "name") {
            return None;
        }
        let name = match &p1.1 {
            JsonVal::Str(s) => s,
            _ => {
                return None;
            },
        };
        let Some(rq) = decode_req(fs, 2) else { return None };
        let t = TypeJson::Extension { name: name.clone(), required: rq };
        proof {
            assert(enc_tj(t)->Obj_0 =~= te);
        }
        Some(t)
    } else if str_eq(tag.as_str(), "EntityOrCommon") {
        if fs.len() < 2 {
            return None;
        }
        let p1 = &fs[1];
        if !str_eq(p1.0.as_str(), "name") {
            return None;
        }
        let name = match &p1.1 {
            JsonVal::Str(s) => s,
            _ => {
                return None;
            },
        };
        let Some(rq) = decode_req(fs, 2) else { return None };
        let t = TypeJson::EntityOrCommon { name: name.clone(), required: rq };
        proof {
            assert(enc_tj(t)->Obj_0 =~= te);
        }
        Some(t)
    } else if str_eq(tag.as_str(), "Record") {
        if fs.len() < 2 {
            return None;
        }
        let p1 = &fs[1];
        if !str_eq(p1.0.as_str(), "attributes") {
            return None;
        }
        let ats_val = match &p1.1 {
            JsonVal::Obj(m) => m,
            _ => {
                return None;
            },
        };
        let mut ats: Vec<(String, TypeJson)> = Vec::new();
        let mut i: usize = 0;
        while i < ats_val.len()
            invariant
                i <= ats_val.len(),
                ats@.len() == i as int,
                forall|k: int|
                    0 <= k < i as int ==> wf_tj((#[trigger] ats_val@[k]).1@) && ats@[k].0@
                        == ats_val@[k].0@ && enc_tj(ats@[k].1) == ats_val@[k].1@,
            decreases ats_val.len() - i,
        {
            let p = &ats_val[i];
            match decode_tj(&p.1) {
                Some(a) => {
                    ats.push((p.0.clone(), a));
                },
                None => {
                    proof {
                        let o = te[1].1;
                        assert(o == fs@[1].1@);
                        assert(o->Obj_0[i as int].1 == ats_val@[i as int].1@);
                        assert(!wf_tj(j@));
                    }
                    return None;
                },
            }
            i = i + 1;
        }
        let Some(rq) = decode_req(fs, 2) else { return None };
        let t = TypeJson::Record { attributes: ats, required: rq };
        proof {
            assert(enc_tj_entries(ats@) =~= fs@[1].1@->Obj_0);
            assert(enc_tj(t)->Obj_0 =~= te);
            if !wf_tj(j@) {
                assert(te[1].1->Obj_0 == entries_of(ats_val@));
                assert forall|k: int| 0 <= k < entries_of(ats_val@).len() implies wf_tj(
                    (#[trigger] entries_of(ats_val@)[k]).1,
                ) by {
                    assert(entries_of(ats_val@)[k].1 == ats_val@[k].1@);
                }
                assert(false);
            }
        }
        Some(t)
    } else {
        return None;
    }
}

/// The tri-state requiredness of a schema type: absent means required.
pub open spec fn required_of(t: TypeJson) -> Option<bool> {
    match t {
        TypeJson::Long { required } => required,
        TypeJson::String { required } => required,
        TypeJson::Boolean { required } => required,
        TypeJson::SetOf { element, required } => required,
        TypeJson::Entity { name, required } => required,
        TypeJson::Record { attributes, required } => required,
        TypeJson::Extension { name, required } => required,
        TypeJson::EntityOrCommon { name, required } => required,
    }
}

/// The `required` flag round-trips as a tri-state: a schema type carries
/// the flag exactly when its encoding has a `required` key (so absence,
/// which means required, survives decoding and re-encoding and is never
/// coerced), and a present flag is the encoding's last entry with its
/// value.
pub proof fn lemma_required_default(t: TypeJson)
    ensures
        (required_of(t) is Some) <==> (exists|i: int|
            0 <= i < enc_tj(t)->Obj_0.len() && (#[trigger] enc_tj(t)->Obj_0[i]).0
                == "required"@),
        required_of(t) matches Some(b) ==> enc_tj(t)->Obj_0.last() == (
            "required"@,
            JsonV::Bool(b),
        ),
{
    reveal_strlit("type");
    reveal_strlit("element");
    reveal_strlit("name");
    reveal_strlit("attributes");
    reveal_strlit("required");
    assert("type"@.len() == 4);
    assert("element"@.len() == 7);
    assert("name"@.len() == 4);
    assert("attributes"@.len() == 10);
    assert("required"@.len() == 8);
    let fs = enc_tj(t)->Obj_0;
    match t {
        TypeJson::Long { required } => {
            lemma_req_tail(seq![("type"@, JsonV::Str("Long"@))], required);
            lemma_req_presence(seq![("type"@, JsonV::Str("Long"@))], required, fs);
        },
        TypeJson::String { required } => {
            lemma_req_tail(seq![("type"@, JsonV::Str("String"@))], required);
            lemma_req_presence(seq![("type"@, JsonV::Str("String"@))], required, fs);
        },
        TypeJson::Boolean { required } => {
            lemma_req_tail(seq![("type"@, JsonV::Str("Boolean"@))], required);
            lemma_req_presence(seq![("type"@, JsonV::Str("Boolean"@))], required, fs);
        },
        TypeJson::SetOf { element, required } => {
            lemma_req_presence(
                seq![("type"@, JsonV::Str("Set"@)), ("element"@, enc_tj(*element))],
                required,
                fs,
            );
        },
        TypeJson::Entity { name, required } => {
            lemma_req_presence(
                seq![("type"@, JsonV::Str("Entity"@)), ("name"@, JsonV::Str(name@))],
                required,
                fs,
            );
        },
        TypeJson::Record { attributes, required } => {
            lemma_req_presence(
                seq![
                    ("type"@, JsonV::Str("Record"@)),
                    ("attributes"@, JsonV::Obj(enc_tj_entries(attributes@))),
                ],
                required,
                fs,
            );
        },
        TypeJson::Extension { name, required } => {
            lemma_req_presence(
                seq![("type"@, JsonV::Str("Extension"@)), ("name"@, JsonV::Str(name@))],
                required,
                fs,
            );
        },
        TypeJson::EntityOrCommon { name, required } => {
            lemma_req_presence(
                seq![("type"@, JsonV::Str("EntityOrCommon"@)), ("name"@, JsonV::Str(name@))],
                required,
                fs,
            );
        },
    }
}

/// In a field list made of a base without a `required` key plus the
/// `required` entries, the key is present exactly when the flag is.
proof fn lemma_req_presence(
    base: Seq<(Seq<char>, JsonV)>,
    r: Option<bool>,
    fs: Seq<(Seq<char>, JsonV)>,
)
    requires
        fs == base + req_entries(r),
        forall|i: int| 0 <= i < base.len() ==> (#[trigger] base[i]).0 != "required"@,
    ensures
        (r is Some) <==> (exists|i: int|
            0 <= i < fs.len() && (#[trigger] fs[i]).0 == "required"@),
        r matches Some(b) ==> fs.last() == ("required"@, JsonV::Bool(b)),
{
    match r {
        Option::Some(b) => {
            assert(fs[fs.len() - 1] == ("required"@, JsonV::Bool(b)));
        },
        Option::None => {
            assert(fs =~= base);
            assert forall|i: int| 0 <= i < fs.len() implies (#[trigger] fs[i]).0
                != "required"@ by {
                assert(fs[i] == base[i]);
            }
        },
    }
}

/// Every encoded schema type is a tree its decoder accepts.
pub proof fn lemma_enc_tj_wf(t: TypeJson)
    ensures
        wf_tj(enc_tj(t)),
    decreases t,
{
    reveal_strlit("Long");
    reveal_strlit("String");
    reveal_strlit("Boolean");
    reveal_strlit("Set");
    reveal_strlit("Entity");
    reveal_strlit("Record");
    reveal_strlit("Extension");
    reveal_strlit("EntityOrCommon");
    assert("Long"@.len() == 4);
    assert("String"@.len() == 6);
    assert("Boolean"@.len() == 7);
    assert("Set"@.len() == 3);
    assert("Entity"@.len() == 6);
    assert("Record"@.len() == 6);
    assert("Extension"@.len() == 9);
    assert("EntityOrCommon"@.len() == 14);
    assert("String"@[0] == 'S' && "Entity"@[0] == 'E' && "Record"@[0] == 'R');
    match t {
        TypeJson::Long { required } => {
            lemma_req_tail(seq![("type"@, JsonV::Str("Long"@))], required);
        },
        TypeJson::String { required } => {
            lemma_req_tail(seq![("type"@, JsonV::Str("String"@))], required);
        },
        TypeJson::Boolean { required } => {
            lemma_req_tail(seq![("type"@, JsonV::Str("Boolean"@))], required);
        },
        TypeJson::SetOf { element, required } => {
            lemma_enc_tj_wf(*element);
            lemma_req_tail(
                seq![("type"@, JsonV::Str("Set"@)), ("element"@, enc_tj(*element))],
                required,
            );
        },
        TypeJson::Entity { name, required } => {
            lemma_req_tail(
                seq![("type"@, JsonV::Str("Entity"@)), ("name"@, JsonV::Str(name@))],
                required,
            );
        },
        TypeJson::Record { attributes, required } => {
            assert forall|k: int| 0 <= k < attributes@.len() implies wf_tj(
                (#[trigger] enc_tj_entries(attributes@)[k]).1,
            ) by {
                assert(enc_tj_entries(attributes@)[k].1 == enc_tj(attributes@[k].1));
                lemma_enc_tj_wf(attributes@[k].1);
            }
            lemma_req_tail(
                seq![
                    ("type"@, JsonV::Str("Record"@)),
                    ("attributes"@, JsonV::Obj(enc_tj_entries(attributes@))),
                ],
                required,
            );
        },
        TypeJson::Extension { name, required } => {
            lemma_req_tail(
                seq![("type"@, JsonV::Str("Extension"@)), ("name"@, JsonV::Str(name@))],
                required,
            );
        },
        TypeJson::EntityOrCommon { name, required } => {
            lemma_req_tail(
                seq![("type"@, JsonV::Str("EntityOrCommon"@)), ("name"@, JsonV::Str(name@))],
                required,
            );
        },
    }
}

/// A field list made of a base plus the `required` entries scans as a
/// well-formed tail, and keeps the base entries in place.
pub proof fn lemma_req_tail(base: Seq<(Seq<char>, JsonV)>, r: Option<bool>)
    ensures
        wf_req_tail(base + req_entries(r), base.len() as int),
        (base + req_entries(r)).len() == base.len() + req_entries(r).len(),
        forall|i: int| 0 <= i < base.len() ==> #[trigger] (base + req_entries(r))[i] == base[i],
{
    match r {
        Option::None => {
            assert(base + req_entries(r) =~= base);
        },
        Option::Some(b) => {
            assert((base + req_entries(r))[base.len() as int] == ("required"@, JsonV::Bool(b)));
        },
    }
}

// ------------------------------------------------------ entity type maps
pub open spec fn mot_entries(o: Option<Vec<String>>) -> Seq<(Seq<char>, JsonV)> {
    match o {
        Option::None => Seq::empty(),
        Option::Some(v) => seq![("memberOfTypes"@, JsonV::Arr(enc_strs(v@)))],
    }
}

pub open spec fn opt_tj_entries(key: Seq<char>, o: Option<TypeJson>) -> Seq<(Seq<char>, JsonV)> {
    match o {
        Option::None => Seq::empty(),
        Option::Some(tj) => seq![(key, enc_tj(tj))],
    }
}

pub open spec fn ann_entries(s: Seq<(String, String)>) -> Seq<(Seq<char>, JsonV)> {
    if s.len() == 0 {
        Seq::empty()
    } else {
        seq![("annotations"@, JsonV::Obj(enc_str_pairs(s)))]
    }
}

pub open spec fn enc_et(e: EntityType) -> JsonV {
    JsonV::Obj(
        mot_entries(e.member_of_types) + opt_tj_entries("shape"@, e.shape) + opt_tj_entries(
            "tags"@,
            e.tags,
        ) + ann_entries(e.annotations@),
    )
}

pub open spec fn et_has_mot(fs: Seq<(Seq<char>, JsonV)>) -> bool {
    0 < fs.len() && fs[0].0 == "memberOfTypes"@
}

pub open spec fn et_i1(fs: Seq<(Seq<char>, JsonV)>) -> int {
    if et_has_mot(fs) {
        1
    } else {
        0
    }
}

pub open spec fn et_has_shape(fs: Seq<(Seq<char>, JsonV)>) -> bool {
    et_i1(fs) < fs.len() && fs[et_i1(fs)].0 == "shape"@
}

pub open spec fn et_i2(fs: Seq<(Seq<char>, JsonV)>) -> int {
    if et_has_shape(fs) {
        et_i1(fs) + 1
    } else {
        et_i1(fs)
    }
}

pub open spec fn et_has_tags(fs: Seq<(Seq<char>, JsonV)>) -> bool {
    et_i2(fs) < fs.len() && fs[et_i2(fs)].0 == "tags"@
}

pub open spec fn et_i3(fs: Seq<(Seq<char>, JsonV)>) -> int {
    if et_has_tags(fs) {
        et_i2(fs) + 1
    } else {
        et_i2(fs)
    }
}

pub open spec fn et_has_ann(fs: Seq<(Seq<char>, JsonV)>) -> bool {
    et_i3(fs) < fs.len() && fs[et_i3(fs)].0 == "annotations"@
}

pub open spec fn et_i4(fs: Seq<(Seq<char>, JsonV)>) -> int {
    if et_has_ann(fs) {
        et_i3(fs) + 1
    } else {
        et_i3(fs)
    }
}

pub open spec fn wf_et(j: JsonV) -> bool {
    &&& j matches JsonV::Obj(fs)
    &&& et_i4(fs) == fs.len()
    &&& (et_has_mot(fs) ==> wf_str_arr(fs[0].1))
    &&& (et_has_shape(fs) ==> wf_tj(fs[et_i1(fs)].1))
    &&& (et_has_tags(fs) ==> wf_tj(fs[et_i2(fs)].1))
    &&& (et_has_ann(fs) ==> wf_str_obj(fs[et_i3(fs)].1) && fs[et_i3(fs)].1->Obj_0.len() > 0)
}

pub fn encode_et(e: &EntityType) -> (r: JsonVal)
    ensures
        r@ == enc_et(*e),
{
    let mut fs: Vec<(String, JsonVal)> = Vec::new();
    match &e.member_of_types {
        Option::Some(v) => {
            let arr = JsonVal::Arr(encode_strs(v));
            proof {
                assert(arr@ == JsonV::Arr(enc_strs(v@)));
            }
            fs.push((String::from_str("memberOfTypes"), arr));
        },
        Option::None => {},
    }
    proof {
        assert(entries_of(fs@) =~= mot_entries(e.member_of_types));
    }
    match &e.shape {
        Option::Some(tj) => {
            fs.push((String::from_str("shape"), encode_tj(tj)));
        },
        Option::None => {},
    }
    proof {
        assert(entries_of(fs@) =~= mot_entries(e.member_of_types) + opt_tj_entries(
            "shape"@,
            e.shape,
        ));
    }
    match &e.tags {
        Option::Some(tj) => {
            fs.push((String::from_str("tags"), encode_tj(tj)));
        },
        Option::None => {},
    }
    proof {
        assert(entries_of(fs@) =~= mot_entries(e.member_of_types) + opt_tj_entries(
            "shape"@,
            e.shape,
        ) + opt_tj_entries("tags"@, e.tags));
    }
    if e.annotations.len() > 0 {
        let an = JsonVal::Obj(encode_str_pairs(&e.annotations));
        proof {
            assert(an@ == JsonV::Obj(enc_str_pairs(e.annotations@)));
        }
        fs.push((String::from_str("annotations"), an));
    }
    proof {
        assert(entries_of(fs@) =~= mot_entries(e.member_of_types) + opt_tj_entries(
            "shape"@,
            e.shape,
        ) + opt_tj_entries("tags"@, e.tags) + ann_entries(e.annotations@));
    }
    JsonVal::Obj(fs)
}

pub fn decode_et(j: &JsonVal) -> (r: Option<EntityType>)
    ensures
        r is Some <==> wf_et(j@),
        r matches Some(e) ==> enc_et(e) == j@,
{
    let fs = match j {
        JsonVal::Obj(fs) => fs,
        _ => {
            return None;
        },
    };
    let ghost ent = entries_of(fs@);
    let mut i: usize = 0;
    let mut member_of_types: Option<Vec<String>> = None;
    let mut shape: Option<TypeJson> = None;
    let mut tags: Option<TypeJson> = None;
    let mut annotations: Vec<(String, String)> = Vec::new();
    if fs.len() > 0 && str_eq(fs[0].0.as_str(), "memberOfTypes") {
        proof {
            assert(et_has_mot(ent));
        }
        let es = match &fs[0].1 {
            JsonVal::Arr(es) => es,
            _ => {
                proof {
                    assert(!wf_str_arr(ent[0].1));
                }
                return None;
            },
        };
        let Some(ss) = decode_strs(es) else {
            proof {
                if wf_str_arr(ent[0].1) {
                    assert forall|k: int| 0 <= k < es@.len() implies ((#[trigger] es@[k])@)
                        is Str by {
                        assert(ent[0].1->Arr_0[k] == es@[k]@);
                    }
                    assert(false);
                }
            }
            return None
        };
        member_of_types = Some(ss);
        i = 1;
    }
    proof {
        assert(i as int == et_i1(ent));
        assert(ent.subrange(0, i as int) =~= mot_entries(member_of_types));
    }
    if i < fs.len() && str_eq(fs[i].0.as_str(), "shape") {
        proof {
            assert(et_has_shape(ent));
        }
        let Some(tj) = decode_tj(&fs[i].1) else {
            proof {
                assert(!wf_tj(ent[et_i1(ent)].1));
            }
            return None
        };
        shape = Some(tj);
        i = i + 1;
    }
    proof {
        assert(i as int == et_i2(ent));
        assert(ent.subrange(0, i as int) =~= mot_entries(member_of_types) + opt_tj_entries(
            "shape"@,
            shape,
        ));
    }
    if i < fs.len() && str_eq(fs[i].0.as_str(), "tags") {
        proof {
            assert(et_has_tags(ent));
        }
        let Some(tj) = decode_tj(&fs[i].1) else {
            proof {
                assert(!wf_tj(ent[et_i2(ent)].1));
            }
            return None
        };
        tags = Some(tj);
        i = i + 1;
    }
    proof {
        assert(i as int == et_i3(ent));
        assert(ent.subrange(0, i as int) =~= mot_entries(member_of_types) + opt_tj_entries(
            "shape"@,
            shape,
        ) + opt_tj_entries("tags"@, tags));
    }
    if i < fs.len() && str_eq(fs[i].0.as_str(), "annotations") {
        proof {
            assert(et_has_ann(ent));
        }
        let an_val = match &fs[i].1 {
            JsonVal::Obj(m) => m,
            _ => {
                return None;
            },
        };
        if an_val.len() == 0 {
            proof {
                assert(ent[et_i3(ent)].1->Obj_0.len() == 0);
            }
            return None;
        }
        let Some(ss) = decode_str_pairs(an_val) else {
            proof {
                if wf_et(j@) {
                    assert forall|k: int|
                        0 <= k < an_val@.len() implies ((#[trigger] an_val@[k]).1@) is Str by {
                        assert(ent[et_i3(ent)].1->Obj_0[k] == (an_val@[k].0@, an_val@[k].1@));
                    }
                    assert(false);
                }
            }
            return None
        };
        annotations = ss;
        i = i + 1;
    }
    proof {
        assert(i as int == et_i4(ent));
        assert(ent.subrange(0, i as int) =~= mot_entries(member_of_types) + opt_tj_entries(
            "shape"@,
            shape,
        ) + opt_tj_entries("tags"@, tags) + ann_entries(annotations@));
    }
    if i != fs.len() {
        return None;
    }
    let e = EntityType { member_of_types, shape, tags, annotations };
    proof {
        assert(ent.subrange(0, i as int) =~= ent);
        assert(enc_et(e)->Obj_0 == ent);
        assert(wf_et(j@));
    }
    Some(e)
}

/// Every encoded entity type declaration is a tree its decoder accepts.
pub proof fn lemma_enc_et_wf(e: EntityType)
    ensures
        wf_et(enc_et(e)),
{
    reveal_strlit("memberOfTypes");
    reveal_strlit("shape");
    reveal_strlit("tags");
    reveal_strlit("annotations");
    assert("memberOfTypes"@.len() == 13);
    assert("shape"@.len() == 5);
    assert("tags"@.len() == 4);
    assert("annotations"@.len() == 11);
    let fs = enc_et(e)->Obj_0;
    let a = mot_entries(e.member_of_types);
    let b = opt_tj_entries("shape"@, e.shape);
    let c = opt_tj_entries("tags"@, e.tags);
    let d = ann_entries(e.annotations@);
    assert(fs == a + b + c + d);
    assert(et_has_mot(fs) == (e.member_of_types is Some));
    assert(et_i1(fs) == a.len());
    if e.shape is Some {
        assert(fs[a.len() as int] == b[0]);
    }
    assert(et_has_shape(fs) == (e.shape is Some));
    assert(et_i2(fs) == a.len() + b.len());
    if e.tags is Some {
        assert(fs[(a.len() + b.len()) as int] == c[0]);
    }
    assert(et_has_tags(fs) == (e.tags is Some));
    assert(et_i3(fs) == a.len() + b.len() + c.len());
    if e.annotations@.len() > 0 {
        assert(fs[(a.len() + b.len() + c.len()) as int] == d[0]);
    }
    assert(et_has_ann(fs) == (e.annotations@.len() > 0));
    assert(et_i4(fs) == fs.len());
    match e.shape {
        Option::Some(tj) => {
            lemma_enc_tj_wf(tj);
            assert(fs[et_i1(fs)].1 == enc_tj(tj));
        },
        Option::None => {},
    }
    match e.tags {
        Option::Some(tj) => {
            lemma_enc_tj_wf(tj);
            assert(fs[et_i2(fs)].1 == enc_tj(tj));
        },
        Option::None => {},
    }
}

// ---------------------------------------------------------------- AppliesTo
pub open spec fn opt_tj_entry(key: Seq<char>, o: Option<TypeJson>) -> Seq<(Seq<char>, JsonV)> {
    opt_tj_entries(key, o)
}

pub open spec fn enc_at(a: AppliesTo) -> JsonV {
    JsonV::Obj(
        seq![
            ("principalTypes"@, JsonV::Arr(enc_strs(a.principal_types@))),
            ("resourceTypes"@, JsonV::Arr(enc_strs(a.resource_types@))),
        ] + opt_tj_entries("context"@, a.context),
    )
}

pub open spec fn wf_at(j: JsonV) -> bool {
    &&& j matches JsonV::Obj(fs)
    &&& fs.len() == 2 || fs.len() == 3
    &&& fs[0].0 == "principalTypes"@
    &&& wf_str_arr(fs[0].1)
    &&& fs[1].0 == "resourceTypes"@
    &&& wf_str_arr(fs[1].1)
    &&& fs.len() == 3 ==> fs[2].0 == "context"@ && wf_tj(fs[2].1)
}

pub fn encode_at(a: &AppliesTo) -> (r: JsonVal)
    ensures
        r@ == enc_at(*a),
{
    let mut fs: Vec<(String, JsonVal)> = Vec::new();
    let pt = JsonVal::Arr(encode_strs(&a.principal_types));
    let rt = JsonVal::Arr(encode_strs(&a.resource_types));
    proof {
        assert(pt@ == JsonV::Arr(enc_strs(a.principal_types@)));
        assert(rt@ == JsonV::Arr(enc_strs(a.resource_types@)));
    }
    fs.push((String::from_str("principalTypes"), pt));
    fs.push((String::from_str("resourceTypes"), rt));
    match &a.context {
        Option::Some(tj) => {
            fs.push((String::from_str("context"), encode_tj(tj)));
        },
        Option::None => {},
    }
    proof {
        assert(entries_of(fs@) =~= seq![
            ("principalTypes"@, JsonV::Arr(enc_strs(a.principal_types@))),
            ("resourceTypes"@, JsonV::Arr(enc_strs(a.resource_types@))),
        ] + opt_tj_entries("context"@, a.context));
    }
    JsonVal::Obj(fs)
}

pub fn decode_at(j: &JsonVal) -> (r: Option<AppliesTo>)
    ensures
        r is Some <==> wf_at(j@),
        r matches Some(a) ==> enc_at(a) == j@,
{
    let fs = match j {
        JsonVal::Obj(fs) => fs,
        _ => {
            return None;
        },
    };
    let ghost ent = entries_of(fs@);
    if fs.len() != 2 && fs.len() != 3 {
        return None;
    }
    if !str_eq(fs[0].0.as_str(), "principalTypes") || !str_eq(fs[1].0.as_str(), "resourceTypes") {
        return None;
    }
    let p_val = match &fs[0].1 {
        JsonVal::Arr(es) => es,
        _ => {
            return None;
        },
    };
    let Some(principal_types) = decode_strs(p_val) else {
        proof {
            if wf_str_arr(ent[0].1) {
                assert forall|k: int| 0 <= k < p_val@.len() implies ((#[trigger] p_val@[k])@)
                    is Str by {
                    assert(ent[0].1->Arr_0[k] == p_val@[k]@);
                }
                assert(false);
            }
        }
        return None
    };
    let r_val = match &fs[1].1 {
        JsonVal::Arr(es) => es,
        _ => {
            return None;
        },
    };
    let Some(resource_types) = decode_strs(r_val) else {
        proof {
            if wf_str_arr(ent[1].1) {
                assert forall|k: int| 0 <= k < r_val@.len() implies ((#[trigger] r_val@[k])@)
                    is Str by {
                    assert(ent[1].1->Arr_0[k] == r_val@[k]@);
                }
                assert(false);
            }
        }
        return None
    };
    let mut context: Option<TypeJson> = None;
    if fs.len() == 3 {
        if !str_eq(fs[2].0.as_str(), "context") {
            return None;
        }
        let Some(tj) = decode_tj(&fs[2].1) else { return None };
        context = Some(tj);
    }
    let a = AppliesTo { principal_types, resource_types, context };
    proof {
        assert(enc_at(a)->Obj_0 =~= ent);
        assert(wf_at(j@));
    }
    Some(a)
}

/// Every encoded applies-to clause is a tree its decoder accepts.
pub proof fn lemma_enc_at_wf(a: AppliesTo)
    ensures
        wf_at(enc_at(a)),
{
    let fs = enc_at(a)->Obj_0;
    match a.context {
        Option::Some(tj) => {
            lemma_enc_tj_wf(tj);
            assert(fs[2] == ("context"@, enc_tj(tj)));
        },
        Option::None => {
            assert(fs =~= seq![
                ("principalTypes"@, JsonV::Arr(enc_strs(a.principal_types@))),
                ("resourceTypes"@, JsonV::Arr(enc_strs(a.resource_types@))),
            ]);
        },
    }
}

// ------------------------------------------------------------------ Action
pub open spec fn opt_at_entries(o: Option<AppliesTo>) -> Seq<(Seq<char>, JsonV)> {
    match o {
        Option::None => Seq::empty(),
        Option::Some(a) => seq![("appliesTo"@, enc_at(a))],
    }
}

pub open spec fn mo_entries(o: Option<Vec<String>>) -> Seq<(Seq<char>, JsonV)> {
    match o {
        Option::None => Seq::empty(),
        Option::Some(v) => seq![("memberOf"@, JsonV::Arr(enc_strs(v@)))],
    }
}

pub open spec fn enc_action(a: Action) -> JsonV {
    JsonV::Obj(mo_entries(a.member_of) + opt_at_entries(a.applies_to) + ann_entries(a.annotations@))
}

pub open spec fn act_has_mo(fs: Seq<(Seq<char>, JsonV)>) -> bool {
    0 < fs.len() && fs[0].0 == "memberOf"@
}

pub open spec fn act_i1(fs: Seq<(Seq<char>, JsonV)>) -> int {
    if act_has_mo(fs) {
        1
    } else {
        0
    }
}

pub open spec fn act_has_at(fs: Seq<(Seq<char>, JsonV)>) -> bool {
    act_i1(fs) < fs.len() && fs[act_i1(fs)].0 == "appliesTo"@
}

pub open spec fn act_i2(fs: Seq<(Seq<char>, JsonV)>) -> int {
    if act_has_at(fs) {
        act_i1(fs) + 1
    } else {
        act_i1(fs)
    }
}

pub open spec fn act_has_ann(fs: Seq<(Seq<char>, JsonV)>) -> bool {
    act_i2(fs) < fs.len() && fs[act_i2(fs)].0 == "annotations"@
}

pub open spec fn act_i3(fs: Seq<(Seq<char>, JsonV)>) -> int {
    if act_has_ann(fs) {
        act_i2(fs) + 1
    } else {
        act_i2(fs)
    }
}

pub open spec fn wf_action(j: JsonV) -> bool {
    &&& j matches JsonV::Obj(fs)
    &&& act_i3(fs) == fs.len()
    &&& (act_has_mo(fs) ==> wf_str_arr(fs[0].1))
    &&& (act_has_at(fs) ==> wf_at(fs[act_i1(fs)].1))
    &&& (act_has_ann(fs) ==> wf_str_obj(fs[act_i2(fs)].1) && fs[act_i2(fs)].1->Obj_0.len() > 0)
}

pub fn encode_action(a: &Action) -> (r: JsonVal)
    ensures
        r@ == enc_action(*a),
{
    let mut fs: Vec<(String, JsonVal)> = Vec::new();
    match &a.member_of {
        Option::Some(v) => {
            let arr = JsonVal::Arr(encode_strs(v));
            proof {
                assert(arr@ == JsonV::Arr(enc_strs(v@)));
            }
            fs.push((String::from_str("memberOf"), arr));
        },
        Option::None => {},
    }
    proof {
        assert(entries_of(fs@) =~= mo_entries(a.member_of));
    }
    match &a.applies_to {
        Option::Some(at) => {
            fs.push((String::from_str("appliesTo"), encode_at(at)));
        },
        Option::None => {},
    }
    proof {
        assert(entries_of(fs@) =~= mo_entries(a.member_of) + opt_at_entries(a.applies_to));
    }
    if a.annotations.len() > 0 {
        let an = JsonVal::Obj(encode_str_pairs(&a.annotations));
        proof {
            assert(an@ == JsonV::Obj(enc_str_pairs(a.annotations@)));
        }
        fs.push((String::from_str("annotations"), an));
    }
    proof {
        assert(entries_of(fs@) =~= mo_entries(a.member_of) + opt_at_entries(a.applies_to)
            + ann_entries(a.annotations@));
    }
    JsonVal::Obj(fs)
}

pub fn decode_action(j: &JsonVal) -> (r: Option<Action>)
    ensures
        r is Some <==> wf_action(j@),
        r matches Some(a) ==> enc_action(a) == j@,
{
    let fs = match j {
        JsonVal::Obj(fs) => fs,
        _ => {
            return None;
        },
    };
    let ghost ent = entries_of(fs@);
    let mut i: usize = 0;
    let mut member_of: Option<Vec<String>> = None;
    let mut applies_to: Option<AppliesTo> = None;
    let mut annotations: Vec<(String, String)> = Vec::new();
    if fs.len() > 0 && str_eq(fs[0].0.as_str(), "memberOf") {
        proof {
            assert(act_has_mo(ent));
        }
        let es = match &fs[0].1 {
            JsonVal::Arr(es) => es,
            _ => {
                proof {
                    assert(!wf_str_arr(ent[0].1));
                }
                return None;
            },
        };
        let Some(ss) = decode_strs(es) else {
            proof {
                if wf_str_arr(ent[0].1) {
                    assert forall|k: int| 0 <= k < es@.len() implies ((#[trigger] es@[k])@)
                        is Str by {
                        assert(ent[0].1->Arr_0[k] == es@[k]@);
                    }
                    assert(false);
                }
            }
            return None
        };
        member_of = Some(ss);
        i = 1;
    }
    proof {
        assert(i as int == act_i1(ent));
        assert(ent.subrange(0, i as int) =~= mo_entries(member_of));
    }
    if i < fs.len() && str_eq(fs[i].0.as_str(), "appliesTo") {
        proof {
            assert(act_has_at(ent));
        }
        let Some(at) = decode_at(&fs[i].1) else {
            proof {
                assert(!wf_at(ent[act_i1(ent)].1));
            }
            return None
        };
        applies_to = Some(at);
        i = i + 1;
    }
    proof {
        assert(i as int == act_i2(ent));
        assert(ent.subrange(0, i as int) =~= mo_entries(member_of) + opt_at_entries(applies_to));
    }
    if i < fs.len() && str_eq(fs[i].0.as_str(), "annotations") {
        proof {
            assert(act_has_ann(ent));
        }
        let an_val = match &fs[i].1 {
            JsonVal::Obj(m) => m,
            _ => {
                return None;
            },
        };
        if an_val.len() == 0 {
            proof {
                assert(ent[act_i2(ent)].1->Obj_0.len() == 0);
            }
            return None;
        }
        let Some(ss) = decode_str_pairs(an_val) else {
            proof {
                if wf_action(j@) {
                    assert forall|k: int|
                        0 <= k < an_val@.len() implies ((#[trigger] an_val@[k]).1@) is Str by {
                        assert(ent[act_i2(ent)].1->Obj_0[k] == (an_val@[k].0@, an_val@[k].1@));
                    }
                    assert(false);
                }
            }
            return None
        };
        annotations = ss;
        i = i + 1;
    }
    proof {
        assert(i as int == act_i3(ent));
        assert(ent.subrange(0, i as int) =~= mo_entries(member_of) + opt_at_entries(applies_to)
            + ann_entries(annotations@));
    }
    if i != fs.len() {
        return None;
    }
    let a = Action { member_of, applies_to, annotations };
    proof {
        assert(ent.subrange(0, i as int) =~= ent);
        assert(enc_action(a)->Obj_0 == ent);
        assert(wf_action(j@));
    }
    Some(a)
}

/// Every encoded action declaration is a tree its decoder accepts.
pub proof fn lemma_enc_action_wf(a: Action)
    ensures
        wf_action(enc_action(a)),
{
    reveal_strlit("memberOf");
    reveal_strlit("appliesTo");
    reveal_strlit("annotations");
    assert("memberOf"@.len() == 8);
    assert("appliesTo"@.len() == 9);
    assert("annotations"@.len() == 11);
    let fs = enc_action(a)->Obj_0;
    let b0 = mo_entries(a.member_of);
    let b1 = opt_at_entries(a.applies_to);
    let b2 = ann_entries(a.annotations@);
    assert(fs == b0 + b1 + b2);
    assert(act_has_mo(fs) == (a.member_of is Some));
    assert(act_i1(fs) == b0.len());
    if a.applies_to is Some {
        assert(fs[b0.len() as int] == b1[0]);
    }
    assert(act_has_at(fs) == (a.applies_to is Some));
    assert(act_i2(fs) == b0.len() + b1.len());
    if a.annotations@.len() > 0 {
        assert(fs[(b0.len() + b1.len()) as int] == b2[0]);
    }
    assert(act_has_ann(fs) == (a.annotations@.len() > 0));
    assert(act_i3(fs) == fs.len());
    match a.applies_to {
        Option::Some(at) => {
            lemma_enc_at_wf(at);
            assert(fs[act_i1(fs)].1 == enc_at(at));
        },
        Option::None => {},
    }
}

// -------------------------------------------------------------- Namespace
pub open spec fn enc_et_entries(s: Seq<(String, EntityType)>) -> Seq<(Seq<char>, JsonV)> {
    Seq::new(s.len(), |i: int| (s[i].0@, enc_et(s[i].1)))
}

pub open spec fn enc_action_entries(s: Seq<(String, Action)>) -> Seq<(Seq<char>, JsonV)> {
    Seq::new(s.len(), |i: int| (s[i].0@, enc_action(s[i].1)))
}

pub open spec fn opt_ct_entries(o: Option<Vec<(String, TypeJson)>>) -> Seq<(Seq<char>, JsonV)> {
    match o {
        Option::None => Seq::empty(),
        Option::Some(v) => seq![("commonTypes"@, JsonV::Obj(enc_tj_entries(v@)))],
    }
}

pub open spec fn enc_ns(n: Namespace) -> JsonV {
    JsonV::Obj(
        seq![
            ("entityTypes"@, JsonV::Obj(enc_et_entries(n.entity_types@))),
            ("actions"@, JsonV::Obj(enc_action_entries(n.actions@))),
        ] + opt_ct_entries(n.common_types),
    )
}

pub open spec fn wf_et_obj(j: JsonV) -> bool {
    &&& j matches JsonV::Obj(fs)
    &&& forall|i: int| 0 <= i < fs.len() ==> wf_et((#[trigger] fs[i]).1)
}

pub open spec fn wf_action_obj(j: JsonV) -> bool {
    &&& j matches JsonV::Obj(fs)
    &&& forall|i: int| 0 <= i < fs.len() ==> wf_action((#[trigger] fs[i]).1)
}

pub open spec fn wf_tj_obj(j: JsonV) -> bool {
    &&& j matches JsonV::Obj(fs)
    &&& forall|i: int| 0 <= i < fs.len() ==> wf_tj((#[trigger] fs[i]).1)
}

pub open spec fn wf_ns(j: JsonV) -> bool {
    &&& j matches JsonV::Obj(fs)
    &&& fs.len() == 2 || fs.len() == 3
    &&& fs[0].0 == "entityTypes"@
    &&& wf_et_obj(fs[0].1)
    &&& fs[1].0 == "actions"@
    &&& wf_action_obj(fs[1].1)
    &&& fs.len() == 3 ==> fs[2].0 == "commonTypes"@ && wf_tj_obj(fs[2].1)
}

#[verifier::loop_isolation(false)]
pub fn encode_et_pairs(v: &Vec<(String, EntityType)>) -> (r: Vec<(String, JsonVal)>)
    ensures
        entries_of(r@) == enc_et_entries(v@),
{
    let mut out: Vec<(String, JsonVal)> = Vec::new();
    let mut i: usize = 0;
    while i < v.len()
        invariant
            i <= v.len(),
            out@.len() == i as int,
            forall|k: int|
                0 <= k < i as int ==> (#[trigger] out@[k]).0@ == v@[k].0@ && out@[k].1@ == enc_et(
                    v@[k].1,
                ),
        decreases v.len() - i,
    {
        let p = &v[i];
        let e = encode_et(&p.1);
        out.push((p.0.clone(), e));
        i = i + 1;
    }
    proof {
        assert(entries_of(out@) =~= enc_et_entries(v@));
    }
    out
}

#[verifier::loop_isolation(false)]
pub fn decode_et_pairs(v: &Vec<(String, JsonVal)>) -> (r: Option<Vec<(String, EntityType)>>)
    ensures
        r is Some <==> (forall|k: int| 0 <= k < v@.len() ==> wf_et((#[trigger] v@[k]).1@)),
        r matches Some(m) ==> enc_et_entries(m@) == entries_of(v@),
{
    let mut out: Vec<(String, EntityType)> = Vec::new();
    let mut i: usize = 0;
    while i < v.len()
        invariant
            i <= v.len(),
            out@.len() == i as int,
            forall|k: int|
                0 <= k < i as int ==> wf_et((#[trigger] v@[k]).1@) && out@[k].0@ == v@[k].0@
                    && enc_et(out@[k].1) == v@[k].1@,
        decreases v.len() - i,
    {
        let p = &v[i];
        match decode_et(&p.1) {
            Some(a) => {
                out.push((p.0.clone(), a));
            },
            None => {
                return None;
            },
        }
        i = i + 1;
    }
    proof {
        assert(enc_et_entries(out@) =~= entries_of(v@));
    }
    Some(out)
}

#[verifier::loop_isolation(false)]
pub fn encode_action_pairs(v: &Vec<(String, Action)>) -> (r: Vec<(String, JsonVal)>)
    ensures
        entries_of(r@) == enc_action_entries(v@),
{
    let mut out: Vec<(String, JsonVal)> = Vec::new();
    let mut i: usize = 0;
    while i < v.len()
        invariant
            i <= v.len(),
            out@.len() == i as int,
            forall|k: int|
                0 <= k < i as int ==> (#[trigger] out@[k]).0@ == v@[k].0@ && out@[k].1@
                    == enc_action(v@[k].1),
        decreases v.len() - i,
    {
        let p = &v[i];
        let e = encode_action(&p.1);
        out.push((p.0.clone(), e));
        i = i + 1;
    }
    proof {
        assert(entries_of(out@) =~= enc_action_entries(v@));
    }
    out
}

#[verifier::loop_isolation(false)]
pub fn decode_action_pairs(v: &Vec<(String, JsonVal)>) -> (r: Option<Vec<(String, Action)>>)
    ensures
        r is Some <==> (forall|k: int| 0 <= k < v@.len() ==> wf_action((#[trigger] v@[k]).1@)),
        r matches Some(m) ==> enc_action_entries(m@) == entries_of(v@),
{
    let mut out: Vec<(String, Action)> = Vec::new();
    let mut i: usize = 0;
    while i < v.len()
        invariant
            i <= v.len(),
            out@.len() == i as int,
            forall|k: int|
                0 <= k < i as int ==> wf_action((#[trigger] v@[k]).1@) && out@[k].0@ == v@[k].0@
                    && enc_action(out@[k].1) == v@[k].1@,
        decreases v.len() - i,
    {
        let p = &v[i];
        match decode_action(&p.1) {
            Some(a) => {
                out.push((p.0.clone(), a));
            },
            None => {
                return None;
            },
        }
        i = i + 1;
    }
    proof {
        assert(enc_action_entries(out@) =~= entries_of(v@));
    }
    Some(out)
}

#[verifier::loop_isolation(false)]
pub fn encode_tj_pairs(v: &Vec<(String, TypeJson)>) -> (r: Vec<(String, JsonVal)>)
    ensures
        entries_of(r@) == enc_tj_entries(v@),
{
    let mut out: Vec<(String, JsonVal)> = Vec::new();
    let mut i: usize = 0;
    while i < v.len()
        invariant
            i <= v.len(),
            out@.len() == i as int,
            forall|k: int|
                0 <= k < i as int ==> (#[trigger] out@[k]).0@ == v@[k].0@ && out@[k].1@ == enc_tj(
                    v@[k].1,
                ),
        decreases v.len() - i,
    {
        let p = &v[i];
        let e = encode_tj(&p.1);
        out.push((p.0.clone(), e));
        i = i + 1;
    }
    proof {
        assert(entries_of(out@) =~= enc_tj_entries(v@));
    }
    out
}

#[verifier::loop_isolation(false)]
pub fn decode_tj_pairs(v: &Vec<(String, JsonVal)>) -> (r: Option<Vec<(String, TypeJson)>>)
    ensures
        r is Some <==> (forall|k: int| 0 <= k < v@.len() ==> wf_tj((#[trigger] v@[k]).1@)),
        r matches Some(m) ==> enc_tj_entries(m@) == entries_of(v@),
{
    let mut out: Vec<(String, TypeJson)> = Vec::new();
    let mut i: usize = 0;
    while i < v.len()
        invariant
            i <= v.len(),
            out@.len() == i as int,
            forall|k: int|
                0 <= k < i as int ==> wf_tj((#[trigger] v@[k]).1@) && out@[k].0@ == v@[k].0@
                    && enc_tj(out@[k].1) == v@[k].1@,
        decreases v.len() - i,
    {
        let p = &v[i];
        match decode_tj(&p.1) {
            Some(a) => {
                out.push((p.0.clone(), a));
            },
            None => {
                return None;
            },
        }
        i = i + 1;
    }
    proof {
        assert(enc_tj_entries(out@) =~= entries_of(v@));
    }
    Some(out)
}

pub fn encode_ns(n: &Namespace) -> (r: JsonVal)
    ensures
        r@ == enc_ns(*n),
{
    let mut fs: Vec<(String, JsonVal)> = Vec::new();
    let et = JsonVal::Obj(encode_et_pairs(&n.entity_types));
    let ac = JsonVal::Obj(encode_action_pairs(&n.actions));
    proof {
        assert(et@ == JsonV::Obj(enc_et_entries(n.entity_types@)));
        assert(ac@ == JsonV::Obj(enc_action_entries(n.actions@)));
    }
    fs.push((String::from_str("entityTypes"), et));
    fs.push((String::from_str("actions"), ac));
    match &n.common_types {
        Option::Some(v) => {
            let ct = JsonVal::Obj(encode_tj_pairs(v));
            proof {
                assert(ct@ == JsonV::Obj(enc_tj_entries(v@)));
            }
            fs.push((String::from_str("commonTypes"), ct));
        },
        Option::None => {},
    }
    proof {
        assert(entries_of(fs@) =~= seq![
            ("entityTypes"@, JsonV::Obj(enc_et_entries(n.entity_types@))),
            ("actions"@, JsonV::Obj(enc_action_entries(n.actions@))),
        ] + opt_ct_entries(n.common_types));
    }
    JsonVal::Obj(fs)
}

pub fn decode_ns(j: &JsonVal) -> (r: Option<Namespace>)
    ensures
        r is Some <==> wf_ns(j@),
        r matches Some(n) ==> enc_ns(n) == j@,
{
    let fs = match j {
        JsonVal::Obj(fs) => fs,
        _ => {
            return None;
        },
    };
    let ghost ent = entries_of(fs@);
    if fs.len() != 2 && fs.len() != 3 {
        return None;
    }
    if !str_eq(fs[0].0.as_str(), "entityTypes") || !str_eq(fs[1].0.as_str(), "actions") {
        return None;
    }
    let et_val = match &fs[0].1 {
        JsonVal::Obj(m) => m,
        _ => {
            return None;
        },
    };
    let Some(entity_types) = decode_et_pairs(et_val) else {
        proof {
            if wf_et_obj(ent[0].1) {
                assert forall|k: int| 0 <= k < et_val@.len() implies wf_et(
                    (#[trigger] et_val@[k]).1@,
                ) by {
                    assert(ent[0].1->Obj_0[k] == (et_val@[k].0@, et_val@[k].1@));
                }
                assert(false);
            }
        }
        return None
    };
    let ac_val = match &fs[1].1 {
        JsonVal::Obj(m) => m,
        _ => {
            return None;
        },
    };
    let Some(actions) = decode_action_pairs(ac_val) else {
        proof {
            if wf_action_obj(ent[1].1) {
                assert forall|k: int| 0 <= k < ac_val@.len() implies wf_action(
                    (#[trigger] ac_val@[k]).1@,
                ) by {
                    assert(ent[1].1->Obj_0[k] == (ac_val@[k].0@, ac_val@[k].1@));
                }
                assert(false);
            }
        }
        return None
    };
    let mut common_types: Option<Vec<(String, TypeJson)>> = None;
    if fs.len() == 3 {
        if !str_eq(fs[2].0.as_str(), "commonTypes") {
            return None;
        }
        let ct_val = match &fs[2].1 {
            JsonVal::Obj(m) => m,
            _ => {
                return None;
            },
        };
        let Some(ct) = decode_tj_pairs(ct_val) else {
            proof {
                if wf_tj_obj(ent[2].1) {
                    assert forall|k: int| 0 <= k < ct_val@.len() implies wf_tj(
                        (#[trigger] ct_val@[k]).1@,
                    ) by {
                        assert(ent[2].1->Obj_0[k] == (ct_val@[k].0@, ct_val@[k].1@));
                    }
                    assert(false);
                }
            }
            return None
        };
        common_types = Some(ct);
    }
    let n = Namespace { entity_types, actions, common_types };
    proof {
        assert(enc_ns(n)->Obj_0 =~= ent);
        assert(wf_ns(j@));
    }
    Some(n)
}

/// Every encoded namespace is a tree its decoder accepts.
pub proof fn lemma_enc_ns_wf(n: Namespace)
    ensures
        wf_ns(enc_ns(n)),
{
    let fs = enc_ns(n)->Obj_0;
    assert forall|i: int| 0 <= i < n.entity_types@.len() implies wf_et(
        (#[trigger] enc_et_entries(n.entity_types@)[i]).1,
    ) by {
        assert(enc_et_entries(n.entity_types@)[i].1 == enc_et(n.entity_types@[i].1));
        lemma_enc_et_wf(n.entity_types@[i].1);
    }
    assert forall|i: int| 0 <= i < n.actions@.len() implies wf_action(
        (#[trigger] enc_action_entries(n.actions@)[i]).1,
    ) by {
        assert(enc_action_entries(n.actions@)[i].1 == enc_action(n.actions@[i].1));
        lemma_enc_action_wf(n.actions@[i].1);
    }
    match n.common_types {
        Option::Some(v) => {
            assert forall|i: int| 0 <= i < v@.len() implies wf_tj(
                (#[trigger] enc_tj_entries(v@)[i]).1,
            ) by {
                assert(enc_tj_entries(v@)[i].1 == enc_tj(v@[i].1));
                lemma_enc_tj_wf(v@[i].1);
            }
            assert(fs[2] == ("commonTypes"@, JsonV::Obj(enc_tj_entries(v@))));
        },
        Option::None => {
            assert(fs =~= seq![
                ("entityTypes"@, JsonV::Obj(enc_et_entries(n.entity_types@))),
                ("actions"@, JsonV::Obj(enc_action_entries(n.actions@))),
            ]);
        },
    }
}

// ------------------------------------------------------------------ Schema
pub open spec fn enc_ns_entries(s: Seq<(String, Namespace)>) -> Seq<(Seq<char>, JsonV)> {
    Seq::new(s.len(), |i: int| (s[i].0@, enc_ns(s[i].1)))
}

pub open spec fn enc_schema(s: Schema) -> JsonV {
    JsonV::Obj(enc_ns_entries(s.0@))
}

pub open spec fn wf_schema(j: JsonV) -> bool {
    &&& j matches JsonV::Obj(fs)
    &&& forall|i: int| 0 <= i < fs.len() ==> wf_ns((#[trigger] fs[i]).1)
}

#[verifier::loop_isolation(false)]
pub fn encode_schema(s: &Schema) -> (r: JsonVal)
    ensures
        r@ == enc_schema(*s),
{
    let mut out: Vec<(String, JsonVal)> = Vec::new();
    let mut i: usize = 0;
    while i < s.0.len()
        invariant
            i <= s.0.len(),
            out@.len() == i as int,
            forall|k: int|
                0 <= k < i as int ==> (#[trigger] out@[k]).0@ == s.0@[k].0@ && out@[k].1@
                    == enc_ns(s.0@[k].1),
        decreases s.0.len() - i,
    {
        let p = &s.0[i];
        let e = encode_ns(&p.1);
        out.push((p.0.clone(), e));
        i = i + 1;
    }
    let r = JsonVal::Obj(out);
    proof {
        assert(r@->Obj_0 =~= enc_ns_entries(s.0@));
        assert(r@ == enc_schema(*s));
    }
    r
}

#[verifier::loop_isolation(false)]
pub fn decode_schema(j: &JsonVal) -> (r: Option<Schema>)
    ensures
        r is Some <==> wf_schema(j@),
        r matches Some(s) ==> enc_schema(s) == j@,
{
    let fs = match j {
        JsonVal::Obj(fs) => fs,
        _ => {
            return None;
        },
    };
    let mut out: Vec<(String, Namespace)> = Vec::new();
    let mut i: usize = 0;
    while i < fs.len()
        invariant
            i <= fs.len(),
            out@.len() == i as int,
            forall|k: int|
                0 <= k < i as int ==> wf_ns((#[trigger] fs@[k]).1@) && out@[k].0@ == fs@[k].0@
                    && enc_ns(out@[k].1) == fs@[k].1@,
        decreases fs.len() - i,
    {
        let p = &fs[i];
        match decode_ns(&p.1) {
            Some(n) => {
                out.push((p.0.clone(), n));
            },
            None => {
                proof {
                    assert(j@->Obj_0[i as int] == (fs@[i as int].0@, fs@[i as int].1@));
                    assert(!wf_ns(j@->Obj_0[i as int].1));
                }
                return None;
            },
        }
        i = i + 1;
    }
    let s = Schema(out);
    proof {
        assert(enc_schema(s)->Obj_0 =~= j@->Obj_0);
        assert(enc_schema(s) == j@);
        assert forall|k: int| 0 <= k < j@->Obj_0.len() implies wf_ns(
            (#[trigger] j@->Obj_0[k]).1,
        ) by {
            assert(j@->Obj_0[k] == (fs@[k].0@, fs@[k].1@));
        }
    }
    Some(s)
}

/// Every encoded schema is a tree its decoder accepts: decoding the JSON
/// encoding of any schema succeeds and returns a schema with the same
/// encoding. This is the schema JSON round trip.
pub proof fn lemma_enc_schema_wf(s: Schema)
    ensures
        wf_schema(enc_schema(s)),
{
    assert forall|i: int| 0 <= i < s.0@.len() implies wf_ns(
        (#[trigger] enc_ns_entries(s.0@)[i]).1,
    ) by {
        assert(enc_ns_entries(s.0@)[i].1 == enc_ns(s.0@[i].1));
        lemma_enc_ns_wf(s.0@[i].1);
    }
}

impl Clone for Schema {
    /// A clone denotes the same JSON tree as the original.
    fn clone(&self) -> (r: Self)
        ensures
            enc_schema(r) == enc_schema(*self),
    {
        proof {
            lemma_enc_schema_wf(*self);
        }
        let e = encode_schema(self);
        decode_schema(&e).unwrap()
    }
}

} // verus!
