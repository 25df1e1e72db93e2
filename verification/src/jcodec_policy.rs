//! JSON codec for policies, templates, links and the condition-expression
//! tree, in the same style as the entity and schema codecs: a spec encoder
//! per type, a well-formedness predicate describing exactly what the
//! decoder accepts, and executable encoders and decoders pinned to them.
use vstd::prelude::*;
use vstd::string::StringExecFns;

use crate::ast::{ActionOp, ActionOperator, BinaryExpr, Condition, ConditionKind, EntityOrSlot,
    EntityUid, EntityValue, HasExpr, IfThenElseExpr, IsExpr, JsonExpr, LikeExpr, NegExpr, Policy,
    PolicyEffect, PolicyId, PolicySet, PrincipalOp, PrincipalOperator, RecordExpr, ResourceOp,
    ResourceOperator, SetExpr, SlotId, Template, TemplateLink, ValueExpr, VarValue};
use crate::json::{entries_of, elts_of, JsonV, JsonVal};
use crate::jcodec_entity::{enc_euid, enc_euid_esc, enc_entity_value, enc_extfn, decode_euid,
    decode_entity_value, decode_extfn, encode_euid, encode_entity_value, encode_extfn,
    lemma_enc_entity_value_wf, lemma_enc_euid_wf, lemma_enc_extfn_wf, wf_entity_value, wf_euid,
    wf_extfn};
use crate::util::str_eq;

verus! {

broadcast use vstd::std_specs::vec::axiom_vec_decreases_to_view, vstd::seq::axiom_seq_index_decreases, crate::json::group_json_view_lemmas;

// ------------------------------------------------------------------ SlotId
pub open spec fn slot_seq(s: SlotId) -> Seq<char> {
    match s {
        SlotId::Principal => "?principal"@,
        SlotId::Resource => "?resource"@,
    }
}

pub open spec fn enc_slot(s: SlotId) -> JsonV {
    JsonV::Str(slot_seq(s))
}

pub open spec fn wf_slot(j: JsonV) -> bool {
    &&& j matches JsonV::Str(t)
    &&& (t == "?principal"@ || t == "?resource"@)
}

/// Every encoded slot is a tree its decoder accepts.
pub proof fn lemma_enc_slot_wf(s: SlotId)
    ensures
        wf_slot(enc_slot(s)),
{
}

pub fn encode_slot(s: &SlotId) -> (r: JsonVal)
    ensures
        r@ == enc_slot(*s),
{
    match s {
        SlotId::Principal => JsonVal::Str(String::from_str("?principal")),
        SlotId::Resource => JsonVal::Str(String::from_str("?resource")),
    }
}

pub fn decode_slot(j: &JsonVal) -> (r: Option<SlotId>)
    ensures
        r is Some <==> wf_slot(j@),
        r matches Some(s) ==> enc_slot(s) == j@,
{
    match j {
        JsonVal::Str(t) => {
            if str_eq(t.as_str(), "?principal") {
                Some(SlotId::Principal)
            } else if str_eq(t.as_str(), "?resource") {
                Some(SlotId::Resource)
            } else {
                None
            }
        },
        _ => None,
    }
}

// ------------------------------------------------------------ PolicyEffect
pub open spec fn effect_seq(e: PolicyEffect) -> Seq<char> {
    match e {
        PolicyEffect::Permit => "permit"@,
        PolicyEffect::Forbid => "forbid"@,
    }
}

pub open spec fn enc_effect(e: PolicyEffect) -> JsonV {
    JsonV::Str(effect_seq(e))
}

pub open spec fn wf_effect(j: JsonV) -> bool {
    &&& j matches JsonV::Str(t)
    &&& (t == "permit"@ || t == "forbid"@)
}

pub fn encode_effect(e: &PolicyEffect) -> (r: JsonVal)
    ensures
        r@ == enc_effect(*e),
{
    match e {
        PolicyEffect::Permit => JsonVal::Str(String::from_str("permit")),
        PolicyEffect::Forbid => JsonVal::Str(String::from_str("forbid")),
    }
}

pub fn decode_effect(j: &JsonVal) -> (r: Option<PolicyEffect>)
    ensures
        r is Some <==> wf_effect(j@),
        r matches Some(e) ==> enc_effect(e) == j@,
{
    match j {
        JsonVal::Str(t) => {
            if str_eq(t.as_str(), "permit") {
                Some(PolicyEffect::Permit)
            } else if str_eq(t.as_str(), "forbid") {
                Some(PolicyEffect::Forbid)
            } else {
                None
            }
        },
        _ => None,
    }
}

// ---------------------------------------------------------------- VarValue
pub open spec fn var_seq(v: VarValue) -> Seq<char> {
    match v {
        VarValue::Principal => "principal"@,
        VarValue::Action => "action"@,
        VarValue::Resource => "resource"@,
        VarValue::Context => "context"@,
    }
}

pub open spec fn enc_var(v: VarValue) -> JsonV {
    JsonV::Str(var_seq(v))
}

pub open spec fn wf_var(j: JsonV) -> bool {
    &&& j matches JsonV::Str(t)
    &&& (t == "principal"@ || t == "action"@ || t == "resource"@ || t == "context"@)
}

pub fn encode_var(v: &VarValue) -> (r: JsonVal)
    ensures
        r@ == enc_var(*v),
{
    match v {
        VarValue::Principal => JsonVal::Str(String::from_str("principal")),
        VarValue::Action => JsonVal::Str(String::from_str("action")),
        VarValue::Resource => JsonVal::Str(String::from_str("resource")),
        VarValue::Context => JsonVal::Str(String::from_str("context")),
    }
}

pub fn decode_var(j: &JsonVal) -> (r: Option<VarValue>)
    ensures
        r is Some <==> wf_var(j@),
        r matches Some(v) ==> enc_var(v) == j@,
{
    match j {
        JsonVal::Str(t) => {
            if str_eq(t.as_str(), "principal") {
                Some(VarValue::Principal)
            } else if str_eq(t.as_str(), "action") {
                Some(VarValue::Action)
            } else if str_eq(t.as_str(), "resource") {
                Some(VarValue::Resource)
            } else if str_eq(t.as_str(), "context") {
                Some(VarValue::Context)
            } else {
                None
            }
        },
        _ => None,
    }
}

// ----------------------------------------------------------- ConditionKind
pub open spec fn kind_seq(k: ConditionKind) -> Seq<char> {
    match k {
        ConditionKind::When => "when"@,
        ConditionKind::Unless => "unless"@,
    }
}

pub open spec fn enc_kind(k: ConditionKind) -> JsonV {
    JsonV::Str(kind_seq(k))
}

pub open spec fn wf_kind(j: JsonV) -> bool {
    &&& j matches JsonV::Str(t)
    &&& (t == "when"@ || t == "unless"@)
}

pub fn encode_kind(k: &ConditionKind) -> (r: JsonVal)
    ensures
        r@ == enc_kind(*k),
{
    match k {
        ConditionKind::When => JsonVal::Str(String::from_str("when")),
        ConditionKind::Unless => JsonVal::Str(String::from_str("unless")),
    }
}

pub fn decode_kind(j: &JsonVal) -> (r: Option<ConditionKind>)
    ensures
        r is Some <==> wf_kind(j@),
        r matches Some(k) ==> enc_kind(k) == j@,
{
    match j {
        JsonVal::Str(t) => {
            if str_eq(t.as_str(), "when") {
                Some(ConditionKind::When)
            } else if str_eq(t.as_str(), "unless") {
                Some(ConditionKind::Unless)
            } else {
                None
            }
        },
        _ => None,
    }
}

// --------------------------------------------------------------- operators
pub open spec fn pop_op_seq(o: PrincipalOperator) -> Seq<char> {
    match o {
        PrincipalOperator::All => "All"@,
        PrincipalOperator::Eq => "=="@,
        PrincipalOperator::In => "in"@,
        PrincipalOperator::Is => "is"@,
    }
}

pub open spec fn rop_op_seq(o: ResourceOperator) -> Seq<char> {
    match o {
        ResourceOperator::All => "All"@,
        ResourceOperator::Eq => "=="@,
        ResourceOperator::In => "in"@,
        ResourceOperator::Is => "is"@,
    }
}

pub open spec fn aop_op_seq(o: ActionOperator) -> Seq<char> {
    match o {
        ActionOperator::All => "All"@,
        ActionOperator::Eq => "=="@,
        ActionOperator::In => "in"@,
    }
}

// ------------------------------------------------------------ EntityOrSlot
pub open spec fn eos_entity_entries(o: Option<EntityUid>) -> Seq<(Seq<char>, JsonV)> {
    match o {
        Option::None => Seq::empty(),
        Option::Some(u) => seq![("entity"@, enc_euid(u))],
    }
}

pub open spec fn eos_slot_entries(o: Option<SlotId>) -> Seq<(Seq<char>, JsonV)> {
    match o {
        Option::None => Seq::empty(),
        Option::Some(s) => seq![("slot"@, enc_slot(s))],
    }
}

pub open spec fn enc_eos(e: EntityOrSlot) -> JsonV {
    JsonV::Obj(eos_entity_entries(e.entity) + eos_slot_entries(e.slot))
}

pub open spec fn eos_has_entity(fs: Seq<(Seq<char>, JsonV)>) -> bool {
    0 < fs.len() && fs[0].0 == "entity"@
}

pub open spec fn eos_i1(fs: Seq<(Seq<char>, JsonV)>) -> int {
    if eos_has_entity(fs) {
        1
    } else {
        0
    }
}

pub open spec fn eos_has_slot(fs: Seq<(Seq<char>, JsonV)>) -> bool {
    eos_i1(fs) < fs.len() && fs[eos_i1(fs)].0 == "slot"@
}

pub open spec fn eos_i2(fs: Seq<(Seq<char>, JsonV)>) -> int {
    if eos_has_slot(fs) {
        eos_i1(fs) + 1
    } else {
        eos_i1(fs)
    }
}

pub open spec fn wf_eos(j: JsonV) -> bool {
    &&& j matches JsonV::Obj(fs)
    &&& eos_i2(fs) == fs.len()
    &&& (eos_has_entity(fs) ==> wf_euid(fs[0].1))
    &&& (eos_has_slot(fs) ==> wf_slot(fs[eos_i1(fs)].1))
}

pub fn encode_eos(e: &EntityOrSlot) -> (r: JsonVal)
    ensures
        r@ == enc_eos(*e),
{
    let mut fs: Vec<(String, JsonVal)> = Vec::new();
    match &e.entity {
        Option::Some(u) => {
            fs.push((String::from_str("entity"), encode_euid(u)));
        },
        Option::None => {},
    }
    proof {
        assert(entries_of(fs@) =~= eos_entity_entries(e.entity));
    }
    match &e.slot {
        Option::Some(s) => {
            fs.push((String::from_str("slot"), encode_slot(s)));
        },
        Option::None => {},
    }
    proof {
        assert(entries_of(fs@) =~= eos_entity_entries(e.entity) + eos_slot_entries(e.slot));
    }
    JsonVal::Obj(fs)
}

pub fn decode_eos(j: &JsonVal) -> (r: Option<EntityOrSlot>)
    ensures
        r is Some <==> wf_eos(j@),
        r matches Some(e) ==> enc_eos(e) == j@,
{
    let fs = match j {
        JsonVal::Obj(fs) => fs,
        _ => {
            return None;
        },
    };
    let ghost ent = entries_of(fs@);
    let mut i: usize = 0;
    let mut entity: Option<EntityUid> = None;
    let mut slot: Option<SlotId> = None;
    if fs.len() > 0 && str_eq(fs[0].0.as_str(), "entity") {
        proof {
            assert(eos_has_entity(ent));
        }
        let Some(u) = decode_euid(&fs[0].1) else {
            proof {
                assert(!wf_euid(ent[0].1));
            }
            return None
        };
        entity = Some(u);
        i = 1;
    }
    proof {
        assert(i as int == eos_i1(ent));
        assert(ent.subrange(0, i as int) =~= eos_entity_entries(entity));
    }
    if i < fs.len() && str_eq(fs[i].0.as_str(), "slot") {
        proof {
            assert(eos_has_slot(ent));
        }
        let Some(s) = decode_slot(&fs[i].1) else {
            proof {
                assert(!wf_slot(ent[eos_i1(ent)].1));
            }
            return None
        };
        slot = Some(s);
        i = i + 1;
    }
    proof {
        assert(i as int == eos_i2(ent));
        assert(ent.subrange(0, i as int) =~= eos_entity_entries(entity) + eos_slot_entries(slot));
    }
    if i != fs.len() {
        return None;
    }
    let e = EntityOrSlot { entity, slot };
    proof {
        assert(ent.subrange(0, i as int) =~= ent);
        assert(enc_eos(e)->Obj_0 == ent);
        assert(wf_eos(j@));
    }
    Some(e)
}

/// Every encoded entity-or-slot is a tree its decoder accepts.
pub proof fn lemma_enc_eos_wf(e: EntityOrSlot)
    ensures
        wf_eos(enc_eos(e)),
{
    reveal_strlit("entity");
    reveal_strlit("slot");
    assert("entity"@.len() == 6);
    assert("slot"@.len() == 4);
    let fs = enc_eos(e)->Obj_0;
    let a = eos_entity_entries(e.entity);
    let b = eos_slot_entries(e.slot);
    assert(fs == a + b);
    assert(eos_has_entity(fs) == (e.entity is Some));
    assert(eos_i1(fs) == a.len());
    if e.slot is Some {
        assert(fs[a.len() as int] == b[0]);
    }
    assert(eos_has_slot(fs) == (e.slot is Some));
    assert(eos_i2(fs) == fs.len());
    match e.entity {
        Option::Some(u) => {
            lemma_enc_euid_wf(u);
            assert(fs[0].1 == enc_euid(u));
        },
        Option::None => {},
    }
    match e.slot {
        Option::Some(s) => {
            lemma_enc_slot_wf(s);
            assert(fs[eos_i1(fs)].1 == enc_slot(s));
        },
        Option::None => {},
    }
}

// ---------------------------------------------- principal and resource ops
pub open spec fn pr_slot_entries(o: Option<SlotId>) -> Seq<(Seq<char>, JsonV)> {
    match o {
        Option::None => Seq::empty(),
        Option::Some(s) => seq![("slot"@, enc_slot(s))],
    }
}

pub open spec fn pr_et_entries(o: Option<String>) -> Seq<(Seq<char>, JsonV)> {
    match o {
        Option::None => Seq::empty(),
        Option::Some(s) => seq![("entity_type"@, JsonV::Str(s@))],
    }
}

pub open spec fn pr_in_entries(o: Option<EntityOrSlot>) -> Seq<(Seq<char>, JsonV)> {
    match o {
        Option::None => Seq::empty(),
        Option::Some(e) => seq![("in"@, enc_eos(e))],
    }
}

pub open spec fn enc_pop(p: PrincipalOp) -> JsonV {
    JsonV::Obj(
        seq![("op"@, JsonV::Str(pop_op_seq(p.op)))] + eos_entity_entries(p.entity)
            + pr_slot_entries(p.slot) + pr_et_entries(p.entity_type) + pr_in_entries(p.in_clause),
    )
}

pub open spec fn enc_rop(p: ResourceOp) -> JsonV {
    JsonV::Obj(
        seq![("op"@, JsonV::Str(rop_op_seq(p.op)))] + eos_entity_entries(p.entity)
            + pr_slot_entries(p.slot) + pr_et_entries(p.entity_type) + pr_in_entries(p.in_clause),
    )
}

pub open spec fn pr_has_entity(fs: Seq<(Seq<char>, JsonV)>) -> bool {
    1 < fs.len() && fs[1].0 == "entity"@
}

pub open spec fn pr_i2(fs: Seq<(Seq<char>, JsonV)>) -> int {
    if pr_has_entity(fs) {
        2
    } else {
        1
    }
}

pub open spec fn pr_has_slot(fs: Seq<(Seq<char>, JsonV)>) -> bool {
    pr_i2(fs) < fs.len() && fs[pr_i2(fs)].0 == "slot"@
}

pub open spec fn pr_i3(fs: Seq<(Seq<char>, JsonV)>) -> int {
    if pr_has_slot(fs) {
        pr_i2(fs) + 1
    } else {
        pr_i2(fs)
    }
}

pub open spec fn pr_has_et(fs: Seq<(Seq<char>, JsonV)>) -> bool {
    pr_i3(fs) < fs.len() && fs[pr_i3(fs)].0 == "entity_type"@
}

pub open spec fn pr_i4(fs: Seq<(Seq<char>, JsonV)>) -> int {
    if pr_has_et(fs) {
        pr_i3(fs) + 1
    } else {
        pr_i3(fs)
    }
}

pub open spec fn pr_has_in(fs: Seq<(Seq<char>, JsonV)>) -> bool {
    pr_i4(fs) < fs.len() && fs[pr_i4(fs)].0 == "in"@
}

pub open spec fn pr_i5(fs: Seq<(Seq<char>, JsonV)>) -> int {
    if pr_has_in(fs) {
        pr_i4(fs) + 1
    } else {
        pr_i4(fs)
    }
}

/// Shared field scan for principal and resource constraints; the operator
/// may be any of the four scope operators.
pub open spec fn wf_pr_op(j: JsonV) -> bool {
    &&& j matches JsonV::Obj(fs)
    &&& fs.len() >= 1
    &&& fs[0].0 == "op"@
    &&& fs[0].1 matches JsonV::Str(op)
    &&& (op == "All"@ || op == "=="@ || op == "in"@ || op == "is"@)
    &&& pr_i5(fs) == fs.len()
    &&& (pr_has_entity(fs) ==> wf_euid(fs[1].1))
    &&& (pr_has_slot(fs) ==> wf_slot(fs[pr_i2(fs)].1))
    &&& (pr_has_et(fs) ==> fs[pr_i3(fs)].1 is Str)
    &&& (pr_has_in(fs) ==> wf_eos(fs[pr_i4(fs)].1))
}

pub fn encode_pop(p: &PrincipalOp) -> (r: JsonVal)
    ensures
        r@ == enc_pop(*p),
{
    let mut fs: Vec<(String, JsonVal)> = Vec::new();
    let op = match p.op {
        PrincipalOperator::All => String::from_str("All"),
        PrincipalOperator::Eq => String::from_str("=="),
        PrincipalOperator::In => String::from_str("in"),
        PrincipalOperator::Is => String::from_str("is"),
    };
    fs.push((String::from_str("op"), JsonVal::Str(op)));
    proof {
        assert(entries_of(fs@) =~= seq![("op"@, JsonV::Str(pop_op_seq(p.op)))]);
    }
    match &p.entity {
        Option::Some(u) => {
            fs.push((String::from_str("entity"), encode_euid(u)));
        },
        Option::None => {},
    }
    proof {
        assert(entries_of(fs@) =~= seq![("op"@, JsonV::Str(pop_op_seq(p.op)))]
            + eos_entity_entries(p.entity));
    }
    match &p.slot {
        Option::Some(s) => {
            fs.push((String::from_str("slot"), encode_slot(s)));
        },
        Option::None => {},
    }
    proof {
        assert(entries_of(fs@) =~= seq![("op"@, JsonV::Str(pop_op_seq(p.op)))]
            + eos_entity_entries(p.entity) + pr_slot_entries(p.slot));
    }
    match &p.entity_type {
        Option::Some(s) => {
            fs.push((String::from_str("entity_type"), JsonVal::Str(s.clone())));
        },
        Option::None => {},
    }
    proof {
        assert(entries_of(fs@) =~= seq![("op"@, JsonV::Str(pop_op_seq(p.op)))]
            + eos_entity_entries(p.entity) + pr_slot_entries(p.slot) + pr_et_entries(
            p.entity_type,
        ));
    }
    match &p.in_clause {
        Option::Some(e) => {
            fs.push((String::from_str("in"), encode_eos(e)));
        },
        Option::None => {},
    }
    proof {
        assert(entries_of(fs@) =~= seq![("op"@, JsonV::Str(pop_op_seq(p.op)))]
            + eos_entity_entries(p.entity) + pr_slot_entries(p.slot) + pr_et_entries(p.entity_type)
            + pr_in_entries(p.in_clause));
    }
    JsonVal::Obj(fs)
}

#[verifier::rlimit(60)]
pub fn decode_pop(j: &JsonVal) -> (r: Option<PrincipalOp>)
    ensures
        r is Some <==> wf_pr_op(j@),
        r matches Some(p) ==> enc_pop(p) == j@,
{
    let fs = match j {
        JsonVal::Obj(fs) => fs,
        _ => {
            return None;
        },
    };
    let ghost ent = entries_of(fs@);
    if fs.len() < 1 {
        return None;
    }
    if !str_eq(fs[0].0.as_str(), "op") {
        return None;
    }
    let op_str = match &fs[0].1 {
        JsonVal::Str(s) => s,
        _ => {
            return None;
        },
    };
    let op = if str_eq(op_str.as_str(), "All") {
        PrincipalOperator::All
    } else if str_eq(op_str.as_str(), "==") {
        PrincipalOperator::Eq
    } else if str_eq(op_str.as_str(), "in") {
        PrincipalOperator::In
    } else if str_eq(op_str.as_str(), "is") {
        PrincipalOperator::Is
    } else {
        return None;
    };
    let mut i: usize = 1;
    let mut entity: Option<EntityUid> = None;
    let mut slot: Option<SlotId> = None;
    let mut entity_type: Option<String> = None;
    let mut in_clause: Option<EntityOrSlot> = None;
    if fs.len() > 1 && str_eq(fs[1].0.as_str(), "entity") {
        proof {
            assert(pr_has_entity(ent));
        }
        let Some(u) = decode_euid(&fs[1].1) else {
            proof {
                assert(!wf_euid(ent[1].1));
            }
            return None
        };
        entity = Some(u);
        i = 2;
    }
    proof {
        assert(i as int == pr_i2(ent));
        assert(ent.subrange(1, i as int) =~= eos_entity_entries(entity));
    }
    if i < fs.len() && str_eq(fs[i].0.as_str(), "slot") {
        proof {
            assert(pr_has_slot(ent));
        }
        let Some(s) = decode_slot(&fs[i].1) else {
            proof {
                assert(!wf_slot(ent[pr_i2(ent)].1));
            }
            return None
        };
        slot = Some(s);
        i = i + 1;
    }
    proof {
        assert(i as int == pr_i3(ent));
        assert(ent.subrange(1, i as int) =~= eos_entity_entries(entity) + pr_slot_entries(slot));
    }
    if i < fs.len() && str_eq(fs[i].0.as_str(), "entity_type") {
        proof {
            assert(pr_has_et(ent));
        }
        match &fs[i].1 {
            JsonVal::Str(s) => {
                entity_type = Some(s.clone());
            },
            _ => {
                proof {
                    assert(!(ent[pr_i3(ent)].1 is Str));
                }
                return None;
            },
        }
        i = i + 1;
    }
    proof {
        assert(i as int == pr_i4(ent));
        assert(ent.subrange(1, i as int) =~= eos_entity_entries(entity) + pr_slot_entries(slot)
            + pr_et_entries(entity_type));
    }
    if i < fs.len() && str_eq(fs[i].0.as_str(), "in") {
        proof {
            assert(pr_has_in(ent));
        }
        let Some(e) = decode_eos(&fs[i].1) else {
            proof {
                assert(!wf_eos(ent[pr_i4(ent)].1));
            }
            return None
        };
        in_clause = Some(e);
        i = i + 1;
    }
    proof {
        assert(i as int == pr_i5(ent));
        assert(ent.subrange(1, i as int) =~= eos_entity_entries(entity) + pr_slot_entries(slot)
            + pr_et_entries(entity_type) + pr_in_entries(in_clause));
    }
    if i != fs.len() {
        return None;
    }
    let p = PrincipalOp { op, entity, slot, entity_type, in_clause };
    proof {
        assert(ent.subrange(1, i as int) =~= ent.subrange(1, ent.len() as int));
        assert(enc_pop(p)->Obj_0 =~= ent);
        assert(wf_pr_op(j@));
    }
    Some(p)
}

/// Every encoded principal constraint is a tree its decoder accepts.
pub proof fn lemma_enc_pop_wf(p: PrincipalOp)
    ensures
        wf_pr_op(enc_pop(p)),
{
    lemma_pr_scan(
        pop_op_seq(p.op),
        p.entity,
        p.slot,
        p.entity_type,
        p.in_clause,
        enc_pop(p)->Obj_0,
    );
}

/// Every encoded resource constraint is a tree its decoder accepts.
pub proof fn lemma_enc_rop_wf(p: ResourceOp)
    ensures
        wf_pr_op(enc_rop(p)),
{
    lemma_pr_scan(
        rop_op_seq(p.op),
        p.entity,
        p.slot,
        p.entity_type,
        p.in_clause,
        enc_rop(p)->Obj_0,
    );
}

/// The scan of an encoded scope constraint's fields finds exactly the
/// present options.
proof fn lemma_pr_scan(
    op: Seq<char>,
    entity: Option<EntityUid>,
    slot: Option<SlotId>,
    entity_type: Option<String>,
    in_clause: Option<EntityOrSlot>,
    fs: Seq<(Seq<char>, JsonV)>,
)
    requires
        fs == seq![("op"@, JsonV::Str(op))] + eos_entity_entries(entity) + pr_slot_entries(slot)
            + pr_et_entries(entity_type) + pr_in_entries(in_clause),
        op == "All"@ || op == "=="@ || op == "in"@ || op == "is"@,
    ensures
        wf_pr_op(JsonV::Obj(fs)),
{
    reveal_strlit("op");
    reveal_strlit("entity");
    reveal_strlit("slot");
    reveal_strlit("entity_type");
    reveal_strlit("in");
    assert("op"@.len() == 2);
    assert("entity"@.len() == 6);
    assert("slot"@.len() == 4);
    assert("entity_type"@.len() == 11);
    assert("in"@.len() == 2);
    assert("op"@[0] == 'o' && "in"@[0] == 'i');
    let a = eos_entity_entries(entity);
    let b = pr_slot_entries(slot);
    let c = pr_et_entries(entity_type);
    let d = pr_in_entries(in_clause);
    assert(fs[0] == ("op"@, JsonV::Str(op)));
    if entity is Some {
        assert(fs[1] == a[0]);
    }
    assert(pr_has_entity(fs) == (entity is Some));
    assert(pr_i2(fs) == 1 + a.len());
    if slot is Some {
        assert(fs[(1 + a.len()) as int] == b[0]);
    }
    assert(pr_has_slot(fs) == (slot is Some));
    assert(pr_i3(fs) == 1 + a.len() + b.len());
    if entity_type is Some {
        assert(fs[(1 + a.len() + b.len()) as int] == c[0]);
    }
    assert(pr_has_et(fs) == (entity_type is Some));
    assert(pr_i4(fs) == 1 + a.len() + b.len() + c.len());
    if in_clause is Some {
        assert(fs[(1 + a.len() + b.len() + c.len()) as int] == d[0]);
    }
    assert(pr_has_in(fs) == (in_clause is Some));
    assert(pr_i5(fs) == fs.len());
    match entity {
        Option::Some(u) => {
            lemma_enc_euid_wf(u);
        },
        Option::None => {},
    }
    match slot {
        Option::Some(s) => {
            lemma_enc_slot_wf(s);
        },
        Option::None => {},
    }
    match in_clause {
        Option::Some(e) => {
            lemma_enc_eos_wf(e);
        },
        Option::None => {},
    }
}

pub fn encode_rop(p: &ResourceOp) -> (r: JsonVal)
    ensures
        r@ == enc_rop(*p),
{
    let mut fs: Vec<(String, JsonVal)> = Vec::new();
    let op = match p.op {
        ResourceOperator::All => String::from_str("All"),
        ResourceOperator::Eq => String::from_str("=="),
        ResourceOperator::In => String::from_str("in"),
        ResourceOperator::Is => String::from_str("is"),
    };
    fs.push((String::from_str("op"), JsonVal::Str(op)));
    proof {
        assert(entries_of(fs@) =~= seq![("op"@, JsonV::Str(rop_op_seq(p.op)))]);
    }
    match &p.entity {
        Option::Some(u) => {
            fs.push((String::from_str("entity"), encode_euid(u)));
        },
        Option::None => {},
    }
    proof {
        assert(entries_of(fs@) =~= seq![("op"@, JsonV::Str(rop_op_seq(p.op)))]
            + eos_entity_entries(p.entity));
    }
    match &p.slot {
        Option::Some(s) => {
            fs.push((String::from_str("slot"), encode_slot(s)));
        },
        Option::None => {},
    }
    proof {
        assert(entries_of(fs@) =~= seq![("op"@, JsonV::Str(rop_op_seq(p.op)))]
            + eos_entity_entries(p.entity) + pr_slot_entries(p.slot));
    }
    match &p.entity_type {
        Option::Some(s) => {
            fs.push((String::from_str("entity_type"), JsonVal::Str(s.clone())));
        },
        Option::None => {},
    }
    proof {
        assert(entries_of(fs@) =~= seq![("op"@, JsonV::Str(rop_op_seq(p.op)))]
            + eos_entity_entries(p.entity) + pr_slot_entries(p.slot) + pr_et_entries(
            p.entity_type,
        ));
    }
    match &p.in_clause {
        Option::Some(e) => {
            fs.push((String::from_str("in"), encode_eos(e)));
        },
        Option::None => {},
    }
    proof {
        assert(entries_of(fs@) =~= seq![("op"@, JsonV::Str(rop_op_seq(p.op)))]
            + eos_entity_entries(p.entity) + pr_slot_entries(p.slot) + pr_et_entries(p.entity_type)
            + pr_in_entries(p.in_clause));
    }
    JsonVal::Obj(fs)
}

#[verifier::rlimit(60)]
pub fn decode_rop(j: &JsonVal) -> (r: Option<ResourceOp>)
    ensures
        r is Some <==> wf_pr_op(j@),
        r matches Some(p) ==> enc_rop(p) == j@,
{
    let fs = match j {
        JsonVal::Obj(fs) => fs,
        _ => {
            return None;
        },
    };
    let ghost ent = entries_of(fs@);
    if fs.len() < 1 {
        return None;
    }
    if !str_eq(fs[0].0.as_str(), "op") {
        return None;
    }
    let op_str = match &fs[0].1 {
        JsonVal::Str(s) => s,
        _ => {
            return None;
        },
    };
    let op = if str_eq(op_str.as_str(), "All") {
        ResourceOperator::All
    } else if str_eq(op_str.as_str(), "==") {
        ResourceOperator::Eq
    } else if str_eq(op_str.as_str(), "in") {
        ResourceOperator::In
    } else if str_eq(op_str.as_str(), "is") {
        ResourceOperator::Is
    } else {
        return None;
    };
    let mut i: usize = 1;
    let mut entity: Option<EntityUid> = None;
    let mut slot: Option<SlotId> = None;
    let mut entity_type: Option<String> = None;
    let mut in_clause: Option<EntityOrSlot> = None;
    if fs.len() > 1 && str_eq(fs[1].0.as_str(), "entity") {
        proof {
            assert(pr_has_entity(ent));
        }
        let Some(u) = decode_euid(&fs[1].1) else {
            proof {
                assert(!wf_euid(ent[1].1));
            }
            return None
        };
        entity = Some(u);
        i = 2;
    }
    proof {
        assert(i as int == pr_i2(ent));
        assert(ent.subrange(1, i as int) =~= eos_entity_entries(entity));
    }
    if i < fs.len() && str_eq(fs[i].0.as_str(), "slot") {
        proof {
            assert(pr_has_slot(ent));
        }
        let Some(s) = decode_slot(&fs[i].1) else {
            proof {
                assert(!wf_slot(ent[pr_i2(ent)].1));
            }
            return None
        };
        slot = Some(s);
        i = i + 1;
    }
    proof {
        assert(i as int == pr_i3(ent));
        assert(ent.subrange(1, i as int) =~= eos_entity_entries(entity) + pr_slot_entries(slot));
    }
    if i < fs.len() && str_eq(fs[i].0.as_str(), "entity_type") {
        proof {
            assert(pr_has_et(ent));
        }
        match &fs[i].1 {
            JsonVal::Str(s) => {
                entity_type = Some(s.clone());
            },
            _ => {
                proof {
                    assert(!(ent[pr_i3(ent)].1 is Str));
                }
                return None;
            },
        }
        i = i + 1;
    }
    proof {
        assert(i as int == pr_i4(ent));
        assert(ent.subrange(1, i as int) =~= eos_entity_entries(entity) + pr_slot_entries(slot)
            + pr_et_entries(entity_type));
    }
    if i < fs.len() && str_eq(fs[i].0.as_str(), "in") {
        proof {
            assert(pr_has_in(ent));
        }
        let Some(e) = decode_eos(&fs[i].1) else {
            proof {
                assert(!wf_eos(ent[pr_i4(ent)].1));
            }
            return None
        };
        in_clause = Some(e);
        i = i + 1;
    }
    proof {
        assert(i as int == pr_i5(ent));
        assert(ent.subrange(1, i as int) =~= eos_entity_entries(entity) + pr_slot_entries(slot)
            + pr_et_entries(entity_type) + pr_in_entries(in_clause));
    }
    if i != fs.len() {
        return None;
    }
    let p = ResourceOp { op, entity, slot, entity_type, in_clause };
    proof {
        assert(ent.subrange(1, i as int) =~= ent.subrange(1, ent.len() as int));
        assert(enc_rop(p)->Obj_0 =~= ent);
        assert(wf_pr_op(j@));
    }
    Some(p)
}

// ---------------------------------------------------------------- ActionOp
pub open spec fn aop_entities_entries(o: Option<Vec<EntityUid>>) -> Seq<(Seq<char>, JsonV)> {
    match o {
        Option::None => Seq::empty(),
        Option::Some(v) => seq![
            ("entities"@, JsonV::Arr(crate::jcodec_entity::enc_euids(v@))),
        ],
    }
}

pub open spec fn enc_aop(p: ActionOp) -> JsonV {
    JsonV::Obj(
        seq![("op"@, JsonV::Str(aop_op_seq(p.op)))] + eos_entity_entries(p.entity)
            + aop_entities_entries(p.entities),
    )
}

pub open spec fn aop_has_entity(fs: Seq<(Seq<char>, JsonV)>) -> bool {
    1 < fs.len() && fs[1].0 == "entity"@
}

pub open spec fn aop_i2(fs: Seq<(Seq<char>, JsonV)>) -> int {
    if aop_has_entity(fs) {
        2
    } else {
        1
    }
}

pub open spec fn aop_has_entities(fs: Seq<(Seq<char>, JsonV)>) -> bool {
    aop_i2(fs) < fs.len() && fs[aop_i2(fs)].0 == "entities"@
}

pub open spec fn aop_i3(fs: Seq<(Seq<char>, JsonV)>) -> int {
    if aop_has_entities(fs) {
        aop_i2(fs) + 1
    } else {
        aop_i2(fs)
    }
}

pub open spec fn wf_aop(j: JsonV) -> bool {
    &&& j matches JsonV::Obj(fs)
    &&& fs.len() >= 1
    &&& fs[0].0 == "op"@
    &&& fs[0].1 matches JsonV::Str(op)
    &&& (op == "All"@ || op == "=="@ || op == "in"@)
    &&& aop_i3(fs) == fs.len()
    &&& (aop_has_entity(fs) ==> wf_euid(fs[1].1))
    &&& (aop_has_entities(fs) ==> fs[aop_i2(fs)].1 is Arr && crate::jcodec_entity::wf_euids(
        fs[aop_i2(fs)].1->Arr_0,
    ))
}

pub fn encode_aop(p: &ActionOp) -> (r: JsonVal)
    ensures
        r@ == enc_aop(*p),
{
    let mut fs: Vec<(String, JsonVal)> = Vec::new();
    let op = match p.op {
        ActionOperator::All => String::from_str("All"),
        ActionOperator::Eq => String::from_str("=="),
        ActionOperator::In => String::from_str("in"),
    };
    fs.push((String::from_str("op"), JsonVal::Str(op)));
    proof {
        assert(entries_of(fs@) =~= seq![("op"@, JsonV::Str(aop_op_seq(p.op)))]);
    }
    match &p.entity {
        Option::Some(u) => {
            fs.push((String::from_str("entity"), encode_euid(u)));
        },
        Option::None => {},
    }
    proof {
        assert(entries_of(fs@) =~= seq![("op"@, JsonV::Str(aop_op_seq(p.op)))]
            + eos_entity_entries(p.entity));
    }
    match &p.entities {
        Option::Some(v) => {
            let arr = JsonVal::Arr(crate::jcodec_entity::encode_euids(v));
            proof {
                assert(arr@->Arr_0 =~= crate::jcodec_entity::enc_euids(v@));
                assert(arr@ == JsonV::Arr(crate::jcodec_entity::enc_euids(v@)));
            }
            fs.push((String::from_str("entities"), arr));
        },
        Option::None => {},
    }
    proof {
        assert(entries_of(fs@) =~= seq![("op"@, JsonV::Str(aop_op_seq(p.op)))]
            + eos_entity_entries(p.entity) + aop_entities_entries(p.entities));
    }
    JsonVal::Obj(fs)
}

pub fn decode_aop(j: &JsonVal) -> (r: Option<ActionOp>)
    ensures
        r is Some <==> wf_aop(j@),
        r matches Some(p) ==> enc_aop(p) == j@,
{
    let fs = match j {
        JsonVal::Obj(fs) => fs,
        _ => {
            return None;
        },
    };
    let ghost ent = entries_of(fs@);
    if fs.len() < 1 {
        return None;
    }
    if !str_eq(fs[0].0.as_str(), "op") {
        return None;
    }
    let op_str = match &fs[0].1 {
        JsonVal::Str(s) => s,
        _ => {
            return None;
        },
    };
    let op = if str_eq(op_str.as_str(), "All") {
        ActionOperator::All
    } else if str_eq(op_str.as_str(), "==") {
        ActionOperator::Eq
    } else if str_eq(op_str.as_str(), "in") {
        ActionOperator::In
    } else {
        return None;
    };
    let mut i: usize = 1;
    let mut entity: Option<EntityUid> = None;
    let mut entities: Option<Vec<EntityUid>> = None;
    if fs.len() > 1 && str_eq(fs[1].0.as_str(), "entity") {
        proof {
            assert(aop_has_entity(ent));
        }
        let Some(u) = decode_euid(&fs[1].1) else {
            proof {
                assert(!wf_euid(ent[1].1));
            }
            return None
        };
        entity = Some(u);
        i = 2;
    }
    proof {
        assert(i as int == aop_i2(ent));
        assert(ent.subrange(1, i as int) =~= eos_entity_entries(entity));
    }
    if i < fs.len() && str_eq(fs[i].0.as_str(), "entities") {
        proof {
            assert(aop_has_entities(ent));
        }
        let es = match &fs[i].1 {
            JsonVal::Arr(es) => es,
            _ => {
                return None;
            },
        };
        let Some(us) = crate::jcodec_entity::decode_euids(es) else {
            proof {
                if wf_aop(j@) {
                    assert forall|k: int| 0 <= k < es@.len() implies wf_euid(
                        (#[trigger] es@[k])@,
                    ) by {
                        assert(ent[aop_i2(ent)].1->Arr_0[k] == es@[k]@);
                    }
                    assert(false);
                }
            }
            return None
        };
        proof {
            assert(crate::jcodec_entity::enc_euids(us@) =~= ent[aop_i2(ent)].1->Arr_0);
        }
        entities = Some(us);
        i = i + 1;
    }
    proof {
        assert(i as int == aop_i3(ent));
        assert(ent.subrange(1, i as int) =~= eos_entity_entries(entity) + aop_entities_entries(
            entities,
        ));
    }
    if i != fs.len() {
        return None;
    }
    let p = ActionOp { op, entity, entities };
    proof {
        assert(ent.subrange(1, i as int) =~= ent.subrange(1, ent.len() as int));
        assert(enc_aop(p)->Obj_0 =~= ent);
        assert(wf_aop(j@));
    }
    Some(p)
}

/// Every encoded action constraint is a tree its decoder accepts.
pub proof fn lemma_enc_aop_wf(p: ActionOp)
    ensures
        wf_aop(enc_aop(p)),
{
    reveal_strlit("op");
    reveal_strlit("entity");
    reveal_strlit("entities");
    assert("op"@.len() == 2);
    assert("entity"@.len() == 6);
    assert("entities"@.len() == 8);
    let fs = enc_aop(p)->Obj_0;
    let a = eos_entity_entries(p.entity);
    let b = aop_entities_entries(p.entities);
    assert(fs[0] == ("op"@, JsonV::Str(aop_op_seq(p.op))));
    if p.entity is Some {
        assert(fs[1] == a[0]);
    }
    assert(aop_has_entity(fs) == (p.entity is Some));
    assert(aop_i2(fs) == 1 + a.len());
    if p.entities is Some {
        assert(fs[(1 + a.len()) as int] == b[0]);
    }
    assert(aop_has_entities(fs) == (p.entities is Some));
    assert(aop_i3(fs) == fs.len());
    match p.entity {
        Option::Some(u) => {
            lemma_enc_euid_wf(u);
        },
        Option::None => {},
    }
    match p.entities {
        Option::Some(v) => {
            assert forall|k: int| 0 <= k < v@.len() implies wf_euid(
                #[trigger] crate::jcodec_entity::enc_euids(v@)[k],
            ) by {
                assert(crate::jcodec_entity::enc_euids(v@)[k] == enc_euid(v@[k]));
                lemma_enc_euid_wf(v@[k]);
            }
        },
        Option::None => {},
    }
}

// --------------------------------------------------- condition expressions
pub open spec fn is_in_entries(o: Option<EntityUid>) -> Seq<(Seq<char>, JsonV)> {
    match o {
        Option::None => Seq::empty(),
        Option::Some(u) => seq![("in"@, enc_euid(u))],
    }
}

pub open spec fn enc_bin(b: BinaryExpr) -> JsonV
    decreases b,
{
    JsonV::Obj(seq![("left"@, enc_expr(b.left)), ("right"@, enc_expr(b.right))])
}

pub open spec fn enc_neg(n: NegExpr) -> JsonV
    decreases n,
{
    JsonV::Obj(seq![("arg"@, enc_expr(n.arg))])
}

pub open spec fn enc_has(h: HasExpr) -> JsonV
    decreases h,
{
    JsonV::Obj(seq![("left"@, enc_expr(h.left)), ("attr"@, JsonV::Str(h.attr@))])
}

pub open spec fn enc_isx(x: IsExpr) -> JsonV
    decreases x,
{
    JsonV::Obj(
        seq![("left"@, enc_expr(x.left)), ("entity_type"@, JsonV::Str(x.entity_type@))]
            + is_in_entries(x.in_entity),
    )
}

pub open spec fn enc_like(l: LikeExpr) -> JsonV
    decreases l,
{
    JsonV::Obj(seq![("left"@, enc_expr(l.left)), ("pattern"@, JsonV::Str(l.pattern@))])
}

pub open spec fn enc_ite(x: IfThenElseExpr) -> JsonV
    decreases x,
{
    JsonV::Obj(
        seq![
            ("if"@, enc_expr(x.cond)),
            ("then"@, enc_expr(x.thn)),
            ("else"@, enc_expr(x.els)),
        ],
    )
}

pub open spec fn enc_vexpr(v: ValueExpr) -> JsonV
    decreases v,
{
    match v {
        ValueExpr::String(s) => JsonV::Str(s@),
        ValueExpr::Number(n) => JsonV::Int(n),
        ValueExpr::Boolean(b) => JsonV::Bool(b),
        ValueExpr::SetOf(se) => JsonV::Obj(seq![("Set"@, JsonV::Arr(enc_expr_items(se.set@)))]),
        ValueExpr::Record(re) => JsonV::Obj(
            seq![("Record"@, JsonV::Obj(enc_expr_entries(re.record@)))],
        ),
        ValueExpr::EntityUid(u) => enc_euid(u),
        ValueExpr::Function(f) => enc_extfn(f),
    }
}

pub open spec fn enc_expr_items(s: Seq<JsonExpr>) -> Seq<JsonV>
    decreases s,
{
    Seq::new(
        s.len(),
        |i: int|
            if 0 <= i < s.len() {
                enc_expr(s[i])
            } else {
                JsonV::Null
            },
    )
}

pub open spec fn enc_expr_entries(s: Seq<(String, JsonExpr)>) -> Seq<(Seq<char>, JsonV)>
    decreases s,
{
    Seq::new(
        s.len(),
        |i: int|
            if 0 <= i < s.len() {
                (s[i].0@, enc_expr(s[i].1))
            } else {
                (Seq::empty(), JsonV::Null)
            },
    )
}

pub open spec fn enc_expr(e: JsonExpr) -> JsonV
    decreases e,
{
    match e {
        JsonExpr::Value(v) => JsonV::Obj(seq![("Value"@, enc_vexpr(v))]),
        JsonExpr::Var(v) => JsonV::Obj(seq![("Var"@, enc_var(v))]),
        JsonExpr::Slot(s) => JsonV::Obj(seq![("Slot"@, enc_slot(s))]),
        JsonExpr::Bang(n) => JsonV::Obj(seq![("!"@, enc_neg(*n))]),
        JsonExpr::Neg(n) => JsonV::Obj(seq![("neg"@, enc_neg(*n))]),
        JsonExpr::Eq(b) => JsonV::Obj(seq![("=="@, enc_bin(*b))]),
        JsonExpr::Neq(b) => JsonV::Obj(seq![("!="@, enc_bin(*b))]),
        JsonExpr::In(b) => JsonV::Obj(seq![("in"@, enc_bin(*b))]),
        JsonExpr::Lt(b) => JsonV::Obj(seq![("<"@, enc_bin(*b))]),
        JsonExpr::Lte(b) => JsonV::Obj(seq![("<="@, enc_bin(*b))]),
        JsonExpr::Gt(b) => JsonV::Obj(seq![(">"@, enc_bin(*b))]),
        JsonExpr::Gte(b) => JsonV::Obj(seq![(">="@, enc_bin(*b))]),
        JsonExpr::And(b) => JsonV::Obj(seq![("&&"@, enc_bin(*b))]),
        JsonExpr::Or(b) => JsonV::Obj(seq![("||"@, enc_bin(*b))]),
        JsonExpr::Plus(b) => JsonV::Obj(seq![("+"@, enc_bin(*b))]),
        JsonExpr::Minus(b) => JsonV::Obj(seq![("-"@, enc_bin(*b))]),
        JsonExpr::Mul(b) => JsonV::Obj(seq![("*"@, enc_bin(*b))]),
        JsonExpr::Contains(b) => JsonV::Obj(seq![("contains"@, enc_bin(*b))]),
        JsonExpr::ContainsAll(b) => JsonV::Obj(seq![("containsAll"@, enc_bin(*b))]),
        JsonExpr::ContainsAny(b) => JsonV::Obj(seq![("containsAny"@, enc_bin(*b))]),
        JsonExpr::HasTag(b) => JsonV::Obj(seq![("hasTag"@, enc_bin(*b))]),
        JsonExpr::GetTag(b) => JsonV::Obj(seq![("getTag"@, enc_bin(*b))]),
        JsonExpr::Dot(h) => JsonV::Obj(seq![("."@, enc_has(*h))]),
        JsonExpr::Has(h) => JsonV::Obj(seq![("has"@, enc_has(*h))]),
        JsonExpr::Is(x) => JsonV::Obj(seq![("is"@, enc_isx(*x))]),
        JsonExpr::Like(l) => JsonV::Obj(seq![("like"@, enc_like(*l))]),
        JsonExpr::IfThenElse(x) => JsonV::Obj(seq![("if-then-else"@, enc_ite(*x))]),
        JsonExpr::SetOf(v) => JsonV::Obj(seq![("Set"@, JsonV::Arr(enc_expr_items(v@)))]),
        JsonExpr::Record(m) => JsonV::Obj(seq![("Record"@, JsonV::Obj(enc_expr_entries(m@)))]),
        JsonExpr::Decimal(v) => JsonV::Obj(seq![("decimal"@, JsonV::Arr(enc_expr_items(v@)))]),
        JsonExpr::Ip(v) => JsonV::Obj(seq![("ip"@, JsonV::Arr(enc_expr_items(v@)))]),
        JsonExpr::IsInRange(v) => JsonV::Obj(
            seq![("isInRange"@, JsonV::Arr(enc_expr_items(v@)))],
        ),
    }
}

pub open spec fn wf_bin(j: JsonV) -> bool
    decreases j,
{
    &&& j matches JsonV::Obj(fs)
    &&& fs.len() == 2
    &&& fs[0].0 == "left"@
    &&& wf_expr(fs[0].1)
    &&& fs[1].0 == "right"@
    &&& wf_expr(fs[1].1)
}

pub open spec fn wf_neg(j: JsonV) -> bool
    decreases j,
{
    &&& j matches JsonV::Obj(fs)
    &&& fs.len() == 1
    &&& fs[0].0 == "arg"@
    &&& wf_expr(fs[0].1)
}

pub open spec fn wf_has(j: JsonV) -> bool
    decreases j,
{
    &&& j matches JsonV::Obj(fs)
    &&& fs.len() == 2
    &&& fs[0].0 == "left"@
    &&& wf_expr(fs[0].1)
    &&& fs[1].0 == "attr"@
    &&& fs[1].1 is Str
}

pub open spec fn wf_isx(j: JsonV) -> bool
    decreases j,
{
    &&& j matches JsonV::Obj(fs)
    &&& fs.len() == 2 || fs.len() == 3
    &&& fs[0].0 == "left"@
    &&& wf_expr(fs[0].1)
    &&& fs[1].0 == "entity_type"@
    &&& fs[1].1 is Str
    &&& fs.len() == 3 ==> fs[2].0 == "in"@ && wf_euid(fs[2].1)
}

pub open spec fn wf_like(j: JsonV) -> bool
    decreases j,
{
    &&& j matches JsonV::Obj(fs)
    &&& fs.len() == 2
    &&& fs[0].0 == "left"@
    &&& wf_expr(fs[0].1)
    &&& fs[1].0 == "pattern"@
    &&& fs[1].1 is Str
}

pub open spec fn wf_ite(j: JsonV) -> bool
    decreases j,
{
    &&& j matches JsonV::Obj(fs)
    &&& fs.len() == 3
    &&& fs[0].0 == "if"@
    &&& wf_expr(fs[0].1)
    &&& fs[1].0 == "then"@
    &&& wf_expr(fs[1].1)
    &&& fs[2].0 == "else"@
    &&& wf_expr(fs[2].1)
}

pub open spec fn wf_expr_items(s: Seq<JsonV>) -> bool
    decreases s,
{
    forall|i: int| 0 <= i < s.len() ==> wf_expr(#[trigger] s[i])
}

pub open spec fn wf_expr_obj(s: Seq<(Seq<char>, JsonV)>) -> bool
    decreases s,
{
    forall|i: int| 0 <= i < s.len() ==> wf_expr((#[trigger] s[i]).1)
}

pub open spec fn wf_vexpr(j: JsonV) -> bool
    decreases j,
{
    match j {
        JsonV::Null => false,
        JsonV::Bool(_) => true,
        JsonV::Int(_) => true,
        JsonV::Str(_) => true,
        JsonV::Arr(_) => false,
        JsonV::Obj(fs) => {
            ||| (fs.len() == 1 && fs[0].0 == "Set"@ && fs[0].1 is Arr && wf_expr_items(
                fs[0].1->Arr_0,
            ))
            ||| (fs.len() == 1 && fs[0].0 == "Record"@ && fs[0].1 is Obj && wf_expr_obj(
                fs[0].1->Obj_0,
            ))
            ||| wf_euid(j)
            ||| wf_extfn(j)
        },
    }
}

pub open spec fn wf_expr(j: JsonV) -> bool
    decreases j,
{
    &&& j matches JsonV::Obj(fs)
    &&& fs.len() == 1
    &&& {
        let k = fs[0].0;
        let p = fs[0].1;
        if k == "Value"@ {
            wf_vexpr(p)
        } else if k == "Var"@ {
            wf_var(p)
        } else if k == "Slot"@ {
            wf_slot(p)
        }
         else if k == "!"@ {
            wf_neg(p)
        }
         else if k == "neg"@ {
            wf_neg(p)
        }
         else if k == "=="@ {
            wf_bin(p)
        }
         else if k == "!="@ {
            wf_bin(p)
        }
         else if k == "in"@ {
            wf_bin(p)
        }
         else if k == "<"@ {
            wf_bin(p)
        }
         else if k == "<="@ {
            wf_bin(p)
        }
         else if k == ">"@ {
            wf_bin(p)
        }
         else if k == ">="@ {
            wf_bin(p)
        }
         else if k == "&&"@ {
            wf_bin(p)
        }
         else if k == "||"@ {
            wf_bin(p)
        }
         else if k == "+"@ {
            wf_bin(p)
        }
         else if k == "-"@ {
            wf_bin(p)
        }
         else if k == "*"@ {
            wf_bin(p)
        }
         else if k == "contains"@ {
            wf_bin(p)
        }
         else if k == "containsAll"@ {
            wf_bin(p)
        }
         else if k == "containsAny"@ {
            wf_bin(p)
        }
         else if k == "hasTag"@ {
            wf_bin(p)
        }
         else if k == "getTag"@ {
            wf_bin(p)
        }
         else if k == "."@ {
            wf_has(p)
        }
         else if k == "has"@ {
            wf_has(p)
        }
         else if k == "is"@ {
            wf_isx(p)
        } else if k == "like"@ {
            wf_like(p)
        } else if k == "if-then-else"@ {
            wf_ite(p)
        } else if k == "Set"@ {
            p is Arr && wf_expr_items(p->Arr_0)
        } else if k == "Record"@ {
            p is Obj && wf_expr_obj(p->Obj_0)
        } else if k == "decimal"@ {
            p is Arr && wf_expr_items(p->Arr_0)
        } else if k == "ip"@ {
            p is Arr && wf_expr_items(p->Arr_0)
        } else if k == "isInRange"@ {
            p is Arr && wf_expr_items(p->Arr_0)
        } else {
            false
        }
    }
}

#[verifier::loop_isolation(false)]
pub fn encode_expr_items(v: &Vec<JsonExpr>) -> (r: Vec<JsonVal>)
    ensures
        elts_of(r@) == enc_expr_items(v@),
    decreases v,
{
    let mut out: Vec<JsonVal> = Vec::new();
    let mut i: usize = 0;
    while i < v.len()
        invariant
            i <= v.len(),
            out@.len() == i as int,
            forall|k: int| 0 <= k < i as int ==> (#[trigger] out@[k])@ == enc_expr(v@[k]),
        decreases v.len() - i,
    {
        let e = encode_expr(&v[i]);
        out.push(e);
        i = i + 1;
    }
    proof {
        assert(elts_of(out@) =~= enc_expr_items(v@));
    }
    out
}

#[verifier::loop_isolation(false)]
pub fn encode_expr_entries(v: &Vec<(String, JsonExpr)>) -> (r: Vec<(String, JsonVal)>)
    ensures
        entries_of(r@) == enc_expr_entries(v@),
    decreases v,
{
    let mut out: Vec<(String, JsonVal)> = Vec::new();
    let mut i: usize = 0;
    while i < v.len()
        invariant
            i <= v.len(),
            out@.len() == i as int,
            forall|k: int|
                0 <= k < i as int ==> (#[trigger] out@[k]).0@ == v@[k].0@ && out@[k].1@
                    == enc_expr(v@[k].1),
        decreases v.len() - i,
    {
        let p = &v[i];
        let e = encode_expr(&p.1);
        out.push((p.0.clone(), e));
        i = i + 1;
    }
    proof {
        assert(entries_of(out@) =~= enc_expr_entries(v@));
    }
    out
}

pub fn encode_bin(b: &BinaryExpr) -> (r: JsonVal)
    ensures
        r@ == enc_bin(*b),
    decreases b,
{
    let mut fs: Vec<(String, JsonVal)> = Vec::new();
    let l = encode_expr(&b.left);
    let rr = encode_expr(&b.right);
    fs.push((String::from_str("left"), l));
    fs.push((String::from_str("right"), rr));
    let r = JsonVal::Obj(fs);
    proof {
        assert(r@->Obj_0 =~= enc_bin(*b)->Obj_0);
        assert(r@ == enc_bin(*b));
    }
    r
}

pub fn encode_neg(n: &NegExpr) -> (r: JsonVal)
    ensures
        r@ == enc_neg(*n),
    decreases n,
{
    let mut fs: Vec<(String, JsonVal)> = Vec::new();
    let a = encode_expr(&n.arg);
    fs.push((String::from_str("arg"), a));
    let r = JsonVal::Obj(fs);
    proof {
        assert(r@->Obj_0 =~= enc_neg(*n)->Obj_0);
        assert(r@ == enc_neg(*n));
    }
    r
}

pub fn encode_has(h: &HasExpr) -> (r: JsonVal)
    ensures
        r@ == enc_has(*h),
    decreases h,
{
    let mut fs: Vec<(String, JsonVal)> = Vec::new();
    let l = encode_expr(&h.left);
    fs.push((String::from_str("left"), l));
    fs.push((String::from_str("attr"), JsonVal::Str(h.attr.clone())));
    let r = JsonVal::Obj(fs);
    proof {
        assert(r@->Obj_0 =~= enc_has(*h)->Obj_0);
        assert(r@ == enc_has(*h));
    }
    r
}

pub fn encode_isx(x: &IsExpr) -> (r: JsonVal)
    ensures
        r@ == enc_isx(*x),
    decreases x,
{
    let mut fs: Vec<(String, JsonVal)> = Vec::new();
    let l = encode_expr(&x.left);
    fs.push((String::from_str("left"), l));
    fs.push((String::from_str("entity_type"), JsonVal::Str(x.entity_type.clone())));
    match &x.in_entity {
        Option::Some(u) => {
            fs.push((String::from_str("in"), encode_euid(u)));
        },
        Option::None => {},
    }
    let r = JsonVal::Obj(fs);
    proof {
        assert(r@->Obj_0 =~= enc_isx(*x)->Obj_0);
        assert(r@ == enc_isx(*x));
    }
    r
}

pub fn encode_like(l: &LikeExpr) -> (r: JsonVal)
    ensures
        r@ == enc_like(*l),
    decreases l,
{
    let mut fs: Vec<(String, JsonVal)> = Vec::new();
    let le = encode_expr(&l.left);
    fs.push((String::from_str("left"), le));
    fs.push((String::from_str("pattern"), JsonVal::Str(l.pattern.clone())));
    let r = JsonVal::Obj(fs);
    proof {
        assert(r@->Obj_0 =~= enc_like(*l)->Obj_0);
        assert(r@ == enc_like(*l));
    }
    r
}

pub fn encode_ite(x: &IfThenElseExpr) -> (r: JsonVal)
    ensures
        r@ == enc_ite(*x),
    decreases x,
{
    let mut fs: Vec<(String, JsonVal)> = Vec::new();
    let c = encode_expr(&x.cond);
    let th = encode_expr(&x.thn);
    let el = encode_expr(&x.els);
    fs.push((String::from_str("if"), c));
    fs.push((String::from_str("then"), th));
    fs.push((String::from_str("else"), el));
    let r = JsonVal::Obj(fs);
    proof {
        assert(r@->Obj_0 =~= enc_ite(*x)->Obj_0);
        assert(r@ == enc_ite(*x));
    }
    r
}

pub fn encode_vexpr(v: &ValueExpr) -> (r: JsonVal)
    ensures
        r@ == enc_vexpr(*v),
    decreases v,
{
    match v {
        ValueExpr::String(s) => JsonVal::Str(s.clone()),
        ValueExpr::Number(n) => JsonVal::Int(*n),
        ValueExpr::Boolean(b) => JsonVal::Bool(*b),
        ValueExpr::EntityUid(u) => encode_euid(u),
        ValueExpr::Function(f) => encode_extfn(f),
        ValueExpr::SetOf(se) => {
            let items = encode_expr_items(&se.set);
            let mut fs: Vec<(String, JsonVal)> = Vec::new();
            fs.push((String::from_str("Set"), JsonVal::Arr(items)));
            let r = JsonVal::Obj(fs);
            proof {
                assert(r@->Obj_0 =~= enc_vexpr(*v)->Obj_0);
                assert(r@ == enc_vexpr(*v));
            }
            r
        },
        ValueExpr::Record(re) => {
            let m = encode_expr_entries(&re.record);
            let mut fs: Vec<(String, JsonVal)> = Vec::new();
            fs.push((String::from_str("Record"), JsonVal::Obj(m)));
            let r = JsonVal::Obj(fs);
            proof {
                assert(r@->Obj_0 =~= enc_vexpr(*v)->Obj_0);
                assert(r@ == enc_vexpr(*v));
            }
            r
        },
    }
}

#[verifier::rlimit(60)]
pub fn encode_expr(e: &JsonExpr) -> (r: JsonVal)
    ensures
        r@ == enc_expr(*e),
    decreases e,
{
    let (key, payload): (&str, JsonVal) = match e {
        JsonExpr::Value(v) => ("Value", encode_vexpr(v)),
        JsonExpr::Var(v) => ("Var", encode_var(v)),
        JsonExpr::Slot(s) => ("Slot", encode_slot(s)),
        JsonExpr::Bang(n) => ("!", encode_neg(n)),
        JsonExpr::Neg(n) => ("neg", encode_neg(n)),
        JsonExpr::Eq(b) => ("==", encode_bin(b)),
        JsonExpr::Neq(b) => ("!=", encode_bin(b)),
        JsonExpr::In(b) => ("in", encode_bin(b)),
        JsonExpr::Lt(b) => ("<", encode_bin(b)),
        JsonExpr::Lte(b) => ("<=", encode_bin(b)),
        JsonExpr::Gt(b) => (">", encode_bin(b)),
        JsonExpr::Gte(b) => (">=", encode_bin(b)),
        JsonExpr::And(b) => ("&&", encode_bin(b)),
        JsonExpr::Or(b) => ("||", encode_bin(b)),
        JsonExpr::Plus(b) => ("+", encode_bin(b)),
        JsonExpr::Minus(b) => ("-", encode_bin(b)),
        JsonExpr::Mul(b) => ("*", encode_bin(b)),
        JsonExpr::Contains(b) => ("contains", encode_bin(b)),
        JsonExpr::ContainsAll(b) => ("containsAll", encode_bin(b)),
        JsonExpr::ContainsAny(b) => ("containsAny", encode_bin(b)),
        JsonExpr::HasTag(b) => ("hasTag", encode_bin(b)),
        JsonExpr::GetTag(b) => ("getTag", encode_bin(b)),
        JsonExpr::Dot(h) => (".", encode_has(h)),
        JsonExpr::Has(h) => ("has", encode_has(h)),
        JsonExpr::Is(x) => ("is", encode_isx(x)),
        JsonExpr::Like(l) => ("like", encode_like(l)),
        JsonExpr::IfThenElse(x) => ("if-then-else", encode_ite(x)),
        JsonExpr::SetOf(v) => ("Set", JsonVal::Arr(encode_expr_items(v))),
        JsonExpr::Record(m) => ("Record", JsonVal::Obj(encode_expr_entries(m))),
        JsonExpr::Decimal(v) => ("decimal", JsonVal::Arr(encode_expr_items(v))),
        JsonExpr::Ip(v) => ("ip", JsonVal::Arr(encode_expr_items(v))),
        JsonExpr::IsInRange(v) => ("isInRange", JsonVal::Arr(encode_expr_items(v))),
    };
    let mut fs: Vec<(String, JsonVal)> = Vec::new();
    fs.push((String::from_str(key), payload));
    let r = JsonVal::Obj(fs);
    proof {
        assert(r@->Obj_0 =~= enc_expr(*e)->Obj_0);
        assert(r@ == enc_expr(*e));
    }
    r
}

// ------------------------------------------------------- expression decode
#[verifier::loop_isolation(false)]
pub fn decode_expr_items(v: &Vec<JsonVal>) -> (r: Option<Vec<JsonExpr>>)
    ensures
        r is Some <==> (forall|k: int| 0 <= k < v@.len() ==> wf_expr((#[trigger] v@[k])@)),
        r matches Some(es) ==> enc_expr_items(es@) == elts_of(v@),
    decreases v,
{
    let mut out: Vec<JsonExpr> = Vec::new();
    let mut i: usize = 0;
    while i < v.len()
        invariant
            i <= v.len(),
            out@.len() == i as int,
            forall|k: int|
                0 <= k < i as int ==> wf_expr((#[trigger] v@[k])@) && enc_expr(out@[k]) == v@[k]@,
        decreases v.len() - i,
    {
        match decode_expr(&v[i]) {
            Some(e) => {
                out.push(e);
            },
            None => {
                return None;
            },
        }
        i = i + 1;
    }
    proof {
        assert(enc_expr_items(out@) =~= elts_of(v@));
    }
    Some(out)
}

#[verifier::loop_isolation(false)]
pub fn decode_expr_entries(v: &Vec<(String, JsonVal)>) -> (r: Option<Vec<(String, JsonExpr)>>)
    ensures
        r is Some <==> (forall|k: int| 0 <= k < v@.len() ==> wf_expr((#[trigger] v@[k]).1@)),
        r matches Some(m) ==> enc_expr_entries(m@) == entries_of(v@),
    decreases v,
{
    let mut out: Vec<(String, JsonExpr)> = Vec::new();
    let mut i: usize = 0;
    while i < v.len()
        invariant
            i <= v.len(),
            out@.len() == i as int,
            forall|k: int|
                0 <= k < i as int ==> wf_expr((#[trigger] v@[k]).1@) && out@[k].0@ == v@[k].0@
                    && enc_expr(out@[k].1) == v@[k].1@,
        decreases v.len() - i,
    {
        let p = &v[i];
        match decode_expr(&p.1) {
            Some(e) => {
                out.push((p.0.clone(), e));
            },
            None => {
                return None;
            },
        }
        i = i + 1;
    }
    proof {
        assert(enc_expr_entries(out@) =~= entries_of(v@));
    }
    Some(out)
}

pub fn decode_bin(j: &JsonVal) -> (r: Option<BinaryExpr>)
    ensures
        r is Some <==> wf_bin(j@),
        r matches Some(b) ==> enc_bin(b) == j@,
    decreases j,
{
    let fs = match j {
        JsonVal::Obj(fs) => fs,
        _ => {
            return None;
        },
    };
    if fs.len() != 2 {
        return None;
    }
    if !str_eq(fs[0].0.as_str(), "left") || !str_eq(fs[1].0.as_str(), "right") {
        return None;
    }
    let Some(l) = decode_expr(&fs[0].1) else { return None };
    let Some(rr) = decode_expr(&fs[1].1) else { return None };
    let b = BinaryExpr { left: l, right: rr };
    proof {
        assert(enc_bin(b)->Obj_0 =~= entries_of(fs@));
        assert(enc_bin(b) == j@);
    }
    Some(b)
}

pub fn decode_neg(j: &JsonVal) -> (r: Option<NegExpr>)
    ensures
        r is Some <==> wf_neg(j@),
        r matches Some(n) ==> enc_neg(n) == j@,
    decreases j,
{
    let fs = match j {
        JsonVal::Obj(fs) => fs,
        _ => {
            return None;
        },
    };
    if fs.len() != 1 {
        return None;
    }
    if !str_eq(fs[0].0.as_str(), "arg") {
        return None;
    }
    let Some(a) = decode_expr(&fs[0].1) else { return None };
    let n = NegExpr { arg: a };
    proof {
        assert(enc_neg(n)->Obj_0 =~= entries_of(fs@));
        assert(enc_neg(n) == j@);
    }
    Some(n)
}

pub fn decode_has(j: &JsonVal) -> (r: Option<HasExpr>)
    ensures
        r is Some <==> wf_has(j@),
        r matches Some(h) ==> enc_has(h) == j@,
    decreases j,
{
    let fs = match j {
        JsonVal::Obj(fs) => fs,
        _ => {
            return None;
        },
    };
    if fs.len() != 2 {
        return None;
    }
    if !str_eq(fs[0].0.as_str(), "left") || !str_eq(fs[1].0.as_str(), "attr") {
        return None;
    }
    let Some(l) = decode_expr(&fs[0].1) else { return None };
    let attr = match &fs[1].1 {
        JsonVal::Str(s) => s,
        _ => {
            return None;
        },
    };
    let h = HasExpr { left: l, attr: attr.clone() };
    proof {
        assert(enc_has(h)->Obj_0 =~= entries_of(fs@));
        assert(enc_has(h) == j@);
    }
    Some(h)
}

pub fn decode_isx(j: &JsonVal) -> (r: Option<IsExpr>)
    ensures
        r is Some <==> wf_isx(j@),
        r matches Some(x) ==> enc_isx(x) == j@,
    decreases j,
{
    let fs = match j {
        JsonVal::Obj(fs) => fs,
        _ => {
            return None;
        },
    };
    if fs.len() != 2 && fs.len() != 3 {
        return None;
    }
    if !str_eq(fs[0].0.as_str(), "left") || !str_eq(fs[1].0.as_str(), "entity_type") {
        return None;
    }
    let Some(l) = decode_expr(&fs[0].1) else { return None };
    let et = match &fs[1].1 {
        JsonVal::Str(s) => s,
        _ => {
            return None;
        },
    };
    let mut in_entity: Option<EntityUid> = None;
    if fs.len() == 3 {
        if !str_eq(fs[2].0.as_str(), "in") {
            return None;
        }
        let Some(u) = decode_euid(&fs[2].1) else { return None };
        in_entity = Some(u);
    }
    let x = IsExpr { left: l, entity_type: et.clone(), in_entity };
    proof {
        assert(enc_isx(x)->Obj_0 =~= entries_of(fs@));
        assert(enc_isx(x) == j@);
    }
    Some(x)
}

pub fn decode_like(j: &JsonVal) -> (r: Option<LikeExpr>)
    ensures
        r is Some <==> wf_like(j@),
        r matches Some(l) ==> enc_like(l) == j@,
    decreases j,
{
    let fs = match j {
        JsonVal::Obj(fs) => fs,
        _ => {
            return None;
        },
    };
    if fs.len() != 2 {
        return None;
    }
    if !str_eq(fs[0].0.as_str(), "left") || !str_eq(fs[1].0.as_str(), "pattern") {
        return None;
    }
    let Some(le) = decode_expr(&fs[0].1) else { return None };
    let pat = match &fs[1].1 {
        JsonVal::Str(s) => s,
        _ => {
            return None;
        },
    };
    let l = LikeExpr { left: le, pattern: pat.clone() };
    proof {
        assert(enc_like(l)->Obj_0 =~= entries_of(fs@));
        assert(enc_like(l) == j@);
    }
    Some(l)
}

pub fn decode_ite(j: &JsonVal) -> (r: Option<IfThenElseExpr>)
    ensures
        r is Some <==> wf_ite(j@),
        r matches Some(x) ==> enc_ite(x) == j@,
    decreases j,
{
    let fs = match j {
        JsonVal::Obj(fs) => fs,
        _ => {
            return None;
        },
    };
    if fs.len() != 3 {
        return None;
    }
    if !str_eq(fs[0].0.as_str(), "if") || !str_eq(fs[1].0.as_str(), "then") || !str_eq(
        fs[2].0.as_str(),
        "else",
    ) {
        return None;
    }
    let Some(c) = decode_expr(&fs[0].1) else { return None };
    let Some(th) = decode_expr(&fs[1].1) else { return None };
    let Some(el) = decode_expr(&fs[2].1) else { return None };
    let x = IfThenElseExpr { cond: c, thn: th, els: el };
    proof {
        assert(enc_ite(x)->Obj_0 =~= entries_of(fs@));
        assert(enc_ite(x) == j@);
    }
    Some(x)
}

#[verifier::rlimit(60)]
pub fn decode_vexpr(j: &JsonVal) -> (r: Option<ValueExpr>)
    ensures
        r is Some <==> wf_vexpr(j@),
        r matches Some(v) ==> enc_vexpr(v) == j@,
    decreases j,
{
    match j {
        JsonVal::Null => None,
        JsonVal::Bool(b) => Some(ValueExpr::Boolean(*b)),
        JsonVal::Int(n) => Some(ValueExpr::Number(*n)),
        JsonVal::Str(s) => Some(ValueExpr::String(s.clone())),
        JsonVal::Arr(_) => None,
        JsonVal::Obj(fs) => {
            proof {
                reveal_strlit("Set");
                reveal_strlit("Record");
                assert("Set"@.len() == 3);
                assert("Record"@.len() == 6);
            }
            if fs.len() == 1 && str_eq(fs[0].0.as_str(), "Set") {
                let es = match &fs[0].1 {
                    JsonVal::Arr(es) => es,
                    _ => {
                        return None;
                    },
                };
                let Some(items) = decode_expr_items(es) else {
                    proof {
                        if wf_vexpr(j@) {
                            assert forall|k: int| 0 <= k < es@.len() implies wf_expr(
                                (#[trigger] es@[k])@,
                            ) by {
                                assert(j@->Obj_0[0].1->Arr_0[k] == es@[k]@);
                            }
                            assert(false);
                        }
                    }
                    return None
                };
                let v = ValueExpr::SetOf(SetExpr { set: items });
                proof {
                    assert(enc_vexpr(v)->Obj_0 =~= entries_of(fs@));
                    assert(enc_vexpr(v) == j@);
                    assert forall|k: int| 0 <= k < j@->Obj_0[0].1->Arr_0.len() implies wf_expr(
                        #[trigger] j@->Obj_0[0].1->Arr_0[k],
                    ) by {
                        assert(j@->Obj_0[0].1->Arr_0[k] == es@[k]@);
                    }
                }
                Some(v)
            } else if fs.len() == 1 && str_eq(fs[0].0.as_str(), "Record") {
                let m = match &fs[0].1 {
                    JsonVal::Obj(m) => m,
                    _ => {
                        return None;
                    },
                };
                let Some(entries) = decode_expr_entries(m) else {
                    proof {
                        if wf_vexpr(j@) {
                            assert forall|k: int| 0 <= k < m@.len() implies wf_expr(
                                (#[trigger] m@[k]).1@,
                            ) by {
                                assert(j@->Obj_0[0].1->Obj_0[k] == (m@[k].0@, m@[k].1@));
                            }
                            assert(false);
                        }
                    }
                    return None
                };
                let v = ValueExpr::Record(RecordExpr { record: entries });
                proof {
                    assert(enc_vexpr(v)->Obj_0 =~= entries_of(fs@));
                    assert(enc_vexpr(v) == j@);
                    assert forall|k: int| 0 <= k < j@->Obj_0[0].1->Obj_0.len() implies wf_expr(
                        (#[trigger] j@->Obj_0[0].1->Obj_0[k]).1,
                    ) by {
                        assert(j@->Obj_0[0].1->Obj_0[k] == (m@[k].0@, m@[k].1@));
                    }
                }
                Some(v)
            } else {
                match decode_euid(j) {
                    Some(u) => {
                        return Some(ValueExpr::EntityUid(u));
                    },
                    None => {},
                }
                match decode_extfn(j) {
                    Some(f) => {
                        return Some(ValueExpr::Function(f));
                    },
                    None => {},
                }
                None
            }
        },
    }
}

#[verifier::rlimit(100)]
#[verifier::loop_isolation(false)]
pub fn decode_expr(j: &JsonVal) -> (r: Option<JsonExpr>)
    ensures
        r is Some <==> wf_expr(j@),
        r matches Some(e) ==> enc_expr(e) == j@,
    decreases j,
{
    let fs = match j {
        JsonVal::Obj(fs) => fs,
        _ => {
            return None;
        },
    };
    if fs.len() != 1 {
        return None;
    }
    let p0 = &fs[0];
    let k = &p0.0;
    let ghost te = entries_of(fs@);
    if str_eq(k.as_str(), "Value") {
        let Some(v) = decode_vexpr(&p0.1) else { return None };
        let e = JsonExpr::Value(v);
        proof {
            assert(enc_expr(e)->Obj_0 =~= te);
            assert(enc_expr(e) == j@);
        }
        Some(e)
    } else if str_eq(k.as_str(), "Var") {
        let Some(v) = decode_var(&p0.1) else { return None };
        let e = JsonExpr::Var(v);
        proof {
            assert(enc_expr(e)->Obj_0 =~= te);
            assert(enc_expr(e) == j@);
        }
        Some(e)
    } else if str_eq(k.as_str(), "Slot") {
        let Some(v) = decode_slot(&p0.1) else { return None };
        let e = JsonExpr::Slot(v);
        proof {
            assert(enc_expr(e)->Obj_0 =~= te);
            assert(enc_expr(e) == j@);
        }
        Some(e)
    }
     else if str_eq(k.as_str(), "!") {
        let Some(v) = decode_neg(&p0.1) else { return None };
        let e = JsonExpr::Bang(Box::new(v));
        proof {
            assert(enc_expr(e)->Obj_0 =~= te);
            assert(enc_expr(e) == j@);
        }
        Some(e)
    }
     else if str_eq(k.as_str(), "neg") {
        let Some(v) = decode_neg(&p0.1) else { return None };
        let e = JsonExpr::Neg(Box::new(v));
        proof {
            assert(enc_expr(e)->Obj_0 =~= te);
            assert(enc_expr(e) == j@);
        }
        Some(e)
    }
     else if str_eq(k.as_str(), "==") {
        let Some(v) = decode_bin(&p0.1) else { return None };
        let e = JsonExpr::Eq(Box::new(v));
        proof {
            assert(enc_expr(e)->Obj_0 =~= te);
            assert(enc_expr(e) == j@);
        }
        Some(e)
    }
     else if str_eq(k.as_str(), "!=") {
        let Some(v) = decode_bin(&p0.1) else { return None };
        let e = JsonExpr::Neq(Box::new(v));
        proof {
            assert(enc_expr(e)->Obj_0 =~= te);
            assert(enc_expr(e) == j@);
        }
        Some(e)
    }
     else if str_eq(k.as_str(), "in") {
        let Some(v) = decode_bin(&p0.1) else { return None };
        let e = JsonExpr::In(Box::new(v));
        proof {
            assert(enc_expr(e)->Obj_0 =~= te);
            assert(enc_expr(e) == j@);
        }
        Some(e)
    }
     else if str_eq(k.as_str(), "<") {
        let Some(v) = decode_bin(&p0.1) else { return None };
        let e = JsonExpr::Lt(Box::new(v));
        proof {
            assert(enc_expr(e)->Obj_0 =~= te);
            assert(enc_expr(e) == j@);
        }
        Some(e)
    }
     else if str_eq(k.as_str(), "<=") {
        let Some(v) = decode_bin(&p0.1) else { return None };
        let e = JsonExpr::Lte(Box::new(v));
        proof {
            assert(enc_expr(e)->Obj_0 =~= te);
            assert(enc_expr(e) == j@);
        }
        Some(e)
    }
     else if str_eq(k.as_str(), ">") {
        let Some(v) = decode_bin(&p0.1) else { return None };
        let e = JsonExpr::Gt(Box::new(v));
        proof {
            assert(enc_expr(e)->Obj_0 =~= te);
            assert(enc_expr(e) == j@);
        }
        Some(e)
    }
     else if str_eq(k.as_str(), ">=") {
        let Some(v) = decode_bin(&p0.1) else { return None };
        let e = JsonExpr::Gte(Box::new(v));
        proof {
            assert(enc_expr(e)->Obj_0 =~= te);
            assert(enc_expr(e) == j@);
        }
        Some(e)
    }
     else if str_eq(k.as_str(), "&&") {
        let Some(v) = decode_bin(&p0.1) else { return None };
        let e = JsonExpr::And(Box::new(v));
        proof {
            assert(enc_expr(e)->Obj_0 =~= te);
            assert(enc_expr(e) == j@);
        }
        Some(e)
    }
     else if str_eq(k.as_str(), "||") {
        let Some(v) = decode_bin(&p0.1) else { return None };
        let e = JsonExpr::Or(Box::new(v));
        proof {
            assert(enc_expr(e)->Obj_0 =~= te);
            assert(enc_expr(e) == j@);
        }
        Some(e)
    }
     else if str_eq(k.as_str(), "+") {
        let Some(v) = decode_bin(&p0.1) else { return None };
        let e = JsonExpr::Plus(Box::new(v));
        proof {
            assert(enc_expr(e)->Obj_0 =~= te);
            assert(enc_expr(e) == j@);
        }
        Some(e)
    }
     else if str_eq(k.as_str(), "-") {
        let Some(v) = decode_bin(&p0.1) else { return None };
        let e = JsonExpr::Minus(Box::new(v));
        proof {
            assert(enc_expr(e)->Obj_0 =~= te);
            assert(enc_expr(e) == j@);
        }
        Some(e)
    }
     else if str_eq(k.as_str(), "*") {
        let Some(v) = decode_bin(&p0.1) else { return None };
        let e = JsonExpr::Mul(Box::new(v));
        proof {
            assert(enc_expr(e)->Obj_0 =~= te);
            assert(enc_expr(e) == j@);
        }
        Some(e)
    }
     else if str_eq(k.as_str(), "contains") {
        let Some(v) = decode_bin(&p0.1) else { return None };
        let e = JsonExpr::Contains(Box::new(v));
        proof {
            assert(enc_expr(e)->Obj_0 =~= te);
            assert(enc_expr(e) == j@);
        }
        Some(e)
    }
     else if str_eq(k.as_str(), "containsAll") {
        let Some(v) = decode_bin(&p0.1) else { return None };
        let e = JsonExpr::ContainsAll(Box::new(v));
        proof {
            assert(enc_expr(e)->Obj_0 =~= te);
            assert(enc_expr(e) == j@);
        }
        Some(e)
    }
     else if str_eq(k.as_str(), "containsAny") {
        let Some(v) = decode_bin(&p0.1) else { return None };
        let e = JsonExpr::ContainsAny(Box::new(v));
        proof {
            assert(enc_expr(e)->Obj_0 =~= te);
            assert(enc_expr(e) == j@);
        }
        Some(e)
    }
     else if str_eq(k.as_str(), "hasTag") {
        let Some(v) = decode_bin(&p0.1) else { return None };
        let e = JsonExpr::HasTag(Box::new(v));
        proof {
            assert(enc_expr(e)->Obj_0 =~= te);
            assert(enc_expr(e) == j@);
        }
        Some(e)
    }
     else if str_eq(k.as_str(), "getTag") {
        let Some(v) = decode_bin(&p0.1) else { return None };
        let e = JsonExpr::GetTag(Box::new(v));
        proof {
            assert(enc_expr(e)->Obj_0 =~= te);
            assert(enc_expr(e) == j@);
        }
        Some(e)
    }
     else if str_eq(k.as_str(), ".") {
        let Some(v) = decode_has(&p0.1) else { return None };
        let e = JsonExpr::Dot(Box::new(v));
        proof {
            assert(enc_expr(e)->Obj_0 =~= te);
            assert(enc_expr(e) == j@);
        }
        Some(e)
    }
     else if str_eq(k.as_str(), "has") {
        let Some(v) = decode_has(&p0.1) else { return None };
        let e = JsonExpr::Has(Box::new(v));
        proof {
            assert(enc_expr(e)->Obj_0 =~= te);
            assert(enc_expr(e) == j@);
        }
        Some(e)
    }
     else if str_eq(k.as_str(), "is") {
        let Some(v) = decode_isx(&p0.1) else { return None };
        let e = JsonExpr::Is(Box::new(v));
        proof {
            assert(enc_expr(e)->Obj_0 =~= te);
            assert(enc_expr(e) == j@);
        }
        Some(e)
    } else if str_eq(k.as_str(), "like") {
        let Some(v) = decode_like(&p0.1) else { return None };
        let e = JsonExpr::Like(Box::new(v));
        proof {
            assert(enc_expr(e)->Obj_0 =~= te);
            assert(enc_expr(e) == j@);
        }
        Some(e)
    } else if str_eq(k.as_str(), "if-then-else") {
        let Some(v) = decode_ite(&p0.1) else { return None };
        let e = JsonExpr::IfThenElse(Box::new(v));
        proof {
            assert(enc_expr(e)->Obj_0 =~= te);
            assert(enc_expr(e) == j@);
        }
        Some(e)
    }
     else if str_eq(k.as_str(), "Set") {
        let es = match &p0.1 {
            JsonVal::Arr(es) => es,
            _ => {
                return None;
            },
        };
        let Some(items) = decode_expr_items(es) else {
            proof {
                if wf_expr(j@) {
                    assert forall|q: int| 0 <= q < es@.len() implies wf_expr(
                        (#[trigger] es@[q])@,
                    ) by {
                        assert(te[0].1->Arr_0[q] == es@[q]@);
                    }
                    assert(false);
                }
            }
            return None
        };
        let e = JsonExpr::SetOf(items);
        proof {
            assert(enc_expr(e)->Obj_0 =~= te);
            assert(enc_expr(e) == j@);
            assert forall|q: int| 0 <= q < te[0].1->Arr_0.len() implies wf_expr(
                #[trigger] te[0].1->Arr_0[q],
            ) by {
                assert(te[0].1->Arr_0[q] == es@[q]@);
            }
        }
        Some(e)
    }
     else if str_eq(k.as_str(), "Record") {
        let m = match &p0.1 {
            JsonVal::Obj(m) => m,
            _ => {
                return None;
            },
        };
        let Some(entries) = decode_expr_entries(m) else {
            proof {
                if wf_expr(j@) {
                    assert forall|q: int| 0 <= q < m@.len() implies wf_expr(
                        (#[trigger] m@[q]).1@,
                    ) by {
                        assert(te[0].1->Obj_0[q] == (m@[q].0@, m@[q].1@));
                    }
                    assert(false);
                }
            }
            return None
        };
        let e = JsonExpr::Record(entries);
        proof {
            assert(enc_expr(e)->Obj_0 =~= te);
            assert(enc_expr(e) == j@);
            assert forall|q: int| 0 <= q < te[0].1->Obj_0.len() implies wf_expr(
                (#[trigger] te[0].1->Obj_0[q]).1,
            ) by {
                assert(te[0].1->Obj_0[q] == (m@[q].0@, m@[q].1@));
            }
        }
        Some(e)
    } else if str_eq(k.as_str(), "decimal") {
        let es = match &p0.1 {
            JsonVal::Arr(es) => es,
            _ => {
                return None;
            },
        };
        let Some(items) = decode_expr_items(es) else {
            proof {
                if wf_expr(j@) {
                    assert forall|q: int| 0 <= q < es@.len() implies wf_expr(
                        (#[trigger] es@[q])@,
                    ) by {
                        assert(te[0].1->Arr_0[q] == es@[q]@);
                    }
                    assert(false);
                }
            }
            return None
        };
        let e = JsonExpr::Decimal(items);
        proof {
            assert(enc_expr(e)->Obj_0 =~= te);
            assert(enc_expr(e) == j@);
            assert forall|q: int| 0 <= q < te[0].1->Arr_0.len() implies wf_expr(
                #[trigger] te[0].1->Arr_0[q],
            ) by {
                assert(te[0].1->Arr_0[q] == es@[q]@);
            }
        }
        Some(e)
    }
     else if str_eq(k.as_str(), "ip") {
        let es = match &p0.1 {
            JsonVal::Arr(es) => es,
            _ => {
                return None;
            },
        };
        let Some(items) = decode_expr_items(es) else {
            proof {
                if wf_expr(j@) {
                    assert forall|q: int| 0 <= q < es@.len() implies wf_expr(
                        (#[trigger] es@[q])@,
                    ) by {
                        assert(te[0].1->Arr_0[q] == es@[q]@);
                    }
                    assert(false);
                }
            }
            return None
        };
        let e = JsonExpr::Ip(items);
        proof {
            assert(enc_expr(e)->Obj_0 =~= te);
            assert(enc_expr(e) == j@);
            assert forall|q: int| 0 <= q < te[0].1->Arr_0.len() implies wf_expr(
                #[trigger] te[0].1->Arr_0[q],
            ) by {
                assert(te[0].1->Arr_0[q] == es@[q]@);
            }
        }
        Some(e)
    }
     else if str_eq(k.as_str(), "isInRange") {
        let es = match &p0.1 {
            JsonVal::Arr(es) => es,
            _ => {
                return None;
            },
        };
        let Some(items) = decode_expr_items(es) else {
            proof {
                if wf_expr(j@) {
                    assert forall|q: int| 0 <= q < es@.len() implies wf_expr(
                        (#[trigger] es@[q])@,
                    ) by {
                        assert(te[0].1->Arr_0[q] == es@[q]@);
                    }
                    assert(false);
                }
            }
            return None
        };
        let e = JsonExpr::IsInRange(items);
        proof {
            assert(enc_expr(e)->Obj_0 =~= te);
            assert(enc_expr(e) == j@);
            assert forall|q: int| 0 <= q < te[0].1->Arr_0.len() implies wf_expr(
                #[trigger] te[0].1->Arr_0[q],
            ) by {
                assert(te[0].1->Arr_0[q] == es@[q]@);
            }
        }
        Some(e)
    }
     else {
        None
    }
}

// --------------------------------------------- encoded expressions are wf
pub proof fn lemma_enc_bin_wf(b: BinaryExpr)
    ensures
        wf_bin(enc_bin(b)),
    decreases b,
{
    lemma_enc_expr_wf(b.left);
    lemma_enc_expr_wf(b.right);
}

pub proof fn lemma_enc_neg_wf(n: NegExpr)
    ensures
        wf_neg(enc_neg(n)),
    decreases n,
{
    lemma_enc_expr_wf(n.arg);
}

pub proof fn lemma_enc_has_wf(h: HasExpr)
    ensures
        wf_has(enc_has(h)),
    decreases h,
{
    lemma_enc_expr_wf(h.left);
}

pub proof fn lemma_enc_isx_wf(x: IsExpr)
    ensures
        wf_isx(enc_isx(x)),
    decreases x,
{
    lemma_enc_expr_wf(x.left);
    let fs = enc_isx(x)->Obj_0;
    match x.in_entity {
        Option::Some(u) => {
            lemma_enc_euid_wf(u);
            assert(fs[2] == ("in"@, enc_euid(u)));
        },
        Option::None => {
            assert(fs =~= seq![
                ("left"@, enc_expr(x.left)),
                ("entity_type"@, JsonV::Str(x.entity_type@)),
            ]);
        },
    }
}

pub proof fn lemma_enc_like_wf(l: LikeExpr)
    ensures
        wf_like(enc_like(l)),
    decreases l,
{
    lemma_enc_expr_wf(l.left);
}

pub proof fn lemma_enc_ite_wf(x: IfThenElseExpr)
    ensures
        wf_ite(enc_ite(x)),
    decreases x,
{
    lemma_enc_expr_wf(x.cond);
    lemma_enc_expr_wf(x.thn);
    lemma_enc_expr_wf(x.els);
}

pub proof fn lemma_enc_expr_items_wf(s: Seq<JsonExpr>)
    ensures
        wf_expr_items(enc_expr_items(s)),
    decreases s,
{
    assert forall|i: int| 0 <= i < s.len() implies wf_expr(
        #[trigger] enc_expr_items(s)[i],
    ) by {
        assert(enc_expr_items(s)[i] == enc_expr(s[i]));
        lemma_enc_expr_wf(s[i]);
    }
}

pub proof fn lemma_enc_expr_entries_wf(s: Seq<(String, JsonExpr)>)
    ensures
        wf_expr_obj(enc_expr_entries(s)),
    decreases s,
{
    assert forall|i: int| 0 <= i < s.len() implies wf_expr(
        (#[trigger] enc_expr_entries(s)[i]).1,
    ) by {
        assert(enc_expr_entries(s)[i].1 == enc_expr(s[i].1));
        lemma_enc_expr_wf(s[i].1);
    }
}

pub proof fn lemma_enc_vexpr_wf(v: ValueExpr)
    ensures
        wf_vexpr(enc_vexpr(v)),
    decreases v,
{
    match v {
        ValueExpr::SetOf(se) => {
            lemma_enc_expr_items_wf(se.set@);
        },
        ValueExpr::Record(re) => {
            lemma_enc_expr_entries_wf(re.record@);
        },
        ValueExpr::EntityUid(u) => {
            lemma_enc_euid_wf(u);
        },
        ValueExpr::Function(f) => {
            lemma_enc_extfn_wf(f);
        },
        _ => {},
    }
}

/// Every encoded condition expression is a tree its decoder accepts.
#[verifier::rlimit(100)]
pub proof fn lemma_enc_expr_wf(e: JsonExpr)
    ensures
        wf_expr(enc_expr(e)),
    decreases e,
{
    reveal_strlit("Value");
    reveal_strlit("Var");
    reveal_strlit("Slot");
    reveal_strlit("!");
    reveal_strlit("neg");
    reveal_strlit("==");
    reveal_strlit("!=");
    reveal_strlit("in");
    reveal_strlit("<");
    reveal_strlit("<=");
    reveal_strlit(">");
    reveal_strlit(">=");
    reveal_strlit("&&");
    reveal_strlit("||");
    reveal_strlit("+");
    reveal_strlit("-");
    reveal_strlit("*");
    reveal_strlit("contains");
    reveal_strlit("containsAll");
    reveal_strlit("containsAny");
    reveal_strlit("hasTag");
    reveal_strlit("getTag");
    reveal_strlit(".");
    reveal_strlit("has");
    reveal_strlit("is");
    reveal_strlit("like");
    reveal_strlit("if-then-else");
    reveal_strlit("Set");
    reveal_strlit("Record");
    reveal_strlit("decimal");
    reveal_strlit("ip");
    reveal_strlit("isInRange");
    assert("Value"@.len() == 5);
    assert("Var"@.len() == 3);
    assert("Slot"@.len() == 4);
    assert("!"@.len() == 1);
    assert("neg"@.len() == 3);
    assert("=="@.len() == 2);
    assert("!="@.len() == 2);
    assert("in"@.len() == 2);
    assert("<"@.len() == 1);
    assert("<="@.len() == 2);
    assert(">"@.len() == 1);
    assert(">="@.len() == 2);
    assert("&&"@.len() == 2);
    assert("||"@.len() == 2);
    assert("+"@.len() == 1);
    assert("-"@.len() == 1);
    assert("*"@.len() == 1);
    assert("contains"@.len() == 8);
    assert("containsAll"@.len() == 11);
    assert("containsAny"@.len() == 11);
    assert("hasTag"@.len() == 6);
    assert("getTag"@.len() == 6);
    assert("."@.len() == 1);
    assert("has"@.len() == 3);
    assert("is"@.len() == 2);
    assert("like"@.len() == 4);
    assert("if-then-else"@.len() == 12);
    assert("Set"@.len() == 3);
    assert("Record"@.len() == 6);
    assert("decimal"@.len() == 7);
    assert("ip"@.len() == 2);
    assert("isInRange"@.len() == 9);
    assert("Value"@[0] == 'V');
    assert("Var"@[0] == 'V');
    assert("Slot"@[0] == 'S');
    assert("!"@[0] == '!');
    assert("neg"@[0] == 'n');
    assert("=="@[0] == '=');
    assert("!="@[0] == '!');
    assert("in"@[0] == 'i');
    assert("<"@[0] == '<');
    assert("<="@[0] == '<');
    assert(">"@[0] == '>');
    assert(">="@[0] == '>');
    assert("&&"@[0] == '&');
    assert("||"@[0] == '|');
    assert("+"@[0] == '+');
    assert("-"@[0] == '-');
    assert("*"@[0] == '*');
    assert("contains"@[0] == 'c');
    assert("containsAll"@[0] == 'c');
    assert("containsAny"@[0] == 'c');
    assert("hasTag"@[0] == 'h');
    assert("getTag"@[0] == 'g');
    assert("."@[0] == '.');
    assert("has"@[0] == 'h');
    assert("is"@[0] == 'i');
    assert("like"@[0] == 'l');
    assert("if-then-else"@[0] == 'i');
    assert("Set"@[0] == 'S');
    assert("Record"@[0] == 'R');
    assert("decimal"@[0] == 'd');
    assert("ip"@[0] == 'i');
    assert("isInRange"@[0] == 'i');
    assert("in"@[1] == 'n' && "is"@[1] == 's' && "ip"@[1] == 'p');
    assert("containsAll"@[9] == 'l' && "containsAny"@[9] == 'n');
    match e {
        JsonExpr::Value(v) => {
            lemma_enc_vexpr_wf(v);
            assert(enc_expr(e)->Obj_0[0] == ("Value"@, enc_vexpr(v)));
        },
        JsonExpr::Var(v) => {
            assert(enc_expr(e)->Obj_0[0] == ("Var"@, enc_var(v)));
        },
        JsonExpr::Slot(s) => {
            assert(enc_expr(e)->Obj_0[0] == ("Slot"@, enc_slot(s)));
        },
        JsonExpr::Bang(n) => {
            lemma_enc_neg_wf(*n);
            assert(enc_expr(e)->Obj_0[0] == ("!"@, enc_neg(*n)));
        },
        JsonExpr::Neg(n) => {
            lemma_enc_neg_wf(*n);
            assert(enc_expr(e)->Obj_0[0] == ("neg"@, enc_neg(*n)));
        },
        JsonExpr::Eq(b) => {
            lemma_enc_bin_wf(*b);
            assert(enc_expr(e)->Obj_0[0] == ("=="@, enc_bin(*b)));
        },
        JsonExpr::Neq(b) => {
            lemma_enc_bin_wf(*b);
            assert(enc_expr(e)->Obj_0[0] == ("!="@, enc_bin(*b)));
        },
        JsonExpr::In(b) => {
            lemma_enc_bin_wf(*b);
            assert(enc_expr(e)->Obj_0[0] == ("in"@, enc_bin(*b)));
        },
        JsonExpr::Lt(b) => {
            lemma_enc_bin_wf(*b);
            assert(enc_expr(e)->Obj_0[0] == ("<"@, enc_bin(*b)));
        },
        JsonExpr::Lte(b) => {
            lemma_enc_bin_wf(*b);
            assert(enc_expr(e)->Obj_0[0] == ("<="@, enc_bin(*b)));
        },
        JsonExpr::Gt(b) => {
            lemma_enc_bin_wf(*b);
            assert(enc_expr(e)->Obj_0[0] == (">"@, enc_bin(*b)));
        },
        JsonExpr::Gte(b) => {
            lemma_enc_bin_wf(*b);
            assert(enc_expr(e)->Obj_0[0] == (">="@, enc_bin(*b)));
        },
        JsonExpr::And(b) => {
            lemma_enc_bin_wf(*b);
            assert(enc_expr(e)->Obj_0[0] == ("&&"@, enc_bin(*b)));
        },
        JsonExpr::Or(b) => {
            lemma_enc_bin_wf(*b);
            assert(enc_expr(e)->Obj_0[0] == ("||"@, enc_bin(*b)));
        },
        JsonExpr::Plus(b) => {
            lemma_enc_bin_wf(*b);
            assert(enc_expr(e)->Obj_0[0] == ("+"@, enc_bin(*b)));
        },
        JsonExpr::Minus(b) => {
            lemma_enc_bin_wf(*b);
            assert(enc_expr(e)->Obj_0[0] == ("-"@, enc_bin(*b)));
        },
        JsonExpr::Mul(b) => {
            lemma_enc_bin_wf(*b);
            assert(enc_expr(e)->Obj_0[0] == ("*"@, enc_bin(*b)));
        },
        JsonExpr::Contains(b) => {
            lemma_enc_bin_wf(*b);
            assert(enc_expr(e)->Obj_0[0] == ("contains"@, enc_bin(*b)));
        },
        JsonExpr::ContainsAll(b) => {
            lemma_enc_bin_wf(*b);
            assert(enc_expr(e)->Obj_0[0] == ("containsAll"@, enc_bin(*b)));
        },
        JsonExpr::ContainsAny(b) => {
            lemma_enc_bin_wf(*b);
            assert(enc_expr(e)->Obj_0[0] == ("containsAny"@, enc_bin(*b)));
        },
        JsonExpr::HasTag(b) => {
            lemma_enc_bin_wf(*b);
            assert(enc_expr(e)->Obj_0[0] == ("hasTag"@, enc_bin(*b)));
        },
        JsonExpr::GetTag(b) => {
            lemma_enc_bin_wf(*b);
            assert(enc_expr(e)->Obj_0[0] == ("getTag"@, enc_bin(*b)));
        },
        JsonExpr::Dot(h) => {
            lemma_enc_has_wf(*h);
            assert(enc_expr(e)->Obj_0[0] == ("."@, enc_has(*h)));
        },
        JsonExpr::Has(h) => {
            lemma_enc_has_wf(*h);
            assert(enc_expr(e)->Obj_0[0] == ("has"@, enc_has(*h)));
        },
        JsonExpr::Is(x) => {
            lemma_enc_isx_wf(*x);
            assert(enc_expr(e)->Obj_0[0] == ("is"@, enc_isx(*x)));
        },
        JsonExpr::Like(l) => {
            lemma_enc_like_wf(*l);
            assert(enc_expr(e)->Obj_0[0] == ("like"@, enc_like(*l)));
        },
        JsonExpr::IfThenElse(x) => {
            lemma_enc_ite_wf(*x);
            assert(enc_expr(e)->Obj_0[0] == ("if-then-else"@, enc_ite(*x)));
        },
        JsonExpr::SetOf(v) => {
            lemma_enc_expr_items_wf(v@);
            assert(enc_expr(e)->Obj_0[0] == ("Set"@, JsonV::Arr(enc_expr_items(v@))));
        },
        JsonExpr::Record(m) => {
            lemma_enc_expr_entries_wf(m@);
            assert(enc_expr(e)->Obj_0[0] == ("Record"@, JsonV::Obj(enc_expr_entries(m@))));
        },
        JsonExpr::Decimal(v) => {
            lemma_enc_expr_items_wf(v@);
            assert(enc_expr(e)->Obj_0[0] == ("decimal"@, JsonV::Arr(enc_expr_items(v@))));
        },
        JsonExpr::Ip(v) => {
            lemma_enc_expr_items_wf(v@);
            assert(enc_expr(e)->Obj_0[0] == ("ip"@, JsonV::Arr(enc_expr_items(v@))));
        },
        JsonExpr::IsInRange(v) => {
            lemma_enc_expr_items_wf(v@);
            assert(enc_expr(e)->Obj_0[0] == ("isInRange"@, JsonV::Arr(enc_expr_items(v@))));
        },
    }
}

// --------------------------------------------------------------- Condition
pub open spec fn enc_cond(c: Condition) -> JsonV {
    JsonV::Obj(seq![("kind"@, enc_kind(c.kind)), ("body"@, enc_expr(c.body))])
}

pub open spec fn wf_cond(j: JsonV) -> bool {
    &&& j matches JsonV::Obj(fs)
    &&& fs.len() == 2
    &&& fs[0].0 == "kind"@
    &&& wf_kind(fs[0].1)
    &&& fs[1].0 == "body"@
    &&& wf_expr(fs[1].1)
}

/// Every encoded condition is a tree its decoder accepts.
pub proof fn lemma_enc_cond_wf(c: Condition)
    ensures
        wf_cond(enc_cond(c)),
{
    lemma_enc_expr_wf(c.body);
}

pub fn encode_cond(c: &Condition) -> (r: JsonVal)
    ensures
        r@ == enc_cond(*c),
{
    let mut fs: Vec<(String, JsonVal)> = Vec::new();
    fs.push((String::from_str("kind"), encode_kind(&c.kind)));
    let b = encode_expr(&c.body);
    fs.push((String::from_str("body"), b));
    let r = JsonVal::Obj(fs);
    proof {
        assert(r@->Obj_0 =~= enc_cond(*c)->Obj_0);
        assert(r@ == enc_cond(*c));
    }
    r
}

pub fn decode_cond(j: &JsonVal) -> (r: Option<Condition>)
    ensures
        r is Some <==> wf_cond(j@),
        r matches Some(c) ==> enc_cond(c) == j@,
{
    let fs = match j {
        JsonVal::Obj(fs) => fs,
        _ => {
            return None;
        },
    };
    if fs.len() != 2 {
        return None;
    }
    if !str_eq(fs[0].0.as_str(), "kind") || !str_eq(fs[1].0.as_str(), "body") {
        return None;
    }
    let Some(k) = decode_kind(&fs[0].1) else { return None };
    let Some(b) = decode_expr(&fs[1].1) else { return None };
    let c = Condition { kind: k, body: b };
    proof {
        assert(enc_cond(c)->Obj_0 =~= entries_of(fs@));
        assert(enc_cond(c) == j@);
    }
    Some(c)
}

pub open spec fn enc_cond_items(s: Seq<Condition>) -> Seq<JsonV> {
    Seq::new(s.len(), |i: int| enc_cond(s[i]))
}

pub open spec fn wf_cond_items(s: Seq<JsonV>) -> bool {
    forall|i: int| 0 <= i < s.len() ==> wf_cond(#[trigger] s[i])
}

#[verifier::loop_isolation(false)]
pub fn encode_cond_items(v: &Vec<Condition>) -> (r: Vec<JsonVal>)
    ensures
        elts_of(r@) == enc_cond_items(v@),
{
    let mut out: Vec<JsonVal> = Vec::new();
    let mut i: usize = 0;
    while i < v.len()
        invariant
            i <= v.len(),
            out@.len() == i as int,
            forall|k: int| 0 <= k < i as int ==> (#[trigger] out@[k])@ == enc_cond(v@[k]),
        decreases v.len() - i,
    {
        let e = encode_cond(&v[i]);
        out.push(e);
        i = i + 1;
    }
    proof {
        assert(elts_of(out@) =~= enc_cond_items(v@));
    }
    out
}

#[verifier::loop_isolation(false)]
pub fn decode_cond_items(v: &Vec<JsonVal>) -> (r: Option<Vec<Condition>>)
    ensures
        r is Some <==> (forall|k: int| 0 <= k < v@.len() ==> wf_cond((#[trigger] v@[k])@)),
        r matches Some(cs) ==> enc_cond_items(cs@) == elts_of(v@),
{
    let mut out: Vec<Condition> = Vec::new();
    let mut i: usize = 0;
    while i < v.len()
        invariant
            i <= v.len(),
            out@.len() == i as int,
            forall|k: int|
                0 <= k < i as int ==> wf_cond((#[trigger] v@[k])@) && enc_cond(out@[k]) == v@[k]@,
        decreases v.len() - i,
    {
        match decode_cond(&v[i]) {
            Some(c) => {
                out.push(c);
            },
            None => {
                return None;
            },
        }
        i = i + 1;
    }
    proof {
        assert(enc_cond_items(out@) =~= elts_of(v@));
    }
    Some(out)
}

// ----------------------------------------------------- policy annotations
pub open spec fn ann2_entries(s: Seq<(String, Option<String>)>) -> Seq<(Seq<char>, JsonV)> {
    Seq::new(
        s.len(),
        |i: int|
            (
                s[i].0@,
                match s[i].1 {
                    Option::None => JsonV::Null,
                    Option::Some(v) => JsonV::Str(v@),
                },
            ),
    )
}

pub open spec fn wf_ann_obj(j: JsonV) -> bool {
    &&& j matches JsonV::Obj(fs)
    &&& forall|i: int| 0 <= i < fs.len() ==> (#[trigger] fs[i]).1 is Str || fs[i].1 is Null
}

pub open spec fn pol_ann_entries(s: Seq<(String, Option<String>)>) -> Seq<(Seq<char>, JsonV)> {
    if s.len() == 0 {
        Seq::empty()
    } else {
        seq![("annotations"@, JsonV::Obj(ann2_entries(s)))]
    }
}

#[verifier::loop_isolation(false)]
pub fn encode_ann_pairs(v: &Vec<(String, Option<String>)>) -> (r: Vec<(String, JsonVal)>)
    ensures
        entries_of(r@) == ann2_entries(v@),
{
    let mut out: Vec<(String, JsonVal)> = Vec::new();
    let mut i: usize = 0;
    while i < v.len()
        invariant
            i <= v.len(),
            out@.len() == i as int,
            forall|k: int|
                0 <= k < i as int ==> (#[trigger] out@[k]).0@ == v@[k].0@ && out@[k].1@ == (
                match v@[k].1 {
                    Option::None => JsonV::Null,
                    Option::Some(s) => JsonV::Str(s@),
                }),
        decreases v.len() - i,
    {
        let p = &v[i];
        let val = match &p.1 {
            Option::Some(s) => JsonVal::Str(s.clone()),
            Option::None => JsonVal::Null,
        };
        out.push((p.0.clone(), val));
        i = i + 1;
    }
    proof {
        assert(entries_of(out@) =~= ann2_entries(v@));
    }
    out
}

#[verifier::loop_isolation(false)]
pub fn decode_ann_pairs(v: &Vec<(String, JsonVal)>) -> (r: Option<
    Vec<(String, Option<String>)>,
>)
    ensures
        r is Some <==> (forall|k: int|
            0 <= k < v@.len() ==> (#[trigger] v@[k]).1@ is Str || v@[k].1@ is Null),
        r matches Some(m) ==> ann2_entries(m@) == entries_of(v@),
{
    let mut out: Vec<(String, Option<String>)> = Vec::new();
    let mut i: usize = 0;
    while i < v.len()
        invariant
            i <= v.len(),
            out@.len() == i as int,
            forall|k: int|
                0 <= k < i as int ==> ((#[trigger] v@[k]).1@ is Str || v@[k].1@ is Null)
                    && out@[k].0@ == v@[k].0@ && (match out@[k].1 {
                    Option::None => JsonV::Null,
                    Option::Some(s) => JsonV::Str(s@),
                }) == v@[k].1@,
        decreases v.len() - i,
    {
        let p = &v[i];
        match &p.1 {
            JsonVal::Str(s) => {
                out.push((p.0.clone(), Some(s.clone())));
            },
            JsonVal::Null => {
                out.push((p.0.clone(), None));
            },
            _ => {
                return None;
            },
        }
        i = i + 1;
    }
    proof {
        assert(ann2_entries(out@) =~= entries_of(v@));
    }
    Some(out)
}

// ------------------------------------------------------------------ Policy
pub open spec fn enc_policy(p: Policy) -> JsonV {
    JsonV::Obj(
        seq![
            ("effect"@, enc_effect(p.effect)),
            ("principal"@, enc_pop(p.principal)),
            ("action"@, enc_aop(p.action)),
            ("resource"@, enc_rop(p.resource)),
            ("conditions"@, JsonV::Arr(enc_cond_items(p.conditions@))),
        ] + pol_ann_entries(p.annotations@),
    )
}

pub open spec fn wf_policy(j: JsonV) -> bool {
    &&& j matches JsonV::Obj(fs)
    &&& fs.len() == 5 || fs.len() == 6
    &&& fs[0].0 == "effect"@
    &&& wf_effect(fs[0].1)
    &&& fs[1].0 == "principal"@
    &&& wf_pr_op(fs[1].1)
    &&& fs[2].0 == "action"@
    &&& wf_aop(fs[2].1)
    &&& fs[3].0 == "resource"@
    &&& wf_pr_op(fs[3].1)
    &&& fs[4].0 == "conditions"@
    &&& fs[4].1 is Arr
    &&& wf_cond_items(fs[4].1->Arr_0)
    &&& fs.len() == 6 ==> fs[5].0 == "annotations"@ && wf_ann_obj(fs[5].1)
        && fs[5].1->Obj_0.len() > 0
}

/// Every encoded policy is a tree its decoder accepts: this is the policy
/// JSON round trip.
pub proof fn lemma_enc_policy_wf(p: Policy)
    ensures
        wf_policy(enc_policy(p)),
{
    let fs = enc_policy(p)->Obj_0;
    lemma_enc_pop_wf(p.principal);
    lemma_enc_aop_wf(p.action);
    lemma_enc_rop_wf(p.resource);
    assert forall|i: int| 0 <= i < p.conditions@.len() implies wf_cond(
        #[trigger] enc_cond_items(p.conditions@)[i],
    ) by {
        assert(enc_cond_items(p.conditions@)[i] == enc_cond(p.conditions@[i]));
        lemma_enc_cond_wf(p.conditions@[i]);
    }
    if p.annotations@.len() == 0 {
        assert(fs =~= seq![
            ("effect"@, enc_effect(p.effect)),
            ("principal"@, enc_pop(p.principal)),
            ("action"@, enc_aop(p.action)),
            ("resource"@, enc_rop(p.resource)),
            ("conditions"@, JsonV::Arr(enc_cond_items(p.conditions@))),
        ]);
    } else {
        assert(fs[5] == ("annotations"@, JsonV::Obj(ann2_entries(p.annotations@))));
    }
}

pub fn encode_policy(p: &Policy) -> (r: JsonVal)
    ensures
        r@ == enc_policy(*p),
{
    let mut fs: Vec<(String, JsonVal)> = Vec::new();
    fs.push((String::from_str("effect"), encode_effect(&p.effect)));
    fs.push((String::from_str("principal"), encode_pop(&p.principal)));
    fs.push((String::from_str("action"), encode_aop(&p.action)));
    fs.push((String::from_str("resource"), encode_rop(&p.resource)));
    let conds = JsonVal::Arr(encode_cond_items(&p.conditions));
    proof {
        assert(conds@ == JsonV::Arr(enc_cond_items(p.conditions@)));
    }
    fs.push((String::from_str("conditions"), conds));
    if p.annotations.len() > 0 {
        let an = JsonVal::Obj(encode_ann_pairs(&p.annotations));
        proof {
            assert(an@ == JsonV::Obj(ann2_entries(p.annotations@)));
        }
        fs.push((String::from_str("annotations"), an));
    }
    let r = JsonVal::Obj(fs);
    proof {
        assert(r@->Obj_0 =~= enc_policy(*p)->Obj_0);
        assert(r@ == enc_policy(*p));
    }
    r
}

pub fn decode_policy(j: &JsonVal) -> (r: Option<Policy>)
    ensures
        r is Some <==> wf_policy(j@),
        r matches Some(p) ==> enc_policy(p) == j@,
{
    let fs = match j {
        JsonVal::Obj(fs) => fs,
        _ => {
            return None;
        },
    };
    let ghost ent = entries_of(fs@);
    if fs.len() != 5 && fs.len() != 6 {
        return None;
    }
    if !str_eq(fs[0].0.as_str(), "effect") || !str_eq(fs[1].0.as_str(), "principal") || !str_eq(
        fs[2].0.as_str(),
        "action",
    ) || !str_eq(fs[3].0.as_str(), "resource") || !str_eq(fs[4].0.as_str(), "conditions") {
        return None;
    }
    let Some(effect) = decode_effect(&fs[0].1) else { return None };
    let Some(principal) = decode_pop(&fs[1].1) else { return None };
    let Some(action) = decode_aop(&fs[2].1) else { return None };
    let Some(resource) = decode_rop(&fs[3].1) else { return None };
    let cond_val = match &fs[4].1 {
        JsonVal::Arr(cs) => cs,
        _ => {
            return None;
        },
    };
    let Some(conditions) = decode_cond_items(cond_val) else {
        proof {
            if wf_policy(j@) {
                assert forall|k: int| 0 <= k < cond_val@.len() implies wf_cond(
                    (#[trigger] cond_val@[k])@,
                ) by {
                    assert(ent[4].1->Arr_0[k] == cond_val@[k]@);
                }
                assert(false);
            }
        }
        return None
    };
    let mut annotations: Vec<(String, Option<String>)> = Vec::new();
    if fs.len() == 6 {
        if !str_eq(fs[5].0.as_str(), "annotations") {
            return None;
        }
        let an_val = match &fs[5].1 {
            JsonVal::Obj(m) => m,
            _ => {
                return None;
            },
        };
        if an_val.len() == 0 {
            proof {
                assert(ent[5].1->Obj_0.len() == 0);
            }
            return None;
        }
        let Some(an) = decode_ann_pairs(an_val) else {
            proof {
                if wf_policy(j@) {
                    assert forall|k: int|
                        0 <= k < an_val@.len() implies ((#[trigger] an_val@[k]).1@ is Str
                        || an_val@[k].1@ is Null) by {
                        assert(ent[5].1->Obj_0[k] == (an_val@[k].0@, an_val@[k].1@));
                    }
                    assert(false);
                }
            }
            return None
        };
        annotations = an;
    }
    let p = Policy { effect, principal, action, resource, conditions, annotations };
    proof {
        assert(enc_policy(p)->Obj_0 =~= ent);
        assert(enc_policy(p) == j@);
        assert(wf_policy(j@));
    }
    Some(p)
}
// ---------------------------------------------------------------- Template
pub open spec fn enc_template(p: Template) -> JsonV {
    JsonV::Obj(
        seq![
            ("effect"@, enc_effect(p.effect)),
            ("principal"@, enc_pop(p.principal)),
            ("action"@, enc_aop(p.action)),
            ("resource"@, enc_rop(p.resource)),
            ("conditions"@, JsonV::Arr(enc_cond_items(p.conditions@))),
        ] + pol_ann_entries(p.annotations@),
    )
}

pub open spec fn wf_template(j: JsonV) -> bool {
    &&& j matches JsonV::Obj(fs)
    &&& fs.len() == 5 || fs.len() == 6
    &&& fs[0].0 == "effect"@
    &&& wf_effect(fs[0].1)
    &&& fs[1].0 == "principal"@
    &&& wf_pr_op(fs[1].1)
    &&& fs[2].0 == "action"@
    &&& wf_aop(fs[2].1)
    &&& fs[3].0 == "resource"@
    &&& wf_pr_op(fs[3].1)
    &&& fs[4].0 == "conditions"@
    &&& fs[4].1 is Arr
    &&& wf_cond_items(fs[4].1->Arr_0)
    &&& fs.len() == 6 ==> fs[5].0 == "annotations"@ && wf_ann_obj(fs[5].1)
        && fs[5].1->Obj_0.len() > 0
}

/// Every encoded template is a tree its decoder accepts: this is the template
/// JSON round trip.
pub proof fn lemma_enc_template_wf(p: Template)
    ensures
        wf_template(enc_template(p)),
{
    let fs = enc_template(p)->Obj_0;
    lemma_enc_pop_wf(p.principal);
    lemma_enc_aop_wf(p.action);
    lemma_enc_rop_wf(p.resource);
    assert forall|i: int| 0 <= i < p.conditions@.len() implies wf_cond(
        #[trigger] enc_cond_items(p.conditions@)[i],
    ) by {
        assert(enc_cond_items(p.conditions@)[i] == enc_cond(p.conditions@[i]));
        lemma_enc_cond_wf(p.conditions@[i]);
    }
    if p.annotations@.len() == 0 {
        assert(fs =~= seq![
            ("effect"@, enc_effect(p.effect)),
            ("principal"@, enc_pop(p.principal)),
            ("action"@, enc_aop(p.action)),
            ("resource"@, enc_rop(p.resource)),
            ("conditions"@, JsonV::Arr(enc_cond_items(p.conditions@))),
        ]);
    } else {
        assert(fs[5] == ("annotations"@, JsonV::Obj(ann2_entries(p.annotations@))));
    }
}

pub fn encode_template(p: &Template) -> (r: JsonVal)
    ensures
        r@ == enc_template(*p),
{
    let mut fs: Vec<(String, JsonVal)> = Vec::new();
    fs.push((String::from_str("effect"), encode_effect(&p.effect)));
    fs.push((String::from_str("principal"), encode_pop(&p.principal)));
    fs.push((String::from_str("action"), encode_aop(&p.action)));
    fs.push((String::from_str("resource"), encode_rop(&p.resource)));
    let conds = JsonVal::Arr(encode_cond_items(&p.conditions));
    proof {
        assert(conds@ == JsonV::Arr(enc_cond_items(p.conditions@)));
    }
    fs.push((String::from_str("conditions"), conds));
    if p.annotations.len() > 0 {
        let an = JsonVal::Obj(encode_ann_pairs(&p.annotations));
        proof {
            assert(an@ == JsonV::Obj(ann2_entries(p.annotations@)));
        }
        fs.push((String::from_str("annotations"), an));
    }
    let r = JsonVal::Obj(fs);
    proof {
        assert(r@->Obj_0 =~= enc_template(*p)->Obj_0);
        assert(r@ == enc_template(*p));
    }
    r
}

pub fn decode_template(j: &JsonVal) -> (r: Option<Template>)
    ensures
        r is Some <==> wf_template(j@),
        r matches Some(p) ==> enc_template(p) == j@,
{
    let fs = match j {
        JsonVal::Obj(fs) => fs,
        _ => {
            return None;
        },
    };
    let ghost ent = entries_of(fs@);
    if fs.len() != 5 && fs.len() != 6 {
        return None;
    }
    if !str_eq(fs[0].0.as_str(), "effect") || !str_eq(fs[1].0.as_str(), "principal") || !str_eq(
        fs[2].0.as_str(),
        "action",
    ) || !str_eq(fs[3].0.as_str(), "resource") || !str_eq(fs[4].0.as_str(), "conditions") {
        return None;
    }
    let Some(effect) = decode_effect(&fs[0].1) else { return None };
    let Some(principal) = decode_pop(&fs[1].1) else { return None };
    let Some(action) = decode_aop(&fs[2].1) else { return None };
    let Some(resource) = decode_rop(&fs[3].1) else { return None };
    let cond_val = match &fs[4].1 {
        JsonVal::Arr(cs) => cs,
        _ => {
            return None;
        },
    };
    let Some(conditions) = decode_cond_items(cond_val) else {
        proof {
            if wf_template(j@) {
                assert forall|k: int| 0 <= k < cond_val@.len() implies wf_cond(
                    (#[trigger] cond_val@[k])@,
                ) by {
                    assert(ent[4].1->Arr_0[k] == cond_val@[k]@);
                }
                assert(false);
            }
        }
        return None
    };
    let mut annotations: Vec<(String, Option<String>)> = Vec::new();
    if fs.len() == 6 {
        if !str_eq(fs[5].0.as_str(), "annotations") {
            return None;
        }
        let an_val = match &fs[5].1 {
            JsonVal::Obj(m) => m,
            _ => {
                return None;
            },
        };
        if an_val.len() == 0 {
            proof {
                assert(ent[5].1->Obj_0.len() == 0);
            }
            return None;
        }
        let Some(an) = decode_ann_pairs(an_val) else {
            proof {
                if wf_template(j@) {
                    assert forall|k: int|
                        0 <= k < an_val@.len() implies ((#[trigger] an_val@[k]).1@ is Str
                        || an_val@[k].1@ is Null) by {
                        assert(ent[5].1->Obj_0[k] == (an_val@[k].0@, an_val@[k].1@));
                    }
                    assert(false);
                }
            }
            return None
        };
        annotations = an;
    }
    let p = Template { effect, principal, action, resource, conditions, annotations };
    proof {
        assert(enc_template(p)->Obj_0 =~= ent);
        assert(enc_template(p) == j@);
        assert(wf_template(j@));
    }
    Some(p)
}

// ------------------------------------------------------------ TemplateLink
pub open spec fn enc_link_values(s: Seq<(SlotId, EntityValue)>) -> Seq<(Seq<char>, JsonV)> {
    Seq::new(s.len(), |i: int| (slot_seq(s[i].0), enc_entity_value(s[i].1)))
}

pub open spec fn wf_link_values(s: Seq<(Seq<char>, JsonV)>) -> bool {
    forall|i: int|
        0 <= i < s.len() ==> ((#[trigger] s[i]).0 == "?principal"@ || s[i].0 == "?resource"@)
            && wf_entity_value(s[i].1)
}

pub open spec fn enc_link(l: TemplateLink) -> JsonV {
    JsonV::Obj(
        seq![
            ("templateId"@, JsonV::Str(l.template_id.0@)),
            ("newId"@, JsonV::Str(l.new_id.0@)),
            ("values"@, JsonV::Obj(enc_link_values(l.values@))),
        ],
    )
}

pub open spec fn wf_link(j: JsonV) -> bool {
    &&& j matches JsonV::Obj(fs)
    &&& fs.len() == 3
    &&& fs[0].0 == "templateId"@
    &&& fs[0].1 is Str
    &&& fs[1].0 == "newId"@
    &&& fs[1].1 is Str
    &&& fs[2].0 == "values"@
    &&& fs[2].1 is Obj
    &&& wf_link_values(fs[2].1->Obj_0)
}

/// Every encoded template link is a tree its decoder accepts: this is the
/// template-link JSON round trip.
pub proof fn lemma_enc_link_wf(l: TemplateLink)
    ensures
        wf_link(enc_link(l)),
{
    assert forall|i: int| 0 <= i < l.values@.len() implies ((#[trigger] enc_link_values(
        l.values@,
    )[i]).0 == "?principal"@ || enc_link_values(l.values@)[i].0 == "?resource"@)
        && wf_entity_value(enc_link_values(l.values@)[i].1) by {
        assert(enc_link_values(l.values@)[i] == (
            slot_seq(l.values@[i].0),
            enc_entity_value(l.values@[i].1),
        ));
        lemma_enc_entity_value_wf(l.values@[i].1);
    }
}

#[verifier::loop_isolation(false)]
pub fn encode_link(l: &TemplateLink) -> (r: JsonVal)
    ensures
        r@ == enc_link(*l),
{
    let mut vals: Vec<(String, JsonVal)> = Vec::new();
    let mut i: usize = 0;
    while i < l.values.len()
        invariant
            i <= l.values.len(),
            vals@.len() == i as int,
            forall|k: int|
                0 <= k < i as int ==> (#[trigger] vals@[k]).0@ == slot_seq(l.values@[k].0)
                    && vals@[k].1@ == enc_entity_value(l.values@[k].1),
        decreases l.values.len() - i,
    {
        let p = &l.values[i];
        let ks = match p.0 {
            SlotId::Principal => String::from_str("?principal"),
            SlotId::Resource => String::from_str("?resource"),
        };
        vals.push((ks, encode_entity_value(&p.1)));
        i = i + 1;
    }
    let mut fs: Vec<(String, JsonVal)> = Vec::new();
    fs.push((String::from_str("templateId"), JsonVal::Str(l.template_id.0.clone())));
    fs.push((String::from_str("newId"), JsonVal::Str(l.new_id.0.clone())));
    let vo = JsonVal::Obj(vals);
    proof {
        assert(vo@->Obj_0 =~= enc_link_values(l.values@));
        assert(vo@ == JsonV::Obj(enc_link_values(l.values@)));
    }
    fs.push((String::from_str("values"), vo));
    let r = JsonVal::Obj(fs);
    proof {
        assert(r@->Obj_0 =~= enc_link(*l)->Obj_0);
        assert(r@ == enc_link(*l));
    }
    r
}

#[verifier::loop_isolation(false)]
pub fn decode_link(j: &JsonVal) -> (r: Option<TemplateLink>)
    ensures
        r is Some <==> wf_link(j@),
        r matches Some(l) ==> enc_link(l) == j@,
{
    let fs = match j {
        JsonVal::Obj(fs) => fs,
        _ => {
            return None;
        },
    };
    let ghost ent = entries_of(fs@);
    if fs.len() != 3 {
        return None;
    }
    if !str_eq(fs[0].0.as_str(), "templateId") || !str_eq(fs[1].0.as_str(), "newId") || !str_eq(
        fs[2].0.as_str(),
        "values",
    ) {
        return None;
    }
    let tid = match &fs[0].1 {
        JsonVal::Str(s) => s,
        _ => {
            return None;
        },
    };
    let nid = match &fs[1].1 {
        JsonVal::Str(s) => s,
        _ => {
            return None;
        },
    };
    let vals_val = match &fs[2].1 {
        JsonVal::Obj(m) => m,
        _ => {
            return None;
        },
    };
    let mut values: Vec<(SlotId, EntityValue)> = Vec::new();
    let mut i: usize = 0;
    while i < vals_val.len()
        invariant
            i <= vals_val.len(),
            values@.len() == i as int,
            forall|k: int|
                0 <= k < i as int ==> slot_seq(values@[k].0) == (#[trigger] vals_val@[k]).0@
                    && enc_entity_value(values@[k].1) == vals_val@[k].1@,
        decreases vals_val.len() - i,
    {
        let p = &vals_val[i];
        let sid = if str_eq(p.0.as_str(), "?principal") {
            SlotId::Principal
        } else if str_eq(p.0.as_str(), "?resource") {
            SlotId::Resource
        } else {
            proof {
                assert(ent[2].1->Obj_0[i as int] == (
                    vals_val@[i as int].0@,
                    vals_val@[i as int].1@,
                ));
                assert(!wf_link(j@));
            }
            return None;
        };
        match decode_entity_value(&p.1) {
            Some(v) => {
                values.push((sid, v));
            },
            None => {
                proof {
                    assert(ent[2].1->Obj_0[i as int] == (
                        vals_val@[i as int].0@,
                        vals_val@[i as int].1@,
                    ));
                    assert(!wf_link(j@));
                }
                return None;
            },
        }
        i = i + 1;
    }
    let l = TemplateLink {
        template_id: PolicyId(tid.clone()),
        new_id: PolicyId(nid.clone()),
        values,
    };
    proof {
        assert(enc_link_values(l.values@) =~= ent[2].1->Obj_0);
        assert(enc_link(l)->Obj_0 =~= ent);
        assert(enc_link(l) == j@);
        assert forall|k: int|
            0 <= k < ent[2].1->Obj_0.len() implies ((#[trigger] ent[2].1->Obj_0[k]).0
            == "?principal"@ || ent[2].1->Obj_0[k].0 == "?resource"@) && wf_entity_value(
            ent[2].1->Obj_0[k].1,
        ) by {
            assert(ent[2].1->Obj_0[k] == (vals_val@[k].0@, vals_val@[k].1@));
        }
        assert(wf_link(j@));
    }
    Some(l)
}

// --------------------------------------------------------------- PolicySet
pub open spec fn enc_policy_entries(s: Seq<(PolicyId, Policy)>) -> Seq<(Seq<char>, JsonV)> {
    Seq::new(s.len(), |i: int| (s[i].0.0@, enc_policy(s[i].1)))
}

pub open spec fn enc_template_entries(s: Seq<(PolicyId, Template)>) -> Seq<(Seq<char>, JsonV)> {
    Seq::new(s.len(), |i: int| (s[i].0.0@, enc_template(s[i].1)))
}

pub open spec fn enc_link_items(s: Seq<TemplateLink>) -> Seq<JsonV> {
    Seq::new(s.len(), |i: int| enc_link(s[i]))
}

pub open spec fn enc_policy_set(ps: PolicySet) -> JsonV {
    JsonV::Obj(
        seq![
            ("staticPolicies"@, JsonV::Obj(enc_policy_entries(ps.static_policies@))),
            ("templates"@, JsonV::Obj(enc_template_entries(ps.templates@))),
            ("templateLinks"@, JsonV::Arr(enc_link_items(ps.template_links@))),
        ],
    )
}

pub open spec fn wf_policy_obj(j: JsonV) -> bool {
    &&& j matches JsonV::Obj(fs)
    &&& forall|i: int| 0 <= i < fs.len() ==> wf_policy((#[trigger] fs[i]).1)
}

pub open spec fn wf_template_obj(j: JsonV) -> bool {
    &&& j matches JsonV::Obj(fs)
    &&& forall|i: int| 0 <= i < fs.len() ==> wf_template((#[trigger] fs[i]).1)
}

pub open spec fn wf_link_arr(j: JsonV) -> bool {
    &&& j matches JsonV::Arr(es)
    &&& forall|i: int| 0 <= i < es.len() ==> wf_link(#[trigger] es[i])
}

pub open spec fn wf_policy_set(j: JsonV) -> bool {
    &&& j matches JsonV::Obj(fs)
    &&& fs.len() == 3
    &&& fs[0].0 == "staticPolicies"@
    &&& wf_policy_obj(fs[0].1)
    &&& fs[1].0 == "templates"@
    &&& wf_template_obj(fs[1].1)
    &&& fs[2].0 == "templateLinks"@
    &&& wf_link_arr(fs[2].1)
}

/// Every encoded policy set is a tree its decoder accepts: this is the
/// policy-set JSON round trip.
pub proof fn lemma_enc_policy_set_wf(ps: PolicySet)
    ensures
        wf_policy_set(enc_policy_set(ps)),
{
    assert forall|i: int| 0 <= i < ps.static_policies@.len() implies wf_policy(
        (#[trigger] enc_policy_entries(ps.static_policies@)[i]).1,
    ) by {
        assert(enc_policy_entries(ps.static_policies@)[i].1 == enc_policy(
            ps.static_policies@[i].1,
        ));
        lemma_enc_policy_wf(ps.static_policies@[i].1);
    }
    assert forall|i: int| 0 <= i < ps.templates@.len() implies wf_template(
        (#[trigger] enc_template_entries(ps.templates@)[i]).1,
    ) by {
        assert(enc_template_entries(ps.templates@)[i].1 == enc_template(ps.templates@[i].1));
        lemma_enc_template_wf(ps.templates@[i].1);
    }
    assert forall|i: int| 0 <= i < ps.template_links@.len() implies wf_link(
        #[trigger] enc_link_items(ps.template_links@)[i],
    ) by {
        assert(enc_link_items(ps.template_links@)[i] == enc_link(ps.template_links@[i]));
        lemma_enc_link_wf(ps.template_links@[i]);
    }
}

#[verifier::loop_isolation(false)]
pub fn encode_policy_set(ps: &PolicySet) -> (r: JsonVal)
    ensures
        r@ == enc_policy_set(*ps),
{
    let mut sp: Vec<(String, JsonVal)> = Vec::new();
    let mut i: usize = 0;
    while i < ps.static_policies.len()
        invariant
            i <= ps.static_policies.len(),
            sp@.len() == i as int,
            forall|k: int|
                0 <= k < i as int ==> (#[trigger] sp@[k]).0@ == ps.static_policies@[k].0.0@
                    && sp@[k].1@ == enc_policy(ps.static_policies@[k].1),
        decreases ps.static_policies.len() - i,
    {
        let p = &ps.static_policies[i];
        let e = encode_policy(&p.1);
        sp.push((p.0.0.clone(), e));
        i = i + 1;
    }
    let mut tp: Vec<(String, JsonVal)> = Vec::new();
    let mut i2: usize = 0;
    while i2 < ps.templates.len()
        invariant
            i2 <= ps.templates.len(),
            tp@.len() == i2 as int,
            forall|k: int|
                0 <= k < i2 as int ==> (#[trigger] tp@[k]).0@ == ps.templates@[k].0.0@
                    && tp@[k].1@ == enc_template(ps.templates@[k].1),
        decreases ps.templates.len() - i2,
    {
        let p = &ps.templates[i2];
        let e = encode_template(&p.1);
        tp.push((p.0.0.clone(), e));
        i2 = i2 + 1;
    }
    let mut tl: Vec<JsonVal> = Vec::new();
    let mut i3: usize = 0;
    while i3 < ps.template_links.len()
        invariant
            i3 <= ps.template_links.len(),
            tl@.len() == i3 as int,
            forall|k: int|
                0 <= k < i3 as int ==> (#[trigger] tl@[k])@ == enc_link(ps.template_links@[k]),
        decreases ps.template_links.len() - i3,
    {
        let e = encode_link(&ps.template_links[i3]);
        tl.push(e);
        i3 = i3 + 1;
    }
    let mut fs: Vec<(String, JsonVal)> = Vec::new();
    let spo = JsonVal::Obj(sp);
    let tpo = JsonVal::Obj(tp);
    let tlo = JsonVal::Arr(tl);
    proof {
        assert(spo@->Obj_0 =~= enc_policy_entries(ps.static_policies@));
        assert(tpo@->Obj_0 =~= enc_template_entries(ps.templates@));
        assert(tlo@->Arr_0 =~= enc_link_items(ps.template_links@));
        assert(spo@ == JsonV::Obj(enc_policy_entries(ps.static_policies@)));
        assert(tpo@ == JsonV::Obj(enc_template_entries(ps.templates@)));
        assert(tlo@ == JsonV::Arr(enc_link_items(ps.template_links@)));
    }
    fs.push((String::from_str("staticPolicies"), spo));
    fs.push((String::from_str("templates"), tpo));
    fs.push((String::from_str("templateLinks"), tlo));
    let r = JsonVal::Obj(fs);
    proof {
        assert(r@->Obj_0 =~= enc_policy_set(*ps)->Obj_0);
        assert(r@ == enc_policy_set(*ps));
    }
    r
}

#[verifier::loop_isolation(false)]
pub fn decode_policy_set(j: &JsonVal) -> (r: Option<PolicySet>)
    ensures
        r is Some <==> wf_policy_set(j@),
        r matches Some(ps) ==> enc_policy_set(ps) == j@,
{
    let fs = match j {
        JsonVal::Obj(fs) => fs,
        _ => {
            return None;
        },
    };
    let ghost ent = entries_of(fs@);
    if fs.len() != 3 {
        return None;
    }
    if !str_eq(fs[0].0.as_str(), "staticPolicies") || !str_eq(fs[1].0.as_str(), "templates")
        || !str_eq(fs[2].0.as_str(), "templateLinks") {
        return None;
    }
    let sp_val = match &fs[0].1 {
        JsonVal::Obj(m) => m,
        _ => {
            return None;
        },
    };
    let tp_val = match &fs[1].1 {
        JsonVal::Obj(m) => m,
        _ => {
            return None;
        },
    };
    let tl_val = match &fs[2].1 {
        JsonVal::Arr(es) => es,
        _ => {
            return None;
        },
    };
    let mut static_policies: Vec<(PolicyId, Policy)> = Vec::new();
    let mut i: usize = 0;
    while i < sp_val.len()
        invariant
            i <= sp_val.len(),
            static_policies@.len() == i as int,
            forall|k: int|
                0 <= k < i as int ==> (#[trigger] static_policies@[k]).0.0@ == sp_val@[k].0@
                    && enc_policy(static_policies@[k].1) == sp_val@[k].1@ && wf_policy(
                    sp_val@[k].1@,
                ),
        decreases sp_val.len() - i,
    {
        let p = &sp_val[i];
        match decode_policy(&p.1) {
            Some(pol) => {
                static_policies.push((PolicyId(p.0.clone()), pol));
            },
            None => {
                proof {
                    assert(ent[0].1->Obj_0[i as int] == (
                        sp_val@[i as int].0@,
                        sp_val@[i as int].1@,
                    ));
                    assert(!wf_policy_set(j@));
                }
                return None;
            },
        }
        i = i + 1;
    }
    let mut templates: Vec<(PolicyId, Template)> = Vec::new();
    let mut i2: usize = 0;
    while i2 < tp_val.len()
        invariant
            i2 <= tp_val.len(),
            templates@.len() == i2 as int,
            forall|k: int|
                0 <= k < i2 as int ==> (#[trigger] templates@[k]).0.0@ == tp_val@[k].0@
                    && enc_template(templates@[k].1) == tp_val@[k].1@ && wf_template(
                    tp_val@[k].1@,
                ),
        decreases tp_val.len() - i2,
    {
        let p = &tp_val[i2];
        match decode_template(&p.1) {
            Some(tpl) => {
                templates.push((PolicyId(p.0.clone()), tpl));
            },
            None => {
                proof {
                    assert(ent[1].1->Obj_0[i2 as int] == (
                        tp_val@[i2 as int].0@,
                        tp_val@[i2 as int].1@,
                    ));
                    assert(!wf_policy_set(j@));
                }
                return None;
            },
        }
        i2 = i2 + 1;
    }
    let mut template_links: Vec<TemplateLink> = Vec::new();
    let mut i3: usize = 0;
    while i3 < tl_val.len()
        invariant
            i3 <= tl_val.len(),
            template_links@.len() == i3 as int,
            forall|k: int|
                0 <= k < i3 as int ==> enc_link(#[trigger] template_links@[k]) == tl_val@[k]@
                    && wf_link(tl_val@[k]@),
        decreases tl_val.len() - i3,
    {
        match decode_link(&tl_val[i3]) {
            Some(l) => {
                template_links.push(l);
            },
            None => {
                proof {
                    assert(ent[2].1->Arr_0[i3 as int] == tl_val@[i3 as int]@);
                    assert(!wf_policy_set(j@));
                }
                return None;
            },
        }
        i3 = i3 + 1;
    }
    let ps = PolicySet { static_policies, templates, template_links };
    proof {
        assert(enc_policy_entries(ps.static_policies@) =~= ent[0].1->Obj_0);
        assert(enc_template_entries(ps.templates@) =~= ent[1].1->Obj_0);
        assert(enc_link_items(ps.template_links@) =~= ent[2].1->Arr_0);
        assert(enc_policy_set(ps)->Obj_0 =~= ent);
        assert(enc_policy_set(ps) == j@);
        assert forall|k: int| 0 <= k < ent[0].1->Obj_0.len() implies wf_policy(
            (#[trigger] ent[0].1->Obj_0[k]).1,
        ) by {
            assert(ent[0].1->Obj_0[k] == (sp_val@[k].0@, sp_val@[k].1@));
        }
        assert forall|k: int| 0 <= k < ent[1].1->Obj_0.len() implies wf_template(
            (#[trigger] ent[1].1->Obj_0[k]).1,
        ) by {
            assert(ent[1].1->Obj_0[k] == (tp_val@[k].0@, tp_val@[k].1@));
        }
        assert forall|k: int| 0 <= k < ent[2].1->Arr_0.len() implies wf_link(
            #[trigger] ent[2].1->Arr_0[k],
        ) by {
            assert(ent[2].1->Arr_0[k] == tl_val@[k]@);
        }
        assert(wf_policy_set(j@));
    }
    Some(ps)
}

// ----------------------------------------------------------------- clones
impl Clone for Policy {
    /// A clone denotes the same JSON tree as the original.
    fn clone(&self) -> (r: Self)
        ensures
            enc_policy(r) == enc_policy(*self),
    {
        proof {
            lemma_enc_policy_wf(*self);
        }
        let e = encode_policy(self);
        decode_policy(&e).unwrap()
    }
}

impl Clone for Template {
    /// A clone denotes the same JSON tree as the original.
    fn clone(&self) -> (r: Self)
        ensures
            enc_template(r) == enc_template(*self),
    {
        proof {
            lemma_enc_template_wf(*self);
        }
        let e = encode_template(self);
        decode_template(&e).unwrap()
    }
}

impl Clone for TemplateLink {
    /// A clone denotes the same JSON tree as the original.
    fn clone(&self) -> (r: Self)
        ensures
            enc_link(r) == enc_link(*self),
    {
        proof {
            lemma_enc_link_wf(*self);
        }
        let e = encode_link(self);
        decode_link(&e).unwrap()
    }
}

impl Clone for PolicySet {
    /// A clone denotes the same JSON tree as the original.
    fn clone(&self) -> (r: Self)
        ensures
            enc_policy_set(r) == enc_policy_set(*self),
    {
        proof {
            lemma_enc_policy_set_wf(*self);
        }
        let e = encode_policy_set(self);
        decode_policy_set(&e).unwrap()
    }
}

} // verus!
