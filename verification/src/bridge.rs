//! The trusted boundary: the Cedar evaluator invocation, the JSON-tree
//! conversion it needs, and the generators for identifiers, API keys and
//! timestamps. Everything else about authorization is verified in
//! `engine` against the named components of the evaluator's answer.
use vstd::prelude::*;

use base64::Engine;
use cedar_policy::Authorizer as CA;
use cedar_policy::Context as CC;
use cedar_policy::Decision as CD;
use cedar_policy::Entities as CE;
use cedar_policy::EntityUid as CU;
use cedar_policy::PolicySet as CPS;
use cedar_policy::Request as CR;
use cedar_policy::Schema as CSch;

use crate::ast::Response as Resp;
use crate::json::JsonVal;
use crate::json::JsonV;

verus! {

#[verifier::external_type_specification]
#[verifier::external_body]
pub struct ExValue(serde_json::Value);

/// Relies on `serde_json::Value`'s constructors: rebuilds the same tree,
/// node for node; pure conversion.
#[verifier::external_body]
fn to_serde(j: &JsonVal) -> serde_json::Value {
    match j {
        JsonVal::Null => serde_json::Value::Null,
        JsonVal::Bool(b) => serde_json::Value::Bool(*b),
        JsonVal::Int(n) => serde_json::Value::from(*n),
        JsonVal::Str(s) => serde_json::Value::String(s.clone()),
        JsonVal::Arr(a) => serde_json::Value::Array(a.iter().map(to_serde).collect()),
        JsonVal::Obj(m) => serde_json::Value::Object(
            m.iter().map(|(k, x)| (k.clone(), to_serde(x))).collect(),
        ),
    }
}

/// The decision the Cedar evaluator reaches for a policy set, an entity
/// slice, an optional schema, a request triple and a context, each given
/// as its JSON tree (`hs` says whether the schema tree is meant): `None`
/// when some stage fails, otherwise whether the request is allowed. A
/// function of the trees alone.
pub uninterp spec fn cedar_decision_of(
    ps: JsonV,
    ents: JsonV,
    hs: bool,
    sc: JsonV,
    p: JsonV,
    a: JsonV,
    re: JsonV,
    c: JsonV,
) -> Option<bool>;

/// The set of policy ids the evaluator reports as the reason. The
/// evaluator hands them back in an unspecified order, so only the set is
/// a function of the trees.
pub uninterp spec fn cedar_reasons_of(
    ps: JsonV,
    ents: JsonV,
    hs: bool,
    sc: JsonV,
    p: JsonV,
    a: JsonV,
    re: JsonV,
    c: JsonV,
) -> Set<Seq<char>>;

/// The evaluation-error texts, in the evaluator's policy order, which
/// follows the policy set's own insertion order: a sequence that is a
/// function of the trees.
pub uninterp spec fn cedar_errors_of(
    ps: JsonV,
    ents: JsonV,
    hs: bool,
    sc: JsonV,
    p: JsonV,
    a: JsonV,
    re: JsonV,
    c: JsonV,
) -> Seq<Seq<char>>;

/// The evaluator invocation without a schema, over converted trees; no
/// contract of its own — its callers below carry the named contract.
#[verifier::external_body]
fn cedar_raw(
    ps: serde_json::Value,
    ents: serde_json::Value,
    p: serde_json::Value,
    a: serde_json::Value,
    re: serde_json::Value,
    c: serde_json::Value,
) -> Option<crate::ast::Response> {
    let cx = CC::from_json_value(c, None).ok()?;
    let g = |x| CU::from_json(x).ok();
    let rq = CR::new(g(p)?, g(a)?, g(re)?, cx, None).ok()?;
    let s = CPS::from_json_value(ps).ok()?;
    let ans = CA::new().is_authorized(&rq, &s, &CE::from_json_value(ents, None).ok()?);
    let dg = ans.diagnostics();
    Some(Resp::assemble(
        ans.decision() == CD::Allow,
        dg.reason().map(ToString::to_string).collect(),
        dg.errors().map(ToString::to_string).collect(),
    ))
}

/// The evaluator invocation with a schema, over converted trees; no
/// contract of its own — its callers below carry the named contract.
#[verifier::external_body]
fn cedar_raw_typed(
    ps: serde_json::Value,
    ents: serde_json::Value,
    sc: serde_json::Value,
    p: serde_json::Value,
    a: serde_json::Value,
    a2: serde_json::Value,
    re: serde_json::Value,
    c: serde_json::Value,
) -> Option<(bool, Vec<String>, Vec<String>)> {
    let g = |x| CU::from_json(x).ok();
    let sch = CSch::from_json_value(sc).ok()?;
    let ans = CA::new().is_authorized(&CR::new(g(p)?, g(a)?, g(re)?,
        CC::from_json_value(c, Some((&sch, &g(a2)?))).ok()?, Some(&sch)).ok()?,
        &CPS::from_json_value(ps).ok()?, &CE::from_json_value(ents, None).ok()?);
    let dg = ans.diagnostics();
    Some((ans.decision() == CD::Allow,
        dg.reason().map(ToString::to_string).collect(),
        dg.errors().map(ToString::to_string).collect()))
}

/// Relies on `cedar_policy`: `PolicySet::from_json_value`,
/// `Entities::from_json_value`, `EntityUid::from_json`,
/// `Context::from_json_value`, `Request::new` and
/// `Authorizer::is_authorized`, with no schema. The decision and the
/// diagnostics depend on the trees alone; the reason ids come back from
/// a set whose iteration order is not promised, so only their set is
/// named, while the error texts follow the policy set's insertion order
/// and are named as a sequence. Any stage's failure answers nothing.
#[verifier::external_body]
pub fn cedar_answer(
    ps: &JsonVal,
    ents: &JsonVal,
    sc: &JsonVal,
    p: &JsonVal,
    a: &JsonVal,
    re: &JsonVal,
    c: &JsonVal,
) -> (r: Option<crate::ast::Response>)
    ensures
        r is Some <==> cedar_decision_of(ps@, ents@, false, sc@, p@, a@, re@, c@) is Some,
        r matches Some(resp) ==> cedar_decision_of(ps@, ents@, false, sc@, p@, a@, re@, c@)
            == Option::Some(resp.decision is Allow) && resp.reason@.map_values(
            |s: String| s@,
        ).no_duplicates() && resp.reason@.map_values(|s: String| s@).to_set()
            == cedar_reasons_of(ps@, ents@, false, sc@, p@, a@, re@, c@) && resp.errors@.map_values(
            |s: String| s@,
        ) == cedar_errors_of(ps@, ents@, false, sc@, p@, a@, re@, c@),
{
    let _ = sc;
    cedar_raw(to_serde(ps), to_serde(ents), to_serde(p), to_serde(a), to_serde(re), to_serde(c))
}

/// Relies on the same `cedar_policy` functions plus
/// `Schema::from_json_value`: the schema types the request, validates
/// the context against the (schema, action) pair, and the same named
/// components carry the answer, with the schema flag set.
#[verifier::external_body]
pub fn cedar_answer_typed(
    ps: &JsonVal,
    ents: &JsonVal,
    sc: &JsonVal,
    p: &JsonVal,
    a: &JsonVal,
    re: &JsonVal,
    c: &JsonVal,
) -> (r: Option<crate::ast::Response>)
    ensures
        r is Some <==> cedar_decision_of(ps@, ents@, true, sc@, p@, a@, re@, c@) is Some,
        r matches Some(resp) ==> cedar_decision_of(ps@, ents@, true, sc@, p@, a@, re@, c@)
            == Option::Some(resp.decision is Allow) && resp.reason@.map_values(
            |s: String| s@,
        ).no_duplicates() && resp.reason@.map_values(|s: String| s@).to_set()
            == cedar_reasons_of(ps@, ents@, true, sc@, p@, a@, re@, c@) && resp.errors@.map_values(
            |s: String| s@,
        ) == cedar_errors_of(ps@, ents@, true, sc@, p@, a@, re@, c@),
{
    let parts = cedar_raw_typed(
        to_serde(ps),
        to_serde(ents),
        to_serde(sc),
        to_serde(p),
        to_serde(a),
        to_serde(a),
        to_serde(re),
        to_serde(c),
    )?;
    Some(Resp::assemble(parts.0, parts.1, parts.2))
}

/// Relies on `uuid::Uuid::now_v7`: a fresh version-7 identifier; the
/// version bits are set, so the value is never zero (the reserved nil
/// id).
#[verifier::external_body]
pub fn gen_project_id() -> (r: u128)
    ensures
        r != 0,
{
    uuid::Uuid::now_v7().as_u128()
}

/// Relies on `rand::fill` and `base64::Engine::encode`: 128 random bytes
/// in the standard padded alphabet, which is 172 characters; nothing
/// else is promised of a random value.
#[verifier::external_body]
pub fn gen_api_key() -> (r: String)
    ensures
        r@.len() == 172,
{
    let mut buf = [0u8; 128];
    rand::fill(&mut buf);
    base64::prelude::BASE64_STANDARD.encode(buf)
}

/// Relies on `chrono::Utc::now`: the wall clock in milliseconds; nothing
/// is promised of the time.
#[verifier::external_body]
pub fn now_ms() -> (r: i64) {
    chrono::Utc::now().timestamp_millis()
}

} // verus!
