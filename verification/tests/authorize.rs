use cedrus::ast::{ActionOp, ActionOperator, EntityUid, Policy, PolicyEffect, PolicySet,
    PrincipalOp, PrincipalOperator, ResourceOp, ResourceOperator};
use cedrus::ast::PolicyId;
use std::str::FromStr;
use cedrus::jcodec_policy::encode_policy_set;
use cedrus::json::JsonVal;

fn ast_to_value(j: &JsonVal) -> serde_json::Value {
    match j {
        JsonVal::Null => serde_json::Value::Null,
        JsonVal::Bool(b) => serde_json::Value::Bool(*b),
        JsonVal::Int(n) => serde_json::Value::from(*n),
        JsonVal::Str(s) => serde_json::Value::String(s.clone()),
        JsonVal::Arr(a) => serde_json::Value::Array(a.iter().map(ast_to_value).collect()),
        JsonVal::Obj(m) => {
            let mut out = serde_json::Map::new();
            for (k, x) in m {
                out.insert(k.clone(), ast_to_value(x));
            }
            serde_json::Value::Object(out)
        },
    }
}

fn uid(ty: &str, id: &str) -> EntityUid {
    EntityUid::new(ty.to_string(), id.to_string())
}

fn eq_policy(p_ty: &str, p_id: &str, act: &str, r_ty: &str, r_id: &str) -> Policy {
    Policy {
        effect: PolicyEffect::Permit,
        principal: PrincipalOp {
            op: PrincipalOperator::Eq,
            entity: Some(uid(p_ty, p_id)),
            slot: None,
            entity_type: None,
            in_clause: None,
        },
        action: ActionOp {
            op: ActionOperator::Eq,
            entity: Some(uid("Action", act)),
            entities: None,
        },
        resource: ResourceOp {
            op: ResourceOperator::Eq,
            entity: Some(uid(r_ty, r_id)),
            slot: None,
            entity_type: None,
            in_clause: None,
        },
        conditions: Vec::new(),
        annotations: Vec::new(),
    }
}

fn cedar_uid(ty: &str, id: &str) -> cedar_policy::EntityUid {
    cedar_policy::EntityUid::from_type_name_and_id(
        <cedar_policy::EntityTypeName as FromStr>::from_str(ty).unwrap(),
        cedar_policy::EntityId::new(id),
    )
}

// The encoded policy set drives the evaluator: a permitted request is
// allowed with the policy as the reason, another resource is denied,
// and repeating the same call answers the same.
#[test]
fn encoded_policy_set_evaluates() {
    let ps = PolicySet {
        static_policies: vec![(
            PolicyId("p1".to_string()),
            eq_policy("User", "alice", "read", "Doc", "d1"),
        )],
        templates: Vec::new(),
        template_links: Vec::new(),
    };
    let value = ast_to_value(&encode_policy_set(&ps));
    let cps = cedar_policy::PolicySet::from_json_value(value).unwrap();
    let entities = cedar_policy::Entities::empty();
    let authorizer = cedar_policy::Authorizer::new();

    let req = cedar_policy::Request::new(
        cedar_uid("User", "alice"),
        cedar_uid("Action", "read"),
        cedar_uid("Doc", "d1"),
        cedar_policy::Context::empty(),
        None,
    )
    .unwrap();
    let first = authorizer.is_authorized(&req, &cps, &entities);
    assert_eq!(first.decision(), cedar_policy::Decision::Allow);
    let reasons: Vec<String> = first.diagnostics().reason().map(|r| r.to_string()).collect();
    assert_eq!(reasons, vec!["p1".to_string()]);

    let second = authorizer.is_authorized(&req, &cps, &entities);
    assert_eq!(first.decision(), second.decision());

    let req2 = cedar_policy::Request::new(
        cedar_uid("User", "alice"),
        cedar_uid("Action", "read"),
        cedar_uid("Doc", "d2"),
        cedar_policy::Context::empty(),
        None,
    )
    .unwrap();
    let denied = authorizer.is_authorized(&req2, &cps, &entities);
    assert_eq!(denied.decision(), cedar_policy::Decision::Deny);
}
