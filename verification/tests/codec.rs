use cedrus::ast::{ActionOp, ActionOperator, BinaryExpr, Condition, ConditionKind, EntityUid,
    HasExpr, JsonExpr, Policy, PolicyEffect, PrincipalOp, PrincipalOperator, ResourceOp,
    ResourceOperator, ValueExpr, VarValue};
use cedrus::jcodec_policy::{decode_policy, decode_policy_set, decode_template, encode_policy,
    encode_policy_set, encode_template};
use cedrus::json::JsonVal;

fn value_to_ast(v: &serde_json::Value) -> JsonVal {
    match v {
        serde_json::Value::Null => JsonVal::Null,
        serde_json::Value::Bool(b) => JsonVal::Bool(*b),
        serde_json::Value::Number(n) => JsonVal::Int(n.as_i64().unwrap()),
        serde_json::Value::String(s) => JsonVal::Str(s.clone()),
        serde_json::Value::Array(a) => JsonVal::Arr(a.iter().map(value_to_ast).collect()),
        serde_json::Value::Object(m) => {
            JsonVal::Obj(m.iter().map(|(k, x)| (k.clone(), value_to_ast(x))).collect())
        },
    }
}

fn ast_to_value(j: &JsonVal) -> serde_json::Value {
    match j {
        JsonVal::Null => serde_json::Value::Null,
        JsonVal::Bool(b) => serde_json::Value::Bool(*b),
        JsonVal::Int(n) => serde_json::Value::from(*n),
        JsonVal::Str(s) => serde_json::Value::String(s.clone()),
        JsonVal::Arr(a) => serde_json::Value::Array(a.iter().map(ast_to_value).collect()),
        JsonVal::Obj(m) => {
            let mut out = serde_json::Map::new();
            for (k, x) in m {
                out.insert(k.clone(), ast_to_value(x));
            }
            serde_json::Value::Object(out)
        },
    }
}

fn sample_policy() -> Policy {
    Policy {
        effect: PolicyEffect::Permit,
        principal: PrincipalOp {
            op: PrincipalOperator::Eq,
            entity: Some(EntityUid { ty: "User".to_string(), id: "12UA45".to_string() }),
            slot: None,
            entity_type: None,
            in_clause: None,
        },
        action: ActionOp {
            op: ActionOperator::Eq,
            entity: Some(EntityUid { ty: "Action".to_string(), id: "view".to_string() }),
            entities: None,
        },
        resource: ResourceOp {
            op: ResourceOperator::In,
            entity: Some(EntityUid { ty: "Folder".to_string(), id: "abc".to_string() }),
            slot: None,
            entity_type: None,
            in_clause: None,
        },
        conditions: vec![Condition {
            kind: ConditionKind::When,
            body: JsonExpr::Eq(Box::new(BinaryExpr {
                left: JsonExpr::Dot(Box::new(HasExpr {
                    left: JsonExpr::Var(VarValue::Context),
                    attr: "tls_version".to_string(),
                })),
                right: JsonExpr::Value(ValueExpr::String("1.3".to_string())),
            })),
        }],
        annotations: Vec::new(),
    }
}

#[test]
fn test_cedar_schema() {
    let empty = cedrus::ast::PolicySet {
        static_policies: Vec::new(),
        templates: Vec::new(),
        template_links: Vec::new(),
    };
    let json = serde_json::to_string_pretty(&ast_to_value(&encode_policy_set(&empty))).unwrap();
    println!("{}", json);
}

#[test]
fn test_policy() {
    let policy0 = sample_policy();
    let json = serde_json::to_string_pretty(&ast_to_value(&encode_policy(&policy0))).unwrap();
    println!("{}", json);

    let json = r#"
{
    "effect": "permit",
    "principal": {
        "op": "==",
        "entity": { "type": "User", "id": "12UA45" }
    },
    "action": {
        "op": "==",
        "entity": { "type": "Action", "id": "view" }
    },
    "resource": {
        "op": "in",
        "entity": { "type": "Folder", "id": "abc" }
    },
    "conditions": [
        {
            "kind": "when",
            "body": {
                "==": {
                    "left": {
                        ".": {
                            "left": {
                                "Var": "context"
                            },
                            "attr": "tls_version"
                        }
                    },
                    "right": {
                        "Value": "1.3"
                    }
                }
            }
        }
    ]
}
        "#;
    let value: serde_json::Value = serde_json::from_str(json).unwrap();
    let policy1 = decode_policy(&value_to_ast(&value)).unwrap();
    println!("{}", serde_json::to_string_pretty(&ast_to_value(&encode_policy(&policy1))).unwrap());

    assert_eq!(
        ast_to_value(&encode_policy(&policy0)),
        ast_to_value(&encode_policy(&policy1))
    );
}

#[test]
fn test_policy_set() {
    let json = r#"
{
    "staticPolicies": {
        "policy0": {
            "effect": "permit",
            "principal": {
                "op": "==",
                "entity": { "type": "User", "id": "12UA45" }
            },
            "action": {
                "op": "==",
                "entity": { "type": "Action", "id": "view" }
            },
            "resource": {
                "op": "in",
                "entity": { "type": "Folder", "id": "abc" }
            },
            "conditions": []
        }
    },
    "templates": {
        "template0": {
            "effect": "permit",
            "principal": {
                "op": "==",
                "entity": { "type": "User", "id": "12UA45" }
            },
            "action": {
                "op": "==",
                "entity": { "type": "Action", "id": "view" }
            },
            "resource": {
                "op": "in",
                "slot": "?resource"
            },
            "conditions": []
        }
    },
    "templateLinks": [
        {
            "templateId": "template0",
            "newId": "link_policy0",
            "values": {
                "?resource": {
                    "type": "Folder",
                    "id": "def"
                }
            }
        }
    ]
}
"#;
    let _slot_id: cedar_policy::SlotId = serde_json::from_str(r#""?resource""#).unwrap();

    let value: serde_json::Value = serde_json::from_str(json).unwrap();
    let policy_set = decode_policy_set(&value_to_ast(&value)).unwrap();
    println!(
        "{}",
        serde_json::to_string_pretty(&ast_to_value(&encode_policy_set(&policy_set))).unwrap()
    );
    let ps = cedar_policy::PolicySet::from_json_str(json).unwrap();
    let value = ps.to_json().unwrap();
    println!("{}", serde_json::to_string_pretty(&value).unwrap());
}

#[test]
pub fn test_slot() {
    let template = cedar_policy::Template::parse(
        None,
        r#"
permit (
  principal in ?principal,
  action in [Action::"view", Action::"comment"], 
  resource in ?resource
);
        "#,
    )
    .unwrap();

    let json = serde_json::to_string_pretty(&template.to_json().unwrap()).unwrap();
    println!("{}", json);

    let value: serde_json::Value = serde_json::from_str(&json).unwrap();
    let template = decode_template(&value_to_ast(&value)).unwrap();
    println!(
        "{}",
        serde_json::to_string_pretty(&ast_to_value(&encode_template(&template))).unwrap()
    );
}
