use cedrus::ast::{Entity, EntityAttr, EntityUid, EntityUidEscape};
use cedrus::closure::closure_indices;
use cedrus::ast::{ActionOp, ActionOperator, Policy, PolicyEffect, PolicyId, PolicySet,
    PrincipalOp, PrincipalOperator, ResourceOp, ResourceOperator};
use cedrus::engine::{ApplyData, Engine, Event, EventType, ProjectState};
use cedrus::model::CognitoUserPoolConfiguration;
use cedrus::model::CognitoGroupConfiguration;
use cedrus::store::{project_create_fill, project_update_merge, CedrusError};
use cedrus::util::capitalize;
use cedrus::jcodec_entity::{decode_attr, decode_entity, encode_attr, encode_entity};
use cedrus::jcodec_schema::{decode_tj, encode_tj};
use cedrus::json::JsonVal;
use cedrus::model::{CedrusActions, Project};
use cedrus::schema::TypeJson;
use cedrus::store::Store;
use cedrus::util::uuid_to_string;

fn uid(ty: &str, id: &str) -> EntityUid {
    EntityUid::new(ty.to_string(), id.to_string())
}

// An escaped entity reference survives a JSON round trip as the escaped
// form, and a bare one as the bare form.
#[test]
fn escape_forms_survive_round_trip() {
    let esc = EntityAttr::EntityUidEscape(EntityUidEscape { entity: uid("User", "alice") });
    let back = decode_attr(&encode_attr(&esc)).unwrap();
    match back {
        EntityAttr::EntityUidEscape(e) => {
            assert_eq!(e.entity.ty, "User");
            assert_eq!(e.entity.id, "alice");
        },
        _ => panic!("escaped form was reinterpreted"),
    }

    let bare = EntityAttr::EntityUid(uid("User", "alice"));
    let back = decode_attr(&encode_attr(&bare)).unwrap();
    match back {
        EntityAttr::EntityUid(u) => {
            assert_eq!(u.ty, "User");
            assert_eq!(u.id, "alice");
        },
        _ => panic!("bare form was reinterpreted"),
    }
}

// A schema type without `required` decodes to the absent flag, which
// means required, and re-encodes without the key.
#[test]
fn required_defaults_to_true() {
    let mut fs: Vec<(String, JsonVal)> = Vec::new();
    fs.push(("type".to_string(), JsonVal::Str("Long".to_string())));
    let t = decode_tj(&JsonVal::Obj(fs)).unwrap();
    match &t {
        TypeJson::Long { required } => assert!(required.is_none()),
        _ => panic!("wrong variant"),
    }
    match encode_tj(&t) {
        JsonVal::Obj(fs) => assert_eq!(fs.len(), 1),
        _ => panic!("wrong encoding"),
    }
}

// An entity round-trips through its JSON form.
#[test]
fn entity_round_trip() {
    let mut attrs: Vec<(String, EntityAttr)> = Vec::new();
    attrs.push(("level".to_string(), EntityAttr::Number(3)));
    let mut parents: Vec<EntityUid> = Vec::new();
    parents.push(uid("Group", "admins"));
    let e = Entity::new(uid("User", "alice"), attrs, parents);
    let back = decode_entity(&encode_entity(&e)).unwrap();
    assert_eq!(back.uid.ty, "User");
    assert_eq!(back.uid.id, "alice");
    assert_eq!(back.parents.len(), 1);
    assert_eq!(back.attrs.len(), 1);
    assert_eq!(back.attrs[0].0, "level");
}

// The parent closure terminates on a cyclic graph and visits each
// reachable entity exactly once.
#[test]
fn closure_handles_cycles() {
    let a = Entity::new_no_attrs(uid("G", "a"), vec![uid("G", "b")]);
    let b = Entity::new_no_attrs(uid("G", "b"), vec![uid("G", "a"), uid("G", "c")]);
    let c = Entity::new_no_attrs(uid("G", "c"), vec![]);
    let d = Entity::new_no_attrs(uid("G", "d"), vec![]);
    let ents = vec![a, b, c, d];
    let roots = vec![uid("G", "a")];
    let idxs = closure_indices(&ents, &roots);
    let mut sorted = idxs.clone();
    sorted.sort();
    assert_eq!(sorted, vec![0, 1, 2]);
}

// Removing a project clears every collection it owns, its entity in the
// meta-project, and its admin-role link in the meta-project.
#[test]
fn cascade_delete_clears_everything() {
    let pid: u128 = 7;
    let mut db = Store::new();
    let owner = uid("Cedrus::User", "o");
    let project = Project::new(pid, "acme".to_string(), owner, 1000);
    let meta_entity = project.entity();
    let links = project.template_links();
    db.entities.push((0, meta_entity));
    db.template_links.push((0, links.into_iter().next().unwrap()));
    let extra = cedrus::ast::TemplateLink::new(
        cedrus::ast::PolicyId("SomeOtherRole".to_string()),
        cedrus::ast::PolicyId(format!("{}_SomeOtherRole", uuid_to_string(pid))),
        Vec::new(),
    );
    db.template_links.push((0, extra));
    db.entities.push((pid, Entity::new_no_attrs(uid("User", "alice"), vec![])));
    db.projects.push(project);

    db.project_remove(pid);

    assert!(db.projects.iter().all(|p| p.id != pid));
    assert!(db.entities.iter().all(|e| e.0 != pid));
    assert!(db.entities.iter().all(|e| {
        !(e.1.uid.ty == "Cedrus::Project" && e.1.uid.id == uuid_to_string(pid))
    }));
    let link_prefix = format!("{}_", uuid_to_string(pid));
    assert!(db.template_links.iter().all(|l| !l.1.new_id.0.starts_with(&link_prefix)));
    // re-issuing the removal is safe and leaves the store empty of the id
    db.project_remove(pid);
    assert!(db.projects.iter().all(|p| p.id != pid));
}

// Events from this node are suppressed on receipt; foreign ones are not.
#[test]
fn self_events_are_suppressed() {
    let engine = Engine::new(42, uid("Cedrus::Group", "Admins"));
    let own = Event::new(42, EventType::ReloadAll);
    let foreign = Event::new(43, EventType::ReloadAll);
    assert!(!engine.should_apply(&own));
    assert!(engine.should_apply(&foreign));
}

// The rendered identifier has the canonical hyphenated shape, and the
// nil id renders as the nil identifier.
#[test]
fn identifier_rendering() {
    assert_eq!(uuid_to_string(0), "00000000-0000-0000-0000-000000000000");
    assert_eq!(
        uuid_to_string(0x0123456789abcdef0123456789abcdefu128),
        "01234567-89ab-cdef-0123-456789abcdef"
    );
}

// Each management action maps to its action entity.
#[test]
fn action_entities() {
    let a = CedrusActions::GetProjects.value();
    assert_eq!(a.ty, "Cedrus::Action");
    assert_eq!(a.id, "getProjects");
    let b = CedrusActions::DeleteProjectTemplateLinks.value();
    assert_eq!(b.id, "deleteProjectTemplateLinks");
}


// A stale updated_at tag conflicts and merges nothing; a fresh one
// merges the name and bumps the stamp.
#[test]
fn optimistic_lock_conflicts() {
    let owner = uid("Cedrus::User", "o");
    let stored = Project::new(5, "acme".to_string(), owner, 1000);
    let mut incoming = Project::new(5, "acme2".to_string(), uid("Cedrus::User", "o"), 1000);
    incoming.updated_at = 999;
    let stale = project_update_merge(stored, &incoming, 2000);
    assert_eq!(stale.unwrap_err(), CedrusError::Conflict);

    let stored = Project::new(5, "acme".to_string(), uid("Cedrus::User", "o"), 1000);
    let (merged, changed) = project_update_merge(stored, &incoming2(), 2000).unwrap();
    assert!(changed);
    assert_eq!(merged.name, "acme2");
    assert_eq!(merged.updated_at, 2000);
}

fn incoming2() -> Project {
    let mut p = Project::new(5, "acme2".to_string(), uid("Cedrus::User", "o"), 1000);
    p.updated_at = 1000;
    p
}

// Creating a project grants the owner the built-in admin role and fills
// an empty API key with the fresh one.
#[test]
fn create_fill_grants_admin_role() {
    let owner = uid("Cedrus::User", "o");
    let p = Project::new(9, "acme".to_string(), uid("Cedrus::User", "o"), 0);
    let filled = project_create_fill(p, owner, 3000, "K1".to_string());
    assert_eq!(filled.api_key, "K1");
    assert_eq!(filled.created_at, 3000);
    assert_eq!(filled.roles.len(), 1);
    assert_eq!(filled.roles[0].0, "Cedrus::User::o");
    assert_eq!(filled.roles[0].1, vec!["ProjectAdminRole".to_string()]);
}

// A generated API key has the fixed encoded length.
#[test]
fn api_keys_have_fixed_length() {
    assert_eq!(cedrus::bridge::gen_api_key().chars().count(), 172);
    assert_ne!(cedrus::bridge::gen_project_id(), 0);
}

// Applying the same event twice leaves the same node state as once.
#[test]
fn apply_is_idempotent() {
    let mut engine = Engine::new(1, uid("Cedrus::Group", "Admins"));
    let ev = EventType::ProjectCreate(7);
    let data = || ApplyData::ProjectInfo { api_key: "K7".to_string(), owner: uid("Cedrus::User", "o") };
    engine.apply(&ev, data());
    assert_eq!(engine.projects.len(), 1);
    assert_eq!(engine.api_keys.len(), 1);
    engine.apply(&ev, data());
    assert_eq!(engine.projects.len(), 1);
    assert_eq!(engine.api_keys.len(), 1);

    let add = EventType::ProjectAddEntities(7, vec![uid("User", "alice")]);
    let batch = || ApplyData::EntityData(vec![Entity::new_no_attrs(uid("User", "alice"), vec![])]);
    engine.apply(&add, batch());
    engine.apply(&add, batch());
    assert_eq!(engine.projects[0].entities.len(), 1);
}

// The engine's own authorization path: the permitted request is allowed
// with the policy as reason, another resource is denied, and the same
// call repeated answers the same.
#[test]
fn engine_authorizes() {
    let mut engine = Engine::new(1, uid("Cedrus::Group", "Admins"));
    let p1 = Policy {
        effect: PolicyEffect::Permit,
        principal: PrincipalOp {
            op: PrincipalOperator::Eq,
            entity: Some(uid("User", "alice")),
            slot: None,
            entity_type: None,
            in_clause: None,
        },
        action: ActionOp {
            op: ActionOperator::Eq,
            entity: Some(uid("Action", "read")),
            entities: None,
        },
        resource: ResourceOp {
            op: ResourceOperator::Eq,
            entity: Some(uid("Doc", "d1")),
            slot: None,
            entity_type: None,
            in_clause: None,
        },
        conditions: Vec::new(),
        annotations: Vec::new(),
    };
    engine.projects.push(ProjectState {
        id: 7,
        schema: None,
        entities: vec![
            Entity::new_no_attrs(uid("User", "alice"), vec![]),
            Entity::new_no_attrs(uid("Doc", "d1"), vec![]),
        ],
        policies: PolicySet {
            static_policies: vec![(PolicyId("p1".to_string()), p1)],
            templates: Vec::new(),
            template_links: Vec::new(),
        },
    });
    let allowed = engine
        .is_authorized(7, &uid("User", "alice"), &uid("Action", "read"), &uid("Doc", "d1"), None)
        .unwrap();
    assert!(matches!(allowed.decision, cedrus::ast::Decision::Allow));
    assert_eq!(allowed.reason, vec!["p1".to_string()]);

    let again = engine
        .is_authorized(7, &uid("User", "alice"), &uid("Action", "read"), &uid("Doc", "d1"), None)
        .unwrap();
    assert_eq!(allowed, again);

    let denied = engine
        .is_authorized(7, &uid("User", "alice"), &uid("Action", "read"), &uid("Doc", "d2"), None)
        .unwrap();
    assert!(matches!(denied.decision, cedrus::ast::Decision::Deny));

    let missing = engine.is_authorized(9, &uid("User", "a"), &uid("Action", "r"), &uid("D", "d"), None);
    assert_eq!(missing.unwrap_err(), CedrusError::NotFound);
}

// The pure helpers: first-character uppercase, pool id after the last
// slash, and the assembled JWKS URL.
#[test]
fn helper_functions() {
    assert_eq!(capitalize("hello"), "Hello");
    assert_eq!(capitalize(""), "");
    let conf = CognitoUserPoolConfiguration {
        user_pool_arn: "arn:aws:cognito-idp:eu-west-1:123:userpool/pool9".to_string(),
        client_ids: vec![],
        group_configuration: CognitoGroupConfiguration { group_entity_type: "G".to_string() },
    };
    assert_eq!(conf.prefix(), "pool9");
    assert_eq!(
        conf.url_keys(),
        "https://cognito-idp.eu-west-1.amazonaws.com/pool9/.well-known/jwks.json"
    );
}
