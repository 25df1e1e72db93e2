//! The per-node decision engine: the materialized entity index, the
//! set-visited parent closure that feeds every authorization call, and
//! the event-application state machine that keeps a node current.
use vstd::prelude::*;

use crate::ast::{Entity, EntityUid, PolicyId, PolicySet};
use crate::bridge::{cedar_answer, cedar_decision_of, cedar_errors_of, cedar_reasons_of};
use crate::jcodec_entity::{enc_attr_entries, enc_entity, enc_euid, encode_attr_pairs, encode_entity, encode_euid};
use crate::jcodec_schema::encode_schema;
use crate::jcodec_policy::encode_policy_set;
use crate::json::JsonVal;
use crate::ast::{Context, Request, Response};
use crate::store::CedrusError;
use crate::jcodec_policy::enc_policy_set;
use crate::jcodec_schema::enc_schema;
use crate::json::JsonV;
use crate::schema::Schema;
use crate::closure::{closure_indices, contains_idx, ekey, key_present, keys_of, reachable, uids_unique};
use crate::util::str_eq;

verus! {

broadcast use vstd::std_specs::vec::axiom_vec_decreases_to_view, vstd::seq::axiom_seq_index_decreases;

// ------------------------------------------------------------ node events
/// The cluster events that keep every node's materialized state current.
#[derive(Debug)]
pub enum EventType {
    ReloadAll,
    ProjectCreate(u128),
    ProjectUpdate(u128),
    ProjectRemove(u128, String),
    ProjectPutIdentitySource(u128),
    ProjectRemoveIdentitySource(u128),
    ProjectPutSchema(u128),
    ProjectRemoveSchema(u128),
    ProjectAddEntities(u128, Vec<EntityUid>),
    ProjectRemoveEntities(u128, Vec<EntityUid>),
    ProjectAddPolicies(u128, Vec<PolicyId>),
    ProjectRemovePolicies(u128, Vec<PolicyId>),
    ProjectAddTemplates(u128, Vec<PolicyId>),
    ProjectRemoveTemplates(u128, Vec<PolicyId>),
    ProjectAddTemplateLinks(u128, Vec<PolicyId>),
    ProjectRemoveTemplateLinks(u128, Vec<PolicyId>),
}

/// A bus message: the sending node plus the event.
#[derive(Debug)]
pub struct Event {
    pub sender: u128,
    pub msg: EventType,
}

impl Event {
    pub fn new(sender: u128, msg: EventType) -> (r: Self)
        ensures
            r.sender == sender,
            r.msg == msg,
    {
        Event { sender, msg }
    }

    pub fn project_create(sender: u128, project_id: u128) -> (r: Self)
        ensures
            r.sender == sender,
            r.msg == EventType::ProjectCreate(project_id),
    {
        Event { sender, msg: EventType::ProjectCreate(project_id) }
    }

    pub fn project_update(sender: u128, project_id: u128) -> (r: Self)
        ensures
            r.sender == sender,
            r.msg == EventType::ProjectUpdate(project_id),
    {
        Event { sender, msg: EventType::ProjectUpdate(project_id) }
    }

    pub fn project_remove(sender: u128, project_id: u128, api_key: String) -> (r: Self)
        ensures
            r.sender == sender,
            r.msg == EventType::ProjectRemove(project_id, api_key),
    {
        Event { sender, msg: EventType::ProjectRemove(project_id, api_key) }
    }

    pub fn sender(&self) -> (r: u128)
        ensures
            r == self.sender,
    {
        self.sender
    }

    pub fn msg(&self) -> (r: &EventType)
        ensures
            *r == self.msg,
    {
        &self.msg
    }
}

// ------------------------------------------------------------- node state
/// One project's materialized state on this node.
#[derive(Debug)]
pub struct ProjectState {
    pub id: u128,
    pub schema: Option<Schema>,
    pub entities: Vec<Entity>,
    pub policies: PolicySet,
}

/// What a node fetched from the cache in order to apply an event.
#[derive(Debug)]
pub enum ApplyData {
    Nothing,
    ProjectInfo { api_key: String, owner: EntityUid },
    SchemaData(Schema),
    EntityData(Vec<Entity>),
    PolicySetData(PolicySet),
    Snapshot(Vec<ProjectSeed>),
}

/// A full per-project image, used to resynchronize a node.
#[derive(Debug)]
pub struct ProjectSeed {
    pub id: u128,
    pub api_key: String,
    pub owner: EntityUid,
    pub schema: Option<Schema>,
    pub entities: Vec<Entity>,
    pub policies: PolicySet,
}

/// The value of one project's state: everything is taken up to its JSON
/// encoding, which clones preserve.
#[verifier::ext_equal]
pub ghost struct PsView {
    pub id: u128,
    pub schema: Option<JsonV>,
    pub entities: Seq<((Seq<char>, Seq<char>), JsonV)>,
    pub policies: JsonV,
}

/// The value of a node's whole materialized state.
#[verifier::ext_equal]
pub ghost struct EngineView {
    pub node: u128,
    pub keys: Seq<(Seq<char>, JsonV)>,
    pub projects: Seq<PsView>,
}

pub open spec fn ents_view(s: Seq<Entity>) -> Seq<((Seq<char>, Seq<char>), JsonV)> {
    Seq::new(s.len(), |i: int| (ekey(s[i].uid), enc_entity(s[i])))
}

pub open spec fn ps_view(p: ProjectState) -> PsView {
    PsView {
        id: p.id,
        schema: match p.schema {
            Option::None => Option::None,
            Option::Some(s) => Option::Some(enc_schema(s)),
        },
        entities: ents_view(p.entities@),
        policies: enc_policy_set(p.policies),
    }
}

/// The per-node decision state: the API-key index and the per-project
/// materializations. JWT authorizers are compiled outside the engine,
/// so identity-source events do not change this state.
#[derive(Debug)]
pub struct Engine {
    pub node_id: u128,
    pub admin: EntityUid,
    pub api_keys: Vec<(String, EntityUid)>,
    pub projects: Vec<ProjectState>,
}

impl Engine {
    pub open spec fn view_spec(self) -> EngineView {
        EngineView {
            node: self.node_id,
            keys: Seq::new(
                self.api_keys@.len(),
                |i: int| (self.api_keys@[i].0@, enc_euid(self.api_keys@[i].1)),
            ),
            projects: Seq::new(
                self.projects@.len(),
                |i: int| ps_view(self.projects@[i]),
            ),
        }
    }

    pub fn new(node_id: u128, admin: EntityUid) -> (r: Self)
        ensures
            r.node_id == node_id,
            r.admin == admin,
            r.view_spec().keys == Seq::<(Seq<char>, JsonV)>::empty(),
            r.view_spec().projects == Seq::<PsView>::empty(),
    {
        let r = Engine { node_id, admin, api_keys: Vec::new(), projects: Vec::new() };
        proof {
            assert(r.view_spec().keys =~= Seq::<(Seq<char>, JsonV)>::empty());
            assert(r.view_spec().projects =~= Seq::<PsView>::empty());
        }
        r
    }
}

// --------------------------------------------------- event interpretation
/// Replaces any entry under `key` with the new binding, appending it last.
/// Holds of an api-key entry exactly when it is not under `key`.
pub open spec fn not_key(key: Seq<char>) -> spec_fn((Seq<char>, JsonV)) -> bool {
    |e: (Seq<char>, JsonV)| e.0 != key
}

/// Holds of a project image exactly when its id differs from `id`.
pub open spec fn not_id(id: u128) -> spec_fn(PsView) -> bool {
    |p: PsView| p.id != id
}

/// Holds of a project image exactly when its id is `id`.
pub open spec fn has_id(id: u128) -> spec_fn(PsView) -> bool {
    |p: PsView| p.id == id
}

/// Holds of an entity entry exactly when its key is not one of `keys`.
pub open spec fn not_in_keys(keys: Seq<EntityUid>) -> spec_fn(
    ((Seq<char>, Seq<char>), JsonV),
) -> bool {
    |e: ((Seq<char>, Seq<char>), JsonV)|
        !(exists|i: int| 0 <= i < keys.len() && ekey(#[trigger] keys[i]) == e.0)
}

/// The encoding of an empty policy set.
pub open spec fn empty_policy_set_v() -> JsonV {
    JsonV::Obj(
        seq![
            ("staticPolicies"@, JsonV::Obj(Seq::empty())),
            ("templates"@, JsonV::Obj(Seq::empty())),
            ("templateLinks"@, JsonV::Arr(Seq::empty())),
        ],
    )
}

pub open spec fn keys_put(
    s: Seq<(Seq<char>, JsonV)>,
    key: Seq<char>,
    owner: JsonV,
) -> Seq<(Seq<char>, JsonV)> {
    s.filter(not_key(key)).push((key, owner))
}

/// Drops the entry under `key`.
pub open spec fn keys_drop(s: Seq<(Seq<char>, JsonV)>, key: Seq<char>) -> Seq<(Seq<char>, JsonV)> {
    s.filter(not_key(key))
}

/// Drops the project with the given id.
pub open spec fn projs_drop(s: Seq<PsView>, id: u128) -> Seq<PsView> {
    s.filter(not_id(id))
}

/// Replaces the project with the given id, appending the new image last.
pub open spec fn projs_put(s: Seq<PsView>, p: PsView) -> Seq<PsView> {
    projs_drop(s, p.id).push(p)
}

/// The project image with the given id, if the node holds one.
pub open spec fn proj_of(s: Seq<PsView>, id: u128) -> Option<PsView> {
    let matching = s.filter(has_id(id));
    if matching.len() > 0 {
        Option::Some(matching.last())
    } else {
        Option::None
    }
}

/// Drops the entities with the listed keys from a project image.
pub open spec fn ents_drop(
    s: Seq<((Seq<char>, Seq<char>), JsonV)>,
    keys: Seq<EntityUid>,
) -> Seq<((Seq<char>, Seq<char>), JsonV)> {
    s.filter(not_in_keys(keys))
}

/// The keys of a list of entities.
pub open spec fn keys_of_entities(es: Seq<Entity>) -> Seq<EntityUid> {
    Seq::new(es.len(), |i: int| es[i].uid)
}

/// How one event transforms a node's state, given the data the node
/// fetched for it. Identity-source events leave the engine unchanged:
/// the JWT authorizers they install live outside the verified state.
pub open spec fn apply_spec(v: EngineView, ev: EventType, d: ApplyData) -> EngineView {
    match ev {
        EventType::ReloadAll => match d {
            ApplyData::Snapshot(seeds) => EngineView {
                node: v.node,
                keys: Seq::new(
                    seeds@.len(),
                    |i: int| (seeds@[i].api_key@, enc_euid(seeds@[i].owner)),
                ),
                projects: Seq::new(seeds@.len(), |i: int| seed_view(seeds@[i])),
            },
            _ => v,
        },
        EventType::ProjectCreate(id) => match d {
            ApplyData::ProjectInfo { api_key, owner } => EngineView {
                node: v.node,
                keys: keys_put(v.keys, api_key@, enc_euid(owner)),
                projects: projs_put(
                    v.projects,
                    PsView {
                        id,
                        schema: Option::None,
                        entities: Seq::empty(),
                        policies: empty_policy_set_v(),
                    },
                ),
            },
            _ => v,
        },
        EventType::ProjectUpdate(_id) => match d {
            ApplyData::ProjectInfo { api_key, owner } => EngineView {
                node: v.node,
                keys: keys_put(v.keys, api_key@, enc_euid(owner)),
                projects: v.projects,
            },
            _ => v,
        },
        EventType::ProjectRemove(id, api_key) => EngineView {
            node: v.node,
            keys: keys_drop(v.keys, api_key@),
            projects: projs_drop(v.projects, id),
        },
        EventType::ProjectPutIdentitySource(_id) => v,
        EventType::ProjectRemoveIdentitySource(_id) => v,
        EventType::ProjectPutSchema(id) => match d {
            ApplyData::SchemaData(s) => match proj_of(v.projects, id) {
                Option::Some(p) => EngineView {
                    node: v.node,
                    keys: v.keys,
                    projects: projs_put(
                        v.projects,
                        PsView { schema: Option::Some(enc_schema(s)), ..p },
                    ),
                },
                Option::None => v,
            },
            _ => v,
        },
        EventType::ProjectRemoveSchema(id) => match proj_of(v.projects, id) {
            Option::Some(p) => EngineView {
                node: v.node,
                keys: v.keys,
                projects: projs_put(v.projects, PsView { schema: Option::None, ..p }),
            },
            Option::None => v,
        },
        EventType::ProjectAddEntities(id, _uids) => match (proj_of(v.projects, id), d) {
            (Option::Some(p), ApplyData::EntityData(es)) => EngineView {
                node: v.node,
                keys: v.keys,
                projects: projs_put(
                    v.projects,
                    PsView {
                        entities: ents_drop(p.entities, keys_of_entities(es@)) + ents_view(es@),
                        ..p
                    },
                ),
            },
            _ => v,
        },
        EventType::ProjectRemoveEntities(id, uids) => match proj_of(v.projects, id) {
            Option::Some(p) => EngineView {
                node: v.node,
                keys: v.keys,
                projects: projs_put(
                    v.projects,
                    PsView { entities: ents_drop(p.entities, uids@), ..p },
                ),
            },
            Option::None => v,
        },
        EventType::ProjectAddPolicies(id, _) => policy_set_swap(v, id, d),
        EventType::ProjectRemovePolicies(id, _) => policy_set_swap(v, id, d),
        EventType::ProjectAddTemplates(id, _) => policy_set_swap(v, id, d),
        EventType::ProjectRemoveTemplates(id, _) => policy_set_swap(v, id, d),
        EventType::ProjectAddTemplateLinks(id, _) => policy_set_swap(v, id, d),
        EventType::ProjectRemoveTemplateLinks(id, _) => policy_set_swap(v, id, d),
    }
}

/// Policy-set events re-fetch the whole policy set and swap it in.
pub open spec fn policy_set_swap(v: EngineView, id: u128, d: ApplyData) -> EngineView {
    match (proj_of(v.projects, id), d) {
        (Option::Some(p), ApplyData::PolicySetData(ps)) => EngineView {
            node: v.node,
            keys: v.keys,
            projects: projs_put(v.projects, PsView { policies: enc_policy_set(ps), ..p }),
        },
        _ => v,
    }
}

pub open spec fn seed_view(s: ProjectSeed) -> PsView {
    PsView {
        id: s.id,
        schema: match s.schema {
            Option::None => Option::None,
            Option::Some(sc) => Option::Some(enc_schema(sc)),
        },
        entities: ents_view(s.entities@),
        policies: enc_policy_set(s.policies),
    }
}

/// Applying any event twice, with the same fetched data, leaves the same
/// state as applying it once.
pub proof fn lemma_apply_idempotent(v: EngineView, ev: EventType, d: ApplyData)
    ensures
        apply_spec(apply_spec(v, ev, d), ev, d) == apply_spec(v, ev, d),
{
    let v1 = apply_spec(v, ev, d);
    let v2 = apply_spec(v1, ev, d);
    match ev {
        EventType::ReloadAll => {
            assert(v2 =~~= v1);
        },
        EventType::ProjectCreate(id) => match d {
            ApplyData::ProjectInfo { api_key, owner } => {
                lemma_keys_put_idem(v.keys, api_key@, enc_euid(owner));
                lemma_projs_put_idem(
                    v.projects,
                    PsView {
                        id,
                        schema: Option::None,
                        entities: Seq::empty(),
                        policies: empty_policy_set_v(),
                    },
                );
                assert(v2 =~~= v1);
            },
            _ => {},
        },
        EventType::ProjectUpdate(_id) => match d {
            ApplyData::ProjectInfo { api_key, owner } => {
                lemma_keys_put_idem(v.keys, api_key@, enc_euid(owner));
                assert(v2 =~~= v1);
            },
            _ => {},
        },
        EventType::ProjectRemove(id, api_key) => {
            lemma_filter_idem(v.keys, not_key(api_key@));
            lemma_filter_idem(v.projects, not_id(id));
            assert(v2 =~~= v1);
        },
        EventType::ProjectPutIdentitySource(_) => {},
        EventType::ProjectRemoveIdentitySource(_) => {},
        EventType::ProjectPutSchema(id) => match d {
            ApplyData::SchemaData(s) => {
                lemma_put_then_of(v.projects, id);
                match proj_of(v.projects, id) {
                    Option::Some(p) => {
                        let q = PsView { schema: Option::Some(enc_schema(s)), ..p };
                        lemma_projs_put_idem(v.projects, q);
                        assert(PsView { schema: Option::Some(enc_schema(s)), ..q } =~~= q);
                        assert(v2 =~~= v1);
                    },
                    Option::None => {},
                }
            },
            _ => {},
        },
        EventType::ProjectRemoveSchema(id) => {
            lemma_put_then_of(v.projects, id);
            match proj_of(v.projects, id) {
                Option::Some(p) => {
                    let q = PsView { schema: Option::None, ..p };
                    lemma_projs_put_idem(v.projects, q);
                    assert(PsView { schema: Option::None, ..q } =~~= q);
                    assert(v2 =~~= v1);
                },
                Option::None => {},
            }
        },
        EventType::ProjectAddEntities(id, _uids) => match d {
            ApplyData::EntityData(es) => {
                lemma_put_then_of(v.projects, id);
                match proj_of(v.projects, id) {
                    Option::Some(p) => {
                        let newents = ents_drop(p.entities, keys_of_entities(es@)) + ents_view(
                            es@,
                        );
                        let q = PsView { entities: newents, ..p };
                        lemma_projs_put_idem(v.projects, q);
                        lemma_ents_add_idem(p.entities, es@);
                        assert(PsView {
                            entities: ents_drop(q.entities, keys_of_entities(es@)) + ents_view(
                                es@,
                            ),
                            ..q
                        } =~~= q);
                        assert(v2 =~~= v1);
                    },
                    Option::None => {},
                }
            },
            _ => {},
        },
        EventType::ProjectRemoveEntities(id, uids) => {
            lemma_put_then_of(v.projects, id);
            match proj_of(v.projects, id) {
                Option::Some(p) => {
                    let q = PsView { entities: ents_drop(p.entities, uids@), ..p };
                    lemma_projs_put_idem(v.projects, q);
                    lemma_filter_idem(p.entities, not_in_keys(uids@));
                    assert(PsView { entities: ents_drop(q.entities, uids@), ..q } =~~= q);
                    assert(v2 =~~= v1);
                },
                Option::None => {},
            }
        },
        EventType::ProjectAddPolicies(id, _) => {
            lemma_policy_swap_idem(v, id, d);
        },
        EventType::ProjectRemovePolicies(id, _) => {
            lemma_policy_swap_idem(v, id, d);
        },
        EventType::ProjectAddTemplates(id, _) => {
            lemma_policy_swap_idem(v, id, d);
        },
        EventType::ProjectRemoveTemplates(id, _) => {
            lemma_policy_swap_idem(v, id, d);
        },
        EventType::ProjectAddTemplateLinks(id, _) => {
            lemma_policy_swap_idem(v, id, d);
        },
        EventType::ProjectRemoveTemplateLinks(id, _) => {
            lemma_policy_swap_idem(v, id, d);
        },
    }
}

/// Filtering a pushed element keeps it exactly when the predicate holds.
pub proof fn lemma_filter_push<A>(s: Seq<A>, x: A, pred: spec_fn(A) -> bool)
    ensures
        pred(x) ==> s.push(x).filter(pred) == s.filter(pred).push(x),
        !pred(x) ==> s.push(x).filter(pred) == s.filter(pred),
{
    reveal(Seq::filter);
    assert(s.push(x).drop_last() =~= s);
    assert(s.push(x).last() == x);
}

/// Filtering is idempotent.
proof fn lemma_filter_idem<A>(s: Seq<A>, pred: spec_fn(A) -> bool)
    ensures
        s.filter(pred).filter(pred) == s.filter(pred),
    decreases s.len(),
{
    reveal(Seq::filter);
    if s.len() == 0 {
    } else {
        lemma_filter_idem(s.drop_last(), pred);
        if pred(s.last()) {
            lemma_filter_push(s.drop_last().filter(pred), s.last(), pred);
            lemma_filter_push(s.drop_last().filter(pred).filter(pred), s.last(), pred);
        }
    }
}

/// Rebinding the same key twice keeps one binding.
proof fn lemma_keys_put_idem(s: Seq<(Seq<char>, JsonV)>, key: Seq<char>, owner: JsonV)
    ensures
        keys_put(keys_put(s, key, owner), key, owner) == keys_put(s, key, owner),
{
    let pred = not_key(key);
    lemma_filter_idem(s, pred);
    lemma_filter_push(s.filter(pred), (key, owner), pred);
    assert(!pred((key, owner)));
    assert(keys_put(s, key, owner).filter(pred) =~= s.filter(pred));
    assert(keys_put(keys_put(s, key, owner), key, owner) =~= keys_put(s, key, owner));
}

/// Replacing the same project image twice keeps one image.
proof fn lemma_projs_put_idem(s: Seq<PsView>, p: PsView)
    ensures
        projs_put(projs_put(s, p), p) == projs_put(s, p),
{
    let pred = not_id(p.id);
    lemma_filter_idem(s, pred);
    lemma_filter_push(s.filter(pred), p, pred);
    assert(!pred(p));
    assert(projs_put(s, p).filter(pred) =~= s.filter(pred));
    assert(projs_put(projs_put(s, p), p) =~= projs_put(s, p));
}

/// After replacing a project image, looking its id up finds it.
proof fn lemma_put_then_of(s: Seq<PsView>, id: u128)
    ensures
        forall|p: PsView|
            p.id == id ==> proj_of(#[trigger] projs_put(s, p), id) == Option::Some(p),
{
    assert forall|p: PsView| p.id == id implies proj_of(
        #[trigger] projs_put(s, p),
        id,
    ) == Option::Some(p) by {
        let sel = has_id(id);
        let pred = not_id(id);
        assert(sel(p));
        lemma_filter_push(s.filter(pred), p, sel);
        assert(s.filter(pred).filter(sel) =~= Seq::<PsView>::empty()) by {
            lemma_filter_disjoint(s, pred, sel);
        }
        assert(projs_put(s, p).filter(sel) =~= Seq::<PsView>::empty().push(p));
        assert(projs_put(s, p).filter(sel).last() == p);
    }
}

/// Filtering with a predicate and then its negation leaves nothing.
proof fn lemma_filter_disjoint(s: Seq<PsView>, pred: spec_fn(PsView) -> bool, sel: spec_fn(
    PsView,
) -> bool)
    requires
        forall|q: PsView| #[trigger] pred(q) <==> !sel(q),
    ensures
        s.filter(pred).filter(sel) == Seq::<PsView>::empty(),
    decreases s.len(),
{
    reveal(Seq::filter);
    if s.len() == 0 {
        assert(s.filter(pred).filter(sel) =~= Seq::<PsView>::empty());
    } else {
        lemma_filter_disjoint(s.drop_last(), pred, sel);
        if pred(s.last()) {
            lemma_filter_push(s.drop_last().filter(pred), s.last(), sel);
        }
    }
}

/// Re-applying the same entity batch changes nothing.
proof fn lemma_ents_add_idem(s: Seq<((Seq<char>, Seq<char>), JsonV)>, es: Seq<Entity>)
    ensures
        ents_drop(ents_drop(s, keys_of_entities(es)) + ents_view(es), keys_of_entities(es))
            + ents_view(es) == ents_drop(s, keys_of_entities(es)) + ents_view(es),
{
    let pred = not_in_keys(keys_of_entities(es));
    lemma_filter_idem(s, pred);
    Seq::filter_distributes_over_add(s.filter(pred), ents_view(es), pred);
    assert(ents_view(es).filter(pred) =~= Seq::<((Seq<char>, Seq<char>), JsonV)>::empty()) by {
        lemma_filter_none(ents_view(es), es);
    }
    assert(ents_drop(ents_drop(s, keys_of_entities(es)) + ents_view(es), keys_of_entities(es))
        =~= ents_drop(s, keys_of_entities(es)));
}

/// Every entry of an entity batch view is keyed by one of the batch keys,
/// so none survives dropping those keys.
proof fn lemma_filter_none(v: Seq<((Seq<char>, Seq<char>), JsonV)>, es: Seq<Entity>)
    requires
        v == ents_view(es),
    ensures
        v.filter(not_in_keys(keys_of_entities(es))) == Seq::<
            ((Seq<char>, Seq<char>), JsonV),
        >::empty(),
{
    let pred = not_in_keys(keys_of_entities(es));
    assert forall|k: int| 0 <= k < v.len() implies !pred(v[k]) by {
        assert(v[k].0 == ekey(es[k].uid));
        assert(keys_of_entities(es)[k] == es[k].uid);
    }
    lemma_filter_all_false(v, pred);
}

/// Filtering with a predicate false on every element leaves nothing.
proof fn lemma_filter_all_false<A>(s: Seq<A>, pred: spec_fn(A) -> bool)
    requires
        forall|k: int| 0 <= k < s.len() ==> !pred(s[k]),
    ensures
        s.filter(pred) == Seq::<A>::empty(),
    decreases s.len(),
{
    reveal(Seq::filter);
    if s.len() == 0 {
        assert(s.filter(pred) =~= Seq::<A>::empty());
    } else {
        lemma_filter_all_false(s.drop_last(), pred);
    }
}

/// Swapping in the same fetched policy set twice keeps one image.
proof fn lemma_policy_swap_idem(v: EngineView, id: u128, d: ApplyData)
    ensures
        policy_set_swap(policy_set_swap(v, id, d), id, d) == policy_set_swap(v, id, d),
{
    match d {
        ApplyData::PolicySetData(ps) => {
            lemma_put_then_of(v.projects, id);
            match proj_of(v.projects, id) {
                Option::Some(p) => {
                    let q = PsView { policies: enc_policy_set(ps), ..p };
                    lemma_projs_put_idem(v.projects, q);
                    assert(PsView { policies: enc_policy_set(ps), ..q } =~~= q);
                    assert(policy_set_swap(policy_set_swap(v, id, d), id, d) =~~= policy_set_swap(
                        v,
                        id,
                        d,
                    ));
                },
                Option::None => {},
            }
        },
        _ => {},
    }
}


/// The entity-entry view maps element removal to entry removal.
proof fn lemma_ents_view_remove(s: Seq<Entity>, i: int)
    requires
        0 <= i < s.len(),
    ensures
        ents_view(s.remove(i)) == ents_view(s).remove(i),
{
    assert(ents_view(s.remove(i)) =~= ents_view(s).remove(i));
}

/// The entity-entry view maps appending to entry appending.
proof fn lemma_ents_view_push(s: Seq<Entity>, e: Entity)
    ensures
        ents_view(s.push(e)) == ents_view(s).push((ekey(e.uid), enc_entity(e))),
{
    assert(ents_view(s.push(e)) =~= ents_view(s).push((ekey(e.uid), enc_entity(e))));
}

/// The project view of an element removal is the view-sequence removal.
proof fn lemma_ps_views_remove(s: Seq<ProjectState>, i: int)
    requires
        0 <= i < s.len(),
    ensures
        Seq::new(s.remove(i).len(), |q: int| ps_view(s.remove(i)[q])) == Seq::new(
            s.len(),
            |q: int| ps_view(s[q]),
        ).remove(i),
{
    assert(Seq::new(s.remove(i).len(), |q: int| ps_view(s.remove(i)[q])) =~= Seq::new(
        s.len(),
        |q: int| ps_view(s[q]),
    ).remove(i));
}

/// The key view of an element removal is the view-sequence removal.
proof fn lemma_keys_view_remove(s: Seq<(String, EntityUid)>, i: int)
    requires
        0 <= i < s.len(),
    ensures
        Seq::new(s.remove(i).len(), |q: int| (s.remove(i)[q].0@, enc_euid(s.remove(i)[q].1)))
            == Seq::new(s.len(), |q: int| (s[q].0@, enc_euid(s[q].1))).remove(i),
{
    assert(Seq::new(s.remove(i).len(), |q: int| (s.remove(i)[q].0@, enc_euid(s.remove(i)[q].1)))
        =~= Seq::new(s.len(), |q: int| (s[q].0@, enc_euid(s[q].1))).remove(i));
}


/// Filtering with a predicate true on every element changes nothing.
proof fn lemma_filter_all_true_g<A>(s: Seq<A>, pred: spec_fn(A) -> bool)
    requires
        forall|k: int| 0 <= k < s.len() ==> pred(s[k]),
    ensures
        s.filter(pred) == s,
    decreases s.len(),
{
    reveal(Seq::filter);
    if s.len() == 0 {
        assert(s.filter(pred) =~= s);
    } else {
        lemma_filter_all_true_g(s.drop_last(), pred);
        assert(s.filter(pred) =~= s);
    }
}

/// When no image carries the id, dropping it changes nothing.
proof fn lemma_drop_noop(s: Seq<PsView>, id: u128)
    requires
        proj_of(s, id) is None,
    ensures
        projs_drop(s, id) == s,
{
    assert forall|k: int| 0 <= k < s.len() implies not_id(id)(s[k]) by {
        if has_id(id)(s[k]) {
            s.lemma_filter_contains(has_id(id), k);
            assert(s.filter(has_id(id)).len() > 0);
        }
    }
    lemma_filter_all_true_g(s, not_id(id));
}

// ------------------------------------------------------- executable apply
/// Clones one project state, preserving its value view.
pub fn clone_project_state(p: &ProjectState) -> (r: ProjectState)
    ensures
        ps_view(r) == ps_view(*p),
{
    let schema = match &p.schema {
        Option::Some(s) => Some(s.clone()),
        Option::None => None,
    };
    let mut entities: Vec<Entity> = Vec::new();
    let mut i: usize = 0;
    while i < p.entities.len()
        invariant
            i <= p.entities@.len(),
            entities@.len() == i as int,
            forall|k: int|
                0 <= k < i as int ==> ekey((#[trigger] entities@[k]).uid) == ekey(
                    p.entities@[k].uid,
                ) && enc_entity(entities@[k]) == enc_entity(p.entities@[k]),
        decreases p.entities@.len() - i,
    {
        entities.push(p.entities[i].clone());
        i = i + 1;
    }
    let r = ProjectState { id: p.id, schema, entities, policies: p.policies.clone() };
    proof {
        assert(ents_view(r.entities@) =~= ents_view(p.entities@));
        assert(ps_view(r) =~~= ps_view(*p));
    }
    r
}

impl Engine {
    /// Rebinds an API key to an owner, dropping any old binding.
    fn put_api_key(&mut self, api_key: &String, owner: &EntityUid)
        ensures
            final (self).view_spec() == (EngineView {
                keys: keys_put(old(self).view_spec().keys, api_key@, enc_euid(*owner)),
                ..old(self).view_spec()
            }),
            final (self).admin == old(self).admin,
    {
        let mut out: Vec<(String, EntityUid)> = Vec::new();
        let mut i: usize = 0;
        while i < self.api_keys.len()
            invariant
                i <= self.api_keys@.len(),
                Seq::new(out@.len(), |k: int| (out@[k].0@, enc_euid(out@[k].1)))
                    =~= old(self).view_spec().keys.subrange(0, i as int).filter(
                    not_key(api_key@),
                ),
                self.api_keys == old(self).api_keys,
                self.projects == old(self).projects,
                self.node_id == old(self).node_id,
                self.admin == old(self).admin,
            decreases self.api_keys@.len() - i,
        {
            let ghost pre = old(self).view_spec().keys.subrange(0, i as int);
            let e = &self.api_keys[i];
            if !str_eq(e.0.as_str(), api_key.as_str()) {
                out.push((e.0.clone(), e.1.clone()));
            }
            proof {
                lemma_filter_push(pre, old(self).view_spec().keys[i as int], not_key(api_key@));
                assert(old(self).view_spec().keys.subrange(0, i as int + 1) =~= pre.push(
                    old(self).view_spec().keys[i as int],
                ));
                assert(Seq::new(out@.len(), |k: int| (out@[k].0@, enc_euid(out@[k].1)))
                    =~= old(self).view_spec().keys.subrange(0, i as int + 1).filter(
                    not_key(api_key@),
                ));
            }
            i = i + 1;
        }
        out.push((api_key.clone(), owner.clone()));
        self.api_keys = out;
        proof {
            assert(old(self).view_spec().keys.subrange(
                0,
                old(self).view_spec().keys.len() as int,
            ) =~= old(self).view_spec().keys);
            assert(final (self).view_spec().keys =~= keys_put(
                old(self).view_spec().keys,
                api_key@,
                enc_euid(*owner),
            ));
            assert(final (self).view_spec().projects =~= old(self).view_spec().projects);
            assert(final (self).view_spec() =~~= (EngineView {
                keys: keys_put(old(self).view_spec().keys, api_key@, enc_euid(*owner)),
                ..old(self).view_spec()
            }));
        }
    }

    /// An event whose sender is this node is not re-applied on receipt:
    /// the node already applied it when it published the event.
    pub fn should_apply(&self, ev: &Event) -> (r: bool)
        ensures
            r == (ev.sender != self.node_id),
    {
        ev.sender != self.node_id
    }
}

// ------------------------------------------------------- executable apply
/// The last match of a predicate is the last element of the filtered
/// sequence.
proof fn lemma_filter_last_match<A>(s: Seq<A>, pred: spec_fn(A) -> bool, li: int)
    requires
        0 <= li < s.len(),
        pred(s[li]),
        forall|k: int| li < k < s.len() ==> !pred(#[trigger] s[k]),
    ensures
        s.filter(pred).len() > 0,
        s.filter(pred).last() == s[li],
    decreases s.len(),
{
    reveal(Seq::filter);
    if s.len() - 1 > li {
        lemma_filter_last_match(s.drop_last(), pred, li);
    }
}

/// Is one of the listed identifiers keyed `(ty, id)`?
#[verifier::loop_isolation(false)]
fn uid_in_list(uids: &Vec<EntityUid>, ty: &str, idv: &str) -> (r: bool)
    ensures
        r == exists|i: int| 0 <= i < uids@.len() && ekey(#[trigger] uids@[i]) == (ty@, idv@),
{
    let mut i: usize = 0;
    while i < uids.len()
        invariant
            i <= uids@.len(),
            forall|k: int| 0 <= k < i as int ==> ekey(#[trigger] uids@[k]) != (ty@, idv@),
        decreases uids@.len() - i,
    {
        let u = &uids[i];
        if str_eq(u.ty.as_str(), ty) && str_eq(u.id.as_str(), idv) {
            return true;
        }
        i = i + 1;
    }
    false
}

/// Drops every entity whose key is one of the listed identifiers.
#[verifier::loop_isolation(false)]
#[verifier::rlimit(100)]
fn ents_remove_keys(v: &mut Vec<Entity>, uids: &Vec<EntityUid>)
    ensures
        ents_view(final (v)@) == ents_drop(ents_view(old(v)@), uids@),
{
    let ghost ov = ents_view(old(v)@);
    let ghost pred = not_in_keys(uids@);
    let mut i: usize = 0;
    let ghost j: int = 0;
    while i < v.len()
        invariant
            0 <= j <= ov.len(),
            i as int == ov.subrange(0, j).filter(pred).len(),
            ents_view(v@) =~= ov.subrange(0, j).filter(pred) + ov.subrange(j, ov.len() as int),
        decreases ov.len() - j,
    {
        proof {
            lemma_filter_push(ov.subrange(0, j), ov[j], pred);
            assert(ov.subrange(0, j + 1) =~= ov.subrange(0, j).push(ov[j]));
            assert(ents_view(v@)[i as int] == ov[j]);
        }
        let e = &v[i];
        let ghost pre = v@;
        if uid_in_list(uids, e.uid.ty.as_str(), e.uid.id.as_str()) {
            v.remove(i);
            proof {
                lemma_ents_view_remove(pre, i as int);
                assert(ents_view(v@) =~= ov.subrange(0, j + 1).filter(pred) + ov.subrange(
                    j + 1,
                    ov.len() as int,
                ));
            }
        } else {
            i = i + 1;
            proof {
                assert(ents_view(v@) =~= ov.subrange(0, j + 1).filter(pred) + ov.subrange(
                    j + 1,
                    ov.len() as int,
                ));
            }
        }
        proof {
            j = j + 1;
        }
    }
    proof {
        assert(ov.subrange(0, ov.len() as int) =~= ov);
        assert(ents_view(v@) =~= ov.filter(pred));
    }
}

/// Appends a fetched entity batch, keeping every value.
#[verifier::loop_isolation(false)]
fn ents_append(v: &mut Vec<Entity>, es: Vec<Entity>)
    ensures
        ents_view(final (v)@) == ents_view(old(v)@) + ents_view(es@),
{
    let ghost base = old(v)@;
    let ghost sorig = es@;
    let mut rest = es;
    let ghost t: int = 0;
    while rest.len() > 0
        invariant
            0 <= t <= sorig.len(),
            rest@ =~= sorig.subrange(t, sorig.len() as int),
            v@.len() == base.len() + t,
            ents_view(v@) =~= ents_view(base) + ents_view(sorig).subrange(0, t),
        decreases sorig.len() - t,
    {
        let e = rest.remove(0);
        proof {
            assert(e == sorig[t]);
        }
        let ghost pre = v@;
        v.push(e);
        proof {
            lemma_ents_view_push(pre, sorig[t]);
            t = t + 1;
            assert(rest@ =~= sorig.subrange(t, sorig.len() as int));
            assert(ents_view(sorig).subrange(0, t) =~= ents_view(sorig).subrange(0, t - 1).push(
                ents_view(sorig)[t - 1],
            ));
            assert(ents_view(v@) =~= ents_view(base) + ents_view(sorig).subrange(0, t));
        }
    }
    proof {
        assert(ents_view(sorig).subrange(0, sorig.len() as int) =~= ents_view(sorig));
    }
}

impl Engine {
    /// The last state index for a project id, if any.
    #[verifier::loop_isolation(false)]
    fn last_state_index(&self, id: u128) -> (r: Option<usize>)
        ensures
            r matches Some(i) ==> i < self.projects@.len() && self.projects@[i as int].id == id
                && forall|k: int|
                i < k < self.projects@.len() ==> (#[trigger] self.projects@[k]).id != id,
            r is None ==> forall|k: int|
                0 <= k < self.projects@.len() ==> (#[trigger] self.projects@[k]).id != id,
    {
        let mut found: Option<usize> = None;
        let mut i: usize = 0;
        while i < self.projects.len()
            invariant
                i <= self.projects@.len(),
                found matches Some(f) ==> f < i && self.projects@[f as int].id == id && forall|
                    k: int,
                | f < k < i as int ==> (#[trigger] self.projects@[k]).id != id,
                found is None ==> forall|k: int|
                    0 <= k < i as int ==> (#[trigger] self.projects@[k]).id != id,
            decreases self.projects@.len() - i,
        {
            if self.projects[i].id == id {
                found = Some(i);
            }
            i = i + 1;
        }
        found
    }

    /// Drops every state under the project id.
    #[verifier::loop_isolation(false)]
    #[verifier::rlimit(100)]
    fn drop_states(&mut self, id: u128)
        ensures
            final (self).view_spec() == (EngineView {
                projects: projs_drop(old(self).view_spec().projects, id),
                ..old(self).view_spec()
            }),
            final (self).admin == old(self).admin,
    {
        let ghost ov = old(self).view_spec().projects;
        let ghost pred = not_id(id);
        let mut i: usize = 0;
        let ghost j: int = 0;
        while i < self.projects.len()
            invariant
                0 <= j <= ov.len(),
                i as int == ov.subrange(0, j).filter(pred).len(),
                self.view_spec().projects =~= ov.subrange(0, j).filter(pred) + ov.subrange(
                    j,
                    ov.len() as int,
                ),
                self.api_keys == old(self).api_keys,
                self.node_id == old(self).node_id,
                self.admin == old(self).admin,
            decreases ov.len() - j,
        {
            proof {
                lemma_filter_push(ov.subrange(0, j), ov[j], pred);
                assert(ov.subrange(0, j + 1) =~= ov.subrange(0, j).push(ov[j]));
                assert(self.view_spec().projects[i as int] == ov[j]);
                assert(ov[j].id == self.projects@[i as int].id);
            }
            let ghost pre = self.projects@;
            if self.projects[i].id == id {
                self.projects.remove(i);
                proof {
                    lemma_ps_views_remove(pre, i as int);
                    assert(self.view_spec().projects =~= ov.subrange(0, j + 1).filter(pred)
                        + ov.subrange(j + 1, ov.len() as int));
                }
            } else {
                i = i + 1;
                proof {
                    assert(self.view_spec().projects =~= ov.subrange(0, j + 1).filter(pred)
                        + ov.subrange(j + 1, ov.len() as int));
                }
            }
            proof {
                j = j + 1;
            }
        }
        proof {
            assert(ov.subrange(0, ov.len() as int) =~= ov);
            assert(self.view_spec().projects =~= projs_drop(ov, id));
            assert(self.view_spec().keys =~= old(self).view_spec().keys);
            assert(self.view_spec() =~~= (EngineView {
                projects: projs_drop(old(self).view_spec().projects, id),
                ..old(self).view_spec()
            }));
        }
    }

    /// Appends one project state.
    fn push_state(&mut self, st: ProjectState)
        ensures
            final (self).view_spec() == (EngineView {
                projects: old(self).view_spec().projects.push(ps_view(st)),
                ..old(self).view_spec()
            }),
            final (self).admin == old(self).admin,
    {
        self.projects.push(st);
        proof {
            assert(self.view_spec().projects =~= old(self).view_spec().projects.push(ps_view(st)));
            assert(self.view_spec().keys =~= old(self).view_spec().keys);
            assert(self.view_spec() =~~= (EngineView {
                projects: old(self).view_spec().projects.push(ps_view(st)),
                ..old(self).view_spec()
            }));
        }
    }

    /// Drops the binding of one API key.
    #[verifier::loop_isolation(false)]
    #[verifier::rlimit(100)]
    fn drop_api_key(&mut self, key: &String)
        ensures
            final (self).view_spec() == (EngineView {
                keys: keys_drop(old(self).view_spec().keys, key@),
                ..old(self).view_spec()
            }),
            final (self).admin == old(self).admin,
    {
        let ghost ov = old(self).view_spec().keys;
        let ghost pred = not_key(key@);
        let mut i: usize = 0;
        let ghost j: int = 0;
        while i < self.api_keys.len()
            invariant
                0 <= j <= ov.len(),
                i as int == ov.subrange(0, j).filter(pred).len(),
                self.view_spec().keys =~= ov.subrange(0, j).filter(pred) + ov.subrange(
                    j,
                    ov.len() as int,
                ),
                self.projects == old(self).projects,
                self.node_id == old(self).node_id,
                self.admin == old(self).admin,
            decreases ov.len() - j,
        {
            proof {
                lemma_filter_push(ov.subrange(0, j), ov[j], pred);
                assert(ov.subrange(0, j + 1) =~= ov.subrange(0, j).push(ov[j]));
                assert(self.view_spec().keys[i as int] == ov[j]);
                assert(ov[j].0 == self.api_keys@[i as int].0@);
            }
            let ghost pre = self.api_keys@;
            if str_eq(self.api_keys[i].0.as_str(), key.as_str()) {
                self.api_keys.remove(i);
                proof {
                    lemma_keys_view_remove(pre, i as int);
                    assert(self.view_spec().keys =~= ov.subrange(0, j + 1).filter(pred)
                        + ov.subrange(j + 1, ov.len() as int));
                }
            } else {
                i = i + 1;
                proof {
                    assert(self.view_spec().keys =~= ov.subrange(0, j + 1).filter(pred)
                        + ov.subrange(j + 1, ov.len() as int));
                }
            }
            proof {
                j = j + 1;
            }
        }
        proof {
            assert(ov.subrange(0, ov.len() as int) =~= ov);
            assert(self.view_spec().keys =~= keys_drop(ov, key@));
            assert(self.view_spec().projects =~= old(self).view_spec().projects);
            assert(self.view_spec() =~~= (EngineView {
                keys: keys_drop(old(self).view_spec().keys, key@),
                ..old(self).view_spec()
            }));
        }
    }

    /// Takes ownership of a value copy of the last state under the id,
    /// with no state left under it afterwards.
    #[verifier::rlimit(100)]
    fn take_state(&mut self, id: u128) -> (r: Option<ProjectState>)
        ensures
            r is Some <==> proj_of(old(self).view_spec().projects, id) is Some,
            r matches Some(st) ==> Option::Some(ps_view(st)) == proj_of(
                old(self).view_spec().projects,
                id,
            ),
            final (self).view_spec() == (EngineView {
                projects: projs_drop(old(self).view_spec().projects, id),
                ..old(self).view_spec()
            }),
            final (self).admin == old(self).admin,
    {
        let ghost ov = old(self).view_spec().projects;
        match self.last_state_index(id) {
            Some(li) => {
                let st = clone_project_state(&self.projects[li]);
                proof {
                    let hp = has_id(id);
                    let gli = li as int;
                    assert(ov[gli] == ps_view(self.projects@[gli]));
                    assert(hp(ov[gli]));
                    assert forall|k: int| gli < k < ov.len() implies !(hp(#[trigger] ov[k])) by {
                        assert(ov[k].id == self.projects@[k].id);
                    }
                    lemma_filter_last_match(ov, hp, gli);
                    assert(proj_of(ov, id) == Option::Some(ov[gli]));
                }
                self.drop_states(id);
                Some(st)
            },
            None => {
                proof {
                    lemma_filter_all_false_g(ov, has_id(id));
                    assert(proj_of(ov, id) is None);
                }
                self.drop_states(id);
                None
            },
        }
    }

    /// Applies one event, with the data this node fetched for it, to the
    /// materialized state: the executable form of the event
    /// interpretation. Identity-source events change nothing here, since
    /// the JWT authorizers they install live outside this state.
    #[verifier::loop_isolation(false)]
    #[verifier::rlimit(100)]
    pub fn apply(&mut self, ev: &EventType, d: ApplyData)
        ensures
            final (self).view_spec() == apply_spec(old(self).view_spec(), *ev, d),
            final (self).admin == old(self).admin,
    {
        let ghost v0 = self.view_spec();
        match ev {
            EventType::ReloadAll => {
                match d {
                    ApplyData::Snapshot(seeds) => {
                        let ghost s0 = seeds@;
                        self.reload_from(seeds);
                        proof {
                            assert(self.view_spec() =~~= apply_spec(v0, *ev, d));
                        }
                    },
                    _ => {
                        proof {
                            assert(self.view_spec() =~~= apply_spec(v0, *ev, d));
                        }
                    },
                }
            },
            EventType::ProjectCreate(id) => {
                match d {
                    ApplyData::ProjectInfo { api_key, owner } => {
                        self.put_api_key(&api_key, &owner);
                        self.drop_states(*id);
                        let st = ProjectState {
                            id: *id,
                            schema: None,
                            entities: Vec::new(),
                            policies: PolicySet {
                                static_policies: Vec::new(),
                                templates: Vec::new(),
                                template_links: Vec::new(),
                            },
                        };
                        proof {
                            lemma_empty_policy_set(st.policies);
                            assert(ents_view(st.entities@) =~= Seq::<
                                ((Seq<char>, Seq<char>), JsonV),
                            >::empty());
                            assert(ps_view(st) =~~= (PsView {
                                id: *id,
                                schema: Option::None,
                                entities: Seq::empty(),
                                policies: empty_policy_set_v(),
                            }));
                        }
                        self.push_state(st);
                        proof {
                            assert(self.view_spec() =~~= apply_spec(v0, *ev, d));
                        }
                    },
                    _ => {
                        proof {
                            assert(self.view_spec() =~~= apply_spec(v0, *ev, d));
                        }
                    },
                }
            },
            EventType::ProjectUpdate(_id) => {
                match d {
                    ApplyData::ProjectInfo { api_key, owner } => {
                        self.put_api_key(&api_key, &owner);
                        proof {
                            assert(self.view_spec() =~~= apply_spec(v0, *ev, d));
                        }
                    },
                    _ => {
                        proof {
                            assert(self.view_spec() =~~= apply_spec(v0, *ev, d));
                        }
                    },
                }
            },
            EventType::ProjectRemove(id, api_key) => {
                self.drop_api_key(api_key);
                self.drop_states(*id);
                proof {
                    assert(self.view_spec() =~~= apply_spec(v0, *ev, d));
                }
            },
            EventType::ProjectPutIdentitySource(_id) => {
                proof {
                    assert(self.view_spec() =~~= apply_spec(v0, *ev, d));
                }
            },
            EventType::ProjectRemoveIdentitySource(_id) => {
                proof {
                    assert(self.view_spec() =~~= apply_spec(v0, *ev, d));
                }
            },
            EventType::ProjectPutSchema(id) => {
                match d {
                    ApplyData::SchemaData(s) => {
                        match self.take_state(*id) {
                            Some(mut st) => {
                                let ghost p = proj_of(v0.projects, *id).unwrap();
                                st.schema = Some(s);
                                proof {
                                    assert(ps_view(st) =~~= (PsView {
                                        schema: ps_view(st).schema,
                                        ..p
                                    }));
                                }
                                self.push_state(st);
                                proof {
                                    assert(self.view_spec() =~~= apply_spec(v0, *ev, d));
                                }
                            },
                            None => {
                                proof {
                                    lemma_drop_noop(v0.projects, *id);
                                    assert(self.view_spec() =~~= apply_spec(v0, *ev, d));
                                }
                            },
                        }
                    },
                    _ => {
                        proof {
                            assert(self.view_spec() =~~= apply_spec(v0, *ev, d));
                        }
                    },
                }
            },
            EventType::ProjectRemoveSchema(id) => {
                match self.take_state(*id) {
                    Some(mut st) => {
                        let ghost p = proj_of(v0.projects, *id).unwrap();
                        st.schema = None;
                        proof {
                            assert(ps_view(st) =~~= (PsView { schema: Option::None, ..p }));
                        }
                        self.push_state(st);
                        proof {
                            assert(self.view_spec() =~~= apply_spec(v0, *ev, d));
                        }
                    },
                    None => {
                        proof {
                            lemma_drop_noop(v0.projects, *id);
                            assert(self.view_spec() =~~= apply_spec(v0, *ev, d));
                        }
                    },
                }
            },
            EventType::ProjectAddEntities(id, _uids) => {
                match d {
                    ApplyData::EntityData(es) => {
                        match self.take_state(*id) {
                            Some(mut st) => {
                                let mut keys: Vec<EntityUid> = Vec::new();
                                let mut ki: usize = 0;
                                while ki < es.len()
                                    invariant
                                        ki <= es@.len(),
                                        keys@ =~= keys_of_entities(es@).subrange(0, ki as int),
                                    decreases es@.len() - ki,
                                {
                                    keys.push(es[ki].uid.clone());
                                    proof {
                                        assert(keys@ =~= keys_of_entities(es@).subrange(
                                            0,
                                            ki as int + 1,
                                        ));
                                    }
                                    ki = ki + 1;
                                }
                                proof {
                                    assert(keys@ =~= keys_of_entities(es@));
                                }
                                let ghost p = proj_of(v0.projects, *id).unwrap();
                                let ghost es0 = es@;
                                ents_remove_keys(&mut st.entities, &keys);
                                ents_append(&mut st.entities, es);
                                proof {
                                    assert(ps_view(st) =~~= (PsView {
                                        entities: ents_drop(p.entities, keys_of_entities(es0))
                                            + ents_view(es0),
                                        ..p
                                    }));
                                }
                                self.push_state(st);
                                proof {
                                    assert(self.view_spec() =~~= apply_spec(v0, *ev, d));
                                }
                            },
                            None => {
                                proof {
                                    lemma_drop_noop(v0.projects, *id);
                                    assert(self.view_spec() =~~= apply_spec(v0, *ev, d));
                                }
                            },
                        }
                    },
                    _ => {
                        proof {
                            assert(self.view_spec() =~~= apply_spec(v0, *ev, d));
                        }
                    },
                }
            },
            EventType::ProjectRemoveEntities(id, uids) => {
                match self.take_state(*id) {
                    Some(mut st) => {
                        let ghost p = proj_of(v0.projects, *id).unwrap();
                        ents_remove_keys(&mut st.entities, uids);
                        proof {
                            assert(ps_view(st) =~~= (PsView {
                                entities: ents_drop(p.entities, uids@),
                                ..p
                            }));
                        }
                        self.push_state(st);
                        proof {
                            assert(self.view_spec() =~~= apply_spec(v0, *ev, d));
                        }
                    },
                    None => {
                        proof {
                            lemma_drop_noop(v0.projects, *id);
                            assert(self.view_spec() =~~= apply_spec(v0, *ev, d));
                        }
                    },
                }
            },
            EventType::ProjectAddPolicies(id, _) => {
                self.swap_policy_set(*id, d);
            },
            EventType::ProjectRemovePolicies(id, _) => {
                self.swap_policy_set(*id, d);
            },
            EventType::ProjectAddTemplates(id, _) => {
                self.swap_policy_set(*id, d);
            },
            EventType::ProjectRemoveTemplates(id, _) => {
                self.swap_policy_set(*id, d);
            },
            EventType::ProjectAddTemplateLinks(id, _) => {
                self.swap_policy_set(*id, d);
            },
            EventType::ProjectRemoveTemplateLinks(id, _) => {
                self.swap_policy_set(*id, d);
            },
        }
    }

    /// Swaps in a freshly fetched policy set for the project.
    #[verifier::rlimit(100)]
    fn swap_policy_set(&mut self, id: u128, d: ApplyData)
        ensures
            final (self).view_spec() == policy_set_swap(old(self).view_spec(), id, d),
            final (self).admin == old(self).admin,
    {
        let ghost v0 = self.view_spec();
        match d {
            ApplyData::PolicySetData(ps) => {
                match self.take_state(id) {
                    Some(mut st) => {
                        let ghost p = proj_of(v0.projects, id).unwrap();
                        st.policies = ps;
                        proof {
                            assert(ps_view(st) =~~= (PsView {
                                policies: ps_view(st).policies,
                                ..p
                            }));
                        }
                        self.push_state(st);
                        proof {
                            assert(self.view_spec() =~~= policy_set_swap(v0, id, d));
                        }
                    },
                    None => {
                        proof {
                            lemma_drop_noop(v0.projects, id);
                            assert(self.view_spec() =~~= policy_set_swap(v0, id, d));
                        }
                    },
                }
            },
            _ => {},
        }
    }

    /// Rebuilds the whole state from a full snapshot.
    #[verifier::loop_isolation(false)]
    #[verifier::rlimit(100)]
    fn reload_from(&mut self, seeds: Vec<ProjectSeed>)
        ensures
            final (self).view_spec() == (EngineView {
                node: old(self).node_id,
                keys: Seq::new(
                    seeds@.len(),
                    |i: int| (seeds@[i].api_key@, enc_euid(seeds@[i].owner)),
                ),
                projects: Seq::new(seeds@.len(), |i: int| seed_view(seeds@[i])),
            }),
            final (self).admin == old(self).admin,
    {
        let ghost sorig = seeds@;
        self.projects = Vec::new();
        self.api_keys = Vec::new();
        let mut rest = seeds;
        let ghost t: int = 0;
        while rest.len() > 0
            invariant
                0 <= t <= sorig.len(),
                rest@ =~= sorig.subrange(t, sorig.len() as int),
                self.node_id == old(self).node_id,
                self.admin == old(self).admin,
                self.view_spec().keys =~= Seq::new(
                    sorig.len(),
                    |i: int| (sorig[i].api_key@, enc_euid(sorig[i].owner)),
                ).subrange(0, t),
                self.view_spec().projects =~= Seq::new(
                    sorig.len(),
                    |i: int| seed_view(sorig[i]),
                ).subrange(0, t),
            decreases sorig.len() - t,
        {
            let s = rest.remove(0);
            proof {
                assert(s == sorig[t]);
            }
            self.api_keys.push((s.api_key.clone(), s.owner.clone()));
            let st = ProjectState {
                id: s.id,
                schema: s.schema,
                entities: s.entities,
                policies: s.policies,
            };
            proof {
                assert(ps_view(st) =~~= seed_view(sorig[t]));
            }
            self.projects.push(st);
            proof {
                t = t + 1;
                assert(rest@ =~= sorig.subrange(t, sorig.len() as int));
                assert(self.view_spec().keys =~= Seq::new(
                    sorig.len(),
                    |i: int| (sorig[i].api_key@, enc_euid(sorig[i].owner)),
                ).subrange(0, t));
                assert(self.view_spec().projects =~= Seq::new(
                    sorig.len(),
                    |i: int| seed_view(sorig[i]),
                ).subrange(0, t));
            }
        }
        proof {
            let kk = Seq::new(sorig.len(), |i: int| (sorig[i].api_key@, enc_euid(sorig[i].owner)));
            let pp = Seq::new(sorig.len(), |i: int| seed_view(sorig[i]));
            assert(kk.subrange(0, sorig.len() as int) =~= kk);
            assert(pp.subrange(0, sorig.len() as int) =~= pp);
            assert(self.view_spec() =~~= (EngineView {
                node: old(self).node_id,
                keys: kk,
                projects: pp,
            }));
        }
    }
}

/// An empty policy set encodes to the empty policy-set tree.
proof fn lemma_empty_policy_set(ps: PolicySet)
    requires
        ps.static_policies@.len() == 0,
        ps.templates@.len() == 0,
        ps.template_links@.len() == 0,
    ensures
        enc_policy_set(ps) == empty_policy_set_v(),
{
    assert(crate::jcodec_policy::enc_policy_entries(ps.static_policies@) =~= Seq::<
        (Seq<char>, JsonV),
    >::empty());
    assert(crate::jcodec_policy::enc_template_entries(ps.templates@) =~= Seq::<
        (Seq<char>, JsonV),
    >::empty());
    assert(crate::jcodec_policy::enc_link_items(ps.template_links@) =~= Seq::<JsonV>::empty());
    assert(enc_policy_set(ps)->Obj_0 =~= empty_policy_set_v()->Obj_0);
}

/// Filtering with a predicate false everywhere leaves nothing.
proof fn lemma_filter_all_false_g<A>(s: Seq<A>, pred: spec_fn(A) -> bool)
    requires
        forall|k: int| 0 <= k < s.len() ==> !pred(s[k]),
    ensures
        s.filter(pred) == Seq::<A>::empty(),
    decreases s.len(),
{
    reveal(Seq::filter);
    if s.len() == 0 {
        assert(s.filter(pred) =~= Seq::<A>::empty());
    } else {
        lemma_filter_all_false_g(s.drop_last(), pred);
    }
}

} // verus!
