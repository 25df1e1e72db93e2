//! The authorization path: the evaluator's entity slice is the parent
//! closure of the question's principals and resources, the project's
//! schema types the request and validates the context, and every answer
//! is pinned to the named components of the evaluator's result.
use vstd::prelude::*;

use crate::ast::{Context, Entity, EntityUid, Request, Response};
use crate::bridge::{cedar_answer, cedar_answer_typed, cedar_decision_of, cedar_errors_of, cedar_reasons_of};
use crate::closure::{closure_indices, contains_idx, ekey, keys_of, reachable, uids_unique};
use crate::engine::{lemma_filter_push, Engine, ProjectState};
use crate::jcodec_entity::{enc_attr_entries, enc_entity, enc_euid, encode_attr_pairs,
    encode_entity, encode_euid};
use crate::jcodec_policy::{enc_policy_set, encode_policy_set};
use crate::jcodec_schema::encode_schema;
use crate::json::{JsonV, JsonVal};
use crate::schema::Schema;
use crate::store::CedrusError;

verus! {

broadcast use vstd::std_specs::vec::axiom_vec_decreases_to_view, vstd::seq::axiom_seq_index_decreases;

// ----------------------------------------------------------- authorization
/// The JSON tree handed to the evaluator for a request context: the
/// context record, or the empty record when none was given.
pub open spec fn ctx_enc(c: Option<Context>) -> JsonV {
    match c {
        Option::Some(ctx) => JsonV::Obj(enc_attr_entries(ctx.0@)),
        Option::None => JsonV::Obj(Seq::empty()),
    }
}

/// The context tree for a borrowed optional context.
pub open spec fn opt_ctx_enc(c: Option<&Context>) -> JsonV {
    match c {
        Option::Some(x) => JsonV::Obj(enc_attr_entries(x.0@)),
        Option::None => JsonV::Obj(Seq::empty()),
    }
}

/// Whether a schema tree is meant, and which.
pub open spec fn schema_tree(s: Option<Schema>) -> JsonV {
    match s {
        Option::Some(x) => crate::jcodec_schema::enc_schema(x),
        Option::None => JsonV::Obj(Seq::empty()),
    }
}

/// The closure roots of one authorization question.
pub open spec fn pr_roots(p: EntityUid, r: EntityUid) -> Seq<EntityUid> {
    seq![p, r]
}

/// The closure roots of a request batch: every principal and resource.
pub open spec fn batch_roots(rs: Seq<Request>) -> Seq<EntityUid> {
    Seq::new(
        2 * rs.len(),
        |i: int|
            if i % 2 == 0 {
                rs[i / 2].principal
            } else {
                rs[i / 2].resource
            },
    )
}

/// Holds of an entity exactly when its key is reachable from the roots.
pub open spec fn reach_pred(ents: Seq<Entity>, roots: Seq<EntityUid>) -> spec_fn(Entity) -> bool {
    |e: Entity| reachable(ents, roots, ekey(e.uid))
}

/// The encoding of one entity.
pub open spec fn enc_entity_fn() -> spec_fn(Entity) -> JsonV {
    |e: Entity| enc_entity(e)
}

/// The entity slice handed to the evaluator: exactly the entities of the
/// index that are reachable from the roots, in index order, each once.
pub open spec fn closure_tree(ents: Seq<Entity>, roots: Seq<EntityUid>) -> JsonV {
    JsonV::Arr(ents.filter(reach_pred(ents, roots)).map_values(enc_entity_fn()))
}

/// The evaluator's answer components are pinned on the response: the
/// decision, the reason ids as a set without duplicates, and the error
/// texts in order.
pub open spec fn pinned_answer(
    resp: Response,
    ps: JsonV,
    ej: JsonV,
    hs: bool,
    sc: JsonV,
    p: JsonV,
    a: JsonV,
    re: JsonV,
    c: JsonV,
) -> bool {
    &&& cedar_decision_of(ps, ej, hs, sc, p, a, re, c) == Option::Some(resp.decision is Allow)
    &&& resp.reason@.map_values(|s: String| s@).no_duplicates()
    &&& resp.reason@.map_values(|s: String| s@).to_set() == cedar_reasons_of(
        ps,
        ej,
        hs,
        sc,
        p,
        a,
        re,
        c,
    )
    &&& resp.errors@.map_values(|s: String| s@) == cedar_errors_of(ps, ej, hs, sc, p, a, re, c)
}

/// The evaluator's decision for one request against one project state.
pub open spec fn req_dec(st: ProjectState, ej: JsonV, rq: Request) -> Option<bool> {
    cedar_decision_of(
        enc_policy_set(st.policies),
        ej,
        st.schema is Some,
        schema_tree(st.schema),
        enc_euid(rq.principal),
        enc_euid(rq.action),
        enc_euid(rq.resource),
        ctx_enc(rq.context),
    )
}

/// The pinned components for one request against one project state.
pub open spec fn req_pinned(resp: Response, st: ProjectState, ej: JsonV, rq: Request) -> bool {
    pinned_answer(
        resp,
        enc_policy_set(st.policies),
        ej,
        st.schema is Some,
        schema_tree(st.schema),
        enc_euid(rq.principal),
        enc_euid(rq.action),
        enc_euid(rq.resource),
        ctx_enc(rq.context),
    )
}

/// Encodes the parent closure of the roots as the evaluator's entity
/// slice, in index order.
#[verifier::loop_isolation(false)]
#[verifier::rlimit(100)]
pub fn encode_closure(ents: &Vec<Entity>, roots: &Vec<EntityUid>) -> (r: JsonVal)
    requires
        uids_unique(ents@),
    ensures
        r@ == closure_tree(ents@, roots@),
{
    let idxs = closure_indices(ents, roots);
    let ghost pred = reach_pred(ents@, roots@);
    let mut out: Vec<JsonVal> = Vec::new();
    let mut k: usize = 0;
    while k < ents.len()
        invariant
            k <= ents@.len(),
            forall|q: int| 0 <= q < idxs@.len() ==> #[trigger] idxs@[q] < ents@.len(),
            forall|q: int|
                0 <= q < idxs@.len() ==> reachable(
                    ents@,
                    roots@,
                    ekey(ents@[#[trigger] idxs@[q] as int].uid),
                ),
            forall|key: (Seq<char>, Seq<char>)|
                reachable(ents@, roots@, key) ==> keys_of(ents@, idxs@).contains(key),
            Seq::new(out@.len(), |q: int| out@[q]@) =~= ents@.subrange(0, k as int).filter(
                pred,
            ).map_values(enc_entity_fn()),
        decreases ents@.len() - k,
    {
        let ghost prefix = ents@.subrange(0, k as int);
        proof {
            lemma_filter_push(prefix, ents@[k as int], pred);
            assert(ents@.subrange(0, k as int + 1) =~= prefix.push(ents@[k as int]));
        }
        if contains_idx(&idxs, k) {
            proof {
                let q = choose|q: int| 0 <= q < idxs@.len() && idxs@[q] == k;
                assert(reachable(ents@, roots@, ekey(ents@[k as int].uid)));
                assert(pred(ents@[k as int]));
            }
            let e = encode_entity(&ents[k]);
            let ghost old_out = out@;
            out.push(e);
            proof {
                assert(Seq::new(out@.len(), |q: int| out@[q]@) =~= Seq::new(
                    old_out.len(),
                    |q: int| old_out[q]@,
                ).push(enc_entity(ents@[k as int])));
                assert(prefix.filter(pred).map_values(enc_entity_fn()).push(
                    enc_entity(ents@[k as int]),
                ) =~= ents@.subrange(0, k as int + 1).filter(pred).map_values(enc_entity_fn()));
                assert(Seq::new(out@.len(), |q: int| out@[q]@) =~= ents@.subrange(
                    0,
                    k as int + 1,
                ).filter(pred).map_values(enc_entity_fn()));
            }
        } else {
            proof {
                if pred(ents@[k as int]) {
                    assert(keys_of(ents@, idxs@).contains(ekey(ents@[k as int].uid)));
                    let q = choose|q: int|
                        0 <= q < idxs@.len() && idxs@[q] < ents@.len() && ekey(
                            ents@[idxs@[q] as int].uid,
                        ) == ekey(ents@[k as int].uid);
                    assert(idxs@[q] as int == k as int);
                    assert(idxs@.contains(k));
                    assert(false);
                }
                assert(Seq::new(out@.len(), |q: int| out@[q]@) =~= ents@.subrange(
                    0,
                    k as int + 1,
                ).filter(pred).map_values(enc_entity_fn()));
            }
        }
        k = k + 1;
    }
    let r = JsonVal::Arr(out);
    proof {
        assert(ents@.subrange(0, ents@.len() as int) =~= ents@);
        assert(r@->Arr_0 =~= ents@.filter(pred).map_values(enc_entity_fn()));
        assert(r@ == closure_tree(ents@, roots@));
    }
    r
}

impl Engine {
    /// Well-formed node state: project ids are unique and each project's
    /// entity index holds one entity per key.
    pub open spec fn wf(self) -> bool {
        &&& forall|i: int, j: int|
            0 <= i < j < self.projects@.len() ==> (#[trigger] self.projects@[i]).id != (
            #[trigger] self.projects@[j]).id
        &&& forall|i: int|
            0 <= i < self.projects@.len() ==> uids_unique((#[trigger] self.projects@[i]).entities@)
    }

    /// The index of this node's state for a project, if it holds one.
    #[verifier::loop_isolation(false)]
    pub fn project_state_index(&self, id: u128) -> (r: Option<usize>)
        ensures
            r matches Some(i) ==> i < self.projects@.len() && self.projects@[i as int].id == id,
            r is None ==> forall|k: int|
                0 <= k < self.projects@.len() ==> (#[trigger] self.projects@[k]).id != id,
    {
        let mut i: usize = 0;
        while i < self.projects.len()
            invariant
                i <= self.projects@.len(),
                forall|k: int| 0 <= k < i as int ==> (#[trigger] self.projects@[k]).id != id,
            decreases self.projects@.len() - i,
        {
            if self.projects[i].id == id {
                return Some(i);
            }
            i = i + 1;
        }
        None
    }

    /// Does the principal transitively belong to the admin group in the
    /// administrative meta-project's entity store?
    #[verifier::loop_isolation(false)]
    pub fn is_admin(&self, principal: &EntityUid) -> (r: bool)
        requires
            self.wf(),
        ensures
            (forall|k: int|
                0 <= k < self.projects@.len() ==> (#[trigger] self.projects@[k]).id != 0) ==> r
                == false,
            forall|k: int|
                0 <= k < self.projects@.len() && (#[trigger] self.projects@[k]).id == 0 ==> r
                    == reachable(
                    self.projects@[k].entities@,
                    seq![*principal],
                    ekey(self.admin),
                ),
    {
        let Some(pi) = self.project_state_index(0) else { return false };
        let ents = &self.projects[pi].entities;
        let mut roots: Vec<EntityUid> = Vec::new();
        roots.push(principal.clone());
        proof {
            assert(roots@ =~= seq![*principal]);
        }
        let idxs = closure_indices(ents, &roots);
        let mut i: usize = 0;
        while i < idxs.len()
            invariant
                i <= idxs@.len(),
                forall|k: int| 0 <= k < idxs@.len() ==> #[trigger] idxs@[k] < ents@.len(),
                forall|k: int|
                    0 <= k < i as int ==> ekey(ents@[#[trigger] idxs@[k] as int].uid) != ekey(
                        self.admin,
                    ),
            decreases idxs@.len() - i,
        {
            let e = &ents[idxs[i]];
            if crate::util::str_eq(e.uid.ty.as_str(), self.admin.ty.as_str())
                && crate::util::str_eq(e.uid.id.as_str(), self.admin.id.as_str()) {
                proof {
                    assert(reachable(ents@, roots@, ekey(ents@[idxs@[i as int] as int].uid)));
                }
                return true;
            }
            i = i + 1;
        }
        proof {
            if reachable(ents@, seq![*principal], ekey(self.admin)) {
                assert(keys_of(ents@, idxs@).contains(ekey(self.admin)));
                assert(false);
            }
        }
        false
    }

    /// Answers one authorization question against this node's state for
    /// the project: the entity slice handed to the evaluator is exactly
    /// the parent closure of the principal and the resource, the schema
    /// types the request and validates the context when the project has
    /// one, and the answer is owed exactly when the evaluator reaches a
    /// decision — every stage failure, a context rejected against the
    /// schema among them, is the bad-request error.
    #[verifier::loop_isolation(false)]
    #[verifier::rlimit(100)]
    pub fn is_authorized(
        &self,
        project_id: u128,
        principal: &EntityUid,
        action: &EntityUid,
        resource: &EntityUid,
        context: Option<&Context>,
    ) -> (r: Result<Response, CedrusError>)
        requires
            self.wf(),
        ensures
            (forall|k: int|
                0 <= k < self.projects@.len() ==> (#[trigger] self.projects@[k]).id
                    != project_id) <==> r == Err::<Response, CedrusError>(CedrusError::NotFound),
            forall|k: int|
                0 <= k < self.projects@.len() && (#[trigger] self.projects@[k]).id == project_id
                    ==> ({
                    let st = self.projects@[k];
                    let ej = closure_tree(st.entities@, pr_roots(*principal, *resource));
                    let dec = cedar_decision_of(
                        enc_policy_set(st.policies),
                        ej,
                        st.schema is Some,
                        schema_tree(st.schema),
                        enc_euid(*principal),
                        enc_euid(*action),
                        enc_euid(*resource),
                        opt_ctx_enc(context),
                    );
                    &&& (r is Ok <==> dec is Some)
                    &&& (dec is None ==> r == Err::<Response, CedrusError>(
                        CedrusError::BadRequest,
                    ))
                    &&& (r matches Ok(resp) ==> pinned_answer(
                        resp,
                        enc_policy_set(st.policies),
                        ej,
                        st.schema is Some,
                        schema_tree(st.schema),
                        enc_euid(*principal),
                        enc_euid(*action),
                        enc_euid(*resource),
                        opt_ctx_enc(context),
                    ))
                }),
    {
        let Some(pi) = self.project_state_index(project_id) else {
            return Err(CedrusError::NotFound)
        };
        let st = &self.projects[pi];
        let mut roots: Vec<EntityUid> = Vec::new();
        roots.push(principal.clone());
        roots.push(resource.clone());
        proof {
            assert(roots@ =~= pr_roots(*principal, *resource));
        }
        let ents_j = encode_closure(&st.entities, &roots);
        let ps_j = encode_policy_set(&st.policies);
        let p_j = encode_euid(principal);
        let a_j = encode_euid(action);
        let r_j = encode_euid(resource);
        let (hs, sc_j) = match &st.schema {
            Some(s) => {
                let o = encode_schema(s);
                (true, o)
            },
            None => {
                let o = JsonVal::Obj(Vec::new());
                proof {
                    assert(o@->Obj_0 =~= Seq::<(Seq<char>, JsonV)>::empty());
                }
                (false, o)
            },
        };
        proof {
            assert(sc_j@ == schema_tree(st.schema));
            assert(hs == (st.schema is Some));
        }
        let c_j = match context {
            Some(c) => {
                let o = JsonVal::Obj(encode_attr_pairs(&c.0));
                proof {
                    assert(o@->Obj_0 =~= enc_attr_entries(c.0@));
                    assert(o@ == opt_ctx_enc(context));
                }
                o
            },
            None => {
                let o = JsonVal::Obj(Vec::new());
                proof {
                    assert(o@->Obj_0 =~= Seq::<(Seq<char>, JsonV)>::empty());
                    assert(o@ == opt_ctx_enc(context));
                }
                o
            },
        };
        let ans = if hs {
            cedar_answer_typed(&ps_j, &ents_j, &sc_j, &p_j, &a_j, &r_j, &c_j)
        } else {
            cedar_answer(&ps_j, &ents_j, &sc_j, &p_j, &a_j, &r_j, &c_j)
        };
        let r = match ans {
            Some(resp) => Ok(resp),
            None => Err(CedrusError::BadRequest),
        };
        proof {
            assert forall|k: int|
                0 <= k < self.projects@.len() && (#[trigger] self.projects@[k]).id
                    == project_id implies k == pi as int by {
                if k != pi as int {
                    assert(self.projects@[k].id != self.projects@[pi as int].id);
                }
            }
        }
        r
    }

    /// The internal admin check: an admin principal is allowed outright;
    /// otherwise the meta-project's policies decide and only an explicit
    /// allow passes.
    pub fn is_allow(&self, principal: &EntityUid, action: &EntityUid, resource: &EntityUid) -> (r:
        bool)
        requires
            self.wf(),
        ensures
            forall|k: int|
                0 <= k < self.projects@.len() && (#[trigger] self.projects@[k]).id == 0
                    && reachable(
                    self.projects@[k].entities@,
                    seq![*principal],
                    ekey(self.admin),
                ) ==> r == true,
            (forall|k: int|
                0 <= k < self.projects@.len() ==> (#[trigger] self.projects@[k]).id != 0) ==> r
                == false,
            forall|k: int|
                0 <= k < self.projects@.len() && (#[trigger] self.projects@[k]).id == 0
                    && !reachable(
                    self.projects@[k].entities@,
                    seq![*principal],
                    ekey(self.admin),
                ) ==> r == (cedar_decision_of(
                    enc_policy_set(self.projects@[k].policies),
                    closure_tree(
                        self.projects@[k].entities@,
                        pr_roots(*principal, *resource),
                    ),
                    self.projects@[k].schema is Some,
                    schema_tree(self.projects@[k].schema),
                    enc_euid(*principal),
                    enc_euid(*action),
                    enc_euid(*resource),
                    ctx_enc(Option::<Context>::None),
                ) == Option::<bool>::Some(true)),
    {
        if self.is_admin(principal) {
            return true;
        }
        match self.is_authorized(0, principal, action, resource, None) {
            Ok(resp) => match resp.decision {
                crate::ast::Decision::Allow => true,
                crate::ast::Decision::Deny => false,
            },
            Err(_) => false,
        }
    }

    /// Evaluates a batch of requests against one shared entity closure,
    /// built from the union of all principals and resources; the answers
    /// come back in request order, and the batch is answered exactly
    /// when the evaluator decides every request.
    #[verifier::loop_isolation(false)]
    #[verifier::rlimit(100)]
    pub fn is_authorized_batch(&self, project_id: u128, requests: &Vec<Request>) -> (r: Result<
        Vec<Response>,
        CedrusError,
    >)
        requires
            self.wf(),
        ensures
            (forall|k: int|
                0 <= k < self.projects@.len() ==> (#[trigger] self.projects@[k]).id
                    != project_id) <==> r == Err::<Vec<Response>, CedrusError>(
                CedrusError::NotFound,
            ),
            forall|k: int|
                0 <= k < self.projects@.len() && (#[trigger] self.projects@[k]).id == project_id
                    ==> ({
                    let st = self.projects@[k];
                    let ej = closure_tree(st.entities@, batch_roots(requests@));
                    &&& (r is Ok <==> forall|i: int|
                        0 <= i < requests@.len() ==> req_dec(st, ej, #[trigger] requests@[i])
                            is Some)
                    &&& (r matches Ok(v) ==> v@.len() == requests@.len() && forall|i: int|
                        0 <= i < requests@.len() ==> req_pinned(
                            v@[i],
                            st,
                            ej,
                            #[trigger] requests@[i],
                        ))
                }),
    {
        let Some(pi) = self.project_state_index(project_id) else {
            return Err(CedrusError::NotFound)
        };
        let st = &self.projects[pi];
        let mut roots: Vec<EntityUid> = Vec::new();
        let mut qi: usize = 0;
        while qi < requests.len()
            invariant
                qi <= requests@.len(),
                roots@.len() == 2 * qi as int,
                forall|i: int| 0 <= i < 2 * qi as int ==> roots@[i] == batch_roots(requests@)[i],
            decreases requests@.len() - qi,
        {
            roots.push(requests[qi].principal.clone());
            roots.push(requests[qi].resource.clone());
            qi = qi + 1;
        }
        proof {
            assert(roots@ =~= batch_roots(requests@));
        }
        let ents_j = encode_closure(&st.entities, &roots);
        let ps_j = encode_policy_set(&st.policies);
        let (hs, sc_j) = match &st.schema {
            Some(s) => (true, encode_schema(s)),
            None => {
                let o = JsonVal::Obj(Vec::new());
                proof {
                    assert(o@->Obj_0 =~= Seq::<(Seq<char>, JsonV)>::empty());
                }
                (false, o)
            },
        };
        proof {
            assert(sc_j@ == schema_tree(st.schema));
        }
        let mut out: Vec<Response> = Vec::new();
        let mut i: usize = 0;
        while i < requests.len()
            invariant
                i <= requests@.len(),
                out@.len() == i as int,
                forall|q: int|
                    0 <= q < i as int ==> req_dec(
                        self.projects@[pi as int],
                        ents_j@,
                        #[trigger] requests@[q],
                    ) is Some && req_pinned(
                        out@[q],
                        self.projects@[pi as int],
                        ents_j@,
                        requests@[q],
                    ),
            decreases requests@.len() - i,
        {
            let rq = &requests[i];
            let p_j = encode_euid(&rq.principal);
            let a_j = encode_euid(&rq.action);
            let r_j = encode_euid(&rq.resource);
            let c_j = match &rq.context {
                Some(c) => {
                    let o = JsonVal::Obj(encode_attr_pairs(&c.0));
                    proof {
                        assert(o@->Obj_0 =~= enc_attr_entries(c.0@));
                        assert(o@ == ctx_enc(requests@[i as int].context));
                    }
                    o
                },
                None => {
                    let o = JsonVal::Obj(Vec::new());
                    proof {
                        assert(o@->Obj_0 =~= Seq::<(Seq<char>, JsonV)>::empty());
                        assert(o@ == ctx_enc(requests@[i as int].context));
                    }
                    o
                },
            };
            let ans = if hs {
                cedar_answer_typed(&ps_j, &ents_j, &sc_j, &p_j, &a_j, &r_j, &c_j)
            } else {
                cedar_answer(&ps_j, &ents_j, &sc_j, &p_j, &a_j, &r_j, &c_j)
            };
            match ans {
                Some(resp) => {
                    out.push(resp);
                },
                None => {
                    proof {
                        assert(req_dec(
                            self.projects@[pi as int],
                            ents_j@,
                            requests@[i as int],
                        ) is None);
                        assert forall|k: int|
                            0 <= k < self.projects@.len() && (#[trigger] self.projects@[k]).id
                                == project_id implies k == pi as int by {
                            if k != pi as int {
                                assert(self.projects@[k].id != self.projects@[pi as int].id);
                            }
                        }
                    }
                    return Err(CedrusError::BadRequest);
                },
            }
            i = i + 1;
        }
        proof {
            assert forall|k: int|
                0 <= k < self.projects@.len() && (#[trigger] self.projects@[k]).id
                    == project_id implies k == pi as int by {
                if k != pi as int {
                    assert(self.projects@[k].id != self.projects@[pi as int].id);
                }
            }
        }
        Ok(out)
    }

    /// Evaluates one principal and action against many resources with an
    /// empty context, answering a plain allow/deny for each: allowed
    /// exactly when the evaluator decides that request with an allow.
    #[verifier::loop_isolation(false)]
    #[verifier::rlimit(100)]
    pub fn is_authorized_batch_from_resources(
        &self,
        project_id: u128,
        principal: &EntityUid,
        action: &EntityUid,
        resources: &Vec<EntityUid>,
    ) -> (r: Result<Vec<bool>, CedrusError>)
        requires
            self.wf(),
        ensures
            (forall|k: int|
                0 <= k < self.projects@.len() ==> (#[trigger] self.projects@[k]).id
                    != project_id) <==> r == Err::<Vec<bool>, CedrusError>(CedrusError::NotFound),
            r is Err ==> r == Err::<Vec<bool>, CedrusError>(CedrusError::NotFound),
            forall|k: int|
                0 <= k < self.projects@.len() && (#[trigger] self.projects@[k]).id == project_id
                    ==> (r matches Ok(v) ==> v@.len() == resources@.len() && forall|i: int|
                    0 <= i < resources@.len() ==> v@[i] == (cedar_decision_of(
                        enc_policy_set(self.projects@[k].policies),
                        closure_tree(
                            self.projects@[k].entities@,
                            pr_roots(*principal, #[trigger] resources@[i]),
                        ),
                        self.projects@[k].schema is Some,
                        schema_tree(self.projects@[k].schema),
                        enc_euid(*principal),
                        enc_euid(*action),
                        enc_euid(resources@[i]),
                        ctx_enc(Option::<Context>::None),
                    ) == Option::<bool>::Some(true))),
    {
        let Some(pi) = self.project_state_index(project_id) else {
            return Err(CedrusError::NotFound)
        };
        let mut out: Vec<bool> = Vec::new();
        let mut i: usize = 0;
        while i < resources.len()
            invariant
                i <= resources@.len(),
                out@.len() == i as int,
                self.wf(),
                pi < self.projects@.len(),
                self.projects@[pi as int].id == project_id,
                forall|q: int|
                    0 <= q < i as int ==> out@[q] == (cedar_decision_of(
                        enc_policy_set(self.projects@[pi as int].policies),
                        closure_tree(
                            self.projects@[pi as int].entities@,
                            pr_roots(*principal, #[trigger] resources@[q]),
                        ),
                        self.projects@[pi as int].schema is Some,
                        schema_tree(self.projects@[pi as int].schema),
                        enc_euid(*principal),
                        enc_euid(*action),
                        enc_euid(resources@[q]),
                        ctx_enc(Option::<Context>::None),
                    ) == Option::<bool>::Some(true)),
            decreases resources@.len() - i,
        {
            let b = match self.is_authorized(project_id, principal, action, &resources[i], None) {
                Ok(resp) => match resp.decision {
                    crate::ast::Decision::Allow => true,
                    crate::ast::Decision::Deny => false,
                },
                Err(_) => false,
            };
            out.push(b);
            i = i + 1;
        }
        proof {
            assert forall|k: int|
                0 <= k < self.projects@.len() && (#[trigger] self.projects@[k]).id
                    == project_id implies k == pi as int by {
                if k != pi as int {
                    assert(self.projects@[k].id != self.projects@[pi as int].id);
                }
            }
        }
        Ok(out)
    }
}

/// Authorization is deterministic up to the reason order, which the
/// evaluator does not fix: two answers pinned to the same trees carry
/// the same decision, the same set of reason ids, and the same error
/// texts.
pub proof fn lemma_answer_deterministic(
    a1: Response,
    a2: Response,
    ps: JsonV,
    ents: JsonV,
    hs: bool,
    sc: JsonV,
    p: JsonV,
    a: JsonV,
    re: JsonV,
    c: JsonV,
)
    requires
        pinned_answer(a1, ps, ents, hs, sc, p, a, re, c),
        pinned_answer(a2, ps, ents, hs, sc, p, a, re, c),
    ensures
        a1.decision == a2.decision,
        a1.reason@.map_values(|s: String| s@).to_set() == a2.reason@.map_values(
            |s: String| s@,
        ).to_set(),
        a1.errors@.map_values(|s: String| s@) == a2.errors@.map_values(|s: String| s@),
{
    if a1.decision is Allow {
        assert(a2.decision is Allow);
    } else {
        assert(a1.decision is Deny && a2.decision is Deny);
    }
}


} // verus!
