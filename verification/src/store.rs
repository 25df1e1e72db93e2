//! The project-scoped durable store, modelled as seven flat collections,
//! and the admin write operations over it: create, optimistic update, and
//! the cascading removal of a project.
use vstd::prelude::*;
use vstd::string::{StrSliceExecFns, StringExecFns};

use crate::ast::{Entity, EntityUid, Policy, PolicyId, Template, TemplateLink};
use crate::schema::Schema;
use crate::closure::ekey;
use crate::model::{IdentitySource, Project};
use crate::util::{has_prefix, str_eq, str_has_prefix, uuid_seq, uuid_to_string};

verus! {

broadcast use vstd::std_specs::vec::axiom_vec_decreases_to_view, vstd::seq::axiom_seq_index_decreases;

/// The error kinds of the service, mapped to HTTP statuses at the edge.
#[derive(Debug, PartialEq, Eq, Clone, Copy)]
pub enum CedrusError {
    BadRequest,
    Conflict,
    Unauthorized,
    Forbidden,
    NotFound,
    InvalidEncoding,
    SchemaInvalid,
    EntityInvalid,
    PolicyInvalid,
    PolicySetInvalid,
    ContextInvalid,
    StorageError,
    CacheError,
    BusError,
}

/// The durable store: seven collections, each scoped by project id. The
/// administrative meta-project has the reserved nil (zero) id.
#[derive(Debug)]
pub struct Store {
    pub projects: Vec<Project>,
    pub identity_sources: Vec<(u128, IdentitySource)>,
    pub schemas: Vec<(u128, Schema)>,
    pub entities: Vec<(u128, Entity)>,
    pub policies: Vec<(u128, PolicyId, Policy)>,
    pub templates: Vec<(u128, PolicyId, Template)>,
    pub template_links: Vec<(u128, TemplateLink)>,
}

impl Store {
    pub fn new() -> (r: Self)
        ensures
            r.projects@ == Seq::<Project>::empty(),
            r.identity_sources@ == Seq::<(u128, IdentitySource)>::empty(),
            r.schemas@ == Seq::<(u128, Schema)>::empty(),
            r.entities@ == Seq::<(u128, Entity)>::empty(),
            r.policies@ == Seq::<(u128, PolicyId, Policy)>::empty(),
            r.templates@ == Seq::<(u128, PolicyId, Template)>::empty(),
            r.template_links@ == Seq::<(u128, TemplateLink)>::empty(),
    {
        Store {
            projects: Vec::new(),
            identity_sources: Vec::new(),
            schemas: Vec::new(),
            entities: Vec::new(),
            policies: Vec::new(),
            templates: Vec::new(),
            template_links: Vec::new(),
        }
    }

    /// The index of the stored project with this id, if any.
    #[verifier::loop_isolation(false)]
    pub fn project_index(&self, id: u128) -> (r: Option<usize>)
        ensures
            r matches Some(i) ==> i < self.projects@.len() && self.projects@[i as int].id == id,
            r is None ==> forall|k: int|
                0 <= k < self.projects@.len() ==> (#[trigger] self.projects@[k]).id != id,
    {
        let mut i: usize = 0;
        while i < self.projects.len()
            invariant
                i <= self.projects@.len(),
                forall|k: int| 0 <= k < i as int ==> (#[trigger] self.projects@[k]).id != id,
            decreases self.projects@.len() - i,
        {
            if self.projects[i].id == id {
                return Some(i);
            }
            i = i + 1;
        }
        None
    }

    /// Removes a project and everything it owns: all seven collections
    /// under its id, its entity in the meta-project, and its admin-role
    /// template link in the meta-project. Re-issuing the removal leaves
    /// the store unchanged, so a partial failure can be completed by
    /// running it again.
    #[verifier::loop_isolation(false)]
    #[verifier::rlimit(60)]
    pub fn project_remove(&mut self, pid: u128)
        ensures
    // nothing under the removed project survives, in any collection

            forall|k: int|
                0 <= k < final (self).projects@.len() ==> (#[trigger] final (self).projects@[k]).id != pid,
            forall|k: int|
                0 <= k < final (self).identity_sources@.len() ==> (#[trigger] final (self).identity_sources@[k]).0 != pid,
            forall|k: int|
                0 <= k < final (self).schemas@.len() ==> (#[trigger] final (self).schemas@[k]).0 != pid,
            forall|k: int|
                0 <= k < final (self).entities@.len() ==> (#[trigger] final (self).entities@[k]).0 != pid,
            forall|k: int|
                0 <= k < final (self).policies@.len() ==> (#[trigger] final (self).policies@[k]).0 != pid,
            forall|k: int|
                0 <= k < final (self).templates@.len() ==> (#[trigger] final (self).templates@[k]).0 != pid,
            forall|k: int|
                0 <= k < final (self).template_links@.len() ==> (#[trigger] final (self).template_links@[k]).0 != pid,
            // the project's entity in the meta-project is gone
            forall|k: int|
                0 <= k < final (self).entities@.len() ==> !(ekey(
                    (#[trigger] final (self).entities@[k]).1.uid,
                ) == ("Cedrus::Project"@, uuid_seq(pid))),
            // every meta-project link named with the project-id prefix,
            // the admin-role link among them, is gone
            forall|k: int|
                0 <= k < final (self).template_links@.len() ==> !has_prefix(
                    (#[trigger] final (self).template_links@[k]).1.new_id.0@,
                    uuid_seq(pid) + "_"@,
                ),
            // everything else survives
            final (self).projects@ == old(self).projects@.filter(
                |p: Project| p.id != pid,
            ),
            final (self).identity_sources@ == old(self).identity_sources@.filter(
                |e: (u128, IdentitySource)| e.0 != pid,
            ),
            final (self).schemas@ == old(self).schemas@.filter(|e: (u128, Schema)| e.0 != pid),
            final (self).entities@ == old(self).entities@.filter(
                |e: (u128, Entity)| e.0 != pid && !(ekey(e.1.uid) == (
                    "Cedrus::Project"@,
                    uuid_seq(pid),
                )),
            ),
            final (self).policies@ == old(self).policies@.filter(
                |e: (u128, PolicyId, Policy)| e.0 != pid,
            ),
            final (self).templates@ == old(self).templates@.filter(
                |e: (u128, PolicyId, Template)| e.0 != pid,
            ),
            final (self).template_links@ == old(self).template_links@.filter(
                |e: (u128, TemplateLink)| e.0 != pid && !has_prefix(
                    e.1.new_id.0@,
                    uuid_seq(pid) + "_"@,
                ),
            ),
    {
        let puid = uuid_to_string(pid);
        let mut link_prefix = uuid_to_string(pid);
        link_prefix.append("_");

        let ghost p_pred = |p: Project| p.id != pid;
        let mut i: usize = 0;
        let ghost j: int = 0;
        let ghost orig = self.projects@;
        while i < self.projects.len()
            invariant
                0 <= j <= orig.len(),
                i as int == orig.subrange(0, j).filter(p_pred).len(),
                self.projects@ =~= orig.subrange(0, j).filter(p_pred) + orig.subrange(
                    j,
                    orig.len() as int,
                ),
                self.identity_sources == old(self).identity_sources,
                self.schemas == old(self).schemas,
                self.entities == old(self).entities,
                self.policies == old(self).policies,
                self.templates == old(self).templates,
                self.template_links == old(self).template_links,
            decreases orig.len() - j,
        {
            proof {
                crate::engine::lemma_filter_push(orig.subrange(0, j), orig[j], p_pred);
                assert(orig.subrange(0, j + 1) =~= orig.subrange(0, j).push(orig[j]));
                assert(self.projects@[i as int] == orig[j]);
            }
            if self.projects[i].id == pid {
                self.projects.remove(i);
                proof {
                    assert(self.projects@ =~= orig.subrange(0, j + 1).filter(p_pred)
                        + orig.subrange(j + 1, orig.len() as int));
                }
            } else {
                i = i + 1;
                proof {
                    assert(self.projects@ =~= orig.subrange(0, j + 1).filter(p_pred)
                        + orig.subrange(j + 1, orig.len() as int));
                }
            }
            proof {
                j = j + 1;
            }
        }
        proof {
            assert(orig.subrange(0, orig.len() as int) =~= orig);
            assert(orig.subrange(orig.len() as int, orig.len() as int) =~= Seq::<
                Project,
            >::empty());
            assert(self.projects@ =~= orig.filter(p_pred));
        }
        remove_pid_is(&mut self.identity_sources, pid);
        remove_pid_sc(&mut self.schemas, pid);
        remove_pid_po(&mut self.policies, pid);
        remove_pid_tp(&mut self.templates, pid);
        remove_entities_of(&mut self.entities, pid, &puid);
        remove_links_of(&mut self.template_links, pid, &link_prefix);
        proof {
            assert forall|k: int| 0 <= k < self.projects@.len() implies (
            #[trigger] self.projects@[k]).id != pid by {
                assert(self.projects@[k] == orig.filter(p_pred)[k]);
                orig.lemma_filter_pred(p_pred, k);
            }
        }
    }
}


/// Drops every identity source under the given project id.
#[verifier::loop_isolation(false)]
pub fn remove_pid_is(v: &mut Vec<(u128, IdentitySource)>, pid: u128)
    ensures
        final (v)@ == old(v)@.filter(|e: (u128, IdentitySource)| e.0 != pid),
        forall|k: int| 0 <= k < final (v)@.len() ==> (#[trigger] final (v)@[k]).0 != pid,
{
    let ghost pred = |e: (u128, IdentitySource)| e.0 != pid;
    let ghost orig = v@;
    let mut i: usize = 0;
    let ghost j: int = 0;
    while i < v.len()
        invariant
            0 <= j <= orig.len(),
            i as int == orig.subrange(0, j).filter(pred).len(),
            v@ =~= orig.subrange(0, j).filter(pred) + orig.subrange(j, orig.len() as int),
        decreases orig.len() - j,
    {
        proof {
            crate::engine::lemma_filter_push(orig.subrange(0, j), orig[j], pred);
            assert(orig.subrange(0, j + 1) =~= orig.subrange(0, j).push(orig[j]));
            assert(v@[i as int] == orig[j]);
        }
        if v[i].0 == pid {
            v.remove(i);
            proof {
                assert(v@ =~= orig.subrange(0, j + 1).filter(pred) + orig.subrange(
                    j + 1,
                    orig.len() as int,
                ));
            }
        } else {
            i = i + 1;
            proof {
                assert(v@ =~= orig.subrange(0, j + 1).filter(pred) + orig.subrange(
                    j + 1,
                    orig.len() as int,
                ));
            }
        }
        proof {
            j = j + 1;
        }
    }
    proof {
        assert(orig.subrange(0, orig.len() as int) =~= orig);
        assert(v@ =~= orig.filter(pred));
        assert forall|k: int| 0 <= k < v@.len() implies (#[trigger] v@[k]).0 != pid by {
            orig.lemma_filter_pred(pred, k);
        }
    }
}

/// Drops every schema under the given project id.
#[verifier::loop_isolation(false)]
pub fn remove_pid_sc(v: &mut Vec<(u128, Schema)>, pid: u128)
    ensures
        final (v)@ == old(v)@.filter(|e: (u128, Schema)| e.0 != pid),
        forall|k: int| 0 <= k < final (v)@.len() ==> (#[trigger] final (v)@[k]).0 != pid,
{
    let ghost pred = |e: (u128, Schema)| e.0 != pid;
    let ghost orig = v@;
    let mut i: usize = 0;
    let ghost j: int = 0;
    while i < v.len()
        invariant
            0 <= j <= orig.len(),
            i as int == orig.subrange(0, j).filter(pred).len(),
            v@ =~= orig.subrange(0, j).filter(pred) + orig.subrange(j, orig.len() as int),
        decreases orig.len() - j,
    {
        proof {
            crate::engine::lemma_filter_push(orig.subrange(0, j), orig[j], pred);
            assert(orig.subrange(0, j + 1) =~= orig.subrange(0, j).push(orig[j]));
            assert(v@[i as int] == orig[j]);
        }
        if v[i].0 == pid {
            v.remove(i);
            proof {
                assert(v@ =~= orig.subrange(0, j + 1).filter(pred) + orig.subrange(
                    j + 1,
                    orig.len() as int,
                ));
            }
        } else {
            i = i + 1;
            proof {
                assert(v@ =~= orig.subrange(0, j + 1).filter(pred) + orig.subrange(
                    j + 1,
                    orig.len() as int,
                ));
            }
        }
        proof {
            j = j + 1;
        }
    }
    proof {
        assert(orig.subrange(0, orig.len() as int) =~= orig);
        assert(v@ =~= orig.filter(pred));
        assert forall|k: int| 0 <= k < v@.len() implies (#[trigger] v@[k]).0 != pid by {
            orig.lemma_filter_pred(pred, k);
        }
    }
}

/// Drops every policy under the given project id.
#[verifier::loop_isolation(false)]
pub fn remove_pid_po(v: &mut Vec<(u128, PolicyId, Policy)>, pid: u128)
    ensures
        final (v)@ == old(v)@.filter(|e: (u128, PolicyId, Policy)| e.0 != pid),
        forall|k: int| 0 <= k < final (v)@.len() ==> (#[trigger] final (v)@[k]).0 != pid,
{
    let ghost pred = |e: (u128, PolicyId, Policy)| e.0 != pid;
    let ghost orig = v@;
    let mut i: usize = 0;
    let ghost j: int = 0;
    while i < v.len()
        invariant
            0 <= j <= orig.len(),
            i as int == orig.subrange(0, j).filter(pred).len(),
            v@ =~= orig.subrange(0, j).filter(pred) + orig.subrange(j, orig.len() as int),
        decreases orig.len() - j,
    {
        proof {
            crate::engine::lemma_filter_push(orig.subrange(0, j), orig[j], pred);
            assert(orig.subrange(0, j + 1) =~= orig.subrange(0, j).push(orig[j]));
            assert(v@[i as int] == orig[j]);
        }
        if v[i].0 == pid {
            v.remove(i);
            proof {
                assert(v@ =~= orig.subrange(0, j + 1).filter(pred) + orig.subrange(
                    j + 1,
                    orig.len() as int,
                ));
            }
        } else {
            i = i + 1;
            proof {
                assert(v@ =~= orig.subrange(0, j + 1).filter(pred) + orig.subrange(
                    j + 1,
                    orig.len() as int,
                ));
            }
        }
        proof {
            j = j + 1;
        }
    }
    proof {
        assert(orig.subrange(0, orig.len() as int) =~= orig);
        assert(v@ =~= orig.filter(pred));
        assert forall|k: int| 0 <= k < v@.len() implies (#[trigger] v@[k]).0 != pid by {
            orig.lemma_filter_pred(pred, k);
        }
    }
}

/// Drops every template under the given project id.
#[verifier::loop_isolation(false)]
pub fn remove_pid_tp(v: &mut Vec<(u128, PolicyId, Template)>, pid: u128)
    ensures
        final (v)@ == old(v)@.filter(|e: (u128, PolicyId, Template)| e.0 != pid),
        forall|k: int| 0 <= k < final (v)@.len() ==> (#[trigger] final (v)@[k]).0 != pid,
{
    let ghost pred = |e: (u128, PolicyId, Template)| e.0 != pid;
    let ghost orig = v@;
    let mut i: usize = 0;
    let ghost j: int = 0;
    while i < v.len()
        invariant
            0 <= j <= orig.len(),
            i as int == orig.subrange(0, j).filter(pred).len(),
            v@ =~= orig.subrange(0, j).filter(pred) + orig.subrange(j, orig.len() as int),
        decreases orig.len() - j,
    {
        proof {
            crate::engine::lemma_filter_push(orig.subrange(0, j), orig[j], pred);
            assert(orig.subrange(0, j + 1) =~= orig.subrange(0, j).push(orig[j]));
            assert(v@[i as int] == orig[j]);
        }
        if v[i].0 == pid {
            v.remove(i);
            proof {
                assert(v@ =~= orig.subrange(0, j + 1).filter(pred) + orig.subrange(
                    j + 1,
                    orig.len() as int,
                ));
            }
        } else {
            i = i + 1;
            proof {
                assert(v@ =~= orig.subrange(0, j + 1).filter(pred) + orig.subrange(
                    j + 1,
                    orig.len() as int,
                ));
            }
        }
        proof {
            j = j + 1;
        }
    }
    proof {
        assert(orig.subrange(0, orig.len() as int) =~= orig);
        assert(v@ =~= orig.filter(pred));
        assert forall|k: int| 0 <= k < v@.len() implies (#[trigger] v@[k]).0 != pid by {
            orig.lemma_filter_pred(pred, k);
        }
    }
}

/// Drops every entity under the project id, plus the project's own
/// entity in the meta-project.
#[verifier::loop_isolation(false)]
pub fn remove_entities_of(v: &mut Vec<(u128, Entity)>, pid: u128, puid: &String)
    requires
        puid@ == uuid_seq(pid),
    ensures
        final (v)@ == old(v)@.filter(
            |e: (u128, Entity)| e.0 != pid && !(ekey(e.1.uid) == (
                "Cedrus::Project"@,
                uuid_seq(pid),
            )),
        ),
        forall|k: int| 0 <= k < final (v)@.len() ==> (#[trigger] final (v)@[k]).0 != pid,
        forall|k: int|
            0 <= k < final (v)@.len() ==> !(ekey((#[trigger] final (v)@[k]).1.uid) == (
                "Cedrus::Project"@,
                uuid_seq(pid),
            )),
{
    let ghost pred = |e: (u128, Entity)| e.0 != pid && !(ekey(e.1.uid) == (
        "Cedrus::Project"@,
        uuid_seq(pid),
    ));
    let ghost orig = v@;
    let mut i: usize = 0;
    let ghost j: int = 0;
    while i < v.len()
        invariant
            0 <= j <= orig.len(),
            i as int == orig.subrange(0, j).filter(pred).len(),
            v@ =~= orig.subrange(0, j).filter(pred) + orig.subrange(j, orig.len() as int),
        decreases orig.len() - j,
    {
        proof {
            crate::engine::lemma_filter_push(orig.subrange(0, j), orig[j], pred);
            assert(orig.subrange(0, j + 1) =~= orig.subrange(0, j).push(orig[j]));
            assert(v@[i as int] == orig[j]);
        }
        let e = &v[i];
        let is_meta = str_eq(e.1.uid.ty.as_str(), "Cedrus::Project") && str_eq(
            e.1.uid.id.as_str(),
            puid.as_str(),
        );
        if e.0 == pid || is_meta {
            v.remove(i);
            proof {
                assert(v@ =~= orig.subrange(0, j + 1).filter(pred) + orig.subrange(
                    j + 1,
                    orig.len() as int,
                ));
            }
        } else {
            i = i + 1;
            proof {
                assert(v@ =~= orig.subrange(0, j + 1).filter(pred) + orig.subrange(
                    j + 1,
                    orig.len() as int,
                ));
            }
        }
        proof {
            j = j + 1;
        }
    }
    proof {
        assert(orig.subrange(0, orig.len() as int) =~= orig);
        assert(v@ =~= orig.filter(pred));
        assert forall|k: int|
            0 <= k < v@.len() implies (#[trigger] v@[k]).0 != pid && !(ekey(v@[k].1.uid) == (
            "Cedrus::Project"@,
            uuid_seq(pid),
        )) by {
            orig.lemma_filter_pred(pred, k);
        }
    }
}

/// Drops every template link under the project id, plus every link in
/// any project whose name starts with the project-id prefix, the
/// admin-role link in the meta-project among them.
#[verifier::loop_isolation(false)]
pub fn remove_links_of(v: &mut Vec<(u128, TemplateLink)>, pid: u128, link_prefix: &String)
    requires
        link_prefix@ == uuid_seq(pid) + "_"@,
    ensures
        final (v)@ == old(v)@.filter(
            |e: (u128, TemplateLink)| e.0 != pid && !has_prefix(
                e.1.new_id.0@,
                uuid_seq(pid) + "_"@,
            ),
        ),
        forall|k: int| 0 <= k < final (v)@.len() ==> (#[trigger] final (v)@[k]).0 != pid,
        forall|k: int|
            0 <= k < final (v)@.len() ==> !has_prefix(
                (#[trigger] final (v)@[k]).1.new_id.0@,
                uuid_seq(pid) + "_"@,
            ),
{
    let ghost pred = |e: (u128, TemplateLink)| e.0 != pid && !has_prefix(
        e.1.new_id.0@,
        uuid_seq(pid) + "_"@,
    );
    let ghost orig = v@;
    let mut i: usize = 0;
    let ghost j: int = 0;
    while i < v.len()
        invariant
            0 <= j <= orig.len(),
            i as int == orig.subrange(0, j).filter(pred).len(),
            v@ =~= orig.subrange(0, j).filter(pred) + orig.subrange(j, orig.len() as int),
        decreases orig.len() - j,
    {
        proof {
            crate::engine::lemma_filter_push(orig.subrange(0, j), orig[j], pred);
            assert(orig.subrange(0, j + 1) =~= orig.subrange(0, j).push(orig[j]));
            assert(v@[i as int] == orig[j]);
        }
        let e = &v[i];
        if e.0 == pid || str_has_prefix(e.1.new_id.0.as_str(), link_prefix.as_str()) {
            v.remove(i);
            proof {
                assert(v@ =~= orig.subrange(0, j + 1).filter(pred) + orig.subrange(
                    j + 1,
                    orig.len() as int,
                ));
            }
        } else {
            i = i + 1;
            proof {
                assert(v@ =~= orig.subrange(0, j + 1).filter(pred) + orig.subrange(
                    j + 1,
                    orig.len() as int,
                ));
            }
        }
        proof {
            j = j + 1;
        }
    }
    proof {
        assert(orig.subrange(0, orig.len() as int) =~= orig);
        assert(v@ =~= orig.filter(pred));
        assert forall|k: int|
            0 <= k < v@.len() implies (#[trigger] v@[k]).0 != pid && !has_prefix(
            v@[k].1.new_id.0@,
            uuid_seq(pid) + "_"@,
        ) by {
            orig.lemma_filter_pred(pred, k);
        }
    }
}

/// The `type::id` text of an entity identifier.
pub fn uid_string(u: &EntityUid) -> (r: String)
    ensures
        r@ == u.full_seq(),
{
    let mut out = u.ty.clone();
    out.append("::");
    out.append(u.id.as_str());
    out
}

/// Merges an incoming project update into the stored project, enforcing
/// the optimistic lock: a stale `updated_at` tag conflicts and nothing
/// is merged. On success the boolean says whether anything changed and
/// so must be written back.
pub fn project_update_merge(original: Project, incoming: &Project, now_ms: i64) -> (r: Result<
    (Project, bool),
    CedrusError,
>)
    ensures
        r is Err <==> original.updated_at != incoming.updated_at,
        r == Err::<(Project, bool), CedrusError>(CedrusError::Conflict) || r is Ok,
        r matches Ok((p, changed)) ==> {
            &&& p.id == original.id
            &&& p.owner == original.owner
            &&& p.roles == original.roles
            &&& p.name@ == incoming.name@
            &&& p.api_key@ == incoming.api_key@
            &&& changed == (original.name@ != incoming.name@ || original.api_key@
                != incoming.api_key@ || original.created_at == 0 || original.updated_at == 0)
            &&& p.created_at == if original.created_at == 0 {
                now_ms
            } else {
                original.created_at
            }
            &&& p.updated_at == if changed {
                now_ms
            } else {
                original.updated_at
            }
        },
{
    if original.updated_at != incoming.updated_at {
        return Err(CedrusError::Conflict);
    }
    let mut p = original;
    let mut changed = false;
    if !str_eq(p.name.as_str(), incoming.name.as_str()) {
        changed = true;
    }
    p.name = incoming.name.clone();
    if !str_eq(p.api_key.as_str(), incoming.api_key.as_str()) {
        changed = true;
    }
    p.api_key = incoming.api_key.clone();
    if p.created_at == 0 {
        p.created_at = now_ms;
        changed = true;
    }
    if p.updated_at == 0 {
        changed = true;
    }
    if changed {
        p.updated_at = now_ms;
    }
    Ok((p, changed))
}

/// Completes a project about to be created: installs the owner with the
/// built-in admin role, fills an empty API key with the freshly drawn
/// one, and stamps both timestamps with the creation time.
pub fn project_create_fill(p: Project, owner: EntityUid, now_ms: i64, fresh_key: String) -> (r:
    Project)
    ensures
        r.id == p.id,
        r.name == p.name,
        r.owner == owner,
        r.created_at == now_ms,
        r.updated_at == now_ms,
        r.api_key@ == if p.api_key@.len() == 0 {
            fresh_key@
        } else {
            p.api_key@
        },
        r.roles@.len() == p.roles@.len() + 1,
        r.roles@.subrange(0, p.roles@.len() as int) == p.roles@,
        r.roles@.last().0@ == owner.full_seq(),
        r.roles@.last().1@.len() == 1,
        r.roles@.last().1@[0]@ == "ProjectAdminRole"@,
{
    let mut out = p;
    let role_key = uid_string(&owner);
    out.owner = owner;
    let mut role_names: Vec<String> = Vec::new();
    role_names.push(String::from_str("ProjectAdminRole"));
    let ghost before = out.roles@;
    out.roles.push((role_key, role_names));
    proof {
        assert(out.roles@.subrange(0, before.len() as int) =~= before);
    }
    if out.api_key.as_str().unicode_len() == 0 {
        proof {
            vstd::string::axiom_str_literal_len("");
        }
        out.api_key = fresh_key;
    }
    out.created_at = now_ms;
    out.updated_at = now_ms;
    out
}

/// The reserved namespace name that stands for the empty one at rest,
/// since some backends cannot key on the empty string.
pub open spec fn default_sentinel() -> Seq<char> {
    "__DEFAULT__"@
}

/// Rewrites the empty namespace name to the storage sentinel, keeping
/// every namespace in place: the conversion is lossless.
#[verifier::loop_isolation(false)]
pub fn empty_namespace_to_default(s: Schema) -> (r: Schema)
    ensures
        r.0@.len() == s.0@.len(),
        forall|k: int|
            0 <= k < s.0@.len() ==> (#[trigger] r.0@[k]).1 == s.0@[k].1 && r.0@[k].0@ == (
            if s.0@[k].0@ == Seq::<char>::empty() {
                default_sentinel()
            } else {
                s.0@[k].0@
            }),
{
    let ghost orig = s.0@;
    let mut rest = s.0;
    let mut out: Vec<(String, crate::schema::Namespace)> = Vec::new();
    let ghost t: int = 0;
    while rest.len() > 0
        invariant
            0 <= t <= orig.len(),
            rest@ =~= orig.subrange(t, orig.len() as int),
            out@.len() == t,
            forall|k: int|
                0 <= k < t ==> (#[trigger] out@[k]).1 == orig[k].1 && out@[k].0@ == (
                if orig[k].0@ == Seq::<char>::empty() {
                    default_sentinel()
                } else {
                    orig[k].0@
                }),
        decreases orig.len() - t,
    {
        let (name, ns) = rest.remove(0);
        proof {
            assert((name, ns) == orig[t]);
        }
        if name.as_str().unicode_len() == 0 {
            proof {
                assert(name@ =~= Seq::<char>::empty());
            }
            out.push((String::from_str("__DEFAULT__"), ns));
        } else {
            out.push((name, ns));
        }
        proof {
            t = t + 1;
            assert(rest@ =~= orig.subrange(t, orig.len() as int));
        }
    }
    Schema(out)
}

/// Rewrites the storage sentinel back to the empty namespace name: the
/// inverse of storing.
#[verifier::loop_isolation(false)]
pub fn default_namespace_to_empty(s: Schema) -> (r: Schema)
    ensures
        r.0@.len() == s.0@.len(),
        forall|k: int|
            0 <= k < s.0@.len() ==> (#[trigger] r.0@[k]).1 == s.0@[k].1 && r.0@[k].0@ == (
            if s.0@[k].0@ == default_sentinel() {
                Seq::<char>::empty()
            } else {
                s.0@[k].0@
            }),
{
    let ghost orig = s.0@;
    let mut rest = s.0;
    let mut out: Vec<(String, crate::schema::Namespace)> = Vec::new();
    let ghost t: int = 0;
    while rest.len() > 0
        invariant
            0 <= t <= orig.len(),
            rest@ =~= orig.subrange(t, orig.len() as int),
            out@.len() == t,
            forall|k: int|
                0 <= k < t ==> (#[trigger] out@[k]).1 == orig[k].1 && out@[k].0@ == (
                if orig[k].0@ == default_sentinel() {
                    Seq::<char>::empty()
                } else {
                    orig[k].0@
                }),
        decreases orig.len() - t,
    {
        let (name, ns) = rest.remove(0);
        proof {
            assert((name, ns) == orig[t]);
        }
        if str_eq(name.as_str(), "__DEFAULT__") {
            out.push((String::new(), ns));
        } else {
            out.push((name, ns));
        }
        proof {
            t = t + 1;
            assert(rest@ =~= orig.subrange(t, orig.len() as int));
        }
    }
    Schema(out)
}

/// The contents view of one chunk.
pub open spec fn rows_of<T>() -> spec_fn(Vec<T>) -> Seq<T> {
    |c: Vec<T>| c@
}

/// Splits a write batch into chunks of at most `limit` rows, in order:
/// rejoining the chunks gives back the batch, and only the last chunk
/// may be short.
#[verifier::loop_isolation(false)]
pub fn chunk_rows<T>(rows: Vec<T>, limit: usize) -> (r: Vec<Vec<T>>)
    requires
        limit >= 1,
    ensures
        r@.map_values(rows_of::<T>()).flatten() == rows@,
        forall|k: int| 0 <= k < r@.len() ==> 1 <= (#[trigger] r@[k])@.len() <= limit,
        forall|k: int| 0 <= k < r@.len() - 1 ==> (#[trigger] r@[k])@.len() == limit,
{
    let ghost orig = rows@;
    let mut rest = rows;
    let mut out: Vec<Vec<T>> = Vec::new();
    let mut cur: Vec<T> = Vec::new();
    let ghost t: int = 0;
    while rest.len() > 0
        invariant
            0 <= t <= orig.len(),
            rest@ =~= orig.subrange(t, orig.len() as int),
            out@.map_values(rows_of::<T>()).flatten() + cur@ =~= orig.subrange(0, t),
            cur@.len() < limit,
            forall|k: int| 0 <= k < out@.len() ==> (#[trigger] out@[k])@.len() == limit,
            cur@.len() > 0 ==> t >= 1,
        decreases orig.len() - t,
    {
        let x = rest.remove(0);
        proof {
            assert(x == orig[t]);
        }
        let ghost pre_out = out@;
        let ghost pre_cur = cur@;
        cur.push(x);
        if cur.len() == limit {
            let full = cur;
            cur = Vec::new();
            proof {
                assert(full@ == pre_cur.push(orig[t]));
            }
            out.push(full);
            proof {
                let pm = pre_out.map_values(rows_of::<T>());
                assert(out@.map_values(rows_of::<T>()) =~= pm + seq![pre_cur.push(orig[t])]);
                vstd::seq_lib::lemma_flatten_concat(pm, seq![pre_cur.push(orig[t])]);
                assert(seq![pre_cur.push(orig[t])].drop_first() =~= Seq::<Seq<T>>::empty());
                assert(Seq::<Seq<T>>::empty().flatten() =~= Seq::<T>::empty());
                assert(seq![pre_cur.push(orig[t])].flatten() =~= pre_cur.push(orig[t]));
                assert(out@.map_values(rows_of::<T>()).flatten() =~= pm.flatten() + pre_cur.push(
                    orig[t],
                ));
                assert(pm.flatten() + pre_cur =~= orig.subrange(0, t));
                assert(orig.subrange(0, t + 1) =~= orig.subrange(0, t).push(orig[t]));
                assert(cur@ =~= Seq::<T>::empty());
                assert(out@.map_values(rows_of::<T>()).flatten() + cur@ =~= orig.subrange(
                    0,
                    t + 1,
                ));
            }
        } else {
            proof {
                assert(out@ == pre_out);
                assert(cur@ == pre_cur.push(orig[t]));
                assert(orig.subrange(0, t + 1) =~= orig.subrange(0, t).push(orig[t]));
                assert(out@.map_values(rows_of::<T>()).flatten() + cur@ =~= orig.subrange(
                    0,
                    t + 1,
                ));
            }
        }
        proof {
            t = t + 1;
            assert(rest@ =~= orig.subrange(t, orig.len() as int));
        }
    }
    if cur.len() > 0 {
        let ghost pre_out = out@;
        let ghost pre_cur = cur@;
        out.push(cur);
        proof {
            let pm = pre_out.map_values(rows_of::<T>());
            assert(out@.map_values(rows_of::<T>()) =~= pm + seq![pre_cur]);
            vstd::seq_lib::lemma_flatten_concat(pm, seq![pre_cur]);
            assert(seq![pre_cur].drop_first() =~= Seq::<Seq<T>>::empty());
            assert(Seq::<Seq<T>>::empty().flatten() =~= Seq::<T>::empty());
            assert(seq![pre_cur].flatten() =~= pre_cur);
            assert(out@.map_values(rows_of::<T>()).flatten() =~= pm.flatten() + pre_cur);
            assert(pm.flatten() + pre_cur =~= orig.subrange(0, orig.len() as int));
            assert(orig.subrange(0, orig.len() as int) =~= orig);
            assert(out@.map_values(rows_of::<T>()).flatten() =~= orig);
        }
    } else {
        proof {
            assert(orig.subrange(0, orig.len() as int) =~= orig);
            assert(out@.map_values(rows_of::<T>()).flatten() + cur@ =~= orig);
            assert(out@.map_values(rows_of::<T>()).flatten() =~= orig);
        }
    }
    out
}

} // verus!
