//! The set-visited parent closure: starting from the principal and the
//! resource, every transitively reachable entity of the index is visited
//! exactly once, and cycles terminate because visited entities are never
//! revisited.
use vstd::prelude::*;

use crate::ast::{Entity, EntityUid};
use crate::util::str_eq;

verus! {

broadcast use vstd::std_specs::vec::axiom_vec_decreases_to_view, vstd::seq::axiom_seq_index_decreases;

/// The identifying key of an entity: its type name and id.
pub open spec fn ekey(u: EntityUid) -> (Seq<char>, Seq<char>) {
    (u.ty@, u.id@)
}

/// No two entities in the index share a key.
pub open spec fn uids_unique(s: Seq<Entity>) -> bool {
    forall|i: int, j: int|
        0 <= i < j < s.len() ==> ekey(#[trigger] s[i].uid) != ekey(#[trigger] s[j].uid)
}

/// The key `k` names some entity of the index.
pub open spec fn key_present(s: Seq<Entity>, k: (Seq<char>, Seq<char>)) -> bool {
    exists|i: int| 0 <= i < s.len() && ekey((#[trigger] s[i]).uid) == k
}

/// There is an edge from the entity keyed `a` to the key `b`: some entity
/// keyed `a` lists `b` among its parents.
pub open spec fn edge(s: Seq<Entity>, a: (Seq<char>, Seq<char>), b: (Seq<char>, Seq<char>)) -> bool {
    exists|i: int, j: int|
        0 <= i < s.len() && ekey((#[trigger] s[i]).uid) == a && 0 <= j < s[i].parents@.len()
            && ekey(#[trigger] s[i].parents@[j]) == b
}

/// `p` is a parent chain through the index: it starts at a root, every
/// element names an entity of the index, and consecutive elements are
/// connected by parent edges.
pub open spec fn is_chain(
    s: Seq<Entity>,
    roots: Seq<EntityUid>,
    p: Seq<(Seq<char>, Seq<char>)>,
) -> bool {
    &&& p.len() >= 1
    &&& (exists|r: int| 0 <= r < roots.len() && ekey(#[trigger] roots[r]) == p[0])
    &&& (forall|k: int| 0 <= k < p.len() ==> key_present(s, #[trigger] p[k]))
    &&& (forall|k: int| 0 <= k < p.len() - 1 ==> edge(s, #[trigger] p[k], p[k + 1]))
}

/// The key `t` is reachable from the roots through parent edges, visiting
/// only entities of the index.
pub open spec fn reachable(
    s: Seq<Entity>,
    roots: Seq<EntityUid>,
    t: (Seq<char>, Seq<char>),
) -> bool {
    exists|p: Seq<(Seq<char>, Seq<char>)>| is_chain(s, roots, p) && p.last() == t
}

/// Finds the index of the entity with the given key, if any.
#[verifier::loop_isolation(false)]
pub fn find_entity(ents: &Vec<Entity>, ty: &str, id: &str) -> (r: Option<usize>)
    ensures
        r matches Some(i) ==> i < ents@.len() && ekey(ents@[i as int].uid) == (ty@, id@),
        r is None ==> !key_present(ents@, (ty@, id@)),
{
    let mut i: usize = 0;
    while i < ents.len()
        invariant
            i <= ents.len(),
            forall|k: int| 0 <= k < i as int ==> ekey((#[trigger] ents@[k]).uid) != (ty@, id@),
        decreases ents.len() - i,
    {
        let e = &ents[i];
        if str_eq(e.uid.ty.as_str(), ty) && str_eq(e.uid.id.as_str(), id) {
            return Some(i);
        }
        i = i + 1;
    }
    None
}

/// Is the index value `x` already listed?
#[verifier::loop_isolation(false)]
pub fn contains_idx(v: &Vec<usize>, x: usize) -> (r: bool)
    ensures
        r == v@.contains(x),
{
    let mut i: usize = 0;
    while i < v.len()
        invariant
            i <= v.len(),
            forall|k: int| 0 <= k < i as int ==> v@[k] != x,
        decreases v.len() - i,
    {
        if v[i] == x {
            return true;
        }
        i = i + 1;
    }
    proof {
        assert(!v@.contains(x));
    }
    false
}

/// Chains compose: a chain to `a` extended by an edge from `a` to a
/// present key `b` reaches `b`.
proof fn lemma_chain_step(
    s: Seq<Entity>,
    roots: Seq<EntityUid>,
    a: (Seq<char>, Seq<char>),
    b: (Seq<char>, Seq<char>),
)
    requires
        reachable(s, roots, a),
        edge(s, a, b),
        key_present(s, b),
    ensures
        reachable(s, roots, b),
{
    let p = choose|p: Seq<(Seq<char>, Seq<char>)>| is_chain(s, roots, p) && p.last() == a;
    let q = p.push(b);
    assert(q.last() == b);
    assert forall|k: int| 0 <= k < q.len() - 1 implies edge(s, #[trigger] q[k], q[k + 1]) by {
        if k < p.len() - 1 {
            assert(edge(s, p[k], p[k + 1]));
        } else {
            assert(q[k] == a);
        }
    }
    assert(is_chain(s, roots, q));
}

/// Everything reachable from the roots lies in any set that contains the
/// present roots and is closed under present parent edges.
proof fn lemma_reach_closed(
    s: Seq<Entity>,
    roots: Seq<EntityUid>,
    member: Set<(Seq<char>, Seq<char>)>,
    p: Seq<(Seq<char>, Seq<char>)>,
)
    requires
        is_chain(s, roots, p),
        forall|r: int|
            0 <= r < roots.len() && key_present(s, ekey(#[trigger] roots[r])) ==> member.contains(
                ekey(roots[r]),
            ),
        forall|a: (Seq<char>, Seq<char>), b: (Seq<char>, Seq<char>)|
            member.contains(a) && #[trigger] edge(s, a, b) && key_present(s, b)
                ==> member.contains(b),
    ensures
        member.contains(p.last()),
    decreases p.len(),
{
    if p.len() == 1 {
        let r = choose|r: int| 0 <= r < roots.len() && ekey(roots[r]) == p[0];
        assert(key_present(s, ekey(roots[r])));
    } else {
        let q = p.drop_last();
        assert(is_chain(s, roots, q)) by {
            assert forall|k: int| 0 <= k < q.len() implies key_present(s, #[trigger] q[k]) by {
                assert(key_present(s, p[k]));
            }
            assert forall|k: int| 0 <= k < q.len() - 1 implies edge(s, #[trigger] q[k], q[k + 1]) by {
                assert(edge(s, p[k], p[k + 1]));
            }
        }
        lemma_reach_closed(s, roots, member, q);
        assert(edge(s, p[p.len() - 2], p.last()));
        assert(key_present(s, p.last()));
    }
}

/// The keys of the listed entity indices, as a set.
pub open spec fn keys_of(ents: Seq<Entity>, idxs: Seq<usize>) -> Set<(Seq<char>, Seq<char>)> {
    Set::new(
        |k: (Seq<char>, Seq<char>)|
            exists|i: int| 0 <= i < idxs.len() && idxs[i] < ents.len() && ekey(
                ents[#[trigger] idxs[i] as int].uid,
            ) == k,
    )
}

/// Distinct indices below a bound cannot outnumber the bound.
proof fn lemma_distinct_bound(v: Seq<usize>, n: int)
    requires
        forall|i: int, j: int| 0 <= i < j < v.len() ==> v[i] != v[j],
        forall|i: int| 0 <= i < v.len() ==> #[trigger] v[i] < n,
        n >= 0,
    ensures
        v.len() <= n,
{
    let vi = v.map_values(|x: usize| x as int);
    assert(vi.no_duplicates()) by {
        assert forall|i: int, j: int|
            0 <= i < vi.len() && 0 <= j < vi.len() && i != j implies vi[i] != vi[j] by {
            if i < j {
                assert(v[i] != v[j]);
            } else {
                assert(v[j] != v[i]);
            }
        }
    }
    vi.unique_seq_to_set();
    assert(vi.to_set().subset_of(vstd::set_lib::set_int_range(0, n))) by {
        assert forall|x: int| vi.to_set().contains(x) implies vstd::set_lib::set_int_range(
            0,
            n,
        ).contains(x) by {
            let i = choose|i: int| 0 <= i < vi.len() && vi[i] == x;
            assert(v[i] < n);
        }
    }
    vstd::set_lib::lemma_int_range(0, n);
    vstd::set_lib::lemma_len_subset(vi.to_set(), vstd::set_lib::set_int_range(0, n));
}

/// Growing the visited list only grows the set of visited keys.
proof fn lemma_keys_mono(ents: Seq<Entity>, v1: Seq<usize>, v2: Seq<usize>)
    requires
        v1.is_prefix_of(v2),
    ensures
        forall|k: (Seq<char>, Seq<char>)|
            keys_of(ents, v1).contains(k) ==> keys_of(ents, v2).contains(k),
{
    assert forall|k: (Seq<char>, Seq<char>)| keys_of(ents, v1).contains(k) implies keys_of(
        ents,
        v2,
    ).contains(k) by {
        let i = choose|i: int|
            0 <= i < v1.len() && v1[i] < ents.len() && ekey(ents[v1[i] as int].uid) == k;
        assert(v2[i] == v1[i]);
    }
}

/// Visits every present parent of the entity at index `cur`, appending the
/// newly discovered entities to the visited list.
#[verifier::loop_isolation(false)]
#[verifier::rlimit(100)]
fn process_parents(ents: &Vec<Entity>, roots: &Vec<EntityUid>, visited: &mut Vec<usize>, cur: usize)
    requires
        uids_unique(ents@),
        cur < ents@.len(),
        old(visited)@.len() <= ents@.len(),
        forall|i: int| 0 <= i < old(visited)@.len() ==> #[trigger] old(visited)@[i] < ents@.len(),
        forall|i: int, j: int|
            0 <= i < j < old(visited)@.len() ==> old(visited)@[i] != old(visited)@[j],
        forall|i: int|
            0 <= i < old(visited)@.len() ==> reachable(
                ents@,
                roots@,
                ekey(ents@[#[trigger] old(visited)@[i] as int].uid),
            ),
        reachable(ents@, roots@, ekey(ents@[cur as int].uid)),
    ensures
        old(visited)@.is_prefix_of(final (visited)@),
        final (visited)@.len() <= ents@.len(),
        forall|i: int| 0 <= i < final (visited)@.len() ==> #[trigger] final (visited)@[i]
            < ents@.len(),
        forall|i: int, j: int|
            0 <= i < j < final (visited)@.len() ==> final (visited)@[i] != final (visited)@[j],
        forall|i: int|
            0 <= i < final (visited)@.len() ==> reachable(
                ents@,
                roots@,
                ekey(ents@[#[trigger] final (visited)@[i] as int].uid),
            ),
        forall|j: int|
            0 <= j < ents@[cur as int].parents@.len() ==> (key_present(
                ents@,
                ekey(#[trigger] ents@[cur as int].parents@[j]),
            ) ==> keys_of(ents@, final (visited)@).contains(
                ekey(ents@[cur as int].parents@[j]),
            )),
{
    let nparents = ents[cur].parents.len();
    let mut pj: usize = 0;
    while pj < nparents
        invariant
            pj <= nparents,
            nparents == ents@[cur as int].parents@.len(),
            old(visited)@.is_prefix_of(visited@),
            visited@.len() <= ents@.len(),
            forall|i: int| 0 <= i < visited@.len() ==> #[trigger] visited@[i] < ents@.len(),
            forall|i: int, j: int| 0 <= i < j < visited@.len() ==> visited@[i] != visited@[j],
            forall|i: int|
                0 <= i < visited@.len() ==> reachable(
                    ents@,
                    roots@,
                    ekey(ents@[#[trigger] visited@[i] as int].uid),
                ),
            forall|j: int|
                0 <= j < pj as int ==> (key_present(
                    ents@,
                    ekey(#[trigger] ents@[cur as int].parents@[j]),
                ) ==> keys_of(ents@, visited@).contains(ekey(ents@[cur as int].parents@[j]))),
        decreases nparents - pj,
    {
        let ghost before = visited@;
        let parent = &ents[cur].parents[pj];
        match find_entity(ents, parent.ty.as_str(), parent.id.as_str()) {
            Some(idx) => {
                if !contains_idx(&visited, idx) {
                    proof {
                        lemma_distinct_bound(visited@.push(idx), ents@.len() as int);
                        assert(ekey(ents@[cur as int].parents@[pj as int]) == ekey(
                            ents@[idx as int].uid,
                        ));
                        assert(edge(
                            ents@,
                            ekey(ents@[cur as int].uid),
                            ekey(ents@[cur as int].parents@[pj as int]),
                        ));
                        assert(key_present(ents@, ekey(ents@[idx as int].uid)));
                        lemma_chain_step(
                            ents@,
                            roots@,
                            ekey(ents@[cur as int].uid),
                            ekey(ents@[idx as int].uid),
                        );
                        assert(old(visited)@.is_prefix_of(visited@.push(idx)));
                    }
                    visited.push(idx);
                    proof {
                        assert(visited@[visited@.len() - 1] == idx);
                        assert(keys_of(ents@, visited@).contains(ekey(ents@[idx as int].uid)));
                    }
                } else {
                    proof {
                        assert(keys_of(ents@, visited@).contains(
                            ekey(ents@[cur as int].parents@[pj as int]),
                        ));
                    }
                }
            },
            None => {},
        }
        proof {
            assert(before.is_prefix_of(visited@));
            lemma_keys_mono(ents@, before, visited@);
        }
        pj = pj + 1;
    }
}

/// Seeds the visit list with the entities the roots name.
#[verifier::loop_isolation(false)]
#[verifier::rlimit(100)]
fn seed_roots(ents: &Vec<Entity>, roots: &Vec<EntityUid>) -> (r: Vec<usize>)
    requires
        uids_unique(ents@),
    ensures
        r@.len() <= ents@.len(),
        forall|i: int| 0 <= i < r@.len() ==> #[trigger] r@[i] < ents@.len(),
        forall|i: int, j: int| 0 <= i < j < r@.len() ==> r@[i] != r@[j],
        forall|i: int|
            0 <= i < r@.len() ==> reachable(ents@, roots@, ekey(ents@[#[trigger] r@[i] as int].uid)),
        forall|rr: int|
            0 <= rr < roots@.len() && key_present(ents@, ekey(#[trigger] roots@[rr]))
                ==> keys_of(ents@, r@).contains(ekey(roots@[rr])),
{
    let mut visited: Vec<usize> = Vec::new();
    let mut ri: usize = 0;
    while ri < roots.len()
        invariant
            ri <= roots.len(),
            visited@.len() <= ents@.len(),
            forall|i: int| 0 <= i < visited@.len() ==> #[trigger] visited@[i] < ents@.len(),
            forall|i: int, j: int| 0 <= i < j < visited@.len() ==> visited@[i] != visited@[j],
            forall|i: int|
                0 <= i < visited@.len() ==> reachable(
                    ents@,
                    roots@,
                    ekey(ents@[#[trigger] visited@[i] as int].uid),
                ),
            forall|rr: int|
                0 <= rr < ri as int && key_present(ents@, ekey(#[trigger] roots@[rr])) ==> keys_of(
                    ents@,
                    visited@,
                ).contains(ekey(roots@[rr])),
        decreases roots.len() - ri,
    {
        let ghost before = visited@;
        let root = &roots[ri];
        match find_entity(ents, root.ty.as_str(), root.id.as_str()) {
            Some(idx) => {
                if !contains_idx(&visited, idx) {
                    proof {
                        lemma_distinct_bound(visited@.push(idx), ents@.len() as int);
                        let p = seq![ekey(roots@[ri as int])];
                        assert(ekey(ents@[idx as int].uid) == p[0]);
                        assert(key_present(ents@, p[0]));
                        assert(is_chain(ents@, roots@, p));
                        assert(p.last() == ekey(ents@[idx as int].uid));
                        assert(reachable(ents@, roots@, ekey(ents@[idx as int].uid)));
                    }
                    visited.push(idx);
                    proof {
                        assert(visited@[visited@.len() - 1] == idx);
                        assert(keys_of(ents@, visited@).contains(ekey(roots@[ri as int])));
                    }
                } else {
                    proof {
                        assert(keys_of(ents@, visited@).contains(ekey(roots@[ri as int])));
                    }
                }
            },
            None => {},
        }
        proof {
            assert(before.is_prefix_of(visited@));
            lemma_keys_mono(ents@, before, visited@);
        }
        ri = ri + 1;
    }
    visited
}

/// A visit list that covers the present roots and is closed under parent
/// edges covers every reachable key.
proof fn lemma_closure_complete(ents: Seq<Entity>, roots: Seq<EntityUid>, visited: Seq<usize>)
    requires
        forall|i: int| 0 <= i < visited.len() ==> #[trigger] visited[i] < ents.len(),
        forall|rr: int|
            0 <= rr < roots.len() && key_present(ents, ekey(#[trigger] roots[rr])) ==> keys_of(
                ents,
                visited,
            ).contains(ekey(roots[rr])),
        forall|vi: int, j: int|
            0 <= vi < visited.len() && 0 <= j
                < ents[#[trigger] visited[vi] as int].parents@.len() ==> (key_present(
                ents,
                ekey(#[trigger] ents[visited[vi] as int].parents@[j]),
            ) ==> keys_of(ents, visited).contains(ekey(ents[visited[vi] as int].parents@[j]))),
        uids_unique(ents),
    ensures
        forall|k: (Seq<char>, Seq<char>)|
            reachable(ents, roots, k) ==> keys_of(ents, visited).contains(k),
{
    assert forall|a: (Seq<char>, Seq<char>), b: (Seq<char>, Seq<char>)|
        keys_of(ents, visited).contains(a) && #[trigger] edge(ents, a, b) && key_present(
            ents,
            b,
        ) implies keys_of(ents, visited).contains(b) by {
        let i = choose|i: int|
            0 <= i < visited.len() && visited[i] < ents.len() && ekey(
                ents[visited[i] as int].uid,
            ) == a;
        let (si, sj) = choose|si: int, sj: int|
            0 <= si < ents.len() && ekey(ents[si].uid) == a && 0 <= sj < ents[si].parents@.len()
                && ekey(ents[si].parents@[sj]) == b;
        assert(si == visited[i] as int);
        assert(keys_of(ents, visited).contains(ekey(ents[si].parents@[sj])));
    }
    assert forall|k: (Seq<char>, Seq<char>)| reachable(ents, roots, k) implies keys_of(
        ents,
        visited,
    ).contains(k) by {
        let p = choose|p: Seq<(Seq<char>, Seq<char>)>| is_chain(ents, roots, p) && p.last() == k;
        lemma_reach_closed(ents, roots, keys_of(ents, visited), p);
    }
}

/// Computes the set-visited parent closure of the roots over the entity
/// index: the indices of exactly those entities whose key is reachable
/// from the roots. Cycles terminate because visited entities are never
/// revisited; each reachable entity contributes exactly once, so the work
/// is linear in the number of reachable entities and their parent lists.
#[verifier::loop_isolation(false)]
#[verifier::rlimit(100)]
pub fn closure_indices(ents: &Vec<Entity>, roots: &Vec<EntityUid>) -> (r: Vec<usize>)
    requires
        uids_unique(ents@),
    ensures
        forall|i: int| 0 <= i < r@.len() ==> #[trigger] r@[i] < ents@.len(),
        forall|i: int, j: int| 0 <= i < j < r@.len() ==> r@[i] != r@[j],
        forall|i: int|
            0 <= i < r@.len() ==> reachable(ents@, roots@, ekey(ents@[#[trigger] r@[i] as int].uid)),
        forall|k: (Seq<char>, Seq<char>)|
            reachable(ents@, roots@, k) ==> keys_of(ents@, r@).contains(k),
{
    let mut visited: Vec<usize> = seed_roots(ents, roots);
    let mut head: usize = 0;
    while head < visited.len()
        invariant
            head <= visited.len(),
            visited@.len() <= ents@.len(),
            forall|i: int| 0 <= i < visited@.len() ==> #[trigger] visited@[i] < ents@.len(),
            forall|i: int, j: int| 0 <= i < j < visited@.len() ==> visited@[i] != visited@[j],
            forall|i: int|
                0 <= i < visited@.len() ==> reachable(
                    ents@,
                    roots@,
                    ekey(ents@[#[trigger] visited@[i] as int].uid),
                ),
            forall|rr: int|
                0 <= rr < roots@.len() && key_present(ents@, ekey(#[trigger] roots@[rr]))
                    ==> keys_of(ents@, visited@).contains(ekey(roots@[rr])),
            forall|vi: int, j: int|
                0 <= vi < head as int && 0 <= j
                    < ents@[#[trigger] visited@[vi] as int].parents@.len() ==> (key_present(
                    ents@,
                    ekey(#[trigger] ents@[visited@[vi] as int].parents@[j]),
                ) ==> keys_of(ents@, visited@).contains(
                    ekey(ents@[visited@[vi] as int].parents@[j]),
                )),
        decreases ents@.len() - visited@.len() + 1, visited@.len() - head,
    {
        let cur = visited[head];
        let ghost pre = visited@;
        process_parents(ents, roots, &mut visited, cur);
        proof {
            lemma_keys_mono(ents@, pre, visited@);
            assert forall|vi: int, j: int|
                0 <= vi < head as int + 1 && 0 <= j
                    < ents@[#[trigger] visited@[vi] as int].parents@.len() && key_present(
                    ents@,
                    ekey(#[trigger] ents@[visited@[vi] as int].parents@[j]),
                ) implies keys_of(ents@, visited@).contains(
                ekey(ents@[visited@[vi] as int].parents@[j]),
            ) by {
                assert(visited@[vi] == pre[vi]);
                if vi < head as int {
                    assert(keys_of(ents@, pre).contains(
                        ekey(ents@[visited@[vi] as int].parents@[j]),
                    ));
                }
            }
            if visited@.len() == pre.len() {
                assert(visited@ =~= pre);
            }
        }
        head = head + 1;
    }
    proof {
        lemma_closure_complete(ents@, roots@, visited@);
    }
    visited
}


} // verus!
