//! The closure of a set of store paths under what they refer to.

use crate::error::Error;
use std::collections::{HashSet, VecDeque};
use vstd::prelude::*;
use vstd::std_specs::hash::*;

verus! {

broadcast use vstd::std_specs::hash::group_hash_axioms;

/// Whether `to` is among what `from` refers to.
pub open spec fn refers(edges: Map<i64, Vec<i64>>, from: i64, to: i64) -> bool {
    edges.dom().contains(from) && edges[from]@.contains(to)
}

/// Whether `path` begins at a root and goes on from each id to one that it
/// refers to.
pub open spec fn is_path(edges: Map<i64, Vec<i64>>, roots: Set<i64>, path: Seq<i64>) -> bool {
    &&& path.len() > 0
    &&& roots.contains(path[0])
    &&& forall|i: int| 0 <= i < path.len() - 1 ==> #[trigger] refers(edges, path[i], path[i + 1])
}

/// Whether a path leads from a root to `id`.
pub open spec fn reachable(edges: Map<i64, Vec<i64>>, roots: Set<i64>, id: i64) -> bool {
    exists|path: Seq<i64>| #[trigger] is_path(edges, roots, path) && path.last() == id
}

/// Whether `closure` holds the roots and what can be reached from them, and
/// nothing else.
pub open spec fn is_closure(edges: Map<i64, Vec<i64>>, roots: Set<i64>, closure: Set<i64>) -> bool {
    forall|id: i64| closure.contains(id) <==> #[trigger] reachable(edges, roots, id)
}

/// A path stays a path where an id that referred to nothing is given
/// references.
pub proof fn lemma_path_kept(
    edges: Map<i64, Vec<i64>>,
    roots: Set<i64>,
    path: Seq<i64>,
    id: i64,
    refs: Vec<i64>,
)
    requires
        is_path(edges, roots, path),
        !edges.dom().contains(id),
    ensures
        is_path(edges.insert(id, refs), roots, path),
{
    let more = edges.insert(id, refs);
    assert forall|i: int| 0 <= i < path.len() - 1 implies #[trigger] refers(
        more,
        path[i],
        path[i + 1],
    ) by {
        assert(refers(edges, path[i], path[i + 1]));
    }
}

/// A path can be taken one step further, to an id that its end refers to.
pub proof fn lemma_path_extended(
    edges: Map<i64, Vec<i64>>,
    roots: Set<i64>,
    path: Seq<i64>,
    to: i64,
)
    requires
        is_path(edges, roots, path),
        refers(edges, path.last(), to),
    ensures
        is_path(edges, roots, path.push(to)),
{
    let longer = path.push(to);
    assert forall|i: int| 0 <= i < longer.len() - 1 implies #[trigger] refers(
        edges,
        longer[i],
        longer[i + 1],
    ) by {
        if i < path.len() - 1 {
            assert(refers(edges, path[i], path[i + 1]));
        }
    }
}

/// A set that holds the roots, and with each of its ids what the id refers
/// to, holds the end of every path.
pub proof fn lemma_closed_holds_paths(
    edges: Map<i64, Vec<i64>>,
    roots: Set<i64>,
    closed: Set<i64>,
    path: Seq<i64>,
)
    requires
        is_path(edges, roots, path),
        forall|id: i64| roots.contains(id) ==> closed.contains(id),
        forall|from: i64, to: i64|
            closed.contains(from) && #[trigger] refers(edges, from, to) ==> closed.contains(to),
    ensures
        closed.contains(path.last()),
    decreases path.len(),
{
    if path.len() > 1 {
        let head = path.drop_last();
        assert forall|i: int| 0 <= i < head.len() - 1 implies #[trigger] refers(
            edges,
            head[i],
            head[i + 1],
        ) by {
            assert(refers(edges, path[i], path[i + 1]));
        }
        lemma_closed_holds_paths(edges, roots, closed, head);
        let i = path.len() - 2;
        assert(head.last() == path[i]);
        assert(refers(edges, path[i], path[i + 1]));
    }
}

/// Whether `edges` holds, for each of its ids, references that the query
/// may answer for the id.
pub open spec fn answered<F: Fn(i64) -> Result<Vec<i64>, Error>>(
    query: F,
    edges: Map<i64, Vec<i64>>,
) -> bool {
    forall|id: i64| #[trigger]
        edges.dom().contains(id) ==> query.ensures((id,), Ok::<Vec<i64>, Error>(edges[id]))
}

/// Whether `closure` is the closure of the roots under references that the
/// query answered, one answer for each id of the closure.
pub open spec fn closed_under<F: Fn(i64) -> Result<Vec<i64>, Error>>(
    query: F,
    roots: Set<i64>,
    closure: Set<i64>,
    edges: Map<i64, Vec<i64>>,
) -> bool {
    &&& edges.dom() == closure
    &&& answered(query, edges)
    &&& is_closure(edges, roots, closure)
}

/// Computes the closure of `ids` under references: the ids themselves, and
/// every id that one of them refers to, directly or through others. The
/// references of an id are asked for once, when the id is first met, breadth
/// first. The first failure of the query ends the walk and is the result.
pub fn compute_closure<F: Fn(i64) -> Result<Vec<i64>, Error>>(
    ids: &Vec<i64>,
    query_references: F,
) -> (r: Result<HashSet<i64>, Error>)
    requires
        forall|id: i64| query_references.requires((id,)),
    ensures
        match r {
            Ok(closure) => exists|edges: Map<i64, Vec<i64>>| #[trigger]
                closed_under(query_references, ids@.to_set(), closure@, edges),
            Err(e) => exists|id: i64| #[trigger]
                query_references.ensures((id,), Err::<Vec<i64>, Error>(e)),
        },
{
    let ghost roots = ids@.to_set();
    let mut queue: VecDeque<i64> = VecDeque::new();
    let mut i: usize = 0;
    while i < ids.len()
        invariant
            i <= ids.len(),
            queue@ == ids@.take(i as int),
        decreases ids.len() - i,
    {
        queue.push_back(ids[i]);
        assert(ids@.take(i + 1) =~= ids@.take(i as int).push(ids@[i as int]));
        i += 1;
    }
    assert(ids@.take(ids.len() as int) =~= ids@);
    let mut result: HashSet<i64> = HashSet::new();
    let ghost mut edges: Map<i64, Vec<i64>> = Map::empty();
    proof {
        assert forall|id: i64| queue@.contains(id) implies reachable(edges, roots, id) by {
            let path = seq![id];
            assert(is_path(edges, roots, path) && path.last() == id);
        }
    }
    loop
        invariant
            roots == ids@.to_set(),
            forall|id: i64| query_references.requires((id,)),
            result@.finite(),
            edges.dom() == result@,
            answered(query_references, edges),
            forall|id: i64|
                result@.contains(id) || queue@.contains(id) ==> #[trigger] reachable(
                    edges,
                    roots,
                    id,
                ),
            forall|id: i64|
                roots.contains(id) ==> result@.contains(id) || queue@.contains(id),
            forall|from: i64, to: i64|
                result@.contains(from) && #[trigger] refers(edges, from, to) ==> result@.contains(
                    to,
                ) || queue@.contains(to),
        decreases usize::MAX - result@.len(), queue@.len(),
    {
        proof {
            axiom_spec_hash_set_len(&result);
        }
        let ghost waiting = queue@;
        let id = match queue.pop_front() {
            Some(id) => id,
            None => {
                proof {
                    assert forall|id: i64| !queue@.contains(id) by {}
                    assert forall|id: i64| #[trigger]
                        reachable(edges, roots, id) implies result@.contains(id) by {
                        let path = choose|path: Seq<i64>| #[trigger]
                            is_path(edges, roots, path) && path.last() == id;
                        lemma_closed_holds_paths(edges, roots, result@, path);
                    }
                    assert(is_closure(edges, roots, result@));
                }
                let r: Result<HashSet<i64>, Error> = Ok(result);
                assert(r matches Ok(closure) && closed_under(
                    query_references,
                    ids@.to_set(),
                    closure@,
                    edges,
                ));
                return r;
            },
        };
        proof {
            assert(waiting[0] == id);
            assert(waiting.contains(id));
            assert forall|other: i64| queue@.contains(other) implies waiting.contains(other) by {
                let k = choose|k: int| 0 <= k < queue@.len() && queue@[k] == other;
                assert(waiting[k + 1] == other);
            }
            assert forall|other: i64| waiting.contains(other) implies other == id
                || queue@.contains(other) by {
                let k = choose|k: int| 0 <= k < waiting.len() && waiting[k] == other;
                if k > 0 {
                    assert(queue@[k - 1] == other);
                }
            }
        }
        if !result.contains(&id) {
            let ghost before = queue@;
            let ghost known = edges;
            let ghost found = result@;
            result.insert(id);
            proof {
                axiom_spec_hash_set_len(&result);
            }
            let refs = match query_references(id) {
                Ok(refs) => refs,
                Err(e) => {
                    return Err(e);
                },
            };
            proof {
                edges = known.insert(id, refs);
                assert(edges.dom() =~= result@);
            }
            let mut k: usize = 0;
            while k < refs.len()
                invariant
                    k <= refs.len(),
                    queue@ == before + refs@.take(k as int),
                decreases refs.len() - k,
            {
                queue.push_back(refs[k]);
                assert(refs@.take(k + 1) =~= refs@.take(k as int).push(refs@[k as int]));
                k += 1;
            }
            proof {
                assert(refs@.take(refs.len() as int) =~= refs@);
                assert forall|other: i64| queue@.contains(other) <==> before.contains(other)
                    || refs@.contains(other) by {
                    if queue@.contains(other) {
                        let k = choose|k: int| 0 <= k < queue@.len() && queue@[k] == other;
                        if k < before.len() {
                            assert(before[k] == other);
                        } else {
                            assert(refs@[k - before.len()] == other);
                        }
                    }
                    if before.contains(other) {
                        let k = choose|k: int| 0 <= k < before.len() && before[k] == other;
                        assert(queue@[k] == other);
                    }
                    if refs@.contains(other) {
                        let k = choose|k: int| 0 <= k < refs@.len() && refs@[k] == other;
                        assert(queue@[before.len() + k] == other);
                    }
                }
                assert(reachable(known, roots, id));
                let path_to = choose|path: Seq<i64>| #[trigger]
                    is_path(known, roots, path) && path.last() == id;
                lemma_path_kept(known, roots, path_to, id, refs);
                assert forall|other: i64|
                    result@.contains(other) || queue@.contains(other) implies #[trigger] reachable(
                    edges,
                    roots,
                    other,
                ) by {
                    if other == id {
                        assert(is_path(edges, roots, path_to) && path_to.last() == other);
                    } else if refs@.contains(other) {
                        assert(refers(edges, id, other));
                        lemma_path_extended(edges, roots, path_to, other);
                        let longer = path_to.push(other);
                        assert(is_path(edges, roots, longer) && longer.last() == other);
                    } else {
                        assert(reachable(known, roots, other));
                        let path = choose|path: Seq<i64>| #[trigger]
                            is_path(known, roots, path) && path.last() == other;
                        lemma_path_kept(known, roots, path, id, refs);
                        assert(is_path(edges, roots, path) && path.last() == other);
                    }
                }
                assert forall|from: i64, to: i64|
                    result@.contains(from) && #[trigger] refers(
                        edges,
                        from,
                        to,
                    ) implies result@.contains(to) || queue@.contains(to) by {
                    if from == id {
                        let k = choose|k: int| 0 <= k < refs@.len() && refs@[k] == to;
                        assert(queue@[before.len() + k] == to);
                    } else {
                        assert(found.contains(from));
                        assert(refers(known, from, to));
                        assert(found.contains(to) || waiting.contains(to));
                        if found.contains(to) {
                            assert(result@.contains(to));
                        } else if to == id {
                            assert(result@.contains(to));
                        } else {
                            let k = choose|k: int| 0 <= k < before.len() && before[k] == to;
                            assert(queue@[k] == to);
                        }
                    }
                }
            }
        }
    }
}

} // verus!
