use vstd::prelude::*;

use crate::block_provider::{branch_lengths, is_last_max, max_lca, MAX_NUMBER_OF_BLOCKS};
use crate::branches::{ancestor, can_step, walk_clear, Branch, Branches};
use crate::header::HeaderId;

verus! {

/// The first `count` blocks of the walk from `target` towards the parents,
/// oldest first, cut to the `limit` oldest ones (`limit` 0 cuts nothing).
pub open spec fn walk_back(
    m: Map<HeaderId, Branch>,
    target: HeaderId,
    count: nat,
    limit: nat,
) -> Seq<HeaderId> {
    Seq::new(
        if limit == 0 || count <= limit {
            count
        } else {
            limit
        },
        |j: int| ancestor(m, target, (count - 1 - j) as nat),
    )
}

/// `p` is what the walk from `target` towards `start` yields: the walk stops
/// before `start`, or at a genesis block (its own parent) or at an unknown
/// block, which it keeps; the blocks come oldest first, cut to `limit`.
pub open spec fn sync_path_outcome(
    m: Map<HeaderId, Branch>,
    start: HeaderId,
    target: HeaderId,
    limit: nat,
    p: Seq<HeaderId>,
) -> bool {
    exists|n: nat|
        #![trigger ancestor(m, target, n)]
        {
            &&& walk_clear(m, start, target, n)
            &&& if ancestor(m, target, n) == start {
                p == walk_back(m, target, n, limit)
            } else {
                &&& !can_step(m, ancestor(m, target, n))
                &&& p == walk_back(m, target, n + 1, limit)
            }
        }
}

/// The ids of the blocks from just after `start_block` up to `target_block`
/// (parent before child), following parents in the engine from the target,
/// and keeping the `limit` oldest ones. The walk also ends at a genesis
/// block or at a block the engine does not know, which it includes.
pub fn compute_sync_path(
    branches: &Branches,
    start_block: HeaderId,
    target_block: HeaderId,
    limit: usize,
) -> (p: Vec<HeaderId>)
    requires
        branches.wf(),
    ensures
        sync_path_outcome(branches@, start_block, target_block, limit as nat, p@),
{
    let ghost m = branches@;
    let mut path: Vec<HeaderId> = Vec::new();
    let mut current = target_block;
    let ghost mut k: nat = 0;
    assert(path@ =~= walk_back(m, target_block, 0, limit as nat));
    loop
        invariant
            branches.wf(),
            m == branches@,
            current == ancestor(m, target_block, k),
            walk_clear(m, start_block, target_block, k),
            path@ == walk_back(m, target_block, k, limit as nat),
        decreases (if m.contains_key(current) {
            m[current].length + 1
        } else {
            0
        }),
    {
        if current == start_block {
            return path;
        }
        if path.len() == limit {
            path.pop();
        }
        path.insert(0, current);
        assert(path@ =~= walk_back(m, target_block, k + 1, limit as nat));
        match branches.get(&current) {
            Some(b) => {
                if b.parent == current {
                    assert(!can_step(m, ancestor(m, target_block, k)));
                    return path;
                }
                proof {
                    assert(ancestor(m, target_block, k + 1) == b.parent);
                    assert forall|i: nat| i < k + 1 implies #[trigger] ancestor(
                        m,
                        target_block,
                        i,
                    ) != start_block && can_step(m, ancestor(m, target_block, i)) by {
                        if i < k {
                            assert(ancestor(m, target_block, i) != start_block && can_step(
                                m,
                                ancestor(m, target_block, i),
                            ));
                        }
                    }
                    branches.lemma_entry_facts(current);
                }
                current = b.parent;
                proof {
                    k = k + 1;
                }
            },
            None => {
                assert(!can_step(m, ancestor(m, target_block, k)));
                return path;
            },
        }
    }
}

/// The blocks sent to a peer that asks for the chain up to `target_block`:
/// none (the peer gets an error) if the engine does not know the target or
/// no common ancestor with the peer's known blocks was found; otherwise the
/// path from the longest common ancestor (the last such one on ties) to the
/// target, at most [`MAX_NUMBER_OF_BLOCKS`] blocks.
///
/// `lcas` are the common ancestors (computed by the engine) of the target
/// with each known block that the engine has.
pub fn blocks_to_send(branches: &Branches, target_block: HeaderId, lcas: &Vec<Branch>) -> (r: Option<
    Vec<HeaderId>,
>)
    requires
        branches.wf(),
    ensures
        r is None <==> (!branches@.contains_key(target_block) || lcas@.len() == 0),
        r matches Some(p) ==> exists|i: int|
            is_last_max(branch_lengths(lcas@), i) && sync_path_outcome(
                branches@,
                #[trigger] lcas@[i].id,
                target_block,
                MAX_NUMBER_OF_BLOCKS as nat,
                p@,
            ),
{
    if !branches.contains(&target_block) {
        return None;
    }
    match max_lca(lcas) {
        Some(lca) => Some(compute_sync_path(branches, lca.id, target_block, MAX_NUMBER_OF_BLOCKS)),
        None => None,
    }
}

/// The blocks sent to a syncing peer come parent before child, at most
/// `limit` of them (when `limit` is positive), and never include the start
/// block, which the peer has.
pub proof fn lemma_sync_path_parent_to_child(
    m: Map<HeaderId, Branch>,
    start: HeaderId,
    target: HeaderId,
    limit: nat,
    p: Seq<HeaderId>,
)
    requires
        sync_path_outcome(m, start, target, limit, p),
    ensures
        limit > 0 ==> p.len() <= limit,
        forall|j: int|
            0 <= j < p.len() - 1 ==> m.contains_key(#[trigger] p[j + 1]) && m[p[j + 1]].parent
                == p[j],
        !p.contains(start),
{
    let n = choose|n: nat|
        #![trigger ancestor(m, target, n)]
        {
            &&& walk_clear(m, start, target, n)
            &&& if ancestor(m, target, n) == start {
                p == walk_back(m, target, n, limit)
            } else {
                &&& !can_step(m, ancestor(m, target, n))
                &&& p == walk_back(m, target, n + 1, limit)
            }
        };
    let count: nat = if ancestor(m, target, n) == start {
        n
    } else {
        n + 1
    };
    assert(p == walk_back(m, target, count, limit));
    assert forall|j: int| 0 <= j < p.len() - 1 implies m.contains_key(#[trigger] p[j + 1])
        && m[p[j + 1]].parent == p[j] by {
        let i = (count - j - 2) as nat;
        assert(p[j + 1] == ancestor(m, target, i));
        assert(p[j] == ancestor(m, target, (i + 1) as nat));
        assert(i < n);
        assert(can_step(m, ancestor(m, target, i)));
    }
    assert forall|j: int| 0 <= j < p.len() implies #[trigger] p[j] != start by {
        let i = (count - 1 - j) as nat;
        assert(p[j] == ancestor(m, target, i));
        if i < n {
            assert(ancestor(m, target, i) != start);
        }
    }
}

} // verus!
