use vstd::prelude::*;

use crate::branches::{lengths_increase, Branch, Branches};
use crate::header::HeaderId;

verus! {

/// The maximal number of header ids answered to one headers request.
pub const HEADERS_LIMIT: usize = 512;

/// The ids met walking from `cur` towards the parents: the walk stops after
/// an unknown block, after `to`, after `lib`, or once `budget` ids are taken.
pub open spec fn headers_from(
    m: Map<HeaderId, Branch>,
    cur: HeaderId,
    to: HeaderId,
    lib: HeaderId,
    budget: nat,
) -> Seq<HeaderId>
    decreases budget,
{
    if budget == 0 || !m.contains_key(cur) {
        Seq::empty()
    } else if cur == to || cur == lib || budget == 1 {
        seq![m[cur].id]
    } else {
        seq![m[cur].id] + headers_from(m, m[cur].parent, to, lib, (budget - 1) as nat)
    }
}

/// Answers a headers request: the ids from `from` (the tip when absent)
/// back to `to` (the LIB when absent), newest first, stopping at the LIB,
/// at an unknown block, or after [`HEADERS_LIMIT`] ids.
pub fn get_headers(
    branches: &Branches,
    from: Option<HeaderId>,
    to: Option<HeaderId>,
    tip: HeaderId,
    lib: HeaderId,
) -> (res: Vec<HeaderId>)
    requires
        branches.wf(),
    ensures
        res@ == headers_from(
            branches@,
            match from {
                Some(f) => f,
                None => tip,
            },
            match to {
                Some(t) => t,
                None => lib,
            },
            lib,
            HEADERS_LIMIT as nat,
        ),
{
    let start = match from {
        Some(f) => f,
        None => tip,
    };
    let stop = match to {
        Some(t) => t,
        None => lib,
    };
    let ghost m = branches@;
    let mut res: Vec<HeaderId> = Vec::new();
    let mut cur = start;
    loop
        invariant
            branches.wf(),
            m == branches@,
            start == (match from {
                Some(f) => f,
                None => tip,
            }),
            stop == (match to {
                Some(t) => t,
                None => lib,
            }),
            res@.len() < HEADERS_LIMIT,
            res@ + headers_from(m, cur, stop, lib, (HEADERS_LIMIT - res@.len()) as nat)
                == headers_from(m, start, stop, lib, HEADERS_LIMIT as nat),
        decreases HEADERS_LIMIT - res@.len(),
    {
        let ghost budget: nat = (HEADERS_LIMIT - res@.len()) as nat;
        match branches.get(&cur) {
            Some(h) => {
                let ghost before = res@;
                res.push(h.id);
                if cur == stop || cur == lib || res.len() >= HEADERS_LIMIT {
                    assert(headers_from(m, cur, stop, lib, budget) == seq![m[cur].id]);
                    assert(res@ =~= before + headers_from(m, cur, stop, lib, budget));
                    return res;
                }
                assert(headers_from(m, cur, stop, lib, budget) == seq![m[cur].id] + headers_from(
                    m,
                    m[cur].parent,
                    stop,
                    lib,
                    (budget - 1) as nat,
                ));
                assert(before + headers_from(m, cur, stop, lib, budget) =~= res@ + headers_from(
                    m,
                    m[cur].parent,
                    stop,
                    lib,
                    (budget - 1) as nat,
                ));
                cur = h.parent;
            },
            None => {
                assert(headers_from(m, cur, stop, lib, budget) =~= Seq::<HeaderId>::empty());
                assert(res@ + headers_from(m, cur, stop, lib, budget) =~= res@);
                return res;
            },
        }
    }
}

/// The headers answered to a request follow the chain back from the
/// first requested block: newest first, each the child of the next, at
/// most `budget` of them, and stopping at `to` or at the LIB (which come
/// last when reached).
pub proof fn lemma_headers_follow_parents(
    m: Map<HeaderId, Branch>,
    cur: HeaderId,
    to: HeaderId,
    lib: HeaderId,
    budget: nat,
)
    requires
        lengths_increase(m),
    ensures
        ({
            let h = headers_from(m, cur, to, lib, budget);
            &&& h.len() <= budget
            &&& h.len() > 0 ==> h[0] == cur
            &&& forall|j: int|
                0 <= j < h.len() - 1 ==> m.contains_key(#[trigger] h[j]) && m[h[j]].parent == h[j + 1]
            &&& forall|j: int| 0 <= j < h.len() - 1 ==> #[trigger] h[j] != to && h[j] != lib
        }),
    decreases budget,
{
    if budget > 0 && m.contains_key(cur) && !(cur == to || cur == lib || budget == 1) {
        let parent = m[cur].parent;
        lemma_headers_follow_parents(m, parent, to, lib, (budget - 1) as nat);
        let rest = headers_from(m, parent, to, lib, (budget - 1) as nat);
        let h = headers_from(m, cur, to, lib, budget);
        assert(h == seq![m[cur].id] + rest);
        assert forall|j: int| 0 <= j < h.len() - 1 implies m.contains_key(#[trigger] h[j])
            && m[h[j]].parent == h[j + 1] by {
            if j == 0 {
                assert(h[0] == cur);
                assert(h[1] == rest[0]);
            } else {
                assert(h[j] == rest[j - 1]);
                assert(h[j + 1] == rest[(j - 1) + 1]);
            }
        }
        assert forall|j: int| 0 <= j < h.len() - 1 implies #[trigger] h[j] != to && h[j] != lib by {
            if j > 0 {
                assert(h[j] == rest[j - 1]);
            }
        }
    }
}

} // verus!
