use vstd::prelude::*;

use crate::branches::Branches;
use crate::fork_choice::State;
use crate::header::{HeaderId, Slot};
use crate::leadership::Epoch;

verus! {

/// What the consensus service reports about its chain.
#[derive(Clone, Copy, Debug)]
pub struct CryptarchiaInfo {
    pub tip: HeaderId,
    pub lib: HeaderId,
    pub slot: Slot,
    pub height: u64,
    pub mode: State,
}

/// The information about the chain: its tip, its LIB, the slot of the tip
/// (as the ledger gives it), the tip's height in the engine and the fork
/// choice rule. The engine must know the tip.
pub fn cryptarchia_info(
    branches: &Branches,
    tip: HeaderId,
    lib: HeaderId,
    tip_slot: Slot,
    mode: State,
) -> (i: CryptarchiaInfo)
    requires
        branches.wf(),
        branches@.contains_key(tip),
    ensures
        i.tip == tip,
        i.lib == lib,
        i.slot == tip_slot,
        i.height == branches@[tip].length,
        i.mode == mode,
{
    let branch = branches.get(&tip).unwrap();
    CryptarchiaInfo { tip, lib, slot: tip_slot, height: branch.length, mode }
}

/// Which of the tip's epoch states serves a requested epoch.
#[derive(Clone, Copy, Debug, PartialEq, Eq, Structural)]
pub enum EpochStateChoice {
    /// The state of the tip's current epoch.
    Current,
    /// The state of the epoch after it.
    Next,
}

/// The epoch state that serves `requested_epoch`, given the tip's current
/// and next epochs: the current one if it matches, else the next one if it
/// matches, else none.
pub fn epoch_state_for_epoch(
    current_epoch: Epoch,
    next_epoch: Epoch,
    requested_epoch: Epoch,
) -> (r: Option<EpochStateChoice>)
    ensures
        r == (if current_epoch == requested_epoch {
            Some(EpochStateChoice::Current)
        } else if requested_epoch == next_epoch {
            Some(EpochStateChoice::Next)
        } else {
            None::<EpochStateChoice>
        }),
{
    if current_epoch == requested_epoch {
        Some(EpochStateChoice::Current)
    } else if requested_epoch == next_epoch {
        Some(EpochStateChoice::Next)
    } else {
        None
    }
}

/// Counts the ledger states that were pruned, out of the outcome of pruning
/// each block (`true` when its state existed and was removed).
pub fn count_pruned_states(outcomes: &Vec<bool>) -> (n: usize)
    ensures
        n == outcomes@.filter(|b: bool| b).len() || (n == usize::MAX && outcomes@.filter(
            |b: bool| b,
        ).len() >= usize::MAX),
{
    let mut n: usize = 0;
    let mut i: usize = 0;
    while i < outcomes.len()
        invariant
            0 <= i <= outcomes@.len(),
            n == outcomes@.take(i as int).filter(|b: bool| b).len() || (n == usize::MAX
                && outcomes@.take(i as int).filter(|b: bool| b).len() >= usize::MAX),
        decreases outcomes@.len() - i,
    {
        proof {
            reveal(Seq::filter);
            assert(outcomes@.take(i + 1).drop_last() =~= outcomes@.take(i as int));
        }
        if outcomes[i] {
            n = n.saturating_add(1);
        }
        i = i + 1;
    }
    assert(outcomes@.take(i as int) =~= outcomes@);
    n
}

/// A walk through the stored blocks of an inclusive range, from its newest
/// block back to its oldest one (`stop`), one parent at a time: the blocks
/// of a recovery are loaded this way, `stop` included.
#[derive(Clone, Copy, Debug)]
pub struct StorageWalk {
    /// The oldest block of the range, the last one loaded.
    pub stop: HeaderId,
    /// The block to load next, if any.
    pub next: Option<HeaderId>,
}

impl StorageWalk {
    /// A walk from `start` back to `stop`, both included; if they are the
    /// same block, only that block is loaded.
    pub fn new(start: HeaderId, stop: HeaderId) -> (w: StorageWalk)
        ensures
            w.stop == stop,
            w.next == Some(start),
    {
        StorageWalk { stop, next: Some(start) }
    }

    /// The next block was loaded and has `parent` as its parent: the walk
    /// ends if that block was `stop`, and goes on with the parent otherwise.
    pub fn loaded(&mut self, parent: HeaderId)
        requires
            old(self).next is Some,
        ensures
            *final(self) == load_step(*old(self), parent),
    {
        let last = self.next.unwrap();
        self.next = if last == self.stop {
            None
        } else {
            Some(parent)
        };
    }

    /// The error of a walk whose next block is missing from the storage.
    pub fn missing(&self) -> (e: RangeError)
        requires
            self.next is Some,
        ensures
            e == RangeError::BlockNotFound(self.next->0),
    {
        RangeError::BlockNotFound(self.next.unwrap())
    }
}

/// Why the blocks of a range could not be loaded.
#[derive(Clone, Copy, Debug)]
pub enum RangeError {
    /// This block of the range is not in the storage.
    BlockNotFound(HeaderId),
}

/// The walk after its next block was loaded with `parent` as its parent.
pub open spec fn load_step(w: StorageWalk, parent: HeaderId) -> StorageWalk {
    StorageWalk {
        stop: w.stop,
        next: if w.next == Some(w.stop) {
            None
        } else {
            Some(parent)
        },
    }
}

/// The walk after loading the newest `k` blocks of `chain` (oldest first,
/// each the parent of the next), each with its parent in `chain`.
pub open spec fn walk_steps(w: StorageWalk, chain: Seq<HeaderId>, k: nat) -> StorageWalk
    decreases k,
{
    if k == 0 {
        w
    } else {
        let i = chain.len() - k;
        load_step(
            walk_steps(w, chain, (k - 1) as nat),
            if i > 0 {
                chain[i - 1]
            } else {
                chain[0]
            },
        )
    }
}

/// A walk over a stored chain `chain[0] <- ... <- chain[n]` (from the
/// oldest block to the newest) loads every block of it, newest first, both
/// ends included, and then ends: after `k` loads the next block is
/// `chain[n - k]`, and after `n + 1` loads there is none.
pub proof fn lemma_walk_loads_the_whole_range(chain: Seq<HeaderId>)
    requires
        chain.len() >= 1,
        forall|i: int| 0 < i < chain.len() ==> #[trigger] chain[i] != chain[0],
    ensures
        forall|k: nat|
            k < chain.len() ==> (#[trigger] walk_steps(
                StorageWalk { stop: chain[0], next: Some(chain.last()) },
                chain,
                k,
            )).next == Some(chain[chain.len() - 1 - k]),
        walk_steps(
            StorageWalk { stop: chain[0], next: Some(chain.last()) },
            chain,
            chain.len(),
        ).next is None,
{
    let w = StorageWalk { stop: chain[0], next: Some(chain.last()) };
    assert forall|k: nat| k < chain.len() implies (#[trigger] walk_steps(w, chain, k)).next == Some(
        chain[chain.len() - 1 - k],
    ) && walk_steps(w, chain, k).stop == chain[0] by {
        lemma_walk_step(chain, k);
    }
    lemma_walk_step(chain, (chain.len() - 1) as nat);
}

proof fn lemma_walk_step(chain: Seq<HeaderId>, k: nat)
    requires
        chain.len() >= 1,
        k < chain.len(),
        forall|i: int| 0 < i < chain.len() ==> #[trigger] chain[i] != chain[0],
    ensures
        walk_steps(StorageWalk { stop: chain[0], next: Some(chain.last()) }, chain, k).next == Some(
            chain[chain.len() - 1 - k],
        ),
        walk_steps(StorageWalk { stop: chain[0], next: Some(chain.last()) }, chain, k).stop
            == chain[0],
    decreases k,
{
    if k > 0 {
        lemma_walk_step(chain, (k - 1) as nat);
        let i = chain.len() - k;
        assert(chain[i] != chain[0]);
    }
}

/// The blocks loaded by a walk, newest first, in range order: oldest first,
/// both ends included.
pub fn range_order<T>(walked: Vec<T>) -> (r: Vec<T>)
    ensures
        r@ == walked@.reverse(),
{
    let ghost w = walked@;
    let mut rest = walked;
    let mut out: Vec<T> = Vec::new();
    while rest.len() > 0
        invariant
            rest@ == w.take(rest@.len() as int),
            rest@.len() <= w.len(),
            out@ == w.reverse().take(w.len() - rest@.len()),
        decreases rest@.len(),
    {
        let t = rest.pop().unwrap();
        proof {
            assert(w.reverse()[w.len() - rest@.len() - 1] == w[rest@.len() as int]);
        }
        out.push(t);
        assert(rest@ =~= w.take(rest@.len() as int));
        assert(out@ =~= w.reverse().take(w.len() - rest@.len()));
    }
    assert(out@ =~= w.reverse());
    out
}

/// The order in which the blocks loaded by a walk from the tip back to the
/// LIB (both included) are replayed on start: oldest first, without the
/// LIB, which is already applied.
pub fn replay_order<T>(walked: Vec<T>) -> (r: Vec<T>)
    ensures
        r@ == walked@.reverse().skip(if walked@.len() == 0 { 0int } else { 1int }),
{
    let ghost w = walked@;
    let mut rest = walked;
    let mut out: Vec<T> = Vec::new();
    while rest.len() > 0
        invariant
            rest@ == w.take(rest@.len() as int),
            rest@.len() <= w.len(),
            out@ == w.reverse().take(w.len() - rest@.len()),
        decreases rest@.len(),
    {
        let t = rest.pop().unwrap();
        proof {
            assert(w.reverse()[w.len() - rest@.len() - 1] == w[rest@.len() as int]);
        }
        out.push(t);
        assert(rest@ =~= w.take(rest@.len() as int));
        assert(out@ =~= w.reverse().take(w.len() - rest@.len()));
    }
    assert(out@ =~= w.reverse());
    if out.len() > 0 {
        out.remove(0);
        assert(out@ =~= w.reverse().skip(1));
    } else {
        assert(out@ =~= w.reverse().skip(0));
    }
    out
}

} // verus!
