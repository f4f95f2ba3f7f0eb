use vstd::prelude::*;

use crate::header::HeaderId;
use crate::id_set::IdSet;

verus! {

/// What the storage answered to the removal of one block.
#[derive(Clone, Copy, Debug, PartialEq, Eq, Structural)]
pub enum RemovalOutcome {
    /// The block was removed.
    Removed,
    /// The block was not in the storage.
    NotFound,
    /// The removal failed.
    Failed,
}

/// The blocks whose removal failed, pairing each block with the outcome at
/// the same position.
pub open spec fn failed_set(ids: Seq<HeaderId>, outcomes: Seq<RemovalOutcome>) -> Set<HeaderId> {
    Set::new(
        |id: HeaderId|
            exists|i: int|
                0 <= i < ids.len() && i < outcomes.len() && #[trigger] ids[i] == id && outcomes[i]
                    == RemovalOutcome::Failed,
    )
}

/// The blocks among the first `n` of `ids` whose removal failed, one entry
/// per failure, in input order.
pub open spec fn failed_prefix(ids: Seq<HeaderId>, outcomes: Seq<RemovalOutcome>, n: nat) -> Seq<
    HeaderId,
>
    decreases n,
{
    if n == 0 {
        Seq::empty()
    } else {
        let prev = failed_prefix(ids, outcomes, (n - 1) as nat);
        if n - 1 < outcomes.len() && outcomes[n - 1] == RemovalOutcome::Failed {
            prev.push(ids[n - 1])
        } else {
            prev
        }
    }
}

/// The blocks of `ids` whose removal failed, one entry per failure, in
/// input order.
pub open spec fn failed_ids(ids: Seq<HeaderId>, outcomes: Seq<RemovalOutcome>) -> Seq<HeaderId> {
    failed_prefix(ids, outcomes, ids.len())
}

/// `s` without repetitions, each element at its first position.
pub open spec fn dedup(s: Seq<HeaderId>) -> Seq<HeaderId>
    decreases s.len(),
{
    if s.len() == 0 {
        Seq::empty()
    } else {
        let d = dedup(s.drop_last());
        if d.contains(s.last()) {
            d
        } else {
            d.push(s.last())
        }
    }
}

/// The result of a batch deletion: success if no removal failed, else the
/// blocks whose removal failed, one entry per failure, in input order (a
/// block that was not found is no failure).
pub fn deletion_failures(ids: &Vec<HeaderId>, outcomes: &Vec<RemovalOutcome>) -> (r: Result<
    (),
    Vec<HeaderId>,
>)
    ensures
        r is Ok <==> failed_ids(ids@, outcomes@).len() == 0,
        r matches Err(v) ==> v@ == failed_ids(ids@, outcomes@),
{
    let mut failures: Vec<HeaderId> = Vec::new();
    let mut i: usize = 0;
    while i < ids.len()
        invariant
            0 <= i <= ids@.len(),
            failures@ == failed_prefix(ids@, outcomes@, i as nat),
        decreases ids@.len() - i,
    {
        if i < outcomes.len() && outcomes[i] == RemovalOutcome::Failed {
            failures.push(ids[i]);
        }
        i = i + 1;
    }
    if failures.len() == 0 {
        Ok(())
    } else {
        Err(failures)
    }
}

/// Collects the blocks whose removal failed, so that their removal is
/// tried again later; they are kept in the order of their first failure.
pub fn collect_failed_removals(ids: &Vec<HeaderId>, outcomes: &Vec<RemovalOutcome>) -> (r: IdSet)
    ensures
        r.wf(),
        r@ == failed_set(ids@, outcomes@),
        r.order() == dedup(failed_ids(ids@, outcomes@)),
{
    let mut r = IdSet::new();
    assert(r.order() =~= dedup(failed_prefix(ids@, outcomes@, 0)));
    let mut i: usize = 0;
    while i < ids.len()
        invariant
            0 <= i <= ids@.len(),
            r.wf(),
            r@ == failed_set(ids@.take(i as int), outcomes@),
            r.order() == dedup(failed_prefix(ids@, outcomes@, i as nat)),
        decreases ids@.len() - i,
    {
        let ghost before = r.order();
        proof {
            r.lemma_order();
        }
        if i < outcomes.len() && outcomes[i] == RemovalOutcome::Failed {
            r.insert(ids[i]);
            proof {
                let p = failed_prefix(ids@, outcomes@, (i + 1) as nat);
                assert(p.drop_last() == failed_prefix(ids@, outcomes@, i as nat));
                assert(p.last() == ids@[i as int]);
                assert(before.to_set().contains(ids@[i as int]) == before.contains(ids@[i as int]));
            }
        }
        proof {
            let prev = ids@.take(i as int);
            let next = ids@.take(i + 1);
            assert forall|id: HeaderId| #[trigger] r@.contains(id) <==> failed_set(next, outcomes@).contains(id) by {
                if failed_set(prev, outcomes@).contains(id) {
                    let k = choose|k: int|
                        0 <= k < prev.len() && k < outcomes@.len() && #[trigger] prev[k] == id
                            && outcomes@[k] == RemovalOutcome::Failed;
                    assert(next[k] == id);
                }
                if failed_set(next, outcomes@).contains(id) {
                    let k = choose|k: int|
                        0 <= k < next.len() && k < outcomes@.len() && #[trigger] next[k] == id
                            && outcomes@[k] == RemovalOutcome::Failed;
                    if k < i {
                        assert(prev[k] == id);
                    }
                }
                if i < outcomes@.len() && outcomes@[i as int] == RemovalOutcome::Failed && id
                    == ids@[i as int] {
                    assert(next[i as int] == id);
                }
            }
            assert(r@ =~= failed_set(next, outcomes@));
        }
        i = i + 1;
    }
    proof {
        assert(ids@.take(i as int) =~= ids@);
    }
    r
}

/// The blocks to delete from the storage: the newly pruned ones, then those
/// whose removal failed before.
pub fn blocks_to_delete(pruned_blocks: &Vec<HeaderId>, failed_before: &IdSet) -> (r: Vec<HeaderId>)
    requires
        failed_before.wf(),
    ensures
        r@ == pruned_blocks@ + failed_before.order(),
{
    let mut r = pruned_blocks.clone();
    let previous = failed_before.to_vec();
    let ghost base = r@;
    let mut i: usize = 0;
    while i < previous.len()
        invariant
            0 <= i <= previous@.len(),
            r@ == base + previous@.take(i as int),
        decreases previous@.len() - i,
    {
        r.push(previous[i]);
        i = i + 1;
        assert(r@ =~= base + previous@.take(i as int));
    }
    assert(previous@.take(i as int) =~= previous@);
    r
}

/// The storage side of block pruning: the blocks whose removal failed, kept
/// to be removed again with the next batch.
pub struct StorageAdapter {
    failed_removals: IdSet,
}

impl StorageAdapter {
    /// The blocks whose last removal failed.
    pub closed spec fn failed(&self) -> Set<HeaderId> {
        self.failed_removals@
    }

    /// The blocks whose last removal failed, in the order in which they are
    /// removed again.
    pub closed spec fn failed_order(&self) -> Seq<HeaderId> {
        self.failed_removals.order()
    }

    /// The adapter's invariant.
    pub closed spec fn wf(&self) -> bool {
        self.failed_removals.wf()
    }

    /// The failed removals are listed once each.
    pub proof fn lemma_failed_order(&self)
        requires
            self.wf(),
        ensures
            self.failed_order().no_duplicates(),
            self.failed_order().to_set() == self.failed(),
    {
        self.failed_removals.lemma_order();
    }

    /// An adapter with no failed removal.
    pub fn new() -> (s: StorageAdapter)
        ensures
            s.wf(),
            s.failed() == Set::<HeaderId>::empty(),
            s.failed_order() == Seq::<HeaderId>::empty(),
    {
        StorageAdapter { failed_removals: IdSet::new() }
    }

    /// The batch that removing `blocks` asks the storage to remove: `blocks`,
    /// then the blocks whose removal failed before.
    pub fn removal_batch(&self, blocks: &Vec<HeaderId>) -> (v: Vec<HeaderId>)
        requires
            self.wf(),
        ensures
            v@ == blocks@ + self.failed_order(),
    {
        blocks_to_delete(blocks, &self.failed_removals)
    }

    /// Removes `blocks` together with the blocks whose removal failed
    /// before: `outcomes` are the storage's answers for that batch (see
    /// [`StorageAdapter::removal_batch`]), in its order. The failed removals
    /// become those of the batch whose removal failed (a block that was not
    /// found is no failure).
    pub fn remove_blocks_and_collect_failures(
        &mut self,
        blocks: &Vec<HeaderId>,
        outcomes: &Vec<RemovalOutcome>,
    )
        requires
            old(self).wf(),
        ensures
            final(self).wf(),
            final(self).failed() == failed_set(blocks@ + old(self).failed_order(), outcomes@),
            final(self).failed_order() == dedup(
                failed_ids(blocks@ + old(self).failed_order(), outcomes@),
            ),
    {
        let batch = blocks_to_delete(blocks, &self.failed_removals);
        self.failed_removals = collect_failed_removals(&batch, outcomes);
    }

    /// The blocks whose last removal failed.
    pub fn failed_removals(&self) -> (v: Vec<HeaderId>)
        requires
            self.wf(),
        ensures
            v@ == self.failed_order(),
            v@.no_duplicates(),
            v@.to_set() == self.failed(),
    {
        self.failed_removals.to_vec()
    }
}

} // verus!
