use vstd::prelude::*;

use crate::blob::all_blobs_sampled;
use crate::header::{BlobId, HeaderId};
use crate::service_loop::ProcessingOutcome;

verus! {

/// Why handing a block to the chain failed.
#[derive(Clone, Debug)]
pub enum Error {
    /// The ledger does not know the block's parent.
    LedgerParentNotFound(HeaderId),
    /// The consensus engine does not know the block's parent.
    EngineParentMissing(HeaderId),
    /// The ledger refused the block for another reason.
    Ledger,
    /// The consensus engine refused the block for another reason.
    Consensus,
    /// The block, or the ids of the blocks it made immutable, could not be
    /// stored.
    Storage(String),
}

/// What is done with a block before the chain sees it, given the blobs
/// that the sampling service reports as sampled.
#[derive(Clone, Copy, Debug, PartialEq, Eq, Structural)]
pub enum BlockAdmission {
    /// The sampled blobs could not be obtained: the block is dropped.
    SamplingUnavailable,
    /// Some blob of the block was not sampled: the block is dropped.
    InvalidBlobs,
    /// The block goes to the chain.
    Apply,
}

/// Whether a block goes to the chain: only if the sampled blobs are known
/// and include every blob of the block. A dropped block is no error: the
/// chain stays as it is.
pub fn admit_block(sampled_blobs: Option<&Vec<BlobId>>, block_blobs: &Vec<BlobId>) -> (a:
    BlockAdmission)
    ensures
        a == (match sampled_blobs {
            None => BlockAdmission::SamplingUnavailable,
            Some(s) => if forall|i: int|
                0 <= i < block_blobs@.len() ==> s@.contains(#[trigger] block_blobs@[i]) {
                BlockAdmission::Apply
            } else {
                BlockAdmission::InvalidBlobs
            },
        }),
{
    match sampled_blobs {
        None => BlockAdmission::SamplingUnavailable,
        Some(s) => {
            if all_blobs_sampled(block_blobs, s) {
                BlockAdmission::Apply
            } else {
                BlockAdmission::InvalidBlobs
            }
        },
    }
}

/// How the service loop reads the result of processing a block: a missing
/// parent, for the ledger or for the engine, makes the block an orphan;
/// any other error refuses it; success (a dropped block included) counts as
/// applied.
pub fn processing_outcome(result: &Result<(), Error>) -> (o: ProcessingOutcome)
    ensures
        o == (match result {
            Ok(()) => ProcessingOutcome::Applied,
            Err(Error::LedgerParentNotFound(_)) => ProcessingOutcome::ParentMissing,
            Err(Error::EngineParentMissing(_)) => ProcessingOutcome::ParentMissing,
            Err(_) => ProcessingOutcome::Rejected,
        }),
{
    match result {
        Ok(()) => ProcessingOutcome::Applied,
        Err(Error::LedgerParentNotFound(_)) => ProcessingOutcome::ParentMissing,
        Err(Error::EngineParentMissing(_)) => ProcessingOutcome::ParentMissing,
        Err(_) => ProcessingOutcome::Rejected,
    }
}

/// The parent that a failed block misses, if that is why it failed.
pub fn missing_parent(error: &Error) -> (r: Option<HeaderId>)
    ensures
        r == (match error {
            Error::LedgerParentNotFound(p) => Some(*p),
            Error::EngineParentMissing(p) => Some(*p),
            _ => None::<HeaderId>,
        }),
{
    match error {
        Error::LedgerParentNotFound(p) => Some(*p),
        Error::EngineParentMissing(p) => Some(*p),
        _ => None,
    }
}

/// What follows the processing of a block beyond the chain itself.
#[derive(Clone, Copy, Debug, PartialEq, Eq, Structural)]
pub struct ProcessingEffects {
    /// Mark the block's transactions and blobs as included, in the mempools
    /// and in the sampling service.
    pub mark_in_block: bool,
    /// Store the block and the ids of the blocks it made immutable.
    pub store: bool,
    /// Send the block to the services that follow new blocks.
    pub notify: bool,
    /// Delete the blocks it pruned from the storage.
    pub prune_storage: bool,
}

/// The effects of processing a block: all of them once the chain applied
/// it, none for a block that was dropped or that the chain refused.
pub open spec fn effects_of(admission: BlockAdmission, applied: bool) -> ProcessingEffects {
    let all = admission == BlockAdmission::Apply && applied;
    ProcessingEffects { mark_in_block: all, store: all, notify: all, prune_storage: all }
}

/// The effects of processing a block (see [`effects_of`]); `applied` tells
/// whether the chain applied an admitted block.
pub fn processing_effects(admission: BlockAdmission, applied: bool) -> (e: ProcessingEffects)
    ensures
        e == effects_of(admission, applied),
{
    let all = match admission {
        BlockAdmission::Apply => applied,
        _ => false,
    };
    ProcessingEffects { mark_in_block: all, store: all, notify: all, prune_storage: all }
}

/// A block that is dropped before the chain sees it (the sampled blobs are
/// unknown, or one of its blobs was not sampled), or that the chain
/// refuses, causes no marking, storing, notifying or pruning.
pub proof fn lemma_dropped_block_has_no_effect(
    sampled: Option<Seq<BlobId>>,
    blobs: Seq<BlobId>,
    applied: bool,
)
    requires
        sampled is None || (exists|i: int|
            0 <= i < blobs.len() && !sampled->0.contains(#[trigger] blobs[i])) || !applied,
    ensures
        ({
            let admission = match sampled {
                None => BlockAdmission::SamplingUnavailable,
                Some(s) => if forall|i: int|
                    0 <= i < blobs.len() ==> s.contains(#[trigger] blobs[i]) {
                    BlockAdmission::Apply
                } else {
                    BlockAdmission::InvalidBlobs
                },
            };
            let e = effects_of(admission, applied);
            !e.mark_in_block && !e.store && !e.notify && !e.prune_storage
        }),
{
}

} // verus!
