use vstd::prelude::*;

use crate::header::{BlobId, Slot};

verus! {

/// How a block was obtained, which decides how its blobs are validated.
#[derive(Clone, Copy, Debug, PartialEq, Eq, Structural)]
pub enum BlockType {
    /// Block received through recent block propagation.
    Recent,
    /// Block retrieved manually (chain bootstrapping or orphan handling).
    Historic,
}

/// The blob validation strategy chosen for a block.
#[derive(Clone, Copy, Debug, PartialEq, Eq, Structural)]
pub enum BlobValidationKind {
    /// Checks that the DA sampling service sampled every blob of the block.
    Recent,
    /// Triggers historic sampling.
    Historic,
}

/// Blob validation errors.
#[derive(Clone, Copy, Debug, PartialEq, Eq, Structural)]
pub enum Error {
    InvalidBlobs,
    RelayError,
}

/// The number of slots behind the current one within which blobs are
/// validated: half the consensus base period, rounded down.
pub fn blob_validation_window_in_slots(consensus_base_period_length: u64) -> (w: Slot)
    requires
        consensus_base_period_length > 0,
    ensures
        w == consensus_base_period_length / 2,
{
    consensus_base_period_length / 2
}

/// Whether a block lies within the blob validation window: the current slot
/// is at most the window ahead of the block's slot (a block ahead of the
/// current slot is always within it).
pub fn should_validate_blobs(
    block_slot: Slot,
    current_slot: Slot,
    consensus_base_period_length: u64,
) -> (b: bool)
    requires
        consensus_base_period_length > 0,
    ensures
        b == ((if current_slot >= block_slot {
            current_slot - block_slot
        } else {
            0
        }) <= consensus_base_period_length / 2),
{
    current_slot.saturating_sub(block_slot) <= blob_validation_window_in_slots(
        consensus_base_period_length,
    )
}

/// Chooses the blob validation of a block: none outside the validation
/// window, else the one that matches how the block was obtained.
pub fn new_blob_validation(
    block_slot: Slot,
    block_type: BlockType,
    current_slot: Slot,
    consensus_base_period_length: u64,
) -> (r: Option<BlobValidationKind>)
    requires
        consensus_base_period_length > 0,
    ensures
        r is None <==> !((if current_slot >= block_slot {
            current_slot - block_slot
        } else {
            0
        }) <= consensus_base_period_length / 2),
        r matches Some(k) ==> (k == BlobValidationKind::Recent <==> block_type == BlockType::Recent),
{
    if !should_validate_blobs(block_slot, current_slot, consensus_base_period_length) {
        return None;
    }
    match block_type {
        BlockType::Recent => Some(BlobValidationKind::Recent),
        BlockType::Historic => Some(BlobValidationKind::Historic),
    }
}

/// Whether every blob of a block was sampled.
pub fn all_blobs_sampled(block_blobs: &Vec<BlobId>, sampled_blobs: &Vec<BlobId>) -> (b: bool)
    ensures
        b == (forall|i: int| 0 <= i < block_blobs@.len() ==> sampled_blobs@.contains(
            #[trigger] block_blobs@[i],
        )),
{
    let mut i: usize = 0;
    while i < block_blobs.len()
        invariant
            0 <= i <= block_blobs@.len(),
            forall|j: int| 0 <= j < i ==> sampled_blobs@.contains(#[trigger] block_blobs@[j]),
        decreases block_blobs@.len() - i,
    {
        if !crate::block_provider::contains_id(sampled_blobs, &block_blobs[i]) {
            return false;
        }
        i = i + 1;
    }
    true
}

/// The recent-blob validation: it succeeds if and only if every blob of the
/// block was sampled, and fails with `InvalidBlobs` otherwise.
pub fn validate_recent_blobs(block_blobs: &Vec<BlobId>, sampled_blobs: &Vec<BlobId>) -> (r: Result<
    (),
    Error,
>)
    ensures
        r is Ok <==> (forall|i: int| 0 <= i < block_blobs@.len() ==> sampled_blobs@.contains(
            #[trigger] block_blobs@[i],
        )),
        r is Err ==> r == Err::<(), Error>(Error::InvalidBlobs),
{
    if all_blobs_sampled(block_blobs, sampled_blobs) {
        Ok(())
    } else {
        Err(Error::InvalidBlobs)
    }
}

/// An operation of a block's transactions, as far as blob validation
/// reads it.
#[derive(Clone, Copy, Debug)]
pub enum BlockOp {
    /// A blob posted to a channel.
    ChannelBlob(BlobId),
    /// Any other operation.
    Other,
}

/// The blobs of the channel-blob operations, in order.
pub open spec fn channel_blobs_spec(ops: Seq<BlockOp>) -> Seq<BlobId>
    decreases ops.len(),
{
    if ops.len() == 0 {
        Seq::empty()
    } else {
        channel_blobs_spec(ops.drop_last()) + match ops.last() {
            BlockOp::ChannelBlob(b) => seq![b],
            BlockOp::Other => Seq::empty(),
        }
    }
}

/// The blobs that a block's operations post to channels, in order.
pub fn channel_blob_ids(ops: &Vec<BlockOp>) -> (r: Vec<BlobId>)
    ensures
        r@ == channel_blobs_spec(ops@),
        forall|b: BlobId|
            #![trigger r@.contains(b)]
            r@.contains(b) <==> exists|i: int|
                0 <= i < ops@.len() && ops@[i] == BlockOp::ChannelBlob(b),
        r@.len() == ops@.filter(|o: BlockOp| is_channel_blob(o)).len(),
{
    proof {
        lemma_channel_blobs_are_those_posted(ops@);
    }
    let mut r: Vec<BlobId> = Vec::new();
    let mut i: usize = 0;
    while i < ops.len()
        invariant
            0 <= i <= ops@.len(),
            r@ == channel_blobs_spec(ops@.take(i as int)),
        decreases ops@.len() - i,
    {
        match ops[i] {
            BlockOp::ChannelBlob(b) => r.push(b),
            BlockOp::Other => {},
        }
        assert(ops@.take(i + 1).drop_last() =~= ops@.take(i as int));
        assert(r@ =~= channel_blobs_spec(ops@.take(i + 1)));
        i = i + 1;
    }
    assert(ops@.take(i as int) =~= ops@);
    r
}

/// Validates the blobs of a block whose operations are `ops`. The recent
/// validation needs the blobs sampled by the sampling service (`None` if
/// they could not be obtained, a relay error) to include every blob the
/// block posts; the historic validation accepts every block.
pub fn validate_blobs(
    kind: BlobValidationKind,
    ops: &Vec<BlockOp>,
    sampled_blobs: Option<&Vec<BlobId>>,
) -> (r: Result<(), Error>)
    ensures
        kind == BlobValidationKind::Historic ==> r is Ok,
        kind == BlobValidationKind::Recent ==> match sampled_blobs {
            None => r == Err::<(), Error>(Error::RelayError),
            Some(s) => if forall|i: int|
                0 <= i < channel_blobs_spec(ops@).len() ==> s@.contains(
                    #[trigger] channel_blobs_spec(ops@)[i],
                ) {
                r is Ok
            } else {
                r == Err::<(), Error>(Error::InvalidBlobs)
            },
        },
        kind == BlobValidationKind::Recent ==> (sampled_blobs matches Some(s) ==> (r is Ok <==> (
        forall|i: int| 0 <= i < ops@.len() ==> (#[trigger] ops@[i] matches BlockOp::ChannelBlob(b) ==> s@.contains(b))))),
{
    proof {
        lemma_recent_validation_checks_every_posted_blob(ops@, sampled_blobs);
    }
    match kind {
        BlobValidationKind::Historic => Ok(()),
        BlobValidationKind::Recent => match sampled_blobs {
            None => Err(Error::RelayError),
            Some(s) => {
                let blobs = channel_blob_ids(ops);
                let r = validate_recent_blobs(&blobs, s);
                assert((forall|i: int|
                    0 <= i < blobs@.len() ==> s@.contains(#[trigger] blobs@[i])) == (forall|i: int|
                    0 <= i < channel_blobs_spec(ops@).len() ==> s@.contains(
                        #[trigger] channel_blobs_spec(ops@)[i],
                    )));
                r
            },
        },
    }
}


/// Whether an operation posts a blob to a channel.
pub open spec fn is_channel_blob(op: BlockOp) -> bool {
    op is ChannelBlob
}

/// The blobs collected from a block's operations are exactly those that its
/// channel-blob operations post: a blob is among them if and only if some
/// operation posts it, and there are as many of them as there are
/// channel-blob operations.
pub proof fn lemma_channel_blobs_are_those_posted(ops: Seq<BlockOp>)
    ensures
        forall|b: BlobId|
            #![trigger channel_blobs_spec(ops).contains(b)]
            channel_blobs_spec(ops).contains(b) <==> exists|i: int|
                0 <= i < ops.len() && ops[i] == BlockOp::ChannelBlob(b),
        channel_blobs_spec(ops).len() == ops.filter(|o: BlockOp| is_channel_blob(o)).len(),
    decreases ops.len(),
{
    reveal(Seq::filter);
    if ops.len() > 0 {
        let p = ops.drop_last();
        lemma_channel_blobs_are_those_posted(p);
        let head = channel_blobs_spec(p);
        let tail: Seq<BlobId> = match ops.last() {
            BlockOp::ChannelBlob(b) => seq![b],
            BlockOp::Other => Seq::empty(),
        };
        assert(channel_blobs_spec(ops) == head + tail);
        assert forall|b: BlobId| channel_blobs_spec(ops).contains(b) <==> exists|i: int|
            0 <= i < ops.len() && ops[i] == BlockOp::ChannelBlob(b) by {
            if channel_blobs_spec(ops).contains(b) {
                let k = choose|k: int|
                    0 <= k < channel_blobs_spec(ops).len() && channel_blobs_spec(ops)[k] == b;
                if k < head.len() {
                    assert(head[k] == b);
                    assert(head.contains(b));
                    let i = choose|i: int| 0 <= i < p.len() && p[i] == BlockOp::ChannelBlob(b);
                    assert(ops[i] == p[i]);
                } else {
                    assert(tail[k - head.len()] == b);
                    assert(ops[ops.len() - 1] == BlockOp::ChannelBlob(b));
                }
            }
            if exists|i: int| 0 <= i < ops.len() && ops[i] == BlockOp::ChannelBlob(b) {
                let i = choose|i: int| 0 <= i < ops.len() && ops[i] == BlockOp::ChannelBlob(b);
                if i < p.len() {
                    assert(p[i] == ops[i]);
                    assert(head.contains(b));
                    let k = choose|k: int| 0 <= k < head.len() && head[k] == b;
                    assert(channel_blobs_spec(ops)[k] == b);
                } else {
                    assert(ops.last() == BlockOp::ChannelBlob(b));
                    assert(channel_blobs_spec(ops)[head.len() as int] == b);
                }
            }
        }
    }
}


/// Every blob that a block's operations post is sampled exactly when every
/// blob collected from them is.
proof fn lemma_recent_validation_checks_every_posted_blob(
    ops: Seq<BlockOp>,
    sampled_blobs: Option<&Vec<BlobId>>,
)
    ensures
        sampled_blobs matches Some(s) ==> ((forall|i: int|
            0 <= i < channel_blobs_spec(ops).len() ==> s@.contains(
                #[trigger] channel_blobs_spec(ops)[i],
            )) <==> (forall|i: int| 0 <= i < ops.len() ==> (#[trigger] ops[i] matches BlockOp::ChannelBlob(b) ==> s@.contains(b)))),
{
    lemma_channel_blobs_are_those_posted(ops);
    if let Some(s) = sampled_blobs {
        let c = channel_blobs_spec(ops);
        if forall|i: int| 0 <= i < c.len() ==> s@.contains(#[trigger] c[i]) {
            assert forall|i: int| 0 <= i < ops.len() implies (#[trigger] ops[i] matches BlockOp::ChannelBlob(b) ==> s@.contains(b)) by {
                if let BlockOp::ChannelBlob(b) = ops[i] {
                    assert(c.contains(b));
                    let k = choose|k: int| 0 <= k < c.len() && c[k] == b;
                }
            }
        }
        if forall|i: int| 0 <= i < ops.len() ==> (#[trigger] ops[i] matches BlockOp::ChannelBlob(b) ==> s@.contains(b)) {
            assert forall|k: int| 0 <= k < c.len() implies s@.contains(#[trigger] c[k]) by {
                assert(c.contains(c[k]));
                let i = choose|i: int| 0 <= i < ops.len() && ops[i] == BlockOp::ChannelBlob(c[k]);
                assert(ops[i] matches BlockOp::ChannelBlob(b) ==> s@.contains(b));
            }
        }
    }
}

} // verus!
