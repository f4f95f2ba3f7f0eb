use vstd::prelude::*;

use crate::header::{HeaderId, Slot};

verus! {

/// The number of sync requests that are served at the same time.
pub const MAX_CONCURRENT_REQUESTS: usize = 1;

/// What a peer asks for when it syncs.
#[derive(Clone, Copy, Debug)]
pub enum SyncRequestKind {
    /// The blocks from this slot on.
    ForwardChain(Slot),
    /// The blocks from this block back towards genesis.
    BackwardChain(HeaderId),
    /// The tip.
    Tip,
}

/// How a sync request is served.
#[derive(Clone, Copy, Debug)]
pub enum SyncPlan {
    /// Too many requests are being served: this one is dropped.
    Refused,
    /// Stored blocks are sent, epoch after epoch, from this slot on.
    Forward(Slot),
    /// Stored blocks are sent from this block back, parent after parent.
    Backward(HeaderId),
    /// The request is not supported.
    Unsupported,
}

/// Counts the sync requests being served, to serve at most
/// [`MAX_CONCURRENT_REQUESTS`] at a time.
#[derive(Clone, Copy, Debug)]
pub struct SyncAdmission {
    pub in_progress: usize,
}

impl SyncAdmission {
    /// No more requests than allowed are being served.
    pub open spec fn wf(&self) -> bool {
        self.in_progress <= MAX_CONCURRENT_REQUESTS
    }

    /// No request is being served.
    pub fn new() -> (a: SyncAdmission)
        ensures
            a.wf(),
            a.in_progress == 0,
    {
        SyncAdmission { in_progress: 0 }
    }

    /// Decides how a request is served, counting it as served if it is.
    pub fn plan(&mut self, kind: SyncRequestKind) -> (p: SyncPlan)
        requires
            old(self).wf(),
        ensures
            final(self).wf(),
            old(self).in_progress >= MAX_CONCURRENT_REQUESTS ==> p is Refused && final(self).in_progress == old(self).in_progress,
            old(self).in_progress < MAX_CONCURRENT_REQUESTS ==> match kind {
                SyncRequestKind::ForwardChain(slot) => p == SyncPlan::Forward(slot) && final(self).in_progress == old(self).in_progress + 1,
                SyncRequestKind::BackwardChain(id) => p == SyncPlan::Backward(id) && final(self).in_progress == old(self).in_progress + 1,
                SyncRequestKind::Tip => p is Unsupported && final(self).in_progress == old(self).in_progress,
            },
    {
        if self.in_progress >= MAX_CONCURRENT_REQUESTS {
            return SyncPlan::Refused;
        }
        match kind {
            SyncRequestKind::ForwardChain(slot) => {
                self.in_progress = self.in_progress + 1;
                SyncPlan::Forward(slot)
            },
            SyncRequestKind::BackwardChain(id) => {
                self.in_progress = self.in_progress + 1;
                SyncPlan::Backward(id)
            },
            SyncRequestKind::Tip => SyncPlan::Unsupported,
        }
    }

    /// A request is served completely.
    pub fn finish(&mut self)
        requires
            old(self).wf(),
            old(self).in_progress > 0,
        ensures
            final(self).wf(),
            final(self).in_progress == old(self).in_progress - 1,
    {
        self.in_progress = self.in_progress - 1;
    }
}

/// Whether a stored block is sent to a peer that syncs forward from
/// `from_slot`: only from that slot on.
pub fn sends_forward(block_slot: Slot, from_slot: Slot) -> (b: bool)
    ensures
        b == (block_slot >= from_slot),
{
    block_slot >= from_slot
}

/// The block that a backward sync sends after a block with this parent:
/// the parent, unless it is the genesis parent (all zero bytes).
pub fn next_backward(parent: HeaderId) -> (r: Option<HeaderId>)
    ensures
        r == (if parent.is_zero() {
            None
        } else {
            Some(parent)
        }),
{
    if parent.is_zero_id() {
        None
    } else {
        Some(parent)
    }
}

/// The decimal digits of `n`, most significant first, as ASCII bytes.
pub open spec fn decimal_digits(n: nat) -> Seq<u8>
    decreases n,
{
    if n < 10 {
        seq![(48 + n) as u8]
    } else {
        decimal_digits(n / 10).push((48 + n % 10) as u8)
    }
}

/// The storage key prefix of the blocks of an epoch: `blocks_epoch_`
/// followed by the epoch number in decimal.
pub open spec fn epoch_prefix_spec(epoch: nat) -> Seq<u8> {
    seq![98u8, 108, 111, 99, 107, 115, 95, 101, 112, 111, 99, 104, 95] + decimal_digits(epoch)
}

fn push_decimal(n: u64, out: &mut Vec<u8>)
    ensures
        final(out)@ == old(out)@ + decimal_digits(n as nat),
    decreases n,
{
    if n >= 10 {
        push_decimal(n / 10, out);
    }
    let d: u8 = (n % 10) as u8;
    out.push(48 + d);
    proof {
        if n >= 10 {
            assert(decimal_digits(n as nat) == decimal_digits((n / 10) as nat).push(
                (48 + n % 10) as u8,
            ));
        }
    }
    assert(final(out)@ =~= old(out)@ + decimal_digits(n as nat)) by {
        assert(decimal_digits(n as nat).len() > 0);
    }
}

/// The storage key prefix under which the blocks of `epoch` are stored.
pub fn epoch_prefix(epoch: u64) -> (p: Vec<u8>)
    ensures
        p@ == epoch_prefix_spec(epoch as nat),
{
    let mut p: Vec<u8> = vec![98u8, 108, 111, 99, 107, 115, 95, 101, 112, 111, 99, 104, 95];
    push_decimal(epoch, &mut p);
    assert(p@ =~= epoch_prefix_spec(epoch as nat));
    p
}

} // verus!
