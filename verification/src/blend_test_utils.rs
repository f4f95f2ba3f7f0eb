use vstd::prelude::*;

use crate::header::Slot;

verus! {

/// A proofs generator for tests, whose proofs are fixed placeholders.
#[derive(Clone, Copy, Debug)]
pub struct MockCoreAndLeaderProofsGenerator;

/// A proofs verifier for tests that accepts every proof.
#[derive(Clone, Copy, Debug)]
pub struct MockProofsVerifier;

/// A proofs verifier for tests that accepts a set number of proofs of
/// selection, then refuses every further one.
#[derive(Clone, Copy, Debug)]
pub struct StaticFetchVerifier {
    remaining_valid_layers: u64,
}

impl StaticFetchVerifier {
    /// The number of proofs of selection still to be accepted.
    pub closed spec fn remaining(&self) -> nat {
        self.remaining_valid_layers as nat
    }

    /// A verifier that accepts no proof of selection.
    pub fn new() -> (v: StaticFetchVerifier)
        ensures
            v.remaining() == 0,
    {
        StaticFetchVerifier { remaining_valid_layers: 0 }
    }

    /// Sets how many proofs of selection are accepted from now on.
    pub fn set_remaining_valid_poq_proofs(&mut self, remaining_valid_proofs: u64)
        ensures
            final(self).remaining() == remaining_valid_proofs,
    {
        self.remaining_valid_layers = remaining_valid_proofs;
    }

    /// Accepts a proof of selection while some remain to be accepted (one
    /// fewer remains then), and refuses it otherwise.
    pub fn verify_proof_of_selection(&mut self) -> (r: Result<(), ()>)
        ensures
            r is Ok <==> old(self).remaining() > 0,
            final(self).remaining() == after_verification(old(self).remaining()),
    {
        if self.remaining_valid_layers > 0 {
            self.remaining_valid_layers = self.remaining_valid_layers - 1;
            Ok(())
        } else {
            Err(())
        }
    }
}

/// What one verification leaves of `remaining` accepted proofs.
pub open spec fn after_verification(remaining: nat) -> nat {
    if remaining > 0 {
        (remaining - 1) as nat
    } else {
        0
    }
}

/// What `k` verifications leave of `remaining` accepted proofs.
pub open spec fn after_verifications(remaining: nat, k: nat) -> nat
    decreases k,
{
    if k == 0 {
        remaining
    } else {
        after_verification(after_verifications(remaining, (k - 1) as nat))
    }
}

/// Once `n` proofs of selection are allowed, exactly the next `n`
/// verifications succeed: after `k` of them, `n - k` remain (none once all
/// are used), so the next one succeeds exactly when `k < n`.
pub proof fn lemma_static_fetch_budget(n: nat, k: nat)
    ensures
        after_verifications(n, k) == (if k <= n {
            (n - k) as nat
        } else {
            0
        }),
        (after_verifications(n, k) > 0) == (k < n),
    decreases k,
{
    if k > 0 {
        lemma_static_fetch_budget(n, (k - 1) as nat);
    }
}

/// A chain service for tests that knows the epoch state of every slot but
/// [`NON_EXISTING_EPOCH_STATE_SLOT`].
#[derive(Clone, Copy, Debug)]
pub struct TestChainService;

/// The slot for which the test chain service has no epoch state.
pub const NON_EXISTING_EPOCH_STATE_SLOT: Slot = 4;

impl TestChainService {
    /// Whether the test chain service answers an epoch state for `slot`.
    pub fn has_epoch_state_for_slot(&self, slot: Slot) -> (b: bool)
        ensures
            b == (slot != NON_EXISTING_EPOCH_STATE_SLOT),
    {
        slot != NON_EXISTING_EPOCH_STATE_SLOT
    }
}

} // verus!
