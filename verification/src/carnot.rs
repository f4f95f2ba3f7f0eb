use vstd::prelude::*;

verus! {

/// Settings of the Carnot consensus service.
#[derive(Clone, Copy, Debug)]
pub struct CarnotSettings {
    private_key: [u8; 32],
}

/// An approval of a block by a committee member.
#[derive(Clone, Copy, Debug, PartialEq, Eq, Structural)]
pub struct Approval;

/// The number of distinct approvals that must be exceeded before a node
/// forwards its own approval.
pub const APPROVAL_THRESHOLD: usize = 1;

/// Whether enough distinct approvals were collected to forward one's own.
pub fn approvals_reached(distinct_approvals: usize) -> (b: bool)
    ensures
        b == (distinct_approvals > APPROVAL_THRESHOLD),
{
    distinct_approvals > APPROVAL_THRESHOLD
}

} // verus!
