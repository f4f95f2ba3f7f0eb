use vstd::prelude::*;

verus! {

/// A block height.
pub type Height = u64;

/// A session number.
pub type SessionNumber = u64;

/// Which blocks get their blobs validated.
#[derive(Clone, Copy, Debug, PartialEq, Eq, Structural)]
pub enum BlobValidationPolicy {
    /// No block.
    Skip,
    /// The blocks at this height or above.
    SkipOlderThan(Height),
}

/// Data-availability settings.
#[derive(Clone, Copy, Debug, PartialEq, Eq, Structural)]
pub struct Settings {
    /// The number of sessions for which DA nodes store blobs.
    pub availability_window_in_sessions: SessionNumber,
    /// The length of a session in blocks.
    pub session_length_in_blocks: Height,
}

impl Settings {
    /// The number of blocks for which blobs stay available.
    pub open spec fn window_spec(&self) -> int {
        self.availability_window_in_sessions * self.session_length_in_blocks
    }

    /// The number of blocks for which blobs stay available: the window in
    /// sessions times the session length. The settings must keep it within
    /// a `u64`.
    pub fn da_window_in_blocks(&self) -> (w: Height)
        requires
            self.window_spec() <= u64::MAX,
        ensures
            w == self.window_spec(),
    {
        self.availability_window_in_sessions * self.session_length_in_blocks
    }
}

impl BlobValidationPolicy {
    /// Validates the blobs of the blocks within the availability window
    /// below `max_known_height` (from height 0 if the window reaches below
    /// it).
    pub fn skip_old(settings: &Settings, max_known_height: Height) -> (p: BlobValidationPolicy)
        requires
            settings.window_spec() <= u64::MAX,
        ensures
            p == BlobValidationPolicy::SkipOlderThan(
                if max_known_height >= settings.window_spec() {
                    (max_known_height - settings.window_spec()) as Height
                } else {
                    0
                },
            ),
    {
        BlobValidationPolicy::SkipOlderThan(
            max_known_height.saturating_sub(settings.da_window_in_blocks()),
        )
    }

    /// Whether the blobs of a block at `height` are validated.
    pub fn should_validate(&self, height: Height) -> (b: bool)
        ensures
            b == (match *self {
                BlobValidationPolicy::Skip => false,
                BlobValidationPolicy::SkipOlderThan(min_height) => height >= min_height,
            }),
    {
        match self {
            BlobValidationPolicy::Skip => false,
            BlobValidationPolicy::SkipOlderThan(min_height) => height >= *min_height,
        }
    }
}

} // verus!
