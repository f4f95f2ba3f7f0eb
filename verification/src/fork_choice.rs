use vstd::prelude::*;

use crate::header::HeaderId;

verus! {

/// The fork choice rule the consensus engine runs under.
#[derive(Clone, Copy, Debug, PartialEq, Eq, Structural)]
pub enum State {
    Bootstrapping,
    Online,
}

impl State {
    /// Whether the engine is bootstrapping.
    pub fn is_bootstrapping(&self) -> (b: bool)
        ensures
            b == (*self == State::Bootstrapping),
    {
        match self {
            State::Bootstrapping => true,
            State::Online => false,
        }
    }

    /// Whether the engine is online.
    pub fn is_online(&self) -> (b: bool)
        ensures
            b == (*self == State::Online),
    {
        match self {
            State::Bootstrapping => false,
            State::Online => true,
        }
    }
}

/// Bootstrap configuration.
#[derive(Clone, Copy, Debug, PartialEq, Eq, Structural)]
pub struct BootstrapConfig {
    /// How long the node stays bootstrapping, in milliseconds.
    pub prolonged_bootstrap_period_ms: u64,
    /// Whether to bootstrap whatever the LIB is.
    pub force_bootstrap: bool,
}

/// Selects the fork choice rule of a node starting from `lib`: the
/// Bootstrapping rule if the LIB is the genesis block, the Online rule
/// otherwise.
pub fn select_fork_choice_rule(lib: HeaderId, genesis_id: HeaderId) -> (s: State)
    ensures
        s == (if lib == genesis_id {
            State::Bootstrapping
        } else {
            State::Online
        }),
{
    if lib == genesis_id {
        State::Bootstrapping
    } else {
        State::Online
    }
}

/// Selects the initial fork choice rule: Bootstrapping if the LIB is the
/// genesis block or if bootstrapping is forced, Online otherwise.
pub fn initial_state(lib: HeaderId, genesis_id: HeaderId, config: &BootstrapConfig) -> (s: State)
    ensures
        s == (if lib == genesis_id || config.force_bootstrap {
            State::Bootstrapping
        } else {
            State::Online
        }),
{
    if lib == genesis_id || config.force_bootstrap {
        State::Bootstrapping
    } else {
        State::Online
    }
}

/// The bootstrap period to wait for, in milliseconds, before switching to
/// Online: the configured one while bootstrapping, none once online.
pub fn prolonged_bootstrap_timer(state: State, config: &BootstrapConfig) -> (r: Option<u64>)
    ensures
        r == (if state == State::Bootstrapping {
            Some(config.prolonged_bootstrap_period_ms)
        } else {
            None::<u64>
        }),
{
    match state {
        State::Bootstrapping => Some(config.prolonged_bootstrap_period_ms),
        State::Online => None,
    }
}

} // verus!
