use nomos_chain::branches::{Branch, Branches};
use nomos_chain::fork_choice::{
    initial_state, prolonged_bootstrap_timer, select_fork_choice_rule, BootstrapConfig, State,
};
use nomos_chain::header::{HeaderId, Id32};

const K: u8 = 3;

fn genesis_id() -> HeaderId {
    Id32::from_bytes([0u8; 32])
}

fn config(force_bootstrap: bool) -> BootstrapConfig {
    BootstrapConfig { prolonged_bootstrap_period_ms: 1000, force_bootstrap }
}

/// An engine whose LIB is `lib`, followed by `blocks` blocks; the LIB it
/// reports stays `lib` while bootstrapping.
fn build_engine(lib: HeaderId, blocks: u8) -> (Branches, HeaderId) {
    let mut branches = Branches::new();
    branches.insert(Branch { id: lib, parent: lib, slot: 0, length: 0 }).unwrap();
    let mut parent = lib;
    for i in 1..=blocks {
        let id = Id32::from_bytes([i; 32]);
        branches
            .insert(Branch { id, parent, slot: u64::from(i), length: u64::from(i) })
            .unwrap();
        parent = id;
    }
    (branches, lib)
}

#[test]
fn initial_cryptarchia_with_genesis_lib() {
    let genesis_id = genesis_id();
    let state = initial_state(genesis_id, genesis_id, &config(false));
    assert!(matches!(state, State::Bootstrapping));
}

#[test]
fn initial_cryptarchia_with_non_genesis_lib() {
    let genesis_id = genesis_id();
    let state = initial_state(Id32::from_bytes([1u8; 32]), genesis_id, &config(false));
    assert!(matches!(state, State::Online));
}

#[test]
fn initial_cryptarchia_with_force_bootstrap() {
    let genesis_id = genesis_id();
    let state = initial_state(Id32::from_bytes([1u8; 32]), genesis_id, &config(true));
    assert!(matches!(state, State::Bootstrapping));
}

#[test]
fn lib_is_genesis() {
    let (_, lib) = build_engine(genesis_id(), 0);
    let state = select_fork_choice_rule(lib, genesis_id());
    assert!(matches!(state, State::Bootstrapping));
}

#[test]
fn more_blocks_but_lib_is_still_genesis() {
    let (branches, lib) = build_engine(genesis_id(), K);
    assert!(branches.contains(&Id32::from_bytes([K; 32])));
    let state = select_fork_choice_rule(lib, genesis_id());
    assert!(matches!(state, State::Bootstrapping));
}

#[test]
fn lib_is_not_genesis() {
    let (_, lib) = build_engine(Id32::from_bytes([100u8; 32]), 0);
    let state = select_fork_choice_rule(lib, genesis_id());
    assert!(matches!(state, State::Online));
}

#[test]
fn prolonged_bootstrap_only_while_bootstrapping() {
    assert_eq!(prolonged_bootstrap_timer(State::Bootstrapping, &config(false)), Some(1000));
    assert_eq!(prolonged_bootstrap_timer(State::Online, &config(false)), None);
}

#[test]
fn state_predicates() {
    assert!(State::Bootstrapping.is_bootstrapping());
    assert!(!State::Bootstrapping.is_online());
    assert!(State::Online.is_online());
    assert!(!State::Online.is_bootstrapping());
}
