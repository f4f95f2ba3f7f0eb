use nomos_chain::branches::{Branch, Branches};
use nomos_chain::consensus::{
    count_pruned_states, cryptarchia_info, epoch_state_for_epoch, replay_order, EpochStateChoice,
    StorageWalk,
};
use nomos_chain::fork_choice::State;
use nomos_chain::header::{HeaderId, Id32};
use nomos_chain::id_set::IdSet;
use nomos_chain::storage::{
    blocks_to_delete, collect_failed_removals, deletion_failures, RemovalOutcome, StorageAdapter,
};

fn id(i: u8) -> HeaderId {
    Id32::repeat(i)
}

#[test]
fn failed_removals_are_kept_for_later() {
    let ids = vec![id(1), id(2), id(3)];
    let outcomes = vec![RemovalOutcome::Removed, RemovalOutcome::Failed, RemovalOutcome::NotFound];
    let failed = collect_failed_removals(&ids, &outcomes);
    assert_eq!(failed.to_vec(), vec![id(2)]);
    let mut adapter = StorageAdapter::new();
    assert!(adapter.failed_removals().is_empty());
    assert_eq!(adapter.removal_batch(&ids), ids);
    adapter.remove_blocks_and_collect_failures(&ids, &outcomes);
    assert_eq!(adapter.failed_removals(), vec![id(2)]);
    // The earlier failure is removed again with the next batch.
    let next = vec![id(4)];
    assert_eq!(adapter.removal_batch(&next), vec![id(4), id(2)]);
    adapter.remove_blocks_and_collect_failures(&next, &vec![RemovalOutcome::Failed, RemovalOutcome::Failed]);
    assert_eq!(adapter.failed_removals(), vec![id(4), id(2)]);
    adapter.remove_blocks_and_collect_failures(&vec![], &vec![RemovalOutcome::Removed, RemovalOutcome::Removed]);
    assert!(adapter.failed_removals().is_empty());
}

#[test]
fn failures_kept_in_input_order() {
    let ids = vec![id(3), id(1), id(3), id(2)];
    let outcomes = vec![
        RemovalOutcome::Failed,
        RemovalOutcome::Failed,
        RemovalOutcome::Failed,
        RemovalOutcome::NotFound,
    ];
    assert_eq!(deletion_failures(&ids, &outcomes), Err(vec![id(3), id(1), id(3)]));
    assert_eq!(collect_failed_removals(&ids, &outcomes).to_vec(), vec![id(3), id(1)]);
    assert_eq!(
        deletion_failures(&ids, &vec![RemovalOutcome::Removed, RemovalOutcome::NotFound]),
        Ok(())
    );
}

#[test]
fn pruned_blocks_deleted_with_earlier_failures() {
    let failed = IdSet::from_vec(&vec![id(7)]);
    assert_eq!(blocks_to_delete(&vec![id(1), id(2)], &failed), vec![id(1), id(2), id(7)]);
    assert_eq!(blocks_to_delete(&vec![], &IdSet::new()), Vec::<HeaderId>::new());
}

#[test]
fn id_set_behaves_as_a_set() {
    let mut set = IdSet::new();
    assert!(set.is_empty());
    set.insert(id(1));
    set.insert(id(1));
    set.insert(id(2));
    assert_eq!(set.len(), 2);
    assert!(set.contains(&id(1)));
    set.remove(&id(1));
    assert!(!set.contains(&id(1)));
    set.extend(&vec![id(3), id(2)]);
    assert_eq!(set.len(), 2);
    let popped = set.pop_any().unwrap();
    assert!(popped == id(2) || popped == id(3));
    assert_eq!(set.len(), 1);
    assert!(!set.contains(&popped));
}

#[test]
fn pruned_states_counted() {
    assert_eq!(count_pruned_states(&vec![true, false, true]), 2);
    assert_eq!(count_pruned_states(&vec![]), 0);
}

#[test]
fn epoch_state_choice() {
    assert_eq!(epoch_state_for_epoch(3, 4, 3), Some(EpochStateChoice::Current));
    assert_eq!(epoch_state_for_epoch(3, 4, 4), Some(EpochStateChoice::Next));
    assert_eq!(epoch_state_for_epoch(3, 4, 5), None);
}

#[test]
fn recovery_walk_and_replay_order() {
    // Stored chain: lib 0 <- 1 <- 2 <- 3 (tip).
    let parents = [(id(3), id(2)), (id(2), id(1)), (id(1), id(0)), (id(0), id(0))];
    let mut walk = StorageWalk::new(id(3), id(0));
    let mut walked = Vec::new();
    while let Some(next) = walk.next {
        let parent = parents.iter().find(|(b, _)| *b == next).unwrap().1;
        walked.push(next);
        walk.loaded(parent);
    }
    // Both ends of the range are loaded.
    assert_eq!(walked, vec![id(3), id(2), id(1), id(0)]);
    // Oldest first, without the LIB, which is already applied.
    assert_eq!(replay_order(walked), vec![id(1), id(2), id(3)]);
    assert_eq!(replay_order(Vec::<HeaderId>::new()), Vec::<HeaderId>::new());
    // A range of one block loads that block only.
    let mut single = StorageWalk::new(id(0), id(0));
    assert_eq!(single.next, Some(id(0)));
    single.loaded(id(0));
    assert!(single.next.is_none());
}

#[test]
fn chain_info_reports_the_tip_height() {
    let mut branches = Branches::new();
    branches.insert(Branch { id: id(0), parent: id(0), slot: 0, length: 0 }).unwrap();
    branches.insert(Branch { id: id(1), parent: id(0), slot: 3, length: 1 }).unwrap();
    branches.insert(Branch { id: id(2), parent: id(1), slot: 7, length: 2 }).unwrap();
    let info = cryptarchia_info(&branches, id(2), id(0), 7, State::Online);
    assert_eq!(info.tip, id(2));
    assert_eq!(info.lib, id(0));
    assert_eq!(info.slot, 7);
    assert_eq!(info.height, 2);
    assert_eq!(info.mode, State::Online);
}
