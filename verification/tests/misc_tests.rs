use nomos_chain::blend_test_utils::{StaticFetchVerifier, TestChainService, NON_EXISTING_EPOCH_STATE_SLOT};
use nomos_chain::branches::Branch;
use nomos_chain::broadcaster::{
    new as new_broadcaster, BlockBroadcaster, BlockInfo, BootstrappingBlockBroadcaster, Error,
    OnlineBlockBroadcaster,
};
use nomos_chain::carnot::{approvals_reached, APPROVAL_THRESHOLD};
use nomos_chain::fork_choice::State;
use nomos_chain::header::{HeaderId, Id32};
use nomos_chain::sync_requests::{
    epoch_prefix, next_backward, sends_forward, SyncAdmission, SyncPlan, SyncRequestKind,
    MAX_CONCURRENT_REQUESTS,
};

fn id(i: u8) -> HeaderId {
    Id32::repeat(i)
}

fn branch(i: u8, parent: u8, length: u64) -> Branch {
    Branch { id: id(i), parent: id(parent), slot: length, length }
}

#[test]
fn static_fetch_verifier_accepts_the_set_number() {
    let mut verifier = StaticFetchVerifier::new();
    assert!(verifier.verify_proof_of_selection().is_err());
    verifier.set_remaining_valid_poq_proofs(2);
    assert!(verifier.verify_proof_of_selection().is_ok());
    assert!(verifier.verify_proof_of_selection().is_ok());
    assert!(verifier.verify_proof_of_selection().is_err());
}

#[test]
fn test_chain_service_epoch_states() {
    let service = TestChainService;
    assert!(!service.has_epoch_state_for_slot(NON_EXISTING_EPOCH_STATE_SLOT));
    assert!(service.has_epoch_state_for_slot(NON_EXISTING_EPOCH_STATE_SLOT + 1));
}

#[test]
fn approvals_threshold() {
    assert_eq!(APPROVAL_THRESHOLD, 1);
    assert!(!approvals_reached(1));
    assert!(approvals_reached(2));
}

#[test]
fn online_block_broadcaster() {
    // LIB 10; after blocks 11 and 12 the LIB is 11 (security parameter 1).
    let broadcaster = OnlineBlockBroadcaster { prev_lib: id(10) };
    let result = broadcaster.broadcast(State::Online, branch(11, 10, 1));
    assert_eq!(result, Ok(Some(BlockInfo { height: 1, header_id: id(11) })));
}

#[test]
fn online_block_broadcaster_same_lib() {
    let broadcaster = OnlineBlockBroadcaster { prev_lib: id(10) };
    assert_eq!(broadcaster.broadcast(State::Online, branch(10, 10, 0)), Ok(None));
}

#[test]
fn online_block_broadcaster_with_bootstrapping_state() {
    let broadcaster = OnlineBlockBroadcaster { prev_lib: id(10) };
    assert_eq!(
        broadcaster.broadcast(State::Bootstrapping, branch(10, 10, 0)),
        Err(Error::UnexpectedCryptarchiaState(State::Bootstrapping))
    );
}

#[test]
fn bootstrapping_block_broadcaster() {
    // Security block moves from 10 to 11: the path from their common
    // ancestor is 10, 11.
    let broadcaster = BootstrappingBlockBroadcaster { prev_block_at_security_param: branch(10, 10, 0) };
    let result = broadcaster.broadcast(State::Bootstrapping, &vec![branch(10, 10, 0), branch(11, 10, 1)]);
    assert_eq!(result, Ok(vec![BlockInfo { height: 1, header_id: id(11) }]));
}

#[test]
fn bootstrapping_block_broadcaster_same_security_block() {
    let broadcaster = BootstrappingBlockBroadcaster { prev_block_at_security_param: branch(10, 10, 0) };
    assert_eq!(broadcaster.broadcast(State::Bootstrapping, &vec![branch(10, 10, 0)]), Ok(vec![]));
}

#[test]
fn bootstrapping_block_broadcaster_reorg() {
    // 10 - 11 - 12 - 13 with security block 12, then a longer fork
    // 11 - 14 - 15 - 16 with security block 15: the common ancestor is 11.
    let broadcaster = BootstrappingBlockBroadcaster { prev_block_at_security_param: branch(12, 11, 2) };
    let path = vec![branch(11, 10, 1), branch(14, 11, 2), branch(15, 14, 3)];
    assert_eq!(
        broadcaster.broadcast(State::Bootstrapping, &path),
        Ok(vec![
            BlockInfo { height: 2, header_id: id(14) },
            BlockInfo { height: 3, header_id: id(15) },
        ])
    );
}

#[test]
fn bootstrapping_block_broadcaster_with_online_state() {
    let broadcaster = BootstrappingBlockBroadcaster { prev_block_at_security_param: branch(10, 10, 0) };
    assert_eq!(
        broadcaster.broadcast(State::Online, &vec![]),
        Err(Error::UnexpectedCryptarchiaState(State::Online))
    );
}

#[test]
fn broadcaster_follows_the_engine_state() {
    assert!(matches!(
        new_broadcaster(State::Online, id(10), branch(10, 10, 0)),
        BlockBroadcaster::Online(OnlineBlockBroadcaster { prev_lib }) if prev_lib == id(10)
    ));
    assert!(matches!(
        new_broadcaster(State::Bootstrapping, id(10), branch(12, 11, 2)),
        BlockBroadcaster::Bootstrapping(b) if b.prev_block_at_security_param == branch(12, 11, 2)
    ));
}

#[test]
fn sync_requests_served_one_at_a_time() {
    assert_eq!(MAX_CONCURRENT_REQUESTS, 1);
    let mut admission = SyncAdmission::new();
    assert!(matches!(admission.plan(SyncRequestKind::Tip), SyncPlan::Unsupported));
    assert_eq!(admission.in_progress, 0);
    assert!(matches!(admission.plan(SyncRequestKind::ForwardChain(5)), SyncPlan::Forward(5)));
    assert!(matches!(admission.plan(SyncRequestKind::BackwardChain(id(1))), SyncPlan::Refused));
    admission.finish();
    assert!(matches!(
        admission.plan(SyncRequestKind::BackwardChain(id(1))),
        SyncPlan::Backward(b) if b == id(1)
    ));
}

#[test]
fn sync_request_details() {
    assert!(sends_forward(5, 5));
    assert!(sends_forward(6, 5));
    assert!(!sends_forward(4, 5));
    assert_eq!(next_backward(id(3)), Some(id(3)));
    assert_eq!(next_backward(Id32::from_bytes([0; 32])), None);
    assert_eq!(epoch_prefix(0), b"blocks_epoch_0".to_vec());
    assert_eq!(epoch_prefix(42), b"blocks_epoch_42".to_vec());
    assert_eq!(epoch_prefix(u64::MAX), format!("blocks_epoch_{}", u64::MAX).into_bytes());
}
