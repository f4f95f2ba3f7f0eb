use nomos_chain::fork_choice::State;
use nomos_chain::header::Id32;
use nomos_chain::service_loop::{
    BlockOrigin, ChainLoop, LoopAction, LoopEvent, ProcessingOutcome, ServiceRole,
};

fn consensus_loop(mode: State) -> ChainLoop {
    ChainLoop::new(ServiceRole::Consensus, mode, 5, 100)
}

#[test]
fn prolonged_bootstrap_switches_to_online_once() {
    let mut l = consensus_loop(State::Bootstrapping);
    assert!(l.awaits_bootstrap_end());
    assert_eq!(l.step(LoopEvent::ProlongedBootstrapElapsed), LoopAction::SwitchToOnline);
    assert_eq!(l.fork_choice(), State::Online);
    assert!(!l.awaits_bootstrap_end());
    assert_eq!(l.step(LoopEvent::ProlongedBootstrapElapsed), LoopAction::Nothing);
    assert_eq!(l.fork_choice(), State::Online);
}

#[test]
fn leader_never_switches() {
    let mut l = ChainLoop::new(ServiceRole::Leader, State::Bootstrapping, 5, 100);
    assert!(!l.awaits_bootstrap_end());
    assert_eq!(l.step(LoopEvent::ProlongedBootstrapElapsed), LoopAction::Nothing);
    assert_eq!(l.fork_choice(), State::Bootstrapping);
    assert_eq!(l.service_role(), ServiceRole::Leader);
}

#[test]
fn known_blocks_are_ignored() {
    let mut l = consensus_loop(State::Online);
    let id = Id32::repeat(1);
    let known = LoopEvent::BlockArrived { id, origin: BlockOrigin::Network, already_known: true };
    let fresh = LoopEvent::BlockArrived { id, origin: BlockOrigin::Network, already_known: false };
    assert_eq!(l.step(known), LoopAction::Nothing);
    assert_eq!(l.step(fresh), LoopAction::ProcessBlock);
    let own = LoopEvent::BlockArrived { id, origin: BlockOrigin::OwnProposal, already_known: true };
    assert_eq!(l.step(own), LoopAction::ProcessBlock);
}

#[test]
fn orphans_follow_network_blocks() {
    let mut l = consensus_loop(State::Online);
    let id = Id32::repeat(1);
    assert!(!l.polls_orphan_downloads());
    l.step(LoopEvent::BlockProcessed {
        id,
        origin: BlockOrigin::Network,
        outcome: ProcessingOutcome::ParentMissing,
    });
    assert!(l.polls_orphan_downloads());
    assert_eq!(l.orphan_downloads().pending_orphans(), vec![id]);
    l.step(LoopEvent::BlockProcessed { id, origin: BlockOrigin::Network, outcome: ProcessingOutcome::Applied });
    assert!(!l.polls_orphan_downloads());
    // A refused block changes nothing.
    l.step(LoopEvent::BlockProcessed { id, origin: BlockOrigin::Network, outcome: ProcessingOutcome::Rejected });
    assert!(!l.polls_orphan_downloads());
}

#[test]
fn failed_orphan_block_cancels_its_download() {
    let mut l = consensus_loop(State::Online);
    let orphan = Id32::repeat(3);
    l.step(LoopEvent::BlockProcessed {
        id: orphan,
        origin: BlockOrigin::Network,
        outcome: ProcessingOutcome::ParentMissing,
    });
    let request = l.orphan_downloads().next_orphan_request().unwrap();
    l.orphan_downloads().on_request_result(request, true);
    assert!(l.orphan_downloads().current_orphan().is_some());
    let ancestor = Id32::repeat(2);
    assert_eq!(
        l.step(LoopEvent::BlockArrived { id: ancestor, origin: BlockOrigin::OrphanDownload, already_known: false }),
        LoopAction::ProcessBlock
    );
    l.step(LoopEvent::BlockProcessed {
        id: ancestor,
        origin: BlockOrigin::OrphanDownload,
        outcome: ProcessingOutcome::Rejected,
    });
    assert!(l.orphan_downloads().current_orphan().is_none());
}

#[test]
fn leader_keeps_no_orphans() {
    let mut l = ChainLoop::new(ServiceRole::Leader, State::Online, 5, 100);
    let id = Id32::repeat(1);
    l.step(LoopEvent::BlockProcessed { id, origin: BlockOrigin::Network, outcome: ProcessingOutcome::ParentMissing });
    assert!(!l.polls_orphan_downloads());
    assert!(l.orphan_downloads().pending_orphans().is_empty());
}

#[test]
fn slot_tick_leads_to_a_published_block() {
    let mut l = consensus_loop(State::Online);
    assert_eq!(l.step(LoopEvent::SlotTick { slot: 7, epoch_state_available: false }), LoopAction::Nothing);
    assert_eq!(l.step(LoopEvent::SlotTick { slot: 7, epoch_state_available: true }), LoopAction::BuildProof(7));
    assert_eq!(l.step(LoopEvent::ProofBuilt { slot: 7, won: false }), LoopAction::Nothing);
    assert_eq!(l.step(LoopEvent::ProofBuilt { slot: 7, won: true }), LoopAction::ProposeBlock(7));
    let id = Id32::repeat(5);
    assert_eq!(
        l.step(LoopEvent::BlockProcessed { id, origin: BlockOrigin::OwnProposal, outcome: ProcessingOutcome::Applied }),
        LoopAction::PublishBlock
    );
    assert_eq!(
        l.step(LoopEvent::BlockProcessed { id, origin: BlockOrigin::OwnProposal, outcome: ProcessingOutcome::Rejected }),
        LoopAction::Nothing
    );
}

#[test]
fn chain_sync_answered_by_role_and_mode() {
    let mut boot = consensus_loop(State::Bootstrapping);
    assert_eq!(boot.step(LoopEvent::ChainSyncRequest), LoopAction::RejectChainSync);
    let mut online = consensus_loop(State::Online);
    assert_eq!(online.step(LoopEvent::ChainSyncRequest), LoopAction::AnswerChainSync);
    let mut network = ChainLoop::new(ServiceRole::Network, State::Bootstrapping, 5, 100);
    assert_eq!(network.step(LoopEvent::ChainSyncRequest), LoopAction::ForwardChainSync);
    let mut leader = ChainLoop::new(ServiceRole::Leader, State::Online, 5, 100);
    assert_eq!(leader.step(LoopEvent::ChainSyncRequest), LoopAction::Nothing);
}

#[test]
fn messages_and_state_recording() {
    let mut consensus = consensus_loop(State::Online);
    assert_eq!(consensus.step(LoopEvent::InboundMessage), LoopAction::AnswerMessage);
    assert_eq!(consensus.step(LoopEvent::StateRecordingTick), LoopAction::RecordState);
    let mut leader = ChainLoop::new(ServiceRole::Leader, State::Online, 5, 100);
    assert_eq!(leader.step(LoopEvent::InboundMessage), LoopAction::Nothing);
    assert_eq!(leader.step(LoopEvent::StateRecordingTick), LoopAction::Nothing);
}

#[test]
fn network_service_ready_when_online() {
    let boot = ChainLoop::new(ServiceRole::Network, State::Bootstrapping, 5, 100);
    assert!(!boot.ready_after_initial_download());
    let online = ChainLoop::new(ServiceRole::Network, State::Online, 5, 100);
    assert!(online.ready_after_initial_download());
    let consensus = consensus_loop(State::Bootstrapping);
    assert!(consensus.ready_after_initial_download());
    let mut network = boot;
    assert_eq!(network.step(LoopEvent::ProlongedBootstrapElapsed), LoopAction::SwitchToOnline);
    assert!(network.ready_after_initial_download());
}
