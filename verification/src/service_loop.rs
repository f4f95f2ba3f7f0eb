use vstd::prelude::*;

use crate::fork_choice::State;
use crate::header::{HeaderId, Slot};
use crate::orphan_handler::OrphanHandler;

verus! {

/// Which chain service runs the loop.
#[derive(Clone, Copy, Debug, PartialEq, Eq, Structural)]
pub enum ServiceRole {
    /// The consensus service: follows the chain, proposes blocks, serves
    /// chain sync and answers queries.
    Consensus,
    /// The leader service: follows the chain and proposes blocks.
    Leader,
    /// The network service: follows the chain from block proposals and
    /// forwards chain sync requests.
    Network,
}

/// What became of a block handed to the chain.
#[derive(Clone, Copy, Debug, PartialEq, Eq, Structural)]
pub enum ProcessingOutcome {
    /// The block was applied.
    Applied,
    /// The block's parent is not known (to the ledger or to the engine).
    ParentMissing,
    /// The block was refused for another reason.
    Rejected,
}

/// Where a block came from.
#[derive(Clone, Copy, Debug, PartialEq, Eq, Structural)]
pub enum BlockOrigin {
    /// Received from the network.
    Network,
    /// Downloaded as an ancestor of an orphan.
    OrphanDownload,
    /// Proposed by this node.
    OwnProposal,
}

/// What the service loop is woken by.
#[derive(Clone, Copy, Debug)]
pub enum LoopEvent {
    /// The prolonged bootstrap period has elapsed.
    ProlongedBootstrapElapsed,
    /// A block arrived; `already_known` tells whether the chain has it.
    BlockArrived { id: HeaderId, origin: BlockOrigin, already_known: bool },
    /// A block was handed to the chain, with this outcome.
    BlockProcessed { id: HeaderId, origin: BlockOrigin, outcome: ProcessingOutcome },
    /// A new slot began; `epoch_state_available` tells whether the chain
    /// knows the epoch state of that slot.
    SlotTick { slot: Slot, epoch_state_available: bool },
    /// The leadership proof for a slot was attempted; `won` tells whether
    /// the node leads that slot.
    ProofBuilt { slot: Slot, won: bool },
    /// A peer sent a chain sync request.
    ChainSyncRequest,
    /// A message for the service arrived.
    InboundMessage,
    /// The periodic state recording timer fired.
    StateRecordingTick,
}

/// What the service loop does in answer.
#[derive(Clone, Copy, Debug, PartialEq, Eq, Structural)]
pub enum LoopAction {
    /// Nothing.
    Nothing,
    /// Switch the chain to the Online fork choice rule (and, for the network
    /// service, report the service ready).
    SwitchToOnline,
    /// Hand the arrived block to the chain.
    ProcessBlock,
    /// Try to build a leadership proof for the slot.
    BuildProof(Slot),
    /// Propose a block for the slot, on top of the tip.
    ProposeBlock(Slot),
    /// Publish the own block that was just applied.
    PublishBlock,
    /// Answer the chain sync request from the chain.
    AnswerChainSync,
    /// Refuse the chain sync request.
    RejectChainSync,
    /// Forward the chain sync request to the consensus service.
    ForwardChainSync,
    /// Answer the message.
    AnswerMessage,
    /// Record the service state.
    RecordState,
}

/// What a loop event does to the orphan downloads.
#[derive(Clone, Copy, Debug)]
pub enum OrphanEffect {
    /// They stay as they are.
    Keep,
    /// The block is no orphan any more.
    Forget(HeaderId),
    /// The block is an orphan.
    Enqueue(HeaderId),
    /// The current download is dropped.
    CancelDownload,
}

/// The fork choice rule after an event.
pub open spec fn next_mode(role: ServiceRole, mode: State, event: LoopEvent) -> State {
    match event {
        LoopEvent::ProlongedBootstrapElapsed => if role != ServiceRole::Leader {
            State::Online
        } else {
            mode
        },
        _ => mode,
    }
}

/// The action that answers an event.
pub open spec fn loop_action(role: ServiceRole, mode: State, event: LoopEvent) -> LoopAction {
    match event {
        LoopEvent::ProlongedBootstrapElapsed => if role != ServiceRole::Leader && mode
            == State::Bootstrapping {
            LoopAction::SwitchToOnline
        } else {
            LoopAction::Nothing
        },
        LoopEvent::BlockArrived { id, origin, already_known } => match origin {
            BlockOrigin::OwnProposal => if role != ServiceRole::Network {
                LoopAction::ProcessBlock
            } else {
                LoopAction::Nothing
            },
            BlockOrigin::OrphanDownload => if role != ServiceRole::Leader && !already_known {
                LoopAction::ProcessBlock
            } else {
                LoopAction::Nothing
            },
            BlockOrigin::Network => if !already_known {
                LoopAction::ProcessBlock
            } else {
                LoopAction::Nothing
            },
        },
        LoopEvent::BlockProcessed { id, origin, outcome } => if origin == BlockOrigin::OwnProposal
            && outcome == ProcessingOutcome::Applied && role != ServiceRole::Network {
            LoopAction::PublishBlock
        } else {
            LoopAction::Nothing
        },
        LoopEvent::SlotTick { slot, epoch_state_available } => if role != ServiceRole::Network
            && epoch_state_available {
            LoopAction::BuildProof(slot)
        } else {
            LoopAction::Nothing
        },
        LoopEvent::ProofBuilt { slot, won } => if role != ServiceRole::Network && won {
            LoopAction::ProposeBlock(slot)
        } else {
            LoopAction::Nothing
        },
        LoopEvent::ChainSyncRequest => match role {
            ServiceRole::Consensus => if mode == State::Online {
                LoopAction::AnswerChainSync
            } else {
                LoopAction::RejectChainSync
            },
            ServiceRole::Network => LoopAction::ForwardChainSync,
            ServiceRole::Leader => LoopAction::Nothing,
        },
        LoopEvent::InboundMessage => if role == ServiceRole::Consensus {
            LoopAction::AnswerMessage
        } else {
            LoopAction::Nothing
        },
        LoopEvent::StateRecordingTick => if role == ServiceRole::Consensus {
            LoopAction::RecordState
        } else {
            LoopAction::Nothing
        },
    }
}

/// What an event does to the orphan downloads: a block from the network
/// that was applied is no orphan, one whose parent is missing is one, and a
/// downloaded ancestor that fails ends its download. The leader service
/// downloads no orphans.
pub open spec fn orphan_effect(role: ServiceRole, event: LoopEvent) -> OrphanEffect {
    match event {
        LoopEvent::BlockProcessed { id, origin, outcome } => if role == ServiceRole::Leader {
            OrphanEffect::Keep
        } else {
            match origin {
                BlockOrigin::Network => match outcome {
                    ProcessingOutcome::Applied => OrphanEffect::Forget(id),
                    ProcessingOutcome::ParentMissing => OrphanEffect::Enqueue(id),
                    ProcessingOutcome::Rejected => OrphanEffect::Keep,
                },
                BlockOrigin::OrphanDownload => if outcome == ProcessingOutcome::Applied {
                    OrphanEffect::Keep
                } else {
                    OrphanEffect::CancelDownload
                },
                BlockOrigin::OwnProposal => OrphanEffect::Keep,
            }
        },
        _ => OrphanEffect::Keep,
    }
}

/// Whether the orphan downloads `after` are those `before` changed by `effect`.
pub open spec fn orphans_after(
    before: OrphanHandler,
    effect: OrphanEffect,
    after: OrphanHandler,
) -> bool {
    &&& after.max_cache() == before.max_cache()
    &&& after.max_iterations() == before.max_iterations()
    &&& match effect {
        OrphanEffect::Keep => after.pending() == before.pending() && after.current()
            == before.current(),
        OrphanEffect::Forget(id) => {
            &&& after.pending() == before.pending().remove(id)
            &&& after.current() == (if before.current() matches Some(s) && s.orphan_id == id {
                None
            } else {
                before.current()
            })
        },
        OrphanEffect::Enqueue(id) => {
            &&& after.current() == before.current()
            &&& after.pending() == (if before.pending().len() >= before.max_cache() || (
            before.current() matches Some(s) && s.orphan_id == id) {
                before.pending()
            } else {
                before.pending().insert(id)
            })
        },
        OrphanEffect::CancelDownload => after.pending() == before.pending() && after.current() is None,
    }
}

/// The decisions of a chain service's main loop: its role, the fork choice
/// rule its chain runs under, and its orphan downloads. The loop itself
/// waits for events, performs the actions and reports their outcomes.
pub struct ChainLoop {
    role: ServiceRole,
    mode: State,
    orphans: OrphanHandler,
}

impl ChainLoop {
    /// The service running the loop.
    pub closed spec fn role(&self) -> ServiceRole {
        self.role
    }

    /// The fork choice rule of the service's chain.
    pub closed spec fn mode(&self) -> State {
        self.mode
    }

    /// The orphan downloads.
    pub closed spec fn orphans(&self) -> OrphanHandler {
        self.orphans
    }

    /// The loop's invariant: its orphan downloads are well formed.
    pub open spec fn wf(&self) -> bool {
        self.orphans().wf()
    }

    /// A loop for `role` whose chain starts under `mode`, with no orphan.
    pub fn new(role: ServiceRole, mode: State, max_orphan_cache_size: usize, security_param: u32) -> (l: ChainLoop)
        requires
            max_orphan_cache_size > 0,
            security_param > 0,
        ensures
            l.wf(),
            l.role() == role,
            l.mode() == mode,
            l.orphans().pending() == Set::<HeaderId>::empty(),
            l.orphans().current() is None,
            l.orphans().max_cache() == max_orphan_cache_size,
    {
        ChainLoop { role, mode, orphans: OrphanHandler::new(max_orphan_cache_size, security_param) }
    }

    /// Whether the service reports itself ready once its initial block
    /// download is done: the network service does so only if its chain is
    /// online (else when it switches to online); the others were ready before.
    pub fn ready_after_initial_download(&self) -> (b: bool)
        ensures
            b == (self.role() != ServiceRole::Network || self.mode() == State::Online),
    {
        match self.role {
            ServiceRole::Network => self.mode.is_online(),
            _ => true,
        }
    }

    /// Whether the loop waits for the prolonged bootstrap period: only while
    /// bootstrapping, and not in the leader service.
    pub fn awaits_bootstrap_end(&self) -> (b: bool)
        ensures
            b == (self.role() != ServiceRole::Leader && self.mode() == State::Bootstrapping),
    {
        self.role != ServiceRole::Leader && self.mode.is_bootstrapping()
    }

    /// Whether the loop waits for blocks of orphan downloads: only when
    /// there is orphan work, and not in the leader service.
    pub fn polls_orphan_downloads(&self) -> (b: bool)
        requires
            self.wf(),
        ensures
            b == (self.role() != ServiceRole::Leader && (self.orphans().pending() != Set::<
                HeaderId,
            >::empty() || self.orphans().current() is Some)),
    {
        self.role != ServiceRole::Leader && self.orphans.should_call()
    }

    /// The service running the loop.
    pub fn service_role(&self) -> (r: ServiceRole)
        ensures
            r == self.role(),
    {
        self.role
    }

    /// The fork choice rule of the service's chain.
    pub fn fork_choice(&self) -> (s: State)
        ensures
            s == self.mode(),
    {
        self.mode
    }

    /// The orphan downloads, for the loop to make the next request.
    pub fn orphan_downloads(&mut self) -> (h: &mut OrphanHandler)
        requires
            old(self).wf(),
        ensures
            *h == old(self).orphans(),
            final(self).orphans() == *final(h),
            final(self).role() == old(self).role(),
            final(self).mode() == old(self).mode(),
    {
        &mut self.orphans
    }

    /// Decides what the loop does about an event, and updates the fork
    /// choice rule and the orphan downloads accordingly.
    pub fn step(&mut self, event: LoopEvent) -> (a: LoopAction)
        requires
            old(self).wf(),
        ensures
            final(self).wf(),
            final(self).role() == old(self).role(),
            final(self).mode() == next_mode(old(self).role(), old(self).mode(), event),
            a == loop_action(old(self).role(), old(self).mode(), event),
            orphans_after(
                old(self).orphans(),
                orphan_effect(old(self).role(), event),
                final(self).orphans(),
            ),
    {
        let role = self.role;
        let mode = self.mode;
        match event {
            LoopEvent::ProlongedBootstrapElapsed => {
                if role == ServiceRole::Leader {
                    LoopAction::Nothing
                } else {
                    self.mode = State::Online;
                    if mode.is_bootstrapping() {
                        LoopAction::SwitchToOnline
                    } else {
                        LoopAction::Nothing
                    }
                }
            },
            LoopEvent::BlockArrived { id, origin, already_known } => match origin {
                BlockOrigin::OwnProposal => {
                    if role != ServiceRole::Network {
                        LoopAction::ProcessBlock
                    } else {
                        LoopAction::Nothing
                    }
                },
                BlockOrigin::OrphanDownload => {
                    if role != ServiceRole::Leader && !already_known {
                        LoopAction::ProcessBlock
                    } else {
                        LoopAction::Nothing
                    }
                },
                BlockOrigin::Network => {
                    if !already_known {
                        LoopAction::ProcessBlock
                    } else {
                        LoopAction::Nothing
                    }
                },
            },
            LoopEvent::BlockProcessed { id, origin, outcome } => {
                if role != ServiceRole::Leader {
                    match origin {
                        BlockOrigin::Network => match outcome {
                            ProcessingOutcome::Applied => self.orphans.remove_orphan_if_present(
                                &id,
                            ),
                            ProcessingOutcome::ParentMissing => self.orphans.add_orphan(id),
                            ProcessingOutcome::Rejected => {},
                        },
                        BlockOrigin::OrphanDownload => {
                            if outcome != ProcessingOutcome::Applied {
                                self.orphans.cancel_active_stream();
                            }
                        },
                        BlockOrigin::OwnProposal => {},
                    }
                }
                if origin == BlockOrigin::OwnProposal && outcome == ProcessingOutcome::Applied
                    && role != ServiceRole::Network {
                    LoopAction::PublishBlock
                } else {
                    LoopAction::Nothing
                }
            },
            LoopEvent::SlotTick { slot, epoch_state_available } => {
                if role != ServiceRole::Network && epoch_state_available {
                    LoopAction::BuildProof(slot)
                } else {
                    LoopAction::Nothing
                }
            },
            LoopEvent::ProofBuilt { slot, won } => {
                if role != ServiceRole::Network && won {
                    LoopAction::ProposeBlock(slot)
                } else {
                    LoopAction::Nothing
                }
            },
            LoopEvent::ChainSyncRequest => match role {
                ServiceRole::Consensus => {
                    if mode.is_online() {
                        LoopAction::AnswerChainSync
                    } else {
                        LoopAction::RejectChainSync
                    }
                },
                ServiceRole::Network => LoopAction::ForwardChainSync,
                ServiceRole::Leader => LoopAction::Nothing,
            },
            LoopEvent::InboundMessage => {
                if role == ServiceRole::Consensus {
                    LoopAction::AnswerMessage
                } else {
                    LoopAction::Nothing
                }
            },
            LoopEvent::StateRecordingTick => {
                if role == ServiceRole::Consensus {
                    LoopAction::RecordState
                } else {
                    LoopAction::Nothing
                }
            },
        }
    }
}

/// Once online, a chain never goes back to bootstrapping, whatever the
/// service and the event.
pub proof fn lemma_online_is_final(role: ServiceRole, event: LoopEvent)
    ensures
        next_mode(role, State::Online, event) == State::Online,
        loop_action(role, State::Online, event) != LoopAction::SwitchToOnline,
{
}

/// The switch to online happens exactly once the prolonged bootstrap period
/// of a bootstrapping chain has elapsed (in the services that bootstrap).
pub proof fn lemma_switch_to_online(role: ServiceRole, mode: State, event: LoopEvent)
    ensures
        (loop_action(role, mode, event) == LoopAction::SwitchToOnline) == (
        event is ProlongedBootstrapElapsed && role != ServiceRole::Leader && mode
            == State::Bootstrapping),
{
}

/// A block that the chain already has, and that is not the node's own
/// proposal, is never handed to the chain again.
pub proof fn lemma_known_block_ignored(
    role: ServiceRole,
    mode: State,
    id: HeaderId,
    origin: BlockOrigin,
)
    requires
        origin != BlockOrigin::OwnProposal,
    ensures
        loop_action(
            role,
            mode,
            LoopEvent::BlockArrived { id, origin, already_known: true },
        ) == LoopAction::Nothing,
{
}

/// Only an own block that the chain applied is published.
pub proof fn lemma_only_applied_own_blocks_published(
    role: ServiceRole,
    mode: State,
    event: LoopEvent,
)
    requires
        loop_action(role, mode, event) == LoopAction::PublishBlock,
    ensures
        event matches LoopEvent::BlockProcessed { origin, outcome, .. } && origin
            == BlockOrigin::OwnProposal && outcome == ProcessingOutcome::Applied,
{
}

/// The consensus service answers a chain sync request when online and
/// refuses it while bootstrapping: every request gets a reply.
pub proof fn lemma_chain_sync_always_replied(mode: State)
    ensures
        loop_action(ServiceRole::Consensus, mode, LoopEvent::ChainSyncRequest) == (if mode
            == State::Online {
            LoopAction::AnswerChainSync
        } else {
            LoopAction::RejectChainSync
        }),
{
}

/// A block of the network whose parent is missing becomes an orphan to
/// download, unless the cache is full or it is being downloaded already;
/// once applied, it is no orphan any more.
pub proof fn lemma_orphans_follow_network_blocks(
    before: OrphanHandler,
    after_missing: OrphanHandler,
    after_applied: OrphanHandler,
    role: ServiceRole,
    id: HeaderId,
)
    requires
        role != ServiceRole::Leader,
        before.wf(),
        orphans_after(
            before,
            orphan_effect(
                role,
                LoopEvent::BlockProcessed {
                    id,
                    origin: BlockOrigin::Network,
                    outcome: ProcessingOutcome::ParentMissing,
                },
            ),
            after_missing,
        ),
        orphans_after(
            after_missing,
            orphan_effect(
                role,
                LoopEvent::BlockProcessed {
                    id,
                    origin: BlockOrigin::Network,
                    outcome: ProcessingOutcome::Applied,
                },
            ),
            after_applied,
        ),
    ensures
        before.pending().len() < before.max_cache() && !(before.current() matches Some(s)
            && s.orphan_id == id) ==> after_missing.pending().contains(id),
        !after_applied.pending().contains(id),
        !(after_applied.current() matches Some(s) && s.orphan_id == id),
{
}

/// Within one slot tick of a proposing service, the tick leads to a proof
/// attempt only when the slot's epoch state is known, the proof to a
/// proposal only when the slot is won, the proposed block to the chain, and
/// the block to publication only when the chain applied it; none of these
/// steps changes the fork choice rule. So a block is published in a tick
/// exactly when all of them succeed.
pub proof fn lemma_slot_tick_chain(
    role: ServiceRole,
    mode: State,
    slot: Slot,
    epoch_state_available: bool,
    won: bool,
    id: HeaderId,
    outcome: ProcessingOutcome,
)
    requires
        role != ServiceRole::Network,
    ensures
        (loop_action(role, mode, LoopEvent::SlotTick { slot, epoch_state_available })
            == LoopAction::BuildProof(slot)) == epoch_state_available,
        (loop_action(role, mode, LoopEvent::ProofBuilt { slot, won }) == LoopAction::ProposeBlock(
            slot,
        )) == won,
        loop_action(
            role,
            mode,
            LoopEvent::BlockArrived { id, origin: BlockOrigin::OwnProposal, already_known: false },
        ) == LoopAction::ProcessBlock,
        (loop_action(
            role,
            mode,
            LoopEvent::BlockProcessed { id, origin: BlockOrigin::OwnProposal, outcome },
        ) == LoopAction::PublishBlock) == (outcome == ProcessingOutcome::Applied),
        next_mode(role, mode, LoopEvent::SlotTick { slot, epoch_state_available }) == mode,
        next_mode(role, mode, LoopEvent::ProofBuilt { slot, won }) == mode,
        next_mode(
            role,
            mode,
            LoopEvent::BlockProcessed { id, origin: BlockOrigin::OwnProposal, outcome },
        ) == mode,
{
}


/// Every service follows the network: a block arriving from the network is
/// handed to the chain, whatever the service and its fork choice rule,
/// exactly when the chain does not have it yet.
pub proof fn lemma_network_blocks_followed(
    role: ServiceRole,
    mode: State,
    id: HeaderId,
    already_known: bool,
)
    ensures
        (loop_action(
            role,
            mode,
            LoopEvent::BlockArrived { id, origin: BlockOrigin::Network, already_known },
        ) == LoopAction::ProcessBlock) == !already_known,
        already_known ==> loop_action(
            role,
            mode,
            LoopEvent::BlockArrived { id, origin: BlockOrigin::Network, already_known },
        ) == LoopAction::Nothing,
        next_mode(
            role,
            mode,
            LoopEvent::BlockArrived { id, origin: BlockOrigin::Network, already_known },
        ) == mode,
{
}

/// In the services that download orphans, an ancestor from an orphan
/// download that the chain did not apply (its parent is missing, or it was
/// refused) ends the current download and keeps the orphans still to be
/// downloaded; one that the chain applied leaves the downloads as they are.
pub proof fn lemma_failed_ancestor_cancels_download(
    before: OrphanHandler,
    after: OrphanHandler,
    role: ServiceRole,
    id: HeaderId,
    outcome: ProcessingOutcome,
)
    requires
        role != ServiceRole::Leader,
        orphans_after(
            before,
            orphan_effect(
                role,
                LoopEvent::BlockProcessed { id, origin: BlockOrigin::OrphanDownload, outcome },
            ),
            after,
        ),
    ensures
        outcome != ProcessingOutcome::Applied ==> after.current() is None && after.pending()
            == before.pending(),
        outcome == ProcessingOutcome::Applied ==> after.current() == before.current()
            && after.pending() == before.pending(),
        after.max_cache() == before.max_cache(),
{
}

} // verus!
