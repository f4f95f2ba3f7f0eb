use vstd::prelude::*;

use crate::header::Slot;

verus! {

/// An epoch number.
pub type Epoch = u32;

/// What to do with an epoch that a slot tick falls in.
#[derive(Clone, Copy, Debug, PartialEq, Eq, Structural)]
pub enum EpochDecision {
    /// The epoch was already processed.
    Skip,
    /// The epoch is older than the last processed one, which is invalid.
    Reject,
    /// The epoch is new: its winning slots are to be computed.
    Process,
}

/// Remembers the last epoch whose winning slots were pre-computed, and the
/// first winning slot then found, so that consumers are notified once per
/// epoch and once per winning slot.
#[derive(Clone, Copy, Debug)]
pub struct WinningPoLSlotNotifier {
    pub last_processed_epoch_and_found_first_winning_slot: Option<(Epoch, Option<Slot>)>,
}

/// The decision for `epoch` given the last processed epoch.
pub open spec fn epoch_decision_spec(last: Option<(Epoch, Option<Slot>)>, epoch: Epoch) -> EpochDecision {
    match last {
        Some((last_epoch, _)) => if last_epoch == epoch {
            EpochDecision::Skip
        } else if last_epoch > epoch {
            EpochDecision::Reject
        } else {
            EpochDecision::Process
        },
        None => EpochDecision::Process,
    }
}

impl WinningPoLSlotNotifier {
    /// A notifier that has processed no epoch.
    pub fn new() -> (n: WinningPoLSlotNotifier)
        ensures
            n.last_processed_epoch_and_found_first_winning_slot is None,
    {
        WinningPoLSlotNotifier { last_processed_epoch_and_found_first_winning_slot: None }
    }

    /// Whether the winning slots of `epoch` are to be computed: not for the
    /// epoch already processed, nor for an older one.
    pub fn process_epoch_decision(&self, epoch: Epoch) -> (d: EpochDecision)
        ensures
            d == epoch_decision_spec(self.last_processed_epoch_and_found_first_winning_slot, epoch),
    {
        match self.last_processed_epoch_and_found_first_winning_slot {
            Some((last_epoch, _)) => {
                if last_epoch == epoch {
                    EpochDecision::Skip
                } else if last_epoch > epoch {
                    EpochDecision::Reject
                } else {
                    EpochDecision::Process
                }
            },
            None => EpochDecision::Process,
        }
    }

    /// Records that `epoch` was processed, with the first winning slot that
    /// was found and notified, if any.
    pub fn record_epoch(&mut self, epoch: Epoch, first_winning_slot: Option<Slot>)
        ensures
            final(self).last_processed_epoch_and_found_first_winning_slot == Some(
                (epoch, first_winning_slot),
            ),
    {
        self.last_processed_epoch_and_found_first_winning_slot = Some((epoch, first_winning_slot));
    }

    /// Whether to notify consumers about winning `slot`: not if it is the
    /// first winning slot already notified when its epoch was processed.
    pub fn should_notify(&self, slot: Slot) -> (b: bool)
        ensures
            b == !(self.last_processed_epoch_and_found_first_winning_slot matches Some(
                (_, Some(first)),
            ) && first == slot),
    {
        match self.last_processed_epoch_and_found_first_winning_slot {
            Some((_, Some(first))) => first != slot,
            _ => true,
        }
    }
}

/// What the pre-computation of an epoch's winning slots does next.
#[derive(Clone, Copy, Debug, PartialEq, Eq, Structural)]
pub enum ScanAction {
    /// Check whether the utxo at this position wins `slot`.
    CheckWinning { utxo: usize, slot: Slot },
    /// Notify consumers that the utxo at this position wins `slot`.
    Notify { utxo: usize, slot: Slot },
    /// The next slot to check does not fit in a slot number.
    SlotOverflow,
    /// Every utxo is checked; the first winning slot to record, if any.
    Done(Option<Slot>),
}

/// The pre-computation of the winning slots of an epoch: the utxos are
/// checked in order against the slots of the epoch in order, and the scan
/// stops as soon as a winning slot has been notified; that slot becomes the
/// epoch's first winning slot. A winning slot whose notification fails is
/// passed over.
#[derive(Clone, Copy, Debug)]
pub struct EpochScan {
    pub epoch_starting_slot: Slot,
    pub slots_per_epoch: u64,
    pub utxo_count: usize,
    /// The utxo being checked.
    pub utxo: usize,
    /// The offset, in the epoch, of the slot being checked.
    pub offset: u64,
    /// Whether the utxo wins that slot, and is to be notified about.
    pub won: bool,
    /// The first winning slot found so far.
    pub first_winning_slot: Option<Slot>,
}

/// The position after the check of `offset` for utxo `utxo`: the next slot,
/// or the first slot for the next utxo.
pub open spec fn scan_advance(s: EpochScan) -> EpochScan {
    if s.offset + 1 >= s.slots_per_epoch {
        EpochScan { utxo: (s.utxo + 1) as usize, offset: 0, won: false, ..s }
    } else {
        EpochScan { offset: (s.offset + 1) as u64, won: false, ..s }
    }
}

/// The action that the state of a scan calls for.
pub open spec fn scan_action(s: EpochScan) -> ScanAction {
    if s.won {
        ScanAction::Notify { utxo: s.utxo, slot: (s.epoch_starting_slot + s.offset) as u64 }
    } else if s.utxo >= s.utxo_count {
        ScanAction::Done(s.first_winning_slot)
    } else if s.epoch_starting_slot + s.offset > u64::MAX {
        ScanAction::SlotOverflow
    } else {
        ScanAction::CheckWinning { utxo: s.utxo, slot: (s.epoch_starting_slot + s.offset) as u64 }
    }
}

impl EpochScan {
    /// The scan's invariant: it points at a utxo and a slot of the epoch,
    /// or past the last utxo; a winning slot was checked, so it fits.
    pub open spec fn wf(&self) -> bool {
        &&& self.utxo <= self.utxo_count
        &&& self.utxo < self.utxo_count ==> self.offset < self.slots_per_epoch
        &&& self.won ==> self.utxo < self.utxo_count && self.epoch_starting_slot + self.offset
            <= u64::MAX
    }

    /// A scan of `utxo_count` utxos over the epoch of `slots_per_epoch`
    /// slots that starts at `epoch_starting_slot`.
    pub fn new(epoch_starting_slot: Slot, slots_per_epoch: u64, utxo_count: usize) -> (s: EpochScan)
        ensures
            s.wf(),
            s.epoch_starting_slot == epoch_starting_slot,
            s.slots_per_epoch == slots_per_epoch,
            s.utxo_count == utxo_count,
            s.utxo == (if slots_per_epoch == 0 {
                utxo_count
            } else {
                0
            }),
            s.offset == 0,
            !s.won,
            s.first_winning_slot is None,
    {
        EpochScan {
            epoch_starting_slot,
            slots_per_epoch,
            utxo_count,
            utxo: if slots_per_epoch == 0 {
                utxo_count
            } else {
                0
            },
            offset: 0,
            won: false,
            first_winning_slot: None,
        }
    }

    /// What the scan does next.
    pub fn next_action(&self) -> (a: ScanAction)
        requires
            self.wf(),
        ensures
            a == scan_action(*self),
    {
        if self.won {
            ScanAction::Notify { utxo: self.utxo, slot: self.epoch_starting_slot + self.offset }
        } else if self.utxo >= self.utxo_count {
            ScanAction::Done(self.first_winning_slot)
        } else {
            match self.epoch_starting_slot.checked_add(self.offset) {
                Some(slot) => ScanAction::CheckWinning { utxo: self.utxo, slot },
                None => ScanAction::SlotOverflow,
            }
        }
    }

    fn advance(&mut self)
        requires
            old(self).wf(),
            old(self).utxo < old(self).utxo_count,
        ensures
            *final(self) == scan_advance(*old(self)),
            final(self).wf(),
    {
        self.won = false;
        if self.offset + 1 >= self.slots_per_epoch {
            self.utxo = self.utxo + 1;
            self.offset = 0;
        } else {
            self.offset = self.offset + 1;
        }
    }

    /// Records whether the utxo wins the slot that was checked: if it does,
    /// it is to be notified about; otherwise the next slot is checked.
    pub fn on_checked(&mut self, won: bool)
        requires
            old(self).wf(),
            scan_action(*old(self)) is CheckWinning,
        ensures
            final(self).wf(),
            *final(self) == (if won {
                EpochScan { won: true, ..*old(self) }
            } else {
                scan_advance(*old(self))
            }),
    {
        if won {
            self.won = true;
        } else {
            self.advance();
        }
    }

    /// Records whether the notification about the winning slot went
    /// through: if it did, the slot becomes the first winning one and the
    /// scan ends with it; otherwise the next slot is checked.
    pub fn on_notified(&mut self, sent: bool)
        requires
            old(self).wf(),
            old(self).won,
        ensures
            final(self).wf(),
            sent ==> scan_action(*final(self)) == ScanAction::Done(
                Some((old(self).epoch_starting_slot + old(self).offset) as u64),
            ),
            *final(self) == (if sent {
                EpochScan {
                    utxo: old(self).utxo_count,
                    offset: 0,
                    won: false,
                    first_winning_slot: Some(
                        (old(self).epoch_starting_slot + old(self).offset) as u64,
                    ),
                    ..*old(self)
                }
            } else {
                scan_advance(*old(self))
            }),
    {
        if sent {
            self.first_winning_slot = Some(self.epoch_starting_slot + self.offset);
            self.won = false;
            self.utxo = self.utxo_count;
            self.offset = 0;
        } else {
            self.advance();
        }
    }
}

/// What the search for a leadership proof of a slot does next.
#[derive(Clone, Copy, Debug, PartialEq, Eq, Structural)]
pub enum ProofAction {
    /// Check whether the utxo at this position wins the slot.
    CheckWinning(usize),
    /// Notify consumers about the winning slot (where the notifier lets it)
    /// and build the proof with the utxo at this position.
    Prove(usize),
    /// The proof was built with the utxo at this position.
    Proved(usize),
    /// No utxo yields a proof: the node does not lead the slot.
    NoProof,
}

/// The search for a leadership proof of a slot, over the utxos in order:
/// the first utxo that wins the slot and whose proof can be built gives it.
#[derive(Clone, Copy, Debug)]
pub struct ProofSearch {
    pub utxo_count: usize,
    /// The utxo being tried.
    pub utxo: usize,
    /// Whether the utxo wins the slot (its proof is being built).
    pub proving: bool,
    /// Whether its proof was built.
    pub proved: bool,
}

/// The action that the state of a proof search calls for.
pub open spec fn proof_action(s: ProofSearch) -> ProofAction {
    if s.proved {
        ProofAction::Proved(s.utxo)
    } else if s.proving {
        ProofAction::Prove(s.utxo)
    } else if s.utxo < s.utxo_count {
        ProofAction::CheckWinning(s.utxo)
    } else {
        ProofAction::NoProof
    }
}

impl ProofSearch {
    /// The search's invariant: it points at a utxo, or past the last one
    /// when it has found nothing.
    pub open spec fn wf(&self) -> bool {
        &&& self.utxo <= self.utxo_count
        &&& (self.proving || self.proved) ==> self.utxo < self.utxo_count
        &&& self.proved ==> self.proving
    }

    /// A search over `utxo_count` utxos.
    pub fn new(utxo_count: usize) -> (s: ProofSearch)
        ensures
            s.wf(),
            s == (ProofSearch { utxo_count, utxo: 0, proving: false, proved: false }),
    {
        ProofSearch { utxo_count, utxo: 0, proving: false, proved: false }
    }

    /// What the search does next.
    pub fn next_action(&self) -> (a: ProofAction)
        requires
            self.wf(),
        ensures
            a == proof_action(*self),
    {
        if self.proved {
            ProofAction::Proved(self.utxo)
        } else if self.proving {
            ProofAction::Prove(self.utxo)
        } else if self.utxo < self.utxo_count {
            ProofAction::CheckWinning(self.utxo)
        } else {
            ProofAction::NoProof
        }
    }

    /// Records whether the utxo wins the slot: if it does, its proof is
    /// built; otherwise the next utxo is tried.
    pub fn on_checked(&mut self, won: bool)
        requires
            old(self).wf(),
            proof_action(*old(self)) is CheckWinning,
        ensures
            final(self).wf(),
            *final(self) == (if won {
                ProofSearch { proving: true, ..*old(self) }
            } else {
                ProofSearch { utxo: (old(self).utxo + 1) as usize, ..*old(self) }
            }),
    {
        if won {
            self.proving = true;
        } else {
            self.utxo = self.utxo + 1;
        }
    }

    /// Records whether the proof was built: if not, the next utxo is tried.
    pub fn on_proved(&mut self, built: bool)
        requires
            old(self).wf(),
            proof_action(*old(self)) is Prove,
        ensures
            final(self).wf(),
            *final(self) == (if built {
                ProofSearch { proved: true, ..*old(self) }
            } else {
                ProofSearch {
                    utxo: (old(self).utxo + 1) as usize,
                    proving: false,
                    ..*old(self)
                }
            }),
    {
        if built {
            self.proved = true;
        } else {
            self.utxo = self.utxo + 1;
            self.proving = false;
        }
    }
}

/// After an epoch is recorded, the same epoch is skipped, an older one is
/// rejected and a newer one is processed.
pub proof fn lemma_recorded_epoch_decisions(
    epoch: Epoch,
    first_winning_slot: Option<Slot>,
    other: Epoch,
)
    ensures
        epoch_decision_spec(Some((epoch, first_winning_slot)), other) == (if other == epoch {
            EpochDecision::Skip
        } else if other < epoch {
            EpochDecision::Reject
        } else {
            EpochDecision::Process
        }),
{
}

/// The state of a proof search after `k` checks of utxos that did not win
/// the slot.
pub open spec fn after_losing_checks(s: ProofSearch, k: nat) -> ProofSearch
    decreases k,
{
    if k == 0 {
        s
    } else {
        let t = after_losing_checks(s, (k - 1) as nat);
        ProofSearch { utxo: (t.utxo + 1) as usize, ..t }
    }
}

/// If no utxo wins the slot, the search checks each utxo in turn, never
/// builds a proof (so no consumer is notified) and ends without a proof.
pub proof fn lemma_losing_slot_gives_no_proof(n: usize)
    ensures
        forall|k: nat|
            k < n ==> proof_action(
                #[trigger] after_losing_checks(ProofSearch { utxo_count: n, utxo: 0, proving: false, proved: false }, k),
            ) == ProofAction::CheckWinning(k as usize),
        proof_action(
            after_losing_checks(
                ProofSearch { utxo_count: n, utxo: 0, proving: false, proved: false },
                n as nat,
            ),
        ) == ProofAction::NoProof,
{
    let s0 = ProofSearch { utxo_count: n, utxo: 0, proving: false, proved: false };
    assert forall|k: nat| k <= n implies #[trigger] after_losing_checks(s0, k) == (ProofSearch {
        utxo_count: n,
        utxo: k as usize,
        proving: false,
        proved: false,
    }) by {
        lemma_after_losing_checks(s0, k);
    }
    assert(after_losing_checks(s0, n as nat) == (ProofSearch {
        utxo_count: n,
        utxo: n,
        proving: false,
        proved: false,
    }));
}

proof fn lemma_after_losing_checks(s0: ProofSearch, k: nat)
    requires
        s0.utxo == 0,
        !s0.proving,
        !s0.proved,
        k <= s0.utxo_count,
    ensures
        after_losing_checks(s0, k) == (ProofSearch { utxo: k as usize, ..s0 }),
    decreases k,
{
    if k > 0 {
        lemma_after_losing_checks(s0, (k - 1) as nat);
    }
}

} // verus!
