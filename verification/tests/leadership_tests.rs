use nomos_chain::leadership::{
    EpochDecision, EpochScan, ProofAction, ProofSearch, ScanAction, WinningPoLSlotNotifier,
};

#[test]
fn epochs_processed_once_and_in_order() {
    let mut notifier = WinningPoLSlotNotifier::new();
    assert_eq!(notifier.process_epoch_decision(3), EpochDecision::Process);
    notifier.record_epoch(3, Some(40));
    assert_eq!(notifier.process_epoch_decision(3), EpochDecision::Skip);
    assert_eq!(notifier.process_epoch_decision(2), EpochDecision::Reject);
    assert_eq!(notifier.process_epoch_decision(4), EpochDecision::Process);
}

#[test]
fn first_winning_slot_not_notified_twice() {
    let mut notifier = WinningPoLSlotNotifier::new();
    assert!(notifier.should_notify(40));
    notifier.record_epoch(3, Some(40));
    assert!(!notifier.should_notify(40));
    assert!(notifier.should_notify(41));
    notifier.record_epoch(4, None);
    assert!(notifier.should_notify(40));
}

/// Runs an epoch scan where `wins(utxo, slot)` tells the lottery outcome and
/// `sent(slot)` whether the notification goes through; returns the
/// recorded first winning slot and the notified slots.
fn run_scan(
    start: u64,
    slots: u64,
    utxos: usize,
    wins: impl Fn(usize, u64) -> bool,
    sent: impl Fn(u64) -> bool,
) -> (Option<u64>, Vec<(usize, u64)>) {
    let mut scan = EpochScan::new(start, slots, utxos);
    let mut notified = Vec::new();
    loop {
        match scan.next_action() {
            ScanAction::CheckWinning { utxo, slot } => scan.on_checked(wins(utxo, slot)),
            ScanAction::Notify { utxo, slot } => {
                let ok = sent(slot);
                if ok {
                    notified.push((utxo, slot));
                }
                scan.on_notified(ok);
            }
            ScanAction::SlotOverflow => panic!("Slot calculation overflow."),
            ScanAction::Done(first) => return (first, notified),
        }
    }
}

#[test]
fn scan_stops_at_first_notified_slot() {
    // utxo 0 wins slots 12 and 14, utxo 1 wins slot 11.
    let wins = |utxo: usize, slot: u64| (utxo == 0 && (slot == 12 || slot == 14)) || (utxo == 1 && slot == 11);
    let (first, notified) = run_scan(10, 5, 2, wins, |_| true);
    // Only the first winning slot is notified, and the scan ends there.
    assert_eq!(notified, vec![(0, 12)]);
    assert_eq!(first, Some(12));
}

#[test]
fn scan_moves_to_the_next_utxo_without_a_notified_slot() {
    // utxo 0 wins only slot 12, whose notification fails; utxo 1 wins 11.
    let wins = |utxo: usize, slot: u64| (utxo == 0 && slot == 12) || (utxo == 1 && slot == 11);
    let (first, notified) = run_scan(10, 5, 2, wins, |slot| slot != 12);
    assert_eq!(notified, vec![(1, 11)]);
    assert_eq!(first, Some(11));
}

#[test]
fn scan_goes_on_when_a_notification_fails() {
    let wins = |_: usize, slot: u64| slot == 12 || slot == 14;
    let (first, notified) = run_scan(10, 5, 1, wins, |slot| slot != 12);
    assert_eq!(notified, vec![(0, 14)]);
    assert_eq!(first, Some(14));
}

#[test]
fn scan_without_winner_records_none() {
    assert_eq!(run_scan(10, 5, 3, |_, _| false, |_| true), (None, vec![]));
    assert_eq!(run_scan(10, 0, 3, |_, _| true, |_| true), (None, vec![]));
    assert_eq!(run_scan(10, 5, 0, |_, _| true, |_| true), (None, vec![]));
}

#[test]
fn scan_reports_slot_overflow() {
    let mut scan = EpochScan::new(u64::MAX, 3, 1);
    assert_eq!(scan.next_action(), ScanAction::CheckWinning { utxo: 0, slot: u64::MAX });
    scan.on_checked(false);
    assert_eq!(scan.next_action(), ScanAction::SlotOverflow);
}

/// Runs a proof search; returns the utxo whose proof was built and the
/// utxos whose proof was attempted.
fn run_search(utxos: usize, wins: impl Fn(usize) -> bool, proves: impl Fn(usize) -> bool) -> (Option<usize>, Vec<usize>) {
    let mut search = ProofSearch::new(utxos);
    let mut attempted = Vec::new();
    loop {
        match search.next_action() {
            ProofAction::CheckWinning(u) => search.on_checked(wins(u)),
            ProofAction::Prove(u) => {
                attempted.push(u);
                search.on_proved(proves(u));
            }
            ProofAction::Proved(u) => return (Some(u), attempted),
            ProofAction::NoProof => return (None, attempted),
        }
    }
}

#[test]
fn losing_slot_gives_no_proof_and_no_notification() {
    assert_eq!(run_search(4, |_| false, |_| true), (None, vec![]));
    assert_eq!(run_search(0, |_| true, |_| true), (None, vec![]));
}

#[test]
fn first_provable_winner_gives_the_proof() {
    assert_eq!(run_search(4, |u| u >= 1, |_| true), (Some(1), vec![1]));
    // A failed proof moves on to the next winning utxo.
    assert_eq!(run_search(4, |u| u >= 1, |u| u != 1), (Some(2), vec![1, 2]));
    assert_eq!(run_search(2, |_| true, |_| false), (None, vec![0, 1]));
}
