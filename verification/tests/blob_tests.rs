use nomos_chain::blob::{
    all_blobs_sampled, blob_validation_window_in_slots, new_blob_validation, should_validate_blobs,
    validate_recent_blobs, BlobValidationKind, BlockType, Error,
};
use nomos_chain::header::{BlobId, Id32};
use nomos_chain::processor::{admit_block, missing_parent, processing_outcome, BlockAdmission, Error as ProcessingError};
use nomos_chain::service_loop::ProcessingOutcome;

fn blob(i: u8) -> BlobId {
    Id32::repeat(i)
}

#[test]
fn test_blob_validation_window_in_slots() {
    assert_eq!(blob_validation_window_in_slots(10), 5);
    assert_eq!(blob_validation_window_in_slots(7), 3); // Should round down
    assert_eq!(blob_validation_window_in_slots(1), 0); // Should round down
}

#[test]
fn test_should_validate_blobs() {
    // (103 - 100) <= (10 / 2)
    assert!(should_validate_blobs(100, 103, 10));
    // (105 - 100) <= (10 / 2)
    assert!(should_validate_blobs(100, 105, 10));
    // (106 - 100) > (10 / 2)
    assert!(!should_validate_blobs(100, 106, 10));
    // saturating(100 - 101) <= (10 / 2)
    assert!(should_validate_blobs(101, 100, 10));
}

#[test]
fn test_new_blob_validation() {
    // No validation because outside window
    // (200 - 100) > (10 / 2)
    let no_validation = new_blob_validation(100, BlockType::Recent, 200, 10);
    assert!(no_validation.is_none());

    // RecentBlobValidation for a recent block within window
    // (103 - 100) <= (10 / 2)
    let recent_validation = new_blob_validation(100, BlockType::Recent, 103, 10);
    assert_eq!(recent_validation, Some(BlobValidationKind::Recent));

    // HistoricBlobValidation for a historic block within window
    // (103 - 100) <= (10 / 2)
    let historic_validation = new_blob_validation(100, BlockType::Historic, 103, 10);
    assert_eq!(historic_validation, Some(BlobValidationKind::Historic));
}

#[test]
fn recent_validation_needs_every_blob_sampled() {
    let sampled = vec![blob(1), blob(2), blob(3)];
    assert!(all_blobs_sampled(&vec![], &sampled));
    assert!(all_blobs_sampled(&vec![blob(3), blob(1)], &sampled));
    assert_eq!(validate_recent_blobs(&vec![blob(2)], &sampled), Ok(()));
    assert_eq!(
        validate_recent_blobs(&vec![blob(2), blob(4)], &sampled),
        Err(Error::InvalidBlobs)
    );
}

#[test]
fn blocks_admitted_only_with_sampled_blobs() {
    let sampled = vec![blob(1), blob(2)];
    assert_eq!(admit_block(None, &vec![]), BlockAdmission::SamplingUnavailable);
    assert_eq!(admit_block(Some(&sampled), &vec![blob(1)]), BlockAdmission::Apply);
    assert_eq!(admit_block(Some(&sampled), &vec![blob(5)]), BlockAdmission::InvalidBlobs);
}

#[test]
fn processing_errors_classified() {
    let parent = Id32::repeat(9);
    assert_eq!(processing_outcome(&Ok(())), ProcessingOutcome::Applied);
    assert_eq!(
        processing_outcome(&Err(ProcessingError::LedgerParentNotFound(parent))),
        ProcessingOutcome::ParentMissing
    );
    assert_eq!(
        processing_outcome(&Err(ProcessingError::EngineParentMissing(parent))),
        ProcessingOutcome::ParentMissing
    );
    assert_eq!(processing_outcome(&Err(ProcessingError::Ledger)), ProcessingOutcome::Rejected);
    assert_eq!(processing_outcome(&Err(ProcessingError::Consensus)), ProcessingOutcome::Rejected);
    assert_eq!(
        processing_outcome(&Err(ProcessingError::Storage("disk full".to_owned()))),
        ProcessingOutcome::Rejected
    );
    assert_eq!(missing_parent(&ProcessingError::EngineParentMissing(parent)), Some(parent));
    assert_eq!(missing_parent(&ProcessingError::Consensus), None);
}
