use nomos_chain::da::{BlobValidationPolicy, Settings};

#[test]
fn test_skip_old_policy() {
    let settings = Settings {
        availability_window_in_sessions: 2,
        session_length_in_blocks: 10,
    };

    let policy = BlobValidationPolicy::skip_old(&settings, 100);
    assert!(
        matches!(policy, BlobValidationPolicy::SkipOlderThan(80)),
        "{policy:?}"
    );

    let policy = BlobValidationPolicy::skip_old(&settings, 20);
    assert!(
        matches!(policy, BlobValidationPolicy::SkipOlderThan(0)),
        "{policy:?}"
    );

    let policy = BlobValidationPolicy::skip_old(&settings, 10);
    assert!(
        matches!(policy, BlobValidationPolicy::SkipOlderThan(0)),
        "{policy:?}"
    );
}

#[test]
fn test_should_validate() {
    let policy = BlobValidationPolicy::Skip;
    assert!(!policy.should_validate(0));
    assert!(!policy.should_validate(100));

    let policy = BlobValidationPolicy::SkipOlderThan(50);
    assert!(!policy.should_validate(49));
    assert!(policy.should_validate(50));
    assert!(policy.should_validate(51));
}

#[test]
fn da_window_is_sessions_times_length() {
    let settings = Settings {
        availability_window_in_sessions: 3,
        session_length_in_blocks: 7,
    };
    assert_eq!(settings.da_window_in_blocks(), 21);
}
