use oss_lma::meetings::{database_missing, meetings_limit, meetings_unavailable, partial_flag};

#[test]
fn listings_run_with_a_limit_between_one_and_five_hundred() {
    assert_eq!(meetings_limit(None), 50);
    assert_eq!(meetings_limit(Some(0)), 1);
    assert_eq!(meetings_limit(Some(-7)), 1);
    assert_eq!(meetings_limit(Some(20)), 20);
    assert_eq!(meetings_limit(Some(10_000)), 500);
}

#[test]
fn a_stored_partial_flag_is_any_nonzero_value() {
    assert!(!partial_flag(0));
    assert!(partial_flag(1));
    assert!(partial_flag(-1));
}

#[test]
fn missing_database_messages_point_at_starting_a_meeting() {
    assert_eq!(
        database_missing("/data/lma.db"),
        "meetings database not found at /data/lma.db; start a meeting first to create it"
    );
    assert_eq!(
        meetings_unavailable(),
        "meetings database not yet available; start a meeting first"
    );
}
