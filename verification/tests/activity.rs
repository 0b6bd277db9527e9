use snipe::activity::{ActivityLog, ActivityRecord, ActivityState, LOG_LIMIT};
use snipe::identity::Identity;

fn entry(state: ActivityState, content: &str, channel_id: u64) -> ActivityRecord {
    ActivityRecord::new(
        state,
        content.to_string(),
        Identity::new("someone".to_string(), "someone.png".to_string()),
        channel_id,
    )
}

fn deleted(content: &str, channel_id: u64) -> ActivityRecord {
    entry(ActivityState::Deleted, content, channel_id)
}

fn contents(log: &ActivityLog) -> Vec<String> {
    log.data().iter().map(|r| r.content.clone()).collect()
}

#[test]
fn log_limit_is_256() {
    assert_eq!(LOG_LIMIT, 256);
}

#[test]
fn log_starts_empty() {
    let log = ActivityLog::new();
    assert_eq!(log.len(), 0);
    assert!(log.is_empty());
    assert!(log.data().is_empty());
}

#[test]
fn activity_record_new_keeps_every_field() {
    let r = ActivityRecord::new(
        ActivityState::Edited,
        "before".to_string(),
        Identity::new("n".to_string(), "a.png".to_string()),
        12,
    );
    assert_eq!(r.state, ActivityState::Edited);
    assert_eq!(r.content, "before");
    assert_eq!(r.identity, Identity::new("n".to_string(), "a.png".to_string()));
    assert_eq!(r.channel_id, 12);
}

#[test]
fn activity_record_clone_is_equal() {
    let r = entry(ActivityState::Edited, "before", 12);
    assert_eq!(r.clone(), r);
}

#[test]
fn activity_states_differ() {
    assert_ne!(ActivityState::Deleted, ActivityState::Edited);
    assert_ne!(deleted("x", 1), entry(ActivityState::Edited, "x", 1));
}

#[test]
fn log_keeps_insertion_order() {
    let mut log = ActivityLog::new();
    log.record(deleted("a", 1));
    log.record(deleted("b", 2));
    log.record(deleted("c", 1));
    assert_eq!(contents(&log), vec!["a", "b", "c"]);
    assert_eq!(log.len(), 3);
    assert!(!log.is_empty());
}

#[test]
fn log_never_exceeds_limit() {
    let mut log = ActivityLog::new();
    for i in 0..1000usize {
        log.record(deleted(&i.to_string(), 1));
        assert!(log.len() <= LOG_LIMIT);
        assert_eq!(log.len(), std::cmp::min(i + 1, LOG_LIMIT));
    }
    let expected: Vec<String> = (744..1000usize).map(|i| i.to_string()).collect();
    assert_eq!(contents(&log), expected);
}

#[test]
fn log_evicts_exactly_the_oldest() {
    let mut log = ActivityLog::new();
    for i in 0..LOG_LIMIT {
        log.record(deleted(&i.to_string(), 1));
    }
    assert_eq!(log.len(), LOG_LIMIT);
    assert_eq!(log.data()[0].content, "0");
    log.record(deleted("new", 2));
    assert_eq!(log.len(), LOG_LIMIT);
    let mut expected: Vec<String> = (1..LOG_LIMIT).map(|i| i.to_string()).collect();
    expected.push("new".to_string());
    assert_eq!(contents(&log), expected);
}

#[test]
fn take_from_empty_log_is_none() {
    let mut log = ActivityLog::new();
    assert_eq!(log.take_first_matching_channel(1), None);
    assert_eq!(log.len(), 0);
}

#[test]
fn take_returns_oldest_first() {
    let mut log = ActivityLog::new();
    log.record(deleted("r1", 5));
    log.record(entry(ActivityState::Edited, "r2", 5));
    assert_eq!(log.take_first_matching_channel(5), Some(deleted("r1", 5)));
    assert_eq!(log.len(), 1);
    assert_eq!(log.take_first_matching_channel(5), Some(entry(ActivityState::Edited, "r2", 5)));
    assert_eq!(log.len(), 0);
    assert_eq!(log.take_first_matching_channel(5), None);
    assert_eq!(log.len(), 0);
}

#[test]
fn take_never_crosses_channels() {
    let mut log = ActivityLog::new();
    log.record(deleted("in a", 1));
    assert_eq!(log.take_first_matching_channel(2), None);
    assert_eq!(contents(&log), vec!["in a"]);
    assert_eq!(log.take_first_matching_channel(1), Some(deleted("in a", 1)));
}

#[test]
fn take_skips_records_of_other_channels() {
    let mut log = ActivityLog::new();
    log.record(deleted("a1", 1));
    log.record(deleted("b1", 2));
    log.record(deleted("a2", 1));
    log.record(deleted("b2", 2));
    assert_eq!(log.take_first_matching_channel(2), Some(deleted("b1", 2)));
    assert_eq!(contents(&log), vec!["a1", "a2", "b2"]);
    assert_eq!(log.take_first_matching_channel(2), Some(deleted("b2", 2)));
    assert_eq!(contents(&log), vec!["a1", "a2"]);
    assert_eq!(log.take_first_matching_channel(1), Some(deleted("a1", 1)));
    assert_eq!(contents(&log), vec!["a2"]);
}

#[test]
fn take_after_eviction_returns_oldest_survivor() {
    let mut log = ActivityLog::new();
    for i in 0..=LOG_LIMIT {
        log.record(deleted(&i.to_string(), 3));
    }
    assert_eq!(log.take_first_matching_channel(3), Some(deleted("1", 3)));
    assert_eq!(log.len(), LOG_LIMIT - 1);
}

#[test]
fn log_data_shows_what_was_recorded() {
    let mut log = ActivityLog::new();
    log.record(deleted("a", 1));
    log.record(entry(ActivityState::Edited, "b", 2));
    assert_eq!(log.data(), &vec![deleted("a", 1), entry(ActivityState::Edited, "b", 2)]);
}

#[test]
fn default_log_is_empty() {
    let log = ActivityLog::default();
    assert!(log.is_empty());
    assert_eq!(log.len(), 0);
}
