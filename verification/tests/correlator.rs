use snipe::activity::{ActivityLog, ActivityRecord, ActivityState, LOG_LIMIT};
use snipe::cache::{CachedMessage, MessageCache, CACHE_LIMIT};
use snipe::correlator::{on_message_deleted, on_message_updated, take_snapshot};
use snipe::identity::Identity;

fn raw(name: &str) -> Identity {
    Identity::new(name.to_string(), format!("https://cdn.example/{}.png", name))
}

fn plain(id: u64, channel_id: u64, content: &str, author: &str) -> CachedMessage {
    CachedMessage::new(id, channel_id, content.to_string(), raw(author), None)
}

fn with_member(id: u64, channel_id: u64, content: &str, author: &str, member: &str) -> CachedMessage {
    CachedMessage::new(id, channel_id, content.to_string(), raw(author), Some(raw(member)))
}

#[test]
fn snapshot_copies_text_identity_and_channel() {
    let m = with_member(1, 7, "hello", "raw", "Nick#0001");
    let r = take_snapshot(&m, ActivityState::Edited, 7);
    assert_eq!(
        r,
        ActivityRecord::new(ActivityState::Edited, "hello".to_string(), raw("Nick#0001"), 7)
    );
    assert_eq!(m, with_member(1, 7, "hello", "raw", "Nick#0001"));
}

#[test]
fn delete_of_cached_message_queues_one_record() {
    let mut cache = MessageCache::new();
    let mut log = ActivityLog::new();
    cache.record(plain(1, 7, "hello", "u"));
    cache.record(plain(2, 7, "other", "v"));
    on_message_deleted(&cache, &mut log, 7, 1);
    assert_eq!(log.len(), 1);
    assert_eq!(
        log.data()[0],
        ActivityRecord::new(ActivityState::Deleted, "hello".to_string(), raw("u"), 7)
    );
}

#[test]
fn delete_of_unknown_message_queues_nothing() {
    let mut cache = MessageCache::new();
    let mut log = ActivityLog::new();
    on_message_deleted(&cache, &mut log, 7, 1);
    assert_eq!(log.len(), 0);
    cache.record(plain(2, 7, "other", "v"));
    on_message_deleted(&cache, &mut log, 7, 1);
    assert_eq!(log.len(), 0);
}

#[test]
fn delete_of_evicted_message_queues_nothing() {
    let mut cache = MessageCache::new();
    let mut log = ActivityLog::new();
    for id in 0..=CACHE_LIMIT as u64 {
        cache.record(plain(id, 7, "x", "u"));
    }
    on_message_deleted(&cache, &mut log, 7, 0);
    assert_eq!(log.len(), 0);
    on_message_deleted(&cache, &mut log, 7, 1);
    assert_eq!(log.len(), 1);
}

#[test]
fn delete_leaves_the_cache_as_it_is() {
    let mut cache = MessageCache::new();
    let mut log = ActivityLog::new();
    cache.record(plain(1, 7, "hello", "u"));
    on_message_deleted(&cache, &mut log, 7, 1);
    assert_eq!(cache.data(), &vec![plain(1, 7, "hello", "u")]);
    on_message_deleted(&cache, &mut log, 7, 1);
    assert_eq!(log.len(), 2);
}

#[test]
fn delete_records_the_text_at_deletion_time() {
    let mut cache = MessageCache::new();
    let mut log = ActivityLog::new();
    cache.record(plain(1, 7, "A", "u"));
    on_message_updated(&mut cache, &mut log, 1, Some("B".to_string()));
    on_message_deleted(&cache, &mut log, 7, 1);
    assert_eq!(log.len(), 2);
    assert_eq!(log.data()[1].state, ActivityState::Deleted);
    assert_eq!(log.data()[1].content, "B");
}

#[test]
fn delete_on_full_log_evicts_the_oldest_record() {
    let mut cache = MessageCache::new();
    let mut log = ActivityLog::new();
    cache.record(plain(1, 7, "hello", "u"));
    for i in 0..LOG_LIMIT {
        log.record(ActivityRecord::new(ActivityState::Edited, i.to_string(), raw("w"), 3));
    }
    on_message_deleted(&cache, &mut log, 7, 1);
    assert_eq!(log.len(), LOG_LIMIT);
    assert_eq!(log.data()[0].content, "1");
    assert_eq!(
        log.data()[LOG_LIMIT - 1],
        ActivityRecord::new(ActivityState::Deleted, "hello".to_string(), raw("u"), 7)
    );
}

#[test]
fn edit_queues_the_text_from_before_and_updates_the_cache() {
    let mut cache = MessageCache::new();
    let mut log = ActivityLog::new();
    cache.record(plain(1, 7, "A", "u"));
    on_message_updated(&mut cache, &mut log, 1, Some("B".to_string()));
    assert_eq!(log.len(), 1);
    assert_eq!(
        log.data()[0],
        ActivityRecord::new(ActivityState::Edited, "A".to_string(), raw("u"), 7)
    );
    assert_eq!(cache.find_by_id(1), Some(&plain(1, 7, "B", "u")));
    assert_eq!(cache.len(), 1);
}

#[test]
fn second_edit_queues_the_text_of_the_first() {
    let mut cache = MessageCache::new();
    let mut log = ActivityLog::new();
    cache.record(plain(1, 7, "A", "u"));
    on_message_updated(&mut cache, &mut log, 1, Some("B".to_string()));
    on_message_updated(&mut cache, &mut log, 1, Some("C".to_string()));
    assert_eq!(log.len(), 2);
    assert_eq!(log.data()[0].content, "A");
    assert_eq!(log.data()[1].content, "B");
    assert_eq!(cache.find_by_id(1).map(|m| m.content.clone()), Some("C".to_string()));
}

#[test]
fn edit_without_new_text_changes_nothing() {
    let mut cache = MessageCache::new();
    let mut log = ActivityLog::new();
    cache.record(plain(1, 7, "A", "u"));
    on_message_updated(&mut cache, &mut log, 1, None);
    assert_eq!(log.len(), 0);
    assert_eq!(cache.data(), &vec![plain(1, 7, "A", "u")]);
}

#[test]
fn edit_of_unknown_message_changes_nothing() {
    let mut cache = MessageCache::new();
    let mut log = ActivityLog::new();
    cache.record(plain(1, 7, "A", "u"));
    on_message_updated(&mut cache, &mut log, 2, Some("B".to_string()));
    assert_eq!(log.len(), 0);
    assert_eq!(cache.data(), &vec![plain(1, 7, "A", "u")]);
}

#[test]
fn edit_touches_only_the_edited_message() {
    let mut cache = MessageCache::new();
    let mut log = ActivityLog::new();
    cache.record(plain(1, 7, "one", "u"));
    cache.record(plain(2, 7, "two", "v"));
    cache.record(plain(3, 8, "three", "w"));
    on_message_updated(&mut cache, &mut log, 2, Some("TWO".to_string()));
    assert_eq!(
        cache.data(),
        &vec![plain(1, 7, "one", "u"), plain(2, 7, "TWO", "v"), plain(3, 8, "three", "w")]
    );
}

#[test]
fn edit_to_empty_text_is_an_edit() {
    let mut cache = MessageCache::new();
    let mut log = ActivityLog::new();
    cache.record(plain(1, 7, "A", "u"));
    on_message_updated(&mut cache, &mut log, 1, Some(String::new()));
    assert_eq!(log.len(), 1);
    assert_eq!(log.data()[0].content, "A");
    assert_eq!(cache.find_by_id(1).map(|m| m.content.clone()), Some(String::new()));
}

#[test]
fn fallback_identity_is_the_raw_author() {
    let mut cache = MessageCache::new();
    let mut log = ActivityLog::new();
    cache.record(plain(1, 7, "hello", "rawname"));
    cache.record(plain(2, 7, "A", "other"));
    on_message_deleted(&cache, &mut log, 7, 1);
    on_message_updated(&mut cache, &mut log, 2, Some("B".to_string()));
    assert_eq!(log.data()[0].identity.name, "rawname");
    assert_eq!(log.data()[0].identity.avatar_url, "https://cdn.example/rawname.png");
    assert_eq!(log.data()[1].identity.name, "other");
    assert_eq!(log.data()[1].identity.avatar_url, "https://cdn.example/other.png");
}

#[test]
fn member_identity_is_preferred() {
    let mut cache = MessageCache::new();
    let mut log = ActivityLog::new();
    cache.record(with_member(1, 7, "hello", "rawname", "Nick#0001"));
    cache.record(with_member(2, 7, "A", "other", "Other#0002"));
    on_message_deleted(&cache, &mut log, 7, 1);
    on_message_updated(&mut cache, &mut log, 2, Some("B".to_string()));
    assert_eq!(log.data()[0].identity, raw("Nick#0001"));
    assert_eq!(log.data()[1].identity, raw("Other#0002"));
}

#[test]
fn records_are_frozen_snapshots() {
    let mut cache = MessageCache::new();
    let mut log = ActivityLog::new();
    cache.record(plain(1, 7, "A", "u"));
    on_message_updated(&mut cache, &mut log, 1, Some("B".to_string()));
    let first = log.data()[0].clone();
    on_message_updated(&mut cache, &mut log, 1, Some("C".to_string()));
    cache.find_by_id_mut(1).expect("cached").content = "D".to_string();
    assert_eq!(log.data()[0], first);
    assert_eq!(log.data()[0].content, "A");
}

#[test]
fn snapshot_takes_the_channel_it_is_given() {
    let m = plain(1, 7, "hello", "u");
    let r = take_snapshot(&m, ActivityState::Deleted, 99);
    assert_eq!(
        r,
        ActivityRecord::new(ActivityState::Deleted, "hello".to_string(), raw("u"), 99)
    );
}

#[test]
fn delete_record_carries_the_channel_of_the_notification() {
    let mut cache = MessageCache::new();
    let mut log = ActivityLog::new();
    cache.record(plain(1, 70, "x", "u"));
    cache.record(plain(2, 80, "y", "u"));
    on_message_deleted(&cache, &mut log, 80, 2);
    on_message_deleted(&cache, &mut log, 81, 1);
    assert_eq!(log.data()[0].channel_id, 80);
    assert_eq!(log.data()[1].channel_id, 81);
    assert_eq!(log.data()[1].content, "x");
}

#[test]
fn edit_record_carries_the_channel_of_the_cached_message() {
    let mut cache = MessageCache::new();
    let mut log = ActivityLog::new();
    cache.record(plain(1, 70, "x", "u"));
    cache.record(plain(2, 80, "y", "u"));
    on_message_updated(&mut cache, &mut log, 2, Some("z".to_string()));
    on_message_updated(&mut cache, &mut log, 1, Some("w".to_string()));
    assert_eq!(log.data()[0].channel_id, 80);
    assert_eq!(log.data()[1].channel_id, 70);
}
