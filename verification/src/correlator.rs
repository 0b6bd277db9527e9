//! The activity correlator: matches delete and edit notifications to cached
//! messages and queues what the message said before.
//!
//! A notification for a message that is not in the cache, because it was
//! never seen or has aged out, is no error. It has no effect.

use vstd::prelude::*;
use crate::activity::{
    lemma_logged_within_limit, logged, ActivityLog, ActivityRecord, ActivityRecordView,
    ActivityState, LOG_LIMIT,
};
use crate::cache::{
    edited, lemma_edited_keeps_ids, lookup, CachedMessage, CachedMessageView, MessageCache,
};
use crate::fifo::lemma_first_position;

verus! {

/// The record that is queued for `message` when it is found deleted or
/// edited: its text as the cache has it, the identity it is attributed to,
/// and the channel `channel_id`.
pub open spec fn snapshot(
    message: CachedMessageView,
    state: ActivityState,
    channel_id: u64,
) -> ActivityRecordView {
    ActivityRecordView { state, content: message.content, identity: message.identity(), channel_id }
}

/// The log after a delete notification from the channel `channel_id` for
/// the message `id`. The record is queued for the channel that the
/// notification names.
pub open spec fn log_after_delete(
    cache: Seq<CachedMessageView>,
    log: Seq<ActivityRecordView>,
    channel_id: u64,
    id: u64,
) -> Seq<ActivityRecordView> {
    match lookup(cache, id) {
        Some(message) => logged(log, snapshot(message, ActivityState::Deleted, channel_id)),
        None => log,
    }
}

/// The log after an edit notification for the message `id`. A notification
/// that brings no new text queues nothing. An edit notification names no
/// channel: the record is queued for the channel the message was cached with.
pub open spec fn log_after_update(
    cache: Seq<CachedMessageView>,
    log: Seq<ActivityRecordView>,
    id: u64,
    new_content: Option<Seq<char>>,
) -> Seq<ActivityRecordView> {
    match (lookup(cache, id), new_content) {
        (Some(message), Some(_)) => logged(
            log,
            snapshot(message, ActivityState::Edited, message.channel_id),
        ),
        _ => log,
    }
}

/// The cache after an edit notification for the message `id`. A
/// notification that brings no new text changes nothing.
pub open spec fn cache_after_update(
    cache: Seq<CachedMessageView>,
    id: u64,
    new_content: Option<Seq<char>>,
) -> Seq<CachedMessageView> {
    match new_content {
        Some(text) => edited(cache, id, text),
        None => cache,
    }
}

/// A record names the member where the author was resolved as one when
/// the message came in. Where that was not possible it names the raw author,
/// with the name and avatar that came with the message.
pub proof fn lemma_snapshot_identity(
    message: CachedMessageView,
    state: ActivityState,
    channel_id: u64,
)
    ensures
        message.member is None ==> snapshot(message, state, channel_id).identity
            == message.author,
        message.member matches Some(member) ==> snapshot(message, state, channel_id).identity
            == member,
{
}

/// A delete notification for a cached message queues exactly one record:
/// it is marked as deleted, holds the text that the cache has for the
/// message at that time, and belongs to the channel that the notification
/// names. A notification for a message that the cache does not hold queues
/// nothing.
pub proof fn lemma_delete_queues_one_record(
    cache: Seq<CachedMessageView>,
    log: Seq<ActivityRecordView>,
    channel_id: u64,
    id: u64,
)
    ensures
        match lookup(cache, id) {
            Some(message) => {
                let record = snapshot(message, ActivityState::Deleted, channel_id);
                let after = log_after_delete(cache, log, channel_id, id);
                &&& message.id == id
                &&& record.state == ActivityState::Deleted
                &&& record.content == message.content
                &&& record.channel_id == channel_id
                &&& after.last() == record
                &&& log.len() < LOG_LIMIT ==> after == log.push(record)
                &&& log.len() == LOG_LIMIT ==> after == log.drop_first().push(record)
            },
            None => log_after_delete(cache, log, channel_id, id) == log,
        },
        (forall|i: int| 0 <= i < cache.len() ==> (#[trigger] cache[i]).id != id)
            ==> log_after_delete(cache, log, channel_id, id) == log,
{
    lemma_first_position(cache, |m: CachedMessageView| m.id == id);
    match lookup(cache, id) {
        Some(message) => {
            lemma_logged_within_limit(
                log,
                snapshot(message, ActivityState::Deleted, channel_id),
            );
        },
        None => {},
    }
}

/// An edit is queued with the text from before it, and the cache has the
/// new text afterwards.
///
/// For a cached message and a notification that brings a new text, the log
/// gets one record, marked as edited, with the text the message had so far;
/// a lookup of the message then gives it with the new text and otherwise
/// unchanged.
pub proof fn lemma_update_queues_text_from_before(
    cache: Seq<CachedMessageView>,
    log: Seq<ActivityRecordView>,
    id: u64,
    message: CachedMessageView,
    new_text: Seq<char>,
)
    requires
        lookup(cache, id) == Some(message),
    ensures
        ({
            let record = snapshot(message, ActivityState::Edited, message.channel_id);
            let log_after = log_after_update(cache, log, id, Some(new_text));
            let cache_after = cache_after_update(cache, id, Some(new_text));
            &&& record.state == ActivityState::Edited
            &&& record.content == message.content
            &&& log_after == logged(log, record)
            &&& log_after.last() == record
            &&& lookup(cache_after, id) == Some(message.with_content(new_text))
        }),
{
    lemma_logged_within_limit(
        log,
        snapshot(message, ActivityState::Edited, message.channel_id),
    );
    lemma_edited_keeps_ids(cache, id, new_text);
}

/// An edit notification without a new text, or for a message that the
/// cache does not hold, changes neither the log nor the cache.
pub proof fn lemma_update_without_effect(
    cache: Seq<CachedMessageView>,
    log: Seq<ActivityRecordView>,
    id: u64,
    new_content: Option<Seq<char>>,
)
    requires
        new_content is None || lookup(cache, id) is None,
    ensures
        log_after_update(cache, log, id, new_content) == log,
        cache_after_update(cache, id, new_content) == cache,
{
}

/// Copies out of `message` what a record of it holds, and makes the record
/// one of the channel `channel_id`.
pub fn take_snapshot(message: &CachedMessage, state: ActivityState, channel_id: u64) -> (record:
    ActivityRecord)
    ensures
        record@ == snapshot(message@, state, channel_id),
{
    ActivityRecord::new(state, message.content.clone(), message.identity(), channel_id)
}

/// Handles the notification that the message `message_id` was deleted in
/// the channel `channel_id`.
///
/// Where the cache holds the message, one record of it is appended to the
/// log, marked as deleted and queued for `channel_id`. The cache itself is
/// only read: the message stays in it until it ages out.
pub fn on_message_deleted(
    cache: &MessageCache,
    log: &mut ActivityLog,
    channel_id: u64,
    message_id: u64,
)
    ensures
        final(log)@ == log_after_delete(cache@, old(log)@, channel_id, message_id),
{
    match cache.find_by_id(message_id) {
        Some(message) => {
            log.record(take_snapshot(message, ActivityState::Deleted, channel_id));
        },
        None => {},
    }
}

/// Handles the notification that the message `message_id` was updated,
/// `new_content` being its new text where the text changed.
///
/// Where the cache holds the message and there is a new text, one record
/// with the text from before the edit is appended to the log, marked as
/// edited, and then the cached message takes the new text.
pub fn on_message_updated(
    cache: &mut MessageCache,
    log: &mut ActivityLog,
    message_id: u64,
    new_content: Option<String>,
)
    ensures
        final(log)@ == log_after_update(
            old(cache)@,
            old(log)@,
            message_id,
            new_content.deep_view(),
        ),
        final(cache)@ == cache_after_update(old(cache)@, message_id, new_content.deep_view()),
{
    match cache.find_by_id_mut(message_id) {
        Some(message) => {
            match new_content {
                Some(text) => {
                    let channel_id = message.channel_id;
                    log.record(take_snapshot(message, ActivityState::Edited, channel_id));
                    message.content = text;
                },
                None => {},
            }
        },
        None => {},
    }
    assert(cache@ =~= cache_after_update(old(cache)@, message_id, new_content.deep_view()));
}

} // verus!
