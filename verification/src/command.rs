//! The snipe command handler: answers the command with the oldest record
//! that is queued for the channel in which it was given.

use vstd::prelude::*;
use crate::activity::{
    lemma_logged_within_limit, taken, without_taken, ActivityLog, ActivityRecord,
    ActivityRecordView, ActivityState, LOG_LIMIT,
};
use crate::cache::{lookup, recorded, CachedMessage, CachedMessageView, MessageCache};
use crate::correlator::{log_after_delete, snapshot};
use crate::fifo::lemma_first_position_is;
use crate::trigger::{is_trigger, is_trigger_text};

verus! {

/// The title of the notification for a deleted message.
pub const DELETED_TITLE: &'static str = "Deleted message!";

/// The title of the notification for an edited message.
pub const EDITED_TITLE: &'static str = "Edited message!";

/// What is to be sent to a channel in answer to a snipe.
#[derive(Debug, PartialEq, Eq)]
pub struct Notification {
    pub channel_id: u64,
    pub title: String,
    pub author_name: String,
    pub author_icon_url: String,
    pub body: String,
}

/// What a [`Notification`] stands for in contracts.
#[verifier::ext_equal]
pub struct NotificationView {
    pub channel_id: u64,
    pub title: Seq<char>,
    pub author_name: Seq<char>,
    pub author_icon_url: Seq<char>,
    pub body: Seq<char>,
}

impl View for Notification {
    type V = NotificationView;

    open spec fn view(&self) -> NotificationView {
        NotificationView {
            channel_id: self.channel_id,
            title: self.title@,
            author_name: self.author_name@,
            author_icon_url: self.author_icon_url@,
            body: self.body@,
        }
    }
}

impl DeepView for Notification {
    type V = NotificationView;

    open spec fn deep_view(&self) -> NotificationView {
        self@
    }
}

/// The title under which a record of the given state is shown.
pub open spec fn title_of(state: ActivityState) -> Seq<char> {
    match state {
        ActivityState::Deleted => DELETED_TITLE@,
        ActivityState::Edited => EDITED_TITLE@,
    }
}

/// The notification that shows `record`: it goes to the record's channel,
/// is titled by what happened to the message, names the author the record
/// holds, and has the recorded text as its body.
pub open spec fn rendered(record: ActivityRecordView) -> NotificationView {
    NotificationView {
        channel_id: record.channel_id,
        title: title_of(record.state),
        author_name: record.identity.name,
        author_icon_url: record.identity.avatar_url,
        body: record.content,
    }
}

/// The answer to a snipe asked in `channel_id`: the oldest record queued for
/// that channel, rendered, or nothing where none is queued.
pub open spec fn answer(log: Seq<ActivityRecordView>, channel_id: u64) -> Option<NotificationView> {
    match taken(log, channel_id) {
        Some(record) => Some(rendered(record)),
        None => None,
    }
}

/// A message that was deleted is what the next snipe in the same channel shows.
///
/// With the message in the cache and nothing queued for the channel, a
/// delete notification followed by a snipe in the same channel gives one
/// notification: titled as a deletion, naming the author the message is
/// attributed to, with the text of the message as its body. The record is
/// used up by that: the log is afterwards what it was before the deletion,
/// less its oldest record where it was full.
pub proof fn lemma_snipe_after_delete(
    cache: Seq<CachedMessageView>,
    log: Seq<ActivityRecordView>,
    channel_id: u64,
    id: u64,
    message: CachedMessageView,
)
    requires
        lookup(cache, id) == Some(message),
        log.len() <= LOG_LIMIT,
        forall|i: int| 0 <= i < log.len() ==> (#[trigger] log[i]).channel_id != channel_id,
    ensures
        ({
            let queued = log_after_delete(cache, log, channel_id, id);
            &&& answer(queued, channel_id) == Some(
                NotificationView {
                    channel_id,
                    title: DELETED_TITLE@,
                    author_name: message.identity().name,
                    author_icon_url: message.identity().avatar_url,
                    body: message.content,
                },
            )
            &&& without_taken(queued, channel_id) == if log.len() < LOG_LIMIT {
                log
            } else {
                log.drop_first()
            }
        }),
{
    let record = snapshot(message, ActivityState::Deleted, channel_id);
    let queued = log_after_delete(cache, log, channel_id, id);
    lemma_logged_within_limit(log, record);
    let last = queued.len() - 1;
    assert(forall|j: int| 0 <= j < last ==> (#[trigger] queued[j]).channel_id != channel_id);
    lemma_first_position_is(queued, |r: ActivityRecordView| r.channel_id == channel_id, last);
    assert(queued.remove(last) =~= queued.drop_last());
}

/// Turns `record` into the notification that shows it.
pub fn render(record: ActivityRecord) -> (notification: Notification)
    ensures
        notification@ == rendered(record@),
{
    let title = match record.state {
        ActivityState::Deleted => DELETED_TITLE.to_owned(),
        ActivityState::Edited => EDITED_TITLE.to_owned(),
    };
    Notification {
        channel_id: record.channel_id,
        title,
        author_name: record.identity.name,
        author_icon_url: record.identity.avatar_url,
        body: record.content,
    }
}

/// Answers a snipe asked in `channel_id`.
///
/// The oldest record queued for the channel leaves the log and comes back
/// rendered. It is gone from then on, whether or not the notification can be
/// delivered. Where nothing is queued for the channel, nothing is returned
/// and the log stays as it is.
pub fn snipe(log: &mut ActivityLog, channel_id: u64) -> (notification: Option<Notification>)
    ensures
        notification.deep_view() == answer(old(log)@, channel_id),
        final(log)@ == without_taken(old(log)@, channel_id),
        notification matches Some(n) ==> n@.channel_id == channel_id,
{
    match log.take_first_matching_channel(channel_id) {
        Some(record) => Some(render(record)),
        None => None,
    }
}

/// The channel in which `message` asks for a snipe, if it does.
pub open spec fn asked_in(message: CachedMessageView) -> Option<u64> {
    if is_trigger_text(message.content) {
        Some(message.channel_id)
    } else {
        None
    }
}

/// Handles a message that was just posted.
///
/// Every message is recorded in the cache, the snipe command like any
/// other. Where the message is the snipe command, it is then answered from
/// the log as [`snipe`] does for the channel the message was posted in.
pub fn on_message_created(
    cache: &mut MessageCache,
    log: &mut ActivityLog,
    message: CachedMessage,
) -> (notification: Option<Notification>)
    ensures
        final(cache)@ == recorded(old(cache)@, message@),
        notification.deep_view() == match asked_in(message@) {
            Some(channel_id) => answer(old(log)@, channel_id),
            None => None,
        },
        final(log)@ == match asked_in(message@) {
            Some(channel_id) => without_taken(old(log)@, channel_id),
            None => old(log)@,
        },
        notification matches Some(n) ==> n@.channel_id == message@.channel_id,
{
    let asked = is_trigger(message.content.as_str());
    let channel_id = message.channel_id;
    cache.record(message);
    if asked {
        snipe(log, channel_id)
    } else {
        None
    }
}

} // verus!
