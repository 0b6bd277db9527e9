//! The suspicious activity log: what was deleted or edited, queued until
//! somebody asks for it.

use vstd::prelude::*;
use crate::fifo::{
    first_position, keep_newest, lemma_first_position, lemma_first_position_is,
    lemma_first_position_none, lemma_push_all_bounded, lemma_push_bounded,
    lemma_remove_keeps_filter, overflow_prevent, push_all_bounded, push_bounded,
};
use crate::identity::{Identity, IdentityView};

verus! {

/// The most records the log holds at any time.
pub const LOG_LIMIT: usize = 256;

/// What happened to a message.
#[derive(Debug, Clone, Copy, PartialEq, Eq, Structural)]
pub enum ActivityState {
    Deleted,
    Edited,
}

/// A message that was deleted or edited, as it read before that, with its
/// author and the channel it was in.
///
/// Nothing in a record refers back to the cache: text and identity are
/// copies, and stay what they were whatever happens to the cached message
/// afterwards.
#[derive(Debug, PartialEq, Eq)]
pub struct ActivityRecord {
    pub state: ActivityState,
    pub content: String,
    pub identity: Identity,
    pub channel_id: u64,
}

/// What an [`ActivityRecord`] stands for in contracts.
#[verifier::ext_equal]
pub struct ActivityRecordView {
    pub state: ActivityState,
    pub content: Seq<char>,
    pub identity: IdentityView,
    pub channel_id: u64,
}

impl View for ActivityRecord {
    type V = ActivityRecordView;

    open spec fn view(&self) -> ActivityRecordView {
        ActivityRecordView {
            state: self.state,
            content: self.content@,
            identity: self.identity@,
            channel_id: self.channel_id,
        }
    }
}

impl DeepView for ActivityRecord {
    type V = ActivityRecordView;

    open spec fn deep_view(&self) -> ActivityRecordView {
        self@
    }
}

impl Clone for ActivityRecord {
    fn clone(&self) -> (copy: Self)
        ensures
            copy@ == self@,
    {
        ActivityRecord {
            state: self.state,
            content: self.content.clone(),
            identity: self.identity.clone(),
            channel_id: self.channel_id,
        }
    }
}

impl ActivityRecord {
    /// A record with the given state, text, author and channel.
    pub fn new(state: ActivityState, content: String, identity: Identity, channel_id: u64) -> (record:
        Self)
        ensures
            record@ == (ActivityRecordView {
                state,
                content: content@,
                identity: identity@,
                channel_id,
            }),
    {
        ActivityRecord { state, content, identity, channel_id }
    }
}

/// Where a scan of the log first meets a record of the channel
/// `channel_id`. The log is in insertion order, so this is the oldest record
/// of that channel that is still queued.
pub open spec fn position_in_channel(records: Seq<ActivityRecordView>, channel_id: u64) -> Option<
    int,
> {
    first_position(records, |r: ActivityRecordView| r.channel_id == channel_id)
}

/// The log after `record` was appended: the record comes last, and the
/// oldest record has left if the log was full.
pub open spec fn logged(records: Seq<ActivityRecordView>, record: ActivityRecordView) -> Seq<
    ActivityRecordView,
> {
    push_bounded(records, record, LOG_LIMIT as nat)
}

/// The record that a request from `channel_id` takes out of the log.
pub open spec fn taken(records: Seq<ActivityRecordView>, channel_id: u64) -> Option<
    ActivityRecordView,
> {
    match position_in_channel(records, channel_id) {
        Some(i) => Some(records[i]),
        None => None,
    }
}

/// The log after a request from `channel_id` took its record out. The other
/// records stay, in their order.
pub open spec fn without_taken(records: Seq<ActivityRecordView>, channel_id: u64) -> Seq<
    ActivityRecordView,
> {
    match position_in_channel(records, channel_id) {
        Some(i) => records.remove(i),
        None => records,
    }
}

/// The log after each of `records` was appended in turn.
pub open spec fn logged_all(
    log: Seq<ActivityRecordView>,
    records: Seq<ActivityRecordView>,
) -> Seq<ActivityRecordView> {
    push_all_bounded(log, records, LOG_LIMIT as nat)
}

/// Appending a record never leaves more than [`LOG_LIMIT`] records. Below
/// the limit the record is simply appended; at the limit exactly one record
/// leaves, the oldest, and the rest move up in their order.
pub proof fn lemma_logged_within_limit(log: Seq<ActivityRecordView>, record: ActivityRecordView)
    ensures
        logged(log, record).len() <= LOG_LIMIT,
        logged(log, record).last() == record,
        log.len() < LOG_LIMIT ==> logged(log, record) == log.push(record),
        log.len() == LOG_LIMIT ==> logged(log, record) == log.drop_first().push(record),
{
    lemma_push_bounded(log, record, LOG_LIMIT as nat);
}

/// However many records are appended, the log never exceeds [`LOG_LIMIT`]:
/// it holds the newest of them, in the order in which they came.
pub proof fn lemma_logged_all_within_limit(
    log: Seq<ActivityRecordView>,
    records: Seq<ActivityRecordView>,
)
    requires
        log.len() <= LOG_LIMIT,
    ensures
        logged_all(log, records).len() <= LOG_LIMIT,
        logged_all(log, records) == keep_newest(log + records, LOG_LIMIT as nat),
{
    lemma_push_all_bounded(log, records, LOG_LIMIT as nat);
}

/// Records of one channel are handed out oldest first, one to a request.
///
/// Of two records that were appended for a channel with nothing else queued
/// for it, the first request from that channel takes the one appended
/// first, the second request takes the other, and a third finds nothing.
pub proof fn lemma_taken_oldest_first(
    log: Seq<ActivityRecordView>,
    first: ActivityRecordView,
    second: ActivityRecordView,
    channel_id: u64,
)
    requires
        first.channel_id == channel_id,
        second.channel_id == channel_id,
        forall|i: int| 0 <= i < log.len() ==> (#[trigger] log[i]).channel_id != channel_id,
    ensures
        ({
            let queued = logged(logged(log, first), second);
            let after_one = without_taken(queued, channel_id);
            let after_two = without_taken(after_one, channel_id);
            &&& taken(queued, channel_id) == Some(first)
            &&& taken(after_one, channel_id) == Some(second)
            &&& taken(after_two, channel_id) is None
            &&& without_taken(after_two, channel_id) == after_two
        }),
{
    let wanted = |r: ActivityRecordView| r.channel_id == channel_id;
    let queued = logged(logged(log, first), second);
    let n = queued.len() as int;
    assert(queued[n - 2] == first && queued[n - 1] == second);
    assert(forall|j: int| 0 <= j < n - 2 ==> !wanted(#[trigger] queued[j]));
    lemma_first_position_is(queued, wanted, n - 2);
    let after_one = without_taken(queued, channel_id);
    assert(after_one =~= queued.remove(n - 2));
    assert(after_one[n - 2] == second);
    assert(forall|j: int| 0 <= j < n - 2 ==> after_one[j] == queued[j]);
    lemma_first_position_is(after_one, wanted, n - 2);
    let after_two = without_taken(after_one, channel_id);
    assert(after_two =~= after_one.remove(n - 2));
    assert(forall|j: int| 0 <= j < n - 2 ==> after_two[j] == queued[j]);
    lemma_first_position_none(after_two, wanted);
}

/// A request never gets a record of another channel: what is taken for
/// `channel_id` was queued for `channel_id`.
pub proof fn lemma_taken_is_of_channel(log: Seq<ActivityRecordView>, channel_id: u64)
    ensures
        taken(log, channel_id) matches Some(record) ==> record.channel_id == channel_id,
        taken(log, channel_id) is None <==> forall|i: int|
            0 <= i < log.len() ==> (#[trigger] log[i]).channel_id != channel_id,
{
    lemma_first_position(log, |r: ActivityRecordView| r.channel_id == channel_id);
}

/// A request never disturbs what another channel has queued.
///
/// After a record was taken for `channel_id`, the log holds for every other
/// channel the same records in the same order, so a request from there takes
/// what it would have taken before.
pub proof fn lemma_taking_leaves_other_channels(
    log: Seq<ActivityRecordView>,
    channel_id: u64,
    other_id: u64,
)
    requires
        other_id != channel_id,
    ensures
        without_taken(log, channel_id).filter(|r: ActivityRecordView| r.channel_id == other_id)
            == log.filter(|r: ActivityRecordView| r.channel_id == other_id),
        taken(without_taken(log, channel_id), other_id) == taken(log, other_id),
{
    let wanted = |r: ActivityRecordView| r.channel_id == channel_id;
    let others = |r: ActivityRecordView| r.channel_id == other_id;
    let after = without_taken(log, channel_id);
    lemma_first_position(log, wanted);
    lemma_first_position(log, others);
    match position_in_channel(log, channel_id) {
        Some(i) => {
            assert(after =~= log.remove(i));
            lemma_remove_keeps_filter(log, others, i);
            match position_in_channel(log, other_id) {
                Some(k) => {
                    if k < i {
                        assert(forall|j: int| 0 <= j <= k ==> after[j] == log[j]);
                        lemma_first_position_is(after, others, k);
                    } else {
                        assert(forall|j: int| i <= j < k ==> after[j] == log[j + 1]);
                        assert(forall|j: int| 0 <= j < i ==> after[j] == log[j]);
                        lemma_first_position_is(after, others, k - 1);
                    }
                },
                None => {
                    assert(forall|j: int| 0 <= j < i ==> after[j] == log[j]);
                    assert(forall|j: int| i <= j < after.len() ==> after[j] == log[j + 1]);
                    lemma_first_position_none(after, others);
                },
            }
        },
        None => {},
    }
}

/// The suspicious activity log: at most [`LOG_LIMIT`] records in the order
/// in which they were appended, oldest first.
pub struct ActivityLog {
    records: Vec<ActivityRecord>,
}

impl View for ActivityLog {
    type V = Seq<ActivityRecordView>;

    closed spec fn view(&self) -> Seq<ActivityRecordView> {
        self.records.deep_view()
    }
}

impl Default for ActivityLog {
    fn default() -> (log: Self)
        ensures
            log@ == Seq::<ActivityRecordView>::empty(),
    {
        ActivityLog::new()
    }
}

impl ActivityLog {
    #[verifier::type_invariant]
    spec fn within_limit(&self) -> bool {
        self.records@.len() <= LOG_LIMIT
    }

    /// An empty log.
    pub fn new() -> (log: Self)
        ensures
            log@ == Seq::<ActivityRecordView>::empty(),
    {
        let log = ActivityLog { records: Vec::new() };
        assert(log@ =~= Seq::<ActivityRecordView>::empty());
        log
    }

    /// How many records are queued.
    pub fn len(&self) -> (n: usize)
        ensures
            n == self@.len(),
            n <= LOG_LIMIT,
    {
        proof {
            use_type_invariant(self);
        }
        self.records.len()
    }

    /// Whether nothing is queued.
    pub fn is_empty(&self) -> (empty: bool)
        ensures
            empty == (self@.len() == 0),
    {
        self.records.is_empty()
    }

    /// The queued records, oldest first.
    pub fn data(&self) -> (records: &Vec<ActivityRecord>)
        ensures
            records.deep_view() == self@,
            records@.len() <= LOG_LIMIT,
    {
        proof {
            use_type_invariant(self);
        }
        &self.records
    }

    /// Appends `record` as the newest entry. A full log makes room by
    /// dropping its oldest record; nothing else is evicted, and no record is
    /// refused.
    pub fn record(&mut self, record: ActivityRecord)
        ensures
            final(self)@ == logged(old(self)@, record@),
            final(self)@.len() <= LOG_LIMIT,
    {
        proof {
            use_type_invariant(&*self);
        }
        let ghost before = self.records.deep_view();
        let mut records: Vec<ActivityRecord> = Vec::new();
        std::mem::swap(&mut records, &mut self.records);
        records.push(record);
        overflow_prevent(&mut records, LOG_LIMIT);
        assert(records.deep_view() =~= logged(before, record@));
        self.records = records;
    }

    /// Scans the log in insertion order for a record of `channel_id`.
    fn find_index(&self, channel_id: u64) -> (found: Option<usize>)
        ensures
            match found {
                Some(i) => {
                    &&& position_in_channel(self@, channel_id) == Some(i as int)
                    &&& i < self.records@.len()
                    &&& self@[i as int].channel_id == channel_id
                },
                None => position_in_channel(self@, channel_id) is None,
            },
    {
        let mut i: usize = 0;
        while i < self.records.len()
            invariant
                i <= self.records@.len(),
                forall|j: int| 0 <= j < i ==> (#[trigger] self@[j]).channel_id != channel_id,
            decreases self.records@.len() - i,
        {
            if self.records[i].channel_id == channel_id {
                proof {
                    assert(self@[i as int].channel_id == channel_id);
                    lemma_first_position(
                        self@,
                        |r: ActivityRecordView| r.channel_id == channel_id,
                    );
                }
                return Some(i);
            }
            i += 1;
        }
        proof {
            lemma_first_position(self@, |r: ActivityRecordView| r.channel_id == channel_id);
        }
        None
    }

    /// Takes the oldest queued record of the channel `channel_id` out of the
    /// log and returns it. Records of other channels are never returned and
    /// never touched; with no record of that channel the log stays as it is.
    pub fn take_first_matching_channel(&mut self, channel_id: u64) -> (record: Option<
        ActivityRecord,
    >)
        ensures
            record.deep_view() == taken(old(self)@, channel_id),
            final(self)@ == without_taken(old(self)@, channel_id),
            record matches Some(r) ==> r@.channel_id == channel_id,
    {
        proof {
            use_type_invariant(&*self);
        }
        match self.find_index(channel_id) {
            Some(i) => {
                let ghost before = self@;
                let mut records: Vec<ActivityRecord> = Vec::new();
                std::mem::swap(&mut records, &mut self.records);
                let record = records.remove(i);
                assert(records.deep_view() =~= before.remove(i as int));
                self.records = records;
                Some(record)
            },
            None => None,
        }
    }
}

} // verus!
