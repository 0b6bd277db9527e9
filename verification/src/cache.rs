//! The recent message cache: the last messages that were seen, each with the
//! identity of its author, so that a later delete or edit notification can be
//! matched to what the message said.

use vstd::prelude::*;
use crate::fifo::{
    first_position, keep_newest, lemma_first_position, lemma_first_position_is,
    lemma_push_all_bounded, lemma_push_bounded, overflow_prevent, push_all_bounded, push_bounded,
};
use crate::identity::{resolve, resolved, Identity, IdentityView};

verus! {

/// The most messages the cache holds at any time.
pub const CACHE_LIMIT: usize = 256;

/// A message as it was seen, with what is known of its author.
///
/// `author` is the name and avatar that came with the message; `member` is
/// what the platform knew of the author as a member when the message came in,
/// where it could tell.
#[derive(Debug, PartialEq, Eq)]
pub struct CachedMessage {
    pub id: u64,
    pub channel_id: u64,
    pub content: String,
    pub author: Identity,
    pub member: Option<Identity>,
}

/// What a [`CachedMessage`] stands for in contracts.
#[verifier::ext_equal]
pub struct CachedMessageView {
    pub id: u64,
    pub channel_id: u64,
    pub content: Seq<char>,
    pub author: IdentityView,
    pub member: Option<IdentityView>,
}

impl CachedMessageView {
    /// The identity the message is attributed to.
    pub open spec fn identity(self) -> IdentityView {
        resolved(self.member, self.author)
    }

    /// The same message with another text.
    pub open spec fn with_content(self, content: Seq<char>) -> CachedMessageView {
        CachedMessageView { content, ..self }
    }
}

impl View for CachedMessage {
    type V = CachedMessageView;

    open spec fn view(&self) -> CachedMessageView {
        CachedMessageView {
            id: self.id,
            channel_id: self.channel_id,
            content: self.content@,
            author: self.author@,
            member: self.member.deep_view(),
        }
    }
}

impl DeepView for CachedMessage {
    type V = CachedMessageView;

    open spec fn deep_view(&self) -> CachedMessageView {
        self@
    }
}

impl Clone for CachedMessage {
    fn clone(&self) -> (copy: Self)
        ensures
            copy@ == self@,
    {
        CachedMessage {
            id: self.id,
            channel_id: self.channel_id,
            content: self.content.clone(),
            author: self.author.clone(),
            member: match &self.member {
                Some(m) => Some(m.clone()),
                None => None,
            },
        }
    }
}

impl CachedMessage {
    /// A message with the given id, channel, text and author.
    pub fn new(
        id: u64,
        channel_id: u64,
        content: String,
        author: Identity,
        member: Option<Identity>,
    ) -> (message: Self)
        ensures
            message@ == (CachedMessageView {
                id,
                channel_id,
                content: content@,
                author: author@,
                member: member.deep_view(),
            }),
    {
        CachedMessage { id, channel_id, content, author, member }
    }

    /// The identity the message is attributed to: the member's where there
    /// is one, the raw author's otherwise.
    pub fn identity(&self) -> (identity: Identity)
        ensures
            identity@ == self@.identity(),
    {
        resolve(&self.member, &self.author)
    }
}

/// Where a scan of the cache first meets the message `id`.
pub open spec fn position_of(entries: Seq<CachedMessageView>, id: u64) -> Option<int> {
    first_position(entries, |m: CachedMessageView| m.id == id)
}

/// The message that a lookup of `id` finds.
pub open spec fn lookup(entries: Seq<CachedMessageView>, id: u64) -> Option<CachedMessageView> {
    match position_of(entries, id) {
        Some(i) => Some(entries[i]),
        None => None,
    }
}

/// The cache after `message` was recorded: the message comes last, and
/// the oldest entry has left if the cache was full.
pub open spec fn recorded(entries: Seq<CachedMessageView>, message: CachedMessageView) -> Seq<
    CachedMessageView,
> {
    push_bounded(entries, message, CACHE_LIMIT as nat)
}

/// The cache after the message that a lookup of `id` finds took `content`
/// as its text. Without such a message the cache is unchanged.
pub open spec fn edited(entries: Seq<CachedMessageView>, id: u64, content: Seq<char>) -> Seq<
    CachedMessageView,
> {
    match position_of(entries, id) {
        Some(i) => entries.update(i, entries[i].with_content(content)),
        None => entries,
    }
}

/// The entries that are still cached once one more message was recorded:
/// all of them, or all but the oldest where the cache was full.
pub open spec fn surviving(entries: Seq<CachedMessageView>) -> Seq<CachedMessageView> {
    keep_newest(entries, (CACHE_LIMIT - 1) as nat)
}

/// Whether no two entries carry the same message id.
pub open spec fn ids_distinct(entries: Seq<CachedMessageView>) -> bool {
    forall|i: int, j: int| 0 <= i < j < entries.len() ==> entries[i].id != entries[j].id
}

/// The cache after each of `messages` was recorded in turn.
pub open spec fn recorded_all(
    entries: Seq<CachedMessageView>,
    messages: Seq<CachedMessageView>,
) -> Seq<CachedMessageView> {
    push_all_bounded(entries, messages, CACHE_LIMIT as nat)
}

/// Recording a message never leaves more than [`CACHE_LIMIT`] entries.
/// Below the limit the message is simply appended; at the limit exactly one
/// entry leaves, the oldest, and the rest move up in their order.
pub proof fn lemma_recorded_within_limit(
    entries: Seq<CachedMessageView>,
    message: CachedMessageView,
)
    ensures
        recorded(entries, message).len() <= CACHE_LIMIT,
        recorded(entries, message) == surviving(entries).push(message),
        entries.len() < CACHE_LIMIT ==> surviving(entries) == entries,
        entries.len() == CACHE_LIMIT ==> surviving(entries) == entries.drop_first(),
{
    lemma_push_bounded(entries, message, CACHE_LIMIT as nat);
    assert(recorded(entries, message) =~= surviving(entries).push(message));
}

/// However many messages are recorded, the cache never exceeds
/// [`CACHE_LIMIT`]: it holds the newest of them, in the order in which they
/// came.
pub proof fn lemma_recorded_all_within_limit(
    entries: Seq<CachedMessageView>,
    messages: Seq<CachedMessageView>,
)
    requires
        entries.len() <= CACHE_LIMIT,
    ensures
        recorded_all(entries, messages).len() <= CACHE_LIMIT,
        recorded_all(entries, messages) == keep_newest(entries + messages, CACHE_LIMIT as nat),
{
    lemma_push_all_bounded(entries, messages, CACHE_LIMIT as nat);
}

/// A message that was just recorded is found under its id, as it was
/// recorded. This holds unless an older entry that is still cached carries
/// the same id with other contents: a lookup finds the older one first.
pub proof fn lemma_lookup_after_record(entries: Seq<CachedMessageView>, message: CachedMessageView)
    requires
        forall|i: int|
            0 <= i < surviving(entries).len() && (#[trigger] surviving(entries)[i]).id
                == message.id ==> surviving(entries)[i] == message,
    ensures
        lookup(recorded(entries, message), message.id) == Some(message),
{
    let after = recorded(entries, message);
    lemma_recorded_within_limit(entries, message);
    lemma_first_position(after, |m: CachedMessageView| m.id == message.id);
    assert(after[after.len() - 1] == message);
    assert(forall|i: int| 0 <= i < after.len() - 1 ==> after[i] == surviving(entries)[i]);
}

/// Recording a message under an id that the cache does not hold keeps the
/// ids in the cache distinct.
pub proof fn lemma_record_keeps_ids_distinct(
    entries: Seq<CachedMessageView>,
    message: CachedMessageView,
)
    requires
        ids_distinct(entries),
        forall|i: int| 0 <= i < entries.len() ==> (#[trigger] entries[i]).id != message.id,
    ensures
        ids_distinct(recorded(entries, message)),
{
}

/// Giving a cached message another text changes neither the ids in the
/// cache nor their order. The message is still the one a lookup finds, now
/// with the new text.
pub proof fn lemma_edited_keeps_ids(entries: Seq<CachedMessageView>, id: u64, content: Seq<char>)
    ensures
        edited(entries, id, content).len() == entries.len(),
        forall|i: int|
            0 <= i < entries.len() ==> (#[trigger] edited(entries, id, content)[i]).id
                == entries[i].id,
        ids_distinct(entries) ==> ids_distinct(edited(entries, id, content)),
        lookup(edited(entries, id, content), id) == match lookup(entries, id) {
            Some(message) => Some(message.with_content(content)),
            None => None,
        },
{
    let wanted = |m: CachedMessageView| m.id == id;
    let after = edited(entries, id, content);
    lemma_first_position(entries, wanted);
    match position_of(entries, id) {
        Some(i) => {
            assert(after[i].id == id);
            assert(forall|j: int| 0 <= j < i ==> after[j] == entries[j]);
            lemma_first_position_is(after, wanted, i);
        },
        None => {},
    }
}

/// The recent message cache: at most [`CACHE_LIMIT`] messages in the order
/// in which they were recorded, oldest first.
pub struct MessageCache {
    entries: Vec<CachedMessage>,
}

impl View for MessageCache {
    type V = Seq<CachedMessageView>;

    closed spec fn view(&self) -> Seq<CachedMessageView> {
        self.entries.deep_view()
    }
}

impl Default for MessageCache {
    fn default() -> (cache: Self)
        ensures
            cache@ == Seq::<CachedMessageView>::empty(),
    {
        MessageCache::new()
    }
}

impl MessageCache {
    #[verifier::type_invariant]
    spec fn within_limit(&self) -> bool {
        self.entries@.len() <= CACHE_LIMIT
    }

    /// An empty cache.
    pub fn new() -> (cache: Self)
        ensures
            cache@ == Seq::<CachedMessageView>::empty(),
    {
        let cache = MessageCache { entries: Vec::new() };
        assert(cache@ =~= Seq::<CachedMessageView>::empty());
        cache
    }

    /// How many messages the cache holds.
    pub fn len(&self) -> (n: usize)
        ensures
            n == self@.len(),
            n <= CACHE_LIMIT,
    {
        proof {
            use_type_invariant(self);
        }
        self.entries.len()
    }

    /// Whether the cache holds no message.
    pub fn is_empty(&self) -> (empty: bool)
        ensures
            empty == (self@.len() == 0),
    {
        self.entries.is_empty()
    }

    /// The cached messages, oldest first.
    pub fn data(&self) -> (entries: &Vec<CachedMessage>)
        ensures
            entries.deep_view() == self@,
            entries@.len() <= CACHE_LIMIT,
    {
        proof {
            use_type_invariant(self);
        }
        &self.entries
    }

    /// Records `message` as the newest entry. A full cache makes room by
    /// dropping its oldest entry; nothing else is evicted, and no insertion
    /// is refused.
    pub fn record(&mut self, message: CachedMessage)
        ensures
            final(self)@ == recorded(old(self)@, message@),
            final(self)@.len() <= CACHE_LIMIT,
    {
        proof {
            use_type_invariant(&*self);
        }
        let ghost before = self.entries.deep_view();
        let mut entries: Vec<CachedMessage> = Vec::new();
        std::mem::swap(&mut entries, &mut self.entries);
        entries.push(message);
        overflow_prevent(&mut entries, CACHE_LIMIT);
        assert(entries.deep_view() =~= recorded(before, message@));
        self.entries = entries;
    }

    /// Scans the cache in insertion order for the message `id`.
    fn find_index(&self, id: u64) -> (found: Option<usize>)
        ensures
            match found {
                Some(i) => position_of(self@, id) == Some(i as int) && i < self.entries@.len(),
                None => position_of(self@, id) is None,
            },
    {
        let mut i: usize = 0;
        while i < self.entries.len()
            invariant
                i <= self.entries@.len(),
                forall|j: int| 0 <= j < i ==> (#[trigger] self@[j]).id != id,
            decreases self.entries@.len() - i,
        {
            if self.entries[i].id == id {
                proof {
                    assert(self@[i as int].id == id);
                    lemma_first_position(self@, |m: CachedMessageView| m.id == id);
                }
                return Some(i);
            }
            i += 1;
        }
        proof {
            lemma_first_position(self@, |m: CachedMessageView| m.id == id);
        }
        None
    }

    /// Looks the message `id` up. Where several entries carry the id, the
    /// one recorded first is found.
    pub fn find_by_id(&self, id: u64) -> (found: Option<&CachedMessage>)
        ensures
            found.deep_view() == lookup(self@, id),
    {
        match self.find_index(id) {
            Some(i) => Some(&self.entries[i]),
            None => None,
        }
    }

    /// Looks the message `id` up as [`find_by_id`](Self::find_by_id) does
    /// and hands it out for change. The cache is what it was, but for the
    /// entry that was found, which is what the caller leaves behind.
    pub fn find_by_id_mut(&mut self, id: u64) -> (found: Option<&mut CachedMessage>)
        ensures
            match position_of(old(self)@, id) {
                Some(i) => {
                    &&& 0 <= i < old(self)@.len()
                    &&& found matches Some(m)
                    &&& m@ == old(self)@[i]
                    &&& final(self)@ == old(self)@.update(i, final(m)@)
                },
                None => found is None && final(self)@ == old(self)@,
            },
    {
        proof {
            use_type_invariant(&*self);
        }
        match self.find_index(id) {
            Some(i) => Some(&mut self.entries[i]),
            None => None,
        }
    }
}

} // verus!
