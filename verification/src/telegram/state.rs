//! The state of the Telegram channel: the bot, its counters, its recent messages, and the approvals
//! that the operator was told of.
use vstd::prelude::*;
use crate::text::{self, Text};

verus! {

/// The bot's own identity.
#[derive(Debug, Clone, PartialEq, Eq)]
pub struct BotIdentity {
    pub user_id: i64,
    pub username: String,
    pub first_name: String,
}

/// The mathematical model of [`BotIdentity`].
pub struct IdentityRec {
    pub user_id: i64,
    pub username: Text,
    pub first_name: Text,
}

impl View for BotIdentity {
    type V = IdentityRec;

    open spec fn view(&self) -> IdentityRec {
        IdentityRec { user_id: self.user_id, username: self.username@, first_name: self.first_name@ }
    }
}

/// State of the channel.
#[derive(Debug, Clone)]
pub struct ChannelState {
    online: bool,
    identity: BotIdentity,
    messages_seen: u64,
    last_message_at: Option<i64>,
}

/// The mathematical model of [`ChannelState`].
pub struct ChannelRec {
    pub online: bool,
    pub identity: IdentityRec,
    pub messages_seen: u64,
    pub last_message_at: Option<i64>,
}

impl View for ChannelState {
    type V = ChannelRec;

    closed spec fn view(&self) -> ChannelRec {
        ChannelRec {
            online: self.online,
            identity: self.identity@,
            messages_seen: self.messages_seen,
            last_message_at: self.last_message_at,
        }
    }
}

impl ChannelRec {
    /// The state of a channel that was not started.
    pub open spec fn idle() -> ChannelRec {
        ChannelRec {
            online: false,
            identity: IdentityRec { user_id: 0, username: Seq::empty(), first_name: Seq::empty() },
            messages_seen: 0,
            last_message_at: None,
        }
    }

    /// The state after a message came in.
    pub open spec fn with_inbound(self, ts: i64) -> ChannelRec {
        ChannelRec { messages_seen: (self.messages_seen + 1) as u64, last_message_at: Some(ts), ..self }
    }
}

impl Default for ChannelState {
    fn default() -> (r: Self)
        ensures
            r@ == ChannelRec::idle(),
    {
        ChannelState {
            online: false,
            identity: BotIdentity { user_id: 0, username: String::new(), first_name: String::new() },
            messages_seen: 0,
            last_message_at: None,
        }
    }
}

impl ChannelState {
    /// Whether the bot was started.
    pub fn online(&self) -> (r: bool)
        ensures
            r == self@.online,
    {
        self.online
    }

    /// The bot's identity.
    pub fn identity(&self) -> (r: BotIdentity)
        ensures
            r@ == self@.identity,
    {
        BotIdentity {
            user_id: self.identity.user_id,
            username: self.identity.username.clone(),
            first_name: self.identity.first_name.clone(),
        }
    }

    /// How many messages came in.
    pub fn messages_seen(&self) -> (r: u64)
        ensures
            r == self@.messages_seen,
    {
        self.messages_seen
    }

    /// When the last message came in.
    pub fn last_message_at(&self) -> (r: Option<i64>)
        ensures
            r == self@.last_message_at,
    {
        self.last_message_at
    }

    /// Notes the bot's identity; from then on it is online.
    pub fn mark_online(&mut self, id: BotIdentity)
        ensures
            final(self)@ == (ChannelRec { online: true, identity: id@, ..old(self)@ }),
    {
        self.identity = id;
        self.online = true;
    }

    /// Notes that a message came in.
    pub fn record_inbound(&mut self, ts: i64)
        requires
            old(self)@.messages_seen < u64::MAX,
        ensures
            final(self)@ == old(self)@.with_inbound(ts),
    {
        self.messages_seen = self.messages_seen + 1;
        self.last_message_at = Some(ts);
    }
}

/// The approvals that the operator was told of.
#[derive(Debug, Clone)]
pub struct NotifierState {
    seen: Vec<String>,
}

impl View for NotifierState {
    type V = Seq<Text>;

    closed spec fn view(&self) -> Seq<Text> {
        text::texts(self.seen@)
    }
}

impl Default for NotifierState {
    fn default() -> (r: Self)
        ensures
            r@ == Seq::<Text>::empty(),
    {
        let r = NotifierState { seen: Vec::new() };
        assert(r@ =~= Seq::empty());
        r
    }
}

/// The approvals after one more was to be told of.
pub open spec fn notified(seen: Seq<Text>, id: Text) -> Seq<Text> {
    if seen.contains(id) {
        seen
    } else {
        seen.push(id)
    }
}

impl NotifierState {
    /// Notes an approval; `true` where the operator was not told of it before.
    pub fn mark_notified(&mut self, task_id: &str) -> (r: bool)
        ensures
            r == !old(self)@.contains(task_id@),
            final(self)@ == notified(old(self)@, task_id@),
    {
        let ghost all = self@;
        let mut i: usize = 0;
        while i < self.seen.len()
            invariant
                i <= self.seen@.len(),
                self@ == all,
                all == text::texts(self.seen@),
                forall|k: int| 0 <= k < i ==> #[trigger] all[k] != task_id@,
            decreases self.seen@.len() - i,
        {
            assert(all[i as int] == self.seen@[i as int]@);
            if text::same(self.seen[i].as_str(), task_id) {
                return false;
            }
            i = i + 1;
        }
        self.seen.push(text::owned(task_id));
        assert(text::texts(self.seen@) =~= all.push(task_id@));
        true
    }

    /// How many approvals the operator was told of.
    pub fn count(&self) -> (r: usize)
        ensures
            r == self@.len(),
    {
        self.seen.len()
    }
}

/// The operator is told of each approval at most once.
pub proof fn law_notified_once(seen: Seq<Text>, id: Text)
    requires
        seen.no_duplicates(),
    ensures
        notified(seen, id).no_duplicates(),
        notified(seen, id).contains(id),
        notified(notified(seen, id), id) == notified(seen, id),
        forall|other: Text| seen.contains(other) ==> #[trigger] notified(seen, id).contains(other),
{
    let new = notified(seen, id);
    if !seen.contains(id) {
        assert(new[seen.len() as int] == id);
        assert forall|other: Text| seen.contains(other) implies #[trigger] new.contains(other) by {
            let k = choose|k: int| 0 <= k < seen.len() && seen[k] == other;
            assert(new[k] == other);
        }
    }
}

/// A message that came in.
#[derive(Debug, Clone, PartialEq, Eq)]
pub struct RecordedInbound {
    pub ts: i64,
    pub user_id: i64,
    pub username: String,
    pub chat_id: i64,
    pub text: String,
}

/// The mathematical model of [`RecordedInbound`].
pub struct InboundRec {
    pub ts: i64,
    pub user_id: i64,
    pub username: Text,
    pub chat_id: i64,
    pub text: Text,
}

impl View for RecordedInbound {
    type V = InboundRec;

    open spec fn view(&self) -> InboundRec {
        InboundRec {
            ts: self.ts,
            user_id: self.user_id,
            username: self.username@,
            chat_id: self.chat_id,
            text: self.text@,
        }
    }
}

/// The most recent messages, up to a number of them.
#[derive(Debug, Clone)]
pub struct MessageRing {
    items: Vec<RecordedInbound>,
    capacity: usize,
}

/// The mathematical model of [`MessageRing`], oldest message first.
pub struct RingRec {
    pub items: Seq<InboundRec>,
    pub capacity: usize,
}

pub open spec fn inbound_recs(v: Seq<RecordedInbound>) -> Seq<InboundRec> {
    v.map_values(|m: RecordedInbound| m@)
}

impl View for MessageRing {
    type V = RingRec;

    closed spec fn view(&self) -> RingRec {
        RingRec { items: inbound_recs(self.items@), capacity: self.capacity }
    }
}

impl RingRec {
    /// The ring after one more message: the oldest leaves where it is full.
    pub open spec fn with(self, m: InboundRec) -> RingRec {
        let all = self.items.push(m);
        RingRec {
            items: if all.len() > self.capacity {
                all.skip(all.len() - self.capacity)
            } else {
                all
            },
            ..self
        }
    }
}

impl MessageRing {
    /// A ring without messages.
    pub fn new(capacity: usize) -> (r: Self)
        ensures
            r@ == (RingRec { items: Seq::empty(), capacity }),
    {
        let r = MessageRing { items: Vec::new(), capacity };
        assert(r@.items =~= Seq::empty());
        r
    }

    /// Puts a message in.
    pub fn record(&mut self, m: RecordedInbound)
        ensures
            final(self)@ == old(self)@.with(m@),
    {
        let ghost before = self@.items;
        let ghost rec = m@;
        self.items.push(m);
        assert(inbound_recs(self.items@) =~= before.push(rec));
        if self.items.len() > self.capacity {
            let from: usize = self.items.len() - self.capacity;
            let ghost all = self.items@;
            let tail = self.items.split_off(from);
            self.items = tail;
            assert(inbound_recs(self.items@) =~= inbound_recs(all).skip(from as int));
        }
    }

    /// How many messages the ring holds.
    pub fn len(&self) -> (r: usize)
        ensures
            r == self@.items.len(),
    {
        self.items.len()
    }

    /// The messages, oldest first.
    pub fn snapshot(&self) -> (r: &Vec<RecordedInbound>)
        ensures
            inbound_recs(r@) == self@.items,
    {
        &self.items
    }
}

/// A ring holds the newest message last and never more than its capacity.
pub proof fn law_ring_keeps_the_newest(ring: RingRec, m: InboundRec)
    requires
        ring.capacity >= 1,
        ring.items.len() <= ring.capacity,
    ensures
        ring.with(m).items.len() <= ring.capacity,
        ring.with(m).items.last() == m,
        ring.items.len() < ring.capacity ==> ring.with(m).items == ring.items.push(m),
{
}

} // verus!
