//! Slack channel: the bot's state and what it reports.
use vstd::prelude::*;
use crate::channel;
use crate::dispatch::{self, HandlerOutcome, InvocationCtx, Reply};
use crate::listing;
use crate::numeral;
use crate::text::{self, Text};

verus! {

/// The bot's own identity.
#[derive(Debug, Clone, PartialEq, Eq)]
pub struct BotIdentity {
    pub user_id: String,
    pub team_id: String,
    pub bot_id: String,
    pub username: String,
}

/// The mathematical model of [`BotIdentity`].
pub struct IdentityRec {
    pub user_id: Text,
    pub team_id: Text,
    pub bot_id: Text,
    pub username: Text,
}

impl View for BotIdentity {
    type V = IdentityRec;

    open spec fn view(&self) -> IdentityRec {
        IdentityRec {
            user_id: self.user_id@,
            team_id: self.team_id@,
            bot_id: self.bot_id@,
            username: self.username@,
        }
    }
}

/// State of the channel.
#[derive(Debug, Clone)]
pub struct ChannelState {
    online: bool,
    identity: BotIdentity,
    messages_seen: u64,
    last_message_at: Option<i64>,
}

/// The mathematical model of [`ChannelState`].
pub struct ChannelRec {
    pub online: bool,
    pub identity: IdentityRec,
    pub messages_seen: u64,
    pub last_message_at: Option<i64>,
}

impl View for ChannelState {
    type V = ChannelRec;

    closed spec fn view(&self) -> ChannelRec {
        ChannelRec {
            online: self.online,
            identity: self.identity@,
            messages_seen: self.messages_seen,
            last_message_at: self.last_message_at,
        }
    }
}

impl ChannelRec {
    /// The state of a channel that was not started.
    pub open spec fn idle() -> ChannelRec {
        ChannelRec {
            online: false,
            identity: IdentityRec {
                user_id: Seq::empty(),
                team_id: Seq::empty(),
                bot_id: Seq::empty(),
                username: Seq::empty(),
            },
            messages_seen: 0,
            last_message_at: None,
        }
    }

    /// The state after a message came in.
    pub open spec fn with_inbound(self, ts: i64) -> ChannelRec {
        ChannelRec { messages_seen: (self.messages_seen + 1) as u64, last_message_at: Some(ts), ..self }
    }
}

impl Default for ChannelState {
    fn default() -> (r: Self)
        ensures
            r@ == ChannelRec::idle(),
    {
        ChannelState {
            online: false,
            identity: BotIdentity {
                user_id: String::new(),
                team_id: String::new(),
                bot_id: String::new(),
                username: String::new(),
            },
            messages_seen: 0,
            last_message_at: None,
        }
    }
}

impl ChannelState {
    /// Notes the bot's identity; from then on it is online.
    pub fn mark_online(&mut self, id: BotIdentity)
        ensures
            final(self)@ == (ChannelRec { online: true, identity: id@, ..old(self)@ }),
    {
        self.identity = id;
        self.online = true;
    }

    /// Notes that a message came in.
    pub fn record_inbound(&mut self, ts: i64)
        requires
            old(self)@.messages_seen < u64::MAX,
        ensures
            final(self)@ == old(self)@.with_inbound(ts),
    {
        self.messages_seen = self.messages_seen + 1;
        self.last_message_at = Some(ts);
    }
}

/// A message that came in; its time is the number that the service gave it.
#[derive(Debug, Clone, PartialEq, Eq)]
pub struct RecordedInbound {
    pub ts: String,
    pub user_id: String,
    pub username: String,
    pub channel_id: String,
    pub text: String,
}

/// The mathematical model of [`RecordedInbound`].
pub struct InboundRec {
    pub ts: Text,
    pub user_id: Text,
    pub username: Text,
    pub channel_id: Text,
    pub text: Text,
}

impl View for RecordedInbound {
    type V = InboundRec;

    open spec fn view(&self) -> InboundRec {
        InboundRec {
            ts: self.ts@,
            user_id: self.user_id@,
            username: self.username@,
            channel_id: self.channel_id@,
            text: self.text@,
        }
    }
}

/// The most recent messages, up to a number of them.
#[derive(Debug, Clone)]
pub struct MessageRing {
    items: Vec<RecordedInbound>,
    capacity: usize,
}

/// The mathematical model of [`MessageRing`], oldest message first.
pub struct RingRec {
    pub items: Seq<InboundRec>,
    pub capacity: usize,
}

pub open spec fn inbound_recs(v: Seq<RecordedInbound>) -> Seq<InboundRec> {
    v.map_values(|m: RecordedInbound| m@)
}

impl View for MessageRing {
    type V = RingRec;

    closed spec fn view(&self) -> RingRec {
        RingRec { items: inbound_recs(self.items@), capacity: self.capacity }
    }
}

impl RingRec {
    /// The ring after one more message: the oldest leaves where it is full.
    pub open spec fn with(self, m: InboundRec) -> RingRec {
        let all = self.items.push(m);
        RingRec {
            items: if all.len() > self.capacity {
                all.skip(all.len() - self.capacity)
            } else {
                all
            },
            ..self
        }
    }
}

impl MessageRing {
    /// A ring without messages.
    pub fn new(capacity: usize) -> (r: Self)
        ensures
            r@ == (RingRec { items: Seq::empty(), capacity }),
    {
        let r = MessageRing { items: Vec::new(), capacity };
        assert(r@.items =~= Seq::empty());
        r
    }

    /// Puts a message in.
    pub fn record(&mut self, m: RecordedInbound)
        ensures
            final(self)@ == old(self)@.with(m@),
    {
        let ghost before = self@.items;
        let ghost rec = m@;
        self.items.push(m);
        assert(inbound_recs(self.items@) =~= before.push(rec));
        if self.items.len() > self.capacity {
            let from: usize = self.items.len() - self.capacity;
            let ghost all = self.items@;
            let tail = self.items.split_off(from);
            self.items = tail;
            assert(inbound_recs(self.items@) =~= inbound_recs(all).skip(from as int));
        }
    }
}

/// The status of the channel as one line of `key=value` fields.
pub open spec fn status_text(c: ChannelRec, channel_id: Text) -> Text {
    "online="@ + channel::bool_word(c.online) + "|username="@ + c.identity.username + "|user_id="@ + c.identity.user_id
        + "|team_id="@ + c.identity.team_id + "|channel_id="@ + channel_id + "|messages_seen="@ + numeral::dec(
        c.messages_seen as int,
    ) + "|last_message_at="@ + numeral::dec(
        match c.last_message_at {
            Some(t) => t as int,
            None => -1,
        },
    ) + "\n"@
}

/// The status of the channel.
pub fn render_status_body(state: &ChannelState, channel_id: &str) -> (r: String)
    ensures
        r@ == status_text(state@, channel_id@),
{
    let mut s = text::owned("online=");
    channel::push_bool(&mut s, state.online);
    s.append("|username=");
    s.append(state.identity.username.as_str());
    s.append("|user_id=");
    s.append(state.identity.user_id.as_str());
    s.append("|team_id=");
    s.append(state.identity.team_id.as_str());
    s.append("|channel_id=");
    s.append(channel_id);
    s.append("|messages_seen=");
    numeral::push_int(&mut s, state.messages_seen as i128);
    s.append("|last_message_at=");
    let at: i64 = match state.last_message_at {
        Some(t) => t,
        None => -1,
    };
    numeral::push_i64(&mut s, at);
    s.append("\n");
    s
}

/// A message as a line.
pub open spec fn message_line(m: InboundRec) -> Text {
    m.ts + "\t"@ + m.user_id + "\t"@ + m.username + "\t"@ + m.channel_id + "\t"@ + channel::preview(m.text, 100)
}

/// A message as a row.
pub open spec fn message_row(m: InboundRec) -> Text {
    message_line(m) + "\n"@
}

fn message_row_string(m: &RecordedInbound) -> (r: String)
    ensures
        r@ == message_row(m@),
{
    let mut s = m.ts.clone();
    s.append("\t");
    s.append(m.user_id.as_str());
    s.append("\t");
    s.append(m.username.as_str());
    s.append("\t");
    s.append(m.channel_id.as_str());
    s.append("\t");
    let p = channel::truncate_preview(m.text.as_str(), 100);
    s.append(p.as_str());
    s.append("\n");
    s
}

/// The newest messages as rows, newest first.
pub open spec fn recent_text(ring: RingRec, limit: usize) -> Text {
    text::flat(listing::first(ring.items.reverse(), limit as int).map_values(|m: InboundRec| message_row(m)))
}

/// The newest messages as rows, newest first.
pub fn render_recent_body(ring: &MessageRing, limit: usize) -> (r: String)
    ensures
        r@ == recent_text(ring@, limit),
{
    let items = &ring.items;
    let ghost all = ring@.items.reverse();
    let ghost shown = listing::first(all, limit as int).map_values(|m: InboundRec| message_row(m));
    let n: usize = if limit < items.len() {
        limit
    } else {
        items.len()
    };
    let mut rows: Vec<String> = Vec::new();
    let mut i: usize = 0;
    while i < n
        invariant
            i <= n,
            n <= items@.len(),
            n == shown.len(),
            inbound_recs(items@) == ring@.items,
            all == ring@.items.reverse(),
            all.len() == items@.len(),
            shown == listing::first(all, limit as int).map_values(|m: InboundRec| message_row(m)),
            rows@.len() == i,
            forall|k: int| 0 <= k < i ==> (#[trigger] rows@[k])@ == shown[k],
        decreases n - i,
    {
        let at: usize = items.len() - 1 - i;
        assert(all[i as int] == ring@.items[at as int]);
        assert(ring@.items[at as int] == items@[at as int]@);
        assert(shown[i as int] == message_row(all[i as int]));
        rows.push(message_row_string(&items[at]));
        i = i + 1;
    }
    assert(text::texts(rows@) =~= shown);
    text::concat_all(&rows)
}

/// `slack.status`: the status of the channel. The argument is not read.
pub fn handle_status(state: &ChannelState, channel_id: &str, _ctx: &InvocationCtx) -> (r: HandlerOutcome)
    ensures
        r@ == Reply::body(status_text(state@, channel_id@)),
{
    dispatch::body(render_status_body(state, channel_id))
}

/// `slack.messages_recent`: the newest messages, by their number.
pub fn handle_messages_recent(ring: &MessageRing, ctx: &InvocationCtx) -> (r: HandlerOutcome)
    ensures
        r@ == Reply::body(recent_text(ring@, channel::wanted(ctx@))),
{
    let n = channel::rows_wanted(ctx);
    dispatch::body(render_recent_body(ring, n))
}

/// Whether no column of a message but its text holds a line feed.
pub open spec fn columns_fit(m: InboundRec) -> bool {
    !m.ts.contains('\n') && !m.user_id.contains('\n') && !m.username.contains('\n') && !m.channel_id.contains('\n')
}

proof fn lemma_line_fits(m: InboundRec)
    requires
        columns_fit(m),
    ensures
        !message_line(m).contains('\n'),
{
    reveal_strlit("\t");
    assert("\t"@ =~= seq!['\t']);
    channel::law_preview_fits_a_row(m.text, 100);
    let p = channel::preview(m.text, 100);
    assert(!p.contains('\n'));
    text::lemma_parts_lack(m.ts, "\t"@, '\n');
    text::lemma_parts_lack(m.ts + "\t"@, m.user_id, '\n');
    text::lemma_parts_lack(m.ts + "\t"@ + m.user_id, "\t"@, '\n');
    text::lemma_parts_lack(m.ts + "\t"@ + m.user_id + "\t"@, m.username, '\n');
    text::lemma_parts_lack(m.ts + "\t"@ + m.user_id + "\t"@ + m.username, "\t"@, '\n');
    text::lemma_parts_lack(m.ts + "\t"@ + m.user_id + "\t"@ + m.username + "\t"@, m.channel_id, '\n');
    text::lemma_parts_lack(m.ts + "\t"@ + m.user_id + "\t"@ + m.username + "\t"@ + m.channel_id, "\t"@, '\n');
    text::lemma_parts_lack(m.ts + "\t"@ + m.user_id + "\t"@ + m.username + "\t"@ + m.channel_id + "\t"@, p, '\n');
}

/// The lines that a listing shows: the newest message first.
pub open spec fn recent_lines(ring: RingRec, limit: usize) -> Seq<Text> {
    listing::first(ring.items.reverse(), limit as int).map_values(|m: InboundRec| message_line(m))
}

/// A listing has one line for each message that it shows, newest first, and no more than were asked for,
/// whatever stands in the texts; of a text it shows at most a hundred characters.
pub proof fn law_one_line_for_each_message(ring: RingRec, limit: usize, i: int)
    requires
        forall|k: int| 0 <= k < ring.items.len() ==> columns_fit(#[trigger] ring.items[k]),
    ensures
        ({
            let lines = recent_lines(ring, limit);
            let n = ring.items.len();
            &&& lines.len() == if limit < n { limit as int } else { n as int }
            &&& 0 <= i < lines.len() ==> lines[i] == message_line(ring.items[n - 1 - i]) && channel::preview(
                ring.items[n - 1 - i].text,
                100,
            ).len() <= 100
            &&& recent_text(ring, limit) == text::as_lines(lines)
            &&& text::split_all(recent_text(ring, limit), '\n') == lines.push(Seq::empty())
            &&& lines.len() == 0 ==> recent_text(ring, limit).len() == 0
        }),
{
    let lines = recent_lines(ring, limit);
    let shown = listing::first(ring.items.reverse(), limit as int);
    reveal_strlit("\n");
    assert("\n"@ =~= seq!['\n']);
    assert(shown.map_values(|m: InboundRec| message_row(m)) =~= lines.map_values(|l: Text| l + seq!['\n']));
    assert forall|k: int| 0 <= k < lines.len() implies !(#[trigger] lines[k]).contains('\n') by {
        lemma_line_fits(ring.items[ring.items.len() - 1 - k]);
    }
    text::law_lines_are_told_apart(lines);
    if 0 <= i < lines.len() {
        channel::law_preview_fits_a_row(ring.items[ring.items.len() - 1 - i].text, 100);
    }
}

/// A shorter listing is the beginning of a longer one.
pub proof fn law_shorter_listings_are_prefixes(ring: RingRec, a: usize, b: usize)
    requires
        a <= b,
    ensures
        recent_text(ring, a).len() <= recent_text(ring, b).len(),
        recent_text(ring, b).take(recent_text(ring, a).len() as int) == recent_text(ring, a),
{
    let f = |m: InboundRec| message_row(m);
    let long = listing::first(ring.items.reverse(), b as int).map_values(f);
    let short = listing::first(ring.items.reverse(), a as int).map_values(f);
    assert(short =~= long.take(short.len() as int));
    text::law_shorter_lists_are_prefixes(long, short.len() as int);
}

/// A ring keeps the newest messages in their order: one that is full drops its oldest for a new one.
pub proof fn law_rings_keep_the_newest(ring: RingRec, m: InboundRec)
    requires
        ring.capacity >= 1,
        ring.items.len() <= ring.capacity,
    ensures
        ring.with(m).capacity == ring.capacity,
        ring.with(m).items.last() == m,
        ring.items.len() < ring.capacity ==> ring.with(m).items == ring.items.push(m),
        ring.items.len() == ring.capacity ==> ring.with(m).items == ring.items.skip(1).push(m),
{
    if ring.items.len() == ring.capacity {
        assert(ring.with(m).items =~= ring.items.skip(1).push(m));
    }
}

/// A message that comes in counts one up, is the last one, and changes neither the bot nor whether it is
/// online.
pub proof fn law_messages_are_counted(c: ChannelRec, ts: i64)
    requires
        c.messages_seen < u64::MAX,
    ensures
        c.with_inbound(ts).messages_seen == c.messages_seen + 1,
        c.with_inbound(ts).last_message_at == Some(ts),
        c.with_inbound(ts).online == c.online,
        c.with_inbound(ts).identity == c.identity,
{
}

/// The status tells what the channel holds: whether it is online, who the bot is and where, how many
/// messages came in and when the last one did, with -1 before the first.
pub proof fn law_status_is_told(c: ChannelRec, channel_id: Text)
    ensures
        status_text(c, channel_id) == "online="@ + (if c.online {
            "true"@
        } else {
            "false"@
        }) + "|username="@ + c.identity.username + "|user_id="@ + c.identity.user_id + "|team_id="@ + c.identity.team_id
            + "|channel_id="@ + channel_id + "|messages_seen="@ + numeral::dec(c.messages_seen as int) + "|last_message_at="@
            + (match c.last_message_at {
            Some(t) => numeral::dec(t as int),
            None => numeral::dec(-1),
        }) + "\n"@,
{
}

/// A message is a row of its time, user, name, channel and the first hundred characters of its text.
pub proof fn law_messages_are_rows(m: InboundRec)
    ensures
        message_row(m) == m.ts + "\t"@ + m.user_id + "\t"@ + m.username + "\t"@ + m.channel_id + "\t"@ + channel::preview(
            m.text,
            100,
        ) + "\n"@,
{
}

/// A channel that was not started has seen nothing and is nobody.
pub proof fn law_channels_begin_empty()
    ensures
        !ChannelRec::idle().online,
        ChannelRec::idle().messages_seen == 0,
        ChannelRec::idle().last_message_at is None,
        ChannelRec::idle().identity.username.len() == 0,
        ChannelRec::idle().identity.user_id.len() == 0,
{
}

} // verus!
