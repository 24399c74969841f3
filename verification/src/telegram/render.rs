//! What the Telegram channel reports of itself.
use vstd::prelude::*;
use crate::channel;
use crate::dispatch::{self, HandlerOutcome, InvocationCtx, Reply};
use crate::listing;
use crate::numeral;
use crate::telegram::state::{self, ChannelRec, ChannelState, InboundRec, MessageRing, RecordedInbound, RingRec};
use crate::text::{self, Text};

verus! {

/// The status of the channel as one line of `key=value` fields.
pub open spec fn status_text(c: ChannelRec) -> Text {
    "online="@ + channel::bool_word(c.online) + "|username="@ + c.identity.username + "|first_name="@
        + c.identity.first_name + "|user_id="@ + numeral::dec(c.identity.user_id as int) + "|messages_seen="@
        + numeral::dec(c.messages_seen as int) + "|last_message_at="@ + numeral::dec(
        match c.last_message_at {
            Some(t) => t as int,
            None => -1,
        },
    ) + "\n"@
}

/// The status of the channel.
pub fn render_status_body(state: &ChannelState) -> (r: String)
    ensures
        r@ == status_text(state@),
{
    let id = state.identity();
    let mut s = text::owned("online=");
    channel::push_bool(&mut s, state.online());
    s.append("|username=");
    s.append(id.username.as_str());
    s.append("|first_name=");
    s.append(id.first_name.as_str());
    s.append("|user_id=");
    numeral::push_i64(&mut s, id.user_id);
    s.append("|messages_seen=");
    numeral::push_int(&mut s, state.messages_seen() as i128);
    s.append("|last_message_at=");
    let at: i64 = match state.last_message_at() {
        Some(t) => t,
        None => -1,
    };
    numeral::push_i64(&mut s, at);
    s.append("\n");
    s
}

/// A message as a line.
pub open spec fn message_line(m: InboundRec) -> Text {
    numeral::dec(m.ts as int) + "\t"@ + numeral::dec(m.user_id as int) + "\t"@ + m.username + "\t"@ + numeral::dec(m.chat_id as int) + "\t"@ + channel::preview(m.text, 100)
}

/// A message as a row.
pub open spec fn message_row(m: InboundRec) -> Text {
    message_line(m) + "\n"@
}

fn message_row_string(m: &RecordedInbound) -> (r: String)
    ensures
        r@ == message_row(m@),
{
    let mut s = numeral::i64_text(m.ts);
    s.append("\t");
    numeral::push_i64(&mut s, m.user_id);
    s.append("\t");
    s.append(m.username.as_str());
    s.append("\t");
    numeral::push_i64(&mut s, m.chat_id);
    s.append("\t");
    let p = channel::truncate_preview(m.text.as_str(), 100);
    s.append(p.as_str());
    s.append("\n");
    s
}

/// The newest messages as rows, newest first.
pub open spec fn recent_text(ring: RingRec, limit: usize) -> Text {
    text::flat(listing::first(ring.items.reverse(), limit as int).map_values(|m: InboundRec| message_row(m)))
}

/// The newest messages as rows, newest first.
pub fn render_recent_body(ring: &MessageRing, limit: usize) -> (r: String)
    ensures
        r@ == recent_text(ring@, limit),
{
    let items = ring.snapshot();
    let ghost all = ring@.items.reverse();
    let ghost shown = listing::first(all, limit as int).map_values(|m: InboundRec| message_row(m));
    let n: usize = if limit < items.len() {
        limit
    } else {
        items.len()
    };
    let mut rows: Vec<String> = Vec::new();
    let mut i: usize = 0;
    while i < n
        invariant
            i <= n,
            n <= items@.len(),
            n == shown.len(),
            state::inbound_recs(items@) == ring@.items,
            all == ring@.items.reverse(),
            all.len() == items@.len(),
            shown == listing::first(all, limit as int).map_values(|m: InboundRec| message_row(m)),
            rows@.len() == i,
            forall|k: int| 0 <= k < i ==> (#[trigger] rows@[k])@ == shown[k],
        decreases n - i,
    {
        let at: usize = items.len() - 1 - i;
        assert(all[i as int] == ring@.items[at as int]);
        assert(ring@.items[at as int] == items@[at as int]@);
        assert(shown[i as int] == message_row(all[i as int]));
        rows.push(message_row_string(&items[at]));
        i = i + 1;
    }
    assert(text::texts(rows@) =~= shown);
    text::concat_all(&rows)
}

/// `telegram.status`: the status of the channel. The argument is not read.
pub fn handle_status(state: &ChannelState, _ctx: &InvocationCtx) -> (r: HandlerOutcome)
    ensures
        r@ == Reply::body(status_text(state@)),
{
    dispatch::body(render_status_body(state))
}

/// `telegram.messages_recent`: the newest messages, by their number.
pub fn handle_messages_recent(ring: &MessageRing, ctx: &InvocationCtx) -> (r: HandlerOutcome)
    ensures
        r@ == Reply::body(recent_text(ring@, channel::wanted(ctx@))),
{
    let n = channel::rows_wanted(ctx);
    dispatch::body(render_recent_body(ring, n))
}

/// Whether no column of a message but its text holds a line feed.
pub open spec fn columns_fit(m: InboundRec) -> bool {
    !m.username.contains('\n')
}

proof fn lemma_line_fits(m: InboundRec)
    requires
        columns_fit(m),
    ensures
        !message_line(m).contains('\n'),
{
    reveal_strlit("\t");
    assert("\t"@ =~= seq!['\t']);
    channel::law_preview_fits_a_row(m.text, 100);
    let p = channel::preview(m.text, 100);
    assert(!p.contains('\n'));
    numeral::lemma_dec_lacks(m.ts as int, '\n');
    numeral::lemma_dec_lacks(m.user_id as int, '\n');
    numeral::lemma_dec_lacks(m.chat_id as int, '\n');
    text::lemma_parts_lack(numeral::dec(m.ts as int), "\t"@, '\n');
    text::lemma_parts_lack(numeral::dec(m.ts as int) + "\t"@, numeral::dec(m.user_id as int), '\n');
    text::lemma_parts_lack(numeral::dec(m.ts as int) + "\t"@ + numeral::dec(m.user_id as int), "\t"@, '\n');
    text::lemma_parts_lack(numeral::dec(m.ts as int) + "\t"@ + numeral::dec(m.user_id as int) + "\t"@, m.username, '\n');
    text::lemma_parts_lack(numeral::dec(m.ts as int) + "\t"@ + numeral::dec(m.user_id as int) + "\t"@ + m.username, "\t"@, '\n');
    text::lemma_parts_lack(numeral::dec(m.ts as int) + "\t"@ + numeral::dec(m.user_id as int) + "\t"@ + m.username + "\t"@, numeral::dec(m.chat_id as int), '\n');
    text::lemma_parts_lack(numeral::dec(m.ts as int) + "\t"@ + numeral::dec(m.user_id as int) + "\t"@ + m.username + "\t"@ + numeral::dec(m.chat_id as int), "\t"@, '\n');
    text::lemma_parts_lack(numeral::dec(m.ts as int) + "\t"@ + numeral::dec(m.user_id as int) + "\t"@ + m.username + "\t"@ + numeral::dec(m.chat_id as int) + "\t"@, p, '\n');
}

/// The lines that a listing shows: the newest message first.
pub open spec fn recent_lines(ring: RingRec, limit: usize) -> Seq<Text> {
    listing::first(ring.items.reverse(), limit as int).map_values(|m: InboundRec| message_line(m))
}

/// A listing has one line for each message that it shows, newest first, and no more than were asked for,
/// whatever stands in the texts; of a text it shows at most a hundred characters.
pub proof fn law_one_line_for_each_message(ring: RingRec, limit: usize, i: int)
    requires
        forall|k: int| 0 <= k < ring.items.len() ==> columns_fit(#[trigger] ring.items[k]),
    ensures
        ({
            let lines = recent_lines(ring, limit);
            let n = ring.items.len();
            &&& lines.len() == if limit < n { limit as int } else { n as int }
            &&& 0 <= i < lines.len() ==> lines[i] == message_line(ring.items[n - 1 - i]) && channel::preview(
                ring.items[n - 1 - i].text,
                100,
            ).len() <= 100
            &&& recent_text(ring, limit) == text::as_lines(lines)
            &&& text::split_all(recent_text(ring, limit), '\n') == lines.push(Seq::empty())
            &&& lines.len() == 0 ==> recent_text(ring, limit).len() == 0
        }),
{
    let lines = recent_lines(ring, limit);
    let shown = listing::first(ring.items.reverse(), limit as int);
    reveal_strlit("\n");
    assert("\n"@ =~= seq!['\n']);
    assert(shown.map_values(|m: InboundRec| message_row(m)) =~= lines.map_values(|l: Text| l + seq!['\n']));
    assert forall|k: int| 0 <= k < lines.len() implies !(#[trigger] lines[k]).contains('\n') by {
        lemma_line_fits(ring.items[ring.items.len() - 1 - k]);
    }
    text::law_lines_are_told_apart(lines);
    if 0 <= i < lines.len() {
        channel::law_preview_fits_a_row(ring.items[ring.items.len() - 1 - i].text, 100);
    }
}

/// A shorter listing is the beginning of a longer one.
pub proof fn law_shorter_listings_are_prefixes(ring: RingRec, a: usize, b: usize)
    requires
        a <= b,
    ensures
        recent_text(ring, a).len() <= recent_text(ring, b).len(),
        recent_text(ring, b).take(recent_text(ring, a).len() as int) == recent_text(ring, a),
{
    let f = |m: InboundRec| message_row(m);
    let long = listing::first(ring.items.reverse(), b as int).map_values(f);
    let short = listing::first(ring.items.reverse(), a as int).map_values(f);
    assert(short =~= long.take(short.len() as int));
    text::law_shorter_lists_are_prefixes(long, short.len() as int);
}

} // verus!
