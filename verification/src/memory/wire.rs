//! How the capabilities of the memory node read their arguments and what they reply.
use vstd::prelude::*;
use vstd::utf8::*;
use crate::coordinator::wire::{self, at, counts, lists, no_number, refused, says, told};
use crate::dispatch::{CallRec, Reply};
use crate::memory::curator::{self, AiDispatcher};
use crate::memory::handlers;
use crate::memory::router::{self, Capability};
use crate::memory::store::{Memory, WriteRec};
use crate::numeral;
use crate::text::{self, Text};

verus! {

/// `memory.write_turn` reads session, role and body, of which the body may hold bars and be empty; the
/// others may not be empty.
pub proof fn law_turns_are_read(call: CallRec, fields: Seq<Text>)
    requires
        lists(call, fields, 3),
    ensures
        fields.len() == 3 && fields[0].len() > 0 && fields[1].len() > 0 ==> handlers::turn_request(call) == Ok::<
            (Text, Text, Text),
            Reply,
        >((fields[0], fields[1], fields[2])),
        fields.len() < 3 || fields[0].len() == 0 || fields[1].len() == 0 ==> (handlers::turn_request(call) matches Err(r)
            && refused(r)),
{
    wire::lemma_lists(call, fields, 3);
}

/// `memory.recent_for_session` reads the session and how many turns: ten where no number is given. It
/// tells one line for each turn.
pub proof fn law_recalls_are_read(m: Memory, call: CallRec, fields: Seq<Text>, n: usize)
    requires
        lists(call, fields, 2),
        text::bare(at(fields, 1)),
        counts(at(fields, 1), n as int, 10),
    ensures
        fields[0].len() > 0 ==> told(handlers::recent_reply(m, call), handlers::turn_lines(m.recent(fields[0], n))),
        fields[0].len() == 0 ==> refused(handlers::recent_reply(m, call)),
{
    wire::lemma_lists(call, fields, 2);
    let word = at(fields, 1);
    text::lemma_bare(word);
    if word == numeral::dec(n as int) {
        numeral::law_usize_round_trip(n);
        numeral::lemma_dec_chars(n as int);
    } else {
        wire::lemma_no_number(word);
    }
}

/// Each turn is a line of its own, with its role in front of its body.
pub proof fn law_turns_are_lines(rows: Seq<(Text, Text)>, role: Text, body: Text)
    ensures
        handlers::turn_lines(Seq::empty()) == Seq::<char>::empty(),
        handlers::turn_lines(rows.push((role, body))) == handlers::turn_lines(rows) + (role + ": "@ + body + "\n"@),
{
    let f = |p: (Text, Text)| p.0 + ": "@ + p.1 + "\n"@;
    let all = rows.push((role, body)).map_values(f);
    assert(all.drop_last() =~= rows.map_values(f));
    assert(all.last() == role + ": "@ + body + "\n"@);
}

/// Each hit is a line of its own: session, role and body with tabs between them.
pub proof fn law_hits_are_lines(rows: Seq<(Text, Text, Text)>, session: Text, role: Text, body: Text)
    ensures
        handlers::hit_lines(Seq::empty()) == Seq::<char>::empty(),
        handlers::hit_lines(rows.push((session, role, body))) == handlers::hit_lines(rows) + (session + "\t"@ + role + "\t"@
            + body + "\n"@),
{
    let f = |p: (Text, Text, Text)| p.0 + "\t"@ + p.1 + "\t"@ + p.2 + "\n"@;
    let all = rows.push((session, role, body)).map_values(f);
    assert(all.drop_last() =~= rows.map_values(f));
    assert(all.last() == session + "\t"@ + role + "\t"@ + body + "\n"@);
}

/// `memory.search` reads the number of hits behind the last bar, where a number stands there; otherwise
/// the whole argument is the query, and ten hits are wanted.
pub proof fn law_searches_are_read(query: Text, n: usize, rest: Text)
    requires
        !rest.contains('|'),
    ensures
        handlers::search_request(query + seq!['|'] + numeral::dec(n as int)) == (query, n),
        no_number(rest) && text::bare(rest) ==> handlers::search_request(query + seq!['|'] + rest) == (
            query + seq!['|'] + rest,
            10usize,
        ),
        !query.contains('|') ==> handlers::search_request(query) == (query, 10usize),
{
    let word = numeral::dec(n as int);
    numeral::lemma_dec_lacks(n as int, '|');
    text::law_join_then_cut_last(query, word, '|');
    numeral::law_usize_round_trip(n);
    numeral::lemma_dec_chars(n as int);
    assert(text::bare(word)) by {
        assert(numeral::is_digit(word[0]) || word[0] == '-');
        assert(numeral::is_digit(word[word.len() - 1]) || word[word.len() - 1] == '-');
    }
    text::lemma_bare(word);
    text::law_join_then_cut_last(query, rest, '|');
    if no_number(rest) && text::bare(rest) {
        text::lemma_bare(rest);
        wire::lemma_no_number(rest);
    }
}

/// `memory.agent_read` tells the sizes of both contents in bytes, and then the contents themselves,
/// the agent's first.
pub proof fn law_contents_are_told(m: Memory, call: CallRec, front: Text, subject: Text, back: Text)
    requires
        text::blank(front),
        text::bare(subject),
        text::blank(back),
        says(call, front + subject + back),
    ensures
        subject.len() == 0 ==> refused(handlers::agent_read_reply(m, call)),
        subject.len() > 0 ==> ({
            let agent = encode_utf8(m.content(subject, "agent"@));
            let user = encode_utf8(m.content(subject, "user"@));
            handlers::agent_read_reply(m, call) == Reply::Body(
                encode_utf8(
                    "agent_bytes="@ + numeral::dec(agent.len() as int) + "|user_bytes="@ + numeral::dec(user.len() as int)
                        + "\n"@,
                ) + agent + user,
            )
        }),
{
    wire::lemma_says(call, front + subject + back);
    text::law_trimming_takes_the_padding(front, subject, back);
}

/// `memory.agent_write` reads subject, target, action and data, of which only the data may be missing or
/// hold bars. It tells how long the content now is, or hands the content out, or says why not.
pub proof fn law_memory_writes_are_read(m: Memory, call: CallRec, now: i64, fields: Seq<Text>)
    requires
        lists(call, fields, 4),
    ensures
        ({
            let (new, r) = handlers::agent_write_reply(m, call, now);
            let (n, done) = m.written(now, at(fields, 0), at(fields, 1), at(fields, 2), at(fields, 3));
            let named = at(fields, 0).len() > 0 && at(fields, 1).len() > 0 && at(fields, 2).len() > 0;
            &&& named ==> new == n && (match done {
                Ok(WriteRec::Updated { chars }) => told(r, "ok|chars="@ + numeral::dec(chars) + "\n"@),
                Ok(WriteRec::Read { content }) => told(r, content),
                Err(f) => r is Error && (f is InvalidArg || f is NotFound || f is Ambiguous || f is CapExceeded ==> refused(
                    r,
                )) && (f is Db ==> !refused(r)),
            })
            &&& !named ==> new == m && refused(r)
        }),
{
    wire::lemma_lists(call, fields, 4);
}

/// `memory.agent_curate` reads the subject in front of the first bar, without the white space around it.
pub proof fn law_curations_are_read(call: CallRec, fields: Seq<Text>)
    requires
        lists(call, fields, 2),
        text::bare(fields[0]),
    ensures
        fields[0].len() > 0 ==> curator::curate_request(call) == Ok::<Text, Reply>(fields[0]),
        fields[0].len() == 0 ==> (curator::curate_request(call) matches Err(r) && refused(r)),
{
    wire::lemma_lists(call, fields, 2);
    text::lemma_bare(fields[0]);
}

/// The request to curate ends with the content itself and asks the model to stay within the cap; the chats
/// of two targets of a subject are apart.
pub proof fn law_requests_hold_the_content(subject: Text, content: Text, cap: int)
    ensures
        ({
            let p = curator::prompt_text(content, cap);
            &&& p.len() >= content.len()
            &&& p.skip(p.len() - content.len()) == content
            &&& exists|a: Text, b: Text| p == #[trigger] (a + numeral::dec(cap) + b)
        }),
        curator::session_text(subject, "agent"@) != curator::session_text(subject, "user"@),
        curator::session_text(subject, "agent"@) == "curate-"@ + subject + "-agent"@,
{
    let p = curator::prompt_text(content, cap);
    assert(p.skip(p.len() - content.len()) =~= content);
    let a = "Curate the following agent memory. Rules:\n1. Remove duplicate or near-duplicate entries\n2. Consolidate related entries into one clear entry\n3. Remove entries that are outdated or no longer useful\n4. Keep entries that are specific and actionable\n5. Preserve § as the delimiter between entries\n6. Stay within "@;
    let b = " characters total\n7. Return ONLY the curated entries separated by §, nothing else\n\nCurrent entries:\n"@;
    assert(p =~= a + numeral::dec(cap) + (b + content));
    reveal_strlit("agent");
    reveal_strlit("user");
    reveal_strlit("-");
    reveal_strlit("-agent");
    assert("-"@ + "agent"@ =~= "-agent"@);
    assert(curator::session_text(subject, "agent"@) =~= "curate-"@ + subject + "-agent"@);
    assert(curator::session_text(subject, "agent"@).len() != curator::session_text(subject, "user"@).len());
}

/// A content counts as many entries as were put into it: those that are not empty.
pub proof fn law_entries_are_counted(parts: Seq<Text>)
    requires
        parts.len() >= 1,
        forall|k: int| 0 <= k < parts.len() ==> !(#[trigger] parts[k]).contains('§'),
    ensures
        curator::entry_count(text::joined(parts, seq!['§'])) == parts.filter(|t: Text| t.len() > 0).len(),
{
    text::law_join_then_split(parts, '§');
}

/// Under the name of a capability the caller gets what that capability does and replies.
pub proof fn law_capabilities_are_served<A: AiDispatcher>(
    method: Text,
    c: Capability,
    ai: Option<&A>,
    m: Memory,
    call: CallRec,
    now: i64,
    m2: Memory,
    r: Reply,
)
    requires
        Capability::of_word(method) == Some(c),
        router::answers(c, ai, m, call, now, m2, r),
    ensures
        method == "memory.write_turn"@ ==> (match handlers::turn_request(call) {
            Err(reply) => r == reply && m2 == m,
            Ok((session, role, body)) => if told(r, "ok\n"@) {
                m2 == m.with_turn(now, session, role, body)
            } else {
                r is Error && !refused(r) && m2 == m
            },
        }),
        method == "memory.recent_for_session"@ ==> m2 == m && r == handlers::recent_reply(m, call),
        method == "memory.search"@ ==> m2 == m && handlers::search_reply(m, call, r),
        method == "memory.agent_read"@ ==> m2 == m && r == handlers::agent_read_reply(m, call),
        method == "memory.agent_write"@ ==> (m2, r) == handlers::agent_write_reply(m, call, now),
        method == "memory.agent_curate"@ ==> router::curates(ai, m, call, m2, r),
{
    router::law_capability_names(Capability::WriteTurn);
    router::law_capability_names(Capability::RecentForSession);
    router::law_capability_names(Capability::Search);
    router::law_capability_names(Capability::AgentRead);
    router::law_capability_names(Capability::AgentWrite);
    router::law_capability_names(Capability::AgentCurate);
}

} // verus!
