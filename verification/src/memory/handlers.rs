//! The memory capabilities: what their arguments mean and what they reply.
use vstd::prelude::*;
use vstd::utf8::*;
use crate::dispatch::{self, CallRec, HandlerOutcome, InvocationCtx, Reply};
use crate::memory::fault::{MemoryError, MemoryFault};
use crate::memory::store::{self, AgentWriteOutcome, Memory, MemoryStore, WriteRec};
use crate::numeral;
use crate::outside;
use crate::text::{self, Text};

verus! {

/// Session, role and body in the arguments of `memory.write_turn`, or the refusal.
pub open spec fn turn_request(call: CallRec) -> Result<(Text, Text, Text), Reply> {
    match call.text() {
        None => Err(call.bad_utf8("memory.write_turn arg utf8: "@)),
        Some(s) => {
            let p = text::splitn(s, '|', 3);
            if p.len() < 3 {
                Err(Reply::invalid("memory.write_turn arg must be `session_id|role|body`"@))
            } else if p[0].len() == 0 || p[1].len() == 0 {
                Err(Reply::invalid("memory.write_turn: session_id and role required"@))
            } else {
                Ok((p[0], p[1], p[2]))
            }
        },
    }
}

/// The reply to a database failure.
pub open spec fn db_reply(what: Text, r: Reply) -> bool {
    exists|m: Text| r == Reply::internal(what + ": "@ + #[trigger] MemoryFault::Db(m).message())
}

fn internal_outcome(what: &str, e: &MemoryError) -> (r: HandlerOutcome)
    ensures
        r@ == Reply::internal(what@ + ": "@ + e@.message()),
        e is Db ==> db_reply(what@, r@),
{
    let m = e.message();
    let mut s = text::owned(what);
    s.append(": ");
    s.append(m.as_str());
    let out = dispatch::internal(s);
    assert(e is Db ==> e@ == MemoryFault::Db(e->Db_0@));
    out
}

/// `memory.write_turn`: appends one turn at a given time, by `session_id|role|body`.
pub fn handle_write_turn(memory: &mut MemoryStore, ctx: &InvocationCtx, now: i64) -> (r: HandlerOutcome)
    requires
        old(memory).wf(),
        old(memory)@.turns.len() < i64::MAX - 1,
    ensures
        match turn_request(ctx@) {
            Err(reply) => r@ == reply && final(memory)@ == old(memory)@,
            Ok((session, role, body)) => if r@ is Body {
                r@ == Reply::body("ok\n"@) && final(memory)@ == old(memory)@.with_turn(now, session, role, body)
            } else {
                db_reply("memory.write_turn"@, r@) && final(memory)@ == old(memory)@
            },
        },
        final(memory).wf(),
{
    let s = match ctx.text_or("memory.write_turn arg utf8: ") {
        Ok(s) => s,
        Err(e) => return e,
    };
    let p = text::cut_n(s.as_str(), '|', 3);
    assert(text::texts(p@).len() == p@.len());
    if p.len() < 3 {
        return dispatch::invalid(text::owned("memory.write_turn arg must be `session_id|role|body`"));
    }
    assert(forall|k: int| 0 <= k < 3 ==> #[trigger] text::texts(p@)[k] == p@[k]@);
    if p[0].as_str().is_empty() || p[1].as_str().is_empty() {
        return dispatch::invalid(text::owned("memory.write_turn: session_id and role required"));
    }
    match memory.write_turn_at(now, p[0].as_str(), p[1].as_str(), p[2].as_str()) {
        Ok(_) => dispatch::body(text::owned("ok\n")),
        Err(e) => internal_outcome("memory.write_turn", &e),
    }
}

/// A number of rows; ten where the word is no number.
pub open spec fn rows_wanted(word: Text) -> usize {
    match numeral::parse_usize(text::trim(word)) {
        Some(n) => n,
        None => 10,
    }
}

/// Turns as lines of role and body.
pub open spec fn turn_lines(rows: Seq<(Text, Text)>) -> Text {
    text::flat(rows.map_values(|p: (Text, Text)| p.0 + ": "@ + p.1 + "\n"@))
}

/// What `memory.recent_for_session` replies.
pub open spec fn recent_reply(m: Memory, call: CallRec) -> Reply {
    match call.text() {
        None => call.bad_utf8("memory.recent_for_session arg utf8: "@),
        Some(s) => {
            let p = text::splitn(s, '|', 2);
            if p[0].len() == 0 {
                Reply::invalid("memory.recent_for_session: session_id required"@)
            } else {
                let n = if p.len() > 1 {
                    rows_wanted(p[1])
                } else {
                    10
                };
                Reply::body(turn_lines(m.recent(p[0], n)))
            }
        },
    }
}

/// `memory.recent_for_session`: the last turns of a session, by `session_id` or `session_id|N`.
pub fn handle_recent(memory: &MemoryStore, ctx: &InvocationCtx) -> (r: HandlerOutcome)
    ensures
        r@ == recent_reply(memory@, ctx@),
{
    let s = match ctx.text_or("memory.recent_for_session arg utf8: ") {
        Ok(s) => s,
        Err(e) => return e,
    };
    let p = text::cut_n(s.as_str(), '|', 2);
    assert(text::texts(p@).len() == p@.len());
    assert(forall|k: int| 0 <= k < p@.len() ==> #[trigger] text::texts(p@)[k] == p@[k]@);
    if p[0].as_str().is_empty() {
        return dispatch::invalid(text::owned("memory.recent_for_session: session_id required"));
    }
    let mut n: usize = 10;
    if p.len() > 1 {
        let word = text::trimmed(p[1].as_str());
        if let Some(k) = numeral::read_usize(word.as_str()) {
            n = k;
        }
    }
    match memory.recent_for_session(p[0].as_str(), n) {
        Ok(rows) => {
            let mut lines: Vec<String> = Vec::new();
            let ghost all = store::pair_texts(rows@).map_values(|p: (Text, Text)| p.0 + ": "@ + p.1 + "\n"@);
            let mut i: usize = 0;
            while i < rows.len()
                invariant
                    i <= rows@.len(),
                    all == store::pair_texts(rows@).map_values(|p: (Text, Text)| p.0 + ": "@ + p.1 + "\n"@),
                    lines@.len() == i,
                    forall|k: int| 0 <= k < i ==> (#[trigger] lines@[k])@ == all[k],
                decreases rows@.len() - i,
            {
                assert(all[i as int] == rows@[i as int].0@ + ": "@ + rows@[i as int].1@ + "\n"@);
                let mut line = rows[i].0.clone();
                line.append(": ");
                line.append(rows[i].1.as_str());
                line.append("\n");
                lines.push(line);
                i = i + 1;
            }
            assert(text::texts(lines@) =~= all);
            dispatch::body(text::concat_all(&lines))
        },
        Err(e) => internal_outcome("memory.recent_for_session", &e),
    }
}

/// Query and limit in the arguments of `memory.search`: what stands behind the last bar is the
/// limit where it is a number, and belongs to the query where it is not.
pub open spec fn search_request(s: Text) -> (Text, usize) {
    match text::split_last(s, '|') {
        Some((query, word)) => match numeral::parse_usize(text::trim(word)) {
            Some(n) => (query, n),
            None => (s, 10),
        },
        None => (s, 10),
    }
}

/// Hits as lines of session, role and body.
pub open spec fn hit_lines(rows: Seq<(Text, Text, Text)>) -> Text {
    text::flat(rows.map_values(|p: (Text, Text, Text)| p.0 + "\t"@ + p.1 + "\t"@ + p.2 + "\n"@))
}

/// Whether `memory.search` may reply so.
pub open spec fn search_reply(m: Memory, call: CallRec, r: Reply) -> bool {
    match call.text() {
        None => r == call.bad_utf8("memory.search arg utf8: "@),
        Some(s) => {
            let (query, n) = search_request(s);
            if query.len() == 0 {
                r == Reply::invalid("memory.search: query required"@)
            } else if r is Body {
                outside::fts_accepts(query) && exists|order: Seq<i64>| #[trigger]
                    m.ranks(query, order) && r == Reply::body(hit_lines(m.found(order, n)))
            } else {
                db_reply("memory.search"@, r)
            }
        },
    }
}

fn hit_lines_string(rows: &Vec<(String, String, String)>) -> (r: String)
    ensures
        r@ == hit_lines(store::triple_texts(rows@)),
{
    let mut lines: Vec<String> = Vec::new();
    let ghost all = store::triple_texts(rows@).map_values(
        |p: (Text, Text, Text)| p.0 + "\t"@ + p.1 + "\t"@ + p.2 + "\n"@,
    );
    let mut i: usize = 0;
    while i < rows.len()
        invariant
            i <= rows@.len(),
            all == store::triple_texts(rows@).map_values(
                |p: (Text, Text, Text)| p.0 + "\t"@ + p.1 + "\t"@ + p.2 + "\n"@,
            ),
            lines@.len() == i,
            forall|k: int| 0 <= k < i ==> (#[trigger] lines@[k])@ == all[k],
        decreases rows@.len() - i,
    {
        assert(all[i as int] == rows@[i as int].0@ + "\t"@ + rows@[i as int].1@ + "\t"@ + rows@[i as int].2@ + "\n"@);
        let mut line = rows[i].0.clone();
        line.append("\t");
        line.append(rows[i].1.as_str());
        line.append("\t");
        line.append(rows[i].2.as_str());
        line.append("\n");
        lines.push(line);
        i = i + 1;
    }
    assert(text::texts(lines@) =~= all);
    text::concat_all(&lines)
}

/// `memory.search`: full-text search, by `query` or `query|N`.
pub fn handle_search(memory: &MemoryStore, ctx: &InvocationCtx) -> (r: HandlerOutcome)
    requires
        memory.wf(),
    ensures
        search_reply(memory@, ctx@, r@),
{
    let s = match ctx.text_or("memory.search arg utf8: ") {
        Ok(s) => s,
        Err(e) => return e,
    };
    let mut query = s.clone();
    let mut n: usize = 10;
    if let Some((q, word)) = text::cut_last(s.as_str(), '|') {
        let w = text::trimmed(word.as_str());
        if let Some(k) = numeral::read_usize(w.as_str()) {
            query = q;
            n = k;
        }
    }
    assert((query@, n) == search_request(s@));
    if query.as_str().is_empty() {
        return dispatch::invalid(text::owned("memory.search: query required"));
    }
    match memory.search(query.as_str(), n) {
        Ok(rows) => {
            let out = dispatch::body(hit_lines_string(&rows));
            assert(exists|order: Seq<i64>| #[trigger]
                memory@.ranks(query@, order) && out@ == Reply::body(hit_lines(memory@.found(order, n))));
            out
        },
        Err(e) => internal_outcome("memory.search", &e),
    }
}

/// The header of a reply that holds both contents of a subject.
pub open spec fn read_header(agent: Text, user: Text) -> Text {
    "agent_bytes="@ + numeral::dec(text::byte_len(agent) as int) + "|user_bytes="@ + numeral::dec(
        text::byte_len(user) as int,
    ) + "\n"@
}

/// What `memory.agent_read` replies: a header with the sizes in bytes, then both contents.
pub open spec fn agent_read_reply(m: Memory, call: CallRec) -> Reply {
    match call.text() {
        None => call.bad_utf8("memory.agent_read arg utf8: "@),
        Some(s) => {
            let subject = text::trim(s);
            if subject.len() == 0 {
                Reply::invalid("memory.agent_read: subject_id required"@)
            } else {
                let agent = m.content(subject, "agent"@);
                let user = m.content(subject, "user"@);
                Reply::Body(encode_utf8(read_header(agent, user)) + encode_utf8(agent) + encode_utf8(user))
            }
        },
    }
}

/// `memory.agent_read`: both contents of a subject.
pub fn handle_agent_read(memory: &MemoryStore, ctx: &InvocationCtx) -> (r: HandlerOutcome)
    ensures
        r@ == agent_read_reply(memory@, ctx@),
{
    let s = match ctx.text_or("memory.agent_read arg utf8: ") {
        Ok(s) => s,
        Err(e) => return e,
    };
    let subject = text::trimmed(s.as_str());
    if subject.as_str().is_empty() {
        return dispatch::invalid(text::owned("memory.agent_read: subject_id required"));
    }
    match memory.agent_read(subject.as_str()) {
        Ok((agent, user)) => {
            let mut header = text::owned("agent_bytes=");
            numeral::push_usize(&mut header, text::len_bytes(agent.as_str()));
            header.append("|user_bytes=");
            numeral::push_usize(&mut header, text::len_bytes(user.as_str()));
            header.append("\n");
            let mut out = header.as_str().as_bytes_vec();
            let mut a = agent.as_str().as_bytes_vec();
            let mut u = user.as_str().as_bytes_vec();
            out.append(&mut a);
            out.append(&mut u);
            HandlerOutcome::Done(out)
        },
        Err(e) => internal_outcome("memory.agent_read", &e),
    }
}

/// The reply to a write action's outcome.
pub open spec fn write_reply(r: Result<WriteRec, MemoryFault>) -> Reply {
    match r {
        Ok(WriteRec::Updated { chars }) => Reply::body("ok|chars="@ + numeral::dec(chars) + "\n"@),
        Ok(WriteRec::Read { content }) => Reply::body(content),
        Err(MemoryFault::InvalidArg(c)) => Reply::invalid("memory.agent_write: "@ + c),
        Err(MemoryFault::NotFound(c)) => Reply::invalid("memory.agent_write: "@ + c),
        Err(MemoryFault::Ambiguous(c)) => Reply::invalid("memory.agent_write: "@ + c),
        Err(MemoryFault::CapExceeded { target, proposed, cap }) => Reply::invalid(
            "memory.agent_write: '"@ + target + "' write would be "@ + numeral::dec(proposed) + " chars (cap "@
                + numeral::dec(cap) + "). Remove old entries before adding new ones."@,
        ),
        Err(f) => Reply::internal("memory.agent_write"@ + ": "@ + f.message()),
    }
}

/// What `memory.agent_write` does and replies.
pub open spec fn agent_write_reply(m: Memory, call: CallRec, now: i64) -> (Memory, Reply) {
    match call.text() {
        None => (m, call.bad_utf8("memory.agent_write arg utf8: "@)),
        Some(s) => {
            let p = text::splitn(s, '|', 4);
            let subject = text::field(p, 0);
            let target = text::field(p, 1);
            let action = text::field(p, 2);
            if subject.len() == 0 || target.len() == 0 || action.len() == 0 {
                (m, Reply::invalid("memory.agent_write arg must be `subject_id|target|action|data`"@))
            } else {
                let (new, r) = m.written(now, subject, target, action, text::field(p, 3));
                (new, write_reply(r))
            }
        },
    }
}

/// `memory.agent_write`: a write action at a given time, by `subject_id|target|action|data`.
pub fn handle_agent_write(memory: &mut MemoryStore, ctx: &InvocationCtx, now: i64) -> (r: HandlerOutcome)
    ensures
        (final(memory)@, r@) == agent_write_reply(old(memory)@, ctx@, now),
        old(memory).wf() ==> final(memory).wf(),
{
    let s = match ctx.text_or("memory.agent_write arg utf8: ") {
        Ok(s) => s,
        Err(e) => return e,
    };
    let p = text::cut_n(s.as_str(), '|', 4);
    let subject = text::field_of(&p, 0);
    let target = text::field_of(&p, 1);
    let action = text::field_of(&p, 2);
    if subject.is_empty() || target.is_empty() || action.is_empty() {
        return dispatch::invalid(text::owned("memory.agent_write arg must be `subject_id|target|action|data`"));
    }
    match memory.agent_write_at(now, subject, target, action, text::field_of(&p, 3)) {
        Ok(AgentWriteOutcome::Updated { chars }) => {
            let mut b = text::owned("ok|chars=");
            numeral::push_usize(&mut b, chars);
            b.append("\n");
            dispatch::body(b)
        },
        Ok(AgentWriteOutcome::Read { content }) => dispatch::body(content),
        Err(MemoryError::InvalidArg(c)) => dispatch::invalid(dispatch::glue("memory.agent_write: ", c.as_str())),
        Err(MemoryError::NotFound(c)) => dispatch::invalid(dispatch::glue("memory.agent_write: ", c.as_str())),
        Err(MemoryError::Ambiguous(c)) => dispatch::invalid(dispatch::glue("memory.agent_write: ", c.as_str())),
        Err(MemoryError::CapExceeded { target: t, proposed, cap }) => {
            let mut m = text::owned("memory.agent_write: '");
            m.append(t.as_str());
            m.append("' write would be ");
            numeral::push_usize(&mut m, proposed);
            m.append(" chars (cap ");
            numeral::push_usize(&mut m, cap);
            m.append("). Remove old entries before adding new ones.");
            dispatch::invalid(m)
        },
        Err(e) => internal_outcome("memory.agent_write", &e),
    }
}

} // verus!
