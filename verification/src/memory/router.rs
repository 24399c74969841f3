//! The table of the memory node's capabilities.
use vstd::prelude::*;
use crate::dispatch::{CallRec, HandlerOutcome, InvocationCtx, Reply};
use crate::memory::curator::{self, AiDispatcher, Exchange};
use crate::memory::handlers;
use crate::memory::store::{Memory, MemoryStore};
use crate::outside;
use crate::text::{self, Text};

verus! {

/// The capabilities of the memory node.
#[derive(Clone, Copy, Debug, PartialEq, Eq)]
pub enum Capability {
    WriteTurn,
    RecentForSession,
    Search,
    AgentRead,
    AgentWrite,
    AgentCurate,
}

impl Capability {
    /// The method name under which a capability is called.
    pub open spec fn word(self) -> Text {
        match self {
            Capability::WriteTurn => "memory.write_turn"@,
            Capability::RecentForSession => "memory.recent_for_session"@,
            Capability::Search => "memory.search"@,
            Capability::AgentRead => "memory.agent_read"@,
            Capability::AgentWrite => "memory.agent_write"@,
            Capability::AgentCurate => "memory.agent_curate"@,
        }
    }

    /// The capability that a method name stands for.
    pub open spec fn of_word(t: Text) -> Option<Capability> {
        if t == "memory.write_turn"@ {
            Some(Capability::WriteTurn)
        } else if t == "memory.recent_for_session"@ {
            Some(Capability::RecentForSession)
        } else if t == "memory.search"@ {
            Some(Capability::Search)
        } else if t == "memory.agent_read"@ {
            Some(Capability::AgentRead)
        } else if t == "memory.agent_write"@ {
            Some(Capability::AgentWrite)
        } else if t == "memory.agent_curate"@ {
            Some(Capability::AgentCurate)
        } else {
            None
        }
    }

    /// The method name under which a capability is called.
    pub fn name(self) -> (r: &'static str)
        ensures
            r@ == self.word(),
    {
        match self {
            Capability::WriteTurn => "memory.write_turn",
            Capability::RecentForSession => "memory.recent_for_session",
            Capability::Search => "memory.search",
            Capability::AgentRead => "memory.agent_read",
            Capability::AgentWrite => "memory.agent_write",
            Capability::AgentCurate => "memory.agent_curate",
        }
    }

    /// The capability that a method name stands for.
    pub fn parse(s: &str) -> (r: Option<Capability>)
        ensures
            r == Self::of_word(s@),
    {
        if text::same(s, "memory.write_turn") {
            Some(Capability::WriteTurn)
        } else if text::same(s, "memory.recent_for_session") {
            Some(Capability::RecentForSession)
        } else if text::same(s, "memory.search") {
            Some(Capability::Search)
        } else if text::same(s, "memory.agent_read") {
            Some(Capability::AgentRead)
        } else if text::same(s, "memory.agent_write") {
            Some(Capability::AgentWrite)
        } else if text::same(s, "memory.agent_curate") {
            Some(Capability::AgentCurate)
        } else {
            None
        }
    }
}

/// No two capabilities share a method name: the name of each is read back as it.
pub proof fn law_capability_names(c: Capability)
    ensures
        Capability::of_word(c.word()) == Some(c),
{
    reveal_strlit("memory.write_turn");
    reveal_strlit("memory.recent_for_session");
    reveal_strlit("memory.search");
    reveal_strlit("memory.agent_read");
    reveal_strlit("memory.agent_write");
    reveal_strlit("memory.agent_curate");
    assert("memory.write_turn"@.len() == 17);
    assert("memory.recent_for_session"@.len() == 25);
    assert("memory.search"@.len() == 13);
    assert("memory.agent_read"@.len() == 17);
    assert("memory.agent_write"@.len() == 18);
    assert("memory.agent_curate"@.len() == 19);
    assert("memory.write_turn"@[7] != "memory.agent_read"@[7]);
}

/// Whether a curation on demand may lead from one memory to another with such a reply.
pub open spec fn curates<A: AiDispatcher>(ai: Option<&A>, m: Memory, call: CallRec, m2: Memory, r: Reply) -> bool {
    match curator::curate_request(call) {
        Err(reply) => r == reply && m2 == m,
        Ok(subject) => match ai {
            None => r == curator::unconfigured() && m2 == m,
            Some(a) => exists|x: Exchange| #[trigger]
                curator::exchanged(*a, m, subject, x) && m2 == m.subject_curated(subject, x).0 && r
                    == curator::curate_reply(m.subject_curated(subject, x).1),
        },
    }
}

/// Whether a call of a capability at a given time may lead from one memory to another with such a
/// reply.
pub open spec fn answers<A: AiDispatcher>(
    c: Capability,
    ai: Option<&A>,
    m: Memory,
    call: CallRec,
    now: i64,
    m2: Memory,
    r: Reply,
) -> bool {
    match c {
        Capability::WriteTurn => match handlers::turn_request(call) {
            Err(reply) => r == reply && m2 == m,
            Ok((session, role, body)) => if r is Body {
                r == Reply::body("ok\n"@) && m2 == m.with_turn(now, session, role, body)
            } else {
                handlers::db_reply("memory.write_turn"@, r) && m2 == m
            },
        },
        Capability::RecentForSession => m2 == m && r == handlers::recent_reply(m, call),
        Capability::Search => m2 == m && handlers::search_reply(m, call, r),
        Capability::AgentRead => m2 == m && r == handlers::agent_read_reply(m, call),
        Capability::AgentWrite => (m2, r) == handlers::agent_write_reply(m, call, now),
        Capability::AgentCurate => curates(ai, m, call, m2, r),
    }
}

/// Serves one call of a capability at a given time.
pub fn serve<A: AiDispatcher>(memory: &mut MemoryStore, c: Capability, ctx: &InvocationCtx, now: i64, ai: Option<&A>) -> (r: HandlerOutcome)
    requires
        old(memory).wf(),
        old(memory)@.turns.len() < i64::MAX - 1,
    ensures
        answers(c, ai, old(memory)@, ctx@, now, final(memory)@, r@),
        final(memory).wf(),
{
    match c {
        Capability::WriteTurn => handlers::handle_write_turn(memory, ctx, now),
        Capability::RecentForSession => handlers::handle_recent(memory, ctx),
        Capability::Search => handlers::handle_search(memory, ctx),
        Capability::AgentRead => handlers::handle_agent_read(memory, ctx),
        Capability::AgentWrite => handlers::handle_agent_write(memory, ctx, now),
        Capability::AgentCurate => curator::handle_agent_curate(memory, ai, ctx),
    }
}

/// Serves one call by its method name, now; `None` where no capability has that name.
pub fn dispatch<A: AiDispatcher>(memory: &mut MemoryStore, method: &str, ctx: &InvocationCtx, ai: Option<&A>) -> (r: Option<
    HandlerOutcome,
>)
    requires
        old(memory).wf(),
        old(memory)@.turns.len() < i64::MAX - 1,
    ensures
        match r {
            Some(out) => Capability::of_word(method@) is Some && exists|now: i64| #[trigger]
                answers(
                    Capability::of_word(method@)->0,
                    ai,
                    old(memory)@,
                    ctx@,
                    now,
                    final(memory)@,
                    out@,
                ),
            None => Capability::of_word(method@) is None && final(memory)@ == old(memory)@,
        },
        final(memory).wf(),
{
    match Capability::parse(method) {
        Some(c) => {
            let now = outside::unix_secs();
            Some(serve(memory, c, ctx, now, ai))
        },
        None => None,
    }
}

} // verus!
