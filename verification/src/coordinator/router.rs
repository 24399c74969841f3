//! The table of the coordinator's capabilities: their names, and which handler serves which.
use vstd::prelude::*;
use crate::coordinator::handlers;
use crate::coordinator::ledger::{Ledger, TaskStore};
use crate::coordinator::reads;
use crate::coordinator::todo;
use crate::dispatch::{CallRec, HandlerOutcome, InvocationCtx, Reply};
use crate::outside;
use crate::redaction;
use crate::text::{self, Text};

verus! {

/// The capabilities of the coordinator.
#[derive(Clone, Copy, Debug, PartialEq, Eq)]
pub enum Capability {
    Create,
    Update,
    Event,
    Get,
    List,
    Recover,
    Attempts,
    Retry,
    Replay,
    Count,
    Events,
    ListCursor,
    Export,
    CompactEvents,
    Edges,
    RecentEdges,
    Note,
    MarkInvestigation,
    Pause,
    Resume,
    Lineage,
    RecentEvents,
    InterruptionCheck,
    ObserveInterruption,
    Freeze,
    Unfreeze,
    RecordSpawned,
    RecordDelegated,
    RecordAwaited,
    TransitionCheck,
    SubtreeMetrics,
    Stuck,
    TodoSet,
    TodoList,
    TodoUpdate,
}

/// What a call takes from its surroundings: the time, the time at which an edge of it is written,
/// and the id of a task that it makes, where one could be drawn.
pub struct Moment {
    pub now: i64,
    pub edge_now: i64,
    pub fresh_id: Option<String>,
}

/// A [`Moment`] as the contracts speak of it.
pub struct MomentRec {
    pub now: i64,
    pub edge_now: i64,
    pub fresh_id: Option<Text>,
}

impl View for Moment {
    type V = MomentRec;

    open spec fn view(&self) -> MomentRec {
        MomentRec { now: self.now, edge_now: self.edge_now, fresh_id: text::opt_text(self.fresh_id) }
    }
}

impl Capability {
    /// The method name under which a capability is called.
    pub open spec fn word(self) -> Text {
        match self {
            Capability::Create => "task.create"@,
            Capability::Update => "task.update"@,
            Capability::Event => "task.event"@,
            Capability::Get => "task.get"@,
            Capability::List => "task.list"@,
            Capability::Recover => "task.recover"@,
            Capability::Attempts => "task.attempts"@,
            Capability::Retry => "task.retry"@,
            Capability::Replay => "task.replay"@,
            Capability::Count => "task.count"@,
            Capability::Events => "task.events"@,
            Capability::ListCursor => "task.list_cursor"@,
            Capability::Export => "task.export"@,
            Capability::CompactEvents => "task.compact_events"@,
            Capability::Edges => "task.edges"@,
            Capability::RecentEdges => "task.recent_edges"@,
            Capability::Note => "task.note"@,
            Capability::MarkInvestigation => "task.mark_investigation"@,
            Capability::Pause => "task.pause"@,
            Capability::Resume => "task.resume"@,
            Capability::Lineage => "task.lineage"@,
            Capability::RecentEvents => "task.recent_events"@,
            Capability::InterruptionCheck => "task.interruption_check"@,
            Capability::ObserveInterruption => "task.observe_interruption"@,
            Capability::Freeze => "task.freeze"@,
            Capability::Unfreeze => "task.unfreeze"@,
            Capability::RecordSpawned => "task.record_spawned"@,
            Capability::RecordDelegated => "task.record_delegated"@,
            Capability::RecordAwaited => "task.record_awaited"@,
            Capability::TransitionCheck => "task.transition_check"@,
            Capability::SubtreeMetrics => "task.subtree_metrics"@,
            Capability::Stuck => "task.stuck"@,
            Capability::TodoSet => "task.todo_set"@,
            Capability::TodoList => "task.todo_list"@,
            Capability::TodoUpdate => "task.todo_update"@,
        }
    }

    /// The capability that a method name stands for.
    pub open spec fn of_word(t: Text) -> Option<Capability> {
        if t == "task.create"@ {
            Some(Capability::Create)
        } else if t == "task.update"@ {
            Some(Capability::Update)
        } else if t == "task.event"@ {
            Some(Capability::Event)
        } else if t == "task.get"@ {
            Some(Capability::Get)
        } else if t == "task.list"@ {
            Some(Capability::List)
        } else if t == "task.recover"@ {
            Some(Capability::Recover)
        } else if t == "task.attempts"@ {
            Some(Capability::Attempts)
        } else if t == "task.retry"@ {
            Some(Capability::Retry)
        } else if t == "task.replay"@ {
            Some(Capability::Replay)
        } else if t == "task.count"@ {
            Some(Capability::Count)
        } else if t == "task.events"@ {
            Some(Capability::Events)
        } else if t == "task.list_cursor"@ {
            Some(Capability::ListCursor)
        } else if t == "task.export"@ {
            Some(Capability::Export)
        } else if t == "task.compact_events"@ {
            Some(Capability::CompactEvents)
        } else if t == "task.edges"@ {
            Some(Capability::Edges)
        } else if t == "task.recent_edges"@ {
            Some(Capability::RecentEdges)
        } else if t == "task.note"@ {
            Some(Capability::Note)
        } else if t == "task.mark_investigation"@ {
            Some(Capability::MarkInvestigation)
        } else if t == "task.pause"@ {
            Some(Capability::Pause)
        } else if t == "task.resume"@ {
            Some(Capability::Resume)
        } else if t == "task.lineage"@ {
            Some(Capability::Lineage)
        } else if t == "task.recent_events"@ {
            Some(Capability::RecentEvents)
        } else if t == "task.interruption_check"@ {
            Some(Capability::InterruptionCheck)
        } else if t == "task.observe_interruption"@ {
            Some(Capability::ObserveInterruption)
        } else if t == "task.freeze"@ {
            Some(Capability::Freeze)
        } else if t == "task.unfreeze"@ {
            Some(Capability::Unfreeze)
        } else if t == "task.record_spawned"@ {
            Some(Capability::RecordSpawned)
        } else if t == "task.record_delegated"@ {
            Some(Capability::RecordDelegated)
        } else if t == "task.record_awaited"@ {
            Some(Capability::RecordAwaited)
        } else if t == "task.transition_check"@ {
            Some(Capability::TransitionCheck)
        } else if t == "task.subtree_metrics"@ {
            Some(Capability::SubtreeMetrics)
        } else if t == "task.stuck"@ {
            Some(Capability::Stuck)
        } else if t == "task.todo_set"@ {
            Some(Capability::TodoSet)
        } else if t == "task.todo_list"@ {
            Some(Capability::TodoList)
        } else if t == "task.todo_update"@ {
            Some(Capability::TodoUpdate)
        } else {
            None
        }
    }

    /// The method name under which a capability is called.
    pub fn name(self) -> (r: &'static str)
        ensures
            r@ == self.word(),
    {
        match self {
            Capability::Create => "task.create",
            Capability::Update => "task.update",
            Capability::Event => "task.event",
            Capability::Get => "task.get",
            Capability::List => "task.list",
            Capability::Recover => "task.recover",
            Capability::Attempts => "task.attempts",
            Capability::Retry => "task.retry",
            Capability::Replay => "task.replay",
            Capability::Count => "task.count",
            Capability::Events => "task.events",
            Capability::ListCursor => "task.list_cursor",
            Capability::Export => "task.export",
            Capability::CompactEvents => "task.compact_events",
            Capability::Edges => "task.edges",
            Capability::RecentEdges => "task.recent_edges",
            Capability::Note => "task.note",
            Capability::MarkInvestigation => "task.mark_investigation",
            Capability::Pause => "task.pause",
            Capability::Resume => "task.resume",
            Capability::Lineage => "task.lineage",
            Capability::RecentEvents => "task.recent_events",
            Capability::InterruptionCheck => "task.interruption_check",
            Capability::ObserveInterruption => "task.observe_interruption",
            Capability::Freeze => "task.freeze",
            Capability::Unfreeze => "task.unfreeze",
            Capability::RecordSpawned => "task.record_spawned",
            Capability::RecordDelegated => "task.record_delegated",
            Capability::RecordAwaited => "task.record_awaited",
            Capability::TransitionCheck => "task.transition_check",
            Capability::SubtreeMetrics => "task.subtree_metrics",
            Capability::Stuck => "task.stuck",
            Capability::TodoSet => "task.todo_set",
            Capability::TodoList => "task.todo_list",
            Capability::TodoUpdate => "task.todo_update",
        }
    }

    /// The capability that a method name stands for.
    pub fn parse(s: &str) -> (r: Option<Capability>)
        ensures
            r == Self::of_word(s@),
    {
        if text::same(s, "task.create") {
            Some(Capability::Create)
        } else if text::same(s, "task.update") {
            Some(Capability::Update)
        } else if text::same(s, "task.event") {
            Some(Capability::Event)
        } else if text::same(s, "task.get") {
            Some(Capability::Get)
        } else if text::same(s, "task.list") {
            Some(Capability::List)
        } else if text::same(s, "task.recover") {
            Some(Capability::Recover)
        } else if text::same(s, "task.attempts") {
            Some(Capability::Attempts)
        } else if text::same(s, "task.retry") {
            Some(Capability::Retry)
        } else if text::same(s, "task.replay") {
            Some(Capability::Replay)
        } else if text::same(s, "task.count") {
            Some(Capability::Count)
        } else if text::same(s, "task.events") {
            Some(Capability::Events)
        } else if text::same(s, "task.list_cursor") {
            Some(Capability::ListCursor)
        } else if text::same(s, "task.export") {
            Some(Capability::Export)
        } else if text::same(s, "task.compact_events") {
            Some(Capability::CompactEvents)
        } else if text::same(s, "task.edges") {
            Some(Capability::Edges)
        } else if text::same(s, "task.recent_edges") {
            Some(Capability::RecentEdges)
        } else if text::same(s, "task.note") {
            Some(Capability::Note)
        } else if text::same(s, "task.mark_investigation") {
            Some(Capability::MarkInvestigation)
        } else if text::same(s, "task.pause") {
            Some(Capability::Pause)
        } else if text::same(s, "task.resume") {
            Some(Capability::Resume)
        } else if text::same(s, "task.lineage") {
            Some(Capability::Lineage)
        } else if text::same(s, "task.recent_events") {
            Some(Capability::RecentEvents)
        } else if text::same(s, "task.interruption_check") {
            Some(Capability::InterruptionCheck)
        } else if text::same(s, "task.observe_interruption") {
            Some(Capability::ObserveInterruption)
        } else if text::same(s, "task.freeze") {
            Some(Capability::Freeze)
        } else if text::same(s, "task.unfreeze") {
            Some(Capability::Unfreeze)
        } else if text::same(s, "task.record_spawned") {
            Some(Capability::RecordSpawned)
        } else if text::same(s, "task.record_delegated") {
            Some(Capability::RecordDelegated)
        } else if text::same(s, "task.record_awaited") {
            Some(Capability::RecordAwaited)
        } else if text::same(s, "task.transition_check") {
            Some(Capability::TransitionCheck)
        } else if text::same(s, "task.subtree_metrics") {
            Some(Capability::SubtreeMetrics)
        } else if text::same(s, "task.stuck") {
            Some(Capability::Stuck)
        } else if text::same(s, "task.todo_set") {
            Some(Capability::TodoSet)
        } else if text::same(s, "task.todo_list") {
            Some(Capability::TodoList)
        } else if text::same(s, "task.todo_update") {
            Some(Capability::TodoUpdate)
        } else {
            None
        }
    }
}

/// No two capabilities share a method name: the name of each is read back as it.
pub proof fn law_capability_names(c: Capability)
    ensures
        Capability::of_word(c.word()) == Some(c),
{
    reveal_strlit("task.create");
    reveal_strlit("task.update");
    reveal_strlit("task.event");
    reveal_strlit("task.get");
    reveal_strlit("task.list");
    reveal_strlit("task.recover");
    reveal_strlit("task.attempts");
    reveal_strlit("task.retry");
    reveal_strlit("task.replay");
    reveal_strlit("task.count");
    reveal_strlit("task.events");
    reveal_strlit("task.list_cursor");
    reveal_strlit("task.export");
    reveal_strlit("task.compact_events");
    reveal_strlit("task.edges");
    reveal_strlit("task.recent_edges");
    reveal_strlit("task.note");
    reveal_strlit("task.mark_investigation");
    reveal_strlit("task.pause");
    reveal_strlit("task.resume");
    reveal_strlit("task.lineage");
    reveal_strlit("task.recent_events");
    reveal_strlit("task.interruption_check");
    reveal_strlit("task.observe_interruption");
    reveal_strlit("task.freeze");
    reveal_strlit("task.unfreeze");
    reveal_strlit("task.record_spawned");
    reveal_strlit("task.record_delegated");
    reveal_strlit("task.record_awaited");
    reveal_strlit("task.transition_check");
    reveal_strlit("task.subtree_metrics");
    reveal_strlit("task.stuck");
    reveal_strlit("task.todo_set");
    reveal_strlit("task.todo_list");
    reveal_strlit("task.todo_update");
    assert("task.create"@.len() == 11);
    assert("task.update"@.len() == 11);
    assert("task.event"@.len() == 10);
    assert("task.get"@.len() == 8);
    assert("task.list"@.len() == 9);
    assert("task.recover"@.len() == 12);
    assert("task.attempts"@.len() == 13);
    assert("task.retry"@.len() == 10);
    assert("task.replay"@.len() == 11);
    assert("task.count"@.len() == 10);
    assert("task.events"@.len() == 11);
    assert("task.list_cursor"@.len() == 16);
    assert("task.export"@.len() == 11);
    assert("task.compact_events"@.len() == 19);
    assert("task.edges"@.len() == 10);
    assert("task.recent_edges"@.len() == 17);
    assert("task.note"@.len() == 9);
    assert("task.mark_investigation"@.len() == 23);
    assert("task.pause"@.len() == 10);
    assert("task.resume"@.len() == 11);
    assert("task.lineage"@.len() == 12);
    assert("task.recent_events"@.len() == 18);
    assert("task.interruption_check"@.len() == 23);
    assert("task.observe_interruption"@.len() == 25);
    assert("task.freeze"@.len() == 11);
    assert("task.unfreeze"@.len() == 13);
    assert("task.record_spawned"@.len() == 19);
    assert("task.record_delegated"@.len() == 21);
    assert("task.record_awaited"@.len() == 19);
    assert("task.transition_check"@.len() == 21);
    assert("task.subtree_metrics"@.len() == 20);
    assert("task.stuck"@.len() == 10);
    assert("task.todo_set"@.len() == 13);
    assert("task.todo_list"@.len() == 14);
    assert("task.todo_update"@.len() == 16);
    assert("task.create"@[5] != "task.update"@[5]);
    assert("task.create"@[5] != "task.replay"@[5]);
    assert("task.create"@[5] != "task.events"@[5]);
    assert("task.create"@[5] != "task.export"@[5]);
    assert("task.create"@[5] != "task.resume"@[5]);
    assert("task.create"@[5] != "task.freeze"@[5]);
    assert("task.update"@[5] != "task.replay"@[5]);
    assert("task.update"@[5] != "task.events"@[5]);
    assert("task.update"@[5] != "task.export"@[5]);
    assert("task.update"@[5] != "task.resume"@[5]);
    assert("task.update"@[5] != "task.freeze"@[5]);
    assert("task.event"@[5] != "task.retry"@[5]);
    assert("task.event"@[5] != "task.count"@[5]);
    assert("task.event"@[6] != "task.edges"@[6]);
    assert("task.event"@[5] != "task.pause"@[5]);
    assert("task.event"@[5] != "task.stuck"@[5]);
    assert("task.list"@[5] != "task.note"@[5]);
    assert("task.recover"@[5] != "task.lineage"@[5]);
    assert("task.attempts"@[5] != "task.unfreeze"@[5]);
    assert("task.attempts"@[5] != "task.todo_set"@[5]);
    assert("task.retry"@[5] != "task.count"@[5]);
    assert("task.retry"@[5] != "task.edges"@[5]);
    assert("task.retry"@[5] != "task.pause"@[5]);
    assert("task.retry"@[5] != "task.stuck"@[5]);
    assert("task.replay"@[5] != "task.events"@[5]);
    assert("task.replay"@[5] != "task.export"@[5]);
    assert("task.replay"@[7] != "task.resume"@[7]);
    assert("task.replay"@[5] != "task.freeze"@[5]);
    assert("task.count"@[5] != "task.edges"@[5]);
    assert("task.count"@[5] != "task.pause"@[5]);
    assert("task.count"@[5] != "task.stuck"@[5]);
    assert("task.events"@[6] != "task.export"@[6]);
    assert("task.events"@[5] != "task.resume"@[5]);
    assert("task.events"@[5] != "task.freeze"@[5]);
    assert("task.list_cursor"@[5] != "task.todo_update"@[5]);
    assert("task.export"@[5] != "task.resume"@[5]);
    assert("task.export"@[5] != "task.freeze"@[5]);
    assert("task.compact_events"@[5] != "task.record_spawned"@[5]);
    assert("task.compact_events"@[5] != "task.record_awaited"@[5]);
    assert("task.edges"@[5] != "task.pause"@[5]);
    assert("task.edges"@[5] != "task.stuck"@[5]);
    assert("task.mark_investigation"@[5] != "task.interruption_check"@[5]);
    assert("task.pause"@[5] != "task.stuck"@[5]);
    assert("task.resume"@[5] != "task.freeze"@[5]);
    assert("task.unfreeze"@[5] != "task.todo_set"@[5]);
    assert("task.record_spawned"@[12] != "task.record_awaited"@[12]);
    assert("task.record_delegated"@[5] != "task.transition_check"@[5]);
}

/// Every capability, in the order in which they are announced.
pub open spec fn all_capabilities() -> Seq<Capability> {
    seq![
        Capability::Create,
        Capability::Update,
        Capability::Event,
        Capability::Get,
        Capability::List,
        Capability::Recover,
        Capability::Attempts,
        Capability::Retry,
        Capability::Replay,
        Capability::Count,
        Capability::Events,
        Capability::ListCursor,
        Capability::Export,
        Capability::CompactEvents,
        Capability::Edges,
        Capability::RecentEdges,
        Capability::Note,
        Capability::MarkInvestigation,
        Capability::Pause,
        Capability::Resume,
        Capability::Lineage,
        Capability::RecentEvents,
        Capability::InterruptionCheck,
        Capability::ObserveInterruption,
        Capability::Freeze,
        Capability::Unfreeze,
        Capability::RecordSpawned,
        Capability::RecordDelegated,
        Capability::RecordAwaited,
        Capability::TransitionCheck,
        Capability::SubtreeMetrics,
        Capability::Stuck,
        Capability::TodoSet,
        Capability::TodoList,
        Capability::TodoUpdate,
    ]
}

/// Every capability, in the order in which they are announced.
pub fn capabilities() -> (r: Vec<Capability>)
    ensures
        r@ == all_capabilities(),
{
    let mut v: Vec<Capability> = Vec::new();
    v.push(Capability::Create);
    v.push(Capability::Update);
    v.push(Capability::Event);
    v.push(Capability::Get);
    v.push(Capability::List);
    v.push(Capability::Recover);
    v.push(Capability::Attempts);
    v.push(Capability::Retry);
    v.push(Capability::Replay);
    v.push(Capability::Count);
    v.push(Capability::Events);
    v.push(Capability::ListCursor);
    v.push(Capability::Export);
    v.push(Capability::CompactEvents);
    v.push(Capability::Edges);
    v.push(Capability::RecentEdges);
    v.push(Capability::Note);
    v.push(Capability::MarkInvestigation);
    v.push(Capability::Pause);
    v.push(Capability::Resume);
    v.push(Capability::Lineage);
    v.push(Capability::RecentEvents);
    v.push(Capability::InterruptionCheck);
    v.push(Capability::ObserveInterruption);
    v.push(Capability::Freeze);
    v.push(Capability::Unfreeze);
    v.push(Capability::RecordSpawned);
    v.push(Capability::RecordDelegated);
    v.push(Capability::RecordAwaited);
    v.push(Capability::TransitionCheck);
    v.push(Capability::SubtreeMetrics);
    v.push(Capability::Stuck);
    v.push(Capability::TodoSet);
    v.push(Capability::TodoList);
    v.push(Capability::TodoUpdate);
    v
}

/// The announced list leaves no capability out.
pub proof fn law_all_capabilities(c: Capability)
    ensures
        all_capabilities().contains(c),
{
    let all = all_capabilities();
    match c {
        Capability::Create => assert(all[0] == c),
        Capability::Update => assert(all[1] == c),
        Capability::Event => assert(all[2] == c),
        Capability::Get => assert(all[3] == c),
        Capability::List => assert(all[4] == c),
        Capability::Recover => assert(all[5] == c),
        Capability::Attempts => assert(all[6] == c),
        Capability::Retry => assert(all[7] == c),
        Capability::Replay => assert(all[8] == c),
        Capability::Count => assert(all[9] == c),
        Capability::Events => assert(all[10] == c),
        Capability::ListCursor => assert(all[11] == c),
        Capability::Export => assert(all[12] == c),
        Capability::CompactEvents => assert(all[13] == c),
        Capability::Edges => assert(all[14] == c),
        Capability::RecentEdges => assert(all[15] == c),
        Capability::Note => assert(all[16] == c),
        Capability::MarkInvestigation => assert(all[17] == c),
        Capability::Pause => assert(all[18] == c),
        Capability::Resume => assert(all[19] == c),
        Capability::Lineage => assert(all[20] == c),
        Capability::RecentEvents => assert(all[21] == c),
        Capability::InterruptionCheck => assert(all[22] == c),
        Capability::ObserveInterruption => assert(all[23] == c),
        Capability::Freeze => assert(all[24] == c),
        Capability::Unfreeze => assert(all[25] == c),
        Capability::RecordSpawned => assert(all[26] == c),
        Capability::RecordDelegated => assert(all[27] == c),
        Capability::RecordAwaited => assert(all[28] == c),
        Capability::TransitionCheck => assert(all[29] == c),
        Capability::SubtreeMetrics => assert(all[30] == c),
        Capability::Stuck => assert(all[31] == c),
        Capability::TodoSet => assert(all[32] == c),
        Capability::TodoList => assert(all[33] == c),
        Capability::TodoUpdate => assert(all[34] == c),
    }
}

/// Whether a call of a capability may lead from one ledger to another with such a reply.
#[verifier::opaque]
pub open spec fn answers<R: Fn(&str) -> String>(
    c: Capability,
    l: Ledger,
    call: CallRec,
    at: MomentRec,
    redact: R,
    l2: Ledger,
    r: Reply,
) -> bool {
    match c {
        Capability::Create => (l2, r) == handlers::create_reply(l, call, at.now, at.fresh_id),
        Capability::Update => exists|safe: Option<Text>|
                redaction::redacts_opt(redact, handlers::update_cause(call), safe) && (l2, r) == #[trigger] handlers::update_reply(l, call, at.now, safe),
        Capability::Event => (l2, r) == handlers::event_reply(l, call, at.now),
        Capability::Get => l2 == l && r == reads::get_reply(l, call),
        Capability::List => l2 == l && r == reads::list_reply(l, call),
        Capability::Recover => (l2, r) == handlers::recover_reply(l, at.now),
        Capability::Attempts => l2 == l && r == reads::attempts_reply(l, call),
        Capability::Retry => (l2, r) == handlers::retry_reply(l, call, at.now),
        Capability::Replay => (l2, r) == handlers::replay_reply(l, call, at.now, at.edge_now, at.fresh_id),
        Capability::Count => l2 == l && r == reads::count_reply(l, call),
        Capability::Events => l2 == l && r == reads::events_reply(l, call),
        Capability::ListCursor => l2 == l && r == reads::list_cursor_reply(l, call),
        Capability::Export => l2 == l && r == reads::export_reply(l, call, at.now),
        Capability::CompactEvents => l2 == l && r == reads::compact_reply(l, call, at.now),
        Capability::Edges => l2 == l && r == reads::edges_reply(l, call),
        Capability::RecentEdges => l2 == l && r == reads::recent_edges_reply(l, call),
        Capability::Note => exists|safe: Text|
                redaction::redacts(redact, text::trim(handlers::note_of(call)), safe) && (l2, r) == #[trigger] handlers::note_reply(l, call, at.now, safe),
        Capability::MarkInvestigation => exists|safe: Option<Text>|
                redaction::redacts_opt(redact, text::trim_opt(handlers::mark_reason(call)), safe) && (l2, r) == #[trigger] handlers::mark_reply(l, call, at.now, safe),
        Capability::Pause => exists|safe: Option<Text>|
                redaction::redacts_opt(redact, text::trim_opt(handlers::reason_of(call)), safe) && (l2, r) == #[trigger] handlers::pause_reply(l, call, at.now, safe),
        Capability::Resume => (l2, r) == handlers::resume_reply(l, call, at.now),
        Capability::Lineage => l2 == l && r == reads::lineage_reply(l, call),
        Capability::RecentEvents => l2 == l && r == reads::recent_events_reply(l, call),
        Capability::InterruptionCheck => l2 == l && r == reads::interruption_reply(l, call),
        Capability::ObserveInterruption => (l2, r) == handlers::observe_reply(l, call, at.now),
        Capability::Freeze => exists|safe: Option<Text>|
                redaction::redacts_opt(redact, text::trim_opt(handlers::reason_of(call)), safe) && (l2, r) == #[trigger] handlers::freeze_reply(l, call, at.now, safe),
        Capability::Unfreeze => (l2, r) == handlers::unfreeze_reply(l, call, at.now),
        Capability::RecordSpawned => (l2, r) == handlers::spawned_reply(l, call, at.now),
        Capability::RecordDelegated => (l2, r) == handlers::delegated_reply(l, call, at.now),
        Capability::RecordAwaited => (l2, r) == handlers::awaited_reply(l, call, at.now),
        Capability::TransitionCheck => l2 == l && r == reads::transition_reply(l, call),
        Capability::SubtreeMetrics => l2 == l && reads::metrics_reply(l, call, at.now, r),
        Capability::Stuck => l2 == l && r == reads::stuck_reply(l, call, at.now),
        Capability::TodoSet => exists|safe: Seq<Text>|
                todo::redacts_all(redact, handlers::todo_set_items(call), safe) && (l2, r) == #[trigger] handlers::todo_set_reply(l, call, at.now, safe),
        Capability::TodoList => l2 == l && r == reads::todo_list_reply(l, call),
        Capability::TodoUpdate => (l2, r) == handlers::todo_update_reply(l, call, at.now),
    }
}

/// Serves one call of a capability.
pub fn serve<R: Fn(&str) -> String>(store: &mut TaskStore, c: Capability, ctx: &InvocationCtx, at: Moment, redact: &R) -> (r: HandlerOutcome)
    requires
        old(store).wf(),
        old(store)@.roomy(),
        redaction::total(*redact),
    ensures
        answers(c, old(store)@, ctx@, at@, *redact, final(store)@, r@),
        final(store).wf(),
{
    proof {
        reveal(answers);
    }
    match c {
        Capability::Create => handlers::handle_create(store, ctx, at.now, at.fresh_id),
        Capability::Update => handlers::handle_update(store, ctx, at.now, redact),
        Capability::Event => handlers::handle_event(store, ctx, at.now),
        Capability::Get => reads::handle_get(store, ctx),
        Capability::List => reads::handle_list(store, ctx),
        Capability::Recover => handlers::handle_recover(store, ctx, at.now),
        Capability::Attempts => reads::handle_attempts(store, ctx),
        Capability::Retry => handlers::handle_retry(store, ctx, at.now),
        Capability::Replay => handlers::handle_replay(store, ctx, at.now, at.edge_now, at.fresh_id),
        Capability::Count => reads::handle_count(store, ctx),
        Capability::Events => reads::handle_events(store, ctx),
        Capability::ListCursor => reads::handle_list_cursor(store, ctx),
        Capability::Export => reads::handle_export(store, ctx, at.now),
        Capability::CompactEvents => reads::handle_compact_events(store, ctx, at.now),
        Capability::Edges => reads::handle_edges(store, ctx),
        Capability::RecentEdges => reads::handle_recent_edges(store, ctx),
        Capability::Note => handlers::handle_note(store, ctx, at.now, redact),
        Capability::MarkInvestigation => handlers::handle_mark_investigation(store, ctx, at.now, redact),
        Capability::Pause => handlers::handle_pause(store, ctx, at.now, redact),
        Capability::Resume => handlers::handle_resume(store, ctx, at.now),
        Capability::Lineage => reads::handle_lineage(store, ctx),
        Capability::RecentEvents => reads::handle_recent_events(store, ctx),
        Capability::InterruptionCheck => reads::handle_interruption_check(store, ctx),
        Capability::ObserveInterruption => handlers::handle_observe_interruption(store, ctx, at.now),
        Capability::Freeze => handlers::handle_freeze(store, ctx, at.now, redact),
        Capability::Unfreeze => handlers::handle_unfreeze(store, ctx, at.now),
        Capability::RecordSpawned => handlers::handle_record_spawned(store, ctx, at.now),
        Capability::RecordDelegated => handlers::handle_record_delegated(store, ctx, at.now),
        Capability::RecordAwaited => handlers::handle_record_awaited(store, ctx, at.now),
        Capability::TransitionCheck => reads::handle_transition_check(store, ctx),
        Capability::SubtreeMetrics => reads::handle_subtree_metrics(store, ctx, at.now),
        Capability::Stuck => reads::handle_stuck(store, ctx, at.now),
        Capability::TodoSet => handlers::handle_todo_set(store, ctx, at.now, redact),
        Capability::TodoList => reads::handle_todo_list(store, ctx),
        Capability::TodoUpdate => handlers::handle_todo_update(store, ctx, at.now),
    }
}

/// Whether a call may be answered so at some time, with some fresh task id.
pub open spec fn answered<R: Fn(&str) -> String>(c: Capability, l: Ledger, call: CallRec, redact: R, l2: Ledger, r: Reply) -> bool {
    exists|at: MomentRec| outside::may_be_drawn(at.fresh_id) && #[trigger] answers(c, l, call, at, redact, l2, r)
}

/// Serves one call by its method name, now; `None` where no capability has that name.
pub fn dispatch<R: Fn(&str) -> String>(store: &mut TaskStore, method: &str, ctx: &InvocationCtx, redact: &R) -> (r: Option<HandlerOutcome>)
    requires
        old(store).wf(),
        old(store)@.roomy(),
        redaction::total(*redact),
    ensures
        match r {
            Some(out) => Capability::of_word(method@) is Some && answered(
                Capability::of_word(method@)->0,
                old(store)@,
                ctx@,
                *redact,
                final(store)@,
                out@,
            ),
            None => Capability::of_word(method@) is None && final(store)@ == old(store)@,
        },
        final(store).wf(),
{
    match Capability::parse(method) {
        Some(c) => {
            let at = Moment { now: outside::unix_secs(), edge_now: outside::unix_secs(), fresh_id: outside::new_task_id() };
            let ghost rec = at@;
            let out = serve(store, c, ctx, at, redact);
            assert(outside::may_be_drawn(rec.fresh_id) && answers(c, old(store)@, ctx@, rec, *redact, store@, out@));
            Some(out)
        },
        None => None,
    }
}

} // verus!
