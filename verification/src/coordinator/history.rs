//! What every operation keeps: the chronicle only grows, and an operation on one task leaves the
//! others alone.
use vstd::prelude::*;
use crate::coordinator::edges::EdgeRequest;
use crate::coordinator::ledger::{self, Ledger};
use crate::coordinator::model::{OwnedAttempt, OwnedEvent, TaskHeader, TaskRec};
use crate::coordinator::query;
use crate::coordinator::update::{self, ChangeRec};
use crate::text::Text;

verus! {

/// Whether a ledger came from another by operations on one task: events and edges were only added,
/// the new events are of that task, and the rows and attempts of the other tasks are as they were.
pub open spec fn only(l: Ledger, m: Ledger, id: Text) -> bool {
    &&& m.tasks.len() == l.tasks.len()
    &&& forall|i: int|
        0 <= i < l.tasks.len() ==> (#[trigger] m.tasks[i]).head.task_id == l.tasks[i].head.task_id && (
        l.tasks[i].head.task_id != id ==> m.tasks[i] == l.tasks[i])
    &&& l.events.len() <= m.events.len()
    &&& forall|i: int| 0 <= i < l.events.len() ==> #[trigger] m.events[i] == l.events[i]
    &&& forall|i: int| l.events.len() <= i < m.events.len() ==> (#[trigger] m.events[i]).task_id == id
    &&& l.attempts.len() <= m.attempts.len()
    &&& forall|i: int|
        0 <= i < l.attempts.len() ==> (#[trigger] m.attempts[i]).task_id == l.attempts[i].task_id && (
        l.attempts[i].task_id != id ==> m.attempts[i] == l.attempts[i])
    &&& forall|i: int| l.attempts.len() <= i < m.attempts.len() ==> (#[trigger] m.attempts[i]).task_id == id
    &&& l.edges.len() <= m.edges.len()
    &&& forall|i: int| 0 <= i < l.edges.len() ==> #[trigger] m.edges[i] == l.edges[i]
    &&& m.max_list == l.max_list
}

proof fn lemma_only_then(l: Ledger, m: Ledger, n: Ledger, id: Text)
    requires
        only(l, m, id),
        only(m, n, id),
    ensures
        only(l, n, id),
{
    assert forall|i: int| 0 <= i < l.tasks.len() implies (#[trigger] n.tasks[i]).head.task_id == l.tasks[i].head.task_id
        && (l.tasks[i].head.task_id != id ==> n.tasks[i] == l.tasks[i]) by {
        assert(m.tasks[i].head.task_id == l.tasks[i].head.task_id);
    }
    assert forall|i: int| 0 <= i < l.events.len() implies #[trigger] n.events[i] == l.events[i] by {
        assert(m.events[i] == l.events[i]);
    }
    assert forall|i: int| l.events.len() <= i < n.events.len() implies (#[trigger] n.events[i]).task_id == id by {
        if i < m.events.len() {
            assert(n.events[i] == m.events[i]);
        }
    }
    assert forall|i: int| 0 <= i < l.attempts.len() implies (#[trigger] n.attempts[i]).task_id == l.attempts[i].task_id
        && (l.attempts[i].task_id != id ==> n.attempts[i] == l.attempts[i]) by {
        assert(m.attempts[i].task_id == l.attempts[i].task_id);
    }
    assert forall|i: int| l.attempts.len() <= i < n.attempts.len() implies (#[trigger] n.attempts[i]).task_id == id by {
        if i < m.attempts.len() {
            assert(n.attempts[i].task_id == m.attempts[i].task_id);
        }
    }
    assert forall|i: int| 0 <= i < l.edges.len() implies #[trigger] n.edges[i] == l.edges[i] by {
        assert(m.edges[i] == l.edges[i]);
    }
}

/// Under `only`, tasks are found where they were.
pub proof fn lemma_only_finds(l: Ledger, m: Ledger, id: Text, other: Text)
    requires
        only(l, m, id),
    ensures
        m.find(other) == l.find(other),
        m.has(other) == l.has(other),
        l.has(other) && other != id ==> m.task(other) == l.task(other),
{
    ledger::lemma_find_same_ids(l.tasks, m.tasks, other, 0);
    ledger::lemma_find(l, other);
    if l.has(other) {
        assert(m.tasks[l.find(other)].head.task_id == l.tasks[l.find(other)].head.task_id);
    }
}

proof fn lemma_put_only(l: Ledger, id: Text, rec: TaskRec)
    requires
        l.has(id),
        rec.head.task_id == id,
    ensures
        only(l, l.put(id, rec), id),
{
    ledger::lemma_find(l, id);
}

proof fn lemma_attempt_only(l: Ledger, id: Text, aid: i64, rec: OwnedAttempt)
    requires
        l.has_attempt(aid),
        l.attempt(aid).task_id == id,
        rec.task_id == id,
    ensures
        only(l, l.put_attempt(aid, rec), id),
{
    ledger::lemma_attempt_from(l.attempts, aid, 0);
}

proof fn lemma_open_only(l: Ledger, id: Text, trace: Option<Text>, now: i64)
    requires
        l.has(id),
    ensures
        only(l, l.attempt_opened(id, trace, now), id),
{
    ledger::lemma_find(l, id);
    if !l.has_open_attempt(id) {
        let rec = l.next_attempt(id, trace, now);
        let a = l.with_attempt(id, rec);
        assert(only(l, a, id));
        let m = l.attempt_opened(id, trace, now);
        assert(m.tasks =~= a.tasks);
        assert(m.attempts =~= a.attempts);
        assert(m.events.drop_last() =~= a.events);
        assert(only(a, m, id));
        lemma_only_then(l, a, m, id);
    }
}

proof fn lemma_close_only(
    l: Ledger,
    id: Text,
    status: Text,
    c: ChangeRec,
    now: i64,
)
    requires
        l.has(id),
        l.wf_owner(id),
    ensures
        only(
            l,
            l.attempt_closed(
                id,
                status,
                c.flow_id,
                c.flow_log_path,
                c.error_kind,
                c.error_cause,
                c.failure_class,
                now,
            ),
            id,
        ),
{
    if l.has_open_attempt(id) {
        let aid = l.head(id).current_attempt_id->0;
        let m = l.attempt_closed(
            id,
            status,
            c.flow_id,
            c.flow_log_path,
            c.error_kind,
            c.error_cause,
            c.failure_class,
            now,
        );
        let rec = m.attempts[l.find_attempt(aid)];
        ledger::lemma_attempt_from(l.attempts, aid, 0);
        lemma_attempt_only(l, id, aid, rec);
        let a = l.put_attempt(aid, rec);
        assert(m.attempts =~= a.attempts);
        assert(only(a, m, id));
        lemma_only_then(l, a, m, id);
    }
}

impl Ledger {
    /// Whether a task's current attempt is its own.
    pub open spec fn wf_owner(self, id: Text) -> bool {
        self.head(id).current_attempt_id matches Some(aid) ==> self.has_attempt(aid) && self.attempt(aid).task_id == id
    }
}

proof fn lemma_owner(l: Ledger, id: Text)
    requires
        l.wf(),
        l.has(id),
    ensures
        l.wf_owner(id),
{
    ledger::lemma_find(l, id);
    assert(l.task_sound(l.tasks[l.find(id)]));
}

pub proof fn lemma_changed_only(l: Ledger, now: i64, id: Text, c: ChangeRec, safe: Option<Text>)
    requires
        l.has(id),
    ensures
        only(l, l.changed(now, id, c, safe), id),
        l.changed(now, id, c, safe).attempts == l.attempts,
        l.changed(now, id, c, safe).head(id).current_attempt_id == l.head(id).current_attempt_id,
        l.changed(now, id, c, safe).head(id).attempt_count == l.head(id).attempt_count,
        l.changed(now, id, c, safe).find(id) == l.find(id),
{
    ledger::lemma_find(l, id);
    let a = l.put(id, update::changed_row(l.task(id), now, c, safe));
    lemma_put_only(l, id, update::changed_row(l.task(id), now, c, safe));
    lemma_only_finds(l, a, id, id);
    let m = l.changed(now, id, c, safe);
    if c.failure_class is Some && a.thrashes(id) {
        let h = a.head(id);
        let b = a.with_head(
            id,
            TaskHeader {
                investigation_marked_at: Some(now),
                investigation_reason: m.head(id).investigation_reason,
                updated_at: now,
                ..h
            },
        );
        lemma_put_only(a, id, b.tasks[l.find(id)]);
        assert(m.tasks.len() == l.tasks.len());
        ledger::lemma_find_same_ids(l.tasks, m.tasks, id, 0);
        assert(only(a, m, id));
        lemma_only_then(l, a, m, id);
    }
    lemma_only_finds(l, m, id, id);
}

proof fn lemma_updated_only(l: Ledger, now: i64, id: Text, c: ChangeRec, safe: Option<Text>)
    requires
        l.wf(),
    ensures
        only(l, l.updated(now, id, c, safe).0, id),
{
    if l.has(id) {
        lemma_owner(l, id);
        lemma_changed_only(l, now, id, c, safe);
        let a = l.changed(now, id, c, safe);
        lemma_only_finds(l, a, id, id);
        assert(a.wf_owner(id));
        if c.status is Some {
            let s = c.status->0;
            if s == "running"@ {
                lemma_open_only(a, id, c.trace_id, now);
                lemma_only_then(l, a, l.updated(now, id, c, safe).0, id);
            } else if update::closes_attempt(s) {
                lemma_close_only(a, id, s, c, now);
                let b = a.attempt_closed(
                    id,
                    s,
                    c.flow_id,
                    c.flow_log_path,
                    c.error_kind,
                    c.error_cause,
                    c.failure_class,
                    now,
                );
                lemma_only_then(l, a, b, id);
                assert(only(b, b.summarised(id, s, now), id));
                lemma_only_then(l, b, l.updated(now, id, c, safe).0, id);
            }
        }
    }
}

/// An operation on a task adds to the chronicle of that task only, rewrites no event and no edge, and
/// leaves the rows and attempts of the other tasks as they were.
pub proof fn law_operations_are_local(
    l: Ledger,
    now: i64,
    id: Text,
    c: ChangeRec,
    a: Option<Text>,
    b: Option<Text>,
    who: Text,
    word: Text,
    n: i64,
    marked: bool,
)
    requires
        l.wf(),
    ensures
        only(l, l.updated(now, id, c, a).0, id),
        only(l, l.retry_requested(now, id).0, id),
        only(l, l.retry_bumped(now, id).0, id),
        only(l, l.event_appended(now, id, word, who).0, id),
        only(l, l.paused(now, id, a, b, who).0, id),
        only(l, l.resumed(now, id, who).0, id),
        only(l, l.frozen(now, id, a, b, who).0, id),
        only(l, l.unfrozen(now, id, who).0, id),
        only(l, l.observed(now, id, word, n, who).0, id),
        only(l, l.investigation_set(now, id, marked, a, b, who).0, id),
        only(l, l.noted(now, id, word, word, who).0, id),
{
    ledger::lemma_find(l, id);
    lemma_updated_only(l, now, id, c, a);
}

/// Recording an edge adds one event, of the task it starts from, and one edge; it changes no task.
pub proof fn law_edges_are_local(l: Ledger, now: i64, q: EdgeRequest)
    requires
        l.wf(),
    ensures
        only(l, l.edge_recorded(now, q).0, q.parent),
        l.edge_recorded(now, q).0.tasks == l.tasks,
        l.edge_recorded(now, q).1 is Ok ==> l.edge_recorded(now, q).0.edges.len() == l.edges.len() + 1,
{
}

/// What `only` says, seen from another task: it is there as before, with the same row, the same
/// events and the same attempts.
pub proof fn law_other_tasks_are_untouched(l: Ledger, m: Ledger, id: Text, other: Text)
    requires
        only(l, m, id),
        other != id,
    ensures
        m.has(other) == l.has(other),
        l.has(other) ==> m.task(other) == l.task(other),
        l.has(other) ==> m.detail(other) == l.detail(other),
        m.attempts_of(other) == l.attempts_of(other),
{
    lemma_only_finds(l, m, id, other);
    lemma_own_events(l.events, m.events, id, other, m.events.len() as int);
    lemma_own_attempts(l.attempts, m.attempts, id, other, m.attempts.len() as int);
    assert(m.events.take(m.events.len() as int) =~= m.events);
    assert(m.attempts.take(m.attempts.len() as int) =~= m.attempts);
}

proof fn lemma_own_events(a: Seq<OwnedEvent>, b: Seq<OwnedEvent>, id: Text, other: Text, n: int)
    requires
        a.len() <= b.len(),
        0 <= n <= b.len(),
        other != id,
        forall|i: int| 0 <= i < a.len() ==> #[trigger] b[i] == a[i],
        forall|i: int| a.len() <= i < b.len() ==> (#[trigger] b[i]).task_id == id,
    ensures
        n <= a.len() ==> b.take(n).filter_map(query::pick_own(other)) == a.take(n).filter_map(
            query::pick_own(other),
        ),
        n >= a.len() ==> b.take(n).filter_map(query::pick_own(other)) == a.filter_map(
            query::pick_own(other),
        ),
    decreases n,
{
    let f = query::pick_own(other);
    if n <= a.len() {
        assert(b.take(n) =~= a.take(n));
        if n == a.len() {
            assert(a.take(n) =~= a);
        }
    } else {
        lemma_own_events(a, b, id, other, n - 1);
        b.lemma_filter_map_take_succ(f, n - 1);
        assert(b.take(n).filter_map(f) =~= b.take(n - 1).filter_map(f));
    }
}

proof fn lemma_own_attempts(a: Seq<OwnedAttempt>, b: Seq<OwnedAttempt>, id: Text, other: Text, n: int)
    requires
        a.len() <= b.len(),
        0 <= n <= b.len(),
        other != id,
        forall|i: int|
            0 <= i < a.len() ==> (#[trigger] b[i]).task_id == a[i].task_id && (a[i].task_id != id ==> b[i] == a[i]),
        forall|i: int| a.len() <= i < b.len() ==> (#[trigger] b[i]).task_id == id,
    ensures
        n <= a.len() ==> b.take(n).filter_map(query::pick_attempt(other)) == a.take(n).filter_map(
            query::pick_attempt(other),
        ),
        n >= a.len() ==> b.take(n).filter_map(query::pick_attempt(other)) == a.filter_map(
            query::pick_attempt(other),
        ),
    decreases n,
{
    let f = query::pick_attempt(other);
    if n > 0 {
        lemma_own_attempts(a, b, id, other, n - 1);
        b.lemma_filter_map_take_succ(f, n - 1);
        if n <= a.len() {
            a.lemma_filter_map_take_succ(f, n - 1);
            assert(b[n - 1].task_id == a[n - 1].task_id);
            if n == a.len() {
                assert(a.take(n) =~= a);
            }
        } else {
            assert(b.take(n).filter_map(f) =~= b.take(n - 1).filter_map(f));
        }
    } else {
        assert(b.take(0) =~= a.take(0));
        if a.len() == 0 {
            assert(a.take(0) =~= a);
        }
    }
}

/// An operation that is refused leaves the ledger as it was.
pub proof fn law_refusals_change_nothing(
    l: Ledger,
    now: i64,
    id: Text,
    c: ChangeRec,
    a: Option<Text>,
    b: Option<Text>,
    who: Text,
    word: Text,
    n: i64,
    marked: bool,
    rec: TaskRec,
    q: EdgeRequest,
    items: Seq<Text>,
    safe: Seq<Text>,
)
    ensures
        l.created(rec).1 is Err ==> l.created(rec).0 == l,
        l.updated(now, id, c, a).1 is Err ==> l.updated(now, id, c, a).0 == l,
        l.retry_requested(now, id).1 is Err ==> l.retry_requested(now, id).0 == l,
        l.event_appended(now, id, word, who).1 is Err ==> l.event_appended(now, id, word, who).0 == l,
        l.paused(now, id, a, b, who).1 is Err ==> l.paused(now, id, a, b, who).0 == l,
        l.resumed(now, id, who).1 is Err ==> l.resumed(now, id, who).0 == l,
        l.frozen(now, id, a, b, who).1 is Err ==> l.frozen(now, id, a, b, who).0 == l,
        l.unfrozen(now, id, who).1 is Err ==> l.unfrozen(now, id, who).0 == l,
        l.observed(now, id, word, n, who).1 is Err ==> l.observed(now, id, word, n, who).0 == l,
        l.investigation_set(now, id, marked, a, b, who).1 is Err ==> l.investigation_set(
            now,
            id,
            marked,
            a,
            b,
            who,
        ).0 == l,
        l.noted(now, id, word, word, who).1 is Err ==> l.noted(now, id, word, word, who).0 == l,
        l.edge_recorded(now, q).1 is Err ==> l.edge_recorded(now, q).0 == l,
        l.todos_set(now, id, items, safe).1 is Err ==> l.todos_set(now, id, items, safe).0 == l,
        l.todo_updated(now, id, n, word).1 is Err ==> l.todo_updated(now, id, n, word).0 == l,
{
}

} // verus!
