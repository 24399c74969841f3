//! What holds of the recovery scan as a whole.
use vstd::prelude::*;
use crate::coordinator::attempts;
use crate::coordinator::ledger::{self, Ledger};
use crate::coordinator::model::{AttemptRec, OwnedAttempt, OwnedEvent, TaskHeader, TaskRec};
use crate::coordinator::recover;
use crate::coordinator::vocab::{self, TaskState};
use crate::numeral;
use crate::text::Text;

verus! {

/// Whether the rows that a recovery scan reads are there: task ids are unique, and the attempt that a
/// task points at, and the task that an attempt belongs to, exist.
pub open spec fn linked(l: Ledger) -> bool {
    &&& l.tasks_keyed()
    &&& forall|i: int|
        0 <= i < l.tasks.len() ==> ((#[trigger] l.tasks[i]).head.current_attempt_id matches Some(aid)
            ==> l.has_attempt(aid))
    &&& forall|k: int| 0 <= k < l.attempts.len() ==> l.has((#[trigger] l.attempts[k]).task_id)
}

/// Whether a ledger has the same tasks and attempts as another, as far as deadlines go.
pub open spec fn alike(l: Ledger, m: Ledger) -> bool {
    &&& m.tasks.len() == l.tasks.len()
    &&& m.attempts.len() == l.attempts.len()
    &&& forall|i: int|
        0 <= i < l.tasks.len() ==> (#[trigger] m.tasks[i]).head.task_id == l.tasks[i].head.task_id
            && m.tasks[i].head.current_attempt_id == l.tasks[i].head.current_attempt_id
    &&& forall|k: int|
        0 <= k < l.attempts.len() ==> (#[trigger] m.attempts[k]).task_id == l.attempts[k].task_id
            && m.attempts[k].attempt.attempt_id == l.attempts[k].attempt.attempt_id
            && m.attempts[k].attempt.started_at == l.attempts[k].attempt.started_at
}

proof fn lemma_alike_then(l: Ledger, m: Ledger, n: Ledger)
    requires
        alike(l, m),
        alike(m, n),
    ensures
        alike(l, n),
{
    assert forall|i: int| 0 <= i < l.tasks.len() implies (#[trigger] n.tasks[i]).head.task_id == l.tasks[i].head.task_id
        && n.tasks[i].head.current_attempt_id == l.tasks[i].head.current_attempt_id by {
        assert(m.tasks[i].head.task_id == l.tasks[i].head.task_id);
    }
    assert forall|k: int| 0 <= k < l.attempts.len() implies (#[trigger] n.attempts[k]).task_id == l.attempts[k].task_id
        && n.attempts[k].attempt.attempt_id == l.attempts[k].attempt.attempt_id && n.attempts[k].attempt.started_at
        == l.attempts[k].attempt.started_at by {
        assert(m.attempts[k].task_id == l.attempts[k].task_id);
    }
}

proof fn lemma_alike_finds(l: Ledger, m: Ledger, id: Text, aid: i64)
    requires
        alike(l, m),
    ensures
        m.find(id) == l.find(id),
        m.has(id) == l.has(id),
        m.find_attempt(aid) == l.find_attempt(aid),
        m.has_attempt(aid) == l.has_attempt(aid),
        l.has_attempt(aid) ==> m.attempt(aid).attempt.started_at == l.attempt(aid).attempt.started_at,
{
    ledger::lemma_find_same_ids(l.tasks, m.tasks, id, 0);
    ledger::lemma_attempt_same_ids(l.attempts, m.attempts, aid, 0);
    ledger::lemma_attempt_from(l.attempts, aid, 0);
    if l.has_attempt(aid) {
        assert(m.attempts[l.find_attempt(aid)].task_id == l.attempts[l.find_attempt(aid)].task_id);
    }
}

proof fn lemma_alike_linked(l: Ledger, m: Ledger)
    requires
        alike(l, m),
        linked(l),
    ensures
        linked(m),
{
    assert forall|i: int, j: int| 0 <= i < j < m.tasks.len() implies (#[trigger] m.tasks[i]).head.task_id != (
    #[trigger] m.tasks[j]).head.task_id by {
        assert(l.tasks[i].head.task_id != l.tasks[j].head.task_id);
    }
    assert forall|i: int| 0 <= i < m.tasks.len() implies ((#[trigger] m.tasks[i]).head.current_attempt_id matches Some(
        aid,
    ) ==> m.has_attempt(aid)) by {
        if m.tasks[i].head.current_attempt_id is Some {
            assert(l.tasks[i].head.current_attempt_id is Some);
            lemma_alike_finds(l, m, m.tasks[i].head.task_id, m.tasks[i].head.current_attempt_id->0);
        }
    }
    assert forall|k: int| 0 <= k < m.attempts.len() implies m.has((#[trigger] m.attempts[k]).task_id) by {
        lemma_alike_finds(l, m, m.attempts[k].task_id, 0);
        assert(l.has(l.attempts[k].task_id));
    }
}

proof fn lemma_alike_overdue(l: Ledger, m: Ledger, h: TaskHeader, now: i64)
    requires
        alike(l, m),
    ensures
        m.overdue(h, now) == l.overdue(h, now),
{
    if h.current_attempt_id is Some {
        lemma_alike_finds(l, m, h.task_id, h.current_attempt_id->0);
    }
}

pub proof fn lemma_linked(l: Ledger)
    requires
        l.wf(),
    ensures
        linked(l),
{
    assert forall|i: int| 0 <= i < l.tasks.len() implies ((#[trigger] l.tasks[i]).head.current_attempt_id matches Some(
        aid,
    ) ==> l.has_attempt(aid)) by {
        assert(l.task_sound(l.tasks[i]));
    }
}

proof fn lemma_statuses_differ()
    ensures
        "interrupted"@ != "running"@,
{
    reveal_strlit("interrupted");
    reveal_strlit("running");
    assert("interrupted"@.len() == 11);
    assert("running"@.len() == 7);
}

proof fn lemma_interrupted(l: Ledger, i: int, now: i64)
    requires
        linked(l),
        0 <= i < l.tasks.len(),
    ensures
        ({
            let m = l.interrupted(l.tasks[i].head.task_id, now);
            &&& alike(l, m)
            &&& linked(m)
            &&& m.tasks[i].head.status == "interrupted"@
            &&& forall|j: int| 0 <= j < l.tasks.len() && j != i ==> #[trigger] m.tasks[j] == l.tasks[j]
        }),
{
    let id = l.tasks[i].head.task_id;
    ledger::lemma_find(l, id);
    lemma_place(l, i);
    let m = l.interrupted(id, now);
    let h = l.head(id);
    if h.current_attempt_id is Some {
        let aid = h.current_attempt_id->0;
        ledger::lemma_attempt_from(l.attempts, aid, 0);
        assert(l.has_attempt(aid));
    }
    assert(alike(l, m));
    lemma_alike_linked(l, m);
}

proof fn lemma_place(l: Ledger, i: int)
    requires
        l.tasks_keyed(),
        0 <= i < l.tasks.len(),
    ensures
        l.find(l.tasks[i].head.task_id) == i,
{
    let id = l.tasks[i].head.task_id;
    ledger::lemma_find_from(l.tasks, id, 0);
    let f = l.find(id);
    if f < i {
        assert(l.tasks[f].head.task_id != l.tasks[i].head.task_id);
    }
}

/// The ids of the first `n` tasks whose deadline has passed.
pub open spec fn overdue_ids(l: Ledger, now: i64, n: int) -> Seq<Text>
    decreases n,
{
    if n <= 0 {
        Seq::empty()
    } else {
        let before = overdue_ids(l, now, n - 1);
        if l.overdue(l.tasks[n - 1].head, now) {
            before.push(l.tasks[n - 1].head.task_id)
        } else {
            before
        }
    }
}

pub proof fn lemma_recovered(l: Ledger, now: i64, n: int)
    requires
        linked(l),
        0 <= n <= l.tasks.len(),
    ensures
        ({
            let (m, ids) = l.recovered_first(now, n);
            &&& alike(l, m)
            &&& linked(m)
            &&& ids == overdue_ids(l, now, n)
            &&& forall|j: int|
                0 <= j < n ==> !m.overdue((#[trigger] m.tasks[j]).head, now) && if l.overdue(l.tasks[j].head, now) {
                    m.tasks[j].head.status == "interrupted"@
                } else {
                    m.tasks[j] == l.tasks[j]
                }
            &&& forall|j: int| n <= j < l.tasks.len() ==> #[trigger] m.tasks[j] == l.tasks[j]
        }),
    decreases n,
{
    if n > 0 {
        lemma_recovered(l, now, n - 1);
        lemma_statuses_differ();
        let a = l.recovered_first(now, n - 1).0;
        let (m, ids) = l.recovered_first(now, n);
        let h = a.tasks[n - 1].head;
        assert(a.tasks[n - 1] == l.tasks[n - 1]);
        lemma_alike_overdue(l, a, h, now);
        if a.overdue(h, now) {
            lemma_interrupted(a, n - 1, now);
            lemma_alike_then(l, a, m);
            assert forall|j: int| 0 <= j < n implies !m.overdue((#[trigger] m.tasks[j]).head, now) && if l.overdue(
                l.tasks[j].head,
                now,
            ) {
                m.tasks[j].head.status == "interrupted"@
            } else {
                m.tasks[j] == l.tasks[j]
            } by {
                if j < n - 1 {
                    assert(m.tasks[j] == a.tasks[j]);
                    lemma_alike_overdue(a, m, m.tasks[j].head, now);
                }
            }
            assert forall|j: int| n <= j < l.tasks.len() implies #[trigger] m.tasks[j] == l.tasks[j] by {
                assert(m.tasks[j] == a.tasks[j]);
            }
        }
    }
}

proof fn lemma_orphans(l: Ledger, now: i64, n: int)
    requires
        linked(l),
        0 <= n <= l.attempts.len(),
    ensures
        ({
            let m = l.orphans_closed_first(now, n).0;
            &&& alike(l, m)
            &&& linked(m)
            &&& m.tasks == l.tasks
            &&& forall|k: int| 0 <= k < n ==> !m.orphaned(#[trigger] m.attempts[k])
            &&& forall|k: int| n <= k < l.attempts.len() ==> #[trigger] m.attempts[k] == l.attempts[k]
        }),
    decreases n,
{
    if n > 0 {
        lemma_orphans(l, now, n - 1);
        let a = l.orphans_closed_first(now, n - 1).0;
        let m = l.orphans_closed_first(now, n).0;
        assert(a.attempts[n - 1] == l.attempts[n - 1]);
        if a.orphaned(a.attempts[n - 1]) {
            assert(alike(a, m));
            lemma_alike_then(l, a, m);
            lemma_alike_linked(a, m);
            assert forall|k: int| 0 <= k < n implies !m.orphaned(#[trigger] m.attempts[k]) by {
                if k < n - 1 {
                    assert(m.attempts[k] == a.attempts[k]);
                    assert(m.tasks == a.tasks);
                }
            }
        }
    }
}

proof fn lemma_nothing_overdue(l: Ledger, now: i64, n: int)
    requires
        0 <= n <= l.tasks.len(),
        forall|j: int| 0 <= j < l.tasks.len() ==> !l.overdue((#[trigger] l.tasks[j]).head, now),
    ensures
        l.recovered_first(now, n) == (l, Seq::<Text>::empty()),
    decreases n,
{
    if n > 0 {
        lemma_nothing_overdue(l, now, n - 1);
        assert(!l.overdue(l.tasks[n - 1].head, now));
    }
}

proof fn lemma_nothing_orphaned(l: Ledger, now: i64, n: int)
    requires
        0 <= n <= l.attempts.len(),
        forall|k: int| 0 <= k < l.attempts.len() ==> !l.orphaned(#[trigger] l.attempts[k]),
    ensures
        l.orphans_closed_first(now, n) == (l, Seq::<i64>::empty()),
    decreases n,
{
    if n > 0 {
        lemma_nothing_orphaned(l, now, n - 1);
        assert(!l.orphaned(l.attempts[n - 1]));
    }
}

/// A recovery scan interrupts exactly the running tasks whose deadline has passed, tells their ids, and
/// leaves the rows of the other tasks as they were.
pub proof fn law_recovery_interrupts_the_overdue(l: Ledger, now: i64, i: int)
    requires
        l.wf(),
        0 <= i < l.tasks.len(),
    ensures
        ({
            let (m, ids) = l.recovered(now);
            &&& ids == overdue_ids(l, now, l.tasks.len() as int)
            &&& m.tasks.len() == l.tasks.len()
            &&& if l.overdue(l.tasks[i].head, now) {
                m.tasks[i].head.status == "interrupted"@
            } else {
                m.tasks[i] == l.tasks[i]
            }
        }),
{
    lemma_linked(l);
    lemma_recovered(l, now, l.tasks.len() as int);
    let a = l.recovered_first(now, l.tasks.len() as int).0;
    lemma_orphans(a, now, a.attempts.len() as int);
    assert(a.tasks[i] == l.recovered(now).0.tasks[i]);
}

/// After a recovery scan no task is past its deadline and no attempt of an ended task is open; a
/// second scan at the same time finds nothing and changes nothing.
pub proof fn law_recovery_is_idempotent(l: Ledger, now: i64)
    requires
        l.wf(),
    ensures
        ({
            let m = l.recovered(now).0;
            &&& forall|j: int| 0 <= j < m.tasks.len() ==> !m.overdue((#[trigger] m.tasks[j]).head, now)
            &&& forall|k: int| 0 <= k < m.attempts.len() ==> !m.orphaned(#[trigger] m.attempts[k])
            &&& m.recovered(now) == (m, Seq::<Text>::empty())
        }),
{
    lemma_linked(l);
    let n = l.tasks.len() as int;
    lemma_recovered(l, now, n);
    let a = l.recovered_first(now, n).0;
    lemma_orphans(a, now, a.attempts.len() as int);
    let m = l.recovered(now).0;
    assert forall|j: int| 0 <= j < m.tasks.len() implies !m.overdue((#[trigger] m.tasks[j]).head, now) by {
        assert(m.tasks[j] == a.tasks[j]);
        lemma_alike_overdue(a, m, m.tasks[j].head, now);
    }
    lemma_nothing_overdue(m, now, m.tasks.len() as int);
    lemma_nothing_orphaned(m, now, m.attempts.len() as int);
}

/// The scan for orphaned attempts is idempotent too.
pub proof fn law_orphans_are_closed_once(l: Ledger, now: i64)
    requires
        l.wf(),
    ensures
        l.orphans_closed(now).0.orphans_closed(now) == (l.orphans_closed(now).0, Seq::<i64>::empty()),
{
    lemma_linked(l);
    lemma_orphans(l, now, l.attempts.len() as int);
    let m = l.orphans_closed(now).0;
    lemma_nothing_orphaned(m, now, m.attempts.len() as int);
}

/// The row that an interrupted task is left with.
spec fn cut_short(l: Ledger, t: TaskRec, now: i64) -> TaskRec {
    let h = t.head;
    TaskRec {
        head: TaskHeader {
            status: "interrupted"@,
            updated_at: now,
            last_failure_reason: Some(
                recover::deadline_text(l.run_start(h)->0 as int, h.max_runtime_secs->0 as int, now as int),
            ),
            last_failure_class: Some("timeout"@),
            ..h
        },
        ..t
    }
}

/// The row that the attempt of an interrupted task is left with.
spec fn timed_out(l: Ledger, t: TaskRec, a: OwnedAttempt, now: i64) -> OwnedAttempt {
    OwnedAttempt {
        attempt: AttemptRec {
            finished_at: Some(now),
            status: "interrupted"@,
            failure_class: Some("timeout"@),
            error_cause: cut_short(l, t, now).head.last_failure_reason,
            ..a.attempt
        },
        ..a
    }
}

/// Whether the events of an interruption stand in a chronicle from `e` on.
spec fn told(events: Seq<OwnedEvent>, e: int, l: Ledger, t: TaskRec, now: i64) -> bool {
    let h = t.head;
    let last = if h.current_attempt_id is Some {
        e + 2
    } else {
        e + 1
    };
    let wall = attempts::elapsed(l.run_start(h)->0 as int, now as int);
    &&& 0 <= e
    &&& last < events.len()
    &&& forall|k: int|
        e <= k <= last ==> (#[trigger] events[k]).task_id == h.task_id && events[k].event.ts == now
            && events[k].event.attempt_id == h.current_attempt_id
    &&& events[e].event.event_type == "task.interrupted"@
    &&& h.current_attempt_id is Some ==> events[e + 1].event.event_type == "task.attempt_finished"@
    &&& events[last].event.event_type == "task.terminal_summary"@
    &&& events[last].event.payload == recover::deadline_summary_text(
        h.attempt_count as int,
        h.retry_count as int,
        wall,
    )
}

proof fn lemma_told_stays(a: Seq<OwnedEvent>, b: Seq<OwnedEvent>, e: int, l: Ledger, t: TaskRec, now: i64)
    requires
        told(a, e, l, t, now),
        a.len() <= b.len(),
        b.take(a.len() as int) == a,
    ensures
        told(b, e, l, t, now),
{
    assert forall|k: int| 0 <= k < a.len() implies #[trigger] a[k] == b[k] by {
        assert(b.take(a.len() as int)[k] == b[k]);
    }
    let last = if t.head.current_attempt_id is Some {
        e + 2
    } else {
        e + 1
    };
    assert(a[e] == b[e] && a[last] == b[last] && a[e + 1] == b[e + 1]);
    assert forall|k: int| e <= k <= last implies (#[trigger] b[k]).task_id == t.head.task_id && b[k].event.ts == now
        && b[k].event.attempt_id == t.head.current_attempt_id by {
        assert(a[k] == b[k]);
    }
}

/// Whether the first `n` tasks have been looked at in a scan that led from one ledger to another.
spec fn scanned(l: Ledger, m: Ledger, ids: Seq<Text>, now: i64, n: int) -> bool {
    &&& alike(l, m)
    &&& linked(m)
    &&& forall|j: int|
        0 <= j < l.tasks.len() ==> #[trigger] m.tasks[j] == if j < n && l.overdue(l.tasks[j].head, now) {
            cut_short(l, l.tasks[j], now)
        } else {
            l.tasks[j]
        }
    &&& forall|j: int|
        0 <= j < l.tasks.len() ==> (ids.contains((#[trigger] l.tasks[j]).head.task_id) <==> j < n && l.overdue(
            l.tasks[j].head,
            now,
        ))
    &&& forall|k: int|
        0 <= k < l.attempts.len() ==> #[trigger] m.attempts[k] == {
            let a = l.attempts[k];
            let j = l.find(a.task_id);
            if j < n && l.overdue(l.tasks[j].head, now) && a.attempt.finished_at is None {
                timed_out(l, l.tasks[j], a, now)
            } else {
                a
            }
        }
    &&& l.events.len() <= m.events.len()
    &&& m.events.take(l.events.len() as int) == l.events
    &&& forall|j: int|
        0 <= j < n && l.overdue((#[trigger] l.tasks[j]).head, now) ==> exists|e: int|
            l.events.len() <= e && #[trigger] told(m.events, e, l, l.tasks[j], now)
    &&& forall|q: int|
        l.events.len() <= q < m.events.len() ==> ids.contains((#[trigger] m.events[q]).task_id)
    &&& ids.no_duplicates()
}

proof fn lemma_scanned(l: Ledger, now: i64, n: int)
    requires
        l.wf(),
        0 <= n <= l.tasks.len(),
    ensures
        scanned(l, l.recovered_first(now, n).0, l.recovered_first(now, n).1, now, n),
    decreases n,
{
    lemma_linked(l);
    let (m, ids) = l.recovered_first(now, n);
    if n == 0 {
        assert(m.events.take(l.events.len() as int) =~= l.events);
        assert forall|k: int| 0 <= k < l.attempts.len() implies 0 <= l.find((#[trigger] l.attempts[k]).task_id) by {
            ledger::lemma_find(l, l.attempts[k].task_id);
        }
    } else {
        lemma_scanned(l, now, n - 1);
        let (a, before) = l.recovered_first(now, n - 1);
        let t = l.tasks[n - 1];
        let id = t.head.task_id;
        assert(a.tasks[n - 1] == t);
        lemma_alike_overdue(l, a, t.head, now);
        ledger::lemma_find_is(l, n - 1);
        lemma_alike_finds(l, a, id, 0);
        if a.overdue(t.head, now) {
            lemma_scan_step(l, a, before, now, n);
        } else {
            assert forall|k: int| 0 <= k < l.attempts.len() implies #[trigger] m.attempts[k] == {
                let b = l.attempts[k];
                let j = l.find(b.task_id);
                if j < n && l.overdue(l.tasks[j].head, now) && b.attempt.finished_at is None {
                    timed_out(l, l.tasks[j], b, now)
                } else {
                    b
                }
            } by {
                assert(a.attempts[k] == m.attempts[k]);
            }
        }
    }
}

proof fn lemma_scan_step(l: Ledger, a: Ledger, before: Seq<Text>, now: i64, n: int)
    requires
        l.wf(),
        linked(l),
        0 < n <= l.tasks.len(),
        scanned(l, a, before, now, n - 1),
        l.overdue(l.tasks[n - 1].head, now),
        a.overdue(l.tasks[n - 1].head, now),
        a.tasks[n - 1] == l.tasks[n - 1],
        a.find(l.tasks[n - 1].head.task_id) == n - 1,
        l.find(l.tasks[n - 1].head.task_id) == n - 1,
    ensures
        scanned(
            l,
            a.interrupted(l.tasks[n - 1].head.task_id, now),
            before.push(l.tasks[n - 1].head.task_id),
            now,
            n,
        ),
{
    let t = l.tasks[n - 1];
    let h = t.head;
    let id = h.task_id;
    let m = a.interrupted(id, now);
    let ids = before.push(id);
    lemma_interrupted(a, n - 1, now);
    lemma_alike_then(l, a, m);
    assert(a.head(id) == h);
    if h.current_attempt_id is Some {
        lemma_alike_finds(l, a, id, h.current_attempt_id->0);
    }
    assert(a.run_start(h) == l.run_start(h));
    assert forall|x: Text| #[trigger] ids.contains(x) <==> before.contains(x) || x == id by {
        if before.contains(x) {
            let i = choose|i: int| 0 <= i < before.len() && before[i] == x;
            assert(ids[i] == x);
        }
        assert(ids[before.len() as int] == id);
    }
    assert(!before.contains(id));
    assert forall|j: int| 0 <= j < l.tasks.len() implies (ids.contains((#[trigger] l.tasks[j]).head.task_id) <==> j < n
        && l.overdue(l.tasks[j].head, now)) by {
        if j != n - 1 {
            assert(l.tasks[j].head.task_id != id) by {
                if j < n - 1 {
                    assert(l.tasks[j].head.task_id != l.tasks[n - 1].head.task_id);
                } else {
                    assert(l.tasks[n - 1].head.task_id != l.tasks[j].head.task_id);
                }
            }
        }
    }
    assert(m.tasks[n - 1] == cut_short(l, t, now));
    assert forall|j: int| 0 <= j < l.tasks.len() implies #[trigger] m.tasks[j] == if j < n && l.overdue(
        l.tasks[j].head,
        now,
    ) {
        cut_short(l, l.tasks[j], now)
    } else {
        l.tasks[j]
    } by {
        if j != n - 1 {
            assert(m.tasks[j] == a.tasks[j]);
        }
    }
    assert forall|k: int| 0 <= k < l.attempts.len() implies #[trigger] m.attempts[k] == {
        let b = l.attempts[k];
        let j = l.find(b.task_id);
        if j < n && l.overdue(l.tasks[j].head, now) && b.attempt.finished_at is None {
            timed_out(l, l.tasks[j], b, now)
        } else {
            b
        }
    } by {
        let b = l.attempts[k];
        let j = l.find(b.task_id);
        assert(l.has(b.task_id));
        ledger::lemma_find(l, b.task_id);
        ledger::lemma_attempt_is(l, k);
        assert(a.attempts[k].attempt.attempt_id == b.attempt.attempt_id);
        if h.current_attempt_id is Some {
            let aid = h.current_attempt_id->0;
            lemma_alike_finds(l, a, id, aid);
            ledger::lemma_attempt_from(l.attempts, aid, 0);
            assert(l.task_sound(t));
            let c = l.find_attempt(aid);
            assert(l.attempts[c].task_id == id);
            if k == c {
                assert(j == n - 1);
                assert(a.attempts[k] == b);
            } else {
                assert(m.attempts[k] == a.attempts[k]);
                if j == n - 1 && b.attempt.finished_at is None {
                    assert(l.head(b.task_id).current_attempt_id == Some(b.attempt.attempt_id));
                    assert(false);
                }
            }
        } else {
            assert(m.attempts[k] == a.attempts[k]);
            if j == n - 1 && b.attempt.finished_at is None {
                assert(l.head(b.task_id).current_attempt_id == Some(b.attempt.attempt_id));
                assert(false);
            }
        }
    }
    assert(a.events.len() <= m.events.len());
    assert(m.events.take(a.events.len() as int) =~= a.events);
    assert(m.events.take(l.events.len() as int) =~= a.events.take(l.events.len() as int));
    assert(told(m.events, a.events.len() as int, l, t, now));
    assert forall|j: int| 0 <= j < n && l.overdue((#[trigger] l.tasks[j]).head, now) implies exists|e: int|
        l.events.len() <= e && #[trigger] told(m.events, e, l, l.tasks[j], now) by {
        if j < n - 1 {
            let e = choose|e: int| l.events.len() <= e && #[trigger] told(a.events, e, l, l.tasks[j], now);
            lemma_told_stays(a.events, m.events, e, l, l.tasks[j], now);
        }
    }
    assert forall|q: int| l.events.len() <= q < m.events.len() implies ids.contains((#[trigger] m.events[q]).task_id) by {
        if q < a.events.len() {
            assert(m.events.take(a.events.len() as int)[q] == m.events[q]);
            assert(before.contains(a.events[q].task_id));
        }
    }
}

/// The row that an orphaned attempt is left with.
spec fn orphan_row(a: OwnedAttempt, now: i64) -> OwnedAttempt {
    OwnedAttempt {
        attempt: AttemptRec {
            finished_at: Some(now),
            status: "interrupted"@,
            failure_class: match a.attempt.failure_class {
                Some(c) => Some(c),
                None => Some("orphan"@),
            },
            error_cause: match a.attempt.error_cause {
                Some(c) => Some(c),
                None => Some("attempt left open while task reached terminal status"@),
            },
            ..a.attempt
        },
        ..a
    }
}

proof fn lemma_orphan_rows(l: Ledger, now: i64, n: int)
    requires
        linked(l),
        0 <= n <= l.attempts.len(),
    ensures
        ({
            let (m, ids) = l.orphans_closed_first(now, n);
            &&& m.tasks == l.tasks
            &&& m.attempts.len() == l.attempts.len()
            &&& forall|k: int|
                0 <= k < l.attempts.len() ==> #[trigger] m.attempts[k] == if k < n && l.orphaned(l.attempts[k]) {
                    orphan_row(l.attempts[k], now)
                } else {
                    l.attempts[k]
                }
            &&& l.events.len() <= m.events.len()
            &&& m.events.take(l.events.len() as int) == l.events
            &&& forall|q: int|
                l.events.len() <= q < m.events.len() ==> (#[trigger] m.events[q]).event.event_type
                    == "task.attempt_orphan_closed"@
            &&& ids.len() == m.events.len() - l.events.len()
            &&& forall|q: int|
                0 <= q < ids.len() ==> m.events[l.events.len() + q].event.attempt_id == Some(#[trigger] ids[q])
            &&& forall|aid: i64| #[trigger]
                ids.contains(aid) <==> exists|k: int|
                    0 <= k < n && l.orphaned(#[trigger] l.attempts[k]) && l.attempts[k].attempt.attempt_id == aid
        }),
    decreases n,
{
    if n == 0 {
        assert(l.events.take(l.events.len() as int) =~= l.events);
    } else {
        lemma_orphan_rows(l, now, n - 1);
        let (a, before) = l.orphans_closed_first(now, n - 1);
        let (m, ids) = l.orphans_closed_first(now, n);
        let x = l.attempts[n - 1];
        assert(a.attempts[n - 1] == x);
        assert(a.orphaned(x) == l.orphaned(x));
        if a.orphaned(x) {
            assert(m.events.take(l.events.len() as int) =~= a.events.take(l.events.len() as int));
            assert forall|k: int| 0 <= k < l.attempts.len() implies #[trigger] m.attempts[k] == if k < n && l.orphaned(
                l.attempts[k],
            ) {
                orphan_row(l.attempts[k], now)
            } else {
                l.attempts[k]
            } by {
                if k != n - 1 {
                    assert(m.attempts[k] == a.attempts[k]);
                }
            }
            assert forall|q: int| l.events.len() <= q < m.events.len() implies (#[trigger] m.events[q]).event.event_type
                == "task.attempt_orphan_closed"@ by {
                if q < a.events.len() {
                    assert(m.events[q] == a.events[q]);
                }
            }
            assert forall|q: int| 0 <= q < ids.len() implies m.events[l.events.len() + q].event.attempt_id == Some(
                #[trigger] ids[q],
            ) by {
                if q < before.len() {
                    assert(ids[q] == before[q]);
                    assert(m.events[l.events.len() + q] == a.events[l.events.len() + q]);
                }
            }
            assert forall|aid: i64| #[trigger] ids.contains(aid) <==> exists|k: int|
                0 <= k < n && l.orphaned(#[trigger] l.attempts[k]) && l.attempts[k].attempt.attempt_id == aid by {
                if before.contains(aid) {
                    let i = choose|i: int| 0 <= i < before.len() && before[i] == aid;
                    assert(ids[i] == aid);
                }
                assert(ids[before.len() as int] == x.attempt.attempt_id);
                if ids.contains(aid) && aid != x.attempt.attempt_id {
                    let i = choose|i: int| 0 <= i < ids.len() && ids[i] == aid;
                    assert(before[i] == aid);
                }
            }
        } else {
            assert forall|aid: i64| #[trigger] ids.contains(aid) <==> exists|k: int|
                0 <= k < n && l.orphaned(#[trigger] l.attempts[k]) && l.attempts[k].attempt.attempt_id == aid by {
                assert(before.contains(aid) == ids.contains(aid));
            }
        }
    }
}

/// A recovery scan goes by the columns. A task is interrupted, and named, exactly where it is running,
/// has a runtime limit, and the start of its current attempt plus the limit lies before the scan; the
/// start of the task counts where it has no attempt. No other column matters, and a task that is not
/// interrupted keeps its row.
pub proof fn law_recovery_goes_by_the_columns(l: Ledger, now: i64, i: int, k: int, started: Option<i64>)
    requires
        l.wf(),
        0 <= i < l.tasks.len(),
        match l.tasks[i].head.current_attempt_id {
            Some(aid) => 0 <= k < l.attempts.len() && l.attempts[k].attempt.attempt_id == aid && started == Some(
                l.attempts[k].attempt.started_at,
            ),
            None => started == l.tasks[i].head.started_at,
        },
    ensures
        ({
            let h = l.tasks[i].head;
            let (m, ids) = l.recovered(now);
            let due = h.status == "running"@ && h.max_runtime_secs is Some && started is Some && started->0
                + h.max_runtime_secs->0 < now;
            let cause = "deadline_exceeded: started_at="@ + numeral::dec(started->0 as int) + " max_runtime_secs="@
                + numeral::dec(h.max_runtime_secs->0 as int) + " now="@ + numeral::dec(now as int);
            &&& ids.contains(h.task_id) <==> due
            &&& ids.no_duplicates()
            &&& m.tasks.len() == l.tasks.len()
            &&& m.tasks[i] == if due {
                TaskRec {
                    head: TaskHeader {
                        status: "interrupted"@,
                        updated_at: now,
                        last_failure_reason: Some(cause),
                        last_failure_class: Some("timeout"@),
                        ..h
                    },
                    ..l.tasks[i]
                }
            } else {
                l.tasks[i]
            }
            &&& due && h.current_attempt_id is Some && l.attempts[k].attempt.finished_at is None ==> m.attempts[k]
                == (OwnedAttempt {
                attempt: AttemptRec {
                    finished_at: Some(now),
                    status: "interrupted"@,
                    failure_class: Some("timeout"@),
                    error_cause: Some(cause),
                    ..l.attempts[k].attempt
                },
                ..l.attempts[k]
            })
        }),
{
    lemma_linked(l);
    let n = l.tasks.len() as int;
    let h = l.tasks[i].head;
    lemma_scanned(l, now, n);
    let (a, ids) = l.recovered_first(now, n);
    let m = l.recovered(now).0;
    lemma_orphan_rows(a, now, a.attempts.len() as int);
    if h.current_attempt_id is Some {
        ledger::lemma_attempt_is(l, k);
        assert(l.task_sound(l.tasks[i]));
        ledger::lemma_find_is(l, i);
        assert(l.attempt(h.current_attempt_id->0).task_id == h.task_id);
        assert(a.attempts[k] == a.attempts[k]);
        assert(m.attempts[k] == m.attempts[k]);
    }
    assert(l.run_start(h) == started);
    assert(a.tasks[i] == m.tasks[i]);
}

/// A recovery scan closes exactly the attempts that are still open although their task has ended or is
/// being interrupted: those of an interrupted task as timed out, the others as orphans. An attempt that
/// has ended keeps its row, and so does one whose task goes on.
pub proof fn law_recovery_closes_what_was_left_open(l: Ledger, now: i64, i: int, k: int)
    requires
        l.wf(),
        0 <= i < l.tasks.len(),
        0 <= k < l.attempts.len(),
        l.attempts[k].task_id == l.tasks[i].head.task_id,
    ensures
        ({
            let (m, ids) = l.recovered(now);
            let a = l.attempts[k].attempt;
            let b = m.attempts[k].attempt;
            let status = l.tasks[i].head.status;
            let named = ids.contains(l.tasks[i].head.task_id);
            let over = status == "completed"@ || status == "failed"@ || status == "cancelled"@ || status
                == "interrupted"@;
            &&& m.attempts.len() == l.attempts.len()
            &&& m.attempts[k].task_id == l.attempts[k].task_id
            &&& a.finished_at is Some || !(named || over) ==> b == a
            &&& a.finished_at is None && (named || over) ==> b.finished_at == Some(now) && b.status == "interrupted"@
            &&& a.finished_at is None && named ==> b.failure_class == Some("timeout"@)
            &&& a.finished_at is None && over ==> b.failure_class == match a.failure_class {
                Some(c) => Some(c),
                None => Some("orphan"@),
            } && b.error_cause == match a.error_cause {
                Some(c) => Some(c),
                None => Some("attempt left open while task reached terminal status"@),
            }
            &&& b.attempt_id == a.attempt_id && b.attempt_num == a.attempt_num && b.started_at == a.started_at
            &&& named ==> !over
        }),
{
    lemma_linked(l);
    let n = l.tasks.len() as int;
    let h = l.tasks[i].head;
    lemma_scanned(l, now, n);
    let (a, ids) = l.recovered_first(now, n);
    let m = l.recovered(now).0;
    lemma_orphan_rows(a, now, a.attempts.len() as int);
    ledger::lemma_find_is(l, i);
    lemma_alike_finds(l, a, h.task_id, 0);
    assert(ids.contains(l.tasks[i].head.task_id) <==> l.overdue(h, now));
    assert(a.attempts[k].task_id == l.attempts[k].task_id);
    assert(a.head(h.task_id) == a.tasks[i].head);
    vocab::lemma_state_words(TaskState::Running);
    vocab::lemma_state_words(TaskState::Completed);
    vocab::lemma_state_words(TaskState::Failed);
    vocab::lemma_state_words(TaskState::Cancelled);
    vocab::lemma_state_words(TaskState::Interrupted);
    assert(m.attempts[k] == m.attempts[k]);
}

/// A recovery scan tells what it did: each interrupted task gets a `task.interrupted` event, a
/// `task.attempt_finished` event where it had an attempt, and a summary with its counts and the seconds
/// since the run began. Nothing is written of the other tasks but that an orphaned attempt was closed.
pub proof fn law_recovery_tells_what_it_did(l: Ledger, now: i64, i: int, k: int, started: i64, q: int)
    requires
        l.wf(),
        0 <= i < l.tasks.len(),
        match l.tasks[i].head.current_attempt_id {
            Some(aid) => 0 <= k < l.attempts.len() && l.attempts[k].attempt.attempt_id == aid && started
                == l.attempts[k].attempt.started_at,
            None => l.tasks[i].head.started_at == Some(started),
        },
        l.events.len() <= q < l.recovered(now).0.events.len(),
    ensures
        ({
            let h = l.tasks[i].head;
            let (m, ids) = l.recovered(now);
            let wall = if now > started {
                now - started
            } else {
                0
            };
            &&& m.events.take(l.events.len() as int) == l.events
            &&& ids.contains(m.events[q].task_id) || m.events[q].event.event_type == "task.attempt_orphan_closed"@
            &&& ids.contains(h.task_id) ==> exists|e: int|
                #![trigger m.events[e]]
                l.events.len() <= e < m.events.len() && m.events[e].task_id == h.task_id && m.events[e].event.event_type
                    == "task.interrupted"@ && m.events[e].event.attempt_id == h.current_attempt_id
            &&& ids.contains(h.task_id) && h.current_attempt_id is Some ==> exists|e: int|
                #![trigger m.events[e]]
                l.events.len() <= e < m.events.len() && m.events[e].task_id == h.task_id && m.events[e].event.event_type
                    == "task.attempt_finished"@ && m.events[e].event.attempt_id == h.current_attempt_id
            &&& ids.contains(h.task_id) ==> exists|e: int|
                #![trigger m.events[e]]
                l.events.len() <= e < m.events.len() && m.events[e].task_id == h.task_id && m.events[e].event.event_type
                    == "task.terminal_summary"@ && m.events[e].event.payload == "interrupted by deadline · attempts="@
                    + numeral::dec(h.attempt_count as int) + " retries="@ + numeral::dec(h.retry_count as int)
                    + " wall_clock_secs="@ + numeral::dec(wall) + " last_failure_class=timeout"@
        }),
{
    lemma_linked(l);
    let n = l.tasks.len() as int;
    let h = l.tasks[i].head;
    lemma_scanned(l, now, n);
    let (a, ids) = l.recovered_first(now, n);
    let m = l.recovered(now).0;
    lemma_orphan_rows(a, now, a.attempts.len() as int);
    assert(m.events.take(l.events.len() as int) =~= a.events.take(l.events.len() as int)) by {
        assert(m.events.take(a.events.len() as int) == a.events);
    }
    if h.current_attempt_id is Some {
        ledger::lemma_attempt_is(l, k);
    }
    assert(l.run_start(h) == Some(started));
    if q < a.events.len() {
        assert(m.events.take(a.events.len() as int)[q] == m.events[q]);
        assert(ids.contains(a.events[q].task_id));
    }
    assert(ids.contains(l.tasks[i].head.task_id) <==> l.overdue(h, now));
    if l.overdue(h, now) {
        let e = choose|e: int| l.events.len() <= e && #[trigger] told(a.events, e, l, l.tasks[i], now);
        lemma_told_stays(a.events, m.events, e, l, l.tasks[i], now);
        assert(m.events[e].task_id == h.task_id);
        assert(m.events[e + 1].task_id == h.task_id);
        if h.current_attempt_id is Some {
            assert(m.events[e + 2].task_id == h.task_id);
        }
    }
}

/// Closing orphans touches exactly the open attempts of tasks that have completed, failed, been cancelled
/// or been interrupted, tells their ids, and changes no task.
pub proof fn law_orphans_go_by_the_columns(l: Ledger, now: i64, i: int, k: int)
    requires
        l.wf(),
        0 <= i < l.tasks.len(),
        0 <= k < l.attempts.len(),
        l.attempts[k].task_id == l.tasks[i].head.task_id,
    ensures
        ({
            let (m, ids) = l.orphans_closed(now);
            let a = l.attempts[k].attempt;
            let b = m.attempts[k].attempt;
            let status = l.tasks[i].head.status;
            let left = a.finished_at is None && (status == "completed"@ || status == "failed"@ || status == "cancelled"@
                || status == "interrupted"@);
            &&& m.tasks == l.tasks
            &&& m.attempts.len() == l.attempts.len()
            &&& ids.contains(a.attempt_id) <==> left
            &&& !left ==> m.attempts[k] == l.attempts[k]
            &&& left ==> b.finished_at == Some(now) && b.status == "interrupted"@ && b.started_at == a.started_at
                && m.attempts[k].task_id == l.attempts[k].task_id
        }),
{
    lemma_linked(l);
    lemma_orphan_rows(l, now, l.attempts.len() as int);
    ledger::lemma_find_is(l, i);
    let (m, ids) = l.orphans_closed(now);
    let aid = l.attempts[k].attempt.attempt_id;
    assert(m.attempts[k] == m.attempts[k]);
    if ids.contains(aid) {
        let c = choose|c: int|
            0 <= c < l.attempts.len() && l.orphaned(#[trigger] l.attempts[c]) && l.attempts[c].attempt.attempt_id == aid;
        ledger::lemma_attempt_is(l, k);
        ledger::lemma_attempt_is(l, c);
    }
}

} // verus!
