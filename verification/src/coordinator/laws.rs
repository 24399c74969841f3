//! What holds of the ledger across operations.
use vstd::prelude::*;
use crate::coordinator::attempts;
use crate::coordinator::history;
use crate::coordinator::interrupt;
use crate::coordinator::ledger::{self, Ledger};
use crate::coordinator::model::{Fault, OwnedAttempt, OwnedEvent, TaskHeader, TaskRec};
use crate::coordinator::query;
use crate::coordinator::retry;
use crate::coordinator::update::{self, ChangeRec};
use crate::coordinator::vocab::{self, RetryPolicy, RetryVerdict, TaskState};
use crate::outside;
use crate::text::Text;

verus! {

/// A retry is accepted only of a task that has failed or was interrupted, whose policy permits
/// retries, and whose budget is not used up; the task is then retrying, with one retry more.
pub proof fn law_retries_stay_in_budget(l: Ledger, now: i64, id: Text)
    requires
        l.wf(),
        l.has(id),
    ensures
        ({
            let h = l.head(id);
            let (m, r) = l.retry_requested(now, id);
            match r {
                Ok(RetryVerdict::Accepted { new_retry_count, budget }) => {
                    &&& h.status == "failed"@ || h.status == "interrupted"@
                    &&& h.retry_policy != "none"@
                    &&& budget == retry::retry_budget(h)
                    &&& new_retry_count == h.retry_count + 1
                    &&& new_retry_count <= budget
                    &&& m.head(id).retry_count == new_retry_count
                    &&& m.head(id).status == "retrying"@
                },
                Ok(RetryVerdict::Exhausted { retry_count, budget }) => retry_count == h.retry_count && retry_count
                    >= budget && m.tasks == l.tasks,
                Ok(RetryVerdict::Rejected { .. }) => m.tasks == l.tasks,
                Err(_) => false,
            }
        }),
{
    ledger::lemma_find(l, id);
    history::law_operations_are_local(l, now, id, arbitrary(), None, None, Seq::empty(), Seq::empty(), 0, false);
    history::lemma_only_finds(l, l.retry_requested(now, id).0, id, id);
}

/// A retry request is decided by status, policy and count alone. It is accepted exactly where the task
/// failed or was interrupted and its policy leaves room: `once` for a first retry, `bounded` for as many
/// as the task's limit. It is exhausted where the policy is not `none` and leaves no room, and rejected
/// in every other case. Only an accepted request changes the task.
pub proof fn law_retry_requests_go_by_the_columns(l: Ledger, now: i64, i: int)
    requires
        l.wf(),
        0 <= i < l.tasks.len(),
    ensures
        ({
            let h = l.tasks[i].head;
            let (m, r) = l.retry_requested(now, h.task_id);
            let v = r->Ok_0;
            let ended = h.status == "failed"@ || h.status == "interrupted"@;
            let limit = if h.retry_policy == "once"@ {
                1
            } else if h.retry_policy == "bounded"@ && h.max_retries > 0 {
                h.max_retries as int
            } else {
                0
            };
            let room = h.retry_count < limit;
            &&& r is Ok
            &&& v is Accepted <==> ended && h.retry_policy != "none"@ && room
            &&& v is Exhausted <==> ended && h.retry_policy != "none"@ && !room
            &&& h.retry_count >= 0 && v is Accepted ==> h.retry_policy == "once"@ || h.retry_policy == "bounded"@
            &&& v is Rejected <==> !ended || h.retry_policy == "none"@
            &&& v matches RetryVerdict::Accepted { new_retry_count, budget } ==> new_retry_count == h.retry_count + 1
                && budget == limit
            &&& v matches RetryVerdict::Exhausted { retry_count, budget } ==> retry_count == h.retry_count && budget
                == limit
            &&& v is Accepted ==> m.tasks == l.tasks.update(
                i,
                TaskRec {
                    head: TaskHeader {
                        status: "retrying"@,
                        retry_count: (h.retry_count + 1) as i64,
                        updated_at: now,
                        error_kind: None,
                        error_cause: None,
                        ..h
                    },
                    ..l.tasks[i]
                },
            )
            &&& !(v is Accepted) ==> m.tasks == l.tasks
            &&& m.attempts == l.attempts && m.edges == l.edges && m.todos == l.todos
            &&& (v is Accepted || v is Exhausted || h.status == "paused"@ || h.status == "frozen"@) ==> m.events.len()
                == l.events.len() + 1 && m.events.drop_last() == l.events && m.events.last().task_id == h.task_id
                && m.events.last().event.event_type == if v is Accepted {
                "task.retry_requested"@
            } else if v is Exhausted {
                "task.retry_exhausted"@
            } else {
                "task.retry_suppressed"@
            }
            &&& !(v is Accepted || v is Exhausted || h.status == "paused"@ || h.status == "frozen"@) ==> m.events
                == l.events
        }),
{
    let h = l.tasks[i].head;
    let m = l.retry_requested(now, h.task_id).0;
    ledger::lemma_find_is(l, i);
    vocab::lemma_state_words(TaskState::Failed);
    vocab::lemma_state_words(TaskState::Interrupted);
    vocab::lemma_state_words(TaskState::Paused);
    vocab::lemma_state_words(TaskState::Frozen);
    vocab::law_retry_policy_round_trip(RetryPolicy::Never);
    vocab::law_retry_policy_round_trip(RetryPolicy::Once);
    vocab::law_retry_policy_round_trip(RetryPolicy::Bounded);
    if m.events.len() > l.events.len() {
        assert(m.events.drop_last() =~= l.events);
    }
}

/// A paused or frozen task is not retried: the request is refused, noted in the chronicle, and
/// changes nothing else.
pub proof fn law_interruptions_suppress_retries(l: Ledger, now: i64, id: Text)
    requires
        l.has(id),
        l.head(id).status == "paused"@ || l.head(id).status == "frozen"@,
    ensures
        l.retry_requested(now, id).1 == Ok::<RetryVerdict, crate::coordinator::model::Fault>(
            RetryVerdict::Rejected { reason: retry::suppressed_reason(l.head(id).status) },
        ),
        l.retry_requested(now, id).0.tasks == l.tasks,
        l.retry_requested(now, id).0.events.len() == l.events.len() + 1,
        l.retry_requested(now, id).0.events.last().event.event_type == "task.retry_suppressed"@,
{
}

/// Pausing and resuming count up the pause counter by one and leave the freeze counter alone;
/// freezing and unfreezing do the reverse. No other request touches either.
pub proof fn law_interruption_counters(
    l: Ledger,
    now: i64,
    id: Text,
    reason: Option<Text>,
    safe: Option<Text>,
    who: Text,
    c: ChangeRec,
    marked: bool,
)
    requires
        l.wf(),
        l.has(id),
        l.roomy(),
    ensures
        ({
            let h = l.head(id);
            let p = l.paused(now, id, reason, safe, who);
            let r = l.resumed(now, id, who);
            let f = l.frozen(now, id, reason, safe, who);
            let u = l.unfrozen(now, id, who);
            let t = l.retry_requested(now, id).0;
            let i = l.investigation_set(now, id, marked, reason, safe, who).0;
            &&& p.1 is Ok ==> p.0.head(id).pause_generation == h.pause_generation + 1 && p.0.head(id).freeze_generation
                == h.freeze_generation
            &&& r.1 is Ok ==> r.0.head(id).pause_generation == h.pause_generation + 1 && r.0.head(id).freeze_generation
                == h.freeze_generation
            &&& f.1 is Ok ==> f.0.head(id).freeze_generation == h.freeze_generation + 1 && f.0.head(id).pause_generation
                == h.pause_generation
            &&& u.1 is Ok ==> u.0.head(id).freeze_generation == h.freeze_generation + 1 && u.0.head(id).pause_generation
                == h.pause_generation
            &&& t.head(id).pause_generation == h.pause_generation && t.head(id).freeze_generation == h.freeze_generation
            &&& i.head(id).pause_generation == h.pause_generation && i.head(id).freeze_generation == h.freeze_generation
        }),
{
    ledger::lemma_find(l, id);
    assert(l.task_sound(l.tasks[l.find(id)]));
    history::law_operations_are_local(l, now, id, c, reason, safe, who, Seq::empty(), 0, marked);
    history::lemma_only_finds(l, l.paused(now, id, reason, safe, who).0, id, id);
    history::lemma_only_finds(l, l.resumed(now, id, who).0, id, id);
    history::lemma_only_finds(l, l.frozen(now, id, reason, safe, who).0, id, id);
    history::lemma_only_finds(l, l.unfrozen(now, id, who).0, id, id);
    history::lemma_only_finds(l, l.retry_requested(now, id).0, id, id);
    history::lemma_only_finds(l, l.investigation_set(now, id, marked, reason, safe, who).0, id, id);
}

/// A pause that is undone: the pause is recorded with the status that it found, the resume request that
/// follows is granted and leaves the task pending, with two requests more on the pause counter and in the
/// chronicle and nothing else changed, and a second resume request is refused. The status that the resume
/// request returns is the recorded one, as the reader of JSON finds it; `TaskStore::set_resumed` returns it.
pub proof fn law_resume_undoes_pause(
    l: Ledger,
    now: i64,
    later: i64,
    last: i64,
    id: Text,
    reason: Option<Text>,
    safe: Option<Text>,
    who: Text,
    other: Text,
)
    requires
        l.wf(),
        l.roomy(),
        l.paused(now, id, reason, safe, who).1 is Ok,
    ensures
        ({
            let h = l.head(id);
            let p = l.paused(now, id, reason, safe, who).0;
            let q = p.resumed(later, id, other).0;
            let n = l.events.len() as int;
            &&& l.paused(now, id, reason, safe, who).1 == Ok::<Text, Fault>(h.status)
            &&& p.head(id).status == "paused"@
            &&& p.paused_from(id, h.status)
            &&& p.resumed(later, id, other).1 is Ok
            &&& outside::document_text_field(p.latest_payload(id, "task.pause_requested"@, "task.paused"@)->0, "prior_status"@) == Some(h.status)
                ==> p.resumed(later, id, other).1 == Ok::<Text, Fault>(h.status)
            &&& q.head(id).status == "pending"@
            &&& q.head(id).pause_generation == h.pause_generation + 2
            &&& q.head(id).freeze_generation == h.freeze_generation
            &&& q.head(id).retry_count == h.retry_count
            &&& q.attempts == l.attempts
            &&& q.events.len() == n + 2
            &&& q.events[n].task_id == id && q.events[n].event.event_type == "task.pause_requested"@
            &&& q.events[n + 1].task_id == id && q.events[n + 1].event.event_type == "task.resume_requested"@
            &&& q.resumed(last, id, other).1 matches Err(Fault::Invalid(_))
            &&& q.resumed(last, id, other).0 == q
        }),
{
    ledger::lemma_find(l, id);
    assert(l.task_sound(l.tasks[l.find(id)]));
    let p = l.paused(now, id, reason, safe, who).0;
    history::law_operations_are_local(l, now, id, arbitrary(), reason, safe, who, Seq::empty(), 0, false);
    history::lemma_only_finds(l, p, id, id);
    interrupt::lemma_paused_from(l, now, id, reason, safe, who);
    let q = p.resumed(later, id, other).0;
    ledger::lemma_find_same_ids(p.tasks, q.tasks, id, 0);
    vocab::lemma_state_words(TaskState::Pending);
    vocab::lemma_state_words(TaskState::Paused);
}

/// The same of a freeze and its undoing; the stamp and the reason of the freeze are gone then.
pub proof fn law_unfreeze_undoes_freeze(
    l: Ledger,
    now: i64,
    later: i64,
    last: i64,
    id: Text,
    reason: Option<Text>,
    safe: Option<Text>,
    who: Text,
    other: Text,
)
    requires
        l.wf(),
        l.roomy(),
        l.frozen(now, id, reason, safe, who).1 is Ok,
    ensures
        ({
            let h = l.head(id);
            let p = l.frozen(now, id, reason, safe, who).0;
            let q = p.unfrozen(later, id, other).0;
            let n = l.events.len() as int;
            &&& l.frozen(now, id, reason, safe, who).1 == Ok::<Text, Fault>(h.status)
            &&& p.head(id).status == "frozen"@
            &&& p.frozen_from(id, h.status)
            &&& p.head(id).frozen_at == Some(now)
            &&& p.unfrozen(later, id, other).1 is Ok
            &&& outside::document_text_field(p.latest_payload(id, "task.freeze_requested"@, "task.freeze_requested"@)->0, "prior_status"@) == Some(h.status)
                ==> p.unfrozen(later, id, other).1 == Ok::<Text, Fault>(h.status)
            &&& q.head(id).status == "pending"@
            &&& q.head(id).freeze_generation == h.freeze_generation + 2
            &&& q.head(id).pause_generation == h.pause_generation
            &&& q.head(id).retry_count == h.retry_count
            &&& q.head(id).frozen_at is None
            &&& q.head(id).frozen_reason is None
            &&& q.attempts == l.attempts
            &&& q.events.len() == n + 2
            &&& q.events[n].task_id == id && q.events[n].event.event_type == "task.freeze_requested"@
            &&& q.events[n + 1].task_id == id && q.events[n + 1].event.event_type == "task.unfreeze_requested"@
            &&& q.unfrozen(last, id, other).1 matches Err(Fault::Invalid(_))
            &&& q.unfrozen(last, id, other).0 == q
        }),
{
    ledger::lemma_find(l, id);
    assert(l.task_sound(l.tasks[l.find(id)]));
    let p = l.frozen(now, id, reason, safe, who).0;
    history::law_operations_are_local(l, now, id, arbitrary(), reason, safe, who, Seq::empty(), 0, false);
    history::lemma_only_finds(l, p, id, id);
    interrupt::lemma_frozen_from(l, now, id, reason, safe, who);
    let q = p.unfrozen(later, id, other).0;
    ledger::lemma_find_same_ids(p.tasks, q.tasks, id, 0);
    vocab::lemma_state_words(TaskState::Pending);
    vocab::lemma_state_words(TaskState::Frozen);
}

/// A pause or freeze is granted exactly in the statuses that permit it; terminal statuses do not.
pub proof fn law_interruptions_need_a_live_task(l: Ledger, now: i64, id: Text, who: Text)
    requires
        l.has(id),
    ensures
        l.paused(now, id, None, None, who).1 is Ok <==> vocab::pausable(l.head(id).status),
        l.frozen(now, id, None, None, who).1 is Ok <==> vocab::freezable(l.head(id).status),
        l.resumed(now, id, who).1 is Ok <==> l.head(id).status == "paused"@,
        l.unfrozen(now, id, who).1 is Ok <==> l.head(id).status == "frozen"@,
{
}

/// The time at which a task first ran is never changed by an update.
pub proof fn law_first_start_is_kept(l: Ledger, now: i64, id: Text, c: ChangeRec, safe: Option<Text>)
    requires
        l.wf(),
        l.has(id),
    ensures
        ({
            let h = l.head(id);
            let m = l.updated(now, id, c, safe).0;
            &&& h.started_at is Some ==> m.head(id).started_at == h.started_at
            &&& h.started_at is None ==> m.head(id).started_at == if c.status == Some("running"@) {
                Some(now)
            } else {
                None
            }
        }),
{
    lemma_updated_head(l, now, id, c, safe);
}

/// A mark for investigation that is there is not replaced by the automatic one.
pub proof fn law_marks_are_kept(l: Ledger, now: i64, id: Text, c: ChangeRec, safe: Option<Text>)
    requires
        l.wf(),
        l.has(id),
        l.head(id).investigation_marked_at is Some,
    ensures
        ({
            let h = l.head(id);
            let m = l.updated(now, id, c, safe).0;
            m.head(id).investigation_marked_at == h.investigation_marked_at && m.head(id).investigation_reason
                == h.investigation_reason
        }),
{
    lemma_updated_head(l, now, id, c, safe);
}

/// A task is marked automatically exactly when a failure of the same class as before brings the count
/// of such failures in a row to the threshold and nobody has marked it yet.
pub proof fn law_thrashing_is_marked(l: Ledger, now: i64, id: Text, c: ChangeRec, safe: Option<Text>)
    requires
        l.wf(),
        l.has(id),
        l.head(id).investigation_marked_at is None,
    ensures
        ({
            let m = l.updated(now, id, c, safe).0;
            let streak = update::next_streak(l.task(id), c.failure_class);
            m.task(id).consecutive_same_class_count == streak && (m.head(id).investigation_marked_at is Some <==> (
            c.failure_class is Some && streak >= vocab::ANTI_THRASH_THRESHOLD))
        }),
{
    lemma_updated_head(l, now, id, c, safe);
}

/// What an update does to the row of its task, but for the attempt columns.
pub proof fn lemma_updated_head(l: Ledger, now: i64, id: Text, c: ChangeRec, safe: Option<Text>)
    requires
        l.wf(),
        l.has(id),
    ensures
        ({
            let m = l.updated(now, id, c, safe).0;
            let a = l.changed(now, id, c, safe);
            &&& m.find(id) == l.find(id)
            &&& a.find(id) == l.find(id)
            &&& m.head(id).started_at == a.head(id).started_at
            &&& m.head(id).status == a.head(id).status
            &&& a.head(id).status == update::changed_row(l.task(id), now, c, safe).head.status
            &&& m.head(id).frozen_at == l.head(id).frozen_at
            &&& m.head(id).last_failure_reason == a.head(id).last_failure_reason
            &&& a.head(id).last_failure_reason == update::changed_row(l.task(id), now, c, safe).head.last_failure_reason
            &&& m.head(id).investigation_marked_at == a.head(id).investigation_marked_at
            &&& m.head(id).investigation_reason == a.head(id).investigation_reason
            &&& m.task(id).consecutive_same_class_count == a.task(id).consecutive_same_class_count
            &&& a.head(id).started_at == update::changed_row(l.task(id), now, c, safe).head.started_at
            &&& a.task(id).consecutive_same_class_count == update::next_streak(l.task(id), c.failure_class)
            &&& a.head(id).investigation_marked_at == if c.failure_class is Some && update::next_streak(
                l.task(id),
                c.failure_class,
            ) >= vocab::ANTI_THRASH_THRESHOLD && l.head(id).investigation_marked_at is None {
                Some(now)
            } else {
                l.head(id).investigation_marked_at
            }
            &&& l.head(id).investigation_marked_at is Some ==> a.head(id).investigation_reason == l.head(
                id,
            ).investigation_reason
        }),
{
    ledger::lemma_find(l, id);
    let rec = update::changed_row(l.task(id), now, c, safe);
    let p = l.put(id, rec);
    ledger::lemma_find_same_ids(l.tasks, p.tasks, id, 0);
    let a = l.changed(now, id, c, safe);
    ledger::lemma_find_same_ids(l.tasks, a.tasks, id, 0);
    history::law_operations_are_local(l, now, id, c, safe, None, Seq::empty(), Seq::empty(), 0, false);
    history::lemma_only_finds(l, l.updated(now, id, c, safe).0, id, id);
}

/// How many of the first `n` events are a task's post-mortem.
pub open spec fn summaries(events: Seq<OwnedEvent>, id: Text, n: int) -> int
    decreases n,
{
    if n <= 0 {
        0
    } else {
        summaries(events, id, n - 1) + if events[n - 1].task_id == id && events[n - 1].event.event_type
            == "task.terminal_summary"@ {
            1int
        } else {
            0int
        }
    }
}

proof fn lemma_summaries_same(a: Seq<OwnedEvent>, b: Seq<OwnedEvent>, id: Text, n: int)
    requires
        n <= a.len() && n <= b.len(),
        forall|i: int| 0 <= i < n ==> #[trigger] a[i] == b[i],
    ensures
        summaries(a, id, n) == summaries(b, id, n),
    decreases n,
{
    if n > 0 {
        lemma_summaries_same(a, b, id, n - 1);
        assert(a[n - 1] == b[n - 1]);
    }
}

proof fn lemma_no_summary(events: Seq<OwnedEvent>, id: Text, n: int)
    requires
        0 <= n <= events.len(),
    ensures
        summaries(events, id, n) >= 0,
        attempts::last_event(events, id, "task.terminal_summary"@, "task.terminal_summary"@, n) < 0 <==> summaries(
            events,
            id,
            n,
        ) == 0,
    decreases n,
{
    if n > 0 {
        lemma_no_summary(events, id, n - 1);
    }
}

proof fn lemma_other_events(a: Seq<OwnedEvent>, b: Seq<OwnedEvent>, id: Text, n: int)
    requires
        a.len() <= n <= b.len(),
        forall|i: int| 0 <= i < a.len() ==> #[trigger] b[i] == a[i],
        forall|i: int| a.len() <= i < n ==> (#[trigger] b[i]).event.event_type != "task.terminal_summary"@,
    ensures
        summaries(b, id, n) == summaries(a, id, a.len() as int),
    decreases n,
{
    if n > a.len() {
        lemma_other_events(a, b, id, n - 1);
        assert(b[n - 1].event.event_type != "task.terminal_summary"@);
    } else {
        lemma_summaries_same(a, b, id, n);
    }
}

proof fn lemma_event_words()
    ensures
        "task.terminal_summary"@ != "task.attempt_started"@,
        "task.terminal_summary"@ != "task.attempt_finished"@,
        "task.terminal_summary"@ != "task.thrash_detected"@,
        "task.terminal_summary"@ != "task.investigation_marked"@,
        "running"@ != "completed"@,
        "running"@ != "failed"@,
        "running"@ != "cancelled"@,
{
    reveal_strlit("task.terminal_summary");
    reveal_strlit("task.attempt_started");
    reveal_strlit("task.attempt_finished");
    reveal_strlit("task.thrash_detected");
    reveal_strlit("task.investigation_marked");
    reveal_strlit("running");
    reveal_strlit("completed");
    reveal_strlit("failed");
    reveal_strlit("cancelled");
    assert("task.terminal_summary"@.len() == 21);
    assert("task.attempt_started"@.len() == 20);
    assert("task.attempt_finished"@.len() == 21);
    assert("task.thrash_detected"@.len() == 20);
    assert("task.investigation_marked"@.len() == 25);
    assert("task.terminal_summary"@[5] != "task.attempt_finished"@[5]);
    assert("running"@.len() == 7);
    assert("completed"@.len() == 9);
    assert("failed"@.len() == 6);
    assert("cancelled"@.len() == 9);
}

/// An update that ends a task writes its post-mortem where there is none, and no update writes a
/// second one.
pub proof fn law_post_mortem_is_written_once(l: Ledger, now: i64, id: Text, c: ChangeRec, safe: Option<Text>)
    requires
        l.wf(),
        l.has(id),
    ensures
        ({
            let m = l.updated(now, id, c, safe).0;
            let before = summaries(l.events, id, l.events.len() as int);
            let after = summaries(m.events, id, m.events.len() as int);
            if before == 0 && c.status is Some && update::closes_attempt(c.status->0) {
                after == 1
            } else {
                after == before
            }
        }),
{
    lemma_event_words();
    let a = l.changed(now, id, c, safe);
    lemma_other_events(l.events, a.events, id, a.events.len() as int);
    if c.status is Some {
        let s = c.status->0;
        if s == "running"@ {
            let m = a.attempt_opened(id, c.trace_id, now);
            lemma_other_events(a.events, m.events, id, m.events.len() as int);
        } else if update::closes_attempt(s) {
            let b = a.attempt_closed(
                id,
                s,
                c.flow_id,
                c.flow_log_path,
                c.error_kind,
                c.error_cause,
                c.failure_class,
                now,
            );
            lemma_other_events(a.events, b.events, id, b.events.len() as int);
            lemma_no_summary(b.events, id, b.events.len() as int);
            let m = b.summarised(id, s, now);
            if m.events.len() > b.events.len() {
                lemma_summaries_same(b.events, m.events, id, b.events.len() as int);
            }
        }
    }
}

/// A task has at most one open attempt, and it is the one that the task points at.
pub proof fn law_one_open_attempt(l: Ledger, i: int, j: int)
    requires
        l.wf(),
        0 <= i < l.attempts.len(),
        0 <= j < l.attempts.len(),
        l.attempts[i].task_id == l.attempts[j].task_id,
        l.attempts[i].attempt.finished_at is None,
        l.attempts[j].attempt.finished_at is None,
    ensures
        i == j,
        l.head(l.attempts[i].task_id).current_attempt_id == Some(l.attempts[i].attempt.attempt_id),
{
    if i < j {
        assert(l.attempts[i].attempt.attempt_id < l.attempts[j].attempt.attempt_id);
    } else if j < i {
        assert(l.attempts[j].attempt.attempt_id < l.attempts[i].attempt.attempt_id);
    }
}

/// The attempts of a task are numbered from one in the order in which they were opened, and the task
/// counts them.
pub proof fn law_attempts_are_numbered(l: Ledger, id: Text)
    requires
        l.wf(),
        l.has(id),
    ensures
        l.attempts_of(id).len() == l.head(id).attempt_count,
        forall|k: int| 0 <= k < l.attempts_of(id).len() ==> (#[trigger] l.attempts_of(id)[k]).attempt_num == k + 1,
{
    ledger::lemma_find(l, id);
    assert(l.task_sound(l.tasks[l.find(id)]));
    lemma_attempts_numbered(l, id, l.attempts.len() as int);
    assert(l.attempts.take(l.attempts.len() as int) =~= l.attempts);
}

proof fn lemma_attempts_numbered(l: Ledger, id: Text, n: int)
    requires
        l.attempts_keyed(),
        0 <= n <= l.attempts.len(),
    ensures
        ({
            let s = l.attempts.take(n).filter_map(query::pick_attempt(id));
            s.len() == ledger::attempts_before(l.attempts, id, n) && forall|k: int|
                0 <= k < s.len() ==> (#[trigger] s[k]).attempt_num == k + 1
        }),
    decreases n,
{
    let f = query::pick_attempt(id);
    if n > 0 {
        lemma_attempts_numbered(l, id, n - 1);
        l.attempts.lemma_filter_map_take_succ(f, n - 1);
        assert(l.attempts[n - 1].attempt.attempt_num == 1 + ledger::attempts_before(
            l.attempts,
            l.attempts[n - 1].task_id,
            n - 1,
        ));
    } else {
        assert(l.attempts.take(0) =~= Seq::<OwnedAttempt>::empty());
    }
}

/// A new task is pending, has no attempts and no events, and everything else is as it was.
pub proof fn law_new_tasks_are_pending(l: Ledger, rec: TaskRec, other: Text)
    requires
        l.wf(),
        l.created(rec).1 is Ok,
        rec.head.status == "pending"@,
    ensures
        ({
            let m = l.created(rec).0;
            let id = rec.head.task_id;
            &&& !l.has(id)
            &&& m.has(id)
            &&& m.task(id) == rec
            &&& m.events == l.events
            &&& m.attempts == l.attempts
            &&& l.has(other) ==> m.has(other) && m.task(other) == l.task(other)
        }),
{
    let m = l.created(rec).0;
    let id = rec.head.task_id;
    ledger::lemma_find(l, id);
    ledger::lemma_find(l, other);
    lemma_find_pushed(l.tasks, rec, id, 0);
    lemma_find_pushed(l.tasks, rec, other, 0);
    assert(m.tasks == l.tasks.push(rec));
}

pub proof fn lemma_find_pushed(tasks: Seq<TaskRec>, rec: TaskRec, id: Text, from: int)
    requires
        0 <= from <= tasks.len(),
    ensures
        ledger::find_from(tasks, id, from) < tasks.len() ==> ledger::find_from(tasks.push(rec), id, from)
            == ledger::find_from(tasks, id, from),
        ledger::find_from(tasks, id, from) >= tasks.len() && rec.head.task_id == id ==> ledger::find_from(
            tasks.push(rec),
            id,
            from,
        ) == tasks.len(),
    decreases tasks.len() - from,
{
    if from < tasks.len() {
        assert(tasks.push(rec)[from] == tasks[from]);
        if tasks[from].head.task_id != id {
            lemma_find_pushed(tasks, rec, id, from + 1);
        }
    } else {
        assert(tasks.push(rec)[from] == rec);
        assert(ledger::find_from(tasks.push(rec), id, from + 1) >= tasks.len());
    }
}

/// Going to `running` twice in a row opens one attempt: while an attempt is open, none is added.
pub proof fn law_running_twice_opens_one_attempt(l: Ledger, now: i64, later: i64, id: Text, trace: Option<Text>, again: Option<Text>)
    requires
        l.wf(),
        l.has(id),
        l.attempt_seq < i64::MAX,
    ensures
        l.attempt_opened(id, trace, now).has_open_attempt(id),
        l.attempt_opened(id, trace, now).attempt_opened(id, again, later) == l.attempt_opened(id, trace, now),
        !l.has_open_attempt(id) ==> l.attempt_opened(id, trace, now).attempts.len() == l.attempts.len() + 1,
{
    ledger::lemma_find(l, id);
    assert(l.task_sound(l.tasks[l.find(id)]));
    if !l.has_open_attempt(id) {
        let rec = l.next_attempt(id, trace, now);
        assert(l.head(id).attempt_count <= l.attempt_seq);
        ledger::lemma_open_wf(l, id, rec);
        let a = l.with_attempt(id, rec);
        let m = l.attempt_opened(id, trace, now);
        assert(m.tasks == a.tasks);
        assert(m.attempts == a.attempts);
        assert(a.find(id) == l.find(id));
    }
}

/// The counts of the tasks by status: without a filter all are counted, and a listing without an
/// offset that is long enough shows as many rows.
pub proof fn law_count_matches_listing(l: Ledger, status: Option<Text>, limit: usize)
    requires
        l.counted(status) <= limit <= l.max_list,
    ensures
        l.listed(limit, 0, status).len() == l.counted(status),
        status is None ==> l.counted(status) == l.tasks.len(),
        l.counted(status) <= l.tasks.len(),
{
    let rows = l.tasks.filter_map(query::pick_summary(status));
    crate::ordering::law_sorted_places(
        rows.map_values(query::newest_key()),
        rows.len() as int,
    );
    query::lemma_filter_map_len(l.tasks, query::pick_summary(status));
    if status is None {
        lemma_all_kept(l.tasks, l.tasks.len() as int);
        assert(l.tasks.take(l.tasks.len() as int) =~= l.tasks);
    }
}

proof fn lemma_all_kept(tasks: Seq<TaskRec>, n: int)
    requires
        0 <= n <= tasks.len(),
    ensures
        tasks.take(n).filter_map(query::pick_summary(None)).len() == n,
    decreases n,
{
    let f = query::pick_summary(None);
    if n > 0 {
        lemma_all_kept(tasks, n - 1);
        tasks.lemma_filter_map_take_succ(f, n - 1);
    } else {
        assert(tasks.take(0) =~= Seq::<TaskRec>::empty());
    }
}

} // verus!
