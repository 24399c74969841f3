//! What each operation does to the columns of the ledger, and when it is refused.
use vstd::prelude::*;
use crate::coordinator::edges::EdgeRequest;
use crate::coordinator::ledger::{self, Ledger};
use crate::coordinator::model::{AttemptRec, EdgeRec, Fault, OwnedAttempt, OwnedEvent, TaskHeader, TaskRec, TodoRec};
use crate::coordinator::todo;
use crate::coordinator::update::ChangeRec;
use crate::coordinator::vocab::{self, RetryPolicy, TaskState};
use crate::listing;
use crate::numeral;
use crate::ordering;
use crate::outside;
use crate::text::{self, Text};

verus! {

/// The types of the events of a chronicle behind the first `n`.
pub open spec fn types_behind(events: Seq<OwnedEvent>, n: int) -> Seq<Text> {
    events.skip(n).map_values(|e: OwnedEvent| e.event.event_type)
}

/// A new value, or the old one where there is none.
pub open spec fn or_else<T>(new: Option<T>, old: Option<T>) -> Option<T> {
    match new {
        Some(x) => Some(x),
        None => old,
    }
}

/// How often a task has now failed in a row with one class.
pub open spec fn streak(t: TaskRec, class: Option<Text>) -> int {
    match class {
        None => t.consecutive_same_class_count as int,
        Some(c) => if t.head.last_failure_class != Some(c) {
            1
        } else if t.consecutive_same_class_count == i64::MAX {
            i64::MAX as int
        } else {
            t.consecutive_same_class_count + 1
        },
    }
}

/// An update sets the columns that it names and leaves the others. The first time a task runs is kept as
/// its start. A third failure in a row with one class marks the task, unless it is marked already. Going
/// to `running` opens an attempt where none is open. No other task changes.
pub proof fn law_updates_go_by_the_columns(l: Ledger, now: i64, i: int, k: int, c: ChangeRec, safe: Option<Text>)
    requires
        l.wf(),
        0 <= i < l.tasks.len(),
        l.attempt_seq < i64::MAX,
        l.tasks[i].head.current_attempt_id matches Some(aid) ==> 0 <= k < l.attempts.len()
            && l.attempts[k].attempt.attempt_id == aid,
    ensures
        ({
            let t = l.tasks[i];
            let h = t.head;
            let (m, r) = l.updated(now, h.task_id, c, safe);
            let n = m.tasks[i].head;
            let open = h.current_attempt_id is Some && l.attempts[k].attempt.finished_at is None;
            let opens = c.status == Some("running"@) && !open;
            let marks = c.failure_class is Some && streak(t, c.failure_class) >= 3 && h.investigation_marked_at is None;
            &&& r is Ok
            &&& m.tasks == l.tasks.update(i, m.tasks[i])
            &&& n == (TaskHeader {
                status: if c.status is Some {
                    c.status->0
                } else {
                    h.status
                },
                latest_result: or_else(c.result, h.latest_result),
                latest_flow_id: or_else(c.flow_id, h.latest_flow_id),
                latest_flow_log_path: or_else(c.flow_log_path, h.latest_flow_log_path),
                error_kind: or_else(c.error_kind, h.error_kind),
                error_cause: or_else(safe, h.error_cause),
                last_failure_reason: or_else(safe, h.last_failure_reason),
                last_failure_class: or_else(c.failure_class, h.last_failure_class),
                updated_at: now,
                started_at: if c.status == Some("running"@) && h.started_at is None {
                    Some(now)
                } else {
                    h.started_at
                },
                attempt_count: if opens {
                    (h.attempt_count + 1) as i64
                } else {
                    h.attempt_count
                },
                current_attempt_id: if opens {
                    Some((l.attempt_seq + 1) as i64)
                } else {
                    h.current_attempt_id
                },
                investigation_marked_at: if marks {
                    Some(now)
                } else {
                    h.investigation_marked_at
                },
                investigation_reason: if marks {
                    n.investigation_reason
                } else {
                    h.investigation_reason
                },
                ..h
            })
            &&& m.tasks[i].consecutive_same_class_count == streak(t, c.failure_class)
            &&& marks ==> n.investigation_reason is Some
            &&& m.todos == l.todos
        }),
{
    let h = l.tasks[i].head;
    ledger::lemma_find_is(l, i);
    if h.current_attempt_id is Some {
        ledger::lemma_attempt_is(l, k);
    }
    let id = h.task_id;
    let a = l.changed(now, id, c, safe);
    let p = l.put(id, crate::coordinator::update::changed_row(l.task(id), now, c, safe));
    ledger::lemma_find_same_ids(l.tasks, p.tasks, id, 0);
    ledger::lemma_find_same_ids(l.tasks, a.tasks, id, 0);
    assert(l.task_sound(l.tasks[i]));
    let m = l.updated(now, id, c, safe).0;
    assert(m.tasks =~= l.tasks.update(i, m.tasks[i]));
}

/// What an update does to the attempts. Going to `running` adds one attempt with the next number and no
/// outcome where none is open; completing, failing or being cancelled closes the open one with the
/// outcome that the update names. In every other case the attempts stay as they were.
pub proof fn law_updates_keep_the_timeline(l: Ledger, now: i64, i: int, k: int, c: ChangeRec, safe: Option<Text>)
    requires
        l.wf(),
        0 <= i < l.tasks.len(),
        l.attempt_seq < i64::MAX,
        l.tasks[i].head.current_attempt_id matches Some(aid) ==> 0 <= k < l.attempts.len()
            && l.attempts[k].attempt.attempt_id == aid,
    ensures
        ({
            let h = l.tasks[i].head;
            let m = l.updated(now, h.task_id, c, safe).0;
            let open = h.current_attempt_id is Some && l.attempts[k].attempt.finished_at is None;
            let ends = c.status == Some("completed"@) || c.status == Some("failed"@) || c.status == Some("cancelled"@);
            let a = l.attempts[k].attempt;
            &&& c.status == Some("running"@) && !open ==> m.attempts == l.attempts.push(
                OwnedAttempt {
                    task_id: h.task_id,
                    attempt: AttemptRec {
                        attempt_id: (l.attempt_seq + 1) as i64,
                        attempt_num: (h.attempt_count + 1) as i64,
                        started_at: now,
                        finished_at: None,
                        status: "running"@,
                        flow_id: None,
                        flow_log_path: None,
                        trace_id: c.trace_id,
                        error_kind: None,
                        error_cause: None,
                        failure_class: None,
                    },
                },
            )
            &&& ends && open ==> m.attempts == l.attempts.update(
                k,
                OwnedAttempt {
                    attempt: AttemptRec {
                        finished_at: Some(now),
                        status: c.status->0,
                        flow_id: or_else(c.flow_id, a.flow_id),
                        flow_log_path: or_else(c.flow_log_path, a.flow_log_path),
                        error_kind: or_else(c.error_kind, a.error_kind),
                        error_cause: or_else(c.error_cause, a.error_cause),
                        failure_class: or_else(c.failure_class, a.failure_class),
                        ..a
                    },
                    ..l.attempts[k]
                },
            )
            &&& !(c.status == Some("running"@) && !open) && !(ends && open) ==> m.attempts == l.attempts
            &&& c.status == Some("running"@) && !open && h.current_attempt_id is Some && h.attempt_count > 0
                ==> m.edges.len() == l.edges.len() + 1 && m.edges.drop_last() == l.edges && m.edges.last().edge_type
                == "retried_from"@ && m.edges.last().task_id == h.task_id && m.edges.last().related_task_id == Some(
                h.task_id,
            ) && m.edges.last().related_attempt_id == h.current_attempt_id && m.edges.last().attempt_id == Some(
                (l.attempt_seq + 1) as i64,
            )
            &&& !(c.status == Some("running"@) && !open && h.current_attempt_id is Some && h.attempt_count > 0)
                ==> m.edges == l.edges
        }),
{
    let h = l.tasks[i].head;
    let id = h.task_id;
    ledger::lemma_find_is(l, i);
    if h.current_attempt_id is Some {
        ledger::lemma_attempt_is(l, k);
    }
    let a = l.changed(now, id, c, safe);
    let p = l.put(id, crate::coordinator::update::changed_row(l.task(id), now, c, safe));
    ledger::lemma_find_same_ids(l.tasks, p.tasks, id, 0);
    ledger::lemma_find_same_ids(l.tasks, a.tasks, id, 0);
    assert(l.task_sound(l.tasks[i]));
    assert(a.attempts == l.attempts && a.edges == l.edges && a.attempt_seq == l.attempt_seq);
    assert(a.head(id).current_attempt_id == h.current_attempt_id);
    vocab::lemma_state_words(TaskState::Running);
    vocab::lemma_state_words(TaskState::Completed);
    vocab::lemma_state_words(TaskState::Failed);
    vocab::lemma_state_words(TaskState::Cancelled);
    let m = l.updated(now, id, c, safe).0;
    if m.edges.len() > l.edges.len() {
        assert(m.edges.drop_last() =~= l.edges);
    }
}

/// Whether a task has a post-mortem.
pub open spec fn summed_up(events: Seq<OwnedEvent>, id: Text) -> bool {
    exists|e: int|
        0 <= e < events.len() && (#[trigger] events[e]).task_id == id && events[e].event.event_type
            == "task.terminal_summary"@
}

proof fn lemma_summed_up(events: Seq<OwnedEvent>, id: Text, n: int)
    requires
        0 <= n <= events.len(),
    ensures
        ({
            let e = crate::coordinator::attempts::last_event(
                events,
                id,
                "task.terminal_summary"@,
                "task.terminal_summary"@,
                n,
            );
            e >= 0 <==> exists|q: int|
                0 <= q < n && (#[trigger] events[q]).task_id == id && events[q].event.event_type
                    == "task.terminal_summary"@
        }),
    decreases n,
{
    if n > 0 {
        lemma_summed_up(events, id, n - 1);
        if events[n - 1].task_id == id && events[n - 1].event.event_type == "task.terminal_summary"@ {
            assert(exists|q: int|
                0 <= q < n && (#[trigger] events[q]).task_id == id && events[q].event.event_type
                    == "task.terminal_summary"@);
        } else {
            assert forall|q: int|
                0 <= q < n && (#[trigger] events[q]).task_id == id && events[q].event.event_type
                    == "task.terminal_summary"@ implies q < n - 1 by {}
        }
    }
}

/// An attempt that follows another is joined to it when it opens, and the edge names the last retry request
/// of the task, where there was one.
pub proof fn law_retried_attempts_name_their_request(
    l: Ledger,
    now: i64,
    i: int,
    k: int,
    c: ChangeRec,
    safe: Option<Text>,
    q: int,
)
    requires
        l.wf(),
        0 <= i < l.tasks.len(),
        l.attempt_seq < i64::MAX,
        0 < l.tasks[i].head.attempt_count < i64::MAX,
        0 <= k < l.attempts.len(),
        l.tasks[i].head.current_attempt_id == Some(l.attempts[k].attempt.attempt_id),
        l.attempts[k].attempt.finished_at is Some,
        c.status == Some("running"@),
        -1 <= q < l.events.len(),
        q >= 0 ==> l.events[q].task_id == l.tasks[i].head.task_id && l.events[q].event.event_type
            == "task.retry_requested"@,
        forall|j: int|
            q < j < l.events.len() ==> (#[trigger] l.events[j]).task_id != l.tasks[i].head.task_id
                || l.events[j].event.event_type != "task.retry_requested"@,
    ensures
        ({
            let m = l.updated(now, l.tasks[i].head.task_id, c, safe).0;
            &&& m.edges.len() == l.edges.len() + 1
            &&& m.edges.last().created_at == now
            &&& m.edges.last().spawned_by_event_id == if q >= 0 {
                Some(l.events[q].event.event_id)
            } else {
                None
            }
        }),
{
    let h = l.tasks[i].head;
    let id = h.task_id;
    ledger::lemma_find_is(l, i);
    ledger::lemma_attempt_is(l, k);
    let a = l.changed(now, id, c, safe);
    let p = l.put(id, crate::coordinator::update::changed_row(l.task(id), now, c, safe));
    ledger::lemma_find_same_ids(l.tasks, p.tasks, id, 0);
    ledger::lemma_find_same_ids(l.tasks, a.tasks, id, 0);
    assert(l.task_sound(l.tasks[i]));
    reveal_strlit("task.retry_requested");
    reveal_strlit("task.thrash_detected");
    reveal_strlit("task.investigation_marked");
    reveal_strlit("task.attempt_started");
    assert("task.retry_requested"@[5] == 'r');
    assert("task.thrash_detected"@[5] == 't');
    assert("task.investigation_marked"@[5] == 'i');
    assert("task.attempt_started"@[5] == 'a');
    let m = l.updated(now, id, c, safe).0;
    assert forall|j: int| 0 <= j < l.events.len() implies #[trigger] m.events[j] == l.events[j] by {}
    assert forall|j: int| q < j < m.events.len() implies (#[trigger] m.events[j]).task_id != id
        || m.events[j].event.event_type != "task.retry_requested"@ by {
        if j < l.events.len() {
            assert(m.events[j] == l.events[j]);
        }
    }
    lemma_last_of(m.events, id, "task.retry_requested"@, "task.retry_requested"@, q, m.events.len() as int);
}

proof fn lemma_last_of(events: Seq<OwnedEvent>, id: Text, a: Text, b: Text, q: int, n: int)
    requires
        -1 <= q,
        q < n || n == 0 && q == -1,
        0 <= n <= events.len(),
        q >= 0 ==> events[q].task_id == id && (events[q].event.event_type == a || events[q].event.event_type == b),
        forall|j: int|
            q < j < n ==> (#[trigger] events[j]).task_id != id || (events[j].event.event_type != a
                && events[j].event.event_type != b),
    ensures
        crate::coordinator::attempts::last_event(events, id, a, b, n) == q,
    decreases n,
{
    if n > 0 && q < n - 1 {
        assert(events[n - 1].task_id != id || (events[n - 1].event.event_type != a && events[n - 1].event.event_type != b));
        lemma_last_of(events, id, a, b, q, n - 1);
    }
}

/// The last event of a task that has one of two types; -1 where there is none.
pub open spec fn is_last_of(events: Seq<OwnedEvent>, id: Text, a: Text, b: Text, q: int) -> bool {
    &&& -1 <= q < events.len()
    &&& q >= 0 ==> events[q].task_id == id && (events[q].event.event_type == a || events[q].event.event_type == b)
    &&& forall|j: int|
        q < j < events.len() ==> (#[trigger] events[j]).task_id != id || (events[j].event.event_type != a
            && events[j].event.event_type != b)
}

/// What a resume or unfreeze request returns is the status that the last request to pause or freeze wrote
/// down; where there is no such request, or it does not say, it is the status that the task is in.
pub proof fn law_releases_return_what_was_written(l: Ledger, now: i64, i: int, who: Text, q: int)
    requires
        l.wf(),
        0 <= i < l.tasks.len(),
    ensures
        ({
            let h = l.tasks[i].head;
            let written = if q >= 0 && l.events[q].event.payload_json is Some {
                outside::document_text_field(l.events[q].event.payload_json->0, "prior_status"@)
            } else {
                None
            };
            let was = match written {
                Some(t) => t,
                None => h.status,
            };
            &&& h.status == "paused"@ && is_last_of(l.events, h.task_id, "task.pause_requested"@, "task.paused"@, q)
                ==> l.resumed(now, h.task_id, who).1 == Ok::<Text, Fault>(was)
            &&& h.status == "frozen"@ && is_last_of(
                l.events,
                h.task_id,
                "task.freeze_requested"@,
                "task.freeze_requested"@,
                q,
            ) ==> l.unfrozen(now, h.task_id, who).1 == Ok::<Text, Fault>(was)
        }),
{
    let id = l.tasks[i].head.task_id;
    ledger::lemma_find_is(l, i);
    let n = l.events.len() as int;
    if is_last_of(l.events, id, "task.pause_requested"@, "task.paused"@, q) {
        lemma_last_of(l.events, id, "task.pause_requested"@, "task.paused"@, q, n);
    }
    if is_last_of(l.events, id, "task.freeze_requested"@, "task.freeze_requested"@, q) {
        lemma_last_of(l.events, id, "task.freeze_requested"@, "task.freeze_requested"@, q, n);
    }
}

/// What an update writes into the chronicle: the mark, where the task was marked; the start of the
/// attempt that it opened; the end of the one that it closed; and, once in the life of a task, the
/// post-mortem with its attempts, its retries and the seconds since it first ran.
#[verifier::rlimit(60)]
pub proof fn law_updates_tell_what_they_did(l: Ledger, now: i64, i: int, k: int, c: ChangeRec, safe: Option<Text>)
    requires
        l.wf(),
        0 <= i < l.tasks.len(),
        l.attempt_seq < i64::MAX,
        l.tasks[i].head.current_attempt_id matches Some(aid) ==> 0 <= k < l.attempts.len()
            && l.attempts[k].attempt.attempt_id == aid,
    ensures
        ({
            let t = l.tasks[i];
            let h = t.head;
            let m = l.updated(now, h.task_id, c, safe).0;
            let old = l.events.len() as int;
            let open = h.current_attempt_id is Some && l.attempts[k].attempt.finished_at is None;
            let ends = c.status == Some("completed"@) || c.status == Some("failed"@) || c.status == Some("cancelled"@);
            let marks = c.failure_class is Some && streak(t, c.failure_class) >= 3 && h.investigation_marked_at is None;
            let first = ends && !summed_up(l.events, h.task_id);
            let told = (if marks {
                seq!["task.thrash_detected"@, "task.investigation_marked"@]
            } else {
                Seq::<Text>::empty()
            }) + (if c.status == Some("running"@) && !open {
                seq!["task.attempt_started"@]
            } else {
                Seq::<Text>::empty()
            }) + (if ends && open {
                seq!["task.attempt_finished"@]
            } else {
                Seq::<Text>::empty()
            }) + (if first {
                seq!["task.terminal_summary"@]
            } else {
                Seq::<Text>::empty()
            });
            let wall = match h.started_at {
                Some(s) => if now > s {
                    now - s
                } else {
                    0
                },
                None => 0,
            };
            let class = match or_else(c.failure_class, h.last_failure_class) {
                Some(x) => x,
                None => Seq::<char>::empty(),
            };
            &&& old <= m.events.len()
            &&& m.events.take(old) == l.events
            &&& types_behind(m.events, old) == told
            &&& forall|e: int|
                old <= e < m.events.len() ==> (#[trigger] m.events[e]).task_id == h.task_id && m.events[e].event.ts == now
            &&& first ==> m.events.last().event.payload == c.status->0 + " · attempts="@ + numeral::dec(
                h.attempt_count as int,
            ) + " retries="@ + numeral::dec(h.retry_count as int) + " wall_clock_secs="@ + numeral::dec(wall)
                + " last_failure_class="@ + class
        }),
{
    let h = l.tasks[i].head;
    let id = h.task_id;
    let old = l.events.len() as int;
    ledger::lemma_find_is(l, i);
    if h.current_attempt_id is Some {
        ledger::lemma_attempt_is(l, k);
    }
    let a = l.changed(now, id, c, safe);
    let p = l.put(id, crate::coordinator::update::changed_row(l.task(id), now, c, safe));
    ledger::lemma_find_same_ids(l.tasks, p.tasks, id, 0);
    ledger::lemma_find_same_ids(l.tasks, a.tasks, id, 0);
    assert(l.task_sound(l.tasks[i]));
    vocab::lemma_state_words(TaskState::Running);
    vocab::lemma_state_words(TaskState::Completed);
    vocab::lemma_state_words(TaskState::Failed);
    vocab::lemma_state_words(TaskState::Cancelled);
    let m = l.updated(now, id, c, safe).0;
    assert(m.events.take(old) =~= l.events);
    if c.status is Some && crate::coordinator::update::closes_attempt(c.status->0) {
        let b = a.attempt_closed(
            id,
            c.status->0,
            c.flow_id,
            c.flow_log_path,
            c.error_kind,
            c.error_cause,
            c.failure_class,
            now,
        );
        lemma_other_types();
        lemma_summed_up(b.events, id, b.events.len() as int);
        assert forall|e: int| old <= e < b.events.len() implies (#[trigger] b.events[e]).event.event_type
            != "task.terminal_summary"@ by {}
        assert(b.events.take(old) =~= l.events);
        if summed_up(l.events, id) {
            let e = choose|e: int|
                0 <= e < l.events.len() && (#[trigger] l.events[e]).task_id == id && l.events[e].event.event_type
                    == "task.terminal_summary"@;
            assert(b.events.take(old)[e] == b.events[e]);
        } else {
            assert forall|q: int|
                0 <= q < b.events.len() && (#[trigger] b.events[q]).task_id == id && b.events[q].event.event_type
                    == "task.terminal_summary"@ implies false by {
                if q < old {
                    assert(b.events.take(old)[q] == b.events[q]);
                    assert(l.events[q] == b.events[q]);
                }
            }
        }
        assert(b.tasks == a.tasks);
        ledger::lemma_find_same_ids(a.tasks, b.tasks, id, 0);
    }
    let told = types_behind(m.events, old);
    assert forall|e: int| 0 <= e < told.len() implies #[trigger] told[e] == m.events[old + e].event.event_type by {}
}

proof fn lemma_other_types()
    ensures
        "task.thrash_detected"@ != "task.terminal_summary"@,
        "task.investigation_marked"@ != "task.terminal_summary"@,
        "task.attempt_finished"@ != "task.terminal_summary"@,
        "task.attempt_started"@ != "task.terminal_summary"@,
{
    reveal_strlit("task.thrash_detected");
    reveal_strlit("task.investigation_marked");
    reveal_strlit("task.attempt_finished");
    reveal_strlit("task.attempt_started");
    reveal_strlit("task.terminal_summary");
    assert("task.thrash_detected"@[6] == 'h');
    assert("task.terminal_summary"@[6] == 'e');
    assert("task.investigation_marked"@[5] == 'i');
    assert("task.terminal_summary"@[5] == 't');
    assert("task.attempt_finished"@[5] == 'a');
    assert("task.attempt_started"@[5] == 'a');
}

/// Whether an operation changed no task but one, wrote one event of that task, and left the other
/// tables alone.
pub open spec fn one_row(l: Ledger, m: Ledger, i: int, now: i64, event_type: Text) -> bool {
    &&& m.tasks == l.tasks.update(i, m.tasks[i])
    &&& m.tasks[i].consecutive_same_class_count == l.tasks[i].consecutive_same_class_count
    &&& m.attempts == l.attempts && m.edges == l.edges && m.todos == l.todos
    &&& m.events.len() == l.events.len() + 1
    &&& m.events.drop_last() == l.events
    &&& m.events.last().task_id == l.tasks[i].head.task_id
    &&& m.events.last().event.ts == now
    &&& m.events.last().event.event_type == event_type
}

/// Whether a reason of an operator, without the space around it, is longer than two thousand bytes.
pub open spec fn wordy(reason: Option<Text>) -> bool {
    reason matches Some(t) && text::byte_len(text::trim(t)) > 2000
}

/// Whether an operator gave a reason: not only space.
pub open spec fn given(reason: Option<Text>) -> bool {
    reason matches Some(t) && text::trim(t).len() > 0
}

proof fn lemma_empty_is_short(t: Text)
    ensures
        t.len() == 0 ==> text::byte_len(t) == 0,
{
    if t.len() == 0 {
        assert(t =~= Seq::<char>::empty());
    }
}

/// A pause request succeeds exactly where the task is pending, running or retrying and the reason is not
/// too long. It sets the status, counts up the pause counter and returns the status before.
pub proof fn law_pauses_go_by_the_columns(l: Ledger, now: i64, i: int, reason: Option<Text>, safe: Option<Text>, who: Text)
    requires
        l.wf(),
        0 <= i < l.tasks.len(),
    ensures
        ({
            let h = l.tasks[i].head;
            let (m, r) = l.paused(now, h.task_id, reason, safe, who);
            let may = h.status == "pending"@ || h.status == "running"@ || h.status == "retrying"@;
            &&& r is Ok <==> may && !wordy(reason)
            &&& r is Ok ==> r->Ok_0 == h.status && one_row(l, m, i, now, "task.pause_requested"@) && m.tasks[i].head == (
            TaskHeader {
                status: "paused"@,
                updated_at: now,
                pause_generation: (h.pause_generation + 1) as i64,
                ..h
            })
            &&& r is Err ==> m == l && r->Err_0 is Invalid
        }),
{
    let h = l.tasks[i].head;
    ledger::lemma_find_is(l, i);
    if reason is Some {
        lemma_empty_is_short(text::trim(reason->0));
    }
    let m = l.paused(now, h.task_id, reason, safe, who).0;
    if m.events.len() > l.events.len() {
        assert(m.events.drop_last() =~= l.events);
        assert(m.tasks =~= l.tasks.update(i, m.tasks[i]));
    }
}

/// A freeze request succeeds exactly where the task is pending, running, retrying, paused, awaiting input
/// or interrupted and the reason is not too long. It sets the status, the time and the scrubbed reason,
/// counts up the freeze counter and returns the status before.
pub proof fn law_freezes_go_by_the_columns(l: Ledger, now: i64, i: int, reason: Option<Text>, safe: Option<Text>, who: Text)
    requires
        l.wf(),
        0 <= i < l.tasks.len(),
    ensures
        ({
            let h = l.tasks[i].head;
            let (m, r) = l.frozen(now, h.task_id, reason, safe, who);
            let may = h.status == "pending"@ || h.status == "running"@ || h.status == "retrying"@ || h.status
                == "paused"@ || h.status == "awaiting_input"@ || h.status == "interrupted"@;
            &&& r is Ok <==> may && !wordy(reason)
            &&& r is Ok ==> r->Ok_0 == h.status && one_row(l, m, i, now, "task.freeze_requested"@) && m.tasks[i].head == (
            TaskHeader {
                status: "frozen"@,
                updated_at: now,
                freeze_generation: (h.freeze_generation + 1) as i64,
                frozen_at: Some(now),
                frozen_reason: if given(reason) {
                    safe
                } else {
                    None
                },
                ..h
            })
            &&& r is Err ==> m == l && r->Err_0 is Invalid
        }),
{
    let h = l.tasks[i].head;
    ledger::lemma_find_is(l, i);
    if reason is Some {
        lemma_empty_is_short(text::trim(reason->0));
    }
    let m = l.frozen(now, h.task_id, reason, safe, who).0;
    if m.events.len() > l.events.len() {
        assert(m.events.drop_last() =~= l.events);
        assert(m.tasks =~= l.tasks.update(i, m.tasks[i]));
    }
}

/// A resume succeeds exactly on a paused task and an unfreeze exactly on a frozen one. Either makes the
/// task pending and counts up its own counter; an unfreeze clears the time and reason of the freeze.
pub proof fn law_releases_go_by_the_columns(l: Ledger, now: i64, i: int, who: Text)
    requires
        l.wf(),
        0 <= i < l.tasks.len(),
    ensures
        ({
            let h = l.tasks[i].head;
            let (m, r) = l.resumed(now, h.task_id, who);
            let (n, s) = l.unfrozen(now, h.task_id, who);
            &&& r is Ok <==> h.status == "paused"@
            &&& r is Ok ==> one_row(l, m, i, now, "task.resume_requested"@) && m.tasks[i].head == (TaskHeader {
                status: "pending"@,
                updated_at: now,
                pause_generation: (h.pause_generation + 1) as i64,
                ..h
            })
            &&& r is Err ==> m == l && r->Err_0 is Invalid
            &&& s is Ok <==> h.status == "frozen"@
            &&& s is Ok ==> one_row(l, n, i, now, "task.unfreeze_requested"@) && n.tasks[i].head == (TaskHeader {
                status: "pending"@,
                updated_at: now,
                freeze_generation: (h.freeze_generation + 1) as i64,
                frozen_at: None,
                frozen_reason: None,
                ..h
            })
            &&& s is Err ==> n == l && s->Err_0 is Invalid
        }),
{
    let h = l.tasks[i].head;
    ledger::lemma_find_is(l, i);
    let m = l.resumed(now, h.task_id, who).0;
    let n = l.unfrozen(now, h.task_id, who).0;
    if m.events.len() > l.events.len() {
        assert(m.events.drop_last() =~= l.events);
        assert(m.tasks =~= l.tasks.update(i, m.tasks[i]));
    }
    if n.events.len() > l.events.len() {
        assert(n.events.drop_last() =~= l.events);
        assert(n.tasks =~= l.tasks.update(i, n.tasks[i]));
    }
}

/// Setting the marker of a task stamps it with the time and the scrubbed reason; clearing it removes
/// both, whatever the reason. Only setting it can be refused, and only for the length of the reason.
pub proof fn law_markers_go_by_the_columns(
    l: Ledger,
    now: i64,
    i: int,
    marked: bool,
    reason: Option<Text>,
    safe: Option<Text>,
    who: Text,
)
    requires
        l.wf(),
        0 <= i < l.tasks.len(),
    ensures
        ({
            let h = l.tasks[i].head;
            let (m, r) = l.investigation_set(now, h.task_id, marked, reason, safe, who);
            &&& r is Ok <==> !(marked && wordy(reason))
            &&& r is Ok && marked ==> r->Ok_0 == Some(now) && one_row(l, m, i, now, "task.investigation_marked"@)
                && m.tasks[i].head == (TaskHeader {
                investigation_marked_at: Some(now),
                investigation_reason: if given(reason) {
                    safe
                } else {
                    None
                },
                updated_at: now,
                ..h
            })
            &&& r is Ok && !marked ==> r->Ok_0 is None && one_row(l, m, i, now, "task.investigation_cleared"@)
                && m.tasks[i].head == (TaskHeader {
                investigation_marked_at: None,
                investigation_reason: None,
                updated_at: now,
                ..h
            })
            &&& r is Err ==> m == l && r->Err_0 is Invalid
        }),
{
    let h = l.tasks[i].head;
    ledger::lemma_find_is(l, i);
    if reason is Some {
        lemma_empty_is_short(text::trim(reason->0));
    }
    let m = l.investigation_set(now, h.task_id, marked, reason, safe, who).0;
    if m.events.len() > l.events.len() {
        assert(m.events.drop_last() =~= l.events);
        assert(m.tasks =~= l.tasks.update(i, m.tasks[i]));
    }
}

/// An acknowledgement is taken of a pause, a resume or a freeze with a counter that is not negative; a
/// note is taken that is neither empty nor too long. Either is an event under the next id and changes no
/// task.
pub proof fn law_annotations_go_by_the_columns(
    l: Ledger,
    now: i64,
    i: int,
    kind: Text,
    generation: i64,
    note: Text,
    safe: Text,
    who: Text,
)
    requires
        l.wf(),
        0 <= i < l.tasks.len(),
        l.event_seq < i64::MAX,
    ensures
        ({
            let id = l.tasks[i].head.task_id;
            let (m, r) = l.observed(now, id, kind, generation, who);
            let (n, s) = l.noted(now, id, note, safe, who);
            &&& r is Ok <==> (kind == "pause"@ || kind == "resume"@ || kind == "freeze"@) && generation >= 0
            &&& r is Ok ==> r->Ok_0 == l.event_seq + 1 && m.tasks == l.tasks && m.events.last().event.event_id == r->Ok_0
                && one_row(
                l,
                m,
                i,
                now,
                if kind == "pause"@ {
                    "task.pause_observed"@
                } else if kind == "resume"@ {
                    "task.resume_observed"@
                } else {
                    "task.freeze_propagated"@
                },
            )
            &&& r is Err ==> m == l && r->Err_0 is Invalid
            &&& s is Ok <==> 0 < text::trim(note).len() && text::byte_len(text::trim(note)) <= 2000
            &&& s is Ok ==> s->Ok_0 == l.event_seq + 1 && n.tasks == l.tasks && n.events.last().event.event_id == s->Ok_0
                && n.events.last().event.payload == safe && one_row(l, n, i, now, "task.operator_note"@)
            &&& s is Err ==> n == l && s->Err_0 is Invalid
        }),
{
    let id = l.tasks[i].head.task_id;
    ledger::lemma_find_is(l, i);
    reveal_strlit("pause");
    reveal_strlit("resume");
    reveal_strlit("freeze");
    assert("pause"@.len() == 5 && "resume"@.len() == 6 && "freeze"@.len() == 6);
    assert("resume"@[0] != "freeze"@[0]);
    let m = l.observed(now, id, kind, generation, who).0;
    let n = l.noted(now, id, note, safe, who).0;
    if m.events.len() > l.events.len() {
        assert(m.events.drop_last() =~= l.events);
        assert(m.tasks =~= l.tasks.update(i, m.tasks[i]));
    }
    if n.events.len() > l.events.len() {
        assert(n.events.drop_last() =~= l.events);
        assert(n.tasks =~= l.tasks.update(i, n.tasks[i]));
    }
}

/// A read of the interruption state gives the columns of the task.
pub proof fn law_snapshots_go_by_the_columns(l: Ledger, i: int)
    requires
        l.wf(),
        0 <= i < l.tasks.len(),
    ensures
        ({
            let h = l.tasks[i].head;
            let s = l.snapshot(h.task_id)->Ok_0;
            &&& l.snapshot(h.task_id) is Ok
            &&& s.task_id == h.task_id
            &&& s.status == h.status
            &&& s.pause_generation == h.pause_generation
            &&& s.freeze_generation == h.freeze_generation
        }),
{
    ledger::lemma_find_is(l, i);
}

/// Counting a retry adds one to the count of its task and touches nothing else but the time.
pub proof fn law_retry_counts_go_by_the_columns(l: Ledger, now: i64, i: int)
    requires
        l.wf(),
        0 <= i < l.tasks.len(),
        l.tasks[i].head.retry_count < i64::MAX,
    ensures
        ({
            let h = l.tasks[i].head;
            let (m, r) = l.retry_bumped(now, h.task_id);
            &&& r == Ok::<i64, Fault>((h.retry_count + 1) as i64)
            &&& m.tasks == l.tasks.update(
                i,
                TaskRec {
                    head: TaskHeader { retry_count: (h.retry_count + 1) as i64, updated_at: now, ..h },
                    ..l.tasks[i]
                },
            )
            &&& m.events == l.events && m.attempts == l.attempts && m.edges == l.edges && m.todos == l.todos
        }),
{
    ledger::lemma_find_is(l, i);
}

/// No operation on a task that is not there changes anything; each says that the task was not found.
pub proof fn law_unknown_tasks_are_refused(
    l: Ledger,
    now: i64,
    id: Text,
    c: ChangeRec,
    safe: Option<Text>,
    who: Text,
    word: Text,
)
    requires
        forall|t: int| 0 <= t < l.tasks.len() ==> (#[trigger] l.tasks[t]).head.task_id != id,
    ensures
        l.updated(now, id, c, safe) == (l, Err::<(), Fault>(Fault::NotFound(id))),
        l.retry_requested(now, id).0 == l && l.retry_requested(now, id).1 is Err,
        l.retry_bumped(now, id) == (l, Err::<i64, Fault>(Fault::NotFound(id))),
        l.event_appended(now, id, word, who) == (l, Err::<i64, Fault>(Fault::NotFound(id))),
        l.paused(now, id, None, None, who) == (l, Err::<Text, Fault>(Fault::NotFound(id))),
        l.frozen(now, id, None, None, who) == (l, Err::<Text, Fault>(Fault::NotFound(id))),
        l.resumed(now, id, who) == (l, Err::<Text, Fault>(Fault::NotFound(id))),
        l.unfrozen(now, id, who) == (l, Err::<Text, Fault>(Fault::NotFound(id))),
        l.snapshot(id) is Err,
        l.investigation_set(now, id, true, None, None, who) == (l, Err::<Option<i64>, Fault>(Fault::NotFound(id))),
        l.investigation_set(now, id, false, safe, safe, who) == (l, Err::<Option<i64>, Fault>(Fault::NotFound(id))),
{
    ledger::lemma_find(l, id);
}

/// A new task has the columns that it was asked for and is pending, unstarted and unmarked.
pub proof fn law_new_rows_hold_what_was_asked_for(
    l: Ledger,
    now: i64,
    id: Text,
    title: Text,
    flow: Text,
    params: Text,
    owner: Text,
    policy: RetryPolicy,
    max_retries: i64,
    max_runtime_secs: Option<i64>,
    origin: Option<Text>,
    other: Text,
)
    requires
        l.wf(),
    ensures
        ({
            let rec = crate::coordinator::update::new_row(
                now,
                other,
                title,
                flow,
                params,
                owner,
                policy,
                max_retries,
                max_runtime_secs,
                origin,
            );
            let (m, r) = l.created_fresh(Some(id), rec);
            let taken = exists|t: int| 0 <= t < l.tasks.len() && (#[trigger] l.tasks[t]).head.task_id == id;
            let h = m.tasks.last().head;
            &&& r is Ok <==> !taken
            &&& taken ==> m == l
            &&& !taken ==> r == Ok::<Text, Fault>(id) && m.tasks.len() == l.tasks.len() + 1 && m.tasks.drop_last() == l.tasks
                && m.events == l.events && m.attempts == l.attempts && m.edges == l.edges && m.todos == l.todos
            &&& !taken ==> h.task_id == id && h.title == title && h.flow_template == flow && h.params_json == params
                && h.owner_subject_id == owner && h.max_retries == max_retries && h.max_runtime_secs == max_runtime_secs
                && h.origin_surface == origin && h.retry_policy == match policy {
                RetryPolicy::Never => "none"@,
                RetryPolicy::Once => "once"@,
                RetryPolicy::Bounded => "bounded"@,
            }
            &&& !taken ==> h.status == "pending"@ && h.created_at == now && h.updated_at == now && h.retry_count == 0
                && h.attempt_count == 0 && h.started_at is None && h.current_attempt_id is None
                && h.investigation_marked_at is None && h.investigation_reason is None && h.pause_generation == 0
                && h.freeze_generation == 0 && h.frozen_at is None && h.frozen_reason is None && h.latest_result is None
                && h.latest_flow_id is None && h.latest_flow_log_path is None && h.error_kind is None
                && h.error_cause is None && h.last_failure_reason is None && h.last_failure_class is None
                && m.tasks.last().consecutive_same_class_count == 0
            &&& l.created_fresh(None, rec).0 == l && l.created_fresh(None, rec).1 is Err
        }),
{
    let rec = crate::coordinator::update::new_row(
        now,
        other,
        title,
        flow,
        params,
        owner,
        policy,
        max_retries,
        max_runtime_secs,
        origin,
    );
    ledger::lemma_find(l, id);
    if l.has(id) {
        assert(l.tasks[l.find(id)].head.task_id == id);
    } else {
        let m = l.created_fresh(Some(id), rec).0;
        assert(m.tasks.drop_last() =~= l.tasks);
    }
}

/// Whether there is a task with an id.
pub open spec fn known(l: Ledger, id: Text) -> bool {
    exists|t: int| 0 <= t < l.tasks.len() && (#[trigger] l.tasks[t]).head.task_id == id
}

/// An edge between two tasks is recorded exactly where they differ, both are there, and the reason is not
/// too long. It comes with one event of the task that it starts from, and no task changes.
pub proof fn law_edges_go_by_the_columns(l: Ledger, now: i64, q: EdgeRequest)
    requires
        l.wf(),
    ensures
        ({
            let (m, r) = l.edge_recorded(now, q);
            &&& r is Ok <==> q.parent != q.related && known(l, q.parent) && known(l, q.related) && !wordy(q.reason)
            &&& r is Err ==> m == l
            &&& r is Ok ==> m.tasks == l.tasks && m.attempts == l.attempts && m.todos == l.todos && m.edges.len()
                == l.edges.len() + 1 && m.edges.drop_last() == l.edges && m.events.len() == l.events.len() + 1
                && m.events.drop_last() == l.events
            &&& r is Ok ==> m.edges.last() == (EdgeRec {
                edge_id: (l.edge_seq + 1) as i64,
                task_id: q.parent,
                attempt_id: None,
                edge_type: q.edge_type,
                related_task_id: Some(q.related),
                related_attempt_id: None,
                spawned_by_event_id: Some((l.event_seq + 1) as i64),
                created_at: now,
            })
            &&& r is Ok ==> m.events.last().task_id == q.parent && m.events.last().event.event_type == q.event_type
                && m.events.last().event.ts == now && m.events.last().event.event_id == (l.event_seq + 1) as i64
            &&& r is Ok ==> r->Ok_0.edge_id == (l.edge_seq + 1) as i64 && r->Ok_0.event_id == (l.event_seq + 1) as i64
        }),
{
    ledger::lemma_find(l, q.parent);
    ledger::lemma_find(l, q.related);
    if l.has(q.parent) {
        assert(l.tasks[l.find(q.parent)].head.task_id == q.parent);
    }
    if l.has(q.related) {
        assert(l.tasks[l.find(q.related)].head.task_id == q.related);
    }
    if q.reason is Some {
        lemma_empty_is_short(text::trim(q.reason->0));
    }
    let m = l.edge_recorded(now, q).0;
    if m.edges.len() > l.edges.len() {
        assert(m.edges.drop_last() =~= l.edges);
        assert(m.events.drop_last() =~= l.events);
    }
}

/// A spawn, a delegation and a wait are told apart by the type of their edge and of their event; each
/// leads from the first task named to the second.
pub proof fn law_relations_are_told_apart(
    parent: Text,
    child: Text,
    branch: Option<Text>,
    context: Option<Text>,
    reason: Option<Text>,
    who: Text,
)
    ensures
        ({
            let s = crate::coordinator::edges::spawned_request(parent, child, branch, context, who);
            let d = crate::coordinator::edges::delegated_request(parent, child, reason, who);
            let a = crate::coordinator::edges::awaited_request(parent, child, reason, who);
            &&& s.parent == parent && s.related == child && d.parent == parent && d.related == child && a.parent == parent
                && a.related == child
            &&& s.edge_type == "spawned"@ && s.event_type == "task.spawned_child"@ && s.branch == branch && s.context
                == context && s.reason is None
            &&& d.edge_type == "delegated_to"@ && d.event_type == "task.delegated_to"@ && d.reason == reason
            &&& a.edge_type == "awaited"@ && a.event_type == "task.awaiting"@ && a.reason == reason
            &&& s.producer == who && d.producer == who && a.producer == who
        }),
{
}

/// A replay succeeds exactly where the original is there and the new id is not taken, and the copy has the
/// retry policy of the original, or none where the original has an unknown one.
pub proof fn law_replays_go_by_the_columns(l: Ledger, now: i64, edge_now: i64, i: int, new_id: Text, who: Text)
    requires
        l.wf(),
        0 <= i < l.tasks.len(),
        text::byte_len(text::trim("replay of "@ + l.tasks[i].head.task_id)) <= 2000,
    ensures
        ({
            let o = l.tasks[i].head;
            let (m, r) = l.replayed(now, edge_now, new_id, o.task_id, who);
            let h = m.tasks.last().head;
            &&& r is Ok <==> !known(l, new_id)
            &&& known(l, new_id) ==> m == l
            &&& r is Ok ==> m.tasks.len() == l.tasks.len() + 1 && m.tasks.drop_last() == l.tasks && h.task_id == new_id
                && h.created_at == now && h.status == "pending"@
            &&& r is Ok && (o.retry_policy == "none"@ || o.retry_policy == "once"@ || o.retry_policy == "bounded"@)
                ==> h.retry_policy == o.retry_policy
            &&& r is Ok && !(o.retry_policy == "none"@ || o.retry_policy == "once"@ || o.retry_policy == "bounded"@)
                ==> h.retry_policy == "none"@
            &&& m.attempts == l.attempts && m.todos == l.todos
        }),
{
    let o = l.tasks[i].head;
    let id = o.task_id;
    ledger::lemma_find_is(l, i);
    ledger::lemma_find(l, new_id);
    if l.has(new_id) {
        assert(l.tasks[l.find(new_id)].head.task_id == new_id);
    } else {
        let rec = l.replay_row(now, new_id, id);
        let a = l.with_task(rec);
        assert(a.tasks.drop_last() =~= l.tasks);
        crate::coordinator::laws::law_new_tasks_are_pending(l, rec, id);
        lemma_empty_is_short(text::trim("replay of "@ + id));
        let m = l.replayed(now, edge_now, new_id, id, who).0;
        assert(m.tasks == a.tasks);
        vocab::law_retry_policy_round_trip(RetryPolicy::Never);
        vocab::law_retry_policy_round_trip(RetryPolicy::Once);
        vocab::law_retry_policy_round_trip(RetryPolicy::Bounded);
    }
}

/// Whether one task is the oldest delegation parent of another.
pub open spec fn delegated_by(edges: Seq<EdgeRec>, child: Text, parent: Text) -> bool {
    exists|k: int|
        0 <= k < edges.len() && (#[trigger] edges[k]).related_task_id == Some(child) && edges[k].edge_type
            == "delegated_to"@ && edges[k].task_id == parent && forall|j: int|
            0 <= j < k ==> (#[trigger] edges[j]).related_task_id != Some(child) || edges[j].edge_type != "delegated_to"@
}

proof fn lemma_delegator(edges: Seq<EdgeRec>, id: Text, k: int)
    requires
        0 <= k <= edges.len(),
        forall|j: int|
            0 <= j < k ==> (#[trigger] edges[j]).related_task_id != Some(id) || edges[j].edge_type != "delegated_to"@,
    ensures
        match crate::coordinator::edges::delegator(edges, id, k) {
            Some(p) => delegated_by(edges, id, p) && forall|q: Text| #[trigger] delegated_by(edges, id, q) ==> q == p,
            None => forall|q: Text| !#[trigger] delegated_by(edges, id, q),
        },
    decreases edges.len() - k,
{
    if k < edges.len() {
        if edges[k].related_task_id == Some(id) && edges[k].edge_type == "delegated_to"@ {
            assert(delegated_by(edges, id, edges[k].task_id));
            assert forall|q: Text| #[trigger] delegated_by(edges, id, q) implies q == edges[k].task_id by {
                let x = choose|x: int|
                    0 <= x < edges.len() && (#[trigger] edges[x]).related_task_id == Some(id) && edges[x].edge_type
                        == "delegated_to"@ && edges[x].task_id == q && forall|j: int|
                        0 <= j < x ==> (#[trigger] edges[j]).related_task_id != Some(id) || edges[j].edge_type
                            != "delegated_to"@;
                if x > k {
                    assert(edges[k].related_task_id != Some(id) || edges[k].edge_type != "delegated_to"@);
                }
            }
        } else {
            lemma_delegator(edges, id, k + 1);
        }
    } else {
        assert forall|q: Text| !#[trigger] delegated_by(edges, id, q) by {}
    }
}

/// Whether a list of tasks leads up a chain of delegations, each to the oldest parent of the one before.
pub open spec fn chain_of_delegations(edges: Seq<EdgeRec>, chain: Seq<Text>) -> bool {
    forall|j: int|
        0 <= j < chain.len() - 1 ==> delegated_by(edges, #[trigger] chain[j], chain[j + 1]) && chain[j + 1] != chain[j]
}

/// The depth of a task is the number of steps of the chain of delegations that leads up from it: the
/// chain ends at a task without a parent, or at the limit.
pub proof fn law_depth_is_that_of_the_chain(edges: Seq<EdgeRec>, id: Text, limit: nat) -> (chain: Seq<Text>)
    ensures
        chain.len() == crate::coordinator::edges::chain_depth(edges, id, limit) + 1,
        chain[0] == id,
        chain_of_delegations(edges, chain),
        crate::coordinator::edges::chain_depth(edges, id, limit) <= limit,
        crate::coordinator::edges::chain_depth(edges, id, limit) < limit ==> forall|q: Text| #[trigger]
            delegated_by(edges, chain.last(), q) ==> q == chain.last(),
    decreases limit,
{
    lemma_delegator(edges, id, 0);
    if limit == 0 {
        seq![id]
    } else {
        match crate::coordinator::edges::delegator(edges, id, 0) {
            Some(parent) => if parent != id {
                let rest = law_depth_is_that_of_the_chain(edges, parent, (limit - 1) as nat);
                let chain = seq![id] + rest;
                assert forall|j: int| 0 <= j < chain.len() - 1 implies delegated_by(edges, #[trigger] chain[j], chain[j
                    + 1]) && chain[j + 1] != chain[j] by {
                    if j > 0 {
                        assert(chain[j] == rest[j - 1] && chain[j + 1] == rest[j]);
                        assert(delegated_by(edges, rest[j - 1], rest[j - 1 + 1]));
                    } else {
                        assert(chain[1] == rest[0]);
                    }
                }
                assert(chain.last() == rest.last());
                chain
            } else {
                seq![id]
            },
            None => seq![id],
        }
    }
}

/// Setting todos succeeds exactly where the task is there, no item is blank or too long, and the ids fit.
/// It touches no other table.
pub proof fn law_todo_lists_are_set(l: Ledger, now: i64, id: Text, items: Seq<Text>, safe: Seq<Text>)
    requires
        l.wf(),
    ensures
        ({
            let (m, r) = l.todos_set(now, id, items, safe);
            &&& r is Ok <==> known(l, id) && (forall|k: int|
                0 <= k < items.len() ==> text::trim(#[trigger] items[k]).len() > 0 && text::byte_len(items[k]) <= 2000)
                && l.todo_seq + safe.len() <= i64::MAX
            &&& r is Err ==> m == l
            &&& m.tasks == l.tasks && m.events == l.events && m.attempts == l.attempts && m.edges == l.edges
        }),
{
    ledger::lemma_find(l, id);
    if l.has(id) {
        assert(l.tasks[l.find(id)].head.task_id == id);
    }
    if todo::some_blank(items) {
        let k = choose|k: int| 0 <= k < items.len() && text::trim(#[trigger] items[k]).len() == 0;
        assert(text::trim(items[k]).len() == 0);
    }
    if todo::some_oversize(items) {
        let k = choose|k: int|
            0 <= k < items.len() && text::byte_len(#[trigger] items[k]) > vocab::MAX_OPERATOR_NOTE_LEN;
        assert(text::byte_len(items[k]) > 2000);
    }
}

proof fn lemma_todo_from(todos: Seq<crate::coordinator::model::OwnedTodo>, id: Text, todo_id: i64, from: int)
    requires
        0 <= from <= todos.len(),
    ensures
        ({
            let k = todo::todo_from(todos, id, todo_id, from);
            &&& from <= k <= todos.len()
            &&& k < todos.len() ==> todos[k].task_id == id && todos[k].item.todo_id == todo_id
            &&& forall|j: int| from <= j < k ==> (#[trigger] todos[j]).task_id != id || todos[j].item.todo_id != todo_id
        }),
    decreases todos.len() - from,
{
    if from < todos.len() && !(todos[from].task_id == id && todos[from].item.todo_id == todo_id) {
        lemma_todo_from(todos, id, todo_id, from + 1);
    }
}

/// A todo is opened or done exactly where the status is one of the two words and the todo belongs to the
/// task. Its status and time change; no other row of any table does.
pub proof fn law_todos_are_changed_one_by_one(l: Ledger, now: i64, id: Text, k: int, status: Text)
    requires
        l.wf(),
        0 <= k < l.todos.len(),
    ensures
        ({
            let x = l.todos[k];
            let (m, r) = l.todo_updated(now, id, x.item.todo_id, status);
            let word = status == "open"@ || status == "done"@;
            let item = TodoRec { status, updated_at: now, ..x.item };
            &&& r is Ok <==> word && x.task_id == id
            &&& r is Ok ==> r->Ok_0 == item && m.todos == l.todos.update(
                k,
                crate::coordinator::model::OwnedTodo { item, ..x },
            )
            &&& r is Err ==> m == l
            &&& !word ==> r->Err_0 is Invalid
            &&& word && x.task_id != id ==> r->Err_0 is NotFound
            &&& m.tasks == l.tasks && m.events == l.events && m.attempts == l.attempts && m.edges == l.edges
        }),
{
    let x = l.todos[k];
    lemma_todo_from(l.todos, id, x.item.todo_id, 0);
    let f = todo::todo_from(l.todos, id, x.item.todo_id, 0);
    if f < l.todos.len() {
        if f < k {
            assert(l.todos[f].item.todo_id < l.todos[k].item.todo_id);
        } else if k < f {
            assert(l.todos[k].item.todo_id < l.todos[f].item.todo_id);
        }
    }
}

/// The todos of a task are its own, by position.
pub proof fn law_todos_go_by_the_columns(l: Ledger, id: Text, k: int)
    requires
        l.wf(),
        0 <= k < l.todos.len(),
    ensures
        ({
            let own = l.todos_of(id);
            &&& own.contains(l.todos[k].item) <==> l.todos[k].task_id == id
            &&& forall|i: int, j: int| 0 <= i < j < own.len() ==> (#[trigger] own[i]).position <= (#[trigger] own[j]).position
                && own[i] != own[j]
            &&& forall|i: int|
                0 <= i < own.len() ==> exists|j: int|
                    0 <= j < l.todos.len() && (#[trigger] l.todos[j]).task_id == id && l.todos[j].item == #[trigger] own[i]
        }),
{
    let own = l.todos_of(id);
    let f = todo::pick_todo(id);
    let key = todo::position_key();
    let rows = l.todos.filter_map(f);
    listing::lemma_picked(l.todos, f);
    listing::lemma_picked_places(l.todos, f);
    ordering::law_sorting_keeps_rows(rows, key);
    ordering::law_sorting_orders_rows(rows, key);
    ordering::lemma_text_before_irreflexive(Seq::empty());
    let at = listing::picked_places(l.todos, f);
    assert forall|i: int, j: int| 0 <= i < j < rows.len() implies rows[i] != rows[j] by {
        assert(at[i] < at[j]);
        assert(f(l.todos[at[i]]) == Some(rows[i]) && f(l.todos[at[j]]) == Some(rows[j]));
        assert(l.todos[at[i]].item.todo_id < l.todos[at[j]].item.todo_id);
    }
    assert(rows.no_duplicates());
    assert forall|i: int, j: int| 0 <= i < j < own.len() implies (#[trigger] own[i]).position <= (
    #[trigger] own[j]).position && own[i] != own[j] by {
        assert(!key(own[j]).before(key(own[i])));
    }
    assert forall|i: int| 0 <= i < own.len() implies exists|j: int|
        0 <= j < l.todos.len() && (#[trigger] l.todos[j]).task_id == id && l.todos[j].item == #[trigger] own[i] by {
        assert(own.contains(own[i]));
        let j = choose|j: int| 0 <= j < l.todos.len() && f(#[trigger] l.todos[j]) == Some(own[i]);
        assert(l.todos[j].item == own[i]);
    }
    if own.contains(l.todos[k].item) {
        assert(rows.contains(l.todos[k].item));
        let j = choose|j: int| 0 <= j < l.todos.len() && f(#[trigger] l.todos[j]) == Some(l.todos[k].item);
        if j < k {
            assert(l.todos[j].item.todo_id < l.todos[k].item.todo_id);
        } else if k < j {
            assert(l.todos[k].item.todo_id < l.todos[j].item.todo_id);
        }
    }
}

} // verus!
