//! What the ledger promises of operations taken together: what is written is read back, and what is
//! summed up adds up.
use vstd::prelude::*;
use crate::coordinator::attempts;
use crate::coordinator::edges::EdgeRequest;
use crate::coordinator::history;
use crate::coordinator::laws;
use crate::coordinator::ledger::{self, Ledger};
use crate::coordinator::lineage;
use crate::coordinator::model::{EventRec, OwnedEvent, SubtreeMetrics, TaskHeader};
use crate::coordinator::query;
use crate::coordinator::recovery_laws;
use crate::coordinator::update::{self, ChangeRec};
use crate::coordinator::vocab::{self, EventOrder, TaskState};
use crate::listing;
use crate::text::Text;

verus! {

proof fn lemma_nothing_later(events: Seq<OwnedEvent>, id: Text, after: i64)
    requires
        forall|i: int| 0 <= i < events.len() ==> (#[trigger] events[i]).event.event_id <= after,
    ensures
        events.filter_map(query::pick_event(id, after, None)) == Seq::<EventRec>::empty(),
    decreases events.len(),
{
    if events.len() > 0 {
        assert(events.last().event.event_id <= after);
        assert forall|i: int| 0 <= i < events.drop_last().len() implies (#[trigger] events.drop_last()[i]).event.event_id
            <= after by {
            assert(events.drop_last()[i] == events[i]);
        }
        lemma_nothing_later(events.drop_last(), id, after);
    }
}

/// An event that was appended gets an id above all others, is the last one in its task's history, and is
/// all that a reader sees who has read everything before it.
pub proof fn law_appended_events_are_read_back(l: Ledger, now: i64, id: Text, event_type: Text, payload: Text, limit: usize)
    requires
        l.wf(),
        l.has(id),
        l.event_seq < i64::MAX,
    ensures
        ({
            let (m, r) = l.event_appended(now, id, event_type, payload);
            let event = EventRec {
                event_id: r->Ok_0,
                ts: now,
                event_type,
                payload,
                schema_version: 0,
                attempt_id: None,
                trace_id: None,
                payload_json: None,
            };
            &&& r is Ok
            &&& forall|i: int| 0 <= i < l.events.len() ==> (#[trigger] l.events[i]).event.event_id < r->Ok_0
            &&& m.detail(id) is Some
            &&& m.detail(id)->0.head == l.head(id)
            &&& m.detail(id)->0.events == l.detail(id)->0.events.push(event)
            &&& m.queried(id, l.event_seq as i64, limit, None, EventOrder::Asc) == Ok::<
                Seq<EventRec>,
                crate::coordinator::model::Fault,
            >(seq![event])
        }),
{
    let (m, r) = l.event_appended(now, id, event_type, payload);
    let after = l.event_seq as i64;
    assert(m.events.drop_last() =~= l.events);
    lemma_nothing_later(l.events, id, after);
    let all = m.events.filter_map(query::pick_event(id, after, None));
    assert(m.events.last().event.event_id > after);
    assert(all =~= seq![m.events.last().event]);
    assert(listing::first(all, listing::bounded(limit, m.max_list) as int) =~= all);
    assert(m.detail(id)->0.events =~= l.detail(id)->0.events.push(m.events.last().event));
}

/// An edge and the event that announces it come together: the edge names the event, which belongs to
/// the task that the edge starts from, and both get new ids.
pub proof fn law_recorded_edges_are_anchored(l: Ledger, now: i64, q: EdgeRequest)
    requires
        l.wf(),
        l.event_seq < i64::MAX,
        l.edge_seq < i64::MAX,
        l.edge_recorded(now, q).1 is Ok,
    ensures
        ({
            let (m, r) = l.edge_recorded(now, q);
            let o = r->Ok_0;
            let edge = m.edges.last();
            let event = m.events.last();
            &&& m.edges == l.edges.push(edge)
            &&& m.events == l.events.push(event)
            &&& edge.edge_id == o.edge_id
            &&& edge.task_id == q.parent
            &&& edge.related_task_id == Some(q.related)
            &&& edge.edge_type == q.edge_type
            &&& edge.spawned_by_event_id == Some(o.event_id)
            &&& event.event.event_id == o.event_id
            &&& event.task_id == q.parent
            &&& event.event.event_type == q.event_type
            &&& q.parent != q.related
            &&& forall|i: int| 0 <= i < l.edges.len() ==> (#[trigger] l.edges[i]).edge_id < o.edge_id
            &&& forall|i: int| 0 <= i < l.events.len() ==> (#[trigger] l.events[i]).event.event_id < o.event_id
        }),
{
}

/// A replay is a new pending task with the original's flow, parameters, owner and limits and no retries
/// yet; the original is as it was, and an edge and an event lead back to it.
pub proof fn law_replays_copy(l: Ledger, now: i64, edge_now: i64, new_id: Text, id: Text, producer: Text)
    requires
        l.wf(),
        l.event_seq < i64::MAX,
        l.edge_seq < i64::MAX,
        l.replayed(now, edge_now, new_id, id, producer).1 is Ok,
    ensures
        ({
            let (m, r) = l.replayed(now, edge_now, new_id, id, producer);
            let h = m.head(new_id);
            let o = l.head(id);
            &&& r->Ok_0 == new_id
            &&& l.has(id)
            &&& !l.has(new_id)
            &&& m.has(new_id)
            &&& h.status == "pending"@
            &&& h.title == o.title + " (replay)"@
            &&& h.flow_template == o.flow_template
            &&& h.params_json == o.params_json
            &&& h.owner_subject_id == o.owner_subject_id
            &&& h.max_retries == o.max_retries
            &&& h.max_runtime_secs == o.max_runtime_secs
            &&& h.origin_surface == o.origin_surface
            &&& h.retry_count == 0
            &&& h.attempt_count == 0
            &&& m.has(id) && m.task(id) == l.task(id)
            &&& m.edges.len() == l.edges.len() + 1
            &&& m.edges.last().task_id == new_id
            &&& m.edges.last().related_task_id == Some(id)
            &&& m.edges.last().edge_type == "retried_from"@
            &&& m.events.len() == l.events.len() + 1
            &&& m.events.last().task_id == new_id
            &&& m.events.last().event.event_type == "task.replayed_from"@
            &&& m.events.last().event.payload == "from="@ + id
        }),
{
    let rec = l.replay_row(now, new_id, id);
    laws::law_new_tasks_are_pending(l, rec, id);
}

/// A task that completes, fails or is cancelled has no open attempt any more.
pub proof fn law_ended_tasks_have_no_open_attempt(l: Ledger, now: i64, id: Text, c: ChangeRec, safe: Option<Text>)
    requires
        l.wf(),
        l.has(id),
        c.status is Some,
        update::closes_attempt(c.status->0),
    ensures
        !l.updated(now, id, c, safe).0.has_open_attempt(id),
{
    let a = l.changed(now, id, c, safe);
    vocab::lemma_state_words(TaskState::Running);
    vocab::lemma_state_words(TaskState::Completed);
    vocab::lemma_state_words(TaskState::Failed);
    vocab::lemma_state_words(TaskState::Cancelled);
    lemma_closing_closes(a, id, now, c);
    let s = c.status->0;
    let b = a.attempt_closed(id, s, c.flow_id, c.flow_log_path, c.error_kind, c.error_cause, c.failure_class, now);
    let m = b.summarised(id, s, now);
    assert(m.tasks == b.tasks && m.attempts == b.attempts);
}

proof fn lemma_closing_closes(l: Ledger, id: Text, now: i64, c: ChangeRec)
    ensures
        !l.attempt_closed(
            id,
            c.status->0,
            c.flow_id,
            c.flow_log_path,
            c.error_kind,
            c.error_cause,
            c.failure_class,
            now,
        ).has_open_attempt(id),
{
    if l.has_open_attempt(id) {
        let aid = l.head(id).current_attempt_id->0;
        let m = l.attempt_closed(
            id,
            c.status->0,
            c.flow_id,
            c.flow_log_path,
            c.error_kind,
            c.error_cause,
            c.failure_class,
            now,
        );
        ledger::lemma_attempt_from(l.attempts, aid, 0);
        ledger::lemma_attempt_same_ids(l.attempts, m.attempts, aid, 0);
    }
}

/// An accepted retry keeps the record of the last failure, clears the transient error and opens no
/// attempt.
pub proof fn law_retries_keep_the_failure_record(l: Ledger, now: i64, id: Text)
    requires
        l.wf(),
        l.has(id),
        l.retry_requested(now, id).1 matches Ok(v) && v is Accepted,
    ensures
        ({
            let m = l.retry_requested(now, id).0;
            &&& m.head(id).status == "retrying"@
            &&& m.head(id).last_failure_class == l.head(id).last_failure_class
            &&& m.head(id).last_failure_reason == l.head(id).last_failure_reason
            &&& m.head(id).error_kind is None
            &&& m.head(id).error_cause is None
            &&& m.head(id).attempt_count == l.head(id).attempt_count
            &&& m.attempts == l.attempts
        }),
{
    let m = l.retry_requested(now, id).0;
    ledger::lemma_find(l, id);
    ledger::lemma_find_same_ids(l.tasks, m.tasks, id, 0);
}

/// The reason of a failure survives every later update that names no other.
pub proof fn law_failure_reasons_survive(
    l: Ledger,
    now: i64,
    later: i64,
    id: Text,
    failed: ChangeRec,
    safe: Option<Text>,
    next: ChangeRec,
)
    requires
        l.wf(),
        l.has(id),
        failed.error_cause is Some,
        safe is Some,
        next.error_cause is None,
        l.updated(now, id, failed, safe).0.wf(),
    ensures
        ({
            let m = l.updated(now, id, failed, safe).0;
            &&& m.head(id).last_failure_reason == safe
            &&& m.updated(later, id, next, None).0.head(id).last_failure_reason == safe
        }),
{
    laws::lemma_updated_head(l, now, id, failed, safe);
    let m = l.updated(now, id, failed, safe).0;
    history::law_operations_are_local(l, now, id, failed, safe, None, Seq::empty(), Seq::empty(), 0, false);
    history::lemma_only_finds(l, m, id, id);
    laws::lemma_updated_head(m, later, id, next, None);
}

/// A task that is reported as stuck is never touched by the recovery scan.
pub proof fn law_stuck_tasks_are_not_recovered(l: Ledger, now: i64, threshold: i64, scan: i64, i: int)
    requires
        l.wf(),
        0 <= i < l.tasks.len(),
        l.pick_stuck(now, threshold)(l.tasks[i]) is Some,
    ensures
        l.recovered(scan).0.tasks[i] == l.tasks[i],
{
    recovery_laws::law_recovery_interrupts_the_overdue(l, scan, i);
}

/// How many of the first `n` tasks of a list are there.
pub open spec fn present(l: Ledger, ids: Seq<Text>, n: int) -> int
    decreases n,
{
    if n <= 0 {
        0
    } else {
        present(l, ids, n - 1) + if l.has(ids[n - 1]) { 1int } else { 0int }
    }
}

/// The counts by status of a lineage's metrics add up to the number of its tasks that are there: no task
/// is counted twice, none is left out.
pub proof fn law_metrics_add_up(l: Ledger, ids: Seq<Text>, n: int)
    requires
        0 <= n <= ids.len(),
    ensures
        lineage::tally(l, ids, n, lineage::has_status("completed"@)) + lineage::tally(
            l,
            ids,
            n,
            lineage::has_status("failed"@),
        ) + lineage::tally(l, ids, n, lineage::has_status("cancelled"@)) + lineage::tally(
            l,
            ids,
            n,
            lineage::has_status("pending"@),
        ) + lineage::tally(l, ids, n, lineage::has_status("running"@)) + lineage::tally(
            l,
            ids,
            n,
            lineage::has_status("retrying"@),
        ) + lineage::tally(l, ids, n, lineage::has_status("paused"@)) + lineage::tally(
            l,
            ids,
            n,
            lineage::has_status("frozen"@),
        ) + lineage::tally(l, ids, n, lineage::has_status("interrupted"@)) + lineage::tally(
            l,
            ids,
            n,
            lineage::has_status("awaiting_input"@),
        ) + lineage::tally(l, ids, n, lineage::has_other_status()) == present(l, ids, n),
    decreases n,
{
    if n > 0 {
        law_metrics_add_up(l, ids, n - 1);
        lemma_words();
    }
}

/// Whether all tasks of a lineage are there, and few enough to be counted.
pub open spec fn complete(l: Ledger, ids: Seq<Text>) -> bool {
    ids.len() <= i64::MAX && forall|k: int| 0 <= k < ids.len() ==> l.has(#[trigger] ids[k])
}

/// Whether metrics sum up a lineage: the counters by status give the number of its tasks, the unstarted
/// tasks are counted, and the span reaches from the earliest start to the latest update.
pub open spec fn rolled_up(l: Ledger, ids: Seq<Text>, m: SubtreeMetrics) -> bool {
    &&& m.total_tasks == ids.len()
    &&& m.terminal_completed + m.terminal_failed + m.terminal_cancelled + m.active_pending + m.active_running
        + m.active_retrying + m.active_paused + m.active_frozen + m.active_interrupted + m.active_awaiting_input
        + m.other_status == m.total_tasks
    &&& m.tasks_with_missing_timing == ids.filter(|id: Text| l.head(id).started_at is None).len()
    &&& m.total_wall_clock_secs >= 0
    &&& match m.oldest_started_at {
        Some(s) => (exists|k: int| 0 <= k < ids.len() && l.head(#[trigger] ids[k]).started_at == Some(s)) && forall|k: int|
            0 <= k < ids.len() ==> (l.head(#[trigger] ids[k]).started_at matches Some(x) ==> s <= x),
        None => forall|k: int| 0 <= k < ids.len() ==> l.head(#[trigger] ids[k]).started_at is None,
    }
    &&& match m.newest_updated_at {
        Some(u) => (exists|k: int| 0 <= k < ids.len() && l.head(#[trigger] ids[k]).updated_at == u) && forall|k: int|
            0 <= k < ids.len() ==> l.head(#[trigger] ids[k]).updated_at <= u,
        None => ids.len() == 0,
    }
}

proof fn lemma_tally_bounds(l: Ledger, ids: Seq<Text>, n: int, f: spec_fn(TaskHeader) -> int)
    requires
        0 <= n <= ids.len(),
        forall|h: TaskHeader| 0 <= #[trigger] f(h) <= 1,
    ensures
        0 <= lineage::tally(l, ids, n, f) <= n,
    decreases n,
{
    if n > 0 {
        lemma_tally_bounds(l, ids, n - 1, f);
    }
}

proof fn lemma_all_present(l: Ledger, ids: Seq<Text>, n: int)
    requires
        0 <= n <= ids.len(),
        forall|k: int| 0 <= k < ids.len() ==> l.has(#[trigger] ids[k]),
    ensures
        present(l, ids, n) == n,
        lineage::untimed(l, ids, n) == ids.take(n).filter(|id: Text| l.head(id).started_at is None).len(),
        0 <= lineage::untimed(l, ids, n) <= n,
    decreases n,
{
    let f = |id: Text| l.head(id).started_at is None;
    if n > 0 {
        lemma_all_present(l, ids, n - 1);
        assert(ids.take(n).drop_last() =~= ids.take(n - 1));
        assert(ids.take(n).last() == ids[n - 1]);
        assert(l.has(ids[n - 1]));
        reveal(Seq::filter);
    } else {
        assert(ids.take(0) =~= Seq::<Text>::empty());
        reveal(Seq::filter);
    }
}

proof fn lemma_wall_clock(l: Ledger, ids: Seq<Text>, n: int, now: int)
    ensures
        lineage::tally(l, ids, n, lineage::run_time_at(now)) >= 0,
    decreases n,
{
    if n > 0 {
        lemma_wall_clock(l, ids, n - 1, now);
    }
}

proof fn lemma_span(l: Ledger, ids: Seq<Text>, n: int)
    requires
        0 <= n <= ids.len(),
        forall|k: int| 0 <= k < ids.len() ==> l.has(#[trigger] ids[k]),
    ensures
        match lineage::oldest_start(l, ids, n) {
            Some(s) => (exists|k: int| 0 <= k < n && l.head(#[trigger] ids[k]).started_at == Some(s)) && forall|k: int|
                0 <= k < n ==> (l.head(#[trigger] ids[k]).started_at matches Some(x) ==> s <= x),
            None => forall|k: int| 0 <= k < n ==> l.head(#[trigger] ids[k]).started_at is None,
        },
        match lineage::newest_update(l, ids, n) {
            Some(u) => (exists|k: int| 0 <= k < n && l.head(#[trigger] ids[k]).updated_at == u) && forall|k: int|
                0 <= k < n ==> l.head(#[trigger] ids[k]).updated_at <= u,
            None => n == 0,
        },
    decreases n,
{
    if n > 0 {
        lemma_span(l, ids, n - 1);
        let h = l.head(ids[n - 1]);
        assert(l.has(ids[n - 1]));
        let p = lineage::oldest_start(l, ids, n - 1);
        if p is Some {
            let k = choose|k: int| 0 <= k < n - 1 && l.head(#[trigger] ids[k]).started_at == p;
            assert(l.head(ids[k]).started_at == p);
        }
        let q = lineage::newest_update(l, ids, n - 1);
        if q is Some {
            let k = choose|k: int| 0 <= k < n - 1 && l.head(#[trigger] ids[k]).updated_at == q->0;
            assert(l.head(ids[k]).updated_at == q->0);
        }
        assert(h == l.head(ids[n - 1]));
    }
}

/// The metrics of a lineage whose tasks are all there sum it up.
pub proof fn law_metrics_roll_up(l: Ledger, now: i64, g: lineage::LineageRec, m: SubtreeMetrics)
    requires
        lineage::measures(l, now, g, m),
        complete(l, g.tasks),
    ensures
        rolled_up(l, g.tasks, m),
{
    let ids = g.tasks;
    let n = ids.len() as int;
    law_metrics_add_up(l, ids, n);
    lemma_all_present(l, ids, n);
    assert(ids.take(n) =~= ids);
    lemma_wall_clock(l, ids, n, now as int);
    lemma_span(l, ids, n);
    lemma_tally_bounds(l, ids, n, lineage::has_status("completed"@));
    lemma_tally_bounds(l, ids, n, lineage::has_status("failed"@));
    lemma_tally_bounds(l, ids, n, lineage::has_status("cancelled"@));
    lemma_tally_bounds(l, ids, n, lineage::has_status("pending"@));
    lemma_tally_bounds(l, ids, n, lineage::has_status("running"@));
    lemma_tally_bounds(l, ids, n, lineage::has_status("retrying"@));
    lemma_tally_bounds(l, ids, n, lineage::has_status("paused"@));
    lemma_tally_bounds(l, ids, n, lineage::has_status("frozen"@));
    lemma_tally_bounds(l, ids, n, lineage::has_status("interrupted"@));
    lemma_tally_bounds(l, ids, n, lineage::has_status("awaiting_input"@));
    lemma_tally_bounds(l, ids, n, lineage::has_other_status());
}

/// Each word of the vocabulary is read as its own state, so no two words are the same.
proof fn lemma_words()
    ensures
        TaskState::of_word("pending"@) == Some(TaskState::Pending),
        TaskState::of_word("running"@) == Some(TaskState::Running),
        TaskState::of_word("retrying"@) == Some(TaskState::Retrying),
        TaskState::of_word("completed"@) == Some(TaskState::Completed),
        TaskState::of_word("failed"@) == Some(TaskState::Failed),
        TaskState::of_word("interrupted"@) == Some(TaskState::Interrupted),
        TaskState::of_word("cancelled"@) == Some(TaskState::Cancelled),
        TaskState::of_word("paused"@) == Some(TaskState::Paused),
        TaskState::of_word("frozen"@) == Some(TaskState::Frozen),
        TaskState::of_word("awaiting_input"@) == Some(TaskState::AwaitingInput),
{
    vocab::lemma_state_words(TaskState::Pending);
    vocab::lemma_state_words(TaskState::Running);
    vocab::lemma_state_words(TaskState::Retrying);
    vocab::lemma_state_words(TaskState::Completed);
    vocab::lemma_state_words(TaskState::Failed);
    vocab::lemma_state_words(TaskState::Interrupted);
    vocab::lemma_state_words(TaskState::Cancelled);
    vocab::lemma_state_words(TaskState::Paused);
    vocab::lemma_state_words(TaskState::Frozen);
    vocab::lemma_state_words(TaskState::AwaitingInput);
}

/// The breakdown of what a retention pass would delete adds up to the total.
pub proof fn law_compact_breakdown_adds_up(l: Ledger, cutoff: i64, n: int)
    requires
        0 <= n <= l.events.len(),
    ensures
        l.expendable_count(cutoff, None, n) == l.expendable_count(cutoff, Some("cancelled"@), n) + l.expendable_count(
            cutoff,
            Some("completed"@),
            n,
        ) + l.expendable_count(cutoff, Some("failed"@), n) + l.expendable_count(cutoff, Some("interrupted"@), n),
        0 <= l.expendable_count(cutoff, None, n) <= n,
        l.oldest_expendable(cutoff, n) is None <==> l.expendable_count(cutoff, None, n) == 0,
        l.newest_expendable(cutoff, n) is None <==> l.expendable_count(cutoff, None, n) == 0,
    decreases n,
{
    if n > 0 {
        law_compact_breakdown_adds_up(l, cutoff, n - 1);
        lemma_words();
    }
}

/// Whether one of the first `n` events of a task is expendable.
spec fn expendable_among(l: Ledger, id: Text, cutoff: i64, n: int) -> bool {
    exists|i: int| 0 <= i < n && (#[trigger] l.events[i]).task_id == id && l.expendable(l.events[i], cutoff)
}

/// How many of the first `k` tasks have an expendable event among the first `n`.
spec fn tasks_among(l: Ledger, cutoff: i64, n: int, k: int) -> int
    decreases k,
{
    if k <= 0 {
        0
    } else {
        tasks_among(l, cutoff, n, k - 1) + if expendable_among(l, l.tasks[k - 1].head.task_id, cutoff, n) {
            1int
        } else {
            0int
        }
    }
}

proof fn lemma_one_more_event(l: Ledger, cutoff: i64, n: int, k: int)
    requires
        l.tasks_keyed(),
        0 < n <= l.events.len(),
        0 <= k <= l.tasks.len(),
    ensures
        tasks_among(l, cutoff, n, k) <= tasks_among(l, cutoff, n - 1, k) + if l.expendable(l.events[n - 1], cutoff)
            && exists|j: int| 0 <= j < k && (#[trigger] l.tasks[j]).head.task_id == l.events[n - 1].task_id {
            1int
        } else {
            0int
        },
    decreases k,
{
    if k > 0 {
        lemma_one_more_event(l, cutoff, n, k - 1);
        let id = l.tasks[k - 1].head.task_id;
        let e = l.events[n - 1];
        if expendable_among(l, id, cutoff, n) && !expendable_among(l, id, cutoff, n - 1) {
            let i = choose|i: int|
                0 <= i < n && (#[trigger] l.events[i]).task_id == id && l.expendable(l.events[i], cutoff);
            assert(i == n - 1);
            assert(l.tasks[k - 1].head.task_id == e.task_id);
            assert forall|j: int| 0 <= j < k - 1 implies (#[trigger] l.tasks[j]).head.task_id != e.task_id by {
                assert(l.tasks[j].head.task_id != l.tasks[k - 1].head.task_id);
            }
        } else if l.expendable(e, cutoff) && exists|j: int|
            0 <= j < k - 1 && (#[trigger] l.tasks[j]).head.task_id == e.task_id {
            let j = choose|j: int| 0 <= j < k - 1 && (#[trigger] l.tasks[j]).head.task_id == e.task_id;
            assert(l.tasks[j].head.task_id == e.task_id);
        }
    }
}

proof fn lemma_tasks_within_events(l: Ledger, cutoff: i64, n: int)
    requires
        l.tasks_keyed(),
        0 <= n <= l.events.len(),
    ensures
        tasks_among(l, cutoff, n, l.tasks.len() as int) <= l.expendable_count(cutoff, None, n),
    decreases n,
{
    let k = l.tasks.len() as int;
    if n > 0 {
        lemma_tasks_within_events(l, cutoff, n - 1);
        lemma_one_more_event(l, cutoff, n, k);
    } else {
        lemma_no_events(l, cutoff, k);
    }
}

proof fn lemma_no_events(l: Ledger, cutoff: i64, k: int)
    requires
        0 <= k <= l.tasks.len(),
    ensures
        tasks_among(l, cutoff, 0, k) == 0,
    decreases k,
{
    if k > 0 {
        lemma_no_events(l, cutoff, k - 1);
    }
}

proof fn lemma_same_tasks(l: Ledger, cutoff: i64, k: int)
    requires
        0 <= k <= l.tasks.len(),
    ensures
        tasks_among(l, cutoff, l.events.len() as int, k) == l.expendable_tasks(cutoff, k),
    decreases k,
{
    if k > 0 {
        lemma_same_tasks(l, cutoff, k - 1);
        let id = l.tasks[k - 1].head.task_id;
        assert(expendable_among(l, id, cutoff, l.events.len() as int) == l.has_expendable(id, cutoff));
    }
}

/// A retention pass never touches more tasks than events.
pub proof fn law_compact_counts_are_ordered(l: Ledger, cutoff: i64)
    requires
        l.wf(),
    ensures
        l.expendable_tasks(cutoff, l.tasks.len() as int) <= l.expendable_count(cutoff, None, l.events.len() as int),
        l.compactable(cutoff).candidate_tasks <= l.compactable(cutoff).candidate_events,
{
    lemma_tasks_within_events(l, cutoff, l.events.len() as int);
    lemma_same_tasks(l, cutoff, l.tasks.len() as int);
}

/// Whether a task's freeze stamp tells whether it is frozen.
pub open spec fn freeze_stamp_tells(l: Ledger, id: Text) -> bool {
    l.head(id).frozen_at is Some <==> l.head(id).status == "frozen"@
}

/// A task is stamped as frozen while it is frozen: where the stamp tells the truth, it does so after a
/// pause, a resume, a freeze, an unfreeze, a retry, a mark for investigation, and an update that does
/// not itself set the status to or from `frozen`.
pub proof fn law_freeze_stamp_tells(
    l: Ledger,
    now: i64,
    id: Text,
    reason: Option<Text>,
    safe: Option<Text>,
    who: Text,
    c: ChangeRec,
    marked: bool,
)
    requires
        l.wf(),
        l.has(id),
        l.roomy(),
        freeze_stamp_tells(l, id),
        c.status is None || c.status->0 == l.head(id).status || (c.status->0 != "frozen"@ && l.head(id).status
            != "frozen"@),
    ensures
        freeze_stamp_tells(l.paused(now, id, reason, safe, who).0, id),
        freeze_stamp_tells(l.resumed(now, id, who).0, id),
        freeze_stamp_tells(l.frozen(now, id, reason, safe, who).0, id),
        freeze_stamp_tells(l.unfrozen(now, id, who).0, id),
        freeze_stamp_tells(l.retry_requested(now, id).0, id),
        freeze_stamp_tells(l.investigation_set(now, id, marked, reason, safe, who).0, id),
        freeze_stamp_tells(l.updated(now, id, c, safe).0, id),
{
    lemma_words();
    ledger::lemma_find(l, id);
    history::law_operations_are_local(l, now, id, c, reason, safe, who, Seq::empty(), 0, marked);
    history::lemma_only_finds(l, l.paused(now, id, reason, safe, who).0, id, id);
    history::lemma_only_finds(l, l.resumed(now, id, who).0, id, id);
    history::lemma_only_finds(l, l.frozen(now, id, reason, safe, who).0, id, id);
    history::lemma_only_finds(l, l.unfrozen(now, id, who).0, id, id);
    history::lemma_only_finds(l, l.retry_requested(now, id).0, id, id);
    history::lemma_only_finds(l, l.investigation_set(now, id, marked, reason, safe, who).0, id, id);
    laws::lemma_updated_head(l, now, id, c, safe);
}

} // verus!
