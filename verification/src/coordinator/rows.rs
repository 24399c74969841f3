//! What the rows and texts that callers read hold of the records they are made from.
use vstd::prelude::*;
use crate::coordinator::compact::CompactRec;
use crate::coordinator::lineage::LineageRec;
use crate::coordinator::model::{
    AttemptRec, EdgeRec, EventRec, ExportRec, OwnedEvent, StuckRec, SubtreeMetrics, SummaryRec, TaskDetail,
    TodoRec,
};
use crate::coordinator::reads;
use crate::coordinator::render;
use crate::json;
use crate::numeral;
use crate::text::{self, Text};

verus! {

/// A row of columns with tabs between them and a line feed behind them.
pub open spec fn row(columns: Seq<Text>) -> Text {
    text::joined(columns, "\t"@) + "\n"@
}

/// A column that shows a dash where there is nothing.
pub open spec fn dashed(o: Option<Text>) -> Text {
    match o {
        Some(t) => t,
        None => "-"@,
    }
}

/// The same of a number.
pub open spec fn dashed_number(o: Option<i64>) -> Text {
    match o {
        Some(n) => numeral::dec(n as int),
        None => "-"@,
    }
}

/// A column that is empty where there is no number.
pub open spec fn blank_number(o: Option<i64>) -> Text {
    match o {
        Some(n) => numeral::dec(n as int),
        None => Seq::empty(),
    }
}

proof fn lemma_row_next(columns: Seq<Text>, c: Text)
    requires
        columns.len() >= 1,
    ensures
        text::joined(columns.push(c), "\t"@) == text::joined(columns, "\t"@) + "\t"@ + c,
{
    assert(columns.push(c).drop_last() =~= columns);
}

proof fn lemma_row3(a: Text, b: Text, c: Text)
    ensures
        text::joined(seq![a, b, c], "\t"@) == a + "\t"@ + b + "\t"@ + c,
{
    lemma_row_next(seq![a], b);
    assert(seq![a].push(b) =~= seq![a, b]);
    lemma_row_next(seq![a, b], c);
    assert(seq![a, b].push(c) =~= seq![a, b, c]);
}

proof fn lemma_row4(a: Text, b: Text, c: Text, d: Text)
    ensures
        text::joined(seq![a, b, c, d], "\t"@) == a + "\t"@ + b + "\t"@ + c + "\t"@ + d,
{
    lemma_row3(a, b, c);
    lemma_row_next(seq![a, b, c], d);
    assert(seq![a, b, c].push(d) =~= seq![a, b, c, d]);
}

proof fn lemma_row5(a: Text, b: Text, c: Text, d: Text, e: Text)
    ensures
        text::joined(seq![a, b, c, d, e], "\t"@) == a + "\t"@ + b + "\t"@ + c + "\t"@ + d + "\t"@ + e,
{
    lemma_row4(a, b, c, d);
    lemma_row_next(seq![a, b, c, d], e);
    assert(seq![a, b, c, d].push(e) =~= seq![a, b, c, d, e]);
}

proof fn lemma_row6(a: Text, b: Text, c: Text, d: Text, e: Text, f: Text)
    ensures
        text::joined(seq![a, b, c, d, e, f], "\t"@) == a + "\t"@ + b + "\t"@ + c + "\t"@ + d + "\t"@ + e + "\t"@ + f,
{
    lemma_row5(a, b, c, d, e);
    lemma_row_next(seq![a, b, c, d, e], f);
    assert(seq![a, b, c, d, e].push(f) =~= seq![a, b, c, d, e, f]);
}

/// A listed task is a row of its id, status and title, in that order; a paged one has the time of its
/// last change and of its investigation mark behind them, empty where there is none.
pub proof fn law_tasks_are_rows(rows: Seq<SummaryRec>, x: SummaryRec)
    ensures
        render::summary_rows(Seq::empty()) == Seq::<char>::empty(),
        render::summary_rows(rows.push(x)) == render::summary_rows(rows) + row(
            seq![x.task_id, x.status, text::one_row(x.title)],
        ),
        render::page_rows(Seq::empty()) == Seq::<char>::empty(),
        render::page_rows(rows.push(x)) == render::page_rows(rows) + row(
            seq![
                x.task_id,
                x.status,
                text::one_row(x.title),
                numeral::dec(x.updated_at as int),
                blank_number(x.investigation_marked_at),
            ],
        ),
{
    let f = |x: SummaryRec| render::summary_row(x);
    assert(rows.push(x).map_values(f).drop_last() =~= rows.map_values(f));
    lemma_row3(x.task_id, x.status, text::one_row(x.title));
    assert(render::summary_row(x) =~= row(seq![x.task_id, x.status, text::one_row(x.title)]));
    let g = |x: SummaryRec| render::page_row(x);
    let mark = blank_number(x.investigation_marked_at);
    assert(rows.push(x).map_values(g).drop_last() =~= rows.map_values(g));
    lemma_row5(x.task_id, x.status, text::one_row(x.title), numeral::dec(x.updated_at as int), mark);
    assert(render::page_row(x) =~= row(
        seq![x.task_id, x.status, text::one_row(x.title), numeral::dec(x.updated_at as int), mark],
    ));
}

/// A todo is a row of its place, number, status and text; a stuck task one of its id, title, start and
/// age.
pub proof fn law_todos_and_stuck_tasks_are_rows(rows: Seq<TodoRec>, x: TodoRec, stuck: Seq<StuckRec>, y: StuckRec)
    ensures
        render::todo_rows(Seq::empty()) == Seq::<char>::empty(),
        render::todo_rows(rows.push(x)) == render::todo_rows(rows) + render::todo_row(x),
        render::todo_row(x) == row(
            seq![numeral::dec(x.position as int), numeral::dec(x.todo_id as int), x.status, text::one_line(x.text)],
        ),
        render::stuck_rows(Seq::empty()) == Seq::<char>::empty(),
        render::stuck_rows(stuck.push(y)) == render::stuck_rows(stuck) + row(
            seq![y.task_id, text::one_line(y.title), numeral::dec(y.started_at as int), numeral::dec(y.age_secs as int)],
        ),
{
    let f = |x: TodoRec| render::todo_row(x);
    assert(rows.push(x).map_values(f).drop_last() =~= rows.map_values(f));
    lemma_row4(numeral::dec(x.position as int), numeral::dec(x.todo_id as int), x.status, text::one_line(x.text));
    assert(render::todo_row(x) =~= row(
        seq![numeral::dec(x.position as int), numeral::dec(x.todo_id as int), x.status, text::one_line(x.text)],
    ));
    let g = |y: StuckRec| render::stuck_row(y);
    assert(stuck.push(y).map_values(g).drop_last() =~= stuck.map_values(g));
    lemma_row4(y.task_id, text::one_line(y.title), numeral::dec(y.started_at as int), numeral::dec(y.age_secs as int));
    assert(render::stuck_row(y) =~= row(
        seq![y.task_id, text::one_line(y.title), numeral::dec(y.started_at as int), numeral::dec(y.age_secs as int)],
    ));
}

/// An attempt is a row of its number, status, start, end, failure class and flow, with a dash for what it
/// does not have.
pub proof fn law_attempts_are_rows(rows: Seq<AttemptRec>, x: AttemptRec)
    ensures
        render::attempt_rows(Seq::empty()) == Seq::<char>::empty(),
        render::attempt_rows(rows.push(x)) == render::attempt_rows(rows) + row(
            seq![
                numeral::dec(x.attempt_num as int),
                x.status,
                numeral::dec(x.started_at as int),
                dashed_number(x.finished_at),
                dashed(x.failure_class),
                dashed(x.flow_id),
            ],
        ),
{
    let f = |x: AttemptRec| render::attempt_row(x);
    assert(rows.push(x).map_values(f).drop_last() =~= rows.map_values(f));
    let a = numeral::dec(x.attempt_num as int);
    let c = numeral::dec(x.started_at as int);
    lemma_row6(a, x.status, c, dashed_number(x.finished_at), dashed(x.failure_class), dashed(x.flow_id));
    assert(render::attempt_row(x) =~= row(
        seq![a, x.status, c, dashed_number(x.finished_at), dashed(x.failure_class), dashed(x.flow_id)],
    ));
}

/// An edge is a row of its number, type, attempt, related task and attempt, event and time; in the listing
/// over all tasks its own task stands behind its type, and in a lineage only the two tasks are named.
pub proof fn law_edges_are_rows(rows: Seq<EdgeRec>, x: EdgeRec)
    ensures
        render::edge_rows(Seq::empty()) == Seq::<char>::empty(),
        render::edge_rows(rows.push(x)) == render::edge_rows(rows) + row(
            seq![
                numeral::dec(x.edge_id as int),
                x.edge_type,
                dashed_number(x.attempt_id),
                dashed(x.related_task_id),
                dashed_number(x.related_attempt_id),
                dashed_number(x.spawned_by_event_id),
                numeral::dec(x.created_at as int),
            ],
        ),
        render::recent_edge_rows(Seq::empty()) == Seq::<char>::empty(),
        render::recent_edge_rows(rows.push(x)) == render::recent_edge_rows(rows) + row(
            seq![
                numeral::dec(x.edge_id as int),
                x.edge_type,
                x.task_id,
                dashed_number(x.attempt_id),
                dashed(x.related_task_id),
                dashed_number(x.related_attempt_id),
                dashed_number(x.spawned_by_event_id),
                numeral::dec(x.created_at as int),
            ],
        ),
        render::lineage_edge_rows(Seq::empty()) == Seq::<char>::empty(),
        render::lineage_edge_rows(rows.push(x)) == render::lineage_edge_rows(rows) + row(
            seq![
                numeral::dec(x.edge_id as int),
                x.edge_type,
                x.task_id,
                dashed(x.related_task_id),
                numeral::dec(x.created_at as int),
            ],
        ),
{
    let a = numeral::dec(x.edge_id as int);
    let z = numeral::dec(x.created_at as int);
    let at = dashed_number(x.attempt_id);
    let rt = dashed(x.related_task_id);
    let ra = dashed_number(x.related_attempt_id);
    let ev = dashed_number(x.spawned_by_event_id);
    let f = |x: EdgeRec| render::edge_row(x);
    assert(rows.push(x).map_values(f).drop_last() =~= rows.map_values(f));
    lemma_row6(a, x.edge_type, at, rt, ra, ev);
    lemma_row_next(seq![a, x.edge_type, at, rt, ra, ev], z);
    assert(seq![a, x.edge_type, at, rt, ra, ev].push(z) =~= seq![a, x.edge_type, at, rt, ra, ev, z]);
    assert(render::edge_row(x) =~= row(seq![a, x.edge_type, at, rt, ra, ev, z]));
    let g = |x: EdgeRec| render::recent_edge_row(x);
    assert(rows.push(x).map_values(g).drop_last() =~= rows.map_values(g));
    lemma_row6(a, x.edge_type, x.task_id, at, rt, ra);
    lemma_row_next(seq![a, x.edge_type, x.task_id, at, rt, ra], ev);
    assert(seq![a, x.edge_type, x.task_id, at, rt, ra].push(ev) =~= seq![a, x.edge_type, x.task_id, at, rt, ra, ev]);
    lemma_row_next(seq![a, x.edge_type, x.task_id, at, rt, ra, ev], z);
    assert(seq![a, x.edge_type, x.task_id, at, rt, ra, ev].push(z) =~= seq![a, x.edge_type, x.task_id, at, rt, ra, ev, z]);
    assert(render::recent_edge_row(x) =~= row(seq![a, x.edge_type, x.task_id, at, rt, ra, ev, z]));
    let h = |x: EdgeRec| render::lineage_edge_row(x);
    assert(rows.push(x).map_values(h).drop_last() =~= rows.map_values(h));
    lemma_row5(a, x.edge_type, x.task_id, rt, z);
    assert(render::lineage_edge_row(x) =~= row(seq![a, x.edge_type, x.task_id, rt, z]));
}

/// A text that holds a line with a key and its value.
pub open spec fn tells(t: Text, key: Text, value: Text) -> bool {
    exists|a: Text, b: Text| t == #[trigger] (a + (key + value + "\n"@) + b)
}

/// A text that begins with another.
pub open spec fn leads(s: Text, t: Text) -> bool {
    exists|more: Text| t == #[trigger] (s + more)
}

proof fn lemma_all(t: Text)
    ensures
        leads(t, t),
{
    assert(t =~= t + Seq::<char>::empty());
}

proof fn lemma_line(s: Text, key: Text, value: Text, t: Text)
    requires
        leads(render::line(s, key, value), t),
    ensures
        leads(s, t),
        tells(t, key, value),
{
    let more = choose|more: Text| t == #[trigger] (render::line(s, key, value) + more);
    assert(t =~= s + (key + value + "\n"@ + more));
    assert(t =~= s + (key + value + "\n"@) + more);
}

proof fn lemma_opt_line(s: Text, key: Text, value: Option<Text>, t: Text)
    requires
        leads(render::opt_line(s, key, value), t),
    ensures
        leads(s, t),
        value matches Some(v) ==> tells(t, key, v),
{
    match value {
        Some(v) => lemma_line(s, key, v, t),
        None => {},
    }
}

proof fn lemma_opt_int_line(s: Text, key: Text, value: Option<i64>, t: Text)
    requires
        leads(render::opt_int_line(s, key, value), t),
    ensures
        leads(s, t),
        value matches Some(v) ==> tells(t, key, numeral::dec(v as int)),
{
    match value {
        Some(v) => lemma_line(s, key, numeral::dec(v as int), t),
        None => {},
    }
}

/// The text of a task has a line for each of its columns, under the column's name, and none is mistaken for
/// another; it ends with the number of its events and the events themselves.
pub proof fn law_tasks_are_told_by_column(v: TaskDetail)
    ensures
        tells(render::task_text(v), "task_id="@, v.head.task_id),
        tells(render::task_text(v), "title="@, v.head.title),
        tells(render::task_text(v), "status="@, v.head.status),
        tells(render::task_text(v), "owner_subject_id="@, v.head.owner_subject_id),
        tells(render::task_text(v), "flow_template="@, v.head.flow_template),
        tells(render::task_text(v), "params_json="@, v.head.params_json),
        v.head.latest_result matches Some(x) ==> tells(render::task_text(v), "latest_result="@, x),
        v.head.latest_flow_id matches Some(x) ==> tells(render::task_text(v), "latest_flow_id="@, x),
        v.head.latest_flow_log_path matches Some(x) ==> tells(render::task_text(v), "latest_flow_log_path="@, x),
        v.head.error_kind matches Some(x) ==> tells(render::task_text(v), "error_kind="@, numeral::dec(x as int)),
        v.head.error_cause matches Some(x) ==> tells(render::task_text(v), "error_cause="@, x),
        tells(render::task_text(v), "created_at="@, numeral::dec(v.head.created_at as int)),
        tells(render::task_text(v), "updated_at="@, numeral::dec(v.head.updated_at as int)),
        tells(render::task_text(v), "retry_count="@, numeral::dec(v.head.retry_count as int)),
        tells(render::task_text(v), "retry_policy="@, v.head.retry_policy),
        tells(render::task_text(v), "max_retries="@, numeral::dec(v.head.max_retries as int)),
        v.head.max_runtime_secs matches Some(x) ==> tells(render::task_text(v), "max_runtime_secs="@, numeral::dec(x as int)),
        v.head.last_failure_reason matches Some(x) ==> tells(render::task_text(v), "last_failure_reason="@, x),
        v.head.last_failure_class matches Some(x) ==> tells(render::task_text(v), "last_failure_class="@, x),
        v.head.started_at matches Some(x) ==> tells(render::task_text(v), "started_at="@, numeral::dec(x as int)),
        tells(render::task_text(v), "attempt_count="@, numeral::dec(v.head.attempt_count as int)),
        v.head.current_attempt_id matches Some(x) ==> tells(render::task_text(v), "current_attempt_id="@, numeral::dec(x as int)),
        v.head.investigation_marked_at matches Some(x) ==> tells(render::task_text(v), "investigation_marked_at="@, numeral::dec(x as int)),
        v.head.investigation_reason matches Some(x) ==> tells(render::task_text(v), "investigation_reason="@, x),
        tells(render::task_text(v), "pause_generation="@, numeral::dec(v.head.pause_generation as int)),
        tells(render::task_text(v), "freeze_generation="@, numeral::dec(v.head.freeze_generation as int)),
        v.head.frozen_at matches Some(x) ==> tells(render::task_text(v), "frozen_at="@, numeral::dec(x as int)),
        v.head.frozen_reason matches Some(x) ==> tells(render::task_text(v), "frozen_reason="@, x),
        v.head.origin_surface matches Some(x) ==> tells(render::task_text(v), "origin_surface="@, x),
        tells(render::task_text(v), "event_count="@, numeral::dec(v.events.len() as int)),
        tells(render::task_text(v), "events="@, json::array(render::event_jsons(v.events))),
{
    let h = v.head;
    let s1 = render::line(Seq::<char>::empty(), "task_id="@, h.task_id);
    let s2 = render::line(s1, "title="@, h.title);
    let s3 = render::line(s2, "status="@, h.status);
    let s4 = render::line(s3, "owner_subject_id="@, h.owner_subject_id);
    let s5 = render::line(s4, "flow_template="@, h.flow_template);
    let s6 = render::line(s5, "params_json="@, h.params_json);
    let s7 = render::opt_line(s6, "latest_result="@, h.latest_result);
    let s8 = render::opt_line(s7, "latest_flow_id="@, h.latest_flow_id);
    let s9 = render::opt_line(s8, "latest_flow_log_path="@, h.latest_flow_log_path);
    let s10 = render::opt_int_line(s9, "error_kind="@, h.error_kind);
    let s11 = render::opt_line(s10, "error_cause="@, h.error_cause);
    let s12 = render::line(s11, "created_at="@, numeral::dec(h.created_at as int));
    let s13 = render::line(s12, "updated_at="@, numeral::dec(h.updated_at as int));
    let s14 = render::line(s13, "retry_count="@, numeral::dec(h.retry_count as int));
    let s15 = render::line(s14, "retry_policy="@, h.retry_policy);
    let s16 = render::line(s15, "max_retries="@, numeral::dec(h.max_retries as int));
    let s17 = render::opt_int_line(s16, "max_runtime_secs="@, h.max_runtime_secs);
    let s18 = render::opt_int_line(s17, "started_at="@, h.started_at);
    let s19 = render::opt_line(s18, "last_failure_class="@, h.last_failure_class);
    let s20 = render::opt_line(s19, "last_failure_reason="@, h.last_failure_reason);
    let s21 = render::line(s20, "attempt_count="@, numeral::dec(h.attempt_count as int));
    let s22 = render::opt_int_line(s21, "current_attempt_id="@, h.current_attempt_id);
    let s23 = render::opt_int_line(s22, "investigation_marked_at="@, h.investigation_marked_at);
    let s24 = render::opt_line(s23, "investigation_reason="@, h.investigation_reason);
    let s25 = render::line(s24, "pause_generation="@, numeral::dec(h.pause_generation as int));
    let s26 = render::line(s25, "freeze_generation="@, numeral::dec(h.freeze_generation as int));
    let s27 = render::opt_int_line(s26, "frozen_at="@, h.frozen_at);
    let s28 = render::opt_line(s27, "frozen_reason="@, h.frozen_reason);
    let s29 = render::opt_line(s28, "origin_surface="@, h.origin_surface);
    let s30 = render::line(s29, "event_count="@, numeral::dec(v.events.len() as int));
    let t = render::task_text(v);
    lemma_all(t);
    lemma_line(s30, "events="@, json::array(render::event_jsons(v.events)), t);
    lemma_line(s29, "event_count="@, numeral::dec(v.events.len() as int), t);
    lemma_opt_line(s28, "origin_surface="@, h.origin_surface, t);
    lemma_opt_line(s27, "frozen_reason="@, h.frozen_reason, t);
    lemma_opt_int_line(s26, "frozen_at="@, h.frozen_at, t);
    lemma_line(s25, "freeze_generation="@, numeral::dec(h.freeze_generation as int), t);
    lemma_line(s24, "pause_generation="@, numeral::dec(h.pause_generation as int), t);
    lemma_opt_line(s23, "investigation_reason="@, h.investigation_reason, t);
    lemma_opt_int_line(s22, "investigation_marked_at="@, h.investigation_marked_at, t);
    lemma_opt_int_line(s21, "current_attempt_id="@, h.current_attempt_id, t);
    lemma_line(s20, "attempt_count="@, numeral::dec(h.attempt_count as int), t);
    lemma_opt_line(s19, "last_failure_reason="@, h.last_failure_reason, t);
    lemma_opt_line(s18, "last_failure_class="@, h.last_failure_class, t);
    lemma_opt_int_line(s17, "started_at="@, h.started_at, t);
    lemma_opt_int_line(s16, "max_runtime_secs="@, h.max_runtime_secs, t);
    lemma_line(s15, "max_retries="@, numeral::dec(h.max_retries as int), t);
    lemma_line(s14, "retry_policy="@, h.retry_policy, t);
    lemma_line(s13, "retry_count="@, numeral::dec(h.retry_count as int), t);
    lemma_line(s12, "updated_at="@, numeral::dec(h.updated_at as int), t);
    lemma_line(s11, "created_at="@, numeral::dec(h.created_at as int), t);
    lemma_opt_line(s10, "error_cause="@, h.error_cause, t);
    lemma_opt_int_line(s9, "error_kind="@, h.error_kind, t);
    lemma_opt_line(s8, "latest_flow_log_path="@, h.latest_flow_log_path, t);
    lemma_opt_line(s7, "latest_flow_id="@, h.latest_flow_id, t);
    lemma_opt_line(s6, "latest_result="@, h.latest_result, t);
    lemma_line(s5, "params_json="@, h.params_json, t);
    lemma_line(s4, "flow_template="@, h.flow_template, t);
    lemma_line(s3, "owner_subject_id="@, h.owner_subject_id, t);
    lemma_line(s2, "status="@, h.status, t);
    lemma_line(s1, "title="@, h.title, t);
    lemma_line(Seq::<char>::empty(), "task_id="@, h.task_id, t);
}

/// The text of subtree metrics has a line for each of them, under its name.
pub proof fn law_metrics_are_told_by_name(m: SubtreeMetrics)
    ensures
        tells(render::metrics_text(m), "root="@, m.root_task_id@),
        tells(render::metrics_text(m), "total_tasks="@, numeral::dec(m.total_tasks as int)),
        tells(render::metrics_text(m), "cross_task_edges="@, numeral::dec(m.cross_task_edge_count as int)),
        tells(render::metrics_text(m), "terminal_completed="@, numeral::dec(m.terminal_completed as int)),
        tells(render::metrics_text(m), "terminal_failed="@, numeral::dec(m.terminal_failed as int)),
        tells(render::metrics_text(m), "terminal_cancelled="@, numeral::dec(m.terminal_cancelled as int)),
        tells(render::metrics_text(m), "active_pending="@, numeral::dec(m.active_pending as int)),
        tells(render::metrics_text(m), "active_running="@, numeral::dec(m.active_running as int)),
        tells(render::metrics_text(m), "active_retrying="@, numeral::dec(m.active_retrying as int)),
        tells(render::metrics_text(m), "active_paused="@, numeral::dec(m.active_paused as int)),
        tells(render::metrics_text(m), "active_frozen="@, numeral::dec(m.active_frozen as int)),
        tells(render::metrics_text(m), "active_interrupted="@, numeral::dec(m.active_interrupted as int)),
        tells(render::metrics_text(m), "active_awaiting_input="@, numeral::dec(m.active_awaiting_input as int)),
        tells(render::metrics_text(m), "other_status="@, numeral::dec(m.other_status as int)),
        tells(render::metrics_text(m), "total_attempts="@, numeral::dec(m.total_attempts as int)),
        tells(render::metrics_text(m), "total_wall_clock_secs="@, numeral::dec(m.total_wall_clock_secs as int)),
        m.oldest_started_at matches Some(x) ==> tells(render::metrics_text(m), "oldest_started_at="@, numeral::dec(x as int)),
        m.newest_updated_at matches Some(x) ==> tells(render::metrics_text(m), "newest_updated_at="@, numeral::dec(x as int)),
        tells(render::metrics_text(m), "tasks_with_missing_timing="@, numeral::dec(m.tasks_with_missing_timing as int)),
        tells(render::metrics_text(m), "max_depth="@, numeral::dec(m.max_depth_walked as int)),
{
    let s1 = render::line(Seq::<char>::empty(), "root="@, m.root_task_id@);
    let s2 = render::line(s1, "total_tasks="@, numeral::dec(m.total_tasks as int));
    let s3 = render::line(s2, "cross_task_edges="@, numeral::dec(m.cross_task_edge_count as int));
    let s4 = render::line(s3, "max_depth="@, numeral::dec(m.max_depth_walked as int));
    let s5 = render::line(s4, "terminal_completed="@, numeral::dec(m.terminal_completed as int));
    let s6 = render::line(s5, "terminal_failed="@, numeral::dec(m.terminal_failed as int));
    let s7 = render::line(s6, "terminal_cancelled="@, numeral::dec(m.terminal_cancelled as int));
    let s8 = render::line(s7, "active_pending="@, numeral::dec(m.active_pending as int));
    let s9 = render::line(s8, "active_running="@, numeral::dec(m.active_running as int));
    let s10 = render::line(s9, "active_retrying="@, numeral::dec(m.active_retrying as int));
    let s11 = render::line(s10, "active_paused="@, numeral::dec(m.active_paused as int));
    let s12 = render::line(s11, "active_frozen="@, numeral::dec(m.active_frozen as int));
    let s13 = render::line(s12, "active_interrupted="@, numeral::dec(m.active_interrupted as int));
    let s14 = render::line(s13, "active_awaiting_input="@, numeral::dec(m.active_awaiting_input as int));
    let s15 = render::line(s14, "other_status="@, numeral::dec(m.other_status as int));
    let s16 = render::line(s15, "total_attempts="@, numeral::dec(m.total_attempts as int));
    let s17 = render::line(s16, "total_wall_clock_secs="@, numeral::dec(m.total_wall_clock_secs as int));
    let s18 = render::opt_int_line(s17, "oldest_started_at="@, m.oldest_started_at);
    let s19 = render::opt_int_line(s18, "newest_updated_at="@, m.newest_updated_at);
    let s20 = render::line(s19, "tasks_with_missing_timing="@, numeral::dec(m.tasks_with_missing_timing as int));
    let t = render::metrics_text(m);
    lemma_all(t);
    lemma_line(s19, "tasks_with_missing_timing="@, numeral::dec(m.tasks_with_missing_timing as int), t);
    lemma_opt_int_line(s18, "newest_updated_at="@, m.newest_updated_at, t);
    lemma_opt_int_line(s17, "oldest_started_at="@, m.oldest_started_at, t);
    lemma_line(s16, "total_wall_clock_secs="@, numeral::dec(m.total_wall_clock_secs as int), t);
    lemma_line(s15, "total_attempts="@, numeral::dec(m.total_attempts as int), t);
    lemma_line(s14, "other_status="@, numeral::dec(m.other_status as int), t);
    lemma_line(s13, "active_awaiting_input="@, numeral::dec(m.active_awaiting_input as int), t);
    lemma_line(s12, "active_interrupted="@, numeral::dec(m.active_interrupted as int), t);
    lemma_line(s11, "active_frozen="@, numeral::dec(m.active_frozen as int), t);
    lemma_line(s10, "active_paused="@, numeral::dec(m.active_paused as int), t);
    lemma_line(s9, "active_retrying="@, numeral::dec(m.active_retrying as int), t);
    lemma_line(s8, "active_running="@, numeral::dec(m.active_running as int), t);
    lemma_line(s7, "active_pending="@, numeral::dec(m.active_pending as int), t);
    lemma_line(s6, "terminal_cancelled="@, numeral::dec(m.terminal_cancelled as int), t);
    lemma_line(s5, "terminal_failed="@, numeral::dec(m.terminal_failed as int), t);
    lemma_line(s4, "terminal_completed="@, numeral::dec(m.terminal_completed as int), t);
    lemma_line(s3, "max_depth="@, numeral::dec(m.max_depth_walked as int), t);
    lemma_line(s2, "cross_task_edges="@, numeral::dec(m.cross_task_edge_count as int), t);
    lemma_line(s1, "total_tasks="@, numeral::dec(m.total_tasks as int), t);
    lemma_line(Seq::<char>::empty(), "root="@, m.root_task_id@, t);
}

/// The text of a lineage names its root and tasks, tells how many edges cross between tasks and how deep
/// it reaches, and ends with the edges.
pub proof fn law_lineages_are_told(g: LineageRec)
    ensures
        render::lineage_text(g) == "root="@ + g.root_task_id + "\n"@ + "tasks="@ + text::joined(g.tasks, ","@) + "\n"@
            + "cross_task_edges="@ + numeral::dec(g.cross_task_edge_count) + "\n"@ + "max_depth="@ + numeral::dec(
            g.max_depth_walked,
        ) + "\n"@ + render::lineage_edge_rows(g.edges),
{
    assert(Seq::<char>::empty() + "root="@ =~= "root="@);
}

/// An object that has a member of a given name and value.
pub open spec fn has_member(t: Text, name: Text, value: Text) -> bool {
    exists|ms: Seq<(Text, Text)>| t == #[trigger] json::object(ms) && ms.contains((name, value))
}

proof fn lemma_value(m: Seq<(Text, Text)>, name: Text, value: Text, all: Seq<(Text, Text)>)
    requires
        json::with_value(m, name, value).is_prefix_of(all),
    ensures
        m.is_prefix_of(all),
        all.contains((name, value)),
{
    let n = m.push((name, value));
    assert(n[m.len() as int] == (name, value));
    assert(all[m.len() as int] == n[m.len() as int]);
    assert(m =~= all.subrange(0, m.len() as int)) by {
        assert forall|k: int| 0 <= k < m.len() implies m[k] == all[k] by {
            assert(n[k] == all.subrange(0, n.len() as int)[k]);
        }
    }
}

proof fn lemma_text(m: Seq<(Text, Text)>, name: Text, value: Text, all: Seq<(Text, Text)>)
    requires
        json::with_text(m, name, value).is_prefix_of(all),
    ensures
        m.is_prefix_of(all),
        all.contains((name, json::string(value))),
{
    lemma_value(m, name, json::string(value), all);
}

proof fn lemma_number(m: Seq<(Text, Text)>, name: Text, value: int, all: Seq<(Text, Text)>)
    requires
        json::with_number(m, name, value).is_prefix_of(all),
    ensures
        m.is_prefix_of(all),
        all.contains((name, numeral::dec(value))),
{
    lemma_value(m, name, numeral::dec(value), all);
}

proof fn lemma_text_opt(m: Seq<(Text, Text)>, name: Text, value: Option<Text>, all: Seq<(Text, Text)>)
    requires
        json::with_text_opt(m, name, value).is_prefix_of(all),
    ensures
        m.is_prefix_of(all),
        value matches Some(v) ==> all.contains((name, json::string(v))),
{
    match value {
        Some(v) => lemma_text(m, name, v, all),
        None => {},
    }
}

proof fn lemma_number_opt(m: Seq<(Text, Text)>, name: Text, value: Option<i64>, all: Seq<(Text, Text)>)
    requires
        json::with_number_opt(m, name, value).is_prefix_of(all),
    ensures
        m.is_prefix_of(all),
        value matches Some(v) ==> all.contains((name, numeral::dec(v as int))),
{
    match value {
        Some(v) => lemma_number(m, name, v as int, all),
        None => {},
    }
}

/// The object of an attempt has a member for each of its columns, under the column's name.
pub proof fn law_attempts_are_told_by_column(a: AttemptRec)
    ensures
        has_member(render::attempt_json(a), "attempt_id"@, numeral::dec(a.attempt_id as int)),
        has_member(render::attempt_json(a), "attempt_num"@, numeral::dec(a.attempt_num as int)),
        has_member(render::attempt_json(a), "started_at"@, numeral::dec(a.started_at as int)),
        a.finished_at matches Some(x) ==> has_member(render::attempt_json(a), "finished_at"@, numeral::dec(x as int)),
        has_member(render::attempt_json(a), "status"@, json::string(a.status)),
        a.flow_id matches Some(x) ==> has_member(render::attempt_json(a), "flow_id"@, json::string(x)),
        a.flow_log_path matches Some(x) ==> has_member(render::attempt_json(a), "flow_log_path"@, json::string(x)),
        a.trace_id matches Some(x) ==> has_member(render::attempt_json(a), "trace_id"@, json::string(x)),
        a.error_kind matches Some(x) ==> has_member(render::attempt_json(a), "error_kind"@, numeral::dec(x as int)),
        a.error_cause matches Some(x) ==> has_member(render::attempt_json(a), "error_cause"@, json::string(x)),
        a.failure_class matches Some(x) ==> has_member(render::attempt_json(a), "failure_class"@, json::string(x)),
{
    let m1 = json::with_number(Seq::<(Text, Text)>::empty(), "attempt_id"@, a.attempt_id as int);
    let m2 = json::with_number(m1, "attempt_num"@, a.attempt_num as int);
    let m3 = json::with_number(m2, "started_at"@, a.started_at as int);
    let m4 = json::with_text(m3, "status"@, a.status);
    let m5 = json::with_number_opt(m4, "finished_at"@, a.finished_at);
    let m6 = json::with_text_opt(m5, "flow_id"@, a.flow_id);
    let m7 = json::with_text_opt(m6, "flow_log_path"@, a.flow_log_path);
    let m8 = json::with_text_opt(m7, "trace_id"@, a.trace_id);
    let m9 = json::with_number_opt(m8, "error_kind"@, a.error_kind);
    let m10 = json::with_text_opt(m9, "error_cause"@, a.error_cause);
    let m11 = json::with_text_opt(m10, "failure_class"@, a.failure_class);
    assert(m11.is_prefix_of(m11));
    lemma_text_opt(m10, "failure_class"@, a.failure_class, m11);
    lemma_text_opt(m9, "error_cause"@, a.error_cause, m11);
    lemma_number_opt(m8, "error_kind"@, a.error_kind, m11);
    lemma_text_opt(m7, "trace_id"@, a.trace_id, m11);
    lemma_text_opt(m6, "flow_log_path"@, a.flow_log_path, m11);
    lemma_text_opt(m5, "flow_id"@, a.flow_id, m11);
    lemma_number_opt(m4, "finished_at"@, a.finished_at, m11);
    lemma_text(m3, "status"@, a.status, m11);
    lemma_number(m2, "started_at"@, a.started_at as int, m11);
    lemma_number(m1, "attempt_num"@, a.attempt_num as int, m11);
    lemma_number(Seq::<(Text, Text)>::empty(), "attempt_id"@, a.attempt_id as int, m11);
    assert(render::attempt_json(a) == json::object(m11));
}

/// The object of an exported task has a member for each of its columns, under the column's name, and one for
/// its events.
pub proof fn law_exported_tasks_are_told_by_column(v: TaskDetail)
    ensures
        has_member(json::object(render::task_members(v)), "title"@, json::string(v.head.title)),
        has_member(json::object(render::task_members(v)), "status"@, json::string(v.head.status)),
        has_member(json::object(render::task_members(v)), "owner_subject_id"@, json::string(v.head.owner_subject_id)),
        has_member(json::object(render::task_members(v)), "flow_template"@, json::string(v.head.flow_template)),
        has_member(json::object(render::task_members(v)), "params_json"@, json::string(v.head.params_json)),
        v.head.latest_result matches Some(x) ==> has_member(json::object(render::task_members(v)), "latest_result"@, json::string(x)),
        v.head.latest_flow_id matches Some(x) ==> has_member(json::object(render::task_members(v)), "latest_flow_id"@, json::string(x)),
        v.head.latest_flow_log_path matches Some(x) ==> has_member(json::object(render::task_members(v)), "latest_flow_log_path"@, json::string(x)),
        v.head.error_kind matches Some(x) ==> has_member(json::object(render::task_members(v)), "error_kind"@, numeral::dec(x as int)),
        v.head.error_cause matches Some(x) ==> has_member(json::object(render::task_members(v)), "error_cause"@, json::string(x)),
        has_member(json::object(render::task_members(v)), "created_at"@, numeral::dec(v.head.created_at as int)),
        has_member(json::object(render::task_members(v)), "updated_at"@, numeral::dec(v.head.updated_at as int)),
        has_member(json::object(render::task_members(v)), "retry_count"@, numeral::dec(v.head.retry_count as int)),
        has_member(json::object(render::task_members(v)), "retry_policy"@, json::string(v.head.retry_policy)),
        has_member(json::object(render::task_members(v)), "max_retries"@, numeral::dec(v.head.max_retries as int)),
        v.head.max_runtime_secs matches Some(x) ==> has_member(json::object(render::task_members(v)), "max_runtime_secs"@, numeral::dec(x as int)),
        v.head.last_failure_reason matches Some(x) ==> has_member(json::object(render::task_members(v)), "last_failure_reason"@, json::string(x)),
        v.head.last_failure_class matches Some(x) ==> has_member(json::object(render::task_members(v)), "last_failure_class"@, json::string(x)),
        v.head.started_at matches Some(x) ==> has_member(json::object(render::task_members(v)), "started_at"@, numeral::dec(x as int)),
        has_member(json::object(render::task_members(v)), "attempt_count"@, numeral::dec(v.head.attempt_count as int)),
        v.head.current_attempt_id matches Some(x) ==> has_member(json::object(render::task_members(v)), "current_attempt_id"@, numeral::dec(x as int)),
        v.head.investigation_marked_at matches Some(x) ==> has_member(json::object(render::task_members(v)), "investigation_marked_at"@, numeral::dec(x as int)),
        v.head.investigation_reason matches Some(x) ==> has_member(json::object(render::task_members(v)), "investigation_reason"@, json::string(x)),
        has_member(json::object(render::task_members(v)), "pause_generation"@, numeral::dec(v.head.pause_generation as int)),
        has_member(json::object(render::task_members(v)), "freeze_generation"@, numeral::dec(v.head.freeze_generation as int)),
        v.head.frozen_at matches Some(x) ==> has_member(json::object(render::task_members(v)), "frozen_at"@, numeral::dec(x as int)),
        v.head.frozen_reason matches Some(x) ==> has_member(json::object(render::task_members(v)), "frozen_reason"@, json::string(x)),
        v.head.origin_surface matches Some(x) ==> has_member(json::object(render::task_members(v)), "origin_surface"@, json::string(x)),
        has_member(json::object(render::task_members(v)), "events"@, json::array(render::event_jsons(v.events))),
{
    let h = v.head;
    let m1 = json::with_text(Seq::<(Text, Text)>::empty(), "title"@, h.title);
    let m2 = json::with_text(m1, "status"@, h.status);
    let m3 = json::with_text(m2, "owner_subject_id"@, h.owner_subject_id);
    let m4 = json::with_text(m3, "flow_template"@, h.flow_template);
    let m5 = json::with_text(m4, "params_json"@, h.params_json);
    let m6 = json::with_text_opt(m5, "latest_result"@, h.latest_result);
    let m7 = json::with_text_opt(m6, "latest_flow_id"@, h.latest_flow_id);
    let m8 = json::with_text_opt(m7, "latest_flow_log_path"@, h.latest_flow_log_path);
    let m9 = json::with_number_opt(m8, "error_kind"@, h.error_kind);
    let m10 = json::with_text_opt(m9, "error_cause"@, h.error_cause);
    let m11 = json::with_number(m10, "created_at"@, h.created_at as int);
    let m12 = json::with_number(m11, "updated_at"@, h.updated_at as int);
    let m13 = json::with_number(m12, "retry_count"@, h.retry_count as int);
    let m14 = json::with_text(m13, "retry_policy"@, h.retry_policy);
    let m15 = json::with_number(m14, "max_retries"@, h.max_retries as int);
    let m16 = json::with_number_opt(m15, "max_runtime_secs"@, h.max_runtime_secs);
    let m17 = json::with_text_opt(m16, "last_failure_reason"@, h.last_failure_reason);
    let m18 = json::with_text_opt(m17, "last_failure_class"@, h.last_failure_class);
    let m19 = json::with_number_opt(m18, "started_at"@, h.started_at);
    let m20 = json::with_number(m19, "attempt_count"@, h.attempt_count as int);
    let m21 = json::with_number_opt(m20, "current_attempt_id"@, h.current_attempt_id);
    let m22 = json::with_number_opt(m21, "investigation_marked_at"@, h.investigation_marked_at);
    let m23 = json::with_text_opt(m22, "investigation_reason"@, h.investigation_reason);
    let m24 = json::with_number(m23, "pause_generation"@, h.pause_generation as int);
    let m25 = json::with_number(m24, "freeze_generation"@, h.freeze_generation as int);
    let m26 = json::with_number_opt(m25, "frozen_at"@, h.frozen_at);
    let m27 = json::with_text_opt(m26, "frozen_reason"@, h.frozen_reason);
    let m28 = json::with_text_opt(m27, "origin_surface"@, h.origin_surface);
    let m29 = json::with_value(m28, "events"@, json::array(render::event_jsons(v.events)));
    assert(m29.is_prefix_of(m29));
    lemma_value(m28, "events"@, json::array(render::event_jsons(v.events)), m29);
    lemma_text_opt(m27, "origin_surface"@, h.origin_surface, m29);
    lemma_text_opt(m26, "frozen_reason"@, h.frozen_reason, m29);
    lemma_number_opt(m25, "frozen_at"@, h.frozen_at, m29);
    lemma_number(m24, "freeze_generation"@, h.freeze_generation as int, m29);
    lemma_number(m23, "pause_generation"@, h.pause_generation as int, m29);
    lemma_text_opt(m22, "investigation_reason"@, h.investigation_reason, m29);
    lemma_number_opt(m21, "investigation_marked_at"@, h.investigation_marked_at, m29);
    lemma_number_opt(m20, "current_attempt_id"@, h.current_attempt_id, m29);
    lemma_number(m19, "attempt_count"@, h.attempt_count as int, m29);
    lemma_number_opt(m18, "started_at"@, h.started_at, m29);
    lemma_text_opt(m17, "last_failure_class"@, h.last_failure_class, m29);
    lemma_text_opt(m16, "last_failure_reason"@, h.last_failure_reason, m29);
    lemma_number_opt(m15, "max_runtime_secs"@, h.max_runtime_secs, m29);
    lemma_number(m14, "max_retries"@, h.max_retries as int, m29);
    lemma_text(m13, "retry_policy"@, h.retry_policy, m29);
    lemma_number(m12, "retry_count"@, h.retry_count as int, m29);
    lemma_number(m11, "updated_at"@, h.updated_at as int, m29);
    lemma_number(m10, "created_at"@, h.created_at as int, m29);
    lemma_text_opt(m9, "error_cause"@, h.error_cause, m29);
    lemma_number_opt(m8, "error_kind"@, h.error_kind, m29);
    lemma_text_opt(m7, "latest_flow_log_path"@, h.latest_flow_log_path, m29);
    lemma_text_opt(m6, "latest_flow_id"@, h.latest_flow_id, m29);
    lemma_text_opt(m5, "latest_result"@, h.latest_result, m29);
    lemma_text(m4, "params_json"@, h.params_json, m29);
    lemma_text(m3, "flow_template"@, h.flow_template, m29);
    lemma_text(m2, "owner_subject_id"@, h.owner_subject_id, m29);
    lemma_text(m1, "status"@, h.status, m29);
    lemma_text(Seq::<(Text, Text)>::empty(), "title"@, h.title, m29);
    assert(render::task_members(v) == m29);
}

/// An archival snapshot tells its version and time, the task's id, the task and the attempts.
pub proof fn law_exports_are_told(e: ExportRec)
    ensures
        has_member(render::export_json(e), "schema_version"@, numeral::dec(e.schema_version as int)),
        has_member(render::export_json(e), "exported_at"@, numeral::dec(e.exported_at as int)),
        has_member(render::export_json(e), "task_id"@, json::string(e.task_id)),
        has_member(render::export_json(e), "task"@, json::object(render::task_members(e.view))),
        has_member(render::export_json(e), "attempts"@, json::array(render::attempt_jsons(e.attempts))),
{
    let m1 = json::with_number(Seq::<(Text, Text)>::empty(), "schema_version"@, e.schema_version as int);
    let m2 = json::with_number(m1, "exported_at"@, e.exported_at as int);
    let m3 = json::with_text(m2, "task_id"@, e.task_id);
    let m4 = json::with_value(m3, "task"@, json::object(render::task_members(e.view)));
    let m5 = json::with_value(m4, "attempts"@, json::array(render::attempt_jsons(e.attempts)));
    assert(m5.is_prefix_of(m5));
    lemma_value(m4, "attempts"@, json::array(render::attempt_jsons(e.attempts)), m5);
    lemma_value(m3, "task"@, json::object(render::task_members(e.view)), m5);
    lemma_text(m2, "task_id"@, e.task_id, m5);
    lemma_number(m1, "exported_at"@, e.exported_at as int, m5);
    lemma_number(Seq::<(Text, Text)>::empty(), "schema_version"@, e.schema_version as int, m5);
    assert(render::export_json(e) == json::object(m5));
}

/// A retention report tells that nothing was destroyed, and each of its counts and times under its name.
pub proof fn law_retention_reports_are_told(c: CompactRec, mode: Text)
    ensures
        has_member(render::compact_json(c, mode), "mode"@, json::string(mode)),
        has_member(render::compact_json(c, mode), "destructive"@, "false"@),
        has_member(render::compact_json(c, mode), "cutoff_ts"@, numeral::dec(c.cutoff_ts as int)),
        has_member(render::compact_json(c, mode), "candidate_events"@, numeral::dec(c.candidate_events as int)),
        has_member(render::compact_json(c, mode), "candidate_tasks"@, numeral::dec(c.candidate_tasks as int)),
        c.oldest_candidate_ts matches Some(x) ==> has_member(
            render::compact_json(c, mode),
            "oldest_candidate_ts"@,
            numeral::dec(x as int),
        ),
        c.newest_candidate_ts matches Some(x) ==> has_member(
            render::compact_json(c, mode),
            "newest_candidate_ts"@,
            numeral::dec(x as int),
        ),
        has_member(
            render::compact_json(c, mode),
            "by_task_status"@,
            json::object(
                c.by_task_status.map_values(|p: (Text, i64)| (text::escaped(p.0), numeral::dec(p.1 as int))),
            ),
        ),
{
    let m1 = json::with_text(Seq::<(Text, Text)>::empty(), "mode"@, mode);
    let m2 = json::with_value(m1, "destructive"@, "false"@);
    let m3 = json::with_number(m2, "cutoff_ts"@, c.cutoff_ts as int);
    let m4 = json::with_number(m3, "candidate_events"@, c.candidate_events as int);
    let m5 = json::with_number(m4, "candidate_tasks"@, c.candidate_tasks as int);
    let m6 = json::with_number_opt(m5, "oldest_candidate_ts"@, c.oldest_candidate_ts);
    let m7 = json::with_number_opt(m6, "newest_candidate_ts"@, c.newest_candidate_ts);
    let m8 = json::with_value(m7, "by_task_status"@, json::object(render::count_members(c.by_task_status)));
    assert(m8.is_prefix_of(m8));
    lemma_value(m7, "by_task_status"@, json::object(render::count_members(c.by_task_status)), m8);
    lemma_number_opt(m6, "newest_candidate_ts"@, c.newest_candidate_ts, m8);
    lemma_number_opt(m5, "oldest_candidate_ts"@, c.oldest_candidate_ts, m8);
    lemma_number(m4, "candidate_tasks"@, c.candidate_tasks as int, m8);
    lemma_number(m3, "candidate_events"@, c.candidate_events as int, m8);
    lemma_number(m2, "cutoff_ts"@, c.cutoff_ts as int, m8);
    lemma_value(m1, "destructive"@, "false"@, m8);
    lemma_text(Seq::<(Text, Text)>::empty(), "mode"@, mode, m8);
    assert(render::compact_json(c, mode) == json::object(m8));
}

/// The object of an event has its number, time, type and payload, and what else it has, each under its
/// name; in a listing over all tasks the task's id stands in front.
pub proof fn law_events_are_told_by_column(x: OwnedEvent)
    ensures
        event_told(render::event_json(x.event), x.event),
        exists|t: Text| #[trigger] event_told(t, x.event) && has_member(t, "task_id"@, json::string(x.task_id))
            && reads::owned_event_line(x) == t + "\n"@,
{
    lemma_event(Seq::empty(), x.event);
    let m = json::with_text(Seq::empty(), "task_id"@, x.task_id);
    lemma_event(m, x.event);
    let all = render::event_members(m, x.event);
    lemma_text(Seq::empty(), "task_id"@, x.task_id, all);
    let t = json::object(all);
    assert(event_told(t, x.event) && has_member(t, "task_id"@, json::string(x.task_id)));
}

/// What the object of an event tells.
pub open spec fn event_told(t: Text, e: EventRec) -> bool {
    &&& has_member(t, "id"@, numeral::dec(e.event_id as int))
    &&& has_member(t, "ts"@, numeral::dec(e.ts as int))
    &&& has_member(t, "type"@, json::string(e.event_type))
    &&& has_member(t, "payload"@, json::string(e.payload))
    &&& e.schema_version != 0 ==> has_member(t, "schema_version"@, numeral::dec(e.schema_version as int))
    &&& e.attempt_id matches Some(a) ==> has_member(t, "attempt_id"@, numeral::dec(a as int))
    &&& e.trace_id matches Some(x) ==> has_member(t, "trace_id"@, json::string(x))
    &&& e.payload_json matches Some(x) ==> has_member(t, "payload_json"@, x)
}

proof fn lemma_event(m: Seq<(Text, Text)>, e: EventRec)
    ensures
        event_told(json::object(render::event_members(m, e)), e),
        m.is_prefix_of(render::event_members(m, e)),
{
    let all = render::event_members(m, e);
    let m1 = json::with_number(m, "id"@, e.event_id as int);
    let m2 = json::with_number(m1, "ts"@, e.ts as int);
    let m3 = json::with_text(m2, "type"@, e.event_type);
    let m4 = json::with_text(m3, "payload"@, e.payload);
    let m5 = if e.schema_version != 0 {
        json::with_number(m4, "schema_version"@, e.schema_version as int)
    } else {
        m4
    };
    let m6 = json::with_number_opt(m5, "attempt_id"@, e.attempt_id);
    let m7 = json::with_text_opt(m6, "trace_id"@, e.trace_id);
    assert(all.is_prefix_of(all));
    match e.payload_json {
        Some(x) => lemma_value(m7, "payload_json"@, x, all),
        None => {},
    }
    lemma_text_opt(m6, "trace_id"@, e.trace_id, all);
    lemma_number_opt(m5, "attempt_id"@, e.attempt_id, all);
    if e.schema_version != 0 {
        lemma_number(m4, "schema_version"@, e.schema_version as int, all);
    }
    lemma_text(m3, "payload"@, e.payload, all);
    lemma_text(m2, "type"@, e.event_type, all);
    lemma_number(m1, "ts"@, e.ts as int, all);
    lemma_number(m, "id"@, e.event_id as int, all);
}

} // verus!
