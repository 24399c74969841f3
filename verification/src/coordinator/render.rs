//! How tasks, events and reports are written out.
use vstd::prelude::*;
use crate::coordinator::compact::CompactRec;
use crate::coordinator::lineage;
use crate::coordinator::model::{
    self, AttemptRec, AttemptView, CompactDryRun, EdgeRec, EventRec, ExportRec, StuckRec, StuckTaskRow, SubtreeMetrics,
    SummaryRec, TaskDetail, TaskEdge, TaskEvent, TaskExport, TaskSummary, TaskView, TodoItem, TodoRec,
};
use crate::json;
use crate::numeral;
use crate::text::{self, Text};

verus! {

/// A text with one more line: a key and a value.
pub open spec fn line(s: Text, key: Text, value: Text) -> Text {
    s + key + value + "\n"@
}

/// The same, where there is a value.
pub open spec fn opt_line(s: Text, key: Text, value: Option<Text>) -> Text {
    match value {
        Some(v) => line(s, key, v),
        None => s,
    }
}

/// The same of a number.
pub open spec fn opt_int_line(s: Text, key: Text, value: Option<i64>) -> Text {
    match value {
        Some(v) => line(s, key, numeral::dec(v as int)),
        None => s,
    }
}

fn put_line(s: &mut String, key: &str, value: &str)
    ensures
        final(s)@ == line(old(s)@, key@, value@),
{
    s.append(key);
    s.append(value);
    s.append("\n");
}

fn put_int_line(s: &mut String, key: &str, value: i64)
    ensures
        final(s)@ == line(old(s)@, key@, numeral::dec(value as int)),
{
    s.append(key);
    numeral::push_i64(s, value);
    s.append("\n");
}

fn put_opt_line(s: &mut String, key: &str, value: &Option<String>)
    ensures
        final(s)@ == opt_line(old(s)@, key@, text::opt_text(*value)),
{
    if let Some(v) = value {
        put_line(s, key, v.as_str());
    }
}

fn put_opt_int_line(s: &mut String, key: &str, value: Option<i64>)
    ensures
        final(s)@ == opt_int_line(old(s)@, key@, value),
{
    if let Some(v) = value {
        put_int_line(s, key, v);
    }
}

/// Members with those of an event. The typed ones are left out where they are empty.
pub open spec fn event_members(m: Seq<(Text, Text)>, e: EventRec) -> Seq<(Text, Text)> {
    let m = json::with_number(m, "id"@, e.event_id as int);
    let m = json::with_number(m, "ts"@, e.ts as int);
    let m = json::with_text(m, "type"@, e.event_type);
    let m = json::with_text(m, "payload"@, e.payload);
    let m = if e.schema_version != 0 {
        json::with_number(m, "schema_version"@, e.schema_version as int)
    } else {
        m
    };
    let m = json::with_number_opt(m, "attempt_id"@, e.attempt_id);
    let m = json::with_text_opt(m, "trace_id"@, e.trace_id);
    match e.payload_json {
        Some(pj) => json::with_value(m, "payload_json"@, pj),
        None => m,
    }
}

/// One event as a JSON object.
pub open spec fn event_json(e: EventRec) -> Text {
    json::object(event_members(Seq::empty(), e))
}

/// Adds the members of an event.
pub(crate) fn put_event_members(m: &mut json::Members, ev: &TaskEvent)
    ensures
        final(m)@ == event_members(old(m)@, ev@),
{
    m.number("id", ev.event_id as i128);
    m.number("ts", ev.ts as i128);
    m.text("type", ev.event_type.as_str());
    m.text("payload", ev.payload.as_str());
    if ev.schema_version != 0 {
        m.number("schema_version", ev.schema_version as i128);
    }
    m.number_opt("attempt_id", ev.attempt_id);
    m.text_opt("trace_id", text::slice_opt(&ev.trace_id));
    if let Some(pj) = &ev.payload_json {
        m.value("payload_json", pj.clone());
    }
}

/// One event as a JSON object.
pub fn render_event_json(ev: &TaskEvent) -> (r: String)
    ensures
        r@ == event_json(ev@),
{
    let mut m = json::Members::new();
    put_event_members(&mut m, ev);
    m.object()
}

/// Events as JSON objects.
pub open spec fn event_jsons(events: Seq<EventRec>) -> Seq<Text> {
    events.map_values(|e: EventRec| event_json(e))
}

fn event_strings(events: &Vec<TaskEvent>) -> (r: Vec<String>)
    ensures
        text::texts(r@) == event_jsons(model::views(events@)),
{
    let mut out: Vec<String> = Vec::new();
    let mut i: usize = 0;
    let ghost all = event_jsons(model::views(events@));
    while i < events.len()
        invariant
            i <= events@.len(),
            all == event_jsons(model::views(events@)),
            out@.len() == i,
            forall|k: int| 0 <= k < i ==> (#[trigger] out@[k])@ == all[k],
        decreases events@.len() - i,
    {
        assert(all[i as int] == event_json(events@[i as int]@));
        out.push(render_event_json(&events[i]));
        i = i + 1;
    }
    assert(text::texts(out@) =~= all);
    out
}

/// A task as `key=value` lines, followed by its events as a JSON array.
pub open spec fn task_text(v: TaskDetail) -> Text {
    let h = v.head;
    let s = Seq::empty();
    let s = line(s, "task_id="@, h.task_id);
    let s = line(s, "title="@, h.title);
    let s = line(s, "status="@, h.status);
    let s = line(s, "owner_subject_id="@, h.owner_subject_id);
    let s = line(s, "flow_template="@, h.flow_template);
    let s = line(s, "params_json="@, h.params_json);
    let s = opt_line(s, "latest_result="@, h.latest_result);
    let s = opt_line(s, "latest_flow_id="@, h.latest_flow_id);
    let s = opt_line(s, "latest_flow_log_path="@, h.latest_flow_log_path);
    let s = opt_int_line(s, "error_kind="@, h.error_kind);
    let s = opt_line(s, "error_cause="@, h.error_cause);
    let s = line(s, "created_at="@, numeral::dec(h.created_at as int));
    let s = line(s, "updated_at="@, numeral::dec(h.updated_at as int));
    let s = line(s, "retry_count="@, numeral::dec(h.retry_count as int));
    let s = line(s, "retry_policy="@, h.retry_policy);
    let s = line(s, "max_retries="@, numeral::dec(h.max_retries as int));
    let s = opt_int_line(s, "max_runtime_secs="@, h.max_runtime_secs);
    let s = opt_int_line(s, "started_at="@, h.started_at);
    let s = opt_line(s, "last_failure_class="@, h.last_failure_class);
    let s = opt_line(s, "last_failure_reason="@, h.last_failure_reason);
    let s = line(s, "attempt_count="@, numeral::dec(h.attempt_count as int));
    let s = opt_int_line(s, "current_attempt_id="@, h.current_attempt_id);
    let s = opt_int_line(s, "investigation_marked_at="@, h.investigation_marked_at);
    let s = opt_line(s, "investigation_reason="@, h.investigation_reason);
    let s = line(s, "pause_generation="@, numeral::dec(h.pause_generation as int));
    let s = line(s, "freeze_generation="@, numeral::dec(h.freeze_generation as int));
    let s = opt_int_line(s, "frozen_at="@, h.frozen_at);
    let s = opt_line(s, "frozen_reason="@, h.frozen_reason);
    let s = opt_line(s, "origin_surface="@, h.origin_surface);
    let s = line(s, "event_count="@, numeral::dec(v.events.len() as int));
    line(s, "events="@, json::array(event_jsons(v.events)))
}

/// A task as `key=value` lines, followed by its events as a JSON array.
pub fn render_task_view(v: &TaskView) -> (r: String)
    ensures
        r@ == task_text(v@),
{
    let mut s = String::new();
    put_line(&mut s, "task_id=", v.task_id.as_str());
    put_line(&mut s, "title=", v.title.as_str());
    put_line(&mut s, "status=", v.status.as_str());
    put_line(&mut s, "owner_subject_id=", v.owner_subject_id.as_str());
    put_line(&mut s, "flow_template=", v.flow_template.as_str());
    put_line(&mut s, "params_json=", v.params_json.as_str());
    put_opt_line(&mut s, "latest_result=", &v.latest_result);
    put_opt_line(&mut s, "latest_flow_id=", &v.latest_flow_id);
    put_opt_line(&mut s, "latest_flow_log_path=", &v.latest_flow_log_path);
    put_opt_int_line(&mut s, "error_kind=", v.error_kind);
    put_opt_line(&mut s, "error_cause=", &v.error_cause);
    put_int_line(&mut s, "created_at=", v.created_at);
    put_int_line(&mut s, "updated_at=", v.updated_at);
    put_int_line(&mut s, "retry_count=", v.retry_count);
    put_line(&mut s, "retry_policy=", v.retry_policy.as_str());
    put_int_line(&mut s, "max_retries=", v.max_retries);
    put_opt_int_line(&mut s, "max_runtime_secs=", v.max_runtime_secs);
    put_opt_int_line(&mut s, "started_at=", v.started_at);
    put_opt_line(&mut s, "last_failure_class=", &v.last_failure_class);
    put_opt_line(&mut s, "last_failure_reason=", &v.last_failure_reason);
    put_int_line(&mut s, "attempt_count=", v.attempt_count);
    put_opt_int_line(&mut s, "current_attempt_id=", v.current_attempt_id);
    put_opt_int_line(&mut s, "investigation_marked_at=", v.investigation_marked_at);
    put_opt_line(&mut s, "investigation_reason=", &v.investigation_reason);
    put_int_line(&mut s, "pause_generation=", v.pause_generation);
    put_int_line(&mut s, "freeze_generation=", v.freeze_generation);
    put_opt_int_line(&mut s, "frozen_at=", v.frozen_at);
    put_opt_line(&mut s, "frozen_reason=", &v.frozen_reason);
    put_opt_line(&mut s, "origin_surface=", &v.origin_surface);
    s.append("event_count=");
    numeral::push_usize(&mut s, v.events.len());
    s.append("\n");
    assert(v@.events.len() == v.events@.len());
    let parts = event_strings(&v.events);
    let list = json::array_of(&parts);
    put_line(&mut s, "events=", list.as_str());
    s
}

/// One attempt as a JSON object.
pub open spec fn attempt_json(a: AttemptRec) -> Text {
    let m = json::with_number(Seq::empty(), "attempt_id"@, a.attempt_id as int);
    let m = json::with_number(m, "attempt_num"@, a.attempt_num as int);
    let m = json::with_number(m, "started_at"@, a.started_at as int);
    let m = json::with_text(m, "status"@, a.status);
    let m = json::with_number_opt(m, "finished_at"@, a.finished_at);
    let m = json::with_text_opt(m, "flow_id"@, a.flow_id);
    let m = json::with_text_opt(m, "flow_log_path"@, a.flow_log_path);
    let m = json::with_text_opt(m, "trace_id"@, a.trace_id);
    let m = json::with_number_opt(m, "error_kind"@, a.error_kind);
    let m = json::with_text_opt(m, "error_cause"@, a.error_cause);
    let m = json::with_text_opt(m, "failure_class"@, a.failure_class);
    json::object(m)
}

fn attempt_string(a: &AttemptView) -> (r: String)
    ensures
        r@ == attempt_json(a@),
{
    let mut m = json::Members::new();
    m.number("attempt_id", a.attempt_id as i128);
    m.number("attempt_num", a.attempt_num as i128);
    m.number("started_at", a.started_at as i128);
    m.text("status", a.status.as_str());
    m.number_opt("finished_at", a.finished_at);
    m.text_opt("flow_id", text::slice_opt(&a.flow_id));
    m.text_opt("flow_log_path", text::slice_opt(&a.flow_log_path));
    m.text_opt("trace_id", text::slice_opt(&a.trace_id));
    m.number_opt("error_kind", a.error_kind);
    m.text_opt("error_cause", text::slice_opt(&a.error_cause));
    m.text_opt("failure_class", text::slice_opt(&a.failure_class));
    m.object()
}

/// Attempts as JSON objects.
pub open spec fn attempt_jsons(rows: Seq<AttemptRec>) -> Seq<Text> {
    rows.map_values(|a: AttemptRec| attempt_json(a))
}

fn attempt_strings(rows: &Vec<AttemptView>) -> (r: Vec<String>)
    ensures
        text::texts(r@) == attempt_jsons(model::views(rows@)),
{
    let mut out: Vec<String> = Vec::new();
    let mut i: usize = 0;
    let ghost all = attempt_jsons(model::views(rows@));
    while i < rows.len()
        invariant
            i <= rows@.len(),
            all == attempt_jsons(model::views(rows@)),
            out@.len() == i,
            forall|k: int| 0 <= k < i ==> (#[trigger] out@[k])@ == all[k],
        decreases rows@.len() - i,
    {
        assert(all[i as int] == attempt_json(rows@[i as int]@));
        out.push(attempt_string(&rows[i]));
        i = i + 1;
    }
    assert(text::texts(out@) =~= all);
    out
}

/// The members of a task in an archival snapshot, down to its events.
pub open spec fn task_members(v: TaskDetail) -> Seq<(Text, Text)> {
    let h = v.head;
    let m = json::with_text(Seq::empty(), "title"@, h.title);
    let m = json::with_text(m, "status"@, h.status);
    let m = json::with_text(m, "owner_subject_id"@, h.owner_subject_id);
    let m = json::with_text(m, "flow_template"@, h.flow_template);
    let m = json::with_text(m, "params_json"@, h.params_json);
    let m = json::with_text_opt(m, "latest_result"@, h.latest_result);
    let m = json::with_text_opt(m, "latest_flow_id"@, h.latest_flow_id);
    let m = json::with_text_opt(m, "latest_flow_log_path"@, h.latest_flow_log_path);
    let m = json::with_number_opt(m, "error_kind"@, h.error_kind);
    let m = json::with_text_opt(m, "error_cause"@, h.error_cause);
    let m = json::with_number(m, "created_at"@, h.created_at as int);
    let m = json::with_number(m, "updated_at"@, h.updated_at as int);
    let m = json::with_number(m, "retry_count"@, h.retry_count as int);
    let m = json::with_text(m, "retry_policy"@, h.retry_policy);
    let m = json::with_number(m, "max_retries"@, h.max_retries as int);
    let m = json::with_number_opt(m, "max_runtime_secs"@, h.max_runtime_secs);
    let m = json::with_text_opt(m, "last_failure_reason"@, h.last_failure_reason);
    let m = json::with_text_opt(m, "last_failure_class"@, h.last_failure_class);
    let m = json::with_number_opt(m, "started_at"@, h.started_at);
    let m = json::with_number(m, "attempt_count"@, h.attempt_count as int);
    let m = json::with_number_opt(m, "current_attempt_id"@, h.current_attempt_id);
    let m = json::with_number_opt(m, "investigation_marked_at"@, h.investigation_marked_at);
    let m = json::with_text_opt(m, "investigation_reason"@, h.investigation_reason);
    let m = json::with_number(m, "pause_generation"@, h.pause_generation as int);
    let m = json::with_number(m, "freeze_generation"@, h.freeze_generation as int);
    let m = json::with_number_opt(m, "frozen_at"@, h.frozen_at);
    let m = json::with_text_opt(m, "frozen_reason"@, h.frozen_reason);
    let m = json::with_text_opt(m, "origin_surface"@, h.origin_surface);
    json::with_value(m, "events"@, json::array(event_jsons(v.events)))
}

/// An archival snapshot as one JSON object.
pub open spec fn export_json(e: ExportRec) -> Text {
    let m = json::with_number(Seq::empty(), "schema_version"@, e.schema_version as int);
    let m = json::with_number(m, "exported_at"@, e.exported_at as int);
    let m = json::with_text(m, "task_id"@, e.task_id);
    let m = json::with_value(m, "task"@, json::object(task_members(e.view)));
    let m = json::with_value(m, "attempts"@, json::array(attempt_jsons(e.attempts)));
    json::object(m)
}

fn put_task_members(m: &mut json::Members, v: &TaskView)
    requires
        old(m)@ == Seq::<(Text, Text)>::empty(),
    ensures
        final(m)@ == task_members(v@),
{
    m.text("title", v.title.as_str());
    m.text("status", v.status.as_str());
    m.text("owner_subject_id", v.owner_subject_id.as_str());
    m.text("flow_template", v.flow_template.as_str());
    m.text("params_json", v.params_json.as_str());
    m.text_opt("latest_result", text::slice_opt(&v.latest_result));
    m.text_opt("latest_flow_id", text::slice_opt(&v.latest_flow_id));
    m.text_opt("latest_flow_log_path", text::slice_opt(&v.latest_flow_log_path));
    m.number_opt("error_kind", v.error_kind);
    m.text_opt("error_cause", text::slice_opt(&v.error_cause));
    m.number("created_at", v.created_at as i128);
    m.number("updated_at", v.updated_at as i128);
    m.number("retry_count", v.retry_count as i128);
    m.text("retry_policy", v.retry_policy.as_str());
    m.number("max_retries", v.max_retries as i128);
    m.number_opt("max_runtime_secs", v.max_runtime_secs);
    m.text_opt("last_failure_reason", text::slice_opt(&v.last_failure_reason));
    m.text_opt("last_failure_class", text::slice_opt(&v.last_failure_class));
    m.number_opt("started_at", v.started_at);
    m.number("attempt_count", v.attempt_count as i128);
    m.number_opt("current_attempt_id", v.current_attempt_id);
    m.number_opt("investigation_marked_at", v.investigation_marked_at);
    m.text_opt("investigation_reason", text::slice_opt(&v.investigation_reason));
    m.number("pause_generation", v.pause_generation as i128);
    m.number("freeze_generation", v.freeze_generation as i128);
    m.number_opt("frozen_at", v.frozen_at);
    m.text_opt("frozen_reason", text::slice_opt(&v.frozen_reason));
    m.text_opt("origin_surface", text::slice_opt(&v.origin_surface));
    let events = event_strings(&v.events);
    m.value("events", json::array_of(&events));
}

/// An archival snapshot as one JSON object.
pub fn render_task_export(e: &TaskExport) -> (r: String)
    ensures
        r@ == export_json(e@),
{
    let mut task = json::Members::new();
    put_task_members(&mut task, &e.view);
    let attempts = attempt_strings(&e.attempts);
    let mut m = json::Members::new();
    m.number("schema_version", e.schema_version as i128);
    m.number("exported_at", e.exported_at as i128);
    m.text("task_id", e.task_id.as_str());
    m.value("task", task.object());
    m.value("attempts", json::array_of(&attempts));
    m.object()
}

/// Counts by status as JSON members.
pub open spec fn count_members(rows: Seq<(Text, i64)>) -> Seq<(Text, Text)> {
    rows.map_values(|p: (Text, i64)| (text::escaped(p.0), numeral::dec(p.1 as int)))
}

/// A retention report as one JSON object.
pub open spec fn compact_json(c: CompactRec, mode: Text) -> Text {
    let m = json::with_text(Seq::empty(), "mode"@, mode);
    let m = json::with_value(m, "destructive"@, "false"@);
    let m = json::with_number(m, "cutoff_ts"@, c.cutoff_ts as int);
    let m = json::with_number(m, "candidate_events"@, c.candidate_events as int);
    let m = json::with_number(m, "candidate_tasks"@, c.candidate_tasks as int);
    let m = json::with_number_opt(m, "oldest_candidate_ts"@, c.oldest_candidate_ts);
    let m = json::with_number_opt(m, "newest_candidate_ts"@, c.newest_candidate_ts);
    let m = json::with_value(m, "by_task_status"@, json::object(count_members(c.by_task_status)));
    json::object(m)
}

fn count_object(c: &CompactDryRun) -> (r: String)
    ensures
        r@ == json::object(count_members(c@.by_task_status)),
{
    let mut m = json::Members::new();
    let mut i: usize = 0;
    let ghost all = count_members(c@.by_task_status);
    assert(all.take(0) =~= Seq::<(Text, Text)>::empty());
    while i < c.by_task_status.len()
        invariant
            i <= c.by_task_status@.len(),
            all == count_members(c@.by_task_status),
            all.len() == c.by_task_status@.len(),
            m@ == all.take(i as int),
        decreases c.by_task_status@.len() - i,
    {
        let row = &c.by_task_status[i];
        assert(c@.by_task_status[i as int] == (row.0@, row.1));
        let name = text::json_escape(row.0.as_str());
        m.number(name.as_str(), row.1 as i128);
        assert(all.take(i + 1) =~= all.take(i as int).push(all[i as int]));
        i = i + 1;
    }
    assert(all.take(all.len() as int) =~= all);
    m.object()
}

/// A retention report as one JSON object.
pub fn render_compact_dry_run(c: &CompactDryRun, mode: &str) -> (r: String)
    ensures
        r@ == compact_json(c@, mode@),
{
    let mut m = json::Members::new();
    m.text("mode", mode);
    m.value("destructive", text::owned("false"));
    m.number("cutoff_ts", c.cutoff_ts as i128);
    m.number("candidate_events", c.candidate_events as i128);
    m.number("candidate_tasks", c.candidate_tasks as i128);
    m.number_opt("oldest_candidate_ts", c.oldest_candidate_ts);
    m.number_opt("newest_candidate_ts", c.newest_candidate_ts);
    m.value("by_task_status", count_object(c));
    m.object()
}

/// An optional text, or a dash.
pub open spec fn or_dash(o: Option<Text>) -> Text {
    match o {
        Some(t) => t,
        None => "-"@,
    }
}

/// An optional number, or a dash.
pub open spec fn num_or_dash(o: Option<i64>) -> Text {
    match o {
        Some(n) => numeral::dec(n as int),
        None => "-"@,
    }
}

/// An optional number, or nothing.
pub open spec fn num_or_blank(o: Option<i64>) -> Text {
    match o {
        Some(n) => numeral::dec(n as int),
        None => Seq::empty(),
    }
}

fn put_or_dash(s: &mut String, o: &Option<String>)
    ensures
        final(s)@ == old(s)@ + or_dash(text::opt_text(*o)),
{
    match o {
        Some(t) => s.append(t.as_str()),
        None => s.append("-"),
    }
}

fn put_num_or_dash(s: &mut String, o: Option<i64>)
    ensures
        final(s)@ == old(s)@ + num_or_dash(o),
{
    match o {
        Some(n) => numeral::push_i64(s, n),
        None => s.append("-"),
    }
}

fn put_num_or_blank(s: &mut String, o: Option<i64>)
    ensures
        final(s)@ == old(s)@ + num_or_blank(o),
{
    match o {
        Some(n) => numeral::push_i64(s, n),
        None => {
            assert(s@ + Seq::<char>::empty() =~= s@);
        },
    }
}


/// One todo as a row.
pub open spec fn todo_row(x: TodoRec) -> Text {
    let s = Seq::empty();
    let s = s + numeral::dec(x.position as int) + "\t"@;
    let s = s + numeral::dec(x.todo_id as int) + "\t"@;
    let s = s + x.status + "\t"@;
    let s = s + text::one_line(x.text) + "\n"@;
    s
}

pub(crate) fn todo_row_string(x: &TodoItem) -> (r: String)
    ensures
        r@ == todo_row(x@),
{
    let mut s = String::new();
    numeral::push_i64(&mut s, x.position);
    s.append("\t");
    numeral::push_i64(&mut s, x.todo_id);
    s.append("\t");
    s.append(x.status.as_str());
    s.append("\t");
    let t = text::tab_safe(x.text.as_str());
    s.append(t.as_str());
    s.append("\n");
    s
}


/// Todos as rows.
pub open spec fn todo_rows(rows: Seq<TodoRec>) -> Text {
    text::flat(rows.map_values(|x: TodoRec| todo_row(x)))
}

pub(crate) fn todo_rows_string(rows: &Vec<TodoItem>) -> (r: String)
    ensures
        r@ == todo_rows(model::views(rows@)),
{
    let mut out: Vec<String> = Vec::new();
    let mut i: usize = 0;
    let ghost all = model::views(rows@).map_values(|x: TodoRec| todo_row(x));
    while i < rows.len()
        invariant
            i <= rows@.len(),
            all == model::views(rows@).map_values(|x: TodoRec| todo_row(x)),
            out@.len() == i,
            forall|k: int| 0 <= k < i ==> (#[trigger] out@[k])@ == all[k],
        decreases rows@.len() - i,
    {
        assert(all[i as int] == todo_row(rows@[i as int]@));
        out.push(todo_row_string(&rows[i]));
        i = i + 1;
    }
    assert(text::texts(out@) =~= all);
    text::concat_all(&out)
}


/// A todo list: its rows and their number.
pub open spec fn todo_list(items: Seq<TodoRec>) -> Text {
    line(todo_rows(items), "count="@, numeral::dec(items.len() as int))
}

/// A todo list: its rows and their number.
pub fn render_todo_list(items: &Vec<TodoItem>) -> (r: String)
    ensures
        r@ == todo_list(model::views(items@)),
{
    let mut s = todo_rows_string(items);
    s.append("count=");
    numeral::push_usize(&mut s, items.len());
    s.append("\n");
    assert(model::views(items@).len() == items@.len());
    s
}


/// One stuck task as a row.
pub open spec fn stuck_row(x: StuckRec) -> Text {
    let s = Seq::empty();
    let s = s + x.task_id + "\t"@;
    let s = s + text::one_line(x.title) + "\t"@;
    let s = s + numeral::dec(x.started_at as int) + "\t"@;
    let s = s + numeral::dec(x.age_secs as int) + "\n"@;
    s
}

pub(crate) fn stuck_row_string(x: &StuckTaskRow) -> (r: String)
    ensures
        r@ == stuck_row(x@),
{
    let mut s = String::new();
    s.append(x.task_id.as_str());
    s.append("\t");
    let t = text::tab_safe(x.title.as_str());
    s.append(t.as_str());
    s.append("\t");
    numeral::push_i64(&mut s, x.started_at);
    s.append("\t");
    numeral::push_i64(&mut s, x.age_secs);
    s.append("\n");
    s
}


/// Stuck tasks as rows.
pub open spec fn stuck_rows(rows: Seq<StuckRec>) -> Text {
    text::flat(rows.map_values(|x: StuckRec| stuck_row(x)))
}

pub(crate) fn stuck_rows_string(rows: &Vec<StuckTaskRow>) -> (r: String)
    ensures
        r@ == stuck_rows(model::views(rows@)),
{
    let mut out: Vec<String> = Vec::new();
    let mut i: usize = 0;
    let ghost all = model::views(rows@).map_values(|x: StuckRec| stuck_row(x));
    while i < rows.len()
        invariant
            i <= rows@.len(),
            all == model::views(rows@).map_values(|x: StuckRec| stuck_row(x)),
            out@.len() == i,
            forall|k: int| 0 <= k < i ==> (#[trigger] out@[k])@ == all[k],
        decreases rows@.len() - i,
    {
        assert(all[i as int] == stuck_row(rows@[i as int]@));
        out.push(stuck_row_string(&rows[i]));
        i = i + 1;
    }
    assert(text::texts(out@) =~= all);
    text::concat_all(&out)
}


/// One task of a listing as a row.
pub open spec fn summary_row(x: SummaryRec) -> Text {
    let s = Seq::empty();
    let s = s + x.task_id + "\t"@;
    let s = s + x.status + "\t"@;
    let s = s + text::one_row(x.title) + "\n"@;
    s
}

pub(crate) fn summary_row_string(x: &TaskSummary) -> (r: String)
    ensures
        r@ == summary_row(x@),
{
    let mut s = String::new();
    s.append(x.task_id.as_str());
    s.append("\t");
    s.append(x.status.as_str());
    s.append("\t");
    let t = text::row_safe(x.title.as_str());
    s.append(t.as_str());
    s.append("\n");
    s
}


/// The tasks of a listing as rows.
pub open spec fn summary_rows(rows: Seq<SummaryRec>) -> Text {
    text::flat(rows.map_values(|x: SummaryRec| summary_row(x)))
}

pub(crate) fn summary_rows_string(rows: &Vec<TaskSummary>) -> (r: String)
    ensures
        r@ == summary_rows(model::views(rows@)),
{
    let mut out: Vec<String> = Vec::new();
    let mut i: usize = 0;
    let ghost all = model::views(rows@).map_values(|x: SummaryRec| summary_row(x));
    while i < rows.len()
        invariant
            i <= rows@.len(),
            all == model::views(rows@).map_values(|x: SummaryRec| summary_row(x)),
            out@.len() == i,
            forall|k: int| 0 <= k < i ==> (#[trigger] out@[k])@ == all[k],
        decreases rows@.len() - i,
    {
        assert(all[i as int] == summary_row(rows@[i as int]@));
        out.push(summary_row_string(&rows[i]));
        i = i + 1;
    }
    assert(text::texts(out@) =~= all);
    text::concat_all(&out)
}


/// One task of a page as a row.
pub open spec fn page_row(x: SummaryRec) -> Text {
    let s = Seq::empty();
    let s = s + x.task_id + "\t"@;
    let s = s + x.status + "\t"@;
    let s = s + text::one_row(x.title) + "\t"@;
    let s = s + numeral::dec(x.updated_at as int) + "\t"@;
    let s = s + num_or_blank(x.investigation_marked_at) + "\n"@;
    s
}

pub(crate) fn page_row_string(x: &TaskSummary) -> (r: String)
    ensures
        r@ == page_row(x@),
{
    let mut s = String::new();
    s.append(x.task_id.as_str());
    s.append("\t");
    s.append(x.status.as_str());
    s.append("\t");
    let t = text::row_safe(x.title.as_str());
    s.append(t.as_str());
    s.append("\t");
    numeral::push_i64(&mut s, x.updated_at);
    s.append("\t");
    put_num_or_blank(&mut s, x.investigation_marked_at);
    s.append("\n");
    s
}


/// The tasks of a page as rows.
pub open spec fn page_rows(rows: Seq<SummaryRec>) -> Text {
    text::flat(rows.map_values(|x: SummaryRec| page_row(x)))
}

pub(crate) fn page_rows_string(rows: &Vec<TaskSummary>) -> (r: String)
    ensures
        r@ == page_rows(model::views(rows@)),
{
    let mut out: Vec<String> = Vec::new();
    let mut i: usize = 0;
    let ghost all = model::views(rows@).map_values(|x: SummaryRec| page_row(x));
    while i < rows.len()
        invariant
            i <= rows@.len(),
            all == model::views(rows@).map_values(|x: SummaryRec| page_row(x)),
            out@.len() == i,
            forall|k: int| 0 <= k < i ==> (#[trigger] out@[k])@ == all[k],
        decreases rows@.len() - i,
    {
        assert(all[i as int] == page_row(rows@[i as int]@));
        out.push(page_row_string(&rows[i]));
        i = i + 1;
    }
    assert(text::texts(out@) =~= all);
    text::concat_all(&out)
}


/// One attempt as a row.
pub open spec fn attempt_row(x: AttemptRec) -> Text {
    let s = Seq::empty();
    let s = s + numeral::dec(x.attempt_num as int) + "\t"@;
    let s = s + x.status + "\t"@;
    let s = s + numeral::dec(x.started_at as int) + "\t"@;
    let s = s + num_or_dash(x.finished_at) + "\t"@;
    let s = s + or_dash(x.failure_class) + "\t"@;
    let s = s + or_dash(x.flow_id) + "\n"@;
    s
}

pub(crate) fn attempt_row_string(x: &AttemptView) -> (r: String)
    ensures
        r@ == attempt_row(x@),
{
    let mut s = String::new();
    numeral::push_i64(&mut s, x.attempt_num);
    s.append("\t");
    s.append(x.status.as_str());
    s.append("\t");
    numeral::push_i64(&mut s, x.started_at);
    s.append("\t");
    put_num_or_dash(&mut s, x.finished_at);
    s.append("\t");
    put_or_dash(&mut s, &x.failure_class);
    s.append("\t");
    put_or_dash(&mut s, &x.flow_id);
    s.append("\n");
    s
}


/// Attempts as rows.
pub open spec fn attempt_rows(rows: Seq<AttemptRec>) -> Text {
    text::flat(rows.map_values(|x: AttemptRec| attempt_row(x)))
}

pub(crate) fn attempt_rows_string(rows: &Vec<AttemptView>) -> (r: String)
    ensures
        r@ == attempt_rows(model::views(rows@)),
{
    let mut out: Vec<String> = Vec::new();
    let mut i: usize = 0;
    let ghost all = model::views(rows@).map_values(|x: AttemptRec| attempt_row(x));
    while i < rows.len()
        invariant
            i <= rows@.len(),
            all == model::views(rows@).map_values(|x: AttemptRec| attempt_row(x)),
            out@.len() == i,
            forall|k: int| 0 <= k < i ==> (#[trigger] out@[k])@ == all[k],
        decreases rows@.len() - i,
    {
        assert(all[i as int] == attempt_row(rows@[i as int]@));
        out.push(attempt_row_string(&rows[i]));
        i = i + 1;
    }
    assert(text::texts(out@) =~= all);
    text::concat_all(&out)
}


/// One edge of a task as a row.
pub open spec fn edge_row(x: EdgeRec) -> Text {
    let s = Seq::empty();
    let s = s + numeral::dec(x.edge_id as int) + "\t"@;
    let s = s + x.edge_type + "\t"@;
    let s = s + num_or_dash(x.attempt_id) + "\t"@;
    let s = s + or_dash(x.related_task_id) + "\t"@;
    let s = s + num_or_dash(x.related_attempt_id) + "\t"@;
    let s = s + num_or_dash(x.spawned_by_event_id) + "\t"@;
    let s = s + numeral::dec(x.created_at as int) + "\n"@;
    s
}

pub(crate) fn edge_row_string(x: &TaskEdge) -> (r: String)
    ensures
        r@ == edge_row(x@),
{
    let mut s = String::new();
    numeral::push_i64(&mut s, x.edge_id);
    s.append("\t");
    s.append(x.edge_type.as_str());
    s.append("\t");
    put_num_or_dash(&mut s, x.attempt_id);
    s.append("\t");
    put_or_dash(&mut s, &x.related_task_id);
    s.append("\t");
    put_num_or_dash(&mut s, x.related_attempt_id);
    s.append("\t");
    put_num_or_dash(&mut s, x.spawned_by_event_id);
    s.append("\t");
    numeral::push_i64(&mut s, x.created_at);
    s.append("\n");
    s
}


/// The edges of a task as rows.
pub open spec fn edge_rows(rows: Seq<EdgeRec>) -> Text {
    text::flat(rows.map_values(|x: EdgeRec| edge_row(x)))
}

pub(crate) fn edge_rows_string(rows: &Vec<TaskEdge>) -> (r: String)
    ensures
        r@ == edge_rows(model::views(rows@)),
{
    let mut out: Vec<String> = Vec::new();
    let mut i: usize = 0;
    let ghost all = model::views(rows@).map_values(|x: EdgeRec| edge_row(x));
    while i < rows.len()
        invariant
            i <= rows@.len(),
            all == model::views(rows@).map_values(|x: EdgeRec| edge_row(x)),
            out@.len() == i,
            forall|k: int| 0 <= k < i ==> (#[trigger] out@[k])@ == all[k],
        decreases rows@.len() - i,
    {
        assert(all[i as int] == edge_row(rows@[i as int]@));
        out.push(edge_row_string(&rows[i]));
        i = i + 1;
    }
    assert(text::texts(out@) =~= all);
    text::concat_all(&out)
}


/// One edge of any task as a row.
pub open spec fn recent_edge_row(x: EdgeRec) -> Text {
    let s = Seq::empty();
    let s = s + numeral::dec(x.edge_id as int) + "\t"@;
    let s = s + x.edge_type + "\t"@;
    let s = s + x.task_id + "\t"@;
    let s = s + num_or_dash(x.attempt_id) + "\t"@;
    let s = s + or_dash(x.related_task_id) + "\t"@;
    let s = s + num_or_dash(x.related_attempt_id) + "\t"@;
    let s = s + num_or_dash(x.spawned_by_event_id) + "\t"@;
    let s = s + numeral::dec(x.created_at as int) + "\n"@;
    s
}

pub(crate) fn recent_edge_row_string(x: &TaskEdge) -> (r: String)
    ensures
        r@ == recent_edge_row(x@),
{
    let mut s = String::new();
    numeral::push_i64(&mut s, x.edge_id);
    s.append("\t");
    s.append(x.edge_type.as_str());
    s.append("\t");
    s.append(x.task_id.as_str());
    s.append("\t");
    put_num_or_dash(&mut s, x.attempt_id);
    s.append("\t");
    put_or_dash(&mut s, &x.related_task_id);
    s.append("\t");
    put_num_or_dash(&mut s, x.related_attempt_id);
    s.append("\t");
    put_num_or_dash(&mut s, x.spawned_by_event_id);
    s.append("\t");
    numeral::push_i64(&mut s, x.created_at);
    s.append("\n");
    s
}


/// Edges of any tasks as rows.
pub open spec fn recent_edge_rows(rows: Seq<EdgeRec>) -> Text {
    text::flat(rows.map_values(|x: EdgeRec| recent_edge_row(x)))
}

pub(crate) fn recent_edge_rows_string(rows: &Vec<TaskEdge>) -> (r: String)
    ensures
        r@ == recent_edge_rows(model::views(rows@)),
{
    let mut out: Vec<String> = Vec::new();
    let mut i: usize = 0;
    let ghost all = model::views(rows@).map_values(|x: EdgeRec| recent_edge_row(x));
    while i < rows.len()
        invariant
            i <= rows@.len(),
            all == model::views(rows@).map_values(|x: EdgeRec| recent_edge_row(x)),
            out@.len() == i,
            forall|k: int| 0 <= k < i ==> (#[trigger] out@[k])@ == all[k],
        decreases rows@.len() - i,
    {
        assert(all[i as int] == recent_edge_row(rows@[i as int]@));
        out.push(recent_edge_row_string(&rows[i]));
        i = i + 1;
    }
    assert(text::texts(out@) =~= all);
    text::concat_all(&out)
}


/// One edge of a lineage as a row.
pub open spec fn lineage_edge_row(x: EdgeRec) -> Text {
    let s = Seq::empty();
    let s = s + numeral::dec(x.edge_id as int) + "\t"@;
    let s = s + x.edge_type + "\t"@;
    let s = s + x.task_id + "\t"@;
    let s = s + or_dash(x.related_task_id) + "\t"@;
    let s = s + numeral::dec(x.created_at as int) + "\n"@;
    s
}

pub(crate) fn lineage_edge_row_string(x: &TaskEdge) -> (r: String)
    ensures
        r@ == lineage_edge_row(x@),
{
    let mut s = String::new();
    numeral::push_i64(&mut s, x.edge_id);
    s.append("\t");
    s.append(x.edge_type.as_str());
    s.append("\t");
    s.append(x.task_id.as_str());
    s.append("\t");
    put_or_dash(&mut s, &x.related_task_id);
    s.append("\t");
    numeral::push_i64(&mut s, x.created_at);
    s.append("\n");
    s
}


/// The edges of a lineage as rows.
pub open spec fn lineage_edge_rows(rows: Seq<EdgeRec>) -> Text {
    text::flat(rows.map_values(|x: EdgeRec| lineage_edge_row(x)))
}

pub(crate) fn lineage_edge_rows_string(rows: &Vec<TaskEdge>) -> (r: String)
    ensures
        r@ == lineage_edge_rows(model::views(rows@)),
{
    let mut out: Vec<String> = Vec::new();
    let mut i: usize = 0;
    let ghost all = model::views(rows@).map_values(|x: EdgeRec| lineage_edge_row(x));
    while i < rows.len()
        invariant
            i <= rows@.len(),
            all == model::views(rows@).map_values(|x: EdgeRec| lineage_edge_row(x)),
            out@.len() == i,
            forall|k: int| 0 <= k < i ==> (#[trigger] out@[k])@ == all[k],
        decreases rows@.len() - i,
    {
        assert(all[i as int] == lineage_edge_row(rows@[i as int]@));
        out.push(lineage_edge_row_string(&rows[i]));
        i = i + 1;
    }
    assert(text::texts(out@) =~= all);
    text::concat_all(&out)
}


/// Subtree metrics as `key=value` lines.
pub open spec fn metrics_text(m: SubtreeMetrics) -> Text {
    let s = Seq::empty();
    let s = line(s, "root="@, m.root_task_id@);
    let s = line(s, "total_tasks="@, numeral::dec(m.total_tasks as int));
    let s = line(s, "cross_task_edges="@, numeral::dec(m.cross_task_edge_count as int));
    let s = line(s, "max_depth="@, numeral::dec(m.max_depth_walked as int));
    let s = line(s, "terminal_completed="@, numeral::dec(m.terminal_completed as int));
    let s = line(s, "terminal_failed="@, numeral::dec(m.terminal_failed as int));
    let s = line(s, "terminal_cancelled="@, numeral::dec(m.terminal_cancelled as int));
    let s = line(s, "active_pending="@, numeral::dec(m.active_pending as int));
    let s = line(s, "active_running="@, numeral::dec(m.active_running as int));
    let s = line(s, "active_retrying="@, numeral::dec(m.active_retrying as int));
    let s = line(s, "active_paused="@, numeral::dec(m.active_paused as int));
    let s = line(s, "active_frozen="@, numeral::dec(m.active_frozen as int));
    let s = line(s, "active_interrupted="@, numeral::dec(m.active_interrupted as int));
    let s = line(s, "active_awaiting_input="@, numeral::dec(m.active_awaiting_input as int));
    let s = line(s, "other_status="@, numeral::dec(m.other_status as int));
    let s = line(s, "total_attempts="@, numeral::dec(m.total_attempts as int));
    let s = line(s, "total_wall_clock_secs="@, numeral::dec(m.total_wall_clock_secs as int));
    let s = opt_int_line(s, "oldest_started_at="@, m.oldest_started_at);
    let s = opt_int_line(s, "newest_updated_at="@, m.newest_updated_at);
    let s = line(s, "tasks_with_missing_timing="@, numeral::dec(m.tasks_with_missing_timing as int));
    s
}

pub(crate) fn metrics_string(m: &SubtreeMetrics) -> (r: String)
    ensures
        r@ == metrics_text(*m),
{
    let mut s = String::new();
    put_line(&mut s, "root=", m.root_task_id.as_str());
    put_int_line(&mut s, "total_tasks=", m.total_tasks);
    put_int_line(&mut s, "cross_task_edges=", m.cross_task_edge_count);
    put_int_line(&mut s, "max_depth=", m.max_depth_walked);
    put_int_line(&mut s, "terminal_completed=", m.terminal_completed);
    put_int_line(&mut s, "terminal_failed=", m.terminal_failed);
    put_int_line(&mut s, "terminal_cancelled=", m.terminal_cancelled);
    put_int_line(&mut s, "active_pending=", m.active_pending);
    put_int_line(&mut s, "active_running=", m.active_running);
    put_int_line(&mut s, "active_retrying=", m.active_retrying);
    put_int_line(&mut s, "active_paused=", m.active_paused);
    put_int_line(&mut s, "active_frozen=", m.active_frozen);
    put_int_line(&mut s, "active_interrupted=", m.active_interrupted);
    put_int_line(&mut s, "active_awaiting_input=", m.active_awaiting_input);
    put_int_line(&mut s, "other_status=", m.other_status);
    put_int_line(&mut s, "total_attempts=", m.total_attempts);
    put_int_line(&mut s, "total_wall_clock_secs=", m.total_wall_clock_secs);
    put_opt_int_line(&mut s, "oldest_started_at=", m.oldest_started_at);
    put_opt_int_line(&mut s, "newest_updated_at=", m.newest_updated_at);
    put_int_line(&mut s, "tasks_with_missing_timing=", m.tasks_with_missing_timing);
    s
}

/// A lineage as header lines and edge rows.
pub open spec fn lineage_text(g: lineage::LineageRec) -> Text {
    let s = line(Seq::empty(), "root="@, g.root_task_id);
    let s = line(s, "tasks="@, text::joined(g.tasks, ","@));
    let s = line(s, "cross_task_edges="@, numeral::dec(g.cross_task_edge_count));
    let s = line(s, "max_depth="@, numeral::dec(g.max_depth_walked));
    s + lineage_edge_rows(g.edges)
}

pub(crate) fn lineage_string(g: &model::TaskLineageGraph) -> (r: String)
    ensures
        r@ == lineage_text(g@),
{
    let mut s = String::new();
    put_line(&mut s, "root=", g.root_task_id.as_str());
    let tasks = text::join_all(&g.tasks, ",");
    put_line(&mut s, "tasks=", tasks.as_str());
    s.append("cross_task_edges=");
    numeral::push_usize(&mut s, g.cross_task_edge_count);
    s.append("\n");
    s.append("max_depth=");
    numeral::push_usize(&mut s, g.max_depth_walked);
    s.append("\n");
    let rows = lineage_edge_rows_string(&g.edges);
    s.append(rows.as_str());
    s
}

} // verus!
