//! What the coordinator writes as JSON is JSON.
use vstd::prelude::*;
use crate::coordinator::attempts;
use crate::coordinator::compact::CompactRec;
use crate::coordinator::edges::EdgeRequest;
use crate::coordinator::ledger::Ledger;
use crate::coordinator::model::{AttemptRec, EventRec, ExportRec, OwnedEvent, TaskDetail};
use crate::coordinator::query;
use crate::coordinator::reads;
use crate::coordinator::recover;
use crate::coordinator::render;
use crate::coordinator::retry;
use crate::coordinator::update::{self, ChangeRec};
use crate::json;
use crate::outside;
use crate::text::Text;

verus! {

proof fn lemma_payload_names()
    ensures
        json::string_body("class"@),
        json::string_body("count"@),
        json::string_body("threshold"@),
        json::string_body("reason"@),
        json::string_body("auto"@),
        json::string_body("thrash_class"@),
        json::string_body("thrash_count"@),
        json::string_body("suppressed_by"@),
        json::string_body("retry_count"@),
        json::string_body("budget"@),
        json::string_body("policy"@),
        json::string_body("attempt"@),
        json::string_body("of_budget"@),
        json::string_body("prior_class"@),
        json::string_body("started_at"@),
        json::string_body("max_runtime_secs"@),
        json::string_body("now"@),
        json::string_body("attempt_id"@),
        json::string_body("status"@),
        json::string_body("failure_class"@),
        json::string_body("attempts"@),
        json::string_body("retries"@),
        json::string_body("wall_clock_secs"@),
        json::string_body("last_failure_class"@),
        json::string_body("auto_emitted_by"@),
        json::string_body("closed_as"@),
        json::string_body("task_status"@),
        json::string_body("attempt_num"@),
        json::string_body("trace_id"@),
{
    assert(json::string_body("class"@)) by {
        reveal_strlit("class");
        json::lemma_plain("class"@);
    }
    assert(json::string_body("count"@)) by {
        reveal_strlit("count");
        json::lemma_plain("count"@);
    }
    assert(json::string_body("threshold"@)) by {
        reveal_strlit("threshold");
        json::lemma_plain("threshold"@);
    }
    assert(json::string_body("reason"@)) by {
        reveal_strlit("reason");
        json::lemma_plain("reason"@);
    }
    assert(json::string_body("auto"@)) by {
        reveal_strlit("auto");
        json::lemma_plain("auto"@);
    }
    assert(json::string_body("thrash_class"@)) by {
        reveal_strlit("thrash_class");
        json::lemma_plain("thrash_class"@);
    }
    assert(json::string_body("thrash_count"@)) by {
        reveal_strlit("thrash_count");
        json::lemma_plain("thrash_count"@);
    }
    assert(json::string_body("suppressed_by"@)) by {
        reveal_strlit("suppressed_by");
        json::lemma_plain("suppressed_by"@);
    }
    assert(json::string_body("retry_count"@)) by {
        reveal_strlit("retry_count");
        json::lemma_plain("retry_count"@);
    }
    assert(json::string_body("budget"@)) by {
        reveal_strlit("budget");
        json::lemma_plain("budget"@);
    }
    assert(json::string_body("policy"@)) by {
        reveal_strlit("policy");
        json::lemma_plain("policy"@);
    }
    assert(json::string_body("attempt"@)) by {
        reveal_strlit("attempt");
        json::lemma_plain("attempt"@);
    }
    assert(json::string_body("of_budget"@)) by {
        reveal_strlit("of_budget");
        json::lemma_plain("of_budget"@);
    }
    assert(json::string_body("prior_class"@)) by {
        reveal_strlit("prior_class");
        json::lemma_plain("prior_class"@);
    }
    assert(json::string_body("started_at"@)) by {
        reveal_strlit("started_at");
        json::lemma_plain("started_at"@);
    }
    assert(json::string_body("max_runtime_secs"@)) by {
        reveal_strlit("max_runtime_secs");
        json::lemma_plain("max_runtime_secs"@);
    }
    assert(json::string_body("now"@)) by {
        reveal_strlit("now");
        json::lemma_plain("now"@);
    }
    assert(json::string_body("attempt_id"@)) by {
        reveal_strlit("attempt_id");
        json::lemma_plain("attempt_id"@);
    }
    assert(json::string_body("status"@)) by {
        reveal_strlit("status");
        json::lemma_plain("status"@);
    }
    assert(json::string_body("failure_class"@)) by {
        reveal_strlit("failure_class");
        json::lemma_plain("failure_class"@);
    }
    assert(json::string_body("attempts"@)) by {
        reveal_strlit("attempts");
        json::lemma_plain("attempts"@);
    }
    assert(json::string_body("retries"@)) by {
        reveal_strlit("retries");
        json::lemma_plain("retries"@);
    }
    assert(json::string_body("wall_clock_secs"@)) by {
        reveal_strlit("wall_clock_secs");
        json::lemma_plain("wall_clock_secs"@);
    }
    assert(json::string_body("last_failure_class"@)) by {
        reveal_strlit("last_failure_class");
        json::lemma_plain("last_failure_class"@);
    }
    assert(json::string_body("auto_emitted_by"@)) by {
        reveal_strlit("auto_emitted_by");
        json::lemma_plain("auto_emitted_by"@);
    }
    assert(json::string_body("closed_as"@)) by {
        reveal_strlit("closed_as");
        json::lemma_plain("closed_as"@);
    }
    assert(json::string_body("task_status"@)) by {
        reveal_strlit("task_status");
        json::lemma_plain("task_status"@);
    }
    assert(json::string_body("attempt_num"@)) by {
        reveal_strlit("attempt_num");
        json::lemma_plain("attempt_num"@);
    }
    assert(json::string_body("trace_id"@)) by {
        reveal_strlit("trace_id");
        json::lemma_plain("trace_id"@);
    }
}

proof fn lemma_event_names()
    ensures
        json::string_body("id"@),
        json::string_body("ts"@),
        json::string_body("type"@),
        json::string_body("payload"@),
        json::string_body("schema_version"@),
        json::string_body("attempt_id"@),
        json::string_body("trace_id"@),
        json::string_body("payload_json"@),
        json::string_body("task_id"@),
{
    assert(json::string_body("id"@)) by {
        reveal_strlit("id");
        json::lemma_plain("id"@);
    }
    assert(json::string_body("ts"@)) by {
        reveal_strlit("ts");
        json::lemma_plain("ts"@);
    }
    assert(json::string_body("type"@)) by {
        reveal_strlit("type");
        json::lemma_plain("type"@);
    }
    assert(json::string_body("payload"@)) by {
        reveal_strlit("payload");
        json::lemma_plain("payload"@);
    }
    assert(json::string_body("schema_version"@)) by {
        reveal_strlit("schema_version");
        json::lemma_plain("schema_version"@);
    }
    assert(json::string_body("attempt_id"@)) by {
        reveal_strlit("attempt_id");
        json::lemma_plain("attempt_id"@);
    }
    assert(json::string_body("trace_id"@)) by {
        reveal_strlit("trace_id");
        json::lemma_plain("trace_id"@);
    }
    assert(json::string_body("payload_json"@)) by {
        reveal_strlit("payload_json");
        json::lemma_plain("payload_json"@);
    }
    assert(json::string_body("task_id"@)) by {
        reveal_strlit("task_id");
        json::lemma_plain("task_id"@);
    }
}

proof fn lemma_attempt_names()
    ensures
        json::string_body("attempt_id"@),
        json::string_body("attempt_num"@),
        json::string_body("started_at"@),
        json::string_body("status"@),
        json::string_body("finished_at"@),
        json::string_body("flow_id"@),
        json::string_body("flow_log_path"@),
        json::string_body("trace_id"@),
        json::string_body("error_kind"@),
        json::string_body("error_cause"@),
        json::string_body("failure_class"@),
{
    assert(json::string_body("attempt_id"@)) by {
        reveal_strlit("attempt_id");
        json::lemma_plain("attempt_id"@);
    }
    assert(json::string_body("attempt_num"@)) by {
        reveal_strlit("attempt_num");
        json::lemma_plain("attempt_num"@);
    }
    assert(json::string_body("started_at"@)) by {
        reveal_strlit("started_at");
        json::lemma_plain("started_at"@);
    }
    assert(json::string_body("status"@)) by {
        reveal_strlit("status");
        json::lemma_plain("status"@);
    }
    assert(json::string_body("finished_at"@)) by {
        reveal_strlit("finished_at");
        json::lemma_plain("finished_at"@);
    }
    assert(json::string_body("flow_id"@)) by {
        reveal_strlit("flow_id");
        json::lemma_plain("flow_id"@);
    }
    assert(json::string_body("flow_log_path"@)) by {
        reveal_strlit("flow_log_path");
        json::lemma_plain("flow_log_path"@);
    }
    assert(json::string_body("trace_id"@)) by {
        reveal_strlit("trace_id");
        json::lemma_plain("trace_id"@);
    }
    assert(json::string_body("error_kind"@)) by {
        reveal_strlit("error_kind");
        json::lemma_plain("error_kind"@);
    }
    assert(json::string_body("error_cause"@)) by {
        reveal_strlit("error_cause");
        json::lemma_plain("error_cause"@);
    }
    assert(json::string_body("failure_class"@)) by {
        reveal_strlit("failure_class");
        json::lemma_plain("failure_class"@);
    }
}

proof fn lemma_task_names()
    ensures
        json::string_body("title"@),
        json::string_body("status"@),
        json::string_body("owner_subject_id"@),
        json::string_body("flow_template"@),
        json::string_body("params_json"@),
        json::string_body("latest_result"@),
        json::string_body("latest_flow_id"@),
        json::string_body("latest_flow_log_path"@),
        json::string_body("error_kind"@),
        json::string_body("error_cause"@),
        json::string_body("created_at"@),
        json::string_body("updated_at"@),
        json::string_body("retry_count"@),
        json::string_body("retry_policy"@),
        json::string_body("max_retries"@),
        json::string_body("max_runtime_secs"@),
        json::string_body("last_failure_reason"@),
        json::string_body("last_failure_class"@),
        json::string_body("started_at"@),
        json::string_body("attempt_count"@),
        json::string_body("current_attempt_id"@),
        json::string_body("investigation_marked_at"@),
        json::string_body("investigation_reason"@),
        json::string_body("pause_generation"@),
        json::string_body("freeze_generation"@),
        json::string_body("frozen_at"@),
        json::string_body("frozen_reason"@),
        json::string_body("origin_surface"@),
        json::string_body("events"@),
{
    assert(json::string_body("title"@)) by {
        reveal_strlit("title");
        json::lemma_plain("title"@);
    }
    assert(json::string_body("status"@)) by {
        reveal_strlit("status");
        json::lemma_plain("status"@);
    }
    assert(json::string_body("owner_subject_id"@)) by {
        reveal_strlit("owner_subject_id");
        json::lemma_plain("owner_subject_id"@);
    }
    assert(json::string_body("flow_template"@)) by {
        reveal_strlit("flow_template");
        json::lemma_plain("flow_template"@);
    }
    assert(json::string_body("params_json"@)) by {
        reveal_strlit("params_json");
        json::lemma_plain("params_json"@);
    }
    assert(json::string_body("latest_result"@)) by {
        reveal_strlit("latest_result");
        json::lemma_plain("latest_result"@);
    }
    assert(json::string_body("latest_flow_id"@)) by {
        reveal_strlit("latest_flow_id");
        json::lemma_plain("latest_flow_id"@);
    }
    assert(json::string_body("latest_flow_log_path"@)) by {
        reveal_strlit("latest_flow_log_path");
        json::lemma_plain("latest_flow_log_path"@);
    }
    assert(json::string_body("error_kind"@)) by {
        reveal_strlit("error_kind");
        json::lemma_plain("error_kind"@);
    }
    assert(json::string_body("error_cause"@)) by {
        reveal_strlit("error_cause");
        json::lemma_plain("error_cause"@);
    }
    assert(json::string_body("created_at"@)) by {
        reveal_strlit("created_at");
        json::lemma_plain("created_at"@);
    }
    assert(json::string_body("updated_at"@)) by {
        reveal_strlit("updated_at");
        json::lemma_plain("updated_at"@);
    }
    assert(json::string_body("retry_count"@)) by {
        reveal_strlit("retry_count");
        json::lemma_plain("retry_count"@);
    }
    assert(json::string_body("retry_policy"@)) by {
        reveal_strlit("retry_policy");
        json::lemma_plain("retry_policy"@);
    }
    assert(json::string_body("max_retries"@)) by {
        reveal_strlit("max_retries");
        json::lemma_plain("max_retries"@);
    }
    assert(json::string_body("max_runtime_secs"@)) by {
        reveal_strlit("max_runtime_secs");
        json::lemma_plain("max_runtime_secs"@);
    }
    assert(json::string_body("last_failure_reason"@)) by {
        reveal_strlit("last_failure_reason");
        json::lemma_plain("last_failure_reason"@);
    }
    assert(json::string_body("last_failure_class"@)) by {
        reveal_strlit("last_failure_class");
        json::lemma_plain("last_failure_class"@);
    }
    assert(json::string_body("started_at"@)) by {
        reveal_strlit("started_at");
        json::lemma_plain("started_at"@);
    }
    assert(json::string_body("attempt_count"@)) by {
        reveal_strlit("attempt_count");
        json::lemma_plain("attempt_count"@);
    }
    assert(json::string_body("current_attempt_id"@)) by {
        reveal_strlit("current_attempt_id");
        json::lemma_plain("current_attempt_id"@);
    }
    assert(json::string_body("investigation_marked_at"@)) by {
        reveal_strlit("investigation_marked_at");
        json::lemma_plain("investigation_marked_at"@);
    }
    assert(json::string_body("investigation_reason"@)) by {
        reveal_strlit("investigation_reason");
        json::lemma_plain("investigation_reason"@);
    }
    assert(json::string_body("pause_generation"@)) by {
        reveal_strlit("pause_generation");
        json::lemma_plain("pause_generation"@);
    }
    assert(json::string_body("freeze_generation"@)) by {
        reveal_strlit("freeze_generation");
        json::lemma_plain("freeze_generation"@);
    }
    assert(json::string_body("frozen_at"@)) by {
        reveal_strlit("frozen_at");
        json::lemma_plain("frozen_at"@);
    }
    assert(json::string_body("frozen_reason"@)) by {
        reveal_strlit("frozen_reason");
        json::lemma_plain("frozen_reason"@);
    }
    assert(json::string_body("origin_surface"@)) by {
        reveal_strlit("origin_surface");
        json::lemma_plain("origin_surface"@);
    }
    assert(json::string_body("events"@)) by {
        reveal_strlit("events");
        json::lemma_plain("events"@);
    }
}

proof fn lemma_envelope_names()
    ensures
        json::string_body("schema_version"@),
        json::string_body("exported_at"@),
        json::string_body("task_id"@),
        json::string_body("task"@),
        json::string_body("attempts"@),
        json::string_body("mode"@),
        json::string_body("destructive"@),
        json::string_body("cutoff_ts"@),
        json::string_body("candidate_events"@),
        json::string_body("candidate_tasks"@),
        json::string_body("oldest_candidate_ts"@),
        json::string_body("newest_candidate_ts"@),
        json::string_body("by_task_status"@),
{
    assert(json::string_body("schema_version"@)) by {
        reveal_strlit("schema_version");
        json::lemma_plain("schema_version"@);
    }
    assert(json::string_body("exported_at"@)) by {
        reveal_strlit("exported_at");
        json::lemma_plain("exported_at"@);
    }
    assert(json::string_body("task_id"@)) by {
        reveal_strlit("task_id");
        json::lemma_plain("task_id"@);
    }
    assert(json::string_body("task"@)) by {
        reveal_strlit("task");
        json::lemma_plain("task"@);
    }
    assert(json::string_body("attempts"@)) by {
        reveal_strlit("attempts");
        json::lemma_plain("attempts"@);
    }
    assert(json::string_body("mode"@)) by {
        reveal_strlit("mode");
        json::lemma_plain("mode"@);
    }
    assert(json::string_body("destructive"@)) by {
        reveal_strlit("destructive");
        json::lemma_plain("destructive"@);
    }
    assert(json::string_body("cutoff_ts"@)) by {
        reveal_strlit("cutoff_ts");
        json::lemma_plain("cutoff_ts"@);
    }
    assert(json::string_body("candidate_events"@)) by {
        reveal_strlit("candidate_events");
        json::lemma_plain("candidate_events"@);
    }
    assert(json::string_body("candidate_tasks"@)) by {
        reveal_strlit("candidate_tasks");
        json::lemma_plain("candidate_tasks"@);
    }
    assert(json::string_body("oldest_candidate_ts"@)) by {
        reveal_strlit("oldest_candidate_ts");
        json::lemma_plain("oldest_candidate_ts"@);
    }
    assert(json::string_body("newest_candidate_ts"@)) by {
        reveal_strlit("newest_candidate_ts");
        json::lemma_plain("newest_candidate_ts"@);
    }
    assert(json::string_body("by_task_status"@)) by {
        reveal_strlit("by_task_status");
        json::lemma_plain("by_task_status"@);
    }
}

/// The structured payloads that the coordinator writes itself are flat JSON objects, whatever stands in
/// them.
pub proof fn law_payloads_are_json(a: Text, b: Text, o: Option<Text>, i: int, j: int, k: int)
    ensures
        json::json_at(update::thrash_json(a, i), 1),
        json::json_at(update::auto_marked_json(a, i), 1),
        json::json_at(retry::suppressed_json(a, i, j), 1),
        json::json_at(retry::exhausted_json(i, j, a), 1),
        json::json_at(retry::requested_json(i, j, a, b), 1),
        json::json_at(recover::interrupted_json(i, j, k), 1),
        json::json_at(recover::timed_out_json(i), 1),
        json::json_at(recover::deadline_summary_json(i, j, k), 1),
        json::json_at(recover::orphan_json(i, a), 1),
        json::json_at(attempts::started_json(i, j, o), 1),
        json::json_at(attempts::finished_json(i, a, o), 1),
        json::json_at(attempts::summary_json(a, i, j, k, b), 1),
{
    broadcast use json::lemma_with_text;
    broadcast use json::lemma_with_text_opt;
    broadcast use json::lemma_with_number;
    broadcast use json::lemma_with_value;

    lemma_payload_names();
    json::lemma_no_members(0);
    json::lemma_closed_objects(0);
}

/// Whether an event's structured payload, where it has one, is JSON nested no deeper than a limit.
pub open spec fn payload_at(e: EventRec, depth: nat) -> bool {
    e.payload_json matches Some(p) ==> json::json_at(p, depth)
}

/// Whether an event's structured payload, where it has one, is JSON.
pub open spec fn payload_holds(e: EventRec) -> bool {
    e.payload_json matches Some(p) ==> json::is_json(p)
}

/// An event with a proper payload is shown as a JSON object, by itself and with its task's id, one
/// level deeper than the payload.
pub proof fn law_events_are_json(x: OwnedEvent, depth: nat)
    requires
        payload_at(x.event, depth),
    ensures
        json::json_at(render::event_json(x.event), depth + 1),
        exists|t: Text| json::json_at(t, depth + 1) && reads::owned_event_line(x) == t + "\n"@,
{
    broadcast use json::lemma_with_text;
    broadcast use json::lemma_with_text_opt;
    broadcast use json::lemma_with_number;
    broadcast use json::lemma_with_number_opt;
    broadcast use json::lemma_with_value;

    lemma_event_names();
    json::lemma_no_members(depth);
    json::lemma_closed_objects(depth);
    let m = json::with_text(Seq::empty(), "task_id"@, x.task_id);
    assert(json::members_at(render::event_members(Seq::empty(), x.event), depth));
    assert(json::members_at(render::event_members(m, x.event), depth));
    let t = json::object(render::event_members(m, x.event));
    assert(json::json_at(t, depth + 1));
    assert(reads::owned_event_line(x) == t + "\n"@);
}

/// An attempt is shown as a JSON object.
pub proof fn law_attempts_are_json(a: AttemptRec, depth: nat)
    ensures
        json::json_at(render::attempt_json(a), depth + 1),
{
    broadcast use json::lemma_with_text;
    broadcast use json::lemma_with_text_opt;
    broadcast use json::lemma_with_number;
    broadcast use json::lemma_with_number_opt;

    lemma_attempt_names();
    json::lemma_no_members(depth);
    json::lemma_closed_objects(depth);
}

proof fn lemma_task_members(v: TaskDetail, depth: nat)
    requires
        forall|k: int| 0 <= k < v.events.len() ==> payload_at(#[trigger] v.events[k], depth),
    ensures
        json::members_at(render::task_members(v), depth + 2),
{
    broadcast use json::lemma_with_text;
    broadcast use json::lemma_with_text_opt;
    broadcast use json::lemma_with_number;
    broadcast use json::lemma_with_number_opt;
    broadcast use json::lemma_with_value;

    lemma_task_names();
    json::lemma_no_members(depth + 2);
    let items = render::event_jsons(v.events);
    assert forall|k: int| 0 <= k < items.len() implies json::json_at(#[trigger] items[k], depth + 1) by {
        law_events_are_json(OwnedEvent { task_id: Seq::empty(), event: v.events[k] }, depth);
    }
    assert(json::items_at(items, depth + 1)) by {
        reveal_with_fuel(json::items_at, 2);
    }
    json::law_built_texts_are_json(Seq::empty(), 0, items, Seq::empty(), depth + 1);
}

/// An archival snapshot is one JSON object, whatever characters stand in the task, its events and its
/// attempts. It nests the payloads of its events four levels down: in an event, in the list of events,
/// in the task and in the snapshot.
pub proof fn law_exports_are_json(e: ExportRec, depth: nat)
    requires
        forall|k: int| 0 <= k < e.view.events.len() ==> payload_at(#[trigger] e.view.events[k], depth),
    ensures
        json::json_at(render::export_json(e), depth + 4),
{
    broadcast use json::lemma_with_text;
    broadcast use json::lemma_with_number;
    broadcast use json::lemma_with_value;

    lemma_envelope_names();
    lemma_task_members(e.view, depth);
    json::lemma_no_members(depth + 3);
    json::lemma_closed_objects(depth + 2);
    json::lemma_closed_objects(depth + 3);
    let items = render::attempt_jsons(e.attempts);
    assert forall|k: int| 0 <= k < items.len() implies json::json_at(#[trigger] items[k], depth + 2) by {
        law_attempts_are_json(e.attempts[k], depth + 1);
    }
    assert(json::items_at(items, depth + 2)) by {
        reveal_with_fuel(json::items_at, 2);
    }
    json::law_built_texts_are_json(Seq::empty(), 0, items, Seq::empty(), depth + 2);
}

/// A retention report is one JSON object, whatever the statuses and the mode are called.
pub proof fn law_retention_reports_are_json(c: CompactRec, mode: Text)
    ensures
        json::is_json(render::compact_json(c, mode)),
{
    broadcast use json::lemma_with_text;
    broadcast use json::lemma_with_number;
    broadcast use json::lemma_with_number_opt;
    broadcast use json::lemma_with_value;

    lemma_envelope_names();
    json::lemma_no_members(1);
    json::lemma_closed_objects(0);
    json::lemma_closed_objects(1);
    let counts = render::count_members(c.by_task_status);
    assert forall|k: int| 0 <= k < counts.len() implies json::string_body((#[trigger] counts[k]).0) && json::json_at(
        counts[k].1,
        0,
    ) by {
        json::law_escaped_texts_are_strings(c.by_task_status[k].0);
        json::law_built_texts_are_json(Seq::empty(), c.by_task_status[k].1 as int, Seq::empty(), counts, 0);
    }
    assert(json::members_at(counts, 0));
    assert(json::json_at(render::compact_json(c, mode), 2));
}

/// The same of all payloads at once, with what `serde_json` writes.
proof fn lemma_emitted()
    ensures
        forall|f: outside::JsonFields| f.dom().finite() ==> json::is_json(#[trigger] outside::object_text(f)),
        forall|a: Text, i: int| json::is_json(#[trigger] update::thrash_json(a, i)),
        forall|a: Text, i: int| json::is_json(#[trigger] update::auto_marked_json(a, i)),
        forall|a: Text, i: int, j: int| json::is_json(#[trigger] retry::suppressed_json(a, i, j)),
        forall|a: Text, i: int, j: int| json::is_json(#[trigger] retry::exhausted_json(i, j, a)),
        forall|a: Text, b: Text, i: int, j: int| json::is_json(#[trigger] retry::requested_json(i, j, a, b)),
        forall|i: int, j: int, k: int| json::is_json(#[trigger] recover::interrupted_json(i, j, k)),
        forall|i: int| json::is_json(#[trigger] recover::timed_out_json(i)),
        forall|i: int, j: int, k: int| json::is_json(#[trigger] recover::deadline_summary_json(i, j, k)),
        forall|a: Text, i: int| json::is_json(#[trigger] recover::orphan_json(i, a)),
        forall|o: Option<Text>, i: int, j: int| json::is_json(#[trigger] attempts::started_json(i, j, o)),
        forall|a: Text, o: Option<Text>, i: int| json::is_json(#[trigger] attempts::finished_json(i, a, o)),
        forall|a: Text, b: Text, i: int, j: int, k: int| json::is_json(#[trigger] attempts::summary_json(a, i, j, k, b)),
{
    let e = Seq::<char>::empty();
    assert forall|f: outside::JsonFields| f.dom().finite() implies json::is_json(
        #[trigger] outside::object_text(f),
    ) by {
        json::lemma_object_texts(f, 0);
    }
    assert forall|a: Text, i: int| json::is_json(#[trigger] update::thrash_json(a, i)) by {
        law_payloads_are_json(a, e, None, i, 0, 0);
    }
    assert forall|a: Text, i: int| json::is_json(#[trigger] update::auto_marked_json(a, i)) by {
        law_payloads_are_json(a, e, None, i, 0, 0);
    }
    assert forall|a: Text, i: int, j: int| json::is_json(#[trigger] retry::suppressed_json(a, i, j)) by {
        law_payloads_are_json(a, e, None, i, j, 0);
    }
    assert forall|a: Text, i: int, j: int| json::is_json(#[trigger] retry::exhausted_json(i, j, a)) by {
        law_payloads_are_json(a, e, None, i, j, 0);
    }
    assert forall|a: Text, b: Text, i: int, j: int| json::is_json(#[trigger] retry::requested_json(i, j, a, b)) by {
        law_payloads_are_json(a, b, None, i, j, 0);
    }
    assert forall|i: int, j: int, k: int| json::is_json(#[trigger] recover::interrupted_json(i, j, k)) by {
        law_payloads_are_json(e, e, None, i, j, k);
    }
    assert forall|i: int| json::is_json(#[trigger] recover::timed_out_json(i)) by {
        law_payloads_are_json(e, e, None, i, 0, 0);
    }
    assert forall|i: int, j: int, k: int| json::is_json(#[trigger] recover::deadline_summary_json(i, j, k)) by {
        law_payloads_are_json(e, e, None, i, j, k);
    }
    assert forall|a: Text, i: int| json::is_json(#[trigger] recover::orphan_json(i, a)) by {
        law_payloads_are_json(a, e, None, i, 0, 0);
    }
    assert forall|o: Option<Text>, i: int, j: int| json::is_json(#[trigger] attempts::started_json(i, j, o)) by {
        law_payloads_are_json(e, e, o, i, j, 0);
    }
    assert forall|a: Text, o: Option<Text>, i: int| json::is_json(#[trigger] attempts::finished_json(i, a, o)) by {
        law_payloads_are_json(a, e, o, i, 0, 0);
    }
    assert forall|a: Text, b: Text, i: int, j: int, k: int| json::is_json(
        #[trigger] attempts::summary_json(a, i, j, k, b),
    ) by {
        law_payloads_are_json(a, b, None, i, j, k);
    }
}

/// Whether the structured payloads of all events are JSON.
pub open spec fn chronicle_holds(events: Seq<OwnedEvent>) -> bool {
    forall|k: int| 0 <= k < events.len() ==> payload_holds((#[trigger] events[k]).event)
}

broadcast proof fn lemma_chronicle_grows(events: Seq<OwnedEvent>, e: OwnedEvent)
    requires
        chronicle_holds(events),
        payload_holds(e.event),
    ensures
        #[trigger] chronicle_holds(events.push(e)),
{
}

/// Every operation writes structured payloads that are JSON, so a chronicle of such payloads stays one.
pub proof fn law_chronicles_hold_json(
    l: Ledger,
    now: i64,
    id: Text,
    c: ChangeRec,
    a: Option<Text>,
    b: Option<Text>,
    who: Text,
    word: Text,
    n: i64,
    marked: bool,
)
    requires
        chronicle_holds(l.events),
    ensures
        chronicle_holds(l.updated(now, id, c, a).0.events),
        chronicle_holds(l.retry_requested(now, id).0.events),
        chronicle_holds(l.event_appended(now, id, word, who).0.events),
        chronicle_holds(l.paused(now, id, a, b, who).0.events),
        chronicle_holds(l.resumed(now, id, who).0.events),
        chronicle_holds(l.frozen(now, id, a, b, who).0.events),
        chronicle_holds(l.unfrozen(now, id, who).0.events),
        chronicle_holds(l.observed(now, id, word, n, who).0.events),
        chronicle_holds(l.investigation_set(now, id, marked, a, b, who).0.events),
        chronicle_holds(l.noted(now, id, word, word, who).0.events),
{
    broadcast use lemma_chronicle_grows;

    lemma_emitted();
}

proof fn lemma_recovered_first(l: Ledger, now: i64, n: int)
    requires
        chronicle_holds(l.events),
    ensures
        chronicle_holds(l.recovered_first(now, n).0.events),
    decreases n,
{
    broadcast use lemma_chronicle_grows;

    if n > 0 {
        lemma_recovered_first(l, now, n - 1);
        lemma_emitted();
    }
}

proof fn lemma_orphans_closed_first(l: Ledger, now: i64, n: int)
    requires
        chronicle_holds(l.events),
    ensures
        chronicle_holds(l.orphans_closed_first(now, n).0.events),
    decreases n,
{
    broadcast use lemma_chronicle_grows;

    if n > 0 {
        lemma_orphans_closed_first(l, now, n - 1);
        lemma_emitted();
    }
}

/// The same of the scans, of edges and of replays.
pub proof fn law_scans_and_edges_write_json(
    l: Ledger,
    now: i64,
    q: EdgeRequest,
    edge_now: i64,
    new_id: Text,
    id: Text,
    producer: Text,
)
    requires
        chronicle_holds(l.events),
    ensures
        chronicle_holds(l.recovered(now).0.events),
        chronicle_holds(l.orphans_closed(now).0.events),
        chronicle_holds(l.edge_recorded(now, q).0.events),
        chronicle_holds(l.replayed(now, edge_now, new_id, id, producer).0.events),
{
    broadcast use lemma_chronicle_grows;

    let n = l.tasks.len() as int;
    lemma_recovered_first(l, now, n);
    let m = l.recovered_first(now, n).0;
    lemma_orphans_closed_first(m, now, m.attempts.len() as int);
    lemma_orphans_closed_first(l, now, l.attempts.len() as int);
    lemma_emitted();
}

proof fn lemma_common_depth(events: Seq<EventRec>) -> (depth: nat)
    requires
        forall|k: int| 0 <= k < events.len() ==> payload_holds(#[trigger] events[k]),
    ensures
        forall|k: int| 0 <= k < events.len() ==> payload_at(#[trigger] events[k], depth),
    decreases events.len(),
{
    if events.len() == 0 {
        0
    } else {
        let rest = events.drop_last();
        assert forall|k: int| 0 <= k < rest.len() implies payload_holds(#[trigger] rest[k]) by {
            assert(rest[k] == events[k]);
        }
        let d = lemma_common_depth(rest);
        let last = events[events.len() - 1];
        let own: nat = match last.payload_json {
            Some(p) => choose|n: nat| json::json_at(p, n),
            None => 0,
        };
        let depth = d + own;
        assert forall|k: int| 0 <= k < events.len() implies payload_at(#[trigger] events[k], depth) by {
            if let Some(p) = events[k].payload_json {
                if k < rest.len() {
                    assert(payload_at(rest[k], d));
                    json::law_deeper_limits_keep_json(p, d, depth);
                } else {
                    assert(payload_holds(last));
                    json::law_deeper_limits_keep_json(p, own, depth);
                }
            }
        }
        depth
    }
}

/// Where a chronicle holds JSON, every task's archival snapshot is JSON.
pub proof fn law_tasks_are_exported_as_json(l: Ledger, now: i64, id: Text)
    requires
        chronicle_holds(l.events),
        l.has(id),
    ensures
        l.exported(now, id) is Ok,
        json::is_json(render::export_json(l.exported(now, id)->Ok_0)),
{
    let e = l.exported(now, id)->Ok_0;
    let f = query::pick_own(id);
    assert forall|k: int| 0 <= k < e.view.events.len() implies payload_holds(#[trigger] e.view.events[k]) by {
        assert(e.view.events.contains(e.view.events[k]));
        l.events.lemma_filter_map_contains(f, e.view.events[k]);
        let x = choose|x: OwnedEvent| #[trigger] l.events.contains(x) && f(x) == Some(e.view.events[k]);
        let i = choose|i: int| 0 <= i < l.events.len() && l.events[i] == x;
        assert(payload_holds(l.events[i].event));
    }
    let depth = lemma_common_depth(e.view.events);
    law_exports_are_json(e, depth);
}

} // verus!
