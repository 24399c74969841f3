use relix_nodes::coordinator::ledger::TaskStore;
use relix_nodes::coordinator::render::render_task_export;
use relix_nodes::coordinator::router::{capabilities, dispatch, serve, Capability, Moment};
use relix_nodes::coordinator::spine::{methods, resume, route, Kind, Pending, SpineCall, SpineError, SpineEvent, SpineStep};
use relix_nodes::coordinator::vocab::ErrorKind;
use relix_nodes::dispatch::{ErrorEnvelope, HandlerOutcome, InvocationCtx};

fn ctx(args: &[u8]) -> InvocationCtx {
    InvocationCtx {
        args: args.to_vec(),
        caller_subject_id: "caller-1".to_string(),
        tenant_id: "tenant-1".to_string(),
    }
}

fn store() -> TaskStore {
    TaskStore::in_memory().unwrap()
}

fn shout(s: &str) -> String {
    s.to_uppercase()
}

/// Serves a call at a time; new tasks get the id `new-<now>`.
fn at(s: &mut TaskStore, now: i64, c: Capability, args: &str) -> Result<String, ErrorEnvelope> {
    let m = Moment {
        now,
        edge_now: now + 1,
        fresh_id: Some(format!("new-{now}")),
    };
    assert!(s.is_sound() && s.has_room());
    let out = serve(s, c, &ctx(args.as_bytes()), m, &shout);
    assert!(s.is_sound());
    match out {
        HandlerOutcome::Done(b) => Ok(String::from_utf8(b).unwrap()),
        HandlerOutcome::Failed(e) => Err(e),
    }
}

fn refused(r: Result<String, ErrorEnvelope>) -> String {
    let e = r.expect_err("expected a refusal");
    assert_eq!(e.kind, ErrorKind::InvalidArgs);
    assert_eq!(e.retry_hint, 2);
    assert_eq!(e.retry_after, None);
    e.cause
}

#[test]
fn every_capability_is_found_by_its_name() {
    let all = capabilities();
    assert_eq!(all.len(), 35);
    for c in all {
        assert_eq!(Capability::parse(c.name()), Some(c));
    }
    assert_eq!(Capability::parse("task.unknown"), None);
    assert!(dispatch(&mut store(), "task.unknown", &ctx(b""), &shout).is_none());
}

#[test]
fn create_takes_its_fields_and_refuses_bad_ones() {
    let mut s = store();
    let id = at(&mut s, 100, Capability::Create, "t|f|{}||bounded|2|60|chat").unwrap();
    assert_eq!(id, "new-100");
    let v = s.get(&id).unwrap().unwrap();
    assert_eq!(v.owner_subject_id, "caller-1");
    assert_eq!(v.retry_policy, "bounded");
    assert_eq!(v.max_retries, 2);
    assert_eq!(v.max_runtime_secs, Some(60));
    assert_eq!(v.origin_surface.as_deref(), Some("chat"));
    assert_eq!(v.created_at, 100);
    for (args, cause) in [
        ("|f", "task.create: `title` and `flow_template` are required"),
        ("t|f|||often", "task.create: bad retry_policy: often"),
        ("t|f||||-1", "task.create: bad max_retries: -1"),
        ("t|f|||||0", "task.create: bad max_runtime_secs: 0"),
    ] {
        assert_eq!(refused(at(&mut s, 101, Capability::Create, args)), cause);
    }
}

#[test]
fn without_a_fresh_id_no_task_is_made() {
    let mut s = store();
    let id = at(&mut s, 1, Capability::Create, "t|f").unwrap();
    let calls = [
        (Capability::Create, "t|f".to_string(), "task.create"),
        (Capability::Replay, id, "task.replay"),
    ];
    for (c, args, name) in calls {
        let m = Moment {
            now: 2,
            edge_now: 2,
            fresh_id: None,
        };
        match serve(&mut s, c, &ctx(args.as_bytes()), m, &shout) {
            HandlerOutcome::Failed(e) => {
                assert_eq!(e.kind, ErrorKind::ResponderInternal);
                assert_eq!(
                    e.cause,
                    format!("{name}: io: the random source of the operating system failed")
                );
            }
            other => panic!("{other:?}"),
        }
    }
    let m = Moment {
        now: 2,
        edge_now: 2,
        fresh_id: None,
    };
    match serve(&mut s, Capability::Replay, &ctx(b"nope"), m, &shout) {
        HandlerOutcome::Failed(e) => assert_eq!(e.cause, "task.replay: not found: nope"),
        other => panic!("{other:?}"),
    }
    assert_eq!(s.tasks.len(), 1);
    assert!(s.edges.is_empty());
}

#[test]
fn bad_utf8_is_named_in_the_refusal() {
    let mut s = store();
    match dispatch(&mut s, "task.create", &ctx(&[b'a', 0xff, b'b']), &shout) {
        Some(HandlerOutcome::Failed(e)) => {
            assert_eq!(e.kind, ErrorKind::InvalidArgs);
            assert_eq!(e.cause, "task.create utf8: invalid utf-8 sequence of 1 bytes from index 1");
        }
        other => panic!("{other:?}"),
    }
    match dispatch(&mut s, "task.get", &ctx(&[0xe2, 0x82]), &shout) {
        Some(HandlerOutcome::Failed(e)) => {
            assert_eq!(e.cause, "task.get utf8: incomplete utf-8 byte sequence from index 0");
        }
        other => panic!("{other:?}"),
    }
}

#[test]
fn update_redacts_causes_and_checks_its_words() {
    let mut s = store();
    let id = at(&mut s, 10, Capability::Create, "t|f").unwrap();
    let trace = "0123456789abcdef0123456789abcdef";
    let args = format!("{id}|running|||||||{trace}");
    assert_eq!(at(&mut s, 11, Capability::Update, &args).unwrap(), "ok\n");
    let args = format!("{id}|failed||flow-1|/log|7|secret cause|transient");
    at(&mut s, 20, Capability::Update, &args).unwrap();
    let v = s.get(&id).unwrap().unwrap();
    assert_eq!(v.error_cause.as_deref(), Some("SECRET CAUSE"));
    assert_eq!(v.error_kind, Some(7));
    let rows = at(&mut s, 21, Capability::Attempts, &id).unwrap();
    assert_eq!(rows, "1\tfailed\t11\t20\ttransient\tflow-1\n");
    assert_eq!(
        refused(at(&mut s, 22, Capability::Update, "")),
        "task.update: task_id required"
    );
    assert_eq!(
        refused(at(&mut s, 22, Capability::Update, "nope|running")),
        "task.update: not found: nope"
    );
    assert_eq!(
        refused(at(&mut s, 22, Capability::Update, "nope|failed||||7|cause|transient")),
        "task.update: not found: nope"
    );
    assert_eq!(
        refused(at(&mut s, 22, Capability::Update, &format!("{id}|||||||odd"))),
        "task.update: bad failure_class: odd"
    );
    assert_eq!(
        refused(at(&mut s, 22, Capability::Update, &format!("{id}||||||||xyz"))),
        "task.update: bad trace_id (want 32 hex chars): xyz"
    );
}

#[test]
fn events_are_appended_and_read_back() {
    let mut s = store();
    let id = at(&mut s, 10, Capability::Create, "t|f").unwrap();
    assert_eq!(at(&mut s, 11, Capability::Event, &format!("{id}|step|a|b")).unwrap(), "1");
    assert_eq!(at(&mut s, 12, Capability::Event, &format!("{id}|note|\"q\"")).unwrap(), "2");
    assert_eq!(
        at(&mut s, 13, Capability::Events, &id).unwrap(),
        "{\"id\":1,\"ts\":11,\"type\":\"step\",\"payload\":\"a|b\"}\n\
         {\"id\":2,\"ts\":12,\"type\":\"note\",\"payload\":\"\\\"q\\\"\"}\n"
    );
    let newest = at(&mut s, 13, Capability::Events, &format!("{id}|0|1||desc")).unwrap();
    assert!(newest.starts_with("{\"id\":2,"));
    let typed = at(&mut s, 13, Capability::Events, &format!("{id}|0||step")).unwrap();
    assert!(typed.starts_with("{\"id\":1,") && typed.lines().count() == 1);
    assert_eq!(
        refused(at(&mut s, 13, Capability::Events, &format!("{id}||||up"))),
        "task.events: bad order: up"
    );
    assert_eq!(
        refused(at(&mut s, 13, Capability::Events, "nope")),
        "task.events: not found: nope"
    );
    assert_eq!(
        refused(at(&mut s, 13, Capability::Event, &format!("{id}|"))),
        "task.event: task_id and event_type required"
    );
    let all = at(&mut s, 13, Capability::RecentEvents, "0|1").unwrap();
    assert!(all.starts_with(&format!("{{\"task_id\":\"{id}\",\"id\":2,")));
}

#[test]
fn listing_counting_and_cursors() {
    let mut s = store();
    let a = at(&mut s, 1, Capability::Create, "first\ttask|f").unwrap();
    let b = at(&mut s, 2, Capability::Create, "second|f").unwrap();
    at(&mut s, 5, Capability::Update, &format!("{a}|running")).unwrap();
    assert_eq!(
        at(&mut s, 6, Capability::List, "").unwrap(),
        format!("{a}\trunning\tfirst task\n{b}\tpending\tsecond\n")
    );
    assert_eq!(
        at(&mut s, 6, Capability::List, "1|1").unwrap(),
        format!("{b}\tpending\tsecond\n")
    );
    assert_eq!(at(&mut s, 6, Capability::List, "0").unwrap(), "");
    assert_eq!(at(&mut s, 6, Capability::Count, "").unwrap(), "count=2\n");
    assert_eq!(at(&mut s, 6, Capability::Count, "running").unwrap(), "count=1\n");
    assert_eq!(
        at(&mut s, 6, Capability::ListCursor, "1").unwrap(),
        format!("{a}\trunning\tfirst task\t5\t\nnext_cursor=5:{a}\n")
    );
    assert_eq!(
        at(&mut s, 6, Capability::ListCursor, &format!("1||5:{a}")).unwrap(),
        format!("{b}\tpending\tsecond\t2\t\nnext_cursor=2:{b}\n")
    );
    assert_eq!(
        at(&mut s, 6, Capability::ListCursor, &format!("1||2:{b}")).unwrap(),
        "next_cursor=\n"
    );
}

#[test]
fn retries_run_through_their_budget() {
    let mut s = store();
    let id = at(&mut s, 1, Capability::Create, "t|f|{}||bounded|1").unwrap();
    assert_eq!(
        refused(at(&mut s, 2, Capability::Retry, &id)),
        "task.retry: task is in status `pending`, not failed/interrupted"
    );
    at(&mut s, 3, Capability::Update, &format!("{id}|running")).unwrap();
    at(&mut s, 4, Capability::Update, &format!("{id}|failed||||||transient")).unwrap();
    assert_eq!(
        at(&mut s, 5, Capability::Retry, &id).unwrap(),
        "accepted attempt=1 of_budget=1\n"
    );
    at(&mut s, 6, Capability::Update, &format!("{id}|running")).unwrap();
    at(&mut s, 7, Capability::Update, &format!("{id}|failed")).unwrap();
    assert_eq!(
        at(&mut s, 8, Capability::Retry, &id).unwrap(),
        "exhausted retry_count=1 budget=1\n"
    );
    assert_eq!(s.get(&id).unwrap().unwrap().retry_count, 1);
    assert_eq!(
        refused(at(&mut s, 9, Capability::Retry, "nope")),
        "task.retry: not found: nope"
    );
    let edges = at(&mut s, 9, Capability::Edges, &id).unwrap();
    let cols: Vec<&str> = edges.trim_end().split('\t').collect();
    assert_eq!(cols[0], "1");
    assert_eq!(cols[1], "retried_from");
    assert_eq!(cols[6], "6");
    let recent = at(&mut s, 9, Capability::RecentEdges, "").unwrap();
    assert!(recent.starts_with(&format!("1\tretried_from\t{id}\t")));
}

#[test]
fn pause_resume_freeze_and_unfreeze_tell_what_they_found() {
    let mut s = store();
    let id = at(&mut s, 1, Capability::Create, "t|f").unwrap();
    at(&mut s, 2, Capability::Update, &format!("{id}|running")).unwrap();
    assert_eq!(
        at(&mut s, 3, Capability::Pause, &format!("{id}|because")).unwrap(),
        "prior_status=running\n"
    );
    assert_eq!(s.get(&id).unwrap().unwrap().status, "paused");
    assert_eq!(
        at(&mut s, 4, Capability::Resume, &id).unwrap(),
        "pre_pause_status=running\n"
    );
    assert_eq!(s.get(&id).unwrap().unwrap().status, "pending");
    assert_eq!(
        at(&mut s, 5, Capability::Freeze, &format!("{id}|stop now")).unwrap(),
        "prior_status=pending\n"
    );
    let v = s.get(&id).unwrap().unwrap();
    assert_eq!(v.status, "frozen");
    assert_eq!(v.frozen_reason.as_deref(), Some("STOP NOW"));
    assert_eq!(
        at(&mut s, 6, Capability::Unfreeze, &id).unwrap(),
        "pre_freeze_status=pending\n"
    );
    assert_eq!(s.get(&id).unwrap().unwrap().frozen_reason, None);
    let check = at(&mut s, 7, Capability::InterruptionCheck, &id).unwrap();
    assert!(check.contains("pause_generation=2"), "{check}");
    assert!(check.contains("freeze_generation=2"), "{check}");
    let e = at(&mut s, 7, Capability::Resume, &id).unwrap_err();
    assert_eq!(e.kind, ErrorKind::InvalidArgs);
    let e = at(&mut s, 7, Capability::Unfreeze, &id).unwrap_err();
    assert_eq!(e.kind, ErrorKind::InvalidArgs);
}

#[test]
fn notes_and_marks_are_redacted() {
    let mut s = store();
    let id = at(&mut s, 1, Capability::Create, "t|f").unwrap();
    assert_eq!(
        at(&mut s, 2, Capability::Note, &format!("{id}|see|this")).unwrap(),
        "event_id=1\n"
    );
    let events = at(&mut s, 3, Capability::Events, &id).unwrap();
    assert!(events.contains("SEE|THIS"), "{events}");
    assert_eq!(
        at(&mut s, 4, Capability::MarkInvestigation, &format!("{id}|1|odd one")).unwrap(),
        "marked_at=4\n"
    );
    let v = s.get(&id).unwrap().unwrap();
    assert_eq!(v.investigation_marked_at, Some(4));
    assert_eq!(v.investigation_reason.as_deref(), Some("ODD ONE"));
    assert_eq!(
        refused(at(&mut s, 5, Capability::MarkInvestigation, &format!("{id}|on|odd"))),
        "task.mark_investigation: invalid marked flag 'on' (expected 0|1)"
    );
    assert_eq!(
        refused(at(&mut s, 5, Capability::MarkInvestigation, "|1")),
        "task.mark_investigation: task_id required (arg shape: task_id|0|1|reason)"
    );
    let long = "x".repeat(5000);
    let e = at(&mut s, 5, Capability::MarkInvestigation, &format!("{id}|1|{long}")).unwrap_err();
    assert_eq!(e.kind, ErrorKind::InvalidArgs);
    assert_eq!(s.get(&id).unwrap().unwrap().investigation_marked_at, Some(4));
    // Clearing the marker takes no reason, so one that is too long does no harm.
    assert_eq!(
        at(&mut s, 6, Capability::MarkInvestigation, &format!("{id}|0|{long}")).unwrap(),
        "marked_at=\n"
    );
    let v = s.get(&id).unwrap().unwrap();
    assert_eq!(v.investigation_marked_at, None);
    assert_eq!(v.investigation_reason, None);
    assert_eq!(
        refused(at(&mut s, 5, Capability::Note, &format!("{id}|"))),
        "task.note: note text required (arg shape: task_id|note)"
    );
    assert_eq!(
        refused(at(&mut s, 5, Capability::Note, "nope|x")),
        "task.note: not found: nope"
    );
}

#[test]
fn todos_are_set_listed_and_updated() {
    let mut s = store();
    let id = at(&mut s, 1, Capability::Create, "t|f").unwrap();
    assert_eq!(
        at(&mut s, 2, Capability::TodoSet, &format!("{id}| one \n\n two\tb ")).unwrap(),
        "0\t1\topen\tONE\n1\t2\topen\tTWO B\ncount=2\n"
    );
    assert_eq!(
        at(&mut s, 3, Capability::TodoUpdate, &format!("{id}|2|done")).unwrap(),
        "1\t2\tdone\tTWO B\n"
    );
    assert_eq!(
        at(&mut s, 4, Capability::TodoList, &id).unwrap(),
        "0\t1\topen\tONE\n1\t2\tdone\tTWO B\ncount=2\n"
    );
    assert_eq!(
        refused(at(&mut s, 5, Capability::TodoUpdate, &format!("{id}|9|done"))),
        format!("task.todo_update: todo not found: task={id} todo_id=9")
    );
    assert_eq!(
        refused(at(&mut s, 5, Capability::TodoUpdate, &format!("{id}|2|half"))),
        "task.todo_update: status must be 'open' or 'done', got 'half'"
    );
    assert_eq!(
        refused(at(&mut s, 5, Capability::TodoUpdate, &format!("{id}|x|done"))),
        "task.todo_update: invalid todo_id 'x'"
    );
    assert_eq!(
        refused(at(&mut s, 5, Capability::TodoSet, "nope|x")),
        "task.todo_set: task not found: nope"
    );
    assert_eq!(
        refused(at(&mut s, 5, Capability::TodoSet, "nope")),
        "task.todo_set: arg shape `<task_id>|<text...>`"
    );
    assert_eq!(
        at(&mut s, 6, Capability::TodoSet, &format!("{id}|")).unwrap(),
        "count=0\n"
    );
}

#[test]
fn stuck_and_recovered_tasks() {
    let mut s = store();
    let free = at(&mut s, 1, Capability::Create, "free|f").unwrap();
    let bound = at(&mut s, 2, Capability::Create, "bound|f|||||10").unwrap();
    at(&mut s, 10, Capability::Update, &format!("{free}|running")).unwrap();
    at(&mut s, 20, Capability::Update, &format!("{bound}|running")).unwrap();
    assert_eq!(
        at(&mut s, 400, Capability::Stuck, "").unwrap(),
        format!("{free}\tfree\t10\t390\ncount=1\n")
    );
    assert_eq!(
        at(&mut s, 400, Capability::Stuck, "389").unwrap(),
        format!("{free}\tfree\t10\t390\ncount=1\n")
    );
    assert_eq!(at(&mut s, 400, Capability::Stuck, "390").unwrap(), "count=0\n");
    assert_eq!(
        refused(at(&mut s, 400, Capability::Stuck, "-1")),
        "task.stuck: threshold must be non-negative"
    );
    assert_eq!(
        refused(at(&mut s, 400, Capability::Stuck, "soon")),
        "task.stuck: invalid threshold 'soon' (expected integer seconds)"
    );
    assert_eq!(at(&mut s, 25, Capability::Recover, "").unwrap(), "recovered=0\n");
    assert_eq!(
        at(&mut s, 400, Capability::Recover, "").unwrap(),
        format!("{bound}\nrecovered=1\n")
    );
    assert_eq!(at(&mut s, 401, Capability::Recover, "").unwrap(), "recovered=0\n");
}

#[test]
fn lineage_is_walked_breadth_first() {
    let mut s = store();
    for i in 0..5 {
        at(&mut s, 100 + i, Capability::Create, &format!("t{i}|f")).unwrap();
    }
    let id = |i: i64| format!("new-{}", 100 + i);
    // A short way to the last task, found after a long one.
    for (parent, child) in [(0, 1), (1, 2), (2, 3), (3, 4), (0, 3)] {
        let args = format!("{}|{}", id(parent), id(child));
        let out = at(&mut s, 200, Capability::RecordSpawned, &args).unwrap();
        assert!(out.starts_with("edge_id="), "{out}");
    }
    let g = s.task_lineage(&id(0), 2).unwrap();
    let mut tasks = g.tasks.clone();
    tasks.sort();
    assert_eq!(g.tasks[0], id(0));
    assert_eq!(tasks, vec![id(0), id(1), id(2), id(3), id(4)]);
    // The root comes first, the others in the order of their names.
    let from_the_middle = s.task_lineage(&id(3), 2).unwrap();
    assert_eq!(from_the_middle.tasks, vec![id(3), id(0), id(1), id(2), id(4)]);
    let near = s.task_lineage(&id(0), 1).unwrap();
    let mut tasks = near.tasks.clone();
    tasks.sort();
    assert_eq!(tasks, vec![id(0), id(1), id(3)]);
    let body = at(&mut s, 300, Capability::Lineage, &format!("{}|1", id(0))).unwrap();
    let lines: Vec<&str> = body.lines().collect();
    assert_eq!(lines[0], format!("root={}", id(0)));
    // Each edge has an end among the root, its child and its grandchild by the short way.
    assert_eq!(lines[2], "cross_task_edges=5");
    assert_eq!(lines[3], "max_depth=1");
    assert_eq!(lines.len(), 9);
    let metrics = at(&mut s, 300, Capability::SubtreeMetrics, &id(0)).unwrap();
    assert!(metrics.contains("total_tasks=5\n"), "{metrics}");
    assert!(metrics.contains("active_pending=5\n"), "{metrics}");
    assert!(metrics.contains("tasks_with_missing_timing=5\n"), "{metrics}");
}

#[test]
fn edges_need_two_known_tasks() {
    let mut s = store();
    let a = at(&mut s, 1, Capability::Create, "a|f").unwrap();
    let b = at(&mut s, 2, Capability::Create, "b|f").unwrap();
    for c in [
        Capability::RecordSpawned,
        Capability::RecordDelegated,
        Capability::RecordAwaited,
    ] {
        assert!(at(&mut s, 3, c, &format!("{a}|{b}")).is_ok());
        assert!(at(&mut s, 3, c, &format!("{a}|{a}")).is_err());
        assert!(at(&mut s, 3, c, &format!("{a}|nope")).is_err());
        assert!(at(&mut s, 3, c, "").is_err());
    }
    assert_eq!(s.edges.len(), 3);
    assert_eq!(s.edges[1].edge_type, "delegated_to");
    assert_eq!(s.edges[2].edge_type, "awaited");
}

#[test]
fn replay_copies_a_task() {
    let mut s = store();
    let a = at(&mut s, 1, Capability::Create, "a|f|p|o|once").unwrap();
    let b = at(&mut s, 2, Capability::Replay, &a).unwrap();
    assert_eq!(b, "new-2");
    let v = s.get(&b).unwrap().unwrap();
    assert_eq!(v.title, "a (replay)");
    assert_eq!(v.status, "pending");
    assert_eq!(v.params_json, "p");
    let edges = s.list_edges_for_task(&b).unwrap();
    assert_eq!(edges.len(), 1);
    assert_eq!(edges[0].edge_type, "retried_from");
    assert_eq!(edges[0].created_at, 3);
    let events = s.list_events_after(&b, 0, 100).unwrap();
    assert_eq!(events.len(), 1);
    assert_eq!(events[0].event_type, "task.replayed_from");
    assert_eq!(events[0].payload, format!("from={a}"));
    assert_eq!(
        refused(at(&mut s, 4, Capability::Replay, "nope")),
        "task.replay: not found: nope"
    );
}

#[test]
fn transitions_can_be_asked_about() {
    let mut s = store();
    let id = at(&mut s, 1, Capability::Create, "a|f").unwrap();
    assert_eq!(
        at(&mut s, 2, Capability::TransitionCheck, &format!("{id}|running")).unwrap(),
        "allowed=true\ncurrent_status=pending\ntarget_status=running\n"
    );
    assert_eq!(
        at(&mut s, 2, Capability::TransitionCheck, &format!("{id}|completed")).unwrap(),
        "allowed=false\ncurrent_status=pending\ntarget_status=completed\n"
    );
    assert_eq!(
        refused(at(&mut s, 2, Capability::TransitionCheck, &id)),
        "task.transition_check: arg shape `task_id|target_status`"
    );
}

#[test]
fn exports_carry_nested_payloads() {
    let mut s = store();
    let id = at(&mut s, 1, Capability::Create, "t|f").unwrap();
    at(&mut s, 2, Capability::Note, &format!("{id}|kind|seen")).unwrap();
    let mut export = s.export_task_at(9, &id).unwrap();
    let payload = "{ \"a\" :\n[1.5e-3, -0, {\"b\": [ ], \"c\": {} }, null] }";
    export.view.events[0].payload_json = Some(payload.to_string());
    let text = render_task_export(&export);
    let v: serde_json::Value = serde_json::from_str(&text).unwrap();
    let inner: serde_json::Value = serde_json::from_str(payload).unwrap();
    assert_eq!(v["task"]["events"][0]["payload_json"], inner);
}

#[test]
fn exports_and_dry_runs_are_json() {
    let mut s = store();
    let id = at(&mut s, 1, Capability::Create, "a \"b\"|f||||||dashboard").unwrap();
    at(&mut s, 2, Capability::Update, &format!("{id}|running")).unwrap();
    at(&mut s, 3, Capability::Update, &format!("{id}|completed|done")).unwrap();
    let text = at(&mut s, 9, Capability::Export, &id).unwrap();
    let v: serde_json::Value = serde_json::from_str(&text).unwrap();
    assert_eq!(v["schema_version"], 1);
    assert_eq!(v["exported_at"], 9);
    assert_eq!(v["task"]["title"], "a \"b\"");
    assert_eq!(v["task"]["origin_surface"], "dashboard");
    assert_eq!(v["attempts"][0]["status"], "completed");
    let text = at(&mut s, 1000, Capability::CompactEvents, "10").unwrap();
    let v: serde_json::Value = serde_json::from_str(&text).unwrap();
    assert_eq!(v["cutoff_ts"], 990);
    assert_eq!(v["candidate_tasks"], 1);
    assert_eq!(v["by_task_status"]["completed"], v["candidate_events"]);
    let cause = refused(at(&mut s, 1000, Capability::CompactEvents, "10|de\"lete"));
    assert!(cause.starts_with("task.compact_events: mode \"de\\\"lete\" not implemented"), "{cause}");
}

#[test]
fn interruptions_are_observed() {
    let mut s = store();
    let id = at(&mut s, 1, Capability::Create, "a|f").unwrap();
    at(&mut s, 2, Capability::Pause, &id).unwrap();
    let out = at(&mut s, 3, Capability::ObserveInterruption, &format!("{id}|pause|1")).unwrap();
    assert!(out.starts_with("event_id="), "{out}");
    assert!(at(&mut s, 3, Capability::ObserveInterruption, &format!("{id}|odd|1")).is_err());
    assert!(at(&mut s, 3, Capability::ObserveInterruption, &format!("{id}|pause|-1")).is_err());
}

fn first_call(method: &str, args: &str) -> (SpineCall<String>, Pending<String>) {
    match route(method, &ctx(args.as_bytes())) {
        Some(SpineStep::Call(c, p)) => (c, p),
        Some(SpineStep::Done(_)) => panic!("expected a call of the store"),
        None => panic!("no such method"),
    }
}

fn reply(step: SpineStep) -> HandlerOutcome {
    match step {
        SpineStep::Done(out) => out,
        SpineStep::Call(c, _) => panic!("unexpected call {c:?}"),
    }
}

fn cause(out: HandlerOutcome) -> (ErrorKind, String) {
    match out {
        HandlerOutcome::Failed(e) => (e.kind, e.cause),
        HandlerOutcome::Done(_) => panic!("expected a failure"),
    }
}

#[test]
fn mandates_are_created_for_the_callers_tenant() {
    let (call, pending) = first_call("mandate.create", " goal |why| |parent");
    assert_eq!(
        call,
        SpineCall::CreateMandate {
            tenant: "tenant-1".to_string(),
            title: "goal".to_string(),
            description: "why".to_string(),
            owner: None,
            parent: Some("parent".to_string()),
        }
    );
    assert_eq!(pending, Pending::Create(Kind::Mandate));
    let out = reply(resume(pending.clone(), SpineEvent::Created("m-1".to_string())));
    assert_eq!(out, HandlerOutcome::Done(b"m-1".to_vec()));
    let bad = SpineError::BadInput {
        what: "no parent".to_string(),
        text: "bad input: no parent".to_string(),
    };
    assert_eq!(
        cause(reply(resume(pending, SpineEvent::Failed(bad)))),
        (ErrorKind::InvalidArgs, "mandate.create: no parent".to_string())
    );
    match route("mandate.create", &ctx(b"  |x")) {
        Some(SpineStep::Done(out)) => assert_eq!(
            cause(out).1,
            "mandate.create: title required (title|description|owner|parent)"
        ),
        _ => panic!("expected a refusal"),
    }
}

#[test]
fn campaigns_are_changed_only_behind_the_guard() {
    let (call, pending) = first_call("campaign.update", "c-1|status|done");
    assert_eq!(
        call,
        SpineCall::Find {
            kind: Kind::Campaign,
            tenant: "tenant-1".to_string(),
            id: "c-1".to_string(),
        }
    );
    let missing = resume(pending.clone(), SpineEvent::Found(None));
    assert_eq!(cause(reply(missing)).0, ErrorKind::InvalidArgs);
    match resume(pending, SpineEvent::Found(Some(b"{}".to_vec()))) {
        SpineStep::Call(c, p) => {
            assert_eq!(
                c,
                SpineCall::SetField {
                    kind: Kind::Campaign,
                    id: "c-1".to_string(),
                    field: "status".to_string(),
                    value: "done".to_string(),
                }
            );
            assert!(matches!(reply(resume(p, SpineEvent::Changed)), HandlerOutcome::Done(_)));
        }
        SpineStep::Done(_) => panic!("expected the change"),
    }
}

#[test]
fn announced_spine_methods_are_the_routed_ones() {
    let all = methods();
    assert_eq!(all.len(), 8);
    assert_eq!(all[0], "mandate.create");
    assert_eq!(all[7], "campaign.update");
    for method in &all {
        assert!(route(method, &ctx(b"")).is_some(), "{method}");
    }
    assert!(route("mandate.delete", &ctx(b"")).is_none());
}

#[test]
fn spine_objects_are_read_and_listed_as_they_come() {
    let (call, pending) = first_call("mandate.get", " m-1 ");
    assert_eq!(
        call,
        SpineCall::Find {
            kind: Kind::Mandate,
            tenant: "tenant-1".to_string(),
            id: "m-1".to_string(),
        }
    );
    let out = reply(resume(pending, SpineEvent::Found(Some(b"{\"id\":1}".to_vec()))));
    assert_eq!(out, HandlerOutcome::Done(b"{\"id\":1}".to_vec()));
    let (call, pending) = first_call("campaign.list", "");
    assert_eq!(
        call,
        SpineCall::List {
            kind: Kind::Campaign,
            tenant: "tenant-1".to_string(),
            filter: None,
        }
    );
    let out = reply(resume(pending, SpineEvent::Listed(b"[]".to_vec())));
    assert_eq!(out, HandlerOutcome::Done(b"[]".to_vec()));
    assert!(route("mandate.delete", &ctx(b"")).is_none());
}
