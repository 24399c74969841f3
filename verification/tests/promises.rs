use relix_nodes::coordinator::ledger::TaskStore;
use relix_nodes::coordinator::model::CoordinatorError;
use relix_nodes::coordinator::update::TaskChange;
use relix_nodes::coordinator::vocab::{EventOrder, RetryPolicy};
use relix_nodes::json::{array_of, Members};
use relix_nodes::outside::{new_task_id, task_id_of, time_stamp};
use relix_nodes::text::json_escape;

fn store() -> TaskStore {
    TaskStore::in_memory().unwrap()
}

fn add(s: &mut TaskStore, now: i64, id: &str, origin: Option<&str>) -> String {
    s.create_at(
        now,
        id.to_string(),
        "title",
        "flow",
        "{}",
        "owner",
        RetryPolicy::Once,
        2,
        None,
        origin,
    )
    .unwrap()
}

fn change(s: &mut TaskStore, now: i64, id: &str, status: &str, cause: Option<&str>) {
    let c = TaskChange {
        status: Some(status.to_string()),
        result: None,
        flow_id: None,
        flow_log_path: None,
        error_kind: None,
        error_cause: cause.map(str::to_string),
        failure_class: None,
        trace_id: None,
    };
    s.update_at(now, id, &c, cause).unwrap();
    assert!(s.is_sound());
}

#[test]
fn delegated_work_is_listed_oldest_first() {
    let mut s = store();
    add(&mut s, 30, "c", Some("delegation"));
    add(&mut s, 10, "a", Some("delegation"));
    add(&mut s, 20, "b", Some("delegation"));
    add(&mut s, 5, "chat", Some("chat"));
    add(&mut s, 6, "none", None);
    change(&mut s, 40, "b", "running", None);
    let rows = s.list_pending_delegated(10).unwrap();
    assert_eq!(
        rows,
        vec![
            ("a".to_string(), "{}".to_string(), "owner".to_string()),
            ("c".to_string(), "{}".to_string(), "owner".to_string()),
        ]
    );
    assert_eq!(s.list_pending_delegated(1).unwrap().len(), 1);
    assert!(s.list_pending_delegated(0).unwrap().is_empty());
}

#[test]
fn delegation_chains_are_measured_up_to_a_limit() {
    let mut s = store();
    for (i, id) in ["a", "b", "c", "d"].iter().enumerate() {
        add(&mut s, i as i64, id, None);
    }
    s.record_delegated_at(10, "a", "b", None, "who").unwrap();
    s.record_delegated_at(11, "b", "c", None, "who").unwrap();
    // Another kind of edge does not count, and the oldest delegation is the parent.
    s.record_spawned_at(12, "c", "d", None, None, "who").unwrap();
    s.record_delegated_at(13, "d", "c", None, "who").unwrap();
    assert_eq!(s.delegation_chain_depth("a", 8).unwrap(), 0);
    assert_eq!(s.delegation_chain_depth("b", 8).unwrap(), 1);
    assert_eq!(s.delegation_chain_depth("c", 8).unwrap(), 2);
    assert_eq!(s.delegation_chain_depth("c", 1).unwrap(), 1);
    assert_eq!(s.delegation_chain_depth("d", 8).unwrap(), 0);
    assert_eq!(s.delegation_chain_depth("nobody", 8).unwrap(), 0);
    // A cycle ends at the limit.
    s.record_delegated_at(14, "b", "a", None, "who").unwrap();
    assert_eq!(s.delegation_chain_depth("a", 5).unwrap(), 5);
    assert_eq!(s.delegation_chain_depth("a", 0).unwrap(), 0);
}

#[test]
fn recorded_edges_name_their_event() {
    let mut s = store();
    add(&mut s, 1, "a", None);
    add(&mut s, 2, "b", None);
    let out = s.record_spawned_at(3, "a", "b", None, None, "who").unwrap();
    let e = &s.edges[0];
    assert_eq!(e.edge_id, out.edge_id);
    assert_eq!(e.spawned_by_event_id, Some(out.event_id));
    let events = s.list_events_after("a", 0, 100).unwrap();
    assert_eq!(events.last().unwrap().event_id, out.event_id);
    assert!(s.list_events_after("b", 0, 100).unwrap().is_empty());
}

#[test]
fn polling_in_small_steps_sees_every_event_once() {
    let mut s = store();
    add(&mut s, 1, "a", None);
    add(&mut s, 2, "b", None);
    for i in 0..7 {
        s.append_event_at(10 + i, "a", "tick", &format!("{i}")).unwrap();
        s.append_event_at(10 + i, "b", "tock", "x").unwrap();
    }
    let mut seen = Vec::new();
    let mut cursor = 0;
    loop {
        let page = s.query_events("a", cursor, 3, None, EventOrder::Asc).unwrap();
        let Some(last) = page.last() else { break };
        cursor = last.event_id;
        seen.extend(page.iter().map(|e| e.payload.clone()));
    }
    assert_eq!(seen, ["0", "1", "2", "3", "4", "5", "6"]);
}

#[test]
fn failure_reasons_survive_what_follows() {
    let mut s = store();
    add(&mut s, 1, "a", None);
    change(&mut s, 2, "a", "running", None);
    change(&mut s, 3, "a", "failed", Some("broken pipe"));
    change(&mut s, 4, "a", "retrying", None);
    change(&mut s, 5, "a", "running", None);
    change(&mut s, 6, "a", "completed", None);
    let v = s.get("a").unwrap().unwrap();
    assert_eq!(v.last_failure_reason.as_deref(), Some("broken pipe"));
    assert!(s.attempts.iter().all(|a| a.attempt.finished_at.is_some()));
    assert_eq!(v.attempt_count, 2);
}

#[test]
fn metrics_add_up_to_the_tasks() {
    let mut s = store();
    let statuses = ["running", "completed", "failed", "paused", "frozen", "awaiting_input", "own_word", "own_word"];
    add(&mut s, 1, "root", None);
    for (i, status) in statuses.iter().enumerate() {
        let id = format!("t{i}");
        add(&mut s, 2, &id, None);
        change(&mut s, 3, &id, status, None);
        s.record_spawned_at(4, "root", &id, None, None, "who").unwrap();
    }
    let m = s.subtree_metrics_at(10, "root", 3).unwrap();
    assert_eq!(m.total_tasks, 9);
    let sum = m.terminal_completed
        + m.terminal_failed
        + m.terminal_cancelled
        + m.active_pending
        + m.active_running
        + m.active_retrying
        + m.active_paused
        + m.active_frozen
        + m.active_interrupted
        + m.active_awaiting_input
        + m.other_status;
    assert_eq!(sum, m.total_tasks);
    assert_eq!(m.other_status, 2);
    assert_eq!(m.active_pending, 1);
}

#[test]
fn retention_counts_add_up() {
    let mut s = store();
    for (i, status) in ["completed", "failed", "cancelled", "running"].iter().enumerate() {
        let id = format!("t{i}");
        add(&mut s, 1, &id, None);
        s.append_event_at(2 + i as i64, &id, "x", "").unwrap();
        change(&mut s, 8, &id, status, None);
    }
    let d = s.count_compact_candidates(100).unwrap();
    let sum: i64 = d.by_task_status.iter().map(|(_, n)| n).sum();
    assert_eq!(d.candidate_events, sum);
    assert_eq!(d.candidate_tasks, 3);
    assert!(d.candidate_tasks <= d.candidate_events);
    assert_eq!(d.oldest_candidate_ts, Some(2));
    let none = s.count_compact_candidates(2).unwrap();
    assert_eq!(none.candidate_events, 0);
    assert_eq!(none.oldest_candidate_ts, None);
    assert_eq!(none.newest_candidate_ts, None);
}

#[test]
fn stuck_tasks_are_left_alone_by_the_scan() {
    let mut s = store();
    add(&mut s, 1, "a", None);
    change(&mut s, 2, "a", "running", None);
    let stuck = s.stuck_running(1_000, 300).unwrap();
    assert_eq!(stuck.len(), 1);
    assert_eq!(stuck[0].task_id, "a");
    assert!(s.recover_interrupted(1_000_000).unwrap().is_empty());
    assert_eq!(s.get("a").unwrap().unwrap().status, "running");
}

#[test]
fn unsound_ledgers_are_told_apart() {
    let mut s = store();
    add(&mut s, 1, "a", None);
    add(&mut s, 2, "b", None);
    change(&mut s, 3, "a", "running", None);
    s.append_event_at(4, "a", "x", "").unwrap();
    s.record_spawned_at(5, "a", "b", None, None, "who").unwrap();
    assert!(s.is_sound());
    let mut twice = s.clone();
    twice.tasks[1].head.task_id = "a".to_string();
    assert!(!twice.is_sound());
    let mut behind = s.clone();
    behind.event_seq = 0;
    assert!(!behind.is_sound());
    let mut owner = s.clone();
    owner.attempts[0].task_id = "b".to_string();
    assert!(!owner.is_sound());
    let mut number = s.clone();
    number.attempts[0].attempt.attempt_num = 7;
    assert!(!number.is_sound());
    let mut edge = s.clone();
    edge.edge_seq = 0;
    assert!(!edge.is_sound());
}

#[test]
fn the_freeze_stamp_follows_the_status() {
    let mut s = store();
    add(&mut s, 1, "a", None);
    assert_eq!(s.get("a").unwrap().unwrap().frozen_at, None);
    s.set_frozen_at(2, "a", None, None, "op").unwrap();
    assert_eq!(s.get("a").unwrap().unwrap().frozen_at, Some(2));
    s.request_retry_at(3, "a").unwrap();
    assert_eq!(s.get("a").unwrap().unwrap().frozen_at, Some(2));
    s.set_unfrozen_at(4, "a", "op").unwrap();
    assert_eq!(s.get("a").unwrap().unwrap().frozen_at, None);
    s.set_paused_at(5, "a", None, None, "op").unwrap();
    assert_eq!(s.get("a").unwrap().unwrap().frozen_at, None);
}

#[test]
fn errors_of_the_ledger_in_words() {
    let m = |e: CoordinatorError| e.message();
    assert_eq!(m(CoordinatorError::Io("disk".into())), "io: disk");
    assert_eq!(m(CoordinatorError::Db("full".into())), "db: full");
    assert_eq!(m(CoordinatorError::Lock), "lock poisoned");
    assert_eq!(m(CoordinatorError::NotFound("t1".into())), "task not found: t1");
    assert_eq!(m(CoordinatorError::Invalid("odd".into())), "invalid: odd");
}

#[test]
fn texts_are_escaped_for_json() {
    assert_eq!(json_escape("a\"b\\c\n\r\t\u{1}\u{1f}é"), "a\\\"b\\\\c\\n\\r\\t\\u0001\\u001fé");
}

#[test]
fn escaped_texts_are_read_back() {
    for t in ["", "plain", "q\" b\\ n\n r\r t\t", "\u{0}\u{8}\u{c}\u{1f}", "é§🧹/"] {
        let read: String = serde_json::from_str(&format!("\"{}\"", json_escape(t))).unwrap();
        assert_eq!(read, t);
    }
    assert_eq!(json_escape("a\"b"), format!("{}{}", json_escape("a\""), json_escape("b")));
    assert_eq!(json_escape("clean §"), "clean §");
}

#[test]
fn retries_are_chained() {
    let mut s = store();
    add(&mut s, 1, "a", None);
    add(&mut s, 2, "b", None);
    for i in 0..3 {
        change(&mut s, 10 + 2 * i, "a", "running", None);
        change(&mut s, 11 + 2 * i, "a", "failed", None);
    }
    change(&mut s, 30, "b", "running", None);
    s.replay_from_at(31, 31, "c".to_string(), "a", "who").unwrap();
    let a = s.list_attempts("a").unwrap();
    assert_eq!(a.iter().map(|x| x.attempt_num).collect::<Vec<_>>(), [1, 2, 3]);
    assert_eq!(s.get("a").unwrap().unwrap().current_attempt_id, Some(a[2].attempt_id));
    let links: Vec<_> = s
        .edges
        .iter()
        .filter(|e| e.task_id == "a" && e.edge_type == "retried_from")
        .map(|e| (e.attempt_id, e.related_attempt_id))
        .collect();
    assert_eq!(
        links,
        [
            (Some(a[1].attempt_id), Some(a[0].attempt_id)),
            (Some(a[2].attempt_id), Some(a[1].attempt_id)),
        ]
    );
}

#[test]
fn a_run_of_pages_shows_every_task_once() {
    let mut s = store();
    for (i, id) in ["a", "b", "c", "d", "e"].iter().enumerate() {
        add(&mut s, (i / 2) as i64, id, None);
    }
    let mut seen = Vec::new();
    let mut cursor = None;
    loop {
        let page = s.list_cursor(cursor, 2, None).unwrap();
        assert!(page.items.len() <= 2);
        assert_eq!(page.next_cursor.is_none(), page.items.is_empty());
        if page.items.is_empty() {
            break;
        }
        seen.extend(page.items.iter().map(|x| x.task_id.clone()));
        cursor = page.next_cursor;
    }
    assert_eq!(seen, ["e", "d", "c", "b", "a"]);
}

#[test]
fn undone_interruptions_tell_what_they_found() {
    let mut s = store();
    add(&mut s, 1, "a", None);
    change(&mut s, 2, "a", "running", None);
    assert_eq!(s.set_paused_at(3, "a", Some("why"), Some("why"), "op").unwrap(), "running");
    assert_eq!(s.set_resumed_at(4, "a", "op").unwrap(), "running");
    assert!(matches!(s.set_resumed_at(5, "a", "op"), Err(CoordinatorError::Invalid(_))));
    change(&mut s, 6, "a", "awaiting_input", None);
    assert_eq!(s.set_frozen_at(7, "a", None, None, "op").unwrap(), "awaiting_input");
    assert_eq!(s.set_unfrozen_at(8, "a", "op").unwrap(), "awaiting_input");
    let v = s.get("a").unwrap().unwrap();
    assert_eq!((v.pause_generation, v.freeze_generation), (2, 2));
    assert_eq!(v.status, "pending");
}

#[test]
fn json_is_put_together() {
    let mut m = Members::new();
    assert_eq!(m.object(), "{}");
    m.text("a", "x\"y");
    m.text_opt("b", None);
    m.number("c", -7);
    m.number_opt("d", Some(0));
    m.value("e", array_of(&vec!["1".to_string(), "true".to_string()]));
    assert_eq!(m.object(), "{\"a\":\"x\\\"y\",\"c\":-7,\"d\":0,\"e\":[1,true]}");
    assert_eq!(array_of(&Vec::new()), "[]");
}

#[test]
fn ids_and_time_stamps() {
    let id = new_task_id().unwrap();
    assert_eq!(id.len(), 32);
    assert!(id.chars().all(|c| c.is_ascii_digit() || ('a'..='f').contains(&c)));
    assert_ne!(Some(id), new_task_id());
    let bytes = [0, 1, 2, 15, 16, 255, 0, 0, 0, 0, 0, 0, 0, 0, 0, 171];
    assert_eq!(task_id_of(Some(bytes)).as_deref(), Some("0001020f10ff000000000000000000ab"));
    assert_eq!(task_id_of(None), None);
    assert_eq!(time_stamp(Some(1_700_000_000)), 1_700_000_000);
    assert_eq!(time_stamp(None), 0);
}
