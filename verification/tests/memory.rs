use relix_nodes::dispatch::{HandlerOutcome, InvocationCtx};
use relix_nodes::coordinator::vocab::ErrorKind;
use relix_nodes::memory::curator::{
    build_curation_prompt, count_entries, curate_subject, run_one_tick, AiDispatcher, CuratorState, CuratorSubjectResult,
};
use relix_nodes::memory::entries::{AGENT_MEMORY_CAP_CHARS, USER_MEMORY_CAP_CHARS};
use relix_nodes::memory::fault::MemoryError;
use relix_nodes::memory::handlers::{handle_agent_read, handle_agent_write, handle_recent, handle_write_turn};
use relix_nodes::memory::store::{AgentWriteOutcome, MemoryStore};
use std::cell::Cell;

fn ctx(args: &[u8]) -> InvocationCtx {
    InvocationCtx {
        args: args.to_vec(),
        caller_subject_id: "alice".to_string(),
        tenant_id: "org".to_string(),
    }
}

/// Answers with a fixed reply, or as an unavailable peer does.
struct StubAi {
    reply: Option<String>,
    calls: Cell<usize>,
}

impl StubAi {
    fn new(reply: Option<&str>) -> Self {
        Self {
            reply: reply.map(str::to_string),
            calls: Cell::new(0),
        }
    }

    fn call_count(&self) -> usize {
        self.calls.get()
    }
}

impl AiDispatcher for StubAi {
    fn chat(&self, _sid: &str, _prompt: &str, _hist: &str) -> Option<String> {
        self.calls.set(self.calls.get() + 1);
        self.reply.clone()
    }
}

#[test]
fn write_recent_search_roundtrip() {
    let mut store = MemoryStore::in_memory().expect("open");
    store.write_turn("s1", "user", "hello world").unwrap();
    store.write_turn("s1", "assistant", "hi back").unwrap();
    store.write_turn("s2", "user", "unrelated").unwrap();

    let recent = store.recent_for_session("s1", 10).expect("recent");
    assert_eq!(
        recent,
        vec![
            ("user".to_string(), "hello world".to_string()),
            ("assistant".to_string(), "hi back".to_string()),
        ]
    );

    let hits = store.search("hello", 10).expect("search");
    assert_eq!(hits.len(), 1);
    assert_eq!(hits[0].0, "s1");
    assert_eq!(hits[0].1, "user");
    assert_eq!(hits[0].2, "hello world");
}

#[test]
fn recent_clamps_to_max_n() {
    let mut store = MemoryStore::in_memory().expect("open");
    for i in 0..5 {
        store
            .write_turn("s1", "user", &format!("turn-{i}"))
            .unwrap();
    }
    let recent = store.recent_for_session("s1", 1_000_000).expect("recent");
    assert_eq!(recent.len(), 5);
    assert_eq!(recent[0].1, "turn-0"); // oldest first
    assert_eq!(recent[4].1, "turn-4");
}

#[test]
fn search_orders_by_relevance_then_id() {
    let mut store = MemoryStore::in_memory().expect("open");
    store.write_turn("s1", "user", "alpha beta gamma").unwrap();
    store.write_turn("s2", "user", "alpha alpha gamma").unwrap();
    let hits = store.search("alpha", 10).expect("search");
    assert_eq!(hits.len(), 2);
    let sids: Vec<&str> = hits.iter().map(|(s, _, _)| s.as_str()).collect();
    assert!(sids.contains(&"s1"));
    assert!(sids.contains(&"s2"));
}

#[test]
fn handler_write_then_recent() {
    let mut store = MemoryStore::in_memory().expect("open");

    let r = handle_write_turn(&mut store, &ctx(b"s1|user|hi"), 1);
    assert!(matches!(r, HandlerOutcome::Done(_)));
    let r = handle_write_turn(&mut store, &ctx(b"s1|assistant|hello back"), 1);
    assert!(matches!(r, HandlerOutcome::Done(_)));

    let r = handle_recent(&store, &ctx(b"s1"));
    let body = match r {
        HandlerOutcome::Done(b) => String::from_utf8(b).unwrap(),
        HandlerOutcome::Failed(e) => panic!("err: {}", e.cause),
    };
    assert_eq!(body, "user: hi\nassistant: hello back\n");
}

#[test]
fn agent_read_empty_returns_empty_strings() {
    let store = MemoryStore::in_memory().expect("open");
    let (a, u) = store.agent_read("alice").unwrap();
    assert!(a.is_empty());
    assert!(u.is_empty());
}

#[test]
fn agent_write_add_first_entry_has_no_delimiter() {
    let mut store = MemoryStore::in_memory().expect("open");
    let out = store
        .agent_write("alice", "agent", "add", "remember to test caps")
        .unwrap();
    match out {
        AgentWriteOutcome::Updated { chars } => assert_eq!(chars, 21),
        _ => panic!("expected Updated"),
    }
    let (a, _) = store.agent_read("alice").unwrap();
    assert_eq!(a, "remember to test caps");
}

#[test]
fn agent_write_add_subsequent_entry_uses_section_sign() {
    let mut store = MemoryStore::in_memory().expect("open");
    store.agent_write("alice", "agent", "add", "first").unwrap();
    store
        .agent_write("alice", "agent", "add", "second")
        .unwrap();
    let (a, _) = store.agent_read("alice").unwrap();
    assert_eq!(a, "first§second");
}

#[test]
fn agent_write_rejects_entry_containing_delimiter() {
    let mut store = MemoryStore::in_memory().expect("open");
    let err = store
        .agent_write("alice", "agent", "add", "has § inside")
        .unwrap_err();
    match err {
        MemoryError::InvalidArg(_) => {}
        other => panic!("expected InvalidArg, got {other:?}"),
    }
}

#[test]
fn agent_write_add_rejects_at_2201_chars_on_agent_target() {
    let mut store = MemoryStore::in_memory().expect("open");
    let blob: String = (0..2201).map(|_| 'x').collect();
    let err = store
        .agent_write("alice", "agent", "add", &blob)
        .unwrap_err();
    match err {
        MemoryError::CapExceeded {
            target,
            proposed,
            cap,
        } => {
            assert_eq!(target, "agent");
            assert_eq!(proposed, 2201);
            assert_eq!(cap, AGENT_MEMORY_CAP_CHARS);
        }
        other => panic!("expected CapExceeded, got {other:?}"),
    }
}

#[test]
fn agent_write_add_rejects_at_1376_chars_on_user_target() {
    let mut store = MemoryStore::in_memory().expect("open");
    let blob: String = (0..1376).map(|_| 'y').collect();
    let err = store
        .agent_write("alice", "user", "add", &blob)
        .unwrap_err();
    match err {
        MemoryError::CapExceeded {
            target,
            proposed,
            cap,
        } => {
            assert_eq!(target, "user");
            assert_eq!(proposed, 1376);
            assert_eq!(cap, USER_MEMORY_CAP_CHARS);
        }
        other => panic!("expected CapExceeded, got {other:?}"),
    }
}

#[test]
fn agent_write_replace_finds_by_substring() {
    let mut store = MemoryStore::in_memory().expect("open");
    store
        .agent_write("alice", "agent", "add", "rust uses cargo")
        .unwrap();
    store
        .agent_write("alice", "agent", "add", "python uses pip")
        .unwrap();
    store
        .agent_write("alice", "agent", "replace", "rust\trust uses cargo + uv")
        .unwrap();
    let (a, _) = store.agent_read("alice").unwrap();
    assert_eq!(a, "rust uses cargo + uv§python uses pip");
}

#[test]
fn agent_write_replace_ambiguous_substring_rejects() {
    let mut store = MemoryStore::in_memory().expect("open");
    store
        .agent_write("alice", "agent", "add", "alpha-one")
        .unwrap();
    store
        .agent_write("alice", "agent", "add", "alpha-two")
        .unwrap();
    let err = store
        .agent_write("alice", "agent", "replace", "alpha\twhatever")
        .unwrap_err();
    match err {
        MemoryError::Ambiguous(_) => {}
        other => panic!("expected Ambiguous, got {other:?}"),
    }
}

#[test]
fn agent_write_replace_unknown_substring_rejects() {
    let mut store = MemoryStore::in_memory().expect("open");
    store.agent_write("alice", "agent", "add", "first").unwrap();
    let err = store
        .agent_write("alice", "agent", "replace", "no-match\tx")
        .unwrap_err();
    match err {
        MemoryError::NotFound(_) => {}
        other => panic!("expected NotFound, got {other:?}"),
    }
}

#[test]
fn agent_write_remove_drops_matched_entry() {
    let mut store = MemoryStore::in_memory().expect("open");
    store
        .agent_write("alice", "agent", "add", "keep me")
        .unwrap();
    store
        .agent_write("alice", "agent", "add", "drop me")
        .unwrap();
    store
        .agent_write("alice", "agent", "add", "also keep")
        .unwrap();
    store
        .agent_write("alice", "agent", "remove", "drop")
        .unwrap();
    let (a, _) = store.agent_read("alice").unwrap();
    assert_eq!(a, "keep me§also keep");
}

#[test]
fn agent_write_read_action_returns_current_target() {
    let mut store = MemoryStore::in_memory().expect("open");
    store
        .agent_write("alice", "agent", "add", "agent-thing")
        .unwrap();
    store
        .agent_write("alice", "user", "add", "user-thing")
        .unwrap();
    let out = store.agent_write("alice", "user", "read", "").unwrap();
    match out {
        AgentWriteOutcome::Read { content } => assert_eq!(content, "user-thing"),
        _ => panic!("expected Read"),
    }
}

#[test]
fn agent_write_rejects_unknown_target() {
    let mut store = MemoryStore::in_memory().expect("open");
    let err = store
        .agent_write("alice", "secrets", "add", "shh")
        .unwrap_err();
    match err {
        MemoryError::InvalidArg(c) => assert!(c.contains("'agent' or 'user'")),
        other => panic!("expected InvalidArg, got {other:?}"),
    }
}

#[test]
fn agent_write_rejects_unknown_action() {
    let mut store = MemoryStore::in_memory().expect("open");
    let err = store
        .agent_write("alice", "agent", "delete-all", "")
        .unwrap_err();
    match err {
        MemoryError::InvalidArg(c) => {
            assert!(c.contains("'add', 'replace', 'remove', or 'read'"))
        }
        other => panic!("expected InvalidArg, got {other:?}"),
    }
}

#[test]
fn agent_write_subject_isolation_two_subjects() {
    let mut store = MemoryStore::in_memory().expect("open");
    store
        .agent_write("alice", "agent", "add", "alice-notes")
        .unwrap();
    store
        .agent_write("bob", "agent", "add", "bob-notes")
        .unwrap();
    let (a_alice, _) = store.agent_read("alice").unwrap();
    let (a_bob, _) = store.agent_read("bob").unwrap();
    assert_eq!(a_alice, "alice-notes");
    assert_eq!(a_bob, "bob-notes");
    assert!(!a_alice.contains("bob"));
    assert!(!a_bob.contains("alice"));
}

#[test]
fn handle_agent_read_header_format() {
    let mut store = MemoryStore::in_memory().expect("open");
    store.agent_write("alice", "agent", "add", "hello").unwrap();
    store.agent_write("alice", "user", "add", "world!").unwrap();
    let ctx = ctx(b"alice");
    let r = handle_agent_read(&store, &ctx);
    let body = match r {
        HandlerOutcome::Done(b) => b,
        HandlerOutcome::Failed(e) => panic!("err: {}", e.cause),
    };
    let nl = body.iter().position(|b| *b == b'\n').unwrap();
    let header = std::str::from_utf8(&body[..nl]).unwrap();
    assert_eq!(header, "agent_bytes=5|user_bytes=6");
    let payload = &body[nl + 1..];
    assert_eq!(payload, b"helloworld!");
}

#[test]
fn handle_agent_write_cap_exceeded_uses_invalid_args_kind() {
    let mut store = MemoryStore::in_memory().expect("open");
    let blob: String = (0..2201).map(|_| 'x').collect();
    let arg = format!("alice|agent|add|{blob}");
    let ctx = ctx(arg.as_bytes());
    match handle_agent_write(&mut store, &ctx, 1) {
        HandlerOutcome::Failed(env) => {
            assert_eq!(env.kind, ErrorKind::InvalidArgs);
            assert!(env.cause.contains("cap"));
        }
        HandlerOutcome::Done(_) => panic!("expected a failure"),
    }
}

#[test]
fn handler_rejects_malformed_write_turn() {
    let mut store = MemoryStore::in_memory().expect("open");
    let r = handle_write_turn(&mut store, &ctx(b"only_session|only_role"), 1);
    match r {
        HandlerOutcome::Failed(e) => assert_eq!(e.kind, ErrorKind::InvalidArgs),
        HandlerOutcome::Done(_) => panic!("expected invalid_args"),
    }
}

#[test]
fn build_curation_prompt_contains_delimiter_cap_and_content() {
    let p = build_curation_prompt("alpha§beta", 2200);
    assert!(p.contains("§"));
    assert!(p.contains("2200"));
    assert!(p.contains("alpha§beta"));
    assert!(p.contains("Return ONLY the curated entries separated by §"));
}

#[test]
fn count_entries_simple_cases() {
    assert_eq!(count_entries(""), 0);
    assert_eq!(count_entries("one"), 1);
    assert_eq!(count_entries("one§two"), 2);
    assert_eq!(count_entries("a§b§c"), 3);
}

#[test]
fn curate_subject_returns_empty_summary_when_both_targets_empty() {
    let mut store = MemoryStore::in_memory().unwrap();
    let ai = StubAi::new(Some("should not be called"));
    let r = curate_subject(&mut store, &ai, "alice").unwrap();
    assert_eq!(r.agent_chars_before, 0);
    assert_eq!(r.user_chars_before, 0);
    assert_eq!(r.chars_saved(), 0);
    assert_eq!(ai.call_count(), 0);
}

#[test]
fn curate_subject_skips_empty_target_and_processes_other() {
    let mut store = MemoryStore::in_memory().unwrap();
    store.agent_write("alice", "agent", "add", "alpha").unwrap();
    store.agent_write("alice", "agent", "add", "beta").unwrap();
    let ai = StubAi::new(Some("alpha"));
    let r = curate_subject(&mut store, &ai, "alice").unwrap();
    assert_eq!(ai.call_count(), 1);
    assert_eq!(r.user_entries_before, 0);
    assert_eq!(r.user_entries_after, 0);
    assert!(r.agent_chars_after < r.agent_chars_before);
}

#[test]
fn curate_subject_writes_back_curated_content() {
    let mut store = MemoryStore::in_memory().unwrap();
    store.agent_write("alice", "agent", "add", "alpha").ok();
    store.agent_write("alice", "agent", "add", "beta").ok();
    let ai = StubAi::new(Some("alpha-and-beta"));
    let _ = curate_subject(&mut store, &ai, "alice").unwrap();
    let (agent, _) = store.agent_read("alice").unwrap();
    assert_eq!(agent, "alpha-and-beta");
}

#[test]
fn curate_subject_preserves_existing_on_ai_unavailable() {
    let mut store = MemoryStore::in_memory().unwrap();
    store.agent_write("alice", "agent", "add", "alpha").ok();
    store.agent_write("alice", "agent", "add", "beta").ok();
    let ai = StubAi::new(None); // unavailable
    let _ = curate_subject(&mut store, &ai, "alice").unwrap();
    let (agent, _) = store.agent_read("alice").unwrap();
    assert_eq!(agent, "alpha§beta");
}

#[test]
fn curate_subject_rejects_empty_response_and_keeps_existing() {
    let mut store = MemoryStore::in_memory().unwrap();
    store.agent_write("alice", "agent", "add", "alpha").ok();
    let ai = StubAi::new(Some("   \n  ")); // whitespace-only
    let _ = curate_subject(&mut store, &ai, "alice").unwrap();
    let (agent, _) = store.agent_read("alice").unwrap();
    assert_eq!(agent, "alpha");
}

#[test]
fn curate_subject_rejects_over_cap_response_and_keeps_existing() {
    let mut store = MemoryStore::in_memory().unwrap();
    store.agent_write("alice", "agent", "add", "small").ok();
    let huge: String = std::iter::repeat_n('x', AGENT_MEMORY_CAP_CHARS + 50).collect();
    let ai = StubAi::new(Some(&huge));
    let _ = curate_subject(&mut store, &ai, "alice").unwrap();
    let (agent, _) = store.agent_read("alice").unwrap();
    assert_eq!(agent, "small");
}

#[test]
fn one_tick_skips_subjects_below_min_chars() {
    let mut store = MemoryStore::in_memory().unwrap();
    store.agent_write("alice", "agent", "add", "alpha").ok();
    let big: String = std::iter::repeat_n('y', 200).collect();
    store.agent_write("bob", "agent", "add", &big).ok();

    let mut state = CuratorState::default();
    let ai = StubAi::new(Some("short"));

    let summary = run_one_tick(&mut store, &mut state, Some(&ai), 100, 60);
    assert_eq!(summary.agents_reviewed, 2);
    assert_eq!(summary.agents_curated, 1);
}

#[test]
fn one_tick_skips_when_ai_cell_empty() {
    let mut store = MemoryStore::in_memory().unwrap();
    let big: String = std::iter::repeat_n('y', 200).collect();
    store.agent_write("bob", "agent", "add", &big).ok();
    let mut state = CuratorState::default();
    let summary = run_one_tick::<StubAi>(&mut store, &mut state, None, 100, 60);
    assert_eq!(summary.agents_curated, 0);
    assert!(state.last_run_at.is_some());
}

#[test]
fn subject_result_wire_format_includes_all_fields() {
    let r = CuratorSubjectResult {
        subject_id: "alice".into(),
        agent_entries_before: 5,
        agent_entries_after: 3,
        agent_chars_before: 200,
        agent_chars_after: 120,
        user_entries_before: 3,
        user_entries_after: 2,
        user_chars_before: 80,
        user_chars_after: 50,
    };
    let w = r.to_wire();
    for needle in [
        "subject_id=alice",
        "agent_entries_before=5",
        "agent_entries_after=3",
        "agent_chars_before=200",
        "agent_chars_after=120",
        "user_entries_before=3",
        "user_entries_after=2",
        "user_chars_before=80",
        "user_chars_after=50",
        "chars_saved=110",
    ] {
        assert!(w.contains(needle), "wire body missing `{needle}`: {w}");
    }
}
