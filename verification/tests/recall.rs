use relix_nodes::coordinator::vocab::ErrorKind;
use relix_nodes::dispatch::{HandlerOutcome, InvocationCtx};
use relix_nodes::memory::curator::{
    accept_reply, curate_one_target, is_due, question, AiDispatcher, CuratorError, CURATION_SYSTEM_CONTEXT,
};
use relix_nodes::memory::fault::MemoryError;
use relix_nodes::memory::qdrant::{delete_answered, QdrantError};
use relix_nodes::memory::router::{dispatch, serve, Capability};
use relix_nodes::memory::store::MemoryStore;

fn ctx(args: &str) -> InvocationCtx {
    InvocationCtx {
        args: args.as_bytes().to_vec(),
        caller_subject_id: "alice".to_string(),
        tenant_id: "org".to_string(),
    }
}

/// Answers every question with the same reply.
struct Parrot(Option<&'static str>);

impl AiDispatcher for Parrot {
    fn chat(&self, _session_id: &str, _prompt: &str, _history: &str) -> Option<String> {
        self.0.map(str::to_string)
    }
}

fn call(m: &mut MemoryStore, c: Capability, args: &str) -> Result<String, (ErrorKind, String)> {
    answer(serve(m, c, &ctx(args), 7, Some(&Parrot(Some(" short ")))))
}

fn answer(out: HandlerOutcome) -> Result<String, (ErrorKind, String)> {
    match out {
        HandlerOutcome::Done(b) => Ok(String::from_utf8(b).unwrap()),
        HandlerOutcome::Failed(e) => Err((e.kind, e.cause)),
    }
}

fn refusal(cause: &str) -> Result<String, (ErrorKind, String)> {
    Err((ErrorKind::InvalidArgs, cause.to_string()))
}

#[test]
fn turns_are_searched_by_their_words() {
    let mut m = MemoryStore::in_memory().unwrap();
    for args in ["s1|user|the red fox", "s1|assistant|a blue whale", "s2|user|red|tape"] {
        assert_eq!(call(&mut m, Capability::WriteTurn, args).unwrap(), "ok\n");
    }
    let found = call(&mut m, Capability::Search, "red").unwrap();
    let mut lines: Vec<&str> = found.lines().collect();
    lines.sort();
    assert_eq!(lines, ["s1\tuser\tthe red fox", "s2\tuser\tred|tape"]);
    assert_eq!(call(&mut m, Capability::Search, "red|1").unwrap().lines().count(), 1);
    assert_eq!(call(&mut m, Capability::Search, "green").unwrap(), "");
    // Turns with one body come in the order in which they were written.
    for args in ["s4|user|same words", "s3|user|same words", "s5|user|same words"] {
        call(&mut m, Capability::WriteTurn, args).unwrap();
    }
    assert_eq!(
        call(&mut m, Capability::Search, "same").unwrap(),
        "s4\tuser\tsame words\ns3\tuser\tsame words\ns5\tuser\tsame words\n"
    );
    assert_eq!(
        call(&mut m, Capability::RecentForSession, "s1").unwrap(),
        "user: the red fox\nassistant: a blue whale\n"
    );
    assert_eq!(
        call(&mut m, Capability::Search, "|5"),
        refusal("memory.search: query required")
    );
    // A query that the index cannot read is its failure.
    let (kind, cause) = call(&mut m, Capability::Search, "\"open").unwrap_err();
    assert_eq!(kind, ErrorKind::ResponderInternal);
    assert!(cause.starts_with("memory.search: db: "), "{cause}");
}

#[test]
fn recent_turns_take_a_count() {
    let mut m = MemoryStore::in_memory().unwrap();
    for i in 0..12 {
        call(&mut m, Capability::WriteTurn, &format!("s|user|{i}")).unwrap();
    }
    let ten = call(&mut m, Capability::RecentForSession, "s").unwrap();
    assert_eq!(ten.lines().count(), 10);
    assert!(ten.ends_with("user: 11\n"));
    assert_eq!(
        call(&mut m, Capability::RecentForSession, "s| 2 ").unwrap(),
        "user: 10\nuser: 11\n"
    );
    assert_eq!(call(&mut m, Capability::RecentForSession, "s|many").unwrap(), ten);
    assert_eq!(
        call(&mut m, Capability::RecentForSession, "|3"),
        refusal("memory.recent_for_session: session_id required")
    );
    assert_eq!(
        call(&mut m, Capability::WriteTurn, "s||x"),
        refusal("memory.write_turn: session_id and role required")
    );
}

#[test]
fn curation_on_demand() {
    let mut m = MemoryStore::in_memory().unwrap();
    m.agent_set_content("alice", "agent", "one§two§three").unwrap();
    assert_eq!(
        answer(serve(&mut m, Capability::AgentCurate, &ctx("alice"), 7, None::<&Parrot>)),
        Err((
            ErrorKind::ResponderInternal,
            "memory.agent_curate: AI dispatcher not configured (missing [memory.curator.ai_peer])".to_string()
        ))
    );
    assert_eq!(
        call(&mut m, Capability::AgentCurate, " |ai"),
        refusal("memory.agent_curate: subject_id required")
    );
    assert_eq!(m.agent_read("alice").unwrap().0, "one§two§three");
    let wire = call(&mut m, Capability::AgentCurate, "alice|ai").unwrap();
    assert!(wire.contains("alice"), "{wire}");
    assert_eq!(m.agent_read("alice").unwrap(), ("short".to_string(), String::new()));
    assert!(dispatch(&mut m, "memory.unknown", &ctx(""), None::<&Parrot>).is_none());
    assert!(dispatch(&mut m, "memory.agent_read", &ctx("alice"), None::<&Parrot>).is_some());
}

#[test]
fn contents_are_set_within_their_caps() {
    let mut m = MemoryStore::in_memory().unwrap();
    m.agent_set_content("a", "user", "x").unwrap();
    m.agent_set_content("b", "user", "y").unwrap();
    assert_eq!(m.agent_read("a").unwrap().1, "x");
    assert_eq!(m.agent_read("b").unwrap().1, "y");
    assert!(m.agent_set_content("", "user", "x").is_err());
    assert!(m.agent_set_content("a", "nobody", "x").is_err());
    let long = "é".repeat(1376);
    assert_eq!(
        m.agent_set_content("a", "user", &long),
        Err(MemoryError::CapExceeded {
            target: "user".to_string(),
            proposed: 1376,
            cap: 1375
        })
    );
    assert_eq!(m.agent_read("a").unwrap().1, "x");
}

#[test]
fn replies_of_the_model_are_checked() {
    let one = |reply: Option<&'static str>, current: &str| curate_one_target(&Parrot(reply), "s", "agent", current, 5);
    assert_eq!(one(Some("  a§b\n"), "old"), Ok("a§b".to_string()));
    assert_eq!(one(Some("new"), ""), Ok(String::new()));
    assert_eq!(one(None, "old"), Err(CuratorError::AiUnavailable));
    assert_eq!(
        one(Some(" \n"), "old"),
        Err(CuratorError::AiResponseRejected(
            "empty reply — refusing to wipe existing memory".to_string()
        ))
    );
    assert_eq!(
        accept_reply(Some("sixsix"), 5),
        Err(CuratorError::AiResponseRejected(
            "curated content 6 chars exceeds cap 5; existing memory kept".to_string()
        ))
    );
    assert_eq!(accept_reply(Some("fives"), 5), Ok("fives".to_string()));
}

#[test]
fn entries_are_never_left_empty() {
    let mut m = MemoryStore::in_memory().unwrap();
    for entry in ["one", "two", "three"] {
        m.agent_write("a", "user", "add", entry).unwrap();
    }
    m.agent_write("a", "user", "replace", "two\t").unwrap();
    assert_eq!(m.agent_read("a").unwrap().1, "one§three");
    m.agent_write("a", "user", "replace", "one\tuno").unwrap();
    assert_eq!(m.agent_read("a").unwrap().1, "uno§three");
    m.agent_write("a", "user", "remove", "three").unwrap();
    m.agent_write("a", "user", "replace", "uno\t").unwrap();
    assert_eq!(m.agent_read("a").unwrap().1, "");
}

#[test]
fn unreadable_queries_are_errors() {
    // The words of a query are read even where there is nothing to search.
    let mut m = MemoryStore::in_memory().unwrap();
    for _ in 0..2 {
        for query in ["\"open", "AND", "a AND", "nowhere: x", "*strange"] {
            assert!(matches!(m.search(query, 5), Err(MemoryError::Db(_))), "{query}");
        }
        assert_eq!(m.search("word", 5).unwrap().len(), m.turns().len());
        m.write_turn_at(1, "s", "user", "word").unwrap();
    }
    let hit = ("s".to_string(), "user".to_string(), "word".to_string());
    assert_eq!(m.search_answered(Ok(vec![2, 1]), 1), Ok(vec![hit]));
    assert_eq!(
        m.search_answered(Err("gone".to_string()), 1),
        Err(MemoryError::Db("gone".to_string()))
    );
}

#[test]
fn questions_to_the_model() {
    assert!(question("s", "agent", "", 5).is_none());
    let q = question("s", "agent", "old", 5).unwrap();
    assert_eq!(q.session_id, "curate-s-agent");
    assert_eq!(q.history, CURATION_SYSTEM_CONTEXT);
    assert!(q.prompt.contains("Stay within 5 characters total"));
    assert!(q.prompt.ends_with("Current entries:\nold"));
    assert!(!is_due(100, 100));
    assert!(is_due(101, 100));
}

#[test]
fn errors_of_the_memory_in_words() {
    assert_eq!(MemoryError::Io("disk".into()).message(), "io: disk");
    assert_eq!(MemoryError::Db("full".into()).message(), "db: full");
    assert_eq!(MemoryError::Lock.message(), "lock poisoned");
    assert_eq!(MemoryError::InvalidArg("a".into()).message(), "invalid arg: a");
    assert_eq!(MemoryError::NotFound("b".into()).message(), "not found: b");
    assert_eq!(MemoryError::Ambiguous("c".into()).message(), "ambiguous: c");
    let cap = MemoryError::CapExceeded {
        target: "user".into(),
        proposed: 9,
        cap: 8,
    };
    assert_eq!(cap.message(), "'user' cap exceeded: 9 > 8");
    assert_eq!(CuratorError::Store(cap).message(), "store: 'user' cap exceeded: 9 > 8");
    assert_eq!(CuratorError::AiUnavailable.message(), "ai peer unavailable");
    assert_eq!(
        CuratorError::AiResponseRejected("odd".into()).message(),
        "ai response rejected: odd"
    );
}

#[test]
fn a_delete_without_a_collection_deletes_nothing() {
    assert!(matches!(delete_answered(404, "no such collection".into(), None), Ok(0)));
    assert!(matches!(delete_answered(200, String::new(), Some(3)), Ok(3)));
    assert!(matches!(delete_answered(200, String::new(), None), Ok(0)));
    match delete_answered(500, "down".into(), Some(3)) {
        Err(QdrantError::Api { status, message }) => {
            assert_eq!(status, 500);
            assert_eq!(message, "down");
        }
        other => panic!("expected an error, got {other:?}"),
    }
}
