use relix_nodes::dispatch::{HandlerOutcome, InvocationCtx};
use relix_nodes::telegram::controller::{
    advance, handle_one_update, message_title, next_offset, pending_notices, render_history, render_status_summary,
    send_text, Action, Command, Event, IncomingMessage, ParseMode, Said, SendStep, Stage, TelegramNodeConfig,
    HISTORY_TURNS,
};
use relix_nodes::telegram::render::{handle_messages_recent, handle_status, render_recent_body, render_status_body};
use relix_nodes::telegram::state::{BotIdentity, ChannelState, MessageRing, NotifierState, RecordedInbound};

#[test]
fn render_status_body_offline_default_shape() {
    let s = ChannelState::default();
    let body = render_status_body(&s);
    assert!(body.contains("online=false"));
    assert!(body.contains("username="));
    assert!(body.contains("messages_seen=0"));
    assert!(body.contains("last_message_at=-1"));
    assert!(body.ends_with('\n'));
}

#[test]
fn render_status_body_after_online_includes_identity() {
    let mut s = ChannelState::default();
    s.mark_online(BotIdentity {
        user_id: 99,
        username: "relixbot".into(),
        first_name: "Relix".into(),
    });
    let body = render_status_body(&s);
    assert!(body.contains("online=true"));
    assert!(body.contains("username=relixbot"));
    assert!(body.contains("first_name=Relix"));
    assert!(body.contains("user_id=99"));
}

#[test]
fn render_recent_body_returns_newest_first() {
    let mut ring = MessageRing::new(200);
    ring.record(RecordedInbound {
        ts: 100,
        user_id: 1,
        username: "alice".into(),
        chat_id: 10,
        text: "old".into(),
    });
    ring.record(RecordedInbound {
        ts: 200,
        user_id: 2,
        username: "bob".into(),
        chat_id: 20,
        text: "new".into(),
    });
    let body = render_recent_body(&ring, 20);
    let lines: Vec<&str> = body.trim_end().split('\n').collect();
    assert!(lines[0].contains("\tbob\t"));
    assert!(lines[1].contains("\talice\t"));
}

#[test]
fn render_recent_body_truncates_text_preview() {
    let mut ring = MessageRing::new(200);
    let long_text: String = "a".repeat(250);
    ring.record(RecordedInbound {
        ts: 100,
        user_id: 1,
        username: "alice".into(),
        chat_id: 10,
        text: long_text,
    });
    let body = render_recent_body(&ring, 5);
    let preview = body.split('\t').nth(4).unwrap();
    let preview = preview.trim_end_matches('\n');
    assert_eq!(preview.chars().count(), 100);
}

#[test]
fn render_recent_body_drops_newlines_in_preview() {
    let mut ring = MessageRing::new(200);
    ring.record(RecordedInbound {
        ts: 100,
        user_id: 1,
        username: "alice".into(),
        chat_id: 10,
        text: "line1\nline2\tcol\rok".into(),
    });
    let body = render_recent_body(&ring, 5);
    let cols: Vec<&str> = body.trim_end_matches('\n').split('\t').collect();
    assert_eq!(cols.len(), 5);
    let preview = cols[4];
    assert!(!preview.contains('\n'));
    assert!(!preview.contains('\r'));
}

#[test]
fn render_recent_body_returns_empty_when_ring_empty() {
    let ring = MessageRing::new(200);
    let body = render_recent_body(&ring, 20);
    assert!(body.is_empty());
}

#[test]
fn online_defaults_false_until_marked() {
    let mut s = ChannelState::default();
    assert!(!s.online());
    s.mark_online(BotIdentity {
        user_id: 7,
        username: "x".into(),
        first_name: "".into(),
    });
    assert!(s.online());
    assert_eq!(s.identity().user_id, 7);
}

#[test]
fn record_inbound_advances_counter_and_timestamp() {
    let mut s = ChannelState::default();
    assert_eq!(s.messages_seen(), 0);
    assert_eq!(s.last_message_at(), None);
    s.record_inbound(123);
    s.record_inbound(456);
    assert_eq!(s.messages_seen(), 2);
    assert_eq!(s.last_message_at(), Some(456));
}

#[test]
fn notifier_state_dedupes_by_task_id() {
    let mut n = NotifierState::default();
    assert!(n.mark_notified("t1"));
    assert!(!n.mark_notified("t1"));
    assert!(n.mark_notified("t2"));
    assert_eq!(n.count(), 2);
}

fn cfg_default() -> TelegramNodeConfig {
    TelegramNodeConfig {
        allowed_users: vec![],
        operator_chat_id: 0,
        flow_template: String::new(),
        poll_interval_secs: 1,
        approval_poll_interval_secs: 30,
    }
}

fn cfg_with_allow_list(users: &[i64]) -> TelegramNodeConfig {
    let mut cfg = cfg_default();
    cfg.allowed_users = users.to_vec();
    cfg
}

fn cfg_with_operator(chat: i64) -> TelegramNodeConfig {
    let mut cfg = cfg_default();
    cfg.operator_chat_id = chat;
    cfg
}

fn msg(text: &str) -> IncomingMessage {
    IncomingMessage {
        update_id: 1,
        chat_id: 100,
        user_id: 42,
        message_id: 7,
        username: "alice".into(),
        text: text.into(),
    }
}

fn state_online() -> ChannelState {
    let mut s = ChannelState::default();
    s.mark_online(BotIdentity {
        user_id: 1,
        username: "relixbot".into(),
        first_name: "Relix".into(),
    });
    s
}

/// What the other nodes answer.
#[derive(Default)]
struct StubOutbound {
    memory_recent_replies: Vec<(String, String)>,
    agent_read_reply: (String, String),
    ai_chat_reply: Option<String>,
    task_create_id: Option<String>,
}

/// Carries out the steps of an answer and gives them back in order.
fn run(
    out: Option<&StubOutbound>,
    state: &mut ChannelState,
    ring: &mut MessageRing,
    cfg: &TelegramNodeConfig,
    m: &IncomingMessage,
    cmd: Command<String>,
) -> Vec<Action<String>> {
    let (mut stage, mut action) = handle_one_update(state, ring, cfg, m, &cmd, out.is_some(), 1_000);
    let mut done = vec![];
    while action != Action::Stop {
        let event: Event<String, Vec<(String, String)>> = match (&action, out) {
            (Action::ReadMemory, Some(o)) => Event::Memory {
                agent: o.agent_read_reply.0.clone(),
                user: o.agent_read_reply.1.clone(),
            },
            (Action::Decide { decision, .. }, Some(_)) => Event::Decided(Some(if decision == "approved" {
                "ok|deadbeefdeadbeefdeadbeefdeadbeef\n".to_string()
            } else {
                "ok\n".to_string()
            })),
            (Action::Recall { .. }, Some(o)) => Event::Recalled(o.memory_recent_replies.clone()),
            (Action::CreateTask { .. }, Some(o)) => Event::Created(o.task_create_id.clone()),
            (Action::Ask { .. }, Some(o)) => Event::Answered(o.ai_chat_reply.clone()),
            _ => Event::Finished,
        };
        done.push(action);
        let next = advance(stage, event);
        stage = next.0;
        action = next.1;
    }
    done
}

fn said(done: &[Action<String>]) -> Vec<Said<String>> {
    done.iter()
        .filter_map(|a| match a {
            Action::Say(s) => Some(s.clone()),
            _ => None,
        })
        .collect()
}

fn words(s: &Said<String>) -> String {
    match s {
        Said::Words(w) => w.clone(),
        other => panic!("expected words, got {other:?}"),
    }
}

fn answer(out: Option<&StubOutbound>, cfg: &TelegramNodeConfig, cmd: Command<String>) -> Vec<Action<String>> {
    let mut state = state_online();
    let mut ring = MessageRing::new(50);
    run(out, &mut state, &mut ring, cfg, &msg("hi"), cmd)
}

fn chat(text: &str) -> Command<String> {
    Command::Chat(text.to_string())
}

#[test]
fn start_command_replies_with_welcome_message() {
    let done = answer(Some(&StubOutbound::default()), &cfg_default(), Command::Start);
    assert_eq!(done, vec![Action::Say(Said::Welcome)]);
}

#[test]
fn help_command_lists_commands() {
    let done = answer(Some(&StubOutbound::default()), &cfg_default(), Command::Help);
    assert_eq!(said(&done)[0], Said::Help);
}

#[test]
fn unauthorised_user_gets_static_message_no_dispatch() {
    let done = answer(Some(&StubOutbound::default()), &cfg_with_allow_list(&[999]), chat("hello"));
    assert_eq!(done, vec![Action::Say(Said::Unauthorised)]);
}

#[test]
fn allowed_user_gets_chat_routed_to_ai() {
    let out = StubOutbound {
        ai_chat_reply: Some("hello from ai".into()),
        task_create_id: Some("task-1".into()),
        ..StubOutbound::default()
    };
    let done = answer(Some(&out), &cfg_with_allow_list(&[42]), chat("hi there"));
    assert_eq!(said(&done), vec![Said::Words("hello from ai".to_string())]);
    let writes = done.iter().filter(|a| matches!(a, Action::Remember { .. })).count();
    assert_eq!(writes, 2);
    let typing = done.iter().filter(|a| **a == Action::ShowTyping).count();
    assert_eq!(typing, 1);
    let creates = done.iter().filter(|a| matches!(a, Action::CreateTask { .. })).count();
    assert_eq!(creates, 1);
    assert!(done
        .iter()
        .any(|a| matches!(a, Action::SetStatus { status, .. } if status == "completed")));
}

#[test]
fn chat_with_no_outbound_falls_back_to_brain_unreachable() {
    let done = answer(None, &cfg_default(), chat("hi"));
    assert_eq!(said(&done), vec![Said::BrainUnreachable]);
}

#[test]
fn ai_chat_empty_reply_falls_back_to_brain_unreachable() {
    let out = StubOutbound {
        ai_chat_reply: Some(String::new()),
        task_create_id: Some("task-1".into()),
        ..StubOutbound::default()
    };
    let done = answer(Some(&out), &cfg_default(), chat("hi"));
    assert_eq!(said(&done)[0], Said::BrainUnreachable);
    assert!(done
        .iter()
        .any(|a| matches!(a, Action::SetStatus { status, .. } if status == "failed")));
}

#[test]
fn memory_command_renders_agent_user_blobs() {
    let out = StubOutbound {
        agent_read_reply: ("agent-x".into(), "user-y".into()),
        ..StubOutbound::default()
    };
    let done = answer(Some(&out), &cfg_default(), Command::Memory);
    assert_eq!(
        said(&done)[0],
        Said::Memory {
            agent: "agent-x".to_string(),
            user: "user-y".to_string()
        }
    );
}

#[test]
fn forget_command_clears_memory_and_acks() {
    let done = answer(Some(&StubOutbound::default()), &cfg_default(), Command::Forget);
    let clears = done.iter().filter(|a| **a == Action::ClearMemory).count();
    assert_eq!(clears, 1);
    assert!(words(&said(&done)[0]).contains("Memory cleared"));
}

#[test]
fn approve_command_requires_operator_chat() {
    let done = answer(
        Some(&StubOutbound::default()),
        &cfg_with_operator(999),
        Command::Approve("task-1".to_string()),
    );
    assert!(words(&said(&done)[0]).contains("operator-only"));
    assert!(!done.iter().any(|a| matches!(a, Action::Decide { .. })));
}

#[test]
fn approve_command_from_operator_chat_calls_coord_approval_decide() {
    let mut cfg = cfg_with_operator(100);
    cfg.allowed_users = vec![42];
    let done = answer(Some(&StubOutbound::default()), &cfg, Command::Approve("apr-1".to_string()));
    let text = words(&said(&done)[0]);
    assert!(text.contains("Approved apr-1"));
    assert!(text.contains("Token: deadbeef"));
}

#[test]
fn reject_command_from_operator_chat_calls_coord_approval_decide() {
    let mut cfg = cfg_with_operator(100);
    cfg.allowed_users = vec![42];
    let done = answer(Some(&StubOutbound::default()), &cfg, Command::Reject("apr-1".to_string()));
    assert!(words(&said(&done)[0]).contains("Rejected apr-1"));
}

#[test]
fn typing_indicator_fires_before_chat_flow() {
    let out = StubOutbound {
        ai_chat_reply: Some("reply".into()),
        ..StubOutbound::default()
    };
    let done = answer(Some(&out), &cfg_default(), chat("hi"));
    assert_eq!(done[0], Action::ShowTyping);
}

#[test]
fn inbound_recorded_in_ring_and_state() {
    let out = StubOutbound {
        ai_chat_reply: Some("ok".into()),
        ..StubOutbound::default()
    };
    let mut state = state_online();
    let mut ring = MessageRing::new(50);
    run(Some(&out), &mut state, &mut ring, &cfg_default(), &msg("hi"), chat("hi"));
    assert_eq!(ring.len(), 1);
    assert_eq!(state.messages_seen(), 1);
    assert!(state.last_message_at().is_some());
}

#[test]
fn unauthorised_messages_still_recorded_in_ring() {
    let mut state = state_online();
    let mut ring = MessageRing::new(50);
    run(
        Some(&StubOutbound::default()),
        &mut state,
        &mut ring,
        &cfg_with_allow_list(&[999]),
        &msg("hi"),
        chat("hi"),
    );
    assert_eq!(ring.len(), 1);
}

#[test]
fn send_failure_does_not_panic_handler() {
    let first = send_text(100, 7, "a-b", "a\\-b", 0, false);
    match first {
        SendStep::Send(m) => {
            assert_eq!(m.text, "a\\-b");
            assert_eq!(m.parse_mode, Some(ParseMode::MarkdownV2));
        }
        other => panic!("expected a send, got {other:?}"),
    }
    match send_text(100, 7, "a-b", "a\\-b", 1, false) {
        SendStep::Send(m) => {
            assert_eq!(m.text, "a-b");
            assert_eq!(m.parse_mode, None);
        }
        other => panic!("expected a send, got {other:?}"),
    }
    assert_eq!(send_text(100, 7, "a-b", "a\\-b", 1, true), SendStep::Over(true));
    assert_eq!(send_text(100, 7, "a-b", "a\\-b", 2, false), SendStep::Over(false));
}

#[test]
fn a_chat_turn_runs_through_its_steps_in_order() {
    let out = StubOutbound {
        memory_recent_replies: vec![("user".into(), "before".into())],
        ai_chat_reply: Some("fine".into()),
        task_create_id: Some("t9".into()),
        ..StubOutbound::default()
    };
    let done = answer(Some(&out), &cfg_default(), chat("how are you"));
    assert_eq!(done[0], Action::ShowTyping);
    assert_eq!(done[1], Action::Recall { turns: HISTORY_TURNS });
    assert!(matches!(&done[2], Action::CreateTask { title, .. } if *title == message_title("how are you")));
    assert!(matches!(&done[3], Action::LogTask { task_id, .. } if task_id == "t9"));
    let history = render_history(&out.memory_recent_replies);
    assert!(matches!(&done[4], Action::Ask { prompt, history: h } if prompt == "how are you" && *h == history));
    assert!(matches!(&done[5], Action::Remember { role, text } if role == "user" && text == "how are you"));
    assert!(matches!(&done[6], Action::Remember { role, text } if role == "assistant" && text == "fine"));
    assert_eq!(done[7], Action::Say(Said::Words("fine".to_string())));
    assert!(matches!(&done[8], Action::SetStatus { task_id, status, .. } if task_id == "t9" && status == "completed"));
    assert_eq!(done.len(), 9);
}

#[test]
fn an_answer_that_ended_stays_ended() {
    let (stage, action) = advance(Stage::Closing, Event::Finished);
    assert_eq!(action, Action::Stop);
    let (_, again) = advance(stage, Event::Finished);
    assert_eq!(again, Action::Stop);
}

#[test]
fn operator_is_told_once_of_each_approval() {
    let mut n = NotifierState::default();
    let ids = vec!["a".to_string(), "b".to_string(), "a".to_string()];
    assert_eq!(pending_notices(&mut n, &ids), vec![0, 1]);
    assert!(pending_notices(&mut n, &ids).is_empty());
}

#[test]
fn polling_moves_past_each_update() {
    assert_eq!(next_offset(0, 10), 11);
    assert_eq!(next_offset(20, 10), 20);
}

#[test]
fn ring_keeps_the_newest_messages() {
    let mut ring = MessageRing::new(2);
    for i in 0..4 {
        ring.record(RecordedInbound {
            ts: i,
            user_id: 1,
            username: "u".into(),
            chat_id: 1,
            text: format!("m{i}"),
        });
    }
    assert_eq!(ring.len(), 2);
    let kept: Vec<i64> = ring.snapshot().iter().map(|m| m.ts).collect();
    assert_eq!(kept, vec![2, 3]);
}

#[test]
fn telegram_capabilities_answer_with_the_rendered_bodies() {
    let state = state_online();
    let mut ring = MessageRing::new(5);
    for i in 0..3 {
        ring.record(RecordedInbound {
            ts: i,
            user_id: 1,
            username: "u".into(),
            chat_id: 9,
            text: format!("m{i}"),
        });
    }
    let call = |args: &[u8]| InvocationCtx {
        args: args.to_vec(),
        caller_subject_id: "x".into(),
        tenant_id: "t".into(),
    };
    match handle_status(&state, &call(b"ignored")) {
        HandlerOutcome::Done(b) => assert_eq!(String::from_utf8(b).unwrap(), render_status_body(&state)),
        HandlerOutcome::Failed(e) => panic!("{}", e.cause),
    }
    match handle_messages_recent(&ring, &call(b"1")) {
        HandlerOutcome::Done(b) => assert_eq!(String::from_utf8(b).unwrap(), "2\t1\tu\t9\tm2\n"),
        HandlerOutcome::Failed(e) => panic!("{}", e.cause),
    }
    match handle_messages_recent(&ring, &call(b"0")) {
        HandlerOutcome::Done(b) => assert_eq!(String::from_utf8(b).unwrap(), render_recent_body(&ring, 20)),
        HandlerOutcome::Failed(e) => panic!("{}", e.cause),
    }
}

#[test]
fn status_summary_names_the_bot() {
    let text = render_status_summary(&state_online(), &cfg_default());
    assert!(text.contains("relixbot"), "{text}");
}

#[test]
fn telegram_listings_have_a_line_for_each_message() {
    let mut ring = MessageRing::new(10);
    assert_eq!(render_recent_body(&ring, 3), "");
    for i in 0..4 {
        ring.record(RecordedInbound {
            ts: i,
            user_id: 1,
            username: "n".into(),
            chat_id: -2,
            text: "x\ny\t".repeat(60),
        });
    }
    assert_eq!(render_recent_body(&ring, 0), "");
    let all = render_recent_body(&ring, 9);
    for n in 0..6 {
        let body = render_recent_body(&ring, n);
        assert!(all.starts_with(&body));
        assert_eq!(body.matches('\n').count(), n.min(4));
    }
    let first = all.lines().next().unwrap();
    assert!(first.starts_with('3'));
    assert_eq!(first.split('\t').nth(4).unwrap().chars().count(), 100);
}
