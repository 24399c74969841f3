use relix_nodes::dispatch::{HandlerOutcome, InvocationCtx};
use relix_nodes::slack::{
    handle_messages_recent, handle_status, render_recent_body, render_status_body, BotIdentity, ChannelState, MessageRing,
    RecordedInbound,
};

#[test]
fn mod_render_status_body_offline_default_shape() {
    let s = ChannelState::default();
    let body = render_status_body(&s, "C0");
    assert!(body.contains("online=false"));
    assert!(body.contains("channel_id=C0"));
    assert!(body.contains("messages_seen=0"));
    assert!(body.contains("last_message_at=-1"));
    assert!(body.ends_with('\n'));
}

#[test]
fn mod_render_status_body_after_online_includes_identity() {
    let mut s = ChannelState::default();
    s.mark_online(BotIdentity {
        user_id: "U999".into(),
        team_id: "T999".into(),
        bot_id: "B999".into(),
        username: "relixbot".into(),
    });
    let body = render_status_body(&s, "C0");
    assert!(body.contains("online=true"));
    assert!(body.contains("username=relixbot"));
    assert!(body.contains("user_id=U999"));
    assert!(body.contains("team_id=T999"));
}

#[test]
fn mod_render_recent_body_returns_newest_first() {
    let mut ring = MessageRing::new(200);
    ring.record(RecordedInbound {
        ts: "1700000001.000000".into(),
        user_id: "U1".into(),
        username: "alice".into(),
        channel_id: "C0".into(),
        text: "old".into(),
    });
    ring.record(RecordedInbound {
        ts: "1700000002.000000".into(),
        user_id: "U2".into(),
        username: "bob".into(),
        channel_id: "C0".into(),
        text: "new".into(),
    });
    let body = render_recent_body(&ring, 20);
    let lines: Vec<&str> = body.trim_end().split('\n').collect();
    assert!(lines[0].contains("\tbob\t"));
    assert!(lines[1].contains("\talice\t"));
}

#[test]
fn mod_render_recent_body_truncates_text_preview() {
    let mut ring = MessageRing::new(200);
    let long: String = "a".repeat(250);
    ring.record(RecordedInbound {
        ts: "1.0".into(),
        user_id: "U0".into(),
        username: "alice".into(),
        channel_id: "C0".into(),
        text: long,
    });
    let body = render_recent_body(&ring, 5);
    let preview = body.split('\t').nth(4).unwrap().trim_end_matches('\n');
    assert_eq!(preview.chars().count(), 100);
}

#[test]
fn slack_capabilities_answer_with_the_rendered_bodies() {
    let mut s = ChannelState::default();
    s.record_inbound(5);
    let mut ring = MessageRing::new(2);
    for (name, text) in [("a", "one"), ("b", "two"), ("c", "three")] {
        ring.record(RecordedInbound {
            ts: "1.0".into(),
            user_id: "U".into(),
            username: name.into(),
            channel_id: "C0".into(),
            text: text.into(),
        });
    }
    let call = |args: &[u8]| InvocationCtx {
        args: args.to_vec(),
        caller_subject_id: "x".into(),
        tenant_id: "t".into(),
    };
    match handle_status(&s, "C0", &call(b"")) {
        HandlerOutcome::Done(b) => assert_eq!(String::from_utf8(b).unwrap(), render_status_body(&s, "C0")),
        HandlerOutcome::Failed(e) => panic!("{}", e.cause),
    }
    match handle_messages_recent(&ring, &call(b" 1 ")) {
        HandlerOutcome::Done(b) => assert_eq!(String::from_utf8(b).unwrap(), "1.0\tU\tc\tC0\tthree\n"),
        HandlerOutcome::Failed(e) => panic!("{}", e.cause),
    }
    match handle_messages_recent(&ring, &call(b"zero")) {
        HandlerOutcome::Done(b) => assert_eq!(String::from_utf8(b).unwrap(), render_recent_body(&ring, 20)),
        HandlerOutcome::Failed(e) => panic!("{}", e.cause),
    }
}

#[test]
fn slack_listings_have_a_line_for_each_message() {
    let mut ring = MessageRing::new(10);
    assert_eq!(render_recent_body(&ring, 3), "");
    for i in 0..4 {
        ring.record(RecordedInbound {
            ts: format!("{i}.0"),
            user_id: "U".into(),
            username: "n".into(),
            channel_id: "C".into(),
            text: "x\ny\t".repeat(60),
        });
    }
    assert_eq!(render_recent_body(&ring, 0), "");
    let all = render_recent_body(&ring, 9);
    for n in 0..6 {
        let body = render_recent_body(&ring, n);
        assert!(all.starts_with(&body));
        assert_eq!(body.matches('\n').count(), n.min(4));
    }
    let first = all.lines().next().unwrap();
    assert!(first.starts_with('3'));
    assert_eq!(first.split('\t').nth(4).unwrap().chars().count(), 100);
}
