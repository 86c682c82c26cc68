use oc_outpost::stream::{
    connection_lost_event, reconnect_plan, sse_kind, DedupSet, OpenCodeMessage, ReconnectPlan, SseKind,
    SsePayload, StreamBatcher, StreamEvent,
};

fn text(t: &str) -> SsePayload {
    SsePayload::Text { text: t.to_string() }
}

#[test]
fn event_kinds_by_name() {
    assert_eq!(sse_kind("message.part.updated"), SseKind::PartUpdated);
    assert_eq!(sse_kind("message.updated"), SseKind::MessageUpdated);
    assert_eq!(sse_kind("session.idle"), SseKind::SessionIdle);
    assert_eq!(sse_kind("session.error"), SseKind::SessionError);
    assert_eq!(sse_kind("permission.updated"), SseKind::PermissionUpdated);
    assert_eq!(sse_kind("permission.replied"), SseKind::PermissionReplied);
    assert_eq!(sse_kind("something.else"), SseKind::Unknown);
}

#[test]
fn text_is_batched_until_idle() {
    let dedup = DedupSet::new();
    let mut b = StreamBatcher::new(0);
    assert!(b.on_message(text("Hello "), &dedup, "s", 10).is_empty());
    assert!(b.on_message(text("world"), &dedup, "s", 20).is_empty());
    assert!(b.on_message(text("!"), &dedup, "s", 30).is_empty());
    let out = b.on_message(SsePayload::Idle, &dedup, "s", 40);
    assert_eq!(out, vec![StreamEvent::TextChunk { text: "Hello world!".to_string() }, StreamEvent::SessionIdle]);
}

#[test]
fn tool_use_flushes_text_first() {
    let dedup = DedupSet::new();
    let mut b = StreamBatcher::new(0);
    b.on_message(text("thinking"), &dedup, "s", 1);
    let out = b.on_message(
        SsePayload::ToolUse { name: "read_file".to_string(), input: "{\"path\":\"/foo.txt\"}".to_string() },
        &dedup,
        "s",
        2,
    );
    assert_eq!(
        out,
        vec![
            StreamEvent::TextChunk { text: "thinking".to_string() },
            StreamEvent::ToolInvocation { name: "read_file".to_string(), args: "{\"path\":\"/foo.txt\"}".to_string() },
        ]
    );
    let out2 = b.on_message(SsePayload::ToolResult { content: "File contents here".to_string() }, &dedup, "s", 3);
    assert_eq!(out2, vec![StreamEvent::ToolResult { result: "File contents here".to_string() }]);
}

#[test]
fn errors_and_permissions_pass_at_once() {
    let dedup = DedupSet::new();
    let mut b = StreamBatcher::new(0);
    b.on_message(text("pending"), &dedup, "s", 1);
    let out = b.on_message(SsePayload::Error { message: "Something went wrong".to_string() }, &dedup, "s", 2);
    assert_eq!(out, vec![StreamEvent::SessionError { error: "Something went wrong".to_string() }]);
    let out = b.on_message(
        SsePayload::PermissionReplied { id: "perm_123".to_string(), allowed: true },
        &dedup,
        "s",
        3,
    );
    assert_eq!(out, vec![StreamEvent::PermissionReply { id: "perm_123".to_string(), allowed: true }]);
    assert_eq!(b.on_end(), Some(StreamEvent::TextChunk { text: "pending".to_string() }));
    assert_eq!(b.on_end(), None);
}

#[test]
fn completed_message_is_forwarded() {
    let dedup = DedupSet::new();
    let mut b = StreamBatcher::new(0);
    let m = OpenCodeMessage { id: "msg_123".to_string(), role: "assistant".to_string(), content: vec![] };
    let out = b.on_message(SsePayload::Message { message: Some(m.clone()) }, &dedup, "s", 1);
    assert_eq!(out, vec![StreamEvent::MessageComplete { message: m }]);
    assert!(b.on_message(SsePayload::Message { message: None }, &dedup, "s", 2).is_empty());
    assert!(b.on_message(SsePayload::Ignored, &dedup, "s", 3).is_empty());
}

#[test]
fn telegram_echo_is_skipped() {
    let mut dedup = DedupSet::new();
    dedup.mark("test-session", "Hello from Telegram");
    assert!(dedup.should_skip("test-session", "Hello from Telegram"));
    assert!(!dedup.should_skip("other-session", "Hello from Telegram"));
    let mut b = StreamBatcher::new(0);
    b.on_message(text("Hello from Telegram"), &dedup, "test-session", 1);
    assert_eq!(b.on_end(), None);
    dedup.unmark("test-session", "Hello from Telegram");
    assert!(!dedup.should_skip("test-session", "Hello from Telegram"));
}

#[test]
fn tick_sends_text_after_interval() {
    let dedup = DedupSet::new();
    let mut b = StreamBatcher::new(0);
    b.on_message(text("abc"), &dedup, "s", 1000);
    assert_eq!(b.on_tick(2999), None);
    assert_eq!(b.on_tick(3000), Some(StreamEvent::TextChunk { text: "abc".to_string() }));
    assert_eq!(b.on_tick(9000), None);
}

#[test]
fn reconnect_backoff() {
    assert_eq!(reconnect_plan(0), ReconnectPlan::Retry { delay_secs: 1 });
    assert_eq!(reconnect_plan(1), ReconnectPlan::Retry { delay_secs: 2 });
    assert_eq!(reconnect_plan(4), ReconnectPlan::Retry { delay_secs: 16 });
    assert_eq!(reconnect_plan(5), ReconnectPlan::GiveUp);
    assert_eq!(
        connection_lost_event(),
        StreamEvent::SessionError { error: "Connection lost after 5 attempts".to_string() }
    );
}
