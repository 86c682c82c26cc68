use oc_outpost::client::{user_message_request, OpenCodeApi};
use oc_outpost::types::MessagePart;

#[test]
fn new_trims_trailing_slash() {
    assert_eq!(OpenCodeApi::new("http://localhost:4100/").base_url(), "http://localhost:4100");
    assert_eq!(OpenCodeApi::new("http://localhost:4100//").base_url(), "http://localhost:4100");
    assert_eq!(OpenCodeApi::new("http://localhost:4100").base_url(), "http://localhost:4100");
}

#[test]
fn sse_url_generation() {
    let api = OpenCodeApi::new("http://localhost:4100");
    assert_eq!(api.sse_url("session-123"), "http://localhost:4100/session/session-123/stream");
}

#[test]
fn endpoint_urls() {
    let api = OpenCodeApi::new("http://h:1");
    assert_eq!(api.health_url(), "http://h:1/global/health");
    assert_eq!(api.sessions_url(), "http://h:1/sessions");
    assert_eq!(api.create_session_url(), "http://h:1/session");
    assert_eq!(api.session_url("s1"), "http://h:1/session/s1");
    assert_eq!(api.prompt_url("s1"), "http://h:1/session/s1/prompt");
    assert_eq!(api.prompt_async_url("s1"), "http://h:1/session/s1/prompt_async");
    assert_eq!(api.permission_reply_url("s1", "p2"), "http://h:1/session/s1/permission/p2/reply");
}

#[test]
fn user_message_body() {
    let req = user_message_request("Hello!");
    assert_eq!(req.message.role, "user");
    assert_eq!(req.stream, Some(false));
    assert_eq!(req.message.content.len(), 1);
    match &req.message.content[0] {
        MessagePart::Text { text } => assert_eq!(text, "Hello!"),
        _ => panic!("expected a text part"),
    }
}
