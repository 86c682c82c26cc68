use oc_outpost::integration::{
    choose_port, describe_message_kind, event_output, forwarder_step, message_topic, project_offer, route_message,
    shown_tool_result, topic_display_name, wake_failed_error, wake_timeout_error, MessageFacts, MessageKindFlags,
    MessageRoute, ProjectOffer, RateLimiter,
};
use oc_outpost::handlers::callbacks::{parse_project_callback_data, route_callback, CallbackRoute};
use oc_outpost::stream::{OpenCodeMessage, StreamEvent};
use oc_outpost::types::{InstanceState, TopicMapping};

fn facts(text: bool, photo: bool) -> MessageFacts {
    MessageFacts {
        whitelisted: true,
        thread_id: Some(42),
        has_text: text,
        has_caption: false,
        has_photo: photo,
        topic_created: false,
    }
}

fn mapping(session: Option<&str>) -> TopicMapping {
    TopicMapping {
        topic_id: 42,
        chat_id: -100,
        project_path: "/p/proj".to_string(),
        session_id: session.map(|s| s.to_string()),
        instance_id: None,
        topic_name_updated: false,
        created_at: 0,
        updated_at: 0,
    }
}

#[test]
fn messages_outside_whitelist_or_topic() {
    let mut f = facts(true, false);
    f.whitelisted = false;
    assert_eq!(message_topic(f).unwrap(), None);
    let mut f = facts(true, false);
    f.thread_id = None;
    assert!(message_topic(f).unwrap_err().to_string().contains("no thread_id"));
    assert_eq!(message_topic(facts(true, false)).unwrap(), Some(42));
}

#[test]
fn route_message_no_mapping() {
    assert!(matches!(route_message(facts(true, false), 42, None).unwrap(), MessageRoute::OfferProjects { topic_id: 42 }));
    assert!(matches!(route_message(facts(false, false), 42, None).unwrap(), MessageRoute::Ignore));
    let mut f = facts(false, false);
    f.topic_created = true;
    assert!(matches!(route_message(f, 42, None).unwrap(), MessageRoute::OfferProjects { .. }));
}

#[test]
fn route_message_with_mapping() {
    let m = mapping(Some("ses_1"));
    match route_message(facts(true, false), 42, Some(&m)).unwrap() {
        MessageRoute::Forward { topic_id, session_id } => {
            assert_eq!(topic_id, 42);
            assert_eq!(session_id, "ses_1");
        },
        _ => panic!("expected forwarding"),
    }
    let mut f = facts(false, false);
    f.has_caption = true;
    assert!(matches!(route_message(f, 42, Some(&m)).unwrap(), MessageRoute::Forward { .. }));
    assert!(matches!(route_message(facts(false, false), 42, Some(&m)).unwrap(), MessageRoute::Ignore));
}

#[test]
fn mapping_without_session_fails() {
    let m = mapping(None);
    let e = route_message(facts(true, false), 42, Some(&m)).unwrap_err();
    assert_eq!(e.to_string(), "Session not found: No session for topic 42 (project: /p/proj)");
}

#[test]
fn port_choice_and_resurrection() {
    assert_eq!(choose_port(Some((InstanceState::Running, 4100)), None), Some(4100));
    assert_eq!(choose_port(Some((InstanceState::Starting, 4100)), Some((InstanceState::Running, 4200))), Some(4100));
    assert_eq!(choose_port(Some((InstanceState::Stopped, 4100)), Some((InstanceState::Running, 4200))), Some(4200));
    assert_eq!(choose_port(None, Some((InstanceState::Starting, 4200))), None);
    assert_eq!(choose_port(None, None), None);
    assert_eq!(wake_failed_error("boom").to_string(), "OpenCode API error: Failed to wake up session: boom");
    assert_eq!(wake_timeout_error().to_string(), "OpenCode API error: Session wake-up timed out (30s)");
}

#[test]
fn project_selection_keyboard() {
    match project_offer(&vec![], 5) {
        ProjectOffer::Nothing { text } => assert_eq!(text, "No projects available. Add project directories to get started."),
        _ => panic!(),
    }
    let long = "x".repeat(60);
    match project_offer(&vec![long.clone()], 5) {
        ProjectOffer::Nothing { text } => assert_eq!(text, "No projects available with compatible names."),
        _ => panic!(),
    }
    match project_offer(&vec!["a".to_string(), long, "b".to_string()], 123) {
        ProjectOffer::Keyboard { text, keyboard } => {
            assert_eq!(text, "Select a project for this topic:");
            assert_eq!(keyboard.inline_keyboard.len(), 2);
            assert_eq!(keyboard.inline_keyboard[0][0].text, "a");
            assert_eq!(keyboard.inline_keyboard[0][0].callback_data, "proj:123:a");
            assert_eq!(keyboard.inline_keyboard[1][0].callback_data, "proj:123:b");
        },
        _ => panic!(),
    }
    let fits = "y".repeat(55);
    assert!(matches!(project_offer(&vec![fits], 123), ProjectOffer::Keyboard { .. }));
}

#[test]
fn rate_limiter_state_default() {
    let mut r = RateLimiter::new();
    assert_eq!(r.flush(0), None);
    assert_eq!(r.push_text("first", 0), Some("first".to_string()));
    assert_eq!(r.push_text("a", 100), None);
    assert_eq!(r.push_text("b", 1000), None);
    assert_eq!(r.push_text("c", 2000), Some("abc".to_string()));
    let big = "z".repeat(2048);
    assert_eq!(r.push_text(&big, 2001), Some(big.clone()));
    assert_eq!(r.push_text("q", 2002), None);
    assert_eq!(r.flush(2003), Some("q".to_string()));
}

#[test]
fn stream_event_outputs() {
    let tool = event_output(&StreamEvent::ToolInvocation { name: "read".to_string(), args: "{}".to_string() });
    assert!(tool.flush_first);
    assert_eq!(tool.message, Some("<b>Tool:</b> <code>read</code>\n<pre>{}</pre>".to_string()));
    let result = event_output(&StreamEvent::ToolResult { result: "ok".to_string() });
    assert!(!result.flush_first);
    assert_eq!(result.message, Some("<b>Result:</b>\n<pre>ok</pre>".to_string()));
    let err = event_output(&StreamEvent::SessionError { error: "bad".to_string() });
    assert!(err.flush_first);
    assert_eq!(err.message, Some("<b>Error:</b> bad".to_string()));
    let perm = event_output(&StreamEvent::PermissionRequest {
        id: "p1".to_string(),
        permission_type: "file_read".to_string(),
        details: "{\"path\":\"/x\"}".to_string(),
    });
    assert_eq!(perm.permission, Some(("p1".to_string(), "file_read: {\"path\":\"/x\"}".to_string())));
    assert!(event_output(&StreamEvent::SessionIdle).flush_first);
    let done = event_output(&StreamEvent::MessageComplete {
        message: OpenCodeMessage { id: "m".to_string(), role: "assistant".to_string(), content: vec![] },
    });
    assert!(done.flush_first && done.message.is_none());
    let nothing = event_output(&StreamEvent::Reconnected);
    assert!(!nothing.flush_first && nothing.message.is_none() && nothing.permission.is_none());
}

#[test]
fn long_tool_results_are_cut() {
    let long = "a".repeat(600);
    let shown = shown_tool_result(&long);
    assert_eq!(shown.len(), 503);
    assert!(shown.ends_with("..."));
    assert_eq!(shown_tool_result(&"b".repeat(500)), "b".repeat(500));
}

#[test]
fn forwarder_renames_once_and_stops_on_error() {
    let s = forwarder_step(true, &StreamEvent::SessionIdle);
    assert!(s.rename_topic && !s.stop);
    assert!(!forwarder_step(false, &StreamEvent::SessionIdle).rename_topic);
    assert!(!forwarder_step(true, &StreamEvent::TextChunk { text: "x".to_string() }).rename_topic);
    assert!(forwarder_step(true, &StreamEvent::SessionError { error: "e".to_string() }).stop);
    assert_eq!(topic_display_name("/p/proj"), "proj");
    assert_eq!(topic_display_name("/"), "Unknown");
}

#[test]
fn message_kinds() {
    let mut f = MessageKindFlags::default();
    assert_eq!(describe_message_kind(&f), "other");
    f.sticker = true;
    assert_eq!(describe_message_kind(&f), "sticker");
    f.text = true;
    assert_eq!(describe_message_kind(&f), "text");
}

#[test]
fn project_buttons_read_back() {
    let dirs = vec!["alpha".to_string(), "with:colon".to_string()];
    match project_offer(&dirs, -12) {
        ProjectOffer::Keyboard { keyboard, .. } => {
            assert_eq!(keyboard.inline_keyboard.len(), 2);
            for (row, name) in keyboard.inline_keyboard.iter().zip(dirs.iter()) {
                let data = &row[0].callback_data;
                assert_eq!(route_callback(Some(data)), CallbackRoute::ProjectSelection);
                assert_eq!(parse_project_callback_data(data).unwrap(), (-12, name.clone()));
            }
        }
        ProjectOffer::Nothing { .. } => panic!("expected a keyboard"),
    }
}
