use oc_outpost::handlers::callbacks::{
    close_keyboard, close_steps, create_inline_keyboard, format_permission_message, is_allow, parse_callback_data,
    parse_close_callback, parse_project_callback_data, permission_result_text, route_callback, CallbackRoute,
    CloseAction, CloseStep,
};
use oc_outpost::handlers::help::{format_general_help, format_topic_help, help_text};
use oc_outpost::handlers::projects::{format_projects, sort_dir_names};
use oc_outpost::handlers::session::{format_session_info, format_timestamp};
use oc_outpost::handlers::sessions::{extract_project_name, format_sessions, sessions_from_instances, SessionInfo};
use oc_outpost::handlers::status::{format_status_output, format_uptime, ports_used};
use oc_outpost::handlers::topic::{
    disconnect_confirmation, format_confirmation, get_topic_id, is_general_topic, link_confirmation, path_error,
    PathProblem, TopicCommand,
};
use oc_outpost::types::{InstanceInfo, InstanceState, TopicMapping};

// --- /help

#[test]
fn test_format_general_help() {
    let help = format_general_help();
    assert!(help.contains("OpenCode Telegram Bot"));
    assert!(help.contains("General Commands:"));
    assert!(help.contains("/new <name> - Create new project"));
    assert!(help.contains("/sessions - List all sessions"));
    assert!(help.contains("/connect <name> - Connect to session"));
    assert!(help.contains("/status - Orchestrator status"));
    assert!(help.contains("/clear - Clean stale mappings"));
    assert!(help.contains("/help - This help"));
    assert!(help.contains("In a topic:"));
    assert!(help.contains("/session - Show session info"));
    assert!(help.contains("/link <path> - Link to directory"));
    assert!(help.contains("/stream - Toggle streaming"));
    assert!(help.contains("/disconnect - Disconnect session"));
}

#[test]
fn test_format_topic_help() {
    let help = format_topic_help();
    assert!(help.contains("Topic Commands:"));
    assert!(help.contains("/session - Show session info"));
    assert!(help.contains("/link <path> - Link to directory"));
    assert!(help.contains("/stream - Toggle streaming"));
    assert!(help.contains("/disconnect - Disconnect session"));
    assert!(help.contains("Use /help in General topic for all commands."));
    assert!(!help.contains("/new"));
    assert!(!help.contains("/sessions"));
    assert!(!help.contains("/connect"));
    assert!(!help.contains("/status"));
    assert!(!help.contains("/clear"));
}

#[test]
fn test_help_formatting_consistency() {
    let general = format_general_help();
    let topic = format_topic_help();
    assert!(!general.is_empty());
    assert!(!topic.is_empty());
    assert!(general.len() > topic.len());
    assert!(general.contains("/help") || general.contains("help"));
    assert!(topic.contains("help"));
}

#[test]
fn help_depends_on_topic() {
    assert_eq!(help_text(true), format_topic_help());
    assert_eq!(help_text(false), format_general_help());
}

// --- /projects

#[test]
fn test_format_projects_empty() {
    let output = format_projects(vec![], "/home/user/projects");
    assert_eq!(output, "No projects found in `/home/user/projects`");
}

#[test]
fn test_format_projects_single() {
    let output = format_projects(vec!["my-project".to_string()], "/home/user/projects");
    assert!(output.contains("📁 Available Projects"));
    assert!(output.contains("• `my-project`"));
}

#[test]
fn test_format_projects_multiple() {
    let dirs = vec!["project-a".to_string(), "project-b".to_string(), "project-c".to_string()];
    let output = format_projects(dirs, "/home/user/projects");
    assert!(output.contains("📁 Available Projects"));
    assert!(output.contains("• `project-a`"));
    assert!(output.contains("• `project-b`"));
    assert!(output.contains("• `project-c`"));
}

#[test]
fn test_format_projects_preserves_order() {
    let dirs = vec!["alpha".to_string(), "beta".to_string(), "gamma".to_string()];
    let output = format_projects(dirs, "/base");
    let alpha_pos = output.find("alpha").unwrap();
    let beta_pos = output.find("beta").unwrap();
    let gamma_pos = output.find("gamma").unwrap();
    assert!(alpha_pos < beta_pos && beta_pos < gamma_pos);
}

#[test]
fn projects_exact_text() {
    let output = format_projects(vec!["a".to_string(), "b".to_string()], "/x");
    assert_eq!(output, "📁 Available Projects\n\n• `a`\n• `b`");
}

// --- /sessions

fn session(i: usize) -> SessionInfo {
    SessionInfo {
        name: format!("project{}", i),
        path: format!("/home/user/project{}", i),
        session_id: format!("ses_{}", i),
        port: 4100 + i as u16,
    }
}

#[test]
fn test_format_empty_list() {
    assert_eq!(format_sessions(&[]), "No active sessions found.");
}

#[test]
fn test_format_single_session() {
    let sessions = vec![SessionInfo {
        name: "my-project".to_string(),
        path: "/home/user/my-project".to_string(),
        session_id: "ses_abc123".to_string(),
        port: 4100,
    }];
    let output = format_sessions(&sessions);
    assert!(output.contains("Active Sessions (1)"));
    assert!(output.contains("my-project"));
    assert!(output.contains("/home/user/my-project"));
    assert!(output.contains("ses_abc123"));
    assert!(output.contains("Port: 4100"));
    assert_eq!(output, "Active Sessions (1)\n\nmy-project\n/home/user/my-project\nses_abc123\nPort: 4100\n\n");
}

#[test]
fn test_format_multiple_sessions() {
    let sessions = vec![session(1), session(2)];
    let output = format_sessions(&sessions);
    assert!(output.contains("Active Sessions (2)"));
    assert!(output.contains("project1"));
    assert!(output.contains("project2"));
}

#[test]
fn test_pagination_many_sessions() {
    let sessions: Vec<SessionInfo> = (0..15).map(session).collect();
    let output = format_sessions(&sessions);
    assert!(output.contains("Active Sessions (15)"));
    assert!(output.contains("... and 5 more"));
    assert!(output.contains("project0"));
    assert!(output.contains("project9"));
    assert!(!output.contains("project10"));
}

#[test]
fn test_extract_project_name() {
    assert_eq!(extract_project_name("/home/user/my-project"), "my-project");
    assert_eq!(extract_project_name("/my-project"), "my-project");
    assert_eq!(extract_project_name("my-project"), "my-project");
    assert_eq!(extract_project_name(""), "unknown");
}

#[test]
fn sessions_come_from_running_instances() {
    let mk = |id: &str, state: InstanceState, path: &str, port: u16| InstanceInfo {
        id: id.to_string(),
        state,
        project_path: path.to_string(),
        port,
        pid: None,
        container_id: None,
        started_at: None,
        stopped_at: None,
        topic_id: 0,
    };
    let insts = vec![
        mk("a", InstanceState::Running, "/p/alpha", 4100),
        mk("b", InstanceState::Stopped, "/p/beta", 4101),
        mk("c", InstanceState::Starting, "/p/gamma", 4102),
    ];
    let s = sessions_from_instances(&insts);
    assert_eq!(s.len(), 2);
    assert_eq!(s[0].name, "alpha");
    assert_eq!(s[0].session_id, "a");
    assert_eq!(s[1].path, "/p/gamma");
    assert_eq!(s[1].port, 4102);
}

// --- /status

#[test]
fn test_format_uptime_hours_and_minutes() {
    assert_eq!(format_uptime(8100), "2h 15m");
}

#[test]
fn test_format_uptime_only_minutes() {
    assert_eq!(format_uptime(900), "15m");
}

#[test]
fn test_format_uptime_zero() {
    assert_eq!(format_uptime(0), "0m");
}

#[test]
fn test_format_uptime_one_hour() {
    assert_eq!(format_uptime(3600), "1h 0m");
}

#[test]
fn test_format_status_output_basic() {
    let output = format_status_output(3, 4, 100, 8100);
    assert!(output.contains("Orchestrator Status"));
    assert!(output.contains("Active Instances: 3"));
    assert!(output.contains("Port Pool: 4/100 used"));
    assert!(output.contains("Uptime: 2h 15m"));
    assert!(output.contains("Health: Healthy"));
}

#[test]
fn test_format_status_output_no_instances() {
    let output = format_status_output(0, 0, 100, 300);
    assert!(output.contains("Active Instances: 0"));
    assert!(output.contains("Port Pool: 0/100 used"));
    assert!(output.contains("Uptime: 5m"));
}

#[test]
fn test_format_status_output_all_active() {
    let output = format_status_output(10, 10, 100, 3600);
    assert!(output.contains("Active Instances: 10"));
    assert!(output.contains("Port Pool: 10/100 used"));
    assert!(output.contains("Uptime: 1h 0m"));
}

#[test]
fn test_format_status_output_mixed() {
    let output = format_status_output(5, 8, 100, 7200);
    assert!(output.contains("Active Instances: 5"));
    assert!(output.contains("Port Pool: 8/100 used"));
    assert!(output.contains("Uptime: 2h 0m"));
}

#[test]
fn status_exact_text_and_ports() {
    assert_eq!(
        format_status_output(1, 2, 3, 61),
        "Orchestrator Status\n\nActive Instances: 1\n\nPort Pool: 2/3 used\nUptime: 1m\nHealth: Healthy\n"
    );
    assert_eq!(ports_used(100, 97), 3);
}

// --- /session

fn mapping(session: Option<&str>, created_at: i64) -> TopicMapping {
    TopicMapping {
        topic_id: 123,
        chat_id: -1001234567890,
        project_path: "/home/user/my-project".to_string(),
        session_id: session.map(|s| s.to_string()),
        instance_id: Some("inst_001".to_string()),
        topic_name_updated: false,
        created_at,
        updated_at: created_at + 100,
    }
}

fn instance(state: InstanceState, port: u16) -> InstanceInfo {
    InstanceInfo {
        id: "inst_001".to_string(),
        state,
        project_path: "/home/user/my-project".to_string(),
        port,
        pid: Some(12345),
        container_id: None,
        started_at: Some(1640000000),
        stopped_at: None,
        topic_id: 0,
    }
}

#[test]
fn test_format_with_all_fields() {
    let output = format_session_info(&mapping(Some("ses_abc123456"), 1640000000), Some(&instance(InstanceState::Running, 4101)));
    assert!(output.contains("Session Info"));
    assert!(output.contains("Status: Running"));
    assert!(output.contains("Port: 4101"));
    assert!(output.contains("Session: ses_abc123456"));
    assert!(output.contains("Project: /home/user/my-project"));
    assert!(output.contains("Created: 2021-12-20"));
}

#[test]
fn test_format_with_missing_fields() {
    let output = format_session_info(&mapping(None, 1640000000), None);
    assert!(output.contains("Session Info"));
    assert!(output.contains("Status: (not available)"));
    assert!(output.contains("Port: (not available)"));
    assert!(output.contains("Session: (not available)"));
    assert!(output.contains("Project: /home/user/my-project"));
    assert!(output.contains("Created: 2021-12-20"));
}

#[test]
fn test_format_with_partial_fields() {
    let output = format_session_info(&mapping(Some("ses_xyz789"), 1650000000), Some(&instance(InstanceState::Stopped, 4102)));
    assert!(output.contains("Status: Stopped"));
    assert!(output.contains("Port: 4102"));
    assert!(output.contains("Session: ses_xyz789"));
}

#[test]
fn test_timestamp_formatting() {
    let output = format_session_info(&mapping(Some("ses_test"), 1609459200), None);
    assert!(output.contains("Created: 2021-01-01"));
}

#[test]
fn timestamps_exact() {
    assert_eq!(format_timestamp(0), "1970-01-01 00:00:00");
    assert_eq!(format_timestamp(1609459200), "2021-01-01 00:00:00");
    assert_eq!(format_timestamp(1640000000), "2021-12-20 11:33:20");
    assert_eq!(format_timestamp(951782400), "2000-02-29 00:00:00");
    assert_eq!(format_timestamp(-1), "1970-01-01 00:00:-1");
}

// --- topic commands

#[test]
fn test_get_topic_id_from_forum_topic() {
    assert_eq!(get_topic_id(Some(456), TopicCommand::Close).unwrap(), 456);
}

#[test]
fn test_get_topic_id_rejects_general_topic() {
    let err = get_topic_id(Some(1), TopicCommand::Close).unwrap_err();
    assert!(err.to_string().contains("Cannot close the General topic"));
}

#[test]
fn test_get_topic_id_rejects_no_topic() {
    let err = get_topic_id(None, TopicCommand::Close).unwrap_err();
    assert!(err.to_string().contains("must be used in a forum topic"));
}

#[test]
fn general_topic_refusals_per_command() {
    assert!(get_topic_id(Some(1), TopicCommand::Link).unwrap_err().to_string().contains("Cannot link from General topic"));
    assert!(get_topic_id(Some(1), TopicCommand::Stream).unwrap_err().to_string().contains("Cannot use /stream in General topic"));
    assert!(get_topic_id(Some(1), TopicCommand::Disconnect)
        .unwrap_err()
        .to_string()
        .contains("Cannot disconnect from General topic"));
    assert!(get_topic_id(Some(1), TopicCommand::Session).unwrap_err().to_string().contains("must be used in a forum topic"));
    assert!(is_general_topic(None));
    assert!(is_general_topic(Some(1)));
    assert!(!is_general_topic(Some(7)));
}

#[test]
fn topic_command_texts() {
    assert_eq!(format_confirmation(true), "Streaming: ON\nYou will see real-time progress from OpenCode.");
    assert_eq!(format_confirmation(false), "Streaming: OFF\nYou will only see final responses.");
    assert_eq!(disconnect_confirmation(Some("ses_1")), "Disconnected from session ses_1. This topic will be deleted.");
    assert_eq!(disconnect_confirmation(None), "Disconnected from session unknown. This topic will be deleted.");
    assert_eq!(link_confirmation("/a/b"), "Linked topic to /a/b");
    assert!(path_error(PathProblem::NotFound, "/x").to_string().contains("Path not found: /x"));
    assert!(path_error(PathProblem::NotADirectory, "/x").to_string().contains("not a directory"));
}

// --- callbacks

#[test]
fn test_perm_prefix_detected() {
    assert_eq!(route_callback(Some("perm:sess:pid:allow")), CallbackRoute::Permission);
}

#[test]
fn test_close_prefix_detected() {
    assert_eq!(route_callback(Some("close:123:confirm")), CallbackRoute::Close);
}

#[test]
fn test_proj_prefix_detected() {
    assert_eq!(route_callback(Some("proj:12345:my-project")), CallbackRoute::ProjectSelection);
}

#[test]
fn test_unknown_prefix_detected() {
    assert_eq!(route_callback(Some("unknown:data")), CallbackRoute::Unknown);
    assert_eq!(route_callback(None), CallbackRoute::Missing);
}

#[test]
fn test_parse_project_callback_data_valid() {
    let (topic_id, name) = parse_project_callback_data("proj:12345:my-project").unwrap();
    assert_eq!(topic_id, 12345);
    assert_eq!(name, "my-project");
}

#[test]
fn test_parse_project_callback_data_with_dashes() {
    let (topic_id, name) = parse_project_callback_data("proj:999:name-with-dashes").unwrap();
    assert_eq!(topic_id, 999);
    assert_eq!(name, "name-with-dashes");
}

#[test]
fn test_parse_project_callback_data_invalid_prefix() {
    assert!(parse_project_callback_data("wrong:123:name").is_err());
}

#[test]
fn test_parse_project_callback_data_missing_parts() {
    assert!(parse_project_callback_data("proj:123").is_err());
}

#[test]
fn test_parse_project_callback_data_empty_name() {
    assert!(parse_project_callback_data("proj:123:").is_err());
}

#[test]
fn test_parse_project_callback_data_invalid_topic_id() {
    assert!(parse_project_callback_data("proj:notanumber:name").is_err());
}

#[test]
fn test_parse_project_callback_data_large_topic_id() {
    let (topic_id, name) = parse_project_callback_data("proj:2147483647:project").unwrap();
    assert_eq!(topic_id, 2147483647);
    assert_eq!(name, "project");
}

#[test]
fn project_callback_name_keeps_colons() {
    let (_, name) = parse_project_callback_data("proj:1:a:b").unwrap();
    assert_eq!(name, "a:b");
    assert!(parse_project_callback_data("proj:1:").unwrap_err().to_string().contains("Empty project name"));
}

#[test]
fn test_format_permission_message() {
    let msg = format_permission_message("Delete file: src/old_module.rs");
    assert!(msg.contains("Permission Request"));
    assert!(msg.contains("OpenCode wants to:"));
    assert!(msg.contains("Delete file: src/old_module.rs"));
}

#[test]
fn test_create_inline_keyboard() {
    let keyboard = create_inline_keyboard("ses_123", "perm_456");
    assert_eq!(keyboard.inline_keyboard.len(), 1);
    assert_eq!(keyboard.inline_keyboard[0].len(), 2);
    assert_eq!(keyboard.inline_keyboard[0][0].callback_data, "perm:ses_123:perm_456:allow");
    assert_eq!(keyboard.inline_keyboard[0][1].callback_data, "perm:ses_123:perm_456:deny");
}

#[test]
fn test_parse_callback_data_allow() {
    let (session, perm, action) = parse_callback_data("perm:ses_123:perm_456:allow").unwrap();
    assert_eq!(session, "ses_123");
    assert_eq!(perm, "perm_456");
    assert_eq!(action, "allow");
}

#[test]
fn test_parse_callback_data_deny() {
    let (session, perm, action) = parse_callback_data("perm:ses_123:perm_456:deny").unwrap();
    assert_eq!(session, "ses_123");
    assert_eq!(perm, "perm_456");
    assert_eq!(action, "deny");
}

#[test]
fn test_parse_callback_data_invalid_format() {
    let result = parse_callback_data("invalid:data");
    assert!(result.is_err());
    assert!(result.unwrap_err().to_string().contains("Invalid callback data format"));
}

#[test]
fn test_parse_callback_data_wrong_prefix() {
    assert!(parse_callback_data("wrong:ses_123:perm_456:allow").is_err());
}

#[test]
fn test_parse_callback_data_missing_parts() {
    assert!(parse_callback_data("perm:ses_123:perm_456").is_err());
}

#[test]
fn permission_answer_texts() {
    assert!(is_allow("allow"));
    assert!(!is_allow("deny"));
    assert_eq!(permission_result_text(true), "✅ Allowed");
    assert_eq!(permission_result_text(false), "❌ Denied");
}

#[test]
fn test_close_callback_data_format() {
    assert_eq!(parse_close_callback("close:123:confirm").unwrap(), (123, CloseAction::Confirm));
    assert_eq!(parse_close_callback("close:456:cancel").unwrap(), (456, CloseAction::Cancel));
    assert_eq!(parse_close_callback("close:456:later").unwrap(), (456, CloseAction::Other));
    assert!(parse_close_callback("close:x:cancel").unwrap_err().to_string().contains("Invalid topic_id"));
    assert!(parse_close_callback("close:1").unwrap_err().to_string().contains("Invalid close callback data format"));
}

#[test]
fn test_inline_keyboard_structure() {
    let keyboard = close_keyboard(789);
    assert_eq!(keyboard.inline_keyboard.len(), 1);
    assert_eq!(keyboard.inline_keyboard[0].len(), 2);
    assert_eq!(keyboard.inline_keyboard[0][0].text, "✅ Confirm");
    assert_eq!(keyboard.inline_keyboard[0][0].callback_data, "close:789:confirm");
    assert_eq!(keyboard.inline_keyboard[0][1].callback_data, "close:789:cancel");
}

#[test]
fn project_dirs_sorted_alphabetically() {
    let names = vec!["zeta".to_string(), "alpha".to_string(), "Beta".to_string(), "alph".to_string(), "ünï".to_string(), "alpha".to_string()];
    let sorted = sort_dir_names(names.clone());
    let mut expected = names;
    expected.sort();
    assert_eq!(sorted, expected);
    assert_eq!(sorted, vec!["Beta", "alph", "alpha", "alpha", "zeta", "ünï"]);
    assert!(sort_dir_names(Vec::new()).is_empty());
}

#[test]
fn permission_buttons_read_back() {
    let k = create_inline_keyboard("ses_1", "perm-2");
    let allow = &k.inline_keyboard[0][0].callback_data;
    let deny = &k.inline_keyboard[0][1].callback_data;
    assert_eq!(route_callback(Some(allow)), CallbackRoute::Permission);
    assert_eq!(route_callback(Some(deny)), CallbackRoute::Permission);
    assert_eq!(parse_callback_data(allow).unwrap(), ("ses_1".to_string(), "perm-2".to_string(), "allow".to_string()));
    assert_eq!(parse_callback_data(deny).unwrap(), ("ses_1".to_string(), "perm-2".to_string(), "deny".to_string()));
}

#[test]
fn close_buttons_read_back() {
    for topic_id in [42, -7, i32::MAX, i32::MIN] {
        let k = close_keyboard(topic_id);
        let confirm = &k.inline_keyboard[0][0].callback_data;
        let cancel = &k.inline_keyboard[0][1].callback_data;
        assert_eq!(route_callback(Some(confirm)), CallbackRoute::Close);
        assert_eq!(parse_close_callback(confirm).unwrap(), (topic_id, CloseAction::Confirm));
        assert_eq!(parse_close_callback(cancel).unwrap(), (topic_id, CloseAction::Cancel));
    }
}

#[test]
fn close_steps_follow_the_mapping() {
    let mut m = mapping(Some("ses_1"), 0);
    m.instance_id = Some("inst_1".to_string());
    m.project_path = "/base/repo/.worktrees/feature-x".to_string();
    let steps = close_steps(Some(&m));
    assert_eq!(steps.len(), 5);
    assert!(matches!(&steps[0], CloseStep::StopInstance { instance_id } if instance_id == "inst_1"));
    assert!(matches!(&steps[1], CloseStep::RemoveWorktree { repo_root, path }
        if repo_root == "/base/repo" && path == "/base/repo/.worktrees/feature-x"));
    assert!(matches!(&steps[2], CloseStep::DeleteBranch { repo_root, branch }
        if repo_root == "/base/repo" && branch == "wt/feature-x"));
    assert!(matches!(steps[3], CloseStep::DeleteMapping));
    assert!(matches!(steps[4], CloseStep::DeleteTopic));

    m.instance_id = None;
    m.project_path = "/base/plain".to_string();
    let steps = close_steps(Some(&m));
    assert_eq!(steps.len(), 2);
    assert!(matches!(steps[0], CloseStep::DeleteMapping));
    let steps = close_steps(None);
    assert_eq!(steps.len(), 2);
    assert!(matches!(steps[1], CloseStep::DeleteTopic));
}
