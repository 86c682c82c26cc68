use oc_outpost::handlers::clear::{
    build_cleanup_response, project_name_from_path, should_remove_project_dir, staleness, worktree_repo_of,
    CleanupCandidate, InstanceCheck, StalenessReason,
};
use oc_outpost::handlers::connect::{
    already_connected, connect_confirmation, discovered_instance_id, discovered_matches, managed_matches,
};
use oc_outpost::handlers::setup::{
    missing_directory_message, new_confirmation, new_topic_mapping, not_git_note, plan_new, selection_confirmation,
    validate_project_name, NewStart,
};
use oc_outpost::types::{InstanceState, TopicMapping};

#[test]
fn test_validate_project_name_valid() {
    assert!(validate_project_name("my-project").is_ok());
    assert!(validate_project_name("project_123").is_ok());
    assert!(validate_project_name("MyProject").is_ok());
    assert!(validate_project_name("a").is_ok());
    assert!(validate_project_name("project-with-dashes").is_ok());
    assert!(validate_project_name("project_with_underscores").is_ok());
    assert!(validate_project_name("123numeric").is_ok());
}

#[test]
fn test_validate_project_name_empty() {
    let result = validate_project_name("");
    assert!(result.is_err());
    assert!(result.unwrap_err().to_string().contains("cannot be empty"));
}

#[test]
fn test_validate_project_name_too_long() {
    let long_name = "a".repeat(51);
    let result = validate_project_name(&long_name);
    assert!(result.is_err());
    assert!(result.unwrap_err().to_string().contains("50 characters or less"));
}

#[test]
fn test_validate_project_name_invalid_chars() {
    assert!(validate_project_name("project with spaces").is_err());
    assert!(validate_project_name("project@special").is_err());
    assert!(validate_project_name("project#hash").is_err());
    assert!(validate_project_name("project!exclaim").is_err());
    assert!(validate_project_name("project/slash").is_err());
    assert!(validate_project_name("project\\backslash").is_err());
    assert!(validate_project_name("project.dot").is_err());
}

#[test]
fn test_validate_project_name_boundary_length() {
    let exactly_50 = "a".repeat(50);
    assert!(validate_project_name(&exactly_50).is_ok());
    let exactly_51 = "a".repeat(51);
    assert!(validate_project_name(&exactly_51).is_err());
}

#[test]
fn test_validate_project_name_with_dashes() {
    assert!(validate_project_name("my-project-name").is_ok());
    assert!(validate_project_name("project-123").is_ok());
    assert!(validate_project_name("a-b-c-d-e").is_ok());
}

#[test]
fn test_validate_project_name_with_underscores() {
    assert!(validate_project_name("my_project_name").is_ok());
    assert!(validate_project_name("project_123").is_ok());
    assert!(validate_project_name("a_b_c_d_e").is_ok());
}

#[test]
fn test_validate_project_name_mixed_valid_chars() {
    assert!(validate_project_name("My_Project-123").is_ok());
    assert!(validate_project_name("test_project-v2").is_ok());
    assert!(validate_project_name("ABC_123-xyz").is_ok());
}

#[test]
fn test_validate_project_name_numeric_only() {
    assert!(validate_project_name("123456").is_ok());
    assert!(validate_project_name("42").is_ok());
}

#[test]
fn test_validate_project_name_special_chars_rejected() {
    let special_chars = vec![
        ".", ",", "!", "@", "#", "$", "%", "^", "&", "*", "(", ")", "+", "=", "[", "]", "{", "}", "|", "\\", "/",
        "?", "<", ">", "~", "`", ":", ";", "\"", "'",
    ];
    for ch in special_chars {
        let name = format!("project{}name", ch);
        assert!(validate_project_name(&name).is_err(), "Should reject: {}", name);
    }
}

#[test]
fn test_validate_project_name_whitespace_rejected() {
    assert!(validate_project_name("project name").is_err());
    assert!(validate_project_name("project\tname").is_err());
    assert!(validate_project_name("project\nname").is_err());
    assert!(validate_project_name(" project").is_err());
    assert!(validate_project_name("project ").is_err());
}

#[test]
fn project_name_length_counts_characters() {
    assert!(validate_project_name(&"é".repeat(30)).is_ok());
    assert!(validate_project_name(&"é".repeat(50)).is_ok());
    assert!(validate_project_name(&"é".repeat(51)).is_err());
    assert!(validate_project_name(&"a".repeat(50)).is_ok());
    assert!(validate_project_name(&"a".repeat(51)).is_err());
}

#[test]
fn new_refuses_general_topic_unless_handled() {
    match plan_new("proj", None, false, "/base").unwrap() {
        NewStart::Refuse { reply } => {
            assert_eq!(reply, "Cannot create projects in General topic. Please create a forum topic first.")
        },
        _ => panic!("expected a refusal"),
    }
    match plan_new("proj", Some(1), true, "/base").unwrap() {
        NewStart::Proceed { project_path } => assert_eq!(project_path, "/base/proj"),
        _ => panic!("expected to proceed"),
    }
    match plan_new("proj", Some(77), false, "/base/").unwrap() {
        NewStart::Proceed { project_path } => assert_eq!(project_path, "/base/proj"),
        _ => panic!("expected to proceed"),
    }
    assert!(plan_new("bad name", Some(77), true, "/base").is_err());
}

#[test]
fn new_project_texts() {
    assert_eq!(
        missing_directory_message("p", "/b"),
        "Directory 'p' not found under /b. Use /projects to see available directories."
    );
    assert_eq!(
        not_git_note("p"),
        "⚠️ Note: 'p' is not a git repository. Mounting directly without worktree isolation."
    );
    assert_eq!(
        new_confirmation("p", "/b/p", Some("wt/p"), "inst_1", 4100),
        "🚀 Project 'p' created!\n\n📁 Path: /b/p\n🌿 Worktree branch: wt/p\n🆔 Instance: inst_1\n🔌 Port: 4100\n\nSend a message here to start your OpenCode session."
    );
    assert_eq!(
        selection_confirmation("p", "/b/p", None, "inst_1", 4100),
        "Project 'p' linked to this topic!\n\nPath: /b/p\nInstance: inst_1\nPort: 4100\n\nSend a message here to start your OpenCode session."
    );
    let m = new_topic_mapping(5, -1, "/b/p", "inst_1", 99);
    assert_eq!(m.topic_id, 5);
    assert_eq!(m.instance_id, Some("inst_1".to_string()));
    assert_eq!(m.session_id, None);
    assert_eq!(m.created_at, 99);
    assert_eq!(m.updated_at, 99);
}

fn mapping(instance: Option<&str>, session: Option<&str>, updated_at: i64, path: &str) -> TopicMapping {
    TopicMapping {
        topic_id: 1,
        chat_id: -1,
        project_path: path.to_string(),
        session_id: session.map(|s| s.to_string()),
        instance_id: instance.map(|s| s.to_string()),
        topic_name_updated: false,
        created_at: 0,
        updated_at,
    }
}

#[test]
fn test_staleness_reason_display() {
    assert_eq!(StalenessReason::InstanceStopped.to_string(), "instance stopped");
    assert_eq!(StalenessReason::InstanceUnhealthy.to_string(), "instance unreachable");
    assert_eq!(StalenessReason::OrphanedMapping.to_string(), "instance not found");
    assert_eq!(StalenessReason::IncompleteMapping.to_string(), "incomplete setup");
    assert_eq!(StalenessReason::Inactive { days: 8 }.to_string(), "inactive for 8 days");
}

#[test]
fn staleness_decisions() {
    let now = 10_000_000;
    let healthy = InstanceCheck::Recorded { state: InstanceState::Running, healthy: true };
    assert_eq!(staleness(&mapping(Some("i"), Some("s"), now, "/p"), InstanceCheck::Missing, now), Some(StalenessReason::OrphanedMapping));
    assert_eq!(
        staleness(&mapping(Some("i"), Some("s"), now, "/p"), InstanceCheck::Recorded { state: InstanceState::Error, healthy: true }, now),
        Some(StalenessReason::InstanceStopped)
    );
    assert_eq!(
        staleness(&mapping(Some("i"), Some("s"), now, "/p"), InstanceCheck::Recorded { state: InstanceState::Running, healthy: false }, now),
        Some(StalenessReason::InstanceUnhealthy)
    );
    assert_eq!(staleness(&mapping(Some("i"), Some("s"), 0, "/p"), healthy, now), None);
    assert_eq!(staleness(&mapping(None, None, now, "/p"), healthy, now), Some(StalenessReason::IncompleteMapping));
    assert_eq!(
        staleness(&mapping(None, Some("s"), now - 8 * 86400, "/p"), healthy, now),
        Some(StalenessReason::Inactive { days: 8 })
    );
    assert_eq!(staleness(&mapping(None, Some("s"), now - 7 * 86400, "/p"), healthy, now), None);
}

#[test]
fn cleanup_report() {
    assert_eq!(
        build_cleanup_response(&[]),
        "🧹 Cleanup Complete\n\nNo stale mappings found. All connections are healthy."
    );
    let c = vec![
        CleanupCandidate { mapping: mapping(None, None, 0, "/test/old-project"), reason: StalenessReason::IncompleteMapping },
        CleanupCandidate { mapping: mapping(None, Some("s"), 0, "/"), reason: StalenessReason::Inactive { days: 9 } },
    ];
    assert_eq!(
        build_cleanup_response(&c),
        "🧹 Cleanup Complete\n\nCleared 2 stale mapping(s):\n• old-project — incomplete setup\n• / — inactive for 9 days"
    );
    assert_eq!(project_name_from_path("/a/b"), "b");
}

#[test]
fn project_directory_removal_stays_inside_base() {
    assert!(should_remove_project_dir("/base/p", "/base"));
    assert!(should_remove_project_dir("/base//p/", "/base/"));
    assert!(!should_remove_project_dir("/base", "/base"));
    assert!(!should_remove_project_dir("/base/", "/base"));
    assert!(!should_remove_project_dir("/basement/p", "/base"));
    assert!(!should_remove_project_dir("/other/p", "/base"));
}

#[test]
fn test_cleanup_skips_worktree_for_non_worktree_path() {
    assert_eq!(worktree_repo_of("/home/user/projects/my-project"), None);
}

#[test]
fn test_cleanup_identifies_worktree_path() {
    assert_eq!(
        worktree_repo_of("/home/user/projects/.worktrees/my-topic"),
        Some("/home/user/projects".to_string())
    );
    assert_eq!(worktree_repo_of("/.worktrees/t"), Some("/".to_string()));
}

#[test]
fn connect_matching() {
    assert!(managed_matches("/home/u/proj", "inst_1", "proj"));
    assert!(managed_matches("/home/u/proj", "inst_1", "inst_1"));
    assert!(!managed_matches("/home/u/proj", "inst_1", "other"));
    assert!(discovered_matches("/w/app", "app"));
    assert!(!discovered_matches("/", "app"));
    assert_eq!(discovered_instance_id(42), "discovered-42");
    assert_eq!(connect_confirmation("ses_1", "proj"), "Connected to session ses_1 in project proj");
    let maps = vec![mapping(None, Some("ses_1"), 0, "/p"), mapping(None, None, 0, "/q")];
    assert!(already_connected(&maps, "ses_1"));
    assert!(!already_connected(&maps, "ses_2"));
}
