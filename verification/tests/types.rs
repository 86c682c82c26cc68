use oc_outpost::types::{default_opencode_path, FilePart, InstanceState, TopicMapping};

#[test]
fn test_topic_mapping_clone() {
    let mapping = TopicMapping {
        topic_id: 789,
        chat_id: -1001111111111,
        project_path: "/test/path".to_string(),
        session_id: Some("test-session".to_string()),
        instance_id: Some("test-instance".to_string()),
        topic_name_updated: true,
        created_at: 1660000000,
        updated_at: 1660000300,
    };

    let cloned = mapping.clone();
    assert_eq!(cloned.topic_id, mapping.topic_id);
    assert_eq!(cloned.chat_id, mapping.chat_id);
    assert_eq!(cloned.project_path, mapping.project_path);
}

#[test]
fn file_part_points_at_the_file() {
    let part = FilePart::new("image/jpeg", "/tmp/test.jpg");
    assert_eq!(part.part_type, "file");
    assert_eq!(part.mime, "image/jpeg");
    assert_eq!(part.url, "file:///tmp/test.jpg");
    assert_eq!(part.filename, Some("test.jpg".to_string()));
}

#[test]
fn file_part_without_file_name() {
    let part = FilePart::new("image/png", "/");
    assert_eq!(part.url, "file:///");
    assert_eq!(part.filename, None);
}

#[test]
fn default_opencode_path_is_opencode() {
    assert_eq!(default_opencode_path(), "opencode");
}

#[test]
fn instance_state_equality() {
    assert_eq!(InstanceState::Running, InstanceState::Running);
    assert_ne!(InstanceState::Running, InstanceState::Stopped);
}
