use oc_outpost::error::{OutpostError, Result};

#[test]
fn test_instance_not_found_error() {
    let err = OutpostError::instance_not_found("test-instance");
    assert_eq!(err.to_string(), "Instance not found: test-instance");
}

#[test]
fn test_instance_already_exists_error() {
    let err = OutpostError::instance_already_exists("existing-instance");
    assert_eq!(
        err.to_string(),
        "Instance already exists: existing-instance"
    );
}

#[test]
fn test_instance_start_failed_error() {
    let err = OutpostError::instance_start_failed("test-instance", "port already in use");
    assert_eq!(
        err.to_string(),
        "Instance failed to start: test-instance, reason: port already in use"
    );
}

#[test]
fn test_instance_stop_failed_error() {
    let err = OutpostError::instance_stop_failed("test-instance", "process not responding");
    assert_eq!(
        err.to_string(),
        "Instance failed to stop: test-instance, reason: process not responding"
    );
}

#[test]
fn test_topic_mapping_not_found_error() {
    let err = OutpostError::topic_mapping_not_found(123);
    assert_eq!(err.to_string(), "Topic mapping not found for topic_id: 123");
}

#[test]
fn test_topic_mapping_already_exists_error() {
    let err = OutpostError::topic_mapping_already_exists(456);
    assert_eq!(
        err.to_string(),
        "Topic mapping already exists for topic_id: 456"
    );
}

#[test]
fn test_opencode_api_error() {
    let err = OutpostError::opencode_api_error("Invalid request");
    assert_eq!(err.to_string(), "OpenCode API error: Invalid request");
}

#[test]
fn test_opencode_connection_error() {
    let err =
        OutpostError::opencode_connection_error("http://localhost:3000", "connection refused");
    assert_eq!(
        err.to_string(),
        "OpenCode connection error: http://localhost:3000, reason: connection refused"
    );
}

#[test]
fn test_session_not_found_error() {
    let err = OutpostError::session_not_found("session-123");
    assert_eq!(err.to_string(), "Session not found: session-123");
}

#[test]
fn test_database_error() {
    let err = OutpostError::database_error("Failed to connect");
    assert_eq!(err.to_string(), "Database error: Failed to connect");
}

#[test]
fn test_config_error() {
    let err = OutpostError::config_error("Missing required field");
    assert_eq!(
        err.to_string(),
        "Configuration error: Missing required field"
    );
}

#[test]
fn test_port_allocation_error() {
    let err = OutpostError::port_allocation_error(3000, 3100);
    assert_eq!(
        err.to_string(),
        "Port allocation error: no available ports in range 3000-3100"
    );
}

#[test]
fn test_invalid_state_transition_error() {
    let err = OutpostError::invalid_state_transition("running", "starting");
    assert_eq!(
        err.to_string(),
        "Invalid state transition: from running to starting"
    );
}

#[test]
fn test_max_instances_reached_error() {
    let err = OutpostError::max_instances_reached(10);
    assert_eq!(err.to_string(), "Maximum instances limit reached: 10");
}

#[test]
fn test_io_error() {
    let err = OutpostError::io_error("File not found");
    assert_eq!(err.to_string(), "IO error: File not found");
}

#[test]
fn test_serialization_error() {
    let err = OutpostError::serialization_error("Invalid JSON");
    assert_eq!(err.to_string(), "Serialization error: Invalid JSON");
}

#[test]
fn test_telegram_error() {
    let err = OutpostError::telegram_error("Bot token invalid");
    assert_eq!(err.to_string(), "Telegram API error: Bot token invalid");
}

#[test]
fn test_is_user_error_classification() {
    assert!(OutpostError::telegram_error("test").is_user_error());
    assert!(OutpostError::config_error("test").is_user_error());
    assert!(OutpostError::topic_mapping_not_found(1).is_user_error());
    assert!(OutpostError::topic_mapping_already_exists(1).is_user_error());
    assert!(OutpostError::session_not_found("test").is_user_error());
    assert!(OutpostError::max_instances_reached(10).is_user_error());

    assert!(!OutpostError::database_error("test").is_user_error());
    assert!(!OutpostError::io_error("test").is_user_error());
    assert!(!OutpostError::opencode_api_error("test").is_user_error());
    assert!(!OutpostError::instance_not_found("test").is_user_error());
    assert!(!OutpostError::port_allocation_error(3000, 3100).is_user_error());
}

#[test]
fn test_error_clone() {
    let err = OutpostError::instance_not_found("test");
    let cloned = err.clone();
    assert_eq!(err.to_string(), cloned.to_string());
}

#[test]
fn test_result_type_ok() {
    let result: Result<i32> = Ok(42);
    assert!(result.is_ok());
    assert_eq!(result.ok(), Some(42));
}

#[test]
fn test_result_type_err() {
    let result: Result<i32> = Err(OutpostError::instance_not_found("test"));
    assert!(result.is_err());
}
