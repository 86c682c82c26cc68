use oc_outpost::config::{parse_allowed_users, Config, ConfigEnv};

fn base_env() -> ConfigEnv {
    ConfigEnv {
        telegram_bot_token: Some("test-token".to_string()),
        telegram_chat_id: Some("-1001234567890".to_string()),
        telegram_allowed_users: None,
        handle_general_topic: None,
        opencode_path: None,
        opencode_max_instances: None,
        opencode_idle_timeout_ms: None,
        opencode_port_start: None,
        opencode_port_pool_size: None,
        opencode_health_check_interval_ms: None,
        opencode_startup_timeout_ms: None,
        orchestrator_db_path: None,
        topic_db_path: None,
        project_base_path: Some("/home/user/oc-bot".to_string()),
        auto_create_project_dirs: None,
        api_port: None,
        api_key: None,
    }
}

fn err(env: &ConfigEnv) -> String {
    Config::from_values(env).unwrap_err()
}

#[test]
fn missing_token_is_reported() {
    let mut env = base_env();
    env.telegram_bot_token = None;
    assert!(err(&env).contains("TELEGRAM_BOT_TOKEN is required"));
}

#[test]
fn missing_chat_id_is_reported() {
    let mut env = base_env();
    env.telegram_chat_id = None;
    assert!(err(&env).contains("TELEGRAM_CHAT_ID is required"));
}

#[test]
fn missing_base_path_is_reported() {
    let mut env = base_env();
    env.project_base_path = None;
    assert!(err(&env).contains("PROJECT_BASE_PATH is required"));
}

#[test]
fn defaults_are_applied() {
    let config = Config::from_values(&base_env()).expect("defaults");
    assert_eq!(config.opencode_path, "opencode");
    assert_eq!(config.opencode_max_instances, 10);
    assert_eq!(config.opencode_idle_timeout, 1800000);
    assert_eq!(config.opencode_port_start, 4100);
    assert_eq!(config.opencode_port_pool_size, 100);
    assert_eq!(config.opencode_health_check_interval, 30000);
    assert_eq!(config.opencode_startup_timeout, 60000);
    assert_eq!(config.orchestrator_db_path, "./data/orchestrator.db");
    assert_eq!(config.topic_db_path, "./data/topics.db");
    assert!(config.auto_create_project_dirs);
    assert_eq!(config.api_port, 4200);
    assert!(config.handle_general_topic);
    assert!(config.telegram_allowed_users.is_empty());
    assert!(config.api_key.is_none());
    assert_eq!(config.telegram_chat_id, -1001234567890);
}

#[test]
fn durations_are_parsed() {
    let mut env = base_env();
    env.opencode_idle_timeout_ms = Some("5000".to_string());
    env.opencode_health_check_interval_ms = Some("15000".to_string());
    env.opencode_startup_timeout_ms = Some("30000".to_string());
    let config = Config::from_values(&env).unwrap();
    assert_eq!(config.opencode_idle_timeout, 5000);
    assert_eq!(config.opencode_health_check_interval, 15000);
    assert_eq!(config.opencode_startup_timeout, 30000);
}

#[test]
fn allowed_users_are_parsed() {
    let mut env = base_env();
    env.telegram_allowed_users = Some("123,456,789".to_string());
    assert_eq!(Config::from_values(&env).unwrap().telegram_allowed_users, vec![123, 456, 789]);
    env.telegram_allowed_users = Some("".to_string());
    assert!(Config::from_values(&env).unwrap().telegram_allowed_users.is_empty());
    assert_eq!(parse_allowed_users(" 1 , ,2,"), Some(vec![1, 2]));
    assert_eq!(parse_allowed_users("1,x"), None);
    assert_eq!(parse_allowed_users("-5"), Some(vec![-5]));
}

#[test]
fn invalid_values_are_reported() {
    let mut env = base_env();
    env.telegram_chat_id = Some("not-a-number".to_string());
    assert!(err(&env).contains("TELEGRAM_CHAT_ID must be a valid integer"));

    let mut env = base_env();
    env.opencode_max_instances = Some("not-a-number".to_string());
    assert!(err(&env).contains("OPENCODE_MAX_INSTANCES must be a valid integer"));

    let mut env = base_env();
    env.api_port = Some("not-a-port".to_string());
    assert!(err(&env).contains("API_PORT must be a valid port number"));

    let mut env = base_env();
    env.api_port = Some("70000".to_string());
    assert_eq!(err(&env), "API_PORT must be a valid port number");

    let mut env = base_env();
    env.handle_general_topic = Some("maybe".to_string());
    assert!(err(&env).contains("HANDLE_GENERAL_TOPIC must be 'true' or 'false'"));

    let mut env = base_env();
    env.telegram_allowed_users = Some("1,two".to_string());
    assert_eq!(err(&env), "TELEGRAM_ALLOWED_USERS contains invalid integer");
}

#[test]
fn first_problem_is_reported() {
    let mut env = base_env();
    env.telegram_chat_id = Some("x".to_string());
    env.project_base_path = None;
    assert_eq!(err(&env), "TELEGRAM_CHAT_ID must be a valid integer");
}

#[test]
fn full_config_load() {
    let env = ConfigEnv {
        telegram_bot_token: Some("123456789:ABCdefGHIjklMNOpqrsTUVwxyz".to_string()),
        telegram_chat_id: Some("-1001234567890".to_string()),
        telegram_allowed_users: Some("111,222,333".to_string()),
        handle_general_topic: Some("true".to_string()),
        opencode_path: Some("/usr/local/bin/opencode".to_string()),
        opencode_max_instances: Some("20".to_string()),
        opencode_idle_timeout_ms: Some("3600000".to_string()),
        opencode_port_start: Some("5000".to_string()),
        opencode_port_pool_size: Some("50".to_string()),
        opencode_health_check_interval_ms: Some("45000".to_string()),
        opencode_startup_timeout_ms: Some("90000".to_string()),
        orchestrator_db_path: Some("./custom/orchestrator.db".to_string()),
        topic_db_path: Some("./custom/topics.db".to_string()),
        project_base_path: Some("/home/user/projects".to_string()),
        auto_create_project_dirs: Some("false".to_string()),
        api_port: Some("8080".to_string()),
        api_key: Some("my-secret-key".to_string()),
    };
    let config = Config::from_values(&env).expect("all fields");
    assert_eq!(config.telegram_bot_token, "123456789:ABCdefGHIjklMNOpqrsTUVwxyz");
    assert_eq!(config.telegram_chat_id, -1001234567890);
    assert_eq!(config.telegram_allowed_users, vec![111, 222, 333]);
    assert!(config.handle_general_topic);
    assert_eq!(config.opencode_path, "/usr/local/bin/opencode");
    assert_eq!(config.opencode_max_instances, 20);
    assert_eq!(config.opencode_idle_timeout, 3600000);
    assert_eq!(config.opencode_port_start, 5000);
    assert_eq!(config.opencode_port_pool_size, 50);
    assert_eq!(config.opencode_health_check_interval, 45000);
    assert_eq!(config.opencode_startup_timeout, 90000);
    assert_eq!(config.orchestrator_db_path, "./custom/orchestrator.db");
    assert_eq!(config.topic_db_path, "./custom/topics.db");
    assert!(!config.auto_create_project_dirs);
    assert_eq!(config.api_port, 8080);
    assert_eq!(config.api_key, Some("my-secret-key".to_string()));
    assert!(config.is_whitelisted_chat(-1001234567890));
    assert!(!config.is_whitelisted_chat(42));
}

#[test]
fn masked_summary_hides_secrets() {
    let mut env = base_env();
    env.telegram_bot_token = Some("secret-token-12345".to_string());
    env.api_key = Some("secret-api-key".to_string());
    env.telegram_allowed_users = Some("1,2".to_string());
    let config = Config::from_values(&env).unwrap();
    let display = config.masked_summary();
    assert!(display.contains("***MASKED***"));
    assert!(!display.contains("secret-token-12345"));
    assert!(!display.contains("secret-api-key"));
    assert!(display.contains("  opencode_path: \"opencode\",\n"));
    assert!(display.contains("  opencode_idle_timeout: 1800s,\n"));
    assert!(display.contains("  telegram_allowed_users: [1, 2],\n"));
    assert!(display.contains("  api_key: ***MASKED***,\n"));
    assert!(display.starts_with("Config {\n  telegram_bot_token: ***MASKED***,\n"));
    assert!(display.ends_with(",\n}"));
    let plain = Config::from_values(&base_env()).unwrap().masked_summary();
    assert!(plain.contains("  api_key: None,\n"));
    assert!(plain.contains("  telegram_allowed_users: [],\n"));
}

#[test]
fn logged_durations_read_as_debug_writes_them() {
    for ms in [0u64, 1, 5, 999, 1000, 1001, 1005, 1010, 1250, 1500, 30000, 86_400_123, u64::MAX] {
        let mut config = Config::from_values(&base_env()).unwrap();
        config.opencode_idle_timeout = ms;
        let expected = format!("  opencode_idle_timeout: {:?},\n", std::time::Duration::from_millis(ms));
        assert!(config.masked_summary().contains(&expected), "{}", ms);
    }
}
