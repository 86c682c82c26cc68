use oc_outpost::container::{parse_name_list, ContainerConfig, ContainerState};

fn test_config() -> ContainerConfig {
    ContainerConfig {
        instance_id: "test-123".to_string(),
        image: "ghcr.io/sst/opencode".to_string(),
        host_port: 4100,
        container_port: 8080,
        worktree_path: "/tmp/projects/.worktrees/my-topic".to_string(),
        config_mount_path: "/home/user/.config/opencode".to_string(),
        env_vars: vec!["ANTHROPIC_API_KEY".to_string(), "OPENAI_API_KEY".to_string()],
    }
}

#[test]
fn test_container_name_format() {
    let config = test_config();
    assert_eq!(config.container_name(), "oc-test-123");
}

#[test]
fn test_cmd_includes_port_and_project() {
    let config = test_config();
    let cmd = config.cmd();
    assert_eq!(cmd, vec!["opencode", "serve", "--port", "8080", "--project", "/workspace"]);
}

#[test]
fn test_port_bindings_maps_host_to_container() {
    let config = test_config();
    let bindings = config.port_bindings();

    let key = "8080/tcp";
    assert!(bindings.contains_key(key));
    let bound = bindings.get(key).unwrap();
    assert_eq!(bound.len(), 1);
    assert_eq!(bound[0].host_ip, "127.0.0.1");
    assert_eq!(bound[0].host_port, "4100");
}

#[test]
fn test_binds_includes_worktree_rw() {
    let config = test_config();
    let binds = config.binds("/nonexistent-home-for-tests");
    assert!(binds.iter().any(|b| b == "/tmp/projects/.worktrees/my-topic:/workspace"));
}

#[test]
fn test_binds_includes_config_ro() {
    let config = test_config();
    let binds = config.binds("/nonexistent-home-for-tests");
    assert!(binds
        .iter()
        .any(|b| b == "/home/user/.config/opencode:/home/user/.config/opencode/:ro"));
}

#[test]
fn test_container_config_custom_port() {
    let config = ContainerConfig {
        instance_id: "custom".to_string(),
        image: "custom/image:latest".to_string(),
        host_port: 9999,
        container_port: 3000,
        worktree_path: "/tmp/work".to_string(),
        config_mount_path: "/tmp/config".to_string(),
        env_vars: vec![],
    };

    assert_eq!(config.container_name(), "oc-custom");
    let cmd = config.cmd();
    assert!(cmd.contains(&"3000".to_string()));

    let bindings = config.port_bindings();
    assert!(bindings.contains_key("3000/tcp"));
    assert_eq!(bindings.get("3000/tcp").unwrap()[0].host_port, "9999");
}

#[test]
fn test_container_state_equality() {
    assert_eq!(ContainerState::Running, ContainerState::Running);
    assert_eq!(ContainerState::Exited(0), ContainerState::Exited(0));
    assert_ne!(ContainerState::Exited(0), ContainerState::Exited(1));
    assert_ne!(ContainerState::Running, ContainerState::Created);
}

#[test]
fn binds_for_adds_ssh_and_gitconfig_when_present() {
    let config = test_config();
    let binds = config.binds_for("/home/me", true, true);
    assert_eq!(
        binds,
        vec![
            "/tmp/projects/.worktrees/my-topic:/workspace",
            "/home/user/.config/opencode:/home/user/.config/opencode/:ro",
            "/home/me/.ssh:/home/user/.ssh/:ro",
            "/home/me/.gitconfig:/home/user/.gitconfig:ro",
        ]
    );
    assert_eq!(config.binds_for("/home/me", false, true).len(), 3);
    assert_eq!(config.binds_for("/home/me", false, false).len(), 2);
}

#[test]
fn env_passthrough_keeps_set_variables_in_order() {
    let config = test_config();
    let env = config.env_passthrough(&vec![Some("sk-test-key".to_string()), None]);
    assert_eq!(env, vec!["ANTHROPIC_API_KEY=sk-test-key"]);
    let both = config.env_passthrough(&vec![Some("a".to_string()), Some("b".to_string())]);
    assert_eq!(both, vec!["ANTHROPIC_API_KEY=a", "OPENAI_API_KEY=b"]);
}

#[test]
fn port_map_lookup_of_absent_key() {
    let bindings = test_config().port_bindings();
    assert!(!bindings.contains_key("4100/tcp"));
    assert!(bindings.get("8080/udp").is_none());
    assert_eq!(bindings.len(), 1);
}

#[test]
fn passthrough_names_are_trimmed_and_non_blank() {
    assert_eq!(parse_name_list(" API_KEY, ,HOME ,,PATH"), vec!["API_KEY", "HOME", "PATH"]);
    assert!(parse_name_list("").is_empty());
    assert!(parse_name_list(" , ").is_empty());
    assert_eq!(parse_name_list("ONE"), vec!["ONE"]);
}
