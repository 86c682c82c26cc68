use oc_outpost::discovery::{DiscoveredInstance, Discovery, OpenCodeMode};
use std::path::PathBuf;

#[test]
fn test_parse_ps_output() {
    let parsed = Discovery::parse_ps_line(
        "user     12345  0.0  0.1 123456 7890 pts/0    Sl   10:00   0:01 opencode serve --port 4100 --project /home/user/project",
    );

    assert!(parsed.is_some());
    let process = parsed.unwrap();
    assert_eq!(process.pid, 12345);
    assert_eq!(process.mode, OpenCodeMode::Serve);
    assert_eq!(process.port, Some(4100));
    assert_eq!(
        process.project_path.map(PathBuf::from),
        Some(PathBuf::from("/home/user/project"))
    );
}

#[test]
fn test_parse_lsof_port_output() {
    let lsof_output = r#"COMMAND   PID USER   FD   TYPE DEVICE SIZE/OFF NODE NAME
opencode 12345 user   10u  IPv4  0x123  0t0  TCP *:4100 (LISTEN)"#;

    let port = Discovery::parse_lsof_port_output(lsof_output);
    assert_eq!(port, Some(4100));
}

#[test]
fn test_parse_lsof_cwd_output() {
    let lsof_output = r#"COMMAND   PID USER   FD   TYPE DEVICE SIZE/OFF NODE NAME
opencode 12345 user  cwd    DIR  1,4    1024 12345 /home/user/project"#;

    let cwd = Discovery::parse_lsof_cwd_output(lsof_output);
    assert_eq!(cwd.map(PathBuf::from), Some(PathBuf::from("/home/user/project")));
}

#[test]
fn test_detect_tui_mode() {
    let parsed = Discovery::parse_ps_line(
        "user     12346  0.0  0.1 123456 7890 pts/1    Sl   10:01   0:00 opencode",
    );

    assert!(parsed.is_some());
    let process = parsed.unwrap();
    assert_eq!(process.mode, OpenCodeMode::Tui);
    assert_eq!(process.port, None);
}

#[test]
fn test_detect_serve_mode() {
    let parsed = Discovery::parse_ps_line(
        "user     12345  0.0  0.1 123456 7890 pts/0    Sl   10:00   0:01 opencode serve --port 4100",
    );

    assert!(parsed.is_some());
    let process = parsed.unwrap();
    assert_eq!(process.mode, OpenCodeMode::Serve);
    assert_eq!(process.port, Some(4100));
}

#[test]
fn test_skip_grep_processes() {
    let parsed = Discovery::parse_ps_line(
        "user     99999  0.0  0.0   5000 1000 pts/2    S+   10:02   0:00 grep opencode",
    );

    assert!(parsed.is_none());
}

#[test]
fn test_skip_header_line() {
    let parsed = Discovery::parse_ps_line(
        "USER       PID  %CPU %MEM    VSZ   RSS TTY      STAT START   TIME COMMAND",
    );

    assert!(parsed.is_none());
}

#[test]
fn test_extract_port_equals_syntax() {
    let args = vec!["opencode", "serve", "--port=4200"];
    let port = Discovery::extract_port_from_args(&args);
    assert_eq!(port, Some(4200));
}

#[test]
fn test_extract_project_from_args() {
    let args = vec![
        "opencode",
        "serve",
        "--project",
        "/path/to/project",
        "--port",
        "4100",
    ];
    let project = Discovery::extract_project_from_args(&args);
    assert_eq!(project.map(PathBuf::from), Some(PathBuf::from("/path/to/project")));
}

#[test]
fn test_invalid_ps_output() {
    let parsed = Discovery::parse_ps_line("invalid line without enough columns");
    assert!(parsed.is_none());
}

#[test]
fn test_multiple_processes() {
    let line1 = "user     12345  0.0  0.1 123456 7890 pts/0    Sl   10:00   0:01 opencode serve --port 4100 --project /proj1";
    let line2 = "user     12346  0.0  0.1 123456 7890 pts/1    Sl   10:01   0:00 opencode serve --port 4101 --project /proj2";

    let parsed1 = Discovery::parse_ps_line(line1);
    let parsed2 = Discovery::parse_ps_line(line2);

    assert!(parsed1.is_some());
    assert!(parsed2.is_some());

    let p1 = parsed1.unwrap();
    let p2 = parsed2.unwrap();

    assert_eq!(p1.pid, 12345);
    assert_eq!(p1.port, Some(4100));
    assert_eq!(p2.pid, 12346);
    assert_eq!(p2.port, Some(4101));
}

#[test]
fn test_parse_lsof_port_output_localhost() {
    let lsof_output = r#"COMMAND   PID USER   FD   TYPE DEVICE SIZE/OFF NODE NAME
opencode 12345 user   10u  IPv4  0x123  0t0  TCP localhost:4200 (LISTEN)"#;

    let port = Discovery::parse_lsof_port_output(lsof_output);
    assert_eq!(port, Some(4200));
}

#[test]
fn test_invalid_lsof_port_output() {
    let lsof_output = r#"COMMAND   PID USER   FD   TYPE DEVICE SIZE/OFF NODE NAME
opencode 12345 user   10u  IPv4  0x123  0t0  TCP *:notaport (LISTEN)"#;

    let port = Discovery::parse_lsof_port_output(lsof_output);
    assert!(port.is_none());
}

#[test]
fn test_empty_lsof_output() {
    let port = Discovery::parse_lsof_port_output("");
    assert!(port.is_none());

    let cwd = Discovery::parse_lsof_cwd_output("");
    assert!(cwd.is_none());
}

#[test]
fn test_discovered_instance_construction() {
    let instance = DiscoveredInstance {
        pid: 12345,
        port: Some(4100),
        working_dir: "/home/user/project".to_string(),
        mode: OpenCodeMode::Serve,
    };

    assert_eq!(instance.pid, 12345);
    assert_eq!(instance.port, Some(4100));
    assert_eq!(PathBuf::from(&instance.working_dir), PathBuf::from("/home/user/project"));
    assert_eq!(instance.mode, OpenCodeMode::Serve);
}

#[test]
fn test_opencode_mode_equality() {
    assert_eq!(OpenCodeMode::Tui, OpenCodeMode::Tui);
    assert_eq!(OpenCodeMode::Serve, OpenCodeMode::Serve);
    assert_ne!(OpenCodeMode::Tui, OpenCodeMode::Serve);
}

#[test]
fn test_discovered_instance_clone() {
    let instance = DiscoveredInstance {
        pid: 12345,
        port: Some(4100),
        working_dir: "/home/user/project".to_string(),
        mode: OpenCodeMode::Serve,
    };

    let cloned = instance.clone();
    assert_eq!(cloned.pid, instance.pid);
    assert_eq!(cloned.port, instance.port);
    assert_eq!(cloned.working_dir, instance.working_dir);
    assert_eq!(cloned.mode, instance.mode);
}

#[test]
fn test_extract_port_short_flag() {
    let args = vec!["opencode", "serve", "-p", "4300"];
    let port = Discovery::extract_port_from_args(&args);
    assert_eq!(port, Some(4300));
}
