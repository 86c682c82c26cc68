use oc_outpost::api::{is_authorized, list_external, registered_instance, status_path, status_response, RegisterRequest};
use oc_outpost::types::{InstanceInfo, InstanceState};

#[test]
fn registration_record() {
    let req = RegisterRequest { project_path: "/p".to_string(), port: 4321, session_id: "s".to_string() };
    let i = registered_instance(&req, 1_700_000_000_000);
    assert_eq!(i.id, "external-4321");
    assert_eq!(i.state, InstanceState::Running);
    assert_eq!(i.project_path, "/p");
    assert_eq!(i.port, 4321);
    assert_eq!(i.started_at, Some(1_700_000_000_000));
}

#[test]
fn status_paths_get_their_slash() {
    assert_eq!(status_path("home/u/p"), "/home/u/p");
    assert_eq!(status_path("/home/u/p"), "/home/u/p");
    assert_eq!(status_path(""), "/");
}

#[test]
fn api_key_check() {
    assert!(is_authorized(None, None));
    assert!(is_authorized(Some("k"), Some("Bearer k")));
    assert!(!is_authorized(Some("k"), Some("Bearer x")));
    assert!(!is_authorized(Some("k"), Some("k")));
    assert!(!is_authorized(Some("k"), None));
}

#[test]
fn instance_listing_and_status() {
    let mk = |id: &str| InstanceInfo {
        id: id.to_string(),
        state: InstanceState::Running,
        project_path: "/p".to_string(),
        port: 1,
        pid: None,
        container_id: None,
        started_at: None,
        stopped_at: None,
        topic_id: 0,
    };
    let r = list_external(vec![mk("external-1"), mk("inst_2"), mk("external-3")]);
    assert_eq!(r.instances.len(), 2);
    assert_eq!(r.instances[1].id, "external-3");
    let (code, resp) = status_response(None);
    assert_eq!(code, 404);
    assert!(!resp.registered);
    let (code, resp) = status_response(Some(mk("external-1")));
    assert_eq!(code, 200);
    assert!(resp.registered);
}
