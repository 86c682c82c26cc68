use oc_outpost::container::ContainerState;
use oc_outpost::instance::{health_verdict, keep_polling, spawn_error, CrashVerdict, HealthProbe, InstanceLifecycle, SpawnStep};
use oc_outpost::types::InstanceState;

#[test]
fn exited_container_with_error_is_a_crash() {
    let mut l = InstanceLifecycle::started("c1".to_string());
    assert_eq!(l.container_id(), Some("c1"));
    assert_eq!(l.on_inspected(&ContainerState::Running), CrashVerdict::Fine);
    assert_eq!(l.state(), InstanceState::Running);
    assert_eq!(l.on_inspected(&ContainerState::Exited(1)), CrashVerdict::Crashed);
    assert_eq!(l.state(), InstanceState::Error);
    assert_eq!(l.container_id(), None);
}

#[test]
fn clean_exit_is_a_stop() {
    let mut l = InstanceLifecycle::started("c1".to_string());
    assert_eq!(l.on_inspected(&ContainerState::Exited(0)), CrashVerdict::ExitedCleanly);
    assert_eq!(l.state(), InstanceState::Stopped);
}

#[test]
fn stopping_and_external_instances() {
    let mut l = InstanceLifecycle::started("c1".to_string());
    l.begin_stop();
    assert_eq!(l.state(), InstanceState::Stopping);
    l.finish_stop();
    assert_eq!(l.state(), InstanceState::Stopped);
    assert_eq!(l.container_id(), None);
    let e = InstanceLifecycle::external();
    assert_eq!(e.state(), InstanceState::Running);
    assert_eq!(e.container_id(), None);
}

#[test]
fn health_and_readiness() {
    assert_eq!(health_verdict(HealthProbe::Status(200)), Ok(true));
    assert_eq!(health_verdict(HealthProbe::Status(503)), Ok(false));
    assert_eq!(health_verdict(HealthProbe::Unreachable), Ok(false));
    assert_eq!(health_verdict(HealthProbe::Failed("tls".to_string())), Err("Health check failed: tls".to_string()));
    assert!(keep_polling(0, 500));
    assert!(!keep_polling(500, 500));
    assert_eq!(
        spawn_error(SpawnStep::Create, "/p", "no image"),
        "Failed to create container for project '/p': no image"
    );
}
