use oc_outpost::container::{ContainerInfo, ContainerState};
use oc_outpost::manager::{
    checks_idle_after, health_action, idle_expired, instances_to_mark_stopped, manager_status, plan_acquire, plan_reconcile,
    plan_restart, restart_delay_ms, AcquirePlan, CrashCheck, HealthAction, RestartLedger, RestartPlan,
};
use oc_outpost::types::{InstanceInfo, InstanceState};

fn info(id: &str, state: InstanceState, container: Option<&str>) -> InstanceInfo {
    InstanceInfo {
        id: id.to_string(),
        state,
        project_path: format!("/p/{}", id),
        port: 4100,
        pid: None,
        container_id: container.map(|c| c.to_string()),
        started_at: None,
        stopped_at: None,
        topic_id: 0,
    }
}

fn container(id: &str) -> ContainerInfo {
    ContainerInfo { id: id.to_string(), name: format!("oc-{}", id), state: ContainerState::Running }
}

#[test]
fn restart_delays_double() {
    assert_eq!(restart_delay_ms(0), 1000);
    assert_eq!(restart_delay_ms(1), 2000);
    assert_eq!(restart_delay_ms(2), 4000);
    assert_eq!(restart_delay_ms(3), 8000);
    assert_eq!(restart_delay_ms(4), 16000);
}

#[test]
fn restart_gives_up_after_five_attempts() {
    assert_eq!(plan_restart(0), RestartPlan::Retry { delay_ms: 1000, attempts: 1 });
    assert_eq!(plan_restart(4), RestartPlan::Retry { delay_ms: 16000, attempts: 5 });
    assert_eq!(plan_restart(5), RestartPlan::GiveUp);
    assert_eq!(plan_restart(9), RestartPlan::GiveUp);
}

#[test]
fn health_checks_only_running_instances() {
    assert_eq!(health_action(InstanceState::Stopped, CrashCheck::Crashed, 0), HealthAction::Skip);
    assert_eq!(health_action(InstanceState::Starting, CrashCheck::Crashed, 0), HealthAction::Skip);
    assert_eq!(
        health_action(InstanceState::Running, CrashCheck::Crashed, 2),
        HealthAction::Restart { delay_ms: 4000, attempts: 3 }
    );
    assert_eq!(health_action(InstanceState::Running, CrashCheck::Crashed, 5), HealthAction::MarkError);
    assert_eq!(health_action(InstanceState::Running, CrashCheck::Healthy, 3), HealthAction::ResetRestarts);
    assert_eq!(health_action(InstanceState::Running, CrashCheck::Unknown, 3), HealthAction::Keep);
}

#[test]
fn idle_timeout_is_strict() {
    assert!(!idle_expired(1000, 1000));
    assert!(idle_expired(1001, 1000));
}

#[test]
fn acquire_plans() {
    assert_eq!(plan_acquire(Some(InstanceState::Running), false, 0, 10), AcquirePlan::Reuse);
    assert_eq!(plan_acquire(Some(InstanceState::Starting), false, 0, 10), AcquirePlan::Reuse);
    assert_eq!(plan_acquire(Some(InstanceState::Stopped), false, 0, 10), AcquirePlan::Restart);
    assert_eq!(plan_acquire(Some(InstanceState::Error), false, 0, 10), AcquirePlan::Restart);
    assert_eq!(plan_acquire(Some(InstanceState::Stopping), false, 0, 10), AcquirePlan::Stopping);
    assert_eq!(plan_acquire(None, true, 10, 10), AcquirePlan::Spawn);
    assert_eq!(plan_acquire(None, false, 10, 10), AcquirePlan::LimitReached);
    assert_eq!(plan_acquire(None, false, 9, 10), AcquirePlan::Spawn);
}

#[test]
fn status_counts_states_and_free_ports() {
    let states = vec![
        InstanceState::Running,
        InstanceState::Starting,
        InstanceState::Stopped,
        InstanceState::Stopping,
        InstanceState::Error,
    ];
    let s = manager_status(&states, 100, 3);
    assert_eq!(s.total_instances, 5);
    assert_eq!(s.running_instances, 2);
    assert_eq!(s.stopped_instances, 2);
    assert_eq!(s.error_instances, 1);
    assert_eq!(s.available_ports, 97);
    assert_eq!(manager_status(&vec![], 2, 5).available_ports, 0);
}

#[test]
fn recovery_marks_running_and_starting() {
    let states = vec![InstanceState::Running, InstanceState::Stopped, InstanceState::Starting, InstanceState::Error];
    assert_eq!(instances_to_mark_stopped(&states), vec![0, 2]);
}

#[test]
fn reconcile_orphan_containers_removed() {
    let containers = vec![container("c1"), container("orphan")];
    let instances = vec![info("i1", InstanceState::Running, Some("c1"))];
    let plan = plan_reconcile(&containers, &instances);
    assert_eq!(plan.remove, vec!["orphan"]);
    assert!(plan.mark_error.is_empty());
}

#[test]
fn reconcile_db_without_container_marked_error() {
    let containers = vec![];
    let instances = vec![
        info("i1", InstanceState::Running, Some("gone")),
        info("i2", InstanceState::Stopped, None),
    ];
    let plan = plan_reconcile(&containers, &instances);
    assert_eq!(plan.mark_error, vec!["i1"]);
    assert!(plan.remove.is_empty());
}

#[test]
fn reconcile_matching_containers_kept() {
    let containers = vec![container("c1"), container("c2")];
    let instances = vec![info("i1", InstanceState::Running, Some("c1")), info("i2", InstanceState::Running, Some("c2"))];
    let plan = plan_reconcile(&containers, &instances);
    assert!(plan.mark_error.is_empty());
    assert!(plan.remove.is_empty());
}

#[test]
fn restart_attempts_follow_the_lineage() {
    let mut ledger = RestartLedger::new();
    assert_eq!(ledger.count("inst_a"), 0);
    ledger.set("inst_a", 1);
    ledger.set("inst_a", 2);
    assert_eq!(ledger.get("inst_a"), Some(2));
    ledger.carry_over("inst_a", "inst_b");
    assert_eq!(ledger.get("inst_a"), None);
    assert_eq!(ledger.count("inst_b"), 2);
    ledger.carry_over("inst_missing", "inst_c");
    assert_eq!(ledger.get("inst_c"), None);
    ledger.forget("inst_b");
    assert_eq!(ledger.count("inst_b"), 0);
}

#[test]
fn idle_check_follows_all_but_skip_and_restart() {
    assert!(!checks_idle_after(HealthAction::Skip));
    assert!(!checks_idle_after(HealthAction::Restart { delay_ms: 1000, attempts: 1 }));
    assert!(checks_idle_after(HealthAction::MarkError));
    assert!(checks_idle_after(HealthAction::ResetRestarts));
    assert!(checks_idle_after(HealthAction::Keep));
}
