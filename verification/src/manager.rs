//! Decisions of the instance manager: reuse or spawn, restart backoff, health
//! checks, idle timeouts, status counts and container reconciliation. The
//! manager's event loop performs the actions these functions choose.

use vstd::prelude::*;
use crate::container::{ContainerInfo, strings_view};
use crate::types::{InstanceInfo, InstanceState};
use crate::text::{owned, str_eq};

verus! {

/// Restarts of one instance lineage before it is given up.
pub const MAX_RESTART_ATTEMPTS: usize = 5;

/// Delay before the first restart, in milliseconds; it doubles with each attempt.
pub const INITIAL_RESTART_DELAY_MS: u64 = 1000;

/// Counts of the managed instances and of the free ports.
#[derive(Debug, Clone)]
pub struct ManagerStatus {
    pub total_instances: usize,
    pub running_instances: usize,
    pub stopped_instances: usize,
    pub error_instances: usize,
    pub available_ports: usize,
}

/// Backoff delay before restart attempt `attempt` (counted from 0): 1 s, 2 s, 4 s, ...
pub open spec fn backoff_ms(attempt: nat) -> nat
    decreases attempt,
{
    if attempt == 0 {
        INITIAL_RESTART_DELAY_MS as nat
    } else {
        2 * backoff_ms((attempt - 1) as nat)
    }
}

/// The delay before restart attempt `attempt`.
pub fn restart_delay_ms(attempt: usize) -> (d: u64)
    requires
        attempt < MAX_RESTART_ATTEMPTS,
    ensures
        d == backoff_ms(attempt as nat),
{
    let mut d: u64 = INITIAL_RESTART_DELAY_MS;
    let mut i: usize = 0;
    while i < attempt
        invariant
            i <= attempt < MAX_RESTART_ATTEMPTS,
            d == backoff_ms(i as nat),
            d <= 1000 * 16,
        decreases attempt - i,
    {
        proof {
            reveal_with_fuel(backoff_ms, 5);
            assert(d <= 8000) by {
                if i == 0 { } else if i == 1 { } else if i == 2 { } else { assert(i == 3); }
            }
        }
        d = d * 2;
        i += 1;
    }
    d
}

/// What to do about a crashed instance whose lineage has made `attempts` restarts.
#[derive(Debug, Clone, Copy, PartialEq, Eq, Structural)]
pub enum RestartPlan {
    /// Wait `delay_ms`, then restart; the lineage has then made `attempts` restarts.
    Retry { delay_ms: u64, attempts: usize },
    /// Too many restarts: mark the instance as errored.
    GiveUp,
}

/// Exponential backoff: retry while fewer than [`MAX_RESTART_ATTEMPTS`] restarts were made.
pub fn plan_restart(attempts: usize) -> (p: RestartPlan)
    ensures
        attempts < MAX_RESTART_ATTEMPTS ==> p == (RestartPlan::Retry {
            delay_ms: backoff_ms(attempts as nat) as u64,
            attempts: (attempts + 1) as usize,
        }),
        attempts >= MAX_RESTART_ATTEMPTS ==> p == RestartPlan::GiveUp,
{
    if attempts < MAX_RESTART_ATTEMPTS {
        RestartPlan::Retry { delay_ms: restart_delay_ms(attempts), attempts: attempts + 1 }
    } else {
        RestartPlan::GiveUp
    }
}

/// The outcome of asking an instance whether it crashed.
#[derive(Debug, Clone, Copy, PartialEq, Eq, Structural)]
pub enum CrashCheck {
    Crashed,
    Healthy,
    /// The check itself failed; nothing is changed.
    Unknown,
}

/// What a health-check tick does to one instance.
#[derive(Debug, Clone, Copy, PartialEq, Eq, Structural)]
pub enum HealthAction {
    /// The instance is not running: it is left alone.
    Skip,
    /// Restart it after `delay_ms`; its restart count becomes `attempts`.
    Restart { delay_ms: u64, attempts: usize },
    /// Mark it as errored: it restarted too often.
    MarkError,
    /// It is healthy: forget its restart count.
    ResetRestarts,
    /// Nothing to do.
    Keep,
}

/// The health decision for an instance in `state`, given the crash check and
/// the restarts its lineage has made. Only running instances are checked.
pub fn health_action(state: InstanceState, check: CrashCheck, attempts: usize) -> (a: HealthAction)
    ensures
        state != InstanceState::Running ==> a == HealthAction::Skip,
        state == InstanceState::Running ==> a == match check {
            CrashCheck::Crashed => match plan_restart_spec(attempts) {
                RestartPlan::Retry { delay_ms, attempts } => HealthAction::Restart { delay_ms, attempts },
                RestartPlan::GiveUp => HealthAction::MarkError,
            },
            CrashCheck::Healthy => HealthAction::ResetRestarts,
            CrashCheck::Unknown => HealthAction::Keep,
        },
{
    if state != InstanceState::Running {
        return HealthAction::Skip;
    }
    match check {
        CrashCheck::Crashed => match plan_restart(attempts) {
            RestartPlan::Retry { delay_ms, attempts } => HealthAction::Restart { delay_ms, attempts },
            RestartPlan::GiveUp => HealthAction::MarkError,
        },
        CrashCheck::Healthy => HealthAction::ResetRestarts,
        CrashCheck::Unknown => HealthAction::Keep,
    }
}

/// [`plan_restart`] as a function.
pub open spec fn plan_restart_spec(attempts: usize) -> RestartPlan {
    if attempts < MAX_RESTART_ATTEMPTS {
        RestartPlan::Retry { delay_ms: backoff_ms(attempts as nat) as u64, attempts: (attempts + 1) as usize }
    } else {
        RestartPlan::GiveUp
    }
}

/// Whether a health tick goes on to the idle-timeout check after the action
/// `a`: it does not for a skipped instance nor for one being restarted.
pub fn checks_idle_after(a: HealthAction) -> (b: bool)
    ensures
        b == !(a is Skip || a is Restart),
{
    match a {
        HealthAction::Skip | HealthAction::Restart { .. } => false,
        _ => true,
    }
}

/// Whether an instance idle for `idle_ms` has passed the timeout `timeout_ms`.
pub fn idle_expired(idle_ms: u64, timeout_ms: u64) -> (b: bool)
    ensures
        b == (idle_ms > timeout_ms),
{
    idle_ms > timeout_ms
}

/// How a request for a project's instance is served.
#[derive(Debug, Clone, Copy, PartialEq, Eq, Structural)]
pub enum AcquirePlan {
    /// The running (or starting) instance is returned and its activity recorded.
    Reuse,
    /// The stopped or errored instance is restarted.
    Restart,
    /// The instance is stopping: the request fails.
    Stopping,
    /// A new instance is spawned.
    Spawn,
    /// No new instance may be spawned: the limit is reached.
    LimitReached,
}

/// `get_or_create`: `in_memory` is the state of the managed instance for the
/// project, if any; `in_database` whether the store knows the project;
/// `count` how many instances are managed, of at most `max`.
pub fn plan_acquire(in_memory: Option<InstanceState>, in_database: bool, count: usize, max: usize) -> (p: AcquirePlan)
    ensures
        p == match in_memory {
            Some(InstanceState::Running) | Some(InstanceState::Starting) => AcquirePlan::Reuse,
            Some(InstanceState::Stopped) | Some(InstanceState::Error) => AcquirePlan::Restart,
            Some(InstanceState::Stopping) => AcquirePlan::Stopping,
            None => if in_database {
                AcquirePlan::Spawn
            } else if count >= max {
                AcquirePlan::LimitReached
            } else {
                AcquirePlan::Spawn
            },
        },
{
    match in_memory {
        Some(InstanceState::Running) | Some(InstanceState::Starting) => AcquirePlan::Reuse,
        Some(InstanceState::Stopped) | Some(InstanceState::Error) => AcquirePlan::Restart,
        Some(InstanceState::Stopping) => AcquirePlan::Stopping,
        None => if in_database {
            AcquirePlan::Spawn
        } else if count >= max {
            AcquirePlan::LimitReached
        } else {
            AcquirePlan::Spawn
        },
    }
}

/// Number of states in `s` that satisfy `f`.
pub open spec fn count_where(s: Seq<InstanceState>, f: spec_fn(InstanceState) -> bool) -> nat
    decreases s.len(),
{
    if s.len() == 0 {
        0
    } else {
        count_where(s.drop_last(), f) + if f(s.last()) { 1nat } else { 0nat }
    }
}

/// Running or starting.
pub open spec fn is_up(s: InstanceState) -> bool {
    s == InstanceState::Running || s == InstanceState::Starting
}

/// Stopped or stopping.
pub open spec fn is_down(s: InstanceState) -> bool {
    s == InstanceState::Stopped || s == InstanceState::Stopping
}

/// Errored.
pub open spec fn is_error(s: InstanceState) -> bool {
    s == InstanceState::Error
}

proof fn lemma_counts_bounded(s: Seq<InstanceState>)
    ensures
        count_where(s, |x: InstanceState| is_up(x)) + count_where(s, |x: InstanceState| is_down(x))
            + count_where(s, |x: InstanceState| is_error(x)) == s.len(),
    decreases s.len(),
{
    if s.len() > 0 {
        lemma_counts_bounded(s.drop_last());
    }
}

/// The status of the instances in `states`, with `allocated` of the
/// `pool_size` ports in use (free ports never count below zero).
pub fn manager_status(states: &Vec<InstanceState>, pool_size: u16, allocated: usize) -> (r: ManagerStatus)
    ensures
        r.total_instances == states.len(),
        r.running_instances == count_where(states@, |x: InstanceState| is_up(x)),
        r.stopped_instances == count_where(states@, |x: InstanceState| is_down(x)),
        r.error_instances == count_where(states@, |x: InstanceState| is_error(x)),
        r.available_ports == if pool_size >= allocated { pool_size - allocated } else { 0 },
{
    let mut running: usize = 0;
    let mut stopped: usize = 0;
    let mut error: usize = 0;
    let mut i: usize = 0;
    while i < states.len()
        invariant
            i <= states.len(),
            running == count_where(states@.take(i as int), |x: InstanceState| is_up(x)),
            stopped == count_where(states@.take(i as int), |x: InstanceState| is_down(x)),
            error == count_where(states@.take(i as int), |x: InstanceState| is_error(x)),
            running + stopped + error == i,
        decreases states.len() - i,
    {
        assert(states@.take(i + 1).drop_last() =~= states@.take(i as int));
        match states[i] {
            InstanceState::Running | InstanceState::Starting => running += 1,
            InstanceState::Stopped | InstanceState::Stopping => stopped += 1,
            InstanceState::Error => error += 1,
        }
        i += 1;
    }
    assert(states@.take(i as int) =~= states@);
    let total_ports: usize = pool_size as usize;
    ManagerStatus {
        total_instances: states.len(),
        running_instances: running,
        stopped_instances: stopped,
        error_instances: error,
        available_ports: total_ports.saturating_sub(allocated),
    }
}

/// After a restart of the bot no container survives: the indices of the
/// recorded instances that were running or starting, which become stopped.
pub fn instances_to_mark_stopped(states: &Vec<InstanceState>) -> (r: Vec<usize>)
    ensures
        forall|k: int| 0 <= k < r.len() ==> #[trigger] r[k] < states.len() && is_up(states@[r[k] as int]),
        forall|i: int| 0 <= i < states.len() && is_up(#[trigger] states@[i]) ==> r@.contains(i as usize),
        forall|k: int, l: int| 0 <= k < l < r.len() ==> r[k] < r[l],
{
    let mut r: Vec<usize> = Vec::new();
    let mut i: usize = 0;
    while i < states.len()
        invariant
            i <= states.len(),
            forall|k: int| 0 <= k < r.len() ==> #[trigger] r[k] < i && is_up(states@[r[k] as int]),
            forall|j: int| 0 <= j < i && is_up(#[trigger] states@[j]) ==> r@.contains(j as usize),
            forall|k: int, l: int| 0 <= k < l < r.len() ==> r[k] < r[l],
        decreases states.len() - i,
    {
        let up = match states[i] {
            InstanceState::Running | InstanceState::Starting => true,
            _ => false,
        };
        if up {
            let ghost before = r@;
            r.push(i);
            assert forall|k: int| 0 <= k < r.len() implies #[trigger] r[k] < i + 1 && is_up(states@[r[k] as int]) by {
                if k < before.len() {
                    assert(r@[k] == before[k]);
                }
            }
            assert forall|k: int, l: int| 0 <= k < l < r.len() implies r[k] < r[l] by {
                if l < before.len() {
                    assert(r@[k] == before[k] && r@[l] == before[l]);
                } else {
                    assert(r@[k] == before[k]);
                }
            }
            assert forall|j: int| 0 <= j < i + 1 && is_up(#[trigger] states@[j]) implies r@.contains(j as usize) by {
                if j < i {
                    let k = choose|k: int| 0 <= k < before.len() && before[k] == j as usize;
                    assert(r@[k] == j as usize);
                } else {
                    assert(r@[r@.len() - 1] == i);
                }
            }
        }
        i += 1;
    }
    r
}

/// Whether `s` occurs in `v`.
fn contains_string(v: &Vec<String>, s: &str) -> (b: bool)
    ensures
        b == strings_view(v@).contains(s@),
{
    let mut i: usize = 0;
    while i < v.len()
        invariant
            i <= v.len(),
            forall|j: int| 0 <= j < i ==> strings_view(v@)[j] != s@,
        decreases v.len() - i,
    {
        if str_eq(v[i].as_str(), s) {
            assert(strings_view(v@)[i as int] == s@);
            return true;
        }
        i += 1;
    }
    proof {
        if strings_view(v@).contains(s@) {
            let j = choose|j: int| 0 <= j < strings_view(v@).len() && strings_view(v@)[j] == s@;
            assert(strings_view(v@)[j] != s@);
        }
    }
    false
}

/// The container ids of the live containers.
pub open spec fn live_ids(c: Seq<ContainerInfo>) -> Seq<Seq<char>> {
    c.map_values(|x: ContainerInfo| x.id@)
}

/// The container ids that the recorded instances name, in order.
pub open spec fn recorded_ids(insts: Seq<InstanceInfo>) -> Seq<Seq<char>>
    decreases insts.len(),
{
    if insts.len() == 0 {
        Seq::empty()
    } else {
        let rest = recorded_ids(insts.drop_last());
        match insts.last().container_id {
            Some(c) => rest.push(c@),
            None => rest,
        }
    }
}

/// The ids of the instances whose recorded container is not among `live`.
pub open spec fn missing_container_instances(insts: Seq<InstanceInfo>, live: Seq<Seq<char>>) -> Seq<Seq<char>>
    decreases insts.len(),
{
    if insts.len() == 0 {
        Seq::empty()
    } else {
        let rest = missing_container_instances(insts.drop_last(), live);
        match insts.last().container_id {
            Some(c) => if live.contains(c@) { rest } else { rest.push(insts.last().id@) },
            None => rest,
        }
    }
}

/// The ids of the containers that no recorded instance names.
pub open spec fn orphan_containers(c: Seq<ContainerInfo>, known: Seq<Seq<char>>) -> Seq<Seq<char>>
    decreases c.len(),
{
    if c.len() == 0 {
        Seq::empty()
    } else {
        let rest = orphan_containers(c.drop_last(), known);
        if known.contains(c.last().id@) { rest } else { rest.push(c.last().id@) }
    }
}

/// What reconciliation does: instances to mark as errored, containers to
/// stop and remove.
#[derive(Debug, Clone)]
pub struct ReconcilePlan {
    pub mark_error: Vec<String>,
    pub remove: Vec<String>,
}

/// Reconciles the live containers (named `oc-...`) with the recorded
/// instances: an instance whose container is gone is marked as errored; a
/// container that no instance records is an orphan, stopped and removed.
pub fn plan_reconcile(containers: &Vec<ContainerInfo>, instances: &Vec<InstanceInfo>) -> (p: ReconcilePlan)
    ensures
        strings_view(p.mark_error@) == missing_container_instances(instances@, live_ids(containers@)),
        strings_view(p.remove@) == orphan_containers(containers@, recorded_ids(instances@)),
{
    let mut live: Vec<String> = Vec::new();
    let mut i: usize = 0;
    while i < containers.len()
        invariant
            i <= containers.len(),
            strings_view(live@) == live_ids(containers@.take(i as int)),
        decreases containers.len() - i,
    {
        let ghost old_live = live@;
        assert(containers@.take(i + 1) =~= containers@.take(i as int).push(containers@[i as int]));
        let id = containers[i].id.clone();
        live.push(id);
        assert(live@ =~= old_live.push(id));
        assert(strings_view(live@) =~= strings_view(old_live).push(id@));
        assert(live_ids(containers@.take(i + 1)) =~= live_ids(containers@.take(i as int)).push(containers@[i as int].id@));
        i += 1;
    }
    assert(containers@.take(i as int) =~= containers@);
    let mut known: Vec<String> = Vec::new();
    let mut mark_error: Vec<String> = Vec::new();
    let mut j: usize = 0;
    while j < instances.len()
        invariant
            j <= instances.len(),
            strings_view(live@) == live_ids(containers@),
            strings_view(known@) == recorded_ids(instances@.take(j as int)),
            strings_view(mark_error@) == missing_container_instances(instances@.take(j as int), live_ids(containers@)),
        decreases instances.len() - j,
    {
        assert(instances@.take(j + 1).drop_last() =~= instances@.take(j as int));
        match &instances[j].container_id {
            Some(c) => {
                known.push(c.clone());
                if !contains_string(&live, c.as_str()) {
                    mark_error.push(instances[j].id.clone());
                }
            },
            None => {},
        }
        j += 1;
        assert(strings_view(known@) =~= recorded_ids(instances@.take(j as int)));
        assert(strings_view(mark_error@) =~= missing_container_instances(instances@.take(j as int), live_ids(containers@)));
    }
    assert(instances@.take(j as int) =~= instances@);
    let mut remove: Vec<String> = Vec::new();
    let mut k: usize = 0;
    while k < containers.len()
        invariant
            k <= containers.len(),
            strings_view(known@) == recorded_ids(instances@),
            strings_view(remove@) == orphan_containers(containers@.take(k as int), recorded_ids(instances@)),
        decreases containers.len() - k,
    {
        assert(containers@.take(k + 1).drop_last() =~= containers@.take(k as int));
        if !contains_string(&known, containers[k].id.as_str()) {
            remove.push(containers[k].id.clone());
        }
        k += 1;
        assert(strings_view(remove@) =~= orphan_containers(containers@.take(k as int), recorded_ids(instances@)));
    }
    assert(containers@.take(k as int) =~= containers@);
    ReconcilePlan { mark_error, remove }
}

/// The backoff doubles from one restart attempt to the next.
pub proof fn law_backoff_doubles(attempt: nat)
    ensures
        backoff_ms(attempt + 1) == 2 * backoff_ms(attempt),
        backoff_ms(0) == 1000,
{
}

/// However the health checks go, a lineage is restarted at most
/// [`MAX_RESTART_ATTEMPTS`] times: each restart raises its count by one, and
/// no restart is planned once the count reaches the limit.
pub proof fn law_restarts_bounded(attempts: usize)
    ensures
        match plan_restart_spec(attempts) {
            RestartPlan::Retry { delay_ms, attempts: next } => attempts < MAX_RESTART_ATTEMPTS && next == attempts + 1
                && next <= MAX_RESTART_ATTEMPTS,
            RestartPlan::GiveUp => attempts >= MAX_RESTART_ATTEMPTS,
        },
{
}

/// The three state counts of a status add up to the number of instances.
pub proof fn law_status_counts_partition(states: Seq<InstanceState>)
    ensures
        count_where(states, |x: InstanceState| is_up(x)) + count_where(states, |x: InstanceState| is_down(x))
            + count_where(states, |x: InstanceState| is_error(x)) == states.len(),
{
    lemma_counts_bounded(states);
}


/// The attempts recorded in `e`, by instance id; a later entry for an id
/// replaces an earlier one.
pub open spec fn ledger_map(e: Seq<(String, usize)>) -> Map<Seq<char>, usize>
    decreases e.len(),
{
    if e.len() == 0 {
        Map::empty()
    } else {
        ledger_map(e.drop_last()).insert(e.last().0@, e.last().1)
    }
}

/// The restart attempts of each instance lineage, under the id of its
/// current instance.
#[derive(Debug, Clone)]
pub struct RestartLedger {
    entries: Vec<(String, usize)>,
}

impl RestartLedger {
    /// The attempts by instance id.
    pub closed spec fn view(&self) -> Map<Seq<char>, usize> {
        ledger_map(self.entries@)
    }

    /// No attempts recorded.
    pub fn new() -> (r: Self)
        ensures
            r.view() == Map::<Seq<char>, usize>::empty(),
    {
        RestartLedger { entries: Vec::new() }
    }

    /// The attempts recorded for `id`, if any.
    pub fn get(&self, id: &str) -> (r: Option<usize>)
        ensures
            r == (if self.view().dom().contains(id@) { Some(self.view()[id@]) } else { None }),
    {
        let ghost e = self.entries@;
        let mut i = self.entries.len();
        assert(e.take(i as int) =~= e);
        while i > 0
            invariant
                i <= self.entries.len(),
                e == self.entries@,
                ledger_map(e).dom().contains(id@) == ledger_map(e.take(i as int)).dom().contains(id@),
                ledger_map(e).dom().contains(id@) ==> ledger_map(e)[id@] == ledger_map(e.take(i as int))[id@],
            decreases i,
        {
            proof {
                assert(e.take(i as int).drop_last() =~= e.take(i - 1));
                assert(e.take(i as int).last() == e[i - 1]);
            }
            if str_eq(self.entries[i - 1].0.as_str(), id) {
                return Some(self.entries[i - 1].1);
            }
            i -= 1;
        }
        assert(e.take(0) =~= Seq::<(String, usize)>::empty());
        None
    }

    /// The attempts of `id`, 0 when none are recorded.
    pub fn count(&self, id: &str) -> (n: usize)
        ensures
            n == (if self.view().dom().contains(id@) { self.view()[id@] } else { 0 }),
    {
        match self.get(id) {
            Some(n) => n,
            None => 0,
        }
    }

    /// Forgets the attempts of `id`.
    pub fn forget(&mut self, id: &str)
        ensures
            final(self).view() == old(self).view().remove(id@),
    {
        let ghost e = self.entries@;
        let mut out: Vec<(String, usize)> = Vec::new();
        let mut i: usize = 0;
        assert(ledger_map(out@) =~= ledger_map(e.take(0)).remove(id@));
        while i < self.entries.len()
            invariant
                i <= self.entries.len(),
                e == self.entries@,
                ledger_map(out@) == ledger_map(e.take(i as int)).remove(id@),
            decreases self.entries.len() - i,
        {
            proof {
                assert(e.take(i + 1).drop_last() =~= e.take(i as int));
                assert(e.take(i + 1).last() == e[i as int]);
            }
            if !str_eq(self.entries[i].0.as_str(), id) {
                let ghost before = out@;
                out.push((self.entries[i].0.clone(), self.entries[i].1));
                proof {
                    assert(out@.drop_last() =~= before);
                    assert(ledger_map(out@) =~= ledger_map(e.take(i + 1)).remove(id@));
                }
            } else {
                assert(ledger_map(out@) =~= ledger_map(e.take(i + 1)).remove(id@));
            }
            i += 1;
        }
        assert(e.take(i as int) =~= e);
        self.entries = out;
    }

    /// Records `n` attempts for `id`.
    pub fn set(&mut self, id: &str, n: usize)
        ensures
            final(self).view() == old(self).view().insert(id@, n),
    {
        self.forget(id);
        let ghost before = self.entries@;
        self.entries.push((owned(id), n));
        proof {
            assert(self.entries@.drop_last() =~= before);
            assert(self.view() =~= old(self).view().insert(id@, n));
        }
    }

    /// A restarted instance continues the lineage of `old_id`: its attempts
    /// move to `new_id`, so the restart limit counts every restart of the lineage.
    pub fn carry_over(&mut self, old_id: &str, new_id: &str)
        ensures
            old(self).view().dom().contains(old_id@) ==> final(self).view() == old(self).view().remove(old_id@).insert(
                new_id@,
                old(self).view()[old_id@],
            ),
            !old(self).view().dom().contains(old_id@) ==> final(self).view() == old(self).view(),
    {
        match self.get(old_id) {
            Some(n) => {
                self.forget(old_id);
                self.set(new_id, n);
            },
            None => {
                self.forget(old_id);
                assert(self.view() =~= old(self).view());
            },
        }
    }
}

} // verus!
