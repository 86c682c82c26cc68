//! The lifecycle of one OpenCode instance running in a container: its state,
//! its container, crash detection, health probes and readiness polling.

use vstd::prelude::*;
use crate::container::ContainerState;
use crate::text::{push_str, string_from_chars};
use crate::types::InstanceState;

verus! {

/// Seconds a container is given to stop before it is killed.
pub const GRACEFUL_SHUTDOWN_TIMEOUT_SECS: u64 = 5;

/// Seconds a health probe may take.
pub const HEALTH_CHECK_TIMEOUT_SECS: u64 = 5;

/// Milliseconds between readiness probes.
pub const READY_POLL_INTERVAL_MS: u64 = 500;

/// The state of an instance and the container it runs in.
#[derive(Debug, Clone)]
pub struct InstanceLifecycle {
    state: InstanceState,
    container_id: Option<String>,
    managed: bool,
}

/// How an instance's container was found.
#[derive(Debug, Clone, Copy, PartialEq, Eq, Structural)]
pub enum CrashVerdict {
    /// Nothing to check (no container), or the container runs, or its state is unclear.
    Fine,
    /// The container exited with code 0: the instance stopped.
    ExitedCleanly,
    /// The container exited with another code: the instance crashed.
    Crashed,
}

impl InstanceLifecycle {
    /// The instance's state.
    pub closed spec fn state_of(&self) -> InstanceState {
        self.state
    }

    /// The instance's container, if it has one.
    pub closed spec fn container(&self) -> Option<Seq<char>> {
        match self.container_id {
            Some(c) => Some(c@),
            None => None,
        }
    }

    /// Whether the bot started the instance (rather than finding it running).
    pub closed spec fn is_managed(&self) -> bool {
        self.managed
    }

    /// A managed instance whose container `container_id` was created and started.
    pub fn started(container_id: String) -> (r: Self)
        ensures
            r.state_of() == InstanceState::Running,
            r.container() == Some(container_id@),
            r.is_managed(),
    {
        InstanceLifecycle { state: InstanceState::Running, container_id: Some(container_id), managed: true }
    }

    /// An instance started outside the bot: running, with no container to manage.
    pub fn external() -> (r: Self)
        ensures
            r.state_of() == InstanceState::Running,
            r.container() is None,
            !r.is_managed(),
    {
        InstanceLifecycle { state: InstanceState::Running, container_id: None, managed: false }
    }

    /// The instance's state.
    pub fn state(&self) -> (s: InstanceState)
        ensures
            s == self.state_of(),
    {
        self.state
    }

    /// Sets the state.
    pub fn set_state(&mut self, s: InstanceState)
        ensures
            final(self).state_of() == s,
            final(self).container() == old(self).container(),
            final(self).is_managed() == old(self).is_managed(),
    {
        self.state = s;
    }

    /// The container to inspect, stop or remove, if any.
    pub fn container_id(&self) -> (r: Option<&str>)
        ensures
            match r {
                Some(c) => self.container() == Some(c@),
                None => self.container() is None,
            },
    {
        match &self.container_id {
            Some(c) => Some(c.as_str()),
            None => None,
        }
    }

    /// The container was inspected and found in `observed`: an exited
    /// container leaves the instance stopped (code 0) or errored, and is
    /// forgotten; a running, created or unclear one changes nothing.
    pub fn on_inspected(&mut self, observed: &ContainerState) -> (v: CrashVerdict)
        requires
            old(self).container() is Some,
        ensures
            match *observed {
                ContainerState::Exited(code) => (if code == 0 {
                    v == CrashVerdict::ExitedCleanly && final(self).state_of() == InstanceState::Stopped
                } else {
                    v == CrashVerdict::Crashed && final(self).state_of() == InstanceState::Error
                }) && final(self).container() is None,
                _ => v == CrashVerdict::Fine && final(self).state_of() == old(self).state_of()
                    && final(self).container() == old(self).container(),
            },
            final(self).is_managed() == old(self).is_managed(),
    {
        match observed {
            ContainerState::Exited(code) => {
                self.container_id = None;
                if *code == 0 {
                    self.state = InstanceState::Stopped;
                    CrashVerdict::ExitedCleanly
                } else {
                    self.state = InstanceState::Error;
                    CrashVerdict::Crashed
                }
            },
            _ => CrashVerdict::Fine,
        }
    }

    /// Stopping begins.
    pub fn begin_stop(&mut self)
        ensures
            final(self).state_of() == InstanceState::Stopping,
            final(self).container() == old(self).container(),
            final(self).is_managed() == old(self).is_managed(),
    {
        self.state = InstanceState::Stopping;
    }

    /// The container was stopped and removed (or there was none).
    pub fn finish_stop(&mut self)
        ensures
            final(self).state_of() == InstanceState::Stopped,
            final(self).container() is None,
            final(self).is_managed() == old(self).is_managed(),
    {
        self.state = InstanceState::Stopped;
        self.container_id = None;
    }
}

/// What a health probe of `/global/health` gave.
#[derive(Debug, Clone)]
pub enum HealthProbe {
    /// An answer with this HTTP status.
    Status(u16),
    /// No connection, or no answer in time.
    Unreachable,
    /// Another failure, with its description.
    Failed(String),
}

/// Healthy when the endpoint answers with a success status, unhealthy when it
/// cannot be reached, an error otherwise.
pub fn health_verdict(probe: HealthProbe) -> (r: Result<bool, String>)
    ensures
        match probe {
            HealthProbe::Status(code) => r == Ok::<bool, String>(200 <= code < 300),
            HealthProbe::Unreachable => r == Ok::<bool, String>(false),
            HealthProbe::Failed(d) => r matches Err(m) && m@ == "Health check failed: "@ + d@,
        },
{
    match probe {
        HealthProbe::Status(code) => Ok(200 <= code && code < 300),
        HealthProbe::Unreachable => Ok(false),
        HealthProbe::Failed(d) => {
            let mut v: Vec<char> = Vec::new();
            push_str(&mut v, "Health check failed: ");
            push_str(&mut v, d.as_str());
            Err(string_from_chars(&v))
        },
    }
}

/// Readiness polling goes on while less than `timeout_ms` passed.
pub fn keep_polling(elapsed_ms: u64, timeout_ms: u64) -> (b: bool)
    ensures
        b == (elapsed_ms < timeout_ms),
{
    elapsed_ms < timeout_ms
}

/// Which container step failed while spawning.
#[derive(Debug, Clone, Copy, PartialEq, Eq, Structural)]
pub enum SpawnStep {
    Create,
    Start,
}

/// The error of a failed spawn step for project `project_path`.
pub fn spawn_error(step: SpawnStep, project_path: &str, reason: &str) -> (r: String)
    ensures
        r@ == match step {
            SpawnStep::Create => "Failed to create container for project '"@,
            SpawnStep::Start => "Failed to start container for project '"@,
        } + project_path@ + "': "@ + reason@,
{
    let mut v: Vec<char> = Vec::new();
    match step {
        SpawnStep::Create => push_str(&mut v, "Failed to create container for project '"),
        SpawnStep::Start => push_str(&mut v, "Failed to start container for project '"),
    }
    push_str(&mut v, project_path);
    push_str(&mut v, "': ");
    push_str(&mut v, reason);
    string_from_chars(&v)
}

} // verus!
