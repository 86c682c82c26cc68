//! `/sessions`: the running instances, ten per page.

use vstd::prelude::*;
use crate::paths::{file_name, file_name_of};
use crate::text::{decimal, owned, push_decimal, push_str, string_from_chars};
use crate::types::{InstanceInfo, InstanceState};

verus! {

/// Sessions shown in one answer.
pub const MAX_SESSIONS_PER_PAGE: usize = 10;

/// A running instance as `/sessions` lists it.
#[derive(Debug, Clone)]
pub struct SessionInfo {
    pub name: String,
    pub path: String,
    pub session_id: String,
    pub port: u16,
}

/// The block of one session.
pub open spec fn session_block(s: SessionInfo) -> Seq<char> {
    s.name@ + "\n"@ + s.path@ + "\n"@ + s.session_id@ + "\nPort: "@ + decimal(s.port as nat) + "\n\n"@
}

/// The blocks of the first `n` sessions.
pub open spec fn session_blocks(s: Seq<SessionInfo>, n: int) -> Seq<char>
    decreases n,
{
    if n <= 0 || s.len() == 0 {
        Seq::empty()
    } else if n > s.len() {
        session_blocks(s, s.len() as int)
    } else {
        session_blocks(s, n - 1) + session_block(s[n - 1])
    }
}

/// The `/sessions` answer.
pub open spec fn sessions_text(s: Seq<SessionInfo>) -> Seq<char> {
    if s.len() == 0 {
        "No active sessions found."@
    } else {
        let shown = if s.len() > MAX_SESSIONS_PER_PAGE { MAX_SESSIONS_PER_PAGE as int } else { s.len() as int };
        "Active Sessions ("@ + decimal(s.len()) + ")\n\n"@ + session_blocks(s, shown) + if s.len() > MAX_SESSIONS_PER_PAGE {
            "... and "@ + decimal((s.len() - MAX_SESSIONS_PER_PAGE) as nat) + " more\n"@
        } else {
            Seq::empty()
        }
    }
}

/// Lists the sessions: at most [`MAX_SESSIONS_PER_PAGE`], then how many more there are.
pub fn format_sessions(sessions: &[SessionInfo]) -> (r: String)
    ensures
        r@ == sessions_text(sessions@),
{
    if sessions.len() == 0 {
        return owned("No active sessions found.");
    }
    let mut v: Vec<char> = Vec::new();
    push_str(&mut v, "Active Sessions (");
    push_decimal(&mut v, sessions.len() as u64);
    push_str(&mut v, ")\n\n");
    let ghost head = v@;
    let shown: usize = if sessions.len() > MAX_SESSIONS_PER_PAGE { MAX_SESSIONS_PER_PAGE } else { sessions.len() };
    let mut i: usize = 0;
    while i < shown
        invariant
            shown <= sessions.len(),
            i <= shown,
            v@ == head + session_blocks(sessions@, i as int),
        decreases shown - i,
    {
        let s = &sessions[i];
        push_str(&mut v, s.name.as_str());
        push_str(&mut v, "\n");
        push_str(&mut v, s.path.as_str());
        push_str(&mut v, "\n");
        push_str(&mut v, s.session_id.as_str());
        push_str(&mut v, "\nPort: ");
        push_decimal(&mut v, s.port as u64);
        push_str(&mut v, "\n\n");
        i += 1;
        assert(v@ =~= head + session_blocks(sessions@, i as int));
    }
    if sessions.len() > MAX_SESSIONS_PER_PAGE {
        push_str(&mut v, "... and ");
        push_decimal(&mut v, (sessions.len() - MAX_SESSIONS_PER_PAGE) as u64);
        push_str(&mut v, " more\n");
    } else {
        assert(v@ =~= v@ + Seq::<char>::empty());
    }
    string_from_chars(&v)
}

/// The last component of `path`, or `unknown` when it has none.
pub fn extract_project_name(path: &str) -> (r: String)
    ensures
        r@ == match file_name(path@) {
            Some(n) => n,
            None => "unknown"@,
        },
{
    match file_name_of(path) {
        Some(n) => n,
        None => owned("unknown"),
    }
}

/// Whether an instance counts as an active session.
pub open spec fn is_active(s: InstanceState) -> bool {
    s == InstanceState::Running || s == InstanceState::Starting
}

/// The sessions of the running and starting instances, in order.
pub open spec fn active_instances(insts: Seq<InstanceInfo>) -> Seq<InstanceInfo>
    decreases insts.len(),
{
    if insts.len() == 0 {
        Seq::empty()
    } else {
        let rest = active_instances(insts.drop_last());
        if is_active(insts.last().state) { rest.push(insts.last()) } else { rest }
    }
}

/// The session of an instance.
pub open spec fn session_of(i: InstanceInfo, s: SessionInfo) -> bool {
    &&& s.name@ == match file_name(i.project_path@) {
        Some(n) => n,
        None => "unknown"@,
    }
    &&& s.path@ == i.project_path@
    &&& s.session_id@ == i.id@
    &&& s.port == i.port
}

/// The active sessions among the recorded instances.
pub fn sessions_from_instances(instances: &Vec<InstanceInfo>) -> (r: Vec<SessionInfo>)
    ensures
        r@.len() == active_instances(instances@).len(),
        forall|k: int| 0 <= k < r@.len() ==> session_of(active_instances(instances@)[k], #[trigger] r@[k]),
{
    let mut r: Vec<SessionInfo> = Vec::new();
    let mut i: usize = 0;
    while i < instances.len()
        invariant
            i <= instances.len(),
            r@.len() == active_instances(instances@.take(i as int)).len(),
            forall|k: int| 0 <= k < r@.len() ==> session_of(active_instances(instances@.take(i as int))[k], #[trigger] r@[k]),
        decreases instances.len() - i,
    {
        assert(instances@.take(i + 1).drop_last() =~= instances@.take(i as int));
        let info = &instances[i];
        let active = match info.state {
            InstanceState::Running | InstanceState::Starting => true,
            _ => false,
        };
        if active {
            let s = SessionInfo {
                name: extract_project_name(info.project_path.as_str()),
                path: info.project_path.clone(),
                session_id: info.id.clone(),
                port: info.port,
            };
            r.push(s);
        }
        i += 1;
    }
    assert(instances@.take(i as int) =~= instances@);
    r
}

} // verus!
