//! `/connect {name}`: finding a running session by project name or instance
//! id, and refusing one already connected in another topic.

use vstd::prelude::*;
use crate::paths::{file_name, file_name_of};
use crate::text::{decimal, owned, push_decimal, push_str, str_eq, string_from_chars};
use crate::types::TopicMapping;

verus! {

/// The session `/connect` found.
#[derive(Debug, Clone)]
pub struct SessionInfo {
    pub session_id: String,
    pub instance_id: String,
    pub project_path: String,
    pub project_name: String,
}

/// The last component of a path, or nothing.
pub open spec fn name_of_path(path: Seq<char>) -> Seq<char> {
    match file_name(path) {
        Some(n) => n,
        None => Seq::empty(),
    }
}

/// The last component of a path, or the empty string.
pub fn path_name(path: &str) -> (r: String)
    ensures
        r@ == name_of_path(path@),
{
    match file_name_of(path) {
        Some(n) => n,
        None => String::new(),
    }
}

/// Whether a managed instance answers to `name`: by its project's name or by its id.
pub fn managed_matches(project_path: &str, instance_id: &str, name: &str) -> (b: bool)
    ensures
        b == (name_of_path(project_path@) == name@ || instance_id@ == name@),
{
    let n = path_name(project_path);
    str_eq(n.as_str(), name) || str_eq(instance_id, name)
}

/// Whether a discovered instance answers to `name`: by its directory's name.
pub fn discovered_matches(working_dir: &str, name: &str) -> (b: bool)
    ensures
        b == (name_of_path(working_dir@) == name@),
{
    let n = path_name(working_dir);
    str_eq(n.as_str(), name)
}

/// The id given to an instance found by process discovery.
pub fn discovered_instance_id(pid: u32) -> (r: String)
    ensures
        r@ == "discovered-"@ + decimal(pid as nat),
{
    let mut v: Vec<char> = Vec::new();
    push_str(&mut v, "discovered-");
    push_decimal(&mut v, pid as u64);
    string_from_chars(&v)
}

/// Whether a mapping holds session `s`.
pub open spec fn holds_session(m: TopicMapping, s: Seq<char>) -> bool {
    m.session_id matches Some(x) && x@ == s
}

/// Whether one of the chat's mappings already holds session `session_id`.
pub fn already_connected(mappings: &Vec<TopicMapping>, session_id: &str) -> (b: bool)
    ensures
        b == exists|i: int| 0 <= i < mappings@.len() && holds_session(#[trigger] mappings@[i], session_id@),
{
    let mut i: usize = 0;
    while i < mappings.len()
        invariant
            i <= mappings.len(),
            forall|j: int| 0 <= j < i ==> !holds_session(#[trigger] mappings@[j], session_id@),
        decreases mappings.len() - i,
    {
        match &mappings[i].session_id {
            Some(s) => {
                if str_eq(s.as_str(), session_id) {
                    assert(holds_session(mappings@[i as int], session_id@));
                    return true;
                }
            },
            None => {},
        }
        i += 1;
    }
    false
}

/// The answer when no session answers to the name.
pub fn session_not_found_reply(name: &str) -> (r: String)
    ensures
        r@ == "Session not found: "@ + name@,
{
    let mut v: Vec<char> = Vec::new();
    push_str(&mut v, "Session not found: ");
    push_str(&mut v, name);
    string_from_chars(&v)
}

/// The answer when the session is already connected elsewhere.
pub fn already_connected_reply() -> (r: String)
    ensures
        r@ == "Already connected to this session in another topic"@,
{
    owned("Already connected to this session in another topic")
}

/// The answer once the topic is connected.
pub fn connect_confirmation(session_id: &str, project_name: &str) -> (r: String)
    ensures
        r@ == "Connected to session "@ + session_id@ + " in project "@ + project_name@,
{
    let mut v: Vec<char> = Vec::new();
    push_str(&mut v, "Connected to session ");
    push_str(&mut v, session_id);
    push_str(&mut v, " in project ");
    push_str(&mut v, project_name);
    string_from_chars(&v)
}

} // verus!
