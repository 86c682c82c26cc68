//! Setting a project up for a topic: `/new` and the project chosen from the
//! selection keyboard. Each step's outcome decides the next; this module holds
//! the checks, texts and records of those steps.

use vstd::prelude::*;
use crate::error::OutpostError;
use crate::handlers::topic::{is_general_topic, is_telegram_error, GENERAL_TOPIC_ID};
use crate::paths::{join, join_path};
use crate::text::{chars_of, decimal, owned, push_decimal, push_str, string_from_chars};
use crate::types::TopicMapping;
use crate::worktree::{is_alphanumeric, unicode_alphanumeric};

verus! {

/// Longest project name, in characters.
pub const MAX_PROJECT_NAME_LEN: usize = 50;

/// A character allowed in a project name.
pub open spec fn name_char_ok(c: char) -> bool {
    unicode_alphanumeric(c) || c == '-' || c == '_'
}

/// What is wrong with a project name, if anything.
pub open spec fn name_problem(name: Seq<char>) -> Option<Seq<char>> {
    if name.len() == 0 {
        Some("Project name cannot be empty"@)
    } else if name.len() > MAX_PROJECT_NAME_LEN {
        Some("Project name must be 50 characters or less"@)
    } else if exists|k: int| 0 <= k < name.len() && !name_char_ok(#[trigger] name[k]) {
        Some("Project name must contain only alphanumeric characters, dashes, and underscores"@)
    } else {
        None
    }
}

/// A configuration error with message `m`.
pub open spec fn is_config_error(e: OutpostError, m: Seq<char>) -> bool {
    e matches OutpostError::ConfigError { message } && message@ == m
}

/// Checks a project name: not empty, at most 50 characters, only alphanumeric
/// characters, `-` and `_`.
pub fn validate_project_name(name: &str) -> (r: Result<(), OutpostError>)
    ensures
        match name_problem(name@) {
            None => r is Ok,
            Some(m) => r matches Err(e) && is_config_error(e, m),
        },
{
    let v = chars_of(name);
    if v.len() == 0 {
        return Err(OutpostError::config_error("Project name cannot be empty"));
    }
    if v.len() > MAX_PROJECT_NAME_LEN {
        return Err(OutpostError::config_error("Project name must be 50 characters or less"));
    }
    let mut i: usize = 0;
    while i < v.len()
        invariant
            i <= v.len(),
            v@ == name@,
            forall|k: int| 0 <= k < i ==> name_char_ok(#[trigger] v@[k]),
            v@.len() > 0,
            v@.len() <= MAX_PROJECT_NAME_LEN,
        decreases v.len() - i,
    {
        let c = v[i];
        if !(is_alphanumeric(c) || c == '-' || c == '_') {
            assert(!name_char_ok(v@[i as int]));
            return Err(OutpostError::config_error(
                "Project name must contain only alphanumeric characters, dashes, and underscores",
            ));
        }
        i += 1;
    }
    Ok(())
}

/// How `/new` starts.
#[derive(Debug, Clone)]
pub enum NewStart {
    /// Answer with this text and stop.
    Refuse { reply: String },
    /// Go on with the project directory `project_path`.
    Proceed { project_path: String },
}

/// The refusal to create a project in the General topic.
pub open spec fn general_refusal_text() -> Seq<char> {
    "Cannot create projects in General topic. Please create a forum topic first."@
}

/// `/new {name}` sent with thread id `thread_id`: the name is checked, the
/// General topic refused unless it is handled, and the project directory is
/// `{base}/{name}`.
pub fn plan_new(name: &str, thread_id: Option<i32>, handle_general_topic: bool, base_path: &str) -> (r: Result<NewStart, OutpostError>)
    ensures
        match name_problem(name@) {
            Some(m) => r matches Err(e) && is_config_error(e, m),
            None => if (thread_id is None || thread_id == Some(GENERAL_TOPIC_ID)) && !handle_general_topic {
                r matches Ok(NewStart::Refuse { reply }) && reply@ == general_refusal_text()
            } else {
                r matches Ok(NewStart::Proceed { project_path }) && project_path@ == join(base_path@, name@)
            },
        },
{
    validate_project_name(name)?;
    if is_general_topic(thread_id) && !handle_general_topic {
        return Ok(NewStart::Refuse {
            reply: owned("Cannot create projects in General topic. Please create a forum topic first."),
        });
    }
    let p = join_path(&chars_of(base_path), &chars_of(name));
    Ok(NewStart::Proceed { project_path: string_from_chars(&p) })
}

/// The answer when the project directory does not exist.
pub fn missing_directory_message(name: &str, base_path: &str) -> (r: String)
    ensures
        r@ == "Directory '"@ + name@ + "' not found under "@ + base_path@
            + ". Use /projects to see available directories."@,
{
    let mut v: Vec<char> = Vec::new();
    push_str(&mut v, "Directory '");
    push_str(&mut v, name);
    push_str(&mut v, "' not found under ");
    push_str(&mut v, base_path);
    push_str(&mut v, ". Use /projects to see available directories.");
    string_from_chars(&v)
}

/// The answer of a project selection whose directory does not exist.
pub fn selection_missing_directory_message(name: &str) -> (r: String)
    ensures
        r@ == "Directory '"@ + name@ + "' not found."@,
{
    let mut v: Vec<char> = Vec::new();
    push_str(&mut v, "Directory '");
    push_str(&mut v, name);
    push_str(&mut v, "' not found.");
    string_from_chars(&v)
}

/// The note sent when the project is not a git repository and is mounted directly.
pub fn not_git_note(name: &str) -> (r: String)
    ensures
        r@ == "⚠️ Note: '"@ + name@ + "' is not a git repository. Mounting directly without worktree isolation."@,
{
    let mut v: Vec<char> = Vec::new();
    push_str(&mut v, "⚠️ Note: '");
    push_str(&mut v, name);
    push_str(&mut v, "' is not a git repository. Mounting directly without worktree isolation.");
    string_from_chars(&v)
}

/// `{prefix}{detail}`.
pub fn with_detail(prefix: &str, detail: &str) -> (r: String)
    ensures
        r@ == prefix@ + detail@,
{
    let mut v = chars_of(prefix);
    push_str(&mut v, detail);
    string_from_chars(&v)
}

/// The confirmation sent to a topic created by `/new`.
pub open spec fn new_confirmation_text(name: Seq<char>, path: Seq<char>, branch: Option<Seq<char>>, instance_id: Seq<char>, port: u16) -> Seq<char> {
    "🚀 Project '"@ + name + "' created!\n\n📁 Path: "@ + path + match branch {
        Some(b) => "\n🌿 Worktree branch: "@ + b,
        None => Seq::empty(),
    } + "\n🆔 Instance: "@ + instance_id + "\n🔌 Port: "@ + decimal(port as nat)
        + "\n\nSend a message here to start your OpenCode session."@
}

/// The confirmation sent to a topic created by `/new`.
pub fn new_confirmation(name: &str, path: &str, branch: Option<&str>, instance_id: &str, port: u16) -> (r: String)
    ensures
        r@ == new_confirmation_text(name@, path@, match branch {
            Some(b) => Some(b@),
            None => None,
        }, instance_id@, port),
{
    let mut v: Vec<char> = Vec::new();
    push_str(&mut v, "🚀 Project '");
    push_str(&mut v, name);
    push_str(&mut v, "' created!\n\n📁 Path: ");
    push_str(&mut v, path);
    match branch {
        Some(b) => {
            push_str(&mut v, "\n🌿 Worktree branch: ");
            push_str(&mut v, b);
        },
        None => {
            assert(v@ + Seq::<char>::empty() =~= v@);
        },
    }
    push_str(&mut v, "\n🆔 Instance: ");
    push_str(&mut v, instance_id);
    push_str(&mut v, "\n🔌 Port: ");
    push_decimal(&mut v, port as u64);
    push_str(&mut v, "\n\nSend a message here to start your OpenCode session.");
    string_from_chars(&v)
}

/// The confirmation sent when a project is chosen for a topic.
pub open spec fn selection_confirmation_text(name: Seq<char>, path: Seq<char>, branch: Option<Seq<char>>, instance_id: Seq<char>, port: u16) -> Seq<char> {
    "Project '"@ + name + "' linked to this topic!\n\nPath: "@ + path + match branch {
        Some(b) => "\nWorktree branch: "@ + b,
        None => Seq::empty(),
    } + "\nInstance: "@ + instance_id + "\nPort: "@ + decimal(port as nat)
        + "\n\nSend a message here to start your OpenCode session."@
}

/// The confirmation sent when a project is chosen for a topic.
pub fn selection_confirmation(name: &str, path: &str, branch: Option<&str>, instance_id: &str, port: u16) -> (r: String)
    ensures
        r@ == selection_confirmation_text(name@, path@, match branch {
            Some(b) => Some(b@),
            None => None,
        }, instance_id@, port),
{
    let mut v: Vec<char> = Vec::new();
    push_str(&mut v, "Project '");
    push_str(&mut v, name);
    push_str(&mut v, "' linked to this topic!\n\nPath: ");
    push_str(&mut v, path);
    match branch {
        Some(b) => {
            push_str(&mut v, "\nWorktree branch: ");
            push_str(&mut v, b);
        },
        None => {
            assert(v@ + Seq::<char>::empty() =~= v@);
        },
    }
    push_str(&mut v, "\nInstance: ");
    push_str(&mut v, instance_id);
    push_str(&mut v, "\nPort: ");
    push_decimal(&mut v, port as u64);
    push_str(&mut v, "\n\nSend a message here to start your OpenCode session.");
    string_from_chars(&v)
}

/// The mapping recorded for a topic set up at time `now` with instance
/// `instance_id`; its session is set once OpenCode starts one.
pub fn new_topic_mapping(topic_id: i32, chat_id: i64, project_path: &str, instance_id: &str, now: i64) -> (m: TopicMapping)
    ensures
        m.topic_id == topic_id,
        m.chat_id == chat_id,
        m.project_path@ == project_path@,
        m.session_id is None,
        m.instance_id matches Some(i) && i@ == instance_id@,
        !m.topic_name_updated,
        m.created_at == now,
        m.updated_at == now,
{
    TopicMapping {
        topic_id,
        chat_id,
        project_path: owned(project_path),
        session_id: None,
        instance_id: Some(owned(instance_id)),
        topic_name_updated: false,
        created_at: now,
        updated_at: now,
    }
}

} // verus!
