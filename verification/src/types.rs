//! Plain data shared across the orchestrator: instances, topic mappings and
//! the OpenCode message model.

use vstd::prelude::*;
use crate::paths::{file_name, file_name_of};
use crate::text::{owned, push_str, string_from_chars};

verus! {

/// Lifecycle state of an OpenCode instance.
#[derive(Clone, Copy, Debug, PartialEq, Eq, Structural)]
pub enum InstanceState {
    Starting,
    Running,
    Stopping,
    Stopped,
    Error,
}

/// How to start an instance.
#[derive(Clone, Debug)]
pub struct InstanceConfig {
    pub id: String,
    pub project_path: String,
    pub port: u16,
    pub auto_start: bool,
    pub opencode_path: String,
}

/// What is recorded of an instance.
#[derive(Clone, Debug)]
pub struct InstanceInfo {
    pub id: String,
    pub state: InstanceState,
    pub project_path: String,
    pub port: u16,
    pub pid: Option<u32>,
    pub container_id: Option<String>,
    pub started_at: Option<i64>,
    pub stopped_at: Option<i64>,
    pub topic_id: i32,
}

/// The link between a forum topic and a project, session and instance.
#[derive(Clone, Debug)]
pub struct TopicMapping {
    pub topic_id: i32,
    pub chat_id: i64,
    pub project_path: String,
    pub session_id: Option<String>,
    pub instance_id: Option<String>,
    pub topic_name_updated: bool,
    pub created_at: i64,
    pub updated_at: i64,
}

/// An OpenCode session as the server lists it.
#[derive(Clone, Debug)]
pub struct SessionInfo {
    pub id: String,
    pub title: Option<String>,
    pub created: i64,
    pub updated: i64,
}

/// A file attached to a message.
#[derive(Clone, Debug)]
pub struct FilePart {
    pub part_type: String,
    pub mime: String,
    pub url: String,
    pub filename: Option<String>,
}

/// One part of a message.
#[derive(Clone, Debug)]
pub enum MessagePart {
    Text { text: String },
    File(FilePart),
}

/// A message with its role (`user`, `assistant`).
#[derive(Clone, Debug)]
pub struct Message {
    pub role: String,
    pub content: Vec<MessagePart>,
}

/// A request to add a message to a session.
#[derive(Clone, Debug)]
pub struct CreateMessageRequest {
    pub message: Message,
    pub stream: Option<bool>,
}

/// The command that starts OpenCode when the configuration names none.
pub fn default_opencode_path() -> (r: String)
    ensures
        r@ == "opencode"@,
{
    owned("opencode")
}

impl FilePart {
    /// A `file` part for the file at `file_path`: its URL is `file://` and the
    /// path, its file name the last component of the path, if it has one.
    pub fn new(mime: &str, file_path: &str) -> (r: Self)
        ensures
            r.part_type@ == "file"@,
            r.mime@ == mime@,
            r.url@ == "file://"@ + file_path@,
            match r.filename {
                Some(n) => file_name(file_path@) == Some(n@),
                None => file_name(file_path@) is None,
            },
    {
        let mut u: Vec<char> = Vec::new();
        push_str(&mut u, "file://");
        push_str(&mut u, file_path);
        FilePart {
            part_type: owned("file"),
            mime: owned(mime),
            url: string_from_chars(&u),
            filename: file_name_of(file_path),
        }
    }
}

} // verus!
