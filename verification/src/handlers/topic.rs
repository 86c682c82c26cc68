//! Commands that act on the forum topic they are sent in: `/session`,
//! `/link`, `/close`, `/disconnect` and `/stream`.

use vstd::prelude::*;
use crate::error::OutpostError;
use crate::text::{owned, push_str, string_from_chars};

verus! {

/// A command that must be sent inside a forum topic.
#[derive(Debug, Clone, Copy, PartialEq, Eq, Structural)]
pub enum TopicCommand {
    Session,
    Link,
    Close,
    Disconnect,
    Stream,
}

/// Telegram's id of the General topic.
pub const GENERAL_TOPIC_ID: i32 = 1;

/// Why a command outside a topic is refused.
pub open spec fn outside_topic() -> Seq<char> {
    "This command must be used in a forum topic"@
}

/// Why each command is refused in the General topic.
pub open spec fn general_refusal(c: TopicCommand) -> Seq<char> {
    match c {
        TopicCommand::Session => "This command must be used in a forum topic"@,
        TopicCommand::Link => "Cannot link from General topic"@,
        TopicCommand::Close => "Cannot close the General topic"@,
        TopicCommand::Disconnect => "Cannot disconnect from General topic"@,
        TopicCommand::Stream => "Cannot use /stream in General topic"@,
    }
}

/// A Telegram error with message `m`.
pub open spec fn is_telegram_error(e: OutpostError, m: Seq<char>) -> bool {
    e matches OutpostError::TelegramError { message } && message@ == m
}

/// The topic a command was sent in, from the message's thread id; refused
/// outside a topic and in the General topic.
pub fn get_topic_id(thread_id: Option<i32>, command: TopicCommand) -> (r: Result<i32, OutpostError>)
    ensures
        match thread_id {
            None => r matches Err(e) && is_telegram_error(e, outside_topic()),
            Some(t) => if t == GENERAL_TOPIC_ID {
                r matches Err(e) && is_telegram_error(e, general_refusal(command))
            } else {
                r == Ok::<i32, OutpostError>(t)
            },
        },
{
    match thread_id {
        None => Err(OutpostError::telegram_error("This command must be used in a forum topic")),
        Some(t) => {
            if t == GENERAL_TOPIC_ID {
                let m = match command {
                    TopicCommand::Session => "This command must be used in a forum topic",
                    TopicCommand::Link => "Cannot link from General topic",
                    TopicCommand::Close => "Cannot close the General topic",
                    TopicCommand::Disconnect => "Cannot disconnect from General topic",
                    TopicCommand::Stream => "Cannot use /stream in General topic",
                };
                Err(OutpostError::telegram_error(m))
            } else {
                Ok(t)
            }
        },
    }
}

/// Whether a message with thread id `thread_id` is in the General topic:
/// it has no thread, or the General topic's.
pub fn is_general_topic(thread_id: Option<i32>) -> (b: bool)
    ensures
        b == (thread_id is None || thread_id == Some(GENERAL_TOPIC_ID)),
{
    match thread_id {
        None => true,
        Some(t) => t == GENERAL_TOPIC_ID,
    }
}

/// The error when a topic has no mapping.
pub fn no_connection_error() -> (e: OutpostError)
    ensures
        is_telegram_error(e, "No active connection in this topic"@),
{
    OutpostError::telegram_error("No active connection in this topic")
}

/// The answer to `/stream` after streaming was switched to `enabled`.
pub fn format_confirmation(enabled: bool) -> (r: String)
    ensures
        r@ == if enabled {
            "Streaming: ON\nYou will see real-time progress from OpenCode."@
        } else {
            "Streaming: OFF\nYou will only see final responses."@
        },
{
    if enabled {
        owned("Streaming: ON\nYou will see real-time progress from OpenCode.")
    } else {
        owned("Streaming: OFF\nYou will only see final responses.")
    }
}

/// The answer to `/disconnect`; the session is `unknown` when the topic had none.
pub fn disconnect_confirmation(session_id: Option<&str>) -> (r: String)
    ensures
        r@ == "Disconnected from session "@ + match session_id {
            Some(s) => s@,
            None => "unknown"@,
        } + ". This topic will be deleted."@,
{
    let mut v: Vec<char> = Vec::new();
    push_str(&mut v, "Disconnected from session ");
    match session_id {
        Some(s) => push_str(&mut v, s),
        None => push_str(&mut v, "unknown"),
    }
    push_str(&mut v, ". This topic will be deleted.");
    string_from_chars(&v)
}

/// The answer to `/link` once the topic points at `path`.
pub fn link_confirmation(path: &str) -> (r: String)
    ensures
        r@ == "Linked topic to "@ + path@,
{
    let mut v: Vec<char> = Vec::new();
    push_str(&mut v, "Linked topic to ");
    push_str(&mut v, path);
    string_from_chars(&v)
}

/// What is wrong with a path given to `/link`.
#[derive(Debug, Clone, Copy, PartialEq, Eq, Structural)]
pub enum PathProblem {
    NotFound,
    PermissionDenied,
    Inaccessible,
    NotADirectory,
}

/// The message for a path that `/link` cannot use.
pub open spec fn path_problem_message(p: PathProblem, path: Seq<char>) -> Seq<char> {
    match p {
        PathProblem::NotFound => "Path not found: "@ + path,
        PathProblem::PermissionDenied => "Permission denied: "@ + path,
        PathProblem::Inaccessible => "Cannot access path: "@ + path,
        PathProblem::NotADirectory => "Path is not a directory: "@ + path,
    }
}

/// The error for a path that `/link` cannot use; `path` is as the user gave it.
pub fn path_error(problem: PathProblem, path: &str) -> (e: OutpostError)
    ensures
        is_telegram_error(e, path_problem_message(problem, path@)),
{
    let mut v: Vec<char> = Vec::new();
    match problem {
        PathProblem::NotFound => push_str(&mut v, "Path not found: "),
        PathProblem::PermissionDenied => push_str(&mut v, "Permission denied: "),
        PathProblem::Inaccessible => push_str(&mut v, "Cannot access path: "),
        PathProblem::NotADirectory => push_str(&mut v, "Path is not a directory: "),
    }
    push_str(&mut v, path);
    OutpostError::TelegramError { message: string_from_chars(&v) }
}

/// The text `/close` asks to confirm.
pub fn close_prompt() -> (r: String)
    ensures
        r@ == "Are you sure you want to close this topic? This will stop the instance, remove the worktree, and delete this topic."@,
{
    owned("Are you sure you want to close this topic? This will stop the instance, remove the worktree, and delete this topic.")
}

} // verus!
