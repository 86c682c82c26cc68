//! Errors raised by the orchestrator, with the messages they display.

use vstd::prelude::*;
use crate::text::{decimal, int_decimal, owned, push_decimal, push_int_decimal, push_str, string_from_chars};

verus! {

/// An error of the orchestrator.
#[derive(Debug, Clone)]
pub enum OutpostError {
    InstanceNotFound { id: String },
    InstanceAlreadyExists { id: String },
    InstanceStartFailed { id: String, reason: String },
    InstanceStopFailed { id: String, reason: String },
    TopicMappingNotFound { topic_id: i32 },
    TopicMappingAlreadyExists { topic_id: i32 },
    OpenCodeApiError { message: String },
    OpenCodeConnectionError { url: String, reason: String },
    SessionNotFound { session_id: String },
    DatabaseError { message: String },
    ConfigError { message: String },
    PortAllocationError { start: u16, end: u16 },
    InvalidStateTransition { from: String, to: String },
    MaxInstancesReached { limit: usize },
    IoError { message: String },
    SerializationError { message: String },
    TelegramError { message: String },
}

/// Result type of the orchestrator's fallible operations.
pub type Result<T> = core::result::Result<T, OutpostError>;

/// The message an error displays.
pub open spec fn error_message(e: OutpostError) -> Seq<char> {
    match e {
        OutpostError::InstanceNotFound { id } => "Instance not found: "@ + id@,
        OutpostError::InstanceAlreadyExists { id } => "Instance already exists: "@ + id@,
        OutpostError::InstanceStartFailed { id, reason } =>
            "Instance failed to start: "@ + id@ + ", reason: "@ + reason@,
        OutpostError::InstanceStopFailed { id, reason } =>
            "Instance failed to stop: "@ + id@ + ", reason: "@ + reason@,
        OutpostError::TopicMappingNotFound { topic_id } =>
            "Topic mapping not found for topic_id: "@ + int_decimal(topic_id as int),
        OutpostError::TopicMappingAlreadyExists { topic_id } =>
            "Topic mapping already exists for topic_id: "@ + int_decimal(topic_id as int),
        OutpostError::OpenCodeApiError { message } => "OpenCode API error: "@ + message@,
        OutpostError::OpenCodeConnectionError { url, reason } =>
            "OpenCode connection error: "@ + url@ + ", reason: "@ + reason@,
        OutpostError::SessionNotFound { session_id } => "Session not found: "@ + session_id@,
        OutpostError::DatabaseError { message } => "Database error: "@ + message@,
        OutpostError::ConfigError { message } => "Configuration error: "@ + message@,
        OutpostError::PortAllocationError { start, end } =>
            "Port allocation error: no available ports in range "@ + decimal(start as nat) + "-"@
                + decimal(end as nat),
        OutpostError::InvalidStateTransition { from, to } =>
            "Invalid state transition: from "@ + from@ + " to "@ + to@,
        OutpostError::MaxInstancesReached { limit } =>
            "Maximum instances limit reached: "@ + decimal(limit as nat),
        OutpostError::IoError { message } => "IO error: "@ + message@,
        OutpostError::SerializationError { message } => "Serialization error: "@ + message@,
        OutpostError::TelegramError { message } => "Telegram API error: "@ + message@,
    }
}

/// Whether an error is caused by user input rather than a system failure.
pub open spec fn user_caused(e: OutpostError) -> bool {
    ||| e is TelegramError
    ||| e is ConfigError
    ||| e is TopicMappingNotFound
    ||| e is TopicMappingAlreadyExists
    ||| e is SessionNotFound
    ||| e is MaxInstancesReached
}

impl OutpostError {
    /// True when the error was caused by user input or action rather than a
    /// system failure; such errors are logged as warnings.
    pub fn is_user_error(&self) -> (b: bool)
        ensures
            b == user_caused(*self),
    {
        match self {
            OutpostError::TelegramError { .. } => true,
            OutpostError::ConfigError { .. } => true,
            OutpostError::TopicMappingNotFound { .. } => true,
            OutpostError::TopicMappingAlreadyExists { .. } => true,
            OutpostError::SessionNotFound { .. } => true,
            OutpostError::MaxInstancesReached { .. } => true,
            _ => false,
        }
    }

    pub fn instance_not_found(id: &str) -> (e: Self)
        ensures
            e matches OutpostError::InstanceNotFound { id: x } && x@ == id@,
    {
        OutpostError::InstanceNotFound { id: owned(id) }
    }

    pub fn instance_already_exists(id: &str) -> (e: Self)
        ensures
            e matches OutpostError::InstanceAlreadyExists { id: x } && x@ == id@,
    {
        OutpostError::InstanceAlreadyExists { id: owned(id) }
    }

    pub fn instance_start_failed(id: &str, reason: &str) -> (e: Self)
        ensures
            e matches OutpostError::InstanceStartFailed { id: x, reason: y } && x@ == id@ && y@
                == reason@,
    {
        OutpostError::InstanceStartFailed { id: owned(id), reason: owned(reason) }
    }

    pub fn instance_stop_failed(id: &str, reason: &str) -> (e: Self)
        ensures
            e matches OutpostError::InstanceStopFailed { id: x, reason: y } && x@ == id@ && y@
                == reason@,
    {
        OutpostError::InstanceStopFailed { id: owned(id), reason: owned(reason) }
    }

    pub fn topic_mapping_not_found(topic_id: i32) -> (e: Self)
        ensures
            e == (OutpostError::TopicMappingNotFound { topic_id }),
    {
        OutpostError::TopicMappingNotFound { topic_id }
    }

    pub fn topic_mapping_already_exists(topic_id: i32) -> (e: Self)
        ensures
            e == (OutpostError::TopicMappingAlreadyExists { topic_id }),
    {
        OutpostError::TopicMappingAlreadyExists { topic_id }
    }

    pub fn opencode_api_error(message: &str) -> (e: Self)
        ensures
            e matches OutpostError::OpenCodeApiError { message: m } && m@ == message@,
    {
        OutpostError::OpenCodeApiError { message: owned(message) }
    }

    pub fn opencode_connection_error(url: &str, reason: &str) -> (e: Self)
        ensures
            e matches OutpostError::OpenCodeConnectionError { url: x, reason: y } && x@ == url@
                && y@ == reason@,
    {
        OutpostError::OpenCodeConnectionError { url: owned(url), reason: owned(reason) }
    }

    pub fn session_not_found(session_id: &str) -> (e: Self)
        ensures
            e matches OutpostError::SessionNotFound { session_id: x } && x@ == session_id@,
    {
        OutpostError::SessionNotFound { session_id: owned(session_id) }
    }

    pub fn database_error(message: &str) -> (e: Self)
        ensures
            e matches OutpostError::DatabaseError { message: m } && m@ == message@,
    {
        OutpostError::DatabaseError { message: owned(message) }
    }

    pub fn config_error(message: &str) -> (e: Self)
        ensures
            e matches OutpostError::ConfigError { message: m } && m@ == message@,
    {
        OutpostError::ConfigError { message: owned(message) }
    }

    pub fn port_allocation_error(start: u16, end: u16) -> (e: Self)
        ensures
            e == (OutpostError::PortAllocationError { start, end }),
    {
        OutpostError::PortAllocationError { start, end }
    }

    pub fn invalid_state_transition(from: &str, to: &str) -> (e: Self)
        ensures
            e matches OutpostError::InvalidStateTransition { from: x, to: y } && x@ == from@ && y@
                == to@,
    {
        OutpostError::InvalidStateTransition { from: owned(from), to: owned(to) }
    }

    pub fn max_instances_reached(limit: usize) -> (e: Self)
        ensures
            e == (OutpostError::MaxInstancesReached { limit }),
    {
        OutpostError::MaxInstancesReached { limit }
    }

    pub fn io_error(message: &str) -> (e: Self)
        ensures
            e matches OutpostError::IoError { message: m } && m@ == message@,
    {
        OutpostError::IoError { message: owned(message) }
    }

    pub fn serialization_error(message: &str) -> (e: Self)
        ensures
            e matches OutpostError::SerializationError { message: m } && m@ == message@,
    {
        OutpostError::SerializationError { message: owned(message) }
    }

    pub fn telegram_error(message: &str) -> (e: Self)
        ensures
            e matches OutpostError::TelegramError { message: m } && m@ == message@,
    {
        OutpostError::TelegramError { message: owned(message) }
    }

    /// The message this error displays.
    pub fn to_string(&self) -> (s: String)
        ensures
            s@ == error_message(*self),
    {
        let mut v: Vec<char> = Vec::new();
        match self {
            OutpostError::InstanceNotFound { id } => {
                push_str(&mut v, "Instance not found: ");
                push_str(&mut v, id.as_str());
            },
            OutpostError::InstanceAlreadyExists { id } => {
                push_str(&mut v, "Instance already exists: ");
                push_str(&mut v, id.as_str());
            },
            OutpostError::InstanceStartFailed { id, reason } => {
                push_str(&mut v, "Instance failed to start: ");
                push_str(&mut v, id.as_str());
                push_str(&mut v, ", reason: ");
                push_str(&mut v, reason.as_str());
            },
            OutpostError::InstanceStopFailed { id, reason } => {
                push_str(&mut v, "Instance failed to stop: ");
                push_str(&mut v, id.as_str());
                push_str(&mut v, ", reason: ");
                push_str(&mut v, reason.as_str());
            },
            OutpostError::TopicMappingNotFound { topic_id } => {
                push_str(&mut v, "Topic mapping not found for topic_id: ");
                push_int_decimal(&mut v, *topic_id as i64);
            },
            OutpostError::TopicMappingAlreadyExists { topic_id } => {
                push_str(&mut v, "Topic mapping already exists for topic_id: ");
                push_int_decimal(&mut v, *topic_id as i64);
            },
            OutpostError::OpenCodeApiError { message } => {
                push_str(&mut v, "OpenCode API error: ");
                push_str(&mut v, message.as_str());
            },
            OutpostError::OpenCodeConnectionError { url, reason } => {
                push_str(&mut v, "OpenCode connection error: ");
                push_str(&mut v, url.as_str());
                push_str(&mut v, ", reason: ");
                push_str(&mut v, reason.as_str());
            },
            OutpostError::SessionNotFound { session_id } => {
                push_str(&mut v, "Session not found: ");
                push_str(&mut v, session_id.as_str());
            },
            OutpostError::DatabaseError { message } => {
                push_str(&mut v, "Database error: ");
                push_str(&mut v, message.as_str());
            },
            OutpostError::ConfigError { message } => {
                push_str(&mut v, "Configuration error: ");
                push_str(&mut v, message.as_str());
            },
            OutpostError::PortAllocationError { start, end } => {
                push_str(&mut v, "Port allocation error: no available ports in range ");
                push_decimal(&mut v, *start as u64);
                push_str(&mut v, "-");
                push_decimal(&mut v, *end as u64);
            },
            OutpostError::InvalidStateTransition { from, to } => {
                push_str(&mut v, "Invalid state transition: from ");
                push_str(&mut v, from.as_str());
                push_str(&mut v, " to ");
                push_str(&mut v, to.as_str());
            },
            OutpostError::MaxInstancesReached { limit } => {
                push_str(&mut v, "Maximum instances limit reached: ");
                push_decimal(&mut v, *limit as u64);
            },
            OutpostError::IoError { message } => {
                push_str(&mut v, "IO error: ");
                push_str(&mut v, message.as_str());
            },
            OutpostError::SerializationError { message } => {
                push_str(&mut v, "Serialization error: ");
                push_str(&mut v, message.as_str());
            },
            OutpostError::TelegramError { message } => {
                push_str(&mut v, "Telegram API error: ");
                push_str(&mut v, message.as_str());
            },
        }
        string_from_chars(&v)
    }
}

} // verus!
