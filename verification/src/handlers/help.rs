//! `/help`: the commands available where the command was sent.

use vstd::prelude::*;
use crate::text::owned;

verus! {

/// The help text for the General topic: every command.
pub open spec fn general_help() -> Seq<char> {
    "OpenCode Telegram Bot\n\nGeneral Commands:\n/new <name> - Create new project\n/sessions - List all sessions\n/connect <name> - Connect to session\n/status - Orchestrator status\n/clear - Clean stale mappings\n/help - This help\n\nIn a topic:\n/session - Show session info\n/link <path> - Link to directory\n/stream - Toggle streaming\n/disconnect - Disconnect session"@
}

/// The help text for a forum topic: the commands that apply there.
pub open spec fn topic_help() -> Seq<char> {
    "Topic Commands:\n\n/session - Show session info\n/link <path> - Link to directory\n/stream - Toggle streaming\n/disconnect - Disconnect session\n\nUse /help in General topic for all commands."@
}

/// The help text for the General topic.
pub fn format_general_help() -> (r: String)
    ensures
        r@ == general_help(),
{
    owned("OpenCode Telegram Bot\n\nGeneral Commands:\n/new <name> - Create new project\n/sessions - List all sessions\n/connect <name> - Connect to session\n/status - Orchestrator status\n/clear - Clean stale mappings\n/help - This help\n\nIn a topic:\n/session - Show session info\n/link <path> - Link to directory\n/stream - Toggle streaming\n/disconnect - Disconnect session")
}

/// The help text for a forum topic.
pub fn format_topic_help() -> (r: String)
    ensures
        r@ == topic_help(),
{
    owned("Topic Commands:\n\n/session - Show session info\n/link <path> - Link to directory\n/stream - Toggle streaming\n/disconnect - Disconnect session\n\nUse /help in General topic for all commands.")
}

/// `/help` answers with the topic help inside a forum topic (a message with
/// a thread), else with the general help.
pub fn help_text(in_topic: bool) -> (r: String)
    ensures
        r@ == if in_topic { topic_help() } else { general_help() },
{
    if in_topic {
        format_topic_help()
    } else {
        format_general_help()
    }
}

} // verus!
