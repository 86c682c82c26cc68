//! The bridge between forum topics and OpenCode sessions: where an incoming
//! message goes, which port serves it, how streamed events become Telegram
//! messages, and the rate at which text is sent.

use vstd::prelude::*;
use crate::error::OutpostError;
use crate::handlers::callbacks::{
    button_view, keyboard_view, project_callback, route_of, rows_view, CallbackRoute, InlineKeyboard, KeyboardButton,
};
use crate::handlers::projects::join_lines;
use crate::handlers::topic::is_telegram_error;
use crate::container::strings_view;
use crate::paths::{file_name, file_name_of};
use crate::stream::StreamEvent;
use crate::text::{
    byte_len, chars_of, decimal, int_decimal, owned, push_chars, push_decimal, push_int_decimal, push_str,
    string_from_chars, char_width, char_width_exec,
};
use crate::types::{InstanceState, TopicMapping};

verus! {

/// Pending text is sent at most this often, in milliseconds.
pub const TELEGRAM_BATCH_INTERVAL_MS: u64 = 2000;

/// Longest Telegram message, in bytes.
pub const TELEGRAM_MAX_MESSAGE_LENGTH: usize = 4096;

/// How long waking a stopped session may take, in seconds.
pub const RESURRECTION_TIMEOUT_SECS: u64 = 30;

/// After this many seconds of waking, the topic is told that it takes a while.
pub const RESURRECTION_WAKE_DELAY_SECS: u64 = 3;

/// Longest tool result shown, in bytes.
pub const MAX_TOOL_RESULT_LEN: usize = 500;

/// What an incoming message carries.
#[derive(Debug, Clone, Copy)]
pub struct MessageFacts {
    /// It comes from the configured chat.
    pub whitelisted: bool,
    /// The forum thread it was sent in.
    pub thread_id: Option<i32>,
    /// It has text.
    pub has_text: bool,
    /// It has a caption.
    pub has_caption: bool,
    /// It has a photo.
    pub has_photo: bool,
    /// It announces a new forum topic.
    pub topic_created: bool,
}

/// What happens to an incoming message.
#[derive(Debug, Clone)]
pub enum MessageRoute {
    /// Nothing: the chat is not handled, or the message carries nothing to forward.
    Ignore,
    /// The topic has no project yet: offer the project selection.
    OfferProjects { topic_id: i32 },
    /// Forward the text (or caption) and photo to session `session_id` of topic `topic_id`.
    Forward { topic_id: i32, session_id: String },
}

/// The first step: whether the message is handled and which topic it is in.
pub fn message_topic(facts: MessageFacts) -> (r: Result<Option<i32>, OutpostError>)
    ensures
        !facts.whitelisted ==> r == Ok::<Option<i32>, OutpostError>(None),
        facts.whitelisted ==> match facts.thread_id {
            None => r matches Err(e) && is_telegram_error(e, "Message is not in a forum topic (no thread_id)"@),
            Some(t) => r == Ok::<Option<i32>, OutpostError>(Some(t)),
        },
{
    if !facts.whitelisted {
        return Ok(None);
    }
    match facts.thread_id {
        None => Err(OutpostError::telegram_error("Message is not in a forum topic (no thread_id)")),
        Some(t) => Ok(Some(t)),
    }
}

/// The error for a mapped topic that has no session yet.
pub open spec fn no_session_message(topic_id: i32, project: Seq<char>) -> Seq<char> {
    "No session for topic "@ + int_decimal(topic_id as int) + " (project: "@ + project + ")"@
}

/// The second step, once the topic's mapping is looked up: an unmapped topic
/// is offered the projects when the message has text, a photo or announces
/// the topic; a mapped one forwards text (or caption) and photos to its
/// session, and fails when it has no session.
pub fn route_message(facts: MessageFacts, topic_id: i32, mapping: Option<&TopicMapping>) -> (r: Result<MessageRoute, OutpostError>)
    ensures
        match mapping {
            None => if facts.has_text || facts.has_photo || facts.topic_created {
                r matches Ok(MessageRoute::OfferProjects { topic_id: t }) && t == topic_id
            } else {
                r matches Ok(MessageRoute::Ignore)
            },
            Some(m) => if !(facts.has_text || facts.has_caption) && !facts.has_photo {
                r matches Ok(MessageRoute::Ignore)
            } else {
                match m.session_id {
                    None => r matches Err(e) && e matches OutpostError::SessionNotFound { session_id }
                        && session_id@ == no_session_message(topic_id, m.project_path@),
                    Some(s) => r matches Ok(MessageRoute::Forward { topic_id: t, session_id }) && t == topic_id
                        && session_id@ == s@,
                }
            },
        },
{
    match mapping {
        None => {
            if facts.has_text || facts.has_photo || facts.topic_created {
                Ok(MessageRoute::OfferProjects { topic_id })
            } else {
                Ok(MessageRoute::Ignore)
            }
        },
        Some(m) => {
            if !(facts.has_text || facts.has_caption) && !facts.has_photo {
                return Ok(MessageRoute::Ignore);
            }
            match &m.session_id {
                None => {
                    let mut v: Vec<char> = Vec::new();
                    push_str(&mut v, "No session for topic ");
                    push_int_decimal(&mut v, topic_id as i64);
                    push_str(&mut v, " (project: ");
                    push_str(&mut v, m.project_path.as_str());
                    push_str(&mut v, ")");
                    Err(OutpostError::SessionNotFound { session_id: string_from_chars(&v) })
                },
                Some(s) => Ok(MessageRoute::Forward { topic_id, session_id: s.clone() }),
            }
        },
    }
}

/// Which port serves a topic: the managed instance of its project when it is
/// running or starting, else its recorded instance when that is running;
/// `None` when the instance must be woken up.
pub fn choose_port(managed: Option<(InstanceState, u16)>, recorded: Option<(InstanceState, u16)>) -> (r: Option<u16>)
    ensures
        r == match managed {
            Some((s, p)) if s == InstanceState::Running || s == InstanceState::Starting => Some(p),
            _ => match recorded {
                Some((s, p)) if s == InstanceState::Running => Some(p),
                _ => None,
            },
        },
{
    match managed {
        Some((InstanceState::Running, p)) | Some((InstanceState::Starting, p)) => return Some(p),
        _ => {},
    }
    match recorded {
        Some((InstanceState::Running, p)) => Some(p),
        _ => None,
    }
}

/// The error when waking a session failed with `reason`.
pub fn wake_failed_error(reason: &str) -> (e: OutpostError)
    ensures
        e matches OutpostError::OpenCodeApiError { message } && message@ == "Failed to wake up session: "@ + reason@,
{
    let mut v: Vec<char> = Vec::new();
    push_str(&mut v, "Failed to wake up session: ");
    push_str(&mut v, reason);
    OutpostError::OpenCodeApiError { message: string_from_chars(&v) }
}

/// The error when waking a session took too long.
pub fn wake_timeout_error() -> (e: OutpostError)
    ensures
        e matches OutpostError::OpenCodeApiError { message } && message@ == "Session wake-up timed out (30s)"@,
{
    OutpostError::opencode_api_error("Session wake-up timed out (30s)")
}

/// What the topic is offered to choose a project from.
#[derive(Debug, Clone)]
pub enum ProjectOffer {
    /// No project can be offered; this text says why.
    Nothing { text: String },
    /// This text, with a keyboard of one button per project.
    Keyboard { text: String, keyboard: InlineKeyboard },
}

/// The callback data of a project button.
pub open spec fn project_button_data(topic_id: i32, name: Seq<char>) -> Seq<char> {
    "proj:"@ + int_decimal(topic_id as int) + ":"@ + name
}

/// The projects whose button data fits Telegram's 64 bytes, each as (label, data).
pub open spec fn offered_buttons(dirs: Seq<Seq<char>>, topic_id: i32) -> Seq<(Seq<char>, Seq<char>)>
    decreases dirs.len(),
{
    if dirs.len() == 0 {
        Seq::empty()
    } else {
        let rest = offered_buttons(dirs.drop_last(), topic_id);
        let name = dirs.last();
        if 5 + int_decimal(topic_id as int).len() + 1 + byte_len(name) > 64 {
            rest
        } else {
            rest.push((name, project_button_data(topic_id, name)))
        }
    }
}

/// The project selection for topic `topic_id` among the directories `dirs`:
/// a project whose callback data would pass 64 bytes is left out.
pub fn project_offer(dirs: &Vec<String>, topic_id: i32) -> (r: ProjectOffer)
    ensures
        strings_view(dirs@).len() == 0 ==> (r matches ProjectOffer::Nothing { text }
            && text@ == "No projects available. Add project directories to get started."@),
        strings_view(dirs@).len() > 0 && offered_buttons(strings_view(dirs@), topic_id).len() == 0 ==> (r matches ProjectOffer::Nothing { text }
            && text@ == "No projects available with compatible names."@),
        offered_buttons(strings_view(dirs@), topic_id).len() > 0 ==> (r matches ProjectOffer::Keyboard { text, keyboard }
            && text@ == "Select a project for this topic:"@
            && keyboard_view(keyboard) == offered_buttons(strings_view(dirs@), topic_id).map_values(
            |b: (Seq<char>, Seq<char>)| seq![b],
        )),
{
    if dirs.len() == 0 {
        return ProjectOffer::Nothing { text: owned("No projects available. Add project directories to get started.") };
    }
    let mut t: Vec<char> = Vec::new();
    push_int_decimal(&mut t, topic_id as i64);
    let tlen = t.len();
    proof {
        lemma_int_decimal_short(topic_id as int);
    }
    let mut rows: Vec<Vec<KeyboardButton>> = Vec::new();
    let mut i: usize = 0;
    while i < dirs.len()
        invariant
            i <= dirs.len(),
            t@ == int_decimal(topic_id as int),
            tlen == t@.len(),
            tlen <= 11,
            rows_view(rows@) == offered_buttons(strings_view(dirs@).take(i as int), topic_id).map_values(
                |b: (Seq<char>, Seq<char>)| seq![b],
            ),
        decreases dirs.len() - i,
    {
        let ghost sv = strings_view(dirs@);
        assert(sv.take(i + 1).drop_last() =~= sv.take(i as int));
        assert(sv.take(i + 1).last() == dirs@[i as int]@);
        let name = chars_of(dirs[i].as_str());
        let too_long = crate::text::byte_len_exceeds(&name, 64 - 6 - tlen);
        let ghost before = rows@;
        if !too_long {
            let mut data: Vec<char> = Vec::new();
            push_str(&mut data, "proj:");
            push_chars(&mut data, &t);
            push_str(&mut data, ":");
            push_chars(&mut data, &name);
            let b = KeyboardButton { text: dirs[i].clone(), callback_data: string_from_chars(&data) };
            let ghost bv = button_view(b);
            let ghost bb = b;
            let row = vec![b];
            assert(row@ =~= seq![bb]);
            assert(row@.map_values(|x: KeyboardButton| button_view(x)) =~= seq![bv]);
            rows.push(row);
            proof {
                let nm = dirs@[i as int]@;
                assert(bv == (nm, project_button_data(topic_id, nm)));
                assert(rows_view(rows@) =~= rows_view(before).push(seq![bv]));
                let prev = offered_buttons(sv.take(i as int), topic_id);
                assert(offered_buttons(sv.take(i + 1), topic_id) == prev.push((nm, project_button_data(topic_id, nm))));
                assert(prev.push(bv).map_values(|x: (Seq<char>, Seq<char>)| seq![x]) =~= prev.map_values(
                    |x: (Seq<char>, Seq<char>)| seq![x],
                ).push(seq![bv]));
            }
        } else {
            proof {
                assert(rows@ == before);
                assert(offered_buttons(sv.take(i + 1), topic_id) == offered_buttons(sv.take(i as int), topic_id));
            }
        }
        i += 1;
    }
    assert(strings_view(dirs@).take(i as int) =~= strings_view(dirs@));
    if rows.len() == 0 {
        return ProjectOffer::Nothing { text: owned("No projects available with compatible names.") };
    }
    ProjectOffer::Keyboard { text: owned("Select a project for this topic:"), keyboard: InlineKeyboard { inline_keyboard: rows } }
}

proof fn lemma_int_decimal_short(i: int)
    requires
        i32::MIN <= i <= i32::MAX,
    ensures
        int_decimal(i).len() <= 11,
{
    let n: nat = if i < 0 { (-i) as nat } else { i as nat };
    lemma_decimal_len(n, 10);
}

proof fn lemma_decimal_len(n: nat, k: nat)
    requires
        n < 10000000000,
        k == 10,
    ensures
        decimal(n).len() <= k,
{
    reveal_with_fuel(decimal, 11);
}


/// Text waiting to be sent to a topic, and when text was last sent.
#[derive(Debug, Clone)]
pub struct RateLimiter {
    pending: Vec<char>,
    last_send_ms: Option<u64>,
}

/// Whether pending text is due: the interval passed since the last send (or
/// nothing was sent yet), or half a message is waiting.
pub open spec fn due(pending: Seq<char>, last_send: Option<u64>, now_ms: u64) -> bool {
    (match last_send {
        None => true,
        Some(t) => now_ms >= t + TELEGRAM_BATCH_INTERVAL_MS,
    }) || byte_len(pending) >= TELEGRAM_MAX_MESSAGE_LENGTH / 2
}

impl RateLimiter {
    /// The text waiting to be sent.
    pub closed spec fn pending(&self) -> Seq<char> {
        self.pending@
    }

    /// When text was last sent, if ever.
    pub closed spec fn last_send(&self) -> Option<u64> {
        self.last_send_ms
    }

    /// Nothing pending, nothing sent yet.
    pub fn new() -> (r: Self)
        ensures
            r.pending() == Seq::<char>::empty(),
            r.last_send() is None,
    {
        RateLimiter { pending: Vec::new(), last_send_ms: None }
    }

    /// Takes the pending text to send at `now_ms`, if there is any.
    pub fn flush(&mut self, now_ms: u64) -> (r: Option<String>)
        ensures
            old(self).pending().len() == 0 ==> r is None && final(self).pending() == old(self).pending()
                && final(self).last_send() == old(self).last_send(),
            old(self).pending().len() > 0 ==> (r matches Some(t) && t@ == old(self).pending())
                && final(self).pending().len() == 0 && final(self).last_send() == Some(now_ms),
    {
        if self.pending.len() == 0 {
            return None;
        }
        let t = string_from_chars(&self.pending);
        self.pending = Vec::new();
        self.last_send_ms = Some(now_ms);
        Some(t)
    }

    /// Adds a streamed chunk at `now_ms`; returns the pending text when it is due.
    pub fn push_text(&mut self, text: &str, now_ms: u64) -> (r: Option<String>)
        ensures
            due(old(self).pending() + text@, old(self).last_send(), now_ms) && (old(self).pending() + text@).len() > 0 ==> (
                r matches Some(t) && t@ == old(self).pending() + text@) && final(self).pending().len() == 0
                && final(self).last_send() == Some(now_ms),
            !(due(old(self).pending() + text@, old(self).last_send(), now_ms) && (old(self).pending() + text@).len() > 0) ==> r is None
                && final(self).pending() == old(self).pending() + text@ && final(self).last_send() == old(self).last_send(),
    {
        let t = chars_of(text);
        push_chars(&mut self.pending, &t);
        let elapsed = match self.last_send_ms {
            None => true,
            Some(last) => now_ms >= last && now_ms - last >= TELEGRAM_BATCH_INTERVAL_MS,
        };
        let big = crate::text::byte_len_exceeds(&self.pending, TELEGRAM_MAX_MESSAGE_LENGTH / 2 - 1);
        if elapsed || big {
            self.flush(now_ms)
        } else {
            None
        }
    }
}

/// Leading characters of `s`, from position `k` with `used` bytes so far,
/// that fit in `n` bytes: the end of the longest prefix within `n` bytes.
pub open spec fn fit_end(s: Seq<char>, k: int, used: int, n: int) -> int
    decreases s.len() - k,
{
    if k < 0 || k >= s.len() || used + char_width(s[k]) > n {
        k
    } else {
        fit_end(s, k + 1, used + char_width(s[k]), n)
    }
}

/// The longest prefix of `s` within `n` bytes.
pub open spec fn byte_prefix(s: Seq<char>, n: int) -> Seq<char> {
    s.take(fit_end(s, 0, 0, n))
}

/// A tool result as shown: cut to 500 bytes and marked with `...` when longer.
pub open spec fn shown_result(s: Seq<char>) -> Seq<char> {
    if byte_len(s) > MAX_TOOL_RESULT_LEN {
        byte_prefix(s, MAX_TOOL_RESULT_LEN as int) + "..."@
    } else {
        s
    }
}

/// Cutting a tool result at 500 bytes must not split a character.
pub open spec fn result_cut_ok(s: Seq<char>) -> bool {
    byte_len(s) > MAX_TOOL_RESULT_LEN ==> byte_len(byte_prefix(s, MAX_TOOL_RESULT_LEN as int)) == MAX_TOOL_RESULT_LEN
}

proof fn lemma_fit_end(s: Seq<char>, k: int, used: int, n: int)
    requires
        0 <= k <= s.len(),
        used == byte_len(s.take(k)),
        used <= n,
    ensures
        k <= fit_end(s, k, used, n) <= s.len(),
        byte_len(s.take(fit_end(s, k, used, n))) <= n,
    decreases s.len() - k,
{
    if k < s.len() && used + char_width(s[k]) <= n {
        assert(s.take(k + 1).drop_last() =~= s.take(k));
        lemma_fit_end(s, k + 1, used + char_width(s[k]), n);
    }
}

/// The tool result as shown.
pub fn shown_tool_result(result: &str) -> (r: String)
    requires
        result_cut_ok(result@),
    ensures
        r@ == shown_result(result@),
{
    let s = chars_of(result);
    if !crate::text::byte_len_exceeds(&s, MAX_TOOL_RESULT_LEN) {
        return owned(result);
    }
    let mut k: usize = 0;
    let mut used: usize = 0;
    while k < s.len() && used + char_width_exec(s[k]) <= MAX_TOOL_RESULT_LEN
        invariant
            k <= s.len(),
            used == byte_len(s@.take(k as int)),
            used <= MAX_TOOL_RESULT_LEN,
            fit_end(s@, 0, 0, MAX_TOOL_RESULT_LEN as int) == fit_end(s@, k as int, used as int, MAX_TOOL_RESULT_LEN as int),
        decreases s.len() - k,
    {
        assert(s@.take(k + 1).drop_last() =~= s@.take(k as int));
        used = used + char_width_exec(s[k]);
        k += 1;
    }
    let mut out = crate::text::slice_chars(&s, 0, k);
    assert(out@ =~= s@.take(k as int));
    push_str(&mut out, "...");
    string_from_chars(&out)
}

/// What a streamed event sends to the topic.
#[derive(Debug, Clone)]
pub struct EventOutput {
    /// Send the pending text first.
    pub flush_first: bool,
    /// An HTML message to send.
    pub message: Option<String>,
    /// A permission request to show: its id and description.
    pub permission: Option<(String, String)>,
}

/// The HTML of a tool call; `args` is the JSON of its arguments.
pub open spec fn tool_message(name: Seq<char>, args: Seq<char>) -> Seq<char> {
    "<b>Tool:</b> <code>"@ + name + "</code>\n<pre>"@ + args + "</pre>"@
}

/// The output of an event other than a text chunk (text goes through the
/// rate limiter): tool calls, completed messages, idle and errors send the
/// pending text first; tool results, errors and tool calls send a message;
/// permission requests ask the topic.
pub open spec fn event_output_spec(e: StreamEvent) -> (bool, Option<Seq<char>>, Option<(Seq<char>, Seq<char>)>) {
    match e {
        StreamEvent::ToolInvocation { name, args } => (true, Some(tool_message(name@, args@)), None),
        StreamEvent::ToolResult { result } => (false, Some("<b>Result:</b>\n<pre>"@ + shown_result(result@) + "</pre>"@), None),
        StreamEvent::MessageComplete { .. } => (true, None, None),
        StreamEvent::SessionIdle => (true, None, None),
        StreamEvent::SessionError { error } => (true, Some("<b>Error:</b> "@ + error@), None),
        StreamEvent::PermissionRequest { id, permission_type, details } => (false, None, Some((id@, permission_type@ + ": "@ + details@))),
        _ => (false, None, None),
    }
}

/// Whether an event's tool result can be cut safely.
pub open spec fn event_ok(e: StreamEvent) -> bool {
    match e {
        StreamEvent::ToolResult { result } => result_cut_ok(result@),
        _ => true,
    }
}

/// What a streamed event sends to the topic.
pub fn event_output(event: &StreamEvent) -> (r: EventOutput)
    requires
        event_ok(*event),
    ensures
        r.flush_first == event_output_spec(*event).0,
        match event_output_spec(*event).1 {
            Some(m) => r.message matches Some(x) && x@ == m,
            None => r.message is None,
        },
        match event_output_spec(*event).2 {
            Some((i, d)) => r.permission matches Some((a, b)) && a@ == i && b@ == d,
            None => r.permission is None,
        },
{
    match event {
        StreamEvent::ToolInvocation { name, args } => {
            let mut v: Vec<char> = Vec::new();
            push_str(&mut v, "<b>Tool:</b> <code>");
            push_str(&mut v, name.as_str());
            push_str(&mut v, "</code>\n<pre>");
            push_str(&mut v, args.as_str());
            push_str(&mut v, "</pre>");
            EventOutput { flush_first: true, message: Some(string_from_chars(&v)), permission: None }
        },
        StreamEvent::ToolResult { result } => {
            let mut v: Vec<char> = Vec::new();
            push_str(&mut v, "<b>Result:</b>\n<pre>");
            let t = shown_tool_result(result.as_str());
            push_str(&mut v, t.as_str());
            push_str(&mut v, "</pre>");
            EventOutput { flush_first: false, message: Some(string_from_chars(&v)), permission: None }
        },
        StreamEvent::MessageComplete { .. } => EventOutput { flush_first: true, message: None, permission: None },
        StreamEvent::SessionIdle => EventOutput { flush_first: true, message: None, permission: None },
        StreamEvent::SessionError { error } => {
            let mut v: Vec<char> = Vec::new();
            push_str(&mut v, "<b>Error:</b> ");
            push_str(&mut v, error.as_str());
            EventOutput { flush_first: true, message: Some(string_from_chars(&v)), permission: None }
        },
        StreamEvent::PermissionRequest { id, permission_type, details } => {
            let mut v: Vec<char> = Vec::new();
            push_str(&mut v, permission_type.as_str());
            push_str(&mut v, ": ");
            push_str(&mut v, details.as_str());
            EventOutput { flush_first: false, message: None, permission: Some((id.clone(), string_from_chars(&v))) }
        },
        _ => EventOutput { flush_first: false, message: None, permission: None },
    }
}

/// What the forwarder of a topic does after an event.
#[derive(Debug, Clone, Copy, PartialEq, Eq, Structural)]
pub struct ForwarderStep {
    /// Rename the topic after its project (once, at the first response).
    pub rename_topic: bool,
    /// Stop forwarding: the session failed.
    pub stop: bool,
}

/// After an event: the topic is renamed at the first completed message or
/// idle signal (when it was not renamed yet), and forwarding stops at a
/// session error.
pub fn forwarder_step(awaiting_first_response: bool, event: &StreamEvent) -> (r: ForwarderStep)
    ensures
        r.rename_topic == (awaiting_first_response && (event is MessageComplete || event is SessionIdle)),
        r.stop == (event is SessionError),
{
    let answered = match event {
        StreamEvent::MessageComplete { .. } | StreamEvent::SessionIdle => true,
        _ => false,
    };
    let stop = match event {
        StreamEvent::SessionError { .. } => true,
        _ => false,
    };
    ForwarderStep { rename_topic: awaiting_first_response && answered, stop }
}

/// The name a topic is given: its project's directory name, or `Unknown`.
pub fn topic_display_name(project_path: &str) -> (r: String)
    ensures
        r@ == match file_name(project_path@) {
            Some(n) => n,
            None => "Unknown"@,
        },
{
    match file_name_of(project_path) {
        Some(n) => n,
        None => owned("Unknown"),
    }
}

/// Which kinds of content a message has.
#[derive(Debug, Clone, Copy, Default)]
pub struct MessageKindFlags {
    pub text: bool,
    pub photo: bool,
    pub sticker: bool,
    pub video: bool,
    pub voice: bool,
    pub document: bool,
    pub audio: bool,
    pub animation: bool,
    pub video_note: bool,
    pub contact: bool,
    pub location: bool,
    pub poll: bool,
    pub forum_topic_created: bool,
    pub forum_topic_edited: bool,
    pub forum_topic_closed: bool,
    pub forum_topic_reopened: bool,
    pub new_chat_members: bool,
    pub left_chat_member: bool,
}

/// The first kind a message has, in a fixed order, for the logs.
pub open spec fn kind_name(f: MessageKindFlags) -> Seq<char> {
    if f.text { "text"@ }
    else if f.photo { "photo"@ }
    else if f.sticker { "sticker"@ }
    else if f.video { "video"@ }
    else if f.voice { "voice"@ }
    else if f.document { "document"@ }
    else if f.audio { "audio"@ }
    else if f.animation { "animation"@ }
    else if f.video_note { "video_note"@ }
    else if f.contact { "contact"@ }
    else if f.location { "location"@ }
    else if f.poll { "poll"@ }
    else if f.forum_topic_created { "forum_topic_created"@ }
    else if f.forum_topic_edited { "forum_topic_edited"@ }
    else if f.forum_topic_closed { "forum_topic_closed"@ }
    else if f.forum_topic_reopened { "forum_topic_reopened"@ }
    else if f.new_chat_members { "new_chat_members"@ }
    else if f.left_chat_member { "left_chat_member"@ }
    else { "other"@ }
}

/// Names the kind of a message.
pub fn describe_message_kind(f: &MessageKindFlags) -> (r: &'static str)
    ensures
        r@ == kind_name(*f),
{
    if f.text { "text" }
    else if f.photo { "photo" }
    else if f.sticker { "sticker" }
    else if f.video { "video" }
    else if f.voice { "voice" }
    else if f.document { "document" }
    else if f.audio { "audio" }
    else if f.animation { "animation" }
    else if f.video_note { "video_note" }
    else if f.contact { "contact" }
    else if f.location { "location" }
    else if f.poll { "poll" }
    else if f.forum_topic_created { "forum_topic_created" }
    else if f.forum_topic_edited { "forum_topic_edited" }
    else if f.forum_topic_closed { "forum_topic_closed" }
    else if f.forum_topic_reopened { "forum_topic_reopened" }
    else if f.new_chat_members { "new_chat_members" }
    else if f.left_chat_member { "left_chat_member" }
    else { "other" }
}

/// Text given to the rate limiter is never lost or reordered: what a push
/// returns, followed by what stays pending, is what was pending followed by
/// the new text.
pub proof fn law_rate_limiter_conserves_text(pending: Seq<char>, text: Seq<char>, sent: Option<Seq<char>>, after: Seq<char>)
    requires
        match sent {
            Some(t) => t == pending + text && after.len() == 0,
            None => after == pending + text,
        },
    ensures
        match sent {
            Some(t) => t + after == pending + text,
            None => after == pending + text,
        },
{
    if let Some(t) = sent {
        assert(t + after =~= t);
    }
}


/// A project button of the selection goes to the project-selection handler,
/// which reads back the topic and the project name from it.
pub proof fn law_project_buttons_read_back(topic_id: i32, name: Seq<char>)
    requires
        name.len() > 0,
    ensures
        route_of(Some(project_button_data(topic_id, name))) == CallbackRoute::ProjectSelection,
        project_callback(project_button_data(topic_id, name)) == Ok::<(i32, Seq<char>), Seq<char>>((topic_id, name)),
{
    reveal_strlit("proj:");
    reveal_strlit("proj");
    reveal_strlit(":");
    reveal_strlit("perm:");
    reveal_strlit("close:");
    crate::text::lemma_int_decimal_reads_back(topic_id);
    let n = int_decimal(topic_id as int);
    let ln = n.len() as int;
    let d = project_button_data(topic_id, name);
    assert(d =~= "proj"@ + seq![':'] + n + seq![':'] + name);
    assert forall|j: int| 0 <= j < 4 implies #[trigger] d[j] != ':' by {
        assert(d[j] == "proj"@[j]);
    }
    crate::text::lemma_find_char_at(d, ':', 0, 4);
    assert forall|j: int| 5 <= j < 5 + ln implies #[trigger] d[j] != ':' by {
        assert(d[j] == n[j - 5]);
    }
    assert(d[5 + ln] == ':');
    crate::text::lemma_find_char_at(d, ':', 5, 5 + ln);
    assert(d.subrange(0, 4) =~= "proj"@);
    assert(d.subrange(5, 5 + ln) =~= n);
    assert(d.subrange(6 + ln, d.len() as int) =~= name);
    assert(d.take(5) =~= "proj:"@);
    assert(d.take(5)[3] != "perm:"@[3]);
    assert(d.take(6)[0] != "close:"@[0]);
}

} // verus!
