//! Handling of the event stream of an OpenCode session: classifying events,
//! batching text, skipping echoes of messages sent from Telegram, and the
//! reconnection backoff.

use vstd::prelude::*;
use crate::text::{chars_of, owned, push_chars, push_decimal, push_str, str_eq, string_from_chars};

verus! {

/// Reconnections tried before the stream is given up.
pub const MAX_RECONNECT_ATTEMPTS: u32 = 5;

/// First reconnection delay, in seconds; it doubles with each attempt.
pub const BASE_RECONNECT_DELAY_SECS: u64 = 1;

/// Longest reconnection delay, in seconds.
pub const MAX_RECONNECT_DELAY_SECS: u64 = 16;

/// Text is held back for at most this long before it is sent, in milliseconds.
pub const BATCH_INTERVAL_MS: u64 = 2000;

/// How long a message sent from Telegram is remembered, in seconds.
pub const DEDUP_EXPIRY_SECS: u64 = 30;

/// A message of the session, its content parts kept as JSON text.
#[derive(Clone, Debug, PartialEq)]
pub struct OpenCodeMessage {
    pub id: String,
    pub role: String,
    pub content: Vec<String>,
}

/// What the stream reports to its subscriber. JSON values are kept as JSON text.
#[derive(Clone, Debug, PartialEq)]
pub enum StreamEvent {
    TextChunk { text: String },
    ToolInvocation { name: String, args: String },
    ToolResult { result: String },
    MessageComplete { message: OpenCodeMessage },
    SessionIdle,
    SessionError { error: String },
    PermissionRequest { id: String, permission_type: String, details: String },
    PermissionReply { id: String, allowed: bool },
    Disconnected,
    Reconnected,
}

/// The kinds of server-sent events that OpenCode emits.
#[derive(Clone, Copy, Debug, PartialEq, Eq, Structural)]
pub enum SseKind {
    PartUpdated,
    MessageUpdated,
    SessionIdle,
    SessionError,
    PermissionUpdated,
    PermissionReplied,
    Unknown,
}

/// The name of each kind on the wire.
pub open spec fn sse_kind_spec(t: Seq<char>) -> SseKind {
    if t == "message.part.updated"@ {
        SseKind::PartUpdated
    } else if t == "message.updated"@ {
        SseKind::MessageUpdated
    } else if t == "session.idle"@ {
        SseKind::SessionIdle
    } else if t == "session.error"@ {
        SseKind::SessionError
    } else if t == "permission.updated"@ {
        SseKind::PermissionUpdated
    } else if t == "permission.replied"@ {
        SseKind::PermissionReplied
    } else {
        SseKind::Unknown
    }
}

/// The kind of an event from its `event:` field.
pub fn sse_kind(event_type: &str) -> (k: SseKind)
    ensures
        k == sse_kind_spec(event_type@),
{
    if str_eq(event_type, "message.part.updated") {
        SseKind::PartUpdated
    } else if str_eq(event_type, "message.updated") {
        SseKind::MessageUpdated
    } else if str_eq(event_type, "session.idle") {
        SseKind::SessionIdle
    } else if str_eq(event_type, "session.error") {
        SseKind::SessionError
    } else if str_eq(event_type, "permission.updated") {
        SseKind::PermissionUpdated
    } else if str_eq(event_type, "permission.replied") {
        SseKind::PermissionReplied
    } else {
        SseKind::Unknown
    }
}

/// The content of an event, read from its `data:` field according to its kind.
#[derive(Clone, Debug)]
pub enum SsePayload {
    /// `message.part.updated` with a text part.
    Text { text: String },
    /// `message.part.updated` with a tool call; `input` is JSON text.
    ToolUse { name: String, input: String },
    /// `message.part.updated` with a tool result.
    ToolResult { content: String },
    /// `message.updated`; `None` when the data is not a message.
    Message { message: Option<OpenCodeMessage> },
    /// `session.idle`.
    Idle,
    /// `session.error` with its message.
    Error { message: String },
    /// `permission.updated`; `details` is the JSON text of the whole object.
    PermissionUpdated { id: String, permission_type: String, details: String },
    /// `permission.replied`.
    PermissionReplied { id: String, allowed: bool },
    /// An event of another kind, or one whose data could not be read.
    Ignored,
}

/// Messages recently sent from Telegram, per session, whose echo in the
/// stream is skipped.
#[derive(Clone, Debug)]
pub struct DedupSet {
    entries: Vec<(String, String)>,
}

impl DedupSet {
    /// The remembered (session, text) pairs.
    pub closed spec fn view(&self) -> Set<(Seq<char>, Seq<char>)> {
        Set::new(|p: (Seq<char>, Seq<char>)| exists|i: int| 0 <= i < self.entries@.len() && #[trigger] self.pair_at(i) == p)
    }

    /// The pair at index `i`.
    pub closed spec fn pair_at(&self, i: int) -> (Seq<char>, Seq<char>) {
        (self.entries@[i].0@, self.entries@[i].1@)
    }

    /// Nothing remembered.
    pub fn new() -> (d: Self)
        ensures
            d.view() == Set::<(Seq<char>, Seq<char>)>::empty(),
    {
        let d = DedupSet { entries: Vec::new() };
        assert(d.view() =~= Set::<(Seq<char>, Seq<char>)>::empty());
        d
    }

    fn index_of(&self, session_id: &str, text: &str) -> (r: Option<usize>)
        ensures
            match r {
                Some(i) => i < self.entries@.len() && self.pair_at(i as int) == (session_id@, text@),
                None => !self.view().contains((session_id@, text@)),
            },
    {
        let mut i: usize = 0;
        while i < self.entries.len()
            invariant
                i <= self.entries.len(),
                forall|j: int| 0 <= j < i ==> #[trigger] self.pair_at(j) != (session_id@, text@),
            decreases self.entries.len() - i,
        {
            if str_eq(self.entries[i].0.as_str(), session_id) && str_eq(self.entries[i].1.as_str(), text) {
                return Some(i);
            }
            i += 1;
        }
        None
    }

    /// Whether `text` was sent from Telegram to `session_id` and is still remembered.
    pub fn should_skip(&self, session_id: &str, text: &str) -> (b: bool)
        ensures
            b == self.view().contains((session_id@, text@)),
    {
        match self.index_of(session_id, text) {
            Some(i) => {
                assert(self.pair_at(i as int) == (session_id@, text@));
                true
            },
            None => false,
        }
    }

    /// Remembers that `text` was sent from Telegram to `session_id`.
    pub fn mark(&mut self, session_id: &str, text: &str)
        ensures
            final(self).view() == old(self).view().insert((session_id@, text@)),
    {
        match self.index_of(session_id, text) {
            Some(i) => {
                assert(self.view() =~= old(self).view().insert((session_id@, text@)));
            },
            None => {
                let ghost before = *self;
                self.entries.push((owned(session_id), owned(text)));
                assert forall|p: (Seq<char>, Seq<char>)| self.view().contains(p) == before.view().insert((session_id@, text@)).contains(p) by {
                    if self.view().contains(p) {
                        let i = choose|i: int| 0 <= i < self.entries@.len() && #[trigger] self.pair_at(i) == p;
                        if i < before.entries@.len() {
                            assert(before.pair_at(i) == p);
                        }
                    }
                    if before.view().contains(p) {
                        let i = choose|i: int| 0 <= i < before.entries@.len() && #[trigger] before.pair_at(i) == p;
                        assert(self.pair_at(i) == p);
                    }
                    if p == (session_id@, text@) {
                        assert(self.pair_at(before.entries@.len() as int) == p);
                    }
                }
                assert(self.view() =~= before.view().insert((session_id@, text@)));
            },
        }
    }

    /// Forgets that `text` was sent to `session_id` (when the memory expires).
    pub fn unmark(&mut self, session_id: &str, text: &str)
        ensures
            final(self).view() == old(self).view().remove((session_id@, text@)),
    {
        let ghost before = *self;
        let mut kept: Vec<(String, String)> = Vec::new();
        let mut i: usize = 0;
        while i < self.entries.len()
            invariant
                *self == before,
                i <= self.entries.len(),
                forall|k: int| 0 <= k < kept@.len() ==> (#[trigger] kept@[k].0@, kept@[k].1@) != (session_id@, text@),
                forall|k: int| #![trigger kept@[k]] 0 <= k < kept@.len() ==> exists|j: int| 0 <= j < i && #[trigger] before.pair_at(j) == (kept@[k].0@, kept@[k].1@),
                forall|j: int| 0 <= j < i && #[trigger] before.pair_at(j) != (session_id@, text@) ==> exists|k: int|
                    0 <= k < kept@.len() && before.pair_at(j) == (#[trigger] kept@[k].0@, kept@[k].1@),
            decreases self.entries.len() - i,
        {
            let same = str_eq(self.entries[i].0.as_str(), session_id) && str_eq(self.entries[i].1.as_str(), text);
            if !same {
                let e = (self.entries[i].0.clone(), self.entries[i].1.clone());
                let ghost kb = kept@;
                kept.push(e);
                assert(kept@[kept@.len() - 1] == e);
                assert forall|k: int| #![trigger kept@[k]] 0 <= k < kept@.len() implies exists|j: int| 0 <= j < i + 1 && #[trigger] before.pair_at(j) == (kept@[k].0@, kept@[k].1@) by {
                    if k < kb.len() {
                        assert(kept@[k] == kb[k]);
                    } else {
                        assert(before.pair_at(i as int) == (kept@[k].0@, kept@[k].1@));
                    }
                }
                assert forall|j: int| 0 <= j < i + 1 && #[trigger] before.pair_at(j) != (session_id@, text@) implies exists|k: int|
                    0 <= k < kept@.len() && before.pair_at(j) == (#[trigger] kept@[k].0@, kept@[k].1@) by {
                    if j < i {
                        let k = choose|k: int| 0 <= k < kb.len() && before.pair_at(j) == (#[trigger] kb[k].0@, kb[k].1@);
                        assert(kept@[k] == kb[k]);
                    } else {
                        assert(before.pair_at(j) == (kept@[kept@.len() - 1].0@, kept@[kept@.len() - 1].1@));
                    }
                }
                assert forall|k: int| 0 <= k < kept@.len() implies (#[trigger] kept@[k].0@, kept@[k].1@) != (session_id@, text@) by {
                    if k < kb.len() {
                        assert(kept@[k] == kb[k]);
                    }
                }
            } else {
                assert(before.pair_at(i as int) == (session_id@, text@));
                assert forall|k: int| #![trigger kept@[k]] 0 <= k < kept@.len() implies exists|j: int| 0 <= j < i + 1 && #[trigger] before.pair_at(j) == (kept@[k].0@, kept@[k].1@) by {
                    let j = choose|j: int| 0 <= j < i && #[trigger] before.pair_at(j) == (kept@[k].0@, kept@[k].1@);
                    assert(0 <= j < i + 1);
                }
            }
            i += 1;
        }
        self.entries = kept;
        assert forall|p: (Seq<char>, Seq<char>)| self.view().contains(p) == before.view().remove((session_id@, text@)).contains(p) by {
            if self.view().contains(p) {
                let k = choose|k: int| 0 <= k < self.entries@.len() && #[trigger] self.pair_at(k) == p;
                assert((self.entries@[k].0@, self.entries@[k].1@) != (session_id@, text@));
                let j = choose|j: int| 0 <= j < before.entries@.len() && #[trigger] before.pair_at(j) == (self.entries@[k].0@, self.entries@[k].1@);
            }
            if before.view().remove((session_id@, text@)).contains(p) {
                let j = choose|j: int| 0 <= j < before.entries@.len() && #[trigger] before.pair_at(j) == p;
                let k = choose|k: int| 0 <= k < self.entries@.len() && before.pair_at(j) == (#[trigger] self.entries@[k].0@, self.entries@[k].1@);
                assert(self.pair_at(k) == p);
            }
        }
        assert(self.view() =~= before.view().remove((session_id@, text@)));
    }
}

/// The text that an event carries to the topic as streamed text.
pub open spec fn chunk_text(e: StreamEvent) -> Seq<char> {
    match e {
        StreamEvent::TextChunk { text } => text@,
        _ => Seq::empty(),
    }
}

/// The streamed text of a sequence of events, in order.
pub open spec fn streamed_text(es: Seq<StreamEvent>) -> Seq<char>
    decreases es.len(),
{
    if es.len() == 0 {
        Seq::empty()
    } else {
        streamed_text(es.drop_last()) + chunk_text(es.last())
    }
}

/// `es` is the pending text `batch`, flushed as one chunk if there is any, then `rest`.
pub open spec fn flushed_then(batch: Seq<char>, es: Seq<StreamEvent>, rest: Seq<StreamEvent>) -> bool {
    if batch.len() == 0 {
        es == rest
    } else {
        &&& es.len() == rest.len() + 1
        &&& es[0] matches StreamEvent::TextChunk { text } && text@ == batch
        &&& es.drop_first() == rest
    }
}

/// Accumulates streamed text and turns the session's events into what the
/// subscriber receives.
#[derive(Clone, Debug)]
pub struct StreamBatcher {
    batch: Vec<char>,
    last_batch_ms: u64,
}

impl StreamBatcher {
    /// The text received and not yet sent.
    pub closed spec fn pending(&self) -> Seq<char> {
        self.batch@
    }

    /// When text was last added, in milliseconds.
    pub closed spec fn last_text_ms(&self) -> u64 {
        self.last_batch_ms
    }

    /// No pending text; `now_ms` is the current time.
    pub fn new(now_ms: u64) -> (b: Self)
        ensures
            b.pending() == Seq::<char>::empty(),
            b.last_text_ms() == now_ms,
    {
        StreamBatcher { batch: Vec::new(), last_batch_ms: now_ms }
    }

    /// Takes the pending text as one chunk, if there is any.
    fn flush(&mut self, out: &mut Vec<StreamEvent>)
        requires
            old(out)@.len() == 0,
        ensures
            final(self).pending() == Seq::<char>::empty(),
            final(self).last_text_ms() == old(self).last_text_ms(),
            flushed_then(old(self).pending(), final(out)@, Seq::empty()),
    {
        if self.batch.len() > 0 {
            let text = string_from_chars(&self.batch);
            out.push(StreamEvent::TextChunk { text });
            self.batch = Vec::new();
            assert(out@.drop_first() =~= Seq::<StreamEvent>::empty());
        } else {
            assert(out@ =~= Seq::<StreamEvent>::empty());
        }
    }

    /// Handles one event of session `session_id` at time `now_ms`. Text parts
    /// are held back, except the echo of a message sent from Telegram, which is
    /// dropped; a tool call, a tool result, a completed message and the idle
    /// signal first flush the pending text; errors and permission events pass
    /// on at once.
    pub fn on_message(&mut self, payload: SsePayload, dedup: &DedupSet, session_id: &str, now_ms: u64) -> (r: Vec<StreamEvent>)
        ensures
            match payload {
                SsePayload::Text { text } => r@.len() == 0 && if dedup.view().contains((session_id@, text@)) {
                    final(self).pending() == old(self).pending() && final(self).last_text_ms() == old(self).last_text_ms()
                } else {
                    final(self).pending() == old(self).pending() + text@ && final(self).last_text_ms() == now_ms
                },
                SsePayload::ToolUse { name, input } => final(self).pending().len() == 0
                    && flushed_then(old(self).pending(), r@, seq![StreamEvent::ToolInvocation { name, args: input }]),
                SsePayload::ToolResult { content } => final(self).pending().len() == 0
                    && flushed_then(old(self).pending(), r@, seq![StreamEvent::ToolResult { result: content }]),
                SsePayload::Message { message } => final(self).pending().len() == 0
                    && flushed_then(old(self).pending(), r@, match message {
                        Some(m) => seq![StreamEvent::MessageComplete { message: m }],
                        None => Seq::empty(),
                    }),
                SsePayload::Idle => final(self).pending().len() == 0
                    && flushed_then(old(self).pending(), r@, seq![StreamEvent::SessionIdle]),
                SsePayload::Error { message } => final(self).pending() == old(self).pending()
                    && r@ == seq![StreamEvent::SessionError { error: message }],
                SsePayload::PermissionUpdated { id, permission_type, details } => final(self).pending() == old(self).pending()
                    && r@ == seq![StreamEvent::PermissionRequest { id, permission_type, details }],
                SsePayload::PermissionReplied { id, allowed } => final(self).pending() == old(self).pending()
                    && r@ == seq![StreamEvent::PermissionReply { id, allowed }],
                SsePayload::Ignored => final(self).pending() == old(self).pending() && r@.len() == 0,
            },
            !(payload is Text) ==> final(self).last_text_ms() == old(self).last_text_ms(),
    {
        let mut out: Vec<StreamEvent> = Vec::new();
        match payload {
            SsePayload::Text { text } => {
                if !dedup.should_skip(session_id, text.as_str()) {
                    let t = chars_of(text.as_str());
                    push_chars(&mut self.batch, &t);
                    self.last_batch_ms = now_ms;
                }
            },
            SsePayload::ToolUse { name, input } => {
                self.flush(&mut out);
                let ghost f = out@;
                out.push(StreamEvent::ToolInvocation { name, args: input });
                proof { lemma_flushed_push(old(self).pending(), f, out@, Seq::empty(), out@.last()); }
            },
            SsePayload::ToolResult { content } => {
                self.flush(&mut out);
                let ghost f = out@;
                out.push(StreamEvent::ToolResult { result: content });
                proof { lemma_flushed_push(old(self).pending(), f, out@, Seq::empty(), out@.last()); }
            },
            SsePayload::Message { message } => {
                self.flush(&mut out);
                match message {
                    Some(m) => {
                        let ghost f = out@;
                        out.push(StreamEvent::MessageComplete { message: m });
                        proof { lemma_flushed_push(old(self).pending(), f, out@, Seq::empty(), out@.last()); }
                    },
                    None => {},
                }
            },
            SsePayload::Idle => {
                self.flush(&mut out);
                let ghost f = out@;
                out.push(StreamEvent::SessionIdle);
                proof { lemma_flushed_push(old(self).pending(), f, out@, Seq::empty(), out@.last()); }
            },
            SsePayload::Error { message } => {
                out.push(StreamEvent::SessionError { error: message });
            },
            SsePayload::PermissionUpdated { id, permission_type, details } => {
                out.push(StreamEvent::PermissionRequest { id, permission_type, details });
            },
            SsePayload::PermissionReplied { id, allowed } => {
                out.push(StreamEvent::PermissionReply { id, allowed });
            },
            SsePayload::Ignored => {},
        }
        out
    }

    /// The periodic check: the pending text is sent once [`BATCH_INTERVAL_MS`]
    /// have passed since text was last added.
    pub fn on_tick(&mut self, now_ms: u64) -> (r: Option<StreamEvent>)
        ensures
            (old(self).pending().len() > 0 && now_ms >= old(self).last_text_ms() + BATCH_INTERVAL_MS) ==> (
                r matches Some(StreamEvent::TextChunk { text }) && text@ == old(self).pending()
                && final(self).pending().len() == 0 && final(self).last_text_ms() == now_ms),
            !(old(self).pending().len() > 0 && now_ms >= old(self).last_text_ms() + BATCH_INTERVAL_MS) ==> (
                r is None && final(self).pending() == old(self).pending()
                && final(self).last_text_ms() == old(self).last_text_ms()),
    {
        if self.batch.len() > 0 && now_ms >= self.last_batch_ms && now_ms - self.last_batch_ms >= BATCH_INTERVAL_MS {
            let text = string_from_chars(&self.batch);
            self.batch = Vec::new();
            self.last_batch_ms = now_ms;
            Some(StreamEvent::TextChunk { text })
        } else {
            None
        }
    }

    /// The stream failed or ended: the pending text is sent.
    pub fn on_end(&mut self) -> (r: Option<StreamEvent>)
        ensures
            old(self).pending().len() > 0 ==> (r matches Some(StreamEvent::TextChunk { text }) && text@ == old(self).pending()),
            old(self).pending().len() == 0 ==> r is None,
            final(self).pending().len() == 0,
    {
        if self.batch.len() > 0 {
            let text = string_from_chars(&self.batch);
            self.batch = Vec::new();
            Some(StreamEvent::TextChunk { text })
        } else {
            None
        }
    }
}

proof fn lemma_flushed_push(batch: Seq<char>, f: Seq<StreamEvent>, es: Seq<StreamEvent>, rest: Seq<StreamEvent>, e: StreamEvent)
    requires
        flushed_then(batch, f, rest),
        es == f.push(e),
    ensures
        flushed_then(batch, es, rest.push(e)),
{
    if batch.len() > 0 {
        assert(es.drop_first() =~= f.drop_first().push(e));
    }
}

/// What to do after the stream of a session broke `attempt` times in a row.
#[derive(Debug, Clone, Copy, PartialEq, Eq, Structural)]
pub enum ReconnectPlan {
    /// Report the disconnection, wait `delay_secs`, and connect again.
    Retry { delay_secs: u64 },
    /// Report that the connection is lost and stop.
    GiveUp,
}

/// `min(2^attempt, 16)` seconds.
pub open spec fn reconnect_delay(attempt: nat) -> nat
    decreases attempt,
{
    if attempt == 0 {
        BASE_RECONNECT_DELAY_SECS as nat
    } else {
        let d = 2 * reconnect_delay((attempt - 1) as nat);
        if d > MAX_RECONNECT_DELAY_SECS { MAX_RECONNECT_DELAY_SECS as nat } else { d }
    }
}

/// Reconnection backoff: 1, 2, 4, 8, 16 seconds, then give up.
pub fn reconnect_plan(attempt: u32) -> (p: ReconnectPlan)
    ensures
        attempt >= MAX_RECONNECT_ATTEMPTS ==> p == ReconnectPlan::GiveUp,
        attempt < MAX_RECONNECT_ATTEMPTS ==> p == (ReconnectPlan::Retry { delay_secs: reconnect_delay(attempt as nat) as u64 }),
{
    if attempt >= MAX_RECONNECT_ATTEMPTS {
        return ReconnectPlan::GiveUp;
    }
    let mut d: u64 = BASE_RECONNECT_DELAY_SECS;
    let mut i: u32 = 0;
    while i < attempt
        invariant
            i <= attempt < MAX_RECONNECT_ATTEMPTS,
            d == reconnect_delay(i as nat),
            d <= MAX_RECONNECT_DELAY_SECS,
        decreases attempt - i,
    {
        d = if d * 2 > MAX_RECONNECT_DELAY_SECS { MAX_RECONNECT_DELAY_SECS } else { d * 2 };
        i += 1;
    }
    ReconnectPlan::Retry { delay_secs: d }
}

/// The error reported when the stream is given up.
pub fn connection_lost_event() -> (e: StreamEvent)
    ensures
        e matches StreamEvent::SessionError { error } && error@ == "Connection lost after "@ + crate::text::decimal(
            MAX_RECONNECT_ATTEMPTS as nat,
        ) + " attempts"@,
{
    let mut v: Vec<char> = Vec::new();
    push_str(&mut v, "Connection lost after ");
    push_decimal(&mut v, MAX_RECONNECT_ATTEMPTS as u64);
    push_str(&mut v, " attempts");
    StreamEvent::SessionError { error: string_from_chars(&v) }
}

/// A text part is never lost or reordered: what an event sends as chunks,
/// followed by what stays pending, is the text pending before it followed
/// by the text it brought (none for a skipped echo).
pub proof fn law_text_conserved(before: Seq<char>, es: Seq<StreamEvent>, rest: Seq<StreamEvent>, after: Seq<char>)
    requires
        flushed_then(before, es, rest),
        streamed_text(rest) == Seq::<char>::empty(),
        after.len() == 0,
    ensures
        streamed_text(es) + after == before,
{
    lemma_streamed_text_prefix(before, es, rest);
}

proof fn lemma_streamed_text_front(e: StreamEvent, rest: Seq<StreamEvent>)
    ensures
        streamed_text(seq![e] + rest) == chunk_text(e) + streamed_text(rest),
    decreases rest.len(),
{
    if rest.len() == 0 {
        assert(seq![e] + rest =~= seq![e]);
        assert(seq![e].drop_last() =~= Seq::<StreamEvent>::empty());
        assert(streamed_text(Seq::<StreamEvent>::empty()) == Seq::<char>::empty());
        assert(streamed_text(seq![e]) == streamed_text(Seq::<StreamEvent>::empty()) + chunk_text(e));
        assert(chunk_text(e) + streamed_text(rest) =~= chunk_text(e));
        assert(Seq::<char>::empty() + chunk_text(e) =~= chunk_text(e));
    } else {
        lemma_streamed_text_front(e, rest.drop_last());
        assert((seq![e] + rest).drop_last() =~= seq![e] + rest.drop_last());
        assert((seq![e] + rest).last() == rest.last());
        assert(chunk_text(e) + streamed_text(rest.drop_last()) + chunk_text(rest.last()) =~= chunk_text(e) + (
        streamed_text(rest.drop_last()) + chunk_text(rest.last())));
    }
}

proof fn lemma_streamed_text_prefix(before: Seq<char>, es: Seq<StreamEvent>, rest: Seq<StreamEvent>)
    requires
        flushed_then(before, es, rest),
    ensures
        streamed_text(es) == before + streamed_text(rest),
{
    if before.len() == 0 {
        assert(before + streamed_text(rest) =~= streamed_text(rest));
    } else {
        assert(es =~= seq![es[0]] + rest);
        lemma_streamed_text_front(es[0], rest);
    }
}

/// A message sent from Telegram is skipped until it is forgotten; once
/// forgotten, it is streamed again.
pub proof fn law_dedup_mark_unmark(d: Set<(Seq<char>, Seq<char>)>, session: Seq<char>, text: Seq<char>)
    ensures
        d.insert((session, text)).contains((session, text)),
        !d.insert((session, text)).remove((session, text)).contains((session, text)),
{
}

/// The reconnection delay never exceeds [`MAX_RECONNECT_DELAY_SECS`], and
/// doubles until it does.
pub proof fn law_reconnect_delay_capped(attempt: nat)
    ensures
        1 <= reconnect_delay(attempt) <= MAX_RECONNECT_DELAY_SECS,
        2 * reconnect_delay(attempt) <= MAX_RECONNECT_DELAY_SECS ==> reconnect_delay(attempt + 1) == 2 * reconnect_delay(attempt),
    decreases attempt,
{
    if attempt > 0 {
        law_reconnect_delay_capped((attempt - 1) as nat);
    }
}

} // verus!
