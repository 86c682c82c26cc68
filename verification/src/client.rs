//! The OpenCode REST API: endpoint addresses and request bodies. The HTTP
//! exchange itself is made by the caller.

use vstd::prelude::*;
use crate::text::{chars_of, owned, push_str, string_from_chars};
use crate::types::{CreateMessageRequest, Message, MessagePart};

verus! {

/// Who answered a message, and with which model.
#[derive(Clone, Debug)]
pub struct ResponseMetadata {
    pub id: String,
    pub role: String,
    pub model: Option<String>,
}

/// The answer to a synchronous message.
#[derive(Clone, Debug)]
pub struct MessageResponse {
    pub message: Message,
    pub metadata: ResponseMetadata,
}

/// `s` without its trailing `/` characters.
pub open spec fn trim_trailing_slashes(s: Seq<char>) -> Seq<char>
    decreases s.len(),
{
    if s.len() > 0 && s.last() == '/' {
        trim_trailing_slashes(s.drop_last())
    } else {
        s
    }
}

/// The addresses of an OpenCode server's API.
#[derive(Clone, Debug)]
pub struct OpenCodeApi {
    base_url: String,
}

impl OpenCodeApi {
    /// The server's address, without trailing slashes.
    pub closed spec fn base(&self) -> Seq<char> {
        self.base_url@
    }

    /// The API of the server at `base_url`; trailing slashes are dropped.
    pub fn new(base_url: &str) -> (r: Self)
        ensures
            r.base() == trim_trailing_slashes(base_url@),
    {
        let v = chars_of(base_url);
        let mut n = v.len();
        assert(v@.take(v.len() as int) =~= v@);
        while n > 0 && v[n - 1] == '/'
            invariant
                n <= v.len(),
                trim_trailing_slashes(v@) == trim_trailing_slashes(v@.take(n as int)),
            decreases n,
        {
            assert(v@.take(n as int).drop_last() =~= v@.take(n - 1));
            n -= 1;
        }
        let t = crate::text::slice_chars(&v, 0, n);
        assert(v@.take(n as int) =~= v@.subrange(0, n as int));
        OpenCodeApi { base_url: string_from_chars(&t) }
    }

    /// The server's address.
    pub fn base_url(&self) -> (r: &str)
        ensures
            r@ == self.base(),
    {
        self.base_url.as_str()
    }

    /// `{base}/global/health`.
    pub fn health_url(&self) -> (r: String)
        ensures
            r@ == self.base() + "/global/health"@,
    {
        let mut v = chars_of(self.base_url.as_str());
        push_str(&mut v, "/global/health");
        string_from_chars(&v)
    }

    /// `{base}/sessions`.
    pub fn sessions_url(&self) -> (r: String)
        ensures
            r@ == self.base() + "/sessions"@,
    {
        let mut v = chars_of(self.base_url.as_str());
        push_str(&mut v, "/sessions");
        string_from_chars(&v)
    }

    /// `{base}/session`.
    pub fn create_session_url(&self) -> (r: String)
        ensures
            r@ == self.base() + "/session"@,
    {
        let mut v = chars_of(self.base_url.as_str());
        push_str(&mut v, "/session");
        string_from_chars(&v)
    }

    /// `{base}/session/{id}{suffix}`.
    fn session_path(&self, id: &str, suffix: &str) -> (r: String)
        ensures
            r@ == self.base() + "/session/"@ + id@ + suffix@,
    {
        let mut v = chars_of(self.base_url.as_str());
        push_str(&mut v, "/session/");
        push_str(&mut v, id);
        push_str(&mut v, suffix);
        string_from_chars(&v)
    }

    /// `{base}/session/{id}`.
    pub fn session_url(&self, id: &str) -> (r: String)
        ensures
            r@ == self.base() + "/session/"@ + id@,
    {
        let mut v = chars_of(self.base_url.as_str());
        push_str(&mut v, "/session/");
        push_str(&mut v, id);
        string_from_chars(&v)
    }

    /// `{base}/session/{id}/prompt`.
    pub fn prompt_url(&self, session_id: &str) -> (r: String)
        ensures
            r@ == self.base() + "/session/"@ + session_id@ + "/prompt"@,
    {
        self.session_path(session_id, "/prompt")
    }

    /// `{base}/session/{id}/prompt_async`.
    pub fn prompt_async_url(&self, session_id: &str) -> (r: String)
        ensures
            r@ == self.base() + "/session/"@ + session_id@ + "/prompt_async"@,
    {
        self.session_path(session_id, "/prompt_async")
    }

    /// `{base}/session/{id}/stream`, the event stream of a session.
    pub fn sse_url(&self, session_id: &str) -> (r: String)
        ensures
            r@ == self.base() + "/session/"@ + session_id@ + "/stream"@,
    {
        self.session_path(session_id, "/stream")
    }

    /// `{base}/session/{id}/permission/{permission_id}/reply`.
    pub fn permission_reply_url(&self, session_id: &str, permission_id: &str) -> (r: String)
        ensures
            r@ == self.base() + "/session/"@ + session_id@ + "/permission/"@ + permission_id@ + "/reply"@,
    {
        let mut v = chars_of(self.base_url.as_str());
        push_str(&mut v, "/session/");
        push_str(&mut v, session_id);
        push_str(&mut v, "/permission/");
        push_str(&mut v, permission_id);
        push_str(&mut v, "/reply");
        string_from_chars(&v)
    }
}

/// The body that sends `text` as a user message, not streamed.
pub fn user_message_request(text: &str) -> (r: CreateMessageRequest)
    ensures
        r.message.role@ == "user"@,
        r.message.content@.len() == 1,
        r.message.content@[0] matches MessagePart::Text { text: t } && t@ == text@,
        r.stream == Some(false),
{
    let content = vec![MessagePart::Text { text: owned(text) }];
    CreateMessageRequest { message: Message { role: owned("user"), content }, stream: Some(false) }
}

} // verus!
