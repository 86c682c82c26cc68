//! The HTTP API through which OpenCode instances started elsewhere register
//! themselves: requests, responses, authorization and the records kept.

use vstd::prelude::*;
use crate::text::{chars_of, decimal, owned, push_decimal, push_str, starts_with, starts_with_exec, str_eq, string_from_chars, slice_chars};
use crate::types::{InstanceInfo, InstanceState};
use crate::container::strings_view;

verus! {

/// `POST /api/register`: an instance serving `project_path` on `port` with session `session_id`.
#[derive(Debug, Clone)]
pub struct RegisterRequest {
    pub project_path: String,
    pub port: u16,
    pub session_id: String,
}

/// `POST /api/unregister`: forget the instance of `project_path`.
#[derive(Debug, Clone)]
pub struct UnregisterRequest {
    pub project_path: String,
}

/// `GET /api/status/{path}`: whether the path is registered, and its instance.
#[derive(Debug, Clone)]
pub struct StatusResponse {
    pub registered: bool,
    pub instance: Option<InstanceInfo>,
}

/// `GET /api/instances`: the registered instances.
#[derive(Debug, Clone)]
pub struct InstancesResponse {
    pub instances: Vec<InstanceInfo>,
}

/// The id of the instance registered on `port`.
pub open spec fn external_id(port: u16) -> Seq<char> {
    "external-"@ + decimal(port as nat)
}

/// The record of a registered instance, registered at `now_ms` (milliseconds).
pub fn registered_instance(req: &RegisterRequest, now_ms: i64) -> (i: InstanceInfo)
    ensures
        i.id@ == external_id(req.port),
        i.state == InstanceState::Running,
        i.project_path@ == req.project_path@,
        i.port == req.port,
        i.pid is None,
        i.container_id is None,
        i.started_at == Some(now_ms),
        i.stopped_at is None,
        i.topic_id == 0,
{
    let mut v: Vec<char> = Vec::new();
    push_str(&mut v, "external-");
    push_decimal(&mut v, req.port as u64);
    InstanceInfo {
        id: string_from_chars(&v),
        state: InstanceState::Running,
        project_path: req.project_path.clone(),
        port: req.port,
        pid: None,
        container_id: None,
        started_at: Some(now_ms),
        stopped_at: None,
        topic_id: 0,
    }
}

/// The project path of a status request: the route drops the leading `/`,
/// which is put back.
pub fn status_path(path: &str) -> (r: String)
    ensures
        r@ == if path@.len() > 0 && path@[0] == '/' { path@ } else { "/"@ + path@ },
{
    let v = chars_of(path);
    if v.len() > 0 && v[0] == '/' {
        owned(path)
    } else {
        let mut w: Vec<char> = Vec::new();
        push_str(&mut w, "/");
        push_str(&mut w, path);
        string_from_chars(&w)
    }
}

/// Whether a request may pass: when a key is configured, its
/// `Authorization` header must be `Bearer {key}`.
pub open spec fn authorized(expected: Option<Seq<char>>, header: Option<Seq<char>>) -> bool {
    match expected {
        None => true,
        Some(k) => match header {
            Some(h) => starts_with(h, "Bearer "@) && h.skip(7) == k,
            None => false,
        },
    }
}

/// Checks the API key of a request.
pub fn is_authorized(expected: Option<&str>, authorization: Option<&str>) -> (b: bool)
    ensures
        b == authorized(match expected {
            Some(k) => Some(k@),
            None => None,
        }, match authorization {
            Some(h) => Some(h@),
            None => None,
        }),
{
    match expected {
        None => true,
        Some(k) => match authorization {
            None => false,
            Some(h) => {
                let hv = chars_of(h);
                let p = chars_of("Bearer ");
                proof { reveal_strlit("Bearer "); }
                if !starts_with_exec(&hv, &p) {
                    return false;
                }
                let rest = slice_chars(&hv, 7, hv.len());
                assert(rest@ =~= h@.skip(7));
                crate::text::chars_eq(&rest, &chars_of(k))
            },
        },
    }
}

/// Whether an instance was registered through the API.
pub open spec fn is_external(i: InstanceInfo) -> bool {
    starts_with(i.id@, "external-"@)
}

/// The registered instances among all recorded ones, in order.
pub open spec fn external_instances(s: Seq<InstanceInfo>) -> Seq<InstanceInfo>
    decreases s.len(),
{
    if s.len() == 0 {
        Seq::empty()
    } else {
        let rest = external_instances(s.drop_last());
        if is_external(s.last()) { rest.push(s.last()) } else { rest }
    }
}

/// Whether an instance registered itself through the API (and is not managed here).
pub fn is_external_instance(info: &InstanceInfo) -> (b: bool)
    ensures
        b == is_external(*info),
{
    let p = chars_of("external-");
    proof { reveal_strlit("external-"); }
    starts_with_exec(&chars_of(info.id.as_str()), &p)
}

/// The answer of `GET /api/instances`.
pub fn list_external(instances: Vec<InstanceInfo>) -> (r: InstancesResponse)
    ensures
        r.instances@ == external_instances(instances@),
{
    let mut out: Vec<InstanceInfo> = Vec::new();
    let mut rest = instances;
    let ghost all = rest@;
    let ghost mut k: int = 0;
    while rest.len() > 0
        invariant
            0 <= k <= all.len(),
            rest@ == all.skip(k),
            out@ == external_instances(all.take(k)),
        decreases rest.len(),
    {
        let x = rest.remove(0);
        proof {
            assert(x == all[k]);
            assert(all.take(k + 1).drop_last() =~= all.take(k));
            assert(all.take(k + 1).last() == x);
        }
        if is_external_instance(&x) {
            out.push(x);
        }
        proof {
            k = k + 1;
            assert(rest@ =~= all.skip(k));
        }
    }
    assert(all.take(k) =~= all);
    InstancesResponse { instances: out }
}

/// HTTP status codes the API answers with.
pub const STATUS_OK: u16 = 200;
/// Created.
pub const STATUS_CREATED: u16 = 201;
/// No content.
pub const STATUS_NO_CONTENT: u16 = 204;
/// Unauthorized.
pub const STATUS_UNAUTHORIZED: u16 = 401;
/// Not found.
pub const STATUS_NOT_FOUND: u16 = 404;
/// Internal error.
pub const STATUS_INTERNAL_ERROR: u16 = 500;

/// The answer of `GET /api/status/{path}` once the store was asked: `200`
/// with the instance when the path is registered, else `404`.
pub fn status_response(found: Option<InstanceInfo>) -> (r: (u16, StatusResponse))
    ensures
        match found {
            Some(i) => r.0 == STATUS_OK && r.1.registered && r.1.instance == Some(i),
            None => r.0 == STATUS_NOT_FOUND && !r.1.registered && r.1.instance is None,
        },
{
    match found {
        Some(i) => (STATUS_OK, StatusResponse { registered: true, instance: Some(i) }),
        None => (STATUS_NOT_FOUND, StatusResponse { registered: false, instance: None }),
    }
}

} // verus!
