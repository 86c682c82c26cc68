//! Inline-keyboard callbacks: routing by prefix, the data of each kind of
//! button, and the keyboards that carry them.

use vstd::prelude::*;
use crate::error::OutpostError;
use crate::handlers::clear::{worktree_repo, worktree_repo_of};
use crate::handlers::topic::is_telegram_error;
use crate::paths::{file_name, file_name_of};
use crate::types::TopicMapping;
use crate::text::{
    char_vecs_view, chars_eq, chars_of, find_char, find_char_exec, int_decimal, lemma_find_char, owned,
    parse_i32_in, parse_i32_spec, push_int_decimal, push_str, slice_chars, split_chars, split_on, starts_with,
    starts_with_exec, string_from_chars, free_of, lemma_split_cons, lemma_split_single,
    lemma_int_decimal_reads_back,
};

verus! {

/// Which handler a callback goes to.
#[derive(Debug, Clone, Copy, PartialEq, Eq, Structural)]
pub enum CallbackRoute {
    /// The callback carries no data: it is only acknowledged.
    Missing,
    /// `perm:...`: a permission answer.
    Permission,
    /// `close:...`: a close confirmation.
    Close,
    /// `proj:...`: a project chosen for a topic.
    ProjectSelection,
    /// Anything else: answered with "Unknown action".
    Unknown,
}

/// The route of a callback by the prefix of its data.
pub open spec fn route_of(data: Option<Seq<char>>) -> CallbackRoute {
    match data {
        None => CallbackRoute::Missing,
        Some(d) => if starts_with(d, "perm:"@) {
            CallbackRoute::Permission
        } else if starts_with(d, "close:"@) {
            CallbackRoute::Close
        } else if starts_with(d, "proj:"@) {
            CallbackRoute::ProjectSelection
        } else {
            CallbackRoute::Unknown
        },
    }
}

/// Routes a callback by its data.
pub fn route_callback(data: Option<&str>) -> (r: CallbackRoute)
    ensures
        r == route_of(match data {
            Some(d) => Some(d@),
            None => None,
        }),
{
    match data {
        None => CallbackRoute::Missing,
        Some(d) => {
            let v = chars_of(d);
            if starts_with_exec(&v, &chars_of("perm:")) {
                CallbackRoute::Permission
            } else if starts_with_exec(&v, &chars_of("close:")) {
                CallbackRoute::Close
            } else if starts_with_exec(&v, &chars_of("proj:")) {
                CallbackRoute::ProjectSelection
            } else {
                CallbackRoute::Unknown
            }
        },
    }
}

/// `data.splitn(3, ':')` when it gives three parts.
pub open spec fn split3(s: Seq<char>) -> Option<(Seq<char>, Seq<char>, Seq<char>)> {
    let e0 = find_char(s, ':', 0);
    if e0 >= s.len() {
        None
    } else {
        let e1 = find_char(s, ':', e0 + 1);
        if e1 >= s.len() {
            None
        } else {
            Some((s.subrange(0, e0), s.subrange(e0 + 1, e1), s.subrange(e1 + 1, s.len() as int)))
        }
    }
}

/// What `proj:{topic_id}:{name}` data gives: the topic and the project name,
/// or the message of what is wrong with it.
pub open spec fn project_callback(s: Seq<char>) -> Result<(i32, Seq<char>), Seq<char>> {
    match split3(s) {
        None => Err("Invalid project callback data format"@),
        Some((p0, p1, p2)) => if p0 != "proj"@ {
            Err("Invalid project callback data format"@)
        } else {
            match parse_i32_spec(p1) {
                None => Err("Invalid topic ID in callback data"@),
                Some(t) => if p2.len() == 0 {
                    Err("Empty project name in callback data"@)
                } else {
                    Ok((t as i32, p2))
                },
            }
        },
    }
}

/// Reads `proj:{topic_id}:{name}`; the name is everything after the second `:`.
pub fn parse_project_callback_data(data: &str) -> (r: Result<(i32, String), OutpostError>)
    ensures
        match project_callback(data@) {
            Ok((t, n)) => r matches Ok((t2, n2)) && t2 == t && n2@ == n,
            Err(m) => r matches Err(e) && is_telegram_error(e, m),
        },
{
    let s = chars_of(data);
    let e0 = find_char_exec(&s, ':', 0);
    proof { lemma_find_char(s@, ':', 0); }
    if e0 >= s.len() {
        return Err(OutpostError::telegram_error("Invalid project callback data format"));
    }
    let e1 = find_char_exec(&s, ':', e0 + 1);
    proof { lemma_find_char(s@, ':', e0 + 1); }
    if e1 >= s.len() {
        return Err(OutpostError::telegram_error("Invalid project callback data format"));
    }
    let p0 = slice_chars(&s, 0, e0);
    if !chars_eq(&p0, &chars_of("proj")) {
        return Err(OutpostError::telegram_error("Invalid project callback data format"));
    }
    let topic_id = match parse_i32_in(&s, e0 + 1, e1) {
        Some(t) => t,
        None => return Err(OutpostError::telegram_error("Invalid topic ID in callback data")),
    };
    if e1 + 1 == s.len() {
        assert(s@.subrange(e1 + 1, s@.len() as int).len() == 0);
        return Err(OutpostError::telegram_error("Empty project name in callback data"));
    }
    let name = slice_chars(&s, e1 + 1, s.len());
    Ok((topic_id, string_from_chars(&name)))
}

/// What `perm:{session}:{permission}:{action}` data gives.
pub open spec fn permission_callback(s: Seq<char>) -> Option<(Seq<char>, Seq<char>, Seq<char>)> {
    let parts = split_on(s, ':');
    if parts.len() == 4 && parts[0] == "perm"@ {
        Some((parts[1], parts[2], parts[3]))
    } else {
        None
    }
}

/// Reads `perm:{session}:{permission}:{action}`: exactly four `:`-separated parts.
pub fn parse_callback_data(data: &str) -> (r: Result<(String, String, String), OutpostError>)
    ensures
        match permission_callback(data@) {
            Some((a, b, c)) => r matches Ok((x, y, z)) && x@ == a && y@ == b && z@ == c,
            None => r matches Err(e) && is_telegram_error(e, "Invalid callback data format"@),
        },
{
    let s = chars_of(data);
    let parts = split_chars(&s, ':');
    assert(char_vecs_view(parts@) == split_on(data@, ':'));
    if parts.len() != 4 || !chars_eq(&parts[0], &chars_of("perm")) {
        proof {
            if parts.len() == 4 {
                assert(char_vecs_view(parts@)[0] == parts@[0]@);
            }
        }
        return Err(OutpostError::telegram_error("Invalid callback data format"));
    }
    assert(char_vecs_view(parts@)[0] == parts@[0]@);
    assert(char_vecs_view(parts@)[1] == parts@[1]@);
    assert(char_vecs_view(parts@)[2] == parts@[2]@);
    assert(char_vecs_view(parts@)[3] == parts@[3]@);
    Ok((string_from_chars(&parts[1]), string_from_chars(&parts[2]), string_from_chars(&parts[3])))
}

/// Whether a permission answer grants the permission.
pub fn is_allow(action: &str) -> (b: bool)
    ensures
        b == (action@ == "allow"@),
{
    crate::text::str_eq(action, "allow")
}

/// The text that replaces a permission request once it is answered.
pub fn permission_result_text(allow: bool) -> (r: &'static str)
    ensures
        r@ == if allow { "✅ Allowed"@ } else { "❌ Denied"@ },
{
    if allow { "✅ Allowed" } else { "❌ Denied" }
}

/// The text of a permission request.
pub fn format_permission_message(description: &str) -> (r: String)
    ensures
        r@ == "Permission Request\n\nOpenCode wants to:\n["@ + description@ + "]"@,
{
    let mut v: Vec<char> = Vec::new();
    push_str(&mut v, "Permission Request\n\nOpenCode wants to:\n[");
    push_str(&mut v, description);
    push_str(&mut v, "]");
    string_from_chars(&v)
}

/// An inline-keyboard button: its label and the data its press sends.
#[derive(Debug, Clone)]
pub struct KeyboardButton {
    pub text: String,
    pub callback_data: String,
}

/// Rows of inline buttons.
#[derive(Debug, Clone)]
pub struct InlineKeyboard {
    pub inline_keyboard: Vec<Vec<KeyboardButton>>,
}

/// A button as its label and data.
pub open spec fn button_view(b: KeyboardButton) -> (Seq<char>, Seq<char>) {
    (b.text@, b.callback_data@)
}

/// Rows of buttons as rows of (label, data).
pub open spec fn rows_view(rows: Seq<Vec<KeyboardButton>>) -> Seq<Seq<(Seq<char>, Seq<char>)>> {
    rows.map_values(|row: Vec<KeyboardButton>| row@.map_values(|b: KeyboardButton| button_view(b)))
}

/// The keyboard as rows of (label, data).
pub open spec fn keyboard_view(k: InlineKeyboard) -> Seq<Seq<(Seq<char>, Seq<char>)>> {
    rows_view(k.inline_keyboard@)
}

fn button(text: &str, data: Vec<char>) -> (b: KeyboardButton)
    ensures
        b.text@ == text@,
        b.callback_data@ == data@,
{
    KeyboardButton { text: owned(text), callback_data: string_from_chars(&data) }
}

/// Allow and Deny buttons for a permission of a session.
pub fn create_inline_keyboard(session_id: &str, permission_id: &str) -> (k: InlineKeyboard)
    ensures
        keyboard_view(k) == seq![
            seq![
                ("Allow"@, "perm:"@ + session_id@ + ":"@ + permission_id@ + ":allow"@),
                ("Deny"@, "perm:"@ + session_id@ + ":"@ + permission_id@ + ":deny"@),
            ],
        ],
{
    let mut a: Vec<char> = Vec::new();
    push_str(&mut a, "perm:");
    push_str(&mut a, session_id);
    push_str(&mut a, ":");
    push_str(&mut a, permission_id);
    let mut d = a.clone();
    push_str(&mut a, ":allow");
    push_str(&mut d, ":deny");
    let k = InlineKeyboard { inline_keyboard: vec![vec![button("Allow", a), button("Deny", d)]] };
    assert(keyboard_view(k)[0] =~= seq![
        ("Allow"@, "perm:"@ + session_id@ + ":"@ + permission_id@ + ":allow"@),
        ("Deny"@, "perm:"@ + session_id@ + ":"@ + permission_id@ + ":deny"@),
    ]);
    assert(keyboard_view(k) =~= seq![keyboard_view(k)[0]]);
    k
}

/// Confirm and Cancel buttons for closing a topic.
pub fn close_keyboard(topic_id: i32) -> (k: InlineKeyboard)
    ensures
        keyboard_view(k) == seq![
            seq![
                ("✅ Confirm"@, "close:"@ + int_decimal(topic_id as int) + ":confirm"@),
                ("❌ Cancel"@, "close:"@ + int_decimal(topic_id as int) + ":cancel"@),
            ],
        ],
{
    let mut a: Vec<char> = Vec::new();
    push_str(&mut a, "close:");
    push_int_decimal(&mut a, topic_id as i64);
    let mut c = a.clone();
    push_str(&mut a, ":confirm");
    push_str(&mut c, ":cancel");
    let k = InlineKeyboard { inline_keyboard: vec![vec![button("✅ Confirm", a), button("❌ Cancel", c)]] };
    assert(keyboard_view(k)[0] =~= seq![
        ("✅ Confirm"@, "close:"@ + int_decimal(topic_id as int) + ":confirm"@),
        ("❌ Cancel"@, "close:"@ + int_decimal(topic_id as int) + ":cancel"@),
    ]);
    assert(keyboard_view(k) =~= seq![keyboard_view(k)[0]]);
    k
}

/// What a close button asks for.
#[derive(Debug, Clone, Copy, PartialEq, Eq, Structural)]
pub enum CloseAction {
    Confirm,
    Cancel,
    /// Any other action: nothing is done.
    Other,
}

/// What `close:{topic_id}:{action}` data gives.
pub open spec fn close_callback(s: Seq<char>) -> Result<(i32, CloseAction), Seq<char>> {
    let parts = split_on(s, ':');
    if parts.len() != 3 || parts[0] != "close"@ {
        Err("Invalid close callback data format"@)
    } else {
        match parse_i32_spec(parts[1]) {
            None => Err("Invalid topic_id in callback data"@),
            Some(t) => Ok((t as i32, if parts[2] == "confirm"@ {
                CloseAction::Confirm
            } else if parts[2] == "cancel"@ {
                CloseAction::Cancel
            } else {
                CloseAction::Other
            })),
        }
    }
}

/// Reads `close:{topic_id}:{action}`.
pub fn parse_close_callback(data: &str) -> (r: Result<(i32, CloseAction), OutpostError>)
    ensures
        match close_callback(data@) {
            Ok(v) => r matches Ok(w) && w == v,
            Err(m) => r matches Err(e) && is_telegram_error(e, m),
        },
{
    let s = chars_of(data);
    let parts = split_chars(&s, ':');
    assert(char_vecs_view(parts@) == split_on(data@, ':'));
    if parts.len() != 3 || !chars_eq(&parts[0], &chars_of("close")) {
        proof {
            if parts.len() == 3 {
                assert(char_vecs_view(parts@)[0] == parts@[0]@);
            }
        }
        return Err(OutpostError::telegram_error("Invalid close callback data format"));
    }
    assert(char_vecs_view(parts@)[0] == parts@[0]@);
    assert(char_vecs_view(parts@)[1] == parts@[1]@);
    assert(char_vecs_view(parts@)[2] == parts@[2]@);
    assert(parts@[1]@.subrange(0, parts@[1]@.len() as int) == parts@[1]@);
    let topic_id = match parse_i32_in(&parts[1], 0, parts[1].len()) {
        Some(t) => t,
        None => return Err(OutpostError::telegram_error("Invalid topic_id in callback data")),
    };
    let action = if chars_eq(&parts[2], &chars_of("confirm")) {
        CloseAction::Confirm
    } else if chars_eq(&parts[2], &chars_of("cancel")) {
        CloseAction::Cancel
    } else {
        CloseAction::Other
    };
    Ok((topic_id, action))
}


proof fn lemma_permission_data(session: Seq<char>, permission: Seq<char>, a: Seq<char>)
    requires
        free_of(session, ':'),
        free_of(permission, ':'),
        free_of(a, ':'),
    ensures
        route_of(Some("perm:"@ + session + ":"@ + permission + ":"@ + a)) == CallbackRoute::Permission,
        permission_callback("perm:"@ + session + ":"@ + permission + ":"@ + a) == Some((session, permission, a)),
{
    reveal_strlit("perm:");
    reveal_strlit("perm");
    reveal_strlit(":");
    let d = "perm:"@ + session + ":"@ + permission + ":"@ + a;
    let tail = permission + seq![':'] + a;
    let rest = session + seq![':'] + tail;
    assert(d =~= "perm"@ + seq![':'] + rest);
    assert(free_of("perm"@, ':'));
    lemma_split_cons("perm"@, ':', rest);
    lemma_split_cons(session, ':', tail);
    lemma_split_cons(permission, ':', a);
    lemma_split_single(a, ':');
    assert(split_on(d, ':') =~= seq!["perm"@, session, permission, a]);
    assert(d.take(5) =~= "perm:"@);
}

/// The buttons of a permission request go to the permission handler, which
/// reads back the session, the permission and the answer from them, as long as
/// neither id holds a `:`.
pub proof fn law_permission_buttons_read_back(session: Seq<char>, permission: Seq<char>)
    requires
        free_of(session, ':'),
        free_of(permission, ':'),
    ensures
        route_of(Some("perm:"@ + session + ":"@ + permission + ":allow"@)) == CallbackRoute::Permission,
        route_of(Some("perm:"@ + session + ":"@ + permission + ":deny"@)) == CallbackRoute::Permission,
        permission_callback("perm:"@ + session + ":"@ + permission + ":allow"@) == Some((session, permission, "allow"@)),
        permission_callback("perm:"@ + session + ":"@ + permission + ":deny"@) == Some((session, permission, "deny"@)),
{
    reveal_strlit(":");
    reveal_strlit("allow");
    reveal_strlit(":allow");
    reveal_strlit("deny");
    reveal_strlit(":deny");
    let head = "perm:"@ + session + ":"@ + permission;
    assert(head + ":allow"@ =~= head + ":"@ + "allow"@);
    assert(head + ":deny"@ =~= head + ":"@ + "deny"@);
    assert(free_of("allow"@, ':'));
    assert(free_of("deny"@, ':'));
    lemma_permission_data(session, permission, "allow"@);
    lemma_permission_data(session, permission, "deny"@);
}

proof fn lemma_close_data(topic_id: i32, a: Seq<char>)
    requires
        free_of(a, ':'),
    ensures
        route_of(Some("close:"@ + int_decimal(topic_id as int) + ":"@ + a)) == CallbackRoute::Close,
        split_on("close:"@ + int_decimal(topic_id as int) + ":"@ + a, ':') == seq!["close"@, int_decimal(topic_id as int), a],
{
    reveal_strlit("close:");
    reveal_strlit("close");
    reveal_strlit(":");
    reveal_strlit("perm:");
    lemma_int_decimal_reads_back(topic_id);
    let n = int_decimal(topic_id as int);
    let d = "close:"@ + n + ":"@ + a;
    let rest = n + seq![':'] + a;
    assert(d =~= "close"@ + seq![':'] + rest);
    assert(free_of("close"@, ':'));
    lemma_split_cons("close"@, ':', rest);
    lemma_split_cons(n, ':', a);
    lemma_split_single(a, ':');
    assert(split_on(d, ':') =~= seq!["close"@, n, a]);
    assert(d.take(6) =~= "close:"@);
    assert(d.take(5)[0] != "perm:"@[0]);
}

/// The Confirm and Cancel buttons of `/close` go to the close handler, which
/// reads back the topic and the choice from them.
pub proof fn law_close_buttons_read_back(topic_id: i32)
    ensures
        route_of(Some("close:"@ + int_decimal(topic_id as int) + ":confirm"@)) == CallbackRoute::Close,
        route_of(Some("close:"@ + int_decimal(topic_id as int) + ":cancel"@)) == CallbackRoute::Close,
        close_callback("close:"@ + int_decimal(topic_id as int) + ":confirm"@) == Ok::<(i32, CloseAction), Seq<char>>((topic_id, CloseAction::Confirm)),
        close_callback("close:"@ + int_decimal(topic_id as int) + ":cancel"@) == Ok::<(i32, CloseAction), Seq<char>>((topic_id, CloseAction::Cancel)),
{
    reveal_strlit(":");
    reveal_strlit("confirm");
    reveal_strlit(":confirm");
    reveal_strlit("cancel");
    reveal_strlit(":cancel");
    reveal_strlit("close");
    let head = "close:"@ + int_decimal(topic_id as int);
    assert(head + ":confirm"@ =~= head + ":"@ + "confirm"@);
    assert(head + ":cancel"@ =~= head + ":"@ + "cancel"@);
    assert(free_of("confirm"@, ':'));
    assert(free_of("cancel"@, ':'));
    lemma_close_data(topic_id, "confirm"@);
    lemma_close_data(topic_id, "cancel"@);
    lemma_int_decimal_reads_back(topic_id);
    assert("cancel"@ != "confirm"@);
}


/// One step of closing a topic once the user confirmed.
#[derive(Debug, Clone)]
pub enum CloseStep {
    /// Stop the topic's instance.
    StopInstance { instance_id: String },
    /// Remove the worktree at `path` from the repository at `repo_root`.
    RemoveWorktree { repo_root: String, path: String },
    /// Delete the worktree's branch from the repository at `repo_root`.
    DeleteBranch { repo_root: String, branch: String },
    /// Delete the topic's mapping.
    DeleteMapping,
    /// Delete the forum topic.
    DeleteTopic,
}

/// A step as a tag and its two text arguments (empty where it has fewer).
pub open spec fn step_view(s: CloseStep) -> (int, Seq<char>, Seq<char>) {
    match s {
        CloseStep::StopInstance { instance_id } => (0, instance_id@, seq![]),
        CloseStep::RemoveWorktree { repo_root, path } => (1, repo_root@, path@),
        CloseStep::DeleteBranch { repo_root, branch } => (2, repo_root@, branch@),
        CloseStep::DeleteMapping => (3, seq![], seq![]),
        CloseStep::DeleteTopic => (4, seq![], seq![]),
    }
}

/// The steps of closing a topic whose mapping is `m` (if the topic has one):
/// stop its instance, if it has one; when its project is a worktree, remove
/// the worktree and delete its branch `wt/{name}`; then delete the mapping
/// and the topic.
pub open spec fn close_plan(m: Option<TopicMapping>) -> Seq<(int, Seq<char>, Seq<char>)> {
    let stop = match m {
        Some(m) => match m.instance_id {
            Some(id) => seq![(0int, id@, Seq::<char>::empty())],
            None => Seq::empty(),
        },
        None => Seq::empty(),
    };
    let worktree = match m {
        Some(m) => match worktree_repo(m.project_path@) {
            Some(root) => seq![(1int, root, m.project_path@)] + match file_name(m.project_path@) {
                Some(n) => seq![(2int, root, "wt/"@ + n)],
                None => Seq::empty(),
            },
            None => Seq::empty(),
        },
        None => Seq::empty(),
    };
    stop + worktree + seq![(3int, Seq::<char>::empty(), Seq::<char>::empty()), (4int, Seq::<char>::empty(), Seq::<char>::empty())]
}

/// The steps of closing a topic, in order.
pub fn close_steps(mapping: Option<&TopicMapping>) -> (r: Vec<CloseStep>)
    ensures
        r@.map_values(|s: CloseStep| step_view(s)) == close_plan(match mapping {
            Some(m) => Some(*m),
            None => None,
        }),
{
    let mut r: Vec<CloseStep> = Vec::new();
    if let Some(m) = mapping {
        if let Some(id) = &m.instance_id {
            r.push(CloseStep::StopInstance { instance_id: id.clone() });
        }
        if let Some(root) = worktree_repo_of(m.project_path.as_str()) {
            r.push(CloseStep::RemoveWorktree { repo_root: root.clone(), path: m.project_path.clone() });
            if let Some(n) = file_name_of(m.project_path.as_str()) {
                let mut b: Vec<char> = Vec::new();
                push_str(&mut b, "wt/");
                push_str(&mut b, n.as_str());
                r.push(CloseStep::DeleteBranch { repo_root: root, branch: string_from_chars(&b) });
            }
        }
    }
    r.push(CloseStep::DeleteMapping);
    r.push(CloseStep::DeleteTopic);
    proof {
        reveal_strlit("wt/");
    }
    assert(r@.map_values(|s: CloseStep| step_view(s)) =~= close_plan(match mapping {
        Some(m) => Some(*m),
        None => None,
    }));
    r
}


/// Closing a topic always stops its instance first when the mapping has one,
/// whatever its project path; it removes a worktree, and deletes its branch
/// `wt/{name}`, exactly when the project is a worktree of a repository; and it
/// always ends by deleting the mapping and then the topic.
pub proof fn law_close_plan(m: TopicMapping)
    ensures
        match m.instance_id {
            Some(id) => close_plan(Some(m))[0] == (0int, id@, Seq::<char>::empty()),
            None => close_plan(Some(m))[0].0 != 0,
        },
        forall|k: int| 0 < k < close_plan(Some(m)).len() ==> (#[trigger] close_plan(Some(m))[k]).0 != 0,
        (exists|k: int| 0 <= k < close_plan(Some(m)).len() && (#[trigger] close_plan(Some(m))[k]).0 == 1)
            <==> worktree_repo(m.project_path@) is Some,
        worktree_repo(m.project_path@) matches Some(root) ==> close_plan(Some(m)).contains((1int, root, m.project_path@)),
        worktree_repo(m.project_path@) is Some && file_name(m.project_path@) is Some ==> close_plan(Some(m)).contains(
            (2int, worktree_repo(m.project_path@).unwrap(), "wt/"@ + file_name(m.project_path@).unwrap()),
        ),
        close_plan(Some(m)).len() >= 2,
        close_plan(Some(m))[close_plan(Some(m)).len() - 2].0 == 3,
        close_plan(Some(m)).last().0 == 4,
        close_plan(None::<TopicMapping>) == seq![(3int, Seq::<char>::empty(), Seq::<char>::empty()), (4int, Seq::<char>::empty(), Seq::<char>::empty())],
{
    let p = close_plan(Some(m));
    match worktree_repo(m.project_path@) {
        Some(root) => {
            let k: int = if m.instance_id is Some { 1 } else { 0 };
            assert(p[k] == (1int, root, m.project_path@));
            if file_name(m.project_path@) is Some {
                assert(p[k + 1].0 == 2);
            }
        },
        None => {
            assert forall|k: int| 0 <= k < p.len() implies (#[trigger] p[k]).0 != 1 by {}
        },
    }
}

} // verus!
