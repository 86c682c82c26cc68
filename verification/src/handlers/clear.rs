//! `/clear`: finding the topic mappings that went stale and what cleaning
//! each up involves.

use vstd::prelude::*;
use crate::paths::{file_name, file_name_of};
use crate::text::{
    char_vecs_view, chars_eq, chars_of, decimal, owned, push_decimal, push_str, split_chars, split_on,
    string_from_chars, trim_end, trim_end_chars,
};
use crate::types::{InstanceState, TopicMapping};

verus! {

/// A mapping untouched for longer than this, in seconds, is stale.
pub const STALE_THRESHOLD_SECS: i64 = 604800;

/// Why a mapping is stale.
#[derive(Debug, Clone, Copy, PartialEq, Eq, Structural)]
pub enum StalenessReason {
    InstanceStopped,
    InstanceUnhealthy,
    OrphanedMapping,
    IncompleteMapping,
    Inactive { days: u64 },
}

/// How a reason reads.
pub open spec fn reason_text(r: StalenessReason) -> Seq<char> {
    match r {
        StalenessReason::InstanceStopped => "instance stopped"@,
        StalenessReason::InstanceUnhealthy => "instance unreachable"@,
        StalenessReason::OrphanedMapping => "instance not found"@,
        StalenessReason::IncompleteMapping => "incomplete setup"@,
        StalenessReason::Inactive { days } => "inactive for "@ + decimal(days as nat) + " days"@,
    }
}

impl StalenessReason {
    /// How the reason reads.
    pub fn to_string(&self) -> (s: String)
        ensures
            s@ == reason_text(*self),
    {
        match self {
            StalenessReason::InstanceStopped => owned("instance stopped"),
            StalenessReason::InstanceUnhealthy => owned("instance unreachable"),
            StalenessReason::OrphanedMapping => owned("instance not found"),
            StalenessReason::IncompleteMapping => owned("incomplete setup"),
            StalenessReason::Inactive { days } => {
                let mut v: Vec<char> = Vec::new();
                push_str(&mut v, "inactive for ");
                push_decimal(&mut v, *days);
                push_str(&mut v, " days");
                string_from_chars(&v)
            },
        }
    }
}

/// What is known of the instance a mapping names.
#[derive(Debug, Clone, Copy, PartialEq, Eq, Structural)]
pub enum InstanceCheck {
    /// The store has no such instance.
    Missing,
    /// The instance is in this state; `healthy` is the answer of its health
    /// endpoint (asked only when it is not stopped or errored).
    Recorded { state: InstanceState, healthy: bool },
}

/// `a - b`, saturating at the bounds of `i64`.
pub open spec fn sat_sub(a: i64, b: i64) -> int {
    let d = a - b;
    if d > i64::MAX { i64::MAX as int } else if d < i64::MIN { i64::MIN as int } else { d }
}

/// Why the mapping is stale at time `now`, if it is. A mapping with an
/// instance is judged by the instance; one without, by its session and age.
pub open spec fn staleness_of(m: TopicMapping, check: InstanceCheck, now: i64) -> Option<StalenessReason> {
    if m.instance_id is Some {
        match check {
            InstanceCheck::Missing => Some(StalenessReason::OrphanedMapping),
            InstanceCheck::Recorded { state, healthy } => if state == InstanceState::Stopped || state == InstanceState::Error {
                Some(StalenessReason::InstanceStopped)
            } else if !healthy {
                Some(StalenessReason::InstanceUnhealthy)
            } else {
                None
            },
        }
    } else if m.session_id is None {
        Some(StalenessReason::IncompleteMapping)
    } else if sat_sub(now, m.updated_at) > STALE_THRESHOLD_SECS {
        Some(StalenessReason::Inactive { days: (sat_sub(now, m.updated_at) / 86400) as u64 })
    } else {
        None
    }
}

/// Judges one mapping.
pub fn staleness(mapping: &TopicMapping, check: InstanceCheck, now: i64) -> (r: Option<StalenessReason>)
    ensures
        r == staleness_of(*mapping, check, now),
{
    if mapping.instance_id.is_some() {
        return match check {
            InstanceCheck::Missing => Some(StalenessReason::OrphanedMapping),
            InstanceCheck::Recorded { state, healthy } => match state {
                InstanceState::Stopped | InstanceState::Error => Some(StalenessReason::InstanceStopped),
                _ => if !healthy {
                    Some(StalenessReason::InstanceUnhealthy)
                } else {
                    None
                },
            },
        };
    }
    if mapping.session_id.is_none() {
        return Some(StalenessReason::IncompleteMapping);
    }
    let wide: i128 = now as i128 - mapping.updated_at as i128;
    let age: i64 = if wide > i64::MAX as i128 {
        i64::MAX
    } else if wide < i64::MIN as i128 {
        i64::MIN
    } else {
        wide as i64
    };
    if age > STALE_THRESHOLD_SECS {
        Some(StalenessReason::Inactive { days: (age / 86400) as u64 })
    } else {
        None
    }
}

/// A stale mapping with the reason it is stale.
#[derive(Debug, Clone)]
pub struct CleanupCandidate {
    pub mapping: TopicMapping,
    pub reason: StalenessReason,
}

/// The name a project is listed under: the last component of its path, or the whole path.
pub open spec fn project_name_of(path: Seq<char>) -> Seq<char> {
    match file_name(path) {
        Some(n) => n,
        None => path,
    }
}

/// The name a project is listed under.
pub fn project_name_from_path(path: &str) -> (r: String)
    ensures
        r@ == project_name_of(path@),
{
    match file_name_of(path) {
        Some(n) => n,
        None => owned(path),
    }
}

/// The lines of the cleared mappings.
pub open spec fn cleared_lines(c: Seq<CleanupCandidate>) -> Seq<char>
    decreases c.len(),
{
    if c.len() == 0 {
        Seq::empty()
    } else {
        cleared_lines(c.drop_last()) + "• "@ + project_name_of(c.last().mapping.project_path@) + " — "@
            + reason_text(c.last().reason) + "\n"@
    }
}

/// The `/clear` answer.
pub open spec fn cleanup_text(c: Seq<CleanupCandidate>) -> Seq<char> {
    if c.len() == 0 {
        "🧹 Cleanup Complete\n\nNo stale mappings found. All connections are healthy."@
    } else {
        trim_end("🧹 Cleanup Complete\n\nCleared "@ + decimal(c.len()) + " stale mapping(s):\n"@ + cleared_lines(c))
    }
}

/// What `/clear` reports: each cleared mapping's project and reason.
pub fn build_cleanup_response(candidates: &[CleanupCandidate]) -> (r: String)
    ensures
        r@ == cleanup_text(candidates@),
{
    if candidates.len() == 0 {
        return owned("🧹 Cleanup Complete\n\nNo stale mappings found. All connections are healthy.");
    }
    let mut v: Vec<char> = Vec::new();
    push_str(&mut v, "🧹 Cleanup Complete\n\nCleared ");
    push_decimal(&mut v, candidates.len() as u64);
    push_str(&mut v, " stale mapping(s):\n");
    let ghost head = v@;
    let mut i: usize = 0;
    while i < candidates.len()
        invariant
            i <= candidates.len(),
            v@ == head + cleared_lines(candidates@.take(i as int)),
        decreases candidates.len() - i,
    {
        assert(candidates@.take(i + 1).drop_last() =~= candidates@.take(i as int));
        let c = &candidates[i];
        push_str(&mut v, "• ");
        let name = project_name_from_path(c.mapping.project_path.as_str());
        push_str(&mut v, name.as_str());
        push_str(&mut v, " — ");
        let reason = c.reason.to_string();
        push_str(&mut v, reason.as_str());
        push_str(&mut v, "\n");
        i += 1;
        assert(v@ =~= head + cleared_lines(candidates@.take(i as int)));
    }
    assert(candidates@.take(i as int) =~= candidates@);
    let t = trim_end_chars(&v);
    string_from_chars(&t)
}

/// The pieces of a path that name components: not empty, not `.`.
pub open spec fn normal_pieces(p: Seq<Seq<char>>) -> Seq<Seq<char>>
    decreases p.len(),
{
    if p.len() == 0 {
        Seq::empty()
    } else {
        let rest = normal_pieces(p.drop_last());
        if p.last().len() == 0 || p.last() == "."@ { rest } else { rest.push(p.last()) }
    }
}

/// The components of a path as `Path::components` gives them: the root
/// (`/`) or a leading `.`, then the named components.
pub open spec fn components(p: Seq<char>) -> Seq<Seq<char>> {
    let pieces = split_on(p, '/');
    let head = if p.len() > 0 && p[0] == '/' {
        seq!["/"@]
    } else if pieces[0] == "."@ {
        seq!["."@]
    } else {
        Seq::empty()
    };
    head + normal_pieces(pieces)
}

fn components_exec(p: &str) -> (r: Vec<Vec<char>>)
    ensures
        char_vecs_view(r@) == components(p@),
{
    let s = chars_of(p);
    let pieces = split_chars(&s, '/');
    assert(char_vecs_view(pieces@) == split_on(p@, '/'));
    let mut r: Vec<Vec<char>> = Vec::new();
    proof {
        crate::text::lemma_find_char(s@, '/', 0);
    }
    if s.len() > 0 && s[0] == '/' {
        r.push(chars_of("/"));
    } else {
        assert(split_on(p@, '/').len() > 0);
        assert(char_vecs_view(pieces@)[0] == pieces@[0]@);
        if chars_eq(&pieces[0], &chars_of(".")) {
            r.push(chars_of("."));
        }
    }
    let ghost head = char_vecs_view(r@);
    let mut i: usize = 0;
    while i < pieces.len()
        invariant
            i <= pieces.len(),
            char_vecs_view(pieces@) == split_on(p@, '/'),
            char_vecs_view(r@) == head + normal_pieces(char_vecs_view(pieces@).take(i as int)),
        decreases pieces.len() - i,
    {
        let ghost pv = char_vecs_view(pieces@);
        assert(pv.take(i + 1).drop_last() =~= pv.take(i as int));
        assert(pv.take(i + 1).last() == pieces@[i as int]@);
        let ghost before = char_vecs_view(r@);
        if !(pieces[i].len() == 0 || chars_eq(&pieces[i], &chars_of("."))) {
            r.push(pieces[i].clone());
            assert(char_vecs_view(r@) =~= before.push(pieces@[i as int]@));
        }
        i += 1;
    }
    assert(char_vecs_view(pieces@).take(i as int) =~= char_vecs_view(pieces@));
    r
}

fn components_eq_prefix(a: &Vec<Vec<char>>, b: &Vec<Vec<char>>) -> (r: bool)
    ensures
        r == (char_vecs_view(b@).len() <= char_vecs_view(a@).len() && char_vecs_view(a@).take(
            char_vecs_view(b@).len() as int,
        ) == char_vecs_view(b@)),
{
    if b.len() > a.len() {
        return false;
    }
    let mut i: usize = 0;
    while i < b.len()
        invariant
            b.len() <= a.len(),
            i <= b.len(),
            forall|k: int| 0 <= k < i ==> char_vecs_view(a@)[k] == char_vecs_view(b@)[k],
        decreases b.len() - i,
    {
        if !chars_eq(&a[i], &b[i]) {
            assert(char_vecs_view(a@).take(b.len() as int)[i as int] != char_vecs_view(b@)[i as int]);
            return false;
        }
        i += 1;
    }
    assert(char_vecs_view(a@).take(b.len() as int) =~= char_vecs_view(b@));
    true
}

/// Whether cleaning a mapping up removes its project directory: only a
/// directory strictly inside the base path is removed (compared by
/// components, as `Path::starts_with` and `==` do).
pub open spec fn removes_directory(project: Seq<char>, base: Seq<char>) -> bool {
    let p = components(project);
    let b = components(base);
    b.len() <= p.len() && p.take(b.len() as int) == b && p != b
}

/// Whether the project directory of a stale mapping is removed.
pub fn should_remove_project_dir(project_path: &str, base_path: &str) -> (r: bool)
    ensures
        r == removes_directory(project_path@, base_path@),
{
    let p = components_exec(project_path);
    let b = components_exec(base_path);
    let prefix = components_eq_prefix(&p, &b);
    if !prefix {
        return false;
    }
    let same = p.len() == b.len();
    proof {
        if same {
            assert(char_vecs_view(p@).take(char_vecs_view(b@).len() as int) =~= char_vecs_view(p@));
        } else {
            assert(char_vecs_view(p@).len() != char_vecs_view(b@).len());
        }
    }
    !same
}

/// The refusal of `/clear` outside the General topic.
pub fn clear_outside_general() -> (r: String)
    ensures
        r@ == "The /clear command can only be used in the General topic."@,
{
    owned("The /clear command can only be used in the General topic.")
}


/// Components joined back into a path: the root, then the names separated by `/`.
pub open spec fn render(c: Seq<Seq<char>>) -> Seq<char>
    decreases c.len(),
{
    if c.len() == 0 {
        Seq::empty()
    } else if c.len() == 1 {
        c[0]
    } else {
        let r = render(c.drop_last());
        if r == "/"@ { r + c.last() } else { r + "/"@ + c.last() }
    }
}

/// The last index of a `.worktrees` component at or before `k`, if any.
pub open spec fn last_worktrees(c: Seq<Seq<char>>, k: int) -> Option<int>
    decreases k + 1,
{
    if k < 0 {
        None
    } else if c[k] == ".worktrees"@ {
        Some(k)
    } else {
        last_worktrees(c, k - 1)
    }
}

/// Where closing a topic removes a worktree: a project path inside a
/// `.worktrees` directory belongs to the repository containing that
/// directory (the nearest one above the path), on branch `wt/{name}`.
pub open spec fn worktree_repo(path: Seq<char>) -> Option<Seq<char>> {
    if !crate::text::contains_seq(path, "/.worktrees/"@) {
        None
    } else {
        let c = components(path);
        match last_worktrees(c, c.len() - 1) {
            None => None,
            Some(j) => Some(render(c.take(j))),
        }
    }
}

fn render_exec(c: &Vec<Vec<char>>, n: usize) -> (r: Vec<char>)
    requires
        n <= c.len(),
    ensures
        r@ == render(char_vecs_view(c@).take(n as int)),
{
    let mut r: Vec<char> = Vec::new();
    let mut i: usize = 0;
    while i < n
        invariant
            i <= n <= c.len(),
            r@ == render(char_vecs_view(c@).take(i as int)),
        decreases n - i,
    {
        let ghost cv = char_vecs_view(c@);
        assert(cv.take(i + 1).drop_last() =~= cv.take(i as int));
        assert(cv.take(i + 1).last() == c@[i as int]@);
        if i == 0 {
            r = c[0].clone();
            assert(cv.take(1) =~= seq![c@[0]@]);
        } else {
            if !chars_eq(&r, &chars_of("/")) {
                crate::text::push_str(&mut r, "/");
            }
            crate::text::push_chars(&mut r, &c[i]);
        }
        i += 1;
    }
    r
}

/// The repository whose worktree a closed topic's project path is, if it is one.
pub fn worktree_repo_of(project_path: &str) -> (r: Option<String>)
    ensures
        match r {
            Some(x) => worktree_repo(project_path@) == Some(x@),
            None => worktree_repo(project_path@) is None,
        },
{
    let s = chars_of(project_path);
    if !crate::text::contains_exec(&s, &chars_of("/.worktrees/")) {
        return None;
    }
    let c = components_exec(project_path);
    let ghost cv = char_vecs_view(c@);
    let mut k: usize = c.len();
    while k > 0
        invariant
            k <= c.len(),
            cv == char_vecs_view(c@),
            cv == components(project_path@),
            crate::text::contains_seq(project_path@, "/.worktrees/"@),
            last_worktrees(cv, cv.len() - 1) == last_worktrees(cv, k - 1),
        decreases k,
    {
        assert(cv[k - 1] == c@[k - 1]@);
        if chars_eq(&c[k - 1], &chars_of(".worktrees")) {
            assert(last_worktrees(cv, k - 1) == Some((k - 1) as int));
            assert(cv == components(project_path@));
            let root = render_exec(&c, k - 1);
            return Some(string_from_chars(&root));
        }
        k -= 1;
    }
    None
}

} // verus!
