//! Git worktree naming: branch names derived from topic names, and the
//! locations of worktrees.

use vstd::prelude::*;
use crate::commands::ascii_lower;
use crate::paths::join;
use crate::text::{chars_of, contains_exec, contains_seq, owned, push_chars, push_str, slice_chars, string_from_chars};

verus! {

/// What `str::to_lowercase` returns (full Unicode lower-casing).
pub uninterp spec fn unicode_lowercase(s: Seq<char>) -> Seq<char>;

/// What `char::is_alphanumeric` returns (Unicode Alphabetic or Numeric).
pub uninterp spec fn unicode_alphanumeric(c: char) -> bool;

/// Whether `c` is an ASCII letter or digit.
pub open spec fn ascii_alnum(c: char) -> bool {
    ('a' <= c && c <= 'z') || ('A' <= c && c <= 'Z') || ('0' <= c && c <= '9')
}

/// `str::to_lowercase`; on ASCII text it lower-cases each letter.
#[verifier::external_body]
pub(crate) fn to_lowercase(s: &str) -> (r: String)
    ensures
        r@ == unicode_lowercase(s@),
        (forall|k: int| 0 <= k < s@.len() ==> (#[trigger] s@[k] as u32) < 128) ==> r@ == s@.map_values(
            |c: char| ascii_lower(c),
        ),
{
    s.to_lowercase()
}

/// `char::is_alphanumeric`; on ASCII it tests for a letter or digit.
#[verifier::external_body]
pub(crate) fn is_alphanumeric(c: char) -> (b: bool)
    ensures
        b == unicode_alphanumeric(c),
        (c as u32) < 128 ==> b == ascii_alnum(c),
{
    c.is_alphanumeric()
}

/// Each character kept when alphanumeric or `-`, otherwise replaced by `-`.
pub open spec fn hyphenate(s: Seq<char>) -> Seq<char> {
    s.map_values(|c: char| if unicode_alphanumeric(c) || c == '-' { c } else { '-' })
}

/// Number of leading `c` in `s`.
pub open spec fn lead_count(s: Seq<char>, c: char) -> nat
    decreases s.len(),
{
    if s.len() > 0 && s[0] == c {
        1 + lead_count(s.drop_first(), c)
    } else {
        0
    }
}

/// Number of trailing `c` in `s`.
pub open spec fn trail_count(s: Seq<char>, c: char) -> nat
    decreases s.len(),
{
    if s.len() > 0 && s.last() == c {
        1 + trail_count(s.drop_last(), c)
    } else {
        0
    }
}

/// `str::trim_matches(c)`: `s` without leading and trailing `c`.
pub open spec fn trim_char(s: Seq<char>, c: char) -> Seq<char> {
    let t = s.skip(lead_count(s, c) as int);
    t.take(t.len() - trail_count(t, c))
}

/// A branch-safe form of a name: lower-cased, every character other than an
/// alphanumeric or `-` replaced by `-`, and `-` trimmed from both ends.
pub open spec fn sanitized(name: Seq<char>) -> Seq<char> {
    trim_char(hyphenate(unicode_lowercase(name)), '-')
}

/// Whether every character of `s` is ASCII.
pub open spec fn is_ascii_text(s: Seq<char>) -> bool {
    forall|k: int| 0 <= k < s.len() ==> (#[trigger] s[k] as u32) < 128
}

/// [`sanitized`] on ASCII text, where lower-casing and the alphanumeric test
/// are those of ASCII.
pub open spec fn sanitized_ascii(name: Seq<char>) -> Seq<char> {
    trim_char(
        name.map_values(|c: char| ascii_lower(c)).map_values(|c: char| if ascii_alnum(c) || c == '-' { c } else { '-' }),
        '-',
    )
}

proof fn lemma_lead_count(s: Seq<char>, c: char, n: int)
    requires
        0 <= n <= s.len(),
        forall|k: int| 0 <= k < n ==> #[trigger] s[k] == c,
        n < s.len() ==> s[n] != c,
    ensures
        lead_count(s, c) == n,
    decreases s.len(),
{
    if n > 0 {
        assert forall|k: int| 0 <= k < n - 1 implies #[trigger] s.drop_first()[k] == c by {
            assert(s[k + 1] == c);
        }
        lemma_lead_count(s.drop_first(), c, n - 1);
    }
}

proof fn lemma_trail_count(s: Seq<char>, c: char, n: int)
    requires
        0 <= n <= s.len(),
        forall|k: int| s.len() - n <= k < s.len() ==> #[trigger] s[k] == c,
        n < s.len() ==> s[s.len() - n - 1] != c,
    ensures
        trail_count(s, c) == n,
    decreases s.len(),
{
    if n > 0 {
        let t = s.drop_last();
        assert(s[s.len() - 1] == c);
        assert forall|k: int| t.len() - (n - 1) <= k < t.len() implies #[trigger] t[k] == c by {
            assert(s[k] == c);
        }
        if n - 1 < t.len() {
            assert(t[t.len() - (n - 1) - 1] == s[s.len() - n - 1]);
        }
        lemma_trail_count(t, c, n - 1);
    }
}

/// Bounds of `trim_char(s, c)` within `s`.
fn trim_char_bounds(s: &Vec<char>, c: char) -> (r: (usize, usize))
    ensures
        r.0 <= r.1 <= s.len(),
        s@.subrange(r.0 as int, r.1 as int) == trim_char(s@, c),
{
    let mut lo: usize = 0;
    while lo < s.len() && s[lo] == c
        invariant
            lo <= s.len(),
            forall|k: int| 0 <= k < lo ==> #[trigger] s@[k] == c,
        decreases s.len() - lo,
    {
        lo += 1;
    }
    proof {
        lemma_lead_count(s@, c, lo as int);
    }
    let mut hi = s.len();
    while hi > lo && s[hi - 1] == c
        invariant
            lo <= hi <= s.len(),
            forall|k: int| hi <= k < s.len() ==> #[trigger] s@[k] == c,
        decreases hi - lo,
    {
        hi -= 1;
    }
    proof {
        let t = s@.skip(lo as int);
        assert forall|k: int| t.len() - (s.len() - hi) <= k < t.len() implies #[trigger] t[k] == c by {
            assert(t[k] == s@[lo + k]);
        }
        if s.len() - hi < t.len() {
            assert(t[t.len() - (s.len() - hi) - 1] == s@[hi - 1]);
        }
        lemma_trail_count(t, c, s.len() - hi);
        assert(t.take(t.len() - (s.len() - hi)) == s@.subrange(lo as int, hi as int));
    }
    (lo, hi)
}

/// Converts a name to a branch-safe form: lowercase, characters other than
/// alphanumerics and `-` replaced with `-`, and leading/trailing `-` trimmed.
pub fn sanitize_branch_name(name: &str) -> (r: String)
    ensures
        r@ == sanitized(name@),
        is_ascii_text(name@) ==> r@ == sanitized_ascii(name@),
{
    let lower = to_lowercase(name);
    let l = chars_of(lower.as_str());
    let ghost ascii = is_ascii_text(name@);
    let ghost ah = l@.map_values(|c: char| if ascii_alnum(c) || c == '-' { c } else { '-' });
    proof {
        if ascii {
            assert forall|k: int| 0 <= k < l@.len() implies (#[trigger] l@[k] as u32) < 128 by {
                assert(l@[k] == ascii_lower(name@[k]));
                assert((name@[k] as u32) < 128);
            }
        }
    }
    let mut h: Vec<char> = Vec::new();
    let mut i: usize = 0;
    while i < l.len()
        invariant
            i <= l.len(),
            l@ == unicode_lowercase(name@),
            h@ == hyphenate(l@).take(i as int),
            ascii ==> forall|k: int| 0 <= k < l@.len() ==> (#[trigger] l@[k] as u32) < 128,
            ascii ==> h@ == ah.take(i as int),
            ah == l@.map_values(|c: char| if ascii_alnum(c) || c == '-' { c } else { '-' }),
        decreases l.len() - i,
    {
        let c = l[i];
        let keep = is_alphanumeric(c) || c == '-';
        h.push(if keep { c } else { '-' });
        i += 1;
        assert(h@ == hyphenate(l@).take(i as int));
        proof {
            if ascii {
                assert((l@[i - 1] as u32) < 128);
                assert(h@ =~= ah.take(i as int));
            }
        }
    }
    assert(hyphenate(l@).take(l.len() as int) == hyphenate(l@));
    assert(ah.take(l.len() as int) == ah);
    let (lo, hi) = trim_char_bounds(&h, '-');
    let t = slice_chars(&h, lo, hi);
    string_from_chars(&t)
}

/// The branch of the worktree for a topic name: `wt/{sanitized name}`.
pub open spec fn worktree_branch(name: Seq<char>) -> Seq<char> {
    "wt/"@ + sanitized(name)
}

/// The directory of the worktree for a topic name:
/// `{project_base_path}/.worktrees/{sanitized name}`.
pub open spec fn worktree_dir(base: Seq<char>, name: Seq<char>) -> Seq<char> {
    join(join(base, ".worktrees"@), sanitized(name))
}

/// Branch name of the worktree created for `name`.
pub fn worktree_branch_name(name: &str) -> (r: String)
    ensures
        r@ == worktree_branch(name@),
{
    let s = sanitize_branch_name(name);
    let mut v: Vec<char> = Vec::new();
    push_str(&mut v, "wt/");
    push_str(&mut v, s.as_str());
    string_from_chars(&v)
}

/// Directory of the worktree created for `name` under `project_base_path`.
pub fn worktree_dir_path(project_base_path: &str, name: &str) -> (r: String)
    ensures
        r@ == worktree_dir(project_base_path@, name@),
{
    let base = chars_of(project_base_path);
    let wt = chars_of(".worktrees");
    let s = sanitize_branch_name(name);
    let sv = chars_of(s.as_str());
    let d = crate::paths::join_path(&base, &wt);
    let r = crate::paths::join_path(&d, &sv);
    string_from_chars(&r)
}

/// The directory whose existence marks a git repository: `{path}/.git`.
pub fn git_dir_path(path: &str) -> (r: String)
    ensures
        r@ == join(path@, ".git"@),
{
    let p = chars_of(path);
    let g = chars_of(".git");
    let r = crate::paths::join_path(&p, &g);
    string_from_chars(&r)
}

/// `Path::exists`: whether the file system has an entry at `path`.
#[verifier::external_body]
pub(crate) fn path_exists(path: &str) -> bool {
    std::path::Path::new(path).exists()
}

/// Whether `path` is a git repository, i.e. `{path}/.git` exists. The answer
/// comes from the file system.
pub fn is_git_repo(path: &str) -> bool {
    let g = git_dir_path(path);
    path_exists(g.as_str())
}

proof fn lemma_lead_count_props(s: Seq<char>, c: char)
    ensures
        lead_count(s, c) <= s.len(),
        lead_count(s, c) < s.len() ==> s[lead_count(s, c) as int] != c,
    decreases s.len(),
{
    if s.len() > 0 && s[0] == c {
        lemma_lead_count_props(s.drop_first(), c);
    }
}

proof fn lemma_trail_count_props(s: Seq<char>, c: char)
    ensures
        trail_count(s, c) <= s.len(),
        trail_count(s, c) < s.len() ==> s[s.len() - trail_count(s, c) - 1] != c,
    decreases s.len(),
{
    if s.len() > 0 && s.last() == c {
        lemma_trail_count_props(s.drop_last(), c);
    }
}

/// A sanitized name neither starts nor ends with `-`, and holds only
/// alphanumerics and `-`.
pub proof fn law_sanitized_shape(name: Seq<char>)
    ensures
        sanitized(name).len() > 0 ==> sanitized(name)[0] != '-' && sanitized(name).last() != '-',
        forall|k: int| 0 <= k < sanitized(name).len() ==> unicode_alphanumeric(#[trigger] sanitized(name)[k])
            || sanitized(name)[k] == '-',
{
    let h = hyphenate(unicode_lowercase(name));
    lemma_lead_count_props(h, '-');
    let t = h.skip(lead_count(h, '-') as int);
    lemma_trail_count_props(t, '-');
    let r = sanitized(name);
    assert(r == t.take(t.len() - trail_count(t, '-')));
    if r.len() > 0 {
        assert(r[0] == t[0]);
        assert(t[0] == h[lead_count(h, '-') as int]);
        assert(r.last() == t[t.len() - trail_count(t, '-') - 1]);
    }
    assert forall|k: int| 0 <= k < r.len() implies unicode_alphanumeric(#[trigger] r[k]) || r[k] == '-' by {
        assert(r[k] == h[k + lead_count(h, '-')]);
    }
}


/// A lower-case ASCII letter, an ASCII digit or `-`.
pub open spec fn branch_char(c: char) -> bool {
    ('a' <= c && c <= 'z') || ('0' <= c && c <= '9') || c == '-'
}

/// Sanitizing ASCII text gives lower-case letters, digits and `-`, never at
/// either end, no longer than the input; sanitizing the result again changes
/// nothing.
pub proof fn law_sanitized_ascii(name: Seq<char>)
    requires
        is_ascii_text(name),
    ensures
        forall|k: int| 0 <= k < sanitized_ascii(name).len() ==> branch_char(#[trigger] sanitized_ascii(name)[k]),
        sanitized_ascii(name).len() > 0 ==> sanitized_ascii(name)[0] != '-' && sanitized_ascii(name).last() != '-',
        sanitized_ascii(name).len() <= name.len(),
        is_ascii_text(sanitized_ascii(name)),
        sanitized_ascii(sanitized_ascii(name)) == sanitized_ascii(name),
{
    let low = name.map_values(|c: char| ascii_lower(c));
    let h = low.map_values(|c: char| if ascii_alnum(c) || c == '-' { c } else { '-' });
    assert forall|k: int| 0 <= k < h.len() implies branch_char(#[trigger] h[k]) by {
        assert(h[k] == (if ascii_alnum(low[k]) || low[k] == '-' { low[k] } else { '-' }));
        assert(low[k] == ascii_lower(name[k]));
    }
    lemma_lead_count_props(h, '-');
    let lc = lead_count(h, '-') as int;
    let t = h.skip(lc);
    lemma_trail_count_props(t, '-');
    let r = sanitized_ascii(name);
    assert(r == t.take(t.len() - trail_count(t, '-')));
    assert forall|k: int| 0 <= k < r.len() implies branch_char(#[trigger] r[k]) by {
        assert(r[k] == h[k + lc]);
    }
    if r.len() > 0 {
        assert(r[0] == t[0]);
        assert(t[0] == h[lc]);
        assert(r.last() == t[t.len() - trail_count(t, '-') - 1]);
    }
    assert forall|k: int| 0 <= k < r.len() implies (#[trigger] r[k] as u32) < 128 by {
        assert(branch_char(r[k]));
    }
    let low2 = r.map_values(|c: char| ascii_lower(c));
    assert(low2 =~= r) by {
        assert forall|k: int| 0 <= k < r.len() implies low2[k] == r[k] by {
            assert(branch_char(r[k]));
        }
    }
    let h2 = low2.map_values(|c: char| if ascii_alnum(c) || c == '-' { c } else { '-' });
    assert(h2 =~= r) by {
        assert forall|k: int| 0 <= k < r.len() implies h2[k] == r[k] by {
            assert(branch_char(r[k]));
            assert(low2[k] == r[k]);
        }
    }
    lemma_lead_count(r, '-', 0);
    lemma_trail_count(r, '-', 0);
    assert(r.skip(0) =~= r);
    assert(r.take(r.len() as int) =~= r);
}

/// The arguments of `git worktree add {dir} -b {branch}`.
pub fn worktree_add_args(worktree_dir: &str, branch: &str) -> (r: Vec<String>)
    ensures
        crate::container::strings_view(r@) == seq!["worktree"@, "add"@, worktree_dir@, "-b"@, branch@],
{
    let r = vec![owned("worktree"), owned("add"), owned(worktree_dir), owned("-b"), owned(branch)];
    assert(crate::container::strings_view(r@) =~= seq!["worktree"@, "add"@, worktree_dir@, "-b"@, branch@]);
    r
}

/// The arguments of `git worktree remove --force {path}`.
pub fn worktree_remove_args(worktree_path: &str) -> (r: Vec<String>)
    ensures
        crate::container::strings_view(r@) == seq!["worktree"@, "remove"@, "--force"@, worktree_path@],
{
    let r = vec![owned("worktree"), owned("remove"), owned("--force"), owned(worktree_path)];
    assert(crate::container::strings_view(r@) =~= seq!["worktree"@, "remove"@, "--force"@, worktree_path@]);
    r
}

/// A failed `git worktree remove` is tolerated when the worktree is already gone.
pub fn remove_failure_tolerated(stderr: &str) -> (b: bool)
    ensures
        b == (contains_seq(stderr@, "is not a working tree"@) || contains_seq(stderr@, "No such file"@)),
{
    let s = chars_of(stderr);
    contains_exec(&s, &chars_of("is not a working tree")) || contains_exec(&s, &chars_of("No such file"))
}

/// A failed `git branch -D` is tolerated when the branch does not exist.
pub fn delete_failure_tolerated(stderr: &str) -> (b: bool)
    ensures
        b == contains_seq(stderr@, "not found"@),
{
    contains_exec(&chars_of(stderr), &chars_of("not found"))
}

} // verus!
