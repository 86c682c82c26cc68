//! Unix path helpers: joining and the last component, as `std::path` does them.

use vstd::prelude::*;
use crate::text::{chars_of, push_chars, slice_chars, string_from_chars};

verus! {

/// `Path::join` of two Unix paths: an absolute `b` replaces `a`; otherwise `b`
/// is appended after a `/` unless `a` is empty or already ends with one.
pub open spec fn join(a: Seq<char>, b: Seq<char>) -> Seq<char> {
    if b.len() > 0 && b[0] == '/' {
        b
    } else if a.len() == 0 || a.last() == '/' {
        a + b
    } else {
        a + seq!['/'] + b
    }
}

/// Joins two paths as [`join`] describes.
pub fn join_path(a: &Vec<char>, b: &Vec<char>) -> (r: Vec<char>)
    ensures
        r@ == join(a@, b@),
{
    if b.len() > 0 && b[0] == '/' {
        slice_chars(b, 0, b.len())
    } else {
        let mut r = slice_chars(a, 0, a.len());
        if !(a.len() == 0 || a[a.len() - 1] == '/') {
            r.push('/');
        }
        push_chars(&mut r, b);
        r
    }
}

/// Start of the segment that ends at `end` (the index after the last `/` before `end`).
pub open spec fn seg_start(p: Seq<char>, end: int) -> int
    decreases end,
{
    if end <= 0 {
        0
    } else if p[end - 1] == '/' {
        end
    } else {
        seg_start(p, end - 1)
    }
}

/// Whether a segment is skipped by `Path::components`: empty, or a `.`.
pub open spec fn skipped(seg: Seq<char>) -> bool {
    seg.len() == 0 || seg == seq!['.']
}

/// The last component of `p[..end]` that `Path::components` keeps, if any.
pub open spec fn last_component(p: Seq<char>, end: int) -> Option<Seq<char>>
    decreases end,
{
    if end <= 0 || end > p.len() {
        None
    } else {
        proof {
            lemma_seg_start(p, end);
        }
        let st = seg_start(p, end);
        let seg = p.subrange(st, end);
        if !skipped(seg) {
            Some(seg)
        } else if st == 0 {
            None
        } else {
            last_component(p, st - 1)
        }
    }
}

/// `Path::file_name`: the last component, unless it is `..`.
pub open spec fn file_name(p: Seq<char>) -> Option<Seq<char>> {
    match last_component(p, p.len() as int) {
        Some(c) => if c == seq!['.', '.'] {
            None
        } else {
            Some(c)
        },
        None => None,
    }
}

pub proof fn lemma_seg_start(p: Seq<char>, end: int)
    requires
        0 <= end <= p.len(),
    ensures
        0 <= seg_start(p, end) <= end,
        seg_start(p, end) > 0 ==> p[seg_start(p, end) - 1] == '/',
        forall|k: int| seg_start(p, end) <= k < end ==> p[k] != '/',
    decreases end,
{
    if end > 0 && p[end - 1] != '/' {
        lemma_seg_start(p, end - 1);
    }
}

fn seg_start_exec(p: &Vec<char>, end: usize) -> (r: usize)
    requires
        end <= p.len(),
    ensures
        r == seg_start(p@, end as int),
        r <= end,
{
    let mut j = end;
    while j > 0 && p[j - 1] != '/'
        invariant
            j <= end <= p.len(),
            seg_start(p@, end as int) == seg_start(p@, j as int),
        decreases j,
    {
        j -= 1;
    }
    j
}

/// Bounds of the last kept component of `p`, if any.
fn last_component_bounds(p: &Vec<char>) -> (r: Option<(usize, usize)>)
    ensures
        match r {
            Some((lo, hi)) => lo <= hi <= p.len() && last_component(p@, p.len() as int) == Some(
                p@.subrange(lo as int, hi as int),
            ),
            None => last_component(p@, p.len() as int) is None,
        },
{
    let mut end = p.len();
    loop
        invariant
            end <= p.len(),
            last_component(p@, p.len() as int) == last_component(p@, end as int),
        decreases end,
    {
        if end == 0 {
            return None;
        }
        let st = seg_start_exec(p, end);
        let empty = st == end;
        let dot = end - st == 1 && p[st] == '.';
        proof {
            let seg = p@.subrange(st as int, end as int);
            if end - st == 1 {
                assert(seg =~= seq![p@[st as int]]);
            }
            if !empty && !dot {
                assert(!skipped(seg)) by {
                    if seg == seq!['.'] {
                        assert(seg.len() == 1);
                        assert(seg[0] == p@[st as int]);
                    }
                }
            }
        }
        if !empty && !dot {
            return Some((st, end));
        }
        if st == 0 {
            return None;
        }
        end = st - 1;
    }
}

/// `Path::new(p).file_name()`.
pub fn file_name_of(p: &str) -> (r: Option<String>)
    ensures
        match r {
            Some(n) => file_name(p@) == Some(n@),
            None => file_name(p@) is None,
        },
{
    let v = chars_of(p);
    match last_component_bounds(&v) {
        Some((lo, hi)) => {
            let seg = slice_chars(&v, lo, hi);
            if seg.len() == 2 && seg[0] == '.' && seg[1] == '.' {
                assert(seg@ =~= seq!['.', '.']);
                None
            } else {
                assert(seg@ != seq!['.', '.']) by {
                    if seg@ == seq!['.', '.'] {
                        assert(seg@[0] == '.' && seg@[1] == '.');
                    }
                }
                Some(string_from_chars(&seg))
            }
        },
        None => None,
    }
}

} // verus!
