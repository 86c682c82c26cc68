//! `/projects`: the project directories under the base path.

use vstd::prelude::*;
use crate::text::{chars_of, push_str, string_from_chars};
use crate::container::strings_view;

verus! {

/// Lexicographic order of names from position `k` on, by code point (which is
/// also the order of their UTF-8 bytes); a prefix comes first.
pub open spec fn le_from(a: Seq<char>, b: Seq<char>, k: int) -> bool
    decreases a.len() - k,
{
    if k < 0 || k >= a.len() {
        true
    } else if k >= b.len() {
        false
    } else if a[k] != b[k] {
        (a[k] as u32) < (b[k] as u32)
    } else {
        le_from(a, b, k + 1)
    }
}

/// `a` sorts before `b` or equals it.
pub open spec fn name_le(a: Seq<char>, b: Seq<char>) -> bool {
    le_from(a, b, 0)
}

/// Names in order.
pub open spec fn names_sorted(s: Seq<String>) -> bool {
    forall|i: int, j: int| 0 <= i < j < s.len() ==> name_le(#[trigger] s[i]@, #[trigger] s[j]@)
}

proof fn lemma_le_total(a: Seq<char>, b: Seq<char>, k: int)
    requires
        k >= 0,
    ensures
        le_from(a, b, k) || le_from(b, a, k),
    decreases a.len() - k,
{
    if k < a.len() && k < b.len() {
        if a[k] == b[k] {
            lemma_le_total(a, b, k + 1);
        } else {
            vstd::utf8::char_u32_cast(a[k], a[k] as u32);
            vstd::utf8::char_u32_cast(b[k], b[k] as u32);
        }
    }
}

proof fn lemma_le_transitive(a: Seq<char>, b: Seq<char>, c: Seq<char>, k: int)
    requires
        k >= 0,
        le_from(a, b, k),
        le_from(b, c, k),
    ensures
        le_from(a, c, k),
    decreases a.len() - k,
{
    if k < a.len() && k < b.len() && k < c.len() && a[k] == b[k] && b[k] == c[k] {
        lemma_le_transitive(a, b, c, k + 1);
    }
}

fn name_le_exec(a: &Vec<char>, b: &Vec<char>) -> (r: bool)
    ensures
        r == name_le(a@, b@),
{
    let mut i: usize = 0;
    while i < a.len() && i < b.len() && a[i] == b[i]
        invariant
            i <= a.len(),
            i <= b.len(),
            le_from(a@, b@, 0) == le_from(a@, b@, i as int),
        decreases a.len() - i,
    {
        proof {
            assert(le_from(a@, b@, i as int) == le_from(a@, b@, i + 1));
        }
        i += 1;
    }
    if i >= a.len() {
        true
    } else if i >= b.len() {
        false
    } else {
        (a[i] as u32) < (b[i] as u32)
    }
}

/// The directory names in alphabetical order: the same names, each as often.
pub fn sort_dir_names(names: Vec<String>) -> (r: Vec<String>)
    ensures
        r@.to_multiset() =~= names@.to_multiset(),
        names_sorted(r@),
{
    broadcast use vstd::seq_lib::group_to_multiset_ensures;
    broadcast use vstd::multiset::group_multiset_axioms;
    let ghost all = names@;
    let mut rest = names;
    let mut out: Vec<String> = Vec::new();
    while rest.len() > 0
        invariant
            all.to_multiset() =~= rest@.to_multiset().add(out@.to_multiset()),
            names_sorted(out@),
        decreases rest.len(),
    {
        let ghost before = rest@;
        let x = rest.pop().unwrap();
        assert(before =~= rest@.push(x));
        let xc = chars_of(x.as_str());
        let mut pos: usize = 0;
        while pos < out.len() && name_le_exec(&chars_of(out[pos].as_str()), &xc)
            invariant
                pos <= out.len(),
                xc@ == x@,
                forall|i: int| 0 <= i < pos ==> name_le(#[trigger] out@[i]@, x@),
            decreases out.len() - pos,
        {
            pos += 1;
        }
        let ghost old_out = out@;
        proof {
            if pos < out.len() {
                lemma_le_total(out@[pos as int]@, x@, 0);
            }
        }
        out.insert(pos, x);
        proof {
            assert(out@.remove(pos as int) =~= old_out);
            assert(out@[pos as int] == x);
            assert forall|i: int, j: int| 0 <= i < j < out@.len() implies name_le(#[trigger] out@[i]@, #[trigger] out@[j]@) by {
                if j < pos {
                    assert(out@[i] == old_out[i] && out@[j] == old_out[j]);
                } else if j == pos {
                    assert(out@[i] == old_out[i]);
                } else if i > pos {
                    assert(out@[i] == old_out[i - 1] && out@[j] == old_out[j - 1]);
                } else if i == pos {
                    assert(out@[j] == old_out[j - 1]);
                    if j - 1 > pos {
                        assert(name_le(old_out[pos as int]@, old_out[j - 1]@));
                        lemma_le_transitive(x@, old_out[pos as int]@, old_out[j - 1]@, 0);
                    }
                } else {
                    assert(out@[i] == old_out[i] && out@[j] == old_out[j - 1]);
                }
            }
            vstd::seq_lib::to_multiset_remove(out@, pos as int);
            vstd::seq_lib::to_multiset_contains(out@, x);
            assert(out@.contains(x));
            assert(out@.to_multiset() =~= old_out.to_multiset().insert(x));
            vstd::seq_lib::to_multiset_build(rest@, x);
            assert(before.to_multiset() =~= rest@.to_multiset().insert(x));
            assert(all.to_multiset() =~= rest@.to_multiset().add(out@.to_multiset()));
        }
    }
    out
}

/// Lines joined by `\n`.
pub open spec fn join_lines(s: Seq<Seq<char>>) -> Seq<char>
    decreases s.len(),
{
    if s.len() == 0 {
        Seq::empty()
    } else if s.len() == 1 {
        s[0]
    } else {
        join_lines(s.drop_last()) + "\n"@ + s.last()
    }
}

/// A bullet line for a directory name.
pub open spec fn project_line(d: Seq<char>) -> Seq<char> {
    "• `"@ + d + "`"@
}

/// The bullet lines of all directories.
pub open spec fn project_lines(dirs: Seq<Seq<char>>) -> Seq<Seq<char>> {
    dirs.map_values(|d: Seq<char>| project_line(d))
}

/// The `/projects` answer.
pub open spec fn projects_text(dirs: Seq<Seq<char>>, base: Seq<char>) -> Seq<char> {
    if dirs.len() == 0 {
        "No projects found in `"@ + base + "`"@
    } else {
        "📁 Available Projects\n\n"@ + join_lines(project_lines(dirs))
    }
}

/// Lists the project directories `dirs`, or says that `base_path` has none.
pub fn format_projects(dirs: Vec<String>, base_path: &str) -> (r: String)
    ensures
        r@ == projects_text(strings_view(dirs@), base_path@),
{
    let mut v: Vec<char> = Vec::new();
    if dirs.len() == 0 {
        push_str(&mut v, "No projects found in `");
        push_str(&mut v, base_path);
        push_str(&mut v, "`");
        return string_from_chars(&v);
    }
    push_str(&mut v, "📁 Available Projects\n\n");
    let ghost head = v@;
    let mut i: usize = 0;
    while i < dirs.len()
        invariant
            i <= dirs.len(),
            v@ == head + join_lines(project_lines(strings_view(dirs@).take(i as int))),
        decreases dirs.len() - i,
    {
        let ghost before = v@;
        if i > 0 {
            push_str(&mut v, "\n");
        }
        push_str(&mut v, "• `");
        push_str(&mut v, dirs[i].as_str());
        push_str(&mut v, "`");
        proof {
            let p = project_lines(strings_view(dirs@).take(i + 1));
            assert(p.drop_last() =~= project_lines(strings_view(dirs@).take(i as int)));
            assert(p.last() == project_line(dirs@[i as int]@));
            if i == 0 {
                assert(p.len() == 1);
                assert(v@ =~= head + join_lines(p));
            } else {
                assert(v@ =~= head + join_lines(p));
            }
        }
        i += 1;
    }
    assert(strings_view(dirs@).take(i as int) =~= strings_view(dirs@));
    string_from_chars(&v)
}

} // verus!
