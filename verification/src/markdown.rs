//! Markdown to Telegram HTML conversion, and truncation / splitting of
//! messages to Telegram's size limit.

use vstd::prelude::*;
use crate::text::{
    byte_len, chars_of, lemma_byte_len_concat, push_chars, push_str, slice_chars,
    string_from_chars, trim, trim_bounds,
};

verus! {

// ---------------------------------------------------------------------------
// Escaping
// ---------------------------------------------------------------------------

/// HTML escape of one character.
pub open spec fn esc_char(c: char) -> Seq<char> {
    if c == '<' {
        "&lt;"@
    } else if c == '>' {
        "&gt;"@
    } else if c == '&' {
        "&amp;"@
    } else {
        seq![c]
    }
}

/// HTML escape of a character sequence: `<`, `>` and `&` become entities.
pub open spec fn esc(s: Seq<char>) -> Seq<char>
    decreases s.len(),
{
    if s.len() == 0 {
        seq![]
    } else {
        esc(s.drop_last()) + esc_char(s.last())
    }
}

fn push_esc_char(out: &mut Vec<char>, c: char)
    ensures
        final(out)@ == old(out)@ + esc_char(c),
{
    if c == '<' {
        push_str(out, "&lt;");
    } else if c == '>' {
        push_str(out, "&gt;");
    } else if c == '&' {
        push_str(out, "&amp;");
    } else {
        out.push(c);
    }
}

/// Appends the escape of `s[lo..hi]` to `out`.
fn push_esc(out: &mut Vec<char>, s: &Vec<char>, lo: usize, hi: usize)
    requires
        lo <= hi <= s.len(),
    ensures
        final(out)@ == old(out)@ + esc(s@.subrange(lo as int, hi as int)),
{
    let ghost start = out@;
    let mut i = lo;
    while i < hi
        invariant
            lo <= i <= hi <= s.len(),
            out@ == start + esc(s@.subrange(lo as int, i as int)),
        decreases hi - i,
    {
        proof {
            let t = s@.subrange(lo as int, i + 1);
            assert(t.drop_last() == s@.subrange(lo as int, i as int));
            assert(t.last() == s@[i as int]);
        }
        push_esc_char(out, s[i]);
        i += 1;
    }
}

/// Escapes HTML entities (`<`, `>`, `&`).
pub fn escape_html(text: &str) -> (res: String)
    ensures
        res@ == esc(text@),
{
    let s = chars_of(text);
    let mut out: Vec<char> = Vec::new();
    push_esc(&mut out, &s, 0, s.len());
    assert(s@.subrange(0, s@.len() as int) == s@);
    string_from_chars(&out)
}

// ---------------------------------------------------------------------------
// Delimiter search
// ---------------------------------------------------------------------------

/// First index `>= k` holding `c`, or `s.len()`.
pub open spec fn find_c(s: Seq<char>, c: char, k: int) -> int
    decreases s.len() - k,
{
    if k >= s.len() {
        s.len() as int
    } else if s[k] == c {
        k
    } else {
        find_c(s, c, k + 1)
    }
}

/// First index `>= k` starting two copies of `m`, or `s.len()`.
pub open spec fn find_pair(s: Seq<char>, m: char, k: int) -> int
    decreases s.len() - k,
{
    if k >= s.len() {
        s.len() as int
    } else if k + 1 < s.len() && s[k] == m && s[k + 1] == m {
        k
    } else {
        find_pair(s, m, k + 1)
    }
}

/// Whether three backticks start at index `k`.
pub open spec fn is_fence(s: Seq<char>, k: int) -> bool {
    s[k] == '`' && s[k + 1] == '`' && s[k + 2] == '`'
}

/// End of a fenced code body scanned from `k`: the first fence with at least
/// one character left after it... or where the scan runs out (two before the end).
pub open spec fn find_fence(s: Seq<char>, k: int) -> int
    decreases s.len() - k,
{
    if k + 2 >= s.len() {
        k
    } else if is_fence(s, k) {
        k
    } else {
        find_fence(s, k + 1)
    }
}

pub proof fn lemma_find_c(s: Seq<char>, c: char, k: int)
    requires
        0 <= k <= s.len(),
    ensures
        k <= find_c(s, c, k) <= s.len(),
        find_c(s, c, k) < s.len() ==> s[find_c(s, c, k)] == c,
        forall|j: int| k <= j < find_c(s, c, k) ==> s[j] != c,
    decreases s.len() - k,
{
    if k < s.len() && s[k] != c {
        lemma_find_c(s, c, k + 1);
    }
}

pub proof fn lemma_find_pair(s: Seq<char>, m: char, k: int)
    requires
        0 <= k <= s.len(),
    ensures
        k <= find_pair(s, m, k) <= s.len(),
        find_pair(s, m, k) < s.len() ==> find_pair(s, m, k) + 1 < s.len(),
    decreases s.len() - k,
{
    if k < s.len() && !(k + 1 < s.len() && s[k] == m && s[k + 1] == m) {
        lemma_find_pair(s, m, k + 1);
    }
}

pub proof fn lemma_find_fence(s: Seq<char>, k: int)
    requires
        0 <= k <= s.len(),
    ensures
        k <= find_fence(s, k) <= s.len(),
        find_fence(s, k) + 2 < s.len() ==> is_fence(s, find_fence(s, k)),
    decreases s.len() - k,
{
    if k + 2 < s.len() && !is_fence(s, k) {
        lemma_find_fence(s, k + 1);
    }
}

fn find_c_exec(s: &Vec<char>, c: char, k: usize) -> (r: usize)
    requires
        k <= s.len(),
    ensures
        r == find_c(s@, c, k as int),
{
    let mut j = k;
    while j < s.len() && s[j] != c
        invariant
            k <= j <= s.len(),
            find_c(s@, c, k as int) == find_c(s@, c, j as int),
        decreases s.len() - j,
    {
        j += 1;
    }
    j
}

fn find_pair_exec(s: &Vec<char>, m: char, k: usize) -> (r: usize)
    requires
        k <= s.len(),
    ensures
        r == find_pair(s@, m, k as int),
{
    let mut j = k;
    while j < s.len() && !(j + 1 < s.len() && s[j] == m && s[j + 1] == m)
        invariant
            k <= j <= s.len(),
            find_pair(s@, m, k as int) == find_pair(s@, m, j as int),
        decreases s.len() - j,
    {
        j += 1;
    }
    j
}

fn find_fence_exec(s: &Vec<char>, k: usize) -> (r: usize)
    requires
        k <= s.len(),
    ensures
        r == find_fence(s@, k as int),
{
    let mut j = k;
    while j < s.len() && s.len() - j > 2 && !(s[j] == '`' && s[j + 1] == '`' && s[j + 2] == '`')
        invariant
            k <= j <= s.len(),
            find_fence(s@, k as int) == find_fence(s@, j as int),
        decreases s.len() - j,
    {
        j += 1;
    }
    j
}

// ---------------------------------------------------------------------------
// Tokens
// ---------------------------------------------------------------------------

/// A fenced code block starts at `i`.
pub open spec fn block_at(s: Seq<char>, i: int) -> bool {
    i + 2 < s.len() && is_fence(s, i)
}

/// Bold (`**` or `__`) starts at `i`.
pub open spec fn bold_at(s: Seq<char>, i: int) -> bool {
    i + 1 < s.len() && ((s[i] == '*' && s[i + 1] == '*') || (s[i] == '_' && s[i + 1] == '_'))
}

/// End of the language line of a code block at `i`.
pub open spec fn block_lang_end(s: Seq<char>, i: int) -> int {
    find_c(s, '\n', i + 3)
}

/// Start of the body of a code block at `i`.
pub open spec fn block_code_start(s: Seq<char>, i: int) -> int {
    let le = block_lang_end(s, i);
    if le < s.len() {
        le + 1
    } else {
        s.len() as int
    }
}

/// End of the body of a code block at `i`.
pub open spec fn block_code_end(s: Seq<char>, i: int) -> int {
    find_fence(s, block_code_start(s, i))
}

/// Index after a code block at `i`.
pub open spec fn block_next(s: Seq<char>, i: int) -> int {
    let ce = block_code_end(s, i);
    if ce + 2 < s.len() {
        ce + 3
    } else {
        ce
    }
}

/// HTML of a code block at `i`.
pub open spec fn block_html(s: Seq<char>, i: int) -> Seq<char> {
    let lang = trim(s.subrange(i + 3, block_lang_end(s, i)));
    let code = s.subrange(block_code_start(s, i), block_code_end(s, i));
    "<pre><code"@ + (if lang.len() > 0 {
        " class=\"language-"@ + esc(lang) + "\""@
    } else {
        seq![]
    }) + ">"@ + esc(code) + "</code></pre>"@
}

/// End of an inline code span at `i`.
pub open spec fn inline_end(s: Seq<char>, i: int) -> int {
    find_c(s, '`', i + 1)
}

/// End of the bold text at `i`.
pub open spec fn bold_end(s: Seq<char>, i: int) -> int {
    find_pair(s, s[i], i + 2)
}

/// End of the italic text at `i`.
pub open spec fn italic_end(s: Seq<char>, i: int) -> int {
    find_c(s, s[i], i + 1)
}

/// Index after `e` when `e` is a closing delimiter of width `w`, else `e`.
pub open spec fn skip_close(s: Seq<char>, e: int, w: int) -> int {
    if e + w - 1 < s.len() {
        e + w
    } else {
        e
    }
}

/// End of the text of a link at `i`.
pub open spec fn link_text_end(s: Seq<char>, i: int) -> int {
    find_c(s, ']', i + 1)
}

/// Index after the `]` of a link at `i`.
pub open spec fn link_after(s: Seq<char>, i: int) -> int {
    skip_close(s, link_text_end(s, i), 1)
}

/// Whether the link at `i` has a `(url)` part.
pub open spec fn link_has_url(s: Seq<char>, i: int) -> bool {
    let a = link_after(s, i);
    link_text_end(s, i) < s.len() && a < s.len() && s[a] == '('
}

/// End of the url of a link at `i`.
pub open spec fn link_url_end(s: Seq<char>, i: int) -> int {
    find_c(s, ')', link_after(s, i) + 1)
}

/// HTML of the link token at `i`.
pub open spec fn link_html(s: Seq<char>, i: int) -> Seq<char> {
    let text = s.subrange(i + 1, link_text_end(s, i));
    if link_has_url(s, i) {
        let url = s.subrange(link_after(s, i) + 1, link_url_end(s, i));
        "<a href=\""@ + esc(url) + "\">"@ + esc(text) + "</a>"@
    } else {
        seq!['['] + esc(text) + (if link_text_end(s, i) < s.len() {
            seq![']']
        } else {
            seq![]
        })
    }
}

/// Index after the link token at `i`.
pub open spec fn link_next(s: Seq<char>, i: int) -> int {
    if link_has_url(s, i) {
        skip_close(s, link_url_end(s, i), 1)
    } else {
        link_after(s, i)
    }
}

pub proof fn lemma_token_bounds(s: Seq<char>, i: int)
    requires
        0 <= i < s.len(),
    ensures
        block_at(s, i) ==> i + 3 <= block_lang_end(s, i) <= s.len() && block_lang_end(s, i)
            <= block_code_start(s, i) <= block_code_end(s, i) <= s.len() && i < block_next(s, i)
            <= s.len(),
        i + 1 <= inline_end(s, i) <= s.len(),
        i + 1 < s.len() ==> i + 2 <= bold_end(s, i) <= s.len() && i < skip_close(
            s,
            bold_end(s, i),
            2,
        ) <= s.len(),
        i + 1 <= italic_end(s, i) <= s.len(),
        i + 1 <= link_text_end(s, i) <= s.len(),
        i < link_after(s, i) <= s.len(),
        link_has_url(s, i) ==> link_after(s, i) + 1 <= link_url_end(s, i) <= s.len(),
        i < link_next(s, i) <= s.len(),
{
    if block_at(s, i) {
        lemma_find_c(s, '\n', i + 3);
        lemma_find_fence(s, block_code_start(s, i));
    }
    lemma_find_c(s, '`', i + 1);
    if i + 1 < s.len() {
        lemma_find_pair(s, s[i], i + 2);
    }
    lemma_find_c(s, s[i], i + 1);
    lemma_find_c(s, ']', i + 1);
    if link_has_url(s, i) {
        lemma_find_c(s, ')', link_after(s, i) + 1);
    }
}

/// Telegram HTML for `s[i..]` (`s` is the whole text; `i` the scan position).
pub open spec fn md_from(s: Seq<char>, i: int) -> Seq<char>
    decreases s.len() - i,
{
    if i < 0 || i >= s.len() {
        seq![]
    } else {
        proof {
            lemma_token_bounds(s, i);
        }
        if block_at(s, i) {
            block_html(s, i) + md_from(s, block_next(s, i))
        } else if s[i] == '`' {
            let e = inline_end(s, i);
            "<code>"@ + esc(s.subrange(i + 1, e)) + "</code>"@ + md_from(s, skip_close(s, e, 1))
        } else if bold_at(s, i) {
            let e = bold_end(s, i);
            "<b>"@ + md_from(s.subrange(i + 2, e), 0) + "</b>"@ + md_from(s, skip_close(s, e, 2))
        } else if s[i] == '*' || s[i] == '_' {
            let e = italic_end(s, i);
            "<i>"@ + md_from(s.subrange(i + 1, e), 0) + "</i>"@ + md_from(s, skip_close(s, e, 1))
        } else if s[i] == '[' {
            link_html(s, i) + md_from(s, link_next(s, i))
        } else {
            esc_char(s[i]) + md_from(s, i + 1)
        }
    }
}

/// Telegram HTML for the Markdown text `s`.
pub open spec fn md(s: Seq<char>) -> Seq<char> {
    md_from(s, 0)
}

/// Whether the fenced-block test holds at `i` (executable).
fn fence_exec(s: &Vec<char>, i: usize) -> (b: bool)
    requires
        i < s.len(),
    ensures
        b == block_at(s@, i as int),
{
    s.len() - i > 2 && s[i] == '`' && s[i + 1] == '`' && s[i + 2] == '`'
}

fn md_block(s: &Vec<char>, i: usize, out: &mut Vec<char>) -> (r: usize)
    requires
        i < s.len(),
        block_at(s@, i as int),
    ensures
        i < r <= s.len(),
        final(out)@ + md_from(s@, r as int) == old(out)@ + md_from(s@, i as int),
{
    proof {
        lemma_token_bounds(s@, i as int);
    }
    let ghost start = out@;
    let le = find_c_exec(s, '\n', i + 3);
    let cs = if le < s.len() { le + 1 } else { s.len() };
    let ce = find_fence_exec(s, cs);
    let (lo, hi) = trim_bounds(s, i + 3, le);
    push_str(out, "<pre><code");
    if lo < hi {
        push_str(out, " class=\"language-");
        push_esc(out, s, lo, hi);
        push_str(out, "\"");
    }
    push_str(out, ">");
    push_esc(out, s, cs, ce);
    push_str(out, "</code></pre>");
    assert(out@ == start + block_html(s@, i as int));
    if ce < s.len() && s.len() - ce > 2 {
        ce + 3
    } else {
        ce
    }
}

fn md_inline(s: &Vec<char>, i: usize, out: &mut Vec<char>) -> (r: usize)
    requires
        i < s.len(),
        !block_at(s@, i as int),
        s@[i as int] == '`',
    ensures
        i < r <= s.len(),
        final(out)@ + md_from(s@, r as int) == old(out)@ + md_from(s@, i as int),
{
    proof {
        lemma_token_bounds(s@, i as int);
    }
    let e = find_c_exec(s, '`', i + 1);
    push_str(out, "<code>");
    push_esc(out, s, i + 1, e);
    push_str(out, "</code>");
    if e < s.len() {
        e + 1
    } else {
        e
    }
}

fn md_bold(s: &Vec<char>, i: usize, out: &mut Vec<char>) -> (r: usize)
    requires
        i < s.len(),
        !block_at(s@, i as int),
        s@[i as int] != '`',
        bold_at(s@, i as int),
    ensures
        i < r <= s.len(),
        final(out)@ + md_from(s@, r as int) == old(out)@ + md_from(s@, i as int),
    decreases s.len(), 0nat,
{
    proof {
        lemma_token_bounds(s@, i as int);
    }
    let e = find_pair_exec(s, s[i], i + 2);
    let inner = slice_chars(s, i + 2, e);
    let html = md_chars(&inner);
    push_str(out, "<b>");
    push_chars(out, &html);
    push_str(out, "</b>");
    if e < s.len() && s.len() - e > 1 {
        e + 2
    } else {
        e
    }
}

fn md_italic(s: &Vec<char>, i: usize, out: &mut Vec<char>) -> (r: usize)
    requires
        i < s.len(),
        !block_at(s@, i as int),
        s@[i as int] != '`',
        !bold_at(s@, i as int),
        s@[i as int] == '*' || s@[i as int] == '_',
    ensures
        i < r <= s.len(),
        final(out)@ + md_from(s@, r as int) == old(out)@ + md_from(s@, i as int),
    decreases s.len(), 0nat,
{
    proof {
        lemma_token_bounds(s@, i as int);
    }
    let e = find_c_exec(s, s[i], i + 1);
    let inner = slice_chars(s, i + 1, e);
    let html = md_chars(&inner);
    push_str(out, "<i>");
    push_chars(out, &html);
    push_str(out, "</i>");
    if e < s.len() {
        e + 1
    } else {
        e
    }
}

fn md_link(s: &Vec<char>, i: usize, out: &mut Vec<char>) -> (r: usize)
    requires
        i < s.len(),
        !block_at(s@, i as int),
        !bold_at(s@, i as int),
        s@[i as int] == '[',
    ensures
        i < r <= s.len(),
        final(out)@ + md_from(s@, r as int) == old(out)@ + md_from(s@, i as int),
{
    proof {
        lemma_token_bounds(s@, i as int);
    }
    let ghost start = out@;
    let e = find_c_exec(s, ']', i + 1);
    let found = e < s.len();
    let a = if found { e + 1 } else { e };
    if found && a < s.len() && s[a] == '(' {
        let u = find_c_exec(s, ')', a + 1);
        push_str(out, "<a href=\"");
        push_esc(out, s, a + 1, u);
        push_str(out, "\">");
        push_esc(out, s, i + 1, e);
        push_str(out, "</a>");
        assert(out@ == start + link_html(s@, i as int));
        if u < s.len() {
            u + 1
        } else {
            u
        }
    } else {
        out.push('[');
        push_esc(out, s, i + 1, e);
        if found {
            out.push(']');
        }
        assert(out@ == start + link_html(s@, i as int));
        a
    }
}

fn md_plain(s: &Vec<char>, i: usize, out: &mut Vec<char>) -> (r: usize)
    requires
        i < s.len(),
        !block_at(s@, i as int),
        !bold_at(s@, i as int),
        s@[i as int] != '`',
        s@[i as int] != '*',
        s@[i as int] != '_',
        s@[i as int] != '[',
    ensures
        r == i + 1,
        final(out)@ + md_from(s@, r as int) == old(out)@ + md_from(s@, i as int),
{
    push_esc_char(out, s[i]);
    i + 1
}

fn md_chars(s: &Vec<char>) -> (out: Vec<char>)
    ensures
        out@ == md(s@),
    decreases s.len(), 1nat,
{
    let mut out: Vec<char> = Vec::new();
    let mut i: usize = 0;
    while i < s.len()
        invariant
            i <= s.len(),
            md(s@) == out@ + md_from(s@, i as int),
        decreases s.len() - i,
    {
        let bold = i + 1 < s.len() && ((s[i] == '*' && s[i + 1] == '*') || (s[i] == '_' && s[i
            + 1] == '_'));
        if fence_exec(s, i) {
            i = md_block(s, i, &mut out);
        } else if s[i] == '`' {
            i = md_inline(s, i, &mut out);
        } else if bold {
            i = md_bold(s, i, &mut out);
        } else if s[i] == '*' || s[i] == '_' {
            i = md_italic(s, i, &mut out);
        } else if s[i] == '[' {
            i = md_link(s, i, &mut out);
        } else {
            i = md_plain(s, i, &mut out);
        }
    }
    out
}

/// Converts Markdown to Telegram HTML.
///
/// Bold `**text**` / `__text__` becomes `<b>`, italic `*text*` / `_text_`
/// becomes `<i>`, inline code becomes `<code>`, fenced code blocks become
/// `<pre><code class="language-..">`, links become `<a href>`; other
/// characters are HTML-escaped. Bold and italic contents are converted
/// recursively.
pub fn markdown_to_telegram_html(text: &str) -> (res: String)
    ensures
        res@ == md(text@),
{
    let s = chars_of(text);
    let out = md_chars(&s);
    string_from_chars(&out)
}


// ---------------------------------------------------------------------------
// Truncation and splitting
// ---------------------------------------------------------------------------

/// Whether scanning `s[lo..k]` ends inside an HTML tag: the last `<` or `>`
/// seen is a `<`.
pub open spec fn tag_open(s: Seq<char>, lo: int, k: int) -> bool
    decreases k - lo,
{
    if k <= lo {
        false
    } else if s[k - 1] == '<' {
        true
    } else if s[k - 1] == '>' {
        false
    } else {
        tag_open(s, lo, k - 1)
    }
}

/// The last index in `[lo, k)` holding `<`, or `lo - 1` when there is none.
pub open spec fn last_lt(s: Seq<char>, lo: int, k: int) -> int
    decreases k - lo,
{
    if k <= lo {
        lo - 1
    } else if s[k - 1] == '<' {
        k - 1
    } else {
        last_lt(s, lo, k - 1)
    }
}

pub proof fn lemma_last_lt(s: Seq<char>, lo: int, k: int)
    requires
        0 <= lo <= k <= s.len(),
    ensures
        lo - 1 <= last_lt(s, lo, k) < k,
        tag_open(s, lo, k) ==> lo <= last_lt(s, lo, k) && s[last_lt(s, lo, k)] == '<',
        lo <= last_lt(s, lo, k) ==> s[last_lt(s, lo, k)] == '<',
        forall|j: int| last_lt(s, lo, k) < j < k ==> s[j] != '<',
    decreases k - lo,
{
    if k > lo && s[k - 1] != '<' {
        lemma_last_lt(s, lo, k - 1);
    }
}

/// Result of truncating `s` to `max_len` characters with a trailing `...`.
pub open spec fn truncated(s: Seq<char>, max_len: nat) -> Seq<char> {
    if s.len() <= max_len {
        s
    } else {
        let target = if max_len >= 3 {
            max_len - 3
        } else {
            0
        };
        let m = if target < s.len() {
            target as int
        } else {
            s.len() as int
        };
        let safe = if tag_open(s, 0, m) {
            last_lt(s, 0, m)
        } else {
            target as int
        };
        s.take(if safe < s.len() {
            safe
        } else {
            s.len() as int
        }) + "..."@
    }
}

/// State of the tag scan over `s[lo..k]` (executable).
fn tag_open_exec(s: &Vec<char>, lo: usize, k: usize) -> (b: bool)
    requires
        lo <= k <= s.len(),
    ensures
        b == tag_open(s@, lo as int, k as int),
{
    let mut in_tag = false;
    let mut i = lo;
    proof {
        lemma_tag_open_split(s@, lo as int, lo as int, k as int);
    }
    while i < k
        invariant
            lo <= i <= k <= s.len(),
            tag_open(s@, lo as int, k as int) == (if tag_open_known(s@, i as int, k as int) {
                tag_open_suffix(s@, i as int, k as int)
            } else {
                in_tag
            }),
            in_tag == tag_open(s@, lo as int, i as int),
        decreases k - i,
    {
        proof {
            lemma_tag_open_split(s@, lo as int, i as int, k as int);
            lemma_tag_open_split(s@, lo as int, i + 1, k as int);
            lemma_tag_open_split(s@, i as int, i + 1, k as int);
        }
        if s[i] == '<' {
            in_tag = true;
        } else if s[i] == '>' {
            in_tag = false;
        }
        i += 1;
    }
    in_tag
}

/// Whether `s[i..k]` holds a `<` or `>`.
pub open spec fn tag_open_known(s: Seq<char>, i: int, k: int) -> bool
    decreases k - i,
{
    if k <= i {
        false
    } else if s[k - 1] == '<' || s[k - 1] == '>' {
        true
    } else {
        tag_open_known(s, i, k - 1)
    }
}

/// The tag state decided by the last `<` or `>` of `s[i..k]`.
pub open spec fn tag_open_suffix(s: Seq<char>, i: int, k: int) -> bool {
    tag_open(s, i, k)
}

proof fn lemma_tag_open_split(s: Seq<char>, lo: int, i: int, k: int)
    requires
        lo <= i <= k,
    ensures
        tag_open(s, lo, k) == (if tag_open_known(s, i, k) {
            tag_open(s, i, k)
        } else {
            tag_open(s, lo, i)
        }),
    decreases k - i,
{
    if k > i && !(s[k - 1] == '<' || s[k - 1] == '>') {
        lemma_tag_open_split(s, lo, i, k - 1);
    }
}

/// Last index of `<` in `s[lo..k]`, or `lo` when none (executable helper).
fn last_lt_exec(s: &Vec<char>, lo: usize, k: usize) -> (r: usize)
    requires
        lo <= k <= s.len(),
    ensures
        (r as int == last_lt(s@, lo as int, k as int)) || (r == lo && last_lt(s@, lo as int, k as int) == lo - 1),
{
    let mut j = k;
    while j > lo && s[j - 1] != '<'
        invariant
            lo <= j <= k <= s.len(),
            last_lt(s@, lo as int, k as int) == last_lt(s@, lo as int, j as int),
        decreases j - lo,
    {
        j -= 1;
    }
    if j > lo {
        j - 1
    } else {
        lo
    }
}

/// Truncates `text` to `max_len` characters, appending `...` when it is cut.
/// The cut is moved back to before an HTML tag left open at the cut point.
pub fn truncate_message(text: &str, max_len: usize) -> (res: String)
    ensures
        res@ == truncated(text@, max_len as nat),
{
    let s = chars_of(text);
    if s.len() <= max_len {
        return text.to_owned();
    }
    let target: usize = if max_len >= 3 { max_len - 3 } else { 0 };
    let m: usize = if target < s.len() { target } else { s.len() };
    let in_tag = tag_open_exec(&s, 0, m);
    let mut safe: usize = target;
    if in_tag {
        proof {
            lemma_last_lt(s@, 0, m as int);
        }
        safe = last_lt_exec(&s, 0, m);
    }
    let keep: usize = if safe < s.len() { safe } else { s.len() };
    let mut out = slice_chars(&s, 0, keep);
    push_str(&mut out, "...");
    assert(s@.subrange(0, keep as int) == s@.take(keep as int));
    string_from_chars(&out)
}


/// Whether a chunk holds more `<pre>` than `</pre>`.
pub open spec fn inside_code_block(chunk: Seq<char>) -> bool {
    crate::text::count_from(chunk, "<pre>"@, 0) > crate::text::count_from(chunk, "</pre>"@, 0)
}

/// Where a chunk starting at `start` is extended to so that it closes its code
/// block: after the first `</pre>` at or after `start`. The offset of that
/// `</pre>` is counted in bytes (as `str::find` reports it) and added to the
/// character index `start`; the result is capped at the text's length.
pub open spec fn code_block_end(s: Seq<char>, start: int, initial_end: int) -> int {
    let t = s.skip(start);
    if crate::text::contains_seq(t, "</pre>"@) {
        let q = choose|q: int| crate::text::matches_at(t, q, "</pre>"@) && forall|j: int|
            0 <= j < q ==> !crate::text::matches_at(t, j, "</pre>"@);
        let e = start + byte_len(t.take(q)) + 6;
        if e < s.len() {
            e
        } else {
            s.len() as int
        }
    } else {
        initial_end
    }
}

/// End of the chunk that starts at `start` when more than `max_len`
/// characters remain.
pub open spec fn chunk_end(s: Seq<char>, start: int, max_len: int) -> int {
    let e0 = start + max_len;
    let e1 = if inside_code_block(s.subrange(start, e0)) {
        code_block_end(s, start, e0)
    } else {
        e0
    };
    if tag_open(s, start, e1) {
        last_lt(s, start, e1)
    } else {
        e1
    }
}

/// Whether splitting from `start` makes progress until the end of `s`.
pub open spec fn split_progresses(s: Seq<char>, start: int, max_len: int) -> bool
    decreases s.len() - start,
{
    if start < 0 || start >= s.len() || s.len() - start <= max_len {
        true
    } else {
        let e = chunk_end(s, start, max_len);
        start < e && e <= s.len() && split_progresses(s, e, max_len)
    }
}

/// The chunks of `s` from `start`.
pub open spec fn chunks(s: Seq<char>, start: int, max_len: int) -> Seq<Seq<char>>
    decreases s.len() - start,
{
    if start < 0 || start >= s.len() {
        seq![]
    } else if s.len() - start <= max_len {
        seq![s.skip(start)]
    } else {
        let e = chunk_end(s, start, max_len);
        if e <= start || e > s.len() {
            seq![]
        } else {
            seq![s.subrange(start, e)] + chunks(s, e, max_len)
        }
    }
}

/// Where each chunk of [`chunks`] starts.
pub open spec fn chunk_starts(s: Seq<char>, start: int, max_len: int) -> Seq<int>
    decreases s.len() - start,
{
    if start < 0 || start >= s.len() {
        seq![]
    } else if s.len() - start <= max_len {
        seq![start]
    } else {
        let e = chunk_end(s, start, max_len);
        if e <= start || e > s.len() {
            seq![]
        } else {
            seq![start] + chunk_starts(s, e, max_len)
        }
    }
}

/// The stack of open tags after the tag `t`: a closing tag (`</..>`) closes
/// the innermost open one, a self-closing tag (`<../>`) changes nothing, any
/// other tag opens.
pub open spec fn apply_tag(st: Seq<Seq<char>>, t: Seq<char>) -> Seq<Seq<char>> {
    if t.len() >= 2 && t[1] == '/' {
        if st.len() > 0 { st.drop_last() } else { st }
    } else if t.len() >= 2 && t[t.len() - 2] == '/' {
        st
    } else {
        st.push(t)
    }
}

/// The tags left open, from `st` on, by the complete tags (`<` to the next
/// `>`) that start at or after `i` and end before `k`.
pub open spec fn open_tags_from(s: Seq<char>, i: int, k: int, st: Seq<Seq<char>>) -> Seq<Seq<char>>
    decreases k - i,
{
    if i < 0 || i >= k || k > s.len() {
        st
    } else if s[i] == '<' {
        let j = crate::text::find_char(s, '>', i);
        proof {
            crate::text::lemma_find_char(s, '>', i);
        }
        if j < k {
            open_tags_from(s, j + 1, k, apply_tag(st, s.subrange(i, j + 1)))
        } else {
            st
        }
    } else {
        open_tags_from(s, i + 1, k, st)
    }
}

/// The tags of `s` still open at position `k`, outermost first.
pub open spec fn open_tags(s: Seq<char>, k: int) -> Seq<Seq<char>> {
    open_tags_from(s, 0, k, seq![])
}

/// The name of an opening tag: what follows `<` up to a space or `>`.
pub open spec fn tag_name(t: Seq<char>) -> Seq<char> {
    let sp = crate::text::find_char(t, ' ', 1);
    let gt = crate::text::find_char(t, '>', 1);
    t.subrange(1, if sp < gt { sp } else { gt })
}

/// The closing tag of an opening tag.
pub open spec fn closing_tag(t: Seq<char>) -> Seq<char> {
    "</"@ + tag_name(t) + ">"@
}

/// The closing tags of the open tags `st`, innermost first.
pub open spec fn closing_tags(st: Seq<Seq<char>>) -> Seq<char>
    decreases st.len(),
{
    if st.len() == 0 {
        seq![]
    } else {
        closing_tag(st.last()) + closing_tags(st.drop_last())
    }
}

/// Part `k` of a split into the chunks `c` starting at `b`: the tags open at
/// its start are reopened, and every part but the last closes the tags open
/// at its end and gets `...`.
pub open spec fn dressed_part(s: Seq<char>, c: Seq<Seq<char>>, b: Seq<int>, k: int) -> Seq<char> {
    concat_all(open_tags(s, b[k])) + c[k] + if k < c.len() - 1 {
        closing_tags(open_tags(s, b[k + 1])) + "..."@
    } else {
        seq![]
    }
}

/// The parts `split_message` returns for `s`.
pub open spec fn split_parts(s: Seq<char>, max_len: nat) -> Seq<Seq<char>> {
    if byte_len(s) <= max_len {
        seq![s]
    } else {
        let c = chunks(s, 0, max_len as int);
        let b = chunk_starts(s, 0, max_len as int);
        Seq::new(c.len(), |k: int| dressed_part(s, c, b, k))
    }
}

/// Whether `split_message` finishes on `s`: it does unless a chunk cannot
/// advance (an empty limit, or an open `<` at the start of a chunk).
pub open spec fn split_finishes(s: Seq<char>, max_len: nat) -> bool {
    byte_len(s) <= max_len || split_progresses(s, 0, max_len as int)
}

/// Checks whether text holds an unclosed `<pre>` (more `<pre>` than `</pre>`).
pub fn is_inside_code_block(text: &str) -> (b: bool)
    ensures
        b == inside_code_block(text@),
{
    let s = chars_of(text);
    let open = chars_of("<pre>");
    let close = chars_of("</pre>");
    proof {
        reveal_strlit("<pre>");
        reveal_strlit("</pre>");
    }
    crate::text::count_occurrences(&s, &open) > crate::text::count_occurrences(&s, &close)
}

fn inside_code_block_in(s: &Vec<char>, lo: usize, hi: usize) -> (b: bool)
    requires
        lo <= hi <= s.len(),
    ensures
        b == inside_code_block(s@.subrange(lo as int, hi as int)),
{
    let t = slice_chars(s, lo, hi);
    let open = chars_of("<pre>");
    let close = chars_of("</pre>");
    proof {
        reveal_strlit("<pre>");
        reveal_strlit("</pre>");
    }
    crate::text::count_occurrences(&t, &open) > crate::text::count_occurrences(&t, &close)
}

/// Finds the end of a code block: just after the first `</pre>` at or after
/// `start` (see [`code_block_end`]), or `initial_end` when there is none.
pub fn find_code_block_end(chars: &[char], start: usize, initial_end: usize) -> (r: usize)
    requires
        start <= chars@.len(),
        byte_len(chars@) + 6 <= usize::MAX,
    ensures
        r == code_block_end(chars@, start as int, initial_end as int),
{
    let v = slice_chars_of(chars, start);
    let close = chars_of("</pre>");
    proof {
        reveal_strlit("</pre>");
    }
    let ghost t = chars@.skip(start as int);
    assert(v@ == t);
    match crate::text::find_from(&v, &close, 0) {
        Some(q) => {
            proof {
                assert(chars@ == chars@.take(start as int) + t);
                lemma_byte_len_concat(chars@.take(start as int), t);
                assert(t == t.take(q as int) + t.skip(q as int));
                lemma_byte_len_concat(t.take(q as int), t.skip(q as int));
                crate::text::lemma_byte_len_ge_len(chars@.take(start as int));
                assert(crate::text::contains_seq(t, "</pre>"@));
                let qq = choose|qq: int| crate::text::matches_at(t, qq, "</pre>"@) && forall|j: int|
                    0 <= j < qq ==> !crate::text::matches_at(t, j, "</pre>"@);
                if qq < q {
                } else if qq > q {
                }
                assert(qq == q);
                assert(v@.subrange(0, q as int) == t.take(q as int));
            }
            let pos = crate::text::byte_len_in(&v, 0, q);
            let end = start + pos + 6;
            if end < chars.len() {
                end
            } else {
                chars.len()
            }
        },
        None => initial_end,
    }
}

fn slice_chars_of(s: &[char], lo: usize) -> (r: Vec<char>)
    requires
        lo <= s@.len(),
    ensures
        r@ == s@.skip(lo as int),
{
    let mut r: Vec<char> = Vec::new();
    let mut i = lo;
    while i < s.len()
        invariant
            lo <= i <= s@.len(),
            r@ == s@.subrange(lo as int, i as int),
        decreases s@.len() - i,
    {
        r.push(s[i]);
        i += 1;
    }
    r
}


fn chunk_end_exec(s: &Vec<char>, start: usize, max_len: usize) -> (end: usize)
    requires
        start < s.len(),
        s.len() - start > max_len,
        byte_len(s@) + 6 <= usize::MAX,
    ensures
        end == chunk_end(s@, start as int, max_len as int),
{
    let e0 = start + max_len;
    let e1 = if inside_code_block_in(s, start, e0) {
        find_code_block_end(s.as_slice(), start, e0)
    } else {
        e0
    };
    assert(e1 <= s.len());
    if tag_open_exec(s, start, e1) {
        proof {
            lemma_last_lt(s@, start as int, e1 as int);
        }
        last_lt_exec(s, start, e1)
    } else {
        e1
    }
}

fn apply_tag_exec(st: &mut Vec<Vec<char>>, t: Vec<char>)
    requires
        t.len() >= 2,
        forall|k: int| 0 <= k < old(st).len() ==> #[trigger] old(st)@[k].len() >= 2,
    ensures
        crate::text::char_vecs_view(final(st)@) == apply_tag(crate::text::char_vecs_view(old(st)@), t@),
        forall|k: int| 0 <= k < final(st).len() ==> #[trigger] final(st)@[k].len() >= 2,
{
    let n = t.len();
    if t[1] == '/' {
        if st.len() > 0 {
            st.pop();
            assert(crate::text::char_vecs_view(st@) =~= crate::text::char_vecs_view(old(st)@).drop_last());
        }
    } else if t[n - 2] == '/' {
    } else {
        st.push(t);
        assert(crate::text::char_vecs_view(st@) =~= crate::text::char_vecs_view(old(st)@).push(t@));
    }
}

/// The tags of `s` still open at position `k` ([`open_tags`]).
fn open_tags_exec(s: &Vec<char>, k: usize) -> (r: Vec<Vec<char>>)
    requires
        k <= s.len(),
    ensures
        crate::text::char_vecs_view(r@) == open_tags(s@, k as int),
        forall|j: int| 0 <= j < r.len() ==> #[trigger] r@[j].len() >= 2,
{
    let mut st: Vec<Vec<char>> = Vec::new();
    let mut i: usize = 0;
    assert(crate::text::char_vecs_view(st@) =~= Seq::<Seq<char>>::empty());
    while i < k
        invariant
            i <= k <= s.len(),
            open_tags(s@, k as int) == open_tags_from(s@, i as int, k as int, crate::text::char_vecs_view(st@)),
            forall|j: int| 0 <= j < st.len() ==> #[trigger] st@[j].len() >= 2,
        decreases k - i,
    {
        if s[i] == '<' {
            let j = crate::text::find_char_exec(s, '>', i);
            if j < k {
                proof {
                    crate::text::lemma_find_char(s@, '>', i as int);
                    assert(j != i);
                }
                let t = slice_chars(s, i, j + 1);
                apply_tag_exec(&mut st, t);
                i = j + 1;
            } else {
                i = k;
            }
        } else {
            i += 1;
        }
    }
    st
}

/// [`closing_tag`] of a tag.
fn closing_tag_exec(t: &Vec<char>) -> (r: Vec<char>)
    requires
        t.len() >= 2,
    ensures
        r@ == closing_tag(t@),
{
    let sp = crate::text::find_char_exec(t, ' ', 1);
    let gt = crate::text::find_char_exec(t, '>', 1);
    let end = if sp < gt { sp } else { gt };
    let mut r: Vec<char> = Vec::new();
    push_str(&mut r, "</");
    let name = slice_chars(t, 1, end);
    push_chars(&mut r, &name);
    push_str(&mut r, ">");
    r
}

/// [`closing_tags`] of a stack of tags.
fn closing_tags_exec(st: &Vec<Vec<char>>) -> (r: Vec<char>)
    requires
        forall|j: int| 0 <= j < st.len() ==> #[trigger] st@[j].len() >= 2,
    ensures
        r@ == closing_tags(crate::text::char_vecs_view(st@)),
{
    let ghost v = crate::text::char_vecs_view(st@);
    let mut out: Vec<char> = Vec::new();
    let mut k = st.len();
    assert(v.take(k as int) =~= v);
    while k > 0
        invariant
            k <= st.len(),
            v == crate::text::char_vecs_view(st@),
            forall|j: int| 0 <= j < st.len() ==> #[trigger] st@[j].len() >= 2,
            closing_tags(v) == out@ + closing_tags(v.take(k as int)),
        decreases k,
    {
        k -= 1;
        let c = closing_tag_exec(&st[k]);
        proof {
            assert(v.take(k + 1).drop_last() =~= v.take(k as int));
            assert(v.take(k + 1).last() == st@[k as int]@);
        }
        push_chars(&mut out, &c);
        assert(closing_tags(v) == out@ + closing_tags(v.take(k as int)));
    }
    assert(v.take(0) =~= Seq::<Seq<char>>::empty());
    assert(out@ + Seq::<char>::empty() =~= out@);
    out
}

/// [`concat_all`] of a stack of tags.
fn concat_exec(st: &Vec<Vec<char>>) -> (r: Vec<char>)
    ensures
        r@ == concat_all(crate::text::char_vecs_view(st@)),
{
    let ghost v = crate::text::char_vecs_view(st@);
    let mut out: Vec<char> = Vec::new();
    let mut i: usize = 0;
    assert(v.skip(0) =~= v);
    while i < st.len()
        invariant
            i <= st.len(),
            v == crate::text::char_vecs_view(st@),
            concat_all(v) == out@ + concat_all(v.skip(i as int)),
        decreases st.len() - i,
    {
        proof {
            assert(v.skip(i as int)[0] == st@[i as int]@);
            assert(v.skip(i as int).drop_first() =~= v.skip(i + 1));
        }
        push_chars(&mut out, &st[i]);
        assert(concat_all(v) == out@ + concat_all(v.skip(i + 1)));
        i += 1;
    }
    assert(v.skip(i as int) =~= Seq::<Seq<char>>::empty());
    assert(out@ + Seq::<char>::empty() =~= out@);
    out
}

/// Whether [`split_message`] finishes on `text` with limit `max_len`: it does
/// unless a chunk cannot advance.
pub fn split_would_finish(text: &str, max_len: usize) -> (b: bool)
    requires
        byte_len(text@) + 6 <= usize::MAX,
    ensures
        b == split_finishes(text@, max_len as nat),
{
    proof {
        crate::text::lemma_byte_len_encode(text@);
    }
    let n = text.len();
    assert(n == byte_len(text@));
    if n <= max_len {
        return true;
    }
    let s = chars_of(text);
    let mut start: usize = 0;
    while start < s.len()
        invariant
            s@ == text@,
            byte_len(s@) + 6 <= usize::MAX,
            byte_len(s@) > max_len,
            start <= s.len(),
            split_progresses(s@, 0, max_len as int) == split_progresses(s@, start as int, max_len as int),
        decreases s.len() - start,
    {
        if s.len() - start <= max_len {
            return true;
        }
        let end = chunk_end_exec(&s, start, max_len);
        if end <= start || end > s.len() {
            assert(!split_progresses(s@, start as int, max_len as int));
            return false;
        }
        start = end;
    }
    true
}


/// Splits `text` into chunks of at most `max_len` characters, for Telegram's
/// message size limit. A chunk that would end inside an unclosed `<pre>` is
/// extended to the end of the code block; a chunk that would end inside an
/// HTML tag is cut back before the tag. The tags open where a part ends are
/// closed at its end and reopened at the start of the next part, and every
/// part but the last gets `...`.
pub fn split_message(text: &str, max_len: usize) -> (res: Vec<String>)
    requires
        byte_len(text@) + 6 <= usize::MAX,
        split_finishes(text@, max_len as nat),
    ensures
        res@.len() == split_parts(text@, max_len as nat).len(),
        forall|k: int| 0 <= k < res@.len() ==> #[trigger] res@[k]@ == split_parts(text@, max_len as nat)[k],
{
    proof {
        crate::text::lemma_byte_len_encode(text@);
    }
    if text.len() <= max_len {
        let whole = text.to_owned();
        let mut one: Vec<String> = Vec::new();
        one.push(whole);
        return one;
    }
    let s = chars_of(text);
    let ghost full = chunks(s@, 0, max_len as int);
    let ghost full_starts = chunk_starts(s@, 0, max_len as int);
    let mut parts: Vec<Vec<char>> = Vec::new();
    let mut starts: Vec<usize> = Vec::new();
    let ghost mut acc: Seq<Seq<char>> = seq![];
    let ghost mut acc_starts: Seq<int> = seq![];
    let mut start: usize = 0;
    while start < s.len()
        invariant
            s@ == text@,
            byte_len(s@) + 6 <= usize::MAX,
            start <= s.len(),
            split_progresses(s@, start as int, max_len as int),
            full == acc + chunks(s@, start as int, max_len as int),
            full_starts == acc_starts + chunk_starts(s@, start as int, max_len as int),
            parts.len() == acc.len(),
            starts.len() == acc_starts.len(),
            forall|k: int| 0 <= k < acc.len() ==> #[trigger] parts@[k]@ == acc[k],
            forall|k: int| 0 <= k < acc_starts.len() ==> #[trigger] starts@[k] as int == acc_starts[k],
            forall|k: int| 0 <= k < acc_starts.len() ==> #[trigger] acc_starts[k] <= start,
        decreases s.len() - start,
    {
        if s.len() - start <= max_len {
            let rest = slice_chars(&s, start, s.len());
            proof {
                acc = acc.push(s@.skip(start as int));
                acc_starts = acc_starts.push(start as int);
                assert(chunks(s@, s.len() as int, max_len as int) == Seq::<Seq<char>>::empty());
                assert(chunk_starts(s@, s.len() as int, max_len as int) == Seq::<int>::empty());
            }
            parts.push(rest);
            starts.push(start);
            start = s.len();
        } else {
            let end = chunk_end_exec(&s, start, max_len);
            let chunk = slice_chars(&s, start, end);
            proof {
                acc = acc.push(s@.subrange(start as int, end as int));
                acc_starts = acc_starts.push(start as int);
            }
            parts.push(chunk);
            starts.push(start);
            start = end;
        }
    }
    assert(acc == full);
    assert(acc_starts == full_starts);
    proof {
        crate::text::lemma_byte_len_ge_len(s@);
        lemma_chunk_starts(s@, 0, max_len as int);
    }
    let mut res: Vec<String> = Vec::new();
    let mut k: usize = 0;
    while k < parts.len()
        invariant
            k <= parts.len(),
            s@ == text@,
            byte_len(s@) > max_len,
            parts.len() == full.len(),
            starts.len() == full.len(),
            full == chunks(s@, 0, max_len as int),
            full_starts == chunk_starts(s@, 0, max_len as int),
            forall|j: int| 0 <= j < full.len() ==> #[trigger] parts@[j]@ == full[j],
            forall|j: int| 0 <= j < full.len() ==> #[trigger] starts@[j] as int == full_starts[j],
            forall|j: int| 0 <= j < full.len() ==> #[trigger] starts@[j] <= s.len(),
            res@.len() == k,
            forall|j: int| 0 <= j < k ==> #[trigger] res@[j]@ == split_parts(text@, max_len as nat)[j],
        decreases parts.len() - k,
    {
        let open = open_tags_exec(&s, starts[k]);
        let mut piece = concat_exec(&open);
        push_chars(&mut piece, &parts[k]);
        if k + 1 < parts.len() {
            let still_open = open_tags_exec(&s, starts[k + 1]);
            let closes = closing_tags_exec(&still_open);
            push_chars(&mut piece, &closes);
            push_str(&mut piece, "...");
        } else {
            assert(piece@ + Seq::<char>::empty() =~= piece@);
        }
        assert(piece@ =~= dressed_part(s@, full, full_starts, k as int));
        res.push(string_from_chars(&piece));
        k += 1;
    }
    res
}


// ---------------------------------------------------------------------------
// Laws
// ---------------------------------------------------------------------------

/// Concatenation of a sequence of parts.
pub open spec fn concat_all(parts: Seq<Seq<char>>) -> Seq<char>
    decreases parts.len(),
{
    if parts.len() == 0 {
        seq![]
    } else {
        parts[0] + concat_all(parts.drop_first())
    }
}

/// Whether `s` holds none of the Markdown markers `` ` ``, `*`, `_`, `[`.
pub open spec fn no_markup(s: Seq<char>) -> bool {
    forall|k: int| 0 <= k < s.len() ==> #[trigger] s[k] != '`' && s[k] != '*' && s[k] != '_' && s[k] != '['
}

proof fn lemma_md_plain_from(s: Seq<char>, i: int)
    requires
        no_markup(s),
        0 <= i <= s.len(),
    ensures
        md_from(s, i) == esc(s.skip(i)),
    decreases s.len() - i,
{
    if i < s.len() {
        assert(s[i] != '`' && s[i] != '*' && s[i] != '_' && s[i] != '[');
        lemma_md_plain_from(s, i + 1);
        lemma_esc_cons(s[i], s.skip(i + 1));
        assert(s.skip(i) == seq![s[i]] + s.skip(i + 1));
    } else {
        assert(s.skip(i) == Seq::<char>::empty());
    }
}

proof fn lemma_esc_concat(a: Seq<char>, b: Seq<char>)
    ensures
        esc(a + b) == esc(a) + esc(b),
    decreases b.len(),
{
    if b.len() == 0 {
        assert(a + b == a);
    } else {
        assert((a + b).drop_last() == a + b.drop_last());
        lemma_esc_concat(a, b.drop_last());
    }
}

proof fn lemma_esc_cons(c: char, b: Seq<char>)
    ensures
        esc(seq![c] + b) == esc_char(c) + esc(b),
{
    lemma_esc_concat(seq![c], b);
    assert(seq![c].drop_last() == Seq::<char>::empty());
    assert(esc(Seq::<char>::empty()) == Seq::<char>::empty());
    assert(esc(seq![c]) == esc(Seq::<char>::empty()) + esc_char(c));
    assert(Seq::<char>::empty() + esc_char(c) == esc_char(c));
}

/// Text without Markdown markers is only HTML-escaped.
pub proof fn law_plain_text_is_escaped(s: Seq<char>)
    requires
        no_markup(s),
    ensures
        md(s) == esc(s),
{
    lemma_md_plain_from(s, 0);
    assert(s.skip(0) == s);
}

proof fn lemma_chunks_concat(s: Seq<char>, start: int, max_len: int)
    requires
        0 <= start <= s.len(),
        split_progresses(s, start, max_len),
    ensures
        concat_all(chunks(s, start, max_len)) == s.skip(start),
        start < s.len() ==> chunks(s, start, max_len).len() >= 1,
    decreases s.len() - start,
{
    if start >= s.len() {
        assert(s.skip(start) == Seq::<char>::empty());
    } else if s.len() - start <= max_len {
        let c = chunks(s, start, max_len);
        assert(c == seq![s.skip(start)]);
        assert(c.drop_first() == Seq::<Seq<char>>::empty());
        assert(concat_all(Seq::<Seq<char>>::empty()) == Seq::<char>::empty());
        assert(concat_all(c) == c[0] + concat_all(c.drop_first()));
        assert(s.skip(start) + Seq::<char>::empty() == s.skip(start));
    } else {
        let e = chunk_end(s, start, max_len);
        assert(start < e && e <= s.len() && split_progresses(s, e, max_len));
        lemma_chunks_concat(s, e, max_len);
        let c = chunks(s, start, max_len);
        assert(c == seq![s.subrange(start, e)] + chunks(s, e, max_len));
        assert(c.drop_first() == chunks(s, e, max_len));
        assert(concat_all(c) == c[0] + concat_all(c.drop_first()));
        assert(s.skip(start) == s.subrange(start, e) + s.skip(e));
    }
}

proof fn lemma_chunk_starts(s: Seq<char>, start: int, max_len: int)
    requires
        0 <= start <= s.len(),
        split_progresses(s, start, max_len),
    ensures
        chunk_starts(s, start, max_len).len() == chunks(s, start, max_len).len(),
        start < s.len() ==> chunks(s, start, max_len).len() >= 1 && chunk_starts(s, start, max_len)[0] == start,
        forall|k: int| 0 <= k < chunks(s, start, max_len).len() ==> {
            let b = #[trigger] chunk_starts(s, start, max_len)[k];
            let c = chunks(s, start, max_len)[k];
            &&& start <= b
            &&& b + c.len() <= s.len()
            &&& c == s.subrange(b, b + c.len())
        },
        forall|k: int| 1 <= k < chunks(s, start, max_len).len() ==> #[trigger] chunk_starts(s, start, max_len)[k]
            == chunk_starts(s, start, max_len)[k - 1] + chunks(s, start, max_len)[k - 1].len(),
    decreases s.len() - start,
{
    if start < s.len() && s.len() - start > max_len {
        let e = chunk_end(s, start, max_len);
        lemma_chunk_starts(s, e, max_len);
        let c = chunks(s, start, max_len);
        let b = chunk_starts(s, start, max_len);
        let c2 = chunks(s, e, max_len);
        let b2 = chunk_starts(s, e, max_len);
        assert(c == seq![s.subrange(start, e)] + c2);
        assert(b == seq![start] + b2);
        assert forall|k: int| 0 <= k < c.len() implies {
            let bk = #[trigger] b[k];
            let ck = c[k];
            &&& start <= bk
            &&& bk + ck.len() <= s.len()
            &&& ck == s.subrange(bk, bk + ck.len())
        } by {
            if k > 0 {
                assert(b[k] == b2[k - 1] && c[k] == c2[k - 1]);
            }
        }
        assert forall|k: int| 1 <= k < c.len() implies #[trigger] b[k] == b[k - 1] + c[k - 1].len() by {
            if k > 1 {
                assert(b[k - 1] == b2[k - 2] && c[k - 1] == c2[k - 2] && b[k] == b2[k - 1]);
            } else {
                assert(c2.len() > 0);
                assert(e < s.len());
                assert(b[1] == b2[0]);
                assert(c[0] == s.subrange(start, e));
            }
        }
    } else if start < s.len() {
        assert(s.skip(start) =~= s.subrange(start, s.len() as int));
    }
}

/// Splitting keeps the whole text. There is at least one part; a text within
/// the limit is its own part. Otherwise the text is cut into consecutive
/// chunks that concatenate back to it, and each part is its chunk with the
/// tags open at the chunk's start reopened before it and, for every part but
/// the last, the tags open at its end closed and `...` after it.
pub proof fn law_split_preserves_text(s: Seq<char>, max_len: nat)
    requires
        split_finishes(s, max_len),
    ensures
        split_parts(s, max_len).len() >= 1,
        byte_len(s) <= max_len ==> split_parts(s, max_len) == seq![s],
        byte_len(s) > max_len ==> {
            let c = chunks(s, 0, max_len as int);
            let b = chunk_starts(s, 0, max_len as int);
            &&& concat_all(c) == s
            &&& b.len() == c.len()
            &&& split_parts(s, max_len).len() == c.len()
            &&& forall|k: int| 0 <= k < c.len() ==> b[k] + c[k].len() <= s.len() && #[trigger] c[k] == s.subrange(b[k], b[k] + c[k].len())
            &&& forall|k: int| 0 <= k < c.len() ==> #[trigger] split_parts(s, max_len)[k] == concat_all(open_tags(s, b[k])) + c[k]
                + if k < c.len() - 1 { closing_tags(open_tags(s, b[k] + c[k].len())) + "..."@ } else { seq![] }
        },
{
    if byte_len(s) > max_len {
        crate::text::lemma_byte_len_ge_len(s);
        lemma_chunks_concat(s, 0, max_len as int);
        lemma_chunk_starts(s, 0, max_len as int);
        let c = chunks(s, 0, max_len as int);
        let b = chunk_starts(s, 0, max_len as int);
        assert(s.skip(0) == s);
        assert forall|k: int| 0 <= k < c.len() implies b[k] + c[k].len() <= s.len() && #[trigger] c[k] == s.subrange(b[k], b[k] + c[k].len()) by {
            let bk = b[k];
        }
        assert forall|k: int| 0 <= k < c.len() implies #[trigger] split_parts(s, max_len)[k] == concat_all(open_tags(s, b[k])) + c[k]
            + if k < c.len() - 1 { closing_tags(open_tags(s, b[k] + c[k].len())) + "..."@ } else { seq![] } by {
            if k < c.len() - 1 {
                assert(b[k + 1] == b[k] + c[k].len());
            }
        }
    }
}

/// A text of at most `max_len` characters is returned unchanged by
/// truncation; a longer one is cut and ends with `...`, and with a limit of at
/// least 3 the result has at most `max_len` characters.
pub proof fn law_truncate_bounds(s: Seq<char>, max_len: nat)
    ensures
        s.len() <= max_len ==> truncated(s, max_len) == s,
        s.len() > max_len ==> truncated(s, max_len).len() >= 3 && truncated(s, max_len).skip(
            truncated(s, max_len).len() - 3,
        ) == "..."@,
        s.len() > max_len && max_len >= 3 ==> truncated(s, max_len).len() <= max_len,
{
    if s.len() > max_len {
        let target = if max_len >= 3 { max_len - 3 } else { 0 };
        let m = if target < s.len() { target as int } else { s.len() as int };
        lemma_last_lt(s, 0, m);
        let r = truncated(s, max_len);
        let safe = if tag_open(s, 0, m) { last_lt(s, 0, m) } else { target as int };
        let keep = if safe < s.len() { safe } else { s.len() as int };
        assert(r == s.take(keep) + "..."@);
        reveal_strlit("...");
        assert(r.skip(r.len() - 3) == "..."@);
    }
}


proof fn lemma_first_match(t: Seq<char>, p: Seq<char>, i: int)
    requires
        crate::text::matches_at(t, i, p),
    ensures
        exists|q: int| crate::text::matches_at(t, q, p) && forall|j: int| 0 <= j < q ==> !crate::text::matches_at(t, j, p),
    decreases i,
{
    if exists|j: int| 0 <= j < i && crate::text::matches_at(t, j, p) {
        let j = choose|j: int| 0 <= j < i && crate::text::matches_at(t, j, p);
        lemma_first_match(t, p, j);
    }
}

/// A split never falls between the start of a chunk and the end of the code
/// block it leaves open: when the first `max_len` characters of a chunk hold
/// more `<pre>` than `</pre>` and a `</pre>` follows, the chunk ends right
/// after the first `</pre>` from its start (for ASCII text, where the byte
/// offset of that `</pre>` is also its character offset).
pub proof fn law_split_moves_past_code_block_end(s: Seq<char>, start: int, max_len: int)
    requires
        0 <= start,
        0 <= max_len,
        start + max_len < s.len(),
        forall|k: int| 0 <= k < s.len() ==> (#[trigger] s[k] as u32) <= 0x7F,
        inside_code_block(s.subrange(start, start + max_len)),
        crate::text::contains_seq(s.skip(start), "</pre>"@),
    ensures
        start + 6 <= chunk_end(s, start, max_len) <= s.len(),
        s.subrange(chunk_end(s, start, max_len) - 6, chunk_end(s, start, max_len)) == "</pre>"@,
        forall|j: int| start <= j < chunk_end(s, start, max_len) - 6 ==> !crate::text::matches_at(s, j, "</pre>"@),
{
    reveal_strlit("</pre>");
    let close = "</pre>"@;
    let t = s.skip(start);
    let i = choose|i: int| crate::text::matches_at(t, i, close);
    lemma_first_match(t, close, i);
    let q = choose|q: int| crate::text::matches_at(t, q, close) && forall|j: int|
        0 <= j < q ==> !crate::text::matches_at(t, j, close);
    assert forall|k: int| 0 <= k < t.take(q).len() implies (#[trigger] t.take(q)[k] as u32) <= 0x7F by {
        assert(t.take(q)[k] == s[start + k]);
    }
    crate::text::lemma_byte_len_ascii(t.take(q));
    let e = start + q + 6;
    assert(code_block_end(s, start, start + max_len) == e);
    assert(s.subrange(e - 6, e) =~= t.subrange(q, q + 6));
    assert(s[e - 1] == close[5]);
    assert(!tag_open(s, start, e));
    assert forall|j: int| start <= j < e - 6 implies !crate::text::matches_at(s, j, close) by {
        if crate::text::matches_at(s, j, close) {
            assert(t.subrange(j - start, j - start + 6) =~= s.subrange(j, j + 6));
            assert(crate::text::matches_at(t, j - start, close));
        }
    }
}


/// A part never ends inside an HTML tag: either every `<` that the part's
/// text opens is closed by a `>` within it, or the next part starts with the
/// `<` of the tag that a cut would have broken.
pub proof fn law_split_never_cuts_a_tag(s: Seq<char>, start: int, max_len: int)
    requires
        0 <= start,
        0 <= max_len,
        start + max_len < s.len(),
    ensures
        start <= chunk_end(s, start, max_len) <= s.len(),
        !tag_open(s, start, chunk_end(s, start, max_len)) || (chunk_end(s, start, max_len) < s.len()
            && s[chunk_end(s, start, max_len)] == '<'),
        !inside_code_block(s.subrange(start, start + max_len)) ==> {
            let e = chunk_end(s, start, max_len);
            &&& !tag_open(s, start, start + max_len) ==> e == start + max_len
            &&& tag_open(s, start, start + max_len) ==> start <= e < start + max_len && s[e] == '<'
                && forall|j: int| e < j < start + max_len ==> #[trigger] s[j] != '>' && s[j] != '<'
        },
{
    let e0 = start + max_len;
    let e1 = if inside_code_block(s.subrange(start, e0)) {
        code_block_end(s, start, e0)
    } else {
        e0
    };
    assert(start <= e1 <= s.len()) by {
        if inside_code_block(s.subrange(start, e0)) && crate::text::contains_seq(s.skip(start), "</pre>"@) {
            let t = s.skip(start);
            let q = choose|q: int| crate::text::matches_at(t, q, "</pre>"@) && forall|j: int|
                0 <= j < q ==> !crate::text::matches_at(t, j, "</pre>"@);
            assert(byte_len(t.take(q)) >= 0);
        }
    }
    lemma_last_lt(s, start, e1);
    if tag_open(s, start, e1) {
        lemma_last_lt_no_gt(s, start, e1);
    }
}

proof fn lemma_last_lt_no_gt(s: Seq<char>, lo: int, k: int)
    requires
        0 <= lo <= k <= s.len(),
        tag_open(s, lo, k),
    ensures
        forall|j: int| last_lt(s, lo, k) < j < k ==> #[trigger] s[j] != '>',
    decreases k - lo,
{
    if k > lo && s[k - 1] != '<' {
        lemma_last_lt_no_gt(s, lo, k - 1);
    }
}


/// `t` occurs in `x` at `k`.
pub open spec fn occurs_at(x: Seq<char>, k: int, t: Seq<char>) -> bool {
    0 <= k && k + t.len() <= x.len() && x.subrange(k, k + t.len()) == t
}

/// One of the tags the conversion emits begins at `k`.
pub open spec fn emitted_tag_at(x: Seq<char>, k: int) -> bool {
    ||| occurs_at(x, k, "<b>"@)
    ||| occurs_at(x, k, "</b>"@)
    ||| occurs_at(x, k, "<i>"@)
    ||| occurs_at(x, k, "</i>"@)
    ||| occurs_at(x, k, "<code"@)
    ||| occurs_at(x, k, "</code>"@)
    ||| occurs_at(x, k, "<pre>"@)
    ||| occurs_at(x, k, "</pre>"@)
    ||| occurs_at(x, k, "<a href=\""@)
    ||| occurs_at(x, k, "</a>"@)
}

/// Every `<` of `x` begins one of the emitted tags.
pub open spec fn lt_only_in_tags(x: Seq<char>) -> bool {
    forall|k: int| 0 <= k < x.len() && #[trigger] x[k] == '<' ==> emitted_tag_at(x, k)
}

/// `x` holds no `<`.
pub open spec fn no_lt(x: Seq<char>) -> bool {
    forall|k: int| 0 <= k < x.len() ==> #[trigger] x[k] != '<'
}

proof fn lemma_occurs_left(a: Seq<char>, b: Seq<char>, k: int, t: Seq<char>)
    requires
        occurs_at(a, k, t),
    ensures
        occurs_at(a + b, k, t),
{
    assert((a + b).subrange(k, k + t.len()) =~= a.subrange(k, k + t.len()));
}

proof fn lemma_occurs_right(a: Seq<char>, b: Seq<char>, k: int, t: Seq<char>)
    requires
        occurs_at(b, k, t),
    ensures
        occurs_at(a + b, k + a.len(), t),
{
    assert((a + b).subrange(k + a.len(), k + a.len() + t.len()) =~= b.subrange(k, k + t.len()));
}

proof fn lemma_tag_left(a: Seq<char>, b: Seq<char>, k: int)
    requires
        emitted_tag_at(a, k),
    ensures
        emitted_tag_at(a + b, k),
{
    if occurs_at(a, k, "<b>"@) { lemma_occurs_left(a, b, k, "<b>"@); }
    if occurs_at(a, k, "</b>"@) { lemma_occurs_left(a, b, k, "</b>"@); }
    if occurs_at(a, k, "<i>"@) { lemma_occurs_left(a, b, k, "<i>"@); }
    if occurs_at(a, k, "</i>"@) { lemma_occurs_left(a, b, k, "</i>"@); }
    if occurs_at(a, k, "<code"@) { lemma_occurs_left(a, b, k, "<code"@); }
    if occurs_at(a, k, "</code>"@) { lemma_occurs_left(a, b, k, "</code>"@); }
    if occurs_at(a, k, "<pre>"@) { lemma_occurs_left(a, b, k, "<pre>"@); }
    if occurs_at(a, k, "</pre>"@) { lemma_occurs_left(a, b, k, "</pre>"@); }
    if occurs_at(a, k, "<a href=\""@) { lemma_occurs_left(a, b, k, "<a href=\""@); }
    if occurs_at(a, k, "</a>"@) { lemma_occurs_left(a, b, k, "</a>"@); }
}

proof fn lemma_tag_right(a: Seq<char>, b: Seq<char>, k: int)
    requires
        emitted_tag_at(b, k),
    ensures
        emitted_tag_at(a + b, k + a.len()),
{
    if occurs_at(b, k, "<b>"@) { lemma_occurs_right(a, b, k, "<b>"@); }
    if occurs_at(b, k, "</b>"@) { lemma_occurs_right(a, b, k, "</b>"@); }
    if occurs_at(b, k, "<i>"@) { lemma_occurs_right(a, b, k, "<i>"@); }
    if occurs_at(b, k, "</i>"@) { lemma_occurs_right(a, b, k, "</i>"@); }
    if occurs_at(b, k, "<code"@) { lemma_occurs_right(a, b, k, "<code"@); }
    if occurs_at(b, k, "</code>"@) { lemma_occurs_right(a, b, k, "</code>"@); }
    if occurs_at(b, k, "<pre>"@) { lemma_occurs_right(a, b, k, "<pre>"@); }
    if occurs_at(b, k, "</pre>"@) { lemma_occurs_right(a, b, k, "</pre>"@); }
    if occurs_at(b, k, "<a href=\""@) { lemma_occurs_right(a, b, k, "<a href=\""@); }
    if occurs_at(b, k, "</a>"@) { lemma_occurs_right(a, b, k, "</a>"@); }
}

proof fn lemma_safe_concat(a: Seq<char>, b: Seq<char>)
    requires
        lt_only_in_tags(a),
        lt_only_in_tags(b),
    ensures
        lt_only_in_tags(a + b),
{
    assert forall|k: int| 0 <= k < (a + b).len() && #[trigger] (a + b)[k] == '<' implies emitted_tag_at(a + b, k) by {
        if k < a.len() {
            assert(a[k] == '<');
            lemma_tag_left(a, b, k);
        } else {
            assert(b[k - a.len()] == '<');
            lemma_tag_right(a, b, k - a.len());
        }
    }
}

proof fn lemma_no_lt_safe(x: Seq<char>)
    requires
        no_lt(x),
    ensures
        lt_only_in_tags(x),
{
}

proof fn lemma_esc_char_no_lt(c: char)
    ensures
        no_lt(esc_char(c)),
{
    reveal_strlit("&lt;");
    reveal_strlit("&gt;");
    reveal_strlit("&amp;");
}

proof fn lemma_occurs_self(t: Seq<char>)
    ensures
        occurs_at(t, 0, t),
{
    assert(t.subrange(0, t.len() as int) =~= t);
}

proof fn lemma_esc_no_lt(x: Seq<char>)
    ensures
        no_lt(esc(x)),
    decreases x.len(),
{
    reveal_strlit("&lt;");
    reveal_strlit("&gt;");
    reveal_strlit("&amp;");
    if x.len() > 0 {
        lemma_esc_no_lt(x.drop_last());
        let a = esc(x.drop_last());
        let c = esc_char(x.last());
        assert(no_lt(c));
        assert forall|k: int| 0 <= k < (a + c).len() implies #[trigger] (a + c)[k] != '<' by {
            if k < a.len() {
                assert((a + c)[k] == a[k]);
            } else {
                assert((a + c)[k] == c[k - a.len()]);
            }
        }
    }
}

proof fn lemma_tag_literals()
    ensures
        lt_only_in_tags("<b>"@),
        lt_only_in_tags("</b>"@),
        lt_only_in_tags("<i>"@),
        lt_only_in_tags("</i>"@),
        lt_only_in_tags("<code>"@),
        lt_only_in_tags("</code>"@),
        lt_only_in_tags("<pre><code"@),
        lt_only_in_tags("</code></pre>"@),
        lt_only_in_tags("<a href=\""@),
        lt_only_in_tags("</a>"@),
        no_lt(" class=\"language-"@),
        no_lt("\""@),
        no_lt(">"@),
        no_lt("\">"@),
        no_lt(seq!['[']),
        no_lt(seq![']']),
{
    reveal_strlit("<b>");
    reveal_strlit("</b>");
    reveal_strlit("<i>");
    reveal_strlit("</i>");
    reveal_strlit("<code>");
    reveal_strlit("<code");
    reveal_strlit("</code>");
    reveal_strlit("<pre>");
    reveal_strlit("</pre>");
    reveal_strlit("<pre><code");
    reveal_strlit("</code></pre>");
    reveal_strlit("<a href=\"");
    reveal_strlit("</a>");
    reveal_strlit(" class=\"language-");
    reveal_strlit("\"");
    reveal_strlit(">");
    reveal_strlit("\">");
    lemma_occurs_self("<b>"@);
    lemma_occurs_self("</b>"@);
    lemma_occurs_self("<i>"@);
    lemma_occurs_self("</i>"@);
    lemma_occurs_self("</code>"@);
    lemma_occurs_self("<a href=\""@);
    lemma_occurs_self("</a>"@);
    assert("<code>"@.subrange(0, 5) =~= "<code"@);
    assert(occurs_at("<code>"@, 0, "<code"@));
    assert(occurs_at("</code>"@, 0, "</code>"@));
    assert("<pre><code"@.subrange(0, 5) =~= "<pre>"@);
    assert("<pre><code"@.subrange(5, 10) =~= "<code"@);
    assert(occurs_at("<pre><code"@, 0, "<pre>"@));
    assert(occurs_at("<pre><code"@, 5, "<code"@));
    assert("</code></pre>"@.subrange(0, 7) =~= "</code>"@);
    assert("</code></pre>"@.subrange(7, 13) =~= "</pre>"@);
    assert(occurs_at("</code></pre>"@, 0, "</code>"@));
    assert(occurs_at("</code></pre>"@, 7, "</pre>"@));
    assert(occurs_at("<a href=\""@, 0, "<a href=\""@));
    assert(occurs_at("</a>"@, 0, "</a>"@));
}

proof fn lemma_md_from_safe(s: Seq<char>, i: int)
    ensures
        lt_only_in_tags(md_from(s, i)),
    decreases s.len() - i,
{
    lemma_tag_literals();
    if 0 <= i < s.len() {
        lemma_token_bounds(s, i);
        if block_at(s, i) {
            let lang = trim(s.subrange(i + 3, block_lang_end(s, i)));
            let code = s.subrange(block_code_start(s, i), block_code_end(s, i));
            lemma_esc_no_lt(lang);
            lemma_esc_no_lt(code);
            let attr: Seq<char> = if lang.len() > 0 {
                " class=\"language-"@ + esc(lang) + "\""@
            } else {
                seq![]
            };
            if lang.len() > 0 {
                lemma_safe_concat(" class=\"language-"@, esc(lang));
                lemma_safe_concat(" class=\"language-"@ + esc(lang), "\""@);
            }
            lemma_safe_concat("<pre><code"@, attr);
            lemma_safe_concat("<pre><code"@ + attr, ">"@);
            lemma_safe_concat("<pre><code"@ + attr + ">"@, esc(code));
            lemma_safe_concat("<pre><code"@ + attr + ">"@ + esc(code), "</code></pre>"@);
            lemma_md_from_safe(s, block_next(s, i));
            lemma_safe_concat(block_html(s, i), md_from(s, block_next(s, i)));
        } else if s[i] == '`' {
            let e = inline_end(s, i);
            let c = s.subrange(i + 1, e);
            lemma_esc_no_lt(c);
            lemma_safe_concat("<code>"@, esc(c));
            lemma_safe_concat("<code>"@ + esc(c), "</code>"@);
            lemma_md_from_safe(s, skip_close(s, e, 1));
            lemma_safe_concat("<code>"@ + esc(c) + "</code>"@, md_from(s, skip_close(s, e, 1)));
        } else if bold_at(s, i) {
            let e = bold_end(s, i);
            let inner = md_from(s.subrange(i + 2, e), 0);
            lemma_md_from_safe(s.subrange(i + 2, e), 0);
            lemma_safe_concat("<b>"@, inner);
            lemma_safe_concat("<b>"@ + inner, "</b>"@);
            lemma_md_from_safe(s, skip_close(s, e, 2));
            lemma_safe_concat("<b>"@ + inner + "</b>"@, md_from(s, skip_close(s, e, 2)));
        } else if s[i] == '*' || s[i] == '_' {
            let e = italic_end(s, i);
            let inner = md_from(s.subrange(i + 1, e), 0);
            lemma_md_from_safe(s.subrange(i + 1, e), 0);
            lemma_safe_concat("<i>"@, inner);
            lemma_safe_concat("<i>"@ + inner, "</i>"@);
            lemma_md_from_safe(s, skip_close(s, e, 1));
            lemma_safe_concat("<i>"@ + inner + "</i>"@, md_from(s, skip_close(s, e, 1)));
        } else if s[i] == '[' {
            let text = s.subrange(i + 1, link_text_end(s, i));
            lemma_esc_no_lt(text);
            if link_has_url(s, i) {
                let url = s.subrange(link_after(s, i) + 1, link_url_end(s, i));
                lemma_esc_no_lt(url);
                lemma_safe_concat("<a href=\""@, esc(url));
                lemma_safe_concat("<a href=\""@ + esc(url), "\">"@);
                lemma_safe_concat("<a href=\""@ + esc(url) + "\">"@, esc(text));
                lemma_safe_concat("<a href=\""@ + esc(url) + "\">"@ + esc(text), "</a>"@);
            } else {
                let close: Seq<char> = if link_text_end(s, i) < s.len() { seq![']'] } else { seq![] };
                lemma_safe_concat(seq!['['], esc(text));
                lemma_safe_concat(seq!['['] + esc(text), close);
            }
            lemma_md_from_safe(s, link_next(s, i));
            lemma_safe_concat(link_html(s, i), md_from(s, link_next(s, i)));
        } else {
            lemma_esc_char_no_lt(s[i]);
            lemma_md_from_safe(s, i + 1);
            lemma_safe_concat(esc_char(s[i]), md_from(s, i + 1));
        }
    }
}

/// The HTML is safe for Telegram: every `<` in the output begins one of the
/// tags the conversion emits (`<b>`, `<i>`, `<code`, `<pre>`, `<a href="` and
/// their closing tags); every `<` of the input itself, also inside code spans,
/// code blocks, link texts and urls, comes out escaped.
pub proof fn law_html_only_emitted_tags(s: Seq<char>)
    ensures
        lt_only_in_tags(md(s)),
{
    lemma_md_from_safe(s, 0);
}

/// An inline code span `` `c` `` becomes `<code>` with `c` HTML-escaped.
pub proof fn law_inline_code_is_escaped(c: Seq<char>)
    requires
        forall|k: int| 0 <= k < c.len() ==> #[trigger] c[k] != '`',
    ensures
        md(seq!['`'] + c + seq!['`']) == "<code>"@ + esc(c) + "</code>"@,
{
    let s = seq!['`'] + c + seq!['`'];
    reveal_strlit("<code>");
    reveal_strlit("</code>");
    assert(!block_at(s, 0)) by {
        if c.len() >= 2 {
            assert(s[1] == c[0]);
        }
    }
    assert forall|j: int| 1 <= j < 1 + c.len() implies #[trigger] s[j] != '`' by {
        assert(s[j] == c[j - 1]);
    }
    lemma_find_c_at(s, '`', 1, 1 + c.len() as int);
    assert(s.subrange(1, 1 + c.len() as int) =~= c);
    assert(md_from(s, s.len() as int) == Seq::<char>::empty());
}

proof fn lemma_find_c_at(s: Seq<char>, c: char, k: int, n: int)
    requires
        0 <= k <= n < s.len(),
        forall|j: int| k <= j < n ==> #[trigger] s[j] != c,
        s[n] == c,
    ensures
        find_c(s, c, k) == n,
    decreases n - k,
{
    if k < n {
        lemma_find_c_at(s, c, k + 1, n);
    }
}

} // verus!
