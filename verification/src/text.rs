//! Character-sequence utilities shared by the formatting and parsing code.

use vstd::prelude::*;
use vstd::utf8::*;

verus! {

/// `String::push`: appends the character `c` to `s`.
#[verifier::external_body]
fn push_char(s: &mut String, c: char)
    ensures
        final(s)@ == old(s)@.push(c),
{
    s.push(c)
}

/// Builds a `String` from a vector of characters.
pub fn string_from_chars(v: &Vec<char>) -> (res: String)
    ensures
        res@ == v@,
{
    let mut s = String::new();
    let mut i: usize = 0;
    while i < v.len()
        invariant
            i <= v.len(),
            s@ == v@.take(i as int),
        decreases v.len() - i,
    {
        push_char(&mut s, v[i]);
        assert(v@.take(i + 1) =~= v@.take(i as int).push(v@[i as int]));
        i += 1;
    }
    assert(v@.take(v.len() as int) =~= v@);
    s
}

/// The characters of a string slice, in order.
pub fn chars_of(s: &str) -> (v: Vec<char>)
    ensures
        v@ == s@,
{
    let mut v: Vec<char> = Vec::new();
    for c in iter: s.chars()
        invariant
            v@ == iter.seq().take(iter.index() as int),
    {
        v.push(c);
    }
    v
}

/// Appends the characters of `s` to `v`.
pub fn push_str(v: &mut Vec<char>, s: &str)
    ensures
        final(v)@ == old(v)@ + s@,
{
    let w = chars_of(s);
    let ghost start = v@;
    let mut i: usize = 0;
    while i < w.len()
        invariant
            i <= w.len(),
            v@ == start + w@.take(i as int),
        decreases w.len() - i,
    {
        v.push(w[i]);
        i += 1;
        assert(w@.take(i as int) == w@.take(i - 1).push(w@[i - 1]));
    }
    assert(w@.take(w.len() as int) == w@);
}

/// Appends `w` to `v`.
pub fn push_chars(v: &mut Vec<char>, w: &Vec<char>)
    ensures
        final(v)@ == old(v)@ + w@,
{
    let ghost start = v@;
    let mut i: usize = 0;
    while i < w.len()
        invariant
            i <= w.len(),
            v@ == start + w@.take(i as int),
        decreases w.len() - i,
    {
        v.push(w[i]);
        i += 1;
        assert(w@.take(i as int) == w@.take(i - 1).push(w@[i - 1]));
    }
    assert(w@.take(w.len() as int) == w@);
}

/// A `String` with the characters of `s`.
pub fn owned(s: &str) -> (r: String)
    ensures
        r@ == s@,
{
    s.to_owned()
}

/// Whether two character vectors are equal.
pub fn chars_eq(a: &Vec<char>, b: &Vec<char>) -> (r: bool)
    ensures
        r == (a@ == b@),
{
    if a.len() != b.len() {
        return false;
    }
    let mut i: usize = 0;
    while i < a.len()
        invariant
            a.len() == b.len(),
            i <= a.len(),
            forall|j: int| 0 <= j < i ==> a@[j] == b@[j],
        decreases a.len() - i,
    {
        if a[i] != b[i] {
            return false;
        }
        i += 1;
    }
    assert(a@ =~= b@);
    true
}

/// Whether two strings have the same characters.
pub fn str_eq(a: &str, b: &str) -> (r: bool)
    ensures
        r == (a@ == b@),
{
    let x = chars_of(a);
    let y = chars_of(b);
    chars_eq(&x, &y)
}

/// The characters `s[lo..hi]` as a new vector.
pub fn slice_chars(s: &Vec<char>, lo: usize, hi: usize) -> (r: Vec<char>)
    requires
        lo <= hi <= s.len(),
    ensures
        r@ == s@.subrange(lo as int, hi as int),
{
    let mut r: Vec<char> = Vec::new();
    let mut i = lo;
    while i < hi
        invariant
            lo <= i <= hi <= s.len(),
            r@ == s@.subrange(lo as int, i as int),
        decreases hi - i,
    {
        r.push(s[i]);
        i += 1;
    }
    r
}

// ---------------------------------------------------------------------------
// Whitespace and trimming
// ---------------------------------------------------------------------------

/// Unicode `White_Space`, the property that `char::is_whitespace` tests.
pub open spec fn is_ws(c: char) -> bool {
    let u = c as u32;
    (0x09 <= u && u <= 0x0D) || u == 0x20 || u == 0x85 || u == 0xA0 || u == 0x1680
        || (0x2000 <= u && u <= 0x200A) || u == 0x2028 || u == 0x2029 || u == 0x202F
        || u == 0x205F || u == 0x3000
}

/// Executable test for [`is_ws`].
pub fn char_is_ws(c: char) -> (b: bool)
    ensures
        b == is_ws(c),
{
    let u = c as u32;
    (0x09 <= u && u <= 0x0D) || u == 0x20 || u == 0x85 || u == 0xA0 || u == 0x1680
        || (0x2000 <= u && u <= 0x200A) || u == 0x2028 || u == 0x2029 || u == 0x202F
        || u == 0x205F || u == 0x3000
}

/// Number of leading whitespace characters of `s`.
pub open spec fn lead_ws(s: Seq<char>) -> nat
    decreases s.len(),
{
    if s.len() > 0 && is_ws(s[0]) {
        1 + lead_ws(s.drop_first())
    } else {
        0
    }
}

/// Number of trailing whitespace characters of `s`.
pub open spec fn trail_ws(s: Seq<char>) -> nat
    decreases s.len(),
{
    if s.len() > 0 && is_ws(s.last()) {
        1 + trail_ws(s.drop_last())
    } else {
        0
    }
}

/// `s` with leading whitespace removed (`str::trim_start`).
pub open spec fn trim_start(s: Seq<char>) -> Seq<char> {
    s.skip(lead_ws(s) as int)
}

/// `s` with trailing whitespace removed (`str::trim_end`).
pub open spec fn trim_end(s: Seq<char>) -> Seq<char> {
    s.take(s.len() - trail_ws(s))
}

/// `s` with whitespace removed at both ends (`str::trim`).
pub open spec fn trim(s: Seq<char>) -> Seq<char> {
    trim_end(trim_start(s))
}

pub proof fn lemma_lead_ws_bound(s: Seq<char>)
    ensures
        lead_ws(s) <= s.len(),
        forall|k: int| 0 <= k < lead_ws(s) ==> is_ws(#[trigger] s[k]),
        lead_ws(s) < s.len() ==> !is_ws(s[lead_ws(s) as int]),
    decreases s.len(),
{
    if s.len() > 0 && is_ws(s[0]) {
        lemma_lead_ws_bound(s.drop_first());
        assert forall|k: int| 0 <= k < lead_ws(s) implies is_ws(#[trigger] s[k]) by {
            if k > 0 {
                assert(s[k] == s.drop_first()[k - 1]);
            }
        }
    }
}

pub proof fn lemma_trail_ws_bound(s: Seq<char>)
    ensures
        trail_ws(s) <= s.len(),
        forall|k: int| s.len() - trail_ws(s) <= k < s.len() ==> is_ws(#[trigger] s[k]),
        trail_ws(s) < s.len() ==> !is_ws(s[s.len() - trail_ws(s) - 1]),
    decreases s.len(),
{
    if s.len() > 0 && is_ws(s.last()) {
        lemma_trail_ws_bound(s.drop_last());
        assert forall|k: int| s.len() - trail_ws(s) <= k < s.len() implies is_ws(#[trigger] s[k]) by {
            if k < s.len() - 1 {
                assert(s[k] == s.drop_last()[k]);
            }
        }
    }
}

/// Characterizes `lead_ws` by its defining properties.
pub proof fn lemma_lead_ws_unique(s: Seq<char>, n: int)
    requires
        0 <= n <= s.len(),
        forall|k: int| 0 <= k < n ==> is_ws(#[trigger] s[k]),
        n < s.len() ==> !is_ws(s[n]),
    ensures
        lead_ws(s) == n,
    decreases s.len(),
{
    if n > 0 {
        assert(is_ws(s[0]));
        assert forall|k: int| 0 <= k < n - 1 implies is_ws(#[trigger] s.drop_first()[k]) by {
            assert(is_ws(s[k + 1]));
        }
        lemma_lead_ws_unique(s.drop_first(), n - 1);
    }
}

/// Characterizes `trail_ws` by its defining properties.
pub proof fn lemma_trail_ws_unique(s: Seq<char>, n: int)
    requires
        0 <= n <= s.len(),
        forall|k: int| s.len() - n <= k < s.len() ==> is_ws(#[trigger] s[k]),
        n < s.len() ==> !is_ws(s[s.len() - n - 1]),
    ensures
        trail_ws(s) == n,
    decreases s.len(),
{
    if n > 0 {
        assert(is_ws(s[s.len() - 1]));
        let t = s.drop_last();
        assert forall|k: int| t.len() - (n - 1) <= k < t.len() implies is_ws(#[trigger] t[k]) by {
            assert(is_ws(s[k]));
        }
        if n - 1 < t.len() {
            assert(t[t.len() - (n - 1) - 1] == s[s.len() - n - 1]);
        }
        lemma_trail_ws_unique(t, n - 1);
    }
}

/// `s` without its trailing whitespace.
pub fn trim_end_chars(s: &Vec<char>) -> (r: Vec<char>)
    ensures
        r@ == trim_end(s@),
{
    let mut n = s.len();
    while n > 0 && char_is_ws(s[n - 1])
        invariant
            n <= s.len(),
            forall|k: int| n <= k < s.len() ==> is_ws(#[trigger] s@[k]),
        decreases n,
    {
        n -= 1;
    }
    proof {
        lemma_trail_ws_unique(s@, s.len() - n);
    }
    let r = slice_chars(s, 0, n);
    assert(r@ =~= s@.take(n as int));
    r
}

/// Bounds `[lo, hi)` of `trim(s[start..end])` inside `s`.
pub fn trim_bounds(s: &Vec<char>, start: usize, end: usize) -> (r: (usize, usize))
    requires
        start <= end <= s.len(),
    ensures
        start <= r.0 <= r.1 <= end,
        s@.subrange(r.0 as int, r.1 as int) == trim(s@.subrange(start as int, end as int)),
{
    let ghost t = s@.subrange(start as int, end as int);
    let mut lo = start;
    while lo < end && char_is_ws(s[lo])
        invariant
            start <= lo <= end <= s.len(),
            forall|k: int| start <= k < lo ==> is_ws(#[trigger] s@[k]),
        decreases end - lo,
    {
        lo += 1;
    }
    proof {
        assert forall|k: int| 0 <= k < lo - start implies is_ws(#[trigger] t[k]) by {
            assert(t[k] == s@[start + k]);
        }
        lemma_lead_ws_unique(t, lo - start);
    }
    let mut hi = end;
    while hi > lo && char_is_ws(s[hi - 1])
        invariant
            start <= lo <= hi <= end <= s.len(),
            forall|k: int| hi <= k < end ==> is_ws(#[trigger] s@[k]),
        decreases hi - lo,
    {
        hi -= 1;
    }
    proof {
        let u = trim_start(t);
        assert(u == s@.subrange(lo as int, end as int));
        assert forall|k: int| u.len() - (end - hi) <= k < u.len() implies is_ws(#[trigger] u[k]) by {
            assert(u[k] == s@[lo + k]);
        }
        if end - hi < u.len() {
            assert(u[u.len() - (end - hi) - 1] == s@[hi - 1]);
        }
        lemma_trail_ws_unique(u, end - hi);
        assert(trim(t) == s@.subrange(lo as int, hi as int));
    }
    (lo, hi)
}


// ---------------------------------------------------------------------------
// Decimal numbers
// ---------------------------------------------------------------------------

/// The ASCII digit for `d` (`d < 10`).
pub open spec fn digit_char(d: nat) -> char {
    (48 + d) as char
}

/// Decimal representation of a natural number, as `u64::to_string` writes it.
pub open spec fn decimal(n: nat) -> Seq<char>
    decreases n,
{
    if n < 10 {
        seq![digit_char(n)]
    } else {
        decimal(n / 10).push(digit_char(n % 10))
    }
}

/// Decimal representation of an integer, as `i64::to_string` writes it.
pub open spec fn int_decimal(i: int) -> Seq<char> {
    if i < 0 {
        seq!['-'] + decimal((-i) as nat)
    } else {
        decimal(i as nat)
    }
}

pub(crate) fn digit(d: u64) -> (c: char)
    requires
        d < 10,
    ensures
        c == digit_char(d as nat),
{
    let b: u8 = 48u8 + (d as u8);
    b as char
}

/// Appends the decimal representation of `n` to `v`.
pub fn push_decimal(v: &mut Vec<char>, n: u64)
    ensures
        final(v)@ == old(v)@ + decimal(n as nat),
    decreases n,
{
    if n >= 10 {
        push_decimal(v, n / 10);
    }
    v.push(digit(n % 10));
    proof {
        if n >= 10 {
            assert(decimal(n as nat) == decimal((n / 10) as nat).push(digit_char((n % 10) as nat)));
        } else {
            assert(decimal(n as nat) == seq![digit_char(n as nat)]);
        }
    }
}

/// Appends the decimal representation of the signed `n` to `v`.
pub fn push_int_decimal(v: &mut Vec<char>, n: i64)
    ensures
        final(v)@ == old(v)@ + int_decimal(n as int),
{
    if n < 0 {
        let ghost start = v@;
        v.push('-');
        let m: u64 = (0i128 - (n as i128)) as u64;
        push_decimal(v, m);
        assert(v@ == start + (seq!['-'] + decimal((-n) as nat)));
    } else {
        push_decimal(v, n as u64);
    }
}

pub proof fn lemma_decimal_nonempty(n: nat)
    ensures
        decimal(n).len() >= 1,
    decreases n,
{
    if n >= 10 {
        lemma_decimal_nonempty(n / 10);
    }
}

/// Whether `c` is an ASCII decimal digit.
pub open spec fn is_digit(c: char) -> bool {
    '0' <= c && c <= '9'
}

/// Whether every character of `s` is an ASCII decimal digit.
pub open spec fn all_digits(s: Seq<char>) -> bool {
    forall|k: int| 0 <= k < s.len() ==> is_digit(#[trigger] s[k])
}

/// Value of a string of decimal digits.
pub open spec fn digits_value(s: Seq<char>) -> nat
    decreases s.len(),
{
    if s.len() == 0 {
        0
    } else {
        digits_value(s.drop_last()) * 10 + ((s.last() as u32 - 48) as nat)
    }
}

/// What `str::parse` gives for an unsigned integer type whose largest value is `max`.
pub open spec fn parse_unsigned(s: Seq<char>, max: nat) -> Option<nat> {
    let body = if s.len() > 0 && s[0] == '+' {
        s.drop_first()
    } else {
        s
    };
    if body.len() > 0 && all_digits(body) && digits_value(body) <= max {
        Some(digits_value(body))
    } else {
        None
    }
}

/// What `str::parse::<i32>` gives.
pub open spec fn parse_i32_spec(s: Seq<char>) -> Option<int> {
    let neg = s.len() > 0 && s[0] == '-';
    let body = if s.len() > 0 && (s[0] == '+' || s[0] == '-') {
        s.drop_first()
    } else {
        s
    };
    if body.len() > 0 && all_digits(body) {
        let v = digits_value(body) as int;
        if neg && v <= 0x8000_0000 {
            Some(-v)
        } else if !neg && v <= 0x7fff_ffff {
            Some(v)
        } else {
            None
        }
    } else {
        None
    }
}

proof fn lemma_digits_value_step(s: Seq<char>, k: int)
    requires
        0 <= k < s.len(),
    ensures
        digits_value(s.take(k + 1)) == digits_value(s.take(k)) * 10 + ((s[k] as u32 - 48) as nat),
{
    assert(s.take(k + 1).drop_last() == s.take(k));
}

proof fn lemma_digits_value_mono(s: Seq<char>, j: int, k: int)
    requires
        0 <= j <= k <= s.len(),
    ensures
        digits_value(s.take(j)) <= digits_value(s.take(k)),
    decreases k - j,
{
    if j < k {
        lemma_digits_value_mono(s, j, k - 1);
        lemma_digits_value_step(s, k - 1);
    }
}

/// Value of the digits `s[lo..hi]`, if all are digits and the value is at most `max`.
fn digits_in(s: &Vec<char>, lo: usize, hi: usize, max: u64) -> (r: Option<u64>)
    requires
        lo <= hi <= s.len(),
    ensures
        ({
            let t = s@.subrange(lo as int, hi as int);
            match r {
                Some(v) => all_digits(t) && digits_value(t) == v && v <= max,
                None => !all_digits(t) || digits_value(t) > max,
            }
        }),
{
    let ghost t = s@.subrange(lo as int, hi as int);
    let mut val: u64 = 0;
    let mut i = lo;
    while i < hi
        invariant
            lo <= i <= hi <= s.len(),
            t == s@.subrange(lo as int, hi as int),
            all_digits(t.take(i - lo)),
            val == digits_value(t.take(i - lo)),
            val <= max,
        decreases hi - i,
    {
        let c = s[i];
        if !('0' <= c && c <= '9') {
            assert(!is_digit(t[i - lo]));
            return None;
        }
        let d = (c as u32 - 48) as u64;
        proof {
            lemma_digits_value_step(t, i - lo);
        }
        if d > max || val > (max - d) / 10 {
            proof {
                assert(val * 10 + d > max) by (nonlinear_arith)
                    requires d > max || val > (max - d) / 10, d <= max ==> val > (max - d) / 10;
                lemma_digits_value_mono(t, (i - lo + 1) as int, t.len() as int);
                assert(t.take(t.len() as int) == t);
            }
            return None;
        }
        assert(val * 10 + d <= max) by (nonlinear_arith)
            requires val <= (max - d) / 10, d <= max;
        val = val * 10 + d;
        i += 1;
        proof {
            assert forall|k: int| 0 <= k < i - lo implies is_digit(#[trigger] t.take(i - lo)[k]) by {
                if k < i - lo - 1 {
                    assert(t.take(i - lo)[k] == t.take(i - lo - 1)[k]);
                }
            }
        }
    }
    assert(t.take(hi - lo) == t);
    Some(val)
}


proof fn lemma_digit_char_value(d: nat)
    requires
        d < 10,
    ensures
        digit_char(d) as u32 == 48 + d,
{
}

/// A decimal numeral is made of digits and reads back as its number.
pub proof fn lemma_decimal_reads_back(n: nat)
    ensures
        decimal(n).len() >= 1,
        all_digits(decimal(n)),
        digits_value(decimal(n)) == n,
    decreases n,
{
    if n < 10 {
        let d = decimal(n);
        assert(d.drop_last() =~= Seq::<char>::empty());
        assert(is_digit(d[0]));
        lemma_digit_char_value(n);
        assert(digits_value(d.drop_last()) == 0);
        assert(digits_value(d) == digits_value(d.drop_last()) * 10 + ((d.last() as u32 - 48) as nat));
    } else {
        lemma_decimal_reads_back(n / 10);
        let d = decimal(n);
        assert(d.drop_last() =~= decimal(n / 10));
        lemma_digit_char_value(n % 10);
        assert((n / 10) * 10 + n % 10 == n) by (nonlinear_arith);
        assert(digits_value(d) == digits_value(d.drop_last()) * 10 + ((d.last() as u32 - 48) as nat));
        assert forall|k: int| 0 <= k < d.len() implies is_digit(#[trigger] d[k]) by {
            if k < d.len() - 1 {
                assert(d[k] == decimal(n / 10)[k]);
            }
        }
    }
}

/// The numeral of an `i32` reads back as it.
pub proof fn lemma_int_decimal_reads_back(t: i32)
    ensures
        parse_i32_spec(int_decimal(t as int)) == Some(t as int),
        forall|j: int| 0 <= j < int_decimal(t as int).len() ==> #[trigger] int_decimal(t as int)[j] != ':',
{
    if t < 0 {
        let m = (-(t as int)) as nat;
        lemma_decimal_reads_back(m);
        let s = int_decimal(t as int);
        assert(s.drop_first() =~= decimal(m));
        assert(is_digit(decimal(m)[0]));
        assert forall|j: int| 0 <= j < s.len() implies #[trigger] s[j] != ':' by {
            if j > 0 {
                assert(s[j] == decimal(m)[j - 1]);
                assert(is_digit(decimal(m)[j - 1]));
            }
        }
    } else {
        lemma_decimal_reads_back(t as nat);
        let s = int_decimal(t as int);
        assert(is_digit(s[0]));
        assert forall|j: int| 0 <= j < s.len() implies #[trigger] s[j] != ':' by {
            assert(is_digit(s[j]));
        }
    }
}

/// `s[lo..hi].parse::<uN>()` for an unsigned type whose largest value is `max`.
pub fn parse_unsigned_in(s: &Vec<char>, lo: usize, hi: usize, max: u64) -> (r: Option<u64>)
    requires
        lo <= hi <= s.len(),
    ensures
        match r {
            Some(v) => parse_unsigned(s@.subrange(lo as int, hi as int), max as nat) == Some(v as nat),
            None => parse_unsigned(s@.subrange(lo as int, hi as int), max as nat) is None,
        },
{
    let ghost t = s@.subrange(lo as int, hi as int);
    if lo < hi && s[lo] == '+' {
        assert(t.drop_first() == s@.subrange(lo + 1, hi as int));
        if lo + 1 == hi {
            return None;
        }
        digits_in(s, lo + 1, hi, max)
    } else {
        if lo == hi {
            return None;
        }
        digits_in(s, lo, hi, max)
    }
}

/// `s[lo..hi].parse::<i32>()`.
pub fn parse_i32_in(s: &Vec<char>, lo: usize, hi: usize) -> (r: Option<i32>)
    requires
        lo <= hi <= s.len(),
    ensures
        match r {
            Some(v) => parse_i32_spec(s@.subrange(lo as int, hi as int)) == Some(v as int),
            None => parse_i32_spec(s@.subrange(lo as int, hi as int)) is None,
        },
{
    let ghost t = s@.subrange(lo as int, hi as int);
    if lo < hi && (s[lo] == '+' || s[lo] == '-') {
        let neg = s[lo] == '-';
        assert(t.drop_first() == s@.subrange(lo + 1, hi as int));
        if lo + 1 == hi {
            return None;
        }
        let max: u64 = if neg { 0x8000_0000 } else { 0x7fff_ffff };
        match digits_in(s, lo + 1, hi, max) {
            Some(v) => {
                if neg {
                    Some((0i64 - (v as i64)) as i32)
                } else {
                    Some(v as i32)
                }
            },
            None => None,
        }
    } else {
        if lo == hi {
            return None;
        }
        match digits_in(s, lo, hi, 0x7fff_ffff) {
            Some(v) => Some(v as i32),
            None => None,
        }
    }
}

// ---------------------------------------------------------------------------
// Substrings
// ---------------------------------------------------------------------------

/// Whether `p` occurs in `s` starting at index `i`.
pub open spec fn matches_at(s: Seq<char>, i: int, p: Seq<char>) -> bool {
    0 <= i && i + p.len() <= s.len() && s.subrange(i, i + p.len()) == p
}

/// Whether `p` occurs somewhere in `s` (`str::contains`).
pub open spec fn contains_seq(s: Seq<char>, p: Seq<char>) -> bool {
    exists|i: int| matches_at(s, i, p)
}

/// Whether `s` starts with `p` (`str::starts_with`).
pub open spec fn starts_with(s: Seq<char>, p: Seq<char>) -> bool {
    p.len() <= s.len() && s.take(p.len() as int) == p
}

/// Executable test of [`matches_at`].
pub fn matches_at_exec(s: &Vec<char>, i: usize, p: &Vec<char>) -> (b: bool)
    ensures
        b == matches_at(s@, i as int, p@),
{
    if i > s.len() || p.len() > s.len() - i {
        return false;
    }
    let mut k: usize = 0;
    while k < p.len()
        invariant
            i + p.len() <= s.len(),
            k <= p.len(),
            forall|j: int| 0 <= j < k ==> s@[i + j] == p@[j],
        decreases p.len() - k,
    {
        if s[i + k] != p[k] {
            assert(s@.subrange(i as int, i + p.len())[k as int] != p@[k as int]);
            return false;
        }
        k += 1;
    }
    assert(s@.subrange(i as int, i + p.len()) == p@);
    true
}

/// First index `>= from` where `p` occurs in `s`.
pub fn find_from(s: &Vec<char>, p: &Vec<char>, from: usize) -> (r: Option<usize>)
    ensures
        match r {
            Some(i) => from <= i && matches_at(s@, i as int, p@)
                && forall|j: int| from <= j < i ==> !matches_at(s@, j, p@),
            None => forall|j: int| from <= j ==> !matches_at(s@, j, p@),
        },
{
    let mut i = from;
    while i <= s.len()
        invariant_except_break
            from <= i,
            forall|j: int| from <= j < i ==> !matches_at(s@, j, p@),
        ensures
            from <= i,
            forall|j: int| from <= j < i ==> !matches_at(s@, j, p@),
            i >= s.len(),
            i == s.len() ==> !matches_at(s@, i as int, p@),
        decreases s.len() + 1 - i,
    {
        if matches_at_exec(s, i, p) {
            return Some(i);
        }
        if i == s.len() {
            break;
        }
        i += 1;
    }
    assert forall|j: int| from <= j implies !matches_at(s@, j, p@) by {
        if j > s.len() {
            assert(!(j + p@.len() <= s@.len()));
        }
    }
    None
}

/// Whether `p` occurs in `s`.
pub fn contains_exec(s: &Vec<char>, p: &Vec<char>) -> (b: bool)
    ensures
        b == contains_seq(s@, p@),
{
    match find_from(s, p, 0) {
        Some(i) => true,
        None => false,
    }
}

/// Whether `s` starts with `p`.
pub fn starts_with_exec(s: &Vec<char>, p: &Vec<char>) -> (b: bool)
    ensures
        b == starts_with(s@, p@),
{
    let b = matches_at_exec(s, 0, p);
    assert(b == starts_with(s@, p@)) by {
        if p@.len() <= s@.len() {
            assert(s@.subrange(0, p@.len() as int) == s@.take(p@.len() as int));
        }
    }
    b
}


// ---------------------------------------------------------------------------
// UTF-8 length
// ---------------------------------------------------------------------------

/// Number of bytes in the UTF-8 encoding of `c`.
pub open spec fn char_width(c: char) -> nat {
    let u = c as u32;
    if u <= 0x7F {
        1
    } else if u <= 0x7FF {
        2
    } else if u <= 0xFFFF {
        3
    } else {
        4
    }
}

/// Number of bytes in the UTF-8 encoding of `s` (what `str::len` returns).
pub open spec fn byte_len(s: Seq<char>) -> nat
    decreases s.len(),
{
    if s.len() == 0 {
        0
    } else {
        byte_len(s.drop_last()) + char_width(s.last())
    }
}

proof fn lemma_encode_utf8_concat_len(a: Seq<char>, b: Seq<char>)
    ensures
        encode_utf8(a + b).len() == encode_utf8(a).len() + encode_utf8(b).len(),
    decreases a.len(),
{
    if a.len() > 0 {
        assert((a + b).drop_first() == a.drop_first() + b);
        assert((a + b)[0] == a[0]);
        lemma_encode_utf8_concat_len(a.drop_first(), b);
    } else {
        assert(a + b == b);
    }
}

/// The UTF-8 byte count of `s` is the length of its encoding.
pub proof fn lemma_byte_len_encode(s: Seq<char>)
    ensures
        byte_len(s) == encode_utf8(s).len(),
    decreases s.len(),
{
    if s.len() > 0 {
        lemma_byte_len_encode(s.drop_last());
        let c = s.last();
        assert(s == s.drop_last() + seq![c]);
        lemma_encode_utf8_concat_len(s.drop_last(), seq![c]);
        assert(seq![c].drop_first() =~= Seq::<char>::empty());
        assert(encode_utf8(seq![c]) == encode_scalar(c as u32) + encode_utf8(Seq::<char>::empty()));
        char_is_scalar(c);
    }
}

/// The byte count is additive over concatenation.
pub proof fn lemma_byte_len_concat(a: Seq<char>, b: Seq<char>)
    ensures
        byte_len(a + b) == byte_len(a) + byte_len(b),
    decreases b.len(),
{
    if b.len() == 0 {
        assert(a + b == a);
    } else {
        assert((a + b).drop_last() == a + b.drop_last());
        lemma_byte_len_concat(a, b.drop_last());
    }
}

/// Every character takes at least one byte.
pub proof fn lemma_byte_len_ge_len(s: Seq<char>)
    ensures
        byte_len(s) >= s.len(),
    decreases s.len(),
{
    if s.len() > 0 {
        lemma_byte_len_ge_len(s.drop_last());
    }
}

/// An ASCII sequence takes one byte per character.
pub proof fn lemma_byte_len_ascii(s: Seq<char>)
    requires
        forall|k: int| 0 <= k < s.len() ==> (#[trigger] s[k] as u32) <= 0x7F,
    ensures
        byte_len(s) == s.len(),
    decreases s.len(),
{
    if s.len() > 0 {
        assert(s.last() as u32 <= 0x7F);
        lemma_byte_len_ascii(s.drop_last());
    }
}

/// Executable [`char_width`].
pub fn char_width_exec(c: char) -> (w: usize)
    ensures
        w == char_width(c),
{
    let u = c as u32;
    if u <= 0x7F {
        1
    } else if u <= 0x7FF {
        2
    } else if u <= 0xFFFF {
        3
    } else {
        4
    }
}

/// Number of UTF-8 bytes of `s[lo..hi]`.
/// Whether the UTF-8 encoding of `s` is longer than `limit` bytes.
pub fn byte_len_exceeds(s: &Vec<char>, limit: usize) -> (b: bool)
    ensures
        b == (byte_len(s@) > limit),
{
    let mut n: usize = 0;
    let mut i: usize = 0;
    while i < s.len()
        invariant
            i <= s.len(),
            n == byte_len(s@.take(i as int)),
            n <= limit,
        decreases s.len() - i,
    {
        proof {
            assert(s@.take(i + 1).drop_last() == s@.take(i as int));
        }
        let w = char_width_exec(s[i]);
        if w > limit - n {
            proof {
                assert(s@ == s@.take(i + 1) + s@.subrange(i + 1, s@.len() as int));
                lemma_byte_len_concat(s@.take(i + 1), s@.subrange(i + 1, s@.len() as int));
            }
            return true;
        }
        n = n + w;
        i += 1;
    }
    assert(s@.take(i as int) == s@);
    false
}

pub fn byte_len_in(s: &[char], lo: usize, hi: usize) -> (n: usize)
    requires
        lo <= hi <= s@.len(),
        byte_len(s@.subrange(lo as int, hi as int)) <= usize::MAX,
    ensures
        n == byte_len(s@.subrange(lo as int, hi as int)),
{
    let mut n: usize = 0;
    let mut i = lo;
    while i < hi
        invariant
            lo <= i <= hi <= s@.len(),
            n == byte_len(s@.subrange(lo as int, i as int)),
            byte_len(s@.subrange(lo as int, hi as int)) <= usize::MAX,
        decreases hi - i,
    {
        proof {
            assert(s@.subrange(lo as int, i + 1).drop_last() == s@.subrange(lo as int, i as int));
            assert(s@.subrange(lo as int, hi as int) == s@.subrange(lo as int, i + 1) + s@.subrange(i + 1, hi as int));
            lemma_byte_len_concat(s@.subrange(lo as int, i + 1), s@.subrange(i + 1, hi as int));
        }
        n = n + char_width_exec(s[i]);
        i += 1;
    }
    n
}

/// Number of non-overlapping occurrences of `p` in `s` from index `k`, scanning
/// left to right (`str::matches(p).count()` for a non-empty `p`).
pub open spec fn count_from(s: Seq<char>, p: Seq<char>, k: int) -> nat
    decreases s.len() - k,
{
    if k < 0 || k >= s.len() || p.len() == 0 {
        0
    } else if matches_at(s, k, p) {
        1 + count_from(s, p, k + p.len())
    } else {
        count_from(s, p, k + 1)
    }
}

/// Executable [`count_from`] from index 0.
pub fn count_occurrences(s: &Vec<char>, p: &Vec<char>) -> (n: usize)
    requires
        p@.len() > 0,
    ensures
        n == count_from(s@, p@, 0),
{
    let mut n: usize = 0;
    let mut k: usize = 0;
    while k < s.len()
        invariant
            p@.len() > 0,
            k <= s.len() + p.len(),
            n <= k,
            count_from(s@, p@, 0) == n + count_from(s@, p@, k as int),
        decreases s.len() + p.len() - k,
    {
        if matches_at_exec(s, k, p) {
            n += 1;
            k += p.len();
        } else {
            k += 1;
        }
    }
    n
}


/// What `str::parse::<i64>` gives.
pub open spec fn parse_i64_spec(s: Seq<char>) -> Option<int> {
    let neg = s.len() > 0 && s[0] == '-';
    let body = if s.len() > 0 && (s[0] == '+' || s[0] == '-') {
        s.drop_first()
    } else {
        s
    };
    if body.len() > 0 && all_digits(body) {
        let v = digits_value(body) as int;
        if neg && v <= 0x8000_0000_0000_0000 {
            Some(-v)
        } else if !neg && v <= 0x7fff_ffff_ffff_ffff {
            Some(v)
        } else {
            None
        }
    } else {
        None
    }
}

/// `s[lo..hi].parse::<i64>()`.
pub fn parse_i64_in(s: &Vec<char>, lo: usize, hi: usize) -> (r: Option<i64>)
    requires
        lo <= hi <= s.len(),
    ensures
        match r {
            Some(v) => parse_i64_spec(s@.subrange(lo as int, hi as int)) == Some(v as int),
            None => parse_i64_spec(s@.subrange(lo as int, hi as int)) is None,
        },
{
    let ghost t = s@.subrange(lo as int, hi as int);
    if lo < hi && (s[lo] == '+' || s[lo] == '-') {
        let neg = s[lo] == '-';
        assert(t.drop_first() == s@.subrange(lo + 1, hi as int));
        if lo + 1 == hi {
            return None;
        }
        let max: u64 = if neg { 0x8000_0000_0000_0000 } else { 0x7fff_ffff_ffff_ffff };
        match digits_in(s, lo + 1, hi, max) {
            Some(v) => {
                if neg {
                    Some((0i128 - (v as i128)) as i64)
                } else {
                    Some(v as i64)
                }
            },
            None => None,
        }
    } else {
        if lo == hi {
            return None;
        }
        match digits_in(s, lo, hi, 0x7fff_ffff_ffff_ffff) {
            Some(v) => Some(v as i64),
            None => None,
        }
    }
}

/// What `str::parse::<bool>` gives.
pub open spec fn parse_bool_spec(s: Seq<char>) -> Option<bool> {
    if s == "true"@ {
        Some(true)
    } else if s == "false"@ {
        Some(false)
    } else {
        None
    }
}

/// `s.parse::<bool>()`.
pub fn parse_bool(s: &str) -> (r: Option<bool>)
    ensures
        r == parse_bool_spec(s@),
{
    if str_eq(s, "true") {
        Some(true)
    } else if str_eq(s, "false") {
        Some(false)
    } else {
        None
    }
}

/// `s.parse()` for an unsigned type whose largest value is `max`.
pub fn parse_unsigned_str(s: &str, max: u64) -> (r: Option<u64>)
    ensures
        match r {
            Some(v) => parse_unsigned(s@, max as nat) == Some(v as nat),
            None => parse_unsigned(s@, max as nat) is None,
        },
{
    let v = chars_of(s);
    assert(v@.subrange(0, v@.len() as int) == v@);
    parse_unsigned_in(&v, 0, v.len(), max)
}

/// `s.parse::<i64>()`.
pub fn parse_i64_str(s: &str) -> (r: Option<i64>)
    ensures
        match r {
            Some(v) => parse_i64_spec(s@) == Some(v as int),
            None => parse_i64_spec(s@) is None,
        },
{
    let v = chars_of(s);
    assert(v@.subrange(0, v@.len() as int) == v@);
    parse_i64_in(&v, 0, v.len())
}

// ---------------------------------------------------------------------------
// Lines and words
// ---------------------------------------------------------------------------

/// First index `>= k` holding `c`, or `s.len()`.
pub open spec fn find_char(s: Seq<char>, c: char, k: int) -> int
    decreases s.len() - k,
{
    if k >= s.len() {
        s.len() as int
    } else if s[k] == c {
        k
    } else {
        find_char(s, c, k + 1)
    }
}

pub proof fn lemma_find_char(s: Seq<char>, c: char, k: int)
    requires
        0 <= k <= s.len(),
    ensures
        k <= find_char(s, c, k) <= s.len(),
        find_char(s, c, k) < s.len() ==> s[find_char(s, c, k)] == c,
        forall|j: int| k <= j < find_char(s, c, k) ==> s[j] != c,
    decreases s.len() - k,
{
    if k < s.len() && s[k] != c {
        lemma_find_char(s, c, k + 1);
    }
}

/// The pieces of `s` from position `k` on, between occurrences of `c`
/// (`str::split` with a character).
pub open spec fn split_from(s: Seq<char>, c: char, k: int) -> Seq<Seq<char>>
    decreases s.len() + 1 - k,
{
    if k < 0 || k > s.len() {
        Seq::empty()
    } else {
        let e = find_char(s, c, k);
        let piece = s.subrange(k, e);
        if e >= s.len() {
            seq![piece]
        } else {
            proof {
                lemma_find_char(s, c, k);
            }
            seq![piece] + split_from(s, c, e + 1)
        }
    }
}

/// No character of `s` is `c`.
pub open spec fn free_of(s: Seq<char>, c: char) -> bool {
    forall|j: int| 0 <= j < s.len() ==> #[trigger] s[j] != c
}

/// The next `c` from `k` on is at `n` when none lies in between.
pub proof fn lemma_find_char_at(s: Seq<char>, c: char, k: int, n: int)
    requires
        0 <= k <= n <= s.len(),
        forall|j: int| k <= j < n ==> #[trigger] s[j] != c,
        n == s.len() || s[n] == c,
    ensures
        find_char(s, c, k) == n,
    decreases n - k,
{
    if k < n {
        lemma_find_char_at(s, c, k + 1, n);
    }
}

proof fn lemma_find_char_shift(p: Seq<char>, y: Seq<char>, c: char, k: int)
    requires
        0 <= k <= y.len(),
    ensures
        find_char(p + y, c, p.len() + k) == p.len() + find_char(y, c, k),
    decreases y.len() - k,
{
    if k < y.len() {
        assert((p + y)[p.len() + k] == y[k]);
        if y[k] != c {
            lemma_find_char_shift(p, y, c, k + 1);
        }
    }
}

proof fn lemma_split_shift(p: Seq<char>, y: Seq<char>, c: char, k: int)
    requires
        0 <= k <= y.len(),
    ensures
        split_from(p + y, c, p.len() + k) == split_from(y, c, k),
    decreases y.len() + 1 - k,
{
    let d = p + y;
    lemma_find_char_shift(p, y, c, k);
    lemma_find_char(y, c, k);
    let e = find_char(y, c, k);
    assert(d.subrange(p.len() + k, p.len() + e) =~= y.subrange(k, e));
    if e < y.len() {
        lemma_split_shift(p, y, c, e + 1);
    }
}

/// Splitting `x + [c] + y` at `c`, with `x` free of `c`, gives `x` and then the pieces of `y`.
pub proof fn lemma_split_cons(x: Seq<char>, c: char, y: Seq<char>)
    requires
        free_of(x, c),
    ensures
        split_from(x + seq![c] + y, c, 0) == seq![x] + split_from(y, c, 0),
{
    let p = x + seq![c];
    let d = p + y;
    assert forall|j: int| 0 <= j < x.len() implies #[trigger] d[j] != c by {
        assert(d[j] == x[j]);
    }
    assert(d[x.len() as int] == c);
    lemma_find_char_at(d, c, 0, x.len() as int);
    assert(d.subrange(0, x.len() as int) =~= x);
    lemma_split_shift(p, y, c, 0);
}

/// Splitting a text free of `c` at `c` gives the text itself.
pub proof fn lemma_split_single(x: Seq<char>, c: char)
    requires
        free_of(x, c),
    ensures
        split_from(x, c, 0) == seq![x],
{
    lemma_find_char_at(x, c, 0, x.len() as int);
    assert(x.subrange(0, x.len() as int) =~= x);
}

/// `s.split(c)`.
pub open spec fn split_on(s: Seq<char>, c: char) -> Seq<Seq<char>> {
    split_from(s, c, 0)
}

/// The views of a vector of character vectors.
pub open spec fn char_vecs_view(v: Seq<Vec<char>>) -> Seq<Seq<char>> {
    v.map_values(|w: Vec<char>| w@)
}

/// Executable [`find_char`].
pub fn find_char_exec(s: &Vec<char>, c: char, k: usize) -> (r: usize)
    requires
        k <= s.len(),
    ensures
        r == find_char(s@, c, k as int),
        k <= r <= s.len(),
{
    proof {
        lemma_find_char(s@, c, k as int);
    }
    let mut j = k;
    while j < s.len() && s[j] != c
        invariant
            k <= j <= s.len(),
            find_char(s@, c, k as int) == find_char(s@, c, j as int),
        decreases s.len() - j,
    {
        j += 1;
    }
    j
}

/// The line that starts at `k` (a `\r` before its `\n` removed).
pub open spec fn line_at(s: Seq<char>, k: int) -> Seq<char> {
    let e = find_char(s, '\n', k);
    let l = s.subrange(k, e);
    if e < s.len() && l.len() > 0 && l.last() == '\r' {
        l.drop_last()
    } else {
        l
    }
}

/// The lines of `s[k..]`, as `str::lines` yields them.
pub open spec fn lines_from(s: Seq<char>, k: int) -> Seq<Seq<char>>
    decreases s.len() - k,
{
    if k < 0 || k >= s.len() {
        seq![]
    } else {
        proof {
            lemma_find_char(s, '\n', k);
        }
        let e = find_char(s, '\n', k);
        if e < s.len() {
            seq![line_at(s, k)] + lines_from(s, e + 1)
        } else {
            seq![line_at(s, k)]
        }
    }
}

/// The lines of `s` (`str::lines`).
pub open spec fn lines(s: Seq<char>) -> Seq<Seq<char>> {
    lines_from(s, 0)
}

/// The lines of `s`, as `str::lines` yields them.
pub fn lines_exec(s: &Vec<char>) -> (r: Vec<Vec<char>>)
    ensures
        r@.len() == lines(s@).len(),
        forall|k: int| 0 <= k < r@.len() ==> #[trigger] r@[k]@ == lines(s@)[k],
{
    let ghost full = lines(s@);
    let ghost mut acc: Seq<Seq<char>> = seq![];
    let mut r: Vec<Vec<char>> = Vec::new();
    let mut k: usize = 0;
    while k < s.len()
        invariant
            k <= s.len(),
            full == acc + lines_from(s@, k as int),
            r@.len() == acc.len(),
            forall|j: int| 0 <= j < acc.len() ==> #[trigger] r@[j]@ == acc[j],
        decreases s.len() + 1 - k,
    {
        let e = find_char_exec(s, '\n', k);
        let mut l = slice_chars(s, k, e);
        if e < s.len() && l.len() > 0 && l[l.len() - 1] == '\r' {
            l.pop();
        }
        proof {
            assert(l@ == line_at(s@, k as int));
            acc = acc.push(line_at(s@, k as int));
            if e < s.len() {
                assert(lines_from(s@, k as int) == seq![line_at(s@, k as int)] + lines_from(s@, e + 1));
            } else {
                assert(lines_from(s@, k as int) == seq![line_at(s@, k as int)]);
                assert(lines_from(s@, s.len() as int) == Seq::<Seq<char>>::empty());
            }
        }
        r.push(l);
        k = if e < s.len() { e + 1 } else { s.len() };
    }
    assert(lines_from(s@, k as int) == Seq::<Seq<char>>::empty());
    assert(acc == full);
    r
}

/// First index `>= k` whose whitespace test equals `ws`, or `s.len()`.
pub open spec fn find_ws(s: Seq<char>, ws: bool, k: int) -> int
    decreases s.len() - k,
{
    if k >= s.len() {
        s.len() as int
    } else if is_ws(s[k]) == ws {
        k
    } else {
        find_ws(s, ws, k + 1)
    }
}

pub proof fn lemma_find_ws(s: Seq<char>, ws: bool, k: int)
    requires
        0 <= k <= s.len(),
    ensures
        k <= find_ws(s, ws, k) <= s.len(),
        find_ws(s, ws, k) < s.len() ==> is_ws(s[find_ws(s, ws, k)]) == ws,
    decreases s.len() - k,
{
    if k < s.len() && is_ws(s[k]) != ws {
        lemma_find_ws(s, ws, k + 1);
    }
}

fn find_ws_exec(s: &Vec<char>, ws: bool, k: usize) -> (r: usize)
    requires
        k <= s.len(),
    ensures
        r == find_ws(s@, ws, k as int),
        k <= r <= s.len(),
{
    proof {
        lemma_find_ws(s@, ws, k as int);
    }
    let mut j = k;
    while j < s.len() && char_is_ws(s[j]) != ws
        invariant
            k <= j <= s.len(),
            find_ws(s@, ws, k as int) == find_ws(s@, ws, j as int),
        decreases s.len() - j,
    {
        j += 1;
    }
    j
}

/// The whitespace-separated words of `s[k..]` (`str::split_whitespace`).
pub open spec fn words_from(s: Seq<char>, k: int) -> Seq<Seq<char>>
    decreases s.len() - k,
{
    if k < 0 || k >= s.len() {
        seq![]
    } else {
        proof {
            lemma_find_ws(s, false, k);
        }
        let st = find_ws(s, false, k);
        if st >= s.len() {
            seq![]
        } else {
            proof {
                lemma_find_ws(s, true, st);
            }
            let e = find_ws(s, true, st);
            seq![s.subrange(st, e)] + words_from(s, e)
        }
    }
}

/// The whitespace-separated words of `s`.
pub open spec fn words(s: Seq<char>) -> Seq<Seq<char>> {
    words_from(s, 0)
}

/// The whitespace-separated words of `s` (`str::split_whitespace`).
pub fn words_exec(s: &Vec<char>) -> (r: Vec<Vec<char>>)
    ensures
        r@.len() == words(s@).len(),
        forall|k: int| 0 <= k < r@.len() ==> #[trigger] r@[k]@ == words(s@)[k],
{
    let ghost full = words(s@);
    let ghost mut acc: Seq<Seq<char>> = seq![];
    let mut r: Vec<Vec<char>> = Vec::new();
    let mut k: usize = 0;
    while k < s.len()
        invariant
            k <= s.len(),
            full == acc + words_from(s@, k as int),
            r@.len() == acc.len(),
            forall|j: int| 0 <= j < acc.len() ==> #[trigger] r@[j]@ == acc[j],
        decreases s.len() - k,
    {
        let st = find_ws_exec(s, false, k);
        if st >= s.len() {
            assert(words_from(s@, k as int) == Seq::<Seq<char>>::empty());
            k = s.len();
        } else {
            let e = find_ws_exec(s, true, st);
            proof {
                lemma_find_ws(s@, false, k as int);
                assert(!is_ws(s@[st as int]));
                assert(find_ws(s@, true, st as int) == find_ws(s@, true, st + 1));
                lemma_find_ws(s@, true, st + 1);
                assert(e > st);
                acc = acc.push(s@.subrange(st as int, e as int));
            }
            r.push(slice_chars(s, st, e));
            k = e;
        }
    }
    assert(words_from(s@, k as int) == Seq::<Seq<char>>::empty());
    assert(acc == full);
    r
}


/// The pieces of `s` between occurrences of `c`, as `str::split` gives them.
pub fn split_chars(s: &Vec<char>, c: char) -> (r: Vec<Vec<char>>)
    ensures
        char_vecs_view(r@) == split_on(s@, c),
{
    let mut r: Vec<Vec<char>> = Vec::new();
    let mut k: usize = 0;
    loop
        invariant
            k <= s.len(),
            split_on(s@, c) == char_vecs_view(r@) + split_from(s@, c, k as int),
        decreases s.len() + 1 - k,
    {
        let e = find_char_exec(s, c, k);
        proof {
            lemma_find_char(s@, c, k as int);
        }
        let piece = slice_chars(s, k, e);
        let ghost before = r@;
        r.push(piece);
        assert(char_vecs_view(r@) =~= char_vecs_view(before).push(piece@));
        if e >= s.len() {
            assert(split_from(s@, c, k as int) == seq![piece@]);
            assert(char_vecs_view(before) + seq![piece@] =~= char_vecs_view(r@));
            return r;
        }
        assert(split_from(s@, c, k as int) == seq![piece@] + split_from(s@, c, e + 1));
        assert(char_vecs_view(before) + (seq![piece@] + split_from(s@, c, e + 1)) =~= char_vecs_view(r@) + split_from(s@, c, e + 1));
        k = e + 1;
    }
}

} // verus!
