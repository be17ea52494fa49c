//! Character-level text handling shared by the request checks: whitespace,
//! trimming, searching, ASCII case folding, UTF-8 widths and decimal numbers.
use vstd::prelude::*;

verus! {

broadcast use vstd::string::group_string_axioms;

// ---------------------------------------------------------------------------
// Character classes
// ---------------------------------------------------------------------------
/// Unicode `White_Space`, as `char::is_whitespace` reports it.
pub open spec fn is_white(c: char) -> bool {
    let u = c as u32;
    (0x09 <= u && u <= 0x0d) || u == 0x20 || u == 0x85 || u == 0xa0 || u == 0x1680 || (0x2000 <= u
        && u <= 0x200a) || u == 0x2028 || u == 0x2029 || u == 0x202f || u == 0x205f || u == 0x3000
}

pub open spec fn is_ascii_alnum(c: char) -> bool {
    ('0' <= c && c <= '9') || ('A' <= c && c <= 'Z') || ('a' <= c && c <= 'z')
}

/// ASCII lower-casing; every other character is kept.
pub open spec fn ascii_lower(c: char) -> char {
    if 'A' <= c && c <= 'Z' {
        ((c as u32) + 32) as char
    } else {
        c
    }
}

/// Equality after ASCII lower-casing, as `str::eq_ignore_ascii_case` decides it.
pub open spec fn eq_ignore_ascii_case(a: Seq<char>, b: Seq<char>) -> bool {
    a.len() == b.len() && forall|i: int| 0 <= i < a.len() ==> ascii_lower(a[i]) == ascii_lower(b[i])
}

/// Number of bytes that the UTF-8 encoding of `c` takes.
pub open spec fn utf8_width(c: char) -> nat {
    let u = c as u32;
    if u < 0x80 {
        1
    } else if u < 0x800 {
        2
    } else if u < 0x10000 {
        3
    } else {
        4
    }
}

/// Number of bytes of the UTF-8 encoding of `s` (what `str::len` returns).
pub open spec fn utf8_len(s: Seq<char>) -> nat
    decreases s.len(),
{
    if s.len() == 0 {
        0
    } else {
        utf8_len(s.drop_last()) + utf8_width(s.last())
    }
}

pub fn is_white_char(c: char) -> (r: bool)
    ensures
        r == is_white(c),
{
    let u = c as u32;
    (0x09 <= u && u <= 0x0d) || u == 0x20 || u == 0x85 || u == 0xa0 || u == 0x1680 || (0x2000 <= u
        && u <= 0x200a) || u == 0x2028 || u == 0x2029 || u == 0x202f || u == 0x205f || u == 0x3000
}

pub fn is_ascii_alnum_char(c: char) -> (r: bool)
    ensures
        r == is_ascii_alnum(c),
{
    ('0' <= c && c <= '9') || ('A' <= c && c <= 'Z') || ('a' <= c && c <= 'z')
}

pub fn utf8_width_of(c: char) -> (w: usize)
    ensures
        w == utf8_width(c),
{
    let u = c as u32;
    if u < 0x80 {
        1
    } else if u < 0x800 {
        2
    } else if u < 0x10000 {
        3
    } else {
        4
    }
}

fn ascii_lower_char(c: char) -> (r: char)
    ensures
        r == ascii_lower(c),
{
    if 'A' <= c && c <= 'Z' {
        let u = (c as u32) + 32;
        assert(0x61 <= u <= 0x7a);
        char_from_ascii(u)
    } else {
        c
    }
}

/// The character with the ASCII code `u`.
fn char_from_ascii(u: u32) -> (c: char)
    requires
        u < 0x80,
    ensures
        c == u as char,
        c as u32 == u,
{
    let b = u as u8;
    b as char
}

// ---------------------------------------------------------------------------
// Counting runs of characters
// ---------------------------------------------------------------------------
/// Length of the longest prefix of `s` whose characters all satisfy `p`.
pub open spec fn lead_count(s: Seq<char>, p: spec_fn(char) -> bool) -> nat
    decreases s.len(),
{
    if s.len() == 0 {
        0
    } else if p(s[0]) {
        1 + lead_count(s.drop_first(), p)
    } else {
        0
    }
}

/// Length of the longest suffix of `s` whose characters all satisfy `p`.
pub open spec fn trail_count(s: Seq<char>, p: spec_fn(char) -> bool) -> nat
    decreases s.len(),
{
    if s.len() == 0 {
        0
    } else if p(s.last()) {
        1 + trail_count(s.drop_last(), p)
    } else {
        0
    }
}

pub open spec fn white() -> spec_fn(char) -> bool {
    |c: char| is_white(c)
}

pub open spec fn not_white() -> spec_fn(char) -> bool {
    |c: char| !is_white(c)
}

pub open spec fn not_char(x: char) -> spec_fn(char) -> bool {
    |c: char| c != x
}

/// Index of the first occurrence of `x` in `s`, or `s.len()` when there is none.
pub open spec fn first_index(s: Seq<char>, x: char) -> nat {
    lead_count(s, not_char(x))
}

/// `s` without leading and trailing whitespace, as `str::trim` returns it.
pub open spec fn trim(s: Seq<char>) -> Seq<char> {
    let t = s.skip(lead_count(s, white()) as int);
    t.take(t.len() - trail_count(t, white()))
}

pub proof fn lemma_lead_count(s: Seq<char>, p: spec_fn(char) -> bool, k: int)
    requires
        0 <= k <= s.len(),
        forall|j: int| 0 <= j < k ==> p(s[j]),
        k == s.len() || !p(s[k]),
    ensures
        lead_count(s, p) == k,
    decreases k,
{
    if k > 0 {
        lemma_lead_count(s.drop_first(), p, k - 1);
    }
}

pub proof fn lemma_lead_count_bounds(s: Seq<char>, p: spec_fn(char) -> bool)
    ensures
        lead_count(s, p) <= s.len(),
        forall|j: int| 0 <= j < lead_count(s, p) ==> p(#[trigger] s[j]),
        lead_count(s, p) < s.len() ==> !p(s[lead_count(s, p) as int]),
    decreases s.len(),
{
    if s.len() > 0 && p(s[0]) {
        lemma_lead_count_bounds(s.drop_first(), p);
        assert forall|j: int| 0 <= j < lead_count(s, p) implies p(#[trigger] s[j]) by {
            if j > 0 {
                assert(s[j] == s.drop_first()[j - 1]);
            }
        }
    }
}

pub proof fn lemma_trail_count(s: Seq<char>, p: spec_fn(char) -> bool, k: int)
    requires
        0 <= k <= s.len(),
        forall|j: int| s.len() - k <= j < s.len() ==> p(s[j]),
        k == s.len() || !p(s[s.len() - k - 1]),
    ensures
        trail_count(s, p) == k,
    decreases k,
{
    if k > 0 {
        let t = s.drop_last();
        assert forall|j: int| t.len() - (k - 1) <= j < t.len() implies p(t[j]) by {
            assert(t[j] == s[j]);
        }
        if k - 1 != t.len() {
            assert(t[t.len() - (k - 1) - 1] == s[s.len() - k - 1]);
        }
        lemma_trail_count(t, p, k - 1);
    }
}

pub proof fn lemma_trail_count_bounds(s: Seq<char>, p: spec_fn(char) -> bool)
    ensures
        trail_count(s, p) <= s.len(),
    decreases s.len(),
{
    if s.len() > 0 && p(s.last()) {
        lemma_trail_count_bounds(s.drop_last(), p);
    }
}

/// The number of leading characters of `v[lo..hi]` that satisfy `is_white`
/// (when `want_white`) or that do not (otherwise), added to `lo`.
fn scan_forward(v: &Vec<char>, lo: usize, hi: usize, want_white: bool) -> (r: usize)
    requires
        lo <= hi <= v.len(),
    ensures
        want_white ==> r == lo + lead_count(v@.subrange(lo as int, hi as int), white()),
        !want_white ==> r == lo + lead_count(v@.subrange(lo as int, hi as int), not_white()),
        lo <= r <= hi,
{
    let ghost s = v@.subrange(lo as int, hi as int);
    let mut i = lo;
    while i < hi && is_white_char(v[i]) == want_white
        invariant
            lo <= i <= hi <= v.len(),
            s == v@.subrange(lo as int, hi as int),
            forall|j: int| lo <= j < i ==> is_white(v@[j]) == want_white,
        decreases hi - i,
    {
        i = i + 1;
    }
    proof {
        if want_white {
            lemma_lead_count(s, white(), i - lo);
        } else {
            lemma_lead_count(s, not_white(), i - lo);
        }
    }
    i
}

/// `lo` plus the index of the first `x` in `v[lo..hi]`, or `hi` when it has none.
pub fn index_of(v: &Vec<char>, lo: usize, hi: usize, x: char) -> (r: usize)
    requires
        lo <= hi <= v.len(),
    ensures
        r == lo + first_index(v@.subrange(lo as int, hi as int), x),
        lo <= r <= hi,
        r < hi ==> v@[r as int] == x,
        forall|j: int| lo <= j < r ==> v@[j] != x,
{
    let ghost s = v@.subrange(lo as int, hi as int);
    let mut i = lo;
    while i < hi && v[i] != x
        invariant
            lo <= i <= hi <= v.len(),
            s == v@.subrange(lo as int, hi as int),
            forall|j: int| lo <= j < i ==> v@[j] != x,
        decreases hi - i,
    {
        i = i + 1;
    }
    proof {
        lemma_lead_count(s, not_char(x), i - lo);
    }
    i
}

/// `lo` plus the number of leading whitespace characters of `v[lo..hi]`.
pub fn skip_white(v: &Vec<char>, lo: usize, hi: usize) -> (r: usize)
    requires
        lo <= hi <= v.len(),
    ensures
        r == lo + lead_count(v@.subrange(lo as int, hi as int), white()),
        lo <= r <= hi,
{
    scan_forward(v, lo, hi, true)
}

/// `lo` plus the index of the first whitespace character of `v[lo..hi]`, or `hi`.
pub fn find_white(v: &Vec<char>, lo: usize, hi: usize) -> (r: usize)
    requires
        lo <= hi <= v.len(),
    ensures
        r == lo + lead_count(v@.subrange(lo as int, hi as int), not_white()),
        lo <= r <= hi,
{
    scan_forward(v, lo, hi, false)
}

/// `hi` minus the number of trailing whitespace characters of `v[lo..hi]`.
pub fn trim_end_at(v: &Vec<char>, lo: usize, hi: usize) -> (r: usize)
    requires
        lo <= hi <= v.len(),
    ensures
        r == hi - trail_count(v@.subrange(lo as int, hi as int), white()),
        lo <= r <= hi,
{
    let ghost s = v@.subrange(lo as int, hi as int);
    let mut i = hi;
    while i > lo && is_white_char(v[i - 1])
        invariant
            lo <= i <= hi <= v.len(),
            s == v@.subrange(lo as int, hi as int),
            forall|j: int| i <= j < hi ==> is_white(v@[j]),
        decreases i - lo,
    {
        i = i - 1;
    }
    proof {
        lemma_trail_count(s, white(), hi - i);
    }
    i
}

/// The bounds of `trim(v[lo..hi])` inside `v`.
pub fn trim_range(v: &Vec<char>, lo: usize, hi: usize) -> (r: (usize, usize))
    requires
        lo <= hi <= v.len(),
    ensures
        lo <= r.0 <= r.1 <= hi,
        v@.subrange(r.0 as int, r.1 as int) == trim(v@.subrange(lo as int, hi as int)),
{
    let a = skip_white(v, lo, hi);
    let b = trim_end_at(v, a, hi);
    proof {
        let s = v@.subrange(lo as int, hi as int);
        let t = s.skip(lead_count(s, white()) as int);
        assert(t =~= v@.subrange(a as int, hi as int));
        assert(v@.subrange(a as int, b as int) =~= t.take(t.len() - trail_count(t, white())));
    }
    (a, b)
}

/// All characters of `s`.
pub fn chars_of(s: &str) -> (out: Vec<char>)
    ensures
        out@ == s@,
{
    let mut out: Vec<char> = Vec::new();
    for c in it: s.chars()
        invariant
            it.seq() == s@,
            out@ == s@.take(it.index() as int),
    {
        out.push(c);
    }
    out
}

// ---------------------------------------------------------------------------
// Comparisons
// ---------------------------------------------------------------------------
/// Whether `v[lo..hi]` equals `w`.
pub fn range_eq(v: &Vec<char>, lo: usize, hi: usize, w: &Vec<char>) -> (r: bool)
    requires
        lo <= hi <= v.len(),
    ensures
        r == (v@.subrange(lo as int, hi as int) == w@),
{
    if hi - lo != w.len() {
        return false;
    }
    let mut i: usize = 0;
    while i < w.len()
        invariant
            lo <= hi <= v.len(),
            hi - lo == w.len(),
            i <= w.len(),
            forall|j: int| 0 <= j < i ==> v@[lo + j] == w@[j],
        decreases w.len() - i,
    {
        if v[lo + i] != w[i] {
            proof {
                assert(v@.subrange(lo as int, hi as int)[i as int] != w@[i as int]);
            }
            return false;
        }
        i = i + 1;
    }
    assert(v@.subrange(lo as int, hi as int) =~= w@);
    true
}

/// Whether `v[lo..hi]` starts with `w`.
pub fn range_starts_with(v: &Vec<char>, lo: usize, hi: usize, w: &Vec<char>) -> (r: bool)
    requires
        lo <= hi <= v.len(),
    ensures
        r == w@.is_prefix_of(v@.subrange(lo as int, hi as int)),
{
    if hi - lo < w.len() {
        return false;
    }
    let e = lo + w.len();
    let r = range_eq(v, lo, e, w);
    proof {
        let s = v@.subrange(lo as int, hi as int);
        assert(s.take(w.len() as int) =~= v@.subrange(lo as int, e as int));
        if r {
            assert forall|i: int| 0 <= i < w@.len() implies w@[i] == s[i] by {
                assert(s[i] == s.take(w.len() as int)[i]);
            }
        } else {
            if w@.is_prefix_of(s) {
                assert(s.take(w.len() as int) =~= w@);
            }
        }
    }
    r
}

/// Whether `v[lo..hi]` equals `w` up to ASCII case.
pub fn range_eq_ignore_ascii_case(v: &Vec<char>, lo: usize, hi: usize, w: &Vec<char>) -> (r: bool)
    requires
        lo <= hi <= v.len(),
    ensures
        r == eq_ignore_ascii_case(v@.subrange(lo as int, hi as int), w@),
{
    if hi - lo != w.len() {
        return false;
    }
    let mut i: usize = 0;
    while i < w.len()
        invariant
            lo <= hi <= v.len(),
            hi - lo == w.len(),
            i <= w.len(),
            forall|j: int| 0 <= j < i ==> ascii_lower(v@[lo + j]) == ascii_lower(w@[j]),
        decreases w.len() - i,
    {
        if ascii_lower_char(v[lo + i]) != ascii_lower_char(w[i]) {
            proof {
                assert(v@.subrange(lo as int, hi as int)[i as int] == v@[lo + i]);
            }
            return false;
        }
        i = i + 1;
    }
    true
}

/// Whether two strings are equal.
pub fn str_eq(a: &str, b: &str) -> (r: bool)
    ensures
        r == (a@ == b@),
{
    let va = chars_of(a);
    let vb = chars_of(b);
    let r = range_eq(&va, 0, va.len(), &vb);
    assert(va@.subrange(0, va.len() as int) =~= a@);
    r
}

/// Whether two strings are equal up to ASCII case (`str::eq_ignore_ascii_case`).
pub fn str_eq_ignore_ascii_case(a: &str, b: &str) -> (r: bool)
    ensures
        r == eq_ignore_ascii_case(a@, b@),
{
    let va = chars_of(a);
    let vb = chars_of(b);
    let r = range_eq_ignore_ascii_case(&va, 0, va.len(), &vb);
    assert(va@.subrange(0, va.len() as int) =~= a@);
    r
}

// ---------------------------------------------------------------------------
// UTF-8 length
// ---------------------------------------------------------------------------
pub proof fn lemma_utf8_len_take(s: Seq<char>, i: int)
    requires
        0 <= i < s.len(),
    ensures
        utf8_len(s.take(i + 1)) == utf8_len(s.take(i)) + utf8_width(s[i]),
{
    assert(s.take(i + 1).drop_last() =~= s.take(i));
}

pub proof fn lemma_utf8_len_prefix_le(s: Seq<char>, i: int)
    requires
        0 <= i <= s.len(),
    ensures
        utf8_len(s.take(i)) <= utf8_len(s),
    decreases s.len() - i,
{
    if i < s.len() {
        lemma_utf8_len_take(s, i);
        lemma_utf8_len_prefix_le(s, i + 1);
    } else {
        assert(s.take(i) =~= s);
    }
}

pub proof fn lemma_utf8_len_lower(s: Seq<char>)
    ensures
        utf8_len(s) >= s.len(),
    decreases s.len(),
{
    if s.len() > 0 {
        lemma_utf8_len_lower(s.drop_last());
    }
}

/// The UTF-8 length of `v[lo..hi]` when it is at most `cap`; otherwise some
/// number above `cap`.
pub fn utf8_len_capped(v: &Vec<char>, lo: usize, hi: usize, cap: usize) -> (r: usize)
    requires
        lo <= hi <= v.len(),
        cap <= usize::MAX - 4,
    ensures
        utf8_len(v@.subrange(lo as int, hi as int)) <= cap ==> r == utf8_len(
            v@.subrange(lo as int, hi as int),
        ),
        utf8_len(v@.subrange(lo as int, hi as int)) > cap ==> r > cap,
{
    let ghost s = v@.subrange(lo as int, hi as int);
    let mut total: usize = 0;
    let mut i = lo;
    while i < hi
        invariant
            lo <= i <= hi <= v.len(),
            s == v@.subrange(lo as int, hi as int),
            cap <= usize::MAX - 4,
            total <= cap,
            total == utf8_len(s.take(i - lo)),
        decreases hi - i,
    {
        proof {
            lemma_utf8_len_take(s, i - lo);
        }
        total = total + utf8_width_of(v[i]);
        i = i + 1;
        if total > cap {
            proof {
                lemma_utf8_len_prefix_le(s, i - lo);
            }
            return total;
        }
    }
    assert(s.take(i - lo) =~= s);
    total
}

// ---------------------------------------------------------------------------
// Building strings
// ---------------------------------------------------------------------------
/// Appends one character (`String::push`).
#[verifier::external_body]
pub(crate) fn push_char(s: &mut String, c: char)
    ensures
        final(s)@ == old(s)@.push(c),
{
    s.push(c);
}

/// Appends `v[lo..hi]` to `out`.
pub fn push_range(out: &mut String, v: &Vec<char>, lo: usize, hi: usize)
    requires
        lo <= hi <= v.len(),
    ensures
        final(out)@ == old(out)@ + v@.subrange(lo as int, hi as int),
{
    let ghost start = out@;
    let mut i = lo;
    while i < hi
        invariant
            lo <= i <= hi <= v.len(),
            out@ == start + v@.subrange(lo as int, i as int),
        decreases hi - i,
    {
        push_char(out, v[i]);
        i = i + 1;
        assert(out@ =~= start + v@.subrange(lo as int, i as int));
    }
}

/// The string `v[lo..hi]`.
pub fn string_of_range(v: &Vec<char>, lo: usize, hi: usize) -> (out: String)
    requires
        lo <= hi <= v.len(),
    ensures
        out@ == v@.subrange(lo as int, hi as int),
{
    let mut out = String::new();
    push_range(&mut out, v, lo, hi);
    assert(out@ =~= v@.subrange(lo as int, hi as int));
    out
}

// ---------------------------------------------------------------------------
// Decimal numbers
// ---------------------------------------------------------------------------
pub open spec fn digit_char(d: nat) -> char {
    (('0' as u32) + d) as char
}

/// Decimal digits of `n`, most significant first, with no leading zero.
pub open spec fn decimal(n: nat) -> Seq<char>
    decreases n,
{
    if n < 10 {
        seq![digit_char(n)]
    } else {
        decimal(n / 10).push(digit_char(n % 10))
    }
}

/// Decimal form of a signed integer, with a leading `-` when it is negative.
pub open spec fn signed_decimal(n: int) -> Seq<char> {
    if n < 0 {
        seq!['-'] + decimal((-n) as nat)
    } else {
        decimal(n as nat)
    }
}

/// Decimal form of `n`, as `u64::to_string` writes it.
pub fn decimal_string(n: u64) -> (out: String)
    ensures
        out@ == decimal(n as nat),
{
    let mut digits: Vec<char> = Vec::new();
    let mut m = n;
    // digits are collected least significant first
    loop
        invariant_except_break
            m <= n,
            decimal(n as nat) == decimal(m as nat) + digits@.reverse(),
        ensures
            decimal(n as nat) == digits@.reverse(),
        decreases m,
    {
        let d = (m % 10) as u32;
        let c = char_from_ascii(0x30 + d);
        if m < 10 {
            proof {
                assert(decimal(m as nat) =~= seq![c]);
            }
            let ghost before = digits@;
            digits.push(c);
            proof {
                assert(digits@.reverse() =~= seq![c] + before.reverse());
            }
            break;
        }
        proof {
            assert(decimal(m as nat) == decimal((m / 10) as nat).push(c));
        }
        let ghost before = digits@;
        digits.push(c);
        m = m / 10;
        proof {
            assert(digits@.reverse() =~= seq![c] + before.reverse());
            assert(decimal(n as nat) =~= decimal(m as nat) + digits@.reverse());
        }
    }
    let mut out = String::new();
    let mut i = digits.len();
    while i > 0
        invariant
            i <= digits.len(),
            decimal(n as nat) == digits@.reverse(),
            out@ == digits@.subrange(i as int, digits.len() as int).reverse(),
        decreases i,
    {
        i = i - 1;
        push_char(&mut out, digits[i]);
        assert(out@ =~= digits@.subrange(i as int, digits.len() as int).reverse());
    }
    assert(digits@.subrange(0, digits.len() as int) =~= digits@);
    out
}

/// Decimal form of `n`, as `i64::to_string` writes it.
pub fn signed_decimal_string(n: i64) -> (out: String)
    ensures
        out@ == signed_decimal(n as int),
{
    if n < 0 {
        let magnitude: u64 = if n == i64::MIN {
            0x8000_0000_0000_0000u64
        } else {
            (-n) as u64
        };
        let mut out = String::new();
        push_char(&mut out, '-');
        let digits = decimal_string(magnitude);
        out.append(digits.as_str());
        assert(out@ =~= seq!['-'] + decimal((-n) as nat));
        out
    } else {
        decimal_string(n as u64)
    }
}

} // verus!
