//! Character-level string helpers used by the connectors, the server setup
//! and the screens: equality, prefix/suffix trimming, splitting at the last
//! occurrence of a character, ASCII case folding and decimal numbers.

use vstd::prelude::*;

verus! {

// ---------------------------------------------------------------------------
// Specifications
// ---------------------------------------------------------------------------

/// `s` begins with `p`.
pub open spec fn has_prefix(s: Seq<char>, p: Seq<char>) -> bool {
    p.len() <= s.len() && s.subrange(0, p.len() as int) == p
}

/// `s` ends with `p`.
pub open spec fn has_suffix(s: Seq<char>, p: Seq<char>) -> bool {
    p.len() <= s.len() && s.subrange(s.len() - p.len(), s.len() as int) == p
}

/// `s` with every leading repetition of the non-empty pattern `p` removed
/// (what `str::trim_start_matches` does for a string pattern).
pub open spec fn trim_start_all(s: Seq<char>, p: Seq<char>) -> Seq<char>
    decreases s.len(),
{
    if p.len() > 0 && has_prefix(s, p) {
        trim_start_all(s.subrange(p.len() as int, s.len() as int), p)
    } else {
        s
    }
}

/// `s` with every trailing repetition of the non-empty pattern `p` removed
/// (what `str::trim_end_matches` does for a string pattern).
pub open spec fn trim_end_all(s: Seq<char>, p: Seq<char>) -> Seq<char>
    decreases s.len(),
{
    if p.len() > 0 && has_suffix(s, p) {
        trim_end_all(s.subrange(0, s.len() - p.len()), p)
    } else {
        s
    }
}

/// The part of `s` after the last `c`; all of `s` when `c` does not occur
/// (the first item of `str::rsplit(c)`).
pub open spec fn after_last(s: Seq<char>, c: char) -> Seq<char>
    decreases s.len(),
{
    if s.len() == 0 {
        s
    } else if s.last() == c {
        Seq::empty()
    } else {
        after_last(s.drop_last(), c).push(s.last())
    }
}

pub open spec fn is_ascii_upper(c: char) -> bool {
    'A' <= c && c <= 'Z'
}

/// ASCII lower-casing of one character; every other character is kept.
pub open spec fn ascii_lower(c: char) -> char {
    if is_ascii_upper(c) {
        ((c as u32) + 32) as char
    } else {
        c
    }
}

/// `a` and `b` are equal once ASCII letters are lower-cased
/// (what `str::eq_ignore_ascii_case` decides).
pub open spec fn eq_ignore_ascii_case(a: Seq<char>, b: Seq<char>) -> bool {
    a.len() == b.len() && forall|i: int| 0 <= i < a.len() ==> ascii_lower(#[trigger] a[i]) == ascii_lower(b[i])
}

pub open spec fn is_digit(c: char) -> bool {
    '0' <= c && c <= '9'
}

pub open spec fn digit_value(c: char) -> nat {
    ((c as u32) - ('0' as u32)) as nat
}

pub open spec fn digit_char(d: nat) -> char {
    ((d + ('0' as u32)) as u32) as char
}

pub open spec fn all_digits(s: Seq<char>) -> bool {
    forall|i: int| 0 <= i < s.len() ==> is_digit(#[trigger] s[i])
}

/// The number that the decimal digits `s` spell (most significant first).
pub open spec fn digits_value(s: Seq<char>) -> nat
    decreases s.len(),
{
    if s.len() == 0 {
        0
    } else {
        digits_value(s.drop_last()) * 10 + digit_value(s.last())
    }
}

/// The decimal spelling of `n`, without leading zeros.
pub open spec fn decimal(n: nat) -> Seq<char>
    decreases n,
{
    if n < 10 {
        seq![digit_char(n)]
    } else {
        decimal(n / 10).push(digit_char(n % 10))
    }
}

/// What `str::parse::<usize>` accepts: an optional `+`, then one or more
/// ASCII digits whose value fits in a `usize`.
pub open spec fn parse_usize(s: Seq<char>) -> Option<usize> {
    let digits = if s.len() > 0 && s[0] == '+' { s.drop_first() } else { s };
    if digits.len() > 0 && all_digits(digits) && digits_value(digits) <= usize::MAX {
        Some(digits_value(digits) as usize)
    } else {
        None
    }
}

// ---------------------------------------------------------------------------
// Lemmas
// ---------------------------------------------------------------------------

proof fn lemma_digits_value_grows(s: Seq<char>, k: int)
    requires
        0 <= k <= s.len(),
        all_digits(s),
    ensures
        digits_value(s.subrange(0, k)) <= digits_value(s),
    decreases s.len() - k,
{
    if k < s.len() {
        lemma_digits_value_grows(s, k + 1);
        assert(s.subrange(0, k + 1).drop_last() =~= s.subrange(0, k));
    } else {
        assert(s.subrange(0, k) =~= s);
    }
}

proof fn lemma_digit_char(d: nat)
    requires
        d < 10,
    ensures
        is_digit(digit_char(d)),
        digit_value(digit_char(d)) == d,
{
    assert(('0' as u32) == 48);
    let c = digit_char(d);
    assert((c as u32) == d + 48);
}

/// The decimal spelling of `n` reads back as `n`: it is one or more digits
/// whose value is `n`, so `str::parse` gives `n` back whenever it fits.
pub proof fn lemma_decimal_parses_back(n: nat)
    ensures
        decimal(n).len() > 0,
        all_digits(decimal(n)),
        digits_value(decimal(n)) == n,
        n <= usize::MAX ==> parse_usize(decimal(n)) == Some(n as usize),
    decreases n,
{
    let s = decimal(n);
    if n < 10 {
        lemma_digit_char(n);
        assert(s.drop_last() =~= Seq::<char>::empty());
        assert(digits_value(s.drop_last()) == 0);
        assert(digits_value(s) == digits_value(s.drop_last()) * 10 + digit_value(s.last()));
    } else {
        lemma_decimal_parses_back(n / 10);
        lemma_digit_char(n % 10);
        let t = decimal(n / 10);
        assert(s.drop_last() =~= t);
        assert(s.last() == digit_char(n % 10));
        assert forall|i: int| 0 <= i < s.len() implies is_digit(#[trigger] s[i]) by {
            if i < t.len() {
                assert(s[i] == t[i]);
            }
        }
        let q = n / 10;
        assert(digits_value(s) == digits_value(t) * 10 + digit_value(s.last()));
        assert(q * 10 + n % 10 == n) by (nonlinear_arith)
            requires
                q == n / 10,
        ;
    }
    assert(is_digit(s[0]));
    assert(s[0] != '+');
}

// ---------------------------------------------------------------------------
// Executable helpers
// ---------------------------------------------------------------------------

/// Character-wise equality of two string slices.
pub fn str_eq(a: &str, b: &str) -> (r: bool)
    ensures
        r == (a@ == b@),
{
    let n = a.unicode_len();
    if n != b.unicode_len() {
        return false;
    }
    let mut i: usize = 0;
    while i < n
        invariant
            n == a@.len(),
            n == b@.len(),
            i <= n,
            forall|j: int| 0 <= j < i ==> a@[j] == b@[j],
        decreases n - i,
    {
        if a.get_char(i) != b.get_char(i) {
            return false;
        }
        i = i + 1;
    }
    assert(a@ =~= b@);
    true
}

/// An owned copy of `a` followed by `b`.
pub fn join(a: &str, b: &str) -> (r: String)
    ensures
        r@ == a@ + b@,
{
    String::from_str(a).concat(b)
}

/// Whether `s` begins with `p`.
pub fn starts_with(s: &str, p: &str) -> (r: bool)
    ensures
        r == has_prefix(s@, p@),
{
    let n = s.unicode_len();
    let m = p.unicode_len();
    if m > n {
        return false;
    }
    let mut i: usize = 0;
    while i < m
        invariant
            n == s@.len(),
            m == p@.len(),
            m <= n,
            i <= m,
            forall|j: int| 0 <= j < i ==> s@[j] == p@[j],
        decreases m - i,
    {
        if s.get_char(i) != p.get_char(i) {
            assert(s@.subrange(0, m as int)[i as int] != p@[i as int]);
            return false;
        }
        i = i + 1;
    }
    assert(s@.subrange(0, m as int) =~= p@);
    true
}

/// Whether `s` ends with `p`.
pub fn ends_with(s: &str, p: &str) -> (r: bool)
    ensures
        r == has_suffix(s@, p@),
{
    let n = s.unicode_len();
    let m = p.unicode_len();
    if m > n {
        return false;
    }
    let off = n - m;
    let mut i: usize = 0;
    while i < m
        invariant
            n == s@.len(),
            m == p@.len(),
            off == n - m,
            i <= m,
            forall|j: int| 0 <= j < i ==> s@[off + j] == p@[j],
        decreases m - i,
    {
        if s.get_char(off + i) != p.get_char(i) {
            assert(s@.subrange(off as int, n as int)[i as int] != p@[i as int]);
            return false;
        }
        i = i + 1;
    }
    assert(s@.subrange(off as int, n as int) =~= p@);
    true
}

/// `s` without any leading repetitions of `p` (`str::trim_start_matches`).
pub fn trim_start_matches<'a>(s: &'a str, p: &str) -> (r: &'a str)
    ensures
        r@ == trim_start_all(s@, p@),
{
    let m = p.unicode_len();
    let mut cur = s;
    if m == 0 {
        return cur;
    }
    while starts_with(cur, p)
        invariant
            m == p@.len(),
            m > 0,
            trim_start_all(cur@, p@) == trim_start_all(s@, p@),
        decreases cur@.len(),
    {
        let n = cur.unicode_len();
        cur = cur.substring_char(m, n);
    }
    cur
}

/// `s` without any trailing repetitions of `p` (`str::trim_end_matches`).
pub fn trim_end_matches<'a>(s: &'a str, p: &str) -> (r: &'a str)
    ensures
        r@ == trim_end_all(s@, p@),
{
    let m = p.unicode_len();
    let mut cur = s;
    if m == 0 {
        return cur;
    }
    while ends_with(cur, p)
        invariant
            m == p@.len(),
            m > 0,
            trim_end_all(cur@, p@) == trim_end_all(s@, p@),
        decreases cur@.len(),
    {
        let n = cur.unicode_len();
        cur = cur.substring_char(0, n - m);
    }
    cur
}

/// The part of `s` after its last `c`, or all of `s` (`str::rsplit(c).next()`).
pub fn after_last_char<'a>(s: &'a str, c: char) -> (r: &'a str)
    ensures
        r@ == after_last(s@, c),
{
    let n = s.unicode_len();
    let mut k: usize = n;
    assert(s@.subrange(0, n as int) =~= s@);
    assert(s@.subrange(n as int, n as int) =~= Seq::<char>::empty());
    while k > 0 && s.get_char(k - 1) != c
        invariant
            n == s@.len(),
            k <= n,
            after_last(s@, c) == after_last(s@.subrange(0, k as int), c) + s@.subrange(k as int, n as int),
        decreases k,
    {
        let ghost pre = s@.subrange(0, k as int);
        assert(pre.drop_last() =~= s@.subrange(0, k - 1));
        assert(s@.subrange(k - 1, n as int) =~= seq![pre.last()] + s@.subrange(k as int, n as int));
        assert(after_last(pre, c) == after_last(pre.drop_last(), c).push(pre.last()));
        assert(after_last(pre.drop_last(), c).push(pre.last()) + s@.subrange(k as int, n as int)
            =~= after_last(pre.drop_last(), c) + s@.subrange(k - 1, n as int));
        k = k - 1;
    }
    if k == 0 {
        assert(s@.subrange(0, 0) =~= Seq::<char>::empty());
        assert(s@.subrange(0, n as int) =~= s@);
    } else {
        let ghost pre = s@.subrange(0, k as int);
        assert(pre.last() == c);
        assert(after_last(pre, c) =~= Seq::<char>::empty());
    }
    s.substring_char(k, n)
}

/// ASCII lower-casing of one character.
pub fn to_ascii_lower(c: char) -> (r: char)
    ensures
        r == ascii_lower(c),
{
    if 'A' <= c && c <= 'Z' {
        let b: u8 = c as u8;
        assert(b as u32 == c as u32);
        (b + 32) as char
    } else {
        c
    }
}

/// Equality up to ASCII case (`str::eq_ignore_ascii_case`).
pub fn eq_ignore_case(a: &str, b: &str) -> (r: bool)
    ensures
        r == eq_ignore_ascii_case(a@, b@),
{
    let n = a.unicode_len();
    if n != b.unicode_len() {
        return false;
    }
    let mut i: usize = 0;
    while i < n
        invariant
            n == a@.len(),
            n == b@.len(),
            i <= n,
            forall|j: int| 0 <= j < i ==> ascii_lower(#[trigger] a@[j]) == ascii_lower(b@[j]),
        decreases n - i,
    {
        if to_ascii_lower(a.get_char(i)) != to_ascii_lower(b.get_char(i)) {
            return false;
        }
        i = i + 1;
    }
    true
}

/// The one-character string for the digit `d`.
fn digit_str(d: u64) -> (r: &'static str)
    requires
        d < 10,
    ensures
        r@ == seq![digit_char(d as nat)],
{
    proof {
        reveal_strlit("0");
        reveal_strlit("1");
        reveal_strlit("2");
        reveal_strlit("3");
        reveal_strlit("4");
        reveal_strlit("5");
        reveal_strlit("6");
        reveal_strlit("7");
        reveal_strlit("8");
        reveal_strlit("9");
    }
    let r = if d == 0 {
        "0"
    } else if d == 1 {
        "1"
    } else if d == 2 {
        "2"
    } else if d == 3 {
        "3"
    } else if d == 4 {
        "4"
    } else if d == 5 {
        "5"
    } else if d == 6 {
        "6"
    } else if d == 7 {
        "7"
    } else if d == 8 {
        "8"
    } else {
        "9"
    };
    assert(r@ =~= seq![digit_char(d as nat)]);
    r
}

/// The decimal spelling of `n` (`n.to_string()`).
pub fn decimal_string(n: u64) -> (r: String)
    ensures
        r@ == decimal(n as nat),
    decreases n,
{
    if n < 10 {
        String::from_str(digit_str(n))
    } else {
        let mut s = decimal_string(n / 10);
        s.append(digit_str(n % 10));
        s
    }
}

/// `s.parse::<usize>().ok()`.
pub fn parse_usize_str(s: &str) -> (r: Option<usize>)
    ensures
        r == parse_usize(s@),
{
    let n = s.unicode_len();
    let start: usize = if n > 0 && s.get_char(0) == '+' { 1 } else { 0 };
    let ghost digits = if s@.len() > 0 && s@[0] == '+' { s@.drop_first() } else { s@ };
    assert(digits =~= s@.subrange(start as int, n as int));
    if start == n {
        return None;
    }
    let mut acc: usize = 0;
    let mut i: usize = start;
    while i < n
        invariant
            n == s@.len(),
            start <= i <= n,
            start < n,
            digits == s@.subrange(start as int, n as int),
            digits == (if s@.len() > 0 && s@[0] == '+' { s@.drop_first() } else { s@ }),
            forall|j: int| start <= j < i ==> is_digit(#[trigger] s@[j]),
            acc == digits_value(s@.subrange(start as int, i as int)),
        decreases n - i,
    {
        let c = s.get_char(i);
        if !('0' <= c && c <= '9') {
            assert(digits[i - start] == c);
            assert(!is_digit(digits[i - start]));
            assert(!all_digits(digits));
            return None;
        }
        let d: usize = ((c as u32) - ('0' as u32)) as usize;
        let ghost pre = s@.subrange(start as int, i + 1);
        assert(pre.drop_last() =~= s@.subrange(start as int, i as int));
        assert(pre.last() == c);
        if acc > (usize::MAX - d) / 10 {
            // The value of the digits read so far already exceeds usize::MAX,
            // and reading more digits can only make it larger.
            let mut k: usize = i + 1;
            while k < n
                invariant
                    n == s@.len(),
                    digits == s@.subrange(start as int, n as int),
                    digits == (if s@.len() > 0 && s@[0] == '+' { s@.drop_first() } else { s@ }),
                    start < i + 1 <= k <= n,
                    forall|j: int| start <= j < k ==> is_digit(#[trigger] s@[j]),
                decreases n - k,
            {
                let ck = s.get_char(k);
                if !('0' <= ck && ck <= '9') {
                    assert(digits[k - start] == ck);
                    assert(!is_digit(digits[k - start]));
                    assert(!all_digits(digits));
                    return None;
                }
                k = k + 1;
            }
            proof {
                assert(acc * 10 + d > usize::MAX);
                assert(digits_value(pre) == acc * 10 + d);
                assert forall|j: int| 0 <= j < digits.len() implies is_digit(#[trigger] digits[j]) by {
                    assert(digits[j] == s@[start + j]);
                }
                assert(all_digits(digits));
                lemma_digits_value_grows(digits, (i + 1 - start) as int);
                assert(digits.subrange(0, (i + 1 - start) as int) =~= pre);
            }
            return None;
        }
        acc = acc * 10 + d;
        i = i + 1;
    }
    assert(s@.subrange(start as int, n as int) =~= digits);
    Some(acc)
}

} // verus!
