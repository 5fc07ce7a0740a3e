//! Verified reading of the plain-text fragments the external tools print:
//! whitespace trimming, prefixes, searching, and decimal numbers.

use vstd::prelude::*;

verus! {

/// Unicode `White_Space`, as `char::is_whitespace` and `str::trim` use it.
pub open spec fn is_ws(c: char) -> bool {
    ('\u{9}' <= c && c <= '\u{d}') || c == ' ' || c == '\u{85}' || c == '\u{a0}' || c
        == '\u{1680}' || ('\u{2000}' <= c && c <= '\u{200a}') || c == '\u{2028}' || c == '\u{2029}'
        || c == '\u{202f}' || c == '\u{205f}' || c == '\u{3000}'
}

pub fn is_whitespace(c: char) -> (b: bool)
    ensures
        b == is_ws(c),
{
    ('\u{9}' <= c && c <= '\u{d}') || c == ' ' || c == '\u{85}' || c == '\u{a0}' || c
        == '\u{1680}' || ('\u{2000}' <= c && c <= '\u{200a}') || c == '\u{2028}' || c == '\u{2029}'
        || c == '\u{202f}' || c == '\u{205f}' || c == '\u{3000}'
}

/// Number of whitespace characters at the start.
pub open spec fn leading_ws(s: Seq<char>) -> nat
    decreases s.len(),
{
    if s.len() == 0 {
        0
    } else if is_ws(s[0]) {
        1 + leading_ws(s.drop_first())
    } else {
        0
    }
}

/// Number of whitespace characters at the end.
pub open spec fn trailing_ws(s: Seq<char>) -> nat
    decreases s.len(),
{
    if s.len() == 0 {
        0
    } else if is_ws(s.last()) {
        1 + trailing_ws(s.drop_last())
    } else {
        0
    }
}

/// The string without leading and trailing whitespace.
pub open spec fn trim(s: Seq<char>) -> Seq<char> {
    let a = leading_ws(s);
    if a >= s.len() {
        Seq::empty()
    } else {
        s.subrange(a as int, s.len() - trailing_ws(s))
    }
}

proof fn lemma_leading_ws(s: Seq<char>, i: int)
    requires
        0 <= i <= s.len(),
        forall|j: int| 0 <= j < i ==> is_ws(#[trigger] s[j]),
        i == s.len() || !is_ws(s[i]),
    ensures
        leading_ws(s) == i,
    decreases s.len(),
{
    if s.len() > 0 && i > 0 {
        assert forall|j: int| 0 <= j < i - 1 implies is_ws(#[trigger] s.drop_first()[j]) by {
            assert(s.drop_first()[j] == s[j + 1]);
        }
        if i < s.len() {
            assert(s.drop_first()[i - 1] == s[i]);
        }
        lemma_leading_ws(s.drop_first(), i - 1);
    }
}

proof fn lemma_trailing_ws(s: Seq<char>, k: int)
    requires
        0 <= k <= s.len(),
        forall|j: int| k <= j < s.len() ==> is_ws(#[trigger] s[j]),
        k == 0 || !is_ws(s[k - 1]),
    ensures
        trailing_ws(s) == s.len() - k,
    decreases s.len(),
{
    if s.len() > 0 && k < s.len() {
        assert forall|j: int| k <= j < s.len() - 1 implies is_ws(#[trigger] s.drop_last()[j]) by {
            assert(s.drop_last()[j] == s[j]);
        }
        if k > 0 {
            assert(s.drop_last()[k - 1] == s[k - 1]);
        }
        lemma_trailing_ws(s.drop_last(), k);
    }
}

/// `s` without leading and trailing whitespace, as `str::trim` gives it.
pub fn trim_str(s: &str) -> (r: &str)
    ensures
        r@ == trim(s@),
{
    let n = s.unicode_len();
    let mut a: usize = 0;
    while a < n && is_whitespace(s.get_char(a))
        invariant
            n == s@.len(),
            a <= n,
            forall|j: int| 0 <= j < a ==> is_ws(#[trigger] s@[j]),
        decreases n - a,
    {
        a = a + 1;
    }
    proof {
        lemma_leading_ws(s@, a as int);
    }
    if a == n {
        let r = s.substring_char(0, 0);
        assert(r@ =~= Seq::<char>::empty());
        return r;
    }
    let mut b: usize = n;
    while b > a && is_whitespace(s.get_char(b - 1))
        invariant
            n == s@.len(),
            a < n,
            !is_ws(s@[a as int]),
            a <= b <= n,
            forall|j: int| b <= j < n ==> is_ws(#[trigger] s@[j]),
        decreases b,
    {
        b = b - 1;
    }
    proof {
        lemma_trailing_ws(s@, b as int);
    }
    s.substring_char(a, b)
}

/// Whether `s` begins with `p`.
pub open spec fn starts_with(s: Seq<char>, p: Seq<char>) -> bool {
    p.len() <= s.len() && s.subrange(0, p.len() as int) == p
}

/// `s` without the prefix `p`, if it begins with it.
pub fn strip_prefix<'a>(s: &'a str, p: &str) -> (r: Option<&'a str>)
    ensures
        match r {
            Some(rest) => starts_with(s@, p@) && rest@ == s@.subrange(p@.len() as int, s@.len() as int),
            None => !starts_with(s@, p@),
        },
{
    let n = s.unicode_len();
    let m = p.unicode_len();
    if m > n {
        return None;
    }
    let mut i: usize = 0;
    while i < m
        invariant
            n == s@.len(),
            m == p@.len(),
            m <= n,
            i <= m,
            forall|j: int| 0 <= j < i ==> s@[j] == p@[j],
        decreases m - i,
    {
        if s.get_char(i) != p.get_char(i) {
            proof {
                assert(s@.subrange(0, m as int)[i as int] != p@[i as int]);
            }
            return None;
        }
        i = i + 1;
    }
    assert(s@.subrange(0, m as int) =~= p@);
    Some(s.substring_char(m, n))
}

/// Whether `c` occurs in `s`.
pub open spec fn has_char(s: Seq<char>, c: char) -> bool {
    exists|i: int| 0 <= i < s.len() && s[i] == c
}

/// Whether `sub` occurs in `s` as a contiguous piece.
pub open spec fn contains_seq(s: Seq<char>, sub: Seq<char>) -> bool {
    exists|i: int| 0 <= i <= s.len() - sub.len() && #[trigger] s.subrange(i, i + sub.len()) == sub
}

/// Whether `sub` occurs in `s`.
pub fn contains_str(s: &str, sub: &str) -> (b: bool)
    ensures
        b == contains_seq(s@, sub@),
{
    let n = s.unicode_len();
    let m = sub.unicode_len();
    if m > n {
        proof {
            if contains_seq(s@, sub@) {
                let i = choose|i: int| 0 <= i <= s@.len() - sub@.len() && #[trigger] s@.subrange(i, i + sub@.len()) == sub@;
            }
        }
        return false;
    }
    let mut i: usize = 0;
    while i <= n - m
        invariant
            n == s@.len(),
            m == sub@.len(),
            m <= n,
            i <= n - m + 1,
            forall|k: int| 0 <= k < i ==> #[trigger] s@.subrange(k, k + m) != sub@,
        decreases n - m + 1 - i,
    {
        let mut j: usize = 0;
        while j < m && s.get_char(i + j) == sub.get_char(j)
            invariant
                n == s@.len(),
                m == sub@.len(),
                i + m <= n,
                j <= m,
                forall|k: int| 0 <= k < j ==> s@[i + k] == sub@[k],
            decreases m - j,
        {
            j = j + 1;
        }
        if j == m {
            assert(s@.subrange(i as int, i + m) =~= sub@);
            return true;
        }
        assert(s@.subrange(i as int, i + m)[j as int] != sub@[j as int]);
        i = i + 1;
    }
    false
}

/// Position of the last `c` in `s`.
pub open spec fn last_index_of(s: Seq<char>, c: char) -> Option<int> {
    if has_char(s, c) {
        Some(choose|i: int| 0 <= i < s.len() && s[i] == c && forall|j: int| i < j < s.len() ==> s[j] != c)
    } else {
        None
    }
}

/// Position of the last `c` in `s` (in characters).
pub fn rfind_char(s: &str, c: char) -> (r: Option<usize>)
    ensures
        match r {
            Some(i) => last_index_of(s@, c) == Some(i as int),
            None => last_index_of(s@, c) is None,
        },
{
    let n = s.unicode_len();
    let mut k: usize = n;
    while k > 0
        invariant
            n == s@.len(),
            k <= n,
            forall|j: int| k <= j < n ==> s@[j] != c,
        decreases k,
    {
        if s.get_char(k - 1) == c {
            proof {
                let i = (k - 1) as int;
                let w = choose|w: int| 0 <= w < s@.len() && s@[w] == c && forall|j: int| w < j < s@.len() ==> s@[j] != c;
                if w < i {
                    assert(s@[i] == c);
                }
                if w > i {
                    assert(s@[w] != c);
                }
            }
            return Some(k - 1);
        }
        k = k - 1;
    }
    proof {
        false_has_char(s@, c);
    }
    None
}

proof fn false_has_char(s: Seq<char>, c: char)
    requires
        forall|j: int| 0 <= j < s.len() ==> s[j] != c,
    ensures
        !has_char(s, c),
{
}

pub open spec fn is_digit(c: char) -> bool {
    '0' <= c && c <= '9'
}

pub open spec fn all_digits(s: Seq<char>) -> bool {
    forall|i: int| 0 <= i < s.len() ==> is_digit(#[trigger] s[i])
}

/// The number a string of decimal digits denotes.
pub open spec fn digits_value(s: Seq<char>) -> nat
    decreases s.len(),
{
    if s.len() == 0 {
        0
    } else {
        digits_value(s.drop_last()) * 10 + ((s.last() as int) - 48) as nat
    }
}

/// `s` without one leading `+`.
pub open spec fn unsigned_body(s: Seq<char>) -> Seq<char> {
    if s.len() > 0 && s[0] == '+' {
        s.drop_first()
    } else {
        s
    }
}

/// How `u64::from_str` reads `s`: an optional `+` then at least one decimal
/// digit, with a value that fits.
pub open spec fn spec_parse_u64(s: Seq<char>) -> Option<u64> {
    let d = unsigned_body(s);
    if d.len() > 0 && all_digits(d) && digits_value(d) <= u64::MAX {
        Some(digits_value(d) as u64)
    } else {
        None
    }
}

proof fn lemma_digits_value_step(s: Seq<char>, i: int)
    requires
        0 <= i < s.len(),
        is_digit(s[i]),
    ensures
        digits_value(s.subrange(0, i + 1)) == digits_value(s.subrange(0, i)) * 10 + ((s[i] as int)
            - 48),
{
    assert(s.subrange(0, i + 1).drop_last() =~= s.subrange(0, i));
}

proof fn lemma_digits_value_mono(s: Seq<char>, i: int)
    requires
        0 <= i <= s.len(),
        all_digits(s),
    ensures
        digits_value(s.subrange(0, i)) <= digits_value(s),
    decreases s.len() - i,
{
    if i < s.len() {
        lemma_digits_value_mono(s, i + 1);
        assert(is_digit(s[i]));
        lemma_digits_value_step(s, i);
    } else {
        assert(s.subrange(0, i) =~= s);
    }
}

/// Value of the decimal digits `d`, or `None` when they are not all digits
/// or the value exceeds `u64`.
fn digits_to_u64(d: &str) -> (r: Option<u64>)
    ensures
        match r {
            Some(v) => all_digits(d@) && digits_value(d@) == v,
            None => !all_digits(d@) || digits_value(d@) > u64::MAX,
        },
{
    let n = d.unicode_len();
    let mut v: u64 = 0;
    let mut i: usize = 0;
    while i < n
        invariant
            n == d@.len(),
            i <= n,
            all_digits(d@.subrange(0, i as int)),
            v == digits_value(d@.subrange(0, i as int)),
        decreases n - i,
    {
        let c = d.get_char(i);
        if c < '0' || c > '9' {
            assert(!is_digit(d@[i as int]));
            return None;
        }
        proof {
            lemma_digits_value_step(d@, i as int);
            assert(all_digits(d@.subrange(0, i + 1)));
        }
        let digit = (c as u32 - 48) as u64;
        match v.checked_mul(10) {
            Some(w) => match w.checked_add(digit) {
                Some(x) => {
                    v = x;
                },
                None => {
                    proof {
                        lemma_all_digits_or_not(d@);
                        if all_digits(d@) {
                            lemma_digits_value_mono(d@, i + 1);
                        }
                    }
                    return None;
                },
            },
            None => {
                proof {
                    lemma_all_digits_or_not(d@);
                    if all_digits(d@) {
                        lemma_digits_value_mono(d@, i + 1);
                    }
                }
                return None;
            },
        }
        i = i + 1;
    }
    assert(d@.subrange(0, i as int) =~= d@);
    Some(v)
}

proof fn lemma_all_digits_or_not(s: Seq<char>)
    ensures
        all_digits(s) || !all_digits(s),
{
}

/// Reads a `u64` the way `str::parse::<u64>` does.
pub fn parse_u64(s: &str) -> (r: Option<u64>)
    ensures
        r == spec_parse_u64(s@),
{
    let n = s.unicode_len();
    let body = if n > 0 && s.get_char(0) == '+' {
        s.substring_char(1, n)
    } else {
        s.substring_char(0, n)
    };
    proof {
        if n > 0 && s@[0] == '+' {
            assert(body@ =~= s@.drop_first());
        } else {
            assert(body@ =~= s@);
        }
    }
    if body.unicode_len() == 0 {
        return None;
    }
    digits_to_u64(body)
}

/// Index of the first `c` in `s`, if any.
pub open spec fn first_index_of(s: Seq<char>, c: char) -> Option<int> {
    if has_char(s, c) {
        Some(choose|i: int| 0 <= i < s.len() && s[i] == c && forall|j: int| 0 <= j < i ==> s[j] != c)
    } else {
        None
    }
}

/// Some position of `c` at or after `from` has no `c` between `from` and itself.
proof fn lemma_earliest_from(s: Seq<char>, c: char, from: int, w: int) -> (k: int)
    requires
        0 <= from <= w < s.len(),
        s[w] == c,
        forall|j: int| 0 <= j < from ==> s[j] != c,
    ensures
        0 <= k < s.len() && s[k] == c && forall|j: int| 0 <= j < k ==> s[j] != c,
    decreases w - from,
{
    if s[from] == c {
        from
    } else {
        lemma_earliest_from(s, c, from + 1, w)
    }
}

/// Some position of `c` at or before `upto` has no `c` after it.
proof fn lemma_latest_upto(s: Seq<char>, c: char, upto: int, w: int) -> (k: int)
    requires
        0 <= w <= upto < s.len(),
        s[w] == c,
        forall|j: int| upto < j < s.len() ==> s[j] != c,
    ensures
        0 <= k < s.len() && s[k] == c && forall|j: int| k < j < s.len() ==> s[j] != c,
    decreases upto - w,
{
    if s[upto] == c {
        upto
    } else {
        lemma_latest_upto(s, c, upto - 1, w)
    }
}

/// The first position of `c` is a position of `c`, and no earlier one is.
pub proof fn lemma_first_index_of(s: Seq<char>, c: char)
    ensures
        match first_index_of(s, c) {
            Some(k) => 0 <= k < s.len() && s[k] == c && forall|j: int| 0 <= j < k ==> s[j] != c,
            None => forall|j: int| 0 <= j < s.len() ==> s[j] != c,
        },
{
    if has_char(s, c) {
        let w = choose|i: int| 0 <= i < s.len() && s[i] == c;
        let k = lemma_earliest_from(s, c, 0, w);
        assert(0 <= k < s.len() && s[k] == c && forall|j: int| 0 <= j < k ==> s[j] != c);
    }
}

/// The last position of `c` is a position of `c`, and no later one is.
pub proof fn lemma_last_index_of(s: Seq<char>, c: char)
    ensures
        match last_index_of(s, c) {
            Some(k) => 0 <= k < s.len() && s[k] == c && forall|j: int| k < j < s.len() ==> s[j] != c,
            None => forall|j: int| 0 <= j < s.len() ==> s[j] != c,
        },
{
    if has_char(s, c) {
        let w = choose|i: int| 0 <= i < s.len() && s[i] == c;
        let k = lemma_latest_upto(s, c, s.len() - 1, w);
        assert(0 <= k < s.len() && s[k] == c && forall|j: int| k < j < s.len() ==> s[j] != c);
    }
}

/// Position of the first `c` in `s` (in characters).
pub fn find_char(s: &str, c: char) -> (r: Option<usize>)
    ensures
        match r {
            Some(i) => first_index_of(s@, c) == Some(i as int),
            None => first_index_of(s@, c) is None,
        },
        r matches Some(i) ==> i < s@.len() && s@[i as int] == c,
{
    let n = s.unicode_len();
    let mut k: usize = 0;
    while k < n
        invariant
            n == s@.len(),
            k <= n,
            forall|j: int| 0 <= j < k ==> s@[j] != c,
        decreases n - k,
    {
        if s.get_char(k) == c {
            proof {
                let i = k as int;
                let w = choose|w: int| 0 <= w < s@.len() && s@[w] == c && forall|j: int| 0 <= j < w ==> s@[j] != c;
                if w < i {
                    assert(s@[w] != c);
                }
                if w > i {
                    assert(s@[i] != c);
                }
            }
            return Some(k);
        }
        k = k + 1;
    }
    proof {
        false_has_char(s@, c);
    }
    None
}

/// Thousandths from the first three fraction digits, missing digits read as zero.
pub open spec fn frac_thousandths(f: Seq<char>) -> nat {
    if f.len() >= 3 {
        digits_value(f.subrange(0, 3))
    } else if f.len() == 2 {
        digits_value(f) * 10
    } else if f.len() == 1 {
        digits_value(f) * 100
    } else {
        0
    }
}

/// Reads a plain decimal number (`[+]digits[.digits]`, at least one digit)
/// as a count of thousandths, dropping digits after the third decimal place;
/// `None` for anything else or a value beyond `u64`.
pub open spec fn spec_parse_thousandths(s: Seq<char>) -> Option<u64> {
    let b = unsigned_body(s);
    let (int_part, frac) = match first_index_of(b, '.') {
        Some(k) => (b.subrange(0, k), b.subrange(k + 1, b.len() as int)),
        None => (b, Seq::<char>::empty()),
    };
    let v = digits_value(int_part) * 1000 + frac_thousandths(frac);
    if int_part.len() + frac.len() > 0 && all_digits(int_part) && all_digits(frac) && v <= u64::MAX {
        Some(v as u64)
    } else {
        None
    }
}

/// Thousandths from the fraction digits `f`, or `None` if they are not all digits.
fn frac_to_thousandths(f: &str) -> (r: Option<u64>)
    ensures
        match r {
            Some(v) => all_digits(f@) && v == frac_thousandths(f@),
            None => !all_digits(f@),
        },
{
    let fl = f.unicode_len();
    if !is_all_digits(f) {
        return None;
    }
    let head = if fl >= 3 {
        f.substring_char(0, 3)
    } else {
        f
    };
    proof {
        assert forall|i: int| 0 <= i < head@.len() implies is_digit(#[trigger] head@[i]) by {
            assert(head@[i] == f@[i]);
        }
        lemma_small_digits(head@);
    }
    let h = match digits_to_u64(head) {
        Some(h) => h,
        None => return None,
    };
    if fl >= 3 {
        assert(head@ =~= f@.subrange(0, 3));
        Some(h)
    } else if fl == 2 {
        Some(h * 10)
    } else if fl == 1 {
        Some(h * 100)
    } else {
        Some(0)
    }
}

/// Whether every character of `s` is a decimal digit.
fn is_all_digits(s: &str) -> (b: bool)
    ensures
        b == all_digits(s@),
{
    let n = s.unicode_len();
    let mut i: usize = 0;
    while i < n
        invariant
            n == s@.len(),
            i <= n,
            forall|j: int| 0 <= j < i ==> is_digit(#[trigger] s@[j]),
        decreases n - i,
    {
        let c = s.get_char(i);
        if c < '0' || c > '9' {
            assert(!is_digit(s@[i as int]));
            return false;
        }
        i = i + 1;
    }
    true
}

/// Reads a plain decimal number as thousandths (see [`spec_parse_thousandths`]).
pub fn parse_thousandths(s: &str) -> (r: Option<u64>)
    ensures
        r == spec_parse_thousandths(s@),
{
    let n = s.unicode_len();
    let b = if n > 0 && s.get_char(0) == '+' {
        s.substring_char(1, n)
    } else {
        s.substring_char(0, n)
    };
    proof {
        if n > 0 && s@[0] == '+' {
            assert(b@ =~= s@.drop_first());
        } else {
            assert(b@ =~= s@);
        }
    }
    let bn = b.unicode_len();
    let (int_part, frac) = match find_char(b, '.') {
        Some(k) => (b.substring_char(0, k), b.substring_char(k + 1, bn)),
        None => (b, b.substring_char(bn, bn)),
    };
    proof {
        if first_index_of(b@, '.') is None {
            assert(frac@ =~= Seq::<char>::empty());
        }
    }
    if int_part.unicode_len() + frac.unicode_len() == 0 {
        return None;
    }
    let whole = match digits_to_u64(int_part) {
        Some(w) => w,
        None => return None,
    };
    let f = match frac_to_thousandths(frac) {
        Some(f) => f,
        None => return None,
    };
    match whole.checked_mul(1000) {
        Some(w) => w.checked_add(f),
        None => None,
    }
}

/// Up to three digits make a value below a thousand.
proof fn lemma_small_digits(s: Seq<char>)
    requires
        s.len() <= 3,
        all_digits(s),
    ensures
        digits_value(s) < 1000,
        s.len() <= 2 ==> digits_value(s) < 100,
        s.len() <= 1 ==> digits_value(s) < 10,
    decreases s.len(),
{
    if s.len() > 0 {
        assert forall|i: int| 0 <= i < s.drop_last().len() implies is_digit(#[trigger] s.drop_last()[i]) by {
            assert(s.drop_last()[i] == s[i]);
        }
        lemma_small_digits(s.drop_last());
        assert(is_digit(s[s.len() - 1]));
    }
}

} // verus!
