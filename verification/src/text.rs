//! Small verified building blocks for the text the library produces:
//! decimal numbers, zero padding, fixed-point fractions and string equality.

use vstd::prelude::*;

verus! {

/// The character of a decimal digit.
pub open spec fn digit_char(d: nat) -> char {
    (48 + d) as char
}

/// Decimal notation of a natural number, without sign or leading zeros.
pub open spec fn decimal(n: nat) -> Seq<char>
    decreases n,
{
    if n < 10 {
        seq![digit_char(n)]
    } else {
        decimal(n / 10) + seq![digit_char(n % 10)]
    }
}

/// Decimal notation padded on the left with zeros to at least `width` characters.
pub open spec fn padded_decimal(n: nat, width: nat) -> Seq<char> {
    let d = decimal(n);
    if d.len() >= width {
        d
    } else {
        Seq::new((width - d.len()) as nat, |i: int| '0') + d
    }
}

/// Decimal notation of a value kept in thousandths, with exactly three
/// fraction digits (`6700000` is "6700.000").
pub open spec fn fixed3(thousandths: nat) -> Seq<char> {
    decimal(thousandths / 1000) + seq!['.'] + padded_decimal(thousandths % 1000, 3)
}

/// Decimal notation of a value kept in tenths, with one fraction digit.
pub open spec fn fixed1(tenths: nat) -> Seq<char> {
    decimal(tenths / 10) + seq!['.'] + decimal(tenths % 10)
}

/// Decimal notation of a value kept in hundredths, with two fraction digits.
pub open spec fn fixed2(hundredths: nat) -> Seq<char> {
    decimal(hundredths / 100) + seq!['.'] + padded_decimal(hundredths % 100, 2)
}

/// Shortest notation of a value kept in thousandths: the whole part, then a
/// point and the fraction digits without trailing zeros if the fraction is
/// not zero (`6700000` is "6700", `120500` is "120.5").
pub open spec fn shortest_thousandths(thousandths: nat) -> Seq<char> {
    let whole = decimal(thousandths / 1000);
    let frac = thousandths % 1000;
    if frac == 0 {
        whole
    } else if frac % 100 == 0 {
        whole + seq!['.'] + decimal(frac / 100)
    } else if frac % 10 == 0 {
        whole + seq!['.'] + padded_decimal(frac / 10, 2)
    } else {
        whole + seq!['.'] + padded_decimal(frac, 3)
    }
}

pub proof fn lemma_decimal_nonempty(n: nat)
    ensures
        decimal(n).len() >= 1,
    decreases n,
{
    if n >= 10 {
        lemma_decimal_nonempty(n / 10);
    }
}

fn digit_str(d: u64) -> (s: &'static str)
    requires
        d < 10,
    ensures
        s@ == seq![digit_char(d as nat)],
{
    proof {
        reveal_strlit("0");
        reveal_strlit("1");
        reveal_strlit("2");
        reveal_strlit("3");
        reveal_strlit("4");
        reveal_strlit("5");
        reveal_strlit("6");
        reveal_strlit("7");
        reveal_strlit("8");
        reveal_strlit("9");
    }
    let s = match d {
        0 => "0",
        1 => "1",
        2 => "2",
        3 => "3",
        4 => "4",
        5 => "5",
        6 => "6",
        7 => "7",
        8 => "8",
        _ => "9",
    };
    assert(s@ =~= seq![digit_char(d as nat)]);
    s
}

/// Decimal notation of `n`.
pub fn u128_to_string(n: u128) -> (s: String)
    ensures
        s@ == decimal(n as nat),
    decreases n,
{
    if n < 10 {
        String::from_str(digit_str(n as u64))
    } else {
        let mut s = u128_to_string(n / 10);
        s.append(digit_str((n % 10) as u64));
        s
    }
}

/// Decimal notation of `n`.
pub fn u64_to_string(n: u64) -> (s: String)
    ensures
        s@ == decimal(n as nat),
{
    u128_to_string(n as u128)
}

/// Decimal notation of `n`, padded with zeros to at least `width` characters.
pub fn padded_to_string(n: u64, width: usize) -> (s: String)
    ensures
        s@ == padded_decimal(n as nat, width as nat),
{
    let digits = u64_to_string(n);
    let len = digits.as_str().unicode_len();
    if len >= width {
        digits
    } else {
        let mut s = String::new();
        let mut i: usize = 0;
        proof {
            reveal_strlit("0");
        }
        while i < width - len
            invariant
                len == decimal(n as nat).len(),
                len < width,
                i <= width - len,
                s@ =~= Seq::new(i as nat, |j: int| '0'),
            decreases width - len - i,
        {
            proof {
                reveal_strlit("0");
            }
            s.append("0");
            i = i + 1;
        }
        s.append(digits.as_str());
        assert(s@ =~= padded_decimal(n as nat, width as nat));
        s
    }
}

/// `thousandths / 1000` with exactly three fraction digits.
pub fn fixed3_to_string(thousandths: u64) -> (s: String)
    ensures
        s@ == fixed3(thousandths as nat),
{
    let mut s = u64_to_string(thousandths / 1000);
    s.append(".");
    let frac = padded_to_string(thousandths % 1000, 3);
    s.append(frac.as_str());
    proof {
        reveal_strlit(".");
    }
    assert(s@ =~= fixed3(thousandths as nat));
    s
}

/// `tenths / 10` with one fraction digit.
pub fn fixed1_to_string(tenths: u64) -> (s: String)
    ensures
        s@ == fixed1(tenths as nat),
{
    let mut s = u64_to_string(tenths / 10);
    s.append(".");
    let frac = u64_to_string(tenths % 10);
    s.append(frac.as_str());
    proof {
        reveal_strlit(".");
    }
    assert(s@ =~= fixed1(tenths as nat));
    s
}

/// `hundredths / 100` with two fraction digits.
pub fn fixed2_to_string(hundredths: u64) -> (s: String)
    ensures
        s@ == fixed2(hundredths as nat),
{
    let mut s = u64_to_string(hundredths / 100);
    s.append(".");
    let frac = padded_to_string(hundredths % 100, 2);
    s.append(frac.as_str());
    proof {
        reveal_strlit(".");
    }
    assert(s@ =~= fixed2(hundredths as nat));
    s
}

/// Shortest notation of `thousandths / 1000` (see [`shortest_thousandths`]).
pub fn shortest_thousandths_to_string(thousandths: u64) -> (s: String)
    ensures
        s@ == shortest_thousandths(thousandths as nat),
{
    let mut s = u64_to_string(thousandths / 1000);
    let frac = thousandths % 1000;
    proof {
        reveal_strlit(".");
    }
    if frac != 0 {
        s.append(".");
        let digits = if frac % 100 == 0 {
            u64_to_string(frac / 100)
        } else if frac % 10 == 0 {
            padded_to_string(frac / 10, 2)
        } else {
            padded_to_string(frac, 3)
        };
        s.append(digits.as_str());
    }
    assert(s@ =~= shortest_thousandths(thousandths as nat));
    s
}

/// A fresh `String` holding `s`.
pub fn owned(s: &str) -> (r: String)
    ensures
        r@ == s@,
{
    String::from_str(s)
}

/// `a` followed by `b`.
pub fn join2(a: &str, b: &str) -> (r: String)
    ensures
        r@ == a@ + b@,
{
    let mut r = String::from_str(a);
    r.append(b);
    r
}

/// `a`, `b` and `c` one after the other.
pub fn join3(a: &str, b: &str, c: &str) -> (r: String)
    ensures
        r@ == a@ + b@ + c@,
{
    let mut r = String::from_str(a);
    r.append(b);
    r.append(c);
    r
}

/// Whether two strings hold the same characters.
pub fn str_eq(a: &str, b: &str) -> (r: bool)
    ensures
        r == (a@ == b@),
{
    let x = String::from_str(a);
    let y = String::from_str(b);
    x == y
}

/// The characters of a sequence of strings.
pub open spec fn views(v: Seq<String>) -> Seq<Seq<char>> {
    v.map_values(|s: String| s@)
}

} // verus!

verus! {

/// Upper-case form of a string as the standard library computes it
/// (full Unicode case mapping).
pub uninterp spec fn uppercase(s: Seq<char>) -> Seq<char>;

/// Calls `str::to_uppercase`; the result is the Unicode upper-case form of
/// `s`, which is a function of `s` alone and is named [`uppercase`].
#[verifier::external_body]
pub(crate) fn to_uppercase(s: &str) -> (r: String)
    ensures
        r@ == uppercase(s@),
{
    s.to_uppercase()
}

} // verus!

verus! {

/// `a` sorts before `b` in lexicographic order of characters (the order of
/// `str`'s `Ord`, since UTF-8 preserves the order of code points): at the
/// first position where they differ `a` has the smaller character, or `a`
/// is a proper prefix of `b`.
pub open spec fn seq_less(a: Seq<char>, b: Seq<char>) -> bool {
    exists|k: int|
        #![trigger a.subrange(0, k), b.subrange(0, k)]
        0 <= k <= a.len() && k <= b.len() && a.subrange(0, k) == b.subrange(0, k) && ((k == a.len()
            && k < b.len()) || (k < a.len() && k < b.len() && (a[k] as int) < (b[k] as int)))
}

/// Two different strings are ordered one way or the other, and never both ways.
pub proof fn lemma_seq_less_total(a: Seq<char>, b: Seq<char>)
    ensures
        a != b ==> (seq_less(a, b) || seq_less(b, a)),
        !(seq_less(a, b) && seq_less(b, a)),
        !seq_less(a, a),
    decreases a.len(),
{
    if seq_less(a, b) && seq_less(b, a) {
        let k = choose|k: int|
            #![trigger a.subrange(0, k), b.subrange(0, k)]
            0 <= k <= a.len() && k <= b.len() && a.subrange(0, k) == b.subrange(0, k) && ((k
                == a.len() && k < b.len()) || (k < a.len() && k < b.len() && (a[k] as int) < (b[k] as int)));
        let l = choose|l: int|
            #![trigger b.subrange(0, l), a.subrange(0, l)]
            0 <= l <= b.len() && l <= a.len() && b.subrange(0, l) == a.subrange(0, l) && ((l
                == b.len() && l < a.len()) || (l < b.len() && l < a.len() && (b[l] as int) < (a[l] as int)));
        if k < l {
            assert(b.subrange(0, l)[k] == a.subrange(0, l)[k]);
        } else if l < k {
            assert(a.subrange(0, k)[l] == b.subrange(0, k)[l]);
        }
    }
    if seq_less(a, a) {
        let k = choose|k: int|
            #![trigger a.subrange(0, k), a.subrange(0, k)]
            0 <= k <= a.len() && k <= a.len() && a.subrange(0, k) == a.subrange(0, k) && ((k
                == a.len() && k < a.len()) || (k < a.len() && k < a.len() && (a[k] as int) < (a[k] as int)));
    }
    if a != b {
        if a.len() == 0 {
            assert(a.subrange(0, 0) =~= b.subrange(0, 0));
            assert(b.len() > 0) by {
                if b.len() == 0 {
                    assert(a =~= b);
                }
            }
        } else if b.len() == 0 {
            assert(a.subrange(0, 0) =~= b.subrange(0, 0));
        } else if a[0] != b[0] {
            assert(a.subrange(0, 0) =~= b.subrange(0, 0));
            assert((a[0] as int) != (b[0] as int));
        } else {
            let ta = a.drop_first();
            let tb = b.drop_first();
            assert(ta != tb) by {
                if ta == tb {
                    assert(a =~= seq![a[0]] + ta);
                    assert(b =~= seq![b[0]] + tb);
                }
            }
            lemma_seq_less_total(ta, tb);
            if seq_less(ta, tb) {
                let k = choose|k: int|
                    #![trigger ta.subrange(0, k), tb.subrange(0, k)]
                    0 <= k <= ta.len() && k <= tb.len() && ta.subrange(0, k) == tb.subrange(0, k)
                        && ((k == ta.len() && k < tb.len()) || (k < ta.len() && k < tb.len() && (
                    ta[k] as int) < (tb[k] as int)));
                assert(a.subrange(0, k + 1) =~= seq![a[0]] + ta.subrange(0, k));
                assert(b.subrange(0, k + 1) =~= seq![b[0]] + tb.subrange(0, k));
            } else {
                let k = choose|k: int|
                    #![trigger tb.subrange(0, k), ta.subrange(0, k)]
                    0 <= k <= tb.len() && k <= ta.len() && tb.subrange(0, k) == ta.subrange(0, k)
                        && ((k == tb.len() && k < ta.len()) || (k < tb.len() && k < ta.len() && (
                    tb[k] as int) < (ta[k] as int)));
                assert(a.subrange(0, k + 1) =~= seq![a[0]] + ta.subrange(0, k));
                assert(b.subrange(0, k + 1) =~= seq![b[0]] + tb.subrange(0, k));
            }
        }
    }
}

/// Whether `a` sorts strictly before `b` (see [`seq_less`]).
pub fn str_less(a: &str, b: &str) -> (r: bool)
    ensures
        r == seq_less(a@, b@),
{
    let la = a.unicode_len();
    let lb = b.unicode_len();
    let mut k: usize = 0;
    while k < la && k < lb && a.get_char(k) == b.get_char(k)
        invariant
            la == a@.len(),
            lb == b@.len(),
            k <= la,
            k <= lb,
            a@.subrange(0, k as int) == b@.subrange(0, k as int),
        decreases la - k,
    {
        assert(a@.subrange(0, k + 1) =~= a@.subrange(0, k as int).push(a@[k as int]));
        assert(b@.subrange(0, k + 1) =~= b@.subrange(0, k as int).push(b@[k as int]));
        k = k + 1;
    }
    let r = if k < la && k < lb {
        a.get_char(k) < b.get_char(k)
    } else {
        k == la && k < lb
    };
    proof {
        let ki = k as int;
        if r {
            assert(a@.subrange(0, ki) == b@.subrange(0, ki));
        } else if seq_less(a@, b@) {
            let j = choose|j: int|
                #![trigger a@.subrange(0, j), b@.subrange(0, j)]
                0 <= j <= a@.len() && j <= b@.len() && a@.subrange(0, j) == b@.subrange(0, j) && ((j
                    == a@.len() && j < b@.len()) || (j < a@.len() && j < b@.len() && (a@[j] as int) < (b@[j] as int)));
            if j < ki {
                assert(a@.subrange(0, ki)[j] == b@.subrange(0, ki)[j]);
            } else if j > ki {
                assert(a@.subrange(0, j)[ki] == b@.subrange(0, j)[ki]);
            }
        }
    }
    r
}

} // verus!

verus! {

/// Lexicographic order is transitive.
pub proof fn lemma_seq_less_transitive(a: Seq<char>, b: Seq<char>, c: Seq<char>)
    requires
        seq_less(a, b),
        seq_less(b, c),
    ensures
        seq_less(a, c),
{
    let k = choose|k: int|
        #![trigger a.subrange(0, k), b.subrange(0, k)]
        0 <= k <= a.len() && k <= b.len() && a.subrange(0, k) == b.subrange(0, k) && ((k == a.len()
            && k < b.len()) || (k < a.len() && k < b.len() && (a[k] as int) < (b[k] as int)));
    let l = choose|l: int|
        #![trigger b.subrange(0, l), c.subrange(0, l)]
        0 <= l <= b.len() && l <= c.len() && b.subrange(0, l) == c.subrange(0, l) && ((l == b.len()
            && l < c.len()) || (l < b.len() && l < c.len() && (b[l] as int) < (c[l] as int)));
    if k <= l {
        assert(a.subrange(0, k) =~= c.subrange(0, k)) by {
            assert forall|i: int| 0 <= i < k implies a.subrange(0, k)[i] == c.subrange(0, k)[i] by {
                assert(a.subrange(0, k)[i] == b.subrange(0, k)[i]);
                assert(b.subrange(0, l)[i] == c.subrange(0, l)[i]);
            }
        }
        if k < l {
            assert(b.subrange(0, l)[k] == c.subrange(0, l)[k]);
        }
    } else {
        assert(a.subrange(0, l) =~= c.subrange(0, l)) by {
            assert forall|i: int| 0 <= i < l implies a.subrange(0, l)[i] == c.subrange(0, l)[i] by {
                assert(a.subrange(0, k)[i] == b.subrange(0, k)[i]);
                assert(b.subrange(0, l)[i] == c.subrange(0, l)[i]);
            }
        }
        assert(a.subrange(0, k)[l] == b.subrange(0, k)[l]);
    }
}

} // verus!

verus! {

/// The parts one after the other with `sep` between neighbours.
pub open spec fn seq_join(parts: Seq<Seq<char>>, sep: Seq<char>) -> Seq<char>
    decreases parts.len(),
{
    if parts.len() == 0 {
        Seq::empty()
    } else if parts.len() == 1 {
        parts[0]
    } else {
        seq_join(parts.drop_last(), sep) + sep + parts.last()
    }
}

/// Joins strings with a separator.
pub fn join_strings(parts: &Vec<String>, sep: &str) -> (r: String)
    ensures
        r@ == seq_join(views(parts@), sep@),
{
    let mut r = String::new();
    let mut i: usize = 0;
    while i < parts.len()
        invariant
            i <= parts@.len(),
            r@ == seq_join(views(parts@.subrange(0, i as int)), sep@),
        decreases parts@.len() - i,
    {
        let ghost prev = views(parts@.subrange(0, i as int));
        let ghost next = views(parts@.subrange(0, i + 1));
        assert(next.drop_last() =~= prev);
        assert(next.last() == parts@[i as int]@);
        if i != 0 {
            r.append(sep);
        } else {
            assert(prev.len() == 0);
            assert(r@ =~= Seq::<char>::empty());
        }
        r.append(parts[i].as_str());
        i = i + 1;
    }
    assert(parts@.subrange(0, i as int) =~= parts@);
    r
}

/// `views` distributes over concatenation.
pub proof fn lemma_views_append(a: Seq<String>, b: Seq<String>)
    ensures
        views(a + b) == views(a) + views(b),
{
    assert(views(a + b) =~= views(a) + views(b));
}

/// Appends a fresh copy of `s`.
pub fn push_str(v: &mut Vec<String>, s: &str)
    ensures
        views(final(v)@) == views(old(v)@).push(s@),
{
    v.push(String::from_str(s));
    assert(views(v@) =~= views(old(v)@).push(s@));
}

/// Appends a string.
pub fn push_string(v: &mut Vec<String>, s: String)
    ensures
        views(final(v)@) == views(old(v)@).push(s@),
{
    v.push(s);
    assert(views(v@) =~= views(old(v)@).push(s@));
}

/// Moves all of `w` to the end of `v`.
pub fn extend_strings(v: &mut Vec<String>, w: Vec<String>)
    ensures
        views(final(v)@) == views(old(v)@) + views(w@),
{
    let mut w = w;
    let ghost a = v@;
    let ghost b = w@;
    v.append(&mut w);
    proof {
        lemma_views_append(a, b);
    }
}

/// A copy of every string of `v`.
pub fn clone_strings(v: &Vec<String>) -> (r: Vec<String>)
    ensures
        views(r@) == views(v@),
{
    let mut r: Vec<String> = Vec::new();
    let mut i: usize = 0;
    while i < v.len()
        invariant
            i <= v@.len(),
            views(r@) == views(v@.subrange(0, i as int)),
        decreases v@.len() - i,
    {
        let ghost prev = r@;
        r.push(v[i].clone());
        assert(views(r@) =~= views(prev).push(v@[i as int]@));
        assert(views(v@.subrange(0, i + 1)) =~= views(v@.subrange(0, i as int)).push(v@[i as int]@));
        i = i + 1;
    }
    assert(v@.subrange(0, i as int) =~= v@);
    r
}

/// `n / d` rounded to the nearest whole number, an exact half to the even
/// neighbour (the rounding of fixed-precision formatting).
pub open spec fn div_round_even(n: nat, d: nat) -> nat {
    let q = n / d;
    let r = n % d;
    if 2 * r > d {
        q + 1
    } else if 2 * r < d {
        q
    } else if q % 2 == 0 {
        q
    } else {
        q + 1
    }
}

/// `n / d` rounded to the nearest, halves to even (see [`div_round_even`]).
pub fn div_round_even_u64(n: u64, d: u64) -> (r: u64)
    requires
        d > 0,
    ensures
        r == div_round_even(n as nat, d as nat),
{
    let q = n / d;
    let rem = n % d;
    let twice = 2 * (rem as u128);
    let up = if twice > d as u128 {
        true
    } else if twice < d as u128 {
        false
    } else {
        q % 2 == 1
    };
    if up {
        assert(d >= 2 || rem == 0);
        assert(q < 0xffff_ffff_ffff_ffff) by (nonlinear_arith)
            requires
                q == n / d,
                d >= 2,
                n <= 0xffff_ffff_ffff_ffff,
        ;
        q + 1
    } else {
        q
    }
}

} // verus!
