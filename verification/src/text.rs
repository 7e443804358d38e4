//! Character-level string helpers shared by the link, path and menu builders.

use vstd::prelude::*;

verus! {

/// Appends one character to a string (`String::push`).
#[verifier::external_body]
pub(crate) fn push_char(s: &mut String, c: char)
    ensures
        final(s)@ == old(s)@.push(c),
{
    s.push(c);
}

/// The characters of `s`, in order.
pub fn chars_of(s: &str) -> (r: Vec<char>)
    ensures
        r@ == s@,
{
    let mut r: Vec<char> = Vec::new();
    for c in it: s.chars()
        invariant
            r@ == it.seq().take(it.index() as int),
            it.seq() == s@,
    {
        r.push(c);
    }
    r
}

/// Appends every character of `t` to `s`.
pub fn push_str(s: &mut String, t: &str)
    ensures
        final(s)@ == old(s)@ + t@,
{
    let ghost start = s@;
    for c in it: t.chars()
        invariant
            s@ == start + it.seq().take(it.index() as int),
            it.seq() == t@,
    {
        proof {
            assert(it.seq().take(it.index() + 1) == it.seq().take(it.index() as int).push(c));
        }
        push_char(s, c);
    }
    proof {
        assert(t@.take(t@.len() as int) == t@);
    }
}

/// A fresh string holding the characters of `t`.
pub fn owned(t: &str) -> (r: String)
    ensures
        r@ == t@,
{
    let mut s = String::new();
    push_str(&mut s, t);
    s
}

/// The concatenation of `a` and `b`.
pub fn concat(a: &str, b: &str) -> (r: String)
    ensures
        r@ == a@ + b@,
{
    let mut s = owned(a);
    push_str(&mut s, b);
    s
}

/// Whether `a` and `b` hold the same characters.
pub fn str_eq(a: &str, b: &str) -> (r: bool)
    ensures
        r == (a@ == b@),
{
    let x = owned(a);
    let y = owned(b);
    x == y
}

// ---------------------------------------------------------------------------
// Decimal rendering of integers
// ---------------------------------------------------------------------------

/// The character of a decimal digit.
pub open spec fn digit_char(d: int) -> char {
    if d == 0 { '0' }
    else if d == 1 { '1' }
    else if d == 2 { '2' }
    else if d == 3 { '3' }
    else if d == 4 { '4' }
    else if d == 5 { '5' }
    else if d == 6 { '6' }
    else if d == 7 { '7' }
    else if d == 8 { '8' }
    else { '9' }
}

/// Decimal digits of a natural number, most significant first, no leading zeros.
pub open spec fn digits(n: nat) -> Seq<char>
    decreases n,
{
    if n < 10 {
        seq![digit_char(n as int)]
    } else {
        digits(n / 10).push(digit_char((n % 10) as int))
    }
}

/// The decimal rendering of an integer, as `Display` writes it: a leading `-`
/// for negative numbers, then the digits of the magnitude.
pub open spec fn decimal(n: int) -> Seq<char> {
    if n < 0 {
        seq!['-'] + digits((-n) as nat)
    } else {
        digits(n as nat)
    }
}

fn digit(d: u128) -> (c: char)
    requires
        d < 10,
    ensures
        c == digit_char(d as int),
{
    if d == 0 { '0' }
    else if d == 1 { '1' }
    else if d == 2 { '2' }
    else if d == 3 { '3' }
    else if d == 4 { '4' }
    else if d == 5 { '5' }
    else if d == 6 { '6' }
    else if d == 7 { '7' }
    else if d == 8 { '8' }
    else { '9' }
}

fn push_digits(s: &mut String, n: u128)
    ensures
        final(s)@ == old(s)@ + digits(n as nat),
    decreases n,
{
    if n >= 10 {
        push_digits(s, n / 10);
    }
    push_char(s, digit(n % 10));
    proof {
        if n >= 10 {
            assert(digits(n as nat) == digits((n / 10) as nat).push(digit_char((n % 10) as int)));
            assert(s@ == old(s)@ + digits(n as nat));
        }
    }
}

/// Appends the decimal rendering of `n` to `s`.
pub fn push_decimal(s: &mut String, n: i128)
    ensures
        final(s)@ == old(s)@ + decimal(n as int),
{
    if n < 0 {
        push_char(s, '-');
        let m: u128 = ((-(n + 1)) as u128) + 1;
        push_digits(s, m);
        proof {
            assert(s@ == old(s)@ + (seq!['-'] + digits(m as nat)));
        }
    } else {
        push_digits(s, n as u128);
    }
}

/// The decimal rendering of `n` (what `n.to_string()` gives).
pub fn decimal_string(n: i128) -> (r: String)
    ensures
        r@ == decimal(n as int),
{
    let mut s = String::new();
    push_decimal(&mut s, n);
    proof {
        assert(s@ == Seq::<char>::empty() + decimal(n as int));
    }
    s
}

proof fn lemma_digits_shape(n: nat)
    ensures
        digits(n).len() >= 1,
        n >= 10 ==> digits(n).len() >= 2,
        forall|i: int| 0 <= i < digits(n).len() ==> '0' <= #[trigger] digits(n)[i] <= '9',
    decreases n,
{
    if n >= 10 {
        lemma_digits_shape(n / 10);
    }
}

proof fn lemma_digits_injective(a: nat, b: nat)
    requires
        digits(a) == digits(b),
    ensures
        a == b,
    decreases a,
{
    lemma_digits_shape(a);
    lemma_digits_shape(b);
    if a < 10 {
        assert(b < 10);
        assert(digits(a) == seq![digit_char(a as int)]);
        assert(digits(b) == seq![digit_char(b as int)]);
        assert(digits(a)[0] == digits(b)[0]);
        assert(seq![digit_char(a as int)][0] == digit_char(a as int));
        assert(seq![digit_char(b as int)][0] == digit_char(b as int));
        assert(digit_char(a as int) == digit_char(b as int));
    } else {
        assert(b >= 10);
        let da = digits(a);
        assert(da.last() == digit_char((a % 10) as int));
        assert(digits(b).last() == digit_char((b % 10) as int));
        assert(a % 10 == b % 10);
        assert(digits(a / 10) == da.drop_last());
        assert(digits(b / 10) == digits(b).drop_last());
        lemma_digits_injective(a / 10, b / 10);
        assert(a == (a / 10) * 10 + a % 10);
        assert(b == (b / 10) * 10 + b % 10);
    }
}

/// A decimal rendering is not empty and starts with `-` or a digit.
pub proof fn lemma_decimal_shape(n: int)
    ensures
        decimal(n).len() > 0,
        decimal(n)[0] == '-' || ('0' <= decimal(n)[0] <= '9'),
{
    if n < 0 {
        lemma_digits_shape((-n) as nat);
    } else {
        lemma_digits_shape(n as nat);
    }
}

/// Distinct integers have distinct decimal renderings.
pub proof fn lemma_decimal_injective(a: int, b: int)
    requires
        decimal(a) == decimal(b),
    ensures
        a == b,
{
    if a < 0 {
        lemma_digits_shape((-a) as nat);
        assert(decimal(a)[0] == '-');
        if b >= 0 {
            lemma_digits_shape(b as nat);
            assert(decimal(b)[0] != '-');
        } else {
            assert(digits((-a) as nat) == decimal(a).skip(1));
            assert(digits((-b) as nat) == decimal(b).skip(1));
            lemma_digits_injective((-a) as nat, (-b) as nat);
        }
    } else {
        lemma_digits_shape(a as nat);
        if b < 0 {
            assert(decimal(b)[0] == '-');
            assert(decimal(a)[0] != '-');
        } else {
            lemma_digits_injective(a as nat, b as nat);
        }
    }
}

// ---------------------------------------------------------------------------
// Replacing a pattern
// ---------------------------------------------------------------------------

/// `s` with every non-overlapping occurrence of the non-empty `pat`, scanned
/// from the left, replaced by `rep` (what `str::replace` does).
pub open spec fn replace_all(s: Seq<char>, pat: Seq<char>, rep: Seq<char>) -> Seq<char>
    decreases s.len(),
{
    if pat.len() == 0 || s.len() < pat.len() {
        s
    } else if s.take(pat.len() as int) == pat {
        rep + replace_all(s.skip(pat.len() as int), pat, rep)
    } else {
        seq![s[0]] + replace_all(s.skip(1), pat, rep)
    }
}

fn matches_at(s: &Vec<char>, i: usize, p: &Vec<char>) -> (r: bool)
    requires
        i + p@.len() <= s@.len(),
    ensures
        r == (s@.subrange(i as int, i + p@.len()) == p@),
{
    let n = p.len();
    let sl = s.len();
    for j in 0..n
        invariant
            n == p@.len(),
            sl == s@.len(),
            i + n <= s@.len(),
            forall|k: int| 0 <= k < j ==> s@[i + k] == p@[k],
    {
        if s[i + j] != p[j] {
            assert(s@.subrange(i as int, i + p@.len())[j as int] != p@[j as int]);
            return false;
        }
    }
    assert(s@.subrange(i as int, i + p@.len()) =~= p@);
    true
}

/// `s` with every occurrence of `pat` replaced by `rep`.
pub fn replace(s: &str, pat: &str, rep: &str) -> (r: String)
    requires
        pat@.len() > 0,
    ensures
        r@ == replace_all(s@, pat@, rep@),
{
    let sv = chars_of(s);
    let pv = chars_of(pat);
    let n = sv.len();
    let m = pv.len();
    let mut out = String::new();
    let mut i: usize = 0;
    proof {
        assert(sv@.skip(0) == sv@);
        assert(out@ + sv@ == sv@);
    }
    while i < n
        invariant
            sv@ == s@,
            pv@ == pat@,
            n == sv@.len(),
            m == pv@.len(),
            m > 0,
            i <= n,
            out@ + replace_all(sv@.skip(i as int), pv@, rep@) == replace_all(sv@, pv@, rep@),
        decreases n - i,
    {
        let ghost rest = sv@.skip(i as int);
        if m <= n - i && matches_at(&sv, i, &pv) {
            proof {
                assert(rest.take(m as int) == sv@.subrange(i as int, i + m));
                assert(rest.skip(m as int) == sv@.skip(i + m));
                assert(replace_all(rest, pv@, rep@) == rep@ + replace_all(
                    sv@.skip(i + m),
                    pv@,
                    rep@,
                ));
            }
            let ghost before = out@;
            push_str(&mut out, rep);
            proof {
                assert(out@ + replace_all(sv@.skip(i + m), pv@, rep@) == before + (rep@
                    + replace_all(sv@.skip(i + m), pv@, rep@)));
            }
            i = i + m;
        } else {
            proof {
                if i + m <= n {
                    assert(rest.take(m as int) == sv@.subrange(i as int, i + m));
                    assert(replace_all(rest, pv@, rep@) == seq![rest[0]] + replace_all(
                        rest.skip(1),
                        pv@,
                        rep@,
                    ));
                } else {
                    assert(rest.len() < m);
                    assert(replace_all(rest, pv@, rep@) == rest);
                    assert(replace_all(rest.skip(1), pv@, rep@) == rest.skip(1));
                    assert(rest == seq![rest[0]] + rest.skip(1));
                }
                assert(rest.skip(1) == sv@.skip(i + 1));
                assert(rest[0] == sv@[i as int]);
            }
            let ghost before = out@;
            push_char(&mut out, sv[i]);
            proof {
                assert(out@ + replace_all(sv@.skip(i + 1), pv@, rep@) == before + (seq![
                    sv@[i as int],
                ] + replace_all(sv@.skip(i + 1), pv@, rep@)));
            }
            i = i + 1;
        }
    }
    proof {
        assert(sv@.skip(n as int).len() == 0);
        assert(replace_all(sv@.skip(n as int), pv@, rep@) == sv@.skip(n as int));
        assert(out@ + sv@.skip(n as int) == out@);
    }
    out
}

// ---------------------------------------------------------------------------
// Joining lines
// ---------------------------------------------------------------------------

/// The strings of `parts` with `sep` between each two (what `join` does).
pub open spec fn join(parts: Seq<Seq<char>>, sep: Seq<char>) -> Seq<char>
    decreases parts.len(),
{
    if parts.len() == 0 {
        Seq::empty()
    } else if parts.len() == 1 {
        parts[0]
    } else {
        join(parts.drop_last(), sep) + sep + parts.last()
    }
}

/// The views of a list of strings.
pub open spec fn views(v: Seq<String>) -> Seq<Seq<char>> {
    v.map_values(|s: String| s@)
}

/// The strings of `parts` joined by `sep`.
pub fn join_strings(parts: &Vec<String>, sep: &str) -> (r: String)
    ensures
        r@ == join(views(parts@), sep@),
{
    let mut out = String::new();
    let n = parts.len();
    for i in 0..n
        invariant
            n == parts@.len(),
            out@ == join(views(parts@.take(i as int)), sep@),
    {
        let ghost prev = parts@.take(i as int);
        let ghost next = parts@.take(i + 1);
        proof {
            assert(next.drop_last() == prev);
            assert(views(next).drop_last() == views(prev));
            assert(views(next).last() == parts@[i as int]@);
        }
        if i > 0 {
            push_str(&mut out, sep);
        }
        push_str(&mut out, parts[i].as_str());
        proof {
            if i == 0 {
                assert(views(next).len() == 1);
                assert(views(prev).len() == 0);
            }
        }
    }
    proof {
        assert(parts@.take(n as int) == parts@);
    }
    out
}

} // verus!
