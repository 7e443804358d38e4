//! Reading numbers out of text, as `str::trim` and `str::parse` do.

use vstd::prelude::*;

verus! {

/// Whether `c` is white space as `char::is_whitespace` defines it (the
/// Unicode `White_Space` property).
pub open spec fn is_white(c: char) -> bool {
    ||| '\u{9}' <= c <= '\u{d}'
    ||| c == ' '
    ||| c == '\u{85}'
    ||| c == '\u{a0}'
    ||| c == '\u{1680}'
    ||| '\u{2000}' <= c <= '\u{200a}'
    ||| c == '\u{2028}'
    ||| c == '\u{2029}'
    ||| c == '\u{202f}'
    ||| c == '\u{205f}'
    ||| c == '\u{3000}'
}

/// `s` without its leading white space.
pub open spec fn trim_start(s: Seq<char>) -> Seq<char>
    decreases s.len(),
{
    if s.len() > 0 && is_white(s[0]) {
        trim_start(s.skip(1))
    } else {
        s
    }
}

/// `s` without its trailing white space.
pub open spec fn trim_end(s: Seq<char>) -> Seq<char>
    decreases s.len(),
{
    if s.len() > 0 && is_white(s.last()) {
        trim_end(s.drop_last())
    } else {
        s
    }
}

/// `s` without leading and trailing white space (what `str::trim` gives).
pub open spec fn trim(s: Seq<char>) -> Seq<char> {
    trim_end(trim_start(s))
}

/// Whether `c` is an ASCII decimal digit.
pub open spec fn is_digit(c: char) -> bool {
    '0' <= c <= '9'
}

/// Whether every character of `d` is a decimal digit.
pub open spec fn all_digits(d: Seq<char>) -> bool {
    forall|i: int| 0 <= i < d.len() ==> is_digit(#[trigger] d[i])
}

/// The value of a string of decimal digits.
pub open spec fn digits_value(s: Seq<char>) -> nat
    decreases s.len(),
{
    if s.len() == 0 {
        0
    } else {
        digits_value(s.drop_last()) * 10 + ((s.last() as nat) - ('0' as nat)) as nat
    }
}

/// `s` without one leading `+`, if it has one.
pub open spec fn unsigned_part(s: Seq<char>) -> Seq<char> {
    if s.len() > 0 && s[0] == '+' {
        s.skip(1)
    } else {
        s
    }
}

/// What `str::parse::<usize>` gives: an optional `+`, then at least one
/// decimal digit and nothing else, of a value that fits in `usize`.
pub open spec fn parse_usize(s: Seq<char>) -> Option<usize> {
    let d = unsigned_part(s);
    if d.len() > 0 && all_digits(d) && digits_value(d) <= usize::MAX {
        Some(digits_value(d) as usize)
    } else {
        None
    }
}

/// Whether `s` starts with a minus sign.
pub open spec fn negative(s: Seq<char>) -> bool {
    s.len() > 0 && s[0] == '-'
}

/// `s` without one leading sign, if it has one.
pub open spec fn magnitude_part(s: Seq<char>) -> Seq<char> {
    if s.len() > 0 && (s[0] == '-' || s[0] == '+') {
        s.skip(1)
    } else {
        s
    }
}

/// What `str::parse::<i64>` gives: an optional sign, then at least one
/// decimal digit and nothing else, of a value that fits in `i64`.
pub open spec fn parse_i64(s: Seq<char>) -> Option<i64> {
    let d = magnitude_part(s);
    let limit: int = if negative(s) {
        0x8000_0000_0000_0000
    } else {
        0x7fff_ffff_ffff_ffff
    };
    if d.len() > 0 && all_digits(d) && digits_value(d) <= limit {
        Some((if negative(s) {
            -(digits_value(d) as int)
        } else {
            digits_value(d) as int
        }) as i64)
    } else {
        None
    }
}

pub(crate) fn is_white_char(c: char) -> (r: bool)
    ensures
        r == is_white(c),
{
    ('\u{9}' <= c && c <= '\u{d}') || c == ' ' || c == '\u{85}' || c == '\u{a0}' || c
        == '\u{1680}' || ('\u{2000}' <= c && c <= '\u{200a}') || c == '\u{2028}' || c
        == '\u{2029}' || c == '\u{202f}' || c == '\u{205f}' || c == '\u{3000}'
}

proof fn lemma_trim_start_skip(s: Seq<char>, a: int)
    requires
        0 <= a <= s.len(),
        forall|i: int| 0 <= i < a ==> is_white(#[trigger] s[i]),
        a == s.len() || !is_white(s[a]),
    ensures
        trim_start(s) == s.skip(a),
    decreases a,
{
    if a > 0 {
        assert forall|i: int| 0 <= i < a - 1 implies is_white(#[trigger] s.skip(1)[i]) by {
            assert(s.skip(1)[i] == s[i + 1]);
        }
        if a < s.len() {
            assert(s.skip(1)[a - 1] == s[a]);
        }
        lemma_trim_start_skip(s.skip(1), a - 1);
        assert(s.skip(1).skip(a - 1) == s.skip(a));
    } else {
        assert(s.skip(0) == s);
    }
}

proof fn lemma_trim_end_take(s: Seq<char>, b: int)
    requires
        0 <= b <= s.len(),
        forall|i: int| b <= i < s.len() ==> is_white(#[trigger] s[i]),
        b == 0 || !is_white(s[b - 1]),
    ensures
        trim_end(s) == s.take(b),
    decreases s.len() - b,
{
    if b < s.len() {
        let t = s.drop_last();
        assert(is_white(s.last()));
        assert forall|i: int| b <= i < t.len() implies is_white(#[trigger] t[i]) by {
            assert(t[i] == s[i]);
        }
        if b > 0 {
            assert(t[b - 1] == s[b - 1]);
        }
        lemma_trim_end_take(t, b);
        assert(t.take(b) == s.take(b));
    } else {
        assert(s.take(b) == s);
    }
}

/// The bounds of `c` without its leading and trailing white space.
pub fn trim_bounds(c: &Vec<char>) -> (r: (usize, usize))
    ensures
        r.0 <= r.1 <= c@.len(),
        trim(c@) == c@.subrange(r.0 as int, r.1 as int),
{
    let n = c.len();
    let mut a: usize = 0;
    while a < n && is_white_char(c[a])
        invariant
            n == c@.len(),
            a <= n,
            forall|i: int| 0 <= i < a ==> is_white(#[trigger] c@[i]),
        decreases n - a,
    {
        a = a + 1;
    }
    proof {
        lemma_trim_start_skip(c@, a as int);
    }
    let ghost ts = c@.skip(a as int);
    let mut b: usize = n;
    while b > a && is_white_char(c[b - 1])
        invariant
            n == c@.len(),
            a <= b <= n,
            forall|i: int| b <= i < n ==> is_white(#[trigger] c@[i]),
        decreases b,
    {
        b = b - 1;
    }
    proof {
        assert forall|i: int| b - a <= i < ts.len() implies is_white(#[trigger] ts[i]) by {
            assert(ts[i] == c@[a + i]);
        }
        if b > a {
            assert(ts[b - a - 1] == c@[b - 1]);
        }
        lemma_trim_end_take(ts, b - a);
        assert(ts.take(b - a) == c@.subrange(a as int, b as int));
    }
    (a, b)
}

/// The value of the digits `c[start..end]` if they are all decimal digits
/// and the value is at most `limit`; `None` otherwise.
pub fn digits_upto(c: &Vec<char>, start: usize, end: usize, limit: u128) -> (r: Option<u128>)
    requires
        start <= end <= c@.len(),
    ensures
        ({
            let d = c@.subrange(start as int, end as int);
            r == (if all_digits(d) && digits_value(d) <= limit {
                Some(digits_value(d) as u128)
            } else {
                None
            })
        }),
{
    let ghost d = c@.subrange(start as int, end as int);
    let mut value: u128 = 0;
    let mut over = false;
    let mut i = start;
    while i < end
        invariant
            start <= i <= end <= c@.len(),
            d == c@.subrange(start as int, end as int),
            forall|k: int| start <= k < i ==> is_digit(#[trigger] c@[k]),
            !over ==> value == digits_value(c@.subrange(start as int, i as int)),
            !over ==> value <= limit,
            over ==> digits_value(c@.subrange(start as int, i as int)) > limit,
        decreases end - i,
    {
        let ch = c[i];
        if !('0' <= ch && ch <= '9') {
            proof {
                assert(d[i - start] == ch);
                assert(!is_digit(d[i - start]));
            }
            return None;
        }
        let ghost prefix = c@.subrange(start as int, i as int);
        let ghost next = c@.subrange(start as int, i + 1);
        proof {
            assert(next.drop_last() == prefix);
            assert(next.last() == ch);
        }
        if !over {
            let dv: u128 = (ch as u32 - '0' as u32) as u128;
            if dv > limit || value > (limit - dv) / 10 {
                over = true;
                proof {
                    if dv <= limit {
                        assert(value * 10 + dv > limit) by (nonlinear_arith)
                            requires
                                value > (limit - dv) / 10,
                                dv <= limit,
                        {
                        }
                    }
                }
            } else {
                proof {
                    assert(value * 10 + dv <= limit) by (nonlinear_arith)
                        requires
                            value <= (limit - dv) / 10,
                    {
                    }
                }
                value = value * 10 + dv;
            }
        }
        i = i + 1;
    }
    proof {
        assert forall|k: int| 0 <= k < d.len() implies is_digit(#[trigger] d[k]) by {
            assert(d[k] == c@[start + k]);
        }
    }
    if over {
        None
    } else {
        Some(value)
    }
}

/// Parses a whole string as `str::parse::<usize>` does.
pub fn parse_usize_str(s: &str) -> (r: Option<usize>)
    ensures
        r == parse_usize(s@),
{
    let c = crate::text::chars_of(s);
    assert(c@.subrange(0, c@.len() as int) == s@);
    parse_usize_range(&c, 0, c.len())
}

/// Parses `c[a..b]` as `str::parse::<usize>` does.
pub fn parse_usize_range(c: &Vec<char>, a: usize, b: usize) -> (r: Option<usize>)
    requires
        a <= b <= c@.len(),
    ensures
        r == parse_usize(c@.subrange(a as int, b as int)),
{
    let ghost t = c@.subrange(a as int, b as int);
    let mut start = a;
    if start < b && c[start] == '+' {
        start = start + 1;
    }
    proof {
        let d = c@.subrange(start as int, b as int);
        if t.len() > 0 && t[0] == '+' {
            assert(d == t.skip(1));
        } else {
            assert(d == t);
        }
        assert(unsigned_part(t) == d);
    }
    if start >= b {
        return None;
    }
    match digits_upto(c, start, b, usize::MAX as u128) {
        Some(v) => Some(v as usize),
        None => None,
    }
}

/// Parses a whole string as `str::parse::<i64>` does.
pub fn parse_i64_str(s: &str) -> (r: Option<i64>)
    ensures
        r == parse_i64(s@),
{
    let c = crate::text::chars_of(s);
    let n = c.len();
    let neg = n > 0 && c[0] == '-';
    let start: usize = if n > 0 && (c[0] == '-' || c[0] == '+') {
        1
    } else {
        0
    };
    proof {
        let d = c@.subrange(start as int, n as int);
        if start == 1 {
            assert(d == s@.skip(1));
        } else {
            assert(d == s@);
        }
        assert(magnitude_part(s@) == d);
    }
    if start >= n {
        return None;
    }
    let limit: u128 = if neg {
        0x8000_0000_0000_0000
    } else {
        0x7fff_ffff_ffff_ffff
    };
    match digits_upto(&c, start, n, limit) {
        Some(v) => {
            if neg {
                if v == 0x8000_0000_0000_0000 {
                    Some(i64::MIN)
                } else {
                    Some(-(v as i64))
                }
            } else {
                Some(v as i64)
            }
        },
        None => None,
    }
}

} // verus!
