//! Decimal and hexadecimal numerals: formatting, and parsing as `str::parse`
//! does for unsigned integers.
use vstd::prelude::*;

verus! {

/// The numeric value of an ASCII digit.
pub open spec fn digit_value(c: char) -> int {
    (c as int) - ('0' as int)
}

pub open spec fn is_digit(c: char) -> bool {
    '0' <= c && c <= '9'
}

pub open spec fn all_digits(s: Seq<char>) -> bool {
    forall|i: int| 0 <= i < s.len() ==> is_digit(#[trigger] s[i])
}

/// The value of a string of decimal digits, most significant first.
pub open spec fn digits_value(s: Seq<char>) -> int
    decreases s.len(),
{
    if s.len() == 0 {
        0
    } else {
        digits_value(s.drop_last()) * 10 + digit_value(s.last())
    }
}

/// The digits that an unsigned integer parse reads: an optional leading `+`
/// followed by at least one decimal digit and nothing else.
pub open spec fn unsigned_digits(s: Seq<char>) -> Option<Seq<char>> {
    if s.len() > 0 && s[0] == '+' {
        let d = s.drop_first();
        if d.len() > 0 && all_digits(d) {
            Some(d)
        } else {
            None
        }
    } else if s.len() > 0 && all_digits(s) {
        Some(s)
    } else {
        None
    }
}

/// What `str::parse` gives for an unsigned integer type whose largest value
/// is `max`: the value of the digits, or `None` for bad syntax or overflow.
pub open spec fn parse_unsigned(s: Seq<char>, max: int) -> Option<int> {
    match unsigned_digits(s) {
        Some(d) => if digits_value(d) <= max {
            Some(digits_value(d))
        } else {
            None
        },
        None => None,
    }
}

pub proof fn lemma_digits_value_nonnegative(s: Seq<char>)
    requires
        all_digits(s),
    ensures
        digits_value(s) >= 0,
    decreases s.len(),
{
    if s.len() > 0 {
        assert(all_digits(s.drop_last())) by {
            assert forall|i: int| 0 <= i < s.drop_last().len() implies is_digit(#[trigger] s.drop_last()[i]) by {
                assert(s.drop_last()[i] == s[i]);
            }
        }
        lemma_digits_value_nonnegative(s.drop_last());
        assert(is_digit(s[s.len() - 1]));
    }
}

pub proof fn lemma_digits_value_monotone(s: Seq<char>, i: int, j: int)
    requires
        0 <= i <= j <= s.len(),
        all_digits(s),
    ensures
        digits_value(s.take(i)) <= digits_value(s.take(j)),
    decreases j - i,
{
    if i < j {
        lemma_digits_value_monotone(s, i, j - 1);
        assert(s.take(j).drop_last() =~= s.take(j - 1));
        assert(is_digit(s[j - 1]));
        assert(all_digits(s.take(j - 1))) by {
            assert forall|k: int| 0 <= k < s.take(j - 1).len() implies is_digit(#[trigger] s.take(j - 1)[k]) by {
                assert(s.take(j - 1)[k] == s[k]);
            }
        }
        lemma_digits_value_nonnegative(s.take(j - 1));
    }
}

/// The value of the digits in `s`, checked against `max`.
fn digits_checked(s: &Vec<char>, start: usize, max: u64) -> (r: Option<u64>)
    requires
        start < s@.len(),
        all_digits(s@.skip(start as int)),
    ensures
        r matches Some(v) ==> v == digits_value(s@.skip(start as int)) && v <= max,
        r is None ==> digits_value(s@.skip(start as int)) > max,
{
    let ghost d = s@.skip(start as int);
    let mut acc: u64 = 0;
    let mut i = start;
    while i < s.len()
        invariant
            start <= i <= s@.len(),
            d == s@.skip(start as int),
            all_digits(d),
            acc == digits_value(d.take(i - start)),
            acc <= max,
        decreases s.len() - i,
    {
        let c = s[i];
        proof {
            assert(d[i - start] == c);
        }
        let dv = (c as u32 - '0' as u32) as u64;
        let next: u128 = (acc as u128) * 10 + (dv as u128);
        proof {
            assert(d.take(i - start + 1).drop_last() =~= d.take(i - start));
            assert(d.take(i - start + 1).last() == c);
            assert(next == digits_value(d.take(i - start + 1)));
        }
        if next > max as u128 {
            proof {
                lemma_digits_value_monotone(d, i - start + 1, d.len() as int);
                assert(d.take(d.len() as int) =~= d);
            }
            return None;
        }
        acc = next as u64;
        i = i + 1;
    }
    proof {
        assert(d.take(d.len() as int) =~= d);
    }
    Some(acc)
}

/// Parses an unsigned decimal as `str::parse` does for an unsigned type with
/// largest value `max`.
pub fn parse_unsigned_max(s: &str, max: u64) -> (r: Option<u64>)
    ensures
        r matches Some(v) ==> parse_unsigned(s@, max as int) == Some(v as int),
        r is None ==> parse_unsigned(s@, max as int) is None,
{
    let v = crate::text::chars_of(s);
    let n = v.len();
    if n == 0 {
        return None;
    }
    let start: usize = if v[0] == '+' {
        1
    } else {
        0
    };
    if start >= n {
        return None;
    }
    let mut i = start;
    while i < n
        invariant
            n == v@.len(),
            v@ == s@,
            start <= 1,
            n > 0,
            start == 1 <==> v@[0] == '+',
            start <= i <= n,
            forall|k: int| start <= k < i ==> is_digit(#[trigger] v@[k]),
        decreases n - i,
    {
        if !('0' <= v[i] && v[i] <= '9') {
            proof {
                let d = v@.skip(start as int);
                assert(!is_digit(d[i - start]));
                if start == 0 {
                    assert(d =~= v@);
                } else {
                    assert(d =~= v@.drop_first());
                }
            }
            return None;
        }
        i = i + 1;
    }
    proof {
        let d = v@.skip(start as int);
        assert forall|k: int| 0 <= k < d.len() implies is_digit(#[trigger] d[k]) by {
            assert(d[k] == v@[k + start]);
        }
        if start == 0 {
            assert(d =~= v@);
        } else {
            assert(d =~= v@.drop_first());
        }
    }
    digits_checked(&v, start, max)
}

/// `str::parse::<u64>`.
pub fn parse_u64(s: &str) -> (r: Option<u64>)
    ensures
        r matches Some(v) ==> parse_unsigned(s@, u64::MAX as int) == Some(v as int),
        r is None ==> parse_unsigned(s@, u64::MAX as int) is None,
{
    parse_unsigned_max(s, u64::MAX)
}

/// `str::parse::<u32>`.
pub fn parse_u32(s: &str) -> (r: Option<u32>)
    ensures
        r matches Some(v) ==> parse_unsigned(s@, u32::MAX as int) == Some(v as int),
        r is None ==> parse_unsigned(s@, u32::MAX as int) is None,
{
    match parse_unsigned_max(s, u32::MAX as u64) {
        Some(v) => Some(v as u32),
        None => None,
    }
}

/// The character of a digit value in base 16 (lowercase letters).
pub open spec fn digit_char(d: nat) -> char {
    if d < 10 {
        (('0' as int) + d) as char
    } else {
        (('a' as int) + (d - 10)) as char
    }
}

/// The numeral of `n` in base `b`, most significant digit first, without
/// leading zeros ("0" for zero).
pub open spec fn numeral(n: nat, b: nat) -> Seq<char>
    recommends
        2 <= b <= 16,
    decreases n,
{
    if n < b || b < 2 {
        seq![digit_char(n)]
    } else {
        proof {
            assert(n / b < n) by (nonlinear_arith)
                requires
                    n >= b,
                    b >= 2,
            ;
        }
        numeral(n / b, b).push(digit_char(n % b))
    }
}

fn digit_to_char(d: u64) -> (c: char)
    requires
        d < 16,
    ensures
        c == digit_char(d as nat),
{
    if d < 10 {
        ((48 + d) as u8) as char
    } else {
        ((97 + (d - 10)) as u8) as char
    }
}

/// Appends the base-`b` numeral of `n` to `out`.
fn push_numeral(out: &mut Vec<char>, n: u64, b: u64)
    requires
        2 <= b <= 16,
    ensures
        final(out)@ == old(out)@ + numeral(n as nat, b as nat),
    decreases n,
{
    if n < b {
        out.push(digit_to_char(n));
    } else {
        assert(n / b < n) by (nonlinear_arith)
            requires
                n >= b,
                b >= 2,
        ;
        push_numeral(out, n / b, b);
        out.push(digit_to_char(n % b));
    }
}

/// Decimal digits of `n`, as `format!("{}", n)` prints them.
pub fn decimal_string(n: u64) -> (s: String)
    ensures
        s@ == numeral(n as nat, 10),
{
    let mut v: Vec<char> = Vec::new();
    push_numeral(&mut v, n, 10);
    crate::text::string_from_chars(&v)
}

/// Lowercase hexadecimal digits of `n`, as `format!("{:x}", n)` prints them.
pub fn hex_string(n: u64) -> (s: String)
    ensures
        s@ == numeral(n as nat, 16),
{
    let mut v: Vec<char> = Vec::new();
    push_numeral(&mut v, n, 16);
    crate::text::string_from_chars(&v)
}

} // verus!
