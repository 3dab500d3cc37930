//! Decimal notation for signed 64-bit integers.

use crate::text::has_at;
use vstd::prelude::*;

verus! {

/// Whether `c` is one of `0` to `9`.
pub open spec fn is_digit(c: char) -> bool {
    '0' <= c && c <= '9'
}

/// The number that the digit `c` stands for.
pub open spec fn digit_value(c: char) -> nat {
    (c as int - '0' as int) as nat
}

/// The digit that stands for `d`, for `d` below ten.
pub open spec fn digit_char(d: nat) -> char {
    (d + '0' as nat) as char
}

/// The digits of `n`, most significant first, without leading zeros.
pub open spec fn digits_of(n: nat) -> Seq<char>
    decreases n,
{
    if n < 10 {
        seq![digit_char(n)]
    } else {
        digits_of(n / 10).push(digit_char(n % 10))
    }
}

/// The number that a run of digits stands for.
pub open spec fn value_of(digits: Seq<char>) -> nat
    decreases digits.len(),
{
    if digits.len() == 0 {
        0
    } else {
        value_of(digits.drop_last()) * 10 + digit_value(digits.last())
    }
}

/// Decimal notation of `v`: an optional minus sign, then the digits of its
/// magnitude.
pub open spec fn decimal_text(v: int) -> Seq<char> {
    if v < 0 {
        seq!['-'] + digits_of((-v) as nat)
    } else {
        digits_of(v as nat)
    }
}

/// The first position at or after `i` that holds no digit.
pub open spec fn digits_end(s: Seq<char>, i: int) -> int
    decreases s.len() - i,
{
    if 0 <= i < s.len() && is_digit(s[i]) {
        digits_end(s, i + 1)
    } else {
        i
    }
}

/// Reads an integer in decimal notation at position `i` of `s`: the value and
/// the position after its last digit. There is no result where no digit
/// stands at `i` (after an optional minus sign), where a number of several
/// digits starts with `0`, or where the value does not fit 64 bits.
pub open spec fn parse_int(s: Seq<char>, i: int) -> Option<(int, int)> {
    let negative = 0 <= i < s.len() && s[i] == '-';
    let start = if negative { i + 1 } else { i };
    let end = digits_end(s, start);
    if end == start {
        None
    } else if s[start] == '0' && end > start + 1 {
        None
    } else {
        let magnitude = value_of(s.subrange(start, end));
        let v = if negative { -magnitude } else { magnitude as int };
        if i64::MIN <= v <= i64::MAX {
            Some((v, end))
        } else {
            None
        }
    }
}

/// Reads a whole text as a signed 32-bit integer, as `str::parse` does it:
/// an optional `+` or `-`, then one or more digits, of which the first may
/// be `0`, and nothing else. There is no result where the value does not fit
/// 32 bits.
pub open spec fn parse_i32(s: Seq<char>) -> Option<int> {
    let signed = s.len() > 0 && (s[0] == '-' || s[0] == '+');
    let start: int = if signed { 1 } else { 0 };
    if start >= s.len() || digits_end(s, start) != s.len() {
        None
    } else {
        let magnitude = value_of(s.subrange(start, s.len() as int));
        let v = if s[0] == '-' { -magnitude } else { magnitude as int };
        if i32::MIN <= v <= i32::MAX {
            Some(v)
        } else {
            None
        }
    }
}

fn digit_to_char(d: u64) -> (c: char)
    requires
        d < 10,
    ensures
        c == digit_char(d as nat),
        is_digit(c),
        digit_value(c) == d,
{
    (d as u8 + 48u8) as char
}

fn push_digits(out: &mut String, n: u64)
    ensures
        final(out)@ == old(out)@ + digits_of(n as nat),
    decreases n,
{
    if n >= 10 {
        push_digits(out, n / 10);
    }
    out.push(digit_to_char(n % 10));
}

/// Appends the decimal notation of `v` to `out`.
pub fn push_decimal(out: &mut String, v: i64)
    ensures
        final(out)@ == old(out)@ + decimal_text(v as int),
{
    if v < 0 {
        out.push('-');
        let magnitude: u64 = (-(v + 1)) as u64 + 1;
        push_digits(out, magnitude);
    } else {
        push_digits(out, v as u64);
    }
}

fn is_digit_char(c: char) -> (b: bool)
    ensures
        b == is_digit(c),
{
    '0' <= c && c <= '9'
}

/// Reads an integer in decimal notation at position `i` of `s`.
pub fn read_int(s: &Vec<char>, i: usize) -> (r: Option<(i64, usize)>)
    requires
        i <= s.len(),
    ensures
        match r {
            Some((v, end)) => parse_int(s@, i as int) == Some((v as int, end as int)) && i < end
                <= s.len(),
            None => parse_int(s@, i as int) is None,
        },
{
    let n: usize = s.len();
    let negative: bool = i < n && s[i] == '-';
    let start: usize = if negative { i + 1 } else { i };
    let limit: u64 = 9223372036854775808;
    let mut j: usize = start;
    let mut acc: u64 = 0;
    assert(s@.subrange(start as int, start as int) =~= Seq::<char>::empty());
    while j < n && is_digit_char(s[j])
        invariant
            start <= j <= n,
            n == s.len(),
            limit == 9223372036854775808,
            negative == (i < n && s@[i as int] == '-'),
            start == if negative { i + 1 } else { i as int },
            acc == value_of(s@.subrange(start as int, j as int)),
            acc <= limit,
            digits_end(s@, start as int) == digits_end(s@, j as int),
        decreases n - j,
    {
        let d: u64 = (s[j] as u64) - 48;
        proof {
            lemma_value_of_step(s@, start as int, j as int);
        }
        if acc > (limit - d) / 10 {
            proof {
                let end = digits_end(s@, start as int);
                lemma_digits_end_bounds(s@, j as int + 1);
                lemma_value_of_monotone(s@, start as int, j as int + 1, end);
            }
            return None;
        }
        acc = acc * 10 + d;
        j += 1;
    }
    if j == start {
        return None;
    }
    if s[start] == '0' && j > start + 1 {
        return None;
    }
    if negative {
        if acc == limit {
            Some((i64::MIN, j))
        } else {
            Some((-(acc as i64), j))
        }
    } else if acc == limit {
        None
    } else {
        Some((acc as i64, j))
    }
}

/// Reads a whole text as a signed 32-bit integer.
pub fn read_i32(s: &Vec<char>) -> (r: Option<i32>)
    ensures
        match r {
            Some(v) => parse_i32(s@) == Some(v as int),
            None => parse_i32(s@) is None,
        },
{
    let n: usize = s.len();
    let signed: bool = n > 0 && (s[0] == '-' || s[0] == '+');
    let start: usize = if signed { 1 } else { 0 };
    if start >= n {
        return None;
    }
    let limit: u64 = 2147483648;
    let mut j: usize = start;
    let mut acc: u64 = 0;
    assert(s@.subrange(start as int, start as int) =~= Seq::<char>::empty());
    while j < n && is_digit_char(s[j])
        invariant
            start <= j <= n,
            n == s.len(),
            limit == 2147483648,
            signed == (n > 0 && (s@[0] == '-' || s@[0] == '+')),
            start == if signed { 1int } else { 0int },
            acc == value_of(s@.subrange(start as int, j as int)),
            acc <= limit,
            digits_end(s@, start as int) == digits_end(s@, j as int),
        decreases n - j,
    {
        let d: u64 = (s[j] as u64) - 48;
        proof {
            lemma_value_of_step(s@, start as int, j as int);
        }
        if acc * 10 + d > limit {
            proof {
                lemma_digits_end_bounds(s@, j as int + 1);
                if digits_end(s@, start as int) == n {
                    lemma_value_of_monotone(s@, start as int, j as int + 1, n as int);
                }
            }
            return None;
        }
        acc = acc * 10 + d;
        j += 1;
    }
    if j < n {
        return None;
    }
    if s[0] == '-' {
        if acc == limit {
            Some(i32::MIN)
        } else {
            Some(-(acc as i32))
        }
    } else if acc == limit {
        None
    } else {
        Some(acc as i32)
    }
}

/// What `decimal_text` wrote for a number of 32 bits is read back as that
/// number.
pub proof fn lemma_parse_i32_decimal(v: int)
    requires
        i32::MIN <= v <= i32::MAX,
    ensures
        parse_i32(decimal_text(v)) == Some(v),
        decimal_text(v).len() >= 1,
        is_digit(decimal_text(v)[0]) || decimal_text(v)[0] == '-',
{
    let t = decimal_text(v);
    let magnitude: nat = if v < 0 { (-v) as nat } else { v as nat };
    let digits = digits_of(magnitude);
    let start: int = if v < 0 { 1 } else { 0 };
    lemma_digits_of(magnitude);
    assert forall|k: int| start <= k < start + digits.len() implies is_digit(#[trigger] t[k]) by {
        assert(t[k] == digits[k - start]);
    }
    lemma_digits_end_run(t, start, digits.len());
    assert(t.subrange(start, t.len() as int) =~= digits);
}

/// Extending a run of digits by one digit multiplies its value by ten and
/// adds the new digit.
proof fn lemma_value_of_step(s: Seq<char>, start: int, j: int)
    requires
        0 <= start <= j < s.len(),
    ensures
        value_of(s.subrange(start, j + 1)) == value_of(s.subrange(start, j)) * 10 + digit_value(
            s[j],
        ),
{
    let longer = s.subrange(start, j + 1);
    assert(longer.drop_last() =~= s.subrange(start, j));
    assert(longer.last() == s[j]);
}

/// A longer run of digits from the same start stands for no smaller number.
proof fn lemma_value_of_monotone(s: Seq<char>, start: int, a: int, b: int)
    requires
        0 <= start <= a <= b <= s.len(),
    ensures
        value_of(s.subrange(start, a)) <= value_of(s.subrange(start, b)),
    decreases b - a,
{
    if a < b {
        lemma_value_of_monotone(s, start, a, b - 1);
        lemma_value_of_step(s, start, b - 1);
    }
}

/// The run of digits that starts at `i` ends inside the text.
proof fn lemma_digits_end_bounds(s: Seq<char>, i: int)
    requires
        0 <= i <= s.len(),
    ensures
        i <= digits_end(s, i) <= s.len(),
    decreases s.len() - i,
{
    if i < s.len() && is_digit(s[i]) {
        lemma_digits_end_bounds(s, i + 1);
    }
}

/// The digits of a number are digits, there is at least one, a leading `0`
/// stands alone, and together they stand for the number.
pub proof fn lemma_digits_of(n: nat)
    ensures
        digits_of(n).len() >= 1,
        forall|k: int| 0 <= k < digits_of(n).len() ==> is_digit(#[trigger] digits_of(n)[k]),
        digits_of(n)[0] == '0' ==> digits_of(n).len() == 1,
        value_of(digits_of(n)) == n,
    decreases n,
{
    if n < 10 {
        let d = seq![digit_char(n)];
        assert(d.drop_last() =~= Seq::<char>::empty());
        assert(value_of(d.drop_last()) == 0);
    } else {
        lemma_digits_of(n / 10);
        let shorter = digits_of(n / 10);
        let d = shorter.push(digit_char(n % 10));
        assert(d.drop_last() =~= shorter);
        assert(d[0] == shorter[0]);
        if shorter[0] == '0' {
            assert(shorter =~= seq!['0']);
            assert(value_of(shorter) == 0) by {
                assert(shorter.drop_last() =~= Seq::<char>::empty());
                assert(value_of(shorter.drop_last()) == 0);
            }
        }
    }
}

/// A run of digits that is followed by no further digit ends where it ends.
proof fn lemma_digits_end_run(s: Seq<char>, i: int, len: nat)
    requires
        0 <= i,
        i + len <= s.len(),
        forall|k: int| i <= k < i + len ==> is_digit(#[trigger] s[k]),
        i + len == s.len() || !is_digit(s[i + len]),
    ensures
        digits_end(s, i) == i + len,
    decreases len,
{
    if len > 0 {
        lemma_digits_end_run(s, i + 1, (len - 1) as nat);
    }
}

/// Reading back what `decimal_text` wrote gives the number again, provided
/// that no digit follows it.
pub proof fn lemma_parse_decimal(s: Seq<char>, i: int, v: int)
    requires
        i64::MIN <= v <= i64::MAX,
        has_at(s, i, decimal_text(v)),
        i + decimal_text(v).len() == s.len() || !is_digit(s[i + decimal_text(v).len()]),
    ensures
        parse_int(s, i) == Some((v, i + decimal_text(v).len())),
{
    let t = decimal_text(v);
    let magnitude: nat = if v < 0 { (-v) as nat } else { v as nat };
    let digits = digits_of(magnitude);
    let start = if v < 0 { i + 1 } else { i };
    lemma_digits_of(magnitude);
    assert forall|k: int| 0 <= k < t.len() implies s[i + k] == t[k] by {
        assert(s.subrange(i, i + t.len())[k] == s[i + k]);
    }
    if v < 0 {
        assert(t[0] == '-');
        assert forall|k: int| 0 <= k < digits.len() implies s[start + k] == digits[k] by {
            assert(t[k + 1] == digits[k]);
        }
    } else {
        assert(t[0] == digits[0]);
        assert(is_digit(digits[0]));
    }
    assert forall|k: int| start <= k < start + digits.len() implies is_digit(#[trigger] s[k]) by {
        assert(s[k] == digits[k - start]);
    }
    lemma_digits_end_run(s, start, digits.len());
    assert(s.subrange(start, start + digits.len()) =~= digits);
}

} // verus!
