//! Decimal integers as text: reading them and writing them.

use vstd::prelude::*;

verus! {

/// An ASCII decimal digit.
pub open spec fn is_digit(c: char) -> bool {
    '0' <= c && c <= '9'
}

/// The number that the digit `c` stands for.
pub open spec fn digit_value(c: char) -> nat {
    (c as u32 - '0' as u32) as nat
}

/// The digit that stands for `d`, where `d < 10`.
pub open spec fn digit_char(d: nat) -> char {
    ((d + 48) as u8) as char
}

/// Every character of `s` is a decimal digit.
pub open spec fn all_digits(s: Seq<char>) -> bool {
    forall|i: int| 0 <= i < s.len() ==> is_digit(#[trigger] s[i])
}

/// The number that a run of decimal digits stands for, most significant digit
/// first. The empty run stands for zero.
pub open spec fn digits_value(s: Seq<char>) -> nat
    decreases s.len(),
{
    if s.len() == 0 {
        0
    } else {
        digits_value(s.drop_last()) * 10 + digit_value(s.last())
    }
}

/// The number written by a non-empty run of decimal digits.
pub open spec fn parse_digits(s: Seq<char>) -> Option<int> {
    if s.len() > 0 && all_digits(s) {
        Some(digits_value(s) as int)
    } else {
        None
    }
}

/// The integer written by `s`: decimal digits, at least one, after an
/// optional `+` and, where `signed`, an optional `-` in its place. Nothing
/// else is accepted: no blanks, no separators.
pub open spec fn parse_int(s: Seq<char>, signed: bool) -> Option<int> {
    if s.len() > 0 && s[0] == '+' {
        parse_digits(s.drop_first())
    } else if signed && s.len() > 0 && s[0] == '-' {
        match parse_digits(s.drop_first()) {
            Some(v) => Some(-v),
            None => None,
        }
    } else {
        parse_digits(s)
    }
}

/// The integer written by `s`, where it lies between `min` and `max`.
pub open spec fn parse_within(s: Seq<char>, signed: bool, min: int, max: int) -> Option<int> {
    match parse_int(s, signed) {
        Some(v) => if min <= v <= max {
            Some(v)
        } else {
            None
        },
        None => None,
    }
}

/// The `i32` written by `s`.
pub open spec fn parse_i32(s: Seq<char>) -> Option<i32> {
    match parse_within(s, true, i32::MIN as int, i32::MAX as int) {
        Some(v) => Some(v as i32),
        None => None,
    }
}

/// The `u16` written by `s`.
pub open spec fn parse_u16(s: Seq<char>) -> Option<u16> {
    match parse_within(s, false, 0, u16::MAX as int) {
        Some(v) => Some(v as u16),
        None => None,
    }
}

/// The decimal digits of `n`, most significant first, without leading zeros.
pub open spec fn digits_of(n: nat) -> Seq<char>
    decreases n,
{
    if n < 10 {
        seq![digit_char(n)]
    } else {
        digits_of(n / 10).push(digit_char(n % 10))
    }
}

/// The decimal form of `v`: its digits, after a `-` where it is negative.
pub open spec fn decimal(v: int) -> Seq<char> {
    if v < 0 {
        seq!['-'] + digits_of((-v) as nat)
    } else {
        digits_of(v as nat)
    }
}

/// One more digit multiplies what came before by ten and adds the digit.
pub proof fn lemma_digits_value_step(s: Seq<char>, k: int)
    requires
        0 <= k < s.len(),
    ensures
        digits_value(s.take(k + 1)) == digits_value(s.take(k)) * 10 + digit_value(s[k]),
{
    assert(s.take(k + 1).drop_last() =~= s.take(k));
}

/// A prefix of a run of digits stands for no more than the whole run.
pub proof fn lemma_digits_value_prefix(s: Seq<char>, k: int)
    requires
        0 <= k <= s.len(),
    ensures
        digits_value(s.take(k)) <= digits_value(s),
    decreases s.len() - k,
{
    if k == s.len() {
        assert(s.take(k) =~= s);
    } else {
        lemma_digits_value_step(s, k);
        lemma_digits_value_prefix(s, k + 1);
    }
}

/// The digits of `n` are digits, and they stand for `n`.
pub proof fn lemma_digits_round_trip(n: nat)
    ensures
        digits_of(n).len() > 0,
        all_digits(digits_of(n)),
        digits_value(digits_of(n)) == n,
    decreases n,
{
    if n < 10 {
        let s = digits_of(n);
        assert(s.drop_last() =~= Seq::<char>::empty());
        assert(digits_value(s.drop_last()) == 0);
    } else {
        lemma_digits_round_trip(n / 10);
        let s = digits_of(n);
        assert(s.drop_last() =~= digits_of(n / 10));
    }
}

/// Reading the decimal form of an integer gives the integer back.
pub proof fn lemma_decimal_round_trip(v: int)
    ensures
        parse_int(decimal(v), true) == Some(v),
{
    if v < 0 {
        lemma_digits_round_trip((-v) as nat);
        assert(decimal(v).drop_first() =~= digits_of((-v) as nat));
    } else {
        lemma_digits_round_trip(v as nat);
        assert(is_digit(decimal(v)[0]));
    }
}

/// The number that the digit `c` stands for, if `c` is a digit.
pub fn digit_of(c: char) -> (r: Option<u8>)
    ensures
        r is Some == is_digit(c),
        r matches Some(d) ==> d == digit_value(c) && d < 10,
{
    if c >= '0' && c <= '9' {
        Some((c as u32 - '0' as u32) as u8)
    } else {
        None
    }
}

/// The integer written by `v[from..]`, which must be digits only, where it
/// is at most `limit`.
fn read_digits(v: &Vec<char>, from: usize, limit: u64) -> (r: Option<u64>)
    requires
        from <= v.len(),
        limit <= 0x1_0000_0000,
    ensures
        r == match parse_digits(v@.skip(from as int)) {
            Some(x) => if x <= limit {
                Some(x as u64)
            } else {
                None
            },
            None => None,
        },
{
    let n = v.len();
    if from == n {
        return None;
    }
    let ghost s = v@.skip(from as int);
    let mut acc: u64 = 0;
    let mut i: usize = from;
    while i < n
        invariant
            from <= i <= n,
            n == v.len(),
            s == v@.skip(from as int),
            limit <= 0x1_0000_0000,
            acc <= limit,
            acc == digits_value(s.take(i - from)),
            forall|j: int| 0 <= j < i - from ==> is_digit(#[trigger] s[j]),
        decreases n - i,
    {
        match digit_of(v[i]) {
            None => {
                assert(!is_digit(s[i - from]));
                return None;
            },
            Some(d) => {
                proof {
                    lemma_digits_value_step(s, i - from);
                }
                acc = acc * 10 + d as u64;
                if acc > limit {
                    proof {
                        lemma_digits_value_prefix(s, i - from + 1);
                    }
                    let mut k: usize = i + 1;
                    while k < n
                        invariant
                            from <= i < k <= n,
                            n == v.len(),
                            s == v@.skip(from as int),
                            digits_value(s) > limit,
                            forall|j: int| 0 <= j < k - from ==> is_digit(#[trigger] s[j]),
                        decreases n - k,
                    {
                        if digit_of(v[k]).is_none() {
                            assert(!is_digit(s[k - from]));
                            return None;
                        }
                        k += 1;
                    }
                    return None;
                }
            },
        }
        i += 1;
    }
    assert(s.take(n - from) =~= s);
    Some(acc)
}

/// The integer written by `v`, where it lies between `min` and `max`.
fn read_int(v: &Vec<char>, signed: bool, min: i64, max: i64) -> (r: Option<i64>)
    requires
        -0x1_0000_0000 <= min <= 0 <= max <= 0x1_0000_0000,
    ensures
        r == match parse_within(v@, signed, min as int, max as int) {
            Some(x) => Some(x as i64),
            None => None,
        },
{
    if v.len() > 0 && v[0] == '+' {
        assert(v@.drop_first() =~= v@.skip(1));
        match read_digits(v, 1, max as u64) {
            Some(x) => Some(x as i64),
            None => None,
        }
    } else if signed && v.len() > 0 && v[0] == '-' {
        assert(v@.drop_first() =~= v@.skip(1));
        match read_digits(v, 1, (-min) as u64) {
            Some(x) => Some(-(x as i64)),
            None => None,
        }
    } else {
        assert(v@.skip(0) =~= v@);
        match read_digits(v, 0, max as u64) {
            Some(x) => Some(x as i64),
            None => None,
        }
    }
}

/// The `i32` written by `v`.
pub fn read_i32(v: &Vec<char>) -> (r: Option<i32>)
    ensures
        r == parse_i32(v@),
{
    match read_int(v, true, -0x8000_0000, 0x7fff_ffff) {
        Some(x) => Some(x as i32),
        None => None,
    }
}

/// The `u16` written by `v`.
pub fn read_u16(v: &Vec<char>) -> (r: Option<u16>)
    ensures
        r == parse_u16(v@),
{
    match read_int(v, false, 0, 0xffff) {
        Some(x) => Some(x as u16),
        None => None,
    }
}

/// Appends the decimal digits of `n` to `out`.
pub fn push_digits(out: &mut Vec<char>, n: u64)
    ensures
        final(out)@ == old(out)@ + digits_of(n as nat),
    decreases n,
{
    if n >= 10 {
        push_digits(out, n / 10);
    }
    let d: u8 = (n % 10) as u8;
    out.push((d + 48) as char);
    proof {
        if n >= 10 {
            assert(final(out)@ =~= old(out)@ + digits_of(n as nat));
        } else {
            assert(final(out)@ =~= old(out)@ + digits_of(n as nat));
        }
    }
}

/// Appends the decimal form of `v` to `out`.
pub fn push_decimal(out: &mut Vec<char>, v: i64)
    ensures
        final(out)@ == old(out)@ + decimal(v as int),
{
    if v < 0 {
        out.push('-');
        let magnitude: u64 = if v == i64::MIN {
            0x8000_0000_0000_0000
        } else {
            (-v) as u64
        };
        push_digits(out, magnitude);
        assert(final(out)@ =~= old(out)@ + decimal(v as int));
    } else {
        push_digits(out, v as u64);
    }
}

} // verus!
