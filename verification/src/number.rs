//! Decimal numbers as text: writing them, and reading them back.
use vstd::prelude::*;

use crate::text::{chars_of, copy_text};

verus! {

/// The character of a decimal digit.
pub open spec fn digit_char(d: nat) -> char
    recommends
        d < 10,
{
    ('0' as u32 + d) as u32 as char
}

/// The decimal form of `n`, without leading zeros.
pub open spec fn decimal(n: nat) -> Seq<char>
    decreases n,
{
    if n < 10 {
        seq![digit_char(n)]
    } else {
        decimal(n / 10).push(digit_char(n % 10))
    }
}

/// The decimal form of `i`, with a `-` in front where it is negative.
pub open spec fn decimal_int(i: int) -> Seq<char> {
    if i < 0 {
        seq!['-'] + decimal((-i) as nat)
    } else {
        decimal(i as nat)
    }
}

/// Whether `c` is an ASCII digit.
pub open spec fn is_digit(c: char) -> bool {
    '0' <= c <= '9'
}

/// The value of an ASCII digit.
pub open spec fn digit_value(c: char) -> nat {
    (c as u32 - '0' as u32) as nat
}

/// The decimal form of a `u64`.
pub fn u64_text(n: u64) -> (out: String)
    ensures
        out@ == decimal(n as nat),
    decreases n,
{
    if n < 10 {
        let mut out = String::new();
        out.push((48u8 + n as u8) as char);
        assert(out@ == decimal(n as nat));
        out
    } else {
        let mut out = u64_text(n / 10);
        out.push((48u8 + (n % 10) as u8) as char);
        out
    }
}

/// The decimal text of a number.
pub fn u128_text(n: u128) -> (out: String)
    ensures
        out@ == decimal(n as nat),
    decreases n,
{
    if n < 10 {
        u64_text(n as u64)
    } else {
        let mut out = u128_text(n / 10);
        out.push((48u8 + (n % 10) as u8) as char);
        out
    }
}

/// The decimal form of an `i64`.
pub fn i64_text(n: i64) -> (out: String)
    ensures
        out@ == decimal_int(n as int),
{
    if n >= 0 {
        return u64_text(n as u64);
    }
    let magnitude: u64 = if n == i64::MIN {
        0x8000_0000_0000_0000
    } else {
        (-n) as u64
    };
    let digits = u64_text(magnitude);
    let mut out = String::new();
    out.push('-');
    out.append(digits.as_str());
    assert(out@ == seq!['-'] + decimal(magnitude as nat));
    out
}

/// Why a text is not a number of the wanted type.
#[derive(Debug, Clone, Copy, PartialEq, Eq, Structural)]
pub enum NumberError {
    /// The text is empty.
    Empty,
    /// Something other than a digit stands where a digit belongs.
    Invalid,
    /// The number does not fit in the type.
    TooLarge,
}

/// What reading digits gives, with `acc` the value of those read before.
pub open spec fn digits_value(s: Seq<char>, acc: nat, max: nat) -> Result<nat, NumberError>
    decreases s.len(),
{
    if s.len() == 0 {
        Ok(acc)
    } else if !is_digit(s[0]) {
        Err(NumberError::Invalid)
    } else if acc * 10 + digit_value(s[0]) > max {
        Err(NumberError::TooLarge)
    } else {
        digits_value(s.drop_first(), acc * 10 + digit_value(s[0]), max)
    }
}

/// The unsigned number up to `max` that `s` writes: digits, after an optional
/// `+`. The first thing wrong, from the left, is the error.
pub open spec fn unsigned_value(s: Seq<char>, max: nat) -> Result<nat, NumberError> {
    if s.len() == 0 {
        Err(NumberError::Empty)
    } else if s == seq!['+'] {
        Err(NumberError::Invalid)
    } else if s[0] == '+' {
        digits_value(s.drop_first(), 0, max)
    } else {
        digits_value(s, 0, max)
    }
}

/// The signed number between `min` and `max` that `s` writes, if it writes one.
pub open spec fn signed_value(s: Seq<char>, min: int, max: int) -> Option<int> {
    if s.len() > 1 && s[0] == '-' {
        match digits_value(s.drop_first(), 0, (-min) as nat) {
            Ok(n) => Some(-(n as int)),
            Err(_) => None,
        }
    } else {
        match unsigned_value(s, max as nat) {
            Ok(n) => Some(n as int),
            Err(_) => None,
        }
    }
}

/// Reads the digits `v[from..]` as a number up to `max`.
fn read_digits(v: &Vec<char>, from: usize, max: u64) -> (r: Result<u64, NumberError>)
    requires
        from <= v.len(),
    ensures
        match r {
            Ok(n) => digits_value(v@.skip(from as int), 0, max as nat) == Ok::<nat, NumberError>(
                n as nat,
            ),
            Err(e) => digits_value(v@.skip(from as int), 0, max as nat) == Err::<
                nat,
                NumberError,
            >(e),
        },
{
    let mut acc: u64 = 0;
    let mut i: usize = from;
    while i < v.len()
        invariant
            from <= i <= v.len(),
            digits_value(v@.skip(from as int), 0, max as nat) == digits_value(
                v@.skip(i as int),
                acc as nat,
                max as nat,
            ),
        decreases v.len() - i,
    {
        let ghost rest = v@.skip(i as int);
        assert(rest.drop_first() == v@.skip(i + 1));
        let c = v[i];
        if c < '0' || c > '9' {
            return Err(NumberError::Invalid);
        }
        let d: u64 = c as u64 - '0' as u64;
        let wide: u128 = acc as u128 * 10 + d as u128;
        if wide > max as u128 {
            return Err(NumberError::TooLarge);
        }
        acc = wide as u64;
        i = i + 1;
    }
    Ok(acc)
}

/// Reads an unsigned decimal number up to `max`.
pub fn parse_unsigned(text: &str, max: u64) -> (r: Result<u64, NumberError>)
    ensures
        match r {
            Ok(n) => unsigned_value(text@, max as nat) == Ok::<nat, NumberError>(n as nat),
            Err(e) => unsigned_value(text@, max as nat) == Err::<nat, NumberError>(e),
        },
{
    let v = chars_of(text);
    if v.len() == 0 {
        return Err(NumberError::Empty);
    }
    if v[0] == '+' {
        if v.len() == 1 {
            assert(v@ == seq!['+']);
            return Err(NumberError::Invalid);
        }
        assert(v@.skip(1) == v@.drop_first());
        return read_digits(&v, 1, max);
    }
    assert(v@.skip(0) == v@);
    read_digits(&v, 0, max)
}

/// Reads a `u64`.
pub fn parse_u64(text: &str) -> (r: Result<u64, NumberError>)
    ensures
        match r {
            Ok(n) => unsigned_value(text@, u64::MAX as nat) == Ok::<nat, NumberError>(n as nat),
            Err(e) => unsigned_value(text@, u64::MAX as nat) == Err::<nat, NumberError>(e),
        },
{
    parse_unsigned(text, u64::MAX)
}

/// Reads a `u32`.
pub fn parse_u32(text: &str) -> (r: Result<u32, NumberError>)
    ensures
        match r {
            Ok(n) => unsigned_value(text@, u32::MAX as nat) == Ok::<nat, NumberError>(n as nat),
            Err(e) => unsigned_value(text@, u32::MAX as nat) == Err::<nat, NumberError>(e),
        },
{
    match parse_unsigned(text, u32::MAX as u64) {
        Ok(n) => {
            proof {
                unsigned_value_fits(text@, u32::MAX as nat);
            }
            Ok(n as u32)
        },
        Err(e) => Err(e),
    }
}

/// Reads an `i64`.
pub fn parse_i64(text: &str) -> (r: Option<i64>)
    ensures
        match r {
            Some(n) => signed_value(text@, i64::MIN as int, i64::MAX as int) == Some(n as int),
            None => signed_value(text@, i64::MIN as int, i64::MAX as int) is None,
        },
{
    let v = chars_of(text);
    if v.len() > 1 && v[0] == '-' {
        assert(v@.skip(1) == v@.drop_first());
        proof {
            digits_value_fits(v@.drop_first(), 0, 0x8000_0000_0000_0000);
        }
        return match read_digits(&v, 1, 0x8000_0000_0000_0000) {
            Ok(n) => {
                if n == 0x8000_0000_0000_0000 {
                    Some(i64::MIN)
                } else {
                    Some(-(n as i64))
                }
            },
            Err(_) => None,
        };
    }
    proof {
        unsigned_value_fits(text@, i64::MAX as nat);
    }
    match parse_unsigned(text, i64::MAX as u64) {
        Ok(n) => Some(n as i64),
        Err(_) => None,
    }
}

proof fn digits_value_fits(s: Seq<char>, acc: nat, max: nat)
    requires
        acc <= max,
    ensures
        digits_value(s, acc, max) matches Ok(n) ==> n <= max,
    decreases s.len(),
{
    if s.len() > 0 && is_digit(s[0]) && acc * 10 + digit_value(s[0]) <= max {
        digits_value_fits(s.drop_first(), acc * 10 + digit_value(s[0]), max);
    }
}

proof fn unsigned_value_fits(s: Seq<char>, max: nat)
    ensures
        unsigned_value(s, max) matches Ok(n) ==> n <= max,
{
    digits_value_fits(s, 0, max);
    if s.len() > 0 {
        digits_value_fits(s.drop_first(), 0, max);
    }
}

/// Every decimal form is made of digits.
pub proof fn decimal_is_digits(n: nat)
    ensures
        decimal(n).len() > 0,
        forall|i: int| 0 <= i < decimal(n).len() ==> is_digit(#[trigger] decimal(n)[i]),
    decreases n,
{
    if n >= 10 {
        decimal_is_digits(n / 10);
    }
}

proof fn digits_value_push(s: Seq<char>, acc: nat, max: nat, c: char)
    requires
        is_digit(c),
        digits_value(s, acc, max) matches Ok(n) && n * 10 + digit_value(c) <= max,
    ensures
        digits_value(s.push(c), acc, max) == Ok::<nat, NumberError>(
            (digits_value(s, acc, max)->Ok_0 * 10 + digit_value(c)) as nat,
        ),
    decreases s.len(),
{
    if s.len() == 0 {
        assert(s.push(c).drop_first() == s);
        assert(digits_value(s, acc * 10 + digit_value(c), max) == Ok::<nat, NumberError>(
            acc * 10 + digit_value(c),
        ));
    } else {
        assert(s.push(c).drop_first() == s.drop_first().push(c));
        digits_value_push(s.drop_first(), acc * 10 + digit_value(s[0]), max, c);
    }
}

proof fn decimal_digits_value(n: nat, max: nat)
    requires
        n <= max,
    ensures
        digits_value(decimal(n), 0, max) == Ok::<nat, NumberError>(n),
    decreases n,
{
    if n < 10 {
        let s = decimal(n);
        assert(s.drop_first() == Seq::<char>::empty());
        assert(digits_value(s.drop_first(), n, max) == Ok::<nat, NumberError>(n));
    } else {
        decimal_digits_value(n / 10, max);
        digits_value_push(decimal(n / 10), 0, max, digit_char(n % 10));
    }
}

/// Reading the decimal form of a number gives the number back.
pub proof fn decimal_reads_back(n: nat, max: nat)
    requires
        n <= max,
    ensures
        unsigned_value(decimal(n), max) == Ok::<nat, NumberError>(n),
{
    decimal_is_digits(n);
    decimal_digits_value(n, max);
    assert(is_digit(decimal(n)[0]));
    assert(seq!['+'][0] == '+');
}

/// Reading the decimal form of a signed number gives the number back.
pub proof fn decimal_int_reads_back(i: int, min: int, max: int)
    requires
        min <= i <= max,
        min <= 0 <= max,
    ensures
        signed_value(decimal_int(i), min, max) == Some(i),
{
    if i < 0 {
        decimal_is_digits((-i) as nat);
        decimal_digits_value((-i) as nat, (-min) as nat);
        assert(decimal_int(i).drop_first() == decimal((-i) as nat));
    } else {
        decimal_is_digits(i as nat);
        decimal_reads_back(i as nat, max as nat);
        assert(is_digit(decimal(i as nat)[0]));
    }
}

/// What is said of a text that is not a number.
pub open spec fn number_error_text(e: NumberError) -> Seq<char> {
    match e {
        NumberError::Empty => "cannot parse integer from empty string"@,
        NumberError::Invalid => "invalid digit found in string"@,
        NumberError::TooLarge => "number too large to fit in target type"@,
    }
}

/// The message for a text that is not a number.
pub fn number_error(e: NumberError) -> (out: String)
    ensures
        out@ == number_error_text(e),
{
    match e {
        NumberError::Empty => copy_text("cannot parse integer from empty string"),
        NumberError::Invalid => copy_text("invalid digit found in string"),
        NumberError::TooLarge => copy_text("number too large to fit in target type"),
    }
}

/// A number that is read is one between the bounds.
pub proof fn signed_value_is_in_range(s: Seq<char>, min: int, max: int)
    requires
        min <= 0 <= max,
    ensures
        signed_value(s, min, max) matches Some(n) ==> min <= n <= max,
{
    digits_value_fits(s, 0, max as nat);
    if s.len() > 0 {
        digits_value_fits(s.drop_first(), 0, max as nat);
        digits_value_fits(s.drop_first(), 0, (-min) as nat);
    }
}

/// A number that does not fit is refused as too large.
pub proof fn a_number_that_does_not_fit_is_refused(n: nat, max: nat)
    requires
        n > max,
    ensures
        unsigned_value(decimal(n), max) == Err::<nat, NumberError>(NumberError::TooLarge),
{
    decimal_is_digits(n);
    assert(is_digit(decimal(n)[0]));
    assert(seq!['+'][0] == '+');
    too_large(n, max);
}

proof fn too_large(n: nat, max: nat)
    requires
        n > max,
    ensures
        digits_value(decimal(n), 0, max) == Err::<nat, NumberError>(NumberError::TooLarge),
    decreases n,
{
    if n >= 10 {
        let head = decimal(n / 10);
        let c = digit_char(n % 10);
        assert(decimal(n) == head.push(c));
        if n / 10 > max {
            too_large(n / 10, max);
            an_error_stays(head, 0, max, c);
        } else {
            decimal_digits_value(n / 10, max);
            one_digit_too_many(head, 0, max, c);
        }
    } else {
        let c = digit_char(n);
        assert(decimal(n) == seq![c]);
        assert(digits_value(Seq::<char>::empty(), 0, max) == Ok::<nat, NumberError>(0));
        one_digit_too_many(Seq::<char>::empty(), 0, max, c);
        assert(Seq::<char>::empty().push(c) == seq![c]);
    }
}

proof fn one_digit_too_many(s: Seq<char>, acc: nat, max: nat, c: char)
    requires
        is_digit(c),
        digits_value(s, acc, max) matches Ok(n) && n * 10 + digit_value(c) > max,
    ensures
        digits_value(s.push(c), acc, max) == Err::<nat, NumberError>(NumberError::TooLarge),
    decreases s.len(),
{
    if s.len() > 0 {
        one_digit_too_many(s.drop_first(), acc * 10 + digit_value(s[0]), max, c);
        assert(s.push(c).drop_first() == s.drop_first().push(c));
    }
}

proof fn an_error_stays(s: Seq<char>, acc: nat, max: nat, c: char)
    requires
        digits_value(s, acc, max) is Err,
    ensures
        digits_value(s.push(c), acc, max) == digits_value(s, acc, max),
    decreases s.len(),
{
    if s.len() > 0 && is_digit(s[0]) && acc * 10 + digit_value(s[0]) <= max {
        an_error_stays(s.drop_first(), acc * 10 + digit_value(s[0]), max, c);
        assert(s.push(c).drop_first() == s.drop_first().push(c));
    }
}

/// Only digits are read as a number, with a plus sign before them or none.
pub proof fn only_digits_are_a_number(s: Seq<char>, max: nat)
    requires
        unsigned_value(s, max) is Ok,
    ensures
        s.len() > 0,
        forall|i: int| 1 <= i < s.len() ==> is_digit(#[trigger] s[i]),
        is_digit(s[0]) || (s[0] == '+' && s.len() > 1),
{
    if s[0] == '+' {
        read_digits_are_digits(s.drop_first(), 0, max);
        assert forall|i: int| 1 <= i < s.len() implies is_digit(#[trigger] s[i]) by {
            assert(s.drop_first()[i - 1] == s[i]);
        }
        if s.len() == 1 {
            assert(s == seq!['+']);
        }
    } else {
        read_digits_are_digits(s, 0, max);
    }
}

proof fn read_digits_are_digits(s: Seq<char>, acc: nat, max: nat)
    requires
        digits_value(s, acc, max) is Ok,
    ensures
        forall|i: int| 0 <= i < s.len() ==> is_digit(#[trigger] s[i]),
    decreases s.len(),
{
    if s.len() > 0 {
        read_digits_are_digits(s.drop_first(), acc * 10 + digit_value(s[0]), max);
        assert forall|i: int| 0 <= i < s.len() implies is_digit(#[trigger] s[i]) by {
            if i > 0 {
                assert(s.drop_first()[i - 1] == s[i]);
            }
        }
    }
}

} // verus!
