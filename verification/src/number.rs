//! Integers as decimal text: how they are written and how they are read.

use vstd::prelude::*;
use crate::text::{chars_of, is_digit};

verus! {

/// Why a text is not an integer of the wanted type.
#[derive(Clone, Copy, Debug, PartialEq, Eq, Structural)]
pub enum IntError {
    Empty,
    InvalidDigit,
    TooLarge,
    TooSmall,
}

impl IntError {
    pub open spec fn text(self) -> Seq<char> {
        match self {
            IntError::Empty => "cannot parse integer from empty string"@,
            IntError::InvalidDigit => "invalid digit found in string"@,
            IntError::TooLarge => "number too large to fit in target type"@,
            IntError::TooSmall => "number too small to fit in target type"@,
        }
    }

    /// The error in words.
    pub fn message(self) -> (r: &'static str)
        ensures
            r@ == self.text(),
    {
        match self {
            IntError::Empty => "cannot parse integer from empty string",
            IntError::InvalidDigit => "invalid digit found in string",
            IntError::TooLarge => "number too large to fit in target type",
            IntError::TooSmall => "number too small to fit in target type",
        }
    }
}

pub open spec fn digit_char(d: nat) -> char {
    (48 + d) as char
}

pub open spec fn digit_value(c: char) -> nat {
    (c as nat - 48) as nat
}

/// The decimal digits of a number, without leading zeros.
pub open spec fn decimal(n: nat) -> Seq<char>
    decreases n,
{
    if n < 10 {
        seq![digit_char(n)]
    } else {
        decimal(n / 10).push(digit_char(n % 10))
    }
}

/// The decimal text of a number that may be negative.
pub open spec fn signed_decimal(n: int) -> Seq<char> {
    if n < 0 {
        seq!['-'] + decimal((-n) as nat)
    } else {
        decimal(n as nat)
    }
}

/// The number that digits add to `acc`, read from left to right. The first character that is
/// no digit, or that takes the number past `max`, decides which error comes.
pub open spec fn read_digits(s: Seq<char>, acc: nat, max: nat) -> Result<nat, IntError>
    decreases s.len(),
{
    if s.len() == 0 {
        Ok(acc)
    } else if !is_digit(s[0]) {
        Err(IntError::InvalidDigit)
    } else if acc * 10 + digit_value(s[0]) > max {
        Err(IntError::TooLarge)
    } else {
        read_digits(s.skip(1), acc * 10 + digit_value(s[0]), max)
    }
}

/// An unsigned integer up to `max`: digits, with a plus sign allowed before them.
pub open spec fn read_unsigned(s: Seq<char>, max: nat) -> Result<nat, IntError> {
    if s.len() == 0 {
        Err(IntError::Empty)
    } else if s[0] == '+' && s.len() > 1 {
        read_digits(s.skip(1), 0, max)
    } else {
        read_digits(s, 0, max)
    }
}

/// A signed integer of 64 bits: digits, with a sign allowed before them.
pub open spec fn read_signed(s: Seq<char>) -> Result<int, IntError> {
    if s.len() == 0 {
        Err(IntError::Empty)
    } else if s[0] == '-' && s.len() > 1 {
        match read_digits(s.skip(1), 0, 0x8000_0000_0000_0000) {
            Ok(n) => Ok(-(n as int)),
            Err(IntError::TooLarge) => Err(IntError::TooSmall),
            Err(e) => Err(e),
        }
    } else {
        match read_unsigned(s, 0x7fff_ffff_ffff_ffff) {
            Ok(n) => Ok(n as int),
            Err(e) => Err(e),
        }
    }
}

/// What is read of a number's own digits is the number.
pub proof fn lemma_read_decimal(n: nat, max: nat)
    requires
        n <= max,
    ensures
        read_digits(decimal(n), 0, max) == Ok::<nat, IntError>(n),
    decreases n,
{
    if n < 10 {
        let s = decimal(n);
        assert(s.skip(1) == Seq::<char>::empty());
        assert(read_digits(s.skip(1), n, max) == Ok::<nat, IntError>(n));
        assert(digit_value(s[0]) == n);
    } else {
        lemma_read_decimal(n / 10, max);
        lemma_read_push(decimal(n / 10), 0, max, n / 10, n % 10);
    }
}

/// Reading goes on where it stopped.
proof fn lemma_read_push(s: Seq<char>, acc: nat, max: nat, m: nat, d: nat)
    requires
        read_digits(s, acc, max) == Ok::<nat, IntError>(m),
        d < 10,
        m * 10 + d <= max,
    ensures
        read_digits(s.push(digit_char(d)), acc, max) == Ok::<nat, IntError>(m * 10 + d),
    decreases s.len(),
{
    let t = s.push(digit_char(d));
    if s.len() == 0 {
        assert(t[0] == digit_char(d));
        assert(digit_value(t[0]) == d);
        assert(t.skip(1) == Seq::<char>::empty());
        assert(read_digits(t.skip(1), m * 10 + d, max) == Ok::<nat, IntError>(m * 10 + d));
    } else {
        assert(t[0] == s[0]);
        assert(t.skip(1) == s.skip(1).push(digit_char(d)));
        lemma_read_push(s.skip(1), acc * 10 + digit_value(s[0]), max, m, d);
    }
}

/// An error met on the way stays.
proof fn lemma_read_push_error(s: Seq<char>, acc: nat, max: nat, c: char)
    requires
        read_digits(s, acc, max) is Err,
    ensures
        read_digits(s.push(c), acc, max) == read_digits(s, acc, max),
    decreases s.len(),
{
    let t = s.push(c);
    assert(t[0] == s[0]);
    if is_digit(s[0]) && acc * 10 + digit_value(s[0]) <= max {
        assert(t.skip(1) == s.skip(1).push(c));
        lemma_read_push_error(s.skip(1), acc * 10 + digit_value(s[0]), max, c);
    }
}

/// A last digit may take the number past the bound.
proof fn lemma_read_push_too_large(s: Seq<char>, acc: nat, max: nat, m: nat, d: nat)
    requires
        read_digits(s, acc, max) == Ok::<nat, IntError>(m),
        d < 10,
        m * 10 + d > max,
    ensures
        read_digits(s.push(digit_char(d)), acc, max) == Err::<nat, IntError>(IntError::TooLarge),
    decreases s.len(),
{
    let t = s.push(digit_char(d));
    if s.len() == 0 {
        assert(t[0] == digit_char(d));
        assert(digit_value(t[0]) == d);
    } else {
        assert(t[0] == s[0]);
        assert(t.skip(1) == s.skip(1).push(digit_char(d)));
        lemma_read_push_too_large(s.skip(1), acc * 10 + digit_value(s[0]), max, m, d);
    }
}

/// A number's own digits are refused where the number is too large.
pub proof fn lemma_read_too_large(n: nat, max: nat)
    requires
        n > max,
    ensures
        read_digits(decimal(n), 0, max) == Err::<nat, IntError>(IntError::TooLarge),
        read_unsigned(decimal(n), max) == Err::<nat, IntError>(IntError::TooLarge),
    decreases n,
{
    if n < 10 {
        assert(digit_value(decimal(n)[0]) == n);
    } else {
        let before = decimal(n / 10);
        if n / 10 > max {
            lemma_read_too_large(n / 10, max);
            lemma_read_push_error(before, 0, max, digit_char(n % 10));
        } else {
            lemma_read_decimal(n / 10, max);
            lemma_read_push_too_large(before, 0, max, n / 10, n % 10);
        }
    }
    lemma_decimal_digits(n);
    assert(is_digit(decimal(n)[0]));
}

/// The decimal text of a number has at least one character, and all are digits.
pub proof fn lemma_decimal_digits(n: nat)
    ensures
        decimal(n).len() > 0,
        forall|i: int| 0 <= i < decimal(n).len() ==> is_digit(#[trigger] decimal(n)[i]),
    decreases n,
{
    if n >= 10 {
        lemma_decimal_digits(n / 10);
    }
}

/// An unsigned integer is read back from its decimal text.
pub proof fn lemma_unsigned_round_trip(n: nat, max: nat)
    requires
        n <= max,
    ensures
        read_unsigned(decimal(n), max) == Ok::<nat, IntError>(n),
{
    lemma_decimal_digits(n);
    lemma_read_decimal(n, max);
    assert(is_digit(decimal(n)[0]));
}

/// A signed integer is read back from its decimal text.
pub proof fn lemma_signed_round_trip(n: int)
    requires
        -0x8000_0000_0000_0000 <= n <= 0x7fff_ffff_ffff_ffff,
    ensures
        read_signed(signed_decimal(n)) == Ok::<int, IntError>(n),
{
    if n < 0 {
        let s = signed_decimal(n);
        let m = (-n) as nat;
        lemma_decimal_digits(m);
        lemma_read_decimal(m, 0x8000_0000_0000_0000);
        assert(s.skip(1) == decimal(m));
    } else {
        lemma_decimal_digits(n as nat);
        assert(is_digit(decimal(n as nat)[0]));
        lemma_unsigned_round_trip(n as nat, 0x7fff_ffff_ffff_ffff);
    }
}

fn to_digit(d: u8) -> (c: char)
    requires
        d < 10,
    ensures
        c == digit_char(d as nat),
{
    (48 + d) as char
}

/// The decimal text of a number.
pub fn to_decimal(n: u128) -> (r: String)
    ensures
        r@ == decimal(n as nat),
    decreases n,
{
    if n < 10 {
        let mut s = String::new();
        s.push(to_digit(n as u8));
        s
    } else {
        let mut s = to_decimal(n / 10);
        s.push(to_digit((n % 10) as u8));
        s
    }
}

/// The decimal text of a number that may be negative.
pub fn to_signed_decimal(n: i64) -> (r: String)
    ensures
        r@ == signed_decimal(n as int),
{
    if n < 0 {
        let mut s = String::new();
        s.push('-');
        s.append(to_decimal((-(n as i128)) as u128).as_str());
        assert(s@ == seq!['-'] + decimal((-n) as nat));
        s
    } else {
        to_decimal(n as u128)
    }
}

/// The number that the digits from `from` on make up.
fn parse_digits(chars: &Vec<char>, from: usize, max: u64) -> (r: Result<u64, IntError>)
    requires
        from <= chars@.len(),
    ensures
        match r {
            Ok(n) => read_digits(chars@.skip(from as int), 0, max as nat) == Ok::<nat, IntError>(
                n as nat,
            ),
            Err(e) => read_digits(chars@.skip(from as int), 0, max as nat) == Err::<nat, IntError>(e),
        },
{
    let mut acc: u64 = 0;
    let mut i: usize = from;
    while i < chars.len()
        invariant
            from <= i <= chars@.len(),
            acc <= max,
            read_digits(chars@.skip(from as int), 0, max as nat) == read_digits(
                chars@.skip(i as int),
                acc as nat,
                max as nat,
            ),
        decreases chars@.len() - i,
    {
        let c = chars[i];
        let ghost rest = chars@.skip(i as int);
        assert(rest[0] == c);
        assert(rest.skip(1) == chars@.skip(i + 1));
        if !('0' <= c && c <= '9') {
            return Err(IntError::InvalidDigit);
        }
        let next: u128 = acc as u128 * 10 + (c as u8 - 48) as u128;
        if next > max as u128 {
            return Err(IntError::TooLarge);
        }
        acc = next as u64;
        i = i + 1;
    }
    Ok(acc)
}

/// Reads an unsigned integer that is at most `max`.
pub fn parse_unsigned(s: &str, max: u64) -> (r: Result<u64, IntError>)
    ensures
        match r {
            Ok(n) => read_unsigned(s@, max as nat) == Ok::<nat, IntError>(n as nat),
            Err(e) => read_unsigned(s@, max as nat) == Err::<nat, IntError>(e),
        },
{
    let chars = chars_of(s);
    if chars.len() == 0 {
        return Err(IntError::Empty);
    }
    if chars[0] == '+' && chars.len() > 1 {
        parse_digits(&chars, 1, max)
    } else {
        assert(chars@.skip(0) == chars@);
        parse_digits(&chars, 0, max)
    }
}

/// Reads a signed integer of 64 bits.
pub fn parse_signed(s: &str) -> (r: Result<i64, IntError>)
    ensures
        match r {
            Ok(n) => read_signed(s@) == Ok::<int, IntError>(n as int),
            Err(e) => read_signed(s@) == Err::<int, IntError>(e),
        },
{
    let chars = chars_of(s);
    if chars.len() > 1 && chars[0] == '-' {
        match parse_digits(&chars, 1, 0x8000_0000_0000_0000) {
            Ok(n) => {
                proof {
                    lemma_read_bound(chars@.skip(1), 0, 0x8000_0000_0000_0000);
                }
                Ok((-(n as i128)) as i64)
            },
            Err(IntError::TooLarge) => Err(IntError::TooSmall),
            Err(e) => Err(e),
        }
    } else {
        match parse_unsigned(s, 0x7fff_ffff_ffff_ffff) {
            Ok(n) => {
                proof {
                    lemma_unsigned_bound(s@, 0x7fff_ffff_ffff_ffff);
                }
                Ok(n as i64)
            },
            Err(e) => Err(e),
        }
    }
}

/// A number that is read stays within the bound.
pub proof fn lemma_read_bound(s: Seq<char>, acc: nat, max: nat)
    requires
        acc <= max,
    ensures
        read_digits(s, acc, max) matches Ok(n) ==> n <= max,
    decreases s.len(),
{
    if s.len() > 0 && is_digit(s[0]) && acc * 10 + digit_value(s[0]) <= max {
        lemma_read_bound(s.skip(1), acc * 10 + digit_value(s[0]), max);
    }
}

/// An unsigned integer that is read stays within the bound.
pub proof fn lemma_unsigned_bound(s: Seq<char>, max: nat)
    ensures
        read_unsigned(s, max) matches Ok(n) ==> n <= max,
{
    lemma_read_bound(s, 0, max);
    lemma_read_bound(s.skip(1), 0, max);
}

/// A signed integer that is read fits in 64 bits.
pub proof fn lemma_signed_bound(s: Seq<char>)
    ensures
        read_signed(s) matches Ok(n) ==> -0x8000_0000_0000_0000 <= n <= 0x7fff_ffff_ffff_ffff,
{
    lemma_read_bound(s.skip(1), 0, 0x8000_0000_0000_0000);
    lemma_unsigned_bound(s, 0x7fff_ffff_ffff_ffff);
}

} // verus!
