//! What text, integers, floating-point numbers and ranges come to, in terms of characters, digits
//! and bits.

use vstd::prelude::*;
use vstd::arithmetic::div_mod::lemma_fundamental_div_mod_converse;
use vstd::arithmetic::power2::{lemma2_to64, lemma2_to64_rest, pow2};
use crate::error::{FloatError, Refusal};
use crate::floating::{lemma_order, Double, Single};
use crate::hardware::{Coupling, InputRange, SUPPORTED_RANGES};
use crate::lines::{is_word, lemma_one_word};
use crate::model::{coupling_named, edge_named, flag, is_waveform};
use crate::number::{
    decimal, digit_value, lemma_read_decimal, lemma_read_too_large, lemma_unsigned_round_trip,
    read_digits, read_signed, read_unsigned, signed_decimal, IntError,
};
use crate::state::TriggerEdge;
use crate::text::{
    all_digits, has_prefix, is_blank, is_digit, joined, lemma_run, lemma_run_is, lemma_trailing,
    occurs_at, occurs_in, run_length, same_ignoring_case, string_texts, texts, trailing_blanks,
    trimmed, upper_char, uppercase, words, CharClass,
};

verus! {

// ---------------------------------------------------------------------------
// Text

/// Blanks are the characters that Unicode calls white space.
pub proof fn law_blank_characters(c: char)
    ensures
        ({
            let code = c as int;
            is_blank(c) == (9 <= code <= 13 || code == 0x20 || code == 0x85 || code == 0xa0 || code
                == 0x1680 || 0x2000 <= code <= 0x200a || code == 0x2028 || code == 0x2029 || code
                == 0x202f || code == 0x205f || code == 0x3000)
        }),
{
}

/// Digits are the ten of ASCII, and only ASCII letters have an upper case, 32 below them.
pub proof fn law_digits_and_letters(c: char)
    ensures
        is_digit(c) == (48 <= c as int <= 57),
        (upper_char(c) as int) == if 97 <= c as int <= 122 {
            c as int - 32
        } else {
            c as int
        },
{
}

/// Upper case goes character by character.
pub proof fn law_uppercase(s: Seq<char>, i: int)
    ensures
        uppercase(s).len() == s.len(),
        0 <= i < s.len() ==> (uppercase(s)[i] as int) == if 97 <= s[i] as int <= 122 {
            s[i] as int - 32
        } else {
            s[i] as int
        },
{
}

/// Two texts are the same in any case of letters exactly if they are as long and each two characters
/// are the same or differ by the case of a letter.
pub proof fn law_same_in_any_case(a: Seq<char>, b: Seq<char>)
    ensures
        same_ignoring_case(a, b) == (a.len() == b.len() && forall|i: int|
            0 <= i < a.len() ==> upper_char(#[trigger] a[i]) == upper_char(b[i])),
{
    if a.len() == b.len() && (forall|i: int|
        0 <= i < a.len() ==> upper_char(#[trigger] a[i]) == upper_char(b[i])) {
        assert(uppercase(a) == uppercase(b));
    }
    if same_ignoring_case(a, b) {
        assert(uppercase(a).len() == uppercase(b).len());
        assert forall|i: int| 0 <= i < a.len() implies upper_char(#[trigger] a[i]) == upper_char(
            b[i],
        ) by {
            assert(uppercase(a)[i] == uppercase(b)[i]);
        }
    }
}

/// Trimming takes the blanks off both ends, all of them and nothing else.
pub proof fn law_trimming(s: Seq<char>)
    ensures
        exists|a: int, b: int|
            #![trigger s.subrange(a, b)]
            0 <= a <= b <= s.len() && trimmed(s) == s.subrange(a, b) && (forall|i: int|
                0 <= i < a || b <= i < s.len() ==> is_blank(#[trigger] s[i])) && (a < b
                ==> !is_blank(s[a]) && !is_blank(s[b - 1])),
{
    let a = run_length(s, CharClass::Blank) as int;
    lemma_run(s, CharClass::Blank);
    let t = s.skip(a);
    lemma_trailing(t);
    let b = s.len() - trailing_blanks(t);
    assert(trimmed(s) == s.subrange(a, b));
    assert forall|i: int| 0 <= i < a || b <= i < s.len() implies is_blank(#[trigger] s[i]) by {
        if i < a {
            assert(CharClass::Blank.has(s[i]));
        } else {
            assert(t[i - a] == s[i]);
        }
    }
    if a < b {
        assert(t[b - a - 1] == s[b - 1]);
    }
}

/// The words of a text: there are none in nothing, a blank before them does not count, a word that
/// ends at a blank comes before the words behind it, and a word alone is the only one. This says of
/// every text what its words are.
pub proof fn law_words(word: Seq<char>, blank: char, rest: Seq<char>)
    requires
        is_word(word),
        is_blank(blank),
    ensures
        words(Seq::empty()) == Seq::<Seq<char>>::empty(),
        words(seq![blank] + rest) == words(rest),
        words(word + seq![blank] + rest) == seq![word] + words(rest),
        words(word) == seq![word],
{
    let nothing = Seq::<char>::empty();
    assert(nothing.skip(0) == nothing);
    lemma_blank_first(blank, rest);
    lemma_one_word(word);
    let s = word + seq![blank] + rest;
    assert(s[0] == word[0]);
    lemma_run_is(s, CharClass::Blank, 0);
    assert(s.skip(0) == s);
    assert forall|i: int| 0 <= i < word.len() implies CharClass::Word.has(#[trigger] s[i]) by {
        assert(s[i] == word[i]);
    }
    assert(s[word.len() as int] == blank);
    lemma_run_is(s, CharClass::Word, word.len());
    assert(s.take(word.len() as int) == word);
    assert(s.skip(word.len() as int) == seq![blank] + rest);
}

/// A blank before a text does not count.
proof fn lemma_blank_first(blank: char, rest: Seq<char>)
    requires
        is_blank(blank),
    ensures
        words(seq![blank] + rest) == words(rest),
{
    let s = seq![blank] + rest;
    lemma_run(rest, CharClass::Blank);
    let n = run_length(rest, CharClass::Blank);
    assert(s.skip(1) == rest);
    assert(run_length(s, CharClass::Blank) == n + 1);
    assert(s.skip((n + 1) as int) == rest.skip(n as int));
}

/// Pieces are joined in their order, with the separator between each two and nowhere else.
pub proof fn law_joining(parts: Seq<Seq<char>>, part: Seq<char>, separator: Seq<char>)
    ensures
        joined(Seq::empty(), separator) == Seq::<char>::empty(),
        joined(seq![part], separator) == part,
        parts.len() > 0 ==> joined(parts.push(part), separator) == joined(parts, separator)
            + separator + part,
{
    assert(parts.push(part).drop_last() == parts);
}

/// What it is to start with a text, to hold a text, to be all digits, and to be a list of texts.
pub proof fn law_parts_of_texts(
    s: Seq<char>,
    part: Seq<char>,
    slices: Seq<&str>,
    strings: Seq<String>,
)
    ensures
        has_prefix(s, part) == (exists|rest: Seq<char>| s == #[trigger] (part + rest)),
        occurs_in(part, s) == (exists|a: Seq<char>, b: Seq<char>| s == #[trigger] (a + part + b)),
        all_digits(s) == (forall|i: int| 0 <= i < s.len() ==> 48 <= #[trigger] s[i] as int <= 57),
        texts(slices).len() == slices.len(),
        forall|i: int| 0 <= i < slices.len() ==> #[trigger] texts(slices)[i] == slices[i]@,
        string_texts(strings).len() == strings.len(),
        forall|i: int| 0 <= i < strings.len() ==> #[trigger] string_texts(strings)[i] == strings[i]@,
{
    if has_prefix(s, part) {
        assert(s == part + s.skip(part.len() as int));
    }
    if exists|rest: Seq<char>| s == #[trigger] (part + rest) {
        let rest = choose|rest: Seq<char>| s == #[trigger] (part + rest);
        assert(s.take(part.len() as int) == part);
    }
    if occurs_in(part, s) {
        let i = choose|i: int| #[trigger] occurs_at(part, s, i);
        assert(s == s.take(i) + part + s.skip(i + part.len()));
    }
    if exists|a: Seq<char>, b: Seq<char>| s == #[trigger] (a + part + b) {
        let (a, b) = choose|a: Seq<char>, b: Seq<char>| s == #[trigger] (a + part + b);
        assert(s.subrange(a.len() as int, (a.len() + part.len()) as int) == part);
        assert(occurs_at(part, s, a.len() as int));
    }
}

// ---------------------------------------------------------------------------
// Integers

/// The decimal text of a number: its last digit is the remainder by ten, and what is before it is
/// the text of the quotient.
pub proof fn law_decimal_text(n: nat)
    ensures
        decimal(n).len() >= 1,
        (decimal(n).last() as int) == 48 + n % 10,
        n < 10 ==> decimal(n).len() == 1,
        n >= 10 ==> decimal(n).drop_last() == decimal(n / 10),
{
    if n >= 10 {
        assert(decimal(n).drop_last() == decimal(n / 10));
    }
}

/// A negative number has a minus sign before the text of its opposite, and no other has a sign.
pub proof fn law_signed_text(n: nat)
    ensures
        signed_decimal(n as int) == decimal(n),
        n > 0 ==> signed_decimal(-(n as int)) == seq!['-'] + decimal(n),
{
}

/// A number is read from its text, with or without a plus sign, if it fits; no text of a number that
/// does not fit is read, nor is an empty one.
pub proof fn law_numbers_are_read(n: nat, max: nat)
    ensures
        read_unsigned(decimal(n), max) == if n <= max {
            Ok::<nat, IntError>(n)
        } else {
            Err(IntError::TooLarge)
        },
        read_unsigned(seq!['+'] + decimal(n), max) == read_unsigned(decimal(n), max),
        read_unsigned(Seq::empty(), max) == Err::<nat, IntError>(IntError::Empty),
{
    if n <= max {
        lemma_unsigned_round_trip(n, max);
        lemma_read_decimal(n, max);
    } else {
        lemma_read_too_large(n, max);
    }
    law_decimal_text(n);
    assert((seq!['+'] + decimal(n)).skip(1) == decimal(n));
}

/// Digits are read from left to right: another digit makes ten times the number and the digit, if
/// that still fits. The first character that is no digit, or that makes the number too large, decides
/// which error comes; what follows does not count.
pub proof fn law_digits_are_read_on(s: Seq<char>, max: nat, c: char, rest: Seq<char>)
    ensures
        read_digits(Seq::empty(), 0, max) == Ok::<nat, IntError>(0),
        match read_digits(s, 0, max) {
            Ok(m) => {
                &&& 48 <= c as int <= 57 && m * 10 + (c as int - 48) <= max ==> read_digits(
                    s.push(c),
                    0,
                    max,
                ) == Ok::<nat, IntError>((m * 10 + (c as int - 48)) as nat)
                &&& 48 <= c as int <= 57 && m * 10 + (c as int - 48) > max ==> read_digits(
                    s.push(c),
                    0,
                    max,
                ) == Err::<nat, IntError>(IntError::TooLarge)
                &&& !(48 <= c as int <= 57) ==> read_digits(s.push(c), 0, max) == Err::<
                    nat,
                    IntError,
                >(IntError::InvalidDigit)
            },
            Err(error) => read_digits(s + rest, 0, max) == Err::<nat, IntError>(error),
        },
{
    lemma_read_on(s, 0, max, c);
    if read_digits(s, 0, max) is Err {
        lemma_read_error(s, 0, max, rest);
    }
}

proof fn lemma_read_on(s: Seq<char>, acc: nat, max: nat, c: char)
    ensures
        read_digits(s, acc, max) matches Ok(m) ==> read_digits(s.push(c), acc, max) == if !is_digit(
            c,
        ) {
            Err::<nat, IntError>(IntError::InvalidDigit)
        } else if m * 10 + (c as int - 48) > max {
            Err(IntError::TooLarge)
        } else {
            Ok((m * 10 + (c as int - 48)) as nat)
        },
    decreases s.len(),
{
    let t = s.push(c);
    if s.len() == 0 {
        assert(t[0] == c);
        assert(t.skip(1) == Seq::<char>::empty());
        reveal_with_fuel(read_digits, 2);
    } else {
        assert(t[0] == s[0]);
        assert(t.skip(1) == s.skip(1).push(c));
        if is_digit(s[0]) && acc * 10 + digit_value(s[0]) <= max {
            lemma_read_on(s.skip(1), acc * 10 + digit_value(s[0]), max, c);
        }
    }
}

proof fn lemma_read_error(s: Seq<char>, acc: nat, max: nat, rest: Seq<char>)
    requires
        read_digits(s, acc, max) is Err,
    ensures
        read_digits(s + rest, acc, max) == read_digits(s, acc, max),
    decreases s.len(),
{
    let t = s + rest;
    assert(t[0] == s[0]);
    if is_digit(s[0]) && acc * 10 + digit_value(s[0]) <= max {
        assert(t.skip(1) == s.skip(1) + rest);
        lemma_read_error(s.skip(1), acc * 10 + digit_value(s[0]), max, rest);
    }
}

/// An unsigned number may have one plus sign, if something follows it.
pub proof fn law_plus_sign(s: Seq<char>, max: nat)
    requires
        s.len() > 0,
    ensures
        s[0] == '+' && s.len() > 1 ==> read_unsigned(s, max) == read_digits(s.skip(1), 0, max),
        s[0] != '+' || s.len() == 1 ==> read_unsigned(s, max) == read_digits(s, 0, max),
{
}

/// A signed number is read as an unsigned one of 63 bits, or behind a minus sign as the opposite of
/// one of at most two to the power 63; what is too large there is too small.
pub proof fn law_signed_numbers_are_read(s: Seq<char>)
    requires
        s.len() > 0,
    ensures
        s[0] != '-' || s.len() == 1 ==> match read_unsigned(s, 0x7fff_ffff_ffff_ffff) {
            Ok(n) => read_signed(s) == Ok::<int, IntError>(n as int),
            Err(error) => read_signed(s) == Err::<int, IntError>(error),
        },
        s[0] == '-' && s.len() > 1 ==> match read_digits(s.skip(1), 0, 0x8000_0000_0000_0000) {
            Ok(n) => read_signed(s) == Ok::<int, IntError>(-(n as int)),
            Err(IntError::TooLarge) => read_signed(s) == Err::<int, IntError>(IntError::TooSmall),
            Err(error) => read_signed(s) == Err::<int, IntError>(error),
        },
        read_signed(Seq::empty()) == Err::<int, IntError>(IntError::Empty),
{
}

// ---------------------------------------------------------------------------
// Floating-point numbers

/// The value of a pattern of 64 bits, in units of two to the power minus 1074: its fraction where
/// the exponent is zero, and otherwise the fraction behind a leading one, doubled as often as the
/// exponent says less one. The sign bit makes it negative.
pub proof fn law_double_values(exponent: nat, fraction: nat)
    requires
        exponent < 2047,
        fraction < 0x10_0000_0000_0000,
    ensures
        ({
            let bits = exponent * 0x10_0000_0000_0000 + fraction;
            let value = if exponent == 0 {
                fraction as int
            } else {
                (0x10_0000_0000_0000 + fraction) * pow2((exponent - 1) as nat) as int
            };
            &&& (Double { bits: bits as u64 }).value() == value
            &&& (Double { bits: (0x8000_0000_0000_0000 + bits) as u64 }).value() == -value
            &&& !(Double { bits: bits as u64 }).is_nan()
        }),
{
    lemma2_to64();
    lemma2_to64_rest();
    let unit = 0x10_0000_0000_0000int;
    let bits = exponent * unit + fraction;
    lemma_fundamental_div_mod_converse(bits, unit, exponent as int, fraction as int);
    assert(pow2(52) == unit);
}

/// The value of a pattern of 32 bits, in units of two to the power minus 149.
pub proof fn law_single_values(exponent: nat, fraction: nat)
    requires
        exponent < 255,
        fraction < 0x80_0000,
    ensures
        ({
            let bits = exponent * 0x80_0000 + fraction;
            let value = if exponent == 0 {
                fraction as int
            } else {
                (0x80_0000 + fraction) * pow2((exponent - 1) as nat) as int
            };
            &&& (Single { bits: bits as u32 }).value() == value
            &&& (Single { bits: (0x8000_0000 + bits) as u32 }).value() == -value
            &&& !(Single { bits: bits as u32 }).is_nan()
        }),
{
    lemma2_to64();
    let unit = 0x80_0000int;
    let bits = exponent * unit + fraction;
    lemma_fundamental_div_mod_converse(bits, unit, exponent as int, fraction as int);
    assert(pow2(23) == unit);
}

/// Numbers of 64 bits compare as their patterns do, those with a sign bit backwards and below the
/// others; the two zeros are equal, and no comparison with a NaN holds.
pub proof fn law_doubles_compare_by_bits(a: Double, b: Double)
    ensures
        ({
            let top = 0x8000_0000_0000_0000int;
            let p = if a.bits < top {
                a.bits as int
            } else {
                top - a.bits
            };
            let q = if b.bits < top {
                b.bits as int
            } else {
                top - b.bits
            };
            let limit = 0x7ff0_0000_0000_0000int;
            &&& a.is_nan() == (p > limit || p < -limit)
            &&& a.le(b) == (-limit <= p <= limit && -limit <= q <= limit && p <= q)
        }),
{
    lemma_order(a.is_negative(), a.magnitude(), b.is_negative(), b.magnitude(), 52);
}

/// Numbers of 32 bits compare likewise.
pub proof fn law_singles_compare_by_bits(a: Single, b: Single)
    ensures
        ({
            let top = 0x8000_0000int;
            let p = if a.bits < top {
                a.bits as int
            } else {
                top - a.bits
            };
            let q = if b.bits < top {
                b.bits as int
            } else {
                top - b.bits
            };
            let limit = 0x7f80_0000int;
            &&& a.is_nan() == (p > limit || p < -limit)
            &&& a.le(b) == (-limit <= p <= limit && -limit <= q <= limit && p <= q)
        }),
{
    lemma_order(a.is_negative(), a.magnitude(), b.is_negative(), b.magnitude(), 23);
}

/// The absolute value has the value without its sign, and is the number itself where there is none.
pub proof fn law_absolute_value(x: Double)
    ensures
        x.spec_abs().bits == if x.bits >= 0x8000_0000_0000_0000 {
            x.bits - 0x8000_0000_0000_0000
        } else {
            x.bits as int
        },
        x.spec_abs().value() == if x.value() < 0 {
            -x.value()
        } else {
            x.value()
        },
        x.spec_abs().value() == x.size(),
        x.spec_abs().is_nan() == x.is_nan(),
{
    lemma_order(false, 0, false, x.magnitude(), 52);
    lemma2_to64();
    lemma2_to64_rest();
    law_double_values(0, 0);
}

/// The larger of a number and a floor is not below either, and is one of the two; a NaN gives the
/// floor.
pub proof fn law_larger_of_two(x: Double, floor: Double, y: Single, low: Single)
    requires
        !floor.is_nan(),
        !low.is_nan(),
    ensures
        x.spec_max(floor) == x || x.spec_max(floor) == floor,
        floor.le(x.spec_max(floor)),
        !x.is_nan() ==> x.le(x.spec_max(floor)),
        x.is_nan() ==> x.spec_max(floor) == floor,
        y.spec_max(low) == y || y.spec_max(low) == low,
        low.le(y.spec_max(low)),
        !y.is_nan() ==> y.le(y.spec_max(low)),
        y.is_nan() ==> y.spec_max(low) == low,
{
}

/// A number that is brought between two bounds is between them, is the number itself where it was,
/// and is the nearer bound where it was not; a NaN stays.
pub proof fn law_brought_between_bounds(x: Single, low: Single, high: Single)
    requires
        low.le(high),
    ensures
        x.is_nan() ==> x.spec_clamp(low, high) == x,
        !x.is_nan() ==> low.le(x.spec_clamp(low, high)) && x.spec_clamp(low, high).le(high),
        low.le(x) && x.le(high) ==> x.spec_clamp(low, high) == x,
        !x.is_nan() && !low.le(x) ==> x.spec_clamp(low, high) == low,
        !x.is_nan() && !x.le(high) ==> x.spec_clamp(low, high) == high,
{
}

// ---------------------------------------------------------------------------
// Names

/// The full scale of every range and its text, and the names of couplings, edges and flags.
pub proof fn law_names(range: InputRange, coupling: Coupling, edge: TriggerEdge, on: bool)
    ensures
        range.millivolts() == match range {
            InputRange::Mv20 => 20nat,
            InputRange::Mv50 => 50,
            InputRange::Mv100 => 100,
            InputRange::Mv200 => 200,
            InputRange::Mv500 => 500,
            InputRange::V1 => 1_000,
            InputRange::V2 => 2_000,
            InputRange::V5 => 5_000,
            InputRange::V10 => 10_000,
            InputRange::V20 => 20_000,
        },
        range.volts() == match range {
            InputRange::Mv20 => "0.02"@,
            InputRange::Mv50 => "0.05"@,
            InputRange::Mv100 => "0.1"@,
            InputRange::Mv200 => "0.2"@,
            InputRange::Mv500 => "0.5"@,
            InputRange::V1 => "1"@,
            InputRange::V2 => "2"@,
            InputRange::V5 => "5"@,
            InputRange::V10 => "10"@,
            InputRange::V20 => "20"@,
        },
        coupling.name() == match coupling {
            Coupling::AC => "AC"@,
            Coupling::DC => "DC"@,
        },
        edge.name() == match edge {
            TriggerEdge::Rising => "RISING"@,
            TriggerEdge::Falling => "FALLING"@,
            TriggerEdge::Either => "EITHER"@,
        },
        flag(on) == if on {
            "1"@
        } else {
            "0"@
        },
{
}

/// The ranges that can be picked are all that there are, each less sensitive than the one before.
pub proof fn law_ranges_that_can_be_picked(range: InputRange, i: int, j: int)
    ensures
        SUPPORTED_RANGES@.len() == 10,
        exists|k: int| 0 <= k < 10 && #[trigger] SUPPORTED_RANGES@[k] == range,
        0 <= i < j < 10 ==> SUPPORTED_RANGES@[i].millivolts() < SUPPORTED_RANGES@[j].millivolts(),
{
    let all = SUPPORTED_RANGES@;
    assert(all[0] == InputRange::Mv20 && all[1] == InputRange::Mv50 && all[2] == InputRange::Mv100);
    assert(all[3] == InputRange::Mv200 && all[4] == InputRange::Mv500 && all[5] == InputRange::V1);
    assert(all[6] == InputRange::V2 && all[7] == InputRange::V5 && all[8] == InputRange::V10);
    assert(all[9] == InputRange::V20);
}

/// Which words name an edge, a coupling or a waveform, and that no other does.
pub proof fn law_words_that_name_something(word: Seq<char>)
    ensures
        edge_named(word) == Some(TriggerEdge::Rising) <==> word == "RISING"@,
        edge_named(word) == Some(TriggerEdge::Falling) <==> word == "FALLING"@,
        edge_named(word) == Some(TriggerEdge::Either) <==> word == "EITHER"@ || word == "ANY"@,
        coupling_named(word) == Some(Coupling::DC) <==> word == "DC"@ || word == "DC1M"@ || word
            == "DC50"@,
        coupling_named(word) == Some(Coupling::AC) <==> word == "AC"@ || word == "AC1M"@,
        is_waveform(word) <==> word == "SINE"@ || word == "SQUARE"@ || word == "TRIANGLE"@ || word
            == "RAMP_UP"@ || word == "RAMP_DOWN"@ || word == "DC"@ || word == "WHITENOISE"@ || word
            == "PRBS"@ || word == "ARBITRARY"@,
{
    reveal_strlit("RISING");
    reveal_strlit("FALLING");
    reveal_strlit("EITHER");
    reveal_strlit("ANY");
    reveal_strlit("AC");
    reveal_strlit("AC1M");
    reveal_strlit("DC");
    reveal_strlit("DC1M");
    reveal_strlit("DC50");
    assert("RISING"@[0] == 'R' && "EITHER"@[0] == 'E' && "RISING"@.len() == 6);
    assert("FALLING"@.len() == 7 && "EITHER"@.len() == 6 && "ANY"@.len() == 3);
    assert("AC"@[0] == 'A' && "AC1M"@[0] == 'A');
    assert("DC"@[0] == 'D' && "DC1M"@[0] == 'D' && "DC50"@[0] == 'D');
}

// ---------------------------------------------------------------------------
// Refusals

/// In which words it is told what is wrong with a number.
pub proof fn law_words_of_number_errors(integer: IntError, float: FloatError)
    ensures
        integer.text() == match integer {
            IntError::Empty => "cannot parse integer from empty string"@,
            IntError::InvalidDigit => "invalid digit found in string"@,
            IntError::TooLarge => "number too large to fit in target type"@,
            IntError::TooSmall => "number too small to fit in target type"@,
        },
        float.text() == match float {
            FloatError::Empty => "cannot parse float from empty string"@,
            FloatError::Invalid => "invalid float literal"@,
        },
{
}

/// In which words a refusal is told.
pub proof fn law_words_of_refusals(refusal: Refusal)
    ensures
        refusal.text() == match refusal {
            Refusal::MissingArgument(t) => t,
            Refusal::Integer(IntError::Empty) => "cannot parse integer from empty string"@,
            Refusal::Integer(IntError::InvalidDigit) => "invalid digit found in string"@,
            Refusal::Integer(IntError::TooLarge) => "number too large to fit in target type"@,
            Refusal::Integer(IntError::TooSmall) => "number too small to fit in target type"@,
            Refusal::Float(FloatError::Empty) => "cannot parse float from empty string"@,
            Refusal::Float(FloatError::Invalid) => "invalid float literal"@,
            Refusal::UnsupportedCommand(t) => "unsupported command "@ + t,
            Refusal::UnsupportedTriggerCommand(t) => "unsupported trigger command "@ + t,
            Refusal::UnsupportedChannelCommand(t, u) => "unsupported channel command "@ + t
                + " for "@ + u,
            Refusal::UnsupportedAwgCommand(t) => "unsupported AWG command "@ + t,
            Refusal::UnsupportedDigitalCommand(t) => "unsupported digital command "@ + t,
            Refusal::PresentIsAQuery => "PRESENT can only be queried"@,
            Refusal::InvalidTriggerDirection(t) => "invalid trigger direction "@ + t,
            Refusal::UnsupportedCoupling(t) => "unsupported coupling "@ + t,
            Refusal::UnsupportedWaveform(t) => "unsupported AWG waveform "@ + t,
            Refusal::ChannelOutOfRange(n) => "channel index "@ + decimal(n) + " out of range"@,
            Refusal::UnknownChannel(t) => "unable to parse channel reference '"@ + t + "'"@,
            Refusal::UnsupportedSampleRate(n) => "unsupported sample rate "@ + decimal(n as nat),
            Refusal::UnsupportedSampleDepth(n) => "unsupported sample depth "@ + decimal(n as nat),
            Refusal::UnsupportedResolution(n) => "unsupported ADC resolution "@ + decimal(n as nat),
            Refusal::StartFailed(n) => "failed to start streaming at "@ + decimal(n as nat)
                + " Sa/s"@,
        },
{
}

} // verus!
