//! Which texts name what: analog channels, digital channels and trigger commands.

use vstd::prelude::*;
use crate::error::{Refusal, ScpiError};
use crate::floating::Single;
use crate::model::{
    channel_index, digital_key, index_of_digits, index_of_number, is_trigger_alias, names_channel,
    normalized, response, trigger_response, Answer, Request, Scope,
};
use crate::number::{read_unsigned, IntError};
use crate::readback::{
    law_trigger_aliases, lemma_plain_names, lemma_trig_subject, lemma_trigger_prefix,
};
use crate::scpi::{index_as, FloatArg, ScpiState};
use crate::state::DigitalChannelState;
use crate::text::{has_prefix, is_digit, same_ignoring_case, trimmed, upper_char, uppercase};

verus! {

// ---------------------------------------------------------------------------
// Analog channels

/// A subject names an analog channel if, without the blanks around it, it starts with `CH` in any
/// case of letters, is a single letter, a letter and then only digits, or two digits or more.
pub proof fn law_which_subjects_name_channels(subject: Seq<char>)
    ensures
        ({
            let name = trimmed(subject);
            let letter = name.len() > 0 && (65 <= name[0] as int <= 90 || 97 <= name[0] as int
                <= 122);
            let rest_is_digits = forall|i: int|
                1 <= i < name.len() ==> 48 <= #[trigger] name[i] as int <= 57;
            let all_are_digits = forall|i: int|
                0 <= i < name.len() ==> 48 <= #[trigger] name[i] as int <= 57;
            names_channel(subject) == ((name.len() >= 2 && (name[0] == 'C' || name[0] == 'c') && (
            name[1] == 'H' || name[1] == 'h')) || (letter && rest_is_digits) || (name.len() >= 2
                && all_are_digits))
        }),
{
    let name = trimmed(subject);
    let upper = uppercase(name);
    reveal_strlit("CH");
    if name.len() >= 2 {
        let start = upper.take(2);
        assert(start[0] == upper[0] && start[1] == upper[1]);
        if upper[0] == 'C' && upper[1] == 'H' {
            assert(start == "CH"@);
        }
        assert forall|i: int| 0 <= i < name.len() implies is_digit(#[trigger] upper[i]) == (48
            <= name[i] as int <= 57) by {}
        if forall|i: int| 1 <= i < name.len() ==> 48 <= #[trigger] name[i] as int <= 57 {
            assert forall|i: int| 0 <= i < upper.skip(1).len() implies is_digit(
                #[trigger] upper.skip(1)[i],
            ) by {
                assert(upper.skip(1)[i] == upper[i + 1]);
                assert(48 <= name[i + 1] as int <= 57);
            }
        }
        if forall|i: int| 0 <= i < upper.skip(1).len() ==> is_digit(#[trigger] upper.skip(1)[i]) {
            assert forall|i: int| 1 <= i < name.len() implies 48 <= #[trigger] name[i] as int
                <= 57 by {
                assert(upper.skip(1)[i - 1] == upper[i]);
            }
        }
        if forall|i: int| 0 <= i < upper.len() ==> is_digit(#[trigger] upper[i]) {
            assert forall|i: int| 0 <= i < name.len() implies 48 <= #[trigger] name[i] as int
                <= 57 by {
                assert(is_digit(upper[i]));
            }
        }
    }
}

/// A number names the channel one below it, if it is from one up to how many there are. A text that
/// is no number is refused for what is wrong with it.
pub proof fn law_numbers_of_channels(number: nat, digits: Seq<char>, limit: nat)
    ensures
        1 <= number <= limit ==> index_of_number(number, limit) == Ok::<nat, Refusal>(
            (number - 1) as nat,
        ),
        number == 0 || number > limit ==> index_of_number(number, limit) == Err::<nat, Refusal>(
            Refusal::ChannelOutOfRange(number),
        ),
        match read_unsigned(digits, usize::MAX as nat) {
            Ok(n) => if 1 <= n <= limit {
                index_of_digits(digits, limit) == Ok::<nat, Refusal>((n - 1) as nat)
            } else {
                index_of_digits(digits, limit) == Err::<nat, Refusal>(Refusal::ChannelOutOfRange(n))
            },
            Err(error) => index_of_digits(digits, limit) == Err::<nat, Refusal>(
                Refusal::Integer(error),
            ),
        },
{
}

/// What follows `CHAN`, `CH` or `C` in a reference is read as the number of a channel, whatever it
/// is. Blanks around the reference and the case of its letters do not count.
pub proof fn law_references_by_prefix(input: Seq<char>, digits: Seq<char>, limit: nat)
    ensures
        ({
            let name = uppercase(trimmed(input));
            let found: Result<nat, Refusal> = match read_unsigned(digits, usize::MAX as nat) {
                Ok(n) => if 1 <= n <= limit {
                    Ok((n - 1) as nat)
                } else {
                    Err(Refusal::ChannelOutOfRange(n))
                },
                Err(error) => Err(Refusal::Integer(error)),
            };
            &&& name == seq!['C', 'H', 'A', 'N'] + digits ==> channel_index(input, limit) == found
            &&& name == seq!['C', 'H'] + digits && !(digits.len() >= 2 && digits[0] == 'A' && digits[1]
                == 'N') ==> channel_index(input, limit) == found
            &&& name == seq!['C'] + digits && !(digits.len() >= 1 && digits[0] == 'H')
                ==> channel_index(input, limit) == found
        }),
{
    let name = uppercase(trimmed(input));
    reveal_strlit("C");
    reveal_strlit("CH");
    reveal_strlit("CHAN");
    assert("C"@ == seq!['C']);
    assert("CH"@ == seq!['C', 'H']);
    assert("CHAN"@ == seq!['C', 'H', 'A', 'N']);
    if name == seq!['C', 'H', 'A', 'N'] + digits {
        assert(name.take(4) == "CHAN"@);
        assert(name.skip(4) == digits);
    }
    if name == seq!['C', 'H'] + digits {
        assert(name.take(2) == "CH"@);
        assert(name.skip(2) == digits);
        if name.len() >= 4 {
            assert(name.take(4)[2] == digits[0] && name.take(4)[3] == digits[1]);
        }
    }
    if name == seq!['C'] + digits {
        assert(name.take(1) == "C"@);
        assert(name.skip(1) == digits);
        if name.len() >= 2 {
            assert(name.take(2)[1] == digits[0]);
        }
        if name.len() >= 4 {
            assert(name.take(4)[1] == digits[0]);
        }
    }
}

/// A reference that does not start with `C`: a letter names the channel at its place in the alphabet
/// if there is one; a letter and then only digits, and any number, name the channel with that number
/// if the number fits the machine; all else is no channel, and is told as it was given.
pub proof fn law_other_references(input: Seq<char>, limit: nat)
    requires
        trimmed(input).len() == 0 || (trimmed(input)[0] != 'C' && trimmed(input)[0] != 'c'),
    ensures
        ({
            let name = uppercase(trimmed(input));
            let letter = name.len() > 0 && 65 <= name[0] as int <= 90;
            let lettered = name.len() >= 2 && letter && forall|i: int|
                1 <= i < name.len() ==> 48 <= #[trigger] name[i] as int <= 57;
            let number = if lettered {
                read_unsigned(name.skip(1), usize::MAX as nat)
            } else {
                read_unsigned(name, usize::MAX as nat)
            };
            let found = channel_index(input, limit);
            let unknown = Err::<nat, Refusal>(Refusal::UnknownChannel(input));
            if name.len() == 1 && letter {
                if name[0] as int - 65 < limit {
                    found == Ok::<nat, Refusal>((name[0] as int - 65) as nat)
                } else {
                    found == unknown
                }
            } else {
                match number {
                    Ok(n) => if 1 <= n <= limit {
                        found == Ok::<nat, Refusal>((n - 1) as nat)
                    } else {
                        found == Err::<nat, Refusal>(Refusal::ChannelOutOfRange(n))
                    },
                    Err(_) => found == unknown,
                }
            }
        }),
{
    let name = uppercase(trimmed(input));
    reveal_strlit("C");
    reveal_strlit("CH");
    reveal_strlit("CHAN");
    if name.len() >= 1 {
        assert(name[0] != 'C');
        assert(name.take(1)[0] == name[0]);
    }
    if name.len() >= 2 {
        assert(name.take(2)[0] == name[0]);
        let rest = name.skip(1);
        if forall|i: int| 1 <= i < name.len() ==> 48 <= #[trigger] name[i] as int <= 57 {
            assert forall|i: int| 0 <= i < rest.len() implies is_digit(#[trigger] rest[i]) by {
                assert(rest[i] == name[i + 1]);
                assert(48 <= name[i + 1] as int <= 57);
            }
        }
        if forall|i: int| 0 <= i < rest.len() ==> is_digit(#[trigger] rest[i]) {
            assert forall|i: int| 1 <= i < name.len() implies 48 <= #[trigger] name[i] as int
                <= 57 by {
                assert(rest[i - 1] == name[i]);
            }
        }
    }
    if name.len() >= 4 {
        assert(name.take(4)[0] == name[0]);
    }
    if name.len() > 0 && 65 <= name[0] as int <= 90 {
        assert(!is_digit(name[0]) && name[0] != '+');
        assert(read_unsigned(name, usize::MAX as nat) == Err::<nat, IntError>(
            IntError::InvalidDigit,
        ));
    }
}

/// What came of looking for a channel is seen as it is.
pub proof fn law_channels_found_are_seen_as_they_are(result: Result<usize, ScpiError>)
    ensures
        match result {
            Ok(index) => index_as(result) == Ok::<nat, Refusal>(index as nat),
            Err(error) => index_as(result) == Err::<nat, Refusal>(error@),
        },
{
}

// ---------------------------------------------------------------------------
// Digital channels

/// A subject names a digital channel if, without the blanks around it, it starts with a digit and
/// holds a `D` in any case; the channel is known by that name in upper case.
pub proof fn law_which_subjects_name_digital_channels(subject: Seq<char>)
    ensures
        ({
            let name = trimmed(subject);
            let is_one = name.len() > 0 && 48 <= name[0] as int <= 57 && exists|i: int|
                0 <= i < name.len() && (#[trigger] name[i] == 'D' || name[i] == 'd');
            &&& is_one ==> digital_key(subject) == Some(uppercase(name))
            &&& !is_one ==> digital_key(subject) is None
        }),
{
    let name = trimmed(subject);
    let upper = uppercase(name);
    if name.len() > 0 {
        assert(is_digit(upper[0]) == (48 <= name[0] as int <= 57));
        if upper.contains('D') {
            let i = choose|i: int| 0 <= i < upper.len() && upper[i] == 'D';
            assert(upper[i] == upper_char(name[i]));
            assert(name[i] == 'D' || name[i] == 'd');
        }
        if exists|i: int| 0 <= i < name.len() && (#[trigger] name[i] == 'D' || name[i] == 'd') {
            let i = choose|i: int|
                0 <= i < name.len() && (#[trigger] name[i] == 'D' || name[i] == 'd');
            assert(upper[i] == 'D');
            assert(upper.contains('D'));
        }
    }
}

/// A digital channel is found under its name without the blanks around it and in upper case; both of
/// its settings are zero before one is set.
pub proof fn law_settings_of_digital_channels(scope: Scope, key: Seq<char>)
    ensures
        normalized(key) == uppercase(trimmed(key)),
        scope.digital_channel(key) == if scope.digital.dom().contains(uppercase(trimmed(key))) {
            scope.digital[uppercase(trimmed(key))]
        } else {
            DigitalChannelState {
                threshold_mv: Single { bits: 0 },
                hysteresis_mv: Single { bits: 0 },
            }
        },
{
}

// ---------------------------------------------------------------------------
// Trigger commands

/// The trigger commands that may come without their `TRIG:` are these four, and no other.
pub proof fn law_trigger_names(command: Seq<char>)
    ensures
        is_trigger_alias(command) == (command == "SOU"@ || command == "LEV"@ || command == "DELAY"@
            || command == "EDGE:DIR"@),
{
}

/// A trigger command that is none of these four is refused by its full name, whether it has a subject
/// or not.
pub proof fn law_unknown_trigger_commands<S: ScpiState>(
    scope: Scope,
    request: Request,
    value: Option<FloatArg>,
)
    requires
        request.command != "TRIG:SOU"@,
        request.command != "TRIG:LEV"@,
        request.command != "TRIG:DELAY"@,
        request.command != "TRIG:EDGE:DIR"@,
    ensures
        trigger_response::<S>(scope, request, value) == (
            Answer::Refused(Refusal::UnsupportedTriggerCommand(request.command)),
            scope,
        ),
        request.subject is None && request.command.len() >= 4 && request.command[0] == 'T'
            && request.command[1] == 'R' && request.command[2] == 'I' && request.command[3] == 'G'
            ==> response::<S>(scope, request, value) == (
            Answer::Refused(Refusal::UnsupportedTriggerCommand(request.command)),
            scope,
        ),
{
    lemma_plain_names();
    reveal_strlit("TRIG");
    if request.command.len() >= 4 && request.command[0] == 'T' && request.command[1] == 'R'
        && request.command[2] == 'I' && request.command[3] == 'G' {
        assert(request.command.take(4) == "TRIG"@);
        assert(has_prefix(request.command, "TRIG"@));
    }
}

/// The four trigger commands under their full names do what they do under the subject `TRIG`.
pub proof fn law_full_trigger_names<S: ScpiState>(
    scope: Scope,
    subject: Seq<char>,
    request: Request,
    value: Option<FloatArg>,
)
    requires
        same_ignoring_case(subject, "TRIG"@),
        request.subject is None,
        request.command == "SOU"@ || request.command == "LEV"@ || request.command == "DELAY"@
            || request.command == "EDGE:DIR"@,
    ensures
        ({
            let full = Request { command: "TRIG:"@ + request.command, ..request };
            let told = response::<S>(
                scope,
                Request { subject: Some(subject), ..request },
                value,
            );
            &&& response::<S>(scope, full, value) == told
            &&& trigger_response::<S>(scope, full, value) == told
            &&& response::<S>(scope, request, value) == told
        }),
{
    law_trigger_aliases::<S>(scope, subject, request, value);
    lemma_trig_subject(subject);
    lemma_trigger_prefix();
    reveal_strlit("TRIG");
    reveal_strlit("TRIG:");
    assert("TRIG:"@ == uppercase("TRIG"@) + seq![':']);
    let full = Request { command: "TRIG:"@ + request.command, ..request };
    assert(full == request.prefixed("TRIG"@));
    assert(Request { subject: Some(subject), ..request }.prefixed("TRIG"@) == full);
}

} // verus!
