//! What is set is what a query then tells, and nothing else changes.

use vstd::prelude::*;
use crate::error::Refusal;
use crate::floating::{Double, Single};
use crate::hardware::covering;
use crate::model::{
    channel_index, coupling_named, digital_key, edge_named, flag, index_of_digits, is_trigger_alias,
    is_waveform, names_channel, normalized, response, start_response, Answer, Request, Scope,
};
use crate::number::{
    decimal, lemma_decimal_digits, lemma_read_too_large, lemma_signed_bound,
    lemma_signed_round_trip, lemma_unsigned_bound, lemma_unsigned_round_trip, read_signed,
    read_unsigned, signed_decimal, IntError,
};
use crate::scpi::{lemma_index_in_range, DeviceAction, FloatArg, FloatValue, ScpiState};
use crate::state::{
    label_number, AcquisitionState, AppState, Awg, ChannelState, DigitalChannelState,
};
use crate::text::{
    is_blank, is_digit, lemma_trimmed_already, lemma_trimmed_ends, same_ignoring_case, trimmed,
    uppercase,
};

verus! {

/// The command that gives a setting its value.
pub open spec fn setting(subject: Option<Seq<char>>, command: Seq<char>, arg: Seq<char>) -> Request {
    Request { subject, command, is_query: false, args: seq![arg] }
}

/// The command without a value.
pub open spec fn order(subject: Option<Seq<char>>, command: Seq<char>) -> Request {
    Request { subject, command, is_query: false, args: seq![] }
}

/// The command that asks for a setting.
pub open spec fn query(subject: Option<Seq<char>>, command: Seq<char>) -> Request {
    Request { subject, command, is_query: true, args: seq![] }
}

/// What the scope answers to a command that holds no floating-point number.
pub open spec fn answers(scope: Scope, request: Request) -> (Answer, Scope) {
    response::<AppState>(scope, request, None)
}

// ---------------------------------------------------------------------------
// Names

/// By which the names of the commands without a subject differ.
pub proof fn lemma_plain_names()
    ensures
        "DELAY"@.len() == 5 && "DELAY"@[0] == 'D' && "DELAY"@[2] == 'L',
        "LEV"@.len() == 3 && "LEV"@[0] == 'L' && "LEV"@[2] == 'V',
        "SOU"@.len() == 3 && "SOU"@[0] == 'S' && "SOU"@[2] == 'U',
        "EDGE:DIR"@.len() == 8 && "EDGE:DIR"@[0] == 'E' && "EDGE:DIR"@[2] == 'G',
        "*IDN"@.len() == 4 && "*IDN"@[0] == '*' && "*IDN"@[2] == 'D',
        "CHANS"@.len() == 5 && "CHANS"@[0] == 'C' && "CHANS"@[2] == 'A',
        "SEQNUM"@.len() == 6 && "SEQNUM"@[0] == 'S' && "SEQNUM"@[2] == 'Q',
        "RATES"@.len() == 5 && "RATES"@[0] == 'R' && "RATES"@[2] == 'T',
        "RATE"@.len() == 4 && "RATE"@[0] == 'R' && "RATE"@[2] == 'T',
        "DEPTHS"@.len() == 6 && "DEPTHS"@[0] == 'D' && "DEPTHS"@[2] == 'P',
        "DEPTH"@.len() == 5 && "DEPTH"@[0] == 'D' && "DEPTH"@[2] == 'P',
        "BITS"@.len() == 4 && "BITS"@[0] == 'B' && "BITS"@[2] == 'T',
        "START"@.len() == 5 && "START"@[0] == 'S' && "START"@[2] == 'A',
        "STOP"@.len() == 4 && "STOP"@[0] == 'S' && "STOP"@[2] == 'O',
        "SINGLE"@.len() == 6 && "SINGLE"@[0] == 'S' && "SINGLE"@[2] == 'N',
        "FORCE"@.len() == 5 && "FORCE"@[0] == 'F' && "FORCE"@[2] == 'R',
        "ARMED"@.len() == 5 && "ARMED"@[0] == 'A' && "ARMED"@[2] == 'M',
        "TRIG"@.len() == 4 && "TRIG"@[0] == 'T' && "TRIG"@[2] == 'I',
        "EXIT"@.len() == 4 && "EXIT"@[0] == 'E' && "EXIT"@[2] == 'I',
{
    reveal_strlit("DELAY");
    reveal_strlit("LEV");
    reveal_strlit("SOU");
    reveal_strlit("EDGE:DIR");
    reveal_strlit("*IDN");
    reveal_strlit("CHANS");
    reveal_strlit("SEQNUM");
    reveal_strlit("RATES");
    reveal_strlit("RATE");
    reveal_strlit("DEPTHS");
    reveal_strlit("DEPTH");
    reveal_strlit("BITS");
    reveal_strlit("START");
    reveal_strlit("STOP");
    reveal_strlit("SINGLE");
    reveal_strlit("FORCE");
    reveal_strlit("ARMED");
    reveal_strlit("TRIG");
    reveal_strlit("EXIT");
}

/// By which the names of the commands to a channel differ.
pub proof fn lemma_channel_names()
    ensures
        "ON"@.len() == 2 && "ON"@[0] == 'O',
        "OFF"@.len() == 3 && "OFF"@[0] == 'O',
        "STATE"@.len() == 5 && "STATE"@[0] == 'S',
        "COUP"@.len() == 4 && "COUP"@[0] == 'C',
        "RANGE"@.len() == 5 && "RANGE"@[0] == 'R',
        "OFFS"@.len() == 4 && "OFFS"@[0] == 'O',
        "BWLIM"@.len() == 5 && "BWLIM"@[0] == 'B',
{
    reveal_strlit("ON");
    reveal_strlit("OFF");
    reveal_strlit("STATE");
    reveal_strlit("COUP");
    reveal_strlit("RANGE");
    reveal_strlit("OFFS");
    reveal_strlit("BWLIM");
}

/// By which the names of the commands to the function generator differ.
pub proof fn lemma_awg_names()
    ensures
        "START"@.len() == 5 && "START"@[0] == 'S' && "START"@[1] == 'T' && "START"@[3] == 'R',
        "STOP"@.len() == 4 && "STOP"@[0] == 'S' && "STOP"@[1] == 'T' && "STOP"@[3] == 'P',
        "STATE"@.len() == 5 && "STATE"@[0] == 'S' && "STATE"@[1] == 'T' && "STATE"@[3] == 'T',
        "FREQ"@.len() == 4 && "FREQ"@[0] == 'F' && "FREQ"@[1] == 'R' && "FREQ"@[3] == 'Q',
        "DUTY"@.len() == 4 && "DUTY"@[0] == 'D' && "DUTY"@[1] == 'U' && "DUTY"@[3] == 'Y',
        "RANGE"@.len() == 5 && "RANGE"@[0] == 'R' && "RANGE"@[1] == 'A' && "RANGE"@[3] == 'G',
        "OFF"@.len() == 3 && "OFF"@[0] == 'O' && "OFF"@[1] == 'F',
        "OFFS"@.len() == 4 && "OFFS"@[0] == 'O' && "OFFS"@[1] == 'F' && "OFFS"@[3] == 'S',
        "SHAPE"@.len() == 5 && "SHAPE"@[0] == 'S' && "SHAPE"@[1] == 'H' && "SHAPE"@[3] == 'P',
{
    reveal_strlit("START");
    reveal_strlit("STOP");
    reveal_strlit("STATE");
    reveal_strlit("FREQ");
    reveal_strlit("DUTY");
    reveal_strlit("RANGE");
    reveal_strlit("OFF");
    reveal_strlit("OFFS");
    reveal_strlit("SHAPE");
}

/// By which the names of the commands to a digital channel differ.
pub proof fn lemma_digital_names()
    ensures
        "PRESENT"@.len() == 7,
        "HYS"@.len() == 3,
        "THRESH"@.len() == 6,
{
    reveal_strlit("PRESENT");
    reveal_strlit("HYS");
    reveal_strlit("THRESH");
}

/// By which the names of the trigger commands differ.
pub proof fn lemma_trigger_names()
    ensures
        "TRIG:SOU"@.len() == 8 && "TRIG:SOU"@[5] == 'S',
        "TRIG:LEV"@.len() == 8 && "TRIG:LEV"@[5] == 'L',
        "TRIG:DELAY"@.len() == 10 && "TRIG:DELAY"@[5] == 'D',
        "TRIG:EDGE:DIR"@.len() == 13 && "TRIG:EDGE:DIR"@[5] == 'E',
{
    reveal_strlit("TRIG:SOU");
    reveal_strlit("TRIG:LEV");
    reveal_strlit("TRIG:DELAY");
    reveal_strlit("TRIG:EDGE:DIR");
}

/// The function generator is no channel.
pub proof fn lemma_awg_subject(subject: Seq<char>)
    requires
        same_ignoring_case(subject, "AWG"@),
    ensures
        !names_channel(subject),
{
    reveal_strlit("AWG");
    reveal_strlit("CH");
    let name = uppercase(subject);
    assert(name == uppercase("AWG"@));
    assert(name[0] == 'A' && name[1] == 'W' && name[2] == 'G');
    lemma_trimmed_already(subject);
    assert(name.take(2)[0] == 'A');
    assert(name.skip(1)[0] == 'W');
}

/// The trigger is no channel, nor the function generator.
pub proof fn lemma_trig_subject(subject: Seq<char>)
    requires
        same_ignoring_case(subject, "TRIG"@),
    ensures
        !names_channel(subject),
        !same_ignoring_case(subject, "AWG"@),
        digital_key(subject) is None,
{
    reveal_strlit("TRIG");
    reveal_strlit("AWG");
    reveal_strlit("CH");
    let name = uppercase(subject);
    assert(name == uppercase("TRIG"@));
    assert(name[0] == 'T' && name[1] == 'R' && name[3] == 'G');
    lemma_trimmed_already(subject);
    assert(name.take(2)[0] == 'T');
    assert(name.skip(1)[0] == 'R');
    assert(uppercase("AWG"@).len() == 3);
}

/// A digital channel is no analog one, nor the function generator.
pub proof fn lemma_digital_subject(subject: Seq<char>)
    requires
        digital_key(subject) is Some,
    ensures
        !names_channel(subject),
        !same_ignoring_case(subject, "AWG"@),
{
    reveal_strlit("AWG");
    reveal_strlit("CH");
    let name = uppercase(trimmed(subject));
    let i = choose|i: int| 0 <= i < name.len() && name[i] == 'D';
    assert(i > 0);
    assert(name.take(2)[0] == name[0]);
    assert(!is_digit(name[i]));
    if same_ignoring_case(subject, "AWG"@) {
        assert(uppercase(subject).len() == uppercase("AWG"@).len());
        assert(uppercase(subject)[0] == uppercase("AWG"@)[0]);
        assert(uppercase(subject)[2] == uppercase("AWG"@)[2]);
        lemma_trimmed_already(subject);
    }
}

/// A subject is of one family at most: an analog channel, the function generator, a digital
/// channel or the trigger. So no family takes a command away from another.
pub proof fn law_families_of_subjects_are_disjoint(subject: Seq<char>)
    ensures
        names_channel(subject) ==> !same_ignoring_case(subject, "AWG"@) && digital_key(subject)
            is None && !same_ignoring_case(subject, "TRIG"@),
        same_ignoring_case(subject, "AWG"@) ==> digital_key(subject) is None
            && !same_ignoring_case(subject, "TRIG"@),
        digital_key(subject) is Some ==> !same_ignoring_case(subject, "TRIG"@),
{
    if same_ignoring_case(subject, "AWG"@) {
        lemma_awg_subject(subject);
    }
    if same_ignoring_case(subject, "TRIG"@) {
        lemma_trig_subject(subject);
    }
    if digital_key(subject) is Some {
        lemma_digital_subject(subject);
    }
}

/// The full names of the trigger commands.
pub proof fn lemma_trigger_prefix()
    ensures
        uppercase("TRIG"@) + seq![':'] + "SOU"@ == "TRIG:SOU"@,
        uppercase("TRIG"@) + seq![':'] + "LEV"@ == "TRIG:LEV"@,
        uppercase("TRIG"@) + seq![':'] + "DELAY"@ == "TRIG:DELAY"@,
        uppercase("TRIG"@) + seq![':'] + "EDGE:DIR"@ == "TRIG:EDGE:DIR"@,
        "SOU"@.len() > 0 && "LEV"@.len() > 0 && "DELAY"@.len() > 0 && "EDGE:DIR"@.len() > 0,
{
    reveal_strlit("TRIG");
    reveal_strlit("SOU");
    reveal_strlit("LEV");
    reveal_strlit("DELAY");
    reveal_strlit("EDGE:DIR");
    reveal_strlit("TRIG:SOU");
    reveal_strlit("TRIG:LEV");
    reveal_strlit("TRIG:DELAY");
    reveal_strlit("TRIG:EDGE:DIR");
    assert(uppercase("TRIG"@) == "TRIG"@);
}

// ---------------------------------------------------------------------------
// Acquisition

/// A sample rate that can be asked for is taken over, told by the query, and changes nothing
/// else; any other is refused.
pub proof fn law_rate_reads_back(scope: Scope, arg: Seq<char>)
    ensures
        ({
            let (answer, after) = answers(scope, setting(None, "RATE"@, arg));
            match read_unsigned(arg, u32::MAX as nat) {
                Ok(rate) => if scope.rates.contains(rate as u32) {
                    &&& answer == Answer::NoReply
                    &&& after == (Scope {
                        acquisition: AcquisitionState {
                            sample_rate: rate as u32,
                            ..scope.acquisition
                        },
                        ..scope
                    })
                    &&& answers(after, query(None, "RATE"@)) == (
                        Answer::Reply(decimal(rate)),
                        after,
                    )
                } else {
                    answer == Answer::Refused(Refusal::UnsupportedSampleRate(rate as u32))
                },
                Err(error) => answer == Answer::Refused(Refusal::Integer(error)),
            }
        }),
{
    lemma_plain_names();
    lemma_unsigned_bound(arg, u32::MAX as nat);
}

/// A memory depth that can be asked for is taken over, told by the query, and changes nothing
/// else; any other is refused.
pub proof fn law_depth_reads_back(scope: Scope, arg: Seq<char>)
    ensures
        ({
            let (answer, after) = answers(scope, setting(None, "DEPTH"@, arg));
            match read_unsigned(arg, usize::MAX as nat) {
                Ok(depth) => if scope.depths.contains(depth as usize) {
                    &&& answer == Answer::NoReply
                    &&& after == (Scope {
                        acquisition: AcquisitionState {
                            sample_depth: depth as usize,
                            ..scope.acquisition
                        },
                        ..scope
                    })
                    &&& answers(after, query(None, "DEPTH"@)) == (
                        Answer::Reply(decimal(depth)),
                        after,
                    )
                } else {
                    answer == Answer::Refused(Refusal::UnsupportedSampleDepth(depth as usize))
                },
                Err(error) => answer == Answer::Refused(Refusal::Integer(error)),
            }
        }),
{
    lemma_plain_names();
    lemma_unsigned_bound(arg, usize::MAX as nat);
}

/// A resolution from 8 to 16 bits is taken over, told by the query, and changes nothing else;
/// any other is refused.
pub proof fn law_bits_read_back(scope: Scope, arg: Seq<char>)
    ensures
        ({
            let (answer, after) = answers(scope, setting(None, "BITS"@, arg));
            match read_unsigned(arg, u32::MAX as nat) {
                Ok(bits) => if 8 <= bits <= 16 {
                    &&& answer == Answer::NoReply
                    &&& after == (Scope { adc_bits: bits as u32, ..scope })
                    &&& answers(after, query(None, "BITS"@)) == (
                        Answer::Reply(decimal(bits)),
                        after,
                    )
                } else {
                    answer == Answer::Refused(Refusal::UnsupportedResolution(bits as u32))
                },
                Err(error) => answer == Answer::Refused(Refusal::Integer(error)),
            }
        }),
{
    lemma_plain_names();
    lemma_unsigned_bound(arg, u32::MAX as nat);
}

// ---------------------------------------------------------------------------
// Trigger

/// The trigger commands that may come without their `TRIG:` mean the same with it, whether it is
/// written as the subject or as a part of the name.
pub proof fn law_trigger_aliases<S: ScpiState>(
    scope: Scope,
    subject: Seq<char>,
    request: Request,
    value: Option<FloatArg>,
)
    requires
        same_ignoring_case(subject, "TRIG"@),
        is_trigger_alias(request.command),
    ensures
        response::<S>(scope, Request { subject: Some(subject), ..request }, value)
            == response::<S>(scope, Request { subject: None, ..request }, value),
        response::<S>(scope, request.prefixed("TRIG"@), value) == response::<S>(
            scope,
            Request { subject: None, ..request },
            value,
        ),
{
    lemma_trig_subject(subject);
    lemma_trigger_prefix();
    lemma_trigger_names();
    lemma_plain_names();
    let full = request.prefixed("TRIG"@);
    assert(full.command == uppercase("TRIG"@) + seq![':'] + request.command);
    reveal_strlit("TRIG");
    assert(full.command.take(4) == "TRIG"@);
    assert(Request { subject: Some(subject), ..request }.prefixed("TRIG"@) == full);
    assert(Request { subject: None, ..request }.prefixed("TRIG"@) == full);
}

/// A channel, however it is spelled, becomes the trigger source and changes nothing else, and
/// the reply to the query refers to it again; what refers to no channel is refused.
pub proof fn law_trigger_source_reads_back(scope: Scope, subject: Seq<char>, arg: Seq<char>)
    requires
        scope.channels.len() <= usize::MAX,
        same_ignoring_case(subject, "TRIG"@),
    ensures
        ({
            let (answer, after) = answers(scope, setting(Some(subject), "SOU"@, arg));
            match channel_index(arg, scope.channels.len()) {
                Ok(index) => {
                    let name = "C"@ + decimal(index + 1);
                    &&& answer == Answer::NoReply
                    &&& after == (Scope {
                        acquisition: AcquisitionState {
                            trigger_source: index as usize,
                            ..scope.acquisition
                        },
                        ..scope
                    })
                    &&& answers(after, query(Some(subject), "SOU"@)) == (Answer::Reply(name), after)
                    &&& channel_index(name, scope.channels.len()) == Ok::<nat, Refusal>(index)
                },
                Err(refusal) => answer == Answer::Refused(refusal),
            }
        }),
{
    lemma_trig_subject(subject);
    lemma_trigger_prefix();
    lemma_trigger_names();
    if let Ok(index) = channel_index(arg, scope.channels.len()) {
        law_channel_spellings(index + 1, 'C', scope.channels.len());
    }
}

/// A trigger level is taken over as it is, told by the query, and changes nothing else.
pub proof fn law_trigger_level_reads_back(
    scope: Scope,
    subject: Seq<char>,
    arg: Seq<char>,
    level: FloatArg,
)
    requires
        same_ignoring_case(subject, "TRIG"@),
    ensures
        ({
            let (answer, after) = response::<AppState>(
                scope,
                setting(Some(subject), "LEV"@, arg),
                Some(level),
            );
            &&& answer == Answer::NoReply
            &&& after == (Scope {
                acquisition: AcquisitionState { trigger_level: level.double, ..scope.acquisition },
                ..scope
            })
            &&& answers(after, query(Some(subject), "LEV"@)) == (
                Answer::Number(FloatValue::Double(level.double), 6),
                after,
            )
        }),
{
    lemma_trig_subject(subject);
    lemma_trigger_prefix();
    lemma_trigger_names();
}

/// A trigger delay is taken over, told by the query, and changes nothing else; the reply can be
/// given back as a setting.
pub proof fn law_trigger_delay_reads_back(scope: Scope, subject: Seq<char>, arg: Seq<char>)
    requires
        same_ignoring_case(subject, "TRIG"@),
    ensures
        ({
            let (answer, after) = answers(scope, setting(Some(subject), "DELAY"@, arg));
            match read_signed(arg) {
                Ok(delay) => {
                    &&& answer == Answer::NoReply
                    &&& after == (Scope {
                        acquisition: AcquisitionState {
                            trigger_delay_fs: delay as i64,
                            ..scope.acquisition
                        },
                        ..scope
                    })
                    &&& answers(after, query(Some(subject), "DELAY"@)) == (
                        Answer::Reply(signed_decimal(delay)),
                        after,
                    )
                    &&& read_signed(signed_decimal(delay)) == Ok::<int, IntError>(delay)
                },
                Err(error) => answer == Answer::Refused(Refusal::Integer(error)),
            }
        }),
{
    lemma_trig_subject(subject);
    lemma_trigger_prefix();
    lemma_trigger_names();
    lemma_signed_bound(arg);
    if let Ok(delay) = read_signed(arg) {
        lemma_signed_round_trip(delay);
    }
}

/// A trigger edge is taken over, told by the query, and changes nothing else; the reply can be
/// given back as a setting.
pub proof fn law_trigger_edge_reads_back(scope: Scope, subject: Seq<char>, arg: Seq<char>)
    requires
        same_ignoring_case(subject, "TRIG"@),
    ensures
        ({
            let (answer, after) = answers(scope, setting(Some(subject), "EDGE:DIR"@, arg));
            match edge_named(uppercase(arg)) {
                Some(edge) => {
                    &&& answer == Answer::NoReply
                    &&& after == (Scope {
                        acquisition: AcquisitionState { trigger_edge: edge, ..scope.acquisition },
                        ..scope
                    })
                    &&& answers(after, query(Some(subject), "EDGE:DIR"@)) == (
                        Answer::Reply(edge.name()),
                        after,
                    )
                    &&& edge_named(uppercase(edge.name())) == Some(edge)
                },
                None => answer == Answer::Refused(
                    Refusal::InvalidTriggerDirection(uppercase(arg)),
                ),
            }
        }),
{
    lemma_trig_subject(subject);
    lemma_trigger_prefix();
    lemma_trigger_names();
    reveal_strlit("RISING");
    reveal_strlit("FALLING");
    reveal_strlit("EITHER");
    assert("RISING"@[0] == 'R' && "EITHER"@[0] == 'E');
    assert(uppercase("RISING"@) == "RISING"@);
    assert(uppercase("FALLING"@) == "FALLING"@);
    assert(uppercase("EITHER"@) == "EITHER"@);
}

// ---------------------------------------------------------------------------
// Channel names

/// What the spellings of a channel by a number come to: the number alone, or after `CHAN`, `CH`
/// or any letter.
proof fn lemma_channel_spellings(number: nat, letter: char, limit: nat)
    requires
        'A' <= letter <= 'Z',
    ensures
        ({
            let digits = decimal(number);
            let fits = read_unsigned(digits, usize::MAX as nat) is Ok;
            let found = index_of_digits(digits, limit);
            &&& channel_index("C"@ + digits, limit) == found
            &&& channel_index("CH"@ + digits, limit) == found
            &&& channel_index("CHAN"@ + digits, limit) == found
            &&& channel_index(digits, limit) == if fits {
                found
            } else {
                Err::<nat, Refusal>(Refusal::UnknownChannel(digits))
            }
            &&& channel_index(seq![letter] + digits, limit) == if fits || letter == 'C' {
                found
            } else {
                Err::<nat, Refusal>(Refusal::UnknownChannel(seq![letter] + digits))
            }
        }),
{
    let digits = decimal(number);
    lemma_decimal_digits(number);
    reveal_strlit("C");
    reveal_strlit("CH");
    reveal_strlit("CHAN");
    lemma_name_of_digits("C"@, digits);
    lemma_name_of_digits("CH"@, digits);
    lemma_name_of_digits("CHAN"@, digits);
    lemma_name_of_digits(seq![letter], digits);
    lemma_name_of_digits(Seq::<char>::empty(), digits);
    let c = "C"@ + digits;
    let ch = "CH"@ + digits;
    let chan = "CHAN"@ + digits;
    let lettered = seq![letter] + digits;
    assert(c.skip(1) == digits);
    assert(ch.skip(2) == digits);
    assert(chan.skip(4) == digits);
    assert(lettered.skip(1) == digits);
    assert(Seq::<char>::empty() + digits == digits);
    assert(is_digit(digits[0]));
    assert(c.take(1) == "C"@);
    if c.len() >= 2 {
        assert(c.take(2)[1] == digits[0]);
    }
    if c.len() >= 4 {
        assert(c.take(4)[1] == digits[0]);
    }
    assert(ch.take(2) == "CH"@);
    if ch.len() >= 4 {
        assert(ch.take(4)[2] == digits[0]);
    }
    assert(chan.take(4) == "CHAN"@);
    assert(digits.take(1)[0] == digits[0]);
    if digits.len() >= 2 {
        assert(digits.take(2)[0] == digits[0]);
    }
    if digits.len() >= 4 {
        assert(digits.take(4)[0] == digits[0]);
    }
    if letter == 'C' {
        assert(lettered == c);
    } else {
        assert(lettered.take(1)[0] == letter);
        assert(lettered.take(2)[0] == letter);
        if lettered.len() >= 4 {
            assert(lettered.take(4)[0] == letter);
        }
        assert(!is_digit(lettered[0]));
        assert(lettered[0] != '+');
        assert(read_unsigned(lettered, usize::MAX as nat) is Err);
    }
}

/// A channel can be referred to by its number, alone or after `CHAN`, `CH` or any letter. There
/// is no channel with the number zero, and none with a number above how many there are.
pub proof fn law_channel_spellings(number: nat, letter: char, limit: nat)
    requires
        'A' <= letter <= 'Z',
        number <= usize::MAX,
    ensures
        ({
            let digits = decimal(number);
            let found: Result<nat, Refusal> = if 1 <= number <= limit {
                Ok((number - 1) as nat)
            } else {
                Err(Refusal::ChannelOutOfRange(number))
            };
            &&& channel_index(digits, limit) == found
            &&& channel_index("C"@ + digits, limit) == found
            &&& channel_index("CH"@ + digits, limit) == found
            &&& channel_index("CHAN"@ + digits, limit) == found
            &&& channel_index(seq![letter] + digits, limit) == found
        }),
{
    lemma_unsigned_round_trip(number, usize::MAX as nat);
    lemma_channel_spellings(number, letter, limit);
}

/// A number that is too large for the machine is refused: as a number after `CHAN`, `CH` or `C`,
/// and as no channel at all when it is alone or after another letter.
pub proof fn law_huge_channel_numbers(number: nat, letter: char, limit: nat)
    requires
        'A' <= letter <= 'Z',
        letter != 'C',
        number > usize::MAX,
    ensures
        ({
            let digits = decimal(number);
            let refused = Err::<nat, Refusal>(Refusal::Integer(IntError::TooLarge));
            &&& channel_index("C"@ + digits, limit) == refused
            &&& channel_index("CH"@ + digits, limit) == refused
            &&& channel_index("CHAN"@ + digits, limit) == refused
            &&& channel_index(digits, limit) == Err::<nat, Refusal>(Refusal::UnknownChannel(digits))
            &&& channel_index(seq![letter] + digits, limit) == Err::<nat, Refusal>(
                Refusal::UnknownChannel(seq![letter] + digits),
            )
        }),
{
    lemma_read_too_large(number, usize::MAX as nat);
    lemma_channel_spellings(number, letter, limit);
}

/// A name in capitals with a number behind it is neither trimmed nor changed in case.
proof fn lemma_name_of_digits(prefix: Seq<char>, digits: Seq<char>)
    requires
        digits.len() > 0,
        forall|i: int| 0 <= i < digits.len() ==> is_digit(#[trigger] digits[i]),
        forall|i: int| 0 <= i < prefix.len() ==> 'A' <= #[trigger] prefix[i] <= 'Z',
    ensures
        uppercase(trimmed(prefix + digits)) == prefix + digits,
{
    let name = prefix + digits;
    assert forall|i: int| 0 <= i < name.len() implies is_digit(#[trigger] name[i]) || 'A' <= name[i]
        <= 'Z' by {
        if i < prefix.len() {
            assert(name[i] == prefix[i]);
        } else {
            assert(name[i] == digits[i - prefix.len()]);
        }
    }
    lemma_trimmed_already(name);
    assert(uppercase(name) == name);
}

/// A subject that is `CHAN`, `CH` or any letter and a number, a single letter, or a number of two
/// or more digits is read as a channel.
pub proof fn law_channel_subjects(number: nat, letter: char)
    requires
        'A' <= letter <= 'Z',
    ensures
        names_channel(seq![letter] + decimal(number)),
        names_channel("CH"@ + decimal(number)),
        names_channel("CHAN"@ + decimal(number)),
        names_channel(seq![letter]),
        names_channel(decimal(number)) == (number >= 10),
{
    let digits = decimal(number);
    lemma_decimal_digits(number);
    reveal_strlit("CH");
    reveal_strlit("CHAN");
    lemma_name_of_digits(seq![letter], digits);
    lemma_name_of_digits("CH"@, digits);
    lemma_name_of_digits("CHAN"@, digits);
    lemma_name_of_digits(Seq::<char>::empty(), digits);
    assert(Seq::<char>::empty() + digits == digits);
    assert((seq![letter] + digits).skip(1) == digits);
    assert(("CH"@ + digits).take(2) == "CH"@);
    assert(("CHAN"@ + digits).take(2) == "CH"@);
    assert(is_digit(digits[0]));
    if digits.len() >= 2 {
        assert(digits.take(2)[0] == digits[0]);
    }
    if number >= 10 {
        lemma_decimal_digits(number / 10);
    }
    lemma_trimmed_already(seq![letter]);
    assert(uppercase(seq![letter]) == seq![letter]);
}

/// A channel can be referred to by its letter, but for the third one: `C` starts a number.
pub proof fn law_channel_letters(index: nat, limit: nat)
    requires
        index < limit,
        index < 26,
        index != 2,
    ensures
        channel_index(seq![(65 + index) as char], limit) == Ok::<nat, Refusal>(index),
{
    let name = seq![(65 + index) as char];
    reveal_strlit("C");
    reveal_strlit("CH");
    reveal_strlit("CHAN");
    lemma_trimmed_already(name);
    assert(uppercase(name) == name);
    assert(name.take(1) == name);
}

/// The labels of the first channels count on from one.
proof fn lemma_label_number(index: usize)
    requires
        index < 191,
    ensures
        label_number(index) == index + 1,
{
}

/// The label of a channel refers to it.
#[verifier::spinoff_prover]
pub proof fn law_channel_label_names_it(index: usize, limit: nat)
    requires
        index < 191,
        index < limit <= usize::MAX,
    ensures
        channel_index("C"@ + decimal(label_number(index)), limit) == Ok::<nat, Refusal>(
            index as nat,
        ),
{
    lemma_label_number(index);
    let number = (index + 1) as nat;
    let name = "C"@ + decimal(number);
    law_channel_spellings(number, 'C', limit);
    assert(channel_index(name, limit) == Ok::<nat, Refusal>(index as nat));
}

// ---------------------------------------------------------------------------
// Analog channels

/// A channel that is turned on or off is told to be so; the device is to follow, and no other
/// setting and no other channel changes.
pub proof fn law_channel_state_reads_back(scope: Scope, subject: Seq<char>, index: nat, on: bool)
    requires
        scope.channels.len() <= usize::MAX,
        names_channel(subject),
        channel_index(subject, scope.channels.len()) == Ok::<nat, Refusal>(index),
    ensures
        ({
            let (answer, after) = answers(
                scope,
                order(
                    Some(subject),
                    if on {
                        "ON"@
                    } else {
                        "OFF"@
                    },
                ),
            );
            &&& answer == Answer::Device(after.sync_action(index as int))
            &&& after == (Scope {
                channels: scope.channels.update(
                    index as int,
                    ChannelState { enabled: on, ..scope.channels[index as int] },
                ),
                ..scope
            })
            &&& answers(after, query(Some(subject), "STATE"@)) == (Answer::Reply(flag(on)), after)
        }),
{
    lemma_channel_names();
    lemma_index_in_range(subject, scope.channels.len());
}

/// A coupling that is set is told by the query, and the reply can be given back as a setting;
/// the device is to follow, and no other setting and no other channel changes.
pub proof fn law_channel_coupling_reads_back(
    scope: Scope,
    subject: Seq<char>,
    index: nat,
    arg: Seq<char>,
)
    requires
        scope.channels.len() <= usize::MAX,
        names_channel(subject),
        channel_index(subject, scope.channels.len()) == Ok::<nat, Refusal>(index),
    ensures
        ({
            let (answer, after) = answers(scope, setting(Some(subject), "COUP"@, arg));
            match coupling_named(uppercase(arg)) {
                Some(coupling) => {
                    &&& answer == Answer::Device(after.sync_action(index as int))
                    &&& after == (Scope {
                        channels: scope.channels.update(
                            index as int,
                            ChannelState { coupling, ..scope.channels[index as int] },
                        ),
                        ..scope
                    })
                    &&& answers(after, query(Some(subject), "COUP"@)) == (
                        Answer::Reply(coupling.name()),
                        after,
                    )
                    &&& coupling_named(uppercase(coupling.name())) == Some(coupling)
                },
                None => answer == Answer::Refused(Refusal::UnsupportedCoupling(uppercase(arg))),
            }
        }),
{
    lemma_channel_names();
    lemma_index_in_range(subject, scope.channels.len());
    reveal_strlit("AC");
    reveal_strlit("DC");
    reveal_strlit("DC1M");
    reveal_strlit("DC50");
    assert("AC"@[0] == 'A' && "DC"@[0] == 'D');
    assert(uppercase("AC"@) == "AC"@);
    assert(uppercase("DC"@) == "DC"@);
}

/// A full-scale setting picks the tightest range, which the query tells; the device is to
/// follow, and no other setting and no other channel changes.
pub proof fn law_channel_range_reads_back(
    scope: Scope,
    subject: Seq<char>,
    index: nat,
    arg: Seq<char>,
    volts: FloatArg,
)
    requires
        scope.channels.len() <= usize::MAX,
        names_channel(subject),
        channel_index(subject, scope.channels.len()) == Ok::<nat, Refusal>(index),
    ensures
        ({
            let range = covering(volts.double.spec_abs());
            let (answer, after) = response::<AppState>(
                scope,
                setting(Some(subject), "RANGE"@, arg),
                Some(volts),
            );
            &&& answer == Answer::Device(after.sync_action(index as int))
            &&& after == (Scope {
                channels: scope.channels.update(
                    index as int,
                    ChannelState { range, ..scope.channels[index as int] },
                ),
                ..scope
            })
            &&& answers(after, query(Some(subject), "RANGE"@)) == (
                Answer::Reply(range.volts()),
                after,
            )
        }),
{
    lemma_channel_names();
    lemma_index_in_range(subject, scope.channels.len());
}

/// An offset is taken over as it is, told by the query, and changes no other setting and no
/// other channel.
pub proof fn law_channel_offset_reads_back(
    scope: Scope,
    subject: Seq<char>,
    index: nat,
    arg: Seq<char>,
    volts: FloatArg,
)
    requires
        scope.channels.len() <= usize::MAX,
        names_channel(subject),
        channel_index(subject, scope.channels.len()) == Ok::<nat, Refusal>(index),
    ensures
        ({
            let (answer, after) = response::<AppState>(
                scope,
                setting(Some(subject), "OFFS"@, arg),
                Some(volts),
            );
            &&& answer == Answer::NoReply
            &&& after == (Scope {
                channels: scope.channels.update(
                    index as int,
                    ChannelState { offset: volts.single, ..scope.channels[index as int] },
                ),
                ..scope
            })
            &&& answers(after, query(Some(subject), "OFFS"@)) == (
                Answer::Number(FloatValue::Single(volts.single), 6),
                after,
            )
        }),
{
    lemma_channel_names();
    lemma_index_in_range(subject, scope.channels.len());
}

/// A bandwidth limit is taken over and told by the query, where zero stands for none; it changes
/// no other setting and no other channel.
pub proof fn law_bandwidth_limit_reads_back(
    scope: Scope,
    subject: Seq<char>,
    index: nat,
    arg: Seq<char>,
)
    requires
        scope.channels.len() <= usize::MAX,
        names_channel(subject),
        channel_index(subject, scope.channels.len()) == Ok::<nat, Refusal>(index),
    ensures
        ({
            let (answer, after) = answers(scope, setting(Some(subject), "BWLIM"@, arg));
            match read_unsigned(arg, u32::MAX as nat) {
                Ok(mhz) => {
                    let limit = if mhz == 0 {
                        None
                    } else {
                        Some(mhz as u32)
                    };
                    &&& answer == Answer::NoReply
                    &&& after == (Scope {
                        channels: scope.channels.update(
                            index as int,
                            ChannelState {
                                bandwidth_limit_mhz: limit,
                                ..scope.channels[index as int]
                            },
                        ),
                        ..scope
                    })
                    &&& answers(after, query(Some(subject), "BWLIM"@)) == (
                        Answer::Reply(decimal(mhz)),
                        after,
                    )
                },
                Err(error) => answer == Answer::Refused(Refusal::Integer(error)),
            }
        }),
{
    lemma_channel_names();
    lemma_index_in_range(subject, scope.channels.len());
    lemma_unsigned_bound(arg, u32::MAX as nat);
}

// ---------------------------------------------------------------------------
// Function generator

/// The function generator is told to run after it was started and not to run after it was
/// stopped, whichever of the three queries asks; nothing else changes.
pub proof fn law_generator_state_reads_back(scope: Scope, subject: Seq<char>, on: bool)
    requires
        same_ignoring_case(subject, "AWG"@),
    ensures
        ({
            let (answer, after) = answers(
                scope,
                order(
                    Some(subject),
                    if on {
                        "START"@
                    } else {
                        "STOP"@
                    },
                ),
            );
            let told = (Answer::Reply(flag(on)), after);
            &&& answer == Answer::NoReply
            &&& after == (Scope { awg: Awg { enabled: on, ..scope.awg }, ..scope })
            &&& answers(after, query(Some(subject), "START"@)) == told
            &&& answers(after, query(Some(subject), "STOP"@)) == told
            &&& answers(after, query(Some(subject), "STATE"@)) == told
        }),
{
    lemma_awg_subject(subject);
    lemma_awg_names();
}

/// A frequency is taken over, a negative one as zero, and told by the query; nothing
/// else changes.
pub proof fn law_generator_frequency_reads_back(
    scope: Scope,
    subject: Seq<char>,
    arg: Seq<char>,
    x: FloatArg,
)
    requires
        same_ignoring_case(subject, "AWG"@),
    ensures
        ({
            let taken = x.double.spec_max(Double { bits: 0 });
            let (answer, after) = response::<AppState>(
                scope,
                setting(Some(subject), "FREQ"@, arg),
                Some(x),
            );
            &&& answer == Answer::NoReply
            &&& after == (Scope { awg: Awg { frequency_hz: taken, ..scope.awg }, ..scope })
            &&& answers(after, query(Some(subject), "FREQ"@)) == (
                Answer::Number(FloatValue::Double(taken), 6),
                after,
            )
        }),
{
    lemma_awg_subject(subject);
    lemma_awg_names();
}

/// A duty cycle is taken over, brought into the range from 0 to 100 percent, and told by the query; nothing
/// else changes.
pub proof fn law_generator_duty_cycle_reads_back(
    scope: Scope,
    subject: Seq<char>,
    arg: Seq<char>,
    x: FloatArg,
)
    requires
        same_ignoring_case(subject, "AWG"@),
    ensures
        ({
            let taken = x.single.spec_clamp(Single { bits: 0 }, Single { bits: 0x42c8_0000 });
            let (answer, after) = response::<AppState>(
                scope,
                setting(Some(subject), "DUTY"@, arg),
                Some(x),
            );
            &&& answer == Answer::NoReply
            &&& after == (Scope { awg: Awg { duty_cycle: taken, ..scope.awg }, ..scope })
            &&& answers(after, query(Some(subject), "DUTY"@)) == (
                Answer::Number(FloatValue::Single(taken), 3),
                after,
            )
        }),
{
    lemma_awg_subject(subject);
    lemma_awg_names();
}

/// A peak-to-peak voltage is taken over, a negative one as zero, and told by the query; nothing
/// else changes.
pub proof fn law_generator_voltage_reads_back(
    scope: Scope,
    subject: Seq<char>,
    arg: Seq<char>,
    x: FloatArg,
)
    requires
        same_ignoring_case(subject, "AWG"@),
    ensures
        ({
            let taken = x.single.spec_max(Single { bits: 0 });
            let (answer, after) = response::<AppState>(
                scope,
                setting(Some(subject), "RANGE"@, arg),
                Some(x),
            );
            &&& answer == Answer::NoReply
            &&& after == (Scope { awg: Awg { range_vpp: taken, ..scope.awg }, ..scope })
            &&& answers(after, query(Some(subject), "RANGE"@)) == (
                Answer::Number(FloatValue::Single(taken), 3),
                after,
            )
        }),
{
    lemma_awg_subject(subject);
    lemma_awg_names();
}

/// An offset of the function generator is taken over as it is and told by the query, under both
/// of its names; nothing else changes.
pub proof fn law_generator_offset_reads_back(
    scope: Scope,
    subject: Seq<char>,
    short: bool,
    arg: Seq<char>,
    x: FloatArg,
)
    requires
        same_ignoring_case(subject, "AWG"@),
    ensures
        ({
            let name = if short {
                "OFF"@
            } else {
                "OFFS"@
            };
            let told = Answer::Number(FloatValue::Single(x.single), 6);
            let (answer, after) = response::<AppState>(
                scope,
                setting(Some(subject), name, arg),
                Some(x),
            );
            &&& answer == Answer::NoReply
            &&& after == (Scope { awg: Awg { offset_v: x.single, ..scope.awg }, ..scope })
            &&& answers(after, query(Some(subject), "OFF"@)) == (told, after)
            &&& answers(after, query(Some(subject), "OFFS"@)) == (told, after)
        }),
{
    lemma_awg_subject(subject);
    lemma_awg_names();
}

/// A known waveform is taken over in upper case and told by the query, and changes nothing else;
/// any other is refused.
pub proof fn law_generator_shape_reads_back(scope: Scope, subject: Seq<char>, arg: Seq<char>)
    requires
        same_ignoring_case(subject, "AWG"@),
    ensures
        ({
            let shape = uppercase(arg);
            let (answer, after) = answers(scope, setting(Some(subject), "SHAPE"@, arg));
            if is_waveform(shape) {
                &&& answer == Answer::NoReply
                &&& after == (Scope { awg: Awg { shape, ..scope.awg }, ..scope })
                &&& answers(after, query(Some(subject), "SHAPE"@)) == (Answer::Reply(shape), after)
            } else {
                answer == Answer::Refused(Refusal::UnsupportedWaveform(shape))
            }
        }),
{
    lemma_awg_subject(subject);
    lemma_awg_names();
}

// ---------------------------------------------------------------------------
// Digital channels

/// The name of a digital channel is kept as it is.
proof fn lemma_key_is_normal(subject: Seq<char>)
    requires
        digital_key(subject) is Some,
    ensures
        normalized(digital_key(subject)->0) == digital_key(subject)->0,
{
    law_normal_names_are_stable(subject);
}

/// A name that was normalized stays as it is when it is normalized again.
pub proof fn law_normal_names_are_stable(key: Seq<char>)
    ensures
        normalized(normalized(key)) == normalized(key),
{
    let name = trimmed(key);
    lemma_trimmed_ends(key);
    if name.len() > 0 {
        assert(!is_blank(uppercase(name)[0]));
        assert(!is_blank(uppercase(name).last()));
        lemma_trimmed_already(uppercase(name));
    } else {
        assert(uppercase(name) == Seq::<char>::empty());
        assert(trimmed(Seq::<char>::empty()) == Seq::<char>::empty());
    }
    assert(uppercase(uppercase(name)) == uppercase(name));
}

/// A threshold or hysteresis is taken over as it is and told by the query. It changes nothing
/// else, neither the other of the two nor any other digital channel.
pub proof fn law_digital_settings_read_back(
    scope: Scope,
    subject: Seq<char>,
    hysteresis: bool,
    arg: Seq<char>,
    mv: FloatArg,
    other: Seq<char>,
)
    requires
        digital_key(subject) is Some,
    ensures
        ({
            let key = digital_key(subject)->0;
            let before = scope.digital_channel(key);
            let name = if hysteresis {
                "HYS"@
            } else {
                "THRESH"@
            };
            let (answer, after) = response::<AppState>(
                scope,
                setting(Some(subject), name, arg),
                Some(mv),
            );
            &&& answer == Answer::NoReply
            &&& after == (Scope { digital: after.digital, ..scope })
            &&& after.digital_channel(key) == if hysteresis {
                DigitalChannelState { hysteresis_mv: mv.single, ..before }
            } else {
                DigitalChannelState { threshold_mv: mv.single, ..before }
            }
            &&& normalized(other) != key ==> after.digital_channel(other) == scope.digital_channel(
                other,
            )
            &&& answers(after, query(Some(subject), name)) == (
                Answer::Number(FloatValue::Single(mv.single), 3),
                after,
            )
        }),
{
    lemma_digital_subject(subject);
    lemma_digital_names();
    lemma_key_is_normal(subject);
}

/// No digital pod is ever present, and that cannot be set.
pub proof fn law_no_pod_is_present(scope: Scope, subject: Seq<char>, request: Request)
    requires
        digital_key(subject) is Some,
        request.subject == Some(subject),
        request.command == "PRESENT"@,
    ensures
        answers(scope, request) == (
            if request.is_query {
                Answer::Reply("0"@)
            } else {
                Answer::Refused(Refusal::PresentIsAQuery)
            },
            scope,
        ),
{
    lemma_digital_subject(subject);
}

// ---------------------------------------------------------------------------
// Running

/// `EXIT` ends the session and changes nothing, whatever else is in its line.
pub proof fn law_exit_ends_the_session<S: ScpiState>(
    scope: Scope,
    request: Request,
    value: Option<FloatArg>,
)
    requires
        request.subject is None,
        request.command == "EXIT"@,
    ensures
        response::<S>(scope, request, value) == (Answer::Exit, scope),
{
    lemma_plain_names();
    assert("EXIT"@.take(4)[0] == 'E');
}

/// A single acquisition and a forced one ask the same of the device: to start at the sample rate
/// and to end with the first waveform.
pub proof fn law_force_asks_for_a_single_acquisition(scope: Scope)
    ensures
        answers(scope, order(None, "FORCE"@)) == (
            Answer::Device(
                DeviceAction::Start { rate: scope.acquisition.sample_rate, one_shot: true },
            ),
            scope,
        ),
        answers(scope, order(None, "FORCE"@)) == answers(scope, order(None, "SINGLE"@)),
{
    lemma_plain_names();
}

/// A start or a single acquisition asks the device to start at the sample rate. If the device
/// starts, the scope is armed until it is told to stop; if not, the client is told, and nothing
/// changes.
pub proof fn law_arming(scope: Scope, one_shot: bool, actual: u32)
    ensures
        ({
            let rate = scope.acquisition.sample_rate;
            let name = if one_shot {
                "SINGLE"@
            } else {
                "START"@
            };
            let armed = query(None, "ARMED"@);
            let (answer, running) = start_response::<AppState>(scope, rate, one_shot, Some(actual));
            let (last, stopped) = answers(running, order(None, "STOP"@));
            &&& answers(scope, order(None, name)) == (
                Answer::Device(DeviceAction::Start { rate, one_shot }),
                scope,
            )
            &&& answer == Answer::NoReply
            &&& answers(running, armed) == (Answer::Reply("1"@), running)
            &&& last == Answer::Device(DeviceAction::Stop)
            &&& answers(stopped, armed) == (Answer::Reply("0"@), stopped)
            &&& stopped.acquisition == (AcquisitionState {
                armed: false,
                one_shot: false,
                actual_sample_rate: actual,
                ..scope.acquisition
            })
            &&& start_response::<AppState>(scope, rate, one_shot, None) == (
                Answer::Refused(Refusal::StartFailed(rate)),
                scope,
            )
        }),
{
    lemma_plain_names();
}

} // verus!
