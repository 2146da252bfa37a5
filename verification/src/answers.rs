//! What every command is answered, command by command.

use vstd::prelude::*;
use vstd::arithmetic::div_mod::lemma_fundamental_div_mod_converse;
use crate::error::{FloatError, Refusal};
use crate::floating::{Double, Single};
use crate::hardware::{law_volts_text_is_full_scale, thousandths, Coupling};
use crate::model::{
    channel_index, digital_key, interval, names_channel, response, Answer, Request, Scope, Setting,
};
use crate::number::{
    decimal, lemma_unsigned_round_trip, read_signed, read_unsigned, signed_decimal, IntError,
};
use crate::readback::{
    law_channel_spellings, law_channel_subjects, law_normal_names_are_stable, lemma_awg_names,
    lemma_awg_subject, lemma_channel_names, lemma_digital_names, lemma_digital_subject,
    lemma_plain_names, lemma_trig_subject, lemma_trigger_names, lemma_trigger_prefix,
};
use crate::scpi::{lemma_index_in_range, DeviceAction, FloatArg, FloatValue, ScpiState};
use crate::state::TriggerEdge;
use crate::text::{has_prefix, joined, same_ignoring_case, uppercase};

verus! {

// ---------------------------------------------------------------------------
// Without a subject

/// The queries without a subject tell what the scope holds, and change nothing.
pub proof fn law_plain_queries<S: ScpiState>(
    scope: Scope,
    request: Request,
    value: Option<FloatArg>,
)
    requires
        request.subject is None,
        request.is_query,
    ensures
        request.command == "*IDN"@ ==> response::<S>(scope, request, value) == (
            Answer::Reply(scope.identity),
            scope,
        ),
        request.command == "CHANS"@ ==> response::<S>(scope, request, value) == (
            Answer::Reply(decimal(scope.channels.len())),
            scope,
        ),
        request.command == "SEQNUM"@ ==> response::<S>(scope, request, value) == (
            Answer::Reply(decimal(scope.last_sequence as nat)),
            scope,
        ),
        request.command == "RATE"@ ==> response::<S>(scope, request, value) == (
            Answer::Reply(decimal(scope.acquisition.sample_rate as nat)),
            scope,
        ),
        request.command == "DEPTH"@ ==> response::<S>(scope, request, value) == (
            Answer::Reply(decimal(scope.acquisition.sample_depth as nat)),
            scope,
        ),
        request.command == "BITS"@ ==> response::<S>(scope, request, value) == (
            Answer::Reply(decimal(scope.adc_bits as nat)),
            scope,
        ),
        request.command == "ARMED"@ ==> response::<S>(scope, request, value) == (
            Answer::Reply(if scope.acquisition.armed {
                "1"@
            } else {
                "0"@
            }),
            scope,
        ),
{
    lemma_plain_names();
}

/// `CHANS?` tells how far the numbers of the channels go: a channel with a number is found exactly
/// if the number is from one up to the number in the reply.
pub proof fn law_channel_count_is_the_last_number<S: ScpiState>(
    scope: Scope,
    request: Request,
    value: Option<FloatArg>,
    number: nat,
)
    requires
        request.subject is None,
        request.is_query,
        request.command == "CHANS"@,
        scope.channels.len() <= usize::MAX,
        number <= usize::MAX,
    ensures
        ({
            let told = response::<S>(scope, request, value).0->Reply_0;
            let spelled = "C"@ + decimal(number);
            let state = Request {
                subject: Some(spelled),
                command: "STATE"@,
                is_query: true,
                args: seq![],
            };
            &&& response::<S>(scope, request, value).0 is Reply
            &&& read_unsigned(told, usize::MAX as nat) == Ok::<nat, IntError>(scope.channels.len())
            &&& (channel_index(spelled, scope.channels.len()) is Ok) == (1 <= number
                && number <= read_unsigned(told, usize::MAX as nat)->Ok_0)
            &&& (response::<S>(scope, state, None).0 !is Refused) == (1 <= number
                && number <= read_unsigned(told, usize::MAX as nat)->Ok_0)
        }),
{
    lemma_plain_names();
    lemma_channel_names();
    lemma_unsigned_round_trip(scope.channels.len(), usize::MAX as nat);
    law_channel_spellings(number, 'C', scope.channels.len());
    law_channel_subjects(number, 'C');
    reveal_strlit("C");
    assert("C"@ == seq!['C']);
}

/// The interval that `RATES?` lists for a rate is a second in femtoseconds, divided by the rate: so
/// many of them fit in a second at that rate, and no more. The intervals are listed in the order of
/// the rates.
pub proof fn law_rates_are_listed_as_intervals<S: ScpiState>(
    scope: Scope,
    request: Request,
    value: Option<FloatArg>,
    intervals: Seq<nat>,
)
    requires
        request.subject is None,
        request.is_query,
        request.command == "RATES"@,
        intervals.len() == scope.rates.len(),
        forall|i: int|
            0 <= i < intervals.len() ==> if scope.rates[i] == 0 {
                #[trigger] intervals[i] == 0
            } else {
                intervals[i] * scope.rates[i] <= 1_000_000_000_000_000 < (intervals[i] + 1)
                    * scope.rates[i]
            },
    ensures
        response::<S>(scope, request, value) == (
            Answer::Reply(
                joined(Seq::new(intervals.len(), |i: int| decimal(intervals[i])), ","@),
            ),
            scope,
        ),
{
    lemma_plain_names();
    let listed = Seq::new(scope.rates.len(), |i: int| signed_decimal(interval(scope.rates[i])));
    let stated = Seq::new(intervals.len(), |i: int| decimal(intervals[i]));
    assert forall|i: int| 0 <= i < intervals.len() implies listed[i] == stated[i] by {
        if scope.rates[i] != 0 {
            lemma_quotient(scope.rates[i], intervals[i]);
        }
    }
    assert(listed == stated);
}

/// A quotient is what fits.
pub proof fn lemma_quotient(rate: u32, t: nat)
    requires
        rate > 0,
        t * rate <= 1_000_000_000_000_000 < (t + 1) * rate,
    ensures
        1_000_000_000_000_000int / rate as int == t,
{
    assert((t + 1) * rate == t * rate + rate) by (nonlinear_arith);
    lemma_fundamental_div_mod_converse(
        1_000_000_000_000_000,
        rate as int,
        t as int,
        1_000_000_000_000_000 - t * rate,
    );
}

/// `DEPTHS?` lists all depths in their order.
pub proof fn law_depths_are_listed<S: ScpiState>(
    scope: Scope,
    request: Request,
    value: Option<FloatArg>,
)
    requires
        request.subject is None,
        request.is_query,
        request.command == "DEPTHS"@,
    ensures
        response::<S>(scope, request, value) == (
            Answer::Reply(
                joined(
                    Seq::new(scope.depths.len(), |i: int| decimal(scope.depths[i] as nat)),
                    ","@,
                ),
            ),
            scope,
        ),
{
    lemma_plain_names();
}

/// Rate, depth and resolution are set by their first argument: it has to be there, has to be a
/// number that fits, and has to be one that the scope takes.
pub proof fn law_acquisition_is_set<S: ScpiState>(
    scope: Scope,
    request: Request,
    value: Option<FloatArg>,
)
    requires
        request.subject is None,
        !request.is_query,
    ensures
        request.command == "RATE"@ ==> response::<S>(scope, request, value) == if request.args.len()
            == 0 {
            (Answer::Refused(Refusal::MissingArgument("RATE requires an argument"@)), scope)
        } else {
            match read_unsigned(request.args[0], u32::MAX as nat) {
                Err(error) => (Answer::Refused(Refusal::Integer(error)), scope),
                Ok(n) => match S::refusal(scope, Setting::SampleRate(n as u32)) {
                    Some(reason) => (Answer::Refused(reason), scope),
                    None => (Answer::NoReply, S::applied(scope, Setting::SampleRate(n as u32))),
                },
            }
        },
        request.command == "DEPTH"@ ==> response::<S>(scope, request, value) == if request.args.len()
            == 0 {
            (Answer::Refused(Refusal::MissingArgument("DEPTH requires an argument"@)), scope)
        } else {
            match read_unsigned(request.args[0], usize::MAX as nat) {
                Err(error) => (Answer::Refused(Refusal::Integer(error)), scope),
                Ok(n) => match S::refusal(scope, Setting::SampleDepth(n as usize)) {
                    Some(reason) => (Answer::Refused(reason), scope),
                    None => (Answer::NoReply, S::applied(scope, Setting::SampleDepth(n as usize))),
                },
            }
        },
        request.command == "BITS"@ ==> response::<S>(scope, request, value) == if request.args.len()
            == 0 {
            (Answer::Refused(Refusal::MissingArgument("BITS requires a value"@)), scope)
        } else {
            match read_unsigned(request.args[0], u32::MAX as nat) {
                Err(error) => (Answer::Refused(Refusal::Integer(error)), scope),
                Ok(n) => match S::refusal(scope, Setting::AdcBits(n as u32)) {
                    Some(reason) => (Answer::Refused(reason), scope),
                    None => (Answer::NoReply, S::applied(scope, Setting::AdcBits(n as u32))),
                },
            }
        },
{
    lemma_plain_names();
}

/// The commands that run the scope do so whatever else is in their line.
pub proof fn law_running_commands<S: ScpiState>(
    scope: Scope,
    request: Request,
    value: Option<FloatArg>,
)
    requires
        request.subject is None,
    ensures
        request.command == "START"@ ==> response::<S>(scope, request, value) == (
            Answer::Device(
                DeviceAction::Start { rate: scope.acquisition.sample_rate, one_shot: false },
            ),
            scope,
        ),
        request.command == "SINGLE"@ || request.command == "FORCE"@ ==> response::<S>(
            scope,
            request,
            value,
        ) == (
            Answer::Device(
                DeviceAction::Start { rate: scope.acquisition.sample_rate, one_shot: true },
            ),
            scope,
        ),
        request.command == "STOP"@ ==> response::<S>(scope, request, value) == (
            Answer::Device(DeviceAction::Stop),
            S::applied(scope, Setting::Stopped),
        ),
        request.command == "EXIT"@ ==> response::<S>(scope, request, value) == (
            Answer::Exit,
            scope,
        ),
{
    lemma_plain_names();
    assert("EXIT"@.take(4)[0] == 'E');
}

/// Any other command without a subject is refused by its name, and so are the pure queries when
/// they do not ask.
pub proof fn law_unknown_commands<S: ScpiState>(
    scope: Scope,
    request: Request,
    value: Option<FloatArg>,
)
    requires
        request.subject is None,
        request.command.len() < 4 || request.command[0] != 'T' || request.command[1] != 'R'
            || request.command[2] != 'I' || request.command[3] != 'G',
        request.command != "DELAY"@,
        request.command != "LEV"@,
        request.command != "SOU"@,
        request.command != "EDGE:DIR"@,
        request.command != "RATE"@,
        request.command != "DEPTH"@,
        request.command != "BITS"@,
        request.command != "START"@,
        request.command != "SINGLE"@,
        request.command != "FORCE"@,
        request.command != "STOP"@,
        request.command != "EXIT"@,
        request.is_query ==> request.command != "*IDN"@ && request.command != "CHANS"@
            && request.command != "SEQNUM"@ && request.command != "RATES"@ && request.command
            != "DEPTHS"@ && request.command != "ARMED"@,
    ensures
        response::<S>(scope, request, value) == (
            Answer::Refused(Refusal::UnsupportedCommand(request.command)),
            scope,
        ),
{
    reveal_strlit("TRIG");
    if has_prefix(request.command, "TRIG"@) {
        let start = request.command.take(4);
        assert(start == "TRIG"@);
        assert(start[0] == 'T' && start[1] == 'R' && start[2] == 'I' && start[3] == 'G');
    }
}

/// A subject of no family is a part of the command's name.
pub proof fn law_other_subjects<S: ScpiState>(
    scope: Scope,
    subject: Seq<char>,
    request: Request,
    value: Option<FloatArg>,
)
    requires
        !names_channel(subject),
        !same_ignoring_case(subject, "AWG"@),
        digital_key(subject) is None,
        !same_ignoring_case(subject, "TRIG"@),
    ensures
        response::<S>(scope, Request { subject: Some(subject), ..request }, value) == response::<S>(
            scope,
            Request {
                subject: None,
                command: if request.command.len() == 0 {
                    uppercase(subject)
                } else {
                    uppercase(subject) + seq![':'] + request.command
                },
                ..request
            },
            value,
        ),
{
}

// ---------------------------------------------------------------------------
// Trigger

/// What the trigger commands are answered.
pub proof fn law_trigger_answers<S: ScpiState>(
    scope: Scope,
    subject: Seq<char>,
    request: Request,
    value: Option<FloatArg>,
)
    requires
        request.subject == Some(subject),
        same_ignoring_case(subject, "TRIG"@),
        scope.channels.len() <= usize::MAX,
    ensures
        request.is_query ==> {
            &&& request.command == "SOU"@ ==> response::<S>(scope, request, value) == (
                Answer::Reply("C"@ + decimal((scope.acquisition.trigger_source + 1) as nat)),
                scope,
            )
            &&& request.command == "LEV"@ ==> response::<S>(scope, request, value) == (
                Answer::Number(FloatValue::Double(scope.acquisition.trigger_level), 6),
                scope,
            )
            &&& request.command == "DELAY"@ ==> response::<S>(scope, request, value) == (
                Answer::Reply(signed_decimal(scope.acquisition.trigger_delay_fs as int)),
                scope,
            )
            &&& request.command == "EDGE:DIR"@ ==> response::<S>(scope, request, value) == (
                Answer::Reply(
                    match scope.acquisition.trigger_edge {
                        TriggerEdge::Rising => "RISING"@,
                        TriggerEdge::Falling => "FALLING"@,
                        TriggerEdge::Either => "EITHER"@,
                    },
                ),
                scope,
            )
        },
        !request.is_query && request.args.len() == 0 ==> {
            &&& request.command == "SOU"@ ==> response::<S>(scope, request, value) == (
                Answer::Refused(Refusal::MissingArgument("TRIG:SOU requires a channel"@)),
                scope,
            )
            &&& request.command == "LEV"@ ==> response::<S>(scope, request, value) == (
                Answer::Refused(Refusal::MissingArgument("TRIG:LEV requires a value"@)),
                scope,
            )
            &&& request.command == "DELAY"@ ==> response::<S>(scope, request, value) == (
                Answer::Refused(Refusal::MissingArgument("TRIG:DELAY requires a value"@)),
                scope,
            )
            &&& request.command == "EDGE:DIR"@ ==> response::<S>(scope, request, value) == (
                Answer::Refused(Refusal::MissingArgument("TRIG:EDGE:DIR requires a value"@)),
                scope,
            )
        },
        !request.is_query && request.args.len() > 0 ==> {
            let arg = request.args[0];
            &&& request.command == "SOU"@ ==> response::<S>(scope, request, value) == match
                channel_index(arg, scope.channels.len()) {
                Ok(index) => (
                    Answer::NoReply,
                    S::applied(scope, Setting::TriggerSource(index as usize)),
                ),
                Err(reason) => (Answer::Refused(reason), scope),
            }
            &&& request.command == "LEV"@ ==> response::<S>(scope, request, value) == match value {
                Some(level) => (
                    Answer::NoReply,
                    S::applied(scope, Setting::TriggerLevel(level.double)),
                ),
                None => (Answer::Refused(Refusal::Float(if arg.len() == 0 {
                        FloatError::Empty
                    } else {
                        FloatError::Invalid
                    })), scope),
            }
            &&& request.command == "DELAY"@ ==> response::<S>(scope, request, value) == match
                read_signed(arg) {
                Ok(delay) => (
                    Answer::NoReply,
                    S::applied(scope, Setting::TriggerDelay(delay as i64)),
                ),
                Err(error) => (Answer::Refused(Refusal::Integer(error)), scope),
            }
            &&& request.command == "EDGE:DIR"@ ==> response::<S>(scope, request, value) == {
                let word = uppercase(arg);
                if word == "RISING"@ {
                    (Answer::NoReply, S::applied(scope, Setting::TriggerEdge(TriggerEdge::Rising)))
                } else if word == "FALLING"@ {
                    (Answer::NoReply, S::applied(scope, Setting::TriggerEdge(TriggerEdge::Falling)))
                } else if word == "EITHER"@ || word == "ANY"@ {
                    (Answer::NoReply, S::applied(scope, Setting::TriggerEdge(TriggerEdge::Either)))
                } else {
                    (Answer::Refused(Refusal::InvalidTriggerDirection(word)), scope)
                }
            }
        },
        request.command != "SOU"@ && request.command != "LEV"@ && request.command != "DELAY"@
            && request.command != "EDGE:DIR"@ ==> response::<S>(scope, request, value) == (
            Answer::Refused(
                Refusal::UnsupportedTriggerCommand(
                    if request.command.len() == 0 {
                        "TRIG"@
                    } else {
                        "TRIG:"@ + request.command
                    },
                ),
            ),
            scope,
        ),
{
    lemma_trig_subject(subject);
    lemma_trigger_prefix();
    lemma_trigger_names();
    lemma_plain_names();
    reveal_strlit("TRIG");
    reveal_strlit("TRIG:");
    assert(uppercase("TRIG"@) == "TRIG"@);
    let name = request.prefixed("TRIG"@).command;
    if request.command.len() > 0 {
        assert(name == "TRIG:"@ + request.command);
        assert(name.skip(5) == request.command);
        lemma_trigger_tails();
    }
}

/// The names of the trigger commands behind their `TRIG:`.
proof fn lemma_trigger_tails()
    ensures
        "TRIG:SOU"@.skip(5) == "SOU"@,
        "TRIG:LEV"@.skip(5) == "LEV"@,
        "TRIG:DELAY"@.skip(5) == "DELAY"@,
        "TRIG:EDGE:DIR"@.skip(5) == "EDGE:DIR"@,
{
    reveal_strlit("TRIG:SOU");
    reveal_strlit("TRIG:LEV");
    reveal_strlit("TRIG:DELAY");
    reveal_strlit("TRIG:EDGE:DIR");
    reveal_strlit("SOU");
    reveal_strlit("LEV");
    reveal_strlit("DELAY");
    reveal_strlit("EDGE:DIR");
}

// ---------------------------------------------------------------------------
// Analog channels

/// What is asked of the device for a channel is exactly what its settings say: if it is enabled,
/// to enable the channel with the device's own number, the very range and the very coupling that
/// the queries tell; if not, to disable the channel with that number.
pub proof fn law_device_is_asked_what_is_set<S: ScpiState>(
    scope: Scope,
    subject: Seq<char>,
    index: nat,
    request: Request,
    value: Option<FloatArg>,
)
    requires
        scope.channels.len() <= usize::MAX,
        names_channel(subject),
        channel_index(subject, scope.channels.len()) == Ok::<nat, Refusal>(index),
        request.subject == Some(subject),
        request.is_query,
    ensures
        ({
            let told = response::<S>(scope, request, value).0;
            match scope.sync_action(index as int) {
                DeviceAction::EnableChannel { channel, range, coupling } => {
                    &&& channel == scope.channel_ids[index as int]
                    &&& range == scope.channels[index as int].range
                    &&& coupling == scope.channels[index as int].coupling
                    &&& request.command == "STATE"@ ==> told == Answer::Reply("1"@)
                    &&& request.command == "RANGE"@ ==> told == Answer::Reply(
                        thousandths(range.millivolts()),
                    )
                    &&& request.command == "COUP"@ ==> told == Answer::Reply(
                        match coupling {
                            Coupling::AC => "AC"@,
                            Coupling::DC => "DC"@,
                        },
                    )
                },
                DeviceAction::DisableChannel { channel } => {
                    &&& channel == scope.channel_ids[index as int]
                    &&& request.command == "STATE"@ ==> told == Answer::Reply("0"@)
                },
                DeviceAction::Start { .. } | DeviceAction::Stop => false,
            }
        }),
{
    lemma_channel_names();
    lemma_index_in_range(subject, scope.channels.len());
    law_volts_text_is_full_scale(scope.channels[index as int].range);
}

/// What a channel is asked to follow with, field by field, for every index that there is.
pub proof fn law_sync_is_field_by_field(scope: Scope, index: int)
    requires
        0 <= index < scope.channels.len(),
    ensures
        scope.channels[index].enabled ==> scope.sync_action(index) == (DeviceAction::EnableChannel {
            channel: scope.channel_ids[index],
            range: scope.channels[index].range,
            coupling: scope.channels[index].coupling,
        }),
        !scope.channels[index].enabled ==> scope.sync_action(index) == (
        DeviceAction::DisableChannel { channel: scope.channel_ids[index] }),
{
}

/// What the commands to a channel are answered.
pub proof fn law_channel_answers<S: ScpiState>(
    scope: Scope,
    subject: Seq<char>,
    index: nat,
    request: Request,
    value: Option<FloatArg>,
)
    requires
        scope.channels.len() <= usize::MAX,
        names_channel(subject),
        channel_index(subject, scope.channels.len()) == Ok::<nat, Refusal>(index),
        request.subject == Some(subject),
    ensures
        request.command == "ON"@ ==> {
            let after = S::applied(scope, Setting::ChannelEnabled(index as usize, true));
            response::<S>(scope, request, value) == (
                Answer::Device(after.sync_action(index as int)),
                after,
            )
        },
        request.command == "OFF"@ ==> {
            let after = S::applied(scope, Setting::ChannelEnabled(index as usize, false));
            response::<S>(scope, request, value) == (
                Answer::Device(after.sync_action(index as int)),
                after,
            )
        },
        request.is_query && request.command == "STATE"@ ==> response::<S>(scope, request, value) == (
            Answer::Reply(
                if scope.channels[index as int].enabled {
                    "1"@
                } else {
                    "0"@
                },
            ),
            scope,
        ),
        request.is_query && request.command == "COUP"@ ==> response::<S>(scope, request, value) == (
            Answer::Reply(
                match scope.channels[index as int].coupling {
                    Coupling::AC => "AC"@,
                    Coupling::DC => "DC"@,
                },
            ),
            scope,
        ),
        request.is_query && request.command == "RANGE"@ ==> response::<S>(scope, request, value) == (
            Answer::Reply(thousandths(scope.channels[index as int].range.millivolts())),
            scope,
        ),
        request.is_query && request.command == "OFFS"@ ==> response::<S>(scope, request, value) == (
            Answer::Number(FloatValue::Single(scope.channels[index as int].offset), 6),
            scope,
        ),
        request.is_query && request.command == "BWLIM"@ ==> response::<S>(scope, request, value) == (
            Answer::Reply(
                match scope.channels[index as int].bandwidth_limit_mhz {
                    Some(mhz) => decimal(mhz as nat),
                    None => decimal(0),
                },
            ),
            scope,
        ),
        !request.is_query && request.command == "COUP"@ ==> response::<S>(scope, request, value)
            == if request.args.len() == 0 {
            (
                Answer::Refused(Refusal::MissingArgument("channel coupling requires an argument"@)),
                scope,
            )
        } else {
            let word = uppercase(request.args[0]);
            let direct = S::applied(scope, Setting::ChannelCoupling(index as usize, Coupling::DC));
            let alternating = S::applied(
                scope,
                Setting::ChannelCoupling(index as usize, Coupling::AC),
            );
            if word == "DC"@ || word == "DC1M"@ || word == "DC50"@ {
                (Answer::Device(direct.sync_action(index as int)), direct)
            } else if word == "AC"@ || word == "AC1M"@ {
                (Answer::Device(alternating.sync_action(index as int)), alternating)
            } else {
                (Answer::Refused(Refusal::UnsupportedCoupling(word)), scope)
            }
        },
        !request.is_query && request.command == "RANGE"@ ==> response::<S>(scope, request, value)
            == if request.args.len() == 0 {
            (Answer::Refused(Refusal::MissingArgument("channel range requires a value"@)), scope)
        } else {
            match value {
                Some(x) => {
                    let after = S::applied(scope, Setting::ChannelRange(index as usize, x.double));
                    (Answer::Device(after.sync_action(index as int)), after)
                },
                None => (
                    Answer::Refused(
                        Refusal::Float(
                            if request.args[0].len() == 0 {
                                FloatError::Empty
                            } else {
                                FloatError::Invalid
                            },
                        ),
                    ),
                    scope,
                ),
            }
        },
        !request.is_query && request.command == "OFFS"@ ==> response::<S>(scope, request, value)
            == if request.args.len() == 0 {
            (Answer::Refused(Refusal::MissingArgument("channel offset requires a value"@)), scope)
        } else {
            match value {
                Some(x) => (
                    Answer::NoReply,
                    S::applied(scope, Setting::ChannelOffset(index as usize, x.single)),
                ),
                None => (
                    Answer::Refused(
                        Refusal::Float(
                            if request.args[0].len() == 0 {
                                FloatError::Empty
                            } else {
                                FloatError::Invalid
                            },
                        ),
                    ),
                    scope,
                ),
            }
        },
        !request.is_query && request.command == "BWLIM"@ ==> response::<S>(scope, request, value)
            == if request.args.len() == 0 {
            (
                Answer::Refused(
                    Refusal::MissingArgument("channel bandwidth limit requires a value"@),
                ),
                scope,
            )
        } else {
            match read_unsigned(request.args[0], u32::MAX as nat) {
                Err(error) => (Answer::Refused(Refusal::Integer(error)), scope),
                Ok(mhz) => (
                    Answer::NoReply,
                    S::applied(
                        scope,
                        Setting::BandwidthLimit(
                            index as usize,
                            if mhz == 0 {
                                None
                            } else {
                                Some(mhz as u32)
                            },
                        ),
                    ),
                ),
            }
        },
        request.command != "ON"@ && request.command != "OFF"@ && request.command != "COUP"@
            && request.command != "RANGE"@ && request.command != "OFFS"@ && request.command
            != "BWLIM"@ && !(request.command == "STATE"@ && request.is_query) ==> response::<S>(
            scope,
            request,
            value,
        ) == (
            Answer::Refused(Refusal::UnsupportedChannelCommand(request.command, subject)),
            scope,
        ),
{
    lemma_channel_names();
    lemma_index_in_range(subject, scope.channels.len());
    law_volts_text_is_full_scale(scope.channels[index as int].range);
}

/// A command to a channel that there is not is refused for that reason.
pub proof fn law_missing_channels_are_refused<S: ScpiState>(
    scope: Scope,
    subject: Seq<char>,
    reason: Refusal,
    request: Request,
    value: Option<FloatArg>,
)
    requires
        names_channel(subject),
        channel_index(subject, scope.channels.len()) == Err::<nat, Refusal>(reason),
        request.subject == Some(subject),
    ensures
        response::<S>(scope, request, value) == (Answer::Refused(reason), scope),
{
}

// ---------------------------------------------------------------------------
// Function generator

/// What the commands to the function generator are answered.
pub proof fn law_generator_answers<S: ScpiState>(
    scope: Scope,
    subject: Seq<char>,
    request: Request,
    value: Option<FloatArg>,
)
    requires
        request.subject == Some(subject),
        same_ignoring_case(subject, "AWG"@),
    ensures
        request.is_query && request.command == "START"@ ==> response::<S>(scope, request, value) == (
            Answer::Reply(
                if scope.awg.enabled {
                    "1"@
                } else {
                    "0"@
                },
            ),
            scope,
        ),
        request.is_query && request.command == "STOP"@ ==> response::<S>(scope, request, value) == (
            Answer::Reply(
                if scope.awg.enabled {
                    "1"@
                } else {
                    "0"@
                },
            ),
            scope,
        ),
        request.is_query && request.command == "STATE"@ ==> response::<S>(scope, request, value) == (
            Answer::Reply(
                if scope.awg.enabled {
                    "1"@
                } else {
                    "0"@
                },
            ),
            scope,
        ),
        !request.is_query && request.command == "START"@ ==> response::<S>(scope, request, value) == (
            Answer::NoReply,
            S::applied(scope, Setting::AwgEnabled(true)),
        ),
        !request.is_query && request.command == "STOP"@ ==> response::<S>(scope, request, value) == (
            Answer::NoReply,
            S::applied(scope, Setting::AwgEnabled(false)),
        ),
        request.is_query && request.command == "FREQ"@ ==> response::<S>(scope, request, value) == (
            Answer::Number(FloatValue::Double(scope.awg.frequency_hz), 6),
            scope,
        ),
        !request.is_query && request.command == "FREQ"@ ==> response::<S>(scope, request, value)
            == if request.args.len() == 0 {
            (Answer::Refused(Refusal::MissingArgument("AWG:FREQ requires a value"@)), scope)
        } else {
            match value {
                Some(x) => (Answer::NoReply, S::applied(scope, Setting::AwgFrequency(x.double))),
                None => (
                    Answer::Refused(
                        Refusal::Float(
                            if request.args[0].len() == 0 {
                                FloatError::Empty
                            } else {
                                FloatError::Invalid
                            },
                        ),
                    ),
                    scope,
                ),
            }
        },
        request.is_query && request.command == "DUTY"@ ==> response::<S>(scope, request, value) == (
            Answer::Number(FloatValue::Single(scope.awg.duty_cycle), 3),
            scope,
        ),
        !request.is_query && request.command == "DUTY"@ ==> response::<S>(scope, request, value)
            == if request.args.len() == 0 {
            (Answer::Refused(Refusal::MissingArgument("AWG:DUTY requires a value"@)), scope)
        } else {
            match value {
                Some(x) => (Answer::NoReply, S::applied(scope, Setting::AwgDuty(x.single))),
                None => (
                    Answer::Refused(
                        Refusal::Float(
                            if request.args[0].len() == 0 {
                                FloatError::Empty
                            } else {
                                FloatError::Invalid
                            },
                        ),
                    ),
                    scope,
                ),
            }
        },
        request.is_query && request.command == "RANGE"@ ==> response::<S>(scope, request, value) == (
            Answer::Number(FloatValue::Single(scope.awg.range_vpp), 3),
            scope,
        ),
        !request.is_query && request.command == "RANGE"@ ==> response::<S>(scope, request, value)
            == if request.args.len() == 0 {
            (Answer::Refused(Refusal::MissingArgument("AWG:RANGE requires a value"@)), scope)
        } else {
            match value {
                Some(x) => (Answer::NoReply, S::applied(scope, Setting::AwgRange(x.single))),
                None => (
                    Answer::Refused(
                        Refusal::Float(
                            if request.args[0].len() == 0 {
                                FloatError::Empty
                            } else {
                                FloatError::Invalid
                            },
                        ),
                    ),
                    scope,
                ),
            }
        },
        request.is_query && request.command == "OFF"@ ==> response::<S>(scope, request, value) == (
            Answer::Number(FloatValue::Single(scope.awg.offset_v), 6),
            scope,
        ),
        !request.is_query && request.command == "OFF"@ ==> response::<S>(scope, request, value)
            == if request.args.len() == 0 {
            (Answer::Refused(Refusal::MissingArgument("AWG:OFFS requires a value"@)), scope)
        } else {
            match value {
                Some(x) => (Answer::NoReply, S::applied(scope, Setting::AwgOffset(x.single))),
                None => (
                    Answer::Refused(
                        Refusal::Float(
                            if request.args[0].len() == 0 {
                                FloatError::Empty
                            } else {
                                FloatError::Invalid
                            },
                        ),
                    ),
                    scope,
                ),
            }
        },
        request.is_query && request.command == "OFFS"@ ==> response::<S>(scope, request, value) == (
            Answer::Number(FloatValue::Single(scope.awg.offset_v), 6),
            scope,
        ),
        !request.is_query && request.command == "OFFS"@ ==> response::<S>(scope, request, value)
            == if request.args.len() == 0 {
            (Answer::Refused(Refusal::MissingArgument("AWG:OFFS requires a value"@)), scope)
        } else {
            match value {
                Some(x) => (Answer::NoReply, S::applied(scope, Setting::AwgOffset(x.single))),
                None => (
                    Answer::Refused(
                        Refusal::Float(
                            if request.args[0].len() == 0 {
                                FloatError::Empty
                            } else {
                                FloatError::Invalid
                            },
                        ),
                    ),
                    scope,
                ),
            }
        },
        request.is_query && request.command == "SHAPE"@ ==> response::<S>(scope, request, value) == (
            Answer::Reply(scope.awg.shape),
            scope,
        ),
        !request.is_query && request.command == "SHAPE"@ ==> response::<S>(scope, request, value)
            == if request.args.len() == 0 {
            (Answer::Refused(Refusal::MissingArgument("AWG:SHAPE requires a value"@)), scope)
        } else {
            let word = uppercase(request.args[0]);
            if word == "SINE"@ || word == "SQUARE"@ || word == "TRIANGLE"@ || word == "RAMP_UP"@
                || word == "RAMP_DOWN"@ || word == "DC"@ || word == "WHITENOISE"@ || word == "PRBS"@
                || word == "ARBITRARY"@ {
                (Answer::NoReply, S::applied(scope, Setting::AwgShape(word)))
            } else {
                (Answer::Refused(Refusal::UnsupportedWaveform(word)), scope)
            }
        },
        request.command != "START"@ && request.command != "STOP"@ && request.command != "FREQ"@
            && request.command != "DUTY"@ && request.command != "RANGE"@ && request.command
            != "OFF"@ && request.command != "OFFS"@ && request.command != "SHAPE"@ && !(
        request.command == "STATE"@ && request.is_query) ==> response::<S>(scope, request, value)
            == (Answer::Refused(Refusal::UnsupportedAwgCommand(request.command)), scope),
{
    lemma_awg_subject(subject);
    lemma_awg_names();
}

// ---------------------------------------------------------------------------
// Digital channels

/// What the commands to a digital channel are answered.
pub proof fn law_digital_answers<S: ScpiState>(
    scope: Scope,
    subject: Seq<char>,
    key: Seq<char>,
    request: Request,
    value: Option<FloatArg>,
)
    requires
        request.subject == Some(subject),
        digital_key(subject) == Some(key),
    ensures
        request.is_query && request.command == "PRESENT"@ ==> response::<S>(scope, request, value) == (
            Answer::Reply("0"@),
            scope,
        ),
        !request.is_query && request.command == "PRESENT"@ ==> response::<S>(scope, request, value)
            == (Answer::Refused(Refusal::PresentIsAQuery), scope),
        request.is_query && request.command == "HYS"@ ==> response::<S>(scope, request, value) == (
            Answer::Number(
                FloatValue::Single(
                    if scope.digital.dom().contains(key) {
                        scope.digital[key].hysteresis_mv
                    } else {
                        Single { bits: 0 }
                    },
                ),
                3,
            ),
            scope,
        ),
        !request.is_query && request.command == "HYS"@ ==> response::<S>(scope, request, value)
            == if request.args.len() == 0 {
            (Answer::Refused(Refusal::MissingArgument("HYS requires a value"@)), scope)
        } else {
            match value {
                Some(x) => (Answer::NoReply, S::applied(scope, Setting::DigitalHysteresis(key, x.single))),
                None => (
                    Answer::Refused(
                        Refusal::Float(
                            if request.args[0].len() == 0 {
                                FloatError::Empty
                            } else {
                                FloatError::Invalid
                            },
                        ),
                    ),
                    scope,
                ),
            }
        },
        request.is_query && request.command == "THRESH"@ ==> response::<S>(scope, request, value) == (
            Answer::Number(
                FloatValue::Single(
                    if scope.digital.dom().contains(key) {
                        scope.digital[key].threshold_mv
                    } else {
                        Single { bits: 0 }
                    },
                ),
                3,
            ),
            scope,
        ),
        !request.is_query && request.command == "THRESH"@ ==> response::<S>(scope, request, value)
            == if request.args.len() == 0 {
            (Answer::Refused(Refusal::MissingArgument("THRESH requires a value"@)), scope)
        } else {
            match value {
                Some(x) => (Answer::NoReply, S::applied(scope, Setting::DigitalThreshold(key, x.single))),
                None => (
                    Answer::Refused(
                        Refusal::Float(
                            if request.args[0].len() == 0 {
                                FloatError::Empty
                            } else {
                                FloatError::Invalid
                            },
                        ),
                    ),
                    scope,
                ),
            }
        },
        request.command != "PRESENT"@ && request.command != "HYS"@ && request.command != "THRESH"@
            ==> response::<S>(scope, request, value) == (
            Answer::Refused(Refusal::UnsupportedDigitalCommand(request.command)),
            scope,
        ),
{
    lemma_digital_subject(subject);
    lemma_digital_names();
    law_normal_names_are_stable(subject);
}

} // verus!
