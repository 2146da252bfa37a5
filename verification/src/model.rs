//! What the scope answers to a command, as a function of its settings and of the command.

use vstd::prelude::*;
use crate::error::{FloatError, Refusal, ScpiError};
use crate::floating::{Double, Single};
use crate::hardware::Coupling;
use crate::number::{decimal, read_signed, read_unsigned, signed_decimal};
use crate::scpi::{CommandResult, DeviceAction, FloatArg, FloatValue, ScpiState};
use crate::state::{
    AcquisitionState, Awg, ChannelState, DeviceMetadata, DigitalChannelState, TriggerEdge,
    FS_PER_SECOND,
};
use crate::text::{
    all_digits, has_prefix, is_digit, joined, run_length, same_ignoring_case, trimmed, uppercase,
    words, CharClass,
};

verus! {

/// Everything that there is to know of a scope, and so all that a command can ask about or change.
pub struct Scope {
    pub identity: Seq<char>,
    /// What the device tells about itself.
    pub metadata: DeviceMetadata,
    /// The largest sample that the device gives.
    pub max_adc: i16,
    /// The device's own number of each analog channel.
    pub channel_ids: Seq<u64>,
    pub channels: Seq<ChannelState>,
    pub rates: Seq<u32>,
    pub depths: Seq<usize>,
    pub acquisition: AcquisitionState,
    pub awg: Awg,
    /// The digital channels that were set, by their names in upper case.
    pub digital: Map<Seq<char>, DigitalChannelState>,
    pub adc_bits: u32,
    pub last_sequence: u32,
}

/// A change that is handed to the scope.
pub enum Setting {
    SampleRate(u32),
    SampleDepth(usize),
    AdcBits(u32),
    Started(bool, u32),
    Stopped,
    TriggerSource(usize),
    TriggerLevel(Double),
    TriggerDelay(i64),
    TriggerEdge(TriggerEdge),
    ChannelEnabled(usize, bool),
    ChannelCoupling(usize, Coupling),
    ChannelRange(usize, Double),
    ChannelOffset(usize, Single),
    BandwidthLimit(usize, Option<u32>),
    AwgEnabled(bool),
    AwgFrequency(Double),
    AwgDuty(Single),
    AwgRange(Single),
    AwgOffset(Single),
    AwgShape(Seq<char>),
    DigitalHysteresis(Seq<char>, Single),
    DigitalThreshold(Seq<char>, Single),
}

/// A parsed command, with its texts as characters.
pub struct Request {
    pub subject: Option<Seq<char>>,
    pub command: Seq<char>,
    pub is_query: bool,
    pub args: Seq<Seq<char>>,
}

/// How a command ends.
pub enum Answer {
    NoReply,
    Reply(Seq<char>),
    /// A number, to be written with so many decimals.
    Number(FloatValue, nat),
    /// Work for the device.
    Device(DeviceAction),
    Exit,
    Refused(Refusal),
}

/// What came out of a command, with its texts as characters.
pub open spec fn answer_of(result: Result<CommandResult, ScpiError>) -> Answer {
    match result {
        Ok(CommandResult::NoReply) => Answer::NoReply,
        Ok(CommandResult::Reply(text)) => Answer::Reply(text@),
        Ok(CommandResult::Number(value, decimals)) => Answer::Number(value, decimals as nat),
        Ok(CommandResult::Device(action)) => Answer::Device(action),
        Ok(CommandResult::Exit) => Answer::Exit,
        Err(error) => Answer::Refused(error@),
    }
}

/// The name under which a digital channel is kept.
pub open spec fn normalized(key: Seq<char>) -> Seq<char> {
    uppercase(trimmed(key))
}

impl Scope {
    /// The settings of a digital channel; all zero before the first of them is set.
    pub open spec fn digital_channel(self, key: Seq<char>) -> DigitalChannelState {
        if self.digital.dom().contains(normalized(key)) {
            self.digital[normalized(key)]
        } else {
            DigitalChannelState::initial()
        }
    }

    /// What brings the device in line with the settings of a channel.
    pub open spec fn sync_action(self, index: int) -> DeviceAction {
        let channel = self.channels[index];
        if channel.enabled {
            DeviceAction::EnableChannel {
                channel: self.channel_ids[index],
                range: channel.range,
                coupling: channel.coupling,
            }
        } else {
            DeviceAction::DisableChannel { channel: self.channel_ids[index] }
        }
    }
}

// ---------------------------------------------------------------------------
// Parsing

/// The command that a line holds, if it holds any.
///
/// The first word is the head and the others are the arguments. Colons at its front aside, the
/// head is the subject up to its first colon and the command after it, or all command where it
/// has no colon. A question mark at the end of the command makes it a query.
pub open spec fn parsed(line: Seq<char>) -> Option<Request> {
    let all = words(line);
    if all.len() == 0 {
        None
    } else {
        let head = all[0].skip(run_length(all[0], CharClass::Colon) as int);
        let colon = run_length(head, CharClass::NotColon) as int;
        let raw_subject = if colon < head.len() {
            head.take(colon)
        } else {
            Seq::empty()
        };
        let raw_command = if colon < head.len() {
            head.skip(colon + 1)
        } else {
            head
        };
        let is_query = raw_command.len() > 0 && raw_command.last() == '?';
        Some(
            Request {
                subject: if raw_subject.len() == 0 {
                    None
                } else {
                    Some(raw_subject)
                },
                command: uppercase(
                    if is_query {
                        raw_command.drop_last()
                    } else {
                        raw_command
                    },
                ),
                is_query,
                args: all.skip(1),
            },
        )
    }
}

impl Request {
    /// The same command without a subject, its name put behind the prefix.
    pub open spec fn prefixed(self, prefix: Seq<char>) -> Request {
        Request {
            subject: None,
            command: if self.command.len() == 0 {
                uppercase(prefix)
            } else {
                uppercase(prefix) + seq![':'] + self.command
            },
            is_query: self.is_query,
            args: self.args,
        }
    }
}

// ---------------------------------------------------------------------------
// Channel names

/// Whether a subject is read as the name of an analog channel: anything that starts with `CH`,
/// a single letter, a letter and digits, or two or more digits.
pub open spec fn names_channel(subject: Seq<char>) -> bool {
    let name = uppercase(trimmed(subject));
    &&& name.len() > 0
    &&& {
        ||| has_prefix(name, "CH"@)
        ||| if name.len() == 1 {
            'A' <= name[0] <= 'Z'
        } else {
            ('A' <= name[0] <= 'Z' && all_digits(name.skip(1))) || all_digits(name)
        }
    }
}

/// The name of a digital channel: it starts with a digit and holds a `D`.
pub open spec fn digital_key(subject: Seq<char>) -> Option<Seq<char>> {
    let name = uppercase(trimmed(subject));
    if name.len() > 0 && is_digit(name[0]) && name.contains('D') {
        Some(name)
    } else {
        None
    }
}

/// The index of the channel with a number; channels are numbered from one.
pub open spec fn index_of_number(number: nat, limit: nat) -> Result<nat, Refusal> {
    if number == 0 || number > limit {
        Err(Refusal::ChannelOutOfRange(number))
    } else {
        Ok((number - 1) as nat)
    }
}

/// The index of the channel whose number a text gives.
pub open spec fn index_of_digits(digits: Seq<char>, limit: nat) -> Result<nat, Refusal> {
    match read_unsigned(digits, usize::MAX as nat) {
        Ok(number) => index_of_number(number, limit),
        Err(error) => Err(Refusal::Integer(error)),
    }
}

/// The index of the channel that a text refers to: `CHAN`, `CH` or `C` and a number, a letter
/// for its place in the alphabet, another letter and a number, or a number.
pub open spec fn channel_index(input: Seq<char>, limit: nat) -> Result<nat, Refusal> {
    let name = uppercase(trimmed(input));
    if has_prefix(name, "CHAN"@) {
        index_of_digits(name.skip(4), limit)
    } else if has_prefix(name, "CH"@) {
        index_of_digits(name.skip(2), limit)
    } else if has_prefix(name, "C"@) {
        index_of_digits(name.skip(1), limit)
    } else if name.len() == 1 && 'A' <= name[0] <= 'Z' && (name[0] as int) - ('A' as int) < limit {
        Ok(((name[0] as int) - ('A' as int)) as nat)
    } else if name.len() >= 2 && 'A' <= name[0] <= 'Z' && all_digits(name.skip(1)) && read_unsigned(
        name.skip(1),
        usize::MAX as nat,
    ) is Ok {
        index_of_digits(name.skip(1), limit)
    } else if read_unsigned(name, usize::MAX as nat) is Ok {
        index_of_digits(name, limit)
    } else {
        Err(Refusal::UnknownChannel(input))
    }
}

// ---------------------------------------------------------------------------
// Arguments

/// The unsigned integer that is the first argument.
pub open spec fn unsigned_arg(request: Request, missing: Seq<char>, max: nat) -> Result<
    nat,
    Refusal,
> {
    if request.args.len() == 0 {
        Err(Refusal::MissingArgument(missing))
    } else {
        match read_unsigned(request.args[0], max) {
            Ok(n) => Ok(n),
            Err(error) => Err(Refusal::Integer(error)),
        }
    }
}

/// The signed integer that is the first argument.
pub open spec fn signed_arg(request: Request, missing: Seq<char>) -> Result<int, Refusal> {
    if request.args.len() == 0 {
        Err(Refusal::MissingArgument(missing))
    } else {
        match read_signed(request.args[0]) {
            Ok(n) => Ok(n),
            Err(error) => Err(Refusal::Integer(error)),
        }
    }
}

/// The floating-point number that is the first argument; `value` is what was read of it.
pub open spec fn float_arg(
    request: Request,
    value: Option<FloatArg>,
    missing: Seq<char>,
) -> Result<FloatArg, Refusal> {
    if request.args.len() == 0 {
        Err(Refusal::MissingArgument(missing))
    } else if value is Some {
        Ok(value->0)
    } else if request.args[0].len() == 0 {
        Err(Refusal::Float(FloatError::Empty))
    } else {
        Err(Refusal::Float(FloatError::Invalid))
    }
}

/// The first argument in upper case.
pub open spec fn word_arg(request: Request, missing: Seq<char>) -> Result<Seq<char>, Refusal> {
    if request.args.len() == 0 {
        Err(Refusal::MissingArgument(missing))
    } else {
        Ok(uppercase(request.args[0]))
    }
}

// ---------------------------------------------------------------------------
// Answers

pub open spec fn flag(on: bool) -> Seq<char> {
    if on {
        "1"@
    } else {
        "0"@
    }
}

/// The scope answers and stays as it is.
pub open spec fn unchanged(scope: Scope, answer: Answer) -> (Answer, Scope) {
    (answer, scope)
}

/// The scope takes over a setting and says nothing.
pub open spec fn set<S: ScpiState>(scope: Scope, setting: Setting) -> (Answer, Scope) {
    (Answer::NoReply, S::applied(scope, setting))
}

/// The scope takes over a setting, or refuses it and stays as it is.
pub open spec fn try_set<S: ScpiState>(scope: Scope, setting: Setting) -> (Answer, Scope) {
    match S::refusal(scope, setting) {
        Some(refusal) => (Answer::Refused(refusal), scope),
        None => set::<S>(scope, setting),
    }
}

/// The scope takes over a setting of a channel, and the device is to follow.
pub open spec fn set_and_sync<S: ScpiState>(scope: Scope, index: nat, setting: Setting) -> (
    Answer,
    Scope,
) {
    let after = S::applied(scope, setting);
    (Answer::Device(after.sync_action(index as int)), after)
}

/// The femtoseconds between two samples at a rate; zero for the rate zero.
pub open spec fn interval(rate: u32) -> int {
    if rate == 0 {
        0
    } else {
        FS_PER_SECOND as int / rate as int
    }
}

/// The intervals of the sample rates, separated by commas.
pub open spec fn rates_text(rates: Seq<u32>) -> Seq<char> {
    joined(Seq::new(rates.len(), |i: int| signed_decimal(interval(rates[i]))), ","@)
}

/// The sample depths, separated by commas.
pub open spec fn depths_text(depths: Seq<usize>) -> Seq<char> {
    joined(Seq::new(depths.len(), |i: int| decimal(depths[i] as nat)), ","@)
}

/// The trigger edge that a direction names.
pub open spec fn edge_named(direction: Seq<char>) -> Option<TriggerEdge> {
    if direction == "RISING"@ {
        Some(TriggerEdge::Rising)
    } else if direction == "FALLING"@ {
        Some(TriggerEdge::Falling)
    } else if direction == "EITHER"@ || direction == "ANY"@ {
        Some(TriggerEdge::Either)
    } else {
        None
    }
}

/// The coupling that a mode names; 50 ohm inputs do not exist, so `DC50` is `DC`.
pub open spec fn coupling_named(mode: Seq<char>) -> Option<Coupling> {
    if mode == "DC"@ || mode == "DC1M"@ || mode == "DC50"@ {
        Some(Coupling::DC)
    } else if mode == "AC"@ || mode == "AC1M"@ {
        Some(Coupling::AC)
    } else {
        None
    }
}

/// The waveforms of the function generator.
pub open spec fn is_waveform(name: Seq<char>) -> bool {
    ||| name == "SINE"@
    ||| name == "SQUARE"@
    ||| name == "TRIANGLE"@
    ||| name == "RAMP_UP"@
    ||| name == "RAMP_DOWN"@
    ||| name == "DC"@
    ||| name == "WHITENOISE"@
    ||| name == "PRBS"@
    ||| name == "ARBITRARY"@
}

/// The commands that set the trigger.
pub open spec fn trigger_response<S: ScpiState>(
    scope: Scope,
    request: Request,
    value: Option<FloatArg>,
) -> (Answer, Scope) {
    if request.command == "TRIG:SOU"@ {
        if request.is_query {
            unchanged(
                scope,
                Answer::Reply("C"@ + decimal((scope.acquisition.trigger_source + 1) as nat)),
            )
        } else if request.args.len() == 0 {
            unchanged(
                scope,
                Answer::Refused(Refusal::MissingArgument("TRIG:SOU requires a channel"@)),
            )
        } else {
            match channel_index(request.args[0], scope.channels.len()) {
                Ok(index) => set::<S>(scope, Setting::TriggerSource(index as usize)),
                Err(refusal) => unchanged(scope, Answer::Refused(refusal)),
            }
        }
    } else if request.command == "TRIG:LEV"@ {
        if request.is_query {
            unchanged(
                scope,
                Answer::Number(FloatValue::Double(scope.acquisition.trigger_level), 6),
            )
        } else {
            match float_arg(request, value, "TRIG:LEV requires a value"@) {
                Ok(level) => set::<S>(scope, Setting::TriggerLevel(level.double)),
                Err(refusal) => unchanged(scope, Answer::Refused(refusal)),
            }
        }
    } else if request.command == "TRIG:DELAY"@ {
        if request.is_query {
            unchanged(
                scope,
                Answer::Reply(signed_decimal(scope.acquisition.trigger_delay_fs as int)),
            )
        } else {
            match signed_arg(request, "TRIG:DELAY requires a value"@) {
                Ok(delay) => set::<S>(scope, Setting::TriggerDelay(delay as i64)),
                Err(refusal) => unchanged(scope, Answer::Refused(refusal)),
            }
        }
    } else if request.command == "TRIG:EDGE:DIR"@ {
        if request.is_query {
            unchanged(scope, Answer::Reply(scope.acquisition.trigger_edge.name()))
        } else {
            match word_arg(request, "TRIG:EDGE:DIR requires a value"@) {
                Ok(direction) => match edge_named(direction) {
                    Some(edge) => set::<S>(scope, Setting::TriggerEdge(edge)),
                    None => unchanged(
                        scope,
                        Answer::Refused(Refusal::InvalidTriggerDirection(direction)),
                    ),
                },
                Err(refusal) => unchanged(scope, Answer::Refused(refusal)),
            }
        }
    } else {
        unchanged(scope, Answer::Refused(Refusal::UnsupportedTriggerCommand(request.command)))
    }
}

/// The commands to one analog channel.
pub open spec fn channel_response<S: ScpiState>(
    scope: Scope,
    subject: Seq<char>,
    request: Request,
    value: Option<FloatArg>,
) -> (Answer, Scope) {
    match channel_index(subject, scope.channels.len()) {
        Err(refusal) => unchanged(scope, Answer::Refused(refusal)),
        Ok(index) => numbered_channel_response::<S>(scope, index, subject, request, value),
    }
}

/// The commands to the analog channel with an index.
pub open spec fn numbered_channel_response<S: ScpiState>(
    scope: Scope,
    index: nat,
    subject: Seq<char>,
    request: Request,
    value: Option<FloatArg>,
) -> (Answer, Scope) {
    let channel = scope.channels[index as int];
    let place = index as usize;
    if request.command == "ON"@ {
        set_and_sync::<S>(scope, index, Setting::ChannelEnabled(place, true))
    } else if request.command == "OFF"@ {
        set_and_sync::<S>(scope, index, Setting::ChannelEnabled(place, false))
    } else if request.command == "STATE"@ && request.is_query {
        unchanged(scope, Answer::Reply(flag(channel.enabled)))
    } else if request.command == "COUP"@ {
        if request.is_query {
            unchanged(scope, Answer::Reply(channel.coupling.name()))
        } else {
            match word_arg(request, "channel coupling requires an argument"@) {
                Ok(mode) => match coupling_named(mode) {
                    Some(coupling) => set_and_sync::<S>(
                        scope,
                        index,
                        Setting::ChannelCoupling(place, coupling),
                    ),
                    None => unchanged(scope, Answer::Refused(Refusal::UnsupportedCoupling(mode))),
                },
                Err(refusal) => unchanged(scope, Answer::Refused(refusal)),
            }
        }
    } else if request.command == "RANGE"@ {
        if request.is_query {
            unchanged(scope, Answer::Reply(channel.range.volts()))
        } else {
            match float_arg(request, value, "channel range requires a value"@) {
                Ok(volts) => set_and_sync::<S>(
                    scope,
                    index,
                    Setting::ChannelRange(place, volts.double),
                ),
                Err(refusal) => unchanged(scope, Answer::Refused(refusal)),
            }
        }
    } else if request.command == "OFFS"@ {
        if request.is_query {
            unchanged(scope, Answer::Number(FloatValue::Single(channel.offset), 6))
        } else {
            match float_arg(request, value, "channel offset requires a value"@) {
                Ok(offset) => set::<S>(scope, Setting::ChannelOffset(place, offset.single)),
                Err(refusal) => unchanged(scope, Answer::Refused(refusal)),
            }
        }
    } else if request.command == "BWLIM"@ {
        if request.is_query {
            unchanged(
                scope,
                Answer::Reply(
                    decimal(
                        match channel.bandwidth_limit_mhz {
                            Some(mhz) => mhz as nat,
                            None => 0,
                        },
                    ),
                ),
            )
        } else {
            match unsigned_arg(
                request,
                "channel bandwidth limit requires a value"@,
                u32::MAX as nat,
            ) {
                Ok(mhz) => set::<S>(
                    scope,
                    Setting::BandwidthLimit(
                        place,
                        if mhz == 0 {
                            None
                        } else {
                            Some(mhz as u32)
                        },
                    ),
                ),
                Err(refusal) => unchanged(scope, Answer::Refused(refusal)),
            }
        }
    } else {
        unchanged(
            scope,
            Answer::Refused(Refusal::UnsupportedChannelCommand(request.command, subject)),
        )
    }
}

/// The commands to the function generator.
pub open spec fn awg_response<S: ScpiState>(
    scope: Scope,
    request: Request,
    value: Option<FloatArg>,
) -> (Answer, Scope) {
    if request.command == "START"@ {
        if request.is_query {
            unchanged(scope, Answer::Reply(flag(scope.awg.enabled)))
        } else {
            set::<S>(scope, Setting::AwgEnabled(true))
        }
    } else if request.command == "STOP"@ {
        if request.is_query {
            unchanged(scope, Answer::Reply(flag(scope.awg.enabled)))
        } else {
            set::<S>(scope, Setting::AwgEnabled(false))
        }
    } else if request.command == "STATE"@ && request.is_query {
        unchanged(scope, Answer::Reply(flag(scope.awg.enabled)))
    } else if request.command == "FREQ"@ {
        if request.is_query {
            unchanged(scope, Answer::Number(FloatValue::Double(scope.awg.frequency_hz), 6))
        } else {
            match float_arg(request, value, "AWG:FREQ requires a value"@) {
                Ok(hz) => set::<S>(scope, Setting::AwgFrequency(hz.double)),
                Err(refusal) => unchanged(scope, Answer::Refused(refusal)),
            }
        }
    } else if request.command == "DUTY"@ {
        if request.is_query {
            unchanged(scope, Answer::Number(FloatValue::Single(scope.awg.duty_cycle), 3))
        } else {
            match float_arg(request, value, "AWG:DUTY requires a value"@) {
                Ok(duty) => set::<S>(scope, Setting::AwgDuty(duty.single)),
                Err(refusal) => unchanged(scope, Answer::Refused(refusal)),
            }
        }
    } else if request.command == "RANGE"@ {
        if request.is_query {
            unchanged(scope, Answer::Number(FloatValue::Single(scope.awg.range_vpp), 3))
        } else {
            match float_arg(request, value, "AWG:RANGE requires a value"@) {
                Ok(range) => set::<S>(scope, Setting::AwgRange(range.single)),
                Err(refusal) => unchanged(scope, Answer::Refused(refusal)),
            }
        }
    } else if request.command == "OFF"@ || request.command == "OFFS"@ {
        if request.is_query {
            unchanged(scope, Answer::Number(FloatValue::Single(scope.awg.offset_v), 6))
        } else {
            match float_arg(request, value, "AWG:OFFS requires a value"@) {
                Ok(offset) => set::<S>(scope, Setting::AwgOffset(offset.single)),
                Err(refusal) => unchanged(scope, Answer::Refused(refusal)),
            }
        }
    } else if request.command == "SHAPE"@ {
        if request.is_query {
            unchanged(scope, Answer::Reply(scope.awg.shape))
        } else {
            match word_arg(request, "AWG:SHAPE requires a value"@) {
                Ok(shape) => if is_waveform(shape) {
                    set::<S>(scope, Setting::AwgShape(shape))
                } else {
                    unchanged(scope, Answer::Refused(Refusal::UnsupportedWaveform(shape)))
                },
                Err(refusal) => unchanged(scope, Answer::Refused(refusal)),
            }
        }
    } else {
        unchanged(scope, Answer::Refused(Refusal::UnsupportedAwgCommand(request.command)))
    }
}

/// The commands to one digital channel. No pod is ever present.
pub open spec fn digital_response<S: ScpiState>(
    scope: Scope,
    key: Seq<char>,
    request: Request,
    value: Option<FloatArg>,
) -> (Answer, Scope) {
    if request.command == "PRESENT"@ {
        if request.is_query {
            unchanged(scope, Answer::Reply("0"@))
        } else {
            unchanged(scope, Answer::Refused(Refusal::PresentIsAQuery))
        }
    } else if request.command == "HYS"@ {
        if request.is_query {
            unchanged(
                scope,
                Answer::Number(FloatValue::Single(scope.digital_channel(key).hysteresis_mv), 3),
            )
        } else {
            match float_arg(request, value, "HYS requires a value"@) {
                Ok(mv) => set::<S>(scope, Setting::DigitalHysteresis(key, mv.single)),
                Err(refusal) => unchanged(scope, Answer::Refused(refusal)),
            }
        }
    } else if request.command == "THRESH"@ {
        if request.is_query {
            unchanged(
                scope,
                Answer::Number(FloatValue::Single(scope.digital_channel(key).threshold_mv), 3),
            )
        } else {
            match float_arg(request, value, "THRESH requires a value"@) {
                Ok(mv) => set::<S>(scope, Setting::DigitalThreshold(key, mv.single)),
                Err(refusal) => unchanged(scope, Answer::Refused(refusal)),
            }
        }
    } else {
        unchanged(scope, Answer::Refused(Refusal::UnsupportedDigitalCommand(request.command)))
    }
}

/// The trigger commands that may be given without their `TRIG:`.
pub open spec fn is_trigger_alias(command: Seq<char>) -> bool {
    command == "DELAY"@ || command == "LEV"@ || command == "SOU"@ || command == "EDGE:DIR"@
}

/// The commands without a subject.
pub open spec fn plain_response<S: ScpiState>(
    scope: Scope,
    request: Request,
    value: Option<FloatArg>,
) -> (Answer, Scope) {
    let command = request.command;
    let query = request.is_query;
    if is_trigger_alias(command) {
        trigger_response::<S>(scope, request.prefixed("TRIG"@), value)
    } else if command == "*IDN"@ && query {
        unchanged(scope, Answer::Reply(scope.identity))
    } else if command == "CHANS"@ && query {
        unchanged(scope, Answer::Reply(decimal(scope.channels.len())))
    } else if command == "SEQNUM"@ && query {
        unchanged(scope, Answer::Reply(decimal(scope.last_sequence as nat)))
    } else if command == "RATES"@ && query {
        unchanged(scope, Answer::Reply(rates_text(scope.rates)))
    } else if command == "RATE"@ {
        if query {
            unchanged(scope, Answer::Reply(decimal(scope.acquisition.sample_rate as nat)))
        } else {
            match unsigned_arg(request, "RATE requires an argument"@, u32::MAX as nat) {
                Ok(rate) => try_set::<S>(scope, Setting::SampleRate(rate as u32)),
                Err(refusal) => unchanged(scope, Answer::Refused(refusal)),
            }
        }
    } else if command == "DEPTHS"@ && query {
        unchanged(scope, Answer::Reply(depths_text(scope.depths)))
    } else if command == "DEPTH"@ {
        if query {
            unchanged(scope, Answer::Reply(decimal(scope.acquisition.sample_depth as nat)))
        } else {
            match unsigned_arg(request, "DEPTH requires an argument"@, usize::MAX as nat) {
                Ok(depth) => try_set::<S>(scope, Setting::SampleDepth(depth as usize)),
                Err(refusal) => unchanged(scope, Answer::Refused(refusal)),
            }
        }
    } else if command == "BITS"@ {
        if query {
            unchanged(scope, Answer::Reply(decimal(scope.adc_bits as nat)))
        } else {
            match unsigned_arg(request, "BITS requires a value"@, u32::MAX as nat) {
                Ok(bits) => try_set::<S>(scope, Setting::AdcBits(bits as u32)),
                Err(refusal) => unchanged(scope, Answer::Refused(refusal)),
            }
        }
    } else if command == "START"@ {
        unchanged(
            scope,
            Answer::Device(
                DeviceAction::Start { rate: scope.acquisition.sample_rate, one_shot: false },
            ),
        )
    } else if command == "STOP"@ {
        (Answer::Device(DeviceAction::Stop), S::applied(scope, Setting::Stopped))
    } else if command == "SINGLE"@ {
        unchanged(
            scope,
            Answer::Device(
                DeviceAction::Start { rate: scope.acquisition.sample_rate, one_shot: true },
            ),
        )
    } else if command == "FORCE"@ {
        unchanged(
            scope,
            Answer::Device(
                DeviceAction::Start { rate: scope.acquisition.sample_rate, one_shot: true },
            ),
        )
    } else if command == "ARMED"@ && query {
        unchanged(scope, Answer::Reply(flag(scope.acquisition.armed)))
    } else if has_prefix(command, "TRIG"@) {
        trigger_response::<S>(scope, request, value)
    } else if command == "EXIT"@ {
        unchanged(scope, Answer::Exit)
    } else {
        unchanged(scope, Answer::Refused(Refusal::UnsupportedCommand(command)))
    }
}

/// What the scope answers to a command, and the settings that it then has.
pub open spec fn response<S: ScpiState>(
    scope: Scope,
    request: Request,
    value: Option<FloatArg>,
) -> (Answer, Scope) {
    match request.subject {
        None => plain_response::<S>(scope, request, value),
        Some(subject) => if names_channel(subject) {
            channel_response::<S>(scope, subject, request, value)
        } else if same_ignoring_case(subject, "AWG"@) {
            awg_response::<S>(scope, request, value)
        } else if digital_key(subject) is Some {
            digital_response::<S>(scope, digital_key(subject)->0, request, value)
        } else if same_ignoring_case(subject, "TRIG"@) {
            trigger_response::<S>(scope, request.prefixed("TRIG"@), value)
        } else {
            plain_response::<S>(scope, request.prefixed(subject), value)
        },
    }
}

/// What becomes of a start that was asked of the device.
pub open spec fn start_response<S: ScpiState>(
    scope: Scope,
    rate: u32,
    one_shot: bool,
    actual: Option<u32>,
) -> (Answer, Scope) {
    match actual {
        Some(actual) => set::<S>(scope, Setting::Started(one_shot, actual)),
        None => unchanged(scope, Answer::Refused(Refusal::StartFailed(rate))),
    }
}

} // verus!
