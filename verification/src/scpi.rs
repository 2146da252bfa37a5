//! The command set: how a line is parsed and what the scope does with it.

use vstd::prelude::*;
use crate::error::{FloatError, Refusal, ScpiError};
use crate::floating::{Double, Single};
use crate::hardware::{coupling_name, Coupling, InputRange};
use crate::model::{
    answer_of, awg_response, channel_index, channel_response, depths_text, digital_key,
    digital_response, flag, float_arg, index_of_digits, index_of_number, interval, is_trigger_alias,
    is_waveform, names_channel, parsed, plain_response, rates_text, response, signed_arg,
    start_response, trigger_response, unsigned_arg, word_arg, Request, Scope, Setting,
};
use crate::number::{
    decimal, lemma_unsigned_bound, parse_signed, parse_unsigned, signed_decimal, to_decimal,
    to_signed_decimal,
};
use crate::state::{AwgState, ChannelState, TriggerEdge, FS_PER_SECOND};
use crate::text::{
    all_digits, chars_of, is_digit, join, lemma_run, run_end, same, same_in_any_case, split_words,
    starts_with, string_texts, texts, to_uppercase, trim, trimmed, uppercase, CharClass,
};

verus! {

/// The first argument of a command, read as a floating-point number in both widths.
#[derive(Clone, Copy, Debug, PartialEq, Eq, Structural)]
pub struct FloatArg {
    pub double: Double,
    pub single: Single,
}

/// A floating-point number of one of the two widths.
#[derive(Clone, Copy, Debug, PartialEq, Eq, Structural)]
pub enum FloatValue {
    Double(Double),
    Single(Single),
}

/// Work that is to be done on the device.
#[derive(Clone, Copy, Debug, PartialEq, Eq, Structural)]
pub enum DeviceAction {
    /// Start to stream; `finish_start` takes what comes of it.
    Start { rate: u32, one_shot: bool },
    Stop,
    EnableChannel { channel: u64, range: InputRange, coupling: Coupling },
    DisableChannel { channel: u64 },
}

/// What a command that was not refused leads to.
#[derive(Debug, PartialEq, Eq)]
pub enum CommandResult {
    NoReply,
    Reply(String),
    /// The reply is this number, written with so many decimals.
    Number(FloatValue, usize),
    /// There is no reply, and work for the device.
    Device(DeviceAction),
    Exit,
}

impl From<Option<String>> for CommandResult {
    fn from(value: Option<String>) -> CommandResult {
        match value {
            Some(v) => CommandResult::Reply(v),
            None => CommandResult::NoReply,
        }
    }
}

impl vstd::std_specs::convert::FromSpecImpl<Option<String>> for CommandResult {
    open spec fn obeys_from_spec() -> bool {
        true
    }

    open spec fn from_spec(value: Option<String>) -> CommandResult {
        match value {
            Some(v) => CommandResult::Reply(v),
            None => CommandResult::NoReply,
        }
    }
}

/// The scope behind the commands.
///
/// `scope` is what the queries see, `applied` how a setting changes it and `refusal` when a
/// setting is not taken over. Settings that concern the device say what it is to do.
pub trait ScpiState: Sized + Send + Sync {
    spec fn scope(&self) -> Scope;

    spec fn well_formed(&self) -> bool;

    spec fn applied(scope: Scope, setting: Setting) -> Scope;

    spec fn refusal(scope: Scope, setting: Setting) -> Option<Refusal>;

    fn idn(&self) -> (r: String)
        requires
            self.well_formed(),
        ensures
            r@ == self.scope().identity,
    ;

    fn channel_count(&self) -> (r: usize)
        requires
            self.well_formed(),
        ensures
            r == self.scope().channels.len(),
    ;

    fn last_sequence(&self) -> (r: u32)
        requires
            self.well_formed(),
        ensures
            r == self.scope().last_sequence,
    ;

    fn allowed_sample_rates(&self) -> (r: &[u32])
        requires
            self.well_formed(),
        ensures
            r@ == self.scope().rates,
    ;

    fn sample_rate(&self) -> (r: u32)
        requires
            self.well_formed(),
        ensures
            r == self.scope().acquisition.sample_rate,
    ;

    fn set_sample_rate(&mut self, rate: u32) -> (r: Result<(), ScpiError>)
        requires
            old(self).well_formed(),
        ensures
            final(self).well_formed(),
            taken_over(
                r,
                Self::refusal(old(self).scope(), Setting::SampleRate(rate)),
                old(self).scope(),
                Self::applied(old(self).scope(), Setting::SampleRate(rate)),
                final(self).scope(),
            ),
    ;

    fn allowed_sample_depths(&self) -> (r: &[usize])
        requires
            self.well_formed(),
        ensures
            r@ == self.scope().depths,
    ;

    fn sample_depth(&self) -> (r: usize)
        requires
            self.well_formed(),
        ensures
            r == self.scope().acquisition.sample_depth,
    ;

    fn set_sample_depth(&mut self, depth: usize) -> (r: Result<(), ScpiError>)
        requires
            old(self).well_formed(),
        ensures
            final(self).well_formed(),
            taken_over(
                r,
                Self::refusal(old(self).scope(), Setting::SampleDepth(depth)),
                old(self).scope(),
                Self::applied(old(self).scope(), Setting::SampleDepth(depth)),
                final(self).scope(),
            ),
    ;

    fn adc_bits(&self) -> (r: u32)
        requires
            self.well_formed(),
        ensures
            r == self.scope().adc_bits,
    ;

    fn set_adc_bits(&mut self, bits: u32) -> (r: Result<(), ScpiError>)
        requires
            old(self).well_formed(),
        ensures
            final(self).well_formed(),
            taken_over(
                r,
                Self::refusal(old(self).scope(), Setting::AdcBits(bits)),
                old(self).scope(),
                Self::applied(old(self).scope(), Setting::AdcBits(bits)),
                final(self).scope(),
            ),
    ;

    /// What the device is to do so that streaming starts.
    fn start_streaming(&self, one_shot: bool) -> (r: DeviceAction)
        requires
            self.well_formed(),
        ensures
            r == (DeviceAction::Start { rate: self.scope().acquisition.sample_rate, one_shot }),
    ;

    /// Notes that the device streams, at the actual rate.
    fn streaming_started(&mut self, one_shot: bool, actual: u32)
        requires
            old(self).well_formed(),
        ensures
            final(self).well_formed(),
            final(self).scope() == Self::applied(
                old(self).scope(),
                Setting::Started(one_shot, actual),
            ),
    ;

    fn stop_streaming(&mut self) -> (r: DeviceAction)
        requires
            old(self).well_formed(),
        ensures
            final(self).well_formed(),
            final(self).scope() == Self::applied(old(self).scope(), Setting::Stopped),
            r == DeviceAction::Stop,
    ;

    /// What the device is to do for a single acquisition that waits for no trigger.
    fn force_trigger(&self) -> (r: DeviceAction)
        requires
            self.well_formed(),
        ensures
            r == (DeviceAction::Start {
                rate: self.scope().acquisition.sample_rate,
                one_shot: true,
            }),
    ;

    fn is_armed(&self) -> (r: bool)
        requires
            self.well_formed(),
        ensures
            r == self.scope().acquisition.armed,
    ;

    fn trigger_source(&self) -> (r: usize)
        requires
            self.well_formed(),
        ensures
            r == self.scope().acquisition.trigger_source,
    ;

    fn set_trigger_source(&mut self, index: usize)
        requires
            old(self).well_formed(),
        ensures
            final(self).well_formed(),
            final(self).scope() == Self::applied(old(self).scope(), Setting::TriggerSource(index)),
    ;

    fn trigger_level(&self) -> (r: Double)
        requires
            self.well_formed(),
        ensures
            r == self.scope().acquisition.trigger_level,
    ;

    fn set_trigger_level(&mut self, level: Double)
        requires
            old(self).well_formed(),
        ensures
            final(self).well_formed(),
            final(self).scope() == Self::applied(old(self).scope(), Setting::TriggerLevel(level)),
    ;

    fn trigger_delay(&self) -> (r: i64)
        requires
            self.well_formed(),
        ensures
            r == self.scope().acquisition.trigger_delay_fs,
    ;

    fn set_trigger_delay(&mut self, delay: i64)
        requires
            old(self).well_formed(),
        ensures
            final(self).well_formed(),
            final(self).scope() == Self::applied(old(self).scope(), Setting::TriggerDelay(delay)),
    ;

    fn trigger_edge(&self) -> (r: TriggerEdge)
        requires
            self.well_formed(),
        ensures
            r == self.scope().acquisition.trigger_edge,
    ;

    fn set_trigger_edge(&mut self, edge: TriggerEdge)
        requires
            old(self).well_formed(),
        ensures
            final(self).well_formed(),
            final(self).scope() == Self::applied(old(self).scope(), Setting::TriggerEdge(edge)),
    ;

    fn channel_state(&self, index: usize) -> (r: ChannelState)
        requires
            self.well_formed(),
            index < self.scope().channels.len(),
        ensures
            r == self.scope().channels[index as int],
    ;

    fn set_channel_enabled(&mut self, index: usize, enabled: bool) -> (r: DeviceAction)
        requires
            old(self).well_formed(),
            index < old(self).scope().channels.len(),
        ensures
            final(self).well_formed(),
            final(self).scope() == Self::applied(
                old(self).scope(),
                Setting::ChannelEnabled(index, enabled),
            ),
            r == final(self).scope().sync_action(index as int),
    ;

    fn set_channel_coupling(&mut self, index: usize, coupling: Coupling) -> (r: DeviceAction)
        requires
            old(self).well_formed(),
            index < old(self).scope().channels.len(),
        ensures
            final(self).well_formed(),
            final(self).scope() == Self::applied(
                old(self).scope(),
                Setting::ChannelCoupling(index, coupling),
            ),
            r == final(self).scope().sync_action(index as int),
    ;

    fn set_channel_range(&mut self, index: usize, volts: Double) -> (r: DeviceAction)
        requires
            old(self).well_formed(),
            index < old(self).scope().channels.len(),
        ensures
            final(self).well_formed(),
            final(self).scope() == Self::applied(
                old(self).scope(),
                Setting::ChannelRange(index, volts),
            ),
            r == final(self).scope().sync_action(index as int),
    ;

    fn set_channel_offset(&mut self, index: usize, offset: Single)
        requires
            old(self).well_formed(),
        ensures
            final(self).well_formed(),
            final(self).scope() == Self::applied(
                old(self).scope(),
                Setting::ChannelOffset(index, offset),
            ),
    ;

    fn channel_bandwidth_limit(&self, index: usize) -> (r: Option<u32>)
        requires
            self.well_formed(),
        ensures
            r == (if index < self.scope().channels.len() {
                self.scope().channels[index as int].bandwidth_limit_mhz
            } else {
                None
            }),
    ;

    fn set_channel_bandwidth_limit(&mut self, index: usize, mhz: Option<u32>)
        requires
            old(self).well_formed(),
        ensures
            final(self).well_formed(),
            final(self).scope() == Self::applied(
                old(self).scope(),
                Setting::BandwidthLimit(index, mhz),
            ),
    ;

    fn awg_state(&self) -> (r: AwgState)
        requires
            self.well_formed(),
        ensures
            r@ == self.scope().awg,
    ;

    fn set_awg_enabled(&mut self, enabled: bool)
        requires
            old(self).well_formed(),
        ensures
            final(self).well_formed(),
            final(self).scope() == Self::applied(old(self).scope(), Setting::AwgEnabled(enabled)),
    ;

    fn set_awg_frequency(&mut self, hz: Double)
        requires
            old(self).well_formed(),
        ensures
            final(self).well_formed(),
            final(self).scope() == Self::applied(old(self).scope(), Setting::AwgFrequency(hz)),
    ;

    fn set_awg_duty(&mut self, duty: Single)
        requires
            old(self).well_formed(),
        ensures
            final(self).well_formed(),
            final(self).scope() == Self::applied(old(self).scope(), Setting::AwgDuty(duty)),
    ;

    fn set_awg_range(&mut self, range_vpp: Single)
        requires
            old(self).well_formed(),
        ensures
            final(self).well_formed(),
            final(self).scope() == Self::applied(old(self).scope(), Setting::AwgRange(range_vpp)),
    ;

    fn set_awg_offset(&mut self, offset_v: Single)
        requires
            old(self).well_formed(),
        ensures
            final(self).well_formed(),
            final(self).scope() == Self::applied(old(self).scope(), Setting::AwgOffset(offset_v)),
    ;

    fn set_awg_shape(&mut self, shape: &str)
        requires
            old(self).well_formed(),
        ensures
            final(self).well_formed(),
            final(self).scope() == Self::applied(old(self).scope(), Setting::AwgShape(shape@)),
    ;

    fn digital_hysteresis(&self, identifier: &str) -> (r: Single)
        requires
            self.well_formed(),
        ensures
            r == self.scope().digital_channel(identifier@).hysteresis_mv,
    ;

    fn set_digital_hysteresis(&mut self, identifier: &str, hysteresis: Single)
        requires
            old(self).well_formed(),
        ensures
            final(self).well_formed(),
            final(self).scope() == Self::applied(
                old(self).scope(),
                Setting::DigitalHysteresis(identifier@, hysteresis),
            ),
    ;

    fn digital_threshold(&self, identifier: &str) -> (r: Single)
        requires
            self.well_formed(),
        ensures
            r == self.scope().digital_channel(identifier@).threshold_mv,
    ;

    fn set_digital_threshold(&mut self, identifier: &str, threshold: Single)
        requires
            old(self).well_formed(),
        ensures
            final(self).well_formed(),
            final(self).scope() == Self::applied(
                old(self).scope(),
                Setting::DigitalThreshold(identifier@, threshold),
            ),
    ;
}

/// A setting was taken over where there is no reason to refuse it, and otherwise refused for
/// that reason, without any change.
pub open spec fn taken_over(
    result: Result<(), ScpiError>,
    refusal: Option<Refusal>,
    before: Scope,
    applied: Scope,
    after: Scope,
) -> bool {
    match refusal {
        None => result is Ok && after == applied,
        Some(reason) => result is Err && result->Err_0@ == reason && after == before,
    }
}

/// A command line in its parts.
#[derive(Clone)]
pub struct ParsedCommand<'a> {
    pub subject: Option<&'a str>,
    pub command: String,
    pub is_query: bool,
    pub args: Vec<&'a str>,
}

impl<'a> View for ParsedCommand<'a> {
    type V = Request;

    open spec fn view(&self) -> Request {
        Request {
            subject: match self.subject {
                Some(subject) => Some(subject@),
                None => None,
            },
            command: self.command@,
            is_query: self.is_query,
            args: texts(self.args@),
        }
    }
}

impl<'a> ParsedCommand<'a> {
    /// The same command without a subject, its name put behind the prefix.
    pub fn prefixed(&self, prefix: &str) -> (r: ParsedCommand<'a>)
        ensures
            r@ == self@.prefixed(prefix@),
    {
        let mut command = to_uppercase(prefix);
        if !self.command.as_str().is_empty() {
            command.push(':');
            command.append(self.command.as_str());
            assert(command@ == uppercase(prefix@) + seq![':'] + self.command@);
        }
        let mut args: Vec<&'a str> = Vec::new();
        let mut i: usize = 0;
        while i < self.args.len()
            invariant
                i <= self.args@.len(),
                args@ == self.args@.take(i as int),
            decreases self.args@.len() - i,
        {
            args.push(self.args[i]);
            i = i + 1;
        }
        assert(args@ == self.args@);
        ParsedCommand { subject: None, command, is_query: self.is_query, args }
    }
}

/// Parses a line; a line of blanks holds no command.
pub fn parse_command(line: &str) -> (r: Option<ParsedCommand<'_>>)
    ensures
        match r {
            Some(command) => parsed(line@) == Some(command@),
            None => parsed(line@) is None,
        },
{
    let all = split_words(line);
    if all.len() == 0 {
        return None;
    }
    let mut args: Vec<&str> = Vec::new();
    let mut i: usize = 1;
    while i < all.len()
        invariant
            1 <= i <= all@.len(),
            args@ == all@.subrange(1, i as int),
        decreases all@.len() - i,
    {
        args.push(all[i]);
        i = i + 1;
    }
    let first: &str = all[0];
    let chars = chars_of(first);
    let start = run_end(&chars, 0, CharClass::Colon);
    let colon = run_end(&chars, start, CharClass::NotColon);
    let len = chars.len();
    let ghost head = first@.skip(start as int);
    proof {
        assert(texts(all@)[0] == first@);
        assert(first@.skip(0) == first@);
        assert(texts(all@).skip(1) == texts(args@));
    }
    let (raw_subject, raw_command) = if colon < len {
        proof {
            assert(first@.subrange(start as int, colon as int) == head.take(colon - start));
            assert(first@.subrange(colon + 1, len as int) == head.skip(colon - start + 1));
        }
        (first.substring_char(start, colon), first.substring_char(colon + 1, len))
    } else {
        proof {
            assert(first@.subrange(start as int, len as int) == head);
        }
        ("", first.substring_char(start, len))
    };
    proof {
        reveal_strlit("");
        assert(""@ == Seq::<char>::empty());
    }
    let n = raw_command.unicode_len();
    let is_query = n > 0 && raw_command.get_char(n - 1) == '?';
    let command = if is_query {
        assert(raw_command@.subrange(0, n - 1) == raw_command@.drop_last());
        to_uppercase(raw_command.substring_char(0, n - 1))
    } else {
        to_uppercase(raw_command)
    };
    let subject = if raw_subject.is_empty() {
        None
    } else {
        Some(raw_subject)
    };
    Some(ParsedCommand { subject, command, is_query, args })
}

/// Whether all characters from `from` on are digits.
fn only_digits(chars: &Vec<char>, from: usize) -> (r: bool)
    requires
        from <= chars@.len(),
    ensures
        r == all_digits(chars@.skip(from as int)),
{
    let end = run_end(chars, from, CharClass::Digit);
    proof {
        let rest = chars@.skip(from as int);
        lemma_run(rest, CharClass::Digit);
        if end < chars@.len() {
            assert(!is_digit(rest[end - from]));
        }
        if end == chars@.len() {
            assert forall|i: int| 0 <= i < rest.len() implies is_digit(#[trigger] rest[i]) by {
                assert(CharClass::Digit.has(rest[i]));
            }
        }
    }
    end == chars.len()
}

/// Whether a subject is read as the name of an analog channel.
pub fn looks_like_channel_subject(subject: &str) -> (r: bool)
    ensures
        r == names_channel(subject@),
{
    let upper = to_uppercase(trim(subject));
    let chars = chars_of(upper.as_str());
    if chars.len() == 0 {
        return false;
    }
    if starts_with(upper.as_str(), "CH") {
        return true;
    }
    let letter = 'A' <= chars[0] && chars[0] <= 'Z';
    if chars.len() == 1 {
        return letter;
    }
    assert(chars@.skip(0) == chars@);
    (letter && only_digits(&chars, 1)) || only_digits(&chars, 0)
}

/// The name of a digital channel in upper case, if the subject is one.
pub fn parse_digital_subject(subject: &str) -> (r: Option<String>)
    ensures
        match r {
            Some(key) => digital_key(subject@) == Some(key@),
            None => digital_key(subject@) is None,
        },
{
    let upper = to_uppercase(trim(subject));
    let chars = chars_of(upper.as_str());
    if chars.len() == 0 || !('0' <= chars[0] && chars[0] <= '9') {
        return None;
    }
    let mut i: usize = 0;
    while i < chars.len()
        invariant
            i <= chars@.len(),
            chars@ == upper@,
            upper@ == uppercase(trimmed(subject@)),
            chars@.len() > 0,
            is_digit(chars@[0]),
            forall|j: int| 0 <= j < i ==> chars@[j] != 'D',
        decreases chars@.len() - i,
    {
        if chars[i] == 'D' {
            assert(upper@.contains('D'));
            return Some(upper);
        }
        i = i + 1;
    }
    None
}

/// The index of the channel with a number; channels are numbered from one.
pub fn channel_index_from_number(index: usize, limit: usize) -> (r: Result<usize, ScpiError>)
    ensures
        index_as(r) == index_of_number(index as nat, limit as nat),
{
    if index == 0 || index > limit {
        return Err(ScpiError::ChannelOutOfRange(index));
    }
    Ok(index - 1)
}

/// The outcome of looking for a channel, with its texts as characters.
pub open spec fn index_as(result: Result<usize, ScpiError>) -> Result<nat, Refusal> {
    match result {
        Ok(index) => Ok(index as nat),
        Err(error) => Err(error@),
    }
}

/// The index of the channel whose number a text gives.
fn index_from_digits(digits: &str, limit: usize) -> (r: Result<usize, ScpiError>)
    ensures
        index_as(r) == index_of_digits(digits@, limit as nat),
{
    match parse_unsigned(digits, usize::MAX as u64) {
        Ok(number) => {
            proof {
                lemma_unsigned_bound(digits@, usize::MAX as nat);
            }
            channel_index_from_number(number as usize, limit)
        },
        Err(error) => Err(ScpiError::Integer(error)),
    }
}

/// The index of the channel that a text refers to.
pub fn parse_channel_reference(input: &str, limit: usize) -> (r: Result<usize, ScpiError>)
    ensures
        index_as(r) == channel_index(input@, limit as nat),
{
    let token = to_uppercase(trim(input));
    let name = token.as_str();
    let chars = chars_of(name);
    let len = chars.len();
    proof {
        reveal_strlit("CHAN");
        reveal_strlit("CH");
        reveal_strlit("C");
    }
    if starts_with(name, "CHAN") {
        assert(name@.subrange(4, len as int) == name@.skip(4));
        return index_from_digits(name.substring_char(4, len), limit);
    }
    if starts_with(name, "CH") {
        assert(name@.subrange(2, len as int) == name@.skip(2));
        return index_from_digits(name.substring_char(2, len), limit);
    }
    if starts_with(name, "C") {
        assert(name@.subrange(1, len as int) == name@.skip(1));
        return index_from_digits(name.substring_char(1, len), limit);
    }
    let letter = len > 0 && 'A' <= chars[0] && chars[0] <= 'Z';
    if len == 1 && letter {
        let index: usize = (chars[0] as u8 - 65) as usize;
        if index < limit {
            return Ok(index);
        }
    }
    if len >= 2 && letter && only_digits(&chars, 1) {
        assert(name@.subrange(1, len as int) == name@.skip(1));
        let digits = name.substring_char(1, len);
        if parse_unsigned(digits, usize::MAX as u64).is_ok() {
            return index_from_digits(digits, limit);
        }
    }
    if parse_unsigned(name, usize::MAX as u64).is_ok() {
        return index_from_digits(name, limit);
    }
    Err(ScpiError::UnknownChannel(String::from_str(input)))
}

/// The command with its `TRIG:`, if it is one that may come without.
pub fn trigger_alias<'a>(command: &ParsedCommand<'a>) -> (r: Option<ParsedCommand<'a>>)
    ensures
        r is Some == is_trigger_alias(command@.command),
        r matches Some(full) ==> full@ == command@.prefixed("TRIG"@),
{
    let name = command.command.as_str();
    if same(name, "DELAY") || same(name, "LEV") || same(name, "SOU") || same(name, "EDGE:DIR") {
        Some(command.prefixed("TRIG"))
    } else {
        None
    }
}

/// The unsigned integer that is the first argument.
fn unsigned_value(command: &ParsedCommand<'_>, missing: &'static str, max: u64) -> (r: Result<
    u64,
    ScpiError,
>)
    ensures
        match r {
            Ok(n) => unsigned_arg(command@, missing@, max as nat) == Ok::<nat, Refusal>(n as nat)
                && n <= max,
            Err(e) => unsigned_arg(command@, missing@, max as nat) == Err::<nat, Refusal>(e@),
        },
{
    if command.args.len() == 0 {
        return Err(ScpiError::MissingArgument(missing));
    }
    match parse_unsigned(command.args[0], max) {
        Ok(n) => {
            proof {
                lemma_unsigned_bound(command.args@[0]@, max as nat);
            }
            Ok(n)
        },
        Err(error) => Err(ScpiError::Integer(error)),
    }
}

/// The signed integer that is the first argument.
fn signed_value(command: &ParsedCommand<'_>, missing: &'static str) -> (r: Result<i64, ScpiError>)
    ensures
        match r {
            Ok(n) => signed_arg(command@, missing@) == Ok::<int, Refusal>(n as int),
            Err(e) => signed_arg(command@, missing@) == Err::<int, Refusal>(e@),
        },
{
    if command.args.len() == 0 {
        return Err(ScpiError::MissingArgument(missing));
    }
    match parse_signed(command.args[0]) {
        Ok(n) => Ok(n),
        Err(error) => Err(ScpiError::Integer(error)),
    }
}

/// The floating-point number that is the first argument.
fn float_value(
    command: &ParsedCommand<'_>,
    value: Option<FloatArg>,
    missing: &'static str,
) -> (r: Result<FloatArg, ScpiError>)
    ensures
        match r {
            Ok(x) => float_arg(command@, value, missing@) == Ok::<FloatArg, Refusal>(x),
            Err(e) => float_arg(command@, value, missing@) == Err::<FloatArg, Refusal>(e@),
        },
{
    if command.args.len() == 0 {
        return Err(ScpiError::MissingArgument(missing));
    }
    match value {
        Some(x) => Ok(x),
        None => if command.args[0].is_empty() {
            Err(ScpiError::Float(FloatError::Empty))
        } else {
            Err(ScpiError::Float(FloatError::Invalid))
        },
    }
}

/// The first argument in upper case.
fn word_value(command: &ParsedCommand<'_>, missing: &'static str) -> (r: Result<String, ScpiError>)
    ensures
        match r {
            Ok(word) => word_arg(command@, missing@) == Ok::<Seq<char>, Refusal>(word@),
            Err(e) => word_arg(command@, missing@) == Err::<Seq<char>, Refusal>(e@),
        },
{
    if command.args.len() == 0 {
        return Err(ScpiError::MissingArgument(missing));
    }
    Ok(to_uppercase(command.args[0]))
}

fn flag_text(on: bool) -> (r: String)
    ensures
        r@ == flag(on),
{
    if on {
        String::from_str("1")
    } else {
        String::from_str("0")
    }
}

/// The commands that set the trigger.
pub fn handle_trigger_command<S: ScpiState>(
    state: &mut S,
    command: &ParsedCommand<'_>,
    value: Option<FloatArg>,
) -> (r: Result<CommandResult, ScpiError>)
    requires
        old(state).well_formed(),
    ensures
        final(state).well_formed(),
        (answer_of(r), final(state).scope()) == trigger_response::<S>(
            old(state).scope(),
            command@,
            value,
        ),
{
    let name = command.command.as_str();
    if same(name, "TRIG:SOU") {
        if command.is_query {
            let number: u128 = state.trigger_source() as u128 + 1;
            return Ok(
                CommandResult::Reply(String::from_str("C").concat(to_decimal(number).as_str())),
            );
        }
        if command.args.len() == 0 {
            return Err(ScpiError::MissingArgument("TRIG:SOU requires a channel"));
        }
        match parse_channel_reference(command.args[0], state.channel_count()) {
            Ok(index) => {
                state.set_trigger_source(index);
                Ok(CommandResult::NoReply)
            },
            Err(error) => Err(error),
        }
    } else if same(name, "TRIG:LEV") {
        if command.is_query {
            return Ok(CommandResult::Number(FloatValue::Double(state.trigger_level()), 6));
        }
        match float_value(command, value, "TRIG:LEV requires a value") {
            Ok(level) => {
                state.set_trigger_level(level.double);
                Ok(CommandResult::NoReply)
            },
            Err(error) => Err(error),
        }
    } else if same(name, "TRIG:DELAY") {
        if command.is_query {
            return Ok(CommandResult::Reply(to_signed_decimal(state.trigger_delay())));
        }
        match signed_value(command, "TRIG:DELAY requires a value") {
            Ok(delay) => {
                state.set_trigger_delay(delay);
                Ok(CommandResult::NoReply)
            },
            Err(error) => Err(error),
        }
    } else if same(name, "TRIG:EDGE:DIR") {
        if command.is_query {
            return Ok(CommandResult::Reply(String::from_str(state.trigger_edge().as_str())));
        }
        let direction = match word_value(command, "TRIG:EDGE:DIR requires a value") {
            Ok(direction) => direction,
            Err(error) => return Err(error),
        };
        let word = direction.as_str();
        let edge = if same(word, "RISING") {
            TriggerEdge::Rising
        } else if same(word, "FALLING") {
            TriggerEdge::Falling
        } else if same(word, "EITHER") || same(word, "ANY") {
            TriggerEdge::Either
        } else {
            return Err(ScpiError::InvalidTriggerDirection(direction));
        };
        state.set_trigger_edge(edge);
        Ok(CommandResult::NoReply)
    } else {
        Err(ScpiError::UnsupportedTriggerCommand(String::from_str(name)))
    }
}

/// The commands to one analog channel.
pub fn handle_channel_command<S: ScpiState>(
    state: &mut S,
    subject: &str,
    command: &ParsedCommand<'_>,
    value: Option<FloatArg>,
) -> (r: Result<CommandResult, ScpiError>)
    requires
        old(state).well_formed(),
    ensures
        final(state).well_formed(),
        (answer_of(r), final(state).scope()) == channel_response::<S>(
            old(state).scope(),
            subject@,
            command@,
            value,
        ),
{
    let index = match parse_channel_reference(subject, state.channel_count()) {
        Ok(index) => index,
        Err(error) => return Err(error),
    };
    proof {
        lemma_index_in_range(subject@, state.scope().channels.len());
    }
    let name = command.command.as_str();
    if same(name, "ON") {
        Ok(CommandResult::Device(state.set_channel_enabled(index, true)))
    } else if same(name, "OFF") {
        Ok(CommandResult::Device(state.set_channel_enabled(index, false)))
    } else if same(name, "STATE") && command.is_query {
        Ok(CommandResult::Reply(flag_text(state.channel_state(index).enabled)))
    } else if same(name, "COUP") {
        if command.is_query {
            return Ok(CommandResult::Reply(coupling_name(state.channel_state(index).coupling)));
        }
        let mode = match word_value(command, "channel coupling requires an argument") {
            Ok(mode) => mode,
            Err(error) => return Err(error),
        };
        let word = mode.as_str();
        let coupling = if same(word, "DC") || same(word, "DC1M") || same(word, "DC50") {
            Coupling::DC
        } else if same(word, "AC") || same(word, "AC1M") {
            Coupling::AC
        } else {
            return Err(ScpiError::UnsupportedCoupling(mode));
        };
        Ok(CommandResult::Device(state.set_channel_coupling(index, coupling)))
    } else if same(name, "RANGE") {
        if command.is_query {
            let range = state.channel_state(index).range;
            return Ok(CommandResult::Reply(String::from_str(range.volts_text())));
        }
        match float_value(command, value, "channel range requires a value") {
            Ok(volts) => Ok(CommandResult::Device(state.set_channel_range(index, volts.double))),
            Err(error) => Err(error),
        }
    } else if same(name, "OFFS") {
        if command.is_query {
            let offset = state.channel_state(index).offset;
            return Ok(CommandResult::Number(FloatValue::Single(offset), 6));
        }
        match float_value(command, value, "channel offset requires a value") {
            Ok(offset) => {
                state.set_channel_offset(index, offset.single);
                Ok(CommandResult::NoReply)
            },
            Err(error) => Err(error),
        }
    } else if same(name, "BWLIM") {
        if command.is_query {
            let limit: u32 = match state.channel_bandwidth_limit(index) {
                Some(mhz) => mhz,
                None => 0,
            };
            return Ok(CommandResult::Reply(to_decimal(limit as u128)));
        }
        match unsigned_value(
            command,
            "channel bandwidth limit requires a value",
            u32::MAX as u64,
        ) {
            Ok(mhz) => {
                let limit = if mhz == 0 {
                    None
                } else {
                    Some(mhz as u32)
                };
                state.set_channel_bandwidth_limit(index, limit);
                Ok(CommandResult::NoReply)
            },
            Err(error) => Err(error),
        }
    } else {
        Err(
            ScpiError::UnsupportedChannelCommand(
                String::from_str(name),
                String::from_str(subject),
            ),
        )
    }
}

/// A channel that was found is one of those that there are.
pub proof fn lemma_index_in_range(input: Seq<char>, limit: nat)
    ensures
        channel_index(input, limit) matches Ok(index) ==> index < limit,
{
}

/// Whether a name is that of a waveform of the function generator.
fn is_known_waveform(name: &str) -> (r: bool)
    ensures
        r == is_waveform(name@),
{
    same(name, "SINE") || same(name, "SQUARE") || same(name, "TRIANGLE") || same(name, "RAMP_UP")
        || same(name, "RAMP_DOWN") || same(name, "DC") || same(name, "WHITENOISE") || same(
        name,
        "PRBS",
    ) || same(name, "ARBITRARY")
}

/// The commands to the function generator.
pub fn handle_awg_command<S: ScpiState>(
    state: &mut S,
    command: &ParsedCommand<'_>,
    value: Option<FloatArg>,
) -> (r: Result<CommandResult, ScpiError>)
    requires
        old(state).well_formed(),
    ensures
        final(state).well_formed(),
        (answer_of(r), final(state).scope()) == awg_response::<S>(
            old(state).scope(),
            command@,
            value,
        ),
{
    let name = command.command.as_str();
    if same(name, "START") {
        if command.is_query {
            return Ok(CommandResult::Reply(flag_text(state.awg_state().enabled)));
        }
        state.set_awg_enabled(true);
        Ok(CommandResult::NoReply)
    } else if same(name, "STOP") {
        if command.is_query {
            return Ok(CommandResult::Reply(flag_text(state.awg_state().enabled)));
        }
        state.set_awg_enabled(false);
        Ok(CommandResult::NoReply)
    } else if same(name, "STATE") && command.is_query {
        Ok(CommandResult::Reply(flag_text(state.awg_state().enabled)))
    } else if same(name, "FREQ") {
        if command.is_query {
            let hz = state.awg_state().frequency_hz;
            return Ok(CommandResult::Number(FloatValue::Double(hz), 6));
        }
        match float_value(command, value, "AWG:FREQ requires a value") {
            Ok(hz) => {
                state.set_awg_frequency(hz.double);
                Ok(CommandResult::NoReply)
            },
            Err(error) => Err(error),
        }
    } else if same(name, "DUTY") {
        if command.is_query {
            let duty = state.awg_state().duty_cycle;
            return Ok(CommandResult::Number(FloatValue::Single(duty), 3));
        }
        match float_value(command, value, "AWG:DUTY requires a value") {
            Ok(duty) => {
                state.set_awg_duty(duty.single);
                Ok(CommandResult::NoReply)
            },
            Err(error) => Err(error),
        }
    } else if same(name, "RANGE") {
        if command.is_query {
            let range = state.awg_state().range_vpp;
            return Ok(CommandResult::Number(FloatValue::Single(range), 3));
        }
        match float_value(command, value, "AWG:RANGE requires a value") {
            Ok(range) => {
                state.set_awg_range(range.single);
                Ok(CommandResult::NoReply)
            },
            Err(error) => Err(error),
        }
    } else if same(name, "OFF") || same(name, "OFFS") {
        if command.is_query {
            let offset = state.awg_state().offset_v;
            return Ok(CommandResult::Number(FloatValue::Single(offset), 6));
        }
        match float_value(command, value, "AWG:OFFS requires a value") {
            Ok(offset) => {
                state.set_awg_offset(offset.single);
                Ok(CommandResult::NoReply)
            },
            Err(error) => Err(error),
        }
    } else if same(name, "SHAPE") {
        if command.is_query {
            return Ok(CommandResult::Reply(state.awg_state().shape));
        }
        let waveform = match word_value(command, "AWG:SHAPE requires a value") {
            Ok(waveform) => waveform,
            Err(error) => return Err(error),
        };
        if !is_known_waveform(waveform.as_str()) {
            return Err(ScpiError::UnsupportedWaveform(waveform));
        }
        state.set_awg_shape(waveform.as_str());
        Ok(CommandResult::NoReply)
    } else {
        Err(ScpiError::UnsupportedAwgCommand(String::from_str(name)))
    }
}

/// The commands to one digital channel.
pub fn handle_digital_command<S: ScpiState>(
    state: &mut S,
    identifier: &str,
    command: &ParsedCommand<'_>,
    value: Option<FloatArg>,
) -> (r: Result<CommandResult, ScpiError>)
    requires
        old(state).well_formed(),
    ensures
        final(state).well_formed(),
        (answer_of(r), final(state).scope()) == digital_response::<S>(
            old(state).scope(),
            identifier@,
            command@,
            value,
        ),
{
    let name = command.command.as_str();
    if same(name, "PRESENT") {
        if command.is_query {
            return Ok(CommandResult::Reply(String::from_str("0")));
        }
        Err(ScpiError::PresentIsAQuery)
    } else if same(name, "HYS") {
        if command.is_query {
            let hysteresis = state.digital_hysteresis(identifier);
            return Ok(CommandResult::Number(FloatValue::Single(hysteresis), 3));
        }
        match float_value(command, value, "HYS requires a value") {
            Ok(hysteresis) => {
                state.set_digital_hysteresis(identifier, hysteresis.single);
                Ok(CommandResult::NoReply)
            },
            Err(error) => Err(error),
        }
    } else if same(name, "THRESH") {
        if command.is_query {
            let threshold = state.digital_threshold(identifier);
            return Ok(CommandResult::Number(FloatValue::Single(threshold), 3));
        }
        match float_value(command, value, "THRESH requires a value") {
            Ok(threshold) => {
                state.set_digital_threshold(identifier, threshold.single);
                Ok(CommandResult::NoReply)
            },
            Err(error) => Err(error),
        }
    } else {
        Err(ScpiError::UnsupportedDigitalCommand(String::from_str(name)))
    }
}

/// The intervals of the sample rates, separated by commas.
fn list_intervals(rates: &[u32]) -> (r: String)
    ensures
        r@ == rates_text(rates@),
{
    let mut parts: Vec<String> = Vec::new();
    let mut i: usize = 0;
    while i < rates.len()
        invariant
            i <= rates@.len(),
            parts@.len() == i,
            forall|j: int|
                0 <= j < i ==> (#[trigger] parts@[j])@ == signed_decimal(interval(rates@[j])),
        decreases rates@.len() - i,
    {
        let rate = rates[i];
        let fs: i64 = if rate == 0 {
            0
        } else {
            FS_PER_SECOND / rate as i64
        };
        parts.push(to_signed_decimal(fs));
        i = i + 1;
    }
    assert(string_texts(parts@) == Seq::new(
        rates@.len(),
        |i: int| signed_decimal(interval(rates@[i])),
    ));
    join(&parts, ",")
}

/// The sample depths, separated by commas.
fn list_depths(depths: &[usize]) -> (r: String)
    ensures
        r@ == depths_text(depths@),
{
    let mut parts: Vec<String> = Vec::new();
    let mut i: usize = 0;
    while i < depths.len()
        invariant
            i <= depths@.len(),
            parts@.len() == i,
            forall|j: int| 0 <= j < i ==> (#[trigger] parts@[j])@ == decimal(depths@[j] as nat),
        decreases depths@.len() - i,
    {
        parts.push(to_decimal(depths[i] as u128));
        i = i + 1;
    }
    assert(string_texts(parts@) == Seq::new(depths@.len(), |i: int| decimal(depths@[i] as nat)));
    join(&parts, ",")
}

/// A setting that the scope may refuse has no reply when it is taken over.
fn silent(result: Result<(), ScpiError>) -> (r: Result<CommandResult, ScpiError>)
    ensures
        r == match result {
            Ok(_) => Ok(CommandResult::NoReply),
            Err(error) => Err(error),
        },
{
    match result {
        Ok(()) => Ok(CommandResult::NoReply),
        Err(error) => Err(error),
    }
}

/// The commands without a subject.
fn process_plain_command<S: ScpiState>(
    state: &mut S,
    command: &ParsedCommand<'_>,
    value: Option<FloatArg>,
) -> (r: Result<CommandResult, ScpiError>)
    requires
        old(state).well_formed(),
    ensures
        final(state).well_formed(),
        (answer_of(r), final(state).scope()) == plain_response::<S>(
            old(state).scope(),
            command@,
            value,
        ),
{
    if let Some(full) = trigger_alias(command) {
        return handle_trigger_command(state, &full, value);
    }
    let name = command.command.as_str();
    let query = command.is_query;
    if same(name, "*IDN") && query {
        Ok(CommandResult::from(Some(state.idn())))
    } else if same(name, "CHANS") && query {
        Ok(CommandResult::from(Some(to_decimal(state.channel_count() as u128))))
    } else if same(name, "SEQNUM") && query {
        Ok(CommandResult::from(Some(to_decimal(state.last_sequence() as u128))))
    } else if same(name, "RATES") && query {
        Ok(CommandResult::from(Some(list_intervals(state.allowed_sample_rates()))))
    } else if same(name, "RATE") {
        if query {
            return Ok(CommandResult::from(Some(to_decimal(state.sample_rate() as u128))));
        }
        match unsigned_value(command, "RATE requires an argument", u32::MAX as u64) {
            Ok(rate) => silent(state.set_sample_rate(rate as u32)),
            Err(error) => Err(error),
        }
    } else if same(name, "DEPTHS") && query {
        Ok(CommandResult::from(Some(list_depths(state.allowed_sample_depths()))))
    } else if same(name, "DEPTH") {
        if query {
            return Ok(CommandResult::from(Some(to_decimal(state.sample_depth() as u128))));
        }
        match unsigned_value(command, "DEPTH requires an argument", usize::MAX as u64) {
            Ok(depth) => silent(state.set_sample_depth(depth as usize)),
            Err(error) => Err(error),
        }
    } else if same(name, "BITS") {
        if query {
            return Ok(CommandResult::from(Some(to_decimal(state.adc_bits() as u128))));
        }
        match unsigned_value(command, "BITS requires a value", u32::MAX as u64) {
            Ok(bits) => silent(state.set_adc_bits(bits as u32)),
            Err(error) => Err(error),
        }
    } else if same(name, "START") {
        Ok(CommandResult::Device(state.start_streaming(false)))
    } else if same(name, "STOP") {
        Ok(CommandResult::Device(state.stop_streaming()))
    } else if same(name, "SINGLE") {
        Ok(CommandResult::Device(state.start_streaming(true)))
    } else if same(name, "FORCE") {
        Ok(CommandResult::Device(state.force_trigger()))
    } else if same(name, "ARMED") && query {
        Ok(CommandResult::from(Some(flag_text(state.is_armed()))))
    } else if starts_with(name, "TRIG") {
        handle_trigger_command(state, command, value)
    } else if same(name, "EXIT") {
        Ok(CommandResult::Exit)
    } else {
        Err(ScpiError::UnsupportedCommand(String::from_str(name)))
    }
}

/// Carries out a command, or refuses it.
///
/// `value` is the first argument read as a floating-point number, `None` where there is no
/// argument or where it is no such number.
pub fn process_command<S: ScpiState>(
    state: &mut S,
    command: &ParsedCommand<'_>,
    value: Option<FloatArg>,
) -> (r: Result<CommandResult, ScpiError>)
    requires
        old(state).well_formed(),
    ensures
        final(state).well_formed(),
        (answer_of(r), final(state).scope()) == response::<S>(
            old(state).scope(),
            command@,
            value,
        ),
{
    let subject = match command.subject {
        Some(subject) => subject,
        None => return process_plain_command(state, command, value),
    };
    if looks_like_channel_subject(subject) {
        return handle_channel_command(state, subject, command, value);
    }
    if same_in_any_case(subject, "AWG") {
        return handle_awg_command(state, command, value);
    }
    if let Some(key) = parse_digital_subject(subject) {
        return handle_digital_command(state, key.as_str(), command, value);
    }
    if same_in_any_case(subject, "TRIG") {
        let combined = command.prefixed("TRIG");
        return handle_trigger_command(state, &combined, value);
    }
    let combined = command.prefixed(subject);
    process_plain_command(state, &combined, value)
}

/// Ends a start that was asked of the device: `actual` is the rate at which it streams, `None`
/// where it did not start.
pub fn finish_start<S: ScpiState>(
    state: &mut S,
    rate: u32,
    one_shot: bool,
    actual: Option<u32>,
) -> (r: Result<CommandResult, ScpiError>)
    requires
        old(state).well_formed(),
    ensures
        final(state).well_formed(),
        (answer_of(r), final(state).scope()) == start_response::<S>(
            old(state).scope(),
            rate,
            one_shot,
            actual,
        ),
{
    match actual {
        Some(actual) => {
            state.streaming_started(one_shot, actual);
            Ok(CommandResult::NoReply)
        },
        None => Err(ScpiError::StartFailed(rate)),
    }
}

} // verus!
