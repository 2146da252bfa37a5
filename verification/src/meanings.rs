//! What the settings of a scope mean: what each changes, what is refused, and how the state of a
//! scope is seen.

use vstd::prelude::*;
use vstd::arithmetic::div_mod::{lemma_div_pos_is_pos, lemma_fundamental_div_mod, lemma_mod_bound};
use vstd::arithmetic::power2::{lemma2_to64, pow2};
use vstd::std_specs::convert::FromSpec;
use crate::error::{Refusal, ScpiError};
use crate::floating::{lemma_order, Double, Single};
use crate::hardware::{Coupling, InputRange};
use crate::model::{answer_of, start_response, Answer, Scope, Setting};
use crate::scpi::{taken_over, CommandResult, FloatValue, ParsedCommand, ScpiState};
use crate::state::{
    completed, identity, initial_scope, is_char_code, label_code, label_number, sample_interval,
    AcquisitionState, AppState, Awg, AwgState, ChannelState, DeviceMetadata, DigitalChannelState,
    TriggerEdge, DEFAULT_MEMORY_DEPTHS, DEFAULT_SAMPLE_RATES,
};
use crate::text::{trimmed, uppercase};

verus! {

// ---------------------------------------------------------------------------
// Settings

/// A setting of the acquisition changes what it names, to what it gives, and nothing else.
pub proof fn law_acquisition_settings(scope: Scope, setting: Setting)
    ensures
        ({
            let after = AppState::applied(scope, setting);
            let same = Scope { acquisition: after.acquisition, ..scope };
            let before = scope.acquisition;
            match setting {
                Setting::SampleRate(rate) => after == same && after.acquisition == (
                AcquisitionState { sample_rate: rate, ..before }),
                Setting::SampleDepth(depth) => after == same && after.acquisition == (
                AcquisitionState { sample_depth: depth, ..before }),
                Setting::AdcBits(bits) => after == (Scope { adc_bits: bits, ..scope }),
                Setting::Started(one_shot, actual) => after == same && after.acquisition == (
                AcquisitionState { one_shot, armed: true, actual_sample_rate: actual, ..before }),
                Setting::Stopped => after == same && after.acquisition == (AcquisitionState {
                    armed: false,
                    one_shot: false,
                    ..before
                }),
                Setting::TriggerSource(index) => after == same && after.acquisition == (
                AcquisitionState { trigger_source: index, ..before }),
                Setting::TriggerLevel(level) => after == same && after.acquisition == (
                AcquisitionState { trigger_level: level, ..before }),
                Setting::TriggerDelay(delay) => after == same && after.acquisition == (
                AcquisitionState { trigger_delay_fs: delay, ..before }),
                Setting::TriggerEdge(edge) => after == same && after.acquisition == (
                AcquisitionState { trigger_edge: edge, ..before }),
                _ => after.acquisition == before,
            }
        }),
{
}

/// A setting of an analog channel changes that channel alone, and of it what the setting names.
/// One of a channel that there is not changes nothing.
pub proof fn law_channel_settings(scope: Scope, setting: Setting, index: usize)
    requires
        match setting {
            Setting::ChannelEnabled(i, _) => i == index,
            Setting::ChannelCoupling(i, _) => i == index,
            Setting::ChannelRange(i, _) => i == index,
            Setting::ChannelOffset(i, _) => i == index,
            Setting::BandwidthLimit(i, _) => i == index,
            _ => false,
        },
    ensures
        ({
            let after = AppState::applied(scope, setting);
            let i = index as int;
            let old = scope.channels[i];
            let new = after.channels[i];
            if index < scope.channels.len() {
                &&& after == (Scope { channels: scope.channels.update(i, new), ..scope })
                &&& new == match setting {
                    Setting::ChannelEnabled(_, on) => ChannelState { enabled: on, ..old },
                    Setting::ChannelCoupling(_, coupling) => ChannelState { coupling, ..old },
                    Setting::ChannelRange(_, _) => ChannelState { range: new.range, ..old },
                    Setting::ChannelOffset(_, offset) => ChannelState { offset, ..old },
                    Setting::BandwidthLimit(_, limit) => ChannelState {
                        bandwidth_limit_mhz: limit,
                        ..old
                    },
                    _ => old,
                }
            } else {
                after == scope
            }
        }),
{
    if index < scope.channels.len() {
        let after = AppState::applied(scope, setting);
        assert(after.channels == scope.channels.update(index as int, after.channels[index as int]));
    }
}

/// The range that a channel gets for a voltage covers it, whatever the sign, and no more sensitive
/// one does; the least sensitive one is taken where none covers it. Without their sign bit, patterns
/// compare as the numbers they stand for.
pub proof fn law_channel_range_setting(
    scope: Scope,
    index: usize,
    volts: Double,
    other: InputRange,
)
    requires
        index < scope.channels.len(),
    ensures
        ({
            let size = volts.bits as int % 0x8000_0000_0000_0000;
            let range = AppState::applied(
                scope,
                Setting::ChannelRange(index, volts),
            ).channels[index as int].range;
            &&& size <= range.full_scale().bits || range == InputRange::V20
            &&& other.millivolts() < range.millivolts() ==> size > other.full_scale().bits
        }),
{
    let size = (volts.bits % 0x8000_0000_0000_0000) as nat;
    lemma_range_order(size, InputRange::Mv20);
    lemma_range_order(size, InputRange::Mv50);
    lemma_range_order(size, InputRange::Mv100);
    lemma_range_order(size, InputRange::Mv200);
    lemma_range_order(size, InputRange::Mv500);
    lemma_range_order(size, InputRange::V1);
    lemma_range_order(size, InputRange::V2);
    lemma_range_order(size, InputRange::V5);
    lemma_range_order(size, InputRange::V10);
}

/// A pattern without a sign is covered by a range if it is not above that of the range.
proof fn lemma_range_order(size: nat, range: InputRange)
    requires
        size < 0x8000_0000_0000_0000,
    ensures
        (Double { bits: size as u64 }).le(range.full_scale()) == (size <= range.full_scale().bits),
{
    lemma_order(false, size, false, range.full_scale().bits as nat, 52);
}

/// A setting of the function generator changes what it names and nothing else. Frequency and
/// voltage are taken over if they are above zero, infinity included, and are zero otherwise. A duty
/// cycle is taken over from zero to 100 and where it is no number, is 100 above that and zero below.
pub proof fn law_generator_settings(scope: Scope, setting: Setting)
    ensures
        ({
            let after = AppState::applied(scope, setting);
            let same = Scope { awg: after.awg, ..scope };
            let old = scope.awg;
            match setting {
                Setting::AwgEnabled(on) => after == same && after.awg == (Awg { enabled: on, ..old }),
                Setting::AwgFrequency(hz) => after == same && after.awg == (Awg {
                    frequency_hz: Double {
                        bits: if 0 < hz.bits <= 0x7ff0_0000_0000_0000 {
                            hz.bits
                        } else {
                            0
                        },
                    },
                    ..old
                }),
                Setting::AwgDuty(duty) => after == same && after.awg == (Awg {
                    duty_cycle: Single {
                        bits: if 0x42c8_0000 < duty.bits <= 0x7f80_0000 {
                            0x42c8_0000
                        } else if 0x8000_0000 < duty.bits <= 0xff80_0000 {
                            0
                        } else {
                            duty.bits
                        },
                    },
                    ..old
                }),
                Setting::AwgRange(range) => after == same && after.awg == (Awg {
                    range_vpp: Single {
                        bits: if 0 < range.bits <= 0x7f80_0000 {
                            range.bits
                        } else {
                            0
                        },
                    },
                    ..old
                }),
                Setting::AwgOffset(offset) => after == same && after.awg == (Awg {
                    offset_v: offset,
                    ..old
                }),
                Setting::AwgShape(shape) => after == same && after.awg == (Awg { shape, ..old }),
                _ => after.awg == old,
            }
        }),
{
    match setting {
        Setting::AwgFrequency(hz) => {
            lemma_order(hz.is_negative(), hz.magnitude(), false, 0, 52);
        },
        Setting::AwgRange(range) => {
            lemma_order(range.is_negative(), range.magnitude(), false, 0, 23);
        },
        Setting::AwgDuty(duty) => {
            lemma_order(duty.is_negative(), duty.magnitude(), false, 0x42c8_0000, 23);
            lemma_order(false, 0, duty.is_negative(), duty.magnitude(), 23);
        },
        _ => {},
    }
}

/// A setting of a digital channel is kept under its name, without blanks around it and in upper case,
/// and changes what it names; the other of
/// the two is as it was, zero at first, and no other name is touched.
pub proof fn law_digital_settings(
    scope: Scope,
    setting: Setting,
    given: Seq<char>,
    key: Seq<char>,
    other: Seq<char>,
)
    requires
        key == uppercase(trimmed(given)),
        other != key,
    ensures
        ({
            let zero = DigitalChannelState {
                threshold_mv: Single { bits: 0 },
                hysteresis_mv: Single { bits: 0 },
            };
            let old = if scope.digital.dom().contains(key) {
                scope.digital[key]
            } else {
                zero
            };
            let after = AppState::applied(scope, setting);
            match setting {
                Setting::DigitalHysteresis(k, mv) => k == given ==> {
                    &&& after == (Scope { digital: after.digital, ..scope })
                    &&& after.digital.dom().contains(key)
                    &&& after.digital[key] == (DigitalChannelState { hysteresis_mv: mv, ..old })
                    &&& after.digital.dom().contains(other) == scope.digital.dom().contains(other)
                    &&& after.digital[other] == scope.digital[other]
                },
                Setting::DigitalThreshold(k, mv) => k == given ==> {
                    &&& after == (Scope { digital: after.digital, ..scope })
                    &&& after.digital.dom().contains(key)
                    &&& after.digital[key] == (DigitalChannelState { threshold_mv: mv, ..old })
                    &&& after.digital.dom().contains(other) == scope.digital.dom().contains(other)
                    &&& after.digital[other] == scope.digital[other]
                },
                _ => after.digital == scope.digital,
            }
        }),
{
}

/// A scope refuses a rate that is not in its list, a depth that is not in its list and a resolution
/// below 8 or above 16 bits, and says which; it refuses nothing else.
pub proof fn law_what_is_refused(scope: Scope, setting: Setting)
    ensures
        AppState::refusal(scope, setting) == match setting {
            Setting::SampleRate(rate) => if exists|i: int|
                0 <= i < scope.rates.len() && #[trigger] scope.rates[i] == rate {
                None
            } else {
                Some(Refusal::UnsupportedSampleRate(rate))
            },
            Setting::SampleDepth(depth) => if exists|i: int|
                0 <= i < scope.depths.len() && #[trigger] scope.depths[i] == depth {
                None
            } else {
                Some(Refusal::UnsupportedSampleDepth(depth))
            },
            Setting::AdcBits(bits) => if bits < 8 || bits > 16 {
                Some(Refusal::UnsupportedResolution(bits))
            } else {
                None
            },
            _ => None,
        },
{
}

/// A start that came about arms the scope at the actual rate; one that did not is refused with the
/// rate that was asked for and changes nothing.
pub proof fn law_outcome_of_a_start<S: ScpiState>(
    scope: Scope,
    rate: u32,
    one_shot: bool,
    actual: u32,
)
    ensures
        start_response::<S>(scope, rate, one_shot, Some(actual)) == (
            Answer::NoReply,
            S::applied(scope, Setting::Started(one_shot, actual)),
        ),
        start_response::<S>(scope, rate, one_shot, None) == (
            Answer::Refused(Refusal::StartFailed(rate)),
            scope,
        ),
{
}

/// When the sender is done with a waveform, a single acquisition is over: it is neither armed nor
/// single any more. Nothing else changes, and nothing at all in other acquisitions.
pub proof fn law_completion(state: AppState)
    ensures
        completed(state) == (AppState {
            acquisition: AcquisitionState {
                armed: state.acquisition.armed && !state.acquisition.one_shot,
                one_shot: false,
                ..state.acquisition
            },
            ..state
        }),
{
}

// ---------------------------------------------------------------------------
// Views

/// A scope is seen as its state is.
pub proof fn law_scope_shows_the_state(state: AppState)
    ensures
        state.scope().identity == "pico-scopehal-rs,"@ + state.metadata.variant@ + ","@
            + state.metadata.serial@ + ",0.1.0"@,
        state.scope().metadata == state.metadata,
        state.scope().max_adc == state.max_adc,
        state.scope().channel_ids == state.analog_channels@,
        state.scope().channels == state.channels@,
        state.scope().acquisition == state.acquisition,
        state.scope().awg == state.awg@,
        state.scope().digital == state.digital@,
        state.scope().adc_bits == state.adc_bits,
        state.scope().last_sequence == state.last_sequence,
        state.scope().rates == DEFAULT_SAMPLE_RATES@,
        state.scope().depths == DEFAULT_MEMORY_DEPTHS@,
{
    lemma_identity(state.metadata);
}

/// The settings of the function generator are seen as they are.
pub proof fn law_generator_is_seen_as_it_is(awg: AwgState)
    ensures
        awg@.enabled == awg.enabled,
        awg@.frequency_hz == awg.frequency_hz,
        awg@.duty_cycle == awg.duty_cycle,
        awg@.range_vpp == awg.range_vpp,
        awg@.offset_v == awg.offset_v,
        awg@.shape == awg.shape@,
{
}

/// A command is seen as it is.
pub proof fn law_command_is_seen_as_it_is(command: ParsedCommand<'_>)
    ensures
        command@.subject is Some == command.subject is Some,
        command.subject matches Some(subject) ==> command@.subject == Some(subject@),
        command@.command == command.command@,
        command@.is_query == command.is_query,
        command@.args.len() == command.args@.len(),
        forall|i: int| 0 <= i < command.args@.len() ==> #[trigger] command@.args[i] == command.args@[i]@,
{
}

/// The outcome of a command is seen as it is: the very text, the very number with its sign and its
/// decimals, the very work for the device, and the very reason of a refusal.
pub proof fn law_outcome_is_seen_as_it_is(result: Result<CommandResult, ScpiError>)
    ensures
        match result {
            Ok(CommandResult::NoReply) => answer_of(result) is NoReply,
            Ok(CommandResult::Reply(text)) => answer_of(result) == Answer::Reply(text@),
            Ok(CommandResult::Number(FloatValue::Double(x), n)) => {
                &&& answer_of(result) is Number
                &&& answer_of(result)->Number_0 is Double
                &&& answer_of(result)->Number_0->Double_0.bits == x.bits
                &&& answer_of(result)->Number_1 == n
            },
            Ok(CommandResult::Number(FloatValue::Single(x), n)) => {
                &&& answer_of(result) is Number
                &&& answer_of(result)->Number_0 is Single
                &&& answer_of(result)->Number_0->Single_0.bits == x.bits
                &&& answer_of(result)->Number_1 == n
            },
            Ok(CommandResult::Device(action)) => answer_of(result) == Answer::Device(action),
            Ok(CommandResult::Exit) => answer_of(result) is Exit,
            Err(error) => answer_of(result) == Answer::Refused(error@),
        },
{
}

/// A refusal is seen as what it is, with the very texts and numbers.
pub proof fn law_refusal_is_seen_as_it_is(error: ScpiError)
    ensures
        match error {
            ScpiError::MissingArgument(t) => error@ == Refusal::MissingArgument(t@),
            ScpiError::Integer(e) => error@ == Refusal::Integer(e),
            ScpiError::Float(e) => error@ == Refusal::Float(e),
            ScpiError::UnsupportedCommand(t) => error@ == Refusal::UnsupportedCommand(t@),
            ScpiError::UnsupportedTriggerCommand(t) => error@
                == Refusal::UnsupportedTriggerCommand(t@),
            ScpiError::UnsupportedChannelCommand(t, u) => error@
                == Refusal::UnsupportedChannelCommand(t@, u@),
            ScpiError::UnsupportedAwgCommand(t) => error@ == Refusal::UnsupportedAwgCommand(t@),
            ScpiError::UnsupportedDigitalCommand(t) => error@
                == Refusal::UnsupportedDigitalCommand(t@),
            ScpiError::PresentIsAQuery => error@ == Refusal::PresentIsAQuery,
            ScpiError::InvalidTriggerDirection(t) => error@ == Refusal::InvalidTriggerDirection(t@),
            ScpiError::UnsupportedCoupling(t) => error@ == Refusal::UnsupportedCoupling(t@),
            ScpiError::UnsupportedWaveform(t) => error@ == Refusal::UnsupportedWaveform(t@),
            ScpiError::ChannelOutOfRange(n) => error@ == Refusal::ChannelOutOfRange(n as nat),
            ScpiError::UnknownChannel(t) => error@ == Refusal::UnknownChannel(t@),
            ScpiError::UnsupportedSampleRate(n) => error@ == Refusal::UnsupportedSampleRate(n),
            ScpiError::UnsupportedSampleDepth(n) => error@ == Refusal::UnsupportedSampleDepth(n),
            ScpiError::UnsupportedResolution(n) => error@ == Refusal::UnsupportedResolution(n),
            ScpiError::StartFailed(n) => error@ == Refusal::StartFailed(n),
        },
{
}

// ---------------------------------------------------------------------------
// Lists and defaults

/// The sample rates begin at a gigasample per second, and each is half the one before, rounded
/// down from the exact half.
pub proof fn law_rates_are_halved(k: nat)
    requires
        k < 20,
    ensures
        DEFAULT_SAMPLE_RATES@.len() == 20,
        DEFAULT_SAMPLE_RATES@[k as int] as int * pow2(k) <= 1_000_000_000,
        1_000_000_000 < (DEFAULT_SAMPLE_RATES@[k as int] + 1) * pow2(k),
{
    lemma2_to64();
    assert(DEFAULT_SAMPLE_RATES@[k as int] as int * pow2(k) <= 1_000_000_000 < (
    DEFAULT_SAMPLE_RATES@[k as int] + 1) * pow2(k)) by {
        let rate = DEFAULT_SAMPLE_RATES@[k as int];
        let p = pow2(k);
        if k < 10 {
            lemma_halving_low(k, rate, p);
        } else {
            lemma_halving_high(k, rate, p);
        }
    }
}

proof fn lemma_halving_low(k: nat, rate: u32, p: nat)
    requires
        k < 10,
        rate == DEFAULT_SAMPLE_RATES@[k as int],
        p == pow2(k),
    ensures
        rate as int * p <= 1_000_000_000 < (rate + 1) * p,
{
    lemma2_to64();
    assert(k == 0 || k == 1 || k == 2 || k == 3 || k == 4 || k == 5 || k == 6 || k == 7 || k == 8 || k
        == 9);
}

proof fn lemma_halving_high(k: nat, rate: u32, p: nat)
    requires
        10 <= k < 20,
        rate == DEFAULT_SAMPLE_RATES@[k as int],
        p == pow2(k),
    ensures
        rate as int * p <= 1_000_000_000 < (rate + 1) * p,
{
    lemma2_to64();
    assert(k == 10 || k == 11 || k == 12 || k == 13 || k == 14 || k == 15 || k == 16 || k == 17 || k
        == 18 || k == 19);
}

/// The memory depths go up by one, two and five in each power of ten, from a thousand on.
pub proof fn law_depths_go_up_by_one_two_five(k: nat)
    requires
        k < 13,
    ensures
        DEFAULT_MEMORY_DEPTHS@.len() == 13,
        k % 3 == 0 && k >= 3 ==> DEFAULT_MEMORY_DEPTHS@[k as int] == 10 * DEFAULT_MEMORY_DEPTHS@[k - 3],
        k % 3 == 1 ==> DEFAULT_MEMORY_DEPTHS@[k as int] == 2 * DEFAULT_MEMORY_DEPTHS@[k - 1],
        k % 3 == 2 ==> DEFAULT_MEMORY_DEPTHS@[k as int] == 5 * DEFAULT_MEMORY_DEPTHS@[k - 2],
        DEFAULT_MEMORY_DEPTHS@[0] == 1000,
{
    assert(k == 0 || k == 1 || k == 2 || k == 3 || k == 4 || k == 5 || k == 6 || k == 7 || k == 8 || k
        == 9 || k == 10 || k == 11 || k == 12);
}

/// The interval of a scope is a second in femtoseconds, divided by the rate at which it streams, or
/// by the rate that is set before it has ever streamed.
pub proof fn law_interval_of_a_scope(acquisition: AcquisitionState)
    ensures
        ({
            let rate = if acquisition.actual_sample_rate > 0 {
                acquisition.actual_sample_rate as int
            } else {
                acquisition.sample_rate as int
            };
            let t = sample_interval(acquisition);
            if rate == 0 {
                t == 0
            } else {
                0 <= t && t * rate <= 1_000_000_000_000_000 < (t + 1) * rate
            }
        }),
{
    let rate = if acquisition.actual_sample_rate > 0 {
        acquisition.actual_sample_rate
    } else {
        acquisition.sample_rate
    };
    if rate > 0 {
        lemma_second_divided(rate);
    }
}

/// So many times a quotient fits, and no more.
pub proof fn lemma_second_divided(rate: u32)
    requires
        rate > 0,
    ensures
        ({
            let t = 1_000_000_000_000_000int / rate as int;
            0 <= t && t * rate <= 1_000_000_000_000_000 < (t + 1) * rate
        }),
{
    let t = 1_000_000_000_000_000int / rate as int;
    lemma_fundamental_div_mod(1_000_000_000_000_000, rate as int);
    lemma_mod_bound(1_000_000_000_000_000, rate as int);
    lemma_div_pos_is_pos(1_000_000_000_000_000, rate as int);
    assert((t + 1) * rate == t * rate + rate) by (nonlinear_arith);
    assert(t * rate == rate * t) by (nonlinear_arith);
}

/// The number in the label of a channel: the code of the character that far behind `A`, in 32 bits,
/// is taken to one byte and counted from 64 on; where there is no such character, it is one more than
/// the index. So the first channels are counted from one.
pub proof fn law_label_numbers(index: usize, code: int)
    requires
        code == 65 + index as int % 0x1_0000_0000,
    ensures
        index < 191 ==> label_number(index) == index + 1,
        code <= 0xd7ff || 0xe000 <= code <= 0x10_ffff ==> (code % 256 >= 65 ==> label_number(index)
            == code % 256 - 64),
        0xd800 <= code <= 0xdfff || code > 0x10_ffff ==> label_number(index) == index + 1,
        label_code(index) == code,
        is_char_code(code) == (code <= 0xd7ff || 0xe000 <= code <= 0x10_ffff),
{
}

/// The settings that everything starts from, part by part.
pub proof fn law_initial_settings(channel: ChannelState, digital: DigitalChannelState, awg: Awg)
    requires
        channel == ChannelState::initial(),
        digital == DigitalChannelState::initial(),
        awg == Awg::initial(),
    ensures
        !channel.enabled && channel.coupling == Coupling::DC && channel.range == InputRange::V2,
        channel.offset.bits == 0 && channel.bandwidth_limit_mhz is None,
        digital.threshold_mv.bits == 0 && digital.hysteresis_mv.bits == 0,
        !awg.enabled && awg.shape == "SINE"@ && awg.frequency_hz.bits == 0x408f_4000_0000_0000,
        awg.duty_cycle.bits == 0x4248_0000 && awg.range_vpp.bits == 0x3f80_0000,
        awg.offset_v.bits == 0,
{
}

/// A state is in order exactly if there are as many settings of channels as channels, rate and depth
/// are in the lists, and the resolution is from 8 to 16 bits.
pub proof fn law_states_in_order(state: AppState)
    ensures
        state.well_formed() == (state.channels@.len() == state.analog_channels@.len() && (exists|
            i: int,
        |
            0 <= i < DEFAULT_SAMPLE_RATES@.len() && #[trigger] DEFAULT_SAMPLE_RATES@[i]
                == state.acquisition.sample_rate) && (exists|i: int|
            0 <= i < DEFAULT_MEMORY_DEPTHS@.len() && #[trigger] DEFAULT_MEMORY_DEPTHS@[i]
                == state.acquisition.sample_depth) && state.adc_bits >= 8 && state.adc_bits <= 16),
{
}

/// The defaults of a new scope: nothing enabled, direct current and two volts on each channel, the
/// highest rate and the middle depth, and a sine of 1000 Hz, 50 percent and one volt.
pub proof fn law_defaults(
    metadata: DeviceMetadata,
    max_adc: i16,
    channel_ids: Seq<u64>,
    index: int,
    key: Seq<char>,
)
    ensures
        ({
            let scope = initial_scope(metadata, max_adc, channel_ids);
            let channel = scope.channels[index];
            let acquisition = scope.acquisition;
            &&& scope.identity == "pico-scopehal-rs,"@ + metadata.variant@ + ","@ + metadata.serial@
                + ",0.1.0"@
            &&& scope.metadata == metadata && scope.max_adc == max_adc
            &&& scope.channel_ids == channel_ids && scope.channels.len() == channel_ids.len()
            &&& scope.rates == DEFAULT_SAMPLE_RATES@ && scope.depths == DEFAULT_MEMORY_DEPTHS@
            &&& 0 <= index < channel_ids.len() ==> {
                &&& !channel.enabled && channel.coupling == Coupling::DC
                &&& channel.range == InputRange::V2 && channel.offset.bits == 0
                &&& channel.bandwidth_limit_mhz is None
            }
            &&& acquisition.sample_rate == 1_000_000_000 && acquisition.sample_depth == 100_000
            &&& acquisition.trigger_source == 0 && acquisition.trigger_level.bits == 0
            &&& acquisition.trigger_delay_fs == 0 && acquisition.trigger_edge == TriggerEdge::Rising
            &&& !acquisition.armed && !acquisition.one_shot && acquisition.actual_sample_rate == 0
            &&& !scope.awg.enabled && scope.awg.shape == "SINE"@
            &&& scope.awg.frequency_hz.bits == 0x408f_4000_0000_0000
            &&& scope.awg.duty_cycle.bits == 0x4248_0000 && scope.awg.range_vpp.bits == 0x3f80_0000
            &&& scope.awg.offset_v.bits == 0
            &&& scope.adc_bits == 8 && scope.last_sequence == 0
            &&& !scope.digital.dom().contains(key)
        }),
{
    lemma_identity(metadata);
}

/// The identity in one piece.
proof fn lemma_identity(metadata: DeviceMetadata)
    ensures
        identity(metadata) == "pico-scopehal-rs,"@ + metadata.variant@ + ","@ + metadata.serial@
            + ",0.1.0"@,
{
    reveal_strlit("pico-scopehal-rs");
    reveal_strlit("pico-scopehal-rs,");
    reveal_strlit(",");
    reveal_strlit("0.1.0");
    reveal_strlit(",0.1.0");
    assert("pico-scopehal-rs,"@ == "pico-scopehal-rs"@ + ","@);
    assert(",0.1.0"@ == ","@ + "0.1.0"@);
    assert(identity(metadata) == "pico-scopehal-rs,"@ + metadata.variant@ + ","@ + metadata.serial@
        + ",0.1.0"@);
}

/// A setting that a scope may refuse is taken over and changes the scope so, or is refused for that
/// very reason and changes nothing.
pub proof fn law_taken_over_or_refused(
    result: Result<(), ScpiError>,
    reason: Option<Refusal>,
    before: Scope,
    applied: Scope,
    after: Scope,
)
    requires
        taken_over(result, reason, before, applied, after),
    ensures
        result is Ok == reason is None,
        result is Ok ==> after == applied,
        result matches Err(error) ==> reason == Some(error@) && after == before,
{
}

/// A text becomes a reply, and none becomes none.
pub proof fn law_optional_replies(value: Option<String>)
    ensures
        match value {
            Some(text) => CommandResult::from_spec(value) == CommandResult::Reply(text),
            None => CommandResult::from_spec(value) == CommandResult::NoReply,
        },
{
}

} // verus!
