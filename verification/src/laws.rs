//! What holds of the commands together: settings read back, refusals and replies change nothing,
//! and every command keeps the scope sound.

use vstd::prelude::*;
use crate::floating::{lemma_order, Double, Single};
use crate::model::{
    awg_response, channel_response, digital_key, digital_response, is_waveform, plain_response,
    response, start_response, trigger_response, Answer, Request, Scope, Setting,
};
use crate::scpi::{FloatArg, ScpiState};
use crate::state::{
    initial_scope, AppState, Awg, DeviceMetadata, DEFAULT_MEMORY_DEPTHS, DEFAULT_SAMPLE_RATES,
};

verus! {

// ---------------------------------------------------------------------------
// What commands leave alone

/// What holds of the settings of a scope at all times: the device has as many channels as there
/// are settings for, the trigger source is one of them, rate and depth are among those that can
/// be asked for, the resolution is from 8 to 16 bits, and the function generator is sound.
pub open spec fn sound(scope: Scope) -> bool {
    &&& scope.channel_ids.len() == scope.channels.len()
    &&& scope.acquisition.trigger_source < scope.channels.len()
    &&& scope.rates.contains(scope.acquisition.sample_rate)
    &&& scope.depths.contains(scope.acquisition.sample_depth)
    &&& 8 <= scope.adc_bits <= 16
    &&& sound_generator(scope.awg)
}

/// What holds of the settings of the function generator at all times: a known waveform, a
/// frequency and a voltage that are not negative, and a duty cycle of at most 100 percent if it
/// is a number.
#[verifier::opaque]
pub open spec fn sound_generator(awg: Awg) -> bool {
    &&& is_waveform(awg.shape)
    &&& (Double { bits: 0 }).le(awg.frequency_hz)
    &&& (Single { bits: 0 }).le(awg.range_vpp)
    &&& awg.duty_cycle.is_nan() || ((Single { bits: 0 }).le(awg.duty_cycle) && awg.duty_cycle.le(
        Single { bits: 0x42c8_0000 },
    ))
}

/// No setting changes what the scope is.
spec fn same_scope(scope: Scope, after: Scope) -> bool {
    &&& after.identity == scope.identity
    &&& after.metadata == scope.metadata
    &&& after.max_adc == scope.max_adc
    &&& after.channel_ids == scope.channel_ids
    &&& after.channels.len() == scope.channels.len()
    &&& after.rates == scope.rates
    &&& after.depths == scope.depths
    &&& after.last_sequence == scope.last_sequence
}

/// Whether a command may hand this setting to the scope: one that the scope does not refuse, a
/// trigger source that there is, or a waveform that is known.
pub open spec fn acceptable<S: ScpiState>(scope: Scope, setting: Setting) -> bool {
    match setting {
        Setting::SampleRate(_) | Setting::SampleDepth(_) | Setting::AdcBits(_) => S::refusal(
            scope,
            setting,
        ) is None,
        Setting::TriggerSource(index) => index < scope.channels.len(),
        Setting::AwgShape(shape) => is_waveform(shape),
        _ => true,
    }
}

/// Whether the device is to start.
pub open spec fn is_start(answer: Answer) -> bool {
    answer matches Answer::Device(action) && action is Start
}

/// Whether a command leaves alone what it may not touch: it changes the scope by one setting at
/// most, and not at all when it is refused or answered.
spec fn orderly<S: ScpiState>(scope: Scope, is_query: bool, outcome: (Answer, Scope)) -> bool {
    let (answer, after) = outcome;
    &&& answer is Refused || answer is Reply || answer is Number || answer is Exit ==> after
        == scope
    &&& answer is Reply || answer is Number ==> is_query
    &&& answer is NoReply ==> !is_query
    &&& is_start(answer) ==> after == scope
    &&& after == scope || exists|setting: Setting|
        after == #[trigger] S::applied(scope, setting) && acceptable::<S>(scope, setting)
}

proof fn lemma_trigger_orderly<S: ScpiState>(
    scope: Scope,
    request: Request,
    value: Option<FloatArg>,
)
    requires
        scope.channels.len() <= usize::MAX,
    ensures
        orderly::<S>(scope, request.is_query, trigger_response::<S>(scope, request, value)),
{
}

proof fn lemma_channel_orderly<S: ScpiState>(
    scope: Scope,
    subject: Seq<char>,
    request: Request,
    value: Option<FloatArg>,
)
    ensures
        orderly::<S>(
            scope,
            request.is_query,
            channel_response::<S>(scope, subject, request, value),
        ),
{
}

proof fn lemma_awg_orderly<S: ScpiState>(scope: Scope, request: Request, value: Option<FloatArg>)
    ensures
        orderly::<S>(scope, request.is_query, awg_response::<S>(scope, request, value)),
{
}

proof fn lemma_digital_orderly<S: ScpiState>(
    scope: Scope,
    key: Seq<char>,
    request: Request,
    value: Option<FloatArg>,
)
    ensures
        orderly::<S>(scope, request.is_query, digital_response::<S>(scope, key, request, value)),
{
}

proof fn lemma_plain_orderly<S: ScpiState>(scope: Scope, request: Request, value: Option<FloatArg>)
    requires
        scope.channels.len() <= usize::MAX,
    ensures
        orderly::<S>(scope, request.is_query, plain_response::<S>(scope, request, value)),
{
    lemma_trigger_orderly::<S>(scope, request, value);
    lemma_trigger_orderly::<S>(scope, request.prefixed("TRIG"@), value);
}

proof fn lemma_orderly<S: ScpiState>(scope: Scope, request: Request, value: Option<FloatArg>)
    requires
        scope.channels.len() <= usize::MAX,
    ensures
        orderly::<S>(scope, request.is_query, response::<S>(scope, request, value)),
{
    match request.subject {
        None => lemma_plain_orderly::<S>(scope, request, value),
        Some(subject) => {
            lemma_channel_orderly::<S>(scope, subject, request, value);
            lemma_awg_orderly::<S>(scope, request, value);
            if digital_key(subject) is Some {
                lemma_digital_orderly::<S>(scope, digital_key(subject)->0, request, value);
            }
            lemma_trigger_orderly::<S>(scope, request.prefixed("TRIG"@), value);
            lemma_plain_orderly::<S>(scope, request.prefixed(subject), value);
        },
    }
}

/// Settings keep the function generator sound.
proof fn lemma_generator_applied(scope: Scope, setting: Setting)
    requires
        acceptable::<AppState>(scope, setting),
        sound_generator(scope.awg),
    ensures
        sound_generator(AppState::applied(scope, setting).awg),
{
    reveal(sound_generator);
    match setting {
        Setting::AwgFrequency(hz) => {
            lemma_order(false, 0, hz.is_negative(), hz.magnitude(), 52);
        },
        Setting::AwgRange(range) => {
            lemma_order(false, 0, range.is_negative(), range.magnitude(), 23);
        },
        Setting::AwgDuty(duty) => {
            lemma_order(false, 0, false, 0x42c8_0000, 23);
        },
        _ => {},
    }
}

/// Settings keep a scope sound, and the scope that it is.
proof fn lemma_applied(scope: Scope, setting: Setting)
    requires
        acceptable::<AppState>(scope, setting),
    ensures
        same_scope(scope, AppState::applied(scope, setting)),
        sound(scope) ==> sound(AppState::applied(scope, setting)),
{
    if sound(scope) {
        lemma_generator_applied(scope, setting);
    }
}

/// A command that is refused changes nothing.
pub proof fn law_refusal_changes_nothing<S: ScpiState>(
    scope: Scope,
    request: Request,
    value: Option<FloatArg>,
)
    requires
        scope.channels.len() <= usize::MAX,
    ensures
        response::<S>(scope, request, value).0 is Refused ==> response::<S>(
            scope,
            request,
            value,
        ).1 == scope,
{
    lemma_orderly::<S>(scope, request, value);
}

/// A command that is answered with a text or a number changes nothing.
pub proof fn law_reply_changes_nothing<S: ScpiState>(
    scope: Scope,
    request: Request,
    value: Option<FloatArg>,
)
    requires
        scope.channels.len() <= usize::MAX,
    ensures
        response::<S>(scope, request, value).0 is Reply || response::<S>(
            scope,
            request,
            value,
        ).0 is Number ==> response::<S>(scope, request, value).1 == scope,
{
    lemma_orderly::<S>(scope, request, value);
}

/// A command hands the scope one setting at most, and one that the scope can take; where it hands
/// it none, nothing changes.
pub proof fn law_command_hands_over_one_setting_at_most<S: ScpiState>(
    scope: Scope,
    request: Request,
    value: Option<FloatArg>,
)
    requires
        scope.channels.len() <= usize::MAX,
    ensures
        ({
            let after = response::<S>(scope, request, value).1;
            after == scope || exists|setting: Setting|
                after == #[trigger] S::applied(scope, setting) && acceptable::<S>(scope, setting)
        }),
{
    lemma_orderly::<S>(scope, request, value);
}

/// A command that has the device start changes nothing before its outcome is known.
pub proof fn law_start_waits_for_the_device<S: ScpiState>(
    scope: Scope,
    request: Request,
    value: Option<FloatArg>,
)
    requires
        scope.channels.len() <= usize::MAX,
    ensures
        is_start(response::<S>(scope, request, value).0) ==> response::<S>(
            scope,
            request,
            value,
        ).1 == scope,
{
    lemma_orderly::<S>(scope, request, value);
}

/// Only queries are answered with a text or a number.
pub proof fn law_only_queries_are_answered<S: ScpiState>(
    scope: Scope,
    request: Request,
    value: Option<FloatArg>,
)
    requires
        scope.channels.len() <= usize::MAX,
    ensures
        response::<S>(scope, request, value).0 is Reply || response::<S>(
            scope,
            request,
            value,
        ).0 is Number ==> request.is_query,
{
    lemma_orderly::<S>(scope, request, value);
}

/// A query changes nothing, unless the device is to do something.
pub proof fn law_query_changes_nothing<S: ScpiState>(
    scope: Scope,
    request: Request,
    value: Option<FloatArg>,
)
    requires
        scope.channels.len() <= usize::MAX,
        request.is_query,
    ensures
        response::<S>(scope, request, value).0 is Device || response::<S>(
            scope,
            request,
            value,
        ).1 == scope,
{
    lemma_orderly::<S>(scope, request, value);
}

/// No command changes what the scope is: its identity and what the device tells about itself, its
/// channels, what can be set, and the number of the last waveform.
pub proof fn law_scope_stays_the_same_scope(
    scope: Scope,
    request: Request,
    value: Option<FloatArg>,
)
    requires
        scope.channels.len() <= usize::MAX,
    ensures
        ({
            let after = response::<AppState>(scope, request, value).1;
            &&& after.identity == scope.identity
            &&& after.metadata == scope.metadata
            &&& after.max_adc == scope.max_adc
            &&& after.channel_ids == scope.channel_ids
            &&& after.channels.len() == scope.channels.len()
            &&& after.rates == scope.rates
            &&& after.depths == scope.depths
            &&& after.last_sequence == scope.last_sequence
        }),
{
    lemma_response_keeps(scope, request, value);
}

/// A command keeps what settings keep.
proof fn lemma_response_keeps(scope: Scope, request: Request, value: Option<FloatArg>)
    requires
        scope.channels.len() <= usize::MAX,
    ensures
        same_scope(scope, response::<AppState>(scope, request, value).1),
        sound(scope) ==> sound(response::<AppState>(scope, request, value).1),
{
    lemma_orderly::<AppState>(scope, request, value);
    let after = response::<AppState>(scope, request, value).1;
    if after != scope {
        let setting = choose|setting: Setting|
            after == #[trigger] AppState::applied(scope, setting) && acceptable::<AppState>(
                scope,
                setting,
            );
        lemma_applied(scope, setting);
    }
}

/// Every command keeps the scope sound.
pub proof fn law_commands_keep_scope_sound(
    scope: Scope,
    request: Request,
    value: Option<FloatArg>,
)
    requires
        scope.channels.len() <= usize::MAX,
        sound(scope),
    ensures
        sound(response::<AppState>(scope, request, value).1),
{
    lemma_response_keeps(scope, request, value);
}

/// The outcome of a start keeps the scope sound.
pub proof fn law_start_keeps_scope_sound(
    scope: Scope,
    rate: u32,
    one_shot: bool,
    actual: Option<u32>,
)
    requires
        sound(scope),
    ensures
        sound(start_response::<AppState>(scope, rate, one_shot, actual).1),
{
}

/// A new scope with at least one channel is sound.
pub proof fn law_new_scope_is_sound(
    metadata: DeviceMetadata,
    max_adc: i16,
    channel_ids: Seq<u64>,
)
    requires
        channel_ids.len() > 0,
    ensures
        sound(initial_scope(metadata, max_adc, channel_ids)),
{
    reveal(sound_generator);
    lemma_order(false, 0, false, 0x408f_4000_0000_0000, 52);
    lemma_order(false, 0, false, 0x3f80_0000, 23);
    lemma_order(false, 0, false, 0x4248_0000, 23);
    lemma_order(false, 0x4248_0000, false, 0x42c8_0000, 23);
    assert(DEFAULT_SAMPLE_RATES@[0] == 1_000_000_000);
    assert(DEFAULT_MEMORY_DEPTHS@[6] == 100_000);
}

} // verus!
