use pico_common::PicoRange;
use pico_scopehal::error::{Refusal, ScpiError};
use pico_scopehal::floating::{Double, Single};
use pico_scopehal::hardware::{Coupling, InputRange};
use pico_scopehal::model::{Scope, Setting};
use pico_scopehal::scpi::{finish_start, DeviceAction, FloatArg, FloatValue};
use pico_scopehal::{
    parse_command, process_command, AwgState, ChannelState, CommandResult, DigitalChannelState,
    ParsedCommand, ScpiState, TriggerEdge, FS_PER_SECOND,
};
use std::collections::HashMap;

const TEST_RANGES: &[(PicoRange, InputRange)] = &[
    (PicoRange::X1_PROBE_20MV, InputRange::Mv20),
    (PicoRange::X1_PROBE_50MV, InputRange::Mv50),
    (PicoRange::X1_PROBE_100MV, InputRange::Mv100),
    (PicoRange::X1_PROBE_200MV, InputRange::Mv200),
    (PicoRange::X1_PROBE_500MV, InputRange::Mv500),
    (PicoRange::X1_PROBE_1V, InputRange::V1),
    (PicoRange::X1_PROBE_2V, InputRange::V2),
    (PicoRange::X1_PROBE_5V, InputRange::V5),
    (PicoRange::X1_PROBE_10V, InputRange::V10),
    (PicoRange::X1_PROBE_20V, InputRange::V20),
];

struct TestState {
    idn: String,
    channels: usize,
    allowed_rates: Vec<u32>,
    allowed_depths: Vec<usize>,
    analog: Vec<ChannelState>,
    awg: AwgState,
    digital: HashMap<String, DigitalChannelState>,
    sample_rate: u32,
    sample_depth: usize,
    adc_bits: u32,
    trigger_source: usize,
    trigger_level: Double,
    trigger_delay: i64,
    trigger_edge: TriggerEdge,
    armed: bool,
    last_sequence: u32,
}

impl TestState {
    fn new() -> Self {
        let channels = 2;
        Self {
            idn: "pico_scopehal,MODEL123,SN123,0.1.0".into(),
            channels,
            allowed_rates: vec![1_000_000, 2_000_000],
            allowed_depths: vec![1_000, 2_000],
            analog: vec![ChannelState::default(); channels],
            awg: AwgState::default(),
            digital: HashMap::new(),
            sample_rate: 1_000_000,
            sample_depth: 1_000,
            adc_bits: 8,
            trigger_source: 0,
            trigger_level: Double { bits: 0.0f64.to_bits() },
            trigger_delay: 0,
            trigger_edge: TriggerEdge::Rising,
            armed: false,
            last_sequence: 7,
        }
    }

    fn rates_response(&self) -> String {
        self.allowed_rates
            .iter()
            .map(|rate| {
                if *rate == 0 {
                    0
                } else {
                    FS_PER_SECOND / *rate as i64
                }
            })
            .map(|interval| interval.to_string())
            .collect::<Vec<_>>()
            .join(",")
    }

    fn depths_response(&self) -> String {
        self.allowed_depths
            .iter()
            .map(|d| d.to_string())
            .collect::<Vec<_>>()
            .join(",")
    }

    fn normalize_key(key: &str) -> String {
        key.trim().to_ascii_uppercase()
    }

    fn sync(&self, index: usize) -> DeviceAction {
        let channel = index as u64;
        let state = self.analog[index];
        if state.enabled {
            DeviceAction::EnableChannel {
                channel,
                range: state.range,
                coupling: state.coupling,
            }
        } else {
            DeviceAction::DisableChannel { channel }
        }
    }

    fn select_range(volts: Double) -> InputRange {
        let desired = f64::from_bits(volts.bits).abs();
        for (range, picked) in TEST_RANGES {
            if range.get_max_scaled_value() >= desired {
                return *picked;
            }
        }
        InputRange::V20
    }
}

/// The first four functions are ghost code, which is never run.
impl ScpiState for TestState {
    fn scope(&self) -> Scope {
        unreachable!()
    }

    fn well_formed(&self) -> bool {
        unreachable!()
    }

    fn applied(_: Scope, _: Setting) -> Scope {
        unreachable!()
    }

    fn refusal(_: Scope, _: Setting) -> Option<Refusal> {
        unreachable!()
    }

    fn idn(&self) -> String {
        self.idn.clone()
    }

    fn channel_count(&self) -> usize {
        self.channels
    }

    fn last_sequence(&self) -> u32 {
        self.last_sequence
    }

    fn allowed_sample_rates(&self) -> &[u32] {
        &self.allowed_rates
    }

    fn sample_rate(&self) -> u32 {
        self.sample_rate
    }

    fn set_sample_rate(&mut self, rate: u32) -> Result<(), ScpiError> {
        if !self.allowed_rates.contains(&rate) {
            return Err(ScpiError::UnsupportedSampleRate(rate));
        }
        self.sample_rate = rate;
        Ok(())
    }

    fn allowed_sample_depths(&self) -> &[usize] {
        &self.allowed_depths
    }

    fn sample_depth(&self) -> usize {
        self.sample_depth
    }

    fn set_sample_depth(&mut self, depth: usize) -> Result<(), ScpiError> {
        if !self.allowed_depths.contains(&depth) {
            return Err(ScpiError::UnsupportedSampleDepth(depth));
        }
        self.sample_depth = depth;
        Ok(())
    }

    fn adc_bits(&self) -> u32 {
        self.adc_bits
    }

    fn set_adc_bits(&mut self, bits: u32) -> Result<(), ScpiError> {
        if !(8..=16).contains(&bits) {
            return Err(ScpiError::UnsupportedResolution(bits));
        }
        self.adc_bits = bits;
        Ok(())
    }

    fn start_streaming(&self, one_shot: bool) -> DeviceAction {
        DeviceAction::Start { rate: self.sample_rate, one_shot }
    }

    fn streaming_started(&mut self, _one_shot: bool, _actual: u32) {
        self.armed = true;
    }

    fn stop_streaming(&mut self) -> DeviceAction {
        self.armed = false;
        DeviceAction::Stop
    }

    fn force_trigger(&self) -> DeviceAction {
        self.start_streaming(true)
    }

    fn is_armed(&self) -> bool {
        self.armed
    }

    fn trigger_source(&self) -> usize {
        self.trigger_source
    }

    fn set_trigger_source(&mut self, index: usize) {
        self.trigger_source = index;
    }

    fn trigger_level(&self) -> Double {
        self.trigger_level
    }

    fn set_trigger_level(&mut self, level: Double) {
        self.trigger_level = level;
    }

    fn trigger_delay(&self) -> i64 {
        self.trigger_delay
    }

    fn set_trigger_delay(&mut self, delay: i64) {
        self.trigger_delay = delay;
    }

    fn trigger_edge(&self) -> TriggerEdge {
        self.trigger_edge
    }

    fn set_trigger_edge(&mut self, edge: TriggerEdge) {
        self.trigger_edge = edge;
    }

    fn channel_state(&self, index: usize) -> ChannelState {
        self.analog[index]
    }

    fn set_channel_enabled(&mut self, index: usize, enabled: bool) -> DeviceAction {
        self.analog[index].enabled = enabled;
        self.sync(index)
    }

    fn set_channel_coupling(&mut self, index: usize, coupling: Coupling) -> DeviceAction {
        self.analog[index].coupling = coupling;
        self.sync(index)
    }

    fn set_channel_range(&mut self, index: usize, volts: Double) -> DeviceAction {
        self.analog[index].range = Self::select_range(volts);
        self.sync(index)
    }

    fn set_channel_offset(&mut self, index: usize, offset: Single) {
        if let Some(state) = self.analog.get_mut(index) {
            state.offset = offset;
        }
    }

    fn channel_bandwidth_limit(&self, index: usize) -> Option<u32> {
        self.analog[index].bandwidth_limit_mhz
    }

    fn set_channel_bandwidth_limit(&mut self, index: usize, mhz: Option<u32>) {
        if let Some(state) = self.analog.get_mut(index) {
            state.bandwidth_limit_mhz = mhz;
        }
    }

    fn awg_state(&self) -> AwgState {
        self.awg.snapshot()
    }

    fn set_awg_enabled(&mut self, enabled: bool) {
        self.awg.enabled = enabled;
    }

    fn set_awg_frequency(&mut self, hz: Double) {
        self.awg.frequency_hz = hz;
    }

    fn set_awg_duty(&mut self, duty: Single) {
        self.awg.duty_cycle = duty;
    }

    fn set_awg_range(&mut self, range_vpp: Single) {
        self.awg.range_vpp = range_vpp;
    }

    fn set_awg_offset(&mut self, offset_v: Single) {
        self.awg.offset_v = offset_v;
    }

    fn set_awg_shape(&mut self, shape: &str) {
        self.awg.shape = shape.to_ascii_uppercase();
    }

    fn digital_hysteresis(&self, identifier: &str) -> Single {
        let key = Self::normalize_key(identifier);
        self.digital
            .get(&key)
            .map(|state| state.hysteresis_mv)
            .unwrap_or(Single { bits: 0 })
    }

    fn set_digital_hysteresis(&mut self, identifier: &str, hysteresis: Single) {
        let key = Self::normalize_key(identifier);
        let entry = self.digital.entry(key).or_default();
        entry.hysteresis_mv = hysteresis;
    }

    fn digital_threshold(&self, identifier: &str) -> Single {
        let key = Self::normalize_key(identifier);
        self.digital
            .get(&key)
            .map(|state| state.threshold_mv)
            .unwrap_or(Single { bits: 0 })
    }

    fn set_digital_threshold(&mut self, identifier: &str, threshold: Single) {
        let key = Self::normalize_key(identifier);
        let entry = self.digital.entry(key).or_default();
        entry.threshold_mv = threshold;
    }
}

fn float_arg(command: &ParsedCommand<'_>) -> Option<FloatArg> {
    let text = command.args.first()?;
    let double: f64 = text.parse().ok()?;
    let single: f32 = text.parse().ok()?;
    Some(FloatArg {
        double: Double { bits: double.to_bits() },
        single: Single { bits: single.to_bits() },
    })
}

/// Carries a command through, with a device that always starts at the rate asked for, and
/// numbers written out.
fn carry_out(state: &mut TestState, command: &ParsedCommand<'_>) -> Result<CommandResult, ScpiError> {
    match process_command(state, command, float_arg(command))? {
        CommandResult::Number(FloatValue::Double(value), decimals) => Ok(CommandResult::Reply(
            format!("{:.*}", decimals, f64::from_bits(value.bits)),
        )),
        CommandResult::Number(FloatValue::Single(value), decimals) => Ok(CommandResult::Reply(
            format!("{:.*}", decimals, f32::from_bits(value.bits)),
        )),
        CommandResult::Device(DeviceAction::Start { rate, one_shot }) => {
            finish_start(state, rate, one_shot, Some(rate))
        }
        CommandResult::Device(_) => Ok(CommandResult::NoReply),
        other => Ok(other),
    }
}

enum Expectation {
    Reply(String),
    NoReply,
    Exit,
}

impl Expectation {
    fn reply<S: Into<String>>(value: S) -> Self {
        Expectation::Reply(value.into())
    }
}

#[test]
fn scpi_command_set_matches_client_contract() {
    let mut state = TestState::new();
    let idn = state.idn.clone();
    let channels = state.channels.to_string();
    let seq = state.last_sequence.to_string();
    let rates = state.rates_response();
    let depths = state.depths_response();

    let scenarios = vec![
        ("*IDN?", Expectation::reply(idn)),
        ("CHANS?", Expectation::reply(channels)),
        ("SEQNUM?", Expectation::reply(seq)),
        ("RATES?", Expectation::reply(rates)),
        ("RATE 2000000", Expectation::NoReply),
        ("RATE?", Expectation::reply("2000000")),
        ("DEPTHS?", Expectation::reply(depths)),
        ("DEPTH 2000", Expectation::NoReply),
        ("DEPTH?", Expectation::reply("2000")),
        ("BITS?", Expectation::reply("8")),
        ("BITS 12", Expectation::NoReply),
        ("BITS?", Expectation::reply("12")),
        ("C1:ON", Expectation::NoReply),
        ("C1:STATE?", Expectation::reply("1")),
        ("C1:COUP AC1M", Expectation::NoReply),
        ("C1:COUP?", Expectation::reply("AC")),
        ("C1:RANGE 5", Expectation::NoReply),
        ("C1:RANGE?", Expectation::reply("5")),
        ("C1:OFFS 0.25", Expectation::NoReply),
        ("C1:OFFS?", Expectation::reply("0.250000")),
        ("C1:BWLIM 20", Expectation::NoReply),
        ("C1:BWLIM?", Expectation::reply("20")),
        ("1D:PRESENT?", Expectation::reply("0")),
        ("1D0:HYS 0.3", Expectation::NoReply),
        ("1D0:HYS?", Expectation::reply("0.300")),
        ("1D0:THRESH 0.4", Expectation::NoReply),
        ("1D0:THRESH?", Expectation::reply("0.400")),
        ("TRIG:SOU C2", Expectation::NoReply),
        ("TRIG:SOU?", Expectation::reply("C2")),
        ("TRIG:LEV 0.35", Expectation::NoReply),
        ("TRIG:LEV?", Expectation::reply("0.350000")),
        ("TRIG:DELAY 42", Expectation::NoReply),
        ("TRIG:DELAY?", Expectation::reply("42")),
        ("TRIG:EDGE:DIR ANY", Expectation::NoReply),
        ("TRIG:EDGE:DIR?", Expectation::reply("EITHER")),
        ("LEV 0.1", Expectation::NoReply),
        ("TRIG:LEV?", Expectation::reply("0.100000")),
        ("DELAY 84", Expectation::NoReply),
        ("TRIG:DELAY?", Expectation::reply("84")),
        ("EDGE:DIR FALLING", Expectation::NoReply),
        ("TRIG:EDGE:DIR?", Expectation::reply("FALLING")),
        ("AWG:RANGE 2.5", Expectation::NoReply),
        ("AWG:RANGE?", Expectation::reply("2.500")),
        ("AWG:FREQ 1000", Expectation::NoReply),
        ("AWG:FREQ?", Expectation::reply("1000.000000")),
        ("AWG:DUTY 45", Expectation::NoReply),
        ("AWG:DUTY?", Expectation::reply("45.000")),
        ("AWG:OFF 0.1", Expectation::NoReply),
        ("AWG:OFF?", Expectation::reply("0.100000")),
        ("AWG:SHAPE WHITENOISE", Expectation::NoReply),
        ("AWG:SHAPE?", Expectation::reply("WHITENOISE")),
        ("AWG:START", Expectation::NoReply),
        ("AWG:START?", Expectation::reply("1")),
        ("AWG:STOP", Expectation::NoReply),
        ("AWG:STOP?", Expectation::reply("0")),
        ("START", Expectation::NoReply),
        ("ARMED?", Expectation::reply("1")),
        ("STOP", Expectation::NoReply),
        ("ARMED?", Expectation::reply("0")),
        ("SINGLE", Expectation::NoReply),
        ("ARMED?", Expectation::reply("1")),
        ("FORCE", Expectation::NoReply),
        ("STOP", Expectation::NoReply),
        ("ARMED?", Expectation::reply("0")),
        ("EXIT", Expectation::Exit),
    ];

    for (raw, expected) in scenarios {
        let parsed = parse_command(raw).unwrap_or_else(|| panic!("failed to parse {raw}"));
        let result = carry_out(&mut state, &parsed)
            .unwrap_or_else(|err| panic!("processing {raw}: {}", err.message()));
        match expected {
            Expectation::Reply(expected_value) => match result {
                CommandResult::Reply(actual) => {
                    assert_eq!(expected_value, actual, "command {raw}")
                }
                other => panic!("command {raw} expected reply {expected_value}, got {other:?}"),
            },
            Expectation::NoReply => match result {
                CommandResult::NoReply => {}
                other => panic!("command {raw} expected no reply, got {other:?}"),
            },
            Expectation::Exit => assert!(
                matches!(result, CommandResult::Exit),
                "command {raw} expected exit"
            ),
        }
    }
}
