//! The settings and the progress of one scope.

use vstd::prelude::*;
use vstd::hash_map::StringHashMap;
use crate::error::{Refusal, ScpiError};
use crate::floating::{lemma_order, Double, Single};
use crate::hardware::{covering, pick_range, Coupling, InputRange};
use crate::model::{normalized, Scope, Setting};
use crate::number::{decimal, to_decimal};
use crate::scpi::{DeviceAction, ScpiState};
use crate::text::{to_uppercase, trim};

verus! {

/// Sample rates that can be asked for, in samples per second.
pub const DEFAULT_SAMPLE_RATES: [u32; 20] = [
    1_000_000_000,
    500_000_000,
    250_000_000,
    125_000_000,
    62_500_000,
    31_250_000,
    15_625_000,
    7_812_500,
    3_906_250,
    1_953_125,
    976_562,
    488_281,
    244_140,
    122_070,
    61_035,
    30_517,
    15_258,
    7_629,
    3_814,
    1_907,
];

/// Memory depths that can be asked for, in samples.
pub const DEFAULT_MEMORY_DEPTHS: [usize; 13] = [
    1_000,
    2_000,
    5_000,
    10_000,
    20_000,
    50_000,
    100_000,
    200_000,
    500_000,
    1_000_000,
    2_000_000,
    5_000_000,
    10_000_000,
];

/// Femtoseconds in a second.
pub const FS_PER_SECOND: i64 = 1_000_000_000_000_000;

/// What the scope tells about itself.
pub struct DeviceMetadata {
    pub serial: String,
    pub variant: String,
    pub usb_version: String,
}

/// The settings of one analog channel.
#[derive(Clone, Copy, Debug, PartialEq, Eq, Structural)]
pub struct ChannelState {
    pub enabled: bool,
    pub coupling: Coupling,
    pub range: InputRange,
    /// Offset in volts.
    pub offset: Single,
    pub bandwidth_limit_mhz: Option<u32>,
}

impl ChannelState {
    /// A channel that is off, coupled for direct current, with a range of two volts.
    pub open spec fn initial() -> ChannelState {
        ChannelState {
            enabled: false,
            coupling: Coupling::DC,
            range: InputRange::V2,
            offset: Single { bits: 0 },
            bandwidth_limit_mhz: None,
        }
    }
}

impl Default for ChannelState {
    fn default() -> (r: ChannelState)
        ensures
            r == ChannelState::initial(),
    {
        ChannelState {
            enabled: false,
            coupling: Coupling::DC,
            range: InputRange::V2,
            offset: Single { bits: 0 },
            bandwidth_limit_mhz: None,
        }
    }
}

/// The settings of the function generator.
#[derive(Debug, PartialEq, Eq)]
pub struct AwgState {
    pub enabled: bool,
    pub frequency_hz: Double,
    /// Duty cycle in percent.
    pub duty_cycle: Single,
    /// Peak-to-peak voltage.
    pub range_vpp: Single,
    /// Offset in volts.
    pub offset_v: Single,
    pub shape: String,
}

/// The settings of the function generator, with the waveform's name as characters.
pub struct Awg {
    pub enabled: bool,
    pub frequency_hz: Double,
    pub duty_cycle: Single,
    pub range_vpp: Single,
    pub offset_v: Single,
    pub shape: Seq<char>,
}

impl View for AwgState {
    type V = Awg;

    open spec fn view(&self) -> Awg {
        Awg {
            enabled: self.enabled,
            frequency_hz: self.frequency_hz,
            duty_cycle: self.duty_cycle,
            range_vpp: self.range_vpp,
            offset_v: self.offset_v,
            shape: self.shape@,
        }
    }
}

impl Awg {
    /// A generator that is off, set to a sine of 1000 Hz and one volt peak to peak.
    pub open spec fn initial() -> Awg {
        Awg {
            enabled: false,
            frequency_hz: Double { bits: 0x408f_4000_0000_0000 },
            duty_cycle: Single { bits: 0x4248_0000 },
            range_vpp: Single { bits: 0x3f80_0000 },
            offset_v: Single { bits: 0 },
            shape: "SINE"@,
        }
    }
}

impl Default for AwgState {
    fn default() -> (r: AwgState)
        ensures
            r@ == Awg::initial(),
    {
        AwgState {
            enabled: false,
            frequency_hz: Double { bits: 0x408f_4000_0000_0000 },
            duty_cycle: Single { bits: 0x4248_0000 },
            range_vpp: Single { bits: 0x3f80_0000 },
            offset_v: Single { bits: 0 },
            shape: String::from_str("SINE"),
        }
    }
}

impl AwgState {
    /// A copy of the settings.
    pub fn snapshot(&self) -> (r: AwgState)
        ensures
            r@ == self@,
    {
        AwgState {
            enabled: self.enabled,
            frequency_hz: self.frequency_hz,
            duty_cycle: self.duty_cycle,
            range_vpp: self.range_vpp,
            offset_v: self.offset_v,
            shape: String::from_str(self.shape.as_str()),
        }
    }
}

/// The settings of one digital channel.
#[derive(Clone, Copy, Debug, PartialEq, Eq, Structural)]
pub struct DigitalChannelState {
    pub threshold_mv: Single,
    pub hysteresis_mv: Single,
}

impl DigitalChannelState {
    pub open spec fn initial() -> DigitalChannelState {
        DigitalChannelState { threshold_mv: Single { bits: 0 }, hysteresis_mv: Single { bits: 0 } }
    }
}

impl Default for DigitalChannelState {
    fn default() -> (r: DigitalChannelState)
        ensures
            r == DigitalChannelState::initial(),
    {
        DigitalChannelState { threshold_mv: Single { bits: 0 }, hysteresis_mv: Single { bits: 0 } }
    }
}

/// The signal edge that triggers.
#[derive(Clone, Copy, Debug, PartialEq, Eq, Structural)]
pub enum TriggerEdge {
    Rising,
    Falling,
    Either,
}

impl TriggerEdge {
    pub open spec fn name(self) -> Seq<char> {
        match self {
            TriggerEdge::Rising => "RISING"@,
            TriggerEdge::Falling => "FALLING"@,
            TriggerEdge::Either => "EITHER"@,
        }
    }

    /// The edge as the client is told.
    pub fn as_str(self) -> (r: &'static str)
        ensures
            r@ == self.name(),
    {
        match self {
            TriggerEdge::Rising => "RISING",
            TriggerEdge::Falling => "FALLING",
            TriggerEdge::Either => "EITHER",
        }
    }
}

/// The settings of the acquisition, and how far it has come.
#[derive(Clone, Copy, Debug, PartialEq, Eq, Structural)]
pub struct AcquisitionState {
    pub sample_rate: u32,
    pub sample_depth: usize,
    pub trigger_source: usize,
    /// Trigger level in volts.
    pub trigger_level: Double,
    pub trigger_delay_fs: i64,
    pub trigger_edge: TriggerEdge,
    pub one_shot: bool,
    pub armed: bool,
    /// The rate at which the device streams; zero before it has ever streamed.
    pub actual_sample_rate: u32,
}

impl AcquisitionState {
    pub open spec fn initial() -> AcquisitionState {
        AcquisitionState {
            sample_rate: 1_000_000_000,
            sample_depth: 100_000,
            trigger_source: 0,
            trigger_level: Double { bits: 0 },
            trigger_delay_fs: 0,
            trigger_edge: TriggerEdge::Rising,
            one_shot: false,
            armed: false,
            actual_sample_rate: 0,
        }
    }
}

impl Default for AcquisitionState {
    fn default() -> (r: AcquisitionState)
        ensures
            r == AcquisitionState::initial(),
    {
        AcquisitionState {
            sample_rate: DEFAULT_SAMPLE_RATES[0],
            sample_depth: DEFAULT_MEMORY_DEPTHS[DEFAULT_MEMORY_DEPTHS.len() / 2],
            trigger_source: 0,
            trigger_level: Double { bits: 0 },
            trigger_delay_fs: 0,
            trigger_edge: TriggerEdge::Rising,
            one_shot: false,
            armed: false,
            actual_sample_rate: 0,
        }
    }
}

/// The name of this server in the instrument's identity.
pub const SERVER_NAME: &'static str = "pico-scopehal-rs";

/// The version of this server in the instrument's identity.
pub const SERVER_VERSION: &'static str = "0.1.0";

/// The state of one scope.
pub struct AppState {
    /// The device's own number of each analog channel.
    pub analog_channels: Vec<u64>,
    pub max_adc: i16,
    pub metadata: DeviceMetadata,
    pub channels: Vec<ChannelState>,
    pub acquisition: AcquisitionState,
    pub awg: AwgState,
    /// The digital channels that were set, by their names in upper case.
    pub digital: StringHashMap<DigitalChannelState>,
    pub adc_bits: u32,
    pub last_sequence: u32,
}

/// The instrument's identity: server, model, serial number and version.
pub open spec fn identity(metadata: DeviceMetadata) -> Seq<char> {
    SERVER_NAME@ + ","@ + metadata.variant@ + ","@ + metadata.serial@ + ","@ + SERVER_VERSION@
}

/// A scope with all settings at their defaults.
pub open spec fn initial_scope(
    metadata: DeviceMetadata,
    max_adc: i16,
    channel_ids: Seq<u64>,
) -> Scope {
    Scope {
        identity: identity(metadata),
        metadata,
        max_adc,
        channel_ids,
        channels: Seq::new(channel_ids.len(), |i: int| ChannelState::initial()),
        rates: DEFAULT_SAMPLE_RATES@,
        depths: DEFAULT_MEMORY_DEPTHS@,
        acquisition: AcquisitionState::initial(),
        awg: Awg::initial(),
        digital: Map::empty(),
        adc_bits: 8,
        last_sequence: 0,
    }
}

/// One channel with new settings.
pub open spec fn with_channel(scope: Scope, index: usize, channel: ChannelState) -> Scope {
    if index < scope.channels.len() {
        Scope { channels: scope.channels.update(index as int, channel), ..scope }
    } else {
        scope
    }
}

/// The next two samples are this many femtoseconds apart; zero where no rate is known.
pub open spec fn sample_interval(acquisition: AcquisitionState) -> int {
    let rate = if acquisition.actual_sample_rate > 0 {
        acquisition.actual_sample_rate
    } else {
        acquisition.sample_rate
    };
    if rate == 0 {
        0
    } else {
        FS_PER_SECOND as int / rate as int
    }
}

/// The name under which a digital channel is kept.
pub fn normalize_key(key: &str) -> (r: String)
    ensures
        r@ == normalized(key@),
{
    to_uppercase(trim(key))
}

impl ScpiState for AppState {
    open spec fn scope(&self) -> Scope {
        Scope {
            identity: identity(self.metadata),
            metadata: self.metadata,
            max_adc: self.max_adc,
            channel_ids: self.analog_channels@,
            channels: self.channels@,
            rates: DEFAULT_SAMPLE_RATES@,
            depths: DEFAULT_MEMORY_DEPTHS@,
            acquisition: self.acquisition,
            awg: self.awg@,
            digital: self.digital@,
            adc_bits: self.adc_bits,
            last_sequence: self.last_sequence,
        }
    }

    open spec fn well_formed(&self) -> bool {
        &&& self.channels@.len() == self.analog_channels@.len()
        &&& DEFAULT_SAMPLE_RATES@.contains(self.acquisition.sample_rate)
        &&& DEFAULT_MEMORY_DEPTHS@.contains(self.acquisition.sample_depth)
        &&& 8 <= self.adc_bits <= 16
    }

    open spec fn applied(scope: Scope, setting: Setting) -> Scope {
        let acquisition = scope.acquisition;
        let awg = scope.awg;
        match setting {
            Setting::SampleRate(rate) => Scope {
                acquisition: AcquisitionState { sample_rate: rate, ..acquisition },
                ..scope
            },
            Setting::SampleDepth(depth) => Scope {
                acquisition: AcquisitionState { sample_depth: depth, ..acquisition },
                ..scope
            },
            Setting::AdcBits(bits) => Scope { adc_bits: bits, ..scope },
            Setting::Started(one_shot, actual) => Scope {
                acquisition: AcquisitionState {
                    one_shot,
                    armed: true,
                    actual_sample_rate: actual,
                    ..acquisition
                },
                ..scope
            },
            Setting::Stopped => Scope {
                acquisition: AcquisitionState { armed: false, one_shot: false, ..acquisition },
                ..scope
            },
            Setting::TriggerSource(index) => Scope {
                acquisition: AcquisitionState { trigger_source: index, ..acquisition },
                ..scope
            },
            Setting::TriggerLevel(level) => Scope {
                acquisition: AcquisitionState { trigger_level: level, ..acquisition },
                ..scope
            },
            Setting::TriggerDelay(delay) => Scope {
                acquisition: AcquisitionState { trigger_delay_fs: delay, ..acquisition },
                ..scope
            },
            Setting::TriggerEdge(edge) => Scope {
                acquisition: AcquisitionState { trigger_edge: edge, ..acquisition },
                ..scope
            },
            Setting::ChannelEnabled(index, enabled) => with_channel(
                scope,
                index,
                ChannelState { enabled, ..scope.channels[index as int] },
            ),
            Setting::ChannelCoupling(index, coupling) => with_channel(
                scope,
                index,
                ChannelState { coupling, ..scope.channels[index as int] },
            ),
            Setting::ChannelRange(index, volts) => with_channel(
                scope,
                index,
                ChannelState { range: covering(volts.spec_abs()), ..scope.channels[index as int] },
            ),
            Setting::ChannelOffset(index, offset) => with_channel(
                scope,
                index,
                ChannelState { offset, ..scope.channels[index as int] },
            ),
            Setting::BandwidthLimit(index, limit) => with_channel(
                scope,
                index,
                ChannelState { bandwidth_limit_mhz: limit, ..scope.channels[index as int] },
            ),
            Setting::AwgEnabled(enabled) => Scope { awg: Awg { enabled, ..awg }, ..scope },
            Setting::AwgFrequency(hz) => Scope {
                awg: Awg { frequency_hz: hz.spec_max(Double { bits: 0 }), ..awg },
                ..scope
            },
            Setting::AwgDuty(duty) => Scope {
                awg: Awg {
                    duty_cycle: duty.spec_clamp(Single { bits: 0 }, Single { bits: 0x42c8_0000 }),
                    ..awg
                },
                ..scope
            },
            Setting::AwgRange(range) => Scope {
                awg: Awg { range_vpp: range.spec_max(Single { bits: 0 }), ..awg },
                ..scope
            },
            Setting::AwgOffset(offset) => Scope { awg: Awg { offset_v: offset, ..awg }, ..scope },
            Setting::AwgShape(shape) => Scope { awg: Awg { shape, ..awg }, ..scope },
            Setting::DigitalHysteresis(key, mv) => Scope {
                digital: scope.digital.insert(
                    normalized(key),
                    DigitalChannelState { hysteresis_mv: mv, ..scope.digital_channel(key) },
                ),
                ..scope
            },
            Setting::DigitalThreshold(key, mv) => Scope {
                digital: scope.digital.insert(
                    normalized(key),
                    DigitalChannelState { threshold_mv: mv, ..scope.digital_channel(key) },
                ),
                ..scope
            },
        }
    }

    open spec fn refusal(scope: Scope, setting: Setting) -> Option<Refusal> {
        match setting {
            Setting::SampleRate(rate) => if scope.rates.contains(rate) {
                None
            } else {
                Some(Refusal::UnsupportedSampleRate(rate))
            },
            Setting::SampleDepth(depth) => if scope.depths.contains(depth) {
                None
            } else {
                Some(Refusal::UnsupportedSampleDepth(depth))
            },
            Setting::AdcBits(bits) => if 8 <= bits <= 16 {
                None
            } else {
                Some(Refusal::UnsupportedResolution(bits))
            },
            _ => None,
        }
    }

    fn idn(&self) -> (r: String) {
        String::from_str(SERVER_NAME).concat(",").concat(self.metadata.variant.as_str()).concat(
            ",",
        ).concat(self.metadata.serial.as_str()).concat(",").concat(SERVER_VERSION)
    }

    fn channel_count(&self) -> (r: usize) {
        self.analog_channels.len()
    }

    fn last_sequence(&self) -> (r: u32) {
        self.last_sequence
    }

    fn allowed_sample_rates(&self) -> (r: &[u32]) {
        &DEFAULT_SAMPLE_RATES
    }

    fn sample_rate(&self) -> (r: u32) {
        self.acquisition.sample_rate
    }

    fn set_sample_rate(&mut self, rate: u32) -> (r: Result<(), ScpiError>) {
        let allowed = DEFAULT_SAMPLE_RATES;
        let mut i: usize = 0;
        while i < allowed.len()
            invariant
                i <= allowed@.len(),
                allowed@ == DEFAULT_SAMPLE_RATES@,
                *self == *old(self),
                self.well_formed(),
                forall|j: int| 0 <= j < i ==> allowed@[j] != rate,
            decreases allowed@.len() - i,
        {
            if allowed[i] == rate {
                assert(DEFAULT_SAMPLE_RATES@.contains(rate));
                self.acquisition.sample_rate = rate;
                return Ok(());
            }
            i = i + 1;
        }
        assert(!DEFAULT_SAMPLE_RATES@.contains(rate));
        Err(ScpiError::UnsupportedSampleRate(rate))
    }

    fn allowed_sample_depths(&self) -> (r: &[usize]) {
        &DEFAULT_MEMORY_DEPTHS
    }

    fn sample_depth(&self) -> (r: usize) {
        self.acquisition.sample_depth
    }

    fn set_sample_depth(&mut self, depth: usize) -> (r: Result<(), ScpiError>) {
        let allowed = DEFAULT_MEMORY_DEPTHS;
        let mut i: usize = 0;
        while i < allowed.len()
            invariant
                i <= allowed@.len(),
                allowed@ == DEFAULT_MEMORY_DEPTHS@,
                *self == *old(self),
                self.well_formed(),
                forall|j: int| 0 <= j < i ==> allowed@[j] != depth,
            decreases allowed@.len() - i,
        {
            if allowed[i] == depth {
                assert(DEFAULT_MEMORY_DEPTHS@.contains(depth));
                self.acquisition.sample_depth = depth;
                return Ok(());
            }
            i = i + 1;
        }
        assert(!DEFAULT_MEMORY_DEPTHS@.contains(depth));
        Err(ScpiError::UnsupportedSampleDepth(depth))
    }

    fn adc_bits(&self) -> (r: u32) {
        self.adc_bits
    }

    fn set_adc_bits(&mut self, bits: u32) -> (r: Result<(), ScpiError>) {
        if !(8 <= bits && bits <= 16) {
            return Err(ScpiError::UnsupportedResolution(bits));
        }
        self.adc_bits = bits;
        Ok(())
    }

    fn start_streaming(&self, one_shot: bool) -> (r: DeviceAction) {
        DeviceAction::Start { rate: self.acquisition.sample_rate, one_shot }
    }

    fn streaming_started(&mut self, one_shot: bool, actual: u32) {
        self.acquisition.one_shot = one_shot;
        self.acquisition.armed = true;
        self.acquisition.actual_sample_rate = actual;
    }

    fn stop_streaming(&mut self) -> (r: DeviceAction) {
        self.acquisition.armed = false;
        self.acquisition.one_shot = false;
        DeviceAction::Stop
    }

    fn force_trigger(&self) -> (r: DeviceAction) {
        self.start_streaming(true)
    }

    fn is_armed(&self) -> (r: bool) {
        self.acquisition.armed
    }

    fn trigger_source(&self) -> (r: usize) {
        self.acquisition.trigger_source
    }

    fn set_trigger_source(&mut self, index: usize) {
        self.acquisition.trigger_source = index;
    }

    fn trigger_level(&self) -> (r: Double) {
        self.acquisition.trigger_level
    }

    fn set_trigger_level(&mut self, level: Double) {
        self.acquisition.trigger_level = level;
    }

    fn trigger_delay(&self) -> (r: i64) {
        self.acquisition.trigger_delay_fs
    }

    fn set_trigger_delay(&mut self, delay: i64) {
        self.acquisition.trigger_delay_fs = delay;
    }

    fn trigger_edge(&self) -> (r: TriggerEdge) {
        self.acquisition.trigger_edge
    }

    fn set_trigger_edge(&mut self, edge: TriggerEdge) {
        self.acquisition.trigger_edge = edge;
    }

    fn channel_state(&self, index: usize) -> (r: ChannelState) {
        self.channels[index]
    }

    fn set_channel_enabled(&mut self, index: usize, enabled: bool) -> (r: DeviceAction) {
        let mut channel = self.channels[index];
        channel.enabled = enabled;
        self.channels.set(index, channel);
        self.sync_channel(index)
    }

    fn set_channel_coupling(&mut self, index: usize, coupling: Coupling) -> (r: DeviceAction) {
        let mut channel = self.channels[index];
        channel.coupling = coupling;
        self.channels.set(index, channel);
        self.sync_channel(index)
    }

    fn set_channel_range(&mut self, index: usize, volts: Double) -> (r: DeviceAction) {
        let mut channel = self.channels[index];
        channel.range = pick_range(volts);
        self.channels.set(index, channel);
        self.sync_channel(index)
    }

    fn set_channel_offset(&mut self, index: usize, offset: Single) {
        if index < self.channels.len() {
            let mut channel = self.channels[index];
            channel.offset = offset;
            self.channels.set(index, channel);
        }
    }

    fn channel_bandwidth_limit(&self, index: usize) -> (r: Option<u32>) {
        if index < self.channels.len() {
            self.channels[index].bandwidth_limit_mhz
        } else {
            None
        }
    }

    fn set_channel_bandwidth_limit(&mut self, index: usize, mhz: Option<u32>) {
        if index < self.channels.len() {
            let mut channel = self.channels[index];
            channel.bandwidth_limit_mhz = mhz;
            self.channels.set(index, channel);
        }
    }

    fn awg_state(&self) -> (r: AwgState) {
        self.awg.snapshot()
    }

    fn set_awg_enabled(&mut self, enabled: bool) {
        self.awg.enabled = enabled;
    }

    fn set_awg_frequency(&mut self, hz: Double) {
        self.awg.frequency_hz = hz.max(Double { bits: 0 });
    }

    fn set_awg_duty(&mut self, duty: Single) {
        let zero = Single { bits: 0 };
        let hundred = Single { bits: 0x42c8_0000 };
        proof {
            lemma_order(false, 0, false, 0x42c8_0000, 23);
        }
        self.awg.duty_cycle = duty.clamp(zero, hundred);
    }

    fn set_awg_range(&mut self, range_vpp: Single) {
        self.awg.range_vpp = range_vpp.max(Single { bits: 0 });
    }

    fn set_awg_offset(&mut self, offset_v: Single) {
        self.awg.offset_v = offset_v;
    }

    fn set_awg_shape(&mut self, shape: &str) {
        self.awg.shape = String::from_str(shape);
    }

    fn digital_hysteresis(&self, identifier: &str) -> (r: Single) {
        self.digital_channel(identifier).hysteresis_mv
    }

    fn set_digital_hysteresis(&mut self, identifier: &str, hysteresis: Single) {
        let mut channel = self.digital_channel(identifier);
        channel.hysteresis_mv = hysteresis;
        self.digital.insert(normalize_key(identifier), channel);
    }

    fn digital_threshold(&self, identifier: &str) -> (r: Single) {
        self.digital_channel(identifier).threshold_mv
    }

    fn set_digital_threshold(&mut self, identifier: &str, threshold: Single) {
        let mut channel = self.digital_channel(identifier);
        channel.threshold_mv = threshold;
        self.digital.insert(normalize_key(identifier), channel);
    }
}

impl AppState {
    /// A scope with all settings at their defaults.
    pub fn new(analog_channels: Vec<u64>, max_adc: i16, metadata: DeviceMetadata) -> (r: AppState)
        ensures
            r.well_formed(),
            r.scope() == initial_scope(metadata, max_adc, analog_channels@),
    {
        let mut channels: Vec<ChannelState> = Vec::new();
        let mut i: usize = 0;
        while i < analog_channels.len()
            invariant
                i <= analog_channels@.len(),
                channels@ == Seq::new(i as nat, |j: int| ChannelState::initial()),
            decreases analog_channels@.len() - i,
        {
            channels.push(ChannelState::default());
            i = i + 1;
        }
        proof {
            assert(DEFAULT_SAMPLE_RATES@[0] == 1_000_000_000);
            assert(DEFAULT_MEMORY_DEPTHS@[6] == 100_000);
        }
        AppState {
            analog_channels,
            max_adc,
            metadata,
            channels,
            acquisition: AcquisitionState::default(),
            awg: AwgState::default(),
            digital: StringHashMap::new(),
            adc_bits: 8,
            last_sequence: 0,
        }
    }

    /// The settings of a digital channel; all zero before the first of them is set.
    fn digital_channel(&self, identifier: &str) -> (r: DigitalChannelState)
        ensures
            r == self.scope().digital_channel(identifier@),
    {
        match self.digital.get(normalize_key(identifier).as_str()) {
            Some(channel) => *channel,
            None => DigitalChannelState::default(),
        }
    }

    /// The femtoseconds between two samples; zero where no rate is known.
    pub fn sample_interval_fs(&self) -> (r: i64)
        ensures
            r == sample_interval(self.acquisition),
    {
        let rate = if self.acquisition.actual_sample_rate > 0 {
            self.acquisition.actual_sample_rate
        } else {
            self.acquisition.sample_rate
        };
        if rate == 0 {
            return 0;
        }
        FS_PER_SECOND / rate as i64
    }

    /// What brings the device in line with the settings of a channel.
    pub fn sync_channel(&self, index: usize) -> (r: DeviceAction)
        requires
            self.well_formed(),
            index < self.channels@.len(),
        ensures
            r == self.scope().sync_action(index as int),
    {
        let channel = self.analog_channels[index];
        let state = self.channels[index];
        if state.enabled {
            DeviceAction::EnableChannel { channel, range: state.range, coupling: state.coupling }
        } else {
            DeviceAction::DisableChannel { channel }
        }
    }

    /// What brings the device in line with the settings of all channels.
    pub fn sync_all_channels(&self) -> (r: Vec<DeviceAction>)
        requires
            self.well_formed(),
        ensures
            r@ == Seq::new(self.channels@.len(), |i: int| self.scope().sync_action(i)),
    {
        let mut actions: Vec<DeviceAction> = Vec::new();
        let mut i: usize = 0;
        while i < self.channels.len()
            invariant
                self.well_formed(),
                i <= self.channels@.len(),
                actions@ == Seq::new(i as nat, |j: int| self.scope().sync_action(j)),
            decreases self.channels@.len() - i,
        {
            actions.push(self.sync_channel(i));
            i = i + 1;
        }
        actions
    }

    /// Notes that a waveform has gone out. The first one ends a single-shot acquisition, and the
    /// device is then to stop.
    pub fn handle_waveform_complete(&mut self) -> (r: Option<DeviceAction>)
        ensures
            *final(self) == completed(*old(self)),
            r == (if old(self).acquisition.one_shot {
                Some(DeviceAction::Stop)
            } else {
                None
            }),
    {
        if self.acquisition.one_shot {
            self.acquisition.armed = false;
            self.acquisition.one_shot = false;
            Some(DeviceAction::Stop)
        } else {
            None
        }
    }

    /// The name of a channel as a client gives it.
    ///
    /// The name is made from a character that far behind `A`, of whose code one byte counts; where
    /// there is no such character, from the index.
    pub fn channel_label(&self, index: usize) -> (r: String)
        requires
            label_code(index) <= u32::MAX,
            is_char_code(label_code(index)) ==> label_code(index) % 256 >= 65,
        ensures
            r@ == "C"@ + decimal(label_number(index)),
    {
        let code: u64 = 65 + index as u64 % 0x1_0000_0000;
        let number: u64 = if code <= 0x10_ffff && !(0xd800 <= code && code <= 0xdfff) {
            code % 256 - 64
        } else {
            index as u64 + 1
        };
        String::from_str("C").concat(to_decimal(number as u128).as_str())
    }

    /// Notes the number of the waveform that was sent last.
    pub fn update_sequence(&mut self, sequence: u32)
        ensures
            *final(self) == (AppState { last_sequence: sequence, ..*old(self) }),
    {
        self.last_sequence = sequence;
    }
}

/// The code of the character that is so far behind `A`, in 32 bits.
pub open spec fn label_code(index: usize) -> int {
    65 + index as int % 0x1_0000_0000
}

/// Whether a character has this code.
pub open spec fn is_char_code(code: int) -> bool {
    0 <= code <= 0x10_ffff && !(0xd800 <= code <= 0xdfff)
}

/// The number in the name of a channel.
pub open spec fn label_number(index: usize) -> nat {
    if is_char_code(label_code(index)) {
        (label_code(index) % 256 - 64) as nat
    } else {
        (index + 1) as nat
    }
}

/// The state after a waveform has gone out.
pub open spec fn completed(state: AppState) -> AppState {
    if state.acquisition.one_shot {
        AppState {
            acquisition: AcquisitionState { armed: false, one_shot: false, ..state.acquisition },
            ..state
        }
    } else {
        state
    }
}

} // verus!
