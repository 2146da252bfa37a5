//! The waveform stream: how samples are framed, and how far the sender may run ahead.

use byteorder::{LittleEndian, WriteBytesExt};
use std::collections::HashMap;
use vstd::prelude::*;
use crate::floating::Single;
use crate::model::{interval, Scope};
use crate::scpi::ScpiState;
use crate::state::{completed, sample_interval, AppState, ChannelState, FS_PER_SECOND};

verus! {

/// How many waveforms may be on their way to a client.
pub const MAX_WAVEFORMS_IN_FLIGHT: u32 = 5;

/// The samples of one channel.
pub struct ChannelBlock {
    /// Volts per step of a sample.
    pub multiplier: Single,
    pub samples: Vec<i16>,
}

/// Samples that arrived together, by the device's numbers of their channels.
pub struct WaveformEvent {
    /// The sample rate, zero where it is not known.
    pub samples_per_second: u32,
    pub channels: HashMap<u64, ChannelBlock>,
}

/// The head of a frame.
pub struct WaveformHeader {
    pub sequence: u32,
    pub num_channels: u16,
    pub fs_per_sample: i64,
}

/// The head of one channel in a frame.
pub struct ChannelHeader {
    pub index: u64,
    pub num_samples: u64,
    pub scale: Single,
    pub offset: Single,
    pub trig_phase: Single,
}

/// The low bytes of a number, the lowest first.
pub open spec fn le_bytes(n: nat, count: nat) -> Seq<u8>
    decreases count,
{
    if count == 0 {
        Seq::empty()
    } else {
        seq![(n % 256) as u8] + le_bytes(n / 256, (count - 1) as nat)
    }
}

/// The number whose bytes these are, the lowest first.
pub open spec fn le_value(bytes: Seq<u8>) -> nat
    decreases bytes.len(),
{
    if bytes.len() == 0 {
        0
    } else {
        bytes[0] as nat + 256 * le_value(bytes.skip(1))
    }
}

/// `WriteBytesExt::write_u16::<LittleEndian>` on a vector: it appends the two bytes of the
/// number, the lowest first; writing to a vector does not fail.
#[verifier::external_body]
fn put_u16(out: &mut Vec<u8>, n: u16)
    ensures
        final(out)@ == old(out)@ + le_bytes(n as nat, 2),
{
    out.write_u16::<LittleEndian>(n).expect("a vector takes all bytes");
}

/// `WriteBytesExt::write_u32::<LittleEndian>` on a vector: it appends the four bytes of the
/// number, the lowest first; writing to a vector does not fail.
#[verifier::external_body]
fn put_u32(out: &mut Vec<u8>, n: u32)
    ensures
        final(out)@ == old(out)@ + le_bytes(n as nat, 4),
{
    out.write_u32::<LittleEndian>(n).expect("a vector takes all bytes");
}

/// `WriteBytesExt::write_u64::<LittleEndian>` on a vector: it appends the eight bytes of the
/// number, the lowest first; writing to a vector does not fail.
#[verifier::external_body]
fn put_u64(out: &mut Vec<u8>, n: u64)
    ensures
        final(out)@ == old(out)@ + le_bytes(n as nat, 8),
{
    out.write_u64::<LittleEndian>(n).expect("a vector takes all bytes");
}

/// `WriteBytesExt::write_i64::<LittleEndian>` on a vector: it appends the eight bytes of the
/// number in two's complement, the lowest first; writing to a vector does not fail.
#[verifier::external_body]
fn put_i64(out: &mut Vec<u8>, n: i64)
    ensures
        final(out)@ == old(out)@ + le_bytes((n as int % 0x1_0000_0000_0000_0000) as nat, 8),
{
    out.write_i64::<LittleEndian>(n).expect("a vector takes all bytes");
}

/// `WriteBytesExt::write_i16::<LittleEndian>` on a vector: it appends the two bytes of the
/// number in two's complement, the lowest first; writing to a vector does not fail.
#[verifier::external_body]
fn put_i16(out: &mut Vec<u8>, n: i16)
    ensures
        final(out)@ == old(out)@ + le_bytes((n as int % 0x1_0000) as nat, 2),
{
    out.write_i16::<LittleEndian>(n).expect("a vector takes all bytes");
}

impl WaveformHeader {
    pub open spec fn bytes(self) -> Seq<u8> {
        le_bytes(self.sequence as nat, 4) + le_bytes(self.num_channels as nat, 2) + le_bytes(
            (self.fs_per_sample as int % 0x1_0000_0000_0000_0000) as nat,
            8,
        )
    }
}

impl ChannelHeader {
    pub open spec fn bytes(self) -> Seq<u8> {
        le_bytes(self.index as nat, 8) + le_bytes(self.num_samples as nat, 8) + le_bytes(
            self.scale.bits as nat,
            4,
        ) + le_bytes(self.offset.bits as nat, 4) + le_bytes(self.trig_phase.bits as nat, 4)
    }
}

/// Appends the head of a frame.
pub fn write_waveform_header(out: &mut Vec<u8>, header: &WaveformHeader)
    ensures
        final(out)@ == old(out)@ + header.bytes(),
{
    put_u32(out, header.sequence);
    put_u16(out, header.num_channels);
    put_i64(out, header.fs_per_sample);
    assert(out@ == old(out)@ + header.bytes());
}

/// Appends the head of one channel.
pub fn write_channel_header(out: &mut Vec<u8>, header: &ChannelHeader)
    ensures
        final(out)@ == old(out)@ + header.bytes(),
{
    put_u64(out, header.index);
    put_u64(out, header.num_samples);
    put_u32(out, header.scale.bits);
    put_u32(out, header.offset.bits);
    put_u32(out, header.trig_phase.bits);
    assert(out@ == old(out)@ + header.bytes());
}

/// The bytes of samples, two for each.
pub open spec fn sample_bytes(samples: Seq<i16>) -> Seq<u8>
    decreases samples.len(),
{
    if samples.len() == 0 {
        Seq::empty()
    } else {
        sample_bytes(samples.drop_last()) + le_bytes((samples.last() as int % 0x1_0000) as nat, 2)
    }
}

/// One channel in a frame: its head and its samples. The scale is kept above zero.
pub open spec fn channel_bytes(id: u64, offset: Single, block: ChannelBlock) -> Seq<u8> {
    ChannelHeader {
        index: id,
        num_samples: block.samples@.len() as u64,
        scale: block.multiplier.spec_max(Single { bits: 0x0080_0000 }),
        offset,
        trig_phase: Single { bits: 0 },
    }.bytes() + sample_bytes(block.samples@)
}

/// How many of the first `n` channels have samples.
pub open spec fn channels_present(
    ids: Seq<u64>,
    blocks: Map<u64, ChannelBlock>,
    n: nat,
) -> nat
    decreases n,
{
    if n == 0 {
        0
    } else {
        channels_present(ids, blocks, (n - 1) as nat) + if blocks.dom().contains(ids[n - 1]) {
            1nat
        } else {
            0nat
        }
    }
}

/// The first `n` channels in a frame, without those that have no samples.
pub open spec fn channels_bytes(
    ids: Seq<u64>,
    channels: Seq<ChannelState>,
    blocks: Map<u64, ChannelBlock>,
    n: nat,
) -> Seq<u8>
    decreases n,
{
    if n == 0 {
        Seq::empty()
    } else {
        channels_bytes(ids, channels, blocks, (n - 1) as nat) + if blocks.dom().contains(
            ids[n - 1],
        ) {
            channel_bytes(ids[n - 1], channels[n - 1].offset, blocks[ids[n - 1]])
        } else {
            Seq::empty()
        }
    }
}

/// The femtoseconds between two samples of an event.
pub open spec fn event_interval(scope: Scope, samples_per_second: u32) -> int {
    if samples_per_second > 0 {
        interval(samples_per_second)
    } else {
        sample_interval(scope.acquisition)
    }
}

/// The frame of an event: its head, and every analog channel that has samples in it. The count
/// of channels is kept in 16 bits.
pub open spec fn frame(scope: Scope, event: WaveformEvent, sequence: u32) -> Seq<u8> {
    let ids = scope.channel_ids;
    let n = ids.len();
    WaveformHeader {
        sequence,
        num_channels: (channels_present(ids, event.channels@, n) % 0x1_0000) as u16,
        fs_per_sample: event_interval(scope, event.samples_per_second) as i64,
    }.bytes() + channels_bytes(ids, scope.channels, event.channels@, n)
}

/// Whether any analog channel has samples in the event.
pub open spec fn has_samples(scope: Scope, event: WaveformEvent) -> bool {
    exists|i: int|
        0 <= i < scope.channel_ids.len() && event.channels@.dom().contains(
            #[trigger] scope.channel_ids[i],
        )
}

/// A channel is present among the first `n` exactly when their count is not zero.
pub proof fn lemma_present(ids: Seq<u64>, blocks: Map<u64, ChannelBlock>, n: nat)
    requires
        n <= ids.len(),
    ensures
        channels_present(ids, blocks, n) <= n,
        (channels_present(ids, blocks, n) > 0) == exists|i: int|
            0 <= i < n && blocks.dom().contains(#[trigger] ids[i]),
    decreases n,
{
    if n > 0 {
        lemma_present(ids, blocks, (n - 1) as nat);
        if blocks.dom().contains(ids[n - 1]) {
            assert(0 <= n - 1 < n && blocks.dom().contains(ids[n - 1]));
        }
    }
}

/// Appends one channel to a frame.
fn put_channel(out: &mut Vec<u8>, id: u64, offset: Single, block: &ChannelBlock)
    ensures
        final(out)@ == old(out)@ + channel_bytes(id, offset, *block),
{
    let header = ChannelHeader {
        index: id,
        num_samples: block.samples.len() as u64,
        scale: block.multiplier.max(Single { bits: 0x0080_0000 }),
        offset,
        trig_phase: Single { bits: 0 },
    };
    write_channel_header(out, &header);
    let ghost head = out@;
    let mut i: usize = 0;
    assert(head + sample_bytes(block.samples@.take(0)) == head);
    while i < block.samples.len()
        invariant
            i <= block.samples@.len(),
            out@ == head + sample_bytes(block.samples@.take(i as int)),
        decreases block.samples@.len() - i,
    {
        put_i16(out, block.samples[i]);
        proof {
            let next = block.samples@.take(i + 1);
            assert(next.drop_last() == block.samples@.take(i as int));
            assert(out@ == head + sample_bytes(next));
        }
        i = i + 1;
    }
    assert(block.samples@.take(block.samples@.len() as int) == block.samples@);
    assert(out@ == old(out)@ + channel_bytes(id, offset, *block));
}

/// The frame of an event, if any analog channel has samples in it.
pub fn encode_waveform(state: &AppState, event: &WaveformEvent, sequence: u32) -> (r: Option<
    Vec<u8>,
>)
    requires
        state.well_formed(),
    ensures
        r is Some == has_samples(state.scope(), *event),
        r matches Some(bytes) ==> bytes@ == frame(state.scope(), *event, sequence),
{
    let ghost ids = state.analog_channels@;
    let ghost blocks = event.channels@;
    let total = state.analog_channels.len();
    let mut body: Vec<u8> = Vec::new();
    let mut present: usize = 0;
    let mut i: usize = 0;
    while i < total
        invariant
            i <= total,
            total == state.analog_channels@.len(),
            state.well_formed(),
            ids == state.analog_channels@,
            blocks == event.channels@,
            present == channels_present(ids, blocks, i as nat),
            present <= i,
            body@ == channels_bytes(ids, state.channels@, blocks, i as nat),
        decreases total - i,
    {
        let id = state.analog_channels[i];
        if let Some(block) = event.channels.get(&id) {
            put_channel(&mut body, id, state.channels[i].offset, block);
            present = present + 1;
        }
        i = i + 1;
    }
    proof {
        lemma_present(ids, blocks, ids.len());
    }
    if present == 0 {
        return None;
    }
    let fs_per_sample: i64 = if event.samples_per_second > 0 {
        FS_PER_SECOND / event.samples_per_second as i64
    } else {
        state.sample_interval_fs()
    };
    let header = WaveformHeader {
        sequence,
        num_channels: (present % 0x1_0000) as u16,
        fs_per_sample,
    };
    let mut bytes: Vec<u8> = Vec::new();
    write_waveform_header(&mut bytes, &header);
    bytes.append(&mut body);
    assert(bytes@ == frame(state.scope(), *event, sequence));
    Some(bytes)
}

/// The number whose four bytes these are, the lowest first.
pub fn read_le_u32(bytes: [u8; 4]) -> (r: u32)
    ensures
        r == le_value(bytes@),
{
    proof {
        reveal_with_fuel(le_value, 5);
    }
    bytes[0] as u32 + 0x100 * (bytes[1] as u32) + 0x1_0000 * (bytes[2] as u32) + 0x100_0000 * (
    bytes[3] as u32)
}

/// How far the sender of waveforms and its client have come.
#[derive(Clone, Copy, Debug, PartialEq, Eq, Structural)]
pub struct StreamSession {
    /// The number of the last waveform; the first is one.
    pub sequence: u32,
    /// The last number that the client acknowledged.
    pub last_ack: u32,
    /// Whether the sender waits for acknowledgements before it goes on.
    pub waiting: bool,
}

/// What happened to the sender of waveforms.
pub enum StreamInput {
    StopRequested,
    /// Samples arrived.
    Data(WaveformEvent),
    /// No samples arrived for a while.
    TimedOut,
    /// No more samples will arrive.
    Disconnected,
    /// The frame has gone out.
    Written,
    /// The client acknowledged the number in these bytes, the lowest first.
    Ack([u8; 4]),
    /// The client has sent nothing more for now.
    NoAck,
    /// The client has gone.
    EndOfStream,
    /// An acknowledgement could not be read.
    ReadFailed,
    /// The pause is over.
    Paused,
}

/// What the sender of waveforms is to do next.
pub enum StreamAction {
    /// Wait for samples or a request to stop.
    Poll,
    /// Send the frame.
    Write(Vec<u8>),
    /// Try to read an acknowledgement.
    ReadAck,
    /// Rest for a moment.
    Pause,
    /// Stop the device, then wait as for `Poll`.
    StopDevice,
    /// End the session.
    Finish,
    /// End the session, because the client closed it.
    FinishClosed,
    /// End the session with the error that came up.
    FinishFailed,
}

/// What the sender of waveforms is to do next, with the frame as a sequence.
pub enum Reaction {
    Poll,
    Write(Seq<u8>),
    ReadAck,
    Pause,
    StopDevice,
    Finish,
    FinishClosed,
    FinishFailed,
}

impl View for StreamAction {
    type V = Reaction;

    open spec fn view(&self) -> Reaction {
        match *self {
            StreamAction::Poll => Reaction::Poll,
            StreamAction::Write(bytes) => Reaction::Write(bytes@),
            StreamAction::ReadAck => Reaction::ReadAck,
            StreamAction::Pause => Reaction::Pause,
            StreamAction::StopDevice => Reaction::StopDevice,
            StreamAction::Finish => Reaction::Finish,
            StreamAction::FinishClosed => Reaction::FinishClosed,
            StreamAction::FinishFailed => Reaction::FinishFailed,
        }
    }
}

impl StreamSession {
    /// A session before its first waveform.
    pub open spec fn initial() -> StreamSession {
        StreamSession { sequence: 0, last_ack: 0, waiting: false }
    }

    /// The session with the number after the last one; the largest is followed by zero.
    pub open spec fn next(self) -> StreamSession {
        StreamSession { sequence: ((self.sequence + 1) % 0x1_0000_0000) as u32, ..self }
    }

    /// How many waveforms the client has not acknowledged.
    pub open spec fn in_flight(self) -> int {
        (self.sequence - self.last_ack) % 0x1_0000_0000
    }

    /// Whether the sender has to wait for the client.
    pub open spec fn is_full(self) -> bool {
        self.in_flight() >= MAX_WAVEFORMS_IN_FLIGHT
    }

    pub fn new() -> (r: StreamSession)
        ensures
            r == StreamSession::initial(),
    {
        StreamSession { sequence: 0, last_ack: 0, waiting: false }
    }

    /// Whether the sender has to wait for the client.
    pub fn must_wait(&self) -> (r: bool)
        ensures
            r == self.is_full(),
    {
        self.sequence.wrapping_sub(self.last_ack) >= MAX_WAVEFORMS_IN_FLIGHT
    }
}

/// The sender is done with a waveform.
pub open spec fn waveform_done(session: StreamSession, state: AppState) -> (
    StreamSession,
    AppState,
    Reaction,
) {
    (
        StreamSession { waiting: false, ..session },
        completed(state),
        if state.acquisition.one_shot {
            Reaction::StopDevice
        } else {
            Reaction::Poll
        },
    )
}

/// What the sender makes of what happened.
///
/// Samples get the next number and are sent if any analog channel has some. All acknowledgements
/// that are there are then read. While too many are missing, the sender goes on reading, with a
/// pause after each round; then the waveform is done.
pub open spec fn stream_response(session: StreamSession, state: AppState, input: StreamInput) -> (
    StreamSession,
    AppState,
    Reaction,
) {
    match input {
        StreamInput::StopRequested | StreamInput::Disconnected => (
            session,
            state,
            Reaction::Finish,
        ),
        StreamInput::TimedOut => (session, state, Reaction::Poll),
        StreamInput::Data(event) => {
            let next = session.next();
            (
                next,
                state,
                if has_samples(state.scope(), event) {
                    Reaction::Write(frame(state.scope(), event, next.sequence))
                } else {
                    Reaction::ReadAck
                },
            )
        },
        StreamInput::Written => (
            session,
            AppState { last_sequence: session.sequence, ..state },
            Reaction::ReadAck,
        ),
        StreamInput::Ack(bytes) => (
            StreamSession { last_ack: le_value(bytes@) as u32, ..session },
            state,
            Reaction::ReadAck,
        ),
        StreamInput::NoAck => if session.waiting {
            (session, state, Reaction::Pause)
        } else if session.is_full() {
            (StreamSession { waiting: true, ..session }, state, Reaction::ReadAck)
        } else {
            waveform_done(session, state)
        },
        StreamInput::Paused => if session.is_full() {
            (session, state, Reaction::ReadAck)
        } else {
            waveform_done(session, state)
        },
        StreamInput::EndOfStream => (session, state, Reaction::FinishClosed),
        StreamInput::ReadFailed => (session, state, Reaction::FinishFailed),
    }
}

/// Marks a waveform as done.
fn finish_waveform(session: &mut StreamSession, state: &mut AppState) -> (r: StreamAction)
    ensures
        (*final(session), *final(state), r@) == waveform_done(*old(session), *old(state)),
{
    session.waiting = false;
    match state.handle_waveform_complete() {
        Some(_) => StreamAction::StopDevice,
        None => StreamAction::Poll,
    }
}

/// Takes note of what happened and says what the sender of waveforms is to do next.
pub fn stream_step(session: &mut StreamSession, state: &mut AppState, input: StreamInput) -> (r:
    StreamAction)
    requires
        old(state).well_formed(),
    ensures
        final(state).well_formed(),
        (*final(session), *final(state), r@) == stream_response(
            *old(session),
            *old(state),
            input,
        ),
{
    match input {
        StreamInput::StopRequested | StreamInput::Disconnected => StreamAction::Finish,
        StreamInput::TimedOut => StreamAction::Poll,
        StreamInput::Data(event) => {
            session.sequence = session.sequence.wrapping_add(1);
            match encode_waveform(state, &event, session.sequence) {
                Some(bytes) => StreamAction::Write(bytes),
                None => StreamAction::ReadAck,
            }
        },
        StreamInput::Written => {
            state.update_sequence(session.sequence);
            StreamAction::ReadAck
        },
        StreamInput::Ack(bytes) => {
            session.last_ack = read_le_u32(bytes);
            StreamAction::ReadAck
        },
        StreamInput::NoAck => if session.waiting {
            StreamAction::Pause
        } else if session.must_wait() {
            session.waiting = true;
            StreamAction::ReadAck
        } else {
            finish_waveform(session, state)
        },
        StreamInput::Paused => if session.must_wait() {
            StreamAction::ReadAck
        } else {
            finish_waveform(session, state)
        },
        StreamInput::EndOfStream => StreamAction::FinishClosed,
        StreamInput::ReadFailed => StreamAction::FinishFailed,
    }
}

/// What came of an attempt to accept a client on the waveform port.
#[derive(Clone, Copy, Debug, PartialEq, Eq, Structural)]
pub enum Acceptance {
    Accepted,
    /// Nobody asked to connect, and in the time waited since no stop was requested.
    NobodyYet,
    /// Nobody asked to connect, and a stop was requested or can no longer be.
    Stopped,
    Failed,
}

/// What the waveform port does next.
#[derive(Clone, Copy, Debug, PartialEq, Eq, Structural)]
pub enum AcceptStep {
    /// Serve the client, and no other after it.
    Serve,
    AcceptAgain,
    Finish,
    Fail,
}

/// What the waveform port does next.
pub fn accept_step(acceptance: Acceptance) -> (r: AcceptStep)
    ensures
        r == match acceptance {
            Acceptance::Accepted => AcceptStep::Serve,
            Acceptance::NobodyYet => AcceptStep::AcceptAgain,
            Acceptance::Stopped => AcceptStep::Finish,
            Acceptance::Failed => AcceptStep::Fail,
        },
{
    match acceptance {
        Acceptance::Accepted => AcceptStep::Serve,
        Acceptance::NobodyYet => AcceptStep::AcceptAgain,
        Acceptance::Stopped => AcceptStep::Finish,
        Acceptance::Failed => AcceptStep::Fail,
    }
}

} // verus!
