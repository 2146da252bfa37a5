//! What a client reads in a frame is what was sent, and the sender never runs too far ahead.

use vstd::prelude::*;
use vstd::arithmetic::power2::{lemma2_to64, lemma2_to64_rest, lemma_pow2_adds, pow2};
use crate::floating::{lemma_order, Single};
use crate::laws::sound;
use crate::meanings::{law_interval_of_a_scope, lemma_second_divided};
use crate::model::Scope;
use crate::scpi::ScpiState;
use crate::state::{completed, AcquisitionState, AppState, ChannelState};
use crate::waveform::{
    channel_bytes, channels_bytes, channels_present, event_interval, frame, has_samples, le_bytes,
    le_value, lemma_present, sample_bytes, stream_response, ChannelBlock, ChannelHeader, Reaction,
    StreamAction, StreamInput, StreamSession, WaveformEvent, WaveformHeader,
    MAX_WAVEFORMS_IN_FLIGHT,
};

verus! {

// ---------------------------------------------------------------------------
// Numbers

/// A number is read back from its bytes, if there are enough of them.
pub proof fn law_le_bytes_read_back(n: nat, count: nat)
    requires
        n < pow2(8 * count),
    ensures
        le_bytes(n, count).len() == count,
        le_value(le_bytes(n, count)) == n,
    decreases count,
{
    if count == 0 {
        lemma2_to64();
    } else {
        let rest = (count - 1) as nat;
        lemma2_to64();
        lemma_pow2_adds(8, 8 * rest);
        assert(pow2(8 * count) == 256 * pow2(8 * rest));
        assert(n / 256 < pow2(8 * rest)) by (nonlinear_arith)
            requires
                n < 256 * pow2(8 * rest),
        ;
        law_le_bytes_read_back(n / 256, rest);
        let bytes = le_bytes(n, count);
        assert(bytes.skip(1) == le_bytes(n / 256, rest));
    }
}

/// The bytes of the widths that occur.
proof fn lemma_widths(n: nat)
    ensures
        le_bytes(n, 2).len() == 2 && le_bytes(n, 4).len() == 4 && le_bytes(n, 8).len() == 8,
        n < 0x1_0000 ==> le_value(le_bytes(n, 2)) == n,
        n < 0x1_0000_0000 ==> le_value(le_bytes(n, 4)) == n,
        n < 0x1_0000_0000_0000_0000 ==> le_value(le_bytes(n, 8)) == n,
{
    lemma2_to64();
    lemma2_to64_rest();
    lemma_length(n, 2);
    lemma_length(n, 4);
    lemma_length(n, 8);
    if n < 0x1_0000 {
        law_le_bytes_read_back(n, 2);
    }
    if n < 0x1_0000_0000 {
        law_le_bytes_read_back(n, 4);
    }
    if n < 0x1_0000_0000_0000_0000 {
        law_le_bytes_read_back(n, 8);
    }
}

proof fn lemma_length(n: nat, count: nat)
    ensures
        le_bytes(n, count).len() == count,
    decreases count,
{
    if count > 0 {
        lemma_length(n / 256, (count - 1) as nat);
    }
}

// ---------------------------------------------------------------------------
// Frames

/// The number that 16 bits stand for in two's complement.
pub open spec fn signed_16(n: nat) -> i16 {
    if n < 0x8000 {
        n as i16
    } else {
        (n - 0x1_0000) as i16
    }
}

/// One channel as a client reads it.
pub struct ChannelRecord {
    pub index: u64,
    pub scale: Single,
    pub offset: Single,
    pub trig_phase: Single,
    pub samples: Seq<i16>,
}

/// A frame as a client reads it.
pub struct FrameRecord {
    pub sequence: u32,
    pub fs_per_sample: i64,
    pub channels: Seq<ChannelRecord>,
}

/// The samples in their bytes.
pub open spec fn read_samples(bytes: Seq<u8>, count: nat) -> Seq<i16> {
    Seq::new(count, |i: int| signed_16(le_value(bytes.subrange(2 * i, 2 * i + 2))))
}

/// The first channel in the bytes.
pub open spec fn read_channel(bytes: Seq<u8>) -> ChannelRecord {
    ChannelRecord {
        index: le_value(bytes.subrange(0, 8)) as u64,
        scale: Single { bits: le_value(bytes.subrange(16, 20)) as u32 },
        offset: Single { bits: le_value(bytes.subrange(20, 24)) as u32 },
        trig_phase: Single { bits: le_value(bytes.subrange(24, 28)) as u32 },
        samples: read_samples(bytes.skip(28), le_value(bytes.subrange(8, 16))),
    }
}

/// So many channels, one after the other.
pub open spec fn read_channels(bytes: Seq<u8>, count: nat) -> Seq<ChannelRecord>
    decreases count,
{
    if count == 0 {
        Seq::empty()
    } else {
        let first = read_channel(bytes);
        seq![first] + read_channels(
            bytes.skip((28 + 2 * first.samples.len()) as int),
            (count - 1) as nat,
        )
    }
}

/// The frame in the bytes.
pub open spec fn read_frame(bytes: Seq<u8>) -> FrameRecord {
    FrameRecord {
        sequence: le_value(bytes.subrange(0, 4)) as u32,
        fs_per_sample: le_value(bytes.subrange(6, 14)) as i64,
        channels: read_channels(bytes.skip(14), le_value(bytes.subrange(4, 6))),
    }
}

/// What is sent of one channel.
pub open spec fn record(id: u64, offset: Single, block: ChannelBlock) -> ChannelRecord {
    ChannelRecord {
        index: id,
        scale: block.multiplier.spec_max(Single { bits: 0x0080_0000 }),
        offset,
        trig_phase: Single { bits: 0 },
        samples: block.samples@,
    }
}

/// What is sent of the first `n` channels: those that have samples, in the order of the channels.
pub open spec fn records(
    ids: Seq<u64>,
    channels: Seq<ChannelState>,
    blocks: Map<u64, ChannelBlock>,
    n: nat,
) -> Seq<ChannelRecord>
    decreases n,
{
    if n == 0 {
        Seq::empty()
    } else {
        let before = records(ids, channels, blocks, (n - 1) as nat);
        if blocks.dom().contains(ids[n - 1]) {
            before.push(record(ids[n - 1], channels[n - 1].offset, blocks[ids[n - 1]]))
        } else {
            before
        }
    }
}

/// Samples are read back from their bytes, whatever follows.
proof fn lemma_samples(samples: Seq<i16>, tail: Seq<u8>)
    ensures
        sample_bytes(samples).len() == 2 * samples.len(),
        read_samples(sample_bytes(samples) + tail, samples.len()) == samples,
    decreases samples.len(),
{
    if samples.len() > 0 {
        let before = samples.drop_last();
        let last = le_bytes((samples.last() as int % 0x1_0000) as nat, 2);
        lemma_widths((samples.last() as int % 0x1_0000) as nat);
        lemma_samples(before, last + tail);
        let bytes = sample_bytes(samples) + tail;
        assert(bytes == sample_bytes(before) + (last + tail));
        let all = read_samples(bytes, samples.len());
        let n = before.len() as int;
        assert(bytes.subrange(2 * n, 2 * n + 2) == last);
        assert(all[n] == samples.last());
        assert forall|i: int| 0 <= i < n implies all[i] == samples[i] by {
            assert(read_samples(bytes, before.len())[i] == before[i]);
        }
        assert(all == samples);
    } else {
        assert(read_samples(sample_bytes(samples) + tail, 0) == samples);
    }
}

/// A channel is read back from its bytes, whatever follows.
pub proof fn law_channel_reads_back(id: u64, offset: Single, block: ChannelBlock, tail: Seq<u8>)
    requires
        block.samples@.len() <= u64::MAX,
    ensures
        channel_bytes(id, offset, block).len() == 28 + 2 * block.samples@.len(),
        read_channel(channel_bytes(id, offset, block) + tail) == record(id, offset, block),
{
    let samples = block.samples@;
    let scale = block.multiplier.spec_max(Single { bits: 0x0080_0000 });
    let header = ChannelHeader {
        index: id,
        num_samples: samples.len() as u64,
        scale,
        offset,
        trig_phase: Single { bits: 0 },
    };
    lemma_widths(id as nat);
    lemma_widths(samples.len());
    lemma_widths(scale.bits as nat);
    lemma_widths(offset.bits as nat);
    lemma_widths(0);
    lemma_samples(samples, tail);
    let bytes = channel_bytes(id, offset, block) + tail;
    assert(header.bytes().len() == 28);
    assert(bytes.subrange(0, 8) == le_bytes(id as nat, 8));
    assert(bytes.subrange(8, 16) == le_bytes(samples.len(), 8));
    assert(bytes.subrange(16, 20) == le_bytes(scale.bits as nat, 4));
    assert(bytes.subrange(20, 24) == le_bytes(offset.bits as nat, 4));
    assert(bytes.subrange(24, 28) == le_bytes(0, 4));
    assert(bytes.skip(28) == sample_bytes(samples) + tail);
}

/// Channels are read back from their bytes, followed by those that follow.
proof fn lemma_channels(
    ids: Seq<u64>,
    channels: Seq<ChannelState>,
    blocks: Map<u64, ChannelBlock>,
    n: nat,
    tail: Seq<u8>,
    more: nat,
)
    requires
        forall|id: u64| #[trigger]
            blocks.dom().contains(id) ==> blocks[id].samples@.len() <= u64::MAX,
    ensures
        read_channels(
            channels_bytes(ids, channels, blocks, n) + tail,
            channels_present(ids, blocks, n) + more,
        ) == records(ids, channels, blocks, n) + read_channels(tail, more),
    decreases n,
{
    if n == 0 {
        assert(channels_bytes(ids, channels, blocks, n) + tail == tail);
        assert(records(ids, channels, blocks, n) + read_channels(tail, more) == read_channels(
            tail,
            more,
        ));
    } else {
        let before = (n - 1) as nat;
        let head = channels_bytes(ids, channels, blocks, before);
        let id = ids[n - 1];
        if blocks.dom().contains(id) {
            let offset = channels[n - 1].offset;
            let bytes = channel_bytes(id, offset, blocks[id]);
            law_channel_reads_back(id, offset, blocks[id], tail);
            lemma_channels(ids, channels, blocks, before, bytes + tail, more + 1);
            assert(channels_bytes(ids, channels, blocks, n) + tail == head + (bytes + tail));
            assert((bytes + tail).skip(bytes.len() as int) == tail);
            assert(read_channels(bytes + tail, more + 1) == seq![record(id, offset, blocks[id])]
                + read_channels(tail, more));
            assert(records(ids, channels, blocks, before) + (seq![record(id, offset, blocks[id])]
                + read_channels(tail, more)) == records(ids, channels, blocks, n) + read_channels(
                tail,
                more,
            ));
        } else {
            assert(channels_bytes(ids, channels, blocks, n) == head);
            lemma_channels(ids, channels, blocks, before, tail, more);
        }
    }
}

/// The interval between samples is not negative and fits in 64 bits.
proof fn lemma_interval_range(scope: Scope, samples_per_second: u32)
    ensures
        0 <= event_interval(scope, samples_per_second) <= 1_000_000_000_000_000,
{
    let rate = if samples_per_second > 0 {
        samples_per_second
    } else if scope.acquisition.actual_sample_rate > 0 {
        scope.acquisition.actual_sample_rate
    } else {
        scope.acquisition.sample_rate
    };
    if rate > 0 {
        assert(0 <= 1_000_000_000_000_000int / rate as int <= 1_000_000_000_000_000)
            by (nonlinear_arith)
            requires
                rate > 0,
        ;
    }
}

/// A client reads in a frame what was sent: the number, the interval between samples, and the
/// channels that have samples, in the order of the channels, with all their samples. The count of
/// channels has 16 bits.
pub proof fn law_frame_reads_back(scope: Scope, event: WaveformEvent, sequence: u32)
    requires
        scope.channel_ids.len() < 0x1_0000,
        forall|id: u64| #[trigger]
            event.channels@.dom().contains(id) ==> event.channels@[id].samples@.len() <= u64::MAX,
    ensures
        read_frame(frame(scope, event, sequence)) == (FrameRecord {
            sequence,
            fs_per_sample: event_interval(scope, event.samples_per_second) as i64,
            channels: records(
                scope.channel_ids,
                scope.channels,
                event.channels@,
                scope.channel_ids.len(),
            ),
        }),
{
    let n = scope.channel_ids.len();
    let count = channels_present(scope.channel_ids, event.channels@, n);
    let fs = event_interval(scope, event.samples_per_second);
    let body = channels_bytes(scope.channel_ids, scope.channels, event.channels@, n);
    let header = WaveformHeader {
        sequence,
        num_channels: (count % 0x1_0000) as u16,
        fs_per_sample: fs as i64,
    };
    lemma_present(scope.channel_ids, event.channels@, n);
    lemma_interval_range(scope, event.samples_per_second);
    lemma_widths(sequence as nat);
    lemma_widths(count);
    lemma_widths(fs as nat);
    let bytes = frame(scope, event, sequence);
    assert(header.bytes().len() == 14);
    assert(bytes.subrange(0, 4) == le_bytes(sequence as nat, 4));
    assert(bytes.subrange(4, 6) == le_bytes(count, 2));
    assert(bytes.subrange(6, 14) == le_bytes(fs as nat, 8));
    assert(bytes.skip(14) == body);
    lemma_channels(
        scope.channel_ids,
        scope.channels,
        event.channels@,
        n,
        Seq::<u8>::empty(),
        0,
    );
    assert(body + Seq::<u8>::empty() == body);
    let sent = records(scope.channel_ids, scope.channels, event.channels@, n);
    assert(sent + read_channels(Seq::<u8>::empty(), 0) == sent);
}

// ---------------------------------------------------------------------------
// Flow

/// One step of a session: what happened, and the state of the scope at that time.
pub struct SessionEvent {
    pub state: AppState,
    pub input: StreamInput,
}

/// A session after some steps, and what the sender is then to do. At first it waits for samples.
pub open spec fn session_after(events: Seq<SessionEvent>) -> (StreamSession, Reaction)
    decreases events.len(),
{
    if events.len() == 0 {
        (StreamSession::initial(), Reaction::Poll)
    } else {
        let before = session_after(events.drop_last()).0;
        let (session, _, reaction) = stream_response(
            before,
            events.last().state,
            events.last().input,
        );
        (session, reaction)
    }
}

/// Whether something can happen while the sender does what it is to do.
pub open spec fn can_happen(doing: Reaction, input: StreamInput) -> bool {
    match doing {
        Reaction::Poll | Reaction::StopDevice => input is StopRequested || input is Data || input
            is TimedOut || input is Disconnected,
        Reaction::Write(_) => input is Written,
        Reaction::ReadAck => input is Ack || input is NoAck || input is EndOfStream || input
            is ReadFailed,
        Reaction::Pause => input is Paused,
        Reaction::Finish | Reaction::FinishClosed | Reaction::FinishFailed => false,
    }
}

/// Whether the sender did in every step what it was to do.
pub open spec fn in_turn(events: Seq<SessionEvent>) -> bool
    decreases events.len(),
{
    events.len() == 0 || (in_turn(events.drop_last()) && can_happen(
        session_after(events.drop_last()).1,
        events.last().input,
    ))
}

/// How many waveforms a session has taken in.
pub open spec fn waveforms_taken(events: Seq<SessionEvent>) -> nat
    decreases events.len(),
{
    if events.len() == 0 {
        0
    } else {
        waveforms_taken(events.drop_last()) + if events.last().input is Data {
            1nat
        } else {
            0nat
        }
    }
}

/// Which waveform an acknowledgement means when so many were taken in: the last one with this
/// number of 32 bits. It is negative where none had the number.
pub open spec fn waveform_meant(taken: nat, number: nat) -> int {
    taken - (taken - number) % 0x1_0000_0000
}

/// The last waveform that the client acknowledged; zero at first.
pub open spec fn last_acknowledged(events: Seq<SessionEvent>) -> int
    decreases events.len(),
{
    if events.len() == 0 {
        0
    } else {
        match events.last().input {
            StreamInput::Ack(bytes) => waveform_meant(
                waveforms_taken(events.drop_last()),
                le_value(bytes@),
            ),
            _ => last_acknowledged(events.drop_last()),
        }
    }
}

/// The latest waveform that the client ever acknowledged; zero at first.
pub open spec fn latest_acknowledged(events: Seq<SessionEvent>) -> int
    decreases events.len(),
{
    if events.len() == 0 {
        0
    } else {
        let before = latest_acknowledged(events.drop_last());
        if last_acknowledged(events) > before {
            last_acknowledged(events)
        } else {
            before
        }
    }
}

/// Four bytes hold a number of 32 bits.
proof fn lemma_four_bytes(bytes: [u8; 4])
    ensures
        le_value(bytes@) < 0x1_0000_0000,
{
    reveal_with_fuel(le_value, 5);
}

/// The waveforms of a session are numbered from one on, none skipped and none repeated, and the
/// numbers have 32 bits: the last number is that of the last waveform taken in. A waveform with
/// samples of an analog channel is sent with its number.
pub proof fn law_waveforms_are_numbered_on(events: Seq<SessionEvent>)
    ensures
        session_after(events).0.sequence as nat == waveforms_taken(events) % 0x1_0000_0000,
        events.len() > 0 ==> (events.last().input matches StreamInput::Data(event) ==> {
            let number = (waveforms_taken(events) % 0x1_0000_0000) as u32;
            &&& waveforms_taken(events) == waveforms_taken(events.drop_last()) + 1
            &&& has_samples(events.last().state.scope(), event) ==> session_after(events).1
                == Reaction::Write(frame(events.last().state.scope(), event, number))
        }),
    decreases events.len(),
{
    if events.len() > 0 {
        law_waveforms_are_numbered_on(events.drop_last());
    }
}

/// What is kept in a session in which the sender does what it is to do.
proof fn lemma_session(events: Seq<SessionEvent>)
    requires
        in_turn(events),
    ensures
        ({
            let (session, doing) = session_after(events);
            let taken = waveforms_taken(events);
            &&& doing is Poll || doing is StopDevice ==> !session.is_full()
            &&& last_acknowledged(events) <= latest_acknowledged(events) <= taken
            &&& session.in_flight() == taken - last_acknowledged(events)
            &&& taken - latest_acknowledged(events) <= MAX_WAVEFORMS_IN_FLIGHT
        }),
    decreases events.len(),
{
    law_waveforms_are_numbered_on(events);
    if events.len() > 0 {
        let before = events.drop_last();
        lemma_session(before);
        law_waveforms_are_numbered_on(before);
        if let StreamInput::Ack(bytes) = events.last().input {
            lemma_four_bytes(bytes);
        }
    }
}

/// In a session in which the sender does what it is to do, samples are only waited for while
/// fewer waveforms than may be are on their way, counted from the last one acknowledged. So a
/// waveform is sent only then, and none is sent that is further than that ahead of the latest one
/// acknowledged. The waveforms on their way are counted rightly though numbers have 32 bits.
pub proof fn law_sender_stays_in_step(events: Seq<SessionEvent>)
    requires
        in_turn(events),
    ensures
        ({
            let (session, doing) = session_after(events);
            let taken = waveforms_taken(events);
            &&& doing is Poll || doing is StopDevice ==> taken - last_acknowledged(events)
                < MAX_WAVEFORMS_IN_FLIGHT
            &&& session.in_flight() == taken - last_acknowledged(events)
            &&& taken - latest_acknowledged(events) <= MAX_WAVEFORMS_IN_FLIGHT
        }),
        events.len() > 0 && events.last().input is Data ==> (waveforms_taken(events) - 1)
            - last_acknowledged(events) < MAX_WAVEFORMS_IN_FLIGHT,
{
    lemma_session(events);
    if events.len() > 0 {
        lemma_session(events.drop_last());
    }
}

/// A single acquisition ends with its first waveform, and the device is stopped once; other
/// acquisitions go on.
pub proof fn law_single_acquisition_ends_once(session: StreamSession, state: AppState)
    requires
        !session.is_full(),
        !session.waiting,
    ensures
        ({
            let (s1, first, r1) = stream_response(session, state, StreamInput::NoAck);
            let (_, second, r2) = stream_response(s1, first, StreamInput::NoAck);
            &&& first == completed(state)
            &&& second == first
            &&& r2 == Reaction::Poll
            &&& if state.acquisition.one_shot {
                r1 == Reaction::StopDevice && !first.acquisition.armed
                    && !first.acquisition.one_shot
            } else {
                r1 == Reaction::Poll && first == state
            }
        }),
{
}

/// Streaming keeps the scope sound, and changes no setting.
pub proof fn law_streaming_keeps_settings(
    session: StreamSession,
    state: AppState,
    input: StreamInput,
)
    requires
        sound(state.scope()),
    ensures
        ({
            let before = state.scope();
            let after = stream_response(session, state, input).1.scope();
            &&& sound(after)
            &&& after.metadata == before.metadata
            &&& after.max_adc == before.max_adc
            &&& after.channels == before.channels
            &&& after.awg == before.awg
            &&& after.digital == before.digital
            &&& after.adc_bits == before.adc_bits
            &&& after.acquisition.sample_rate == before.acquisition.sample_rate
            &&& after.acquisition.sample_depth == before.acquisition.sample_depth
            &&& after.acquisition.trigger_source == before.acquisition.trigger_source
            &&& after.acquisition.trigger_level == before.acquisition.trigger_level
            &&& after.acquisition.trigger_delay_fs == before.acquisition.trigger_delay_fs
            &&& after.acquisition.trigger_edge == before.acquisition.trigger_edge
        }),
{
}

/// The number that `SEQNUM?` tells is that of the last waveform that went out: it changes only
/// when one has, and then to its number.
pub proof fn law_last_sequence_is_of_the_last_sent(
    session: StreamSession,
    state: AppState,
    input: StreamInput,
)
    ensures
        stream_response(session, state, input).1.scope().last_sequence == if input is Written {
            session.sequence
        } else {
            state.scope().last_sequence
        },
{
}

// ---------------------------------------------------------------------------
// In bytes

/// The bytes of a number are the remainder by 256 and then the bytes of the quotient, and a number is
/// made up of its bytes in that order.
pub proof fn law_bytes_of_numbers(n: nat, count: nat, byte: u8, rest: Seq<u8>)
    ensures
        le_bytes(n, 0) == Seq::<u8>::empty(),
        le_bytes(n, count + 1).len() == count + 1,
        le_bytes(n, count + 1)[0] as nat == n % 256,
        le_bytes(n, count + 1).skip(1) == le_bytes(n / 256, count),
        le_value(Seq::empty()) == 0,
        le_value(seq![byte] + rest) == byte + 256 * le_value(rest),
{
    lemma_length(n, count + 1);
    assert(le_bytes(n, count + 1).skip(1) == le_bytes(n / 256, count));
    assert((seq![byte] + rest).skip(1) == rest);
}

/// Between two samples of an event lies a second in femtoseconds, divided by the rate: so many
/// intervals fit in a second at that rate, and no more. The rate is that of the event or, where it
/// has none, the rate at which the scope streams, or the rate that is set; without any, the interval
/// is zero.
pub proof fn law_interval_of_an_event(scope: Scope, samples_per_second: u32)
    ensures
        ({
            let t = event_interval(scope, samples_per_second);
            let rate = if samples_per_second > 0 {
                samples_per_second as int
            } else if scope.acquisition.actual_sample_rate > 0 {
                scope.acquisition.actual_sample_rate as int
            } else {
                scope.acquisition.sample_rate as int
            };
            if rate == 0 {
                t == 0
            } else {
                0 <= t && t * rate <= 1_000_000_000_000_000 < (t + 1) * rate
            }
        }),
{
    if samples_per_second > 0 {
        lemma_second_divided(samples_per_second);
    } else {
        law_interval_of_a_scope(scope.acquisition);
    }
}

/// A frame starts with its number in four bytes, how many channels it holds in two, as far as they
/// hold it, and the interval
/// between samples in eight; so many of these intervals fit in a second at the rate of the event, and
/// no more.
pub proof fn law_head_of_a_frame(
    scope: Scope,
    event: WaveformEvent,
    sequence: u32,
    present: spec_fn(u64) -> bool,
)
    requires
        forall|id: u64| #[trigger] present(id) == event.channels@.dom().contains(id),
    ensures
        ({
            let bytes = frame(scope, event, sequence);
            let t = le_value(bytes.subrange(6, 14));
            let rate = if event.samples_per_second > 0 {
                event.samples_per_second as int
            } else if scope.acquisition.actual_sample_rate > 0 {
                scope.acquisition.actual_sample_rate as int
            } else {
                scope.acquisition.sample_rate as int
            };
            let count = scope.channel_ids.filter(present).len() % 0x1_0000;
            &&& bytes.len() >= 14
            &&& bytes.subrange(0, 4) == le_bytes(sequence as nat, 4)
            &&& le_value(bytes.subrange(0, 4)) == sequence
            &&& bytes.subrange(4, 6) == le_bytes(count, 2)
            &&& le_value(bytes.subrange(4, 6)) == count
            &&& rate > 0 ==> t * rate <= 1_000_000_000_000_000 < (t + 1) * rate
            &&& rate == 0 ==> t == 0
        }),
{
    let n = scope.channel_ids.len();
    let count = channels_present(scope.channel_ids, event.channels@, n);
    let fs = event_interval(scope, event.samples_per_second);
    let header = WaveformHeader {
        sequence,
        num_channels: (count % 0x1_0000) as u16,
        fs_per_sample: fs as i64,
    };
    lemma_present(scope.channel_ids, event.channels@, n);
    lemma_interval_range(scope, event.samples_per_second);
    law_interval_of_an_event(scope, event.samples_per_second);
    lemma_widths(sequence as nat);
    lemma_widths(count % 0x1_0000);
    lemma_widths(fs as nat);
    lemma_places(scope.channel_ids, scope.channels, event.channels@, present, n, 0);
    assert(scope.channel_ids.take(n as int) == scope.channel_ids);
    let bytes = frame(scope, event, sequence);
    assert(header.bytes().len() == 14);
    assert(bytes.subrange(0, 4) == le_bytes(sequence as nat, 4));
    assert(bytes.subrange(4, 6) == le_bytes(count % 0x1_0000, 2));
    assert(bytes.subrange(6, 14) == le_bytes(fs as nat, 8));
}

/// The heads of frames and of channels in bytes, whatever is in them: every part in its place, the
/// lowest byte first, and a negative interval in two's complement.
pub proof fn law_bytes_of_heads(frame_head: WaveformHeader, channel_head: ChannelHeader)
    ensures
        ({
            let bytes = frame_head.bytes();
            let fs = frame_head.fs_per_sample as int;
            &&& bytes.len() == 14
            &&& bytes.subrange(0, 4) == le_bytes(frame_head.sequence as nat, 4)
            &&& bytes.subrange(4, 6) == le_bytes(frame_head.num_channels as nat, 2)
            &&& bytes.subrange(6, 14) == le_bytes(
                if fs >= 0 {
                    fs as nat
                } else {
                    (0x1_0000_0000_0000_0000 + fs) as nat
                },
                8,
            )
        }),
        ({
            let bytes = channel_head.bytes();
            &&& bytes.len() == 28
            &&& bytes.subrange(0, 8) == le_bytes(channel_head.index as nat, 8)
            &&& bytes.subrange(8, 16) == le_bytes(channel_head.num_samples as nat, 8)
            &&& bytes.subrange(16, 20) == le_bytes(channel_head.scale.bits as nat, 4)
            &&& bytes.subrange(20, 24) == le_bytes(channel_head.offset.bits as nat, 4)
            &&& bytes.subrange(24, 28) == le_bytes(channel_head.trig_phase.bits as nat, 4)
        }),
{
    let fs = frame_head.fs_per_sample as int;
    let raw = if fs >= 0 {
        fs
    } else {
        0x1_0000_0000_0000_0000 + fs
    };
    assert(fs % 0x1_0000_0000_0000_0000 == raw);
    lemma_length(frame_head.sequence as nat, 4);
    lemma_length(frame_head.num_channels as nat, 2);
    lemma_length(raw as nat, 8);
    lemma_length(channel_head.index as nat, 8);
    lemma_length(channel_head.num_samples as nat, 8);
    lemma_length(channel_head.scale.bits as nat, 4);
    lemma_length(channel_head.offset.bits as nat, 4);
    lemma_length(channel_head.trig_phase.bits as nat, 4);
    let first = frame_head.bytes();
    assert(first.subrange(0, 4) == le_bytes(frame_head.sequence as nat, 4));
    assert(first.subrange(4, 6) == le_bytes(frame_head.num_channels as nat, 2));
    assert(first.subrange(6, 14) == le_bytes(raw as nat, 8));
    let second = channel_head.bytes();
    assert(second.subrange(0, 8) == le_bytes(channel_head.index as nat, 8));
    assert(second.subrange(8, 16) == le_bytes(channel_head.num_samples as nat, 8));
    assert(second.subrange(16, 20) == le_bytes(channel_head.scale.bits as nat, 4));
    assert(second.subrange(20, 24) == le_bytes(channel_head.offset.bits as nat, 4));
    assert(second.subrange(24, 28) == le_bytes(channel_head.trig_phase.bits as nat, 4));
}

/// Where the channels that have samples are among those that are sent.
proof fn lemma_places(
    ids: Seq<u64>,
    channels: Seq<ChannelState>,
    blocks: Map<u64, ChannelBlock>,
    present: spec_fn(u64) -> bool,
    n: nat,
    k: int,
)
    requires
        n <= ids.len(),
        forall|id: u64| #[trigger] present(id) == blocks.dom().contains(id),
    ensures
        channels_present(ids, blocks, n) == ids.take(n as int).filter(present).len(),
        records(ids, channels, blocks, n).len() == ids.take(n as int).filter(present).len(),
        0 <= k < n && present(ids[k]) ==> {
            let place = ids.take(k).filter(present).len();
            &&& place < records(ids, channels, blocks, n).len()
            &&& records(ids, channels, blocks, n)[place as int] == record(
                ids[k],
                channels[k].offset,
                blocks[ids[k]],
            )
        },
    decreases n,
{
    reveal(Seq::filter);
    if n > 0 {
        let before = (n - 1) as nat;
        lemma_places(ids, channels, blocks, present, before, k);
        assert(ids.take(n as int).drop_last() == ids.take(before as int));
        assert(ids.take(n as int).last() == ids[n - 1]);
        assert(present(ids[n - 1]) == blocks.dom().contains(ids[n - 1]));
    } else {
        assert(ids.take(0) == Seq::<u64>::empty());
    }
}

/// A client finds in a frame every analog channel that has samples, in the place that it has among
/// these, and no other: with the device's number, the channel's own offset, its own samples one by
/// one, no trigger phase, and its multiplier as the scale, or the smallest normal number where the
/// multiplier is below that or no number.
pub proof fn law_channels_in_a_frame(
    scope: Scope,
    event: WaveformEvent,
    sequence: u32,
    present: spec_fn(u64) -> bool,
    k: int,
)
    requires
        scope.channel_ids.len() < 0x1_0000,
        forall|id: u64| #[trigger]
            event.channels@.dom().contains(id) ==> event.channels@[id].samples@.len() <= u64::MAX,
        forall|id: u64| #[trigger] present(id) == event.channels@.dom().contains(id),
    ensures
        ({
            let ids = scope.channel_ids;
            let found = read_frame(frame(scope, event, sequence)).channels;
            let place = ids.take(k).filter(present).len() as int;
            let block = event.channels@[ids[k]];
            &&& found.len() == ids.filter(present).len()
            &&& has_samples(scope, event) == (ids.filter(present).len() > 0)
            &&& 0 <= k < ids.len() && present(ids[k]) ==> {
                &&& place < found.len()
                &&& found[place].index == ids[k]
                &&& found[place].offset.bits == scope.channels[k].offset.bits
                &&& found[place].trig_phase.bits == 0
                &&& found[place].samples == block.samples@
                &&& found[place].scale.bits == if 0x0080_0000 <= block.multiplier.bits <= 0x7f80_0000 {
                    block.multiplier.bits
                } else {
                    0x0080_0000
                }
            }
        }),
{
    let ids = scope.channel_ids;
    let n = ids.len();
    law_frame_reads_back(scope, event, sequence);
    lemma_places(ids, scope.channels, event.channels@, present, n, k);
    assert(ids.take(n as int) == ids);
    lemma_present(ids, event.channels@, n);
    let x = event.channels@[ids[k]].multiplier;
    lemma_order(x.is_negative(), x.magnitude(), false, 0x0080_0000, 23);
}

/// Behind its head, a frame holds the bytes of the channels that have samples, in the order of the
/// channels, with nothing between or behind them: each further channel adds its own bytes if it has
/// samples, and nothing if not.
pub proof fn law_body_of_a_frame(scope: Scope, event: WaveformEvent, sequence: u32, n: nat)
    ensures
        ({
            let ids = scope.channel_ids;
            let blocks = event.channels@;
            let id = ids[n as int];
            let before = channels_bytes(ids, scope.channels, blocks, n);
            &&& frame(scope, event, sequence).skip(14) == channels_bytes(
                ids,
                scope.channels,
                blocks,
                ids.len(),
            )
            &&& channels_bytes(ids, scope.channels, blocks, 0) == Seq::<u8>::empty()
            &&& n < ids.len() ==> channels_bytes(ids, scope.channels, blocks, n + 1)
                == if blocks.dom().contains(id) {
                before + channel_bytes(id, scope.channels[n as int].offset, blocks[id])
            } else {
                before
            }
        }),
{
    let count = channels_present(scope.channel_ids, event.channels@, scope.channel_ids.len());
    let fs = event_interval(scope, event.samples_per_second) as i64;
    lemma_length(sequence as nat, 4);
    lemma_length(((count % 0x1_0000) as u16) as nat, 2);
    lemma_length((fs as int % 0x1_0000_0000_0000_0000) as nat, 8);
    assert(frame(scope, event, sequence).skip(14) == channels_bytes(
        scope.channel_ids,
        scope.channels,
        event.channels@,
        scope.channel_ids.len(),
    ));
}

/// The bytes of one channel: its number and how many samples it has in eight bytes each, scale,
/// offset and trigger phase in four bytes each, and then every sample in two, in two's complement.
pub proof fn law_bytes_of_a_channel(id: u64, offset: Single, block: ChannelBlock, i: int)
    requires
        block.samples@.len() <= u64::MAX,
    ensures
        ({
            let bytes = channel_bytes(id, offset, block);
            &&& bytes.len() == 28 + 2 * block.samples@.len()
            &&& bytes.subrange(0, 8) == le_bytes(id as nat, 8)
            &&& bytes.subrange(8, 16) == le_bytes(block.samples@.len(), 8)
            &&& bytes.subrange(16, 20) == le_bytes(
                if 0x0080_0000 <= block.multiplier.bits <= 0x7f80_0000 {
                    block.multiplier.bits as nat
                } else {
                    0x0080_0000
                },
                4,
            )
            &&& bytes.subrange(20, 24) == le_bytes(offset.bits as nat, 4)
            &&& bytes.subrange(24, 28) == le_bytes(0, 4)
            &&& 0 <= i < block.samples@.len() ==> bytes.subrange(28 + 2 * i, 30 + 2 * i) == le_bytes(
                if block.samples@[i] >= 0 {
                    block.samples@[i] as nat
                } else {
                    (0x1_0000 + block.samples@[i]) as nat
                },
                2,
            )
        }),
{
    let samples = block.samples@;
    let x = block.multiplier;
    lemma_order(x.is_negative(), x.magnitude(), false, 0x0080_0000, 23);
    let scale = x.spec_max(Single { bits: 0x0080_0000 });
    lemma_widths(id as nat);
    lemma_widths(samples.len());
    lemma_widths(scale.bits as nat);
    lemma_widths(offset.bits as nat);
    lemma_widths(0);
    lemma_samples(samples, Seq::<u8>::empty());
    let bytes = channel_bytes(id, offset, block);
    assert(bytes.subrange(0, 8) == le_bytes(id as nat, 8));
    assert(bytes.subrange(8, 16) == le_bytes(samples.len(), 8));
    assert(bytes.subrange(16, 20) == le_bytes(scale.bits as nat, 4));
    assert(bytes.subrange(20, 24) == le_bytes(offset.bits as nat, 4));
    assert(bytes.subrange(24, 28) == le_bytes(0, 4));
    if 0 <= i < samples.len() {
        lemma_sample_at(samples, i);
        assert(bytes.subrange(28 + 2 * i, 30 + 2 * i) == sample_bytes(samples).subrange(
            2 * i,
            2 * i + 2,
        ));
    }
}

/// The bytes of one sample.
proof fn lemma_sample_at(samples: Seq<i16>, i: int)
    requires
        0 <= i < samples.len(),
    ensures
        sample_bytes(samples).len() == 2 * samples.len(),
        sample_bytes(samples).subrange(2 * i, 2 * i + 2) == le_bytes(
            (samples[i] as int % 0x1_0000) as nat,
            2,
        ),
    decreases samples.len(),
{
    let before = samples.drop_last();
    let last = le_bytes((samples.last() as int % 0x1_0000) as nat, 2);
    lemma_length((samples.last() as int % 0x1_0000) as nat, 2);
    lemma_samples(before, Seq::<u8>::empty());
    let bytes = sample_bytes(samples);
    if i < before.len() {
        lemma_sample_at(before, i);
        assert(bytes.subrange(2 * i, 2 * i + 2) == sample_bytes(before).subrange(2 * i, 2 * i + 2));
    } else {
        assert(bytes.subrange(2 * i, 2 * i + 2) == last);
    }
}

// ---------------------------------------------------------------------------
// Reactions

/// The sender before its first waveform, and what it makes of all that can happen. Waveforms on
/// their way are counted from the number of the last one and the number last acknowledged, both of
/// 32 bits; five are too many to go on. A single acquisition has the device stop when its waveform is
/// done.
pub proof fn law_reactions_of_the_sender(session: StreamSession, state: AppState, input: StreamInput)
    ensures
        StreamSession::initial() == (StreamSession { sequence: 0, last_ack: 0, waiting: false }),
        ({
            let (after, state_after, reaction) = stream_response(session, state, input);
            let ahead = if session.sequence >= session.last_ack {
                session.sequence - session.last_ack
            } else {
                session.sequence - session.last_ack + 0x1_0000_0000
            };
            let done = {
                &&& after == (StreamSession { waiting: false, ..session })
                &&& state_after == (AppState {
                    acquisition: AcquisitionState {
                        armed: state.acquisition.armed && !state.acquisition.one_shot,
                        one_shot: false,
                        ..state.acquisition
                    },
                    ..state
                })
                &&& state.acquisition.one_shot ==> reaction is StopDevice
                &&& !state.acquisition.one_shot ==> reaction is Poll
            };
            match input {
                StreamInput::StopRequested | StreamInput::Disconnected => after == session
                    && state_after == state && reaction is Finish,
                StreamInput::TimedOut => after == session && state_after == state && reaction is Poll,
                StreamInput::EndOfStream => after == session && state_after == state && reaction
                    is FinishClosed,
                StreamInput::ReadFailed => after == session && state_after == state && reaction
                    is FinishFailed,
                StreamInput::Data(event) => {
                    &&& state_after == state
                    &&& after.last_ack == session.last_ack && after.waiting == session.waiting
                    &&& session.sequence < u32::MAX ==> after.sequence == session.sequence + 1
                    &&& session.sequence == u32::MAX ==> after.sequence == 0
                    &&& if exists|i: int|
                        0 <= i < state.analog_channels@.len() && event.channels@.dom().contains(
                            #[trigger] state.analog_channels@[i],
                        ) {
                        reaction == Reaction::Write(frame(state.scope(), event, after.sequence))
                    } else {
                        reaction is ReadAck
                    }
                },
                StreamInput::Written => after == session && state_after == (AppState {
                    last_sequence: session.sequence,
                    ..state
                }) && reaction is ReadAck,
                StreamInput::Ack(bytes) => {
                    &&& after.sequence == session.sequence && after.waiting == session.waiting
                    &&& after.last_ack == bytes@[0] + 0x100 * bytes@[1] + 0x1_0000 * bytes@[2]
                        + 0x100_0000 * bytes@[3]
                    &&& state_after == state && reaction is ReadAck
                },
                StreamInput::NoAck => if session.waiting {
                    after == session && state_after == state && reaction is Pause
                } else if ahead >= 5 {
                    after == (StreamSession { waiting: true, ..session }) && state_after == state
                        && reaction is ReadAck
                } else {
                    done
                },
                StreamInput::Paused => if ahead >= 5 {
                    after == session && state_after == state && reaction is ReadAck
                } else {
                    done
                },
            }
        }),
{
    if let StreamInput::Ack(bytes) = input {
        lemma_four_bytes(bytes);
        reveal_with_fuel(le_value, 5);
    }
    let ahead = if session.sequence >= session.last_ack {
        session.sequence - session.last_ack
    } else {
        session.sequence - session.last_ack + 0x1_0000_0000
    };
    assert(session.in_flight() == ahead);
}

/// How waveforms are counted: the number after the largest is zero, and as many are on their way as
/// lie between the last number and the one last acknowledged; five are too many.
pub proof fn law_waveforms_on_their_way(session: StreamSession)
    ensures
        session.next().last_ack == session.last_ack && session.next().waiting == session.waiting,
        session.next().sequence == if session.sequence == u32::MAX {
            0
        } else {
            session.sequence + 1
        },
        session.sequence >= session.last_ack ==> session.in_flight() == session.sequence
            - session.last_ack,
        session.sequence < session.last_ack ==> session.in_flight() == 0x1_0000_0000
            + session.sequence - session.last_ack,
        session.is_full() == (session.in_flight() >= 5),
{
}

/// What the sender is to do is seen as it is, with the very bytes of a frame.
pub proof fn law_actions_are_seen_as_they_are(action: StreamAction)
    ensures
        match action {
            StreamAction::Poll => action@ is Poll,
            StreamAction::Write(bytes) => action@ == Reaction::Write(bytes@),
            StreamAction::ReadAck => action@ is ReadAck,
            StreamAction::Pause => action@ is Pause,
            StreamAction::StopDevice => action@ is StopDevice,
            StreamAction::Finish => action@ is Finish,
            StreamAction::FinishClosed => action@ is FinishClosed,
            StreamAction::FinishFailed => action@ is FinishFailed,
        },
{
}

} // verus!
