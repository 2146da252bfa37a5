use pico_scopehal::floating::Single;
use pico_scopehal::scpi::finish_start;
use pico_scopehal::state::{AppState, DeviceMetadata};
use pico_scopehal::waveform::{
    accept_step, encode_waveform, read_le_u32, stream_step, write_channel_header,
    write_waveform_header, AcceptStep, Acceptance, ChannelBlock, ChannelHeader, StreamAction,
    StreamInput, StreamSession, WaveformEvent, WaveformHeader, MAX_WAVEFORMS_IN_FLIGHT,
};
use pico_scopehal::ScpiState;
use std::collections::HashMap;

fn scope(channels: u64) -> AppState {
    AppState::new(
        (0..channels).collect(),
        32_512,
        DeviceMetadata {
            serial: "S".into(),
            variant: "2204A".into(),
            usb_version: "2.0".into(),
        },
    )
}

fn single(x: f32) -> Single {
    Single { bits: x.to_bits() }
}

fn event(samples_per_second: u32, blocks: Vec<(u64, f32, Vec<i16>)>) -> WaveformEvent {
    let mut channels = HashMap::new();
    for (id, multiplier, samples) in blocks {
        channels.insert(id, ChannelBlock { multiplier: single(multiplier), samples });
    }
    WaveformEvent { samples_per_second, channels }
}

/// The frame as a client builds it up.
fn expected(
    sequence: u32,
    fs: i64,
    channels: Vec<(u64, f32, f32, Vec<i16>)>,
) -> Vec<u8> {
    let mut bytes = Vec::new();
    bytes.extend(sequence.to_le_bytes());
    bytes.extend((channels.len() as u16).to_le_bytes());
    bytes.extend(fs.to_le_bytes());
    for (id, scale, offset, samples) in channels {
        bytes.extend(id.to_le_bytes());
        bytes.extend((samples.len() as u64).to_le_bytes());
        bytes.extend(scale.to_le_bytes());
        bytes.extend(offset.to_le_bytes());
        bytes.extend(0.0f32.to_le_bytes());
        for sample in samples {
            bytes.extend(sample.to_le_bytes());
        }
    }
    bytes
}

#[test]
fn headers_are_little_endian() {
    let mut out = vec![9];
    write_waveform_header(
        &mut out,
        &WaveformHeader {
            sequence: 0x0403_0201,
            num_channels: 0x0605,
            fs_per_sample: -2,
        },
    );
    assert_eq!(
        out,
        vec![9, 1, 2, 3, 4, 5, 6, 0xfe, 0xff, 0xff, 0xff, 0xff, 0xff, 0xff, 0xff]
    );
    let mut out = Vec::new();
    write_channel_header(
        &mut out,
        &ChannelHeader {
            index: 0x0807_0605_0403_0201,
            num_samples: 3,
            scale: single(1.5),
            offset: single(-2.0),
            trig_phase: single(0.0),
        },
    );
    let mut wanted = vec![1, 2, 3, 4, 5, 6, 7, 8, 3, 0, 0, 0, 0, 0, 0, 0];
    wanted.extend(1.5f32.to_le_bytes());
    wanted.extend((-2.0f32).to_le_bytes());
    wanted.extend([0, 0, 0, 0]);
    assert_eq!(out, wanted);
}

#[test]
fn a_frame_holds_the_channels_with_samples_in_order() {
    let mut state = scope(4);
    state.set_channel_offset(3, single(0.25));
    let data = event(
        2_000_000,
        vec![(3, 0.5, vec![-1, 2, i16::MIN]), (1, 0.125, vec![i16::MAX]), (9, 1.0, vec![5])],
    );
    assert_eq!(
        encode_waveform(&state, &data, 7),
        Some(expected(
            7,
            500_000_000,
            vec![
                (1, 0.125, 0.0, vec![i16::MAX]),
                (3, 0.5, 0.25, vec![-1, 2, i16::MIN]),
            ],
        ))
    );
}

#[test]
fn an_event_without_analog_channels_is_not_framed() {
    let state = scope(2);
    assert_eq!(encode_waveform(&state, &event(1, vec![]), 1), None);
    assert_eq!(encode_waveform(&state, &event(1, vec![(2, 1.0, vec![1])]), 1), None);
    assert!(encode_waveform(&state, &event(1, vec![(1, 1.0, vec![])]), 1).is_some());
}

#[test]
fn the_interval_falls_back_on_the_settings() {
    let mut state = scope(1);
    let data = event(0, vec![(0, 1.0, vec![])]);
    assert_eq!(
        encode_waveform(&state, &data, 1),
        Some(expected(1, 1_000_000, vec![(0, 1.0, 0.0, vec![])]))
    );
    assert!(finish_start(&mut state, 1, false, Some(3_000_000)).is_ok());
    assert_eq!(
        encode_waveform(&state, &data, 1),
        Some(expected(1, 333_333_333, vec![(0, 1.0, 0.0, vec![])]))
    );
}

#[test]
fn the_scale_is_kept_above_zero() {
    let state = scope(1);
    for multiplier in [0.0, -1.0, f32::NAN, f32::MIN_POSITIVE / 2.0] {
        assert_eq!(
            encode_waveform(&state, &event(1, vec![(0, multiplier, vec![])]), 1),
            Some(expected(1, 1_000_000_000_000_000, vec![(0, f32::MIN_POSITIVE, 0.0, vec![])]))
        );
    }
}

#[test]
fn acknowledgements_are_little_endian() {
    assert_eq!(read_le_u32([1, 2, 3, 4]), 0x0403_0201);
    assert_eq!(read_le_u32([0xff; 4]), u32::MAX);
}

#[test]
fn the_sender_waits_for_its_client() {
    let mut state = scope(1);
    let mut session = StreamSession::new();
    for number in 1..MAX_WAVEFORMS_IN_FLIGHT {
        let data = event(1, vec![(0, 1.0, vec![1])]);
        let wanted = encode_waveform(&state, &data, number).unwrap();
        match stream_step(&mut session, &mut state, StreamInput::Data(data)) {
            StreamAction::Write(bytes) => assert_eq!(bytes, wanted),
            _ => panic!("waveform {number} is sent"),
        }
        assert_eq!(state.last_sequence(), number - 1);
        let next = stream_step(&mut session, &mut state, StreamInput::Written);
        assert!(matches!(next, StreamAction::ReadAck));
        assert_eq!(state.last_sequence(), number);
        let next = stream_step(&mut session, &mut state, StreamInput::NoAck);
        assert!(matches!(next, StreamAction::Poll));
    }
    let data = event(1, vec![(0, 1.0, vec![1])]);
    let next = stream_step(&mut session, &mut state, StreamInput::Data(data));
    assert!(matches!(next, StreamAction::Write(_)));
    stream_step(&mut session, &mut state, StreamInput::Written);
    assert!(session.must_wait());
    let next = stream_step(&mut session, &mut state, StreamInput::NoAck);
    assert!(matches!(next, StreamAction::ReadAck));
    let next = stream_step(&mut session, &mut state, StreamInput::NoAck);
    assert!(matches!(next, StreamAction::Pause));
    let next = stream_step(&mut session, &mut state, StreamInput::Paused);
    assert!(matches!(next, StreamAction::ReadAck));
    let next = stream_step(&mut session, &mut state, StreamInput::Ack([1, 0, 0, 0]));
    assert!(matches!(next, StreamAction::ReadAck));
    assert_eq!(session.last_ack, 1);
    let next = stream_step(&mut session, &mut state, StreamInput::NoAck);
    assert!(matches!(next, StreamAction::Pause));
    let next = stream_step(&mut session, &mut state, StreamInput::Paused);
    assert!(matches!(next, StreamAction::Poll));
    assert!(!session.waiting);
}

#[test]
fn a_whole_session_is_numbered_on_and_stays_in_step() {
    let mut state = scope(1);
    let mut session = StreamSession::new();
    let mut action = StreamAction::Poll;
    let mut taken: u32 = 0;
    let mut latest: u32 = 0;
    let mut acks = [1u32, 3, 2, 5, 9, 9, 4, 12, 13, 20].into_iter();
    let mut reads = 0;
    while taken < 20 {
        let input = match action {
            StreamAction::Poll => {
                assert!(taken - session.last_ack < MAX_WAVEFORMS_IN_FLIGHT);
                taken += 1;
                StreamInput::Data(event(1, vec![(0, 1.0, vec![])]))
            }
            StreamAction::Write(bytes) => {
                assert_eq!(bytes[..4], taken.to_le_bytes());
                StreamInput::Written
            }
            StreamAction::ReadAck => {
                reads += 1;
                match acks.next() {
                    Some(number) if reads % 3 == 0 && number <= taken => {
                        latest = latest.max(number);
                        StreamInput::Ack(number.to_le_bytes())
                    }
                    Some(_) => StreamInput::NoAck,
                    None => {
                        latest = latest.max(taken);
                        if session.last_ack == taken {
                            StreamInput::NoAck
                        } else {
                            StreamInput::Ack(taken.to_le_bytes())
                        }
                    }
                }
            }
            StreamAction::Pause => StreamInput::Paused,
            _ => panic!("the session goes on"),
        };
        action = stream_step(&mut session, &mut state, input);
        assert!(taken - latest <= MAX_WAVEFORMS_IN_FLIGHT);
        assert_eq!(session.sequence, taken);
    }
}

#[test]
fn numbers_of_waveforms_wrap_around() {
    let mut state = scope(1);
    let mut session = StreamSession { sequence: u32::MAX, last_ack: u32::MAX, waiting: false };
    let data = event(1, vec![(0, 1.0, vec![])]);
    stream_step(&mut session, &mut state, StreamInput::Data(data));
    assert_eq!(session.sequence, 0);
    assert!(!session.must_wait());
    session.sequence = 4;
    assert!(session.must_wait());
    session.sequence = 3;
    assert!(!session.must_wait());
}

#[test]
fn a_skipped_event_takes_a_number_but_is_not_told() {
    let mut state = scope(1);
    let mut session = StreamSession::new();
    let next = stream_step(&mut session, &mut state, StreamInput::Data(event(1, vec![])));
    assert!(matches!(next, StreamAction::ReadAck));
    assert_eq!(session.sequence, 1);
    assert_eq!(state.last_sequence(), 0);
}

#[test]
fn a_single_acquisition_stops_the_device() {
    let mut state = scope(1);
    let mut session = StreamSession::new();
    assert!(finish_start(&mut state, 1, true, Some(1)).is_ok());
    let data = event(1, vec![(0, 1.0, vec![1])]);
    stream_step(&mut session, &mut state, StreamInput::Data(data));
    stream_step(&mut session, &mut state, StreamInput::Written);
    assert!(state.is_armed());
    let next = stream_step(&mut session, &mut state, StreamInput::NoAck);
    assert!(matches!(next, StreamAction::StopDevice));
    assert!(!state.is_armed());
}

#[test]
fn a_stream_ends() {
    let mut state = scope(1);
    let mut session = StreamSession::new();
    let next = stream_step(&mut session, &mut state, StreamInput::TimedOut);
    assert!(matches!(next, StreamAction::Poll));
    let next = stream_step(&mut session, &mut state, StreamInput::StopRequested);
    assert!(matches!(next, StreamAction::Finish));
    let next = stream_step(&mut session, &mut state, StreamInput::Disconnected);
    assert!(matches!(next, StreamAction::Finish));
    let next = stream_step(&mut session, &mut state, StreamInput::EndOfStream);
    assert!(matches!(next, StreamAction::FinishClosed));
    let next = stream_step(&mut session, &mut state, StreamInput::ReadFailed);
    assert!(matches!(next, StreamAction::FinishFailed));
    assert_eq!(session, StreamSession::new());
}

#[test]
fn one_client_is_served() {
    assert_eq!(accept_step(Acceptance::Accepted), AcceptStep::Serve);
    assert_eq!(accept_step(Acceptance::NobodyYet), AcceptStep::AcceptAgain);
    assert_eq!(accept_step(Acceptance::Stopped), AcceptStep::Finish);
    assert_eq!(accept_step(Acceptance::Failed), AcceptStep::Fail);
}
