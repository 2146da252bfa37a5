use pico_scopehal::error::{FloatError, ScpiError};
use pico_scopehal::floating::{Double, Single};
use pico_scopehal::hardware::{Coupling, InputRange};
use pico_scopehal::number::IntError;
use pico_scopehal::scpi::{
    channel_index_from_number, finish_start, looks_like_channel_subject, parse_channel_reference,
    parse_digital_subject, trigger_alias, DeviceAction, FloatArg, FloatValue,
};
use pico_scopehal::session::{
    carry_out, finish_started, reply_line, scpi_line, session_step, SessionStep,
};
use pico_scopehal::state::{AppState, DeviceMetadata, DEFAULT_MEMORY_DEPTHS, DEFAULT_SAMPLE_RATES};
use pico_scopehal::{
    parse_command, process_command, CommandResult, ParsedCommand, ScpiState, TriggerEdge,
    FS_PER_SECOND,
};

fn scope(channels: u64) -> AppState {
    AppState::new(
        (0..channels).collect(),
        32_512,
        DeviceMetadata {
            serial: "AB123/045".into(),
            variant: "2204A".into(),
            usb_version: "2.0".into(),
        },
    )
}

fn float_arg(command: &ParsedCommand<'_>) -> Option<FloatArg> {
    let text = command.args.first()?;
    let double: f64 = text.parse().ok()?;
    let single: f32 = text.parse().ok()?;
    Some(FloatArg {
        double: Double { bits: double.to_bits() },
        single: Single { bits: single.to_bits() },
    })
}

fn outcome(state: &mut AppState, line: &str) -> Result<CommandResult, ScpiError> {
    let command = parse_command(line).unwrap_or_else(|| panic!("no command in {line:?}"));
    process_command(state, &command, float_arg(&command))
}

/// The reply to a line, with numbers written out.
fn ask(state: &mut AppState, line: &str) -> String {
    match outcome(state, line) {
        Ok(CommandResult::Reply(text)) => text,
        Ok(CommandResult::Number(FloatValue::Double(x), n)) => {
            format!("{:.*}", n, f64::from_bits(x.bits))
        }
        Ok(CommandResult::Number(FloatValue::Single(x), n)) => {
            format!("{:.*}", n, f32::from_bits(x.bits))
        }
        other => panic!("{line} is answered with {other:?}"),
    }
}

fn silent(state: &mut AppState, line: &str) {
    assert_eq!(outcome(state, line), Ok(CommandResult::NoReply), "{line}");
}

fn device(state: &mut AppState, line: &str) -> DeviceAction {
    match outcome(state, line) {
        Ok(CommandResult::Device(action)) => action,
        other => panic!("{line} leads to {other:?}"),
    }
}

fn refused(state: &mut AppState, line: &str) -> String {
    match outcome(state, line) {
        Err(error) => error.message(),
        other => panic!("{line} leads to {other:?}"),
    }
}

#[test]
fn a_line_is_taken_apart() {
    let command = parse_command("  ::c1:range?  2.5 x ").unwrap();
    assert_eq!(command.subject, Some("c1"));
    assert_eq!(command.command, "RANGE");
    assert!(command.is_query);
    assert_eq!(command.args, vec!["2.5", "x"]);

    let command = parse_command("TRIG:EDGE:DIR any").unwrap();
    assert_eq!(command.subject, Some("TRIG"));
    assert_eq!(command.command, "EDGE:DIR");
    assert!(!command.is_query);
    assert_eq!(command.args, vec!["any"]);

    let command = parse_command("*idn?").unwrap();
    assert_eq!(command.subject, None);
    assert_eq!(command.command, "*IDN");
    assert!(command.is_query);
    assert!(command.args.is_empty());

    let command = parse_command(":").unwrap();
    assert_eq!(command.subject, None);
    assert_eq!(command.command, "");

    assert!(parse_command("").is_none());
    assert!(parse_command(" \t\u{a0}\u{2003}\r\n").is_none());
}

#[test]
fn a_command_is_put_behind_a_prefix() {
    let command = parse_command("LEV? 1").unwrap();
    let full = command.prefixed("trig");
    assert_eq!(full.subject, None);
    assert_eq!(full.command, "TRIG:LEV");
    assert!(full.is_query);
    assert_eq!(full.args, vec!["1"]);
    assert_eq!(parse_command("TRIG:").unwrap().prefixed("TRIG").command, "TRIG");
}

#[test]
fn trigger_commands_may_come_without_their_subject() {
    for name in ["DELAY", "LEV", "SOU", "EDGE:DIR"] {
        let mut command = parse_command("X").unwrap();
        command.command = name.into();
        assert_eq!(trigger_alias(&command).unwrap().command, format!("TRIG:{name}"));
    }
    assert!(trigger_alias(&parse_command("RATE").unwrap()).is_none());

    let mut state = scope(2);
    silent(&mut state, "SOU C2");
    assert_eq!(ask(&mut state, "trig:sou?"), "C2");
    silent(&mut state, "Trig:Delay -7");
    assert_eq!(ask(&mut state, "DELAY?"), "-7");
    silent(&mut state, "LEV 1.5");
    assert_eq!(ask(&mut state, "LEV?"), "1.500000");
}

#[test]
fn subjects_are_told_apart() {
    for name in ["C1", "ch2", "CHAN3", "CHx", "a", "Z", "12", "d4", " b "] {
        assert!(looks_like_channel_subject(name), "{name}");
    }
    for name in ["", " ", "1", "AWG", "TRIG", "1D0", "*", "A1B"] {
        assert!(!looks_like_channel_subject(name), "{name}");
    }
    assert_eq!(parse_digital_subject(" 1d0 "), Some("1D0".into()));
    assert_eq!(parse_digital_subject("2D"), Some("2D".into()));
    assert_eq!(parse_digital_subject("D1"), None);
    assert_eq!(parse_digital_subject("12"), None);
    assert_eq!(parse_digital_subject(""), None);
}

#[test]
fn channels_can_be_spelled_in_many_ways() {
    for text in ["C2", "c2", "CH2", "ch2", "CHAN2", "2", "+2", "B", "b", "X2", " C2 "] {
        assert_eq!(parse_channel_reference(text, 4), Ok(1), "{text}");
    }
    for letter in 'A'..='Z' {
        assert_eq!(parse_channel_reference(&format!("{letter}4"), 4), Ok(3));
        assert_eq!(
            parse_channel_reference(&format!("{letter}0"), 4),
            Err(ScpiError::ChannelOutOfRange(0))
        );
        assert_eq!(
            parse_channel_reference(&format!("{letter}5"), 4),
            Err(ScpiError::ChannelOutOfRange(5))
        );
    }
    assert_eq!(
        parse_channel_reference("X99999999999999999999999", 4),
        Err(ScpiError::UnknownChannel("X99999999999999999999999".into()))
    );
    assert_eq!(parse_channel_reference("D", 4), Ok(3));
    assert_eq!(parse_channel_reference("A", 1), Ok(0));
}

#[test]
fn channels_that_do_not_exist_are_refused() {
    assert_eq!(parse_channel_reference("C3", 2), Err(ScpiError::ChannelOutOfRange(3)));
    assert_eq!(parse_channel_reference("0", 2), Err(ScpiError::ChannelOutOfRange(0)));
    assert_eq!(parse_channel_reference("C", 4), Err(ScpiError::Integer(IntError::Empty)));
    assert_eq!(parse_channel_reference("CHAN", 4), Err(ScpiError::Integer(IntError::Empty)));
    assert_eq!(
        parse_channel_reference("CHANX", 4),
        Err(ScpiError::Integer(IntError::InvalidDigit))
    );
    assert_eq!(
        parse_channel_reference("C99999999999999999999999", 4),
        Err(ScpiError::Integer(IntError::TooLarge))
    );
    assert_eq!(
        parse_channel_reference("Z", 4),
        Err(ScpiError::UnknownChannel("Z".into()))
    );
    assert_eq!(
        parse_channel_reference(" ?x", 4).unwrap_err().message(),
        "unable to parse channel reference ' ?x'"
    );
    assert_eq!(channel_index_from_number(4, 4), Ok(3));
    assert_eq!(
        channel_index_from_number(5, 4).unwrap_err().message(),
        "channel index 5 out of range"
    );
}

#[test]
fn a_new_scope_has_its_defaults() {
    let mut state = scope(2);
    assert_eq!(ask(&mut state, "*IDN?"), "pico-scopehal-rs,2204A,AB123/045,0.1.0");
    assert_eq!(ask(&mut state, "CHANS?"), "2");
    assert_eq!(ask(&mut state, "SEQNUM?"), "0");
    assert_eq!(ask(&mut state, "RATE?"), "1000000000");
    assert_eq!(ask(&mut state, "DEPTH?"), "100000");
    assert_eq!(ask(&mut state, "BITS?"), "8");
    assert_eq!(ask(&mut state, "ARMED?"), "0");
    assert_eq!(ask(&mut state, "TRIG:SOU?"), "C1");
    assert_eq!(ask(&mut state, "TRIG:LEV?"), "0.000000");
    assert_eq!(ask(&mut state, "TRIG:DELAY?"), "0");
    assert_eq!(ask(&mut state, "TRIG:EDGE:DIR?"), "RISING");
    assert_eq!(ask(&mut state, "C1:STATE?"), "0");
    assert_eq!(ask(&mut state, "C1:COUP?"), "DC");
    assert_eq!(ask(&mut state, "C1:RANGE?"), "2");
    assert_eq!(ask(&mut state, "C1:OFFS?"), "0.000000");
    assert_eq!(ask(&mut state, "C1:BWLIM?"), "0");
    assert_eq!(ask(&mut state, "AWG:STATE?"), "0");
    assert_eq!(ask(&mut state, "AWG:FREQ?"), "1000.000000");
    assert_eq!(ask(&mut state, "AWG:DUTY?"), "50.000");
    assert_eq!(ask(&mut state, "AWG:RANGE?"), "1.000");
    assert_eq!(ask(&mut state, "AWG:OFF?"), "0.000000");
    assert_eq!(ask(&mut state, "AWG:SHAPE?"), "SINE");
    assert_eq!(ask(&mut state, "1D0:HYS?"), "0.000");
    assert_eq!(ask(&mut state, "1D0:THRESH?"), "0.000");
    assert_eq!(ask(&mut state, "1D:PRESENT?"), "0");
}

#[test]
fn rates_and_depths_are_listed() {
    let mut state = scope(1);
    let rates: Vec<String> = DEFAULT_SAMPLE_RATES
        .iter()
        .map(|rate| (FS_PER_SECOND / i64::from(*rate)).to_string())
        .collect();
    assert_eq!(ask(&mut state, "RATES?"), rates.join(","));
    assert!(ask(&mut state, "RATES?").starts_with("1000000,2000000,4000000,8000000,16000000,"));
    let depths: Vec<String> = DEFAULT_MEMORY_DEPTHS.iter().map(|d| d.to_string()).collect();
    assert_eq!(ask(&mut state, "DEPTHS?"), depths.join(","));
}

#[test]
fn the_rate_reads_back_and_others_are_refused() {
    let mut state = scope(1);
    silent(&mut state, "RATE +1907");
    assert_eq!(ask(&mut state, "rate?"), "1907");
    assert_eq!(refused(&mut state, "RATE 1908"), "unsupported sample rate 1908");
    assert_eq!(refused(&mut state, "RATE"), "RATE requires an argument");
    assert_eq!(refused(&mut state, "RATE x"), "invalid digit found in string");
    assert_eq!(refused(&mut state, "RATE -1"), "invalid digit found in string");
    assert_eq!(
        refused(&mut state, "RATE 4294967296"),
        "number too large to fit in target type"
    );
    assert_eq!(ask(&mut state, "RATE?"), "1907");
}

#[test]
fn the_depth_and_the_resolution_read_back() {
    let mut state = scope(1);
    silent(&mut state, "DEPTH 10000000");
    assert_eq!(ask(&mut state, "DEPTH?"), "10000000");
    assert_eq!(refused(&mut state, "DEPTH 7"), "unsupported sample depth 7");
    assert_eq!(refused(&mut state, "DEPTH"), "DEPTH requires an argument");
    assert_eq!(ask(&mut state, "DEPTH?"), "10000000");
    silent(&mut state, "BITS 16");
    assert_eq!(ask(&mut state, "BITS?"), "16");
    assert_eq!(refused(&mut state, "BITS 7"), "unsupported ADC resolution 7");
    assert_eq!(refused(&mut state, "BITS 17"), "unsupported ADC resolution 17");
    assert_eq!(refused(&mut state, "BITS"), "BITS requires a value");
    assert_eq!(ask(&mut state, "BITS?"), "16");
}

#[test]
fn the_trigger_reads_back() {
    let mut state = scope(4);
    for text in ["C3", "ch3", "CHAN3", "3"] {
        silent(&mut state, "SOU A");
        silent(&mut state, &format!("TRIG:SOU {text}"));
        assert_eq!(ask(&mut state, "TRIG:SOU?"), "C3");
    }
    assert_eq!(refused(&mut state, "TRIG:SOU"), "TRIG:SOU requires a channel");
    assert_eq!(refused(&mut state, "TRIG:SOU C5"), "channel index 5 out of range");
    assert_eq!(
        refused(&mut state, "TRIG:SOU !"),
        "unable to parse channel reference '!'"
    );
    silent(&mut state, "TRIG:LEV -2.5e-1");
    assert_eq!(ask(&mut state, "TRIG:LEV?"), "-0.250000");
    assert_eq!(refused(&mut state, "TRIG:LEV"), "TRIG:LEV requires a value");
    assert_eq!(refused(&mut state, "TRIG:LEV volts"), "invalid float literal");
    silent(&mut state, "TRIG:DELAY -9223372036854775808");
    assert_eq!(ask(&mut state, "TRIG:DELAY?"), "-9223372036854775808");
    assert_eq!(
        refused(&mut state, "TRIG:DELAY -9223372036854775809"),
        "number too small to fit in target type"
    );
    assert_eq!(
        refused(&mut state, "TRIG:DELAY 9223372036854775808"),
        "number too large to fit in target type"
    );
    assert_eq!(refused(&mut state, "TRIG:DELAY"), "TRIG:DELAY requires a value");
    for (word, edge) in [
        ("rising", "RISING"),
        ("FALLING", "FALLING"),
        ("Any", "EITHER"),
        ("EITHER", "EITHER"),
    ] {
        silent(&mut state, &format!("TRIG:EDGE:DIR {word}"));
        assert_eq!(ask(&mut state, "EDGE:DIR?"), edge);
        silent(&mut state, &format!("EDGE:DIR {edge}"));
        assert_eq!(ask(&mut state, "EDGE:DIR?"), edge);
    }
    assert_eq!(
        refused(&mut state, "TRIG:EDGE:DIR up"),
        "invalid trigger direction UP"
    );
    assert_eq!(
        refused(&mut state, "TRIG:EDGE:DIR"),
        "TRIG:EDGE:DIR requires a value"
    );
    assert_eq!(refused(&mut state, "TRIG:FOO"), "unsupported trigger command TRIG:FOO");
    assert_eq!(refused(&mut state, "TRIG"), "unsupported trigger command TRIG");
    assert_eq!(refused(&mut state, "TRIGGER?"), "unsupported trigger command TRIGGER");
}

#[test]
fn a_channel_reads_back_and_the_device_follows() {
    let mut state = scope(2);
    assert_eq!(
        device(&mut state, "C1:RANGE 5"),
        DeviceAction::DisableChannel { channel: 0 }
    );
    assert_eq!(
        device(&mut state, "C1:ON"),
        DeviceAction::EnableChannel {
            channel: 0,
            range: InputRange::V5,
            coupling: Coupling::DC,
        }
    );
    assert_eq!(ask(&mut state, "A:STATE?"), "1");
    assert_eq!(
        device(&mut state, "CHAN1:COUP ac"),
        DeviceAction::EnableChannel {
            channel: 0,
            range: InputRange::V5,
            coupling: Coupling::AC,
        }
    );
    assert_eq!(ask(&mut state, "C1:COUP?"), "AC");
    for (mode, told) in [("DC1M", "DC"), ("AC1M", "AC"), ("DC50", "DC"), ("AC", "AC"), ("dc", "DC")] {
        device(&mut state, &format!("C1:COUP {mode}"));
        assert_eq!(ask(&mut state, "C1:COUP?"), told);
    }
    silent(&mut state, "C1:OFFS 0.25");
    assert_eq!(ask(&mut state, "C1:OFFS?"), "0.250000");
    silent(&mut state, "C1:BWLIM 20");
    assert_eq!(ask(&mut state, "C1:BWLIM?"), "20");
    silent(&mut state, "C1:BWLIM 0");
    assert_eq!(ask(&mut state, "C1:BWLIM?"), "0");
    assert_eq!(state.channels[0].bandwidth_limit_mhz, None);
    assert_eq!(
        device(&mut state, "C1:OFF"),
        DeviceAction::DisableChannel { channel: 0 }
    );
    assert_eq!(ask(&mut state, "C1:STATE?"), "0");
    assert_eq!(ask(&mut state, "C1:RANGE?"), "5");
    assert_eq!(state.channels[1], Default::default());
}

#[test]
fn channel_commands_are_refused() {
    let mut state = scope(2);
    assert_eq!(refused(&mut state, "C3:ON"), "channel index 3 out of range");
    assert_eq!(refused(&mut state, "CHX:ON"), "invalid digit found in string");
    assert_eq!(
        refused(&mut state, "C1:COUP"),
        "channel coupling requires an argument"
    );
    assert_eq!(refused(&mut state, "C1:COUP gnd"), "unsupported coupling GND");
    assert_eq!(refused(&mut state, "C1:RANGE"), "channel range requires a value");
    assert_eq!(refused(&mut state, "C1:RANGE x"), "invalid float literal");
    assert_eq!(refused(&mut state, "C1:OFFS"), "channel offset requires a value");
    assert_eq!(
        refused(&mut state, "C1:BWLIM"),
        "channel bandwidth limit requires a value"
    );
    assert_eq!(refused(&mut state, "C1:BWLIM 1.5"), "invalid digit found in string");
    assert_eq!(
        refused(&mut state, "c1:foo?"),
        "unsupported channel command FOO for c1"
    );
    assert_eq!(
        refused(&mut state, "C1:STATE 1"),
        "unsupported channel command STATE for C1"
    );
}

#[test]
fn the_tightest_range_is_picked() {
    let mut state = scope(1);
    for (volts, told) in [
        ("0", "0.02"),
        ("0.02", "0.02"),
        ("0.020001", "0.05"),
        ("0.05", "0.05"),
        ("0.1", "0.1"),
        ("-0.1", "0.1"),
        ("0.2", "0.2"),
        ("0.5", "0.5"),
        ("0.75", "1"),
        ("1", "1"),
        ("1.1", "2"),
        ("5", "5"),
        ("10", "10"),
        ("10.5", "20"),
        ("1000", "20"),
        ("inf", "20"),
        ("NaN", "20"),
    ] {
        device(&mut state, &format!("C1:RANGE {volts}"));
        assert_eq!(ask(&mut state, "C1:RANGE?"), told, "{volts}");
    }
}

#[test]
fn the_function_generator_reads_back() {
    let mut state = scope(1);
    silent(&mut state, "awg:start");
    assert_eq!(ask(&mut state, "AWG:START?"), "1");
    assert_eq!(ask(&mut state, "AWG:STOP?"), "1");
    assert_eq!(ask(&mut state, "AWG:STATE?"), "1");
    silent(&mut state, "AWG:STOP");
    assert_eq!(ask(&mut state, "AWG:STATE?"), "0");
    silent(&mut state, "AWG:FREQ 2.5e6");
    assert_eq!(ask(&mut state, "AWG:FREQ?"), "2500000.000000");
    silent(&mut state, "AWG:FREQ -1");
    assert_eq!(ask(&mut state, "AWG:FREQ?"), "0.000000");
    silent(&mut state, "AWG:FREQ nan");
    assert_eq!(ask(&mut state, "AWG:FREQ?"), "0.000000");
    silent(&mut state, "AWG:DUTY 101");
    assert_eq!(ask(&mut state, "AWG:DUTY?"), "100.000");
    silent(&mut state, "AWG:DUTY -0.5");
    assert_eq!(ask(&mut state, "AWG:DUTY?"), "0.000");
    silent(&mut state, "AWG:DUTY 33.5");
    assert_eq!(ask(&mut state, "AWG:DUTY?"), "33.500");
    silent(&mut state, "AWG:DUTY nan");
    assert_eq!(ask(&mut state, "AWG:DUTY?"), "NaN");
    silent(&mut state, "AWG:RANGE 2");
    assert_eq!(ask(&mut state, "AWG:RANGE?"), "2.000");
    silent(&mut state, "AWG:RANGE -2");
    assert_eq!(ask(&mut state, "AWG:RANGE?"), "0.000");
    silent(&mut state, "AWG:OFF -0.5");
    assert_eq!(ask(&mut state, "AWG:OFFS?"), "-0.500000");
    silent(&mut state, "AWG:OFFS 0.75");
    assert_eq!(ask(&mut state, "AWG:OFF?"), "0.750000");
    for shape in [
        "SINE", "SQUARE", "TRIANGLE", "RAMP_UP", "RAMP_DOWN", "DC", "WHITENOISE", "PRBS", "ARBITRARY",
    ] {
        silent(&mut state, &format!("AWG:SHAPE {}", shape.to_ascii_lowercase()));
        assert_eq!(ask(&mut state, "AWG:SHAPE?"), shape);
    }
}

#[test]
fn generator_commands_are_refused() {
    let mut state = scope(1);
    assert_eq!(refused(&mut state, "AWG:FREQ"), "AWG:FREQ requires a value");
    assert_eq!(refused(&mut state, "AWG:DUTY"), "AWG:DUTY requires a value");
    assert_eq!(refused(&mut state, "AWG:RANGE"), "AWG:RANGE requires a value");
    assert_eq!(refused(&mut state, "AWG:OFFS"), "AWG:OFFS requires a value");
    assert_eq!(refused(&mut state, "AWG:SHAPE"), "AWG:SHAPE requires a value");
    assert_eq!(refused(&mut state, "AWG:SHAPE saw"), "unsupported AWG waveform SAW");
    assert_eq!(refused(&mut state, "AWG:FREQ fast"), "invalid float literal");
    assert_eq!(refused(&mut state, "AWG:STATE 1"), "unsupported AWG command STATE");
    assert_eq!(refused(&mut state, "AWG:"), "unsupported AWG command ");
    assert_eq!(ask(&mut state, "AWG:SHAPE?"), "SINE");
}

#[test]
fn digital_channels_read_back_one_by_one() {
    let mut state = scope(1);
    silent(&mut state, "1d0:HYS 0.3");
    assert_eq!(ask(&mut state, "1D0:HYS?"), "0.300");
    assert_eq!(ask(&mut state, "1D0:THRESH?"), "0.000");
    silent(&mut state, "1D0:THRESH 0.4");
    assert_eq!(ask(&mut state, "1d0:THRESH?"), "0.400");
    assert_eq!(ask(&mut state, "1D0:HYS?"), "0.300");
    assert_eq!(ask(&mut state, "1D1:HYS?"), "0.000");
    assert_eq!(ask(&mut state, "2D:PRESENT?"), "0");
    assert_eq!(refused(&mut state, "1D:PRESENT 1"), "PRESENT can only be queried");
    assert_eq!(refused(&mut state, "1D0:HYS"), "HYS requires a value");
    assert_eq!(refused(&mut state, "1D0:THRESH"), "THRESH requires a value");
    assert_eq!(refused(&mut state, "1D0:FOO"), "unsupported digital command FOO");
    state.set_digital_threshold(" 1d7 ", Single { bits: 1.0f32.to_bits() });
    assert_eq!(state.digital_threshold("1D7").bits, 1.0f32.to_bits());
}

#[test]
fn a_start_arms_and_a_stop_disarms() {
    let mut state = scope(1);
    silent(&mut state, "RATE 500000000");
    assert_eq!(
        device(&mut state, "START"),
        DeviceAction::Start { rate: 500_000_000, one_shot: false }
    );
    assert_eq!(ask(&mut state, "ARMED?"), "0");
    assert_eq!(
        finish_start(&mut state, 500_000_000, false, Some(499_000_000)),
        Ok(CommandResult::NoReply)
    );
    assert_eq!(ask(&mut state, "ARMED?"), "1");
    assert_eq!(state.sample_interval_fs(), FS_PER_SECOND / 499_000_000);
    assert_eq!(device(&mut state, "STOP"), DeviceAction::Stop);
    assert_eq!(ask(&mut state, "ARMED?"), "0");
    assert_eq!(
        device(&mut state, "SINGLE"),
        DeviceAction::Start { rate: 500_000_000, one_shot: true }
    );
    let failed = finish_start(&mut state, 500_000_000, true, None);
    assert_eq!(
        failed.unwrap_err().message(),
        "failed to start streaming at 500000000 Sa/s"
    );
    assert_eq!(ask(&mut state, "ARMED?"), "0");
    assert_eq!(outcome(&mut state, "EXIT"), Ok(CommandResult::Exit));
}

#[test]
fn a_force_asks_for_a_single_acquisition() {
    let mut state = scope(1);
    silent(&mut state, "RATE 1907");
    let single = DeviceAction::Start { rate: 1907, one_shot: true };
    assert_eq!(device(&mut state, "FORCE"), single);
    assert_eq!(device(&mut state, "SINGLE"), single);
    assert_eq!(ask(&mut state, "ARMED?"), "0");
    assert_eq!(finish_start(&mut state, 1907, true, Some(1907)), Ok(CommandResult::NoReply));
    assert_eq!(ask(&mut state, "ARMED?"), "1");
    assert_eq!(state.handle_waveform_complete(), Some(DeviceAction::Stop));
    assert_eq!(ask(&mut state, "ARMED?"), "0");
}

#[test]
fn a_single_acquisition_is_completed_once() {
    let mut state = scope(1);
    assert_eq!(finish_start(&mut state, 1, true, Some(1)), Ok(CommandResult::NoReply));
    assert_eq!(state.handle_waveform_complete(), Some(DeviceAction::Stop));
    assert!(!state.is_armed());
    assert_eq!(state.handle_waveform_complete(), None);
    assert_eq!(finish_start(&mut state, 1, false, Some(1)), Ok(CommandResult::NoReply));
    assert_eq!(state.handle_waveform_complete(), None);
    assert!(state.is_armed());
}

#[test]
fn unknown_commands_are_refused() {
    let mut state = scope(1);
    assert_eq!(refused(&mut state, "FOO"), "unsupported command FOO");
    assert_eq!(refused(&mut state, "foo:bar?"), "unsupported command FOO:BAR");
    assert_eq!(refused(&mut state, "*IDN"), "unsupported command *IDN");
    assert_eq!(refused(&mut state, "ARMED"), "unsupported command ARMED");
    assert_eq!(refused(&mut state, ":"), "unsupported command ");
    assert_eq!(
        outcome(&mut state, "CHANS"),
        Err(ScpiError::UnsupportedCommand("CHANS".into()))
    );
}

#[test]
fn an_empty_argument_is_no_number() {
    let mut state = scope(1);
    let command = ParsedCommand {
        subject: None,
        command: "LEV".into(),
        is_query: false,
        args: vec![""],
    };
    let refusal = process_command(&mut state, &command, None).unwrap_err();
    assert_eq!(refusal, ScpiError::Float(FloatError::Empty));
    assert_eq!(refusal.message(), "cannot parse float from empty string");
    let refusal = ParsedCommand { command: "RATE".into(), ..command };
    assert_eq!(
        process_command(&mut state, &refusal, None).unwrap_err().message(),
        "cannot parse integer from empty string"
    );
}

#[test]
fn the_case_of_a_line_does_not_matter() {
    let mut lower = scope(2);
    let mut upper = scope(2);
    for line in [
        "c2:range 0.3", "chan2:on", "b:coup ac1m", "trig:edge:dir falling", "sou b", "awg:shape prbs",
        "awg:freq 1e3", "1d3:hys 2", "bits 12", "depth 2000", "rate 1907",
    ] {
        assert_eq!(outcome(&mut lower, line), outcome(&mut upper, &line.to_ascii_uppercase()));
    }
    for query in ["c2:range?", "c2:coup?", "edge:dir?", "sou?", "awg:shape?", "1d3:hys?", "bits?"] {
        assert_eq!(ask(&mut lower, query), ask(&mut upper, query));
    }
}

#[test]
fn results_come_from_options() {
    assert_eq!(CommandResult::from(Some("x".to_string())), CommandResult::Reply("x".into()));
    assert_eq!(CommandResult::from(None), CommandResult::NoReply);
}

#[test]
fn edges_have_names() {
    assert_eq!(TriggerEdge::Rising.as_str(), "RISING");
    assert_eq!(TriggerEdge::Falling.as_str(), "FALLING");
    assert_eq!(TriggerEdge::Either.as_str(), "EITHER");
}

#[test]
fn all_channels_are_brought_in_line() {
    let mut state = scope(3);
    state.set_channel_enabled(1, true);
    assert_eq!(
        state.sync_all_channels(),
        vec![
            DeviceAction::DisableChannel { channel: 0 },
            DeviceAction::EnableChannel {
                channel: 1,
                range: InputRange::V2,
                coupling: Coupling::DC,
            },
            DeviceAction::DisableChannel { channel: 2 },
        ]
    );
}

#[test]
fn labels_name_their_channels() {
    let state = scope(1);
    assert_eq!(state.channel_label(0), "C1");
    assert_eq!(state.channel_label(25), "C26");
    assert_eq!(state.channel_label(190), "C191");
    assert_eq!(state.channel_label(0xd800 - 65), "C55232");
    for index in 0..30 {
        assert_eq!(parse_channel_reference(&state.channel_label(index), 30), Ok(index));
    }
}

#[test]
fn a_session_turns_outcomes_into_lines() {
    assert_eq!(scpi_line("  *IDN?\r\n"), Some("*IDN?"));
    assert_eq!(scpi_line(" \r\n"), None);
    assert_eq!(reply_line("8"), "8\n");
    let mut state = scope(1);
    match session_step(outcome(&mut state, "BITS?")) {
        SessionStep::Send(line) => assert_eq!(line, "8\n"),
        _ => panic!("a reply is sent"),
    }
    match session_step(outcome(&mut state, "BITS 99")) {
        SessionStep::Send(line) => assert_eq!(line, "ERR,unsupported ADC resolution 99\n"),
        _ => panic!("a refusal is sent"),
    }
    match session_step(outcome(&mut state, "LEV?")) {
        SessionStep::SendNumber(FloatValue::Double(x), 6) => assert_eq!(x.bits, 0),
        _ => panic!("a number is sent"),
    }
    assert!(matches!(session_step(outcome(&mut state, "BITS 9")), SessionStep::Continue));
    assert!(matches!(
        session_step(outcome(&mut state, "STOP")),
        SessionStep::Perform(DeviceAction::Stop)
    ));
    assert!(matches!(session_step(outcome(&mut state, "EXIT")), SessionStep::Close));
}

const LINES: [&str; 36] = [
    "*IDN?", "CHANS?", "RATE 1907", "RATE 5", "DEPTH 2000", "DEPTH x", "BITS 12", "BITS 40", "C1:ON",
    "C9:ON", "C2:COUP AC", "C2:COUP x", "C1:RANGE 0.3", "C1:OFFS 1", "C1:BWLIM 20", "TRIG:SOU C2",
    "TRIG:SOU C7", "LEV 1", "DELAY 9", "EDGE:DIR ANY", "EDGE:DIR x", "AWG:FREQ -3", "AWG:DUTY 300",
    "AWG:RANGE -1", "AWG:OFF 2", "AWG:SHAPE prbs", "AWG:SHAPE x", "AWG:START", "AWG:START?",
    "1D0:HYS 1", "1D0:THRESH?", "1D:PRESENT?", "FORCE?", "STOP", "FOO", "EXIT",
];

#[test]
fn commands_keep_the_scope_sound() {
    let mut state = scope(2);
    for line in LINES {
        let _ = outcome(&mut state, line);
        assert_eq!(state.idn(), "pico-scopehal-rs,2204A,AB123/045,0.1.0");
        assert_eq!(state.analog_channels, vec![0, 1]);
        assert_eq!(state.channels.len(), 2);
        assert!(state.trigger_source() < 2);
        assert!(DEFAULT_SAMPLE_RATES.contains(&state.sample_rate()));
        assert!(DEFAULT_MEMORY_DEPTHS.contains(&state.sample_depth()));
        assert!((8..=16).contains(&state.adc_bits()));
        assert!(f64::from_bits(state.awg.frequency_hz.bits) >= 0.0);
        assert!(f32::from_bits(state.awg.range_vpp.bits) >= 0.0);
        assert!((0.0..=100.0).contains(&f32::from_bits(state.awg.duty_cycle.bits)));
        assert_eq!(state.last_sequence(), 0);
    }
}

#[test]
fn replies_and_refusals_change_nothing() {
    let mut state = scope(2);
    for line in LINES {
        let before = (
            state.channels.clone(),
            state.acquisition,
            state.awg_state(),
            state.adc_bits(),
            state.digital_hysteresis("1D0"),
            state.digital_threshold("1D0"),
        );
        let result = outcome(&mut state, line);
        let after = (
            state.channels.clone(),
            state.acquisition,
            state.awg_state(),
            state.adc_bits(),
            state.digital_hysteresis("1D0"),
            state.digital_threshold("1D0"),
        );
        let answered = matches!(
            result,
            Ok(CommandResult::Reply(_)) | Ok(CommandResult::Number(_, _))
        );
        if answered || result.is_err() || line.ends_with('?') {
            assert_eq!(before, after, "{line}");
        }
        if answered {
            assert!(line.ends_with('?'), "{line}");
        }
    }
}

#[test]
fn blanks_around_a_line_do_not_matter() {
    for line in ["  rate  1907\t", "\u{2003}C1:RANGE?\r\n", "x"] {
        let bare = parse_command(line.trim()).unwrap();
        let command = parse_command(line).unwrap();
        assert_eq!(command.subject, bare.subject);
        assert_eq!(command.command, bare.command);
        assert_eq!(command.is_query, bare.is_query);
        assert_eq!(command.args, bare.args);
    }
}

/// All that a client is sent for its lines by a device that starts at `actual`, all that is asked
/// of the device, and how many lines are read.
fn converse(
    state: &mut AppState,
    actual: Option<u32>,
    lines: &[&str],
) -> (String, Vec<DeviceAction>, usize) {
    let mut output = String::new();
    let mut asked = Vec::new();
    let mut read = 0;
    for raw in lines {
        read += 1;
        let Some(line) = scpi_line(raw) else {
            continue;
        };
        let command = parse_command(line).unwrap();
        let mut step = carry_out(state, &command, float_arg(&command));
        if let SessionStep::Perform(action) = step {
            asked.push(action);
            step = match action {
                DeviceAction::Start { rate, one_shot } => {
                    finish_started(state, rate, one_shot, actual)
                }
                _ => SessionStep::Continue,
            };
        }
        match step {
            SessionStep::Send(text) => output.push_str(&text),
            SessionStep::SendNumber(FloatValue::Double(x), n) => {
                output.push_str(&reply_line(&format!("{:.*}", n, f64::from_bits(x.bits))))
            }
            SessionStep::SendNumber(FloatValue::Single(x), n) => {
                output.push_str(&reply_line(&format!("{:.*}", n, f32::from_bits(x.bits))))
            }
            SessionStep::Perform(_) | SessionStep::Continue => {}
            SessionStep::Close => break,
        }
    }
    (output, asked, read)
}

#[test]
fn a_whole_session_is_answered_in_order_until_its_end() {
    let mut state = scope(2);
    let lines = [
        "BITS 12\n", " \n", "BITS?\n", "BITS 99\n", "BITS?\n", "LEV 1.5\n", "LEV?\n", "C2:ON\n",
        "START\n", "ARMED?\n", "exit now\n", "BITS 9\n", "BITS?\n",
    ];
    let (output, asked, read) = converse(&mut state, Some(7), &lines);
    assert_eq!(output, "12\nERR,unsupported ADC resolution 99\n12\n1.500000\n1\n");
    assert_eq!(
        asked,
        vec![
            DeviceAction::EnableChannel {
                channel: 1,
                range: InputRange::V2,
                coupling: Coupling::DC,
            },
            DeviceAction::Start { rate: 1_000_000_000, one_shot: false },
        ]
    );
    assert_eq!(read, 11);
    assert_eq!(state.adc_bits(), 12);
    assert_eq!(state.max_adc, 32_512);
    assert_eq!(state.metadata.usb_version, "2.0");
}

#[test]
fn a_session_goes_on_after_a_refusal() {
    let mut plain = scope(2);
    let mut refused = scope(2);
    let (without, _, _) = converse(&mut plain, None, &["RATE 1907", "RATE?", "ARMED?"]);
    let (with, asked, _) = converse(
        &mut refused,
        None,
        &["RATE 1907", "FOO", "RATE?", "SINGLE", "ARMED?"],
    );
    assert_eq!(without, "1907\n0\n");
    assert_eq!(
        with,
        "ERR,unsupported command FOO\n1907\nERR,failed to start streaming at 1907 Sa/s\n0\n"
    );
    assert_eq!(asked, vec![DeviceAction::Start { rate: 1907, one_shot: true }]);
    assert_eq!(plain.acquisition, refused.acquisition);
}

#[test]
fn a_subject_is_of_one_family() {
    for subject in ["C1", "ch", "B", "12", "AWG", "awg", "1D", "12d3", "TRIG", "trig", "FOO", ""] {
        let families = [
            looks_like_channel_subject(subject),
            subject.eq_ignore_ascii_case("AWG"),
            parse_digital_subject(subject).is_some(),
            subject.eq_ignore_ascii_case("TRIG"),
        ];
        assert!(families.iter().filter(|is_in| **is_in).count() <= 1, "{subject}");
    }
}
