use pico_common::PicoRange;
use pico_scopehal::device::{
    choose_device, describe, first_found, format_enumeration_errors, require_channels,
    select_device, DeviceError, DeviceInfo,
};
use pico_scopehal::floating::{Double, Single};
use pico_scopehal::hardware::{pick_range, voltage_to_range, InputRange};
use pico_scopehal::number::{
    parse_signed, parse_unsigned, to_decimal, to_signed_decimal, IntError,
};
use pico_scopehal::recorder::{
    keep_recording, NoChannel, Recorder, Sample, CHANNEL_A, CHANNEL_B,
};
use pico_scopehal::text::{
    contains, join, same_in_any_case, split_words, starts_with, to_uppercase, trim,
};
use std::collections::HashMap;

fn double(x: f64) -> Double {
    Double { bits: x.to_bits() }
}

fn single(x: f32) -> Single {
    Single { bits: x.to_bits() }
}

fn found(list: &[(&str, &str)]) -> Vec<DeviceInfo> {
    list.iter()
        .map(|(serial, variant)| DeviceInfo {
            serial: serial.to_string(),
            variant: variant.to_string(),
        })
        .collect()
}

#[test]
fn a_serial_number_selects_its_scope() {
    let devices = found(&[("AA1", "5242D"), ("bb2", "2204A"), ("BB2", "2205A")]);
    assert_eq!(choose_device(Some("BB2"), &devices, &vec![]), Ok(1));
    assert_eq!(choose_device(Some("aa1"), &devices, &vec![]), Ok(0));
    let missing = choose_device(Some("CC3"), &devices, &vec![]).unwrap_err();
    assert_eq!(
        missing.message(),
        "no PicoScope with serial CC3 found. Detected devices: AA1 (5242D), bb2 (2204A), BB2 (2205A)"
    );
    let missing = select_device(Some("X"), &found(&[]), &vec![]).unwrap_err();
    assert_eq!(missing, DeviceError::SerialNotFound("X".into(), "".into()));
}

#[test]
fn the_first_scope_of_the_2000_series_is_preferred() {
    let devices = found(&[("A", "5242D"), ("B", "3204"), ("C", "2204A"), ("D", "2205A")]);
    assert_eq!(choose_device(None, &devices, &vec![]), Ok(2));
    assert_eq!(choose_device(None, &found(&[("A", "5242D"), ("B", "ps2000a")]), &vec![]), Ok(1));
    assert_eq!(choose_device(None, &found(&[("A", "X"), ("B", "the 2000")]), &vec![]), Ok(1));
    assert_eq!(choose_device(None, &found(&[("A", "5242D"), ("B", "4824")]), &vec![]), Ok(0));
}

#[test]
fn a_search_without_a_scope_is_explained() {
    let none = choose_device(None, &found(&[]), &vec![]).unwrap_err();
    assert_eq!(none, DeviceError::NoneDetected);
    assert_eq!(none.message(), "no PicoScope devices detected over USB");
    let errors = vec!["driver missing".to_string(), "no access".to_string()];
    assert_eq!(format_enumeration_errors(&errors), "driver missing | no access");
    assert_eq!(
        choose_device(Some("A"), &found(&[]), &errors).unwrap_err().message(),
        "no PicoScope devices detected. driver missing | no access"
    );
    let nothing = select_device(None, &found(&[]), &vec![]).unwrap_err();
    assert_eq!(nothing.message(), "enumeration yielded no PicoScope devices");
    assert_eq!(describe(&found(&[("S", "V")])), vec!["S (V)"]);
}

#[test]
fn the_first_scope_found_is_taken() {
    assert_eq!(first_found(&vec![false, true, true]), Ok(1));
    assert_eq!(first_found(&vec![true]), Ok(0));
    let none = first_found(&vec![false]).unwrap_err();
    assert_eq!(none.message(), "No PicoScope device found");
    assert!(first_found(&vec![]).is_err());
}

#[test]
fn a_scope_needs_an_analog_channel() {
    assert_eq!(require_channels(&vec![3]), Ok(()));
    assert_eq!(
        require_channels(&vec![]).unwrap_err().message(),
        "device reports zero analog channels"
    );
}

#[test]
fn a_recording_lasts_as_long_as_asked() {
    assert!(keep_recording(0, 1));
    assert!(keep_recording(999, 1));
    assert!(!keep_recording(1000, 1));
    assert!(!keep_recording(0, 0));
    assert!(keep_recording(u64::MAX, u64::MAX));
}

#[test]
fn a_recording_has_a_column_for_each_channel() {
    let mut both = Recorder::new(true, true).ok().unwrap();
    assert_eq!(
        both.header(),
        vec!["Time (s)", "Sample #", "Channel A (V)", "Channel B (V)"]
    );
    let mut values = HashMap::new();
    values.insert(CHANNEL_B, "0.234567".to_string());
    values.insert(CHANNEL_A, "0.123456".to_string());
    assert_eq!(
        both.next_row("0.000000", &values),
        vec!["0.000000", "0", "0.123456", "0.234567"]
    );
    assert_eq!(
        both.next_row("0.001000", &values),
        vec!["0.001000", "1", "0.123456", "0.234567"]
    );
    assert_eq!(both.sample_count, 2);
    values.remove(&CHANNEL_A);
    assert_eq!(both.next_row("0.002000", &values), vec!["0.002000", "2", "0.234567"]);
    let only_b = Recorder::new(false, true).ok().unwrap();
    assert_eq!(only_b.header(), vec!["Time (s)", "Sample #", "Channel B (V)"]);
    let only_a = Recorder::new(true, false).ok().unwrap();
    assert_eq!(only_a.header(), vec!["Time (s)", "Sample #", "Channel A (V)"]);
}

#[test]
fn rows_are_numbered_on_over_events() {
    let mut recorder = Recorder::new(true, true).ok().unwrap();
    let mut rows = Vec::new();
    for (event, length) in [3, 0, 1, 4].into_iter().enumerate() {
        let samples: Vec<Sample> = (0..length)
            .map(|i| Sample {
                time: format!("{event}.{i}"),
                values: HashMap::from([
                    (CHANNEL_B, format!("b{i}")),
                    (CHANNEL_A, format!("a{i}")),
                    (7, "x".to_string()),
                ]),
            })
            .collect();
        let before = recorder.sample_count;
        rows.extend(recorder.rows(&samples));
        assert_eq!(recorder.sample_count, before + length);
    }
    assert_eq!(rows.len(), 8);
    for (number, row) in rows.iter().enumerate() {
        assert_eq!(row.len(), recorder.header().len());
        assert_eq!(row[1], number.to_string());
    }
    assert_eq!(rows[2], vec!["0.2", "2", "a2", "b2"]);
    assert_eq!(rows[3], vec!["2.0", "3", "a0", "b0"]);
}

#[test]
fn a_recording_needs_a_channel() {
    assert!(Recorder::new(false, false).is_err());
    assert_eq!(NoChannel.message(), "At least one channel must be enabled");
}

#[test]
fn ranges_agree_with_the_driver() {
    let ranges = [
        (PicoRange::X1_PROBE_20MV, InputRange::Mv20),
        (PicoRange::X1_PROBE_50MV, InputRange::Mv50),
        (PicoRange::X1_PROBE_100MV, InputRange::Mv100),
        (PicoRange::X1_PROBE_200MV, InputRange::Mv200),
        (PicoRange::X1_PROBE_500MV, InputRange::Mv500),
        (PicoRange::X1_PROBE_1V, InputRange::V1),
        (PicoRange::X1_PROBE_2V, InputRange::V2),
        (PicoRange::X1_PROBE_5V, InputRange::V5),
        (PicoRange::X1_PROBE_10V, InputRange::V10),
        (PicoRange::X1_PROBE_20V, InputRange::V20),
    ];
    for (range, picked) in ranges {
        let volts = range.get_max_scaled_value();
        assert_eq!(picked.volts_text(), volts.to_string());
        assert_eq!(pick_range(double(volts)), picked);
        assert_eq!(pick_range(double(-volts)), picked);
        assert_eq!(voltage_to_range(double(volts)), picked);
        let above = f64::from_bits(volts.to_bits() + 1);
        if picked != InputRange::V20 {
            assert_ne!(pick_range(double(above)), picked);
            assert_ne!(voltage_to_range(double(above)), picked);
        }
    }
    assert_eq!(voltage_to_range(double(-3.0)), InputRange::Mv20);
    assert_eq!(pick_range(double(-3.0)), InputRange::V5);
    assert_eq!(voltage_to_range(double(f64::NAN)), InputRange::V20);
    assert_eq!(voltage_to_range(double(f64::INFINITY)), InputRange::V20);
    assert_eq!(voltage_to_range(double(f64::NEG_INFINITY)), InputRange::Mv20);
}

#[test]
fn floating_point_numbers_compare_as_they_should() {
    let numbers = [
        f64::NEG_INFINITY, -1e300, -2.0, -1.0, -f64::MIN_POSITIVE, -5e-324, -0.0, 0.0, 5e-324,
        f64::MIN_POSITIVE, 0.02, 1.0, 1.5, 2.0, 1e300, f64::INFINITY, f64::NAN,
    ];
    for a in numbers {
        assert_eq!(double(a).abs().bits, a.abs().to_bits());
        for b in numbers {
            assert_eq!(double(a).at_most(double(b)), a <= b, "{a} {b}");
            if !b.is_nan() {
                assert_eq!(f64::from_bits(double(a).max(double(b)).bits), a.max(b), "{a} {b}");
            }
        }
    }
    let numbers = [
        f32::NEG_INFINITY, -1e30, -1.0, -f32::MIN_POSITIVE, -1e-45, -0.0, 0.0, 1e-45, 0.5, 99.5,
        100.0, 100.5, 1e30, f32::INFINITY, f32::NAN,
    ];
    for a in numbers {
        for b in numbers {
            assert_eq!(single(a).at_most(single(b)), a <= b, "{a} {b}");
            if !b.is_nan() {
                assert_eq!(f32::from_bits(single(a).max(single(b)).bits), a.max(b), "{a} {b}");
            }
        }
        assert_eq!(
            single(a).clamp(single(0.0), single(100.0)).bits,
            a.clamp(0.0, 100.0).to_bits(),
            "{a}"
        );
    }
}

#[test]
fn integers_are_read_and_written() {
    for text in ["", "+", "-", "0", "+7", "-0", "00012", "255", "256", "1a", "99999999999999999999x"] {
        assert_eq!(
            parse_unsigned(text, 255).map_err(|e| e.message().to_string()),
            text.parse::<u8>().map(u64::from).map_err(|e| e.to_string()),
            "{text}"
        );
        assert_eq!(
            parse_signed(text).map_err(|e| e.message().to_string()),
            text.parse::<i64>().map_err(|e| e.to_string()),
            "{text}"
        );
    }
    for text in ["-9223372036854775808", "-9223372036854775809", "9223372036854775807", "9223372036854775808"] {
        assert_eq!(
            parse_signed(text).map_err(|e| e.message().to_string()),
            text.parse::<i64>().map_err(|e| e.to_string()),
            "{text}"
        );
    }
    assert_eq!(parse_unsigned("", 9), Err(IntError::Empty));
    assert_eq!(parse_unsigned("x", 9), Err(IntError::InvalidDigit));
    assert_eq!(parse_unsigned("10", 9), Err(IntError::TooLarge));
    assert_eq!(parse_signed("-9999999999999999999"), Err(IntError::TooSmall));
    for n in [0u128, 9, 10, 1234567890, u128::MAX] {
        assert_eq!(to_decimal(n), n.to_string());
    }
    for n in [i64::MIN, -10, -1, 0, 1, i64::MAX] {
        assert_eq!(to_signed_decimal(n), n.to_string());
        assert_eq!(parse_signed(&to_signed_decimal(n)), Ok(n));
    }
}

#[test]
fn texts_are_handled_as_they_should() {
    for text in ["", " ", "a", " a b\tc \r\n", "\u{a0}x\u{3000}y\u{2028}", "é ß", "\u{b}z\u{85}"] {
        assert_eq!(trim(text), text.trim());
        assert_eq!(split_words(text), text.split_whitespace().collect::<Vec<_>>());
        assert_eq!(to_uppercase(text), text.to_ascii_uppercase());
        for part in ["", "a", "b\tc", "é", "zz"] {
            assert_eq!(contains(text, part), text.contains(part));
            assert_eq!(starts_with(text, part), text.starts_with(part));
        }
    }
    assert!(same_in_any_case("aWg", "AwG"));
    assert!(!same_in_any_case("awg", "awgs"));
    assert!(!same_in_any_case("é", "É"));
    assert_eq!(join(&vec![], ","), "");
    assert_eq!(join(&vec!["a".to_string(), "b".to_string(), "c".to_string()], ", "), "a, b, c");
}
