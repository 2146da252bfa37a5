//! What the scope's inputs can be set to: coupling and full-scale range.

use pico_common::{PicoCoupling, PicoRange};
use vstd::prelude::*;
use vstd::arithmetic::power2::{lemma2_to64, lemma2_to64_rest, lemma_pow2_adds, pow2};
use crate::floating::Double;
use crate::number::{decimal, digit_char};

verus! {

/// How an analog input is coupled.
#[derive(Clone, Copy, Debug, PartialEq, Eq, Structural)]
pub enum Coupling {
    AC,
    DC,
}

impl Coupling {
    pub open spec fn name(self) -> Seq<char> {
        match self {
            Coupling::AC => "AC"@,
            Coupling::DC => "DC"@,
        }
    }
}

/// The text that `PicoCoupling`'s `Display` gives (through `to_string`): it writes the name of
/// the variant, `AC` or `DC`.
#[verifier::external_body]
pub(crate) fn coupling_name(coupling: Coupling) -> (r: String)
    ensures
        r@ == coupling.name(),
{
    match coupling {
        Coupling::AC => PicoCoupling::AC.to_string(),
        Coupling::DC => PicoCoupling::DC.to_string(),
    }
}

/// The full-scale ranges of an analog input, from the most to the least sensitive.
#[derive(Clone, Copy, Debug, PartialEq, Eq, Structural)]
pub enum InputRange {
    Mv20,
    Mv50,
    Mv100,
    Mv200,
    Mv500,
    V1,
    V2,
    V5,
    V10,
    V20,
}

impl InputRange {
    /// Full scale in millivolts.
    pub open spec fn millivolts(self) -> nat {
        match self {
            InputRange::Mv20 => 20,
            InputRange::Mv50 => 50,
            InputRange::Mv100 => 100,
            InputRange::Mv200 => 200,
            InputRange::Mv500 => 500,
            InputRange::V1 => 1000,
            InputRange::V2 => 2000,
            InputRange::V5 => 5000,
            InputRange::V10 => 10000,
            InputRange::V20 => 20000,
        }
    }

    /// Full scale in volts, as the nearest number of 64 bits.
    pub open spec fn full_scale(self) -> Double {
        Double {
            bits: match self {
                InputRange::Mv20 => 0x3f94_7ae1_47ae_147b,
                InputRange::Mv50 => 0x3fa9_9999_9999_999a,
                InputRange::Mv100 => 0x3fb9_9999_9999_999a,
                InputRange::Mv200 => 0x3fc9_9999_9999_999a,
                InputRange::Mv500 => 0x3fe0_0000_0000_0000,
                InputRange::V1 => 0x3ff0_0000_0000_0000,
                InputRange::V2 => 0x4000_0000_0000_0000,
                InputRange::V5 => 0x4014_0000_0000_0000,
                InputRange::V10 => 0x4024_0000_0000_0000,
                InputRange::V20 => 0x4034_0000_0000_0000,
            },
        }
    }

    /// Full scale in volts, as the shortest decimal text.
    pub open spec fn volts(self) -> Seq<char> {
        match self {
            InputRange::Mv20 => "0.02"@,
            InputRange::Mv50 => "0.05"@,
            InputRange::Mv100 => "0.1"@,
            InputRange::Mv200 => "0.2"@,
            InputRange::Mv500 => "0.5"@,
            InputRange::V1 => "1"@,
            InputRange::V2 => "2"@,
            InputRange::V5 => "5"@,
            InputRange::V10 => "10"@,
            InputRange::V20 => "20"@,
        }
    }

    /// `PicoRange::get_max_scaled_value` of the range with the same name, as a bit pattern: full
    /// scale in volts, as the nearest number of 64 bits.
    #[verifier::external_body]
    pub(crate) fn max_scaled_value(self) -> (r: Double)
        ensures
            r == self.full_scale(),
    {
        let range = match self {
            InputRange::Mv20 => PicoRange::X1_PROBE_20MV,
            InputRange::Mv50 => PicoRange::X1_PROBE_50MV,
            InputRange::Mv100 => PicoRange::X1_PROBE_100MV,
            InputRange::Mv200 => PicoRange::X1_PROBE_200MV,
            InputRange::Mv500 => PicoRange::X1_PROBE_500MV,
            InputRange::V1 => PicoRange::X1_PROBE_1V,
            InputRange::V2 => PicoRange::X1_PROBE_2V,
            InputRange::V5 => PicoRange::X1_PROBE_5V,
            InputRange::V10 => PicoRange::X1_PROBE_10V,
            InputRange::V20 => PicoRange::X1_PROBE_20V,
        };
        Double { bits: range.get_max_scaled_value().to_bits() }
    }

    /// Full scale in volts, as the shortest decimal text.
    pub fn volts_text(self) -> (r: &'static str)
        ensures
            r@ == self.volts(),
    {
        match self {
            InputRange::Mv20 => "0.02",
            InputRange::Mv50 => "0.05",
            InputRange::Mv100 => "0.1",
            InputRange::Mv200 => "0.2",
            InputRange::Mv500 => "0.5",
            InputRange::V1 => "1",
            InputRange::V2 => "2",
            InputRange::V5 => "5",
            InputRange::V10 => "10",
            InputRange::V20 => "20",
        }
    }
}

/// The ranges that a setting can pick, from the most to the least sensitive.
pub const SUPPORTED_RANGES: [InputRange; 10] = [
    InputRange::Mv20,
    InputRange::Mv50,
    InputRange::Mv100,
    InputRange::Mv200,
    InputRange::Mv500,
    InputRange::V1,
    InputRange::V2,
    InputRange::V5,
    InputRange::V10,
    InputRange::V20,
];

/// The most sensitive range whose full scale `volts` does not exceed, and the least sensitive
/// one where there is none; no comparison with a NaN holds, so a NaN gets the latter.
pub open spec fn covering(volts: Double) -> InputRange {
    if volts.le(InputRange::Mv20.full_scale()) {
        InputRange::Mv20
    } else if volts.le(InputRange::Mv50.full_scale()) {
        InputRange::Mv50
    } else if volts.le(InputRange::Mv100.full_scale()) {
        InputRange::Mv100
    } else if volts.le(InputRange::Mv200.full_scale()) {
        InputRange::Mv200
    } else if volts.le(InputRange::Mv500.full_scale()) {
        InputRange::Mv500
    } else if volts.le(InputRange::V1.full_scale()) {
        InputRange::V1
    } else if volts.le(InputRange::V2.full_scale()) {
        InputRange::V2
    } else if volts.le(InputRange::V5.full_scale()) {
        InputRange::V5
    } else if volts.le(InputRange::V10.full_scale()) {
        InputRange::V10
    } else {
        InputRange::V20
    }
}

/// The input range for a full-scale voltage.
pub fn voltage_to_range(voltage: Double) -> (r: InputRange)
    ensures
        r == covering(voltage),
{
    if voltage.at_most(Double { bits: 0x3f94_7ae1_47ae_147b }) {
        InputRange::Mv20
    } else if voltage.at_most(Double { bits: 0x3fa9_9999_9999_999a }) {
        InputRange::Mv50
    } else if voltage.at_most(Double { bits: 0x3fb9_9999_9999_999a }) {
        InputRange::Mv100
    } else if voltage.at_most(Double { bits: 0x3fc9_9999_9999_999a }) {
        InputRange::Mv200
    } else if voltage.at_most(Double { bits: 0x3fe0_0000_0000_0000 }) {
        InputRange::Mv500
    } else if voltage.at_most(Double { bits: 0x3ff0_0000_0000_0000 }) {
        InputRange::V1
    } else if voltage.at_most(Double { bits: 0x4000_0000_0000_0000 }) {
        InputRange::V2
    } else if voltage.at_most(Double { bits: 0x4014_0000_0000_0000 }) {
        InputRange::V5
    } else if voltage.at_most(Double { bits: 0x4024_0000_0000_0000 }) {
        InputRange::V10
    } else {
        InputRange::V20
    }
}

/// The input range for a full-scale setting in volts, whatever its sign.
pub fn pick_range(volts: Double) -> (r: InputRange)
    ensures
        r == covering(volts.spec_abs()),
{
    let desired = volts.abs();
    let supported = SUPPORTED_RANGES;
    let mut i: usize = 0;
    while i < supported.len()
        invariant
            i <= supported@.len(),
            supported@ == SUPPORTED_RANGES@,
            desired == volts.spec_abs(),
            forall|j: int| 0 <= j < i ==> !desired.le((#[trigger] supported@[j]).full_scale()),
        decreases supported@.len() - i,
    {
        if desired.at_most(supported[i].max_scaled_value()) {
            return supported[i];
        }
        i = i + 1;
    }
    InputRange::V20
}

/// The range that is picked for a voltage covers it unless no range does, and no more
/// sensitive range covers it.
pub proof fn law_picked_range_is_the_tightest(volts: Double, other: InputRange)
    ensures
        volts.le(covering(volts).full_scale()) || !volts.le(InputRange::V20.full_scale()),
        other.millivolts() < covering(volts).millivolts() ==> !volts.le(other.full_scale()),
        volts.is_nan() ==> covering(volts) == InputRange::V20,
{
}

/// The full-scale pattern of every range stands for the number nearest to its millivolts:
/// their distance is at most half the distance between two neighbouring numbers.
pub proof fn law_full_scale_is_nearest(range: InputRange)
    ensures
        !range.full_scale().is_nan(),
        !range.full_scale().is_negative(),
        ({
            let spacing = pow2((range.full_scale().magnitude() / 0x10_0000_0000_0000 - 1) as nat);
            let error = range.full_scale().value() * 1000 - range.millivolts() * pow2(1074);
            -500 * spacing <= error <= 500 * spacing
        }),
{
    let magnitude = range.full_scale().magnitude();
    let unit: nat = 0x10_0000_0000_0000;
    let e = magnitude / unit;
    let m = magnitude % unit;
    lemma2_to64();
    lemma2_to64_rest();
    assert(pow2(52) == unit);
    let spacing = pow2((e - 1) as nat);
    let rest = pow2((1075 - e) as nat);
    lemma_pow2_adds((e - 1) as nat, (1075 - e) as nat);
    assert(pow2(1074) == spacing * rest);
    assert(range.full_scale().value() == (unit + m) * spacing);
    let mv = range.millivolts() as int;
    let near = (unit + m) * 1000 - mv * rest;
    match range {
        InputRange::Mv20 => {
            assert(e == 1017 && m == 0x4_7ae1_47ae_147b && rest == 0x400_0000_0000_0000);
            assert(mv * rest == 20 * 0x400_0000_0000_0000) by (nonlinear_arith)
                requires
                    mv == 20,
                    rest == 0x400_0000_0000_0000,
            ;
        },
        InputRange::Mv50 => {
            assert(e == 1018 && m == 0x9_9999_9999_999a && rest == 0x200_0000_0000_0000);
            assert(mv * rest == 50 * 0x200_0000_0000_0000) by (nonlinear_arith)
                requires
                    mv == 50,
                    rest == 0x200_0000_0000_0000,
            ;
        },
        InputRange::Mv100 => {
            assert(e == 1019 && m == 0x9_9999_9999_999a && rest == 0x100_0000_0000_0000);
            assert(mv * rest == 100 * 0x100_0000_0000_0000) by (nonlinear_arith)
                requires
                    mv == 100,
                    rest == 0x100_0000_0000_0000,
            ;
        },
        InputRange::Mv200 => {
            assert(e == 1020 && m == 0x9_9999_9999_999a && rest == 0x80_0000_0000_0000);
            assert(mv * rest == 200 * 0x80_0000_0000_0000) by (nonlinear_arith)
                requires
                    mv == 200,
                    rest == 0x80_0000_0000_0000,
            ;
        },
        InputRange::Mv500 => {
            assert(e == 1022 && m == 0x0 && rest == 0x20_0000_0000_0000);
            assert(mv * rest == 500 * 0x20_0000_0000_0000) by (nonlinear_arith)
                requires
                    mv == 500,
                    rest == 0x20_0000_0000_0000,
            ;
        },
        InputRange::V1 => {
            assert(e == 1023 && m == 0x0 && rest == 0x10_0000_0000_0000);
            assert(mv * rest == 1000 * 0x10_0000_0000_0000) by (nonlinear_arith)
                requires
                    mv == 1000,
                    rest == 0x10_0000_0000_0000,
            ;
        },
        InputRange::V2 => {
            assert(e == 1024 && m == 0x0 && rest == 0x8_0000_0000_0000);
            assert(mv * rest == 2000 * 0x8_0000_0000_0000) by (nonlinear_arith)
                requires
                    mv == 2000,
                    rest == 0x8_0000_0000_0000,
            ;
        },
        InputRange::V5 => {
            assert(e == 1025 && m == 0x4_0000_0000_0000 && rest == 0x4_0000_0000_0000);
            assert(mv * rest == 5000 * 0x4_0000_0000_0000) by (nonlinear_arith)
                requires
                    mv == 5000,
                    rest == 0x4_0000_0000_0000,
            ;
        },
        InputRange::V10 => {
            assert(e == 1026 && m == 0x4_0000_0000_0000 && rest == 0x2_0000_0000_0000);
            assert(mv * rest == 10000 * 0x2_0000_0000_0000) by (nonlinear_arith)
                requires
                    mv == 10000,
                    rest == 0x2_0000_0000_0000,
            ;
        },
        InputRange::V20 => {
            assert(e == 1027 && m == 0x4_0000_0000_0000 && rest == 0x1_0000_0000_0000);
            assert(mv * rest == 20000 * 0x1_0000_0000_0000) by (nonlinear_arith)
                requires
                    mv == 20000,
                    rest == 0x1_0000_0000_0000,
            ;
        },
    }
    assert(-500 <= near <= 500);
    assert((unit + m) * spacing * 1000 - mv * (spacing * rest) == near * spacing)
        by (nonlinear_arith)
        requires
            near == (unit + m) * 1000 - mv * rest,
    ;
    assert(-500 * spacing <= near * spacing <= 500 * spacing) by (nonlinear_arith)
        requires
            -500 <= near <= 500,
            spacing >= 0,
    ;
}

/// A number of thousandths as a decimal text, with no zeros at the end of its fraction and no
/// point where there is no fraction.
pub open spec fn thousandths(n: nat) -> Seq<char> {
    let fraction = n % 1000;
    decimal(n / 1000) + if fraction == 0 {
        seq![]
    } else if fraction % 100 == 0 {
        seq!['.', digit_char(fraction / 100)]
    } else if fraction % 10 == 0 {
        seq!['.', digit_char(fraction / 100), digit_char(fraction / 10 % 10)]
    } else {
        seq![
            '.',
            digit_char(fraction / 100),
            digit_char(fraction / 10 % 10),
            digit_char(fraction % 10),
        ]
    }
}

/// The text of every range is its full scale in volts: its millivolts, divided by a thousand.
pub proof fn law_volts_text_is_full_scale(range: InputRange)
    ensures
        range.volts() == thousandths(range.millivolts()),
{
    reveal_with_fuel(decimal, 3);
    match range {
        InputRange::Mv20 => {
            reveal_strlit("0.02");
        },
        InputRange::Mv50 => {
            reveal_strlit("0.05");
        },
        InputRange::Mv100 => {
            reveal_strlit("0.1");
        },
        InputRange::Mv200 => {
            reveal_strlit("0.2");
        },
        InputRange::Mv500 => {
            reveal_strlit("0.5");
        },
        InputRange::V1 => {
            reveal_strlit("1");
        },
        InputRange::V2 => {
            reveal_strlit("2");
        },
        InputRange::V5 => {
            reveal_strlit("5");
        },
        InputRange::V10 => {
            reveal_strlit("10");
        },
        InputRange::V20 => {
            reveal_strlit("20");
        },
    }
}

} // verus!
