//! Why a command is refused.

use vstd::prelude::*;
use crate::number::{decimal, to_decimal, IntError};

verus! {

/// Why a text is not a floating-point number.
#[derive(Clone, Copy, Debug, PartialEq, Eq, Structural)]
pub enum FloatError {
    Empty,
    Invalid,
}

impl FloatError {
    pub open spec fn text(self) -> Seq<char> {
        match self {
            FloatError::Empty => "cannot parse float from empty string"@,
            FloatError::Invalid => "invalid float literal"@,
        }
    }

    /// The error in words.
    pub fn message(self) -> (r: &'static str)
        ensures
            r@ == self.text(),
    {
        match self {
            FloatError::Empty => "cannot parse float from empty string",
            FloatError::Invalid => "invalid float literal",
        }
    }
}

/// The reasons for which a command is refused.
#[derive(Debug, PartialEq, Eq)]
pub enum ScpiError {
    /// A setting came without its value; the text says which.
    MissingArgument(&'static str),
    /// A value is no integer of the setting's type.
    Integer(IntError),
    /// A value is no floating-point number.
    Float(FloatError),
    UnsupportedCommand(String),
    UnsupportedTriggerCommand(String),
    UnsupportedChannelCommand(String, String),
    UnsupportedAwgCommand(String),
    UnsupportedDigitalCommand(String),
    /// `PRESENT` was used as a setting.
    PresentIsAQuery,
    InvalidTriggerDirection(String),
    UnsupportedCoupling(String),
    UnsupportedWaveform(String),
    ChannelOutOfRange(usize),
    UnknownChannel(String),
    UnsupportedSampleRate(u32),
    UnsupportedSampleDepth(usize),
    UnsupportedResolution(u32),
    /// The device did not start to stream at the sample rate.
    StartFailed(u32),
}

/// A refusal with its texts as sequences of characters.
pub enum Refusal {
    MissingArgument(Seq<char>),
    Integer(IntError),
    Float(FloatError),
    UnsupportedCommand(Seq<char>),
    UnsupportedTriggerCommand(Seq<char>),
    UnsupportedChannelCommand(Seq<char>, Seq<char>),
    UnsupportedAwgCommand(Seq<char>),
    UnsupportedDigitalCommand(Seq<char>),
    PresentIsAQuery,
    InvalidTriggerDirection(Seq<char>),
    UnsupportedCoupling(Seq<char>),
    UnsupportedWaveform(Seq<char>),
    ChannelOutOfRange(nat),
    UnknownChannel(Seq<char>),
    UnsupportedSampleRate(u32),
    UnsupportedSampleDepth(usize),
    UnsupportedResolution(u32),
    StartFailed(u32),
}

impl View for ScpiError {
    type V = Refusal;

    open spec fn view(&self) -> Refusal {
        match self {
            ScpiError::MissingArgument(t) => Refusal::MissingArgument(t@),
            ScpiError::Integer(e) => Refusal::Integer(*e),
            ScpiError::Float(e) => Refusal::Float(*e),
            ScpiError::UnsupportedCommand(t) => Refusal::UnsupportedCommand(t@),
            ScpiError::UnsupportedTriggerCommand(t) => Refusal::UnsupportedTriggerCommand(t@),
            ScpiError::UnsupportedChannelCommand(t, u) => Refusal::UnsupportedChannelCommand(
                t@,
                u@,
            ),
            ScpiError::UnsupportedAwgCommand(t) => Refusal::UnsupportedAwgCommand(t@),
            ScpiError::UnsupportedDigitalCommand(t) => Refusal::UnsupportedDigitalCommand(t@),
            ScpiError::PresentIsAQuery => Refusal::PresentIsAQuery,
            ScpiError::InvalidTriggerDirection(t) => Refusal::InvalidTriggerDirection(t@),
            ScpiError::UnsupportedCoupling(t) => Refusal::UnsupportedCoupling(t@),
            ScpiError::UnsupportedWaveform(t) => Refusal::UnsupportedWaveform(t@),
            ScpiError::ChannelOutOfRange(n) => Refusal::ChannelOutOfRange(*n as nat),
            ScpiError::UnknownChannel(t) => Refusal::UnknownChannel(t@),
            ScpiError::UnsupportedSampleRate(n) => Refusal::UnsupportedSampleRate(*n),
            ScpiError::UnsupportedSampleDepth(n) => Refusal::UnsupportedSampleDepth(*n),
            ScpiError::UnsupportedResolution(n) => Refusal::UnsupportedResolution(*n),
            ScpiError::StartFailed(n) => Refusal::StartFailed(*n),
        }
    }
}

impl Refusal {
    /// The refusal in words, as the client is told.
    pub open spec fn text(self) -> Seq<char> {
        match self {
            Refusal::MissingArgument(t) => t,
            Refusal::Integer(e) => e.text(),
            Refusal::Float(e) => e.text(),
            Refusal::UnsupportedCommand(t) => "unsupported command "@ + t,
            Refusal::UnsupportedTriggerCommand(t) => "unsupported trigger command "@ + t,
            Refusal::UnsupportedChannelCommand(t, u) => "unsupported channel command "@ + t
                + " for "@ + u,
            Refusal::UnsupportedAwgCommand(t) => "unsupported AWG command "@ + t,
            Refusal::UnsupportedDigitalCommand(t) => "unsupported digital command "@ + t,
            Refusal::PresentIsAQuery => "PRESENT can only be queried"@,
            Refusal::InvalidTriggerDirection(t) => "invalid trigger direction "@ + t,
            Refusal::UnsupportedCoupling(t) => "unsupported coupling "@ + t,
            Refusal::UnsupportedWaveform(t) => "unsupported AWG waveform "@ + t,
            Refusal::ChannelOutOfRange(n) => "channel index "@ + decimal(n) + " out of range"@,
            Refusal::UnknownChannel(t) => "unable to parse channel reference '"@ + t + "'"@,
            Refusal::UnsupportedSampleRate(n) => "unsupported sample rate "@ + decimal(n as nat),
            Refusal::UnsupportedSampleDepth(n) => "unsupported sample depth "@ + decimal(n as nat),
            Refusal::UnsupportedResolution(n) => "unsupported ADC resolution "@ + decimal(n as nat),
            Refusal::StartFailed(n) => "failed to start streaming at "@ + decimal(n as nat)
                + " Sa/s"@,
        }
    }
}

/// Two texts, one after the other.
fn prefixed(a: &str, b: &str) -> (r: String)
    ensures
        r@ == a@ + b@,
{
    String::from_str(a).concat(b)
}

impl ScpiError {
    /// The refusal in words, as the client is told.
    pub fn message(&self) -> (r: String)
        ensures
            r@ == self@.text(),
    {
        match self {
            ScpiError::MissingArgument(t) => String::from_str(*t),
            ScpiError::Integer(e) => String::from_str(e.message()),
            ScpiError::Float(e) => String::from_str(e.message()),
            ScpiError::UnsupportedCommand(t) => prefixed("unsupported command ", t.as_str()),
            ScpiError::UnsupportedTriggerCommand(t) => prefixed(
                "unsupported trigger command ",
                t.as_str(),
            ),
            ScpiError::UnsupportedChannelCommand(t, u) => prefixed(
                "unsupported channel command ",
                t.as_str(),
            ).concat(" for ").concat(u.as_str()),
            ScpiError::UnsupportedAwgCommand(t) => prefixed("unsupported AWG command ", t.as_str()),
            ScpiError::UnsupportedDigitalCommand(t) => prefixed(
                "unsupported digital command ",
                t.as_str(),
            ),
            ScpiError::PresentIsAQuery => String::from_str("PRESENT can only be queried"),
            ScpiError::InvalidTriggerDirection(t) => prefixed("invalid trigger direction ", t.as_str()),
            ScpiError::UnsupportedCoupling(t) => prefixed("unsupported coupling ", t.as_str()),
            ScpiError::UnsupportedWaveform(t) => prefixed("unsupported AWG waveform ", t.as_str()),
            ScpiError::ChannelOutOfRange(n) => prefixed(
                "channel index ",
                to_decimal(*n as u128).as_str(),
            ).concat(" out of range"),
            ScpiError::UnknownChannel(t) => prefixed(
                "unable to parse channel reference '",
                t.as_str(),
            ).concat("'"),
            ScpiError::UnsupportedSampleRate(n) => prefixed(
                "unsupported sample rate ",
                to_decimal(*n as u128).as_str(),
            ),
            ScpiError::UnsupportedSampleDepth(n) => prefixed(
                "unsupported sample depth ",
                to_decimal(*n as u128).as_str(),
            ),
            ScpiError::UnsupportedResolution(n) => prefixed(
                "unsupported ADC resolution ",
                to_decimal(*n as u128).as_str(),
            ),
            ScpiError::StartFailed(n) => prefixed(
                "failed to start streaming at ",
                to_decimal(*n as u128).as_str(),
            ).concat(" Sa/s"),
        }
    }
}

} // verus!
