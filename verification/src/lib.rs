//! A network front end for PicoScope oscilloscopes.
//!
//! A client controls the scope by text commands on one connection and gets the samples on
//! another. This crate holds what is decided and computed on the way, and proves it:
//!
//! - `scpi` parses a command line and carries it out, `model` says what that comes to, `error`
//!   why a command is refused;
//! - `state` holds the settings of a scope, `hardware` its ranges and couplings;
//! - `session` turns the outcome of a command into what is sent back;
//! - `waveform` frames samples and keeps the sender in step with its client;
//! - `device` chooses among the scopes found;
//! - `recorder` writes samples as a table;
//! - `text`, `number` and `floating` are what all this is made of;
//! - `answers` states what every command is answered, `meanings` what every setting changes,
//!   `naming` which texts name what, and `foundations` what text, numbers and ranges come to;
//! - `laws`, `readback`, `lines`, `conversation` and `frames` state what holds of the parts
//!   together.
//!
//! Sockets, threads, the device itself and the text form of floating-point numbers are left to
//! the caller: functions that need such work done return what is to be done, and take the outcome
//! as an argument.

pub mod text;
pub mod number;
pub mod floating;
pub mod hardware;
pub mod error;
pub mod state;
pub mod model;
pub mod scpi;
pub mod session;
pub mod waveform;
pub mod device;
pub mod recorder;
pub mod laws;
pub mod answers;
pub mod foundations;
pub mod meanings;
pub mod naming;
pub mod readback;
pub mod lines;
pub mod frames;
pub mod conversation;

pub use scpi::{parse_command, process_command, CommandResult, ParsedCommand, ScpiState};
pub use state::{AwgState, ChannelState, DigitalChannelState, TriggerEdge, FS_PER_SECOND};
