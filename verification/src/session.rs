//! One client's conversation: which lines count, and what is sent back.

use vstd::prelude::*;
use crate::error::ScpiError;
use crate::model::{answer_of, response, start_response, Answer};
use crate::scpi::{
    finish_start, process_command, CommandResult, DeviceAction, FloatArg, FloatValue, ParsedCommand,
    ScpiState,
};
use crate::text::{trim, trimmed};

verus! {

/// What is to be done after a command.
pub enum SessionStep {
    /// Send the text.
    Send(String),
    /// Write the number with so many decimals and send it as a reply.
    SendNumber(FloatValue, usize),
    /// Have the device do something.
    Perform(DeviceAction),
    /// Wait for the next line.
    Continue,
    /// End the session.
    Close,
}

/// A line as it counts: without the blanks around it, and only if anything is left.
pub fn scpi_line(raw: &str) -> (r: Option<&str>)
    ensures
        match r {
            Some(line) => line@ == trimmed(raw@) && line@.len() > 0,
            None => trimmed(raw@).len() == 0,
        },
{
    let line = trim(raw);
    if line.is_empty() {
        None
    } else {
        Some(line)
    }
}

/// A reply as it is sent.
pub fn reply_line(text: &str) -> (r: String)
    ensures
        r@ == text@ + "\n"@,
{
    String::from_str(text).concat("\n")
}

/// The step that follows an answer, with its text as characters: replies end in a newline, and
/// a refusal is told as `ERR,` and the reason.
pub open spec fn step_after(answer: Answer, step: SessionStep) -> bool {
    match answer {
        Answer::NoReply => step == SessionStep::Continue,
        Answer::Reply(text) => step matches SessionStep::Send(line) && line@ == text + "\n"@,
        Answer::Number(value, decimals) => step matches SessionStep::SendNumber(v, d) && v == value
            && d == decimals,
        Answer::Device(action) => step == SessionStep::Perform(action),
        Answer::Exit => step == SessionStep::Close,
        Answer::Refused(refusal) => step matches SessionStep::Send(line) && line@ == "ERR,"@
            + refusal.text() + "\n"@,
    }
}

/// What is to be done after a command.
pub fn session_step(result: Result<CommandResult, ScpiError>) -> (r: SessionStep)
    ensures
        step_after(answer_of(result), r),
{
    match result {
        Ok(CommandResult::NoReply) => SessionStep::Continue,
        Ok(CommandResult::Reply(text)) => SessionStep::Send(reply_line(text.as_str())),
        Ok(CommandResult::Number(value, decimals)) => SessionStep::SendNumber(value, decimals),
        Ok(CommandResult::Device(action)) => SessionStep::Perform(action),
        Ok(CommandResult::Exit) => SessionStep::Close,
        Err(error) => SessionStep::Send(
            String::from_str("ERR,").concat(error.message().as_str()).concat("\n"),
        ),
    }
}

/// Carries out a command of a session, and says what is to be done after it. A start is handed to
/// the device, and `finish_started` then says how the session goes on.
pub fn carry_out<S: ScpiState>(
    state: &mut S,
    command: &ParsedCommand<'_>,
    value: Option<FloatArg>,
) -> (r: SessionStep)
    requires
        old(state).well_formed(),
    ensures
        final(state).well_formed(),
        final(state).scope() == response::<S>(old(state).scope(), command@, value).1,
        step_after(response::<S>(old(state).scope(), command@, value).0, r),
{
    session_step(process_command(state, command, value))
}

/// What is to be done after a start that was handed to the device: `actual` is the rate at which it
/// streams, `None` where it did not start.
pub fn finish_started<S: ScpiState>(
    state: &mut S,
    rate: u32,
    one_shot: bool,
    actual: Option<u32>,
) -> (r: SessionStep)
    requires
        old(state).well_formed(),
    ensures
        final(state).well_formed(),
        final(state).scope() == start_response::<S>(
            old(state).scope(),
            rate,
            one_shot,
            actual,
        ).1,
        step_after(start_response::<S>(old(state).scope(), rate, one_shot, actual).0, r),
{
    session_step(finish_start(state, rate, one_shot, actual))
}

} // verus!
