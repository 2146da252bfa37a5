//! A whole command session: what a client is sent for its lines, one after the other.

use vstd::prelude::*;
use crate::laws::{
    law_refusal_changes_nothing, law_scope_stays_the_same_scope, law_start_waits_for_the_device,
};
use crate::error::ScpiError;
use crate::model::{answer_of, parsed, response, start_response, Answer, Request, Scope};
use crate::scpi::{CommandResult, DeviceAction, FloatArg, FloatValue, ScpiState};
use crate::session::{step_after, SessionStep};
use crate::state::{AcquisitionState, AppState};
use crate::waveform::{stream_response, StreamInput, StreamSession};

verus! {

/// A line of the client, with what the world around the scope has to say to it.
pub struct ClientLine {
    pub text: Seq<char>,
    /// Its first argument, read as a floating-point number.
    pub value: Option<FloatArg>,
    /// If the line starts the device: the rate at which it then streams, if it does.
    pub started: Option<u32>,
    /// If the reply is a number: its text.
    pub number: Seq<char>,
}

/// What happens in the time of a session: lines of the client, and waveforms that go out on the
/// other connection.
pub enum SessionMoment {
    Line(ClientLine),
    /// The waveform with this number has gone out.
    WaveformSent(u32),
    /// The sender is done with a waveform.
    WaveformDone,
}

/// How far a session has come.
pub struct Conversation {
    pub scope: Scope,
    /// All that the client was sent.
    pub output: Seq<char>,
    /// All that was asked of the device, in order.
    pub asked: Seq<DeviceAction>,
    /// Whether further lines are read.
    pub open: bool,
}

/// How a line ends, its start included if it is one. A line of blanks is passed over.
#[verifier::opaque]
pub open spec fn line_answer<S: ScpiState>(scope: Scope, line: ClientLine) -> (Answer, Scope) {
    match parsed(line.text) {
        None => (Answer::NoReply, scope),
        Some(request) => {
            let (answer, after) = response::<S>(scope, request, line.value);
            match answer {
                Answer::Device(DeviceAction::Start { rate, one_shot }) => start_response::<S>(
                    after,
                    rate,
                    one_shot,
                    line.started,
                ),
                _ => (answer, after),
            }
        },
    }
}

/// What a line asks of the device.
#[verifier::opaque]
pub open spec fn line_asks<S: ScpiState>(scope: Scope, line: ClientLine) -> Seq<DeviceAction> {
    match parsed(line.text) {
        None => seq![],
        Some(request) => match response::<S>(scope, request, line.value).0 {
            Answer::Device(action) => seq![action],
            _ => seq![],
        },
    }
}

/// What the client is sent for an answer; `number` is the text of the number, if it is one.
pub open spec fn sent_for(answer: Answer, number: Seq<char>) -> Seq<char> {
    match answer {
        Answer::Reply(text) => text + "\n"@,
        Answer::Number(_, _) => number + "\n"@,
        Answer::Refused(refusal) => "ERR,"@ + refusal.text() + "\n"@,
        Answer::NoReply | Answer::Device(_) | Answer::Exit => seq![],
    }
}

/// The scope after a waveform has gone out.
pub open spec fn scope_sent(scope: Scope, sequence: u32) -> Scope {
    Scope { last_sequence: sequence, ..scope }
}

/// The scope after the sender is done with a waveform: a single acquisition is over.
pub open spec fn scope_done(scope: Scope) -> Scope {
    if scope.acquisition.one_shot {
        Scope {
            acquisition: AcquisitionState { armed: false, one_shot: false, ..scope.acquisition },
            ..scope
        }
    } else {
        scope
    }
}

/// A session after one more moment. Once it is closed, lines are no longer read.
pub open spec fn next<S: ScpiState>(before: Conversation, moment: SessionMoment) -> Conversation {
    match moment {
        SessionMoment::Line(line) => if before.open {
            let (answer, after) = line_answer::<S>(before.scope, line);
            Conversation {
                scope: after,
                output: before.output + sent_for(answer, line.number),
                asked: before.asked + line_asks::<S>(before.scope, line),
                open: answer !is Exit,
            }
        } else {
            before
        },
        SessionMoment::WaveformSent(sequence) => Conversation {
            scope: scope_sent(before.scope, sequence),
            ..before
        },
        SessionMoment::WaveformDone => Conversation { scope: scope_done(before.scope), ..before },
    }
}

/// A session after some moments.
pub open spec fn go_on<S: ScpiState>(
    start: Conversation,
    moments: Seq<SessionMoment>,
) -> Conversation
    decreases moments.len(),
{
    if moments.len() == 0 {
        start
    } else {
        next::<S>(go_on::<S>(start, moments.drop_last()), moments.last())
    }
}

/// A session from its beginning.
pub open spec fn conversation<S: ScpiState>(
    scope: Scope,
    moments: Seq<SessionMoment>,
) -> Conversation {
    go_on::<S>(Conversation { scope, output: seq![], asked: seq![], open: true }, moments)
}

/// A session can be looked at in two parts.
proof fn lemma_two_parts<S: ScpiState>(
    start: Conversation,
    first: Seq<SessionMoment>,
    second: Seq<SessionMoment>,
)
    ensures
        go_on::<S>(start, first + second) == go_on::<S>(go_on::<S>(start, first), second),
    decreases second.len(),
{
    if second.len() == 0 {
        assert(first + second == first);
    } else {
        lemma_two_parts::<S>(start, first, second.drop_last());
        assert((first + second).drop_last() == first + second.drop_last());
    }
}

/// What was sent and asked before has no influence on what follows.
proof fn lemma_past_is_past<S: ScpiState>(start: Conversation, moments: Seq<SessionMoment>)
    ensures
        ({
            let fresh = go_on::<S>(
                Conversation { output: seq![], asked: seq![], ..start },
                moments,
            );
            go_on::<S>(start, moments) == (Conversation {
                output: start.output + fresh.output,
                asked: start.asked + fresh.asked,
                ..fresh
            })
        }),
    decreases moments.len(),
{
    if moments.len() > 0 {
        let before = moments.drop_last();
        lemma_past_is_past::<S>(start, before);
        let fresh = go_on::<S>(Conversation { output: seq![], asked: seq![], ..start }, before);
        if let SessionMoment::Line(line) = moments.last() {
            let text = sent_for(line_answer::<S>(fresh.scope, line).0, line.number);
            let asks = line_asks::<S>(fresh.scope, line);
            assert((start.output + fresh.output) + text == start.output + (fresh.output + text));
            assert((start.asked + fresh.asked) + asks == start.asked + (fresh.asked + asks));
        }
    } else {
        assert(start.output + Seq::<char>::empty() == start.output);
        assert(start.asked + Seq::<DeviceAction>::empty() == start.asked);
    }
}

/// Lines are answered in their order: what is sent for later moments comes behind what was sent
/// before, and is what a session would send that began there.
pub proof fn law_answers_come_in_order<S: ScpiState>(
    scope: Scope,
    moments: Seq<SessionMoment>,
    rest: Seq<SessionMoment>,
)
    ensures
        ({
            let before = conversation::<S>(scope, moments);
            let after = conversation::<S>(scope, moments + rest);
            let later = go_on::<S>(Conversation { output: seq![], asked: seq![], ..before }, rest);
            &&& after.output == before.output + later.output
            &&& after.asked == before.asked + later.asked
            &&& after.scope == later.scope
            &&& after.open == later.open
        }),
{
    let start = Conversation { scope, output: seq![], asked: seq![], open: true };
    lemma_two_parts::<S>(start, moments, rest);
    lemma_past_is_past::<S>(conversation::<S>(scope, moments), rest);
}

/// While a session is open, a line gets exactly what is sent for its answer, changes the scope as
/// the command does, and ends the session if it is answered so and in no other case.
pub proof fn law_open_session_answers_a_line<S: ScpiState>(
    scope: Scope,
    moments: Seq<SessionMoment>,
    line: ClientLine,
)
    requires
        conversation::<S>(scope, moments).open,
    ensures
        ({
            let before = conversation::<S>(scope, moments);
            let (answer, scope_after) = line_answer::<S>(before.scope, line);
            conversation::<S>(scope, moments.push(SessionMoment::Line(line))) == (Conversation {
                scope: scope_after,
                output: before.output + sent_for(answer, line.number),
                asked: before.asked + line_asks::<S>(before.scope, line),
                open: answer !is Exit,
            })
        }),
{
    assert(moments.push(SessionMoment::Line(line)).drop_last() == moments);
}

/// Whether the session ends at the moment with this index: a line is read and answered so.
pub open spec fn ends_at<S: ScpiState>(scope: Scope, moments: Seq<SessionMoment>, i: int) -> bool {
    let before = conversation::<S>(scope, moments.take(i));
    before.open && (moments[i] matches SessionMoment::Line(line) && line_answer::<S>(
        before.scope,
        line,
    ).0 is Exit)
}

/// A session is open exactly as long as it did not end at any moment before.
pub proof fn law_session_is_open_until_exit<S: ScpiState>(
    scope: Scope,
    moments: Seq<SessionMoment>,
)
    ensures
        conversation::<S>(scope, moments).open == forall|i: int|
            0 <= i < moments.len() ==> !#[trigger] ends_at::<S>(scope, moments, i),
    decreases moments.len(),
{
    if moments.len() > 0 {
        let before = moments.drop_last();
        law_session_is_open_until_exit::<S>(scope, before);
        let last = moments.len() - 1;
        assert(moments.take(last) == before);
        assert forall|i: int| 0 <= i < last implies #[trigger] ends_at::<S>(scope, moments, i)
            == ends_at::<S>(scope, before, i) by {
            assert(moments.take(i) == before.take(i));
            assert(moments[i] == before[i]);
        }
        if conversation::<S>(scope, before).open {
            assert(conversation::<S>(scope, moments).open == !ends_at::<S>(scope, moments, last));
        } else {
            let i = choose|i: int| 0 <= i < before.len() && ends_at::<S>(scope, before, i);
            assert(ends_at::<S>(scope, moments, i));
        }
    }
}

/// The lines after the end of a session leave all as it was: the scope, what was sent and what was
/// asked of the device. Waveforms that still go out change the scope alone.
pub proof fn law_lines_after_exit_are_unread<S: ScpiState>(
    scope: Scope,
    moments: Seq<SessionMoment>,
    rest: Seq<SessionMoment>,
)
    requires
        !conversation::<S>(scope, moments).open,
    ensures
        ({
            let before = conversation::<S>(scope, moments);
            let after = conversation::<S>(scope, moments + rest);
            &&& !after.open
            &&& after.output == before.output
            &&& after.asked == before.asked
            &&& (forall|i: int| 0 <= i < rest.len() ==> #[trigger] rest[i] is Line) ==> after
                == before
        }),
    decreases rest.len(),
{
    if rest.len() == 0 {
        assert(moments + rest == moments);
    } else {
        let early = rest.drop_last();
        law_lines_after_exit_are_unread::<S>(scope, moments, early);
        assert((moments + rest).drop_last() == moments + early);
        assert((moments + rest).last() == rest.last());
        if forall|i: int| 0 <= i < rest.len() ==> #[trigger] rest[i] is Line {
            assert forall|i: int| 0 <= i < early.len() implies #[trigger] early[i] is Line by {
                assert(rest[i] is Line);
            }
            assert(rest[rest.len() - 1] is Line);
        }
    }
}

/// A line keeps the number of channels, and all if it is refused.
proof fn lemma_line_keeps(scope: Scope, line: ClientLine)
    requires
        scope.channels.len() <= usize::MAX,
    ensures
        line_answer::<AppState>(scope, line).1.channels.len() == scope.channels.len(),
        line_answer::<AppState>(scope, line).0 is Refused ==> line_answer::<AppState>(
            scope,
            line,
        ).1 == scope,
{
    reveal(line_answer);
    if let Some(request) = parsed(line.text) {
        law_scope_stays_the_same_scope(scope, request, line.value);
        law_refusal_changes_nothing::<AppState>(scope, request, line.value);
        law_start_waits_for_the_device::<AppState>(scope, request, line.value);
    }
}

/// The number of channels stays the same in a session.
proof fn lemma_channel_count(scope: Scope, moments: Seq<SessionMoment>)
    requires
        scope.channels.len() <= usize::MAX,
    ensures
        conversation::<AppState>(scope, moments).scope.channels.len() == scope.channels.len(),
    decreases moments.len(),
{
    if moments.len() > 0 {
        lemma_channel_count(scope, moments.drop_last());
        if let SessionMoment::Line(line) = moments.last() {
            let before = conversation::<AppState>(scope, moments.drop_last()).scope;
            lemma_line_keeps(before, line);
        }
    }
}

/// A session goes on after a line that is refused as if the line had not come: only the refusal
/// is sent in between, and, if it was a start that failed, the device was asked.
pub proof fn law_session_goes_on_after_a_refusal(
    scope: Scope,
    moments: Seq<SessionMoment>,
    line: ClientLine,
    rest: Seq<SessionMoment>,
)
    requires
        scope.channels.len() <= usize::MAX,
        conversation::<AppState>(scope, moments).open,
        line_answer::<AppState>(conversation::<AppState>(scope, moments).scope, line).0 is Refused,
    ensures
        ({
            let before = conversation::<AppState>(scope, moments);
            let refusal = line_answer::<AppState>(before.scope, line).0->Refused_0;
            let refused = moments.push(SessionMoment::Line(line));
            let without = conversation::<AppState>(scope, moments + rest);
            let with = conversation::<AppState>(scope, refused + rest);
            let later = go_on::<AppState>(
                Conversation { output: seq![], asked: seq![], ..before },
                rest,
            );
            &&& with.scope == without.scope
            &&& with.open == without.open
            &&& without.output == before.output + later.output
            &&& with.output == before.output + ("ERR,"@ + refusal.text() + "\n"@) + later.output
            &&& without.asked == before.asked + later.asked
            &&& with.asked == before.asked + line_asks::<AppState>(before.scope, line)
                + later.asked
        }),
{
    let before = conversation::<AppState>(scope, moments);
    let refused = moments.push(SessionMoment::Line(line));
    law_open_session_answers_a_line::<AppState>(scope, moments, line);
    law_answers_come_in_order::<AppState>(scope, moments, rest);
    law_answers_come_in_order::<AppState>(scope, refused, rest);
    lemma_channel_count(scope, moments);
    lemma_line_keeps(before.scope, line);
    assert(conversation::<AppState>(scope, refused).scope == before.scope);
}

/// What is done after an answer sends what is sent for it, and closes the session at its end alone.
/// `number` is the text of the number, if the answer is one.
pub proof fn law_steps_send_what_is_owed(answer: Answer, step: SessionStep, number: Seq<char>)
    requires
        step_after(answer, step),
    ensures
        sent_for(answer, number) == match step {
            SessionStep::Send(line) => line@,
            SessionStep::SendNumber(_, _) => number + "\n"@,
            SessionStep::Perform(_) | SessionStep::Continue | SessionStep::Close => seq![],
        },
        step is Close == answer is Exit,
        step matches SessionStep::Perform(action) ==> answer == Answer::Device(action),
{
}

/// Sending waveforms changes the scope in two ways only: by the number of one that has gone out,
/// and when the sender is done with one.
pub proof fn law_streaming_changes_the_scope_so(
    session: StreamSession,
    state: AppState,
    input: StreamInput,
)
    ensures
        ({
            let (_, after, reaction) = stream_response(session, state, input);
            let done = (input is NoAck || input is Paused) && (reaction is Poll || reaction
                is StopDevice);
            after.scope() == if input is Written {
                scope_sent(state.scope(), session.sequence)
            } else if done {
                scope_done(state.scope())
            } else {
                state.scope()
            }
        }),
{
}

/// What is done after a command is what came of it: a text is sent as it is with a newline behind
/// it, a number is sent bit for bit, its sign with it, and with the very decimals, work is handed to
/// the device as it is, a refusal is told as `ERR,` and its reason, and the session is closed at its
/// end alone.
pub proof fn law_steps_follow_the_outcome(result: Result<CommandResult, ScpiError>, step: SessionStep)
    requires
        step_after(answer_of(result), step),
    ensures
        match result {
            Ok(CommandResult::NoReply) => step is Continue,
            Ok(CommandResult::Reply(text)) => step is Send && step->Send_0@ == text@.push('\n'),
            Ok(CommandResult::Number(value, decimals)) => {
                &&& step is SendNumber
                &&& step->SendNumber_1 == decimals
                &&& match (value, step->SendNumber_0) {
                    (FloatValue::Double(x), FloatValue::Double(y)) => x.bits == y.bits,
                    (FloatValue::Single(x), FloatValue::Single(y)) => x.bits == y.bits,
                    _ => false,
                }
            },
            Ok(CommandResult::Device(action)) => step == SessionStep::Perform(action),
            Ok(CommandResult::Exit) => step is Close,
            Err(error) => step is Send && step->Send_0@ == (seq!['E', 'R', 'R', ',']
                + error@.text()).push('\n'),
        },
{
    reveal_strlit("\n");
    reveal_strlit("ERR,");
    assert("\n"@ == seq!['\n']);
    assert("ERR,"@ == seq!['E', 'R', 'R', ',']);
    match result {
        Ok(CommandResult::Reply(text)) => {
            assert(text@ + "\n"@ == text@.push('\n'));
        },
        Err(error) => {
            assert("ERR,"@ + error@.text() + "\n"@ == (seq!['E', 'R', 'R', ',']
                + error@.text()).push('\n'));
        },
        _ => {},
    }
}

/// What a query for a number leads to is that number, bit for bit and with the sign that it has: the
/// trigger level, an offset, and the settings of the function generator and of digital channels.
pub proof fn law_numbers_are_sent_bit_for_bit<S: ScpiState>(
    scope: Scope,
    request: Request,
    value: Option<FloatArg>,
    step: SessionStep,
)
    requires
        step_after(response::<S>(scope, request, value).0, step),
    ensures
        match response::<S>(scope, request, value).0 {
            Answer::Number(FloatValue::Double(x), decimals) => {
                &&& step is SendNumber
                &&& step->SendNumber_0 is Double
                &&& step->SendNumber_0->Double_0.bits == x.bits
                &&& step->SendNumber_1 == decimals
            },
            Answer::Number(FloatValue::Single(x), decimals) => {
                &&& step is SendNumber
                &&& step->SendNumber_0 is Single
                &&& step->SendNumber_0->Single_0.bits == x.bits
                &&& step->SendNumber_1 == decimals
            },
            _ => step !is SendNumber,
        },
{
}

} // verus!
