//! One caller's side of a render call.
//!
//! A call sends one request and waits for the response that carries its own
//! ticket. Whoever drives the channels hands the call each thing that
//! happened as a [`CallEvent`] and gets back what to do next as a
//! [`CallAction`]. A call ends with the caller's pixels, with a typed
//! error, or detached after a timeout; it never ends with a response that
//! was meant for another call.

use crate::protocol::RenderError;
use crate::protocol::RenderResponse;
use crate::protocol::ResponseView;
use vstd::prelude::*;

verus! {

/// How far a call has come.
#[derive(Clone, Copy, Debug, PartialEq, Eq, Structural)]
pub enum CallPhase {
    /// The request is being handed to the worker's channel.
    Sending,
    /// The request is with the worker; the response is awaited.
    Waiting,
    /// The call has ended.
    Finished,
}

/// One call: its ticket and how far it has come.
#[derive(Clone, Copy, Debug, PartialEq, Eq, Structural)]
pub struct Call {
    pub id: u64,
    pub phase: CallPhase,
}

/// What the channels report to a call.
#[derive(Clone, Debug, PartialEq, Eq)]
pub enum CallEvent {
    /// The request is in the worker's inbound channel.
    Sent,
    /// The worker's inbound channel is severed.
    SendFailed,
    /// A response arrived.
    Reply(RenderResponse),
    /// The response channel is severed.
    Disconnected,
    /// The caller's time is up.
    TimedOut,
}

/// An event as a mathematical value.
pub enum CallEventView {
    Sent,
    SendFailed,
    Reply(ResponseView),
    Disconnected,
    TimedOut,
}

impl View for CallEvent {
    type V = CallEventView;

    open spec fn view(&self) -> CallEventView {
        match *self {
            CallEvent::Sent => CallEventView::Sent,
            CallEvent::SendFailed => CallEventView::SendFailed,
            CallEvent::Reply(response) => CallEventView::Reply(response@),
            CallEvent::Disconnected => CallEventView::Disconnected,
            CallEvent::TimedOut => CallEventView::TimedOut,
        }
    }
}

/// What a call does next.
#[derive(Clone, Debug, PartialEq, Eq)]
pub enum CallAction {
    /// Wait for a response.
    AwaitReply,
    /// Give the caller its pixels.
    Return(Vec<u8>),
    /// Give the caller this error.
    Fail(RenderError),
    /// Stop waiting and tell the worker nothing: it finishes the request
    /// and finds nobody to take the response.
    Detach,
}

/// An action as a mathematical value.
pub enum CallActionView {
    AwaitReply,
    Return(Seq<u8>),
    Fail(RenderError),
    Detach,
}

impl View for CallAction {
    type V = CallActionView;

    open spec fn view(&self) -> CallActionView {
        match *self {
            CallAction::AwaitReply => CallActionView::AwaitReply,
            CallAction::Return(pixels) => CallActionView::Return(pixels@),
            CallAction::Fail(error) => CallActionView::Fail(error),
            CallAction::Detach => CallActionView::Detach,
        }
    }
}

impl CallActionView {
    /// Whether the action ends the call.
    pub open spec fn ends_call(self) -> bool {
        self !is AwaitReply
    }
}

impl Call {
    /// The same call in another phase.
    pub open spec fn in_phase(self, phase: CallPhase) -> Call {
        Call { id: self.id, phase }
    }

    /// The call's whole behaviour: the call and the action that follow
    /// `event`, or `None` where the event has no meaning in this phase.
    ///
    /// A response with another call's ticket is passed over and the call
    /// goes on waiting.
    pub open spec fn next(self, event: CallEventView) -> Option<(Call, CallActionView)> {
        match (self.phase, event) {
            (CallPhase::Sending, CallEventView::Sent) => Some(
                (self.in_phase(CallPhase::Waiting), CallActionView::AwaitReply),
            ),
            (CallPhase::Sending, CallEventView::SendFailed) => Some(
                (
                    self.in_phase(CallPhase::Finished),
                    CallActionView::Fail(RenderError::WorkerUnreachable),
                ),
            ),
            (CallPhase::Waiting, CallEventView::Reply(response)) => match response {
                ResponseView::Pixels { id, data } => if id == self.id {
                    Some((self.in_phase(CallPhase::Finished), CallActionView::Return(data)))
                } else {
                    Some((self, CallActionView::AwaitReply))
                },
                ResponseView::Failed { id, error } => if id == self.id {
                    Some((self.in_phase(CallPhase::Finished), CallActionView::Fail(error)))
                } else {
                    Some((self, CallActionView::AwaitReply))
                },
            },
            (CallPhase::Waiting, CallEventView::Disconnected) => Some(
                (
                    self.in_phase(CallPhase::Finished),
                    CallActionView::Fail(RenderError::WorkerUnreachable),
                ),
            ),
            (CallPhase::Waiting, CallEventView::TimedOut) => Some(
                (self.in_phase(CallPhase::Finished), CallActionView::Detach),
            ),
            _ => None,
        }
    }

    /// The call after a whole sequence of events, and the actions taken on
    /// the way. An event without meaning in its phase changes nothing and
    /// causes no action.
    pub open spec fn run(self, events: Seq<CallEventView>) -> (Call, Seq<CallActionView>)
        decreases events.len(),
    {
        if events.len() == 0 {
            (self, Seq::empty())
        } else {
            let (call, actions) = self.run(events.drop_last());
            match call.next(events.last()) {
                Some((after, action)) => (after, actions.push(action)),
                None => (call, actions),
            }
        }
    }

    /// A call with ticket `id` whose request has still to be sent.
    pub fn new(id: u64) -> (call: Call)
        ensures
            call == (Call { id, phase: CallPhase::Sending }),
    {
        Call { id, phase: CallPhase::Sending }
    }

    /// Takes one event and says what to do next.
    ///
    /// The result and the call afterwards are those of [`Call::next`]. An
    /// event that has no meaning in the current phase gives `None` and
    /// leaves the call as it was.
    pub fn step(&mut self, event: CallEvent) -> (action: Option<CallAction>)
        ensures
            match old(self).next(event@) {
                Some((call, expected)) => *final(self) == call && action is Some
                    && action->Some_0@ == expected,
                None => *final(self) == *old(self) && action is None,
            },
    {
        match (self.phase, event) {
            (CallPhase::Sending, CallEvent::Sent) => {
                self.phase = CallPhase::Waiting;
                Some(CallAction::AwaitReply)
            },
            (CallPhase::Sending, CallEvent::SendFailed) => {
                self.phase = CallPhase::Finished;
                Some(CallAction::Fail(RenderError::WorkerUnreachable))
            },
            (CallPhase::Waiting, CallEvent::Reply(response)) => {
                if response.id() != self.id {
                    return Some(CallAction::AwaitReply);
                }
                self.phase = CallPhase::Finished;
                match response {
                    RenderResponse::Pixels { id: _, data } => Some(CallAction::Return(data)),
                    RenderResponse::Failed { id: _, error } => Some(CallAction::Fail(error)),
                }
            },
            (CallPhase::Waiting, CallEvent::Disconnected) => {
                self.phase = CallPhase::Finished;
                Some(CallAction::Fail(RenderError::WorkerUnreachable))
            },
            (CallPhase::Waiting, CallEvent::TimedOut) => {
                self.phase = CallPhase::Finished;
                Some(CallAction::Detach)
            },
            _ => None,
        }
    }
}

/// A call returns its own pixels or none. Whatever events arrive, pixels
/// that the call returns were carried by a response with the call's own
/// ticket.
pub proof fn lemma_call_returns_own_pixels(call: Call, events: Seq<CallEventView>, at: int)
    requires
        0 <= at < call.run(events).1.len(),
        call.run(events).1[at] is Return,
    ensures
        exists|k: int|
            0 <= k < events.len() && #[trigger] events[k] == CallEventView::Reply(
                ResponseView::Pixels { id: call.id, data: call.run(events).1[at]->Return_0 },
            ),
    decreases events.len(),
{
    let (end, actions) = call.run(events);
    let before = events.drop_last();
    let (mid, earlier) = call.run(before);
    lemma_run_keeps_ticket(call, before);
    if at < earlier.len() {
        lemma_call_returns_own_pixels(call, before, at);
        let k = choose|k: int|
            0 <= k < before.len() && #[trigger] before[k] == CallEventView::Reply(
                ResponseView::Pixels { id: call.id, data: earlier[at]->Return_0 },
            );
        assert(events[k] == before[k]);
    } else {
        assert(events[events.len() - 1] == events.last());
    }
}

/// A call keeps its ticket.
pub proof fn lemma_run_keeps_ticket(call: Call, events: Seq<CallEventView>)
    ensures
        call.run(events).0.id == call.id,
    decreases events.len(),
{
    if events.len() > 0 {
        lemma_run_keeps_ticket(call, events.drop_last());
    }
}

/// A call ends once. Whatever events arrive, only the last action of a
/// call can be one that ends it, and a call that has ended is finished.
pub proof fn lemma_call_ends_once(call: Call, events: Seq<CallEventView>)
    requires
        call.phase != CallPhase::Finished,
    ensures
        forall|at: int|
            0 <= at < call.run(events).1.len() && (#[trigger] call.run(events).1[at]).ends_call()
                ==> at == call.run(events).1.len() - 1 && call.run(events).0.phase
                == CallPhase::Finished,
        call.run(events).0.phase == CallPhase::Finished ==> call.run(events).1.len() > 0
            && call.run(events).1.last().ends_call(),
    decreases events.len(),
{
    if events.len() > 0 {
        lemma_call_ends_once(call, events.drop_last());
    }
}

} // verus!
