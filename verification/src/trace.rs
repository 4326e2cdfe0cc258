//! What holds of every run of the worker, whatever the device and the
//! callers do.
//!
//! The statements here speak of [`WorkerState::run`]: of all sequences of
//! events, including those that a well-behaved driver would never produce.

use crate::protocol::RenderConfig;
use crate::protocol::RenderError;
use crate::protocol::RenderRequest;
use crate::protocol::ResponseView;
use crate::readback::lemma_unpadded_len;
use crate::readback::padded_row_bytes;
use crate::readback::row_bytes;
use crate::worker::answered;
use crate::worker::one_at_a_time;
use crate::worker::request_ids;
use crate::worker::response_ids;
use crate::worker::submitted;
use crate::worker::ActionView;
use crate::worker::EventView;
use crate::worker::Phase;
use crate::worker::WorkerState;
use vstd::prelude::*;

verus! {

/// No event changes the configuration.
pub proof fn lemma_run_keeps_config(state: WorkerState, events: Seq<EventView>)
    ensures
        state.run(events).0.config == state.config,
    decreases events.len(),
{
    if events.len() > 0 {
        lemma_run_keeps_config(state, events.drop_last());
    }
}

/// Running one more event is running the others first and then taking
/// that step.
pub proof fn lemma_run_push(state: WorkerState, events: Seq<EventView>, event: EventView)
    ensures
        state.run(events.push(event)) == match state.run(events).0.next(event) {
            Some((after, action)) => (after, state.run(events).1.push(action)),
            None => state.run(events),
        },
{
    assert(events.push(event).drop_last() =~= events);
}

proof fn lemma_submitted_push(actions: Seq<ActionView>, action: ActionView)
    ensures
        submitted(actions.push(action)) == match action {
            ActionView::Render { request, .. } => submitted(actions).push(request),
            _ => submitted(actions),
        },
        answered(actions.push(action)) == match action {
            ActionView::Respond(response) => answered(actions).push(response),
            _ => answered(actions),
        },
{
    assert(actions.push(action).drop_last() =~= actions);
}

/// Every request is accounted for. After any events: the requests
/// submitted to the device are those that were taken in, in that order;
/// the responses sent carry the tickets of the requests in flight at the
/// beginning and of those submitted since, in that order, but for the one
/// that is still in flight; and at most one is in flight.
pub proof fn lemma_run_accounts(state: WorkerState, events: Seq<EventView>)
    ensures
        submitted(state.run(events).1) == state.taken(events),
        request_ids(state.in_flight()) + request_ids(submitted(state.run(events).1))
            == response_ids(answered(state.run(events).1)) + request_ids(
            state.run(events).0.in_flight(),
        ),
        state.run(events).0.in_flight().len() <= 1,
    decreases events.len(),
{
    let (end, actions) = state.run(events);
    if events.len() == 0 {
        assert(submitted(actions) =~= Seq::<RenderRequest>::empty());
        assert(answered(actions) =~= Seq::<ResponseView>::empty());
        assert(request_ids(state.in_flight()) + request_ids(submitted(actions))
            =~= response_ids(answered(actions)) + request_ids(end.in_flight()));
    } else {
        let before = events.drop_last();
        let event = events.last();
        lemma_run_accounts(state, before);
        let (mid, earlier) = state.run(before);
        let ghost old_left = request_ids(state.in_flight()) + request_ids(submitted(earlier));
        let ghost old_right = response_ids(answered(earlier)) + request_ids(mid.in_flight());
        assert(old_left == old_right);
        match mid.next(event) {
            Some((after, action)) => {
                lemma_submitted_push(earlier, action);
                match action {
                    ActionView::Render { request, .. } => {
                        assert(mid.in_flight() =~= Seq::<RenderRequest>::empty());
                        assert(after.in_flight() =~= seq![request]);
                        assert(request_ids(state.in_flight()) + request_ids(
                            submitted(earlier).push(request),
                        ) =~= old_left.push(request.id));
                        assert(response_ids(answered(earlier)) + request_ids(after.in_flight())
                            =~= old_right.push(request.id));
                    },
                    ActionView::Respond(response) => {
                        let request = mid.in_flight()[0];
                        assert(mid.in_flight() =~= seq![request]);
                        assert(response.id() == request.id);
                        assert(after.in_flight() =~= Seq::<RenderRequest>::empty());
                        assert(response_ids(answered(earlier).push(response)) + request_ids(
                            after.in_flight(),
                        ) =~= old_right);
                    },
                    _ => {
                        assert(after.in_flight() =~= mid.in_flight());
                    },
                }
            },
            None => {},
        }
    }
}

/// Requests are answered in the order in which they were taken. From a
/// fresh worker and after any events, the tickets of the responses sent,
/// followed by that of the request in flight if there is one, are the
/// tickets of the requests taken in, in the same order: no response is
/// missing, doubled or out of place.
pub proof fn lemma_answers_in_order(config: RenderConfig, events: Seq<EventView>)
    ensures
        ({
            let start = WorkerState::fresh(config);
            let (end, actions) = start.run(events);
            &&& response_ids(answered(actions)) + request_ids(end.in_flight()) == request_ids(
                start.taken(events),
            )
            &&& end.in_flight().len() <= 1
            &&& end.in_flight().len() == 0 ==> response_ids(answered(actions)) == request_ids(
                start.taken(events),
            )
        }),
{
    let start = WorkerState::fresh(config);
    let (end, actions) = start.run(events);
    lemma_run_accounts(start, events);
    assert(request_ids(start.in_flight()) + request_ids(submitted(actions)) =~= request_ids(
        submitted(actions),
    ));
    if end.in_flight().len() == 0 {
        assert(response_ids(answered(actions)) + request_ids(end.in_flight()) =~= response_ids(
            answered(actions),
        ));
    }
}

/// Each response belongs to the request that was drawn for it. From a
/// fresh worker, the `i`-th response carries the ticket of the `i`-th
/// request taken in, and the `i`-th submission to the device was that very
/// request, position and all.
pub proof fn lemma_response_matches_request(config: RenderConfig, events: Seq<EventView>, i: int)
    requires
        0 <= i < answered(WorkerState::fresh(config).run(events).1).len(),
    ensures
        ({
            let start = WorkerState::fresh(config);
            let actions = start.run(events).1;
            &&& i < start.taken(events).len()
            &&& submitted(actions)[i] == start.taken(events)[i]
            &&& answered(actions)[i].id() == start.taken(events)[i].id
        }),
{
    let start = WorkerState::fresh(config);
    let (end, actions) = start.run(events);
    lemma_answers_in_order(config, events);
    lemma_run_accounts(start, events);
    let ids = response_ids(answered(actions)) + request_ids(end.in_flight());
    assert(ids.len() == start.taken(events).len());
    assert(ids[i] == response_ids(answered(actions))[i]);
    assert(ids[i] == request_ids(start.taken(events))[i]);
}

proof fn lemma_one_at_a_time_from(state: WorkerState, events: Seq<EventView>)
    requires
        state.in_flight().len() == 0,
    ensures
        one_at_a_time(state.run(events).1),
    decreases events.len(),
{
    let (end, actions) = state.run(events);
    assert forall|n: int| 0 <= n <= actions.len() implies ({
        let so_far = #[trigger] actions.take(n);
        answered(so_far).len() <= submitted(so_far).len() <= answered(so_far).len() + 1
    }) by {
        if n == actions.len() {
            assert(actions.take(n) =~= actions);
            lemma_run_accounts(state, events);
            let left = request_ids(state.in_flight()) + request_ids(submitted(actions));
            let right = response_ids(answered(actions)) + request_ids(end.in_flight());
            assert(left.len() == right.len());
        } else {
            // a shorter prefix was already there before the last event
            assert(events.len() > 0);
            let earlier = state.run(events.drop_last()).1;
            lemma_one_at_a_time_from(state, events.drop_last());
            assert(actions.take(n) =~= earlier.take(n));
        }
    }
}

/// One submission at a time. From a fresh worker and whatever events
/// arrive, at every point of its actions the worker has submitted at most
/// one request more than it has answered, and has answered none that it
/// had not submitted: a request goes to the device only after the one
/// before it has been answered, with its pixels or with its failure.
pub proof fn lemma_one_submission_at_a_time(config: RenderConfig, events: Seq<EventView>)
    ensures
        one_at_a_time(WorkerState::fresh(config).run(events).1),
{
    lemma_one_at_a_time_from(WorkerState::fresh(config), events);
}

proof fn lemma_step_pixels_are_tightly_packed(state: WorkerState, event: EventView)
    ensures
        state.next(event) matches Some((_, ActionView::Respond(ResponseView::Pixels { data, .. })))
            ==> data.len() == state.config.packed_len(),
{
    let width = state.config.width;
    let height = state.config.height;
    if let EventView::Mapped(bytes) = event {
        if state.row_alignment > 0 {
            lemma_unpadded_len(
                bytes,
                row_bytes(width),
                padded_row_bytes(width, state.row_alignment),
                height as int,
            );
            assert(height * (width * 4) == width * height * 4) by (nonlinear_arith);
        }
    }
}

/// Every image is tightly packed. Whatever state a worker is in and
/// whatever events arrive, pixels that it sends have four bytes for each
/// pixel of the configured size, no more and no fewer.
pub proof fn lemma_pixels_are_tightly_packed(state: WorkerState, events: Seq<EventView>, i: int)
    requires
        0 <= i < answered(state.run(events).1).len(),
    ensures
        answered(state.run(events).1)[i] matches ResponseView::Pixels { data, .. } ==> data.len()
            == state.config.packed_len(),
    decreases events.len(),
{
    if events.len() > 0 {
        let before = events.drop_last();
        let (mid, earlier) = state.run(before);
        lemma_run_keeps_config(state, before);
        match mid.next(events.last()) {
            Some((after, action)) => {
                lemma_submitted_push(earlier, action);
                lemma_step_pixels_are_tightly_packed(mid, events.last());
                if i < answered(earlier).len() {
                    lemma_pixels_are_tightly_packed(state, before, i);
                }
            },
            None => {
                lemma_pixels_are_tightly_packed(state, before, i);
            },
        }
    }
}

/// A missing device is fatal. A fresh worker told that there is no device
/// gives up with [`RenderError::DeviceUnavailable`], and from then on no
/// event makes it act or changes it.
pub proof fn lemma_missing_device_is_fatal(config: RenderConfig, later: Seq<EventView>)
    ensures
        ({
            let start = WorkerState::fresh(config);
            let failed = start.in_phase(Phase::Failed);
            &&& start.next(EventView::DeviceMissing) == Some(
                (failed, ActionView::Halt(RenderError::DeviceUnavailable)),
            )
            &&& failed.run(later) == (failed, Seq::<ActionView>::empty())
        }),
    decreases later.len(),
{
    if later.len() > 0 {
        lemma_missing_device_is_fatal(config, later.drop_last());
    }
}

/// A failed submission costs one request only. A worker whose device
/// rejects the request in flight answers that request with
/// [`RenderError::RenderFailure`], and once the answer is on its way,
/// delivered or not, it takes the next request and submits it.
pub proof fn lemma_render_failure_is_recoverable(
    state: WorkerState,
    failing: RenderRequest,
    delivered: bool,
    following: RenderRequest,
)
    requires
        state.phase == Phase::Rendering(failing),
    ensures
        ({
            let outcome = if delivered {
                EventView::Delivered
            } else {
                EventView::ReceiverGone
            };
            let resumed = if delivered {
                ActionView::AwaitRequest
            } else {
                ActionView::ReportAndAwait(RenderError::ChannelClosed)
            };
            state.run(seq![EventView::RenderRejected, outcome, EventView::Request(following)]) == (
                state.in_phase(Phase::Rendering(following)),
                seq![
                    ActionView::Respond(
                        ResponseView::Failed { id: failing.id, error: RenderError::RenderFailure },
                    ),
                    resumed,
                    ActionView::Render { request: following, config: state.config },
                ],
            )
        }),
{
    let outcome = if delivered {
        EventView::Delivered
    } else {
        EventView::ReceiverGone
    };
    let none = Seq::<EventView>::empty();
    let one = seq![EventView::RenderRejected];
    let two = seq![EventView::RenderRejected, outcome];
    let three = seq![EventView::RenderRejected, outcome, EventView::Request(following)];
    assert(one =~= none.push(EventView::RenderRejected));
    assert(two =~= one.push(outcome));
    assert(three =~= two.push(EventView::Request(following)));
    lemma_run_push(state, none, EventView::RenderRejected);
    lemma_run_push(state, one, outcome);
    lemma_run_push(state, two, EventView::Request(following));
    assert(state.run(three).1 =~= seq![
        ActionView::Respond(
            ResponseView::Failed { id: failing.id, error: RenderError::RenderFailure },
        ),
        if delivered {
            ActionView::AwaitRequest
        } else {
            ActionView::ReportAndAwait(RenderError::ChannelClosed)
        },
        ActionView::Render { request: following, config: state.config },
    ]);
}

/// A failed readback costs one request only, in the same way: the request
/// is answered with [`RenderError::ReadbackFailure`] and the next one is
/// served.
pub proof fn lemma_readback_failure_is_recoverable(
    state: WorkerState,
    failing: RenderRequest,
    following: RenderRequest,
)
    requires
        state.phase == Phase::ReadingBack(failing),
    ensures
        state.run(
            seq![EventView::MapFailed, EventView::Delivered, EventView::Request(following)],
        ) == (
            state.in_phase(Phase::Rendering(following)),
            seq![
                ActionView::Respond(
                    ResponseView::Failed { id: failing.id, error: RenderError::ReadbackFailure },
                ),
                ActionView::AwaitRequest,
                ActionView::Render { request: following, config: state.config },
            ],
        ),
{
    let none = Seq::<EventView>::empty();
    let one = seq![EventView::MapFailed];
    let two = seq![EventView::MapFailed, EventView::Delivered];
    let three = seq![EventView::MapFailed, EventView::Delivered, EventView::Request(following)];
    assert(one =~= none.push(EventView::MapFailed));
    assert(two =~= one.push(EventView::Delivered));
    assert(three =~= two.push(EventView::Request(following)));
    lemma_run_push(state, none, EventView::MapFailed);
    lemma_run_push(state, one, EventView::Delivered);
    lemma_run_push(state, two, EventView::Request(following));
    assert(state.run(three).1 =~= seq![
        ActionView::Respond(
            ResponseView::Failed { id: failing.id, error: RenderError::ReadbackFailure },
        ),
        ActionView::AwaitRequest,
        ActionView::Render { request: following, config: state.config },
    ]);
}

} // verus!
