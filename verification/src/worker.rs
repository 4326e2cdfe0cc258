//! The render worker as a state machine.
//!
//! One worker owns one graphics device. The code that drives the device
//! hands the worker each thing that happened as a [`WorkerEvent`] and gets
//! back the one thing to do next as a [`WorkerAction`]. The worker decides;
//! it never touches the device itself. Because a request is taken only when
//! nothing is in flight, requests are answered one at a time and in the
//! order in which they were taken.

use crate::protocol::RenderConfig;
use crate::protocol::RenderError;
use crate::protocol::RenderRequest;
use crate::protocol::RenderResponse;
use crate::protocol::ResponseView;
use crate::readback::padded_row_bytes;
use crate::readback::required_len;
use crate::readback::row_bytes;
use crate::readback::unpad_rows;
use crate::readback::unpadded;
use crate::readback::bytes_per_row;
use vstd::prelude::*;

verus! {

/// Where the worker stands in its life.
#[derive(Clone, Copy, Debug, PartialEq, Eq, Structural)]
pub enum Phase {
    /// Waiting for the graphics device.
    Starting,
    /// Waiting for the next request.
    Idle,
    /// The request has been submitted to the device.
    Rendering(RenderRequest),
    /// The request's pixels are being copied out and mapped.
    ReadingBack(RenderRequest),
    /// The response has been handed over for delivery.
    Replying,
    /// Shut down on request. Nothing happens any more.
    Stopped,
    /// No device. Nothing happens any more.
    Failed,
}

/// What the driver reports to the worker.
#[derive(Clone, Debug, PartialEq, Eq)]
pub enum WorkerEvent {
    /// A device was acquired; its texture copies need rows aligned to
    /// `row_alignment` bytes.
    DeviceAcquired { row_alignment: u32 },
    /// No compatible device exists.
    DeviceMissing,
    /// A request arrived on the inbound channel.
    Request(RenderRequest),
    /// The inbound channel is closed or a shutdown was signalled.
    Shutdown,
    /// The device accepted and finished the submission.
    Rendered,
    /// The device rejected or failed the submission.
    RenderRejected,
    /// The staging buffer is mapped; these are its bytes, rows padded.
    Mapped(Vec<u8>),
    /// The staging buffer could not be mapped.
    MapFailed,
    /// The response was handed to its receiver.
    Delivered,
    /// Nobody is left to receive the response.
    ReceiverGone,
}

/// An event as a mathematical value.
pub enum EventView {
    DeviceAcquired { row_alignment: u32 },
    DeviceMissing,
    Request(RenderRequest),
    Shutdown,
    Rendered,
    RenderRejected,
    Mapped(Seq<u8>),
    MapFailed,
    Delivered,
    ReceiverGone,
}

impl View for WorkerEvent {
    type V = EventView;

    open spec fn view(&self) -> EventView {
        match *self {
            WorkerEvent::DeviceAcquired { row_alignment } => EventView::DeviceAcquired {
                row_alignment,
            },
            WorkerEvent::DeviceMissing => EventView::DeviceMissing,
            WorkerEvent::Request(request) => EventView::Request(request),
            WorkerEvent::Shutdown => EventView::Shutdown,
            WorkerEvent::Rendered => EventView::Rendered,
            WorkerEvent::RenderRejected => EventView::RenderRejected,
            WorkerEvent::Mapped(bytes) => EventView::Mapped(bytes@),
            WorkerEvent::MapFailed => EventView::MapFailed,
            WorkerEvent::Delivered => EventView::Delivered,
            WorkerEvent::ReceiverGone => EventView::ReceiverGone,
        }
    }
}

/// What the worker tells the driver to do next.
#[derive(Clone, Debug, PartialEq, Eq)]
pub enum WorkerAction {
    /// Block until a request arrives.
    AwaitRequest,
    /// Log the error, then block until a request arrives.
    ReportAndAwait(RenderError),
    /// Clear the scene, draw what the request asks for and render it into
    /// a fresh target texture of the configured size, over the configured
    /// background and with the configured antialiasing.
    Render { request: RenderRequest, config: RenderConfig },
    /// Copy the target texture into a staging buffer of `buffer_size`
    /// bytes with rows `bytes_per_row` apart, and map it.
    ReadBack { bytes_per_row: u32, buffer_size: u64 },
    /// Send the response to the caller that waits for it.
    Respond(RenderResponse),
    /// Leave the loop: the service was shut down.
    Exit,
    /// Give up: the service cannot be provided.
    Halt(RenderError),
}

/// An action as a mathematical value.
pub enum ActionView {
    AwaitRequest,
    ReportAndAwait(RenderError),
    Render { request: RenderRequest, config: RenderConfig },
    ReadBack { bytes_per_row: u32, buffer_size: u64 },
    Respond(ResponseView),
    Exit,
    Halt(RenderError),
}

impl View for WorkerAction {
    type V = ActionView;

    open spec fn view(&self) -> ActionView {
        match *self {
            WorkerAction::AwaitRequest => ActionView::AwaitRequest,
            WorkerAction::ReportAndAwait(error) => ActionView::ReportAndAwait(error),
            WorkerAction::Render { request, config } => ActionView::Render { request, config },
            WorkerAction::ReadBack { bytes_per_row, buffer_size } => ActionView::ReadBack {
                bytes_per_row,
                buffer_size,
            },
            WorkerAction::Respond(response) => ActionView::Respond(response@),
            WorkerAction::Exit => ActionView::Exit,
            WorkerAction::Halt(error) => ActionView::Halt(error),
        }
    }
}

/// The response to request `id` once its staging buffer `bytes` is mapped:
/// the unpadded pixels if every row lies inside the buffer, a readback
/// failure if not.
pub open spec fn response_for(
    config: RenderConfig,
    row_alignment: u32,
    id: u64,
    bytes: Seq<u8>,
) -> ResponseView {
    if row_alignment > 0 && bytes.len() >= required_len(
        config.width,
        config.height,
        row_alignment,
    ) {
        ResponseView::Pixels {
            id,
            data: unpadded(
                bytes,
                row_bytes(config.width),
                padded_row_bytes(config.width, row_alignment),
                config.height as int,
            ),
        }
    } else {
        ResponseView::Failed { id, error: RenderError::ReadbackFailure }
    }
}

/// All that a worker remembers.
pub struct WorkerState {
    pub config: RenderConfig,
    /// Row alignment of the acquired device; 0 before there is one.
    pub row_alignment: u32,
    /// Row stride of the staging buffer; 0 before there is a device.
    pub bytes_per_row: u32,
    pub phase: Phase,
}

impl WorkerState {
    /// A worker that has not yet been given a device.
    pub open spec fn fresh(config: RenderConfig) -> WorkerState {
        WorkerState { config, row_alignment: 0, bytes_per_row: 0, phase: Phase::Starting }
    }

    /// The same worker in another phase.
    pub open spec fn in_phase(self, phase: Phase) -> WorkerState {
        WorkerState { phase, ..self }
    }

    /// Whether a device has been acquired and the worker serves requests.
    pub open spec fn serving(self) -> bool {
        self.phase !is Starting && self.phase !is Failed
    }

    /// Once a device has been acquired, the stored stride is the row length
    /// rounded up to the device's alignment.
    pub open spec fn wf(self) -> bool {
        self.serving() ==> self.row_alignment > 0 && self.bytes_per_row == padded_row_bytes(
            self.config.width,
            self.row_alignment,
        )
    }

    /// The request that has been submitted and not yet answered, if any.
    pub open spec fn in_flight(self) -> Seq<RenderRequest> {
        match self.phase {
            Phase::Rendering(request) => seq![request],
            Phase::ReadingBack(request) => seq![request],
            _ => Seq::empty(),
        }
    }

    /// The worker's whole behaviour: the state and the action that follow
    /// `event`, or `None` where the event has no meaning in this phase.
    ///
    /// A device whose row alignment is zero, or so coarse that the padded
    /// row no longer fits in 32 bits, cannot serve images of the configured
    /// width: it counts as no device at all.
    pub open spec fn next(self, event: EventView) -> Option<(WorkerState, ActionView)> {
        match (self.phase, event) {
            (Phase::Starting, EventView::DeviceAcquired { row_alignment }) => {
                if row_alignment > 0 && padded_row_bytes(self.config.width, row_alignment)
                    <= u32::MAX {
                    Some(
                        (
                            WorkerState {
                                config: self.config,
                                row_alignment,
                                bytes_per_row: padded_row_bytes(
                                    self.config.width,
                                    row_alignment,
                                ) as u32,
                                phase: Phase::Idle,
                            },
                            ActionView::AwaitRequest,
                        ),
                    )
                } else {
                    Some(
                        (
                            self.in_phase(Phase::Failed),
                            ActionView::Halt(RenderError::DeviceUnavailable),
                        ),
                    )
                }
            },
            (Phase::Starting, EventView::DeviceMissing) => Some(
                (self.in_phase(Phase::Failed), ActionView::Halt(RenderError::DeviceUnavailable)),
            ),
            (Phase::Idle, EventView::Request(request)) => Some(
                (
                    self.in_phase(Phase::Rendering(request)),
                    ActionView::Render { request, config: self.config },
                ),
            ),
            (Phase::Idle, EventView::Shutdown) => Some(
                (self.in_phase(Phase::Stopped), ActionView::Exit),
            ),
            (Phase::Rendering(request), EventView::Rendered) => Some(
                (
                    self.in_phase(Phase::ReadingBack(request)),
                    ActionView::ReadBack {
                        bytes_per_row: self.bytes_per_row,
                        buffer_size: (self.config.height * self.bytes_per_row) as u64,
                    },
                ),
            ),
            (Phase::Rendering(request), EventView::RenderRejected) => Some(
                (
                    self.in_phase(Phase::Replying),
                    ActionView::Respond(
                        ResponseView::Failed { id: request.id, error: RenderError::RenderFailure },
                    ),
                ),
            ),
            (Phase::ReadingBack(request), EventView::Mapped(bytes)) => Some(
                (
                    self.in_phase(Phase::Replying),
                    ActionView::Respond(
                        response_for(self.config, self.row_alignment, request.id, bytes),
                    ),
                ),
            ),
            (Phase::ReadingBack(request), EventView::MapFailed) => Some(
                (
                    self.in_phase(Phase::Replying),
                    ActionView::Respond(
                        ResponseView::Failed {
                            id: request.id,
                            error: RenderError::ReadbackFailure,
                        },
                    ),
                ),
            ),
            (Phase::Replying, EventView::Delivered) => Some(
                (self.in_phase(Phase::Idle), ActionView::AwaitRequest),
            ),
            (Phase::Replying, EventView::ReceiverGone) => Some(
                (
                    self.in_phase(Phase::Idle),
                    ActionView::ReportAndAwait(RenderError::ChannelClosed),
                ),
            ),
            _ => None,
        }
    }

    /// The state after a whole sequence of events, and the actions taken on
    /// the way. An event without meaning in its phase changes nothing and
    /// causes no action.
    pub open spec fn run(self, events: Seq<EventView>) -> (WorkerState, Seq<ActionView>)
        decreases events.len(),
    {
        if events.len() == 0 {
            (self, Seq::empty())
        } else {
            let (state, actions) = self.run(events.drop_last());
            match state.next(events.last()) {
                Some((after, action)) => (after, actions.push(action)),
                None => (state, actions),
            }
        }
    }

    /// The requests that the worker took in during `events`, in order: those
    /// that arrived while it was idle.
    pub open spec fn taken(self, events: Seq<EventView>) -> Seq<RenderRequest>
        decreases events.len(),
    {
        if events.len() == 0 {
            Seq::empty()
        } else {
            let earlier = self.taken(events.drop_last());
            match events.last() {
                EventView::Request(request) => if self.run(events.drop_last()).0.phase is Idle {
                    earlier.push(request)
                } else {
                    earlier
                },
                _ => earlier,
            }
        }
    }
}

/// The requests submitted to the device by `actions`, in order.
pub open spec fn submitted(actions: Seq<ActionView>) -> Seq<RenderRequest>
    decreases actions.len(),
{
    if actions.len() == 0 {
        Seq::empty()
    } else {
        let earlier = submitted(actions.drop_last());
        match actions.last() {
            ActionView::Render { request, .. } => earlier.push(request),
            _ => earlier,
        }
    }
}

/// The responses sent by `actions`, in order.
pub open spec fn answered(actions: Seq<ActionView>) -> Seq<ResponseView>
    decreases actions.len(),
{
    if actions.len() == 0 {
        Seq::empty()
    } else {
        let earlier = answered(actions.drop_last());
        match actions.last() {
            ActionView::Respond(response) => earlier.push(response),
            _ => earlier,
        }
    }
}

/// The tickets of a sequence of requests.
pub open spec fn request_ids(requests: Seq<RenderRequest>) -> Seq<u64> {
    requests.map_values(|request: RenderRequest| request.id)
}

/// The tickets of a sequence of responses.
pub open spec fn response_ids(responses: Seq<ResponseView>) -> Seq<u64> {
    responses.map_values(|response: ResponseView| response.id())
}

/// At every point of `actions`, the submissions made so far are all
/// answered but possibly the last: a submission is never made while an
/// earlier one is unanswered, and nothing is answered that was not
/// submitted.
pub open spec fn one_at_a_time(actions: Seq<ActionView>) -> bool {
    forall|n: int|
        0 <= n <= actions.len() ==> {
            let so_far = #[trigger] actions.take(n);
            answered(so_far).len() <= submitted(so_far).len() <= answered(so_far).len() + 1
        }
}

/// The render worker: its state, changed only by [`Worker::step`].
pub struct Worker {
    state: WorkerState,
}

impl View for Worker {
    type V = WorkerState;

    closed spec fn view(&self) -> WorkerState {
        self.state
    }
}

impl Worker {
    #[verifier::type_invariant]
    spec fn inv(self) -> bool {
        self.state.wf()
    }

    /// A worker for images of the configured size. It starts by waiting
    /// for a device.
    pub fn new(config: RenderConfig) -> (worker: Worker)
        ensures
            worker@ == WorkerState::fresh(config),
    {
        Worker {
            state: WorkerState { config, row_alignment: 0, bytes_per_row: 0, phase: Phase::Starting },
        }
    }

    /// The phase that the worker is in.
    pub fn phase(&self) -> (phase: Phase)
        ensures
            phase == self@.phase,
    {
        self.state.phase
    }

    /// The configuration that the worker was built with.
    pub fn config(&self) -> (config: RenderConfig)
        ensures
            config == self@.config,
    {
        self.state.config
    }

    /// Takes one event and says what to do next.
    ///
    /// The result and the new state are those of [`WorkerState::next`]. An
    /// event that has no meaning in the current phase gives `None` and
    /// leaves the worker as it was.
    pub fn step(&mut self, event: WorkerEvent) -> (action: Option<WorkerAction>)
        ensures
            final(self)@.wf(),
            match old(self)@.next(event@) {
                Some((state, expected)) => final(self)@ == state && action is Some
                    && action->Some_0@ == expected,
                None => final(self)@ == old(self)@ && action is None,
            },
    {
        proof {
            use_type_invariant(&*self);
        }
        let config = self.state.config;
        let row_alignment = self.state.row_alignment;
        let stride = self.state.bytes_per_row;
        match (self.state.phase, event) {
            (Phase::Starting, WorkerEvent::DeviceAcquired { row_alignment }) => {
                match bytes_per_row(config.width, row_alignment) {
                    Some(stride) => {
                        self.state = WorkerState {
                            config,
                            row_alignment,
                            bytes_per_row: stride,
                            phase: Phase::Idle,
                        };
                        Some(WorkerAction::AwaitRequest)
                    },
                    None => {
                        self.state.phase = Phase::Failed;
                        Some(WorkerAction::Halt(RenderError::DeviceUnavailable))
                    },
                }
            },
            (Phase::Starting, WorkerEvent::DeviceMissing) => {
                self.state.phase = Phase::Failed;
                Some(WorkerAction::Halt(RenderError::DeviceUnavailable))
            },
            (Phase::Idle, WorkerEvent::Request(request)) => {
                self.state.phase = Phase::Rendering(request);
                Some(WorkerAction::Render { request, config })
            },
            (Phase::Idle, WorkerEvent::Shutdown) => {
                self.state.phase = Phase::Stopped;
                Some(WorkerAction::Exit)
            },
            (Phase::Rendering(request), WorkerEvent::Rendered) => {
                assert(config.height * stride <= u32::MAX * u32::MAX) by (nonlinear_arith)
                    requires
                        config.height <= u32::MAX,
                        stride <= u32::MAX,
                ;
                self.state.phase = Phase::ReadingBack(request);
                Some(
                    WorkerAction::ReadBack {
                        bytes_per_row: stride,
                        buffer_size: config.height as u64 * stride as u64,
                    },
                )
            },
            (Phase::Rendering(request), WorkerEvent::RenderRejected) => {
                self.state.phase = Phase::Replying;
                Some(
                    WorkerAction::Respond(
                        RenderResponse::Failed { id: request.id, error: RenderError::RenderFailure },
                    ),
                )
            },
            (Phase::ReadingBack(request), WorkerEvent::Mapped(bytes)) => {
                self.state.phase = Phase::Replying;
                let response = match unpad_rows(
                    bytes.as_slice(),
                    config.width,
                    config.height,
                    row_alignment,
                ) {
                    Ok(data) => RenderResponse::Pixels { id: request.id, data },
                    Err(_) => RenderResponse::Failed {
                        id: request.id,
                        error: RenderError::ReadbackFailure,
                    },
                };
                Some(WorkerAction::Respond(response))
            },
            (Phase::ReadingBack(request), WorkerEvent::MapFailed) => {
                self.state.phase = Phase::Replying;
                Some(
                    WorkerAction::Respond(
                        RenderResponse::Failed {
                            id: request.id,
                            error: RenderError::ReadbackFailure,
                        },
                    ),
                )
            },
            (Phase::Replying, WorkerEvent::Delivered) => {
                self.state.phase = Phase::Idle;
                Some(WorkerAction::AwaitRequest)
            },
            (Phase::Replying, WorkerEvent::ReceiverGone) => {
                self.state.phase = Phase::Idle;
                Some(WorkerAction::ReportAndAwait(RenderError::ChannelClosed))
            },
            _ => None,
        }
    }
}

} // verus!
