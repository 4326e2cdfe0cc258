//! The entry points of the service.
//!
//! A [`Service`] is everything that the process shares: whether the
//! one-time setup has run, which workers are registered, and the next
//! ticket. The functions here decide; whoever calls them holds the service
//! behind one lock, starts the workers they ask for and moves the requests
//! they hand out.

use crate::client::Call;
use crate::client::CallPhase;
use crate::protocol::Pos;
use crate::protocol::RenderCommand;
use crate::protocol::RenderError;
use crate::protocol::RenderRequest;
use crate::registry::get_or_create_spec;
use crate::registry::lemma_get_or_create_registers;
use crate::registry::lemma_index_of_unique;
use crate::registry::Registry;
use vstd::prelude::*;
use vstd::string::StringExecFns;

verus! {

/// The key under which the one-time setup registers its worker.
pub const DEFAULT_KEY: &'static str = "key";

/// The ticket that follows `ticket`. After the largest comes 0 again.
pub open spec fn next_ticket(ticket: u64) -> u64 {
    if ticket == u64::MAX {
        0
    } else {
        (ticket + 1) as u64
    }
}

/// The ticket issued `k` calls after the ticket `first`.
pub open spec fn ticket_at(first: u64, k: nat) -> u64 {
    ((first + k) % 0x1_0000_0000_0000_0000) as u64
}

/// The next ticket is the one issued one call later.
pub proof fn lemma_next_ticket(ticket: u64)
    ensures
        next_ticket(ticket) == ticket_at(ticket, 1),
        ticket_at(ticket, 0) == ticket,
{
}

/// Issuing `j` tickets and then `k` more is issuing `j + k`.
pub proof fn lemma_ticket_at_adds(first: u64, j: nat, k: nat)
    ensures
        ticket_at(ticket_at(first, j), k) == ticket_at(first, j + k),
{
    let m = 0x1_0000_0000_0000_0000int;
    vstd::arithmetic::div_mod::lemma_add_mod_noop(first + j, k as int, m);
    vstd::arithmetic::div_mod::lemma_mod_bound(first + j, m);
    vstd::arithmetic::div_mod::lemma_mod_twice(first + j, m);
    vstd::arithmetic::div_mod::lemma_add_mod_noop((first + j) % m, k as int, m);
}

/// Tickets do not repeat before all of them have been used: two tickets
/// issued fewer than 2^64 calls apart are different.
pub proof fn lemma_tickets_differ(first: u64, j: nat, k: nat)
    requires
        j < k < j + 0x1_0000_0000_0000_0000,
    ensures
        ticket_at(first, j) != ticket_at(first, k),
{
    let m = 0x1_0000_0000_0000_0000int;
    let a = first + j;
    let b = first + k;
    vstd::arithmetic::div_mod::lemma_fundamental_div_mod(a, m);
    vstd::arithmetic::div_mod::lemma_fundamental_div_mod(b, m);
    vstd::arithmetic::div_mod::lemma_mod_bound(a, m);
    vstd::arithmetic::div_mod::lemma_mod_bound(b, m);
    if a % m == b % m {
        let qa = a / m;
        let qb = b / m;
        assert(b - a == m * qb - m * qa);
        assert(m * qb - m * qa == m * (qb - qa)) by (nonlinear_arith);
        assert(0 < m * (qb - qa) < m);
        assert(false) by (nonlinear_arith)
            requires
                0 < m * (qb - qa) < m,
                m > 0,
        ;
    }
}

/// What the one-time setup asks of its caller.
#[derive(Clone, Copy, Debug, PartialEq, Eq, Structural)]
pub enum Startup {
    /// The setup has run before. There is nothing to do.
    AlreadyDone,
    /// This was the first call. Set the process up and, if `spawn` names a
    /// handle, start the worker for it.
    SetUp { spawn: Option<usize> },
}

/// A request on its way: the worker that it goes to, the request itself,
/// and the call that waits for the response.
#[derive(Clone, Copy, Debug, PartialEq, Eq, Structural)]
pub struct Dispatch {
    pub worker: usize,
    pub request: RenderRequest,
    pub call: Call,
}

/// A service as a mathematical value.
pub struct ServiceState {
    pub initialized: bool,
    pub keys: Seq<Seq<char>>,
    pub next_ticket: u64,
}

impl ServiceState {
    /// A service in which nothing has happened yet.
    pub open spec fn initial() -> ServiceState {
        ServiceState { initialized: false, keys: Seq::empty(), next_ticket: 0 }
    }

    /// No key is registered twice.
    pub open spec fn wf(self) -> bool {
        self.keys.no_duplicates()
    }

    /// Registering `key` where it is missing: the service afterwards and
    /// the handle of the worker to start, if this call registered it.
    pub open spec fn init_renderer(self, key: Seq<char>) -> (ServiceState, Option<usize>) {
        let (keys, handle, created) = get_or_create_spec(self.keys, key);
        (
            ServiceState { initialized: self.initialized, keys, next_ticket: self.next_ticket },
            if created {
                Some(handle as usize)
            } else {
                None
            },
        )
    }

    /// The one-time setup: on the first call the default key is
    /// registered; every later call changes nothing.
    pub open spec fn init_app(self) -> (ServiceState, Startup) {
        if self.initialized {
            (self, Startup::AlreadyDone)
        } else {
            let (after, spawn) = self.init_renderer(DEFAULT_KEY@);
            (
                ServiceState { initialized: true, keys: after.keys, next_ticket: after.next_ticket },
                Startup::SetUp { spawn },
            )
        }
    }

    /// The service after `calls` calls of the one-time setup.
    pub open spec fn after_init_calls(self, calls: nat) -> ServiceState
        decreases calls,
    {
        if calls == 0 {
            self
        } else {
            self.after_init_calls((calls - 1) as nat).init_app().0
        }
    }

    /// A render call: where a worker is registered under `key`, the next
    /// ticket is issued and a request with it goes to that worker; where
    /// none is, the call fails and no ticket is used.
    pub open spec fn render_scene(self, key: Seq<char>, position: Pos) -> (
        ServiceState,
        Result<Dispatch, RenderError>,
    ) {
        if self.keys.contains(key) {
            (
                ServiceState {
                    initialized: self.initialized,
                    keys: self.keys,
                    next_ticket: next_ticket(self.next_ticket),
                },
                Ok(
                    Dispatch {
                        worker: self.keys.index_of(key) as usize,
                        request: RenderRequest {
                            id: self.next_ticket,
                            command: RenderCommand::Render(position),
                        },
                        call: Call { id: self.next_ticket, phase: CallPhase::Sending },
                    },
                ),
            )
        } else {
            (self, Err(RenderError::WorkerUnreachable))
        }
    }
}

/// Setting up twice is setting up once. After any number of calls of the
/// one-time setup, one or more, the service is as it was after the first:
/// the default key is registered exactly once, and a further call asks for
/// nothing.
pub proof fn lemma_init_app_idempotent(state: ServiceState, calls: nat)
    requires
        state.wf(),
        calls >= 1,
    ensures
        state.after_init_calls(calls) == state.init_app().0,
        state.after_init_calls(calls).init_app() == (state.init_app().0, Startup::AlreadyDone),
        !state.initialized ==> state.after_init_calls(calls).keys.contains(DEFAULT_KEY@),
        state.after_init_calls(calls).wf(),
    decreases calls,
{
    lemma_get_or_create_registers(state.keys, DEFAULT_KEY@);
    let first = state.init_app().0;
    if !state.initialized {
        let found = get_or_create_spec(state.keys, DEFAULT_KEY@);
        lemma_index_of_unique(found.0, DEFAULT_KEY@, found.1);
    }
    if calls == 1 {
        assert(state.after_init_calls(0) == state);
        assert(state.after_init_calls(1) == first);
    } else {
        lemma_init_app_idempotent(state, (calls - 1) as nat);
        assert(state.after_init_calls(calls) == first.init_app().0);
    }
}

/// From a service in which nothing has happened, any number of calls of
/// the one-time setup, one or more, leave one registered worker, and only
/// the first call asks for it to be started.
pub proof fn lemma_one_worker_after_init(calls: nat)
    requires
        calls >= 1,
    ensures
        ServiceState::initial().after_init_calls(calls).keys == seq![DEFAULT_KEY@],
        ServiceState::initial().init_app().1 == (Startup::SetUp { spawn: Some(0usize) }),
        ServiceState::initial().after_init_calls(calls).init_app().1 == Startup::AlreadyDone,
{
    let start = ServiceState::initial();
    lemma_init_app_idempotent(start, calls);
    assert(!start.keys.contains(DEFAULT_KEY@));
    assert(start.keys.push(DEFAULT_KEY@) =~= seq![DEFAULT_KEY@]);
}

/// Everything that the process shares.
pub struct Service {
    initialized: bool,
    registry: Registry,
    next_ticket: u64,
}

impl View for Service {
    type V = ServiceState;

    closed spec fn view(&self) -> ServiceState {
        ServiceState {
            initialized: self.initialized,
            keys: self.registry@,
            next_ticket: self.next_ticket,
        }
    }
}

impl Service {
    /// No key is registered twice. Every service that this module hands
    /// out is well formed, and its functions keep it so.
    pub open spec fn wf(&self) -> bool {
        self@.wf()
    }

    /// A service in which nothing has happened yet.
    pub fn new() -> (service: Service)
        ensures
            service.wf(),
            service@ == ServiceState::initial(),
    {
        Service { initialized: false, registry: Registry::new(), next_ticket: 0 }
    }

    /// Whether the one-time setup has run.
    pub fn is_initialized(&self) -> (done: bool)
        ensures
            done == self@.initialized,
    {
        self.initialized
    }

    /// How many workers are registered.
    pub fn workers(&self) -> (n: usize)
        ensures
            n == self@.keys.len(),
    {
        self.registry.len()
    }

    /// The handle of the worker registered under `key`, if there is one.
    pub fn lookup(&self, key: &str) -> (handle: Option<usize>)
        requires
            self.wf(),
        ensures
            match handle {
                Some(at) => at < self@.keys.len() && self@.keys[at as int] == key@,
                None => !self@.keys.contains(key@),
            },
    {
        self.registry.lookup(key)
    }
}

/// Registers `key` where it is missing. `Some(handle)` says that this call
/// registered it and that the worker with that handle has to be started;
/// `None` says that a worker is registered already.
pub fn init_renderer(service: &mut Service, key: &str) -> (spawn: Option<usize>)
    requires
        old(service).wf(),
    ensures
        final(service).wf(),
        (final(service)@, spawn) == old(service)@.init_renderer(key@),
        spawn is Some <==> !old(service)@.keys.contains(key@),
        final(service)@.keys.contains(key@),
{
    let (handle, created) = service.registry.get_or_create(key);
    if created {
        Some(handle)
    } else {
        None
    }
}

/// The one-time setup. The first call marks the service as set up and
/// registers the default key; every later call finds the mark and changes
/// nothing.
pub fn init_app(service: &mut Service) -> (startup: Startup)
    requires
        old(service).wf(),
    ensures
        final(service).wf(),
        (final(service)@, startup) == old(service)@.init_app(),
        final(service)@.initialized,
        !old(service)@.initialized ==> final(service)@.keys.contains(DEFAULT_KEY@),
        old(service)@.initialized ==> startup == Startup::AlreadyDone && final(service)@ == old(
            service,
        )@,
{
    if service.initialized {
        return Startup::AlreadyDone;
    }
    service.initialized = true;
    let spawn = init_renderer(service, DEFAULT_KEY);
    Startup::SetUp { spawn }
}

/// Begins a render call for the worker registered under `key`.
///
/// Where there is such a worker, the call gets the next ticket, and the
/// result names the worker, the request to send to it and the call that
/// waits for the response. Where there is none, the result is
/// [`RenderError::WorkerUnreachable`] and the service is unchanged.
pub fn render_scene(service: &mut Service, key: &str, x: u64, y: u64) -> (dispatch: Result<
    Dispatch,
    RenderError,
>)
    requires
        old(service).wf(),
    ensures
        final(service).wf(),
        (final(service)@, dispatch) == old(service)@.render_scene(key@, Pos { x, y }),
        dispatch is Ok <==> old(service)@.keys.contains(key@),
{
    match service.registry.lookup(key) {
        Some(worker) => {
            let id = service.next_ticket;
            service.next_ticket = id.wrapping_add(1);
            Ok(
                Dispatch {
                    worker,
                    request: RenderRequest { id, command: RenderCommand::Render(Pos { x, y }) },
                    call: Call::new(id),
                },
            )
        },
        None => Err(RenderError::WorkerUnreachable),
    }
}

/// Begins a render call for the worker under the default key, with the
/// scene parameterized by the point `(x, y)`.
pub fn test_render(service: &mut Service, x: u64, y: u64) -> (dispatch: Result<
    Dispatch,
    RenderError,
>)
    requires
        old(service).wf(),
    ensures
        final(service).wf(),
        (final(service)@, dispatch) == old(service)@.render_scene(DEFAULT_KEY@, Pos { x, y }),
        dispatch is Ok <==> old(service)@.keys.contains(DEFAULT_KEY@),
{
    render_scene(service, DEFAULT_KEY, x, y)
}

/// A greeting for `name`.
pub fn greet(name: String) -> (greeting: String)
    ensures
        greeting@ == "Hello, "@ + name@ + "!"@,
{
    String::from_str("Hello, ").concat(name.as_str()).concat("!")
}

} // verus!
