//! Host kernel: the lifecycle of a host that owns a root.
//!
//! The host acquires the root, publishes its registration and serves until it is
//! idle or told to stop; then it drains: it admits nothing more and gives open
//! connections a brief grace before it withdraws its registration.

use super::dispatcher::OpContext;
use super::registration::HostRegistration;
use super::registration::HostRegistrationView;
use super::registration::registration_for;
use crate::protocol::handshake::LifecycleState;
use vstd::prelude::*;

verus! {

/// Default idle grace, in milliseconds, before an idle host shuts itself down.
pub const DEFAULT_IDLE_GRACE_MS: u64 = 30000;

/// How long, in milliseconds, a draining host waits for its connections.
pub const DRAIN_GRACE_MS: u64 = 500;

/// How often, in milliseconds, a draining host looks at its connections.
pub const DRAIN_POLL_MS: u64 = 20;

/// Why serving ended.
#[derive(Debug, Clone, Copy, PartialEq, Eq, Structural)]
pub enum ServeOutcome {
    /// Served and shut down (idle timeout or listener closed).
    Done,
    /// Another process owns this root; the caller should exit.
    Loser,
}

/// The host's lifecycle and how many connections it serves.
pub struct HostKernel {
    host_epoch: String,
    lifecycle: LifecycleState,
    connections: u64,
}

/// What a [`HostKernel`] knows.
pub struct KernelView {
    pub host_epoch: Seq<char>,
    pub lifecycle: LifecycleState,
    pub connections: u64,
}

impl View for HostKernel {
    type V = KernelView;

    closed spec fn view(&self) -> KernelView {
        KernelView {
            host_epoch: self.host_epoch@,
            lifecycle: self.lifecycle,
            connections: self.connections,
        }
    }
}

impl KernelView {
    /// True idle: ready, and no connections.
    pub open spec fn idle(self) -> bool {
        self.lifecycle is Ready && self.connections == 0
    }

    /// A draining host still waits for its connections.
    pub open spec fn draining(self, elapsed_ms: u64) -> bool {
        self.connections > 0 && elapsed_ms < DRAIN_GRACE_MS
    }
}

impl HostKernel {
    pub fn new(host_epoch: &str) -> (r: Self)
        ensures
            r@ == (KernelView {
                host_epoch: host_epoch@,
                lifecycle: LifecycleState::Starting,
                connections: 0,
            }),
    {
        HostKernel {
            host_epoch: host_epoch.to_owned(),
            lifecycle: LifecycleState::Starting,
            connections: 0,
        }
    }

    /// The root was acquired, or another process has it: the registration to
    /// publish, or the outcome of a lost election.
    pub fn own(
        &mut self,
        acquired: bool,
        root_id: &str,
        endpoint: &str,
        pid: u32,
        now: i64,
    ) -> (r: Result<HostRegistration, ServeOutcome>)
        ensures
            match r {
                Ok(reg) => acquired && reg@ == registration_for(
                    root_id@,
                    old(self)@.host_epoch,
                    endpoint@,
                    LifecycleState::Ready,
                    pid,
                    now,
                ) && final(self)@ == (KernelView {
                    lifecycle: LifecycleState::Ready,
                    ..old(self)@
                }),
                Err(outcome) => !acquired && outcome == ServeOutcome::Loser && final(self)@ == old(self)@,
            },
    {
        if !acquired {
            return Err(ServeOutcome::Loser);
        }
        self.lifecycle = LifecycleState::Ready;
        Ok(
            HostRegistration::new(
                root_id,
                self.host_epoch.as_str(),
                endpoint,
                LifecycleState::Ready,
                pid,
                now,
            ),
        )
    }

    /// A connection was accepted: the context it is served in.
    pub fn connected(&mut self) -> (r: OpContext)
        ensures
            r.host_epoch@ == old(self)@.host_epoch,
            r.lifecycle == LifecycleState::Ready,
            final(self)@ == (KernelView {
                connections: (if old(self)@.connections < u64::MAX {
                    (old(self)@.connections + 1) as u64
                } else {
                    u64::MAX
                }),
                ..old(self)@
            }),
    {
        if self.connections < u64::MAX {
            self.connections = self.connections + 1;
        }
        OpContext { host_epoch: self.host_epoch.clone(), lifecycle: LifecycleState::Ready }
    }

    /// A connection has ended.
    pub fn disconnected(&mut self)
        ensures
            final(self)@ == (KernelView {
                connections: (if old(self)@.connections > 0 {
                    (old(self)@.connections - 1) as u64
                } else {
                    0
                }),
                ..old(self)@
            }),
    {
        if self.connections > 0 {
            self.connections = self.connections - 1;
        }
    }

    /// Whether the host may shut down once an idle grace has passed.
    pub fn is_idle(&self) -> (r: bool)
        ensures
            r == self@.idle(),
    {
        self.lifecycle == LifecycleState::Ready && self.connections == 0
    }

    /// Serving has ended: nothing more is admitted.
    pub fn drain(&mut self)
        ensures
            final(self)@ == (KernelView { lifecycle: LifecycleState::Draining, ..old(self)@ }),
    {
        self.lifecycle = LifecycleState::Draining;
    }

    /// Whether a host that has been draining for `elapsed_ms` still waits.
    pub fn still_draining(&self, elapsed_ms: u64) -> (r: bool)
        ensures
            r == self@.draining(elapsed_ms),
    {
        self.connections > 0 && elapsed_ms < DRAIN_GRACE_MS
    }
}

/// A host with a connection is never idle, nor is one that has not become ready
/// or is draining; and a drain ends after its grace at the latest.
pub proof fn law_busy_host_stays(k: KernelView, elapsed_ms: u64)
    ensures
        k.connections > 0 ==> !k.idle(),
        !(k.lifecycle is Ready) ==> !k.idle(),
        elapsed_ms >= DRAIN_GRACE_MS ==> !k.draining(elapsed_ms),
        k.connections == 0 ==> !k.draining(elapsed_ms),
{
}

// ---------------------------------------------------------------------------
// Serving an owned root
// ---------------------------------------------------------------------------

/// Where serving a root stands.
#[derive(Debug, Clone, Copy, PartialEq, Eq, Structural)]
pub enum ServePhase {
    /// The root is to be acquired.
    Acquiring,
    /// The registration is to be published.
    Publishing,
    /// Connections are accepted.
    Serving,
    /// Open connections are waited for.
    Draining,
    /// The registration is to be withdrawn.
    Withdrawing,
    /// Serving is over, for this reason.
    Over(ServeOutcome),
}

/// What the caller does next.
#[derive(Debug)]
pub enum ServeAction {
    /// Acquire the root.
    Acquire,
    /// Publish this registration.
    Publish(HostRegistration),
    /// Go on accepting connections.
    Accept,
    /// Serve the connection that was accepted in this context.
    Connection(OpContext),
    /// Accept no more, and look again after this many milliseconds.
    Wait(u64),
    /// Withdraw the registration, if it still is this host's, and release the root.
    Withdraw,
    /// Serving is over.
    Exit(ServeOutcome),
}

/// What happened.
#[derive(Debug, Clone, Copy, PartialEq, Eq, Structural)]
pub enum ServeEvent {
    /// The root was acquired, or another process has it.
    Acquired(bool),
    Published,
    /// A connection was accepted.
    Connected,
    /// A connection has ended.
    Disconnected,
    /// An idle grace has passed.
    GracePassed,
    /// Shutdown was signalled, or the listener failed.
    Stopped,
    /// This many milliseconds have passed since the drain began.
    DrainTick(u64),
    Withdrawn,
}

/// What a [`ServeAction`] says.
pub enum ServeActionView {
    Acquire,
    Publish(HostRegistrationView),
    Accept,
    Connection { host_epoch: Seq<char>, lifecycle: LifecycleState },
    Wait(u64),
    Withdraw,
    Exit(ServeOutcome),
}

impl View for ServeAction {
    type V = ServeActionView;

    open spec fn view(&self) -> ServeActionView {
        match *self {
            ServeAction::Acquire => ServeActionView::Acquire,
            ServeAction::Publish(reg) => ServeActionView::Publish(reg@),
            ServeAction::Accept => ServeActionView::Accept,
            ServeAction::Connection(ctx) => ServeActionView::Connection {
                host_epoch: ctx.host_epoch@,
                lifecycle: ctx.lifecycle,
            },
            ServeAction::Wait(ms) => ServeActionView::Wait(ms),
            ServeAction::Withdraw => ServeActionView::Withdraw,
            ServeAction::Exit(o) => ServeActionView::Exit(o),
        }
    }
}

/// What is known while a root is served.
pub struct ServeView {
    pub kernel: KernelView,
    pub root_id: Seq<char>,
    pub endpoint: Seq<char>,
    pub pid: u32,
    pub now: i64,
    pub phase: ServePhase,
}

impl ServeView {
    /// The record that the host publishes.
    pub open spec fn registration(self) -> HostRegistrationView {
        registration_for(
            self.root_id,
            self.kernel.host_epoch,
            self.endpoint,
            LifecycleState::Ready,
            self.pid,
            self.now,
        )
    }

    /// The same with another number of connections.
    pub open spec fn with_connections(self, connections: u64) -> ServeView {
        ServeView { kernel: KernelView { connections, ..self.kernel }, ..self }
    }

    /// Nothing more is admitted.
    pub open spec fn drained(self) -> ServeView {
        ServeView {
            kernel: KernelView { lifecycle: LifecycleState::Draining, ..self.kernel },
            phase: ServePhase::Draining,
            ..self
        }
    }

    /// What a drain that has lasted `elapsed_ms` does.
    pub open spec fn drain_step(self, elapsed_ms: u64) -> (ServeView, ServeActionView) {
        if self.kernel.draining(elapsed_ms) {
            (self, ServeActionView::Wait(DRAIN_POLL_MS))
        } else {
            (ServeView { phase: ServePhase::Withdrawing, ..self }, ServeActionView::Withdraw)
        }
    }

    /// What goes on when nothing changes.
    pub open spec fn current(self) -> ServeActionView {
        match self.phase {
            ServePhase::Acquiring => ServeActionView::Acquire,
            ServePhase::Publishing => ServeActionView::Publish(self.registration()),
            ServePhase::Serving => ServeActionView::Accept,
            ServePhase::Draining => ServeActionView::Wait(DRAIN_POLL_MS),
            ServePhase::Withdrawing => ServeActionView::Withdraw,
            ServePhase::Over(outcome) => ServeActionView::Exit(outcome),
        }
    }

    /// What follows an event, and what the caller does next. An event that does not
    /// fit where serving stands changes nothing.
    pub open spec fn next(self, event: ServeEvent) -> (ServeView, ServeActionView) {
        match (self.phase, event) {
            (ServePhase::Acquiring, ServeEvent::Acquired(acquired)) => if acquired {
                (
                    ServeView {
                        kernel: KernelView { lifecycle: LifecycleState::Ready, ..self.kernel },
                        phase: ServePhase::Publishing,
                        ..self
                    },
                    ServeActionView::Publish(self.registration()),
                )
            } else {
                (
                    ServeView { phase: ServePhase::Over(ServeOutcome::Loser), ..self },
                    ServeActionView::Exit(ServeOutcome::Loser),
                )
            },
            (ServePhase::Publishing, ServeEvent::Published) => (
                ServeView { phase: ServePhase::Serving, ..self },
                ServeActionView::Accept,
            ),
            (ServePhase::Serving, ServeEvent::Connected) => (
                self.with_connections(
                    if self.kernel.connections < u64::MAX {
                        (self.kernel.connections + 1) as u64
                    } else {
                        u64::MAX
                    },
                ),
                ServeActionView::Connection {
                    host_epoch: self.kernel.host_epoch,
                    lifecycle: LifecycleState::Ready,
                },
            ),
            (_, ServeEvent::Disconnected) => (
                self.with_connections(
                    if self.kernel.connections > 0 {
                        (self.kernel.connections - 1) as u64
                    } else {
                        0
                    },
                ),
                self.current(),
            ),
            (ServePhase::Serving, ServeEvent::GracePassed) => if self.kernel.idle() {
                self.drained().drain_step(0)
            } else {
                (self, ServeActionView::Accept)
            },
            (ServePhase::Serving, ServeEvent::Stopped) => self.drained().drain_step(0),
            (ServePhase::Draining, ServeEvent::DrainTick(elapsed_ms)) => self.drain_step(
                elapsed_ms,
            ),
            (ServePhase::Withdrawing, ServeEvent::Withdrawn) => (
                ServeView { phase: ServePhase::Over(ServeOutcome::Done), ..self },
                ServeActionView::Exit(ServeOutcome::Done),
            ),
            _ => (self, self.current()),
        }
    }
}

/// A host that serves an owned root: it acquires the root, publishes its
/// registration, serves until it is idle or stopped, drains, and cleans up.
pub struct ServeOwned {
    kernel: HostKernel,
    root_id: String,
    endpoint: String,
    pid: u32,
    now: i64,
    phase: ServePhase,
}

impl View for ServeOwned {
    type V = ServeView;

    closed spec fn view(&self) -> ServeView {
        ServeView {
            kernel: self.kernel@,
            root_id: self.root_id@,
            endpoint: self.endpoint@,
            pid: self.pid,
            now: self.now,
            phase: self.phase,
        }
    }
}

impl ServeOwned {
    /// The root is to be acquired first.
    pub fn new(kernel: HostKernel, root_id: &str, endpoint: &str, pid: u32, now: i64) -> (r: Self)
        ensures
            r@ == (ServeView {
                kernel: kernel@,
                root_id: root_id@,
                endpoint: endpoint@,
                pid,
                now,
                phase: ServePhase::Acquiring,
            }),
    {
        ServeOwned {
            kernel,
            root_id: root_id.to_owned(),
            endpoint: endpoint.to_owned(),
            pid,
            now,
            phase: ServePhase::Acquiring,
        }
    }

    /// What the caller does now.
    pub fn current(&self) -> (r: ServeAction)
        ensures
            r@ == self@.current(),
    {
        match self.phase {
            ServePhase::Acquiring => ServeAction::Acquire,
            ServePhase::Publishing => ServeAction::Publish(
                HostRegistration::new(
                    self.root_id.as_str(),
                    self.kernel.host_epoch.as_str(),
                    self.endpoint.as_str(),
                    LifecycleState::Ready,
                    self.pid,
                    self.now,
                ),
            ),
            ServePhase::Serving => ServeAction::Accept,
            ServePhase::Draining => ServeAction::Wait(DRAIN_POLL_MS),
            ServePhase::Withdrawing => ServeAction::Withdraw,
            ServePhase::Over(outcome) => ServeAction::Exit(outcome),
        }
    }

    fn drain_step(&mut self, elapsed_ms: u64) -> (r: ServeAction)
        ensures
            (final(self)@, r@) == old(self)@.drain_step(elapsed_ms),
    {
        if self.kernel.still_draining(elapsed_ms) {
            ServeAction::Wait(DRAIN_POLL_MS)
        } else {
            self.phase = ServePhase::Withdrawing;
            ServeAction::Withdraw
        }
    }

    fn drain(&mut self) -> (r: ServeAction)
        ensures
            (final(self)@, r@) == old(self)@.drained().drain_step(0),
    {
        self.kernel.drain();
        self.phase = ServePhase::Draining;
        self.drain_step(0)
    }

    /// Takes in an event, and says what the caller does next.
    pub fn next(&mut self, event: ServeEvent) -> (r: ServeAction)
        ensures
            (final(self)@, r@) == old(self)@.next(event),
    {
        match (self.phase, event) {
            (ServePhase::Acquiring, ServeEvent::Acquired(acquired)) => match self.kernel.own(
                acquired,
                self.root_id.as_str(),
                self.endpoint.as_str(),
                self.pid,
                self.now,
            ) {
                Ok(reg) => {
                    self.phase = ServePhase::Publishing;
                    ServeAction::Publish(reg)
                },
                Err(outcome) => {
                    self.phase = ServePhase::Over(outcome);
                    ServeAction::Exit(outcome)
                },
            },
            (ServePhase::Publishing, ServeEvent::Published) => {
                self.phase = ServePhase::Serving;
                ServeAction::Accept
            },
            (ServePhase::Serving, ServeEvent::Connected) => ServeAction::Connection(
                self.kernel.connected(),
            ),
            (_, ServeEvent::Disconnected) => {
                self.kernel.disconnected();
                self.current()
            },
            (ServePhase::Serving, ServeEvent::GracePassed) => if self.kernel.is_idle() {
                self.drain()
            } else {
                ServeAction::Accept
            },
            (ServePhase::Serving, ServeEvent::Stopped) => self.drain(),
            (ServePhase::Draining, ServeEvent::DrainTick(elapsed_ms)) => self.drain_step(elapsed_ms),
            (ServePhase::Withdrawing, ServeEvent::Withdrawn) => {
                self.phase = ServePhase::Over(ServeOutcome::Done);
                ServeAction::Exit(ServeOutcome::Done)
            },
            _ => self.current(),
        }
    }
}

/// A host serves connections only while it owns a published root; it never idles
/// out while a connection is open; and it withdraws only what it published.
pub proof fn law_host_serves_what_it_owns(v: ServeView, event: ServeEvent)
    ensures
        v.next(event).1 is Connection ==> v.phase is Serving,
        v.next(event).0.phase is Serving ==> v.phase is Serving || (v.phase is Publishing && event
            is Published),
        v.next(event).0.phase is Publishing ==> v.phase is Publishing || (v.phase is Acquiring
            && event == ServeEvent::Acquired(true)),
        v.next(event).1 is Withdraw ==> v.phase is Serving || v.phase is Draining || v.phase is
            Withdrawing,
        v.next(event).1 is Publish ==> v.phase is Publishing || (v.phase is Acquiring && event
            == ServeEvent::Acquired(true)),
        v.next(event).1 is Accept ==> v.phase is Serving || (v.phase is Publishing && event
            is Published),
        v.phase is Serving && v.kernel.connections > 0 && event is GracePassed ==> v.next(event).0
            == v,
        v.next(event).1 == ServeActionView::Exit(ServeOutcome::Loser) ==> v.phase
            == ServePhase::Over(ServeOutcome::Loser) || (v.phase is Acquiring && event
            == ServeEvent::Acquired(false)),
{
}

/// How serving a root goes: a host that acquired it publishes itself as ready under its
/// own epoch, root, endpoint and process; each connection is served under that epoch and
/// counted until it ends; it stops when told to, or when a grace passes while it is
/// ready without connections; then it waits 20 milliseconds at a time, half a second in
/// all, for those that are open, withdraws and is done.
pub proof fn law_serving_goes_step_by_step(v: ServeView, event: ServeEvent)
    ensures
        ({
            let (n, action) = v.next(event);
            let waits = |ms: u64| v.kernel.connections > 0 && ms < 500;
            match (v.phase, event) {
                (ServePhase::Acquiring, ServeEvent::Acquired(true)) => n.phase is Publishing
                    && n.kernel.lifecycle is Ready && (action matches ServeActionView::Publish(reg) && {
                    &&& reg.host_epoch == v.kernel.host_epoch
                    &&& reg.root_id == v.root_id
                    &&& reg.endpoint == v.endpoint
                    &&& reg.pid == v.pid
                    &&& reg.created_at == v.now
                    &&& reg.state is Ready
                    &&& reg.kind == "meepo-runtime-host"@
                }),
                (ServePhase::Acquiring, ServeEvent::Acquired(false)) => action
                    == ServeActionView::Exit(ServeOutcome::Loser),
                (ServePhase::Publishing, ServeEvent::Published) => n.phase is Serving
                    && action is Accept,
                (ServePhase::Serving, ServeEvent::Connected) => n.phase is Serving && action == (
                ServeActionView::Connection {
                    host_epoch: v.kernel.host_epoch,
                    lifecycle: LifecycleState::Ready,
                }) && (v.kernel.connections < u64::MAX ==> n.kernel.connections
                    == v.kernel.connections + 1) && (v.kernel.connections == u64::MAX
                    ==> n.kernel.connections == u64::MAX),
                (_, ServeEvent::Disconnected) => n.phase == v.phase && (v.kernel.connections > 0
                    ==> n.kernel.connections == v.kernel.connections - 1) && (
                v.kernel.connections == 0 ==> n.kernel.connections == 0) && (v.phase is Serving
                    ==> action is Accept) && (v.phase is Draining ==> action
                    == ServeActionView::Wait(20)) && (v.phase is Acquiring ==> action is Acquire),
                (ServePhase::Serving, ServeEvent::GracePassed) => if v.kernel.lifecycle is Ready
                    && v.kernel.connections == 0 {
                    n.kernel.lifecycle is Draining && action is Withdraw
                } else {
                    n == v && action is Accept
                },
                (ServePhase::Serving, ServeEvent::Stopped) => n.kernel.lifecycle is Draining && (if waits(
                    0,
                ) {
                    n.phase is Draining && action == ServeActionView::Wait(20)
                } else {
                    n.phase is Withdrawing && action is Withdraw
                }),
                (ServePhase::Draining, ServeEvent::DrainTick(ms)) => if waits(ms) {
                    n == v && action == ServeActionView::Wait(20)
                } else {
                    n.phase is Withdrawing && action is Withdraw
                },
                (ServePhase::Withdrawing, ServeEvent::Withdrawn) => action == ServeActionView::Exit(
                    ServeOutcome::Done,
                ),
                _ => n == v,
            }
        }),
        DEFAULT_IDLE_GRACE_MS == 30000,
{
}

} // verus!
