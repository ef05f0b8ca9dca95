//! Connect-or-spawn election: connect to an existing owner of a root, or launch a
//! candidate and poll for its registration until the election deadline.

use crate::json::opt;
use crate::server::registration::offered;
use crate::server::registration::offered_endpoint;
use crate::server::registration::HostRegistration;
use crate::server::registration::HostRegistrationView;
use vstd::prelude::*;

verus! {

/// Default election deadline in milliseconds: the window a candidate has to win
/// the root and publish its registration.
pub const DEFAULT_ELECTION_DEADLINE_MS: u64 = 45000;

/// The first pause between polls, in milliseconds.
pub const FIRST_BACKOFF_MS: u64 = 20;

/// The longest pause between polls, in milliseconds.
pub const MAX_BACKOFF_MS: u64 = 250;

#[derive(Debug)]
pub enum ConnectError {
    Io(std::io::Error),
    Timeout,
}

/// What the election does next.
#[derive(Debug, PartialEq)]
pub enum ElectionAction {
    /// Read the registration of the root.
    Read,
    /// Connect to this endpoint.
    Connect(String),
    /// Launch a candidate and note the time.
    Launch,
    /// Pause for this many milliseconds.
    Pause(u64),
    /// Tell how many milliseconds have passed since the launch.
    Clock,
    /// Give up: the deadline has passed.
    GiveUp,
}

/// What came of an action.
#[derive(Debug)]
pub enum ElectionEvent {
    Registration(Option<HostRegistration>),
    ConnectFailed,
    Launched,
    Paused,
    Elapsed(u64),
}

/// What an [`ElectionAction`] says.
pub enum ActionView {
    Read,
    Connect(Seq<char>),
    Launch,
    Pause(u64),
    Clock,
    GiveUp,
}

/// What an [`ElectionEvent`] says.
pub enum EventView {
    Registration(Option<HostRegistrationView>),
    ConnectFailed,
    Launched,
    Paused,
    Elapsed(u64),
}

impl View for ElectionAction {
    type V = ActionView;

    open spec fn view(&self) -> ActionView {
        match *self {
            ElectionAction::Read => ActionView::Read,
            ElectionAction::Connect(e) => ActionView::Connect(e@),
            ElectionAction::Launch => ActionView::Launch,
            ElectionAction::Pause(ms) => ActionView::Pause(ms),
            ElectionAction::Clock => ActionView::Clock,
            ElectionAction::GiveUp => ActionView::GiveUp,
        }
    }
}

impl View for ElectionEvent {
    type V = EventView;

    open spec fn view(&self) -> EventView {
        match *self {
            ElectionEvent::Registration(r) => EventView::Registration(opt(r)),
            ElectionEvent::ConnectFailed => EventView::ConnectFailed,
            ElectionEvent::Launched => EventView::Launched,
            ElectionEvent::Paused => EventView::Paused,
            ElectionEvent::Elapsed(ms) => EventView::Elapsed(ms),
        }
    }
}

/// The pause behind a pause of `ms`: twice as long, up to the longest.
pub open spec fn next_backoff(ms: u64) -> u64 {
    if 2 * ms <= MAX_BACKOFF_MS {
        (2 * ms) as u64
    } else {
        MAX_BACKOFF_MS
    }
}

/// One election for a root: the fast path first, then a candidate is launched and
/// its registration polled for.
pub struct Election {
    deadline_ms: u64,
    launched: bool,
    backoff_ms: u64,
}

/// What an [`Election`] knows.
pub struct ElectionView {
    pub deadline_ms: u64,
    /// A candidate was launched.
    pub launched: bool,
    /// The next pause.
    pub backoff_ms: u64,
}

impl View for Election {
    type V = ElectionView;

    closed spec fn view(&self) -> ElectionView {
        ElectionView {
            deadline_ms: self.deadline_ms,
            launched: self.launched,
            backoff_ms: self.backoff_ms,
        }
    }
}

impl ElectionView {
    /// No host could be connected to: launch a candidate if that has not been
    /// done, else see whether there is time for another poll.
    pub open spec fn no_host(self) -> ActionView {
        if self.launched {
            ActionView::Clock
        } else {
            ActionView::Launch
        }
    }

    /// What the election does behind an event.
    pub open spec fn action(self, event: EventView) -> ActionView {
        match event {
            EventView::Registration(found) => match offered(found) {
                Some(endpoint) => ActionView::Connect(endpoint),
                None => self.no_host(),
            },
            EventView::ConnectFailed => self.no_host(),
            EventView::Launched => ActionView::Pause(self.backoff_ms),
            EventView::Paused => ActionView::Read,
            EventView::Elapsed(ms) => if ms >= self.deadline_ms {
                ActionView::GiveUp
            } else {
                ActionView::Pause(self.backoff_ms)
            },
        }
    }

    /// What the election knows behind an event.
    pub open spec fn after(self, event: EventView) -> ElectionView {
        match event {
            EventView::Launched => ElectionView { launched: true, ..self },
            EventView::Paused => ElectionView {
                backoff_ms: next_backoff(self.backoff_ms),
                ..self
            },
            _ => self,
        }
    }

    pub open spec fn wf(self) -> bool {
        FIRST_BACKOFF_MS <= self.backoff_ms <= MAX_BACKOFF_MS
    }
}

impl Election {
    /// A new election; the first action is to read the registration.
    pub fn new(deadline_ms: u64) -> (r: Self)
        ensures
            r@ == (ElectionView { deadline_ms, launched: false, backoff_ms: FIRST_BACKOFF_MS }),
            r@.wf(),
    {
        Election { deadline_ms, launched: false, backoff_ms: FIRST_BACKOFF_MS }
    }

    fn no_host(&self) -> (r: ElectionAction)
        ensures
            r@ == self@.no_host(),
    {
        if self.launched {
            ElectionAction::Clock
        } else {
            ElectionAction::Launch
        }
    }

    /// Takes in what came of the last action, and says what to do next.
    pub fn next(&mut self, event: ElectionEvent) -> (r: ElectionAction)
        requires
            old(self)@.wf(),
        ensures
            r@ == old(self)@.action(event@),
            final(self)@ == old(self)@.after(event@),
            final(self)@.wf(),
    {
        match event {
            ElectionEvent::Registration(found) => match offered_endpoint(&found) {
                Some(endpoint) => ElectionAction::Connect(endpoint),
                None => self.no_host(),
            },
            ElectionEvent::ConnectFailed => self.no_host(),
            ElectionEvent::Launched => {
                self.launched = true;
                ElectionAction::Pause(self.backoff_ms)
            },
            ElectionEvent::Paused => {
                self.backoff_ms = if 2 * self.backoff_ms <= MAX_BACKOFF_MS {
                    2 * self.backoff_ms
                } else {
                    MAX_BACKOFF_MS
                };
                ElectionAction::Read
            },
            ElectionEvent::Elapsed(ms) => if ms >= self.deadline_ms {
                ElectionAction::GiveUp
            } else {
                ElectionAction::Pause(self.backoff_ms)
            },
        }
    }
}

/// Pauses never get shorter and never exceed the longest; a candidate is launched
/// at most once; and the election gives up only when the deadline has passed.
pub proof fn law_election_is_bounded(e: ElectionView, event: EventView)
    requires
        e.wf(),
    ensures
        e.after(event).wf(),
        e.after(event).backoff_ms >= e.backoff_ms,
        e.launched ==> e.after(event).launched && !(e.action(event) is Launch),
        e.action(event) is GiveUp ==> (event matches EventView::Elapsed(ms) && ms >= e.deadline_ms),
        (event matches EventView::Elapsed(ms) && ms >= e.deadline_ms) ==> e.action(event) is GiveUp,
{
}

/// A draining host is never connected to.
pub proof fn law_draining_host_is_passed_over(e: ElectionView, reg: HostRegistrationView)
    requires
        reg.state is Draining,
    ensures
        !(e.action(EventView::Registration(Some(reg))) is Connect),
{
}

/// The steps of an election: a host that is not draining is connected to where it says;
/// where there is none, or it does not answer, a candidate is launched, once, and from
/// then on the clock is asked; each pause, from 20 milliseconds, is twice the one before
/// it and at most 250; and behind a pause the registration is read again.
pub proof fn law_election_steps(e: ElectionView, found: Option<HostRegistrationView>, ms: u64)
    requires
        e.wf(),
    ensures
        e.action(EventView::Registration(found)) == (match found {
            Some(reg) => if reg.state is Draining {
                e.action(EventView::ConnectFailed)
            } else {
                ActionView::Connect(reg.endpoint)
            },
            None => e.action(EventView::ConnectFailed),
        }),
        e.action(EventView::ConnectFailed) is Launch <==> !e.launched,
        e.action(EventView::ConnectFailed) is Clock <==> e.launched,
        e.action(EventView::Launched) == ActionView::Pause(e.backoff_ms),
        e.after(EventView::Launched).launched,
        e.action(EventView::Paused) is Read,
        e.after(EventView::Paused).backoff_ms == (if 2 * e.backoff_ms <= 250 {
            2 * e.backoff_ms
        } else {
            250
        }),
        ms < e.deadline_ms ==> e.action(EventView::Elapsed(ms)) == ActionView::Pause(e.backoff_ms),
        e.after(EventView::Registration(found)) == e,
        e.after(EventView::ConnectFailed) == e,
        e.after(EventView::Elapsed(ms)) == e,
        e.after(EventView::Launched).backoff_ms == e.backoff_ms,
        e.after(EventView::Paused).launched == e.launched,
        20 <= e.backoff_ms <= 250,
        DEFAULT_ELECTION_DEADLINE_MS == 45000,
{
}

/// A new election has launched nothing, and pauses 20 milliseconds first.
pub proof fn law_elections_begin(deadline_ms: u64, e: Election)
    requires
        call_ensures(Election::new, (deadline_ms,), e),
    ensures
        !e@.launched,
        e@.backoff_ms == 20,
        e@.deadline_ms == deadline_ms,
{
}

} // verus!
