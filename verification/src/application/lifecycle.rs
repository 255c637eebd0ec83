//! The lifecycle controller: starting, serving, draining, stopped, and the
//! count of open connections that the drain waits for.

use vstd::prelude::*;

verus! {

/// The longest a drain waits for open connections, in milliseconds.
pub const GRACE_PERIOD: u64 = 30_000;

/// The time between two reports of the open connections during a drain, in
/// milliseconds.
pub const REPORT_INTERVAL: u64 = 1_000;

/// Where the server is in its life. A drain remembers the instant it began,
/// a stopped server the instant it stopped.
#[derive(Debug, Clone, Copy, PartialEq, Eq, Structural)]
pub enum Phase {
    Starting,
    Serving,
    Draining { since: u64 },
    Stopped { at: u64 },
}

/// The state of the lifecycle controller: the phase and the number of open
/// connections.
#[derive(Debug, Clone, Copy, PartialEq, Eq, Structural)]
pub struct LifecycleView {
    pub phase: Phase,
    pub connections: usize,
}

/// What a look at the clock during a drain found.
#[derive(Debug, Clone, Copy, PartialEq, Eq, Structural)]
pub enum Progress {
    /// No drain is under way.
    Idle,
    /// The drain goes on with this many connections open.
    Waiting { alive: usize },
    /// The grace period is over: this many connections were closed by
    /// force.
    Forced { closed: usize },
}

impl LifecycleView {
    /// Before the socket is bound.
    pub open spec fn initial() -> LifecycleView {
        LifecycleView { phase: Phase::Starting, connections: 0 }
    }

    /// The socket accepts connections.
    pub open spec fn listening(self) -> LifecycleView {
        match self.phase {
            Phase::Starting => LifecycleView { phase: Phase::Serving, ..self },
            _ => self,
        }
    }

    /// Whether a connection that comes in now is accepted: only while
    /// serving, and while the count can still go up.
    pub open spec fn accepts(self) -> bool {
        self.phase == Phase::Serving && self.connections < usize::MAX
    }

    /// A connection came in.
    pub open spec fn accept(self) -> LifecycleView {
        if self.accepts() {
            LifecycleView { connections: (self.connections + 1) as usize, ..self }
        } else {
            self
        }
    }

    /// A connection closed at `now`. The count never goes below zero; a
    /// drain ends with its last connection.
    pub open spec fn close(self, now: u64) -> LifecycleView {
        if self.connections == 0 {
            self
        } else {
            let left = (self.connections - 1) as usize;
            match self.phase {
                Phase::Draining { since } if left == 0 => LifecycleView {
                    phase: Phase::Stopped { at: now },
                    connections: 0,
                },
                _ => LifecycleView { connections: left, ..self },
            }
        }
    }

    /// A termination signal came at `now`. A serving server begins to
    /// drain, and is stopped at once where no connection is open; a server
    /// that never served stops; a second signal changes nothing.
    pub open spec fn shutdown(self, now: u64) -> LifecycleView {
        match self.phase {
            Phase::Starting => LifecycleView { phase: Phase::Stopped { at: now }, ..self },
            Phase::Serving => if self.connections == 0 {
                LifecycleView { phase: Phase::Stopped { at: now }, ..self }
            } else {
                LifecycleView { phase: Phase::Draining { since: now }, ..self }
            },
            _ => self,
        }
    }

    /// Whether the grace period of a drain that began at `since` is over at
    /// `now`.
    pub open spec fn grace_is_over(since: u64, now: u64) -> bool {
        now - since >= GRACE_PERIOD
    }

    /// The clock was looked at, at `now`. A drain whose grace period is
    /// over stops, and its open connections are closed by force.
    pub open spec fn tick(self, now: u64) -> LifecycleView {
        match self.phase {
            Phase::Draining { since } if Self::grace_is_over(since, now) => LifecycleView {
                phase: Phase::Stopped { at: now },
                connections: 0,
            },
            _ => self,
        }
    }

    /// What a look at the clock at `now` finds.
    pub open spec fn progress(self, now: u64) -> Progress {
        match self.phase {
            Phase::Draining { since } => if Self::grace_is_over(since, now) {
                Progress::Forced { closed: self.connections }
            } else {
                Progress::Waiting { alive: self.connections }
            },
            _ => Progress::Idle,
        }
    }

    /// The state after `count` connections closed one after the other, the
    /// `k`-th at the instant `at(k)`.
    pub open spec fn closes(self, at: spec_fn(int) -> u64, count: nat) -> LifecycleView
        decreases count,
    {
        if count == 0 {
            self
        } else {
            self.closes(at, (count - 1) as nat).close(at(count - 1))
        }
    }
}

/// The lifecycle controller of one server.
#[derive(Debug)]
pub struct Lifecycle {
    phase: Phase,
    connections: usize,
}

impl View for Lifecycle {
    type V = LifecycleView;

    closed spec fn view(&self) -> LifecycleView {
        LifecycleView { phase: self.phase, connections: self.connections }
    }
}

impl Lifecycle {
    /// A controller before the socket is bound.
    pub fn new() -> (lifecycle: Self)
        ensures
            lifecycle@ == LifecycleView::initial(),
    {
        Lifecycle { phase: Phase::Starting, connections: 0 }
    }

    pub fn phase(&self) -> (phase: Phase)
        ensures
            phase == self@.phase,
    {
        self.phase
    }

    /// The number of open connections.
    pub fn connection_count(&self) -> (count: usize)
        ensures
            count == self@.connections,
    {
        self.connections
    }

    /// Whether the server has stopped.
    pub fn is_stopped(&self) -> (stopped: bool)
        ensures
            stopped == (self@.phase is Stopped),
    {
        match self.phase {
            Phase::Stopped { .. } => true,
            _ => false,
        }
    }

    /// The socket accepts connections.
    pub fn listening(&mut self)
        ensures
            final(self)@ == old(self)@.listening(),
    {
        match self.phase {
            Phase::Starting => {
                self.phase = Phase::Serving;
            },
            _ => {},
        }
    }

    /// A connection came in. Says whether it is accepted.
    pub fn accept(&mut self) -> (accepted: bool)
        ensures
            accepted == old(self)@.accepts(),
            final(self)@ == old(self)@.accept(),
    {
        let serving = match self.phase {
            Phase::Serving => true,
            _ => false,
        };
        if serving && self.connections < usize::MAX {
            self.connections = self.connections + 1;
            true
        } else {
            false
        }
    }

    /// A connection closed at `now`.
    pub fn close(&mut self, now: u64)
        ensures
            final(self)@ == old(self)@.close(now),
    {
        if self.connections > 0 {
            self.connections = self.connections - 1;
            match self.phase {
                Phase::Draining { .. } => {
                    if self.connections == 0 {
                        self.phase = Phase::Stopped { at: now };
                    }
                },
                _ => {},
            }
        }
    }

    /// A termination signal came at `now`: the drain begins.
    pub fn graceful_shutdown(&mut self, now: u64)
        ensures
            final(self)@ == old(self)@.shutdown(now),
    {
        match self.phase {
            Phase::Starting => {
                self.phase = Phase::Stopped { at: now };
            },
            Phase::Serving => {
                if self.connections == 0 {
                    self.phase = Phase::Stopped { at: now };
                } else {
                    self.phase = Phase::Draining { since: now };
                }
            },
            _ => {},
        }
    }

    /// The clock was looked at, at `now`: says how the drain stands, and
    /// ends it where the grace period is over.
    pub fn tick(&mut self, now: u64) -> (progress: Progress)
        ensures
            progress == old(self)@.progress(now),
            final(self)@ == old(self)@.tick(now),
    {
        match self.phase {
            Phase::Draining { since } => {
                if now >= since && now - since >= GRACE_PERIOD {
                    let closed = self.connections;
                    self.connections = 0;
                    self.phase = Phase::Stopped { at: now };
                    Progress::Forced { closed }
                } else {
                    Progress::Waiting { alive: self.connections }
                }
            },
            _ => Progress::Idle,
        }
    }
}

/// A drain ends with its last connection, not with the grace period: when
/// all the connections that were open have closed, the server is stopped
/// since the instant the last of them closed, and it was draining until
/// then.
pub proof fn lemma_drain_ends_with_last_connection(
    state: LifecycleView,
    at: spec_fn(int) -> u64,
    count: nat,
)
    requires
        state.phase is Draining,
        state.connections > 0,
        count <= state.connections,
    ensures
        count < state.connections ==> state.closes(at, count) == (LifecycleView {
            phase: state.phase,
            connections: (state.connections - count) as usize,
        }),
        count == state.connections ==> state.closes(at, count) == (LifecycleView {
            phase: Phase::Stopped { at: at(count - 1) },
            connections: 0,
        }),
    decreases count,
{
    if count > 0 {
        lemma_drain_ends_with_last_connection(state, at, (count - 1) as nat);
    }
}

/// A connection that never closes does not hold the server up for longer
/// than the grace period: until it is over a look at the clock changes
/// nothing, and the first look after it stops the server and closes by
/// force every connection still open.
pub proof fn lemma_grace_period_bounds_drain(state: LifecycleView, now: u64)
    requires
        state.phase is Draining,
    ensures
        now - state.phase->since < GRACE_PERIOD ==> state.tick(now) == state && state.progress(
            now,
        ) == (Progress::Waiting { alive: state.connections }),
        now - state.phase->since >= GRACE_PERIOD ==> state.tick(now) == (LifecycleView {
            phase: Phase::Stopped { at: now },
            connections: 0,
        }) && state.progress(now) == (Progress::Forced { closed: state.connections }),
{
}

/// A stopped server stays stopped, with no connection counted, whatever
/// comes.
pub proof fn lemma_stopped_is_final(state: LifecycleView, now: u64)
    requires
        state.phase is Stopped,
    ensures
        state.listening() == state,
        state.accept() == state,
        state.shutdown(now) == state,
        state.tick(now) == state,
        state.close(now).phase == state.phase,
{
}

} // verus!
