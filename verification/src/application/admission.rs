//! The admission pipeline: load shedding, bounded buffering, concurrency
//! limiting, the request timeout and the rate limiter, as one state machine
//! over the instants at which something happens.
//!
//! The machine never waits and never calls a handler. Its owner tells it
//! that a request arrived, that a handler finished, or that time went by,
//! each with the instant in milliseconds, and carries out the actions it
//! answers with: start the handler of a request, or reply to one.

use crate::configuration::ServerConfigView;
use crate::error::Rejection;
use vstd::prelude::*;

verus! {

/// A request inside the concurrency-limited stage. `entered` is the instant
/// it came in, from which its timeout runs; `running` says whether it has
/// its rate-limit token, and so a handler at work.
#[derive(Debug, Clone, Copy, PartialEq, Eq, Structural)]
pub struct Ticket {
    pub id: u64,
    pub entered: u64,
    pub running: bool,
}

/// What a request is answered with: what its handler produced, or the
/// rejection of a layer.
#[derive(Debug, Clone, Copy, PartialEq, Eq, Structural)]
pub enum Verdict {
    Handler,
    Rejected(Rejection),
}

/// What the owner of the pipeline is to do.
#[derive(Debug, Clone, Copy, PartialEq, Eq, Structural)]
pub enum Action {
    /// Run the handler of this request.
    Start { id: u64 },
    /// Answer this request, and drop its handler if one is still at work.
    Reply { id: u64, verdict: Verdict },
}

/// The mathematical content of a
/// [`Pipeline`](crate::application::pipeline::Pipeline).
pub ghost struct PipelineView {
    pub config: ServerConfigView,
    /// The latest instant the pipeline has seen.
    pub clock: u64,
    /// The number the next request will get.
    pub next_id: u64,
    /// The buffered requests, oldest first.
    pub waiting: Seq<u64>,
    /// The requests inside the concurrency-limited stage, oldest first.
    pub active: Seq<Ticket>,
    /// The instant the current rate-limit window began.
    pub window_start: u64,
    /// The tokens handed out in the current window.
    pub window_used: u64,
}

/// Whether the actions answer request `id` with `verdict`.
pub open spec fn answers(actions: Seq<Action>, id: u64, verdict: Verdict) -> bool {
    actions.contains(Action::Reply { id, verdict })
}

/// Whether the actions answer request `id` at all.
pub open spec fn answered(actions: Seq<Action>, id: u64) -> bool {
    exists|verdict: Verdict| answers(actions, id, verdict)
}

/// Whether an action is an answer to request `id`.
pub open spec fn replies_to(action: Action, id: u64) -> bool {
    action matches Action::Reply { id: to, .. } && to == id
}

/// Whether the actions answer request `id` no more than once.
pub open spec fn answered_once(actions: Seq<Action>, id: u64) -> bool {
    forall|i: int, j: int|
        0 <= i < j < actions.len() ==> !(replies_to(#[trigger] actions[i], id) && replies_to(
            #[trigger] actions[j],
            id,
        ))
}

/// Whether the actions start the handler of request `id`.
pub open spec fn starts(actions: Seq<Action>, id: u64) -> bool {
    actions.contains(Action::Start { id })
}

/// The actions that start a handler.
pub open spec fn is_start() -> spec_fn(Action) -> bool {
    |action: Action| action is Start
}

/// The number of handlers the actions start.
pub open spec fn start_count(actions: Seq<Action>) -> nat {
    actions.filter(is_start()).len()
}

/// The room that is left after `count` requests took their places.
pub open spec fn room_after(room: int, count: nat) -> int {
    if count <= room {
        room - count
    } else {
        0
    }
}

/// A state together with the actions that led to it.
pub ghost struct Step {
    pub state: PipelineView,
    pub actions: Seq<Action>,
}

/// The tickets whose request has taken longer than `timeout` at `clock`.
pub open spec fn late(clock: u64, timeout: u64) -> spec_fn(Ticket) -> bool {
    |t: Ticket| clock - t.entered > timeout
}

/// The tickets whose request is still within `timeout` at `clock`.
pub open spec fn on_time(clock: u64, timeout: u64) -> spec_fn(Ticket) -> bool {
    |t: Ticket| clock - t.entered <= timeout
}

/// The tickets that have waited `limit` or longer for a token at `clock`.
pub open spec fn stalled(clock: u64, limit: u64) -> spec_fn(Ticket) -> bool {
    |t: Ticket| !t.running && clock - t.entered >= limit
}

/// The tickets that run, or have waited less than `limit` for a token.
pub open spec fn unstalled(clock: u64, limit: u64) -> spec_fn(Ticket) -> bool {
    |t: Ticket| t.running || clock - t.entered < limit
}

/// The tickets that wait for a token.
pub open spec fn awaiting() -> spec_fn(Ticket) -> bool {
    |t: Ticket| !t.running
}

/// The tickets of other requests than `id`.
pub open spec fn other_than(id: u64) -> spec_fn(Ticket) -> bool {
    |t: Ticket| t.id != id
}

/// The reply that turns a ticket's request away.
pub open spec fn turned_away(reason: Rejection) -> spec_fn(Ticket) -> Action {
    |t: Ticket| Action::Reply { id: t.id, verdict: Verdict::Rejected(reason) }
}

/// The action that starts the handler of a ticket's request.
pub open spec fn started() -> spec_fn(Ticket) -> Action {
    |t: Ticket| Action::Start { id: t.id }
}

/// The ticket of a request that enters the concurrency-limited stage at
/// `clock`.
pub open spec fn entering(clock: u64) -> spec_fn(u64) -> Ticket {
    |id: u64| Ticket { id, entered: clock, running: false }
}

/// The number of tickets that wait for a token.
pub open spec fn awaiting_count(tickets: Seq<Ticket>) -> nat {
    tickets.filter(awaiting()).len()
}

/// The tickets after `free` tokens were handed out, oldest waiting ticket
/// first.
pub open spec fn with_tokens(tickets: Seq<Ticket>, free: nat) -> Seq<Ticket> {
    Seq::new(
        tickets.len(),
        |i: int|
            if !tickets[i].running && awaiting_count(tickets.take(i)) < free {
                Ticket { id: tickets[i].id, entered: tickets[i].entered, running: true }
            } else {
                tickets[i]
            },
    )
}

/// The number of tokens handed out where `free` are left.
pub open spec fn tokens_taken(tickets: Seq<Ticket>, free: nat) -> nat {
    if awaiting_count(tickets) < free {
        awaiting_count(tickets)
    } else {
        free
    }
}

/// The tickets that get one of `free` tokens, oldest first.
pub open spec fn token_winners(tickets: Seq<Ticket>, free: nat) -> Seq<Ticket> {
    tickets.filter(awaiting()).take(tokens_taken(tickets, free) as int)
}

impl PipelineView {
    /// The pipeline a configuration starts with: empty, at instant zero.
    pub open spec fn fresh(config: ServerConfigView) -> PipelineView {
        PipelineView {
            config,
            clock: 0,
            next_id: 0,
            waiting: Seq::empty(),
            active: Seq::empty(),
            window_start: 0,
            window_used: 0,
        }
    }

    /// Whether request `id` is inside the concurrency-limited stage.
    pub open spec fn in_stage(self, id: u64) -> bool {
        exists|i: int| 0 <= i < self.active.len() && (#[trigger] self.active[i]).id == id
    }

    /// Whether the pipeline holds request `id`, buffered or inside the
    /// concurrency-limited stage.
    pub open spec fn holds(self, id: u64) -> bool {
        self.in_stage(id) || self.waiting.contains(id)
    }

    /// The limits are respected, no ticket is from the future, and the
    /// requests are numbered in the order they came, all below the next
    /// number.
    pub open spec fn sound(self) -> bool {
        &&& self.config.valid()
        &&& self.waiting.len() <= self.config.buffer
        &&& self.active.len() <= self.config.concurrency_limit
        &&& self.window_used <= self.config.rate_limit
        &&& self.window_start <= self.clock
        &&& forall|i: int|
            0 <= i < self.active.len() ==> (#[trigger] self.active[i]).entered <= self.clock
        &&& forall|i: int, j: int|
            0 <= i < j < self.active.len() ==> (#[trigger] self.active[i]).id < (
            #[trigger] self.active[j]).id
        &&& forall|i: int, j: int|
            0 <= i < j < self.waiting.len() ==> #[trigger] self.waiting[i]
                < #[trigger] self.waiting[j]
        &&& forall|i: int, j: int|
            0 <= i < self.active.len() && 0 <= j < self.waiting.len() ==> (
            #[trigger] self.active[i]).id < #[trigger] self.waiting[j]
        &&& forall|i: int|
            0 <= i < self.active.len() ==> (#[trigger] self.active[i]).id < self.next_id
        &&& forall|j: int| 0 <= j < self.waiting.len() ==> #[trigger] self.waiting[j] < self.next_id
    }

    /// The state is one the pipeline can be in between two events: it is
    /// sound, and a request is buffered only while the concurrency-limited
    /// stage is full.
    pub open spec fn wf(self) -> bool {
        &&& self.sound()
        &&& self.waiting.len() > 0 ==> self.active.len() == self.config.concurrency_limit
    }

    /// The state once the instant `now` is known: the clock never goes
    /// back, and a window that has lasted the limiter timeout gives way to
    /// a new one with all its tokens.
    pub open spec fn advance(self, now: u64) -> PipelineView {
        let clock = if now > self.clock {
            now
        } else {
            self.clock
        };
        if clock - self.window_start >= self.config.limiter_timeout {
            PipelineView { clock, window_start: clock, window_used: 0, ..self }
        } else {
            PipelineView { clock, ..self }
        }
    }

    /// Requests that have outlived the request timeout are turned away.
    pub open spec fn expire(self) -> Step {
        Step {
            state: PipelineView {
                active: self.active.filter(on_time(self.clock, self.config.timeout)),
                ..self
            },
            actions: self.active.filter(late(self.clock, self.config.timeout)).map_values(
                turned_away(Rejection::Elapsed),
            ),
        }
    }

    /// The tokens left in the window go to the waiting tickets, oldest
    /// first, and their handlers start.
    pub open spec fn grant(self) -> Step {
        let free = (self.config.rate_limit - self.window_used) as nat;
        Step {
            state: PipelineView {
                active: with_tokens(self.active, free),
                window_used: (self.window_used + tokens_taken(self.active, free)) as u64,
                ..self
            },
            actions: token_winners(self.active, free).map_values(started()),
        }
    }

    /// Requests that have waited the limiter timeout for a token are
    /// turned away.
    pub open spec fn reject_stalled(self) -> Step {
        Step {
            state: PipelineView {
                active: self.active.filter(unstalled(self.clock, self.config.limiter_timeout)),
                ..self
            },
            actions: self.active.filter(
                stalled(self.clock, self.config.limiter_timeout),
            ).map_values(turned_away(Rejection::LimiterElapsed)),
        }
    }

    /// The number of buffered requests that fit into the
    /// concurrency-limited stage.
    pub open spec fn promoted(self) -> int {
        if self.waiting.len() <= self.config.concurrency_limit - self.active.len() {
            self.waiting.len() as int
        } else if self.config.concurrency_limit >= self.active.len() {
            self.config.concurrency_limit - self.active.len()
        } else {
            0
        }
    }

    /// The oldest buffered requests enter the concurrency-limited stage, as
    /// many as fit. Their timeout runs from now.
    pub open spec fn promote(self) -> PipelineView {
        PipelineView {
            active: self.active + self.waiting.take(self.promoted()).map_values(
                entering(self.clock),
            ),
            waiting: self.waiting.skip(self.promoted()),
            ..self
        }
    }

    /// Everything that is due at the current instant, in order: timeouts,
    /// tokens, limiter timeouts, admissions, and tokens for the admitted.
    pub open spec fn settle(self) -> Step {
        let expired = self.expire();
        let granted = expired.state.grant();
        let rejected = granted.state.reject_stalled();
        let regranted = rejected.state.promote().grant();
        Step {
            state: regranted.state,
            actions: expired.actions + granted.actions + rejected.actions + regranted.actions,
        }
    }

    /// Time went by: the state at `now` and what is due then.
    pub open spec fn tick(self, now: u64) -> Step {
        self.advance(now).settle()
    }

    /// Whether the handler of request `id` may answer at the current
    /// instant: the request is held, runs, and is within its timeout.
    pub open spec fn answers_in_time(self, id: u64) -> bool {
        exists|i: int|
            0 <= i < self.active.len() && (#[trigger] self.active[i]).id == id
                && self.active[i].running && self.clock - self.active[i].entered
                <= self.config.timeout
    }

    /// The handler of request `id` finished at `now`. If the request is
    /// still held, runs and is within its timeout, it is answered with what
    /// the handler produced and leaves; if not, what the handler produced
    /// is discarded. Then everything due at `now` follows.
    pub open spec fn finish(self, id: u64, now: u64) -> Step {
        let current = self.advance(now);
        if current.answers_in_time(id) {
            let rest = (PipelineView {
                active: current.active.filter(other_than(id)),
                ..current
            }).settle();
            Step {
                state: rest.state,
                actions: seq![Action::Reply { id, verdict: Verdict::Handler }] + rest.actions,
            }
        } else {
            current.settle()
        }
    }

    /// The number a request that arrives at `now` gets.
    pub open spec fn arrival_id(self, now: u64) -> u64 {
        self.tick(now).state.next_id
    }

    /// A request arrived at `now`. After everything due at `now`, the
    /// request is buffered unless the buffer is full, in which case it is
    /// shed; a buffered request enters the concurrency-limited stage at
    /// once where there is room, and gets its token where one is left.
    /// Where the numbers have run out the request is turned away as an
    /// unclassified failure.
    pub open spec fn arrive(self, now: u64) -> Step {
        let settled = self.tick(now);
        let id = settled.state.next_id;
        if id == u64::MAX {
            Step {
                state: settled.state,
                actions: settled.actions.push(
                    Action::Reply { id, verdict: Verdict::Rejected(Rejection::Unclassified) },
                ),
            }
        } else if settled.state.waiting.len() >= settled.state.config.buffer {
            Step {
                state: PipelineView { next_id: (id + 1) as u64, ..settled.state },
                actions: settled.actions.push(
                    Action::Reply { id, verdict: Verdict::Rejected(Rejection::Overloaded) },
                ),
            }
        } else {
            let placed = settled.state.place();
            Step { state: placed.state, actions: settled.actions + placed.actions }
        }
    }

    /// The next request is buffered, enters the concurrency-limited stage
    /// at once where there is room, and gets its token where one is left.
    pub open spec fn place(self) -> Step {
        (PipelineView {
            next_id: (self.next_id + 1) as u64,
            waiting: self.waiting.push(self.next_id),
            ..self
        }).promote().grant()
    }

    /// Nothing is due: the window is running, no request has outlived its
    /// timeout or waited too long for a token, and none waits for a token
    /// while the window has one left.
    #[verifier::opaque]
    pub open spec fn quiet(self) -> bool {
        &&& self.wf()
        &&& self.clock - self.window_start < self.config.limiter_timeout
        &&& forall|i: int|
            0 <= i < self.active.len() ==> on_time(self.clock, self.config.timeout)(
                #[trigger] self.active[i],
            )
        &&& forall|i: int|
            0 <= i < self.active.len() ==> unstalled(self.clock, self.config.limiter_timeout)(
                #[trigger] self.active[i],
            )
        &&& awaiting_count(self.active) > 0 ==> self.window_used == self.config.rate_limit
    }

    /// The number of requests the pipeline can still take in before it
    /// sheds.
    pub open spec fn room(self) -> int {
        (self.config.concurrency_limit - self.active.len()) + (self.config.buffer
            - self.waiting.len())
    }

    /// The state and the actions after `count` requests arrived one after
    /// the other, all at the instant `now`.
    pub open spec fn burst(self, now: u64, count: nat) -> Step
        decreases count,
    {
        if count == 0 {
            Step { state: self, actions: Seq::empty() }
        } else {
            let before = self.burst(now, (count - 1) as nat);
            let last = before.state.arrive(now);
            Step { state: last.state, actions: before.actions + last.actions }
        }
    }
}

} // verus!
