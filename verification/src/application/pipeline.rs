//! The admission pipeline as it runs: the state of
//! [`PipelineView`](crate::application::admission::PipelineView) in vectors,
//! and its three events.

use crate::application::admission::{
    awaiting, awaiting_count, entering, late, on_time, other_than, stalled, started,
    token_winners, tokens_taken, turned_away, unstalled, with_tokens, Action, PipelineView,
    Ticket, Verdict,
};
use crate::application::pass_facts::{
    lemma_advance_keeps, lemma_dropping_keeps_sound, lemma_grant_keeps, lemma_promote_settles,
    lemma_settle_wf,
};
use crate::configuration::ServerConfig;
use crate::error::Rejection;
use vstd::prelude::*;

verus! {

/// Drops the tickets that have outlived `timeout`, with a reply for each.
fn drop_late(active: &mut Vec<Ticket>, clock: u64, timeout: u64, actions: &mut Vec<Action>)
    ensures
        final(active)@ == old(active)@.filter(on_time(clock, timeout)),
        final(actions)@ == old(actions)@ + old(active)@.filter(late(clock, timeout)).map_values(
            turned_away(Rejection::Elapsed),
        ),
{
    let ghost before = active@;
    let ghost replies = actions@;
    let mut kept: Vec<Ticket> = Vec::new();
    let mut i: usize = 0;
    proof {
        assert(before.take(0) =~= Seq::<Ticket>::empty());
    }
    while i < active.len()
        invariant
            i <= active.len(),
            active@ == before,
            kept@ == before.take(i as int).filter(on_time(clock, timeout)),
            actions@ == replies + before.take(i as int).filter(late(clock, timeout)).map_values(
                turned_away(Rejection::Elapsed),
            ),
        decreases active.len() - i,
    {
        let ticket = active[i];
        proof {
            let seen = before.take(i as int);
            assert(before.take(i + 1) =~= seen.push(ticket));
            seen.lemma_filter_push(ticket, on_time(clock, timeout));
            seen.lemma_filter_push(ticket, late(clock, timeout));
            seen.filter(late(clock, timeout)).lemma_push_map_commute(
                turned_away(Rejection::Elapsed),
                ticket,
            );
        }
        if ticket.entered < clock && clock - ticket.entered > timeout {
            actions.push(
                Action::Reply { id: ticket.id, verdict: Verdict::Rejected(Rejection::Elapsed) },
            );
        } else {
            kept.push(ticket);
        }
        i += 1;
    }
    proof {
        assert(before.take(i as int) =~= before);
    }
    *active = kept;
}

/// Drops the tickets that have waited `limit` or longer for a token, with a
/// reply for each.
fn drop_stalled(active: &mut Vec<Ticket>, clock: u64, limit: u64, actions: &mut Vec<Action>)
    ensures
        final(active)@ == old(active)@.filter(unstalled(clock, limit)),
        final(actions)@ == old(actions)@ + old(active)@.filter(stalled(clock, limit)).map_values(
            turned_away(Rejection::LimiterElapsed),
        ),
{
    let ghost before = active@;
    let ghost replies = actions@;
    let mut kept: Vec<Ticket> = Vec::new();
    let mut i: usize = 0;
    proof {
        assert(before.take(0) =~= Seq::<Ticket>::empty());
    }
    while i < active.len()
        invariant
            i <= active.len(),
            active@ == before,
            kept@ == before.take(i as int).filter(unstalled(clock, limit)),
            actions@ == replies + before.take(i as int).filter(stalled(clock, limit)).map_values(
                turned_away(Rejection::LimiterElapsed),
            ),
        decreases active.len() - i,
    {
        let ticket = active[i];
        proof {
            let seen = before.take(i as int);
            assert(before.take(i + 1) =~= seen.push(ticket));
            seen.lemma_filter_push(ticket, unstalled(clock, limit));
            seen.lemma_filter_push(ticket, stalled(clock, limit));
            seen.filter(stalled(clock, limit)).lemma_push_map_commute(
                turned_away(Rejection::LimiterElapsed),
                ticket,
            );
        }
        if !ticket.running && ticket.entered <= clock && clock - ticket.entered >= limit {
            actions.push(
                Action::Reply {
                    id: ticket.id,
                    verdict: Verdict::Rejected(Rejection::LimiterElapsed),
                },
            );
        } else {
            kept.push(ticket);
        }
        i += 1;
    }
    proof {
        assert(before.take(i as int) =~= before);
    }
    *active = kept;
}

/// Drops the ticket of request `id`.
fn take_out(active: &mut Vec<Ticket>, id: u64)
    ensures
        final(active)@ == old(active)@.filter(other_than(id)),
{
    let ghost before = active@;
    let mut kept: Vec<Ticket> = Vec::new();
    let mut i: usize = 0;
    proof {
        assert(before.take(0) =~= Seq::<Ticket>::empty());
    }
    while i < active.len()
        invariant
            i <= active.len(),
            active@ == before,
            kept@ == before.take(i as int).filter(other_than(id)),
        decreases active.len() - i,
    {
        let ticket = active[i];
        proof {
            let seen = before.take(i as int);
            assert(before.take(i + 1) =~= seen.push(ticket));
            seen.lemma_filter_push(ticket, other_than(id));
        }
        if ticket.id != id {
            kept.push(ticket);
        }
        i += 1;
    }
    proof {
        assert(before.take(i as int) =~= before);
    }
    *active = kept;
}

/// Hands the `free` tokens to the waiting tickets, oldest first, with a
/// start for each, and says how many were taken.
fn hand_out(active: &mut Vec<Ticket>, free: u64, actions: &mut Vec<Action>) -> (taken: u64)
    ensures
        final(active)@ == with_tokens(old(active)@, free as nat),
        taken == tokens_taken(old(active)@, free as nat),
        final(actions)@ == old(actions)@ + token_winners(old(active)@, free as nat).map_values(
            started(),
        ),
{
    let ghost before = active@;
    let ghost earlier = actions@;
    let mut taken: u64 = 0;
    let mut i: usize = 0;
    proof {
        assert(before.take(0) =~= Seq::<Ticket>::empty());
        assert(token_winners(before.take(0), free as nat) =~= Seq::<Ticket>::empty());
    }
    while i < active.len()
        invariant
            i <= active.len(),
            active.len() == before.len(),
            forall|j: int| 0 <= j < i ==> active@[j] == with_tokens(before, free as nat)[j],
            forall|j: int| i <= j < active.len() ==> active@[j] == before[j],
            taken == tokens_taken(before.take(i as int), free as nat),
            actions@ == earlier + token_winners(before.take(i as int), free as nat).map_values(
                started(),
            ),
        decreases active.len() - i,
    {
        let ticket = active[i];
        proof {
            let seen = before.take(i as int);
            let queue = seen.filter(awaiting());
            assert(before.take(i + 1) =~= seen.push(ticket));
            seen.lemma_filter_push(ticket, awaiting());
            if !ticket.running {
                if awaiting_count(seen) < free {
                    assert(token_winners(seen, free as nat) =~= queue);
                    assert(token_winners(seen.push(ticket), free as nat) =~= queue.push(ticket));
                    queue.lemma_push_map_commute(started(), ticket);
                } else {
                    assert(token_winners(seen.push(ticket), free as nat) =~= token_winners(
                        seen,
                        free as nat,
                    ));
                }
            }
        }
        if !ticket.running && taken < free {
            active.set(i, Ticket { id: ticket.id, entered: ticket.entered, running: true });
            actions.push(Action::Start { id: ticket.id });
            taken += 1;
        }
        i += 1;
    }
    proof {
        assert(before.take(i as int) =~= before);
        assert(active@ =~= with_tokens(before, free as nat));
    }
    taken
}

/// Moves the oldest buffered requests into the concurrency-limited stage,
/// as many as fit under `limit`.
fn move_in(waiting: &mut Vec<u64>, active: &mut Vec<Ticket>, clock: u64, limit: usize) -> (moved:
    Ghost<int>)
    ensures
        moved@ == (if old(waiting)@.len() <= limit - old(active)@.len() {
            old(waiting)@.len() as int
        } else if limit >= old(active)@.len() {
            limit - old(active)@.len()
        } else {
            0
        }),
        final(active)@ == old(active)@ + old(waiting)@.take(moved@).map_values(entering(clock)),
        final(waiting)@ == old(waiting)@.skip(moved@),
{
    let ghost queue = waiting@;
    let ghost stage = active@;
    let ghost mut moved: int = 0;
    proof {
        assert(queue.take(0).map_values(entering(clock)) =~= Seq::<Ticket>::empty());
        assert(stage + Seq::<Ticket>::empty() =~= stage);
        assert(queue.skip(0) =~= queue);
    }
    while active.len() < limit && waiting.len() > 0
        invariant
            0 <= moved <= queue.len(),
            moved == 0 || stage.len() + moved <= limit,
            active@ == stage + queue.take(moved).map_values(entering(clock)),
            waiting@ == queue.skip(moved),
        decreases waiting.len(),
    {
        let id = waiting.remove(0);
        active.push(Ticket { id, entered: clock, running: false });
        proof {
            assert(queue.take(moved + 1) =~= queue.take(moved).push(queue[moved]));
            queue.take(moved).lemma_push_map_commute(entering(clock), queue[moved]);
            assert(queue.skip(moved).remove(0) =~= queue.skip(moved + 1));
            assert(active@ =~= stage + queue.take(moved + 1).map_values(entering(clock)));
            moved = moved + 1;
        }
    }
    Ghost(moved)
}

/// The state of a pipeline, with nothing said of it: what the events work
/// on.
#[derive(Debug)]
struct Stage {
    config: ServerConfig,
    clock: u64,
    next_id: u64,
    waiting: Vec<u64>,
    active: Vec<Ticket>,
    window_start: u64,
    window_used: u64,
}

/// What became of a request that arrived: its number, and what is to be
/// done now.
#[derive(Debug)]
pub struct Arrival {
    pub id: u64,
    pub actions: Vec<Action>,
}

impl View for Stage {
    type V = PipelineView;

    closed spec fn view(&self) -> PipelineView {
        PipelineView {
            config: self.config@,
            clock: self.clock,
            next_id: self.next_id,
            waiting: self.waiting@,
            active: self.active@,
            window_start: self.window_start,
            window_used: self.window_used,
        }
    }
}

impl Stage {
    /// An empty pipeline with the limits of `config`, at instant zero.
    fn new(config: ServerConfig) -> (pipeline: Self)
        ensures
            pipeline@ == PipelineView::fresh(config@),
            pipeline@.wf(),
    {
        proof {
            use_type_invariant(&config);
        }
        Stage {
            config,
            clock: 0,
            next_id: 0,
            waiting: Vec::new(),
            active: Vec::new(),
            window_start: 0,
            window_used: 0,
        }
    }

    fn advance(&mut self, now: u64)
        ensures
            final(self)@ == old(self)@.advance(now),
    {
        if now > self.clock {
            self.clock = now;
        }
        if self.window_start <= self.clock && self.clock - self.window_start
            >= *self.config.get_limiter_timeout() {
            self.window_start = self.clock;
            self.window_used = 0;
        }
    }

    fn grant(&mut self, actions: &mut Vec<Action>)
        requires
            old(self)@.sound(),
        ensures
            final(self)@ == old(self)@.grant().state,
            final(actions)@ == old(actions)@ + old(self)@.grant().actions,
    {
        let free = *self.config.get_rate_limit() - self.window_used;
        let taken = hand_out(&mut self.active, free, actions);
        self.window_used = self.window_used + taken;
    }

    fn settle(&mut self, actions: &mut Vec<Action>)
        requires
            old(self)@.sound(),
        ensures
            final(self)@ == old(self)@.settle().state,
            final(actions)@ == old(actions)@ + old(self)@.settle().actions,
            final(self)@.wf(),
    {
        let ghost start = self@;
        let ghost earlier = actions@;
        proof {
            lemma_settle_wf(start);
            lemma_dropping_keeps_sound(start, on_time(start.clock, start.config.timeout));
        }
        drop_late(&mut self.active, self.clock, *self.config.get_timeout(), actions);
        assert(self@ == start.expire().state);
        proof {
            lemma_grant_keeps(self@);
        }
        self.grant(actions);
        let ghost granted = self@;
        proof {
            lemma_dropping_keeps_sound(
                granted,
                unstalled(granted.clock, granted.config.limiter_timeout),
            );
        }
        drop_stalled(&mut self.active, self.clock, *self.config.get_limiter_timeout(), actions);
        assert(self@ == granted.reject_stalled().state);
        let ghost rejected = self@;
        proof {
            lemma_promote_settles(rejected);
        }
        let _ = move_in(
            &mut self.waiting,
            &mut self.active,
            self.clock,
            *self.config.get_concurrency_limit(),
        );
        assert(self@ == rejected.promote());
        self.grant(actions);
        assert(actions@ =~= earlier + start.settle().actions);
    }

    /// Time went by: does what is due at `now`.
    fn tick(&mut self, now: u64) -> (actions: Vec<Action>)
        requires
            old(self)@.wf(),
        ensures
            final(self)@ == old(self)@.tick(now).state,
            actions@ == old(self)@.tick(now).actions,
            final(self)@.wf(),
    {
        let mut actions: Vec<Action> = Vec::new();
        proof {
            lemma_advance_keeps(self@, now);
        }
        self.advance(now);
        self.settle(&mut actions);
        actions
    }

    /// Whether the handler of request `id` may answer at the current
    /// instant.
    fn answers_in_time(&self, id: u64) -> (answers: bool)
        ensures
            answers == self@.answers_in_time(id),
    {
        let timeout = *self.config.get_timeout();
        let mut i: usize = 0;
        while i < self.active.len()
            invariant
                i <= self.active.len(),
                timeout == self@.config.timeout,
                forall|k: int|
                    0 <= k < i ==> !((#[trigger] self@.active[k]).id == id
                        && self@.active[k].running && self@.clock - self@.active[k].entered
                        <= timeout),
            decreases self.active.len() - i,
        {
            let ticket = self.active[i];
            if ticket.id == id && ticket.running && (ticket.entered >= self.clock || self.clock
                - ticket.entered <= timeout) {
                assert(self@.active[i as int] == ticket);
                return true;
            }
            i += 1;
        }
        false
    }

    /// The handler of request `id` finished at `now`: answers the request
    /// with what the handler produced if it still may, and does what is due
    /// at `now`.
    fn finish(&mut self, id: u64, now: u64) -> (actions: Vec<Action>)
        requires
            old(self)@.wf(),
        ensures
            final(self)@ == old(self)@.finish(id, now).state,
            actions@ == old(self)@.finish(id, now).actions,
            final(self)@.wf(),
    {
        let mut actions: Vec<Action> = Vec::new();
        proof {
            lemma_advance_keeps(self@, now);
        }
        self.advance(now);
        if self.answers_in_time(id) {
            proof {
                lemma_dropping_keeps_sound(self@, other_than(id));
            }
            take_out(&mut self.active, id);
            actions.push(Action::Reply { id, verdict: Verdict::Handler });
        }
        self.settle(&mut actions);
        actions
    }

    /// A request arrived at `now`: does what is due at `now`, gives the
    /// request its number, and buffers it or sheds it.
    fn arrive(&mut self, now: u64) -> (arrival: Arrival)
        requires
            old(self)@.wf(),
        ensures
            final(self)@ == old(self)@.arrive(now).state,
            arrival.id == old(self)@.arrival_id(now),
            arrival.actions@ == old(self)@.arrive(now).actions,
            final(self)@.wf(),
    {
        let ghost start = self@;
        let mut actions = self.tick(now);
        let id = self.next_id;
        if id == u64::MAX {
            actions.push(
                Action::Reply { id, verdict: Verdict::Rejected(Rejection::Unclassified) },
            );
        } else if self.waiting.len() >= *self.config.get_buffer() {
            self.next_id = id + 1;
            actions.push(Action::Reply { id, verdict: Verdict::Rejected(Rejection::Overloaded) });
        } else {
            self.next_id = id + 1;
            self.waiting.push(id);
            proof {
                lemma_promote_settles(self@);
                lemma_grant_keeps(self@.promote());
            }
            let _ = move_in(
                &mut self.waiting,
                &mut self.active,
                self.clock,
                *self.config.get_concurrency_limit(),
            );
            self.grant(&mut actions);
        }
        Arrival { id, actions }
    }
}

/// The admission pipeline of one server. Whatever has happened to it, its
/// state is one that
/// [`wf`](crate::application::admission::PipelineView::wf) holds of.
#[derive(Debug)]
pub struct Pipeline {
    stage: Stage,
}

impl View for Pipeline {
    type V = PipelineView;

    closed spec fn view(&self) -> PipelineView {
        self.stage@
    }
}

impl Pipeline {
    #[verifier::type_invariant]
    spec fn well_formed(self) -> bool {
        self.stage@.wf()
    }

    /// An empty pipeline with the limits of `config`, at instant zero.
    pub fn new(config: ServerConfig) -> (pipeline: Self)
        ensures
            pipeline@ == PipelineView::fresh(config@),
            pipeline@.wf(),
    {
        Pipeline { stage: Stage::new(config) }
    }

    /// The limits the pipeline runs with.
    pub fn config(&self) -> (config: ServerConfig)
        ensures
            config@ == self@.config,
            self@.wf(),
    {
        proof {
            use_type_invariant(self);
        }
        self.stage.config
    }

    /// The latest instant the pipeline has seen.
    pub fn clock(&self) -> (clock: u64)
        ensures
            clock == self@.clock,
    {
        self.stage.clock
    }

    /// The number of buffered requests, which is no more than the buffer
    /// takes.
    pub fn buffered(&self) -> (count: usize)
        ensures
            count == self@.waiting.len(),
            count <= self@.config.buffer,
    {
        proof {
            use_type_invariant(self);
        }
        self.stage.waiting.len()
    }

    /// The number of requests inside the concurrency-limited stage, which
    /// is no more than the concurrency limit.
    pub fn in_flight(&self) -> (count: usize)
        ensures
            count == self@.active.len(),
            count <= self@.config.concurrency_limit,
    {
        proof {
            use_type_invariant(self);
        }
        self.stage.active.len()
    }

    /// The tokens handed out in the current window, which are no more than
    /// the rate limit.
    pub fn tokens_used(&self) -> (count: u64)
        ensures
            count == self@.window_used,
            count <= self@.config.rate_limit,
    {
        proof {
            use_type_invariant(self);
        }
        self.stage.window_used
    }

    /// Time went by: does what is due at `now`.
    pub fn tick(&mut self, now: u64) -> (actions: Vec<Action>)
        ensures
            old(self)@.wf(),
            final(self)@ == old(self)@.tick(now).state,
            actions@ == old(self)@.tick(now).actions,
            final(self)@.wf(),
    {
        proof {
            use_type_invariant(&*self);
        }
        let mut stage = Stage::new(self.stage.config);
        core::mem::swap(&mut self.stage, &mut stage);
        let actions = stage.tick(now);
        core::mem::swap(&mut self.stage, &mut stage);
        actions
    }

    /// The handler of request `id` finished at `now`: answers the request
    /// with what the handler produced if it still may, and does what is due
    /// at `now`.
    pub fn finish(&mut self, id: u64, now: u64) -> (actions: Vec<Action>)
        ensures
            old(self)@.wf(),
            final(self)@ == old(self)@.finish(id, now).state,
            actions@ == old(self)@.finish(id, now).actions,
            final(self)@.wf(),
    {
        proof {
            use_type_invariant(&*self);
        }
        let mut stage = Stage::new(self.stage.config);
        core::mem::swap(&mut self.stage, &mut stage);
        let actions = stage.finish(id, now);
        core::mem::swap(&mut self.stage, &mut stage);
        actions
    }

    /// A request arrived at `now`: does what is due at `now`, gives the
    /// request its number, and buffers it or sheds it.
    pub fn arrive(&mut self, now: u64) -> (arrival: Arrival)
        ensures
            old(self)@.wf(),
            final(self)@ == old(self)@.arrive(now).state,
            arrival.id == old(self)@.arrival_id(now),
            arrival.actions@ == old(self)@.arrive(now).actions,
            final(self)@.wf(),
    {
        proof {
            use_type_invariant(&*self);
        }
        let mut stage = Stage::new(self.stage.config);
        core::mem::swap(&mut self.stage, &mut stage);
        let arrival = stage.arrive(now);
        core::mem::swap(&mut self.stage, &mut stage);
        arrival
    }
}

} // verus!
