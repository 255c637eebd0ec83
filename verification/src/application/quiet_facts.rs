//! The pipeline in which nothing is due: what leaves it so, and what a
//! burst of arrivals does to it.

use crate::application::admission::{
    answered, answers, awaiting, awaiting_count, entering, late, on_time, room_after, stalled,
    starts, token_winners, turned_away, unstalled, Action, PipelineView, Step, Ticket, Verdict,
};
use crate::application::answer_facts::{lemma_answers_split};
use crate::application::pass_facts::{
    lemma_advance_keeps, lemma_dropping_keeps_sound, lemma_grant_exhausts, lemma_grant_keeps,
    lemma_nothing_to_hand_out, lemma_placing_keeps_requests, lemma_promote_settles,
    lemma_select_all_or_none, lemma_selection, lemma_settle_wf,
};
use crate::error::Rejection;
use vstd::prelude::*;

verus! {

/// Where nothing is due, the window is running.
pub proof fn lemma_quiet_window(state: PipelineView)
    requires
        state.quiet(),
    ensures
        state.wf(),
        state.clock - state.window_start < state.config.limiter_timeout,
{
    reveal(PipelineView::quiet);
}

/// Where nothing is due and the window has a token left, nobody waits for
/// one; where the concurrency-limited stage has a free place, nobody is
/// buffered.
pub proof fn lemma_quiet_under_caps(state: PipelineView)
    requires
        state.quiet(),
    ensures
        state.sound(),
        state.window_used < state.config.rate_limit ==> awaiting_count(state.active) == 0,
        state.active.len() < state.config.concurrency_limit ==> state.waiting.len() == 0,
{
    reveal(PipelineView::quiet);
}

/// Where nothing is due, no request is turned away for its timeout.
pub proof fn lemma_quiet_expire(state: PipelineView)
    requires
        state.quiet(),
    ensures
        state.expire() == (Step { state, actions: Seq::empty() }),
{
    reveal(PipelineView::quiet);
    let clock = state.clock;
    let timeout = state.config.timeout;
    lemma_select_all_or_none(state.active, on_time(clock, timeout));
    lemma_select_all_or_none(state.active, late(clock, timeout));
    assert(state.active.filter(late(clock, timeout)).map_values(turned_away(Rejection::Elapsed))
        =~= Seq::<Action>::empty());
}

/// Where nothing is due, no token goes out.
pub proof fn lemma_quiet_grant(state: PipelineView)
    requires
        state.quiet(),
    ensures
        state.grant() == (Step { state, actions: Seq::empty() }),
{
    reveal(PipelineView::quiet);
    let free = (state.config.rate_limit - state.window_used) as nat;
    lemma_nothing_to_hand_out(state.active, free);
}

/// Where nothing is due, no request is turned away for want of a token.
pub proof fn lemma_quiet_reject(state: PipelineView)
    requires
        state.quiet(),
    ensures
        state.reject_stalled() == (Step { state, actions: Seq::empty() }),
{
    reveal(PipelineView::quiet);
    let clock = state.clock;
    let limit = state.config.limiter_timeout;
    lemma_select_all_or_none(state.active, unstalled(clock, limit));
    lemma_select_all_or_none(state.active, stalled(clock, limit));
    assert(state.active.filter(stalled(clock, limit)).map_values(
        turned_away(Rejection::LimiterElapsed),
    ) =~= Seq::<Action>::empty());
}

/// Where nothing is due, no buffered request can go in.
pub proof fn lemma_quiet_promote(state: PipelineView)
    requires
        state.quiet(),
    ensures
        state.promote() == state,
{
    reveal(PipelineView::quiet);
    assert(state.promoted() == 0);
    let promoted = state.promote();
    assert(promoted.active =~= state.active);
    assert(promoted.waiting =~= state.waiting);
}

/// Where no pass changes the state or does anything, all of them together
/// do not either.
pub proof fn lemma_settle_of_fixed(state: PipelineView)
    requires
        state.expire() == (Step { state, actions: Seq::empty() }),
        state.grant() == (Step { state, actions: Seq::empty() }),
        state.reject_stalled() == (Step { state, actions: Seq::empty() }),
        state.promote() == state,
    ensures
        state.settle() == (Step { state, actions: Seq::empty() }),
{
    let none = Seq::<Action>::empty();
    assert(none + none + none + none =~= none);
}

/// Where the window is running, seeing an instant that is not later than
/// the clock changes nothing.
pub proof fn lemma_advance_of_settled(state: PipelineView, now: u64)
    requires
        state.clock - state.window_start < state.config.limiter_timeout,
        now <= state.clock,
    ensures
        state.advance(now) == state,
{
}

/// Where nothing is due, doing what is due changes nothing and does
/// nothing, and so does seeing an instant that is not later than the clock.
pub proof fn lemma_quiet_stays(state: PipelineView, now: u64)
    requires
        state.quiet(),
        now <= state.clock,
    ensures
        state.advance(now) == state,
        state.settle() == (Step { state, actions: Seq::empty() }),
        state.tick(now) == (Step { state, actions: Seq::empty() }),
{
    lemma_quiet_expire(state);
    lemma_quiet_grant(state);
    lemma_quiet_reject(state);
    lemma_quiet_promote(state);
    lemma_settle_of_fixed(state);
    lemma_quiet_window(state);
    lemma_advance_of_settled(state, now);
}

/// Doing what is due leaves nothing due, where the window is running.
pub proof fn lemma_settle_quiets(state: PipelineView)
    requires
        state.sound(),
        state.clock - state.window_start < state.config.limiter_timeout,
    ensures
        state.settle().state.quiet(),
{
    reveal(PipelineView::quiet);
    let clock = state.clock;
    let timeout = state.config.timeout;
    let limit = state.config.limiter_timeout;
    let expired = state.expire();
    let granted = expired.state.grant();
    let rejected = granted.state.reject_stalled();
    let promoted = rejected.state.promote();
    let done = promoted.grant();
    lemma_settle_wf(state);
    lemma_selection(state.active, on_time(clock, timeout));
    lemma_dropping_keeps_sound(
        state,
        on_time(clock, timeout),
    );
    lemma_grant_keeps(expired.state);
    lemma_selection(granted.state.active, unstalled(clock, limit));
    lemma_dropping_keeps_sound(
        granted.state,
        unstalled(clock, limit),
    );
    lemma_promote_settles(rejected.state);
    lemma_grant_keeps(promoted);
    lemma_grant_exhausts(promoted);
    assert forall|k: int| 0 <= k < granted.state.active.len() implies on_time(clock, timeout)(
        #[trigger] granted.state.active[k],
    ) by {
        assert(on_time(clock, timeout)(expired.state.active[k]));
    }
    assert forall|k: int| 0 <= k < rejected.state.active.len() implies on_time(clock, timeout)(
        #[trigger] rejected.state.active[k],
    ) && unstalled(clock, limit)(rejected.state.active[k]) by {
        let t = rejected.state.active[k];
        let at = choose|at: int|
            0 <= at < granted.state.active.len() && granted.state.active[at] == t;
        assert(on_time(clock, timeout)(granted.state.active[at]));
    }
    assert forall|k: int| 0 <= k < promoted.active.len() implies on_time(clock, timeout)(
        #[trigger] promoted.active[k],
    ) && unstalled(clock, limit)(promoted.active[k]) by {
        if k < rejected.state.active.len() {
            assert(promoted.active[k] == rejected.state.active[k]);
        } else {
            let j = k - rejected.state.active.len();
            assert(promoted.active[k] == entering(clock)(rejected.state.waiting[j]));
        }
    }
    assert forall|k: int| 0 <= k < done.state.active.len() implies on_time(clock, timeout)(
        #[trigger] done.state.active[k],
    ) && unstalled(clock, limit)(done.state.active[k]) by {
        assert(on_time(clock, timeout)(promoted.active[k]));
        assert(unstalled(clock, limit)(promoted.active[k]));
    }
}

/// Placing a request in a pipeline that has a free place in the
/// concurrency-limited stage and a token left, with nobody waiting for
/// either, starts its handler and does nothing else.
pub proof fn lemma_place_starts(state: PipelineView)
    requires
        state.sound(),
        state.next_id < u64::MAX,
        state.waiting.len() == 0,
        awaiting_count(state.active) == 0,
        state.active.len() < state.config.concurrency_limit,
        state.window_used < state.config.rate_limit,
    ensures
        state.place().actions == seq![Action::Start { id: state.next_id }],
        state.place().state.active == state.active.push(
            Ticket { id: state.next_id, entered: state.clock, running: true },
        ),
{
    let id = state.next_id;
    let tickets = state.active;
    let queued = PipelineView {
        next_id: (id + 1) as u64,
        waiting: state.waiting.push(id),
        ..state
    };
    assert(queued.promoted() == 1);
    let promoted = queued.promote();
    let ticket = Ticket { id, entered: state.clock, running: false };
    assert(queued.waiting.take(1).map_values(entering(queued.clock)) =~= seq![ticket]);
    assert(promoted.active =~= tickets.push(ticket));
    let free = (promoted.config.rate_limit - promoted.window_used) as nat;
    let last = tickets.len() as int;
    assert(promoted.active.take(last) =~= tickets);
    tickets.lemma_filter_push(ticket, awaiting());
    assert(tickets.filter(awaiting()) =~= Seq::<Ticket>::empty());
    assert(promoted.active.filter(awaiting()) =~= seq![ticket]);
    assert(token_winners(promoted.active, free) =~= seq![ticket]);
    let placed = promoted.grant();
    assert(placed.actions =~= seq![Action::Start { id }]);
    assert forall|i: int| 0 <= i < tickets.len() implies placed.state.active[i] == tickets[i] by {
        if !tickets[i].running {
            tickets.lemma_filter_contains(awaiting(), i);
        }
    }
    assert(awaiting_count(promoted.active.take(last)) == 0);
    assert(placed.state.active[last] == Ticket { id, entered: state.clock, running: true });
    assert(placed.state.active =~= tickets.push(
        Ticket { id, entered: state.clock, running: true },
    ));
}

/// What the arrival of a request does to a pipeline in which nothing is
/// due. Where there is room the request takes one place of it, is held and
/// nobody is answered; where there is none the request is shed and nothing
/// else happens. Either way nothing is due afterwards, and the requests
/// held before are still held.
pub proof fn lemma_quiet_arrival(state: PipelineView, now: u64)
    requires
        state.quiet(),
        now <= state.clock,
        state.next_id < u64::MAX,
    ensures
        ({
            let arrival = state.arrive(now);
            let id = state.next_id;
            &&& arrival.state.quiet()
            &&& arrival.state.clock == state.clock
            &&& arrival.state.config == state.config
            &&& arrival.state.next_id == id + 1
            &&& state.room() >= 0
            &&& state.room() == 0 ==> arrival.state.room() == 0 && arrival.actions == seq![
                Action::Reply { id, verdict: Verdict::Rejected(Rejection::Overloaded) },
            ] && !arrival.state.holds(id)
            &&& state.room() > 0 ==> arrival.state.room() == state.room() - 1
                && arrival.state.holds(id) && forall|other: u64, verdict: Verdict| !#[trigger]
                answers(arrival.actions, other, verdict)
            &&& forall|other: u64| #[trigger]
                arrival.state.holds(other) <==> state.holds(other) || (other == id && state.room()
                    > 0)
        }),
{
    lemma_quiet_stays(state, now);
    lemma_quiet_window(state);
    let arrival = state.arrive(now);
    let id = state.next_id;
    let none = Seq::<Action>::empty();
    assert(state.tick(now) == Step { state, actions: none });
    assert(!state.holds(id)) by {
        if state.in_stage(id) {
            let i = choose|i: int| 0 <= i < state.active.len() && (#[trigger] state.active[i]).id == id;
            assert(state.active[i].id < state.next_id);
        }
        if state.waiting.contains(id) {
            let j = choose|j: int| 0 <= j < state.waiting.len() && state.waiting[j] == id;
            assert(state.waiting[j] < state.next_id);
        }
    }
    if state.waiting.len() >= state.config.buffer {
        let reply = Action::Reply { id, verdict: Verdict::Rejected(Rejection::Overloaded) };
        assert(arrival.actions =~= seq![reply]);
        let after = arrival.state;
        assert(after.active == state.active && after.waiting == state.waiting);
        assert(after.quiet()) by {
            reveal(PipelineView::quiet);
            assert forall|i: int| 0 <= i < after.active.len() implies (
            #[trigger] after.active[i]).id < after.next_id by {
                assert(state.active[i].id < state.next_id);
            }
            assert forall|j: int| 0 <= j < after.waiting.len() implies #[trigger] after.waiting[j]
                < after.next_id by {
                assert(state.waiting[j] < state.next_id);
            }
        }
        assert forall|other: u64| #[trigger] after.holds(other) <==> state.holds(other) by {
            assert(after.in_stage(other) == state.in_stage(other));
        }
    } else {
        let queued = PipelineView {
            next_id: (id + 1) as u64,
            waiting: state.waiting.push(id),
            ..state
        };
        assert(queued.sound());
        lemma_placing_keeps_requests(queued);
        lemma_promote_settles(queued);
        lemma_grant_keeps(queued.promote());
        lemma_grant_exhausts(queued.promote());
        let promoted = queued.promote();
        let placed = promoted.grant();
        assert(arrival.state == placed.state);
        assert(arrival.actions =~= placed.actions);
        assert(queued.waiting[queued.waiting.len() - 1] == id);
        assert(queued.holds(id));
        assert forall|other: u64| #[trigger]
            placed.state.holds(other) <==> state.holds(other) || other == id by {
            assert(queued.in_stage(other) == state.in_stage(other));
            if state.waiting.contains(other) {
                let j = choose|j: int| 0 <= j < state.waiting.len() && state.waiting[j] == other;
                assert(queued.waiting[j] == other);
            }
            if queued.waiting.contains(other) && other != id {
                let j = choose|j: int| 0 <= j < queued.waiting.len() && queued.waiting[j] == other;
                assert(state.waiting[j] == other);
            }
        }
        assert(placed.state.active.len() + placed.state.waiting.len() == state.active.len()
            + state.waiting.len() + 1);
        assert(placed.state.quiet()) by {
            reveal(PipelineView::quiet);
            let clock = state.clock;
            assert forall|k: int| 0 <= k < promoted.active.len() implies on_time(
                clock,
                state.config.timeout,
            )(#[trigger] promoted.active[k]) && unstalled(clock, state.config.limiter_timeout)(
                promoted.active[k],
            ) by {
                if k < state.active.len() {
                    assert(promoted.active[k] == state.active[k]);
                } else {
                    let j = k - state.active.len();
                    assert(promoted.active[k] == entering(clock)(queued.waiting[j]));
                }
            }
            assert forall|k: int| 0 <= k < placed.state.active.len() implies on_time(
                clock,
                state.config.timeout,
            )(#[trigger] placed.state.active[k]) && unstalled(
                clock,
                state.config.limiter_timeout,
            )(placed.state.active[k]) by {
                assert(on_time(clock, state.config.timeout)(promoted.active[k]));
                assert(unstalled(clock, state.config.limiter_timeout)(promoted.active[k]));
            }
        }
    }
}

/// A burst on a pipeline in which nothing is due: the first requests take
/// the room there is and are held, and each one beyond that is shed.
pub proof fn lemma_quiet_burst(state: PipelineView, now: u64, count: nat)
    requires
        state.quiet(),
        now <= state.clock,
        state.next_id + count <= u64::MAX,
    ensures
        ({
            let burst = state.burst(now, count);
            let first = state.next_id;
            &&& burst.state.quiet()
            &&& burst.state.clock == state.clock
            &&& burst.state.config == state.config
            &&& burst.state.next_id == first + count
            &&& state.room() >= 0
            &&& burst.state.room() == room_after(state.room(), count)
            &&& forall|other: u64| #[trigger]
                burst.state.holds(other) <==> state.holds(other) || first <= other < first
                    + count && other - first < state.room()
            &&& forall|other: u64, verdict: Verdict| #[trigger]
                answers(burst.actions, other, verdict) <==> verdict == Verdict::Rejected(
                    Rejection::Overloaded,
                ) && first + state.room() <= other < first + count
        }),
    decreases count,
{
    let first = state.next_id;
    if count == 0 {
        lemma_quiet_window(state);
        let burst = state.burst(now, count);
        assert forall|other: u64, verdict: Verdict| !#[trigger]
            answers(burst.actions, other, verdict) by {}
    } else {
        let fewer = (count - 1) as nat;
        lemma_quiet_burst(state, now, fewer);
        let before = state.burst(now, fewer);
        lemma_quiet_arrival(before.state, now);
        let last = before.state.arrive(now);
        let id = before.state.next_id;
        let burst = state.burst(now, count);
        assert(burst.state == last.state);
        assert(burst.actions == before.actions + last.actions);
        assert(id == first + fewer);
        assert forall|other: u64, verdict: Verdict| #[trigger]
            answers(burst.actions, other, verdict) <==> verdict == Verdict::Rejected(
                Rejection::Overloaded,
            ) && first + state.room() <= other < first + count by {
            lemma_answers_split(
                before.actions,
                last.actions,
                other,
                verdict,
            );
            if before.state.room() == 0 {
                let reply = Action::Reply {
                    id,
                    verdict: Verdict::Rejected(Rejection::Overloaded),
                };
                assert(last.actions[0] == reply);
                if answers(last.actions, other, verdict) {
                    let k = choose|k: int|
                        0 <= k < last.actions.len() && last.actions[k] == (Action::Reply {
                            id: other,
                            verdict,
                        });
                    assert(last.actions[0] == Action::Reply { id: other, verdict });
                }
            }
        }
    }
}

/// A burst begins with everything that is due at its instant; the rest of
/// it is the burst on what that leaves.
pub proof fn lemma_burst_after_tick(state: PipelineView, now: u64, count: nat)
    requires
        state.wf(),
        count >= 1,
        state.arrival_id(now) + count <= u64::MAX,
    ensures
        state.burst(now, count).state == state.tick(now).state.burst(now, count).state,
        state.burst(now, count).actions == state.tick(now).actions + state.tick(now).state.burst(
            now,
            count,
        ).actions,
    decreases count,
{
    let current = state.advance(now);
    lemma_advance_keeps(state, now);
    lemma_settle_wf(current);
    lemma_settle_quiets(current);
    let settled = state.tick(now);
    lemma_quiet_stays(settled.state, now);
    let none = Seq::<Action>::empty();
    if count == 1 {
        assert(state.burst(now, 0) == Step { state, actions: none });
        assert(settled.state.burst(now, 0) == Step { state: settled.state, actions: none });
        let direct = state.arrive(now);
        let later = settled.state.arrive(now);
        assert(direct.state == later.state);
        assert(direct.actions =~= settled.actions + later.actions);
        assert(state.burst(now, 1).actions =~= direct.actions);
        assert(settled.state.burst(now, 1).actions =~= later.actions);
    } else {
        let fewer = (count - 1) as nat;
        lemma_burst_after_tick(state, now, fewer);
        let before = state.burst(now, fewer);
        let quiet_before = settled.state.burst(now, fewer);
        let last = before.state.arrive(now);
        assert(state.burst(now, count).actions =~= settled.actions + (quiet_before.actions
            + last.actions));
    }
}

} // verus!
