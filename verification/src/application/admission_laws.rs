//! What holds of the admission pipeline in every state and for every event.

use crate::application::admission::{
    answered, answered_once, answers, is_start, late, other_than, room_after, start_count, starts,
    Action, PipelineView, Ticket, Verdict,
};
use crate::application::answer_facts::{
    lemma_answers_split, lemma_once_split, lemma_settle_answers_once,
    lemma_settle_request_by_request, lemma_tokens_answer_nobody,
};
use crate::application::pass_facts::{
    lemma_advance_keeps, lemma_dropping_keeps_sound, lemma_grant_keeps,
    lemma_placing_keeps_requests, lemma_promote_settles, lemma_select_all_or_none, lemma_selection,
    lemma_settle_takes_tokens, lemma_settle_wf, lemma_start_count_adds,
    lemma_tokens_start_handlers,
};
use crate::application::quiet_facts::{
    lemma_burst_after_tick, lemma_place_starts, lemma_quiet_burst, lemma_quiet_under_caps,
    lemma_quiet_window, lemma_settle_quiets,
};
use crate::error::Rejection;
use vstd::prelude::*;

verus! {

/// Every event leaves a well-formed pipeline well-formed: the limits are
/// never exceeded and no count goes below zero, whatever arrives, finishes
/// or times out.
pub proof fn lemma_events_keep_wf(state: PipelineView, id: u64, now: u64)
    requires
        state.wf(),
    ensures
        state.tick(now).state.wf(),
        state.finish(id, now).state.wf(),
        state.arrive(now).state.wf(),
{
    lemma_advance_keeps(state, now);
    let current = state.advance(now);
    lemma_settle_wf(current);
    if current.answers_in_time(id) {
        lemma_dropping_keeps_sound(current, other_than(id));
        lemma_settle_wf(PipelineView { active: current.active.filter(other_than(id)), ..current });
    }
    let settled = state.tick(now).state;
    let number = settled.next_id;
    if number < u64::MAX && settled.waiting.len() < settled.config.buffer {
        let queued = PipelineView {
            next_id: (number + 1) as u64,
            waiting: settled.waiting.push(number),
            ..settled
        };
        assert(queued.sound());
        lemma_promote_settles(queued);
        lemma_grant_keeps(queued.promote());
    }
}

/// A request that arrives while the pipeline holds as many requests as the
/// concurrency limit and the buffer allow is shed: it is answered as
/// overloaded at once and not held. Any other request that arrives is held
/// and not answered. Shedding happens only when both the buffer and the
/// concurrency-limited stage are full.
pub proof fn lemma_arrival_is_held_or_shed(state: PipelineView, now: u64)
    requires
        state.wf(),
        state.arrival_id(now) < u64::MAX,
    ensures
        ({
            let settled = state.tick(now).state;
            let arrival = state.arrive(now);
            let id = state.arrival_id(now);
            let full = settled.waiting.len() == settled.config.buffer;
            &&& full ==> settled.active.len() == settled.config.concurrency_limit
            &&& full ==> answers(arrival.actions, id, Verdict::Rejected(Rejection::Overloaded))
                && !arrival.state.holds(id) && arrival.state.active == settled.active
                && arrival.state.waiting == settled.waiting
            &&& !full ==> arrival.state.holds(id) && !answered(arrival.actions, id)
        }),
{
    let current = state.advance(now);
    lemma_advance_keeps(state, now);
    lemma_settle_wf(current);
    lemma_settle_request_by_request(current);
    let settled = state.tick(now);
    let arrival = state.arrive(now);
    let id = state.arrival_id(now);
    assert(!current.holds(id)) by {
        if current.in_stage(id) {
            let i = choose|i: int|
                0 <= i < current.active.len() && (#[trigger] current.active[i]).id == id;
            assert(current.active[i].id < current.next_id);
        }
        if current.waiting.contains(id) {
            let j = choose|j: int| 0 <= j < current.waiting.len() && current.waiting[j] == id;
            assert(current.waiting[j] < current.next_id);
        }
    }
    assert(!settled.state.holds(id));
    assert forall|verdict: Verdict| !answers(settled.actions, id, verdict) by {
        if answers(settled.actions, id, verdict) {
            assert(current.in_stage(id));
        }
    }
    if settled.state.waiting.len() >= settled.state.config.buffer {
        let reply = Action::Reply { id, verdict: Verdict::Rejected(Rejection::Overloaded) };
        assert(arrival.actions[settled.actions.len() as int] == reply);
        assert(arrival.state.in_stage(id) == settled.state.in_stage(id));
    } else {
        let queued = PipelineView {
            next_id: (id + 1) as u64,
            waiting: settled.state.waiting.push(id),
            ..settled.state
        };
        assert(queued.sound());
        lemma_placing_keeps_requests(queued);
        assert(queued.waiting[queued.waiting.len() - 1] == id);
        assert(queued.holds(id));
        let placed = queued.promote().grant();
        assert(placed.state.holds(id));
        assert forall|verdict: Verdict| !answers(arrival.actions, id, verdict) by {
            if answers(arrival.actions, id, verdict) {
                let reply = Action::Reply { id, verdict };
                let k = choose|k: int| 0 <= k < arrival.actions.len() && arrival.actions[k] == reply;
                if k < settled.actions.len() {
                    assert(settled.actions[k] == reply);
                    assert(answers(settled.actions, id, verdict));
                } else {
                    assert(placed.actions[k - settled.actions.len()] == reply);
                    assert(answers(placed.actions, id, verdict));
                }
            }
        }
    }
}

/// Of the requests of a burst, exactly those beyond the room that the
/// concurrency limit and the buffer leave are shed, each at once and as
/// overloaded; every other one is held and not answered, and no request
/// held before the burst is lost to it. The room is what is left once
/// everything due at the instant of the burst is done.
pub proof fn lemma_burst_sheds_exactly_the_excess(state: PipelineView, now: u64, count: nat)
    requires
        state.wf(),
        count >= 1,
        state.arrival_id(now) + count <= u64::MAX,
    ensures
        ({
            let settled = state.tick(now).state;
            let burst = state.burst(now, count);
            let first = state.arrival_id(now);
            let room = settled.room();
            &&& 0 <= room <= settled.config.concurrency_limit + settled.config.buffer
            &&& burst.state.wf()
            &&& burst.state.room() == room_after(room, count)
            &&& forall|id: u64|
                first <= id < first + count && id - first < room ==> #[trigger] burst.state.holds(
                    id,
                ) && !answered(burst.actions, id)
            &&& forall|id: u64|
                first <= id < first + count && id - first >= room ==> #[trigger] answers(
                    burst.actions,
                    id,
                    Verdict::Rejected(Rejection::Overloaded),
                ) && !burst.state.holds(id)
            &&& forall|other: u64| #[trigger] settled.holds(other) ==> burst.state.holds(other)
        }),
{
    let current = state.advance(now);
    lemma_advance_keeps(state, now);
    lemma_settle_wf(current);
    lemma_settle_quiets(current);
    lemma_settle_request_by_request(current);
    let settled = state.tick(now);
    let first = settled.state.next_id;
    lemma_quiet_window(settled.state);
    lemma_burst_after_tick(state, now, count);
    lemma_quiet_burst(settled.state, now, count);
    let quiet_burst = settled.state.burst(now, count);
    let burst = state.burst(now, count);
    assert(burst.state == quiet_burst.state);
    assert(burst.actions == settled.actions + quiet_burst.actions);
    lemma_quiet_window(burst.state);
    assert forall|other: u64, verdict: Verdict|
        other >= first implies !#[trigger] answers(settled.actions, other, verdict) by {
        if answers(settled.actions, other, verdict) {
            let i = choose|i: int|
                0 <= i < current.active.len() && (#[trigger] current.active[i]).id == other;
            assert(current.active[i].id < current.next_id);
        }
    }
    assert forall|id: u64|
        first <= id < first + count && id - first < settled.state.room() implies #[trigger] burst.state.holds(
        id,
    ) && !answered(burst.actions, id) by {
        if answered(burst.actions, id) {
            let verdict = choose|verdict: Verdict| answers(burst.actions, id, verdict);
            lemma_answers_split(
                settled.actions,
                quiet_burst.actions,
                id,
                verdict,
            );
        }
    }
    assert forall|id: u64|
        first <= id < first + count && id - first >= settled.state.room() implies #[trigger] answers(
        burst.actions,
        id,
        Verdict::Rejected(Rejection::Overloaded),
    ) && !burst.state.holds(id) by {
        let verdict = Verdict::Rejected(Rejection::Overloaded);
        assert(answers(quiet_burst.actions, id, verdict));
        lemma_answers_split(
            settled.actions,
            quiet_burst.actions,
            id,
            verdict,
        );
        if settled.state.holds(id) {
            if settled.state.in_stage(id) {
                let i = choose|i: int|
                    0 <= i < settled.state.active.len() && (
                    #[trigger] settled.state.active[i]).id == id;
                assert(settled.state.active[i].id < settled.state.next_id);
            } else {
                let j = choose|j: int|
                    0 <= j < settled.state.waiting.len() && settled.state.waiting[j] == id;
                assert(settled.state.waiting[j] < settled.state.next_id);
            }
        }
    }
}

/// No request is dropped without an answer: a request the pipeline holds
/// is, after any event, still held or answered by that event.
pub proof fn lemma_no_request_is_dropped(state: PipelineView, id: u64, other: u64, now: u64)
    requires
        state.wf(),
        state.holds(id),
    ensures
        state.tick(now).state.holds(id) || answered(state.tick(now).actions, id),
        state.finish(other, now).state.holds(id) || answered(state.finish(other, now).actions, id),
        state.arrive(now).state.holds(id) || answered(state.arrive(now).actions, id),
{
    let current = state.advance(now);
    lemma_advance_keeps(state, now);
    lemma_settle_wf(current);
    lemma_settle_request_by_request(current);
    assert(current.in_stage(id) == state.in_stage(id));
    assert(current.holds(id));
    let settled = state.tick(now);

    if current.answers_in_time(other) {
        let rest = PipelineView { active: current.active.filter(other_than(other)), ..current };
        let first = seq![Action::Reply { id: other, verdict: Verdict::Handler }];
        let done = state.finish(other, now);
        lemma_dropping_keeps_sound(current, other_than(other));
        lemma_settle_request_by_request(rest);
        if other == id {
            assert(first[0] == Action::Reply { id, verdict: Verdict::Handler });
            assert(done.actions[0] == first[0]);
            assert(answers(done.actions, id, Verdict::Handler));
        } else {
            assert(rest.holds(id)) by {
                if current.in_stage(id) {
                    let at = choose|at: int|
                        0 <= at < current.active.len() && (#[trigger] current.active[at]).id
                            == id;
                    current.active.lemma_filter_contains(other_than(other), at);
                    let k = choose|k: int|
                        0 <= k < rest.active.len() && rest.active[k] == current.active[at];
                    assert(rest.active[k].id == id);
                }
            }
            if answered(rest.settle().actions, id) {
                let verdict = choose|verdict: Verdict| answers(rest.settle().actions, id, verdict);
                lemma_answers_split(first, rest.settle().actions, id, verdict);
            }
        }
    }
    let number = settled.state.next_id;
    let arrival = state.arrive(now);
    if answered(settled.actions, id) {
        let verdict = choose|verdict: Verdict| answers(settled.actions, id, verdict);
        let reply = Action::Reply { id, verdict };
        let k = choose|k: int| 0 <= k < settled.actions.len() && settled.actions[k] == reply;
        assert(arrival.actions[k] == reply);
        assert(answers(arrival.actions, id, verdict));
    } else {
        assert(settled.state.holds(id));
        if number == u64::MAX {
        } else if settled.state.waiting.len() >= settled.state.config.buffer {
            assert(arrival.state.active == settled.state.active);
            assert(arrival.state.waiting == settled.state.waiting);
            if settled.state.in_stage(id) {
                let at = choose|at: int|
                    0 <= at < settled.state.active.len() && (
                    #[trigger] settled.state.active[at]).id == id;
                assert(arrival.state.active[at].id == id);
            }
        } else {
            let queued = PipelineView {
                next_id: (number + 1) as u64,
                waiting: settled.state.waiting.push(number),
                ..settled.state
            };
            assert(queued.sound());
            lemma_placing_keeps_requests(queued);
            assert(queued.holds(id)) by {
                assert(queued.in_stage(id) == settled.state.in_stage(id));
                if settled.state.waiting.contains(id) {
                    let j = choose|j: int|
                        0 <= j < settled.state.waiting.len() && settled.state.waiting[j] == id;
                    assert(queued.waiting[j] == id);
                }
            }
        }
    }
}

/// Every request is answered no more than once: no event answers a request
/// twice, and a request that an event answers is not held afterwards, so
/// that no later event answers it again.
pub proof fn lemma_each_request_is_answered_once(
    state: PipelineView,
    id: u64,
    other: u64,
    now: u64,
)
    requires
        state.wf(),
    ensures
        answered_once(state.tick(now).actions, id),
        answered_once(state.finish(other, now).actions, id),
        answered_once(state.arrive(now).actions, id),
        answered(state.tick(now).actions, id) ==> !state.tick(now).state.holds(id),
        answered(state.finish(other, now).actions, id) ==> !state.finish(other, now).state.holds(
            id,
        ),
        answered(state.arrive(now).actions, id) ==> !state.arrive(now).state.holds(id),
{
    let current = state.advance(now);
    lemma_advance_keeps(state, now);
    lemma_settle_wf(current);
    lemma_settle_answers_once(current, id);
    lemma_settle_request_by_request(current);
    let settled = state.tick(now);

    if current.answers_in_time(other) {
        let rest = PipelineView { active: current.active.filter(other_than(other)), ..current };
        lemma_dropping_keeps_sound(current, other_than(other));
        lemma_selection(current.active, other_than(other));
        lemma_settle_answers_once(rest, id);
        lemma_settle_request_by_request(rest);
        let first = seq![Action::Reply { id: other, verdict: Verdict::Handler }];
        assert(answered_once(first, id));
        assert(!rest.in_stage(other)) by {
            if rest.in_stage(other) {
                let k = choose|k: int|
                    0 <= k < rest.active.len() && (#[trigger] rest.active[k]).id == other;
                assert(other_than(other)(rest.active[k]));
            }
        }
        assert(!rest.waiting.contains(other)) by {
            let at = choose|at: int|
                0 <= at < current.active.len() && (#[trigger] current.active[at]).id == other
                    && current.active[at].running && current.clock - current.active[at].entered
                    <= current.config.timeout;
            if rest.waiting.contains(other) {
                let j = choose|j: int| 0 <= j < current.waiting.len() && current.waiting[j] == other;
                assert(current.active[at].id < current.waiting[j]);
            }
        }
        assert(!rest.holds(other));
        assert(answered(first, id) ==> id == other) by {
            if answered(first, id) {
                let verdict = choose|verdict: Verdict| answers(first, id, verdict);
                let k = choose|k: int|
                    0 <= k < first.len() && first[k] == (Action::Reply { id, verdict });
                assert(first[0]->Reply_id == other);
            }
        }
        assert(!answered(rest.settle().actions, other)) by {
            if answered(rest.settle().actions, other) {
                let verdict = choose|verdict: Verdict|
                    answers(rest.settle().actions, other, verdict);
                assert(rest.in_stage(other));
            }
        }
        lemma_once_split(first, rest.settle().actions, id);
    }
    let number = settled.state.next_id;
    let arrival = state.arrive(now);
    assert(!current.holds(number)) by {
        if current.in_stage(number) {
            let i = choose|i: int|
                0 <= i < current.active.len() && (#[trigger] current.active[i]).id == number;
            assert(current.active[i].id < current.next_id);
        }
        if current.waiting.contains(number) {
            let j = choose|j: int| 0 <= j < current.waiting.len() && current.waiting[j] == number;
            assert(current.waiting[j] < current.next_id);
        }
    }
    assert(!answered(settled.actions, number)) by {
        if answered(settled.actions, number) {
            let verdict = choose|verdict: Verdict| answers(settled.actions, number, verdict);
            assert(current.in_stage(number));
        }
    }
    if number == u64::MAX || settled.state.waiting.len() >= settled.state.config.buffer {
        let verdict = if number == u64::MAX {
            Verdict::Rejected(Rejection::Unclassified)
        } else {
            Verdict::Rejected(Rejection::Overloaded)
        };
        let last = seq![Action::Reply { id: number, verdict }];
        assert(arrival.actions =~= settled.actions + last);
        assert(answered_once(last, id));
        assert(answered(last, id) ==> id == number) by {
            if answered(last, id) {
                let verdict = choose|verdict: Verdict| answers(last, id, verdict);
                let k = choose|k: int|
                    0 <= k < last.len() && last[k] == (Action::Reply { id, verdict });
                assert(last[0]->Reply_id == number);
            }
        }
        lemma_once_split(settled.actions, last, id);
        assert(arrival.state.active == settled.state.active);
        assert(arrival.state.waiting == settled.state.waiting);
        assert(arrival.state.in_stage(id) == settled.state.in_stage(id));
    } else {
        let queued = PipelineView {
            next_id: (number + 1) as u64,
            waiting: settled.state.waiting.push(number),
            ..settled.state
        };
        assert(queued.sound());
        lemma_placing_keeps_requests(queued);
        let placed = settled.state.place();
        let free = (queued.promote().config.rate_limit - queued.promote().window_used) as nat;
        lemma_tokens_answer_nobody(queued.promote().active, free, id);
        lemma_once_split(settled.actions, placed.actions, id);
        if answered(settled.actions, id) {
            assert(id != number);
            assert(!queued.holds(id)) by {
                assert(queued.in_stage(id) == settled.state.in_stage(id));
                if queued.waiting.contains(id) {
                    let j = choose|j: int| 0 <= j < queued.waiting.len() && queued.waiting[j] == id;
                    assert(settled.state.waiting[j] == id);
                }
            }
        }
    }
}

/// A request whose handler has not answered within the request timeout is
/// answered with the timeout by the first event after that, whatever the
/// event, and leaves the pipeline. It is never answered with what its
/// handler produced, not even where the event is the end of that very
/// handler.
pub proof fn lemma_late_request_times_out(state: PipelineView, i: int, other: u64, now: u64)
    requires
        state.wf(),
        0 <= i < state.active.len(),
        state.advance(now).clock - state.active[i].entered > state.config.timeout,
    ensures
        ({
            let id = state.active[i].id;
            let timeout = Verdict::Rejected(Rejection::Elapsed);
            &&& answers(state.tick(now).actions, id, timeout)
            &&& answers(state.finish(other, now).actions, id, timeout)
            &&& answers(state.arrive(now).actions, id, timeout)
            &&& !answers(state.tick(now).actions, id, Verdict::Handler)
            &&& !answers(state.finish(other, now).actions, id, Verdict::Handler)
            &&& !answers(state.arrive(now).actions, id, Verdict::Handler)
            &&& !state.tick(now).state.holds(id)
            &&& !state.finish(other, now).state.holds(id)
            &&& !state.arrive(now).state.holds(id)
        }),
{
    let id = state.active[i].id;
    let timeout = Verdict::Rejected(Rejection::Elapsed);
    let current = state.advance(now);
    lemma_advance_keeps(state, now);
    lemma_settle_wf(current);
    lemma_settle_request_by_request(current);
    let ticket = current.active[i];
    assert(late(current.clock, current.config.timeout)(ticket));
    let settled = state.tick(now);
    assert(answers(settled.actions, id, timeout) && !settled.state.holds(id));
    assert(!answers(settled.actions, id, Verdict::Handler));

    // The end of a handler.
    if current.answers_in_time(other) {
        let at = choose|at: int|
            0 <= at < current.active.len() && (#[trigger] current.active[at]).id == other
                && current.active[at].running && current.clock - current.active[at].entered
                <= current.config.timeout;
        assert(other != id) by {
            if at < i {
                assert(current.active[at].id < current.active[i].id);
            } else if i < at {
                assert(current.active[i].id < current.active[at].id);
            }
        }
        let rest = PipelineView { active: current.active.filter(other_than(other)), ..current };
        lemma_dropping_keeps_sound(current, other_than(other));
        lemma_settle_request_by_request(rest);
        current.active.lemma_filter_contains(other_than(other), i);
        let k = choose|k: int| 0 <= k < rest.active.len() && rest.active[k] == ticket;
        assert(late(rest.clock, rest.config.timeout)(rest.active[k]));
        let first = seq![Action::Reply { id: other, verdict: Verdict::Handler }];
        lemma_answers_split(first, rest.settle().actions, id, timeout);
        lemma_answers_split(first, rest.settle().actions, id, Verdict::Handler);
        assert(!answers(first, id, Verdict::Handler)) by {
            if answers(first, id, Verdict::Handler) {
                let k = choose|k: int|
                    0 <= k < first.len() && first[k] == (Action::Reply {
                        id,
                        verdict: Verdict::Handler,
                    });
                assert(first[0]->Reply_id == other);
            }
        }
    }
    // An arrival.

    let number = settled.state.next_id;
    let arrival = state.arrive(now);
    assert(id < number) by {
        assert(current.active[i].id < current.next_id);
    }
    if number == u64::MAX {
        let last = seq![
            Action::Reply { id: number, verdict: Verdict::Rejected(Rejection::Unclassified) },
        ];
        assert(arrival.actions =~= settled.actions + last);
        lemma_answers_split(settled.actions, last, id, timeout);
        lemma_answers_split(settled.actions, last, id, Verdict::Handler);
        assert(!answers(last, id, Verdict::Handler)) by {
            if answers(last, id, Verdict::Handler) {
                let k = choose|k: int|
                    0 <= k < last.len() && last[k] == (Action::Reply {
                        id,
                        verdict: Verdict::Handler,
                    });
            }
        }
    } else if settled.state.waiting.len() >= settled.state.config.buffer {
        let last = seq![
            Action::Reply { id: number, verdict: Verdict::Rejected(Rejection::Overloaded) },
        ];
        assert(arrival.actions =~= settled.actions + last);
        lemma_answers_split(settled.actions, last, id, timeout);
        lemma_answers_split(settled.actions, last, id, Verdict::Handler);
        assert(!answers(last, id, Verdict::Handler)) by {
            if answers(last, id, Verdict::Handler) {
                let k = choose|k: int|
                    0 <= k < last.len() && last[k] == (Action::Reply {
                        id,
                        verdict: Verdict::Handler,
                    });
            }
        }
        assert(arrival.state.in_stage(id) == settled.state.in_stage(id));
    } else {
        let queued = PipelineView {
            next_id: (number + 1) as u64,
            waiting: settled.state.waiting.push(number),
            ..settled.state
        };
        assert(queued.sound());
        lemma_placing_keeps_requests(queued);
        let placed = queued.promote().grant();
        lemma_answers_split(settled.actions, placed.actions, id, timeout);
        lemma_answers_split(settled.actions, placed.actions, id, Verdict::Handler);
        assert(!queued.holds(id)) by {
            assert(queued.in_stage(id) == settled.state.in_stage(id));
            if queued.waiting.contains(id) {
                let j = choose|j: int| 0 <= j < queued.waiting.len() && queued.waiting[j] == id;
                if j < settled.state.waiting.len() {
                    assert(settled.state.waiting[j] == id);
                }
            }
        }
    }
}

/// A request the pipeline does not hold is answered by no passing of time,
/// by no end of a handler, its own included, and by no arrival but its
/// own: once a request has been answered, what its handler produces later
/// is discarded.
pub proof fn lemma_unheld_request_is_not_answered(
    state: PipelineView,
    id: u64,
    other: u64,
    now: u64,
)
    requires
        state.wf(),
        !state.holds(id),
    ensures
        !answered(state.tick(now).actions, id),
        !answered(state.finish(id, now).actions, id),
        other != id ==> !answered(state.finish(other, now).actions, id),
        id != state.arrival_id(now) ==> !answered(state.arrive(now).actions, id),
        !state.tick(now).state.holds(id),
        !state.finish(other, now).state.holds(id),
        id != state.arrival_id(now) ==> !state.arrive(now).state.holds(id),
{
    let current = state.advance(now);
    lemma_advance_keeps(state, now);
    lemma_settle_wf(current);
    lemma_settle_request_by_request(current);
    assert(current.in_stage(id) == state.in_stage(id));
    assert(!current.holds(id));
    assert(!current.answers_in_time(id));
    assert forall|verdict: Verdict| !answers(current.settle().actions, id, verdict) by {}
    if current.answers_in_time(other) {
        let rest = PipelineView { active: current.active.filter(other_than(other)), ..current };
        lemma_dropping_keeps_sound(current, other_than(other));
        lemma_selection(current.active, other_than(other));
        lemma_settle_request_by_request(rest);
        assert(!rest.holds(id)) by {
            if rest.in_stage(id) {
                let k = choose|k: int|
                    0 <= k < rest.active.len() && (#[trigger] rest.active[k]).id == id;
                let at = choose|at: int|
                    0 <= at < current.active.len() && current.active[at] == rest.active[k];
                assert(current.active[at].id == id);
            }
        }
        let first = seq![Action::Reply { id: other, verdict: Verdict::Handler }];
        assert forall|verdict: Verdict|
            other != id implies !answers(state.finish(other, now).actions, id, verdict) by {
            lemma_answers_split(first, rest.settle().actions, id, verdict);
            if answers(first, id, verdict) {
                let k = choose|k: int|
                    0 <= k < first.len() && first[k] == (Action::Reply { id, verdict });
                assert(first[0]->Reply_id == other);
            }
        }
    }
    let settled = state.tick(now);
    let number = settled.state.next_id;
    let arrival = state.arrive(now);
    if id != number {
        if number == u64::MAX || settled.state.waiting.len() >= settled.state.config.buffer {
            let verdict = if number == u64::MAX {
                Verdict::Rejected(Rejection::Unclassified)
            } else {
                Verdict::Rejected(Rejection::Overloaded)
            };
            let last = seq![Action::Reply { id: number, verdict }];
            assert(arrival.actions =~= settled.actions + last);
            assert forall|given: Verdict| !answers(arrival.actions, id, given) by {
                lemma_answers_split(settled.actions, last, id, given);
                if answers(last, id, given) {
                    let k = choose|k: int|
                        0 <= k < last.len() && last[k] == (Action::Reply { id, verdict: given });
                    assert(last[0]->Reply_id == number);
                }
            }
            assert(arrival.state.active == settled.state.active);
            assert(arrival.state.waiting == settled.state.waiting);
            assert(arrival.state.in_stage(id) == settled.state.in_stage(id));
        } else {
            let queued = PipelineView {
                next_id: (number + 1) as u64,
                waiting: settled.state.waiting.push(number),
                ..settled.state
            };
            assert(queued.sound());
            lemma_placing_keeps_requests(queued);
            let placed = settled.state.place();
            assert forall|given: Verdict| !answers(arrival.actions, id, given) by {
                lemma_answers_split(settled.actions, placed.actions, id, given);
            }
            assert(!settled.state.holds(id));
            assert(!queued.holds(id)) by {
                assert(queued.in_stage(id) == settled.state.in_stage(id));
                if queued.waiting.contains(id) {
                    let j = choose|j: int| 0 <= j < queued.waiting.len() && queued.waiting[j] == id;
                    if j < settled.state.waiting.len() {
                        assert(settled.state.waiting[j] == id);
                    }
                }
            }
        }
    }
}

/// A request whose handler finishes within the request timeout is answered
/// with what the handler produced, first of all and with nothing else, and
/// leaves the pipeline.
pub proof fn lemma_timely_finish_is_answered(state: PipelineView, i: int, now: u64)
    requires
        state.wf(),
        0 <= i < state.active.len(),
        state.active[i].running,
        state.advance(now).clock - state.active[i].entered <= state.config.timeout,
    ensures
        ({
            let id = state.active[i].id;
            let done = state.finish(id, now);
            &&& done.actions.len() > 0
            &&& done.actions[0] == Action::Reply { id, verdict: Verdict::Handler }
            &&& forall|verdict: Verdict| #[trigger]
                answers(done.actions, id, verdict) ==> verdict == Verdict::Handler
            &&& !done.state.holds(id)
        }),
{
    let id = state.active[i].id;
    let current = state.advance(now);
    lemma_advance_keeps(state, now);
    assert(current.active[i].id == id);
    assert(current.answers_in_time(id));
    let rest = PipelineView { active: current.active.filter(other_than(id)), ..current };
    lemma_dropping_keeps_sound(current, other_than(id));
    lemma_selection(current.active, other_than(id));
    lemma_settle_request_by_request(rest);
    assert(!rest.in_stage(id)) by {
        if rest.in_stage(id) {
            let k = choose|k: int|
                0 <= k < rest.active.len() && (#[trigger] rest.active[k]).id == id;
            assert(other_than(id)(rest.active[k]));
        }
    }
    assert(!rest.waiting.contains(id)) by {
        if rest.waiting.contains(id) {
            let j = choose|j: int| 0 <= j < current.waiting.len() && current.waiting[j] == id;
            assert(current.active[i].id < current.waiting[j]);
        }
    }
    assert(!rest.holds(id));
    let first = seq![Action::Reply { id, verdict: Verdict::Handler }];
    let done = state.finish(id, now);
    assert(done.actions == first + rest.settle().actions);
    assert(done.actions[0] == first[0]);
    assert forall|verdict: Verdict| #[trigger] answers(done.actions, id, verdict) implies verdict
        == Verdict::Handler by {
        lemma_answers_split(first, rest.settle().actions, id, verdict);
        if answers(first, id, verdict) {
            let k = choose|k: int|
                0 <= k < first.len() && first[k] == (Action::Reply { id, verdict });
            assert(first[0]->verdict == Verdict::Handler);
        }
    }
}

/// A request that arrives under the caps is not held back by any layer:
/// where the concurrency-limited stage has a free place and the window a
/// token left, once everything due is done, the handler of the request
/// starts at once, and the request is not answered by its arrival.
pub proof fn lemma_arrival_under_caps_starts(state: PipelineView, now: u64)
    requires
        state.wf(),
        state.arrival_id(now) < u64::MAX,
        state.tick(now).state.active.len() < state.config.concurrency_limit,
        state.tick(now).state.window_used < state.config.rate_limit,
    ensures
        ({
            let arrival = state.arrive(now);
            let id = state.arrival_id(now);
            &&& starts(arrival.actions, id)
            &&& !answered(arrival.actions, id)
            &&& arrival.state.active.len() > 0
            &&& arrival.state.active.last() == (Ticket {
                id,
                entered: arrival.state.clock,
                running: true,
            })
        }),
{
    let current = state.advance(now);
    lemma_advance_keeps(state, now);
    lemma_settle_wf(current);
    lemma_settle_quiets(current);
    lemma_arrival_is_held_or_shed(state, now);
    let settled = state.tick(now);
    let id = settled.state.next_id;
    lemma_quiet_under_caps(settled.state);
    lemma_place_starts(settled.state);
    let placed = settled.state.place();
    let arrival = state.arrive(now);
    assert(arrival.state == placed.state);
    assert(arrival.actions == settled.actions + placed.actions);
    assert(placed.actions[0] == Action::Start { id });
    assert(arrival.actions[settled.actions.len() as int] == Action::Start { id });
}

/// No more handlers start in a window than the rate limit allows: whatever
/// the event, each handler it starts takes a token of the window that is
/// current at the instant of the event, and the tokens taken never exceed
/// the rate limit.
pub proof fn lemma_rate_limit_bounds_starts(state: PipelineView, other: u64, now: u64)
    requires
        state.wf(),
    ensures
        ({
            let current = state.advance(now);
            &&& state.tick(now).state.window_used == current.window_used + start_count(
                state.tick(now).actions,
            )
            &&& state.finish(other, now).state.window_used == current.window_used + start_count(
                state.finish(other, now).actions,
            )
            &&& state.arrive(now).state.window_used == current.window_used + start_count(
                state.arrive(now).actions,
            )
            &&& state.tick(now).state.window_used <= state.config.rate_limit
            &&& state.finish(other, now).state.window_used <= state.config.rate_limit
            &&& state.arrive(now).state.window_used <= state.config.rate_limit
            &&& state.tick(now).state.window_start == current.window_start
            &&& state.finish(other, now).state.window_start == current.window_start
            &&& state.arrive(now).state.window_start == current.window_start
        }),
{
    let current = state.advance(now);
    lemma_advance_keeps(state, now);
    lemma_settle_wf(current);
    lemma_settle_takes_tokens(current);
    if current.answers_in_time(other) {
        let rest = PipelineView { active: current.active.filter(other_than(other)), ..current };
        lemma_dropping_keeps_sound(current, other_than(other));
        lemma_settle_takes_tokens(rest);
        let first = seq![Action::Reply { id: other, verdict: Verdict::Handler }];
        assert forall|k: int| 0 <= k < first.len() implies !is_start()(#[trigger] first[k]) by {}
        lemma_select_all_or_none(first, is_start());
        lemma_start_count_adds(first, rest.settle().actions);
    }
    let settled = state.tick(now);
    let number = settled.state.next_id;
    let arrival = state.arrive(now);
    if number == u64::MAX || settled.state.waiting.len() >= settled.state.config.buffer {
        let verdict = if number == u64::MAX {
            Verdict::Rejected(Rejection::Unclassified)
        } else {
            Verdict::Rejected(Rejection::Overloaded)
        };
        let last = seq![Action::Reply { id: number, verdict }];
        assert(arrival.actions =~= settled.actions + last);
        assert forall|k: int| 0 <= k < last.len() implies !is_start()(#[trigger] last[k]) by {}
        lemma_select_all_or_none(last, is_start());
        lemma_start_count_adds(settled.actions, last);
    } else {
        let queued = PipelineView {
            next_id: (number + 1) as u64,
            waiting: settled.state.waiting.push(number),
            ..settled.state
        };
        assert(queued.sound());
        lemma_promote_settles(queued);
        lemma_grant_keeps(queued.promote());
        let promoted = queued.promote();
        let free = (promoted.config.rate_limit - promoted.window_used) as nat;
        lemma_tokens_start_handlers(promoted.active, free);
        let placed = settled.state.place();
        lemma_start_count_adds(settled.actions, placed.actions);
    }
}

} // verus!
