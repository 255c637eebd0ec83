//! Who is answered by what is due, and how often.

use crate::application::admission::{
    answered, answered_once, answers, late, on_time, replies_to, stalled, started, token_winners,
    turned_away, unstalled, Action, PipelineView, Ticket, Verdict,
};
use crate::application::pass_facts::{
    lemma_dropping_keeps_sound, lemma_grant_keeps, lemma_placing_keeps_requests,
    lemma_promote_settles, lemma_selection, lemma_sweep, lemma_tokens_start_waiting, ordered,
};
use crate::error::Rejection;
use vstd::prelude::*;

verus! {

/// Two runs of actions one after the other answer a request exactly where
/// one of them does.
pub proof fn lemma_answers_split(
    first: Seq<Action>,
    second: Seq<Action>,
    id: u64,
    verdict: Verdict,
)
    ensures
        answers(first + second, id, verdict) <==> answers(first, id, verdict) || answers(
            second,
            id,
            verdict,
        ),
{
    let reply = Action::Reply { id, verdict };
    let both = first + second;
    if answers(both, id, verdict) {
        let k = choose|k: int| 0 <= k < both.len() && both[k] == reply;
        if k < first.len() {
            assert(first[k] == reply);
        } else {
            assert(second[k - first.len()] == reply);
        }
    }
    if answers(first, id, verdict) {
        let k = choose|k: int| 0 <= k < first.len() && first[k] == reply;
        assert(both[k] == reply);
    }
    if answers(second, id, verdict) {
        let k = choose|k: int| 0 <= k < second.len() && second[k] == reply;
        assert(both[first.len() + k] == reply);
    }
}

/// An action that answers a request is among the answers to it.
pub proof fn lemma_reply_is_answer(actions: Seq<Action>, k: int, id: u64)
    requires
        0 <= k < actions.len(),
        replies_to(actions[k], id),
    ensures
        answered(actions, id),
{
    let verdict = actions[k]->verdict;
    assert(actions[k] == Action::Reply { id, verdict });
    assert(answers(actions, id, verdict));
}

/// Two runs of actions one after the other answer a request no more than
/// once where each of them does and not both answer it.
pub proof fn lemma_once_split(first: Seq<Action>, second: Seq<Action>, id: u64)
    requires
        answered_once(first, id),
        answered_once(second, id),
        !(answered(first, id) && answered(second, id)),
    ensures
        answered_once(first + second, id),
        answered(first + second, id) <==> answered(first, id) || answered(second, id),
{
    let both = first + second;
    assert forall|i: int, j: int| 0 <= i < j < both.len() implies !(replies_to(
        #[trigger] both[i],
        id,
    ) && replies_to(#[trigger] both[j], id)) by {
        if replies_to(both[i], id) && replies_to(both[j], id) {
            if j < first.len() {
                assert(first[i] == both[i] && first[j] == both[j]);
            } else if i >= first.len() {
                assert(second[i - first.len()] == both[i] && second[j - first.len()] == both[j]);
            } else {
                assert(first[i] == both[i] && second[j - first.len()] == both[j]);
                lemma_reply_is_answer(first, i, id);
                lemma_reply_is_answer(second, j - first.len(), id);
            }
        }
    }
    if answered(both, id) {
        let verdict = choose|verdict: Verdict| answers(both, id, verdict);
        lemma_answers_split(first, second, id, verdict);
    }
    if answered(first, id) {
        let verdict = choose|verdict: Verdict| answers(first, id, verdict);
        lemma_answers_split(first, second, id, verdict);
    }
    if answered(second, id) {
        let verdict = choose|verdict: Verdict| answers(second, id, verdict);
        lemma_answers_split(first, second, id, verdict);
    }
}

/// A sweep answers each request no more than once.
pub proof fn lemma_sweep_answers_once(
    tickets: Seq<Ticket>,
    drop: spec_fn(Ticket) -> bool,
    reason: Rejection,
    id: u64,
)
    requires
        ordered(tickets),
    ensures
        answered_once(tickets.filter(drop).map_values(turned_away(reason)), id),
{
    let dropped = tickets.filter(drop);
    let replies = dropped.map_values(turned_away(reason));
    lemma_selection(tickets, drop);
    assert forall|i: int, j: int| 0 <= i < j < replies.len() implies !(replies_to(
        #[trigger] replies[i],
        id,
    ) && replies_to(#[trigger] replies[j], id)) by {
        assert(dropped[i].id < dropped[j].id);
    }
}

/// Handing out tokens answers nobody, and so no request more than once.
pub proof fn lemma_tokens_answer_nobody(tickets: Seq<Ticket>, free: nat, id: u64)
    ensures
        answered_once(token_winners(tickets, free).map_values(started()), id),
        !answered(token_winners(tickets, free).map_values(started()), id),
{
    let winners = token_winners(tickets, free);
    let actions = winners.map_values(started());
    lemma_tokens_start_waiting(tickets, free);
    assert forall|i: int, j: int| 0 <= i < j < actions.len() implies !(replies_to(
        #[trigger] actions[i],
        id,
    ) && replies_to(#[trigger] actions[j], id)) by {
        assert(actions[i] == started()(winners[i]));
    }
}

/// What doing everything that is due comes to, request by request.
///
/// A request is answered only if it was inside the concurrency-limited
/// stage, and then with a timeout: the request timeout if it has outlived
/// it, the limiter timeout if it has not and waited for a token. A request
/// that has outlived the request timeout is answered so and leaves. The
/// pipeline holds no request afterwards that it did not hold before, and
/// each one it held is still held or has been answered. A request that runs
/// within its timeout stays where it is.
pub proof fn lemma_settle_request_by_request(state: PipelineView)
    requires
        state.sound(),
    ensures
        forall|id: u64, verdict: Verdict| #[trigger]
            answers(state.settle().actions, id, verdict) ==> exists|i: int|
                0 <= i < state.active.len() && (#[trigger] state.active[i]).id == id && (if late(
                    state.clock,
                    state.config.timeout,
                )(state.active[i]) {
                    verdict == Verdict::Rejected(Rejection::Elapsed)
                } else {
                    verdict == Verdict::Rejected(Rejection::LimiterElapsed)
                        && !state.active[i].running
                }),
        forall|i: int|
            0 <= i < state.active.len() && late(state.clock, state.config.timeout)(
                #[trigger] state.active[i],
            ) ==> answers(
                state.settle().actions,
                state.active[i].id,
                Verdict::Rejected(Rejection::Elapsed),
            ) && !state.settle().state.holds(state.active[i].id),
        forall|id: u64| #[trigger] state.settle().state.holds(id) ==> state.holds(id),
        forall|id: u64| #[trigger]
            state.holds(id) ==> state.settle().state.holds(id) || answered(
                state.settle().actions,
                id,
            ),
        forall|i: int|
            0 <= i < state.active.len() && (#[trigger] state.active[i]).running && on_time(
                state.clock,
                state.config.timeout,
            )(state.active[i]) ==> state.settle().state.in_stage(state.active[i].id),
{
    let clock = state.clock;
    let timeout = state.config.timeout;
    let limit = state.config.limiter_timeout;
    let expired = state.expire();
    let granted = expired.state.grant();
    let rejected = granted.state.reject_stalled();
    let promoted = rejected.state.promote();
    let regranted = promoted.grant();
    let done = state.settle();
    let free1 = (expired.state.config.rate_limit - expired.state.window_used) as nat;
    let free2 = (promoted.config.rate_limit - promoted.window_used) as nat;

    lemma_sweep(state.active, on_time(clock, timeout), late(clock, timeout), Rejection::Elapsed);
    lemma_dropping_keeps_sound(state, on_time(clock, timeout));
    lemma_selection(state.active, on_time(clock, timeout));
    lemma_grant_keeps(expired.state);
    lemma_tokens_start_waiting(expired.state.active, free1);
    lemma_sweep(
        granted.state.active,
        unstalled(clock, limit),
        stalled(clock, limit),
        Rejection::LimiterElapsed,
    );
    lemma_dropping_keeps_sound(granted.state, unstalled(clock, limit));
    lemma_selection(granted.state.active, unstalled(clock, limit));
    lemma_promote_settles(rejected.state);
    lemma_grant_keeps(promoted);
    lemma_tokens_start_waiting(promoted.active, free2);

    let a1 = expired.actions;
    let a2 = granted.actions;
    let a3 = rejected.actions;
    let a4 = regranted.actions;
    assert(done.actions == a1 + a2 + a3 + a4);

    // Where each ticket of a later stage comes from.
    assert forall|k: int| 0 <= k < granted.state.active.len() implies exists|i: int|
        0 <= i < state.active.len() && (#[trigger] state.active[i]).id == (
        #[trigger] granted.state.active[k]).id && on_time(clock, timeout)(state.active[i])
            && state.active[i].entered == granted.state.active[k].entered && (
        state.active[i].running ==> granted.state.active[k].running) && (
        !granted.state.active[k].running ==> !state.active[i].running) by {
        let t = expired.state.active[k];
        assert(granted.state.active[k].id == t.id);
        let at = choose|at: int| 0 <= at < state.active.len() && state.active[at] == t;
        assert(state.active[at].id == t.id);
    }
    assert forall|k: int| 0 <= k < rejected.state.active.len() implies exists|i: int|
        0 <= i < state.active.len() && (#[trigger] state.active[i]).id == (
        #[trigger] rejected.state.active[k]).id by {
        let t = rejected.state.active[k];
        let at = choose|at: int|
            0 <= at < granted.state.active.len() && granted.state.active[at] == t;
        assert(granted.state.active[at].id == t.id);
    }
    let moved = rejected.state.promoted();
    assert forall|k: int| 0 <= k < done.state.active.len() implies (if k
        < rejected.state.active.len() {
        (#[trigger] done.state.active[k]).id == rejected.state.active[k].id
    } else {
        done.state.active[k].id == state.waiting[k - rejected.state.active.len()]
    }) by {
        assert(done.state.active[k].id == promoted.active[k].id);
    }
    assert forall|j: int| 0 <= j < done.state.waiting.len() implies #[trigger] done.state.waiting[j]
        == state.waiting[j + moved] by {}

    assert forall|id: u64, verdict: Verdict| #[trigger]
        answers(done.actions, id, verdict) implies exists|i: int|
        0 <= i < state.active.len() && (#[trigger] state.active[i]).id == id && (if late(
            clock,
            timeout,
        )(state.active[i]) {
            verdict == Verdict::Rejected(Rejection::Elapsed)
        } else {
            verdict == Verdict::Rejected(Rejection::LimiterElapsed) && !state.active[i].running
        }) by {
        let reply = Action::Reply { id, verdict };
        let k = choose|k: int| 0 <= k < done.actions.len() && done.actions[k] == reply;
        if k < a1.len() {
            assert(a1[k] == reply);
            assert(answers(a1, id, verdict));
        } else if k < a1.len() + a2.len() {
            assert(a2[k - a1.len()] == reply);
            assert(answers(a2, id, verdict));
        } else if k < a1.len() + a2.len() + a3.len() {
            assert(a3[k - a1.len() - a2.len()] == reply);
            assert(answers(a3, id, verdict));
            let at = choose|at: int|
                0 <= at < granted.state.active.len() && stalled(clock, limit)(
                    #[trigger] granted.state.active[at],
                ) && granted.state.active[at].id == id;
            let i = choose|i: int|
                0 <= i < state.active.len() && (#[trigger] state.active[i]).id == (
                granted.state.active[at]).id && on_time(clock, timeout)(state.active[i])
                    && state.active[i].entered == granted.state.active[at].entered && (
                state.active[i].running ==> granted.state.active[at].running) && (
                !granted.state.active[at].running ==> !state.active[i].running);
            assert(state.active[i].id == id);
        } else {
            assert(a4[k - a1.len() - a2.len() - a3.len()] == reply);
            assert(answers(a4, id, verdict));
        }
    }

    assert forall|id: u64| #[trigger] done.state.holds(id) implies state.holds(id) by {
        if done.state.in_stage(id) {
            let k = choose|k: int|
                0 <= k < done.state.active.len() && (#[trigger] done.state.active[k]).id == id;
            if k < rejected.state.active.len() {
                let i = choose|i: int|
                    0 <= i < state.active.len() && (#[trigger] state.active[i]).id == (
                    rejected.state.active[k]).id;
                assert(state.in_stage(id));
            } else {
                assert(state.waiting[k - rejected.state.active.len()] == id);
            }
        } else {
            let j = choose|j: int| 0 <= j < done.state.waiting.len() && done.state.waiting[j] == id;
            assert(state.waiting[j + moved] == id);
        }
    }

    assert forall|i: int|
        0 <= i < state.active.len() && late(clock, timeout)(
            #[trigger] state.active[i],
        ) implies answers(done.actions, state.active[i].id, Verdict::Rejected(Rejection::Elapsed))
        && !done.state.holds(state.active[i].id) by {
        let id = state.active[i].id;
        let reply = Action::Reply { id, verdict: Verdict::Rejected(Rejection::Elapsed) };
        let k = choose|k: int| 0 <= k < a1.len() && a1[k] == reply;
        assert(done.actions[k] == reply);
        if done.state.holds(id) {
            if done.state.in_stage(id) {
                let k = choose|k: int|
                    0 <= k < done.state.active.len() && (#[trigger] done.state.active[k]).id
                        == id;
                if k < rejected.state.active.len() {
                    let t = rejected.state.active[k];
                    let at = choose|at: int|
                        0 <= at < granted.state.active.len() && granted.state.active[at] == t;
                    assert(granted.state.active[at].id == expired.state.active[at].id);
                    assert(expired.state.active[at].id != id);
                } else {
                    assert(state.waiting[k - rejected.state.active.len()] == id);
                    assert(state.active[i].id < state.waiting[k - rejected.state.active.len()]);
                }
            } else {
                let j = choose|j: int|
                    0 <= j < done.state.waiting.len() && done.state.waiting[j] == id;
                assert(state.active[i].id < state.waiting[j + moved]);
            }
        }
    }

    assert forall|id: u64| #[trigger] state.holds(id) implies done.state.holds(id) || answered(
        done.actions,
        id,
    ) by {
        if state.in_stage(id) {
            let i = choose|i: int|
                0 <= i < state.active.len() && (#[trigger] state.active[i]).id == id;
            let t = state.active[i];
            if late(clock, timeout)(t) {
                assert(answers(done.actions, id, Verdict::Rejected(Rejection::Elapsed)));
            } else {
                assert(on_time(clock, timeout)(t));
                let at = choose|at: int|
                    0 <= at < expired.state.active.len() && expired.state.active[at] == t;
                let g = granted.state.active[at];
                assert(g.id == id);
                if stalled(clock, limit)(g) {
                    let reply = Action::Reply {
                        id,
                        verdict: Verdict::Rejected(Rejection::LimiterElapsed),
                    };
                    assert(answers(a3, id, Verdict::Rejected(Rejection::LimiterElapsed)));
                    let k = choose|k: int| 0 <= k < a3.len() && a3[k] == reply;
                    assert(done.actions[a1.len() + a2.len() + k] == reply);
                    assert(answers(done.actions, id, Verdict::Rejected(Rejection::LimiterElapsed)));
                } else {
                    assert(unstalled(clock, limit)(g));
                    let k = choose|k: int|
                        0 <= k < rejected.state.active.len() && rejected.state.active[k] == g;
                    assert(done.state.active[k].id == id);
                    assert(done.state.in_stage(id));
                }
            }
        } else {
            let j = choose|j: int| 0 <= j < state.waiting.len() && state.waiting[j] == id;
            if j < moved {
                let k = rejected.state.active.len() + j;
                assert(done.state.active[k].id == state.waiting[j]);
                assert(done.state.in_stage(id));
            } else {
                assert(done.state.waiting[j - moved] == id);
            }
        }
    }

    assert forall|i: int|
        0 <= i < state.active.len() && (#[trigger] state.active[i]).running && on_time(
            clock,
            timeout,
        )(state.active[i]) implies done.state.in_stage(state.active[i].id) by {
        let t = state.active[i];
        let at = choose|at: int|
            0 <= at < expired.state.active.len() && expired.state.active[at] == t;
        let g = granted.state.active[at];
        assert(g.id == t.id && g.running);
        assert(unstalled(clock, limit)(g));
        let k = choose|k: int|
            0 <= k < rejected.state.active.len() && rejected.state.active[k] == g;
        assert(done.state.active[k].id == t.id);
    }
}

/// Doing what is due answers each request no more than once, and a request
/// that it answers is not held afterwards.
pub proof fn lemma_settle_answers_once(state: PipelineView, id: u64)
    requires
        state.sound(),
    ensures
        answered_once(state.settle().actions, id),
        answered(state.settle().actions, id) ==> !state.settle().state.holds(id),
{
    let clock = state.clock;
    let timeout = state.config.timeout;
    let limit = state.config.limiter_timeout;
    let expired = state.expire();
    let granted = expired.state.grant();
    let rejected = granted.state.reject_stalled();
    let promoted = rejected.state.promote();
    let regranted = promoted.grant();
    let done = state.settle();
    let free1 = (expired.state.config.rate_limit - expired.state.window_used) as nat;
    let free2 = (promoted.config.rate_limit - promoted.window_used) as nat;
    let a1 = expired.actions;
    let a2 = granted.actions;
    let a3 = rejected.actions;
    let a4 = regranted.actions;

    lemma_sweep(state.active, on_time(clock, timeout), late(clock, timeout), Rejection::Elapsed);
    lemma_sweep_answers_once(state.active, late(clock, timeout), Rejection::Elapsed, id);
    lemma_dropping_keeps_sound(state, on_time(clock, timeout));
    lemma_grant_keeps(expired.state);
    lemma_tokens_answer_nobody(expired.state.active, free1, id);
    lemma_sweep(
        granted.state.active,
        unstalled(clock, limit),
        stalled(clock, limit),
        Rejection::LimiterElapsed,
    );
    lemma_sweep_answers_once(
        granted.state.active,
        stalled(clock, limit),
        Rejection::LimiterElapsed,
        id,
    );
    lemma_dropping_keeps_sound(granted.state, unstalled(clock, limit));
    lemma_promote_settles(rejected.state);
    lemma_grant_keeps(promoted);
    lemma_tokens_answer_nobody(promoted.active, free2, id);
    lemma_settle_request_by_request(state);
    lemma_placing_keeps_requests(rejected.state);

    // A request answered for its timeout is not among those that are on time.
    if answered(a1, id) && answered(a3, id) {
        let v1 = choose|verdict: Verdict| answers(a1, id, verdict);
        let v3 = choose|verdict: Verdict| answers(a3, id, verdict);
        let i = choose|i: int|
            0 <= i < state.active.len() && late(clock, timeout)(#[trigger] state.active[i])
                && state.active[i].id == id;
        let at = choose|at: int|
            0 <= at < granted.state.active.len() && stalled(clock, limit)(
                #[trigger] granted.state.active[at],
            ) && granted.state.active[at].id == id;
        assert(granted.state.active[at].id == expired.state.active[at].id);
        assert(expired.state.active[at].id != state.active[i].id);
    }
    lemma_once_split(a1, a2, id);
    lemma_once_split(a1 + a2, a3, id);
    lemma_once_split(a1 + a2 + a3, a4, id);

    if answered(done.actions, id) {
        if answered(a1, id) {
            let v1 = choose|verdict: Verdict| answers(a1, id, verdict);
            let i = choose|i: int|
                0 <= i < state.active.len() && late(clock, timeout)(#[trigger] state.active[i])
                    && state.active[i].id == id;
            assert(!done.state.holds(id));
        } else {
            assert(answered(a3, id));
            let v3 = choose|verdict: Verdict| answers(a3, id, verdict);
            let at = choose|at: int|
                0 <= at < granted.state.active.len() && stalled(clock, limit)(
                    #[trigger] granted.state.active[at],
                ) && granted.state.active[at].id == id;
            assert(!rejected.state.holds(id)) by {
                if rejected.state.in_stage(id) {
                    let k = choose|k: int|
                        0 <= k < rejected.state.active.len() && (
                        #[trigger] rejected.state.active[k]).id == id;
                    assert(rejected.state.active[k].id != granted.state.active[at].id);
                }
                if rejected.state.waiting.contains(id) {
                    let j = choose|j: int|
                        0 <= j < granted.state.waiting.len() && granted.state.waiting[j] == id;
                    assert(granted.state.active[at].id < granted.state.waiting[j]);
                }
            }
        }
    }
}

} // verus!
