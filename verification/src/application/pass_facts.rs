//! What each pass of the admission pipeline keeps and does: the facts that
//! the laws of the pipeline are proved from.

use crate::application::admission::{
    answered, answers, awaiting, awaiting_count, entering, is_start, late, on_time, stalled,
    start_count, started, starts, token_winners, tokens_taken, turned_away, unstalled, with_tokens,
    Action, PipelineView, Ticket, Verdict,
};
use crate::error::Rejection;
use vstd::prelude::*;

verus! {

/// The tickets are numbered in increasing order.
pub open spec fn ordered(tickets: Seq<Ticket>) -> bool {
    forall|i: int, j: int|
        0 <= i < j < tickets.len() ==> (#[trigger] tickets[i]).id < (#[trigger] tickets[j]).id
}

/// A selection of tickets is no longer than what it was taken from, holds
/// only tickets of it, and keeps their order.
pub proof fn lemma_selection(tickets: Seq<Ticket>, pred: spec_fn(Ticket) -> bool)
    ensures
        tickets.filter(pred).len() <= tickets.len(),
        forall|k: int|
            0 <= k < tickets.filter(pred).len() ==> tickets.contains(
                #[trigger] tickets.filter(pred)[k],
            ),
        forall|k: int| 0 <= k < tickets.filter(pred).len() ==> pred(#[trigger] tickets.filter(pred)[k]),
        ordered(tickets) ==> ordered(tickets.filter(pred)),
    decreases tickets.len(),
{
    reveal(Seq::filter);
    if tickets.len() > 0 {
        let rest = tickets.drop_last();
        lemma_selection(rest, pred);
        let chosen = rest.filter(pred);
        assert forall|k: int| 0 <= k < chosen.len() implies tickets.contains(
            #[trigger] chosen[k],
        ) by {
            let at = choose|at: int| 0 <= at < rest.len() && rest[at] == chosen[k];
            assert(tickets[at] == chosen[k]);
        }
        assert(tickets.contains(tickets.last())) by {
            assert(tickets[tickets.len() - 1] == tickets.last());
        }
        if ordered(tickets) {
            assert(ordered(rest)) by {
                assert forall|i: int, j: int| 0 <= i < j < rest.len() implies (
                #[trigger] rest[i]).id < (#[trigger] rest[j]).id by {
                    assert(rest[i] == tickets[i]);
                    assert(rest[j] == tickets[j]);
                }
            }
            assert forall|k: int| 0 <= k < chosen.len() implies (#[trigger] chosen[k]).id
                < tickets.last().id by {
                let at = choose|at: int| 0 <= at < rest.len() && rest[at] == chosen[k];
                assert(tickets[at] == chosen[k]);
                assert(tickets[at].id < tickets[tickets.len() - 1].id);
            }
        }
    }
}

/// A selection by what holds of every item is all of them; one by what
/// holds of none is empty.
pub proof fn lemma_select_all_or_none<A>(items: Seq<A>, pred: spec_fn(A) -> bool)
    ensures
        (forall|i: int| 0 <= i < items.len() ==> pred(#[trigger] items[i])) ==> items.filter(pred)
            == items,
        (forall|i: int| 0 <= i < items.len() ==> !pred(#[trigger] items[i])) ==> items.filter(
            pred,
        ) == Seq::<A>::empty(),
    decreases items.len(),
{
    reveal(Seq::filter);
    if items.len() > 0 {
        let rest = items.drop_last();
        lemma_select_all_or_none(rest, pred);
        assert forall|i: int| 0 <= i < rest.len() implies rest[i] == items[i] by {}
        if forall|i: int| 0 <= i < items.len() ==> pred(#[trigger] items[i]) {
            assert forall|i: int| 0 <= i < rest.len() implies pred(#[trigger] rest[i]) by {
                assert(rest[i] == items[i]);
            }
            assert(pred(items[items.len() - 1]));
            assert(rest.push(items.last()) =~= items);
        }
        if forall|i: int| 0 <= i < items.len() ==> !pred(#[trigger] items[i]) {
            assert forall|i: int| 0 <= i < rest.len() implies !pred(#[trigger] rest[i]) by {
                assert(rest[i] == items[i]);
            }
            assert(!pred(items[items.len() - 1]));
        }
    } else {
        assert(items.filter(pred) =~= Seq::<A>::empty());
        assert(items =~= Seq::<A>::empty());
    }
}

/// Dropping tickets keeps a sound state sound.
pub proof fn lemma_dropping_keeps_sound(state: PipelineView, pred: spec_fn(Ticket) -> bool)
    requires
        state.sound(),
    ensures
        (PipelineView { active: state.active.filter(pred), ..state }).sound(),
{
    lemma_selection(state.active, pred);
    let kept = state.active.filter(pred);
    assert forall|k: int| 0 <= k < kept.len() implies (#[trigger] kept[k]).entered <= state.clock
        && kept[k].id < state.next_id && (forall|j: int|
        0 <= j < state.waiting.len() ==> kept[k].id < #[trigger] state.waiting[j]) by {
        let at = choose|at: int| 0 <= at < state.active.len() && state.active[at] == kept[k];
        assert(state.active[at].entered <= state.clock);
    }
}

/// Seeing a later instant keeps a state sound, and well-formed where it
/// was.
pub proof fn lemma_advance_keeps(state: PipelineView, now: u64)
    requires
        state.sound(),
    ensures
        state.advance(now).sound(),
        state.wf() ==> state.advance(now).wf(),
        state.advance(now).clock >= now,
        state.advance(now).clock >= state.clock,
{
    let next = state.advance(now);
    assert forall|i: int| 0 <= i < next.active.len() implies (#[trigger] next.active[i]).entered
        <= next.clock by {
        assert(state.active[i].entered <= state.clock);
    }
}

/// Handing out tokens keeps a state sound, and well-formed where it was:
/// no ticket comes or goes, and no more tokens go out than the window has
/// left.
pub proof fn lemma_grant_keeps(state: PipelineView)
    requires
        state.sound(),
    ensures
        state.grant().state.sound(),
        state.wf() ==> state.grant().state.wf(),
        state.grant().state.active.len() == state.active.len(),
        state.grant().state.waiting == state.waiting,
{
    let free = (state.config.rate_limit - state.window_used) as nat;
    let next = state.grant().state;
    assert forall|i: int| 0 <= i < next.active.len() implies (#[trigger] next.active[i]).id
        == state.active[i].id && next.active[i].entered == state.active[i].entered by {}
    assert forall|i: int| 0 <= i < next.active.len() implies (#[trigger] next.active[i]).entered
        <= next.clock by {
        assert(state.active[i].entered <= state.clock);
    }
    assert forall|i: int, j: int| 0 <= i < j < next.active.len() implies (
    #[trigger] next.active[i]).id < (#[trigger] next.active[j]).id by {
        assert(state.active[i].id < state.active[j].id);
    }
    assert forall|i: int, j: int|
        0 <= i < next.active.len() && 0 <= j < next.waiting.len() implies (
    #[trigger] next.active[i]).id < #[trigger] next.waiting[j] by {
        assert(state.active[i].id < state.waiting[j]);
    }
    assert forall|i: int| 0 <= i < next.active.len() implies (#[trigger] next.active[i]).id
        < next.next_id by {
        assert(state.active[i].id < state.next_id);
    }
}

/// Letting buffered requests in makes a sound state well-formed.
pub proof fn lemma_promote_settles(state: PipelineView)
    requires
        state.sound(),
    ensures
        state.promote().wf(),
{
    let next = state.promote();
    let moved = state.promoted();
    let entered = state.waiting.take(moved).map_values(entering(state.clock));
    assert forall|i: int| 0 <= i < next.active.len() implies (#[trigger] next.active[i]).entered
        <= next.clock && next.active[i].id < next.next_id by {
        if i < state.active.len() {
            assert(next.active[i] == state.active[i]);
        } else {
            assert(next.active[i] == entered[i - state.active.len()]);
            assert(next.active[i].id == state.waiting[i - state.active.len()]);
        }
    }
    assert forall|i: int, j: int| 0 <= i < j < next.active.len() implies (
    #[trigger] next.active[i]).id < (#[trigger] next.active[j]).id by {
        if j < state.active.len() {
            assert(next.active[i] == state.active[i]);
            assert(next.active[j] == state.active[j]);
        } else if i < state.active.len() {
            assert(next.active[i] == state.active[i]);
            assert(next.active[j].id == state.waiting[j - state.active.len()]);
        } else {
            assert(next.active[i].id == state.waiting[i - state.active.len()]);
            assert(next.active[j].id == state.waiting[j - state.active.len()]);
        }
    }
    assert forall|i: int, j: int| 0 <= i < j < next.waiting.len() implies #[trigger] next.waiting[i]
        < #[trigger] next.waiting[j] by {
        assert(next.waiting[i] == state.waiting[i + moved]);
        assert(next.waiting[j] == state.waiting[j + moved]);
    }
    assert forall|i: int, j: int|
        0 <= i < next.active.len() && 0 <= j < next.waiting.len() implies (
    #[trigger] next.active[i]).id < #[trigger] next.waiting[j] by {
        assert(next.waiting[j] == state.waiting[j + moved]);
        if i < state.active.len() {
            assert(next.active[i] == state.active[i]);
        } else {
            assert(next.active[i].id == state.waiting[i - state.active.len()]);
        }
    }
    assert forall|j: int| 0 <= j < next.waiting.len() implies #[trigger] next.waiting[j]
        < next.next_id by {
        assert(next.waiting[j] == state.waiting[j + moved]);
    }
}

/// Everything that is due leaves a sound state well-formed.
pub proof fn lemma_settle_wf(state: PipelineView)
    requires
        state.sound(),
    ensures
        state.settle().state.wf(),
        state.settle().state.config == state.config,
        state.settle().state.clock == state.clock,
        state.settle().state.next_id == state.next_id,
{
    let expired = state.expire();
    lemma_dropping_keeps_sound(state, on_time(state.clock, state.config.timeout));
    let granted = expired.state.grant();
    lemma_grant_keeps(expired.state);
    let rejected = granted.state.reject_stalled();
    lemma_dropping_keeps_sound(
        granted.state,
        unstalled(granted.state.clock, granted.state.config.limiter_timeout),
    );
    lemma_promote_settles(rejected.state);
    lemma_grant_keeps(rejected.state.promote());
}

/// What a sweep does to each ticket: one that `keep` holds of stays, one
/// that `drop` holds of goes and is answered with the reason, and nothing
/// else is answered.
pub proof fn lemma_sweep(
    tickets: Seq<Ticket>,
    keep: spec_fn(Ticket) -> bool,
    drop: spec_fn(Ticket) -> bool,
    reason: Rejection,
)
    requires
        forall|t: Ticket| #[trigger] keep(t) <==> !drop(t),
        ordered(tickets),
    ensures
        forall|i: int|
            0 <= i < tickets.len() && keep(#[trigger] tickets[i]) ==> tickets.filter(
                keep,
            ).contains(tickets[i]),
        forall|i: int|
            0 <= i < tickets.len() && drop(#[trigger] tickets[i]) ==> answers(
                tickets.filter(drop).map_values(turned_away(reason)),
                tickets[i].id,
                Verdict::Rejected(reason),
            ),
        forall|i: int, k: int|
            0 <= i < tickets.len() && drop(#[trigger] tickets[i]) && 0 <= k < tickets.filter(
                keep,
            ).len() ==> (#[trigger] tickets.filter(keep)[k]).id != tickets[i].id,
        forall|id: u64, verdict: Verdict| #[trigger]
            answers(tickets.filter(drop).map_values(turned_away(reason)), id, verdict) ==> verdict
                == Verdict::Rejected(reason) && exists|i: int|
                0 <= i < tickets.len() && drop(#[trigger] tickets[i]) && tickets[i].id == id,
        forall|id: u64| !#[trigger] starts(tickets.filter(drop).map_values(turned_away(reason)), id),
{
    let kept = tickets.filter(keep);
    let dropped = tickets.filter(drop);
    let replies = dropped.map_values(turned_away(reason));
    lemma_selection(tickets, keep);
    lemma_selection(tickets, drop);
    assert forall|i: int| 0 <= i < tickets.len() && keep(#[trigger] tickets[i]) implies kept.contains(
        tickets[i],
    ) by {
        tickets.lemma_filter_contains(keep, i);
    }
    assert forall|i: int| 0 <= i < tickets.len() && drop(#[trigger] tickets[i]) implies answers(
        replies,
        tickets[i].id,
        Verdict::Rejected(reason),
    ) by {
        tickets.lemma_filter_contains(drop, i);
        let at = choose|at: int| 0 <= at < dropped.len() && dropped[at] == tickets[i];
        assert(replies[at] == Action::Reply {
            id: tickets[i].id,
            verdict: Verdict::Rejected(reason),
        });
    }
    assert forall|i: int, k: int|
        0 <= i < tickets.len() && drop(#[trigger] tickets[i]) && 0 <= k < kept.len() implies (
    #[trigger] kept[k]).id != tickets[i].id by {
        let at = choose|at: int| 0 <= at < tickets.len() && tickets[at] == kept[k];
        assert(keep(kept[k]));
        if at < i {
            assert(tickets[at].id < tickets[i].id);
        } else if i < at {
            assert(tickets[i].id < tickets[at].id);
        }
    }
    assert forall|id: u64, verdict: Verdict| #[trigger]
        answers(replies, id, verdict) implies verdict == Verdict::Rejected(reason) && exists|i: int|
        0 <= i < tickets.len() && drop(#[trigger] tickets[i]) && tickets[i].id == id by {
        let k = choose|k: int|
            0 <= k < replies.len() && replies[k] == (Action::Reply { id, verdict });
        let at = choose|at: int| 0 <= at < tickets.len() && tickets[at] == dropped[k];
        assert(drop(dropped[k]));
        assert(drop(tickets[at]) && tickets[at].id == id);
    }
    assert forall|id: u64| !#[trigger] starts(replies, id) by {
        if starts(replies, id) {
            let k = choose|k: int| 0 <= k < replies.len() && replies[k] == (Action::Start { id });
            assert(replies[k] == turned_away(reason)(dropped[k]));
        }
    }
}

/// Handing out tokens answers nobody, and starts only handlers of tickets
/// that waited for a token.
pub proof fn lemma_tokens_start_waiting(tickets: Seq<Ticket>, free: nat)
    ensures
        forall|id: u64, verdict: Verdict| !#[trigger]
            answers(token_winners(tickets, free).map_values(started()), id, verdict),
        forall|id: u64| #[trigger]
            starts(token_winners(tickets, free).map_values(started()), id) ==> exists|i: int|
                0 <= i < tickets.len() && (#[trigger] tickets[i]).id == id && !tickets[i].running,
{
    let queue = tickets.filter(awaiting());
    let winners = token_winners(tickets, free);
    let actions = winners.map_values(started());
    lemma_selection(tickets, awaiting());
    assert forall|id: u64, verdict: Verdict| !#[trigger] answers(actions, id, verdict) by {
        if answers(actions, id, verdict) {
            let k = choose|k: int|
                0 <= k < actions.len() && actions[k] == (Action::Reply { id, verdict });
            assert(actions[k] == started()(winners[k]));
        }
    }
    assert forall|id: u64| #[trigger] starts(actions, id) implies exists|i: int|
        0 <= i < tickets.len() && (#[trigger] tickets[i]).id == id && !tickets[i].running by {
        let k = choose|k: int| 0 <= k < actions.len() && actions[k] == (Action::Start { id });
        assert(actions[k] == started()(winners[k]));
        assert(winners[k] == queue[k]);
        assert(awaiting()(queue[k]));
        let at = choose|at: int| 0 <= at < tickets.len() && tickets[at] == queue[k];
        assert(tickets[at].id == id && !tickets[at].running);
    }
}

/// Letting buffered requests in and handing out tokens answers nobody, and
/// the pipeline holds the same requests afterwards.
pub proof fn lemma_placing_keeps_requests(state: PipelineView)
    requires
        state.sound(),
    ensures
        forall|id: u64, verdict: Verdict| !#[trigger]
            answers(state.promote().grant().actions, id, verdict),
        forall|id: u64| #[trigger] state.promote().grant().state.holds(id) <==> state.holds(id),
{
    let promoted = state.promote();
    let placed = promoted.grant();
    let moved = state.promoted();
    let free = (promoted.config.rate_limit - promoted.window_used) as nat;
    lemma_promote_settles(state);
    lemma_grant_keeps(promoted);
    lemma_tokens_start_waiting(promoted.active, free);
    assert forall|k: int| 0 <= k < placed.state.active.len() implies (if k < state.active.len() {
        (#[trigger] placed.state.active[k]).id == state.active[k].id
    } else {
        placed.state.active[k].id == state.waiting[k - state.active.len()]
    }) by {
        assert(placed.state.active[k].id == promoted.active[k].id);
    }
    assert forall|id: u64| #[trigger] placed.state.holds(id) <==> state.holds(id) by {
        if placed.state.in_stage(id) {
            let k = choose|k: int|
                0 <= k < placed.state.active.len() && (#[trigger] placed.state.active[k]).id
                    == id;
            if k < state.active.len() {
                assert(state.active[k].id == id);
            } else {
                assert(state.waiting[k - state.active.len()] == id);
            }
        }
        if placed.state.waiting.contains(id) {
            let j = choose|j: int|
                0 <= j < placed.state.waiting.len() && placed.state.waiting[j] == id;
            assert(state.waiting[j + moved] == id);
        }
        if state.in_stage(id) {
            let i = choose|i: int|
                0 <= i < state.active.len() && (#[trigger] state.active[i]).id == id;
            assert(placed.state.active[i].id == id);
        }
        if state.waiting.contains(id) {
            let j = choose|j: int| 0 <= j < state.waiting.len() && state.waiting[j] == id;
            if j < moved {
                assert(placed.state.active[state.active.len() + j].id == id);
            } else {
                assert(placed.state.waiting[j - moved] == id);
            }
        }
    }
}

/// The tickets that wait among the first `i` are fewer than those that
/// wait among all, where the ticket at `i` waits.
pub proof fn lemma_waiting_before(tickets: Seq<Ticket>, i: int)
    requires
        0 <= i < tickets.len(),
        !tickets[i].running,
    ensures
        awaiting_count(tickets.take(i)) < awaiting_count(tickets),
{
    let upto = tickets.take(i + 1);
    assert(upto =~= tickets.take(i).push(tickets[i]));
    tickets.take(i).lemma_filter_len_push(awaiting(), tickets[i]);
    tickets.lemma_filter_take_len(awaiting(), i + 1);
}

/// Where no token is left, or no ticket waits for one, handing out tokens
/// changes nothing and starts nothing.
pub proof fn lemma_nothing_to_hand_out(tickets: Seq<Ticket>, free: nat)
    requires
        free == 0 || awaiting_count(tickets) == 0,
    ensures
        with_tokens(tickets, free) == tickets,
        tokens_taken(tickets, free) == 0,
        token_winners(tickets, free).map_values(started()) == Seq::<Action>::empty(),
{
    assert forall|i: int| 0 <= i < tickets.len() implies with_tokens(tickets, free)[i]
        == tickets[i] by {
        if !tickets[i].running {
            lemma_waiting_before(tickets, i);
        }
    }
    assert(with_tokens(tickets, free) =~= tickets);
    assert(token_winners(tickets, free).map_values(started()) =~= Seq::<Action>::empty());
}

/// After tokens were handed out, a ticket still waits only if the window
/// has none left.
pub proof fn lemma_grant_exhausts(state: PipelineView)
    requires
        state.sound(),
    ensures
        awaiting_count(state.grant().state.active) > 0 ==> state.grant().state.window_used
            == state.config.rate_limit,
{
    let free = (state.config.rate_limit - state.window_used) as nat;
    let tickets = state.active;
    let after = with_tokens(tickets, free);
    if awaiting_count(tickets) <= free {
        assert forall|i: int| 0 <= i < after.len() implies !awaiting()(#[trigger] after[i]) by {
            if !tickets[i].running {
                lemma_waiting_before(tickets, i);
            }
        }
        lemma_select_all_or_none(after, awaiting());
    }
}

/// Two runs of actions one after the other start as many handlers as both
/// together.
pub proof fn lemma_start_count_adds(first: Seq<Action>, second: Seq<Action>)
    ensures
        start_count(first + second) == start_count(first) + start_count(second),
{
    Seq::filter_distributes_over_add(first, second, is_start());
}

/// A sweep starts no handler.
pub proof fn lemma_sweep_starts_nothing(
    tickets: Seq<Ticket>,
    drop: spec_fn(Ticket) -> bool,
    reason: Rejection,
)
    ensures
        start_count(tickets.filter(drop).map_values(turned_away(reason))) == 0,
{
    let replies = tickets.filter(drop).map_values(turned_away(reason));
    assert forall|k: int| 0 <= k < replies.len() implies !is_start()(#[trigger] replies[k]) by {
        assert(replies[k] == turned_away(reason)(tickets.filter(drop)[k]));
    }
    lemma_select_all_or_none(replies, is_start());
}

/// Handing out tokens starts one handler for each token taken.
pub proof fn lemma_tokens_start_handlers(tickets: Seq<Ticket>, free: nat)
    ensures
        start_count(token_winners(tickets, free).map_values(started())) == tokens_taken(
            tickets,
            free,
        ),
        tokens_taken(tickets, free) <= free,
{
    let winners = token_winners(tickets, free);
    let actions = winners.map_values(started());
    assert forall|k: int| 0 <= k < actions.len() implies is_start()(#[trigger] actions[k]) by {
        assert(actions[k] == started()(winners[k]));
    }
    lemma_select_all_or_none(actions, is_start());
}

/// Doing what is due takes one token of the window for each handler it
/// starts.
pub proof fn lemma_settle_takes_tokens(state: PipelineView)
    requires
        state.sound(),
    ensures
        state.settle().state.window_used == state.window_used + start_count(
            state.settle().actions,
        ),
        state.settle().state.window_used <= state.config.rate_limit,
        state.settle().state.window_start == state.window_start,
{
    let clock = state.clock;
    let timeout = state.config.timeout;
    let limit = state.config.limiter_timeout;
    let expired = state.expire();
    let granted = expired.state.grant();
    let rejected = granted.state.reject_stalled();
    let promoted = rejected.state.promote();
    let regranted = promoted.grant();
    let free1 = (expired.state.config.rate_limit - expired.state.window_used) as nat;
    let free2 = (promoted.config.rate_limit - promoted.window_used) as nat;
    lemma_dropping_keeps_sound(state, on_time(clock, timeout));
    lemma_grant_keeps(expired.state);
    lemma_dropping_keeps_sound(granted.state, unstalled(clock, limit));
    lemma_promote_settles(rejected.state);
    lemma_grant_keeps(promoted);
    lemma_sweep_starts_nothing(state.active, late(clock, timeout), Rejection::Elapsed);
    lemma_tokens_start_handlers(expired.state.active, free1);
    lemma_sweep_starts_nothing(
        granted.state.active,
        stalled(clock, limit),
        Rejection::LimiterElapsed,
    );
    lemma_tokens_start_handlers(promoted.active, free2);
    lemma_start_count_adds(expired.actions, granted.actions);
    lemma_start_count_adds(expired.actions + granted.actions, rejected.actions);
    lemma_start_count_adds(
        expired.actions + granted.actions + rejected.actions,
        regranted.actions,
    );
}

} // verus!
