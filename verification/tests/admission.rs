use enma::application::admission::{Action, Verdict};
use enma::application::pipeline::Pipeline;
use enma::configuration::ServerConfig;
use enma::error::Rejection;

fn pipeline(
    buffer: usize,
    concurrency_limit: usize,
    rate_limit: u64,
    limiter_timeout: u64,
    timeout: u64,
) -> Pipeline {
    let config =
        ServerConfig::new(8080, buffer, concurrency_limit, rate_limit, limiter_timeout, timeout, false)
            .unwrap();
    Pipeline::new(config)
}

fn shed(id: u64) -> Action {
    Action::Reply { id, verdict: Verdict::Rejected(Rejection::Overloaded) }
}

fn timed_out(id: u64) -> Action {
    Action::Reply { id, verdict: Verdict::Rejected(Rejection::Elapsed) }
}

fn stalled(id: u64) -> Action {
    Action::Reply { id, verdict: Verdict::Rejected(Rejection::LimiterElapsed) }
}

fn handled(id: u64) -> Action {
    Action::Reply { id, verdict: Verdict::Handler }
}

fn start(id: u64) -> Action {
    Action::Start { id }
}

#[test]
fn fresh_pipeline_is_empty() {
    let p = pipeline(3, 2, 100, 1000, 1000);
    assert_eq!(p.buffered(), 0);
    assert_eq!(p.in_flight(), 0);
    assert_eq!(p.clock(), 0);
    assert_eq!(p.tokens_used(), 0);
    assert_eq!(*p.config().get_buffer(), 3);
}

#[test]
fn a_request_under_the_caps_starts_at_once() {
    let mut p = pipeline(3, 2, 100, 1000, 1000);
    let arrival = p.arrive(5);
    assert_eq!(arrival.id, 0);
    assert_eq!(arrival.actions, vec![start(0)]);
    assert_eq!(p.in_flight(), 1);
    assert_eq!(p.buffered(), 0);
    assert_eq!(p.tokens_used(), 1);
    assert_eq!(p.clock(), 5);
}

#[test]
fn burst_beyond_capacity_sheds_exactly_the_excess() {
    // concurrency limit 2 and buffer 3: five are held, the rest is shed
    let mut p = pipeline(3, 2, 100, 1000, 1000);
    let mut sheds = Vec::new();
    let mut started = Vec::new();
    for _ in 0..9 {
        let arrival = p.arrive(10);
        for action in arrival.actions {
            match action {
                Action::Reply { id, verdict } => {
                    assert_eq!(verdict, Verdict::Rejected(Rejection::Overloaded));
                    sheds.push(id);
                }
                Action::Start { id } => started.push(id),
            }
        }
    }
    assert_eq!(sheds, vec![5, 6, 7, 8]);
    assert_eq!(started, vec![0, 1]);
    assert_eq!(p.in_flight(), 2);
    assert_eq!(p.buffered(), 3);
}

#[test]
fn burst_within_capacity_sheds_nothing() {
    let mut p = pipeline(3, 2, 100, 1000, 1000);
    for expected in 0..5u64 {
        let arrival = p.arrive(10);
        assert_eq!(arrival.id, expected);
        assert!(!arrival.actions.contains(&shed(expected)));
    }
    assert_eq!(p.in_flight() + p.buffered(), 5);
}

#[test]
fn shed_request_leaves_the_pipeline_as_it_was() {
    let mut p = pipeline(1, 1, 100, 1000, 1000);
    p.arrive(0);
    p.arrive(0);
    let arrival = p.arrive(0);
    assert_eq!(arrival.actions, vec![shed(2)]);
    assert_eq!(p.in_flight(), 1);
    assert_eq!(p.buffered(), 1);
    // its handler never ran, so its end changes nothing
    assert_eq!(p.finish(2, 1), vec![]);
}

#[test]
fn buffer_is_first_in_first_out() {
    let mut p = pipeline(3, 1, 100, 1000, 1000);
    assert_eq!(p.arrive(0).actions, vec![start(0)]);
    assert_eq!(p.arrive(1).actions, vec![]);
    assert_eq!(p.arrive(2).actions, vec![]);
    assert_eq!(p.arrive(3).actions, vec![]);
    assert_eq!(p.finish(0, 10), vec![handled(0), start(1)]);
    assert_eq!(p.finish(1, 20), vec![handled(1), start(2)]);
    assert_eq!(p.finish(2, 30), vec![handled(2), start(3)]);
    assert_eq!(p.finish(3, 40), vec![handled(3)]);
    assert_eq!(p.in_flight(), 0);
    assert_eq!(p.buffered(), 0);
}

#[test]
fn handler_within_the_timeout_answers_for_itself() {
    let mut p = pipeline(3, 2, 100, 5000, 1000);
    p.arrive(100);
    assert_eq!(p.finish(0, 1099), vec![handled(0)]);
    assert_eq!(p.in_flight(), 0);
}

#[test]
fn handler_at_the_very_timeout_still_answers() {
    let mut p = pipeline(3, 2, 100, 5000, 1000);
    p.arrive(100);
    assert_eq!(p.tick(1100), vec![]);
    assert_eq!(p.finish(0, 1100), vec![handled(0)]);
}

#[test]
fn handler_beyond_the_timeout_yields_408_never_a_late_answer() {
    let mut p = pipeline(3, 2, 100, 5000, 1000);
    p.arrive(100);
    assert_eq!(p.finish(0, 1101), vec![timed_out(0)]);
    assert_eq!(p.in_flight(), 0);
    // what the handler produces later is discarded
    assert_eq!(p.finish(0, 1200), vec![]);
    assert_eq!(p.finish(0, 9000), vec![]);
}

#[test]
fn timeout_is_answered_by_the_first_look_at_the_clock() {
    let mut p = pipeline(3, 2, 100, 5000, 1000);
    p.arrive(0);
    p.arrive(500);
    assert_eq!(p.tick(1000), vec![]);
    assert_eq!(p.tick(1001), vec![timed_out(0)]);
    assert_eq!(p.tick(1001), vec![]);
    assert_eq!(p.tick(1501), vec![timed_out(1)]);
    assert_eq!(p.in_flight(), 0);
    assert_eq!(p.finish(0, 1600), vec![]);
    assert_eq!(p.finish(1, 1600), vec![]);
}

#[test]
fn timeout_frees_the_slot_for_the_buffered() {
    let mut p = pipeline(2, 1, 100, 5000, 1000);
    assert_eq!(p.arrive(0).actions, vec![start(0)]);
    assert_eq!(p.arrive(10).actions, vec![]);
    assert_eq!(p.tick(1001), vec![timed_out(0), start(1)]);
    // the timeout of the second runs from the instant it left the buffer
    assert_eq!(p.tick(2001), vec![]);
    assert_eq!(p.tick(2002), vec![timed_out(1)]);
}

#[test]
fn arrival_does_what_is_due_first() {
    let mut p = pipeline(1, 1, 100, 5000, 1000);
    p.arrive(0);
    p.arrive(0);
    // both places are taken, but the first request has timed out by now
    let arrival = p.arrive(1500);
    assert_eq!(arrival.id, 2);
    assert_eq!(arrival.actions, vec![timed_out(0), start(1)]);
    assert_eq!(p.in_flight(), 1);
    assert_eq!(p.buffered(), 1);
}

#[test]
fn rate_limit_holds_requests_back_until_the_window_ends() {
    // two tokens per window of 1000 ms
    let mut p = pipeline(5, 5, 2, 1000, 10_000);
    assert_eq!(p.arrive(0).actions, vec![start(0)]);
    assert_eq!(p.arrive(100).actions, vec![start(1)]);
    assert_eq!(p.arrive(200).actions, vec![]);
    assert_eq!(p.tokens_used(), 2);
    assert_eq!(p.in_flight(), 3);
    assert_eq!(p.tick(999), vec![]);
    assert_eq!(p.tick(1000), vec![start(2)]);
    assert_eq!(p.tokens_used(), 1);
}

#[test]
fn request_without_a_token_within_the_limiter_timeout_yields_408() {
    let mut p = pipeline(5, 5, 1, 1000, 10_000);
    assert_eq!(p.arrive(0).actions, vec![start(0)]);
    assert_eq!(p.arrive(100).actions, vec![]);
    assert_eq!(p.arrive(200).actions, vec![]);
    // the new window has one token, for the older of the two
    assert_eq!(p.tick(1000), vec![start(1)]);
    assert_eq!(p.tick(1199), vec![]);
    assert_eq!(p.tick(1200), vec![stalled(2)]);
    assert_eq!(p.in_flight(), 2);
    assert_eq!(p.finish(2, 1300), vec![]);
}

#[test]
fn request_timeout_comes_before_a_longer_limiter_timeout() {
    let mut p = pipeline(5, 5, 1, 10_000, 1000);
    assert_eq!(p.arrive(0).actions, vec![start(0)]);
    assert_eq!(p.arrive(0).actions, vec![]);
    assert_eq!(p.tick(1001), vec![timed_out(0), timed_out(1)]);
}

#[test]
fn tokens_go_to_the_oldest_first() {
    let mut p = pipeline(5, 5, 2, 1000, 10_000);
    p.arrive(0);
    p.arrive(0);
    assert_eq!(p.arrive(10).actions, vec![]);
    assert_eq!(p.arrive(20).actions, vec![]);
    assert_eq!(p.arrive(30).actions, vec![]);
    assert_eq!(p.tick(1000), vec![start(2), start(3)]);
    assert_eq!(p.tick(1030), vec![stalled(4)]);
}

#[test]
fn finish_of_a_waiting_request_is_discarded() {
    let mut p = pipeline(5, 5, 1, 1000, 10_000);
    p.arrive(0);
    p.arrive(0);
    // request 1 has no token yet, so no handler of it can have finished
    assert_eq!(p.finish(1, 10), vec![]);
    assert_eq!(p.in_flight(), 2);
}

#[test]
fn finish_of_an_unknown_request_changes_nothing() {
    let mut p = pipeline(5, 5, 5, 1000, 1000);
    p.arrive(0);
    assert_eq!(p.finish(77, 10), vec![]);
    assert_eq!(p.in_flight(), 1);
    assert_eq!(p.finish(0, 20), vec![handled(0)]);
}

#[test]
fn clock_never_goes_back() {
    let mut p = pipeline(5, 5, 5, 1000, 1000);
    p.arrive(500);
    assert_eq!(p.tick(100), vec![]);
    assert_eq!(p.clock(), 500);
    // an instant in the past counts as the present
    assert_eq!(p.finish(0, 0), vec![handled(0)]);
}

#[test]
fn every_request_is_answered_exactly_once() {
    let mut p = pipeline(2, 2, 3, 700, 1000);
    let mut answers = std::collections::BTreeMap::new();
    let mut started = Vec::new();
    let mut issued = 0u64;
    let mut record = |actions: Vec<Action>, started: &mut Vec<u64>| {
        for action in actions {
            match action {
                Action::Reply { id, .. } => *answers.entry(id).or_insert(0u32) += 1,
                Action::Start { id } => started.push(id),
            }
        }
    };
    let mut now = 0u64;
    for round in 0..40u64 {
        now += 90;
        if round % 3 != 2 {
            let arrival = p.arrive(now);
            assert_eq!(arrival.id, issued);
            issued += 1;
            record(arrival.actions, &mut started);
        }
        if round % 4 == 1 && !started.is_empty() {
            let id = started.remove(0);
            let actions = p.finish(id, now + 5);
            record(actions, &mut started);
        }
        assert!(p.in_flight() <= 2);
        assert!(p.buffered() <= 2);
        assert!(p.tokens_used() <= 3);
    }
    let rest = p.tick(now + 10_000);
    record(rest, &mut started);
    let rest = p.tick(now + 20_000);
    record(rest, &mut started);
    assert_eq!(p.in_flight(), 0);
    assert_eq!(p.buffered(), 0);
    assert_eq!(answers.len() as u64, issued);
    assert!(answers.values().all(|count| *count == 1));
}
