use dns_mesh_check::executor::{
    response_outcome, retry_step, run_check_events, AnswerData, CheckOutcome, QueryEvent,
    RetryDecision, DEFAULT_RETRIES,
};
use dns_mesh_check::inventory::Ipv4;

fn expected() -> Ipv4 {
    Ipv4::new(173, 255, 245, 83)
}

fn other() -> Ipv4 {
    Ipv4::new(212, 71, 246, 209)
}

#[test]
fn default_retry_budget_is_two() {
    assert_eq!(DEFAULT_RETRIES, 2);
}

#[test]
fn matching_first_answer_passes() {
    let answers = vec![AnswerData::A(expected())];
    assert_eq!(response_outcome(&answers, &expected()), CheckOutcome::Pass);
}

#[test]
fn mismatched_first_answer_fails() {
    let answers = vec![AnswerData::A(other())];
    assert_eq!(response_outcome(&answers, &expected()), CheckOutcome::Fail);
}

#[test]
fn empty_answer_list_fails() {
    let answers: Vec<AnswerData> = Vec::new();
    assert_eq!(response_outcome(&answers, &expected()), CheckOutcome::Fail);
}

#[test]
fn non_a_first_answer_fails() {
    // Only the first answer record decides, as returned.
    let answers = vec![AnswerData::Other, AnswerData::A(expected())];
    assert_eq!(response_outcome(&answers, &expected()), CheckOutcome::Fail);
}

#[test]
fn step_retries_transport_failure_while_budget_remains() {
    let decision = retry_step(2, &QueryEvent::TransportFailed, &expected());
    assert_eq!(decision, RetryDecision::Retry(1));
    let decision = retry_step(1, &QueryEvent::TransportFailed, &expected());
    assert_eq!(decision, RetryDecision::Retry(0));
}

#[test]
fn step_fails_when_budget_is_spent() {
    let decision = retry_step(0, &QueryEvent::TransportFailed, &expected());
    assert_eq!(decision, RetryDecision::Done(CheckOutcome::Fail));
}

#[test]
fn step_decides_on_any_response() {
    let event = QueryEvent::Response(vec![AnswerData::A(expected())]);
    assert_eq!(retry_step(2, &event, &expected()), RetryDecision::Done(CheckOutcome::Pass));
    let event = QueryEvent::Response(vec![AnswerData::A(other())]);
    assert_eq!(retry_step(2, &event, &expected()), RetryDecision::Done(CheckOutcome::Fail));
}

#[test]
fn failures_within_budget_then_success_passes() {
    // Two transport failures (k = 2 <= r = 2), then a good response: the
    // budget is consumed but not exhausted, and the run passes in 3 attempts.
    let events = vec![
        QueryEvent::TransportFailed,
        QueryEvent::TransportFailed,
        QueryEvent::Response(vec![AnswerData::A(expected())]),
    ];
    let run = run_check_events(&events, &expected(), DEFAULT_RETRIES);
    assert_eq!(run, Some((CheckOutcome::Pass, 3)));
}

#[test]
fn one_failure_then_success_passes_in_two_attempts() {
    let events = vec![
        QueryEvent::TransportFailed,
        QueryEvent::Response(vec![AnswerData::A(expected())]),
    ];
    let run = run_check_events(&events, &expected(), DEFAULT_RETRIES);
    assert_eq!(run, Some((CheckOutcome::Pass, 2)));
}

#[test]
fn transport_failure_on_every_attempt_fails_after_budget_plus_one() {
    // Failing through the whole budget r = 2 yields Fail after exactly
    // r + 1 = 3 attempts; later events are never reached.
    let events = vec![
        QueryEvent::TransportFailed,
        QueryEvent::TransportFailed,
        QueryEvent::TransportFailed,
        QueryEvent::Response(vec![AnswerData::A(expected())]),
    ];
    let run = run_check_events(&events, &expected(), DEFAULT_RETRIES);
    assert_eq!(run, Some((CheckOutcome::Fail, 3)));
}

#[test]
fn mismatch_is_final_and_never_retried() {
    // A response with the wrong address fails in one attempt even though
    // budget remains and a matching response would have followed.
    let events = vec![
        QueryEvent::Response(vec![AnswerData::A(other())]),
        QueryEvent::Response(vec![AnswerData::A(expected())]),
    ];
    let run = run_check_events(&events, &expected(), DEFAULT_RETRIES);
    assert_eq!(run, Some((CheckOutcome::Fail, 1)));
}

#[test]
fn empty_response_is_final_failure_without_retry() {
    let events = vec![
        QueryEvent::Response(Vec::new()),
        QueryEvent::Response(vec![AnswerData::A(expected())]),
    ];
    let run = run_check_events(&events, &expected(), DEFAULT_RETRIES);
    assert_eq!(run, Some((CheckOutcome::Fail, 1)));
}

#[test]
fn run_is_undecided_when_events_end_early() {
    let events = vec![QueryEvent::TransportFailed];
    let run = run_check_events(&events, &expected(), DEFAULT_RETRIES);
    assert_eq!(run, None);
}
