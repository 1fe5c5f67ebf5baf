//! Deciding the outcome of a single check from what the DNS endpoint
//! returned, with a bounded retry policy on transport failure.
//!
//! The queries themselves are I/O and happen outside this crate. A caller
//! drives one check by issuing a query, handing the result in as a
//! [`QueryEvent`], and following the [`RetryDecision`] it gets back; or, with
//! the events of a whole run in hand, by calling [`run_check_events`].

use vstd::prelude::*;

use crate::inventory::Ipv4;

verus! {

/// The default retry budget: up to this many retries after the first
/// attempt, so up to three attempts in all.
pub const DEFAULT_RETRIES: usize = 2;

/// The binary outcome of one check. Deliberately carries no error detail:
/// transport failure, an empty or non-A answer, and an address mismatch all
/// collapse to `Fail`.
#[derive(Clone, Copy, PartialEq, Eq, Structural, Debug)]
pub enum CheckOutcome {
    Pass,
    Fail,
}

/// The data of one answer record, reduced to what the check reads: an A
/// record's address, or anything else.
#[derive(Clone, Copy, PartialEq, Eq, Structural, Debug)]
pub enum AnswerData {
    A(Ipv4),
    Other,
}

/// What one query attempt produced: a transport or protocol failure with no
/// response, or a response with its answer records in order.
pub enum QueryEvent {
    TransportFailed,
    Response(Vec<AnswerData>),
}

/// The answer records of a response event; the empty sequence for a
/// transport failure.
pub open spec fn event_answers(e: QueryEvent) -> Seq<AnswerData> {
    match e {
        QueryEvent::TransportFailed => Seq::empty(),
        QueryEvent::Response(answers) => answers@,
    }
}

/// The outcome decided by a response: `Pass` exactly when the first answer
/// record is an A record equal to the expected address. A response with no
/// answers, a non-A first answer, and a mismatched address are all `Fail`.
pub open spec fn spec_response_outcome(answers: Seq<AnswerData>, expected: Ipv4) -> CheckOutcome {
    if answers.len() > 0 {
        match answers[0] {
            AnswerData::A(ip) => if ip == expected {
                CheckOutcome::Pass
            } else {
                CheckOutcome::Fail
            },
            AnswerData::Other => CheckOutcome::Fail,
        }
    } else {
        CheckOutcome::Fail
    }
}

/// Decide a check from the answer records of a successful response.
pub fn response_outcome(answers: &Vec<AnswerData>, expected: &Ipv4) -> (r: CheckOutcome)
    ensures
        r == spec_response_outcome(answers@, *expected),
{
    if answers.len() == 0 {
        return CheckOutcome::Fail;
    }
    match answers[0] {
        AnswerData::A(ip) => {
            if ip == *expected {
                CheckOutcome::Pass
            } else {
                CheckOutcome::Fail
            }
        },
        AnswerData::Other => CheckOutcome::Fail,
    }
}

/// What the driver of a check must do next: the check is decided, or the
/// query must be retried with the remaining budget.
#[derive(Clone, Copy, PartialEq, Eq, Structural, Debug)]
pub enum RetryDecision {
    Done(CheckOutcome),
    Retry(usize),
}

/// The retry policy, one attempt at a time. A response decides the check at
/// once — a mismatch is final and is never retried. A transport failure is
/// retried while budget remains, and is a final `Fail` when it is spent.
pub open spec fn spec_retry_step(budget: usize, event: QueryEvent, expected: Ipv4) -> RetryDecision {
    match event {
        QueryEvent::Response(answers) => RetryDecision::Done(
            spec_response_outcome(answers@, expected),
        ),
        QueryEvent::TransportFailed => if budget == 0 {
            RetryDecision::Done(CheckOutcome::Fail)
        } else {
            RetryDecision::Retry((budget - 1) as usize)
        },
    }
}

/// Apply the retry policy to the result of one query attempt.
pub fn retry_step(budget: usize, event: &QueryEvent, expected: &Ipv4) -> (r: RetryDecision)
    ensures
        r == spec_retry_step(budget, *event, *expected),
{
    match event {
        QueryEvent::Response(answers) => RetryDecision::Done(response_outcome(answers, expected)),
        QueryEvent::TransportFailed => {
            if budget == 0 {
                RetryDecision::Done(CheckOutcome::Fail)
            } else {
                RetryDecision::Retry(budget - 1)
            }
        },
    }
}

/// The whole run of one check over the successive attempt results in
/// `events`: attempts consume events in order until a response arrives or
/// the budget is spent. `None` when the events end before the check is
/// decided; otherwise the outcome and how many attempts were made.
pub open spec fn spec_run_check(events: Seq<QueryEvent>, expected: Ipv4, budget: int) -> Option<
    (CheckOutcome, int),
>
    decreases events.len(),
{
    if events.len() == 0 {
        None
    } else {
        match events[0] {
            QueryEvent::Response(answers) => Some(
                (spec_response_outcome(answers@, expected), 1int),
            ),
            QueryEvent::TransportFailed => {
                if budget <= 0 {
                    Some((CheckOutcome::Fail, 1int))
                } else {
                    match spec_run_check(events.drop_first(), expected, budget - 1) {
                        None => None,
                        Some((outcome, attempts)) => Some((outcome, attempts + 1)),
                    }
                }
            },
        }
    }
}

/// Consuming a prefix of `i` transport failures costs `i` attempts and `i`
/// budget, and decides nothing by itself.
proof fn lemma_run_after_failed_prefix(events: Seq<QueryEvent>, expected: Ipv4, budget: int, i: int)
    requires
        0 <= i <= events.len(),
        i <= budget,
        forall|j: int| 0 <= j < i ==> events[j] is TransportFailed,
    ensures
        spec_run_check(events, expected, budget) == match spec_run_check(
            events.skip(i),
            expected,
            budget - i,
        ) {
            None => None::<(CheckOutcome, int)>,
            Some((outcome, attempts)) => Some((outcome, attempts + i)),
        },
    decreases i,
{
    if i == 0 {
        assert(events.skip(0) =~= events);
    } else {
        assert(events[0] is TransportFailed);
        lemma_run_after_failed_prefix(events.drop_first(), expected, budget - 1, i - 1);
        assert(events.drop_first().skip(i - 1) =~= events.skip(i));
    }
}

/// Run one check against the recorded attempt results in `events`, under a
/// retry budget of `retries`.
pub fn run_check_events(events: &Vec<QueryEvent>, expected: &Ipv4, retries: usize) -> (r: Option<
    (CheckOutcome, usize),
>)
    requires
        retries < usize::MAX,
    ensures
        match r {
            Some((outcome, attempts)) => spec_run_check(events@, *expected, retries as int)
                == Some((outcome, attempts as int)),
            None => spec_run_check(events@, *expected, retries as int) is None,
        },
{
    let mut i: usize = 0;
    let mut budget: usize = retries;
    loop
        invariant
            retries < usize::MAX,
            0 <= i <= events@.len(),
            i <= retries,
            budget == retries - i,
            forall|j: int| 0 <= j < i ==> (#[trigger] events@[j]) is TransportFailed,
        decreases events@.len() - i,
    {
        proof {
            lemma_run_after_failed_prefix(events@, *expected, retries as int, i as int);
        }
        if i >= events.len() {
            proof {
                assert(events@.skip(i as int) =~= Seq::<QueryEvent>::empty());
            }
            return None;
        }
        proof {
            assert(events@.skip(i as int)[0] == events@[i as int]);
        }
        match &events[i] {
            QueryEvent::Response(answers) => {
                let outcome = response_outcome(answers, expected);
                return Some((outcome, i + 1));
            },
            QueryEvent::TransportFailed => {
                if budget == 0 {
                    return Some((CheckOutcome::Fail, i + 1));
                }
                budget = budget - 1;
                i = i + 1;
            },
        }
    }
}

/// A run whose first `k` attempts fail transport, with `k` within the retry
/// budget, is decided by the response of attempt `k + 1`: the budget is
/// consumed but not exhausted, and no further attempt is made.
pub proof fn lemma_failures_then_response_decides(
    events: Seq<QueryEvent>,
    expected: Ipv4,
    retries: int,
    k: int,
)
    requires
        0 <= k <= retries,
        k < events.len(),
        forall|j: int| 0 <= j < k ==> events[j] is TransportFailed,
        events[k] is Response,
    ensures
        spec_run_check(events, expected, retries) == Some(
            (spec_response_outcome(event_answers(events[k]), expected), k + 1),
        ),
{
    lemma_run_after_failed_prefix(events, expected, retries, k);
    assert(events.skip(k)[0] == events[k]);
}

/// A run that fails transport on every attempt through the whole budget is
/// a `Fail` after exactly `retries + 1` attempts.
pub proof fn lemma_budget_exhausted_fails(events: Seq<QueryEvent>, expected: Ipv4, retries: int)
    requires
        0 <= retries < events.len(),
        forall|j: int| 0 <= j <= retries ==> events[j] is TransportFailed,
    ensures
        spec_run_check(events, expected, retries) == Some((CheckOutcome::Fail, retries + 1)),
{
    lemma_run_after_failed_prefix(events, expected, retries, retries);
    assert(events.skip(retries)[0] == events[retries]);
}

/// A first-attempt response whose first answer is an A record with the
/// wrong address is a final `Fail` after a single attempt: a mismatch is
/// never retried, whatever budget remains.
pub proof fn lemma_mismatch_is_final(
    events: Seq<QueryEvent>,
    expected: Ipv4,
    retries: int,
    actual: Ipv4,
)
    requires
        events.len() > 0,
        events[0] is Response,
        event_answers(events[0]).len() > 0,
        event_answers(events[0])[0] == AnswerData::A(actual),
        actual != expected,
    ensures
        spec_run_check(events, expected, retries) == Some((CheckOutcome::Fail, 1int)),
{
}

} // verus!
