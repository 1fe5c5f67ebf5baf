//! Rendering the ordered check results into the outage report string.
//!
//! The report is the literal body posted to the issue tracker, so its exact
//! bytes are part of the contract: a fixed header line, a blank line, then
//! one `PASS`/`FAIL` line per result in input order.

use vstd::prelude::*;

use crate::executor::CheckOutcome;
use crate::matrix::CheckResult;

verus! {

/// The token a result contributes to its report line.
pub open spec fn spec_outcome_token(outcome: CheckOutcome) -> Seq<char> {
    if outcome is Pass {
        "PASS"@
    } else {
        "FAIL"@
    }
}

/// The report line of one result:
/// `Server <querying-server-name> resolving <target-record-name> <PASS|FAIL>\n`.
pub open spec fn spec_result_line(result: CheckResult) -> Seq<char> {
    "Server "@ + result.check.name_server.name@ + " resolving "@
        + result.check.record_to_request@ + " "@ + spec_outcome_token(result.outcome) + "\n"@
}

/// The report lines of a result sequence, in order.
pub open spec fn spec_report_lines(results: Seq<CheckResult>) -> Seq<char>
    decreases results.len(),
{
    if results.len() == 0 {
        Seq::empty()
    } else {
        spec_result_line(results[0]) + spec_report_lines(results.drop_first())
    }
}

/// The whole report: the fixed header, a blank line, then the result lines.
pub open spec fn spec_report(results: Seq<CheckResult>) -> Seq<char> {
    "Automated outage report\n\n"@ + spec_report_lines(results)
}

/// Appending one result appends exactly its line to the rendered lines.
proof fn lemma_report_lines_push(results: Seq<CheckResult>, result: CheckResult)
    ensures
        spec_report_lines(results.push(result)) == spec_report_lines(results) + spec_result_line(
            result,
        ),
    decreases results.len(),
{
    if results.len() == 0 {
        assert(results.push(result)[0] == result);
        assert(results.push(result).drop_first() =~= Seq::<CheckResult>::empty());
        assert(spec_report_lines(Seq::<CheckResult>::empty()) == Seq::<char>::empty());
        assert(spec_report_lines(results.push(result)) == spec_result_line(result)
            + Seq::<char>::empty());
        assert(spec_report_lines(results.push(result)) =~= spec_report_lines(results)
            + spec_result_line(result));
    } else {
        assert(results.push(result)[0] == results[0]);
        assert(results.push(result).drop_first() =~= results.drop_first().push(result));
        lemma_report_lines_push(results.drop_first(), result);
        assert(spec_report_lines(results.push(result)) =~= spec_report_lines(results)
            + spec_result_line(result));
    }
}

/// Render the line of one result.
pub fn format_result_line(result: &CheckResult) -> (s: String)
    ensures
        s@ == spec_result_line(*result),
{
    let mut s = String::from_str("Server ");
    s.append(result.check.name_server.name.as_str());
    s.append(" resolving ");
    s.append(result.check.record_to_request.as_str());
    s.append(" ");
    match result.outcome {
        CheckOutcome::Pass => s.append("PASS"),
        CheckOutcome::Fail => s.append("FAIL"),
    }
    s.append("\n");
    proof {
        assert(s@ =~= spec_result_line(*result));
    }
    s
}

/// Render the ordered results into the outage report, byte for byte as
/// `spec_report` states it: the output is a pure function of the input.
pub fn format_check_results(results: &Vec<CheckResult>) -> (s: String)
    ensures
        s@ == spec_report(results@),
{
    let mut s = String::from_str("Automated outage report\n\n");
    let mut idx: usize = 0;
    while idx < results.len()
        invariant
            0 <= idx <= results@.len(),
            s@ == spec_report(results@.take(idx as int)),
        decreases results@.len() - idx,
    {
        let line = format_result_line(&results[idx]);
        s.append(line.as_str());
        proof {
            assert(results@.take(idx as int).push(results@[idx as int]) =~= results@.take(
                idx as int + 1,
            ));
            lemma_report_lines_push(results@.take(idx as int), results@[idx as int]);
            assert(s@ =~= spec_report(results@.take(idx as int + 1)));
        }
        idx += 1;
    }
    proof {
        assert(results@.take(results@.len() as int) =~= results@);
    }
    s
}

/// The formatter is deterministic and idempotent: the report is a function
/// of the ordered results alone, so the same results — on the same run or
/// across runs — always render to the same string, byte for byte.
pub proof fn lemma_report_deterministic(a: Seq<CheckResult>, b: Seq<CheckResult>)
    requires
        a == b,
    ensures
        spec_report(a) == spec_report(b),
{
}

} // verus!
