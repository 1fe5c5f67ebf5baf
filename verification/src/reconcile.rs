//! Planning how an outage report is filed against the issue tracker.
//!
//! The tracker calls themselves are I/O and happen outside this crate. A
//! caller lists the currently open issues, hands them in as plain titles and
//! URLs, and gets back the one action to perform: append a comment to the
//! first open issue whose title carries the marker, or create a new issue
//! when none does.

use vstd::prelude::*;

verus! {

/// The fixed marker identifying this system's tracker issues.
pub open spec fn spec_marker() -> Seq<char> {
    "Outage Report"@
}

/// The marker string: new issues take it as their title, and an open issue
/// belongs to this system exactly when its title contains it.
pub fn issue_marker() -> (r: &'static str)
    ensures
        r@ == spec_marker(),
{
    "Outage Report"
}

/// `pat` occurs in `text` starting at index `i`.
pub open spec fn contains_at(text: Seq<char>, pat: Seq<char>, i: int) -> bool {
    &&& 0 <= i
    &&& i + pat.len() <= text.len()
    &&& text.subrange(i, i + pat.len()) == pat
}

/// `pat` occurs somewhere in `text` (case-sensitive; the empty pattern
/// occurs in every text).
pub open spec fn spec_contains(text: Seq<char>, pat: Seq<char>) -> bool {
    exists|i: int| contains_at(text, pat, i)
}

/// Whether `pat` occurs in `text` at index `start`.
fn matches_at(text: &str, pat: &str, start: usize) -> (r: bool)
    requires
        start + pat@.len() <= text@.len(),
    ensures
        r == contains_at(text@, pat@, start as int),
{
    let n = text.unicode_len();
    let m = pat.unicode_len();
    let mut j: usize = 0;
    while j < m
        invariant
            n == text@.len(),
            m == pat@.len(),
            start + m <= n,
            0 <= j <= m,
            forall|k: int| 0 <= k < j ==> text@[start + k] == pat@[k],
        decreases m - j,
    {
        if text.get_char(start + j) != pat.get_char(j) {
            proof {
                assert(text@.subrange(start as int, start + pat@.len())[j as int] == text@[start
                    + j]);
            }
            return false;
        }
        j += 1;
    }
    proof {
        assert(text@.subrange(start as int, start + pat@.len()) =~= pat@);
    }
    true
}

/// Whether `pat` occurs anywhere in `text`.
pub fn contains_str(text: &str, pat: &str) -> (r: bool)
    ensures
        r == spec_contains(text@, pat@),
{
    let n = text.unicode_len();
    let m = pat.unicode_len();
    if m > n {
        return false;
    }
    if m == 0 {
        proof {
            assert(text@.subrange(0, 0) =~= pat@);
            assert(contains_at(text@, pat@, 0));
        }
        return true;
    }
    let mut i: usize = 0;
    while i <= n - m
        invariant
            n == text@.len(),
            m == pat@.len(),
            1 <= m <= n,
            0 <= i <= n - m + 1,
            forall|k: int| 0 <= k < i ==> !contains_at(text@, pat@, k),
        decreases n - m + 1 - i,
    {
        if matches_at(text, pat, i) {
            return true;
        }
        i += 1;
    }
    false
}

/// Whether `c` is an ASCII decimal digit.
pub open spec fn spec_is_digit(c: char) -> bool {
    '0' as int <= c as int && c as int <= '9' as int
}

/// The numeric value of an ASCII decimal digit.
pub open spec fn spec_digit_value(c: char) -> int {
    c as int - '0' as int
}

/// Every character of `s` is an ASCII decimal digit.
pub open spec fn spec_all_digits(s: Seq<char>) -> bool {
    forall|i: int| 0 <= i < s.len() ==> spec_is_digit(#[trigger] s[i])
}

/// The value of `s` read as a decimal numeral, most significant digit
/// first.
pub open spec fn spec_decimal_value(s: Seq<char>) -> int
    decreases s.len(),
{
    if s.len() == 0 {
        0
    } else {
        spec_decimal_value(s.drop_last()) * 10 + spec_digit_value(s.last())
    }
}

/// The part of `s` after its last `/`; all of `s` when it has none.
pub open spec fn spec_url_tail(s: Seq<char>) -> Seq<char>
    decreases s.len(),
{
    if s.len() == 0 {
        Seq::empty()
    } else if s.last() == '/' {
        Seq::empty()
    } else {
        spec_url_tail(s.drop_last()).push(s.last())
    }
}

/// The issue number carried by an issue URL: the decimal value of the part
/// after the last `/`, provided that part is a nonempty run of digits whose
/// value fits in a `u64`.
pub open spec fn spec_issue_number(url: Seq<char>) -> Option<u64> {
    let tail = spec_url_tail(url);
    if tail.len() > 0 && spec_all_digits(tail) && spec_decimal_value(tail) <= u64::MAX {
        Some(spec_decimal_value(tail) as u64)
    } else {
        None
    }
}

/// When no `/` occurs in `s` at index `p` or later, and `p` sits just after
/// a `/` (or at the start), the tail after the last `/` is `s` from `p` on.
proof fn lemma_url_tail_subrange(s: Seq<char>, p: int)
    requires
        0 <= p <= s.len(),
        forall|j: int| p <= j < s.len() ==> s[j] != '/',
        p > 0 ==> s[p - 1] == '/',
    ensures
        spec_url_tail(s) == s.subrange(p, s.len() as int),
    decreases s.len(),
{
    if s.len() == 0 {
        assert(s.subrange(0, 0) =~= Seq::<char>::empty());
    } else if p == s.len() {
        assert(s.last() == '/');
        assert(s.subrange(p, s.len() as int) =~= Seq::<char>::empty());
    } else {
        assert(s.last() != '/');
        lemma_url_tail_subrange(s.drop_last(), p);
        assert(s.subrange(p, s.len() as int) =~= s.drop_last().subrange(
            p,
            s.len() - 1,
        ).push(s.last()));
    }
}

/// A numeral of digits has a nonnegative value.
proof fn lemma_decimal_value_nonneg(s: Seq<char>)
    requires
        spec_all_digits(s),
    ensures
        spec_decimal_value(s) >= 0,
    decreases s.len(),
{
    if s.len() > 0 {
        assert(spec_all_digits(s.drop_last()));
        lemma_decimal_value_nonneg(s.drop_last());
    }
}

/// Reading more digits never shrinks the value: the value of a prefix is a
/// lower bound on the value of the whole numeral.
proof fn lemma_decimal_value_prefix(s: Seq<char>, k: int)
    requires
        0 <= k <= s.len(),
        spec_all_digits(s),
    ensures
        spec_decimal_value(s.take(k)) <= spec_decimal_value(s),
    decreases s.len() - k,
{
    if k == s.len() {
        assert(s.take(k) =~= s);
    } else {
        assert(s.take(k + 1).drop_last() =~= s.take(k));
        assert(s.take(k + 1).last() == s[k]);
        assert(spec_all_digits(s.take(k))) by {
            assert(forall|i: int| 0 <= i < k ==> s.take(k)[i] == s[i]);
        }
        lemma_decimal_value_nonneg(s.take(k));
        assert(spec_decimal_value(s.take(k + 1)) == spec_decimal_value(s.take(k)) * 10
            + spec_digit_value(s[k]));
        lemma_decimal_value_prefix(s, k + 1);
    }
}

/// Read the issue number out of an issue URL, as [`spec_issue_number`]
/// states it: `None` when the part after the last `/` is empty, holds a
/// non-digit, or overflows a `u64`.
pub fn parse_issue_number(url: &str) -> (r: Option<u64>)
    ensures
        r == spec_issue_number(url@),
{
    let n = url.unicode_len();
    // Find the position just after the last '/'.
    let mut p: usize = 0;
    let mut i: usize = 0;
    while i < n
        invariant
            n == url@.len(),
            0 <= p <= i <= n,
            p > 0 ==> url@[p - 1] == '/',
            forall|j: int| p <= j < i ==> url@[j] != '/',
        decreases n - i,
    {
        if url.get_char(i) == '/' {
            p = i + 1;
        }
        i += 1;
    }
    proof {
        lemma_url_tail_subrange(url@, p as int);
    }
    let ghost tail = url@.subrange(p as int, n as int);
    if p == n {
        return None;
    }
    let mut acc: u64 = 0;
    let mut i: usize = p;
    while i < n
        invariant
            n == url@.len(),
            0 <= p <= i <= n,
            p < n,
            tail == url@.subrange(p as int, n as int),
            spec_url_tail(url@) == tail,
            spec_all_digits(url@.subrange(p as int, i as int)),
            acc == spec_decimal_value(url@.subrange(p as int, i as int)),
        decreases n - i,
    {
        let c = url.get_char(i);
        let v = c as u32;
        proof {
            assert(url@[i as int] == c);
            assert(c as int == v as int);
        }
        if v < '0' as u32 || v > '9' as u32 {
            proof {
                assert(!spec_is_digit(c));
                assert(tail[i - p] == url@[i as int]);
                assert(!spec_all_digits(tail));
            }
            return None;
        }
        let d = (v - '0' as u32) as u64;
        proof {
            assert(spec_is_digit(c));
            assert(d == spec_digit_value(c));
            let grown = url@.subrange(p as int, i as int + 1);
            assert(grown.drop_last() =~= url@.subrange(p as int, i as int));
            assert(grown.last() == url@[i as int]);
            assert(spec_all_digits(grown)) by {
                assert(forall|k: int| 0 <= k < grown.len() - 1 ==> grown[k] == url@.subrange(
                    p as int,
                    i as int,
                )[k]);
                assert(grown[grown.len() - 1] == c);
            }
            assert(spec_decimal_value(grown) == acc * 10 + d);
        }
        if acc > u64::MAX / 10 || (acc == u64::MAX / 10 && d > u64::MAX % 10) {
            proof {
                let grown = url@.subrange(p as int, i as int + 1);
                assert(acc * 10 + d > u64::MAX);
                if spec_all_digits(tail) {
                    assert(grown =~= tail.take(i + 1 - p));
                    lemma_decimal_value_prefix(tail, i + 1 - p);
                    assert(spec_decimal_value(tail) > u64::MAX);
                }
            }
            return None;
        }
        proof {
            assert(acc * 10 + d <= u64::MAX);
        }
        acc = acc * 10 + d;
        i += 1;
    }
    proof {
        assert(url@.subrange(p as int, i as int) =~= tail);
        assert(spec_decimal_value(tail) == acc);
    }
    Some(acc)
}

/// One open tracker issue, as the list API returned it: its title and its
/// web URL, whose final path segment is the issue number.
pub struct TrackedIssue {
    pub title: String,
    pub url: String,
}

/// This issue belongs to the monitoring system: its title contains the
/// marker.
pub open spec fn issue_matches(issue: TrackedIssue) -> bool {
    spec_contains(issue.title@, spec_marker())
}

/// Some open issue carries the marker.
pub open spec fn has_marker_match(issues: Seq<TrackedIssue>) -> bool {
    exists|i: int| 0 <= i < issues.len() && issue_matches(#[trigger] issues[i])
}

/// The one tracker call to perform for a report.
pub enum ReconcileAction {
    CreateIssue { title: String, body: String },
    CreateComment { issue_number: u64, body: String },
}

/// Reconciliation could not be planned; the run must abort.
#[derive(Clone, Copy, PartialEq, Eq, Structural, Debug)]
pub enum ReconcileError {
    UnparseableIssueUrl,
}

/// Decide how the report is filed, from the open issues the tracker
/// returned, in its order: append a comment to the first issue whose title
/// contains the marker, and only when none matches create a new issue with
/// the marker as title; either way the report is the body, unchanged. An
/// error arises only when the first matching issue's URL yields no issue
/// number.
pub fn plan_reconciliation(open_issues: &Vec<TrackedIssue>, report: &str) -> (r: Result<
    ReconcileAction,
    ReconcileError,
>)
    ensures
        match r {
            Ok(ReconcileAction::CreateIssue { title, body }) => {
                &&& !has_marker_match(open_issues@)
                &&& title@ == spec_marker()
                &&& body@ == report@
            },
            Ok(ReconcileAction::CreateComment { issue_number, body }) => {
                &&& exists|i: int|
                    {
                        &&& 0 <= i < open_issues@.len()
                        &&& issue_matches(#[trigger] open_issues@[i])
                        &&& forall|j: int| 0 <= j < i ==> !issue_matches(#[trigger] open_issues@[j])
                        &&& spec_issue_number(open_issues@[i].url@) == Some(issue_number)
                    }
                &&& body@ == report@
            },
            Err(e) => {
                &&& e == ReconcileError::UnparseableIssueUrl
                &&& exists|i: int|
                    {
                        &&& 0 <= i < open_issues@.len()
                        &&& issue_matches(#[trigger] open_issues@[i])
                        &&& forall|j: int| 0 <= j < i ==> !issue_matches(#[trigger] open_issues@[j])
                        &&& spec_issue_number(open_issues@[i].url@) is None
                    }
            },
        },
{
    let marker = issue_marker();
    let mut idx: usize = 0;
    while idx < open_issues.len()
        invariant
            0 <= idx <= open_issues@.len(),
            marker@ == spec_marker(),
            forall|j: int| 0 <= j < idx ==> !issue_matches(#[trigger] open_issues@[j]),
        decreases open_issues@.len() - idx,
    {
        if contains_str(open_issues[idx].title.as_str(), marker) {
            assert(issue_matches(open_issues@[idx as int]));
            match parse_issue_number(open_issues[idx].url.as_str()) {
                Some(number) => {
                    return Ok(
                        ReconcileAction::CreateComment {
                            issue_number: number,
                            body: String::from_str(report),
                        },
                    );
                },
                None => {
                    return Err(ReconcileError::UnparseableIssueUrl);
                },
            }
        }
        idx += 1;
    }
    Ok(ReconcileAction::CreateIssue { title: String::from_str(marker), body: String::from_str(report) })
}

} // verus!
