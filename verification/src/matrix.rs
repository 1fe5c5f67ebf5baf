//! Building the full cross product of checks over the inventory, and
//! aggregating the outcomes back into an ordered result list.

use vstd::prelude::*;

use crate::executor::CheckOutcome;
use crate::inventory::Ipv4;
use crate::inventory::NameServer;

verus! {

/// One A-record check: ask `name_server` for `record_to_request` and expect
/// the answer to equal `expected_ip`. The record and the expected address
/// always come from the same inventory entry (the target), while
/// `name_server` is the endpoint being queried; target and endpoint may be
/// the same server (a self-check).
pub struct Check {
    pub name_server: NameServer,
    pub record_to_request: String,
    pub expected_ip: Ipv4,
}

/// `c` is the check that queries `source` for `target`'s own record.
pub open spec fn check_corresponds(c: Check, source: NameServer, target: NameServer) -> bool {
    &&& c.name_server.name@ == source.name@
    &&& c.name_server.address == source.address
    &&& c.record_to_request@ == target.name@
    &&& c.expected_ip == target.address
}

impl NameServer {
    /// A copy of this server record with the same name and address.
    pub fn duplicate(&self) -> (r: NameServer)
        ensures
            r.name@ == self.name@,
            r.address == self.address,
    {
        NameServer { address: self.address, name: self.name.clone() }
    }
}

/// Expand the inventory into every (query source, target record) pair:
/// exactly N * N checks for N servers, in nested iteration order (outer over
/// sources, inner over targets), self-checks included. Check number `k`
/// queries server `k / N` for the record of server `k % N`.
pub fn get_checks(name_servers: &Vec<NameServer>) -> (r: Vec<Check>)
    ensures
        r@.len() == name_servers@.len() * name_servers@.len(),
        forall|k: int| 0 <= k < r@.len() ==> check_corresponds(
            #[trigger] r@[k],
            name_servers@[k / name_servers@.len() as int],
            name_servers@[k % name_servers@.len() as int],
        ),
{
    let n = name_servers.len();
    let mut checks: Vec<Check> = Vec::new();
    let mut i: usize = 0;
    while i < n
        invariant
            n == name_servers@.len(),
            0 <= i <= n,
            checks@.len() == i * n,
            forall|k: int| 0 <= k < checks@.len() ==> check_corresponds(
                #[trigger] checks@[k],
                name_servers@[k / n as int],
                name_servers@[k % n as int],
            ),
        decreases n - i,
    {
        let mut j: usize = 0;
        while j < n
            invariant
                n == name_servers@.len(),
                0 <= i < n,
                0 <= j <= n,
                checks@.len() == i * n + j,
                forall|k: int| 0 <= k < checks@.len() ==> check_corresponds(
                    #[trigger] checks@[k],
                    name_servers@[k / n as int],
                    name_servers@[k % n as int],
                ),
            decreases n - j,
        {
            proof {
                // i * n + j stays within the final matrix size, so it fits in usize.
                assert(i * n + j < n * n) by (nonlinear_arith)
                    requires 0 <= i < n && 0 <= j < n;
                assert(n * n == name_servers@.len() * name_servers@.len());
                vstd::arithmetic::div_mod::lemma_fundamental_div_mod_converse(
                    i * n + j, n as int, i as int, j as int);
            }
            let source = &name_servers[i];
            let target = &name_servers[j];
            let check = Check {
                name_server: source.duplicate(),
                record_to_request: target.name.clone(),
                expected_ip: target.address,
            };
            checks.push(check);
            j += 1;
        }
        i += 1;
        proof {
            assert((i - 1) * n + n == i * n) by (nonlinear_arith);
        }
    }
    checks
}

/// In a matrix as [`get_checks`] builds it, the check numbered
/// `i * N + j` queries source `i` for target `j`: sources vary in the outer
/// position and targets in the inner, so the order is fully determined by
/// the inventory.
pub proof fn lemma_matrix_order(checks: Seq<Check>, servers: Seq<NameServer>, i: int, j: int)
    requires
        checks.len() == servers.len() * servers.len(),
        forall|k: int| 0 <= k < checks.len() ==> check_corresponds(
            #[trigger] checks[k],
            servers[k / servers.len() as int],
            servers[k % servers.len() as int],
        ),
        0 <= i < servers.len(),
        0 <= j < servers.len(),
    ensures
        check_corresponds(checks[i * servers.len() + j], servers[i], servers[j]),
{
    let n = servers.len() as int;
    assert(0 <= i * n + j < n * n) by (nonlinear_arith)
        requires 0 <= i < n && 0 <= j < n;
    vstd::arithmetic::div_mod::lemma_fundamental_div_mod_converse(i * n + j, n, i, j);
}

/// A check paired with its outcome: the unit that flows from execution
/// through aggregation to formatting.
pub struct CheckResult {
    pub check: Check,
    pub outcome: CheckOutcome,
}

/// Pair every check with its outcome, keeping the builder's order: the k-th
/// result holds the k-th check and the k-th outcome.
pub fn aggregate_results(checks: Vec<Check>, outcomes: &Vec<CheckOutcome>) -> (r: Vec<CheckResult>)
    requires
        checks@.len() == outcomes@.len(),
    ensures
        r@.len() == outcomes@.len(),
        forall|k: int| 0 <= k < r@.len() ==> (#[trigger] r@[k]).check == checks@[k]
            && r@[k].outcome == outcomes@[k],
{
    let ghost checks_at_entry = checks@;
    let mut checks = checks;
    let mut results: Vec<CheckResult> = Vec::new();
    let mut idx: usize = 0;
    while idx < outcomes.len()
        invariant
            0 <= idx <= outcomes@.len(),
            checks_at_entry.len() == outcomes@.len(),
            checks@ == checks_at_entry.skip(idx as int),
            results@.len() == idx,
            forall|k: int| 0 <= k < idx ==> (#[trigger] results@[k]).check == checks_at_entry[k]
                && results@[k].outcome == outcomes@[k],
        decreases outcomes@.len() - idx,
    {
        proof {
            assert(checks_at_entry.skip(idx as int)[0] == checks_at_entry[idx as int]);
        }
        let check = checks.remove(0);
        let outcome = outcomes[idx];
        results.push(CheckResult { check, outcome });
        idx += 1;
        proof {
            assert(checks@ =~= checks_at_entry.skip(idx as int));
        }
    }
    results
}

/// True iff at least one result in the list is a failure.
pub fn any_failed(results: &Vec<CheckResult>) -> (r: bool)
    ensures
        r == exists|k: int| 0 <= k < results@.len() && (#[trigger] results@[k].outcome) is Fail,
{
    let mut idx: usize = 0;
    while idx < results.len()
        invariant
            0 <= idx <= results@.len(),
            forall|k: int| 0 <= k < idx ==> !((#[trigger] results@[k].outcome) is Fail),
        decreases results@.len() - idx,
    {
        if matches!(results[idx].outcome, CheckOutcome::Fail) {
            return true;
        }
        idx += 1;
    }
    false
}

} // verus!
