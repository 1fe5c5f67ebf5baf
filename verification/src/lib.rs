//! Health checks for a small authoritative DNS mesh.
//!
//! The library builds the full cross product of resolution checks over a
//! name-server inventory, decides the outcome of each check from the answers a
//! DNS endpoint returned (with a bounded retry policy on transport failure),
//! renders a deterministic outage report, and plans how that report is filed
//! against an external issue tracker (append to the first matching open issue,
//! or create a new one).
//!
//! All I/O stays outside this crate: callers perform the DNS queries and the
//! tracker calls, and hand the plain results to the functions here.

pub mod executor;
pub mod inventory;
pub mod matrix;
pub mod reconcile;
pub mod report;
