//! A verified core for a concurrent TCP port scanner.
//!
//! The library holds the scanner's logic: the residue-class partitioning of
//! the port space among workers, the per-worker port enumeration, and the
//! aggregation of reported open ports into one ascending result. The actual
//! network probes and the async plumbing live outside the library; the logic
//! here is stated and proved over an explicit open-port oracle, so every
//! property holds whatever the network answers.

pub mod aggregate;
pub mod partition;
pub mod scan;
pub mod target;

use vstd::prelude::*;

verus! {

/// The highest TCP port number.
pub const MAX_PORT: u16 = 65535;

/// The number of TCP ports, `0 ..= MAX_PORT`.
pub const PORT_COUNT: usize = 65536;

/// The connect budget of one probe, in seconds. A probe that has not
/// completed a handshake within this time counts as closed; the budget is
/// the same for every worker of a scan.
pub const PROBE_TIMEOUT_SECS: u64 = 5;

/// The sequence is strictly ascending: no duplicates, sorted.
pub open spec fn strictly_ascending(s: Seq<u16>) -> bool {
    forall|i: int, j: int| 0 <= i < j < s.len() ==> s[i] < s[j]
}

} // verus!
