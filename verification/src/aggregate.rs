//! Aggregating the workers' reports into the final scan result.
//!
//! Workers report open ports in no particular interleaving; the aggregator
//! collects every report and orders the ports ascending. Because the ports
//! fit one bounded range, it sorts by marking each reported port in a
//! presence table and reading the table back in port order, which also
//! discards any duplicate defensively.

use crate::strictly_ascending;
use vstd::prelude::*;

verus! {

broadcast use vstd::seq_lib::lemma_seq_contains_after_push;

/// The final scan outcome: the open ports, ascending and duplicate-free.
/// Produced once, after every worker has reported, and immutable from then
/// on.
#[derive(Debug)]
pub struct ScanResult {
    pub open_ports: Vec<u16>,
}

impl ScanResult {
    /// The result lists its ports in strictly ascending order.
    pub open spec fn wf(self) -> bool {
        strictly_ascending(self.open_ports@)
    }
}

/// Merges the reports received from all workers into the final result:
/// exactly the reported ports, each exactly once, in ascending order —
/// no loss, no duplication, no injected values. The outcome does not
/// depend on the order in which the reports arrived.
pub fn aggregate(reports: &Vec<u16>) -> (r: ScanResult)
    ensures
        r.wf(),
        forall|p: u16| r.open_ports@.contains(p) <==> reports@.contains(p),
{
    let mut present: Vec<bool> = Vec::new();
    let mut i: usize = 0;
    while i < crate::PORT_COUNT
        invariant
            i <= crate::PORT_COUNT,
            present@.len() == i as int,
            forall|k: int| 0 <= k < i as int ==> !present@[k],
        decreases crate::PORT_COUNT - i,
    {
        present.push(false);
        i = i + 1;
    }
    let mut j: usize = 0;
    while j < reports.len()
        invariant
            j <= reports@.len(),
            present@.len() == crate::PORT_COUNT,
            forall|k: int| 0 <= k < j as int ==> present@[reports@[k] as int],
            forall|p: u16| present@[p as int] ==> reports@.contains(p),
        decreases reports@.len() - j,
    {
        let p = reports[j];
        present[p as usize] = true;
        proof {
            assert(reports@[j as int] == p);
            assert(reports@.contains(p));
        }
        j = j + 1;
    }
    proof {
        assert forall|p: u16| reports@.contains(p) implies present@[p as int] by {
            let k = choose|k: int| 0 <= k < reports@.len() && reports@[k] == p;
            assert(present@[reports@[k] as int]);
        }
    }
    let mut out: Vec<u16> = Vec::new();
    let mut q: usize = 0;
    while q < crate::PORT_COUNT
        invariant
            q <= crate::PORT_COUNT,
            present@.len() == crate::PORT_COUNT,
            strictly_ascending(out@),
            forall|k: int| 0 <= k < out@.len() ==> (out@[k] as int) < q as int,
            forall|p: u16| out@.contains(p) <==> ((p as int) < q as int && present@[p as int]),
        decreases crate::PORT_COUNT - q,
    {
        if present[q] {
            out.push(q as u16);
        }
        q = q + 1;
    }
    ScanResult { open_ports: out }
}

/// A strictly ascending sequence is determined by its members: two such
/// sequences that contain the same ports are the same sequence. This is
/// why the scan's outcome cannot depend on how the work was split or in
/// which order reports arrived.
pub proof fn lemma_ascending_unique(s1: Seq<u16>, s2: Seq<u16>)
    requires
        strictly_ascending(s1),
        strictly_ascending(s2),
        forall|p: u16| s1.contains(p) <==> s2.contains(p),
    ensures
        s1 =~= s2,
    decreases s1.len(),
{
    if s1.len() == 0 {
        if s2.len() > 0 {
            assert(s2.contains(s2[0]));
            assert(s1.contains(s2[0]));
        }
        assert(s1 =~= s2);
    } else {
        assert(s1.contains(s1[0]));
        assert(s2.contains(s2[0]));
        let i = choose|i: int| 0 <= i < s2.len() && s2[i] == s1[0];
        assert(s2[0] <= s1[0]);
        let j = choose|j: int| 0 <= j < s1.len() && s1[j] == s2[0];
        assert(s1[0] <= s2[0]);
        let t1 = s1.subrange(1, s1.len() as int);
        let t2 = s2.subrange(1, s2.len() as int);
        assert forall|p: u16| t1.contains(p) implies (s1.contains(p) && p != s1[0]) by {
            let k = choose|k: int| 0 <= k < t1.len() && t1[k] == p;
            assert(s1[k + 1] == p);
        }
        assert forall|p: u16| s1.contains(p) && p != s1[0] implies t1.contains(p) by {
            let k = choose|k: int| 0 <= k < s1.len() && s1[k] == p;
            assert(t1[k - 1] == p);
        }
        assert forall|p: u16| t2.contains(p) implies (s2.contains(p) && p != s2[0]) by {
            let k = choose|k: int| 0 <= k < t2.len() && t2[k] == p;
            assert(s2[k + 1] == p);
        }
        assert forall|p: u16| s2.contains(p) && p != s2[0] implies t2.contains(p) by {
            let k = choose|k: int| 0 <= k < s2.len() && s2[k] == p;
            assert(t2[k - 1] == p);
        }
        lemma_ascending_unique(t1, t2);
        assert(s1.len() == s2.len());
        assert forall|k: int| 0 <= k < s1.len() implies s1[k] == s2[k] by {
            if k > 0 {
                assert(t1[k - 1] == s1[k]);
                assert(t2[k - 1] == s2[k]);
            }
        }
        assert(s1 =~= s2);
    }
}

} // verus!
