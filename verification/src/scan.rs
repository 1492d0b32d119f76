//! The scan driver: splitting the port space among the workers and running
//! a whole scan against an open-port oracle.
//!
//! The real scan probes the network concurrently; everything it decides —
//! which worker probes which port, and what the final report holds — is the
//! logic below, stated over an oracle that answers what each probe would.

use crate::aggregate::ScanResult;
use crate::aggregate::aggregate;
use crate::partition::WorkerAssignment;
use crate::partition::in_class;
use crate::target::ScanTarget;
use vstd::prelude::*;

verus! {

broadcast use vstd::seq_lib::lemma_seq_concat_contains_all_elements;

/// One assignment per worker: worker `i` gets offset `i` with stride
/// `worker_count`, for every `i` below `worker_count`. Workers start
/// concurrently; each owns exactly its own residue class.
pub fn make_assignments(target: &ScanTarget) -> (r: Vec<WorkerAssignment>)
    requires
        target.wf(),
    ensures
        r@.len() == target.worker_count as int,
        forall|k: int| 0 <= k < r@.len() ==> {
            &&& (#[trigger] r@[k]).wf()
            &&& r@[k].target == *target
            &&& r@[k].offset as int == k
            &&& r@[k].stride == target.worker_count
        },
{
    let w = target.worker_count;
    let mut r: Vec<WorkerAssignment> = Vec::new();
    let mut i: u16 = 0;
    while i < w
        invariant
            i <= w,
            target.wf(),
            w == target.worker_count,
            r@.len() == i as int,
            forall|k: int| 0 <= k < r@.len() ==> {
                &&& (#[trigger] r@[k]).wf()
                &&& r@[k].target == *target
                &&& r@[k].offset as int == k
                &&& r@[k].stride == target.worker_count
            },
        decreases w - i,
    {
        r.push(WorkerAssignment::new(*target, i));
        i = i + 1;
    }
    r
}

/// Runs a whole scan against the open-port oracle `is_open` — entry `p`
/// answers whether port `p` accepts a connection within the timeout.
/// Every worker walks its residue class, every report is collected, and
/// the result is exactly the open ports, in ascending order: the outcome
/// depends on the oracle alone, not on the worker count. When no port is
/// open the result is empty.
pub fn run_scan(target: &ScanTarget, is_open: &Vec<bool>) -> (r: ScanResult)
    requires
        target.wf(),
        is_open.len() == crate::PORT_COUNT,
    ensures
        r.wf(),
        forall|p: u16| r.open_ports@.contains(p) <==> is_open@[p as int],
        (forall|p: u16| !is_open@[p as int]) ==> r.open_ports@.len() == 0,
{
    let w = target.worker_count;
    let mut reports: Vec<u16> = Vec::new();
    let mut i: u16 = 0;
    proof {
        assert forall|p: u16| #[trigger] reports@.contains(p) <==> ((p as int % w as int)
            < i as int && is_open@[p as int]) by {
            vstd::arithmetic::div_mod::lemma_mod_bound(p as int, w as int);
        }
    }
    while i < w
        invariant
            i <= w,
            1 <= w,
            target.wf(),
            w == target.worker_count,
            is_open@.len() == crate::PORT_COUNT,
            forall|p: u16| reports@.contains(p) <==> ((p as int % w as int) < i as int
                && is_open@[p as int]),
        decreases w - i,
    {
        let a = WorkerAssignment::new(*target, i);
        let mut found = a.open_ports(is_open);
        reports.append(&mut found);
        proof {
            assert forall|p: u16|
                reports@.contains(p) <==> ((p as int % w as int) < i as int + 1
                    && is_open@[p as int]) by {
                assert(in_class(p as int, i as int, w as int) <==> (p as int % w as int)
                    == i as int);
            }
        }
        i = i + 1;
    }
    proof {
        assert forall|p: u16|
            reports@.contains(p) <==> is_open@[p as int] by {
            vstd::arithmetic::div_mod::lemma_mod_bound(p as int, w as int);
        }
    }
    let r = aggregate(&reports);
    proof {
        if forall|p: u16| !is_open@[p as int] {
            if r.open_ports@.len() > 0 {
                let p0 = r.open_ports@[0];
                assert(r.open_ports@.contains(p0));
                assert(!is_open@[p0 as int]);
            }
        }
    }
    r
}

/// Worker-count invariance: two scan results for the same open-port oracle
/// are the same sequence, whatever the two worker counts were and in
/// whatever order the reports arrived — the characterization that
/// `run_scan` proves pins the result completely.
pub proof fn lemma_worker_count_invariance(r1: ScanResult, r2: ScanResult, is_open: Seq<bool>)
    requires
        r1.wf(),
        r2.wf(),
        forall|p: u16| #[trigger] r1.open_ports@.contains(p) <==> is_open[p as int],
        forall|p: u16| #[trigger] r2.open_ports@.contains(p) <==> is_open[p as int],
    ensures
        r1.open_ports@ == r2.open_ports@,
{
    assert forall|p: u16| r1.open_ports@.contains(p) <==> r2.open_ports@.contains(p) by {
        assert(r1.open_ports@.contains(p) <==> is_open[p as int]);
        assert(r2.open_ports@.contains(p) <==> is_open[p as int]);
    }
    crate::aggregate::lemma_ascending_unique(r1.open_ports@, r2.open_ports@);
}

} // verus!
