//! Partitioning the port space among workers.
//!
//! Worker `i` of `worker_count` owns the residue class of `i` modulo
//! `worker_count`. The classes of offsets `0 .. worker_count` cover every
//! port exactly once, so the workers together probe the whole port space
//! with no gap and no overlap.

use crate::strictly_ascending;
use crate::target::ScanTarget;
use vstd::prelude::*;

verus! {

broadcast use vstd::seq_lib::lemma_seq_contains_after_push;

/// Port `p` belongs to the residue class of `offset` modulo `stride`.
pub open spec fn in_class(p: int, offset: int, stride: int) -> bool {
    p % stride == offset
}

/// Partition coverage: every port lies in exactly one of the `worker_count`
/// residue classes, so the workers' shares cover the port space with no gap
/// and no overlap.
pub proof fn lemma_partition_coverage(p: int, worker_count: int)
    requires
        0 <= p,
        1 <= worker_count,
    ensures
        exists|i: int| 0 <= i < worker_count && in_class(p, i, worker_count),
        forall|i: int, j: int|
            0 <= i < worker_count && 0 <= j < worker_count && in_class(p, i, worker_count)
                && in_class(p, j, worker_count) ==> i == j,
{
    let i = p % worker_count;
    vstd::arithmetic::div_mod::lemma_mod_bound(p, worker_count);
    assert(0 <= i < worker_count && in_class(p, i, worker_count));
}

/// Two distinct members of one residue class lie at least `stride` apart.
proof fn lemma_class_gap(p: int, q: int, offset: int, stride: int)
    requires
        1 <= stride,
        in_class(p, offset, stride),
        in_class(q, offset, stride),
        p < q,
    ensures
        p + stride <= q,
{
    let dp = p / stride;
    let dq = q / stride;
    vstd::arithmetic::div_mod::lemma_fundamental_div_mod(p, stride);
    vstd::arithmetic::div_mod::lemma_fundamental_div_mod(q, stride);
    assert(stride * dp < stride * dq);
    assert(dp < dq) by (nonlinear_arith)
        requires
            stride >= 1,
            stride * dp < stride * dq,
    ;
    assert(stride * (dp + 1) <= stride * dq) by (nonlinear_arith)
        requires
            stride >= 1,
            dp < dq,
    ;
    assert(stride * (dp + 1) == stride * dp + stride) by (nonlinear_arith);
}

/// A nonnegative member of the class of `offset` is at least `offset`.
proof fn lemma_class_min(p: int, offset: int, stride: int)
    requires
        0 <= p,
        1 <= stride,
        0 <= offset < stride,
        in_class(p, offset, stride),
    ensures
        offset <= p,
{
    vstd::arithmetic::div_mod::lemma_fundamental_div_mod(p, stride);
    vstd::arithmetic::div_mod::lemma_div_pos_is_pos(p, stride);
    assert(stride * (p / stride) >= 0) by (nonlinear_arith)
        requires
            stride >= 1,
            p / stride >= 0,
    ;
}

/// One worker's share of a scan: the residue class of `offset` modulo
/// `stride` within the port range, probed against `target.address`.
/// Constructed once per worker at scan start; never mutated.
#[derive(Clone, Copy, Debug)]
pub struct WorkerAssignment {
    pub target: ScanTarget,
    pub offset: u16,
    pub stride: u16,
}

impl WorkerAssignment {
    /// The stride is the scan's worker count and the offset is one of the
    /// `stride` distinct worker positions.
    pub open spec fn wf(self) -> bool {
        &&& self.target.wf()
        &&& self.stride == self.target.worker_count
        &&& self.offset < self.stride
    }

    /// The assignment of worker `offset` out of `target.worker_count`.
    pub fn new(target: ScanTarget, offset: u16) -> (r: WorkerAssignment)
        requires
            target.wf(),
            offset < target.worker_count,
        ensures
            r.wf(),
            r.target == target,
            r.offset == offset,
            r.stride == target.worker_count,
    {
        WorkerAssignment { target, offset, stride: target.worker_count }
    }

    /// The ports this worker must probe: every port of its residue class,
    /// each exactly once, in ascending order — including the topmost
    /// in-range member of the class.
    pub fn ports(&self) -> (r: Vec<u16>)
        requires
            self.wf(),
        ensures
            strictly_ascending(r@),
            forall|p: u16| r@.contains(p) <==> in_class(
                p as int,
                self.offset as int,
                self.stride as int,
            ),
    {
        let o = self.offset;
        let s = self.stride;
        proof {
            vstd::arithmetic::div_mod::lemma_small_mod(o as nat, s as nat);
        }
        let mut port: u32 = o as u32;
        let mut r: Vec<u16> = Vec::new();
        proof {
            assert forall|p: u16|
                !(in_class(p as int, o as int, s as int) && (p as int) < port as int) by {
                if in_class(p as int, o as int, s as int) {
                    lemma_class_min(p as int, o as int, s as int);
                }
            }
        }
        while port <= 65535
            invariant
                1 <= s,
                o < s,
                o as int <= port as int <= 65535 + s as int,
                port as int % s as int == o as int,
                strictly_ascending(r@),
                forall|k: int| 0 <= k < r@.len() ==> (r@[k] as int) < port as int,
                forall|p: u16| r@.contains(p) <==> (in_class(p as int, o as int, s as int)
                    && (p as int) < port as int),
            decreases 65535 + s as int - port as int,
        {
            r.push(port as u16);
            let next = port + s as u32;
            proof {
                vstd::arithmetic::div_mod::lemma_mod_add_multiples_vanish(
                    port as int,
                    s as int,
                );
                assert forall|p: u16|
                    in_class(p as int, o as int, s as int) && (p as int)
                        < next as int implies r@.contains(p) by {
                    if (port as int) < (p as int) {
                        lemma_class_gap(port as int, p as int, o as int, s as int);
                    }
                }
            }
            port = next;
        }
        proof {
            assert forall|p: u16|
                r@.contains(p) <==> in_class(p as int, o as int, s as int) by {
                assert(p as int <= 65535 < port as int);
            }
        }
        r
    }

    /// The worker's report stream: the open ports of its residue class, in
    /// ascending order. `is_open` is the open-port oracle — entry `p`
    /// answers whether port `p` accepts a connection within the timeout;
    /// a probe that fails in any way reports nothing.
    pub fn open_ports(&self, is_open: &Vec<bool>) -> (r: Vec<u16>)
        requires
            self.wf(),
            is_open.len() == crate::PORT_COUNT,
        ensures
            strictly_ascending(r@),
            forall|p: u16| r@.contains(p) <==> (in_class(
                p as int,
                self.offset as int,
                self.stride as int,
            ) && is_open@[p as int]),
    {
        let o = self.offset;
        let s = self.stride;
        proof {
            vstd::arithmetic::div_mod::lemma_small_mod(o as nat, s as nat);
        }
        let mut port: u32 = o as u32;
        let mut r: Vec<u16> = Vec::new();
        proof {
            assert forall|p: u16|
                !(in_class(p as int, o as int, s as int) && (p as int) < port as int) by {
                if in_class(p as int, o as int, s as int) {
                    lemma_class_min(p as int, o as int, s as int);
                }
            }
        }
        while port <= 65535
            invariant
                1 <= s,
                o < s,
                is_open@.len() == crate::PORT_COUNT,
                o as int <= port as int <= 65535 + s as int,
                port as int % s as int == o as int,
                strictly_ascending(r@),
                forall|k: int| 0 <= k < r@.len() ==> (r@[k] as int) < port as int,
                forall|p: u16| r@.contains(p) <==> (in_class(p as int, o as int, s as int)
                    && (p as int) < port as int && is_open@[p as int]),
            decreases 65535 + s as int - port as int,
        {
            if is_open[port as usize] {
                r.push(port as u16);
            }
            let next = port + s as u32;
            proof {
                vstd::arithmetic::div_mod::lemma_mod_add_multiples_vanish(
                    port as int,
                    s as int,
                );
                assert forall|p: u16|
                    in_class(p as int, o as int, s as int) && (p as int) < next as int
                        && is_open@[p as int] implies r@.contains(p) by {
                    if (port as int) < (p as int) {
                        lemma_class_gap(port as int, p as int, o as int, s as int);
                    }
                }
            }
            port = next;
        }
        proof {
            assert forall|p: u16|
                r@.contains(p) <==> (in_class(p as int, o as int, s as int)
                    && is_open@[p as int]) by {
                assert(p as int <= 65535 < port as int);
            }
        }
        r
    }
}

} // verus!
