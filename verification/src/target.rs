//! The scan configuration: the target address and the worker count.

use vstd::prelude::*;

verus! {

/// A target IP address, held as plain numbers: four octets for v4, eight
/// 16-bit segments for v6. The scanner never inspects the address; it only
/// carries it to the network layer, which converts it to its own form.
#[derive(Clone, Copy, Debug)]
pub enum IpAddress {
    V4([u8; 4]),
    V6([u16; 8]),
}

/// A configuration error: the scan never starts on such input.
#[derive(Clone, Copy, Debug)]
pub enum ConfigError {
    /// The worker count was zero; at least one worker is needed.
    ZeroWorkerCount,
}

/// The validated scan configuration: an address and a positive worker count.
/// Immutable once constructed; every worker reads the same value.
#[derive(Clone, Copy, Debug)]
pub struct ScanTarget {
    pub address: IpAddress,
    pub worker_count: u16,
}

impl ScanTarget {
    /// A well-formed target has at least one worker.
    pub open spec fn wf(self) -> bool {
        self.worker_count >= 1
    }

    /// Validates the configuration: accepts exactly the positive worker
    /// counts, and rejects zero with `ZeroWorkerCount`.
    pub fn new(address: IpAddress, worker_count: u16) -> (r: Result<ScanTarget, ConfigError>)
        ensures
            worker_count >= 1 ==> (r matches Ok(t)
                && t.address == address
                && t.worker_count == worker_count
                && t.wf()),
            worker_count == 0 ==> (r matches Err(e) && e is ZeroWorkerCount),
    {
        if worker_count == 0 {
            Err(ConfigError::ZeroWorkerCount)
        } else {
            Ok(ScanTarget { address, worker_count })
        }
    }
}

} // verus!
