use port_scanner::aggregate::aggregate;
use port_scanner::partition::WorkerAssignment;
use port_scanner::scan::make_assignments;
use port_scanner::scan::run_scan;
use port_scanner::target::ConfigError;
use port_scanner::target::IpAddress;
use port_scanner::target::ScanTarget;
use port_scanner::MAX_PORT;
use port_scanner::PORT_COUNT;

fn localhost() -> IpAddress {
    IpAddress::V4([127, 0, 0, 1])
}

fn target(worker_count: u16) -> ScanTarget {
    ScanTarget::new(localhost(), worker_count).unwrap()
}

fn all_closed() -> Vec<bool> {
    vec![false; PORT_COUNT]
}

fn open_at(ports: &[u16]) -> Vec<bool> {
    let mut is_open = all_closed();
    for &p in ports {
        is_open[p as usize] = true;
    }
    is_open
}

#[test]
fn target_accepts_positive_worker_count() {
    let t = ScanTarget::new(localhost(), 4).unwrap();
    assert_eq!(t.worker_count, 4);
    let t1 = ScanTarget::new(localhost(), 1).unwrap();
    assert_eq!(t1.worker_count, 1);
    let max = ScanTarget::new(localhost(), u16::MAX).unwrap();
    assert_eq!(max.worker_count, u16::MAX);
}

#[test]
fn target_rejects_zero_worker_count() {
    let r = ScanTarget::new(localhost(), 0);
    assert!(matches!(r, Err(ConfigError::ZeroWorkerCount)));
}

#[test]
fn assignments_one_per_worker() {
    let t = target(4);
    let assignments = make_assignments(&t);
    assert_eq!(assignments.len(), 4);
    for (i, a) in assignments.iter().enumerate() {
        assert_eq!(a.offset, i as u16);
        assert_eq!(a.stride, 4);
    }
}

#[test]
fn partition_covers_every_port_exactly_once() {
    for w in [1u16, 4, 7, u16::MAX] {
        let t = target(w);
        let mut seen = vec![0u32; PORT_COUNT];
        for a in make_assignments(&t) {
            for p in a.ports() {
                seen[p as usize] += 1;
            }
        }
        assert!(seen.iter().all(|&n| n == 1), "worker count {}", w);
    }
}

#[test]
fn worker_ports_are_its_residue_class_ascending() {
    let t = target(4);
    let a = WorkerAssignment::new(t, 3);
    let ports = a.ports();
    assert!(ports.windows(2).all(|v| v[0] < v[1]));
    assert!(ports.iter().all(|&p| p % 4 == 3));
    assert_eq!(ports.len(), 16384);
    assert_eq!(ports[0], 3);
}

#[test]
fn worker_reaches_topmost_port_of_its_class() {
    // 65535 % 3 == 0: the very last port belongs to worker 0 of 3 and must
    // not fall off the end of its traversal.
    let t = target(3);
    let a = WorkerAssignment::new(t, 0);
    let ports = a.ports();
    assert_eq!(*ports.last().unwrap(), MAX_PORT);
    let is_open = open_at(&[MAX_PORT]);
    let r = run_scan(&t, &is_open);
    assert_eq!(r.open_ports, vec![MAX_PORT]);
}

#[test]
fn worker_reports_open_ports_of_its_class_in_order() {
    let t = target(4);
    let is_open = open_at(&[22, 80, 443, 8080]);
    // Modulo 4: 80 and 8080 have residue 0, 22 has residue 2, 443 has
    // residue 3, and no open port has residue 1.
    let w0 = WorkerAssignment::new(t, 0).open_ports(&is_open);
    assert_eq!(w0, vec![80, 8080]);
    let w2 = WorkerAssignment::new(t, 2).open_ports(&is_open);
    assert_eq!(w2, vec![22]);
    let w3 = WorkerAssignment::new(t, 3).open_ports(&is_open);
    assert_eq!(w3, vec![443]);
    let w1 = WorkerAssignment::new(t, 1).open_ports(&is_open);
    assert!(w1.is_empty());
}

#[test]
fn aggregate_sorts_reports_ascending() {
    let reports = vec![8080, 22, 443, 80];
    let r = aggregate(&reports);
    assert_eq!(r.open_ports, vec![22, 80, 443, 8080]);
}

#[test]
fn aggregate_of_no_reports_is_empty() {
    let r = aggregate(&Vec::new());
    assert!(r.open_ports.is_empty());
}

#[test]
fn aggregate_drops_duplicates_defensively() {
    let reports = vec![5, 3, 5, 3, 3];
    let r = aggregate(&reports);
    assert_eq!(r.open_ports, vec![3, 5]);
}

#[test]
fn aggregate_keeps_extreme_ports() {
    let reports = vec![u16::MAX, 0];
    let r = aggregate(&reports);
    assert_eq!(r.open_ports, vec![0, u16::MAX]);
}

#[test]
fn scan_with_all_ports_closed_is_empty() {
    let t = target(5);
    let r = run_scan(&t, &all_closed());
    assert!(r.open_ports.is_empty());
}

#[test]
fn scan_finds_exactly_the_listening_ports() {
    let t = target(4);
    let is_open = open_at(&[22, 80, 8080]);
    let r = run_scan(&t, &is_open);
    assert_eq!(r.open_ports, vec![22, 80, 8080]);
}

#[test]
fn scan_result_does_not_depend_on_worker_count() {
    let is_open = open_at(&[0, 1, 22, 80, 443, 8080, 32768, 65534, 65535]);
    let single = run_scan(&target(1), &is_open);
    let eight = run_scan(&target(8), &is_open);
    assert_eq!(single.open_ports, eight.open_ports);
    assert_eq!(single.open_ports, vec![0, 1, 22, 80, 443, 8080, 32768, 65534, 65535]);
}
