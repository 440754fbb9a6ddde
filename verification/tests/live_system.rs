use process_telemetry::MySystem;
use process_telemetry::Signal;
use process_telemetry::SortBy;
use process_telemetry::SortOrder;

// A pid the OS cannot have handed out: Linux pids stay far below this, and
// the engine promises absent results, not failures, for unknown pids.
const NO_SUCH_PID: u32 = 4_000_000_000;

#[test]
fn listing_is_sorted_by_pid() {
    let mut sys = MySystem::new_all();
    let procs = sys.processes(SortBy::PID, SortOrder::Asc);
    for w in procs.windows(2) {
        assert!(w[0].pid <= w[1].pid);
    }
}

#[test]
fn listing_is_sorted_by_memory_descending() {
    let mut sys = MySystem::new_all();
    let procs = sys.processes(SortBy::Memory, SortOrder::Desc);
    for w in procs.windows(2) {
        assert!(w[0].memory_usage >= w[1].memory_usage);
    }
}

#[test]
fn listing_pids_are_unique() {
    let mut sys = MySystem::new_all();
    let procs = sys.processes(SortBy::PID, SortOrder::Asc);
    for w in procs.windows(2) {
        assert!(w[0].pid != w[1].pid);
    }
}

#[test]
fn memory_usage_reports_a_real_total() {
    let mut sys = MySystem::new_all();
    let (total, _used) = sys.memory_usage();
    assert!(total > 0);
}

#[test]
fn network_usage_returns_counters() {
    let mut sys = MySystem::new_all();
    let (_rx, _tx) = sys.network_usage();
}

#[test]
fn send_signal_to_nonexistent_pid_is_false() {
    let sys = MySystem::new_all();
    assert!(!sys.send_signal(NO_SUCH_PID, Signal::Kill));
}

#[test]
fn details_of_nonexistent_pid_are_absent() {
    let sys = MySystem::new_all();
    assert!(sys.process_details(NO_SUCH_PID).is_none());
}

#[test]
fn parent_of_nonexistent_pid_is_absent() {
    let sys = MySystem::new_all();
    assert!(sys.parent_pid(NO_SUCH_PID).is_none());
}
