//! The snapshot store.
//!
//! A `MySystem` exclusively owns one handle on the OS process source and one
//! on the network interface list; every refresh mutates the handles' caches,
//! so the store is meant to be owned by one caller at a time, never shared.
//! All OS queries go through the `sysinfo` crate behind the trusted wrappers
//! in this module; everything the engine decides about what came back —
//! filtering, normalization bookkeeping, ordering, assembly, summation — is
//! verified code in the other modules.

use vstd::prelude::*;

use crate::cpu::norm_of;
use crate::details::ProcessDetails;
use crate::details::RawProcessDetails;
use crate::details::details_from_raw;
use crate::order::SortBy;
use crate::order::SortOrder;
use crate::records::MyProcess;
use crate::records::RawProcessEntry;
use crate::records::ThreadClass;
use crate::records::build_records;
use crate::records::distinct_pids;
use crate::records::distinct_pids_raw;
use crate::records::lemma_build_distinct_pids;
use crate::records::spec_build;
use crate::records::spec_normalized;
use crate::sorting::lemma_permutation_distinct_pids;
use crate::sorting::sort_records;
use crate::sorting::sorted_by;
use crate::sorting::spec_sort;
use crate::stats::capped;
use crate::stats::spec_sum_rx;
use crate::stats::spec_sum_tx;
use crate::stats::total_throughput;

verus! {

/// A portable signal intent, mapped at dispatch time to the host OS's
/// native signal space; some intents are unsupported on some platforms.
pub enum Signal {
    /// A graceful request to exit.
    Terminate,
    /// Forceful immediate termination.
    Kill,
    /// A controlling-terminal hangup notification.
    Hangup,
    /// Resume a stopped process.
    Continue,
    /// Suspend execution.
    Stop,
    /// The keyboard-interrupt equivalent.
    Interrupt,
}

#[verifier::external_type_specification]
#[verifier::external_body]
pub struct ExSystem(sysinfo::System);

#[verifier::external_type_specification]
#[verifier::external_body]
pub struct ExNetworks(sysinfo::Networks);

#[verifier::external_type_specification]
#[verifier::external_body]
pub struct ExNetworkData(sysinfo::NetworkData);

#[verifier::external_type_specification]
#[verifier::external_body]
pub struct ExProcess(sysinfo::Process);

/// Relies on sysinfo's `System::new_all`: a handle with every list
/// refreshed once.
pub assume_specification[ sysinfo::System::new_all ]() -> sysinfo::System;

/// Relies on sysinfo's `Networks::new_with_refreshed_list`: a handle on the
/// current interfaces with their counters read once.
pub assume_specification[ sysinfo::Networks::new_with_refreshed_list ]() -> sysinfo::Networks;

/// Relies on sysinfo's `System::refresh_processes_specifics`: re-reads the
/// process table with CPU and memory metrics and drops dead processes.
#[verifier::external_body]
fn refresh_processes(sys: &mut sysinfo::System) {
    sys.refresh_processes_specifics(
        sysinfo::ProcessesToUpdate::All,
        true,
        sysinfo::ProcessRefreshKind::new().with_cpu().with_memory(),
    );
}

/// Relies on std's `Div`: divides a reading by a count, in the reading's
/// own arithmetic (for the engine: IEEE-754 single-precision division of a
/// raw CPU reading by the logical core count — the normalization rule). A
/// zero count is excluded: integer instantiations would panic on it.
#[verifier::external_body]
fn div_by_count<T: core::ops::Div<Output = T> + From<u16>>(value: T, count: u16) -> T
    requires
        count >= 1,
{
    value / T::from(count)
}

/// Relies on sysinfo's process-table iteration and the per-process
/// accessors `pid`, `name`, `thread_kind`, `cpu_usage` and `memory`: one
/// plain entry per table row, in the table's own (unspecified) order. The
/// table is a map keyed by pid, so the handed-out pids are pairwise
/// distinct. Each row carries its raw CPU reading, the logical core count,
/// and the normalized reading — the raw reading divided by the core count
/// with IEEE-754 single-precision division, which is what `norm_of` names.
/// The name is decoded only where it is valid text. The core count is
/// clamped to what a row can carry: at least one — a zero count is an OS
/// invariant violation, and this engine has no failure path to escalate it
/// on, so such readings pass through unnormalized rather than divided by
/// zero — and at most the largest `u16`. Each row stores the divisor
/// actually used.
#[verifier::external_body]
fn collect_raw(sys: &sysinfo::System) -> (r: Vec<RawProcessEntry>)
    ensures
        forall|i: int|
            0 <= i < r@.len() ==> (#[trigger] r@[i]).cpu_bits == norm_of(
                r@[i].raw_cpu_bits,
                r@[i].cores,
            ),
        forall|i: int, j: int| 0 <= i < j < r@.len() ==> r@[i].pid != r@[j].pid,
{
    let cores = sys.cpus().len().clamp(1, 65535) as u16;
    sys.processes().values().map(|p| RawProcessEntry {
        pid: p.pid().as_u32(),
        name: p.name().to_str().map(|s| s.to_string()),
        thread_class: match p.thread_kind() {
            Some(sysinfo::ThreadKind::Kernel) => ThreadClass::Kernel,
            Some(sysinfo::ThreadKind::Userland) => ThreadClass::Userland,
            None => ThreadClass::Unclassified,
        },
        raw_cpu_bits: p.cpu_usage().to_bits(),
        cores,
        cpu_bits: div_by_count(p.cpu_usage(), cores).to_bits(),
        memory: p.memory(),
    }).collect()
}

/// Relies on sysinfo's `System::refresh_memory_specifics`: re-reads the RAM
/// figures.
#[verifier::external_body]
fn refresh_memory(sys: &mut sysinfo::System) {
    sys.refresh_memory_specifics(sysinfo::MemoryRefreshKind::new().with_ram());
}

/// Relies on sysinfo's `System::total_memory`: total RAM in bytes.
#[verifier::external_body]
fn total_memory(sys: &sysinfo::System) -> u64 {
    sys.total_memory()
}

/// Relies on sysinfo's `System::used_memory`: used RAM in bytes.
#[verifier::external_body]
fn used_memory(sys: &sysinfo::System) -> u64 {
    sys.used_memory()
}

/// Relies on sysinfo's `Networks::refresh_list`: re-enumerates the live
/// interfaces and reads their counters, so an interface that disappeared
/// drops out of the next sum and a new one joins it (plain `refresh` would
/// keep the old list).
#[verifier::external_body]
fn refresh_networks(net: &mut sysinfo::Networks) {
    net.refresh_list();
}

/// Relies on sysinfo's interface iteration and `NetworkData`'s
/// `total_received` and `total_transmitted`: one pair of cumulative byte
/// counters per live interface.
#[verifier::external_body]
fn network_counters(net: &sysinfo::Networks) -> (r: Vec<(u64, u64)>) {
    net.iter().map(|(_, d)| (d.total_received(), d.total_transmitted())).collect()
}

/// Relies on sysinfo's `System::process` and `Pid::from_u32`: the process
/// with this identifier, or nothing where the current table holds none.
#[verifier::external_body]
fn find_process(sys: &sysinfo::System, pid: u32) -> Option<&sysinfo::Process> {
    sys.process(sysinfo::Pid::from_u32(pid))
}

/// Relies on sysinfo's `Process::cmd`: argv, each argument decoded only
/// where it is valid text.
#[verifier::external_body]
fn proc_cmd(p: &sysinfo::Process) -> (r: Vec<Option<String>>) {
    p.cmd().iter().map(|a| a.to_str().map(|s| s.to_string())).collect()
}

/// Relies on sysinfo's `Process::environ`: the `KEY=VALUE` entries, each
/// decoded only where it is valid text; empty where access is denied.
#[verifier::external_body]
fn proc_environ(p: &sysinfo::Process) -> (r: Vec<Option<String>>) {
    p.environ().iter().map(|e| e.to_str().map(|s| s.to_string())).collect()
}

/// Relies on sysinfo's `Process::cwd`: the working directory where the OS
/// reports one, decoded only where it is valid text.
#[verifier::external_body]
fn proc_cwd(p: &sysinfo::Process) -> (r: Option<Option<String>>) {
    p.cwd().map(|c| c.to_str().map(|s| s.to_string()))
}

/// Relies on sysinfo's `Process::virtual_memory`: virtual memory in bytes.
#[verifier::external_body]
fn proc_virtual_memory(p: &sysinfo::Process) -> u64 {
    p.virtual_memory()
}

/// Relies on sysinfo's `Process::disk_usage`: cumulative bytes read and
/// written since the process started.
#[verifier::external_body]
fn proc_disk_usage(p: &sysinfo::Process) -> (r: (u64, u64)) {
    let d = p.disk_usage();
    (d.total_read_bytes, d.total_written_bytes)
}

/// Relies on sysinfo's `Process::parent`: the parent's identifier where the
/// process has one.
#[verifier::external_body]
fn proc_parent(p: &sysinfo::Process) -> (r: Option<u32>) {
    p.parent().map(|q| q.as_u32())
}

/// Relies on sysinfo's `Process::kill_with`: nothing where the signal has
/// no mapping on this platform, otherwise whether delivery succeeded. The
/// engine's intents map one-to-one onto sysinfo's portable signal names.
#[verifier::external_body]
fn deliver(p: &sysinfo::Process, intent: &Signal) -> (r: Option<bool>) {
    p.kill_with(
        match intent {
            Signal::Terminate => sysinfo::Signal::Term,
            Signal::Kill => sysinfo::Signal::Kill,
            Signal::Hangup => sysinfo::Signal::Hangup,
            Signal::Continue => sysinfo::Signal::Continue,
            Signal::Stop => sysinfo::Signal::Stop,
            Signal::Interrupt => sysinfo::Signal::Interrupt,
        },
    )
}

/// Maps a delivery outcome to the dispatcher's boolean: `true` exactly
/// where the signal was both mappable on this platform and delivered; an
/// unsupported intent or a failed delivery is `false`, never a failure.
pub fn signal_outcome(delivery: Option<bool>) -> (r: bool)
    ensures
        r == (delivery == Some(true)),
{
    match delivery {
        Some(b) => b,
        None => false,
    }
}

/// The snapshot store: exclusively owns the handle on the OS process source
/// and the network interface list. Refreshes mutate the handles' internal
/// caches, so a store must not be shared; callers needing concurrent access
/// serialize calls through a single owner.
pub struct MySystem {
    sys: sysinfo::System,
    net: sysinfo::Networks,
}

impl MySystem {
    /// The process-source handle, named so a contract can say a refresh of
    /// something else left the stored process and memory state untouched.
    pub closed spec fn os_handle(self) -> sysinfo::System {
        self.sys
    }

    /// The network-list handle, named for the same frame purpose.
    pub closed spec fn net_handle(self) -> sysinfo::Networks {
        self.net
    }

    /// A store whose process table and interface list have been refreshed
    /// once.
    pub fn new_all() -> MySystem {
        MySystem {
            sys: sysinfo::System::new_all(),
            net: sysinfo::Networks::new_with_refreshed_list(),
        }
    }

    /// Refreshes the process table and returns the listing, ordered by the
    /// chosen key and direction: the stable sort of the records built from
    /// some raw snapshot — thread-granularity rows and undecodable names
    /// dropped, every other row carried over, every row's reading the
    /// normalized quotient of its raw reading and core count, and no two
    /// rows sharing a pid — so no two returned records share a pid either.
    /// The network-list handle is untouched.
    pub fn processes(&mut self, sorting: SortBy, sort_order: SortOrder) -> (r: Vec<MyProcess>)
        ensures
            sorted_by(r@, sorting, sort_order),
            distinct_pids(r@),
            exists|raw: Seq<RawProcessEntry>|
                r@ == #[trigger] spec_sort(spec_build(raw), sorting, sort_order)
                    && (forall|i: int| 0 <= i < raw.len() ==> spec_normalized(#[trigger] raw[i]))
                    && distinct_pids_raw(raw),
            final(self).net_handle() == old(self).net_handle(),
    {
        refresh_processes(&mut self.sys);
        let raw = collect_raw(&self.sys);
        let ghost snapshot = raw@;
        let records = build_records(raw);
        let r = sort_records(records, &sorting, &sort_order);
        proof {
            assert(r@ == spec_sort(spec_build(snapshot), sorting, sort_order)
                && (forall|i: int| 0 <= i < snapshot.len() ==> spec_normalized(#[trigger] snapshot[i]))
                && distinct_pids_raw(snapshot));
            lemma_build_distinct_pids(snapshot);
            lemma_permutation_distinct_pids(spec_build(snapshot), r@);
        }
        r
    }

    /// Refreshes and returns the system memory figures `(total, used)`, in
    /// bytes, exactly as the OS reports them (a used figure above the total
    /// is the OS's to report and the caller's to clamp for display). The
    /// network-list handle is untouched.
    pub fn memory_usage(&mut self) -> (r: (u64, u64))
        ensures
            final(self).net_handle() == old(self).net_handle(),
    {
        refresh_memory(&mut self.sys);
        (total_memory(&self.sys), used_memory(&self.sys))
    }

    /// Refreshes the interfaces and returns the aggregate `(received,
    /// transmitted)` cumulative byte counters, summed over the live
    /// interfaces — exactly the totals of some per-interface snapshot,
    /// saturating instead of overflowing. The process-source handle is
    /// untouched: refreshing the network counters leaves the stored process
    /// and memory state as it was.
    pub fn network_usage(&mut self) -> (r: (u64, u64))
        ensures
            exists|c: Seq<(u64, u64)>|
                r.0 as int == capped(#[trigger] spec_sum_rx(c)) && r.1 as int == capped(
                    spec_sum_tx(c),
                ),
            final(self).os_handle() == old(self).os_handle(),
    {
        refresh_networks(&mut self.net);
        let counters = network_counters(&self.net);
        let ghost snapshot = counters@;
        let r = total_throughput(&counters);
        proof {
            assert(r.0 as int == capped(spec_sum_rx(snapshot)) && r.1 as int == capped(
                spec_sum_tx(snapshot),
            ));
        }
        r
    }

    /// Sends a portable signal intent to the process with this identifier:
    /// `true` only where the intent was mappable on this platform and
    /// delivered to a currently-live process; a missing process, an
    /// unsupported intent or a denied delivery is `false`, never a failure.
    pub fn send_signal(&self, pid: u32, signal: Signal) -> bool {
        match find_process(&self.sys, pid) {
            None => false,
            Some(p) => signal_outcome(deliver(p, &signal)),
        }
    }

    /// Fetches the extended details of the process with this identifier:
    /// absent where the identifier does not resolve or a reported text field
    /// did not decode; otherwise assembled field by field, best-effort.
    pub fn process_details(&self, pid: u32) -> Option<ProcessDetails> {
        let p = match find_process(&self.sys, pid) {
            None => {
                return None;
            },
            Some(p) => p,
        };
        let disk = proc_disk_usage(p);
        let raw = RawProcessDetails {
            cmd: proc_cmd(p),
            virtual_memory: proc_virtual_memory(p),
            disk_read: disk.0,
            disk_write: disk.1,
            cwd: proc_cwd(p),
            env: proc_environ(p),
        };
        details_from_raw(raw)
    }

    /// The parent of the process with this identifier: absent where the
    /// identifier does not resolve or the process has no parent.
    pub fn parent_pid(&self, pid: u32) -> Option<u32> {
        match find_process(&self.sys, pid) {
            None => None,
            Some(p) => proc_parent(p),
        }
    }
}

} // verus!
