//! A process and resource telemetry engine.
//!
//! The engine enumerates the operating system's running processes, attaches
//! resource-usage metrics to each (CPU share normalized by logical core
//! count, resident memory), aggregates system-wide memory and network
//! counters, resolves extended per-process details on demand, and dispatches
//! portable signal intents against individual processes by identifier.
//!
//! All decision logic — filtering thread-granularity entries, normalizing
//! CPU readings, ordering listings, assembling detail records, summing
//! counters — is verified; the operating-system queries themselves are made
//! through the `sysinfo` crate behind a small set of trusted wrappers.

use vstd::prelude::*;

mod cpu;
mod details;
mod order;
mod records;
mod sorting;
mod stats;
mod system;

pub use cpu::CpuPercent;
pub use details::ProcessDetails;
pub use details::RawProcessDetails;
pub use details::details_from_raw;
pub use order::SortBy;
pub use order::SortOrder;
pub use records::MyProcess;
pub use records::RawProcessEntry;
pub use records::ThreadClass;
pub use records::build_records;
pub use sorting::sort_records;
pub use stats::total_throughput;
pub use system::MySystem;
pub use system::Signal;
pub use system::signal_outcome;

verus! {

/// Builds the greeting string for `name`.
pub fn greet(name: String) -> (r: String)
    ensures
        r@ == "Helloasd, "@ + name@ + "!"@,
{
    let mut r = String::from_str("Helloasd, ");
    r.append(name.as_str());
    r.append("!");
    r
}

} // verus!
