//! Process records and the listing builder.
//!
//! A refresh hands the engine one raw entry per row of the operating
//! system's process table. The builder keeps only process-granularity rows —
//! entries the OS classifies as kernel threads or userland threads are
//! dropped, entries whose granularity is unknown are kept — and skips any
//! entry whose name could not be decoded as valid text, so that one bad row
//! never blanks the whole table.

use vstd::prelude::*;

use crate::cpu::CpuPercent;
use crate::cpu::norm_of;

verus! {

/// One live process of the most recent snapshot.
pub struct MyProcess {
    /// The platform process identifier; unique among currently-live
    /// processes, possibly reused after a process exits.
    pub pid: u32,
    /// The executable name; non-empty for resolvable processes.
    pub name: String,
    /// The CPU share of the process, normalized by the logical core count.
    pub cpu_usage: CpuPercent,
    /// Resident memory in bytes, re-sampled at each refresh.
    pub memory_usage: u64,
}

/// The granularity classification the OS gives a process-table row.
#[derive(Clone, Copy, PartialEq, Eq, Structural, Debug)]
pub enum ThreadClass {
    /// The row is a kernel thread, not a process.
    Kernel,
    /// The row is a userland thread, not a process.
    Userland,
    /// The row is a process, or its granularity is unknown.
    Unclassified,
}

/// One raw row of the OS process table, as plain values.
pub struct RawProcessEntry {
    /// The platform process identifier.
    pub pid: u32,
    /// The executable name, or `None` where it is not valid text.
    pub name: Option<String>,
    /// The OS granularity classification of the row.
    pub thread_class: ThreadClass,
    /// The bit pattern of the row's raw, unnormalized CPU reading.
    pub raw_cpu_bits: u32,
    /// The logical core count the reading was normalized by.
    pub cores: u16,
    /// The bit pattern of the row's normalized CPU percentage: for a row the
    /// snapshot boundary hands out, `norm_of(raw_cpu_bits, cores)`.
    pub cpu_bits: u32,
    /// Resident memory in bytes.
    pub memory: u64,
}

/// Whether a raw row's reading is the normalized quotient of its own raw
/// reading and core count — the Metrics Normalizer's rule, which the
/// snapshot boundary promises of every row.
pub open spec fn spec_normalized(e: RawProcessEntry) -> bool {
    e.cpu_bits == norm_of(e.raw_cpu_bits, e.cores)
}

/// Whether a raw row belongs in a listing: it must be process-granularity
/// (not a kernel or userland thread) and its name must have decoded.
pub open spec fn spec_keep(e: RawProcessEntry) -> bool {
    e.thread_class != ThreadClass::Kernel && e.thread_class != ThreadClass::Userland
        && e.name is Some
}

/// The process record a kept raw row turns into.
pub open spec fn spec_record_of(e: RawProcessEntry) -> MyProcess {
    MyProcess {
        pid: e.pid,
        name: e.name->Some_0,
        cpu_usage: CpuPercent { bits: e.cpu_bits },
        memory_usage: e.memory,
    }
}

/// The listing built from a raw snapshot: the kept rows, in snapshot order,
/// each turned into a record.
pub open spec fn spec_build(s: Seq<RawProcessEntry>) -> Seq<MyProcess> {
    s.filter(|e: RawProcessEntry| spec_keep(e)).map_values(|e: RawProcessEntry| spec_record_of(e))
}

/// Whether a raw row belongs in a listing, as executable code.
pub fn keep_entry(e: &RawProcessEntry) -> (r: bool)
    ensures
        r == spec_keep(*e),
{
    match e.thread_class {
        ThreadClass::Kernel => false,
        ThreadClass::Userland => false,
        ThreadClass::Unclassified => e.name.is_some(),
    }
}

/// Builds the listing from a raw snapshot: keeps exactly the
/// process-granularity rows with decodable names, in snapshot order.
pub fn build_records(entries: Vec<RawProcessEntry>) -> (r: Vec<MyProcess>)
    ensures
        r@ == spec_build(entries@),
{
    let ghost all = entries@;
    let mut v = entries;
    let mut out: Vec<MyProcess> = Vec::new();
    let ghost i: int = 0;
    proof {
        assert(all.take(0) =~= Seq::<RawProcessEntry>::empty());
        assert(all.take(0).filter(|e: RawProcessEntry| spec_keep(e)) =~= Seq::<
            RawProcessEntry,
        >::empty()) by {
            reveal(Seq::filter);
        }
        assert(out@ =~= spec_build(all.take(0)));
    }
    while v.len() > 0
        invariant
            0 <= i <= all.len(),
            v@ =~= all.skip(i),
            out@ == spec_build(all.take(i)),
        decreases v@.len(),
    {
        let e = v.remove(0);
        proof {
            assert(e == all[i]);
            assert(v@ =~= all.skip(i + 1));
            assert(all.take(i + 1) =~= all.take(i).push(all[i]));
            all.take(i).lemma_filter_push(e, |x: RawProcessEntry| spec_keep(x));
        }
        if keep_entry(&e) {
            let rec = MyProcess {
                pid: e.pid,
                name: match e.name {
                    Some(n) => n,
                    None => String::new(),
                },
                cpu_usage: CpuPercent { bits: e.cpu_bits },
                memory_usage: e.memory,
            };
            proof {
                assert(rec == spec_record_of(e));
            }
            out.push(rec);
            proof {
                let kept = all.take(i).filter(|x: RawProcessEntry| spec_keep(x));
                assert(kept.push(e).map_values(|x: RawProcessEntry| spec_record_of(x)) =~= kept.map_values(
                    |x: RawProcessEntry| spec_record_of(x),
                ).push(spec_record_of(e)));
                assert(out@ =~= spec_build(all.take(i + 1)));
            }
        } else {
            proof {
                assert(out@ =~= spec_build(all.take(i + 1)));
            }
        }
        proof {
            i = i + 1;
        }
    }
    proof {
        assert(all.take(all.len() as int) =~= all);
    }
    out
}

/// Whether `rec` is the record of some kept row of the raw snapshot `s` —
/// a row whose classification was neither kernel thread nor userland thread
/// and whose name decoded.
pub open spec fn from_kept_row(s: Seq<RawProcessEntry>, rec: MyProcess) -> bool {
    exists|j: int| 0 <= j < s.len() && #[trigger] spec_keep(s[j]) && rec == spec_record_of(s[j])
}

/// Filter invariant of a built listing: every record comes from a kept raw
/// row.
pub proof fn lemma_build_keeps_only_processes(s: Seq<RawProcessEntry>)
    ensures
        forall|i: int|
            0 <= i < spec_build(s).len() ==> from_kept_row(s, #[trigger] spec_build(s)[i]),
{
    let p = |e: RawProcessEntry| spec_keep(e);
    let kept = s.filter(p);
    assert forall|i: int| 0 <= i < spec_build(s).len() implies from_kept_row(
        s,
        #[trigger] spec_build(s)[i],
    ) by {
        s.lemma_filter_pred(p, i);
        lemma_filter_elements_contained(s, p, i);
        assert(s.contains(kept[i]));
        let j = choose|j: int| 0 <= j < s.len() && s[j] == kept[i];
        assert(spec_build(s)[i] == spec_record_of(kept[i]));
        assert(0 <= j < s.len() && spec_keep(s[j]) && spec_build(s)[i] == spec_record_of(s[j]));
    }
}

/// Whether `rec` is the record of some kept row of `s` whose reading is the
/// named normalized quotient of that row's raw reading and core count.
pub open spec fn from_normalized_row(s: Seq<RawProcessEntry>, rec: MyProcess) -> bool {
    exists|j: int|
        0 <= j < s.len() && #[trigger] spec_keep(s[j]) && rec == spec_record_of(s[j])
            && rec.cpu_usage.bits == norm_of(s[j].raw_cpu_bits, s[j].cores)
}

/// The normalization rule at the listing level: where every raw row carries
/// the normalized quotient of its own raw reading and core count, every
/// built record's reading is the normalized quotient of its row's.
pub proof fn lemma_build_normalized(s: Seq<RawProcessEntry>)
    requires
        forall|j: int| 0 <= j < s.len() ==> spec_normalized(#[trigger] s[j]),
    ensures
        forall|i: int|
            0 <= i < spec_build(s).len() ==> from_normalized_row(s, #[trigger] spec_build(s)[i]),
{
    let p = |e: RawProcessEntry| spec_keep(e);
    let kept = s.filter(p);
    assert forall|i: int| 0 <= i < spec_build(s).len() implies from_normalized_row(
        s,
        #[trigger] spec_build(s)[i],
    ) by {
        s.lemma_filter_pred(p, i);
        lemma_filter_elements_contained(s, p, i);
        assert(s.contains(kept[i]));
        let j = choose|j: int| 0 <= j < s.len() && s[j] == kept[i];
        assert(spec_build(s)[i] == spec_record_of(kept[i]));
        assert(spec_normalized(s[j]));
        assert(0 <= j < s.len() && spec_keep(s[j]) && spec_build(s)[i] == spec_record_of(s[j])
            && spec_build(s)[i].cpu_usage.bits == norm_of(s[j].raw_cpu_bits, s[j].cores));
    }
}

/// Whether no two raw rows share a pid — what the snapshot boundary
/// promises of a table keyed by pid.
pub open spec fn distinct_pids_raw(s: Seq<RawProcessEntry>) -> bool {
    forall|i: int, j: int| 0 <= i < j < s.len() ==> s[i].pid != s[j].pid
}

/// Whether no two records share a pid.
pub open spec fn distinct_pids(s: Seq<MyProcess>) -> bool {
    forall|i: int, j: int| 0 <= i < j < s.len() ==> s[i].pid != s[j].pid
}

/// Filtering raw rows keeps pids pairwise distinct.
proof fn lemma_filter_distinct_pids(s: Seq<RawProcessEntry>, p: spec_fn(RawProcessEntry) -> bool)
    requires
        distinct_pids_raw(s),
    ensures
        distinct_pids_raw(s.filter(p)),
    decreases s.len(),
{
    reveal(Seq::filter);
    if s.len() > 0 {
        assert forall|i: int, j: int|
            0 <= i < j < s.drop_last().len() implies s.drop_last()[i].pid != s.drop_last()[j].pid by {
            assert(s.drop_last()[i] == s[i] && s.drop_last()[j] == s[j]);
        }
        lemma_filter_distinct_pids(s.drop_last(), p);
        let rest = s.drop_last().filter(p);
        if p(s.last()) {
            let r = s.filter(p);
            assert forall|i: int, j: int| 0 <= i < j < r.len() implies r[i].pid != r[j].pid by {
                if j == r.len() - 1 {
                    lemma_filter_elements_contained::<RawProcessEntry>(s.drop_last(), p, i);
                    let m = choose|m: int|
                        0 <= m < s.drop_last().len() && s.drop_last()[m] == rest[i];
                    assert(s[m] == rest[i]);
                    assert(s[m].pid != s[s.len() - 1].pid);
                } else {
                    assert(r[i] == rest[i] && r[j] == rest[j]);
                }
            }
        }
    }
}

/// Building keeps pids pairwise distinct: one record per kept row, each
/// carrying its row's pid.
pub proof fn lemma_build_distinct_pids(s: Seq<RawProcessEntry>)
    requires
        distinct_pids_raw(s),
    ensures
        distinct_pids(spec_build(s)),
{
    let p = |e: RawProcessEntry| spec_keep(e);
    lemma_filter_distinct_pids(s, p);
    let kept = s.filter(p);
    assert forall|i: int, j: int|
        0 <= i < j < spec_build(s).len() implies spec_build(s)[i].pid != spec_build(s)[j].pid by {
        assert(spec_build(s)[i] == spec_record_of(kept[i]));
        assert(spec_build(s)[j] == spec_record_of(kept[j]));
    }
}

/// Every element of a filtered sequence occurs in the original sequence.
pub proof fn lemma_filter_elements_contained<A>(s: Seq<A>, pred: spec_fn(A) -> bool, i: int)
    requires
        0 <= i < s.filter(pred).len(),
    ensures
        s.contains(s.filter(pred)[i]),
    decreases s.len(),
{
    reveal(Seq::filter);
    if s.len() > 0 {
        let rest = s.drop_last().filter(pred);
        if i < rest.len() {
            lemma_filter_elements_contained::<A>(s.drop_last(), pred, i);
            let x = rest[i];
            let j = choose|j: int| 0 <= j < s.drop_last().len() && s.drop_last()[j] == x;
            assert(s[j] == x);
        } else {
            assert(s.filter(pred)[i] == s.last());
        }
    }
}

} // verus!
