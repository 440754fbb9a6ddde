//! System-wide aggregates.
//!
//! Network throughput is the sum, over all live interfaces at the moment of
//! a refresh, of each interface's cumulative received and transmitted byte
//! counters. The sum saturates at the largest representable value instead of
//! wrapping, so a refresh can never fail on absurd counter values.

use vstd::prelude::*;

verus! {

/// The total of the interfaces' received byte counters.
pub open spec fn spec_sum_rx(s: Seq<(u64, u64)>) -> int
    decreases s.len(),
{
    if s.len() == 0 {
        0
    } else {
        spec_sum_rx(s.drop_last()) + s.last().0
    }
}

/// The total of the interfaces' transmitted byte counters.
pub open spec fn spec_sum_tx(s: Seq<(u64, u64)>) -> int
    decreases s.len(),
{
    if s.len() == 0 {
        0
    } else {
        spec_sum_tx(s.drop_last()) + s.last().1
    }
}

/// A total capped at the largest value one counter can carry.
pub open spec fn capped(n: int) -> int {
    if n > u64::MAX {
        u64::MAX as int
    } else {
        n
    }
}

/// Counter totals are never negative.
proof fn lemma_sums_nonneg(s: Seq<(u64, u64)>)
    ensures
        spec_sum_rx(s) >= 0,
        spec_sum_tx(s) >= 0,
    decreases s.len(),
{
    if s.len() > 0 {
        lemma_sums_nonneg(s.drop_last());
    }
}

/// Adds two counters, saturating at the largest representable value.
fn saturating_add_u64(a: u64, b: u64) -> (r: u64)
    ensures
        r as int == capped(a + b),
{
    if a > u64::MAX - b {
        u64::MAX
    } else {
        a + b
    }
}

/// Sums per-interface `(received, transmitted)` byte counters into the
/// aggregate pair: exactly the totals wherever they fit in a counter, and
/// the counter's largest value where they would not.
pub fn total_throughput(counters: &Vec<(u64, u64)>) -> (r: (u64, u64))
    ensures
        r.0 as int == capped(spec_sum_rx(counters@)),
        r.1 as int == capped(spec_sum_tx(counters@)),
{
    let mut rx: u64 = 0;
    let mut tx: u64 = 0;
    let mut i: usize = 0;
    proof {
        assert(counters@.take(0) =~= Seq::<(u64, u64)>::empty());
    }
    while i < counters.len()
        invariant
            i <= counters@.len(),
            rx as int == capped(spec_sum_rx(counters@.take(i as int))),
            tx as int == capped(spec_sum_tx(counters@.take(i as int))),
        decreases counters@.len() - i,
    {
        proof {
            assert(counters@.take(i as int + 1).drop_last() =~= counters@.take(i as int));
            assert(counters@.take(i as int + 1).last() == counters@[i as int]);
            lemma_sums_nonneg(counters@.take(i as int));
        }
        rx = saturating_add_u64(rx, counters[i].0);
        tx = saturating_add_u64(tx, counters[i].1);
        i = i + 1;
    }
    proof {
        assert(counters@.take(counters@.len() as int) =~= counters@);
    }
    (rx, tx)
}

} // verus!
