//! CPU usage readings.
//!
//! A per-process CPU reading is an IEEE-754 single-precision percentage
//! reported by the operating system. The engine itself never performs
//! floating-point arithmetic: it carries each reading as its raw 32-bit
//! pattern, and orders readings through an integer key that agrees with the
//! floating-point order on ordinary values and places NaN below everything
//! else (a fixed, direction-independent policy, so a malformed reading can
//! never make a comparison fail).

use vstd::prelude::*;

verus! {

/// A CPU usage percentage, carried as the raw bit pattern of an IEEE-754
/// single-precision value. `bits` is the image of `f32::to_bits`.
#[derive(Clone, Copy, PartialEq, Eq, Structural, Debug)]
pub struct CpuPercent {
    pub bits: u32,
}

/// Whether `bits` is the pattern of an IEEE-754 single-precision NaN:
/// exponent all ones and a nonzero mantissa.
pub open spec fn spec_is_nan(bits: u32) -> bool {
    bits & 0x7F80_0000u32 == 0x7F80_0000u32 && bits & 0x007F_FFFFu32 != 0
}

/// The total-order key of a CPU reading. NaN patterns map to 0, below every
/// other key; non-NaN patterns map monotonically with the value they encode
/// (negative values below positive ones, a negative zero just below a
/// positive zero).
pub open spec fn spec_cpu_key(bits: u32) -> int {
    if spec_is_nan(bits) {
        0
    } else if bits < 0x8000_0000u32 {
        bits + 0x8000_0001
    } else {
        0x1_0000_0000 - bits
    }
}

/// The bit pattern of the normalized CPU percentage: the IEEE-754
/// single-precision quotient of the reading encoded by `raw_bits` and the
/// logical core count `cores`. The quotient is a function of the two
/// operands alone — IEEE-754 round-to-nearest division gives the same bits
/// on every platform — so it can carry a name; the division itself is made
/// at the trusted snapshot boundary, whose contract applies this name to
/// every row it hands out.
pub uninterp spec fn norm_of(raw_bits: u32, cores: u16) -> u32;

/// Whether `bits` encodes an IEEE-754 NaN (exponent all ones, nonzero
/// mantissa).
pub fn is_nan_bits(bits: u32) -> (r: bool)
    ensures
        r == spec_is_nan(bits),
{
    bits & 0x7F80_0000u32 == 0x7F80_0000u32 && bits & 0x007F_FFFFu32 != 0
}

/// The total-order key of a CPU reading, as executable code.
pub fn cpu_key(bits: u32) -> (k: u64)
    ensures
        k as int == spec_cpu_key(bits),
{
    if is_nan_bits(bits) {
        0u64
    } else if bits < 0x8000_0000u32 {
        (bits as u64) + 0x8000_0001u64
    } else {
        0x1_0000_0000u64 - (bits as u64)
    }
}

impl CpuPercent {
    /// The total-order key this reading sorts by.
    pub open spec fn spec_key(self) -> int {
        spec_cpu_key(self.bits)
    }
}

/// A NaN reading carries the smallest key there is, so it sorts as the
/// lowest CPU value — a fixed policy of the key itself, independent of the
/// direction a listing applies to the keys.
pub proof fn lemma_nan_sorts_lowest(nan_bits: u32, other: u32)
    requires
        spec_is_nan(nan_bits),
    ensures
        spec_cpu_key(nan_bits) <= spec_cpu_key(other),
{
}

} // verus!
