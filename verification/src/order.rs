//! The ordering of process records.
//!
//! A listing is ordered by one of four keys, each with its natural order —
//! process identifier and resident memory by unsigned-integer order, name by
//! lexicographic order on the characters, CPU share by the value of the
//! reading with every NaN pattern below everything else — and a direction
//! that is applied uniformly to that natural order. The resulting relation
//! is a total preorder: records with equal key values compare equal both
//! ways, and the sort keeps their original order.

use vstd::prelude::*;

use crate::cpu::cpu_key;
use crate::cpu::lemma_nan_sorts_lowest;
use crate::cpu::spec_cpu_key;
use crate::cpu::spec_is_nan;
use crate::records::MyProcess;
use vstd::string::StrSliceExecFns;

verus! {

/// The key a listing is ordered by.
#[derive(Clone, Copy, PartialEq, Eq, Structural, Debug)]
pub enum SortBy {
    /// Order by process identifier.
    PID,
    /// Order by executable name, lexicographically.
    Name,
    /// Order by normalized CPU share; NaN readings order below everything.
    CPU,
    /// Order by resident memory.
    Memory,
}

/// The direction an ordering is applied in.
#[derive(Clone, Copy, PartialEq, Eq, Structural, Debug)]
pub enum SortOrder {
    /// Smallest key first.
    Asc,
    /// Largest key first.
    Desc,
}

/// Lexicographic order on character sequences: a prefix comes before every
/// extension of it, and otherwise the first differing character decides.
pub open spec fn lex_le(a: Seq<char>, b: Seq<char>) -> bool
    decreases a.len(),
{
    if a.len() == 0 {
        true
    } else if b.len() == 0 {
        false
    } else if a[0] == b[0] {
        lex_le(a.drop_first(), b.drop_first())
    } else {
        (a[0] as u32) < (b[0] as u32)
    }
}

/// Any two character sequences are ordered at least one way around.
pub proof fn lemma_lex_le_total(a: Seq<char>, b: Seq<char>)
    ensures
        lex_le(a, b) || lex_le(b, a),
    decreases a.len(),
{
    if a.len() == 0 {
    } else if b.len() == 0 {
    } else if a[0] == b[0] {
        lemma_lex_le_total(a.drop_first(), b.drop_first());
    } else {
        if a[0] as u32 == b[0] as u32 {
            vstd::utf8::char_u32_cast(a[0], a[0] as u32);
            vstd::utf8::char_u32_cast(b[0], b[0] as u32);
        }
    }
}

/// Lexicographic order is reflexive.
pub proof fn lemma_lex_le_refl(a: Seq<char>)
    ensures
        lex_le(a, a),
    decreases a.len(),
{
    if a.len() > 0 {
        lemma_lex_le_refl(a.drop_first());
    }
}

/// Lexicographic order is transitive.
pub proof fn lemma_lex_le_trans(a: Seq<char>, b: Seq<char>, c: Seq<char>)
    requires
        lex_le(a, b),
        lex_le(b, c),
    ensures
        lex_le(a, c),
    decreases a.len(),
{
    if a.len() == 0 {
    } else if b.len() == 0 {
    } else if c.len() == 0 {
    } else if a[0] == b[0] && b[0] == c[0] {
        lemma_lex_le_trans(a.drop_first(), b.drop_first(), c.drop_first());
    }
}

/// The natural order of records under a key.
pub open spec fn key_le(k: SortBy, a: MyProcess, b: MyProcess) -> bool {
    match k {
        SortBy::PID => a.pid <= b.pid,
        SortBy::Name => lex_le(a.name@, b.name@),
        SortBy::CPU => spec_cpu_key(a.cpu_usage.bits) <= spec_cpu_key(b.cpu_usage.bits),
        SortBy::Memory => a.memory_usage <= b.memory_usage,
    }
}

/// Whether two records carry equal key values under a key; independent of
/// the direction the listing is ordered in.
pub open spec fn key_eq(k: SortBy, a: MyProcess, b: MyProcess) -> bool {
    key_le(k, a, b) && key_le(k, b, a)
}

/// The order of a listing: the natural order of the key, with the
/// descending direction reversing it uniformly.
pub open spec fn le(k: SortBy, d: SortOrder, a: MyProcess, b: MyProcess) -> bool {
    match d {
        SortOrder::Asc => key_le(k, a, b),
        SortOrder::Desc => key_le(k, b, a),
    }
}

/// The listing order is total: any two records compare at least one way.
pub proof fn lemma_le_total(k: SortBy, d: SortOrder, a: MyProcess, b: MyProcess)
    ensures
        le(k, d, a, b) || le(k, d, b, a),
{
    if k == SortBy::Name {
        lemma_lex_le_total(a.name@, b.name@);
    }
}

/// The listing order is reflexive.
pub proof fn lemma_le_refl(k: SortBy, d: SortOrder, a: MyProcess)
    ensures
        le(k, d, a, a),
{
    if k == SortBy::Name {
        lemma_lex_le_refl(a.name@);
    }
}

/// The listing order is transitive.
pub proof fn lemma_le_trans(k: SortBy, d: SortOrder, a: MyProcess, b: MyProcess, c: MyProcess)
    requires
        le(k, d, a, b),
        le(k, d, b, c),
    ensures
        le(k, d, a, c),
{
    if k == SortBy::Name {
        match d {
            SortOrder::Asc => lemma_lex_le_trans(a.name@, b.name@, c.name@),
            SortOrder::Desc => lemma_lex_le_trans(c.name@, b.name@, a.name@),
        }
    }
}

/// A record whose CPU reading is NaN compares at most equal to every record
/// under the CPU key: the NaN-lowest policy is part of the key itself, so no
/// direction changes it — reversal only decides whether the lowest value
/// comes first or last.
pub proof fn lemma_nan_record_is_cpu_minimum(a: MyProcess, b: MyProcess)
    requires
        spec_is_nan(a.cpu_usage.bits),
    ensures
        key_le(SortBy::CPU, a, b),
{
    lemma_nan_sorts_lowest(a.cpu_usage.bits, b.cpu_usage.bits);
}

/// Lexicographic comparison of two strings, as executable code.
pub fn name_le(a: &str, b: &str) -> (r: bool)
    ensures
        r == lex_le(a@, b@),
{
    let alen = a.unicode_len();
    let blen = b.unicode_len();
    let mut i: usize = 0;
    proof {
        assert(a@.skip(0) =~= a@);
        assert(b@.skip(0) =~= b@);
    }
    loop
        invariant
            i <= alen,
            i <= blen,
            alen == a@.len(),
            blen == b@.len(),
            lex_le(a@, b@) == lex_le(a@.skip(i as int), b@.skip(i as int)),
        decreases alen - i,
    {
        if i >= alen {
            return true;
        }
        if i >= blen {
            return false;
        }
        let ca = a.get_char(i);
        let cb = b.get_char(i);
        if ca == cb {
            proof {
                assert(a@.skip(i as int).drop_first() =~= a@.skip(i as int + 1));
                assert(b@.skip(i as int).drop_first() =~= b@.skip(i as int + 1));
            }
            i = i + 1;
        } else {
            return (ca as u32) < (cb as u32);
        }
    }
}

/// The natural order of records under a key, as executable code.
pub fn key_le_exec(k: &SortBy, a: &MyProcess, b: &MyProcess) -> (r: bool)
    ensures
        r == key_le(*k, *a, *b),
{
    match k {
        SortBy::PID => a.pid <= b.pid,
        SortBy::Name => name_le(a.name.as_str(), b.name.as_str()),
        SortBy::CPU => cpu_key(a.cpu_usage.bits) <= cpu_key(b.cpu_usage.bits),
        SortBy::Memory => a.memory_usage <= b.memory_usage,
    }
}

/// The listing order, as executable code.
pub fn le_exec(k: &SortBy, d: &SortOrder, a: &MyProcess, b: &MyProcess) -> (r: bool)
    ensures
        r == le(*k, *d, *a, *b),
{
    match d {
        SortOrder::Asc => key_le_exec(k, a, b),
        SortOrder::Desc => key_le_exec(k, b, a),
    }
}

} // verus!
