//! The sort engine.
//!
//! A listing is ordered by repeated insertion: each record is placed after
//! every record already in place that does not compare strictly greater, so
//! the sort is stable — records with equal key values keep their original
//! relative order. The engine returns a new listing; it never reorders the
//! caller's data in place.

use vstd::prelude::*;

use crate::order::SortBy;
use crate::order::SortOrder;
use crate::order::key_eq;
use crate::order::le;
use crate::order::le_exec;
use crate::order::lemma_le_refl;
use crate::order::lemma_le_total;
use crate::order::lemma_le_trans;
use crate::order::key_le;
use crate::records::MyProcess;
use crate::records::distinct_pids;
use crate::records::lemma_filter_elements_contained;
use vstd::seq_lib::lemma_multiset_commutative;

verus! {

/// Whether a listing is ordered: any earlier record compares at most equal
/// to any later one, under the key's natural order with the direction
/// applied.
pub open spec fn sorted_by(s: Seq<MyProcess>, k: SortBy, d: SortOrder) -> bool {
    forall|i: int, j: int| 0 <= i < j < s.len() ==> le(k, d, s[i], s[j])
}

/// The stable insertion of `x` into `t`: `x` goes after every leading
/// element that compares at most equal to it.
pub open spec fn spec_insert(t: Seq<MyProcess>, x: MyProcess, k: SortBy, d: SortOrder) -> Seq<
    MyProcess,
>
    decreases t.len(),
{
    if t.len() == 0 {
        seq![x]
    } else if le(k, d, t.first(), x) {
        seq![t.first()] + spec_insert(t.drop_first(), x, k, d)
    } else {
        seq![x] + t
    }
}

/// The stable insertion sort of a listing.
pub open spec fn spec_sort(s: Seq<MyProcess>, k: SortBy, d: SortOrder) -> Seq<MyProcess>
    decreases s.len(),
{
    if s.len() == 0 {
        Seq::empty()
    } else {
        spec_insert(spec_sort(s.drop_last(), k, d), s.last(), k, d)
    }
}

/// Insertion adds exactly one element.
pub proof fn lemma_insert_len(t: Seq<MyProcess>, x: MyProcess, k: SortBy, d: SortOrder)
    ensures
        spec_insert(t, x, k, d).len() == t.len() + 1,
    decreases t.len(),
{
    if t.len() == 0 {
    } else if le(k, d, t.first(), x) {
        lemma_insert_len(t.drop_first(), x, k, d);
    }
}

/// Insertion adds exactly the inserted element to the listing's contents.
pub proof fn lemma_insert_multiset(t: Seq<MyProcess>, x: MyProcess, k: SortBy, d: SortOrder)
    ensures
        spec_insert(t, x, k, d).to_multiset() =~= t.to_multiset().insert(x),
    decreases t.len(),
{
    broadcast use vstd::seq_lib::group_to_multiset_ensures;
    broadcast use vstd::multiset::group_multiset_axioms;

    if t.len() == 0 {
        assert(seq![x] =~= Seq::<MyProcess>::empty().push(x));
    } else if le(k, d, t.first(), x) {
        lemma_insert_multiset(t.drop_first(), x, k, d);
        lemma_multiset_commutative(seq![t.first()], spec_insert(t.drop_first(), x, k, d));
        lemma_multiset_commutative(seq![t.first()], t.drop_first());
        assert(t =~= seq![t.first()] + t.drop_first());
        assert(seq![t.first()] =~= Seq::<MyProcess>::empty().push(t.first()));
    } else {
        lemma_multiset_commutative(seq![x], t);
        assert(seq![x] =~= Seq::<MyProcess>::empty().push(x));
    }
}

/// A lower bound of a listing and of the inserted element bounds the
/// insertion's result.
proof fn lemma_insert_lower_bound(
    t: Seq<MyProcess>,
    x: MyProcess,
    k: SortBy,
    d: SortOrder,
    lo: MyProcess,
)
    requires
        le(k, d, lo, x),
        forall|j: int| 0 <= j < t.len() ==> le(k, d, lo, #[trigger] t[j]),
    ensures
        forall|i: int|
            0 <= i < spec_insert(t, x, k, d).len() ==> le(
                k,
                d,
                lo,
                #[trigger] spec_insert(t, x, k, d)[i],
            ),
    decreases t.len(),
{
    let r = spec_insert(t, x, k, d);
    if t.len() == 0 {
        assert(r[0] == x);
    } else if le(k, d, t.first(), x) {
        assert forall|j: int|
            0 <= j < t.drop_first().len() implies le(
            k,
            d,
            lo,
            #[trigger] t.drop_first()[j],
        ) by {
            assert(t.drop_first()[j] == t[j + 1]);
        }
        lemma_insert_lower_bound(t.drop_first(), x, k, d, lo);
        let rest = spec_insert(t.drop_first(), x, k, d);
        assert forall|i: int| 0 <= i < r.len() implies le(k, d, lo, #[trigger] r[i]) by {
            if i == 0 {
                assert(r[0] == t.first() && t[0] == t.first());
            } else {
                assert(r[i] == rest[i - 1]);
            }
        }
    } else {
        assert forall|i: int| 0 <= i < r.len() implies le(k, d, lo, #[trigger] r[i]) by {
            if i == 0 {
                assert(r[0] == x);
            } else {
                assert(r[i] == t[i - 1]);
            }
        }
    }
}

/// Insertion into an ordered listing keeps it ordered.
pub proof fn lemma_insert_sorted(t: Seq<MyProcess>, x: MyProcess, k: SortBy, d: SortOrder)
    requires
        sorted_by(t, k, d),
    ensures
        sorted_by(spec_insert(t, x, k, d), k, d),
    decreases t.len(),
{
    if t.len() == 0 {
    } else if le(k, d, t.first(), x) {
        assert(sorted_by(t.drop_first(), k, d));
        lemma_insert_sorted(t.drop_first(), x, k, d);
        lemma_insert_lower_bound(t.drop_first(), x, k, d, t.first());
        let r = spec_insert(t, x, k, d);
        let rest = spec_insert(t.drop_first(), x, k, d);
        assert forall|i: int, j: int| 0 <= i < j < r.len() implies le(k, d, r[i], r[j]) by {
            if i > 0 {
                assert(r[i] == rest[i - 1] && r[j] == rest[j - 1]);
            }
        }
    } else {
        lemma_le_total(k, d, t.first(), x);
        assert forall|j: int| 0 <= j < t.len() implies le(k, d, x, #[trigger] t[j]) by {
            if j > 0 {
                lemma_le_trans(k, d, x, t.first(), t[j]);
            }
        }
    }
}

/// Inserting an element that no element of the listing exceeds appends it.
proof fn lemma_insert_at_end(t: Seq<MyProcess>, x: MyProcess, k: SortBy, d: SortOrder)
    requires
        forall|j: int| 0 <= j < t.len() ==> le(k, d, #[trigger] t[j], x),
    ensures
        spec_insert(t, x, k, d) =~= t.push(x),
    decreases t.len(),
{
    if t.len() == 0 {
    } else {
        lemma_insert_at_end(t.drop_first(), x, k, d);
    }
}

/// Characterizes insertion by the index it inserts at: `x` goes at the first
/// position whose element compares strictly greater.
proof fn lemma_insert_at(t: Seq<MyProcess>, x: MyProcess, k: SortBy, d: SortOrder, i: int)
    requires
        0 <= i <= t.len(),
        forall|j: int| 0 <= j < i ==> le(k, d, #[trigger] t[j], x),
        i < t.len() ==> !le(k, d, t[i], x),
    ensures
        spec_insert(t, x, k, d) =~= t.take(i) + seq![x] + t.skip(i),
    decreases i,
{
    if i == 0 {
    } else {
        lemma_insert_at(t.drop_first(), x, k, d, i - 1);
        assert(t.drop_first().take(i - 1) =~= t.take(i).drop_first());
        assert(t.drop_first().skip(i - 1) =~= t.skip(i));
    }
}

/// Stability of one insertion: within any key-equality class, insertion
/// appends the new element at the end of the class, or leaves the class
/// untouched.
proof fn lemma_insert_filter(
    t: Seq<MyProcess>,
    x: MyProcess,
    k: SortBy,
    d: SortOrder,
    y: MyProcess,
)
    requires
        sorted_by(t, k, d),
    ensures
        spec_insert(t, x, k, d).filter(|e: MyProcess| key_eq(k, e, y)) == if key_eq(k, x, y) {
            t.filter(|e: MyProcess| key_eq(k, e, y)).push(x)
        } else {
            t.filter(|e: MyProcess| key_eq(k, e, y))
        },
    decreases t.len(),
{
    let p = |e: MyProcess| key_eq(k, e, y);
    if t.len() == 0 {
        assert(seq![x] =~= Seq::<MyProcess>::empty().push(x));
        Seq::<MyProcess>::empty().lemma_filter_push(x, p);
        assert(Seq::<MyProcess>::empty().filter(p) =~= Seq::<MyProcess>::empty()) by {
            reveal(Seq::filter);
        }
        assert(t.filter(p) =~= Seq::<MyProcess>::empty()) by {
            reveal(Seq::filter);
        }
    } else if le(k, d, t.first(), x) {
        assert(sorted_by(t.drop_first(), k, d));
        lemma_insert_filter(t.drop_first(), x, k, d, y);
        Seq::filter_distributes_over_add(
            seq![t.first()],
            spec_insert(t.drop_first(), x, k, d),
            p,
        );
        Seq::filter_distributes_over_add(seq![t.first()], t.drop_first(), p);
        assert(t =~= seq![t.first()] + t.drop_first());
        if key_eq(k, x, y) {
            assert(seq![t.first()].filter(p) + t.drop_first().filter(p).push(x) =~= (
            seq![t.first()].filter(p) + t.drop_first().filter(p)).push(x));
        }
    } else {
        // `x` goes in front: no element of `t` can share its key class,
        // since the first element already compares strictly greater.
        lemma_le_total(k, d, t.first(), x);
        Seq::filter_distributes_over_add(seq![x], t, p);
        assert(seq![x] =~= Seq::<MyProcess>::empty().push(x));
        Seq::<MyProcess>::empty().lemma_filter_push(x, p);
        assert(Seq::<MyProcess>::empty().filter(p) =~= Seq::<MyProcess>::empty()) by {
            reveal(Seq::filter);
        }
        if key_eq(k, x, y) {
            assert(t.filter(p) =~= Seq::<MyProcess>::empty()) by {
                if t.filter(p).len() > 0 {
                    t.lemma_filter_pred(p, 0);
                    lemma_filter_elements_contained::<MyProcess>(t, p, 0);
                    let j = choose|j: int| 0 <= j < t.len() && t[j] == t.filter(p)[0];
                    // t[j] is in the key class of x, hence compares at most
                    // equal to x; but every element of t compares strictly
                    // greater than x.
                    let e = t[j];
                    assert(key_eq(k, e, y) && key_eq(k, x, y));
                    lemma_le_trans(k, SortOrder::Asc, e, y, x);
                    lemma_le_trans(k, SortOrder::Asc, x, y, e);
                    assert(le(k, d, e, x) && le(k, d, x, e));
                    if j > 0 {
                        lemma_le_trans(k, d, t.first(), e, x);
                    }
                    assert(false);
                }
            }
        }
    }
}

/// An ordered listing: every element of the sort's result compares at least
/// equal to none it precedes — the full ordering guarantee of the engine.
pub proof fn lemma_sort_sorted(s: Seq<MyProcess>, k: SortBy, d: SortOrder)
    ensures
        sorted_by(spec_sort(s, k, d), k, d),
    decreases s.len(),
{
    if s.len() > 0 {
        lemma_sort_sorted(s.drop_last(), k, d);
        lemma_insert_sorted(spec_sort(s.drop_last(), k, d), s.last(), k, d);
    }
}

/// The sort returns a permutation: it neither drops, adds nor duplicates
/// records.
pub proof fn lemma_sort_multiset(s: Seq<MyProcess>, k: SortBy, d: SortOrder)
    ensures
        spec_sort(s, k, d).to_multiset() =~= s.to_multiset(),
        spec_sort(s, k, d).len() == s.len(),
    decreases s.len(),
{
    broadcast use vstd::seq_lib::group_to_multiset_ensures;

    if s.len() > 0 {
        lemma_sort_multiset(s.drop_last(), k, d);
        lemma_insert_multiset(spec_sort(s.drop_last(), k, d), s.last(), k, d);
        lemma_insert_len(spec_sort(s.drop_last(), k, d), s.last(), k, d);
        assert(s =~= s.drop_last().push(s.last()));
    }
}

/// Stability of the sort: within any key-equality class — fix a record `y`
/// and take, in order, the records whose key value equals `y`'s — sorting
/// leaves that subsequence exactly as it stood in the input.
pub proof fn lemma_sort_stable(s: Seq<MyProcess>, k: SortBy, d: SortOrder, y: MyProcess)
    ensures
        spec_sort(s, k, d).filter(|e: MyProcess| key_eq(k, e, y)) == s.filter(
            |e: MyProcess| key_eq(k, e, y),
        ),
    decreases s.len(),
{
    let p = |e: MyProcess| key_eq(k, e, y);
    if s.len() == 0 {
        assert(Seq::<MyProcess>::empty().filter(p) =~= Seq::<MyProcess>::empty()) by {
            reveal(Seq::filter);
        }
        assert(s.filter(p) =~= Seq::<MyProcess>::empty()) by {
            reveal(Seq::filter);
        }
    } else {
        lemma_sort_stable(s.drop_last(), k, d, y);
        lemma_sort_sorted(s.drop_last(), k, d);
        lemma_insert_filter(spec_sort(s.drop_last(), k, d), s.last(), k, d, y);
        assert(s =~= s.drop_last().push(s.last()));
        s.drop_last().lemma_filter_push(s.last(), p);
    }
}

/// Sorting an already ordered listing returns it unchanged.
pub proof fn lemma_sort_of_sorted(s: Seq<MyProcess>, k: SortBy, d: SortOrder)
    requires
        sorted_by(s, k, d),
    ensures
        spec_sort(s, k, d) == s,
    decreases s.len(),
{
    if s.len() > 0 {
        assert(sorted_by(s.drop_last(), k, d));
        lemma_sort_of_sorted(s.drop_last(), k, d);
        lemma_insert_at_end(s.drop_last(), s.last(), k, d);
        assert(spec_sort(s, k, d) =~= s);
    }
}

/// Sorting is idempotent: sorting a listing a second time, by the same key
/// and direction, changes nothing.
pub proof fn lemma_sort_idempotent(s: Seq<MyProcess>, k: SortBy, d: SortOrder)
    ensures
        spec_sort(spec_sort(s, k, d), k, d) == spec_sort(s, k, d),
{
    lemma_sort_sorted(s, k, d);
    lemma_sort_of_sorted(spec_sort(s, k, d), k, d);
}

/// Reversing the direction exactly reverses the ordering of any two records
/// with distinct key values: a record whose key is strictly smaller stands
/// before the other in every ascending listing and after it in every
/// descending one, wherever the two stand.
pub proof fn lemma_direction_reverses(s: Seq<MyProcess>, k: SortBy, a: MyProcess, b: MyProcess)
    requires
        key_le(k, a, b),
        !key_le(k, b, a),
    ensures
        forall|i: int, j: int|
            0 <= i < spec_sort(s, k, SortOrder::Asc).len() && 0 <= j < spec_sort(
                s,
                k,
                SortOrder::Asc,
            ).len() && #[trigger] spec_sort(s, k, SortOrder::Asc)[i] == a && #[trigger] spec_sort(
                s,
                k,
                SortOrder::Asc,
            )[j] == b ==> i < j,
        forall|i: int, j: int|
            0 <= i < spec_sort(s, k, SortOrder::Desc).len() && 0 <= j < spec_sort(
                s,
                k,
                SortOrder::Desc,
            ).len() && #[trigger] spec_sort(s, k, SortOrder::Desc)[i] == a && #[trigger] spec_sort(
                s,
                k,
                SortOrder::Desc,
            )[j] == b ==> j < i,
{
    lemma_sort_sorted(s, k, SortOrder::Asc);
    lemma_sort_sorted(s, k, SortOrder::Desc);
    let asc = spec_sort(s, k, SortOrder::Asc);
    let desc = spec_sort(s, k, SortOrder::Desc);
    assert forall|i: int, j: int|
        0 <= i < asc.len() && 0 <= j < asc.len() && #[trigger] asc[i] == a && #[trigger] asc[j]
            == b implies i < j by {
        if i == j {
            lemma_le_refl(k, SortOrder::Asc, a);
        } else if j < i {
            assert(le(k, SortOrder::Asc, asc[j], asc[i]));
        }
    }
    assert forall|i: int, j: int|
        0 <= i < desc.len() && 0 <= j < desc.len() && #[trigger] desc[i] == a && #[trigger] desc[j]
            == b implies j < i by {
        if i == j {
            lemma_le_refl(k, SortOrder::Desc, a);
        } else if i < j {
            assert(le(k, SortOrder::Desc, desc[i], desc[j]));
        }
    }
}

/// A permutation of a listing with pairwise distinct pids has pairwise
/// distinct pids itself; in particular, sorting keeps pids unique.
pub proof fn lemma_permutation_distinct_pids(a: Seq<MyProcess>, b: Seq<MyProcess>)
    requires
        a.to_multiset() == b.to_multiset(),
        distinct_pids(a),
    ensures
        distinct_pids(b),
{
    broadcast use vstd::seq_lib::group_to_multiset_ensures;
    broadcast use vstd::multiset::group_multiset_axioms;

    assert forall|i: int, j: int|
        0 <= i < a.len() && 0 <= j < a.len() && i != j implies a[i] != a[j] by {
        if i < j {
            assert(a[i].pid != a[j].pid);
        } else {
            assert(a[j].pid != a[i].pid);
        }
    }
    a.lemma_multiset_has_no_duplicates();
    b.lemma_multiset_has_no_duplicates_conv();
    assert forall|i: int, j: int| 0 <= i < j < b.len() implies b[i].pid != b[j].pid by {
        if b[i].pid == b[j].pid {
            assert(b[i] != b[j]);
            assert(b.contains(b[i]) && b.contains(b[j]));
            assert(b.to_multiset().count(b[i]) > 0 && b.to_multiset().count(b[j]) > 0);
            assert(a.to_multiset().count(b[i]) > 0 && a.to_multiset().count(b[j]) > 0);
            assert(a.contains(b[i]) && a.contains(b[j]));
            let m = choose|m: int| 0 <= m < a.len() && a[m] == b[i];
            let n = choose|n: int| 0 <= n < a.len() && a[n] == b[j];
            if m < n {
                assert(a[m].pid != a[n].pid);
            } else {
                assert(a[n].pid != a[m].pid);
            }
        }
    }
}

/// Inserts `x` into the ordered listing `out`, after every leading record
/// that compares at most equal to it.
fn insert_sorted(out: &mut Vec<MyProcess>, x: MyProcess, k: &SortBy, d: &SortOrder)
    ensures
        final(out)@ == spec_insert(old(out)@, x, *k, *d),
{
    let mut i: usize = 0;
    while i < out.len() && le_exec(k, d, &out[i], &x)
        invariant
            i <= out.len(),
            out == old(out),
            forall|j: int| 0 <= j < i ==> le(*k, *d, #[trigger] out@[j], x),
        decreases out.len() - i,
    {
        i = i + 1;
    }
    proof {
        lemma_insert_at(out@, x, *k, *d, i as int);
    }
    out.insert(i, x);
    proof {
        assert(out@ =~= old(out)@.take(i as int) + seq![x] + old(out)@.skip(i as int));
    }
}

/// Sorts a listing by the chosen key and direction: the result is the
/// stable insertion sort of the input — ordered, a permutation of the
/// input, of the same length.
pub fn sort_records(records: Vec<MyProcess>, sorting: &SortBy, order: &SortOrder) -> (r: Vec<
    MyProcess,
>)
    ensures
        r@ == spec_sort(records@, *sorting, *order),
        sorted_by(r@, *sorting, *order),
        r@.to_multiset() == records@.to_multiset(),
        r@.len() == records@.len(),
{
    let ghost all = records@;
    let mut v = records;
    let mut out: Vec<MyProcess> = Vec::new();
    let ghost mut i: int = 0;
    proof {
        assert(all.take(0) =~= Seq::<MyProcess>::empty());
    }
    while v.len() > 0
        invariant
            0 <= i <= all.len(),
            v@ =~= all.skip(i),
            out@ == spec_sort(all.take(i), *sorting, *order),
        decreases v@.len(),
    {
        let x = v.remove(0);
        proof {
            assert(x == all[i]);
            assert(v@ =~= all.skip(i + 1));
            assert(all.take(i + 1).drop_last() =~= all.take(i));
            assert(all.take(i + 1).last() == all[i]);
        }
        insert_sorted(&mut out, x, sorting, order);
        proof {
            i = i + 1;
        }
    }
    proof {
        assert(all.take(all.len() as int) =~= all);
        lemma_sort_sorted(all, *sorting, *order);
        lemma_sort_multiset(all, *sorting, *order);
    }
    out
}

} // verus!
