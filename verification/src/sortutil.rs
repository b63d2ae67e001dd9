//! A verified insertion sort over any type with a total, transitive
//! "less-or-equal" relation, and the orders the engine sorts by: shape
//! points by sequence number, stop times and scheduled arrivals by arrival
//! time, real-time entries by timestamp with undated entries last, and
//! strings lexicographically.

use vstd::prelude::*;

use crate::model::{RealTimeInfo, ScheduledArrival, ShapePoint, StopTime};
use vstd::multiset::Multiset;
use crate::strutil::{lemma_lex_le_total, lemma_lex_le_trans, lex_le, str_le};

verus! {

/// A total, transitive order that an executable comparison decides.
pub trait SortOrd: Sized {
    /// The order sorted by.
    spec fn le_spec(self, other: Self) -> bool;

    /// The order is total.
    proof fn lemma_total(a: Self, b: Self)
        ensures
            a.le_spec(b) || b.le_spec(a),
    ;

    /// The order is transitive.
    proof fn lemma_trans(a: Self, b: Self, c: Self)
        requires
            a.le_spec(b),
            b.le_spec(c),
        ensures
            a.le_spec(c),
    ;

    /// Decides the order.
    fn le(&self, other: &Self) -> (r: bool)
        ensures
            r == self.le_spec(*other),
    ;
}

/// Whether a sequence is sorted by the type's order.
pub open spec fn sorted_seq<T: SortOrd>(s: Seq<T>) -> bool {
    forall|i: int, j: int| 0 <= i < j < s.len() ==> #[trigger] s[i].le_spec(#[trigger] s[j])
}

/// Inserting an element anywhere adds exactly it to the multiset.
pub proof fn lemma_insert_to_multiset<T>(s: Seq<T>, pos: int, x: T)
    requires
        0 <= pos <= s.len(),
    ensures
        s.insert(pos, x).to_multiset() == s.to_multiset().insert(x),
{
    broadcast use vstd::seq_lib::group_to_multiset_ensures;
    broadcast use vstd::multiset::group_multiset_axioms;

    let a = s.take(pos);
    let b = s.skip(pos);
    assert(s =~= a + b);
    assert(s.insert(pos, x) =~= a.push(x) + b);
    vstd::seq_lib::lemma_multiset_commutative(a.push(x), b);
    vstd::seq_lib::lemma_multiset_commutative(a, b);
    assert(a.push(x).to_multiset() =~= a.to_multiset().insert(x));
    assert((a.push(x) + b).to_multiset() =~= (a + b).to_multiset().insert(x));
}

/// Sorts a vector by the type's order. The result is sorted and holds
/// exactly the input's elements.
pub fn sort_vec<T: SortOrd>(v: Vec<T>) -> (r: Vec<T>)
    ensures
        sorted_seq(r@),
        r@.to_multiset() == v@.to_multiset(),
        r@.len() == v@.len(),
{
    broadcast use vstd::seq_lib::group_to_multiset_ensures;
    broadcast use vstd::multiset::group_multiset_axioms;

    let ghost orig = v@;
    let mut rest = v;
    let mut out: Vec<T> = Vec::new();
    proof {
        assert(out@.to_multiset().add(rest@.to_multiset()) =~= orig.to_multiset());
    }
    while rest.len() > 0
        invariant
            sorted_seq(out@),
            out@.to_multiset().add(rest@.to_multiset()) == orig.to_multiset(),
            out@.len() + rest@.len() == orig.len(),
        decreases rest@.len(),
    {
        let ghost rest0 = rest@;
        let x = rest.remove(0);
        proof {
            rest0.to_multiset_ensures();
            assert(rest@ =~= rest0.remove(0));
            assert(rest0.remove(0).to_multiset() =~= rest0.to_multiset().remove(rest0[0]));
            assert(rest0.to_multiset().contains(rest0[0]));
        }
        let mut j: usize = 0;
        while j < out.len() && out[j].le(&x)
            invariant
                0 <= j <= out@.len(),
                forall|k: int| 0 <= k < j ==> (#[trigger] out@[k]).le_spec(x),
            decreases out@.len() - j,
        {
            j = j + 1;
        }
        let ghost out0 = out@;
        let ghost pos = j as int;
        out.insert(j, x);
        proof {
            assert(out@ =~= out0.insert(pos, x));
            lemma_insert_to_multiset(out0, pos, x);
            assert(out@.to_multiset().add(rest@.to_multiset()) =~= orig.to_multiset());
            assert forall|i: int, k: int| 0 <= i < k < out@.len() implies (
            #[trigger] out@[i]).le_spec(#[trigger] out@[k]) by {
                if i < pos && k < pos {
                    assert(out@[i] == out0[i] && out@[k] == out0[k]);
                } else if i < pos && k == pos {
                    assert(out@[i] == out0[i]);
                } else if i < pos && k > pos {
                    assert(out@[i] == out0[i] && out@[k] == out0[k - 1]);
                } else if i == pos {
                    assert(out@[k] == out0[k - 1]);
                    assert(!out0[pos].le_spec(x));
                    T::lemma_total(out0[pos], x);
                    assert(x.le_spec(out0[pos]));
                    if k - 1 > pos {
                        assert(out0[pos].le_spec(out0[k - 1]));
                        T::lemma_trans(x, out0[pos], out0[k - 1]);
                    }
                } else {
                    assert(out@[i] == out0[i - 1] && out@[k] == out0[k - 1]);
                }
            }
        }
    }
    proof {
        assert(rest@.to_multiset() =~= Multiset::<T>::empty());
        assert(out@.to_multiset() =~= orig.to_multiset());
    }
    out
}

impl SortOrd for ShapePoint {
    /// Shape points are ordered by sequence number.
    open spec fn le_spec(self, other: Self) -> bool {
        self.sequence <= other.sequence
    }

    proof fn lemma_total(a: Self, b: Self) {
    }

    proof fn lemma_trans(a: Self, b: Self, c: Self) {
    }

    fn le(&self, other: &Self) -> (r: bool) {
        self.sequence <= other.sequence
    }
}

impl SortOrd for StopTime {
    /// Stop times are ordered by their arrival-time string.
    open spec fn le_spec(self, other: Self) -> bool {
        lex_le(self.arrival_time@, other.arrival_time@)
    }

    proof fn lemma_total(a: Self, b: Self) {
        lemma_lex_le_total(a.arrival_time@, b.arrival_time@);
    }

    proof fn lemma_trans(a: Self, b: Self, c: Self) {
        lemma_lex_le_trans(a.arrival_time@, b.arrival_time@, c.arrival_time@);
    }

    fn le(&self, other: &Self) -> (r: bool) {
        str_le(self.arrival_time.as_str(), other.arrival_time.as_str())
    }
}

impl SortOrd for ScheduledArrival {
    /// Scheduled arrivals are ordered by their arrival-time string.
    open spec fn le_spec(self, other: Self) -> bool {
        lex_le(self.arrival_time@, other.arrival_time@)
    }

    proof fn lemma_total(a: Self, b: Self) {
        lemma_lex_le_total(a.arrival_time@, b.arrival_time@);
    }

    proof fn lemma_trans(a: Self, b: Self, c: Self) {
        lemma_lex_le_trans(a.arrival_time@, b.arrival_time@, c.arrival_time@);
    }

    fn le(&self, other: &Self) -> (r: bool) {
        str_le(self.arrival_time.as_str(), other.arrival_time.as_str())
    }
}

/// The sort key of a real-time entry: its timestamp, with undated entries
/// keyed past every dated one.
pub open spec fn rt_sort_key(r: RealTimeInfo) -> int {
    match r.timestamp {
        Some(t) => t as int,
        None => i64::MAX as int,
    }
}

impl SortOrd for RealTimeInfo {
    /// Real-time entries are ordered by timestamp, undated entries last.
    open spec fn le_spec(self, other: Self) -> bool {
        rt_sort_key(self) <= rt_sort_key(other)
    }

    proof fn lemma_total(a: Self, b: Self) {
    }

    proof fn lemma_trans(a: Self, b: Self, c: Self) {
    }

    fn le(&self, other: &Self) -> (r: bool) {
        let ka: i64 = match self.timestamp {
            Some(t) => t,
            None => i64::MAX,
        };
        let kb: i64 = match other.timestamp {
            Some(t) => t,
            None => i64::MAX,
        };
        ka <= kb
    }
}

impl SortOrd for String {
    /// Strings are ordered lexicographically by character scalar values.
    open spec fn le_spec(self, other: Self) -> bool {
        lex_le(self@, other@)
    }

    proof fn lemma_total(a: Self, b: Self) {
        lemma_lex_le_total(a@, b@);
    }

    proof fn lemma_trans(a: Self, b: Self, c: Self) {
        lemma_lex_le_trans(a@, b@, c@);
    }

    fn le(&self, other: &Self) -> (r: bool) {
        str_le(self.as_str(), other.as_str())
    }
}

/// Drops every string equal to an earlier one, keeping first occurrences in
/// order: afterwards the views are pairwise distinct and exactly those of
/// the input.
/// A property of every element survives any permutation.
pub proof fn lemma_multiset_preserves_pred<T>(a: Seq<T>, b: Seq<T>, pred: spec_fn(T) -> bool)
    requires
        a.to_multiset() == b.to_multiset(),
        forall|i: int| 0 <= i < a.len() ==> pred(#[trigger] a[i]),
    ensures
        forall|i: int| 0 <= i < b.len() ==> pred(#[trigger] b[i]),
{
    broadcast use vstd::seq_lib::group_to_multiset_ensures;

    assert forall|i: int| 0 <= i < b.len() implies pred(#[trigger] b[i]) by {
        assert(b.contains(b[i]));
        assert(b.to_multiset().count(b[i]) > 0);
        assert(a.to_multiset().count(b[i]) > 0);
        assert(a.contains(b[i]));
        let j = choose|j: int| 0 <= j < a.len() && a[j] == b[i];
        assert(pred(a[j]));
    }
}

/// Drops adjacent duplicates of a sorted string vector: the result is
/// sorted, pairwise distinct, and holds exactly the input's views.
pub fn dedup_sorted_strings(v: Vec<String>) -> (r: Vec<String>)
    requires
        sorted_seq(v@),
    ensures
        sorted_seq(r@),
        forall|i: int, j: int| 0 <= i < j < r@.len() ==> r@[i]@ != r@[j]@,
        forall|k: int| 0 <= k < v@.len() ==> contains_string_view(r@, (#[trigger] v@[k])@),
        drawn_from(r@, v@),
{
    let mut out: Vec<String> = Vec::new();
    let mut i: usize = 0;
    while i < v.len()
        invariant
            0 <= i <= v@.len(),
            sorted_seq(v@),
            sorted_seq(out@),
            forall|a: int, b: int| 0 <= a < b < out@.len() ==> out@[a]@ != out@[b]@,
            forall|k: int| 0 <= k < i ==> contains_string_view(out@, (#[trigger] v@[k])@),
            drawn_from(out@, v@),
            i > 0 ==> out@.len() > 0 && out@.last()@ == v@[i - 1]@,
            i == 0 ==> out@.len() == 0,
        decreases v@.len() - i,
    {
        let ghost before = out@;
        let dup = if out.len() > 0 {
            crate::strutil::str_eq(out[out.len() - 1].as_str(), v[i].as_str())
        } else {
            false
        };
        if !dup {
            out.push(v[i].clone());
            proof {
                assert(out@.last() == v@[i as int]);
                assert forall|a: int, b: int| 0 <= a < b < out@.len() implies out@[a]@
                    != out@[b]@ by {
                    if b == out@.len() - 1 && i > 0 {
                        if out@[a]@ == out@[b]@ {
                            assert(before[a]@ == v@[i as int]@);
                            assert((v@[i as int - 1]).le_spec(v@[i as int]));
                            if a < before.len() - 1 {
                                assert(before[a].le_spec(before[before.len() - 1]));
                            } else {
                                crate::strutil::lemma_lex_le_refl(before[a]@);
                            }
                            assert(lex_le(v@[i as int]@, v@[i as int - 1]@));
                            crate::strutil::lemma_lex_le_antisym(
                                v@[i as int]@,
                                v@[i as int - 1]@,
                            );
                            assert(false);
                        }
                    } else if b == out@.len() - 1 {
                        assert(before.len() == 0);
                        assert(false);
                    } else {
                        assert(out@[a] == before[a] && out@[b] == before[b]);
                    }
                }
                assert forall|a: int, b: int| 0 <= a < b < out@.len() implies (
                #[trigger] out@[a]).le_spec(#[trigger] out@[b]) by {
                    if b == out@.len() - 1 {
                        if i > 0 {
                            assert(before.last()@ == v@[i as int - 1]@);
                            assert((v@[i as int - 1]).le_spec(v@[i as int]));
                            if a < before.len() - 1 {
                                assert(before[a].le_spec(before[before.len() - 1]));
                            } else {
                                crate::strutil::lemma_lex_le_refl(before[a]@);
                            }
                            crate::strutil::lemma_lex_le_trans(
                                out@[a]@,
                                v@[i as int - 1]@,
                                v@[i as int]@,
                            );
                        }
                    } else {
                        assert(out@[a] == before[a] && out@[b] == before[b]);
                    }
                }
            }
        } else {
            proof {
                assert(out@.last()@ == v@[i as int]@);
                assert(contains_string_view(out@, v@[i as int]@));
            }
        }
        proof {
            assert forall|k: int| 0 <= k < i + 1 implies contains_string_view(
                out@,
                (#[trigger] v@[k])@,
            ) by {
                if k < i {
                    let a = choose|a: int|
                        0 <= a < before.len() && (#[trigger] before[a])@ == v@[k]@;
                    assert(out@[a]@ == v@[k]@);
                } else {
                    assert(contains_string_view(out@, v@[i as int]@));
                }
            }
        }
        i = i + 1;
    }
    out
}

/// Whether some element of `s` has the view `x`.
pub open spec fn contains_string_view(s: Seq<String>, x: Seq<char>) -> bool {
    exists|a: int| 0 <= a < s.len() && (#[trigger] s[a])@ == x
}

/// Whether every element of `r` occurs in `v`.
pub open spec fn drawn_from(r: Seq<String>, v: Seq<String>) -> bool {
    forall|i: int| 0 <= i < r.len() ==> exists|k: int| 0 <= k < v.len() && #[trigger] r[i] == v[k]
}

pub fn dedup_strings_in_order(v: Vec<String>) -> (r: Vec<String>)
    ensures
        forall|i: int, j: int| 0 <= i < j < r@.len() ==> r@[i]@ != r@[j]@,
        drawn_from(r@, v@),
        forall|k: int| 0 <= k < v@.len() ==> contains_string_view(r@, (#[trigger] v@[k])@),
{
    let mut out: Vec<String> = Vec::new();
    let mut i: usize = 0;
    while i < v.len()
        invariant
            0 <= i <= v@.len(),
            forall|a: int, b: int| 0 <= a < b < out@.len() ==> out@[a]@ != out@[b]@,
            drawn_from(out@, v@),
            forall|k: int| 0 <= k < i ==> contains_string_view(out@, (#[trigger] v@[k])@),
        decreases v@.len() - i,
    {
        let ghost before = out@;
        let mut j: usize = 0;
        while j < out.len() && !crate::strutil::str_eq(out[j].as_str(), v[i].as_str())
            invariant
                0 <= i < v@.len(),
                0 <= j <= out@.len(),
                forall|a: int| 0 <= a < j ==> (#[trigger] out@[a])@ != v@[i as int]@,
            decreases out@.len() - j,
        {
            j = j + 1;
        }
        if j == out.len() {
            out.push(v[i].clone());
        }
        proof {
            assert(out@[j as int]@ == v@[i as int]@);
            assert(contains_string_view(out@, v@[i as int]@));
            assert forall|k: int| 0 <= k < i implies contains_string_view(
                out@,
                (#[trigger] v@[k])@,
            ) by {
                let a = choose|a: int| 0 <= a < before.len() && (#[trigger] before[a])@ == v@[k]@;
                assert(out@[a]@ == v@[k]@);
            }
        }
        i = i + 1;
    }
    out
}

} // verus!
