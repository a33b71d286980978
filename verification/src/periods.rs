use vstd::prelude::*;
use vstd::relations::{sorted_by, total_ordering};
use vstd::seq_lib::lemma_sorted_unique;
use crate::error::Error;

verus! {

/// The ascending order by which period collections are sorted.
pub open spec fn period_leq() -> spec_fn(usize, usize) -> bool {
    |a: usize, b: usize| a <= b
}

/// The requested periods, sorted ascending. Short cycles are resolved
/// before long ones to minimize seasonal confounding.
pub open spec fn sorted_periods(periods: Seq<usize>) -> Seq<usize> {
    periods.sort_by(period_leq())
}

/// A period collection is workable when it is non-empty and every
/// period is greater than one; anything else is non-seasonal input,
/// which is not supported.
pub open spec fn valid_periods(periods: Seq<usize>) -> bool {
    periods.len() > 0 && (forall|i: int| 0 <= i < periods.len() ==> #[trigger] periods[i] > 1)
}

/// A seasonal cycle can only be estimated reliably from at least two
/// full repetitions, so a period must not exceed half the series
/// length.
pub open spec fn fits_series(p: usize, n: usize) -> bool {
    p <= n / 2
}

/// `fits_series` as a predicate on periods, for a fixed series length.
pub open spec fn fits_pred(n: usize) -> spec_fn(usize) -> bool {
    |p: usize| fits_series(p, n)
}

/// The periods that survive normalization against a series of length
/// `n`: sorted ascending and restricted to those that fit the series.
/// Duplicates are kept.
pub open spec fn surviving_periods(periods: Seq<usize>, n: usize) -> Seq<usize> {
    sorted_periods(periods).filter(fits_pred(n))
}

/// The ascending order on periods is a total ordering.
proof fn lemma_period_leq_total()
    ensures
        total_ordering(period_leq()),
{
}

/// Sorting a period collection keeps its length and its elements.
pub(crate) proof fn lemma_sorted_periods_elems(s: Seq<usize>)
    ensures
        sorted_periods(s).len() == s.len(),
        forall|x: usize| s.contains(x) <==> #[trigger] sorted_periods(s).contains(x),
        sorted_by(sorted_periods(s), period_leq()),
{
    broadcast use vstd::seq_lib::group_to_multiset_ensures;

    lemma_period_leq_total();
    s.lemma_sort_by_ensures(period_leq());
    assert(s.len() == s.to_multiset().len());
    assert(sorted_periods(s).len() == sorted_periods(s).to_multiset().len());
    assert forall|x: usize| s.contains(x) <==> #[trigger] sorted_periods(s).contains(x) by {
        assert(s.contains(x) <==> s.to_multiset().contains(x));
        assert(sorted_periods(s).contains(x) <==> sorted_periods(s).to_multiset().contains(x));
    }
}

/// Normalization depends only on the multiset of requested periods:
/// reordering the request changes neither the validation verdict, nor
/// the sorted collection, nor the surviving period list.
pub proof fn lemma_normalization_order_invariant(a: Seq<usize>, b: Seq<usize>, n: usize)
    requires
        a.to_multiset() == b.to_multiset(),
    ensures
        valid_periods(a) == valid_periods(b),
        sorted_periods(a) == sorted_periods(b),
        surviving_periods(a, n) == surviving_periods(b, n),
{
    broadcast use vstd::seq_lib::group_to_multiset_ensures;

    lemma_period_leq_total();
    a.lemma_sort_by_ensures(period_leq());
    b.lemma_sort_by_ensures(period_leq());
    lemma_sorted_unique(sorted_periods(a), sorted_periods(b), period_leq());
    assert(sorted_periods(a) == sorted_periods(b));
    assert(a.len() == a.to_multiset().len());
    assert(b.len() == b.to_multiset().len());
    assert(a.len() == b.len());
    assert forall|i: int| 0 <= i < a.len() && (forall|j: int|
        0 <= j < b.len() ==> #[trigger] b[j] > 1) implies #[trigger] a[i] > 1 by {
        assert(a.contains(a[i]));
        assert(a.to_multiset().contains(a[i]));
        assert(b.to_multiset().contains(a[i]));
        assert(b.contains(a[i]));
    }
    assert forall|i: int| 0 <= i < b.len() && (forall|j: int|
        0 <= j < a.len() ==> #[trigger] a[j] > 1) implies #[trigger] b[i] > 1 by {
        assert(b.contains(b[i]));
        assert(b.to_multiset().contains(b[i]));
        assert(a.to_multiset().contains(b[i]));
        assert(a.contains(b[i]));
    }
}

/// Filtering keeps an ascending sequence ascending, and adds nothing
/// that was not there.
proof fn lemma_filter_keeps_sorted(s: Seq<usize>, pred: spec_fn(usize) -> bool)
    requires
        sorted_by(s, period_leq()),
    ensures
        sorted_by(s.filter(pred), period_leq()),
        forall|i: int| 0 <= i < s.filter(pred).len() ==> s.contains(#[trigger] s.filter(pred)[i]),
    decreases s.len(),
{
    reveal(Seq::filter);
    if s.len() > 0 {
        let rest = s.drop_last();
        assert(forall|i: int| 0 <= i < rest.len() ==> rest[i] == s[i]);
        assert(sorted_by(rest, period_leq()));
        lemma_filter_keeps_sorted(rest, pred);
        let fr = rest.filter(pred);
        assert forall|i: int| 0 <= i < fr.len() implies s.contains(#[trigger] fr[i]) by {
            assert(rest.contains(fr[i]));
            let w = choose|k: int| 0 <= k < rest.len() && rest[k] == fr[i];
            assert(s[w] == fr[i]);
        }
        if pred(s.last()) {
            let out = s.filter(pred);
            assert(out == fr.push(s.last()));
            assert forall|i: int, j: int| 0 <= i < j < out.len() implies period_leq()(
                out[i],
                out[j],
            ) by {
                if j < fr.len() {
                } else {
                    assert(out[j] == s.last());
                    assert(s.contains(out[i]));
                    let w = choose|k: int| 0 <= k < s.len() && s[k] == out[i];
                    if w < s.len() - 1 {
                        assert(period_leq()(s[w], s.last()));
                    }
                }
            }
        }
    }
}

/// The surviving period list is sorted ascending, so each survivor's
/// rank — and with it its seasonal window — is well defined.
pub proof fn lemma_surviving_sorted(periods: Seq<usize>, n: usize)
    ensures
        sorted_by(surviving_periods(periods, n), period_leq()),
{
    lemma_sorted_periods_elems(periods);
    lemma_filter_keeps_sorted(sorted_periods(periods), fits_pred(n));
}

/// Position of a least element of a non-empty vector.
fn index_of_min(v: &Vec<usize>) -> (m: usize)
    requires
        v@.len() > 0,
    ensures
        m < v@.len(),
        forall|j: int| 0 <= j < v@.len() ==> v@[m as int] <= #[trigger] v@[j],
{
    let mut m: usize = 0;
    let mut i: usize = 1;
    while i < v.len()
        invariant
            m < i <= v@.len(),
            forall|j: int| 0 <= j < i ==> v@[m as int] <= #[trigger] v@[j],
        decreases v@.len() - i,
    {
        if v[i] < v[m] {
            m = i;
        }
        i += 1;
    }
    m
}

/// Sort the period collection ascending, in place, by repeatedly
/// extracting a least element. The collection is tiny, so the
/// quadratic cost is irrelevant.
fn sort_ascending(v: &mut Vec<usize>)
    ensures
        final(v)@ == sorted_periods(old(v)@),
{
    let ghost orig = old(v)@;
    let mut out: Vec<usize> = Vec::new();
    proof {
        broadcast use vstd::seq_lib::group_to_multiset_ensures;
        broadcast use vstd::multiset::group_multiset_axioms;

        assert(out@.to_multiset().len() == 0);
        vstd::multiset::lemma_multiset_empty_len(out@.to_multiset());
        assert(out@.to_multiset().add(v@.to_multiset()) =~= v@.to_multiset());
    }
    while v.len() > 0
        invariant
            sorted_by(out@, period_leq()),
            out@.to_multiset().add(v@.to_multiset()) == orig.to_multiset(),
            forall|i: int, j: int|
                0 <= i < out@.len() && 0 <= j < v@.len() ==> #[trigger] out@[i] <= #[trigger] v@[j],
        decreases v.len(),
    {
        let ghost out0 = out@;
        let ghost v0 = v@;
        let m = index_of_min(v);
        let x = v.remove(m);
        out.push(x);
        proof {
            broadcast use vstd::seq_lib::group_to_multiset_ensures;
            broadcast use vstd::multiset::group_multiset_axioms;

            assert(v0.contains(x));
            assert(v0.to_multiset().contains(x));
            assert(out@.to_multiset() == out0.to_multiset().insert(x));
            assert(v@.to_multiset() == v0.to_multiset().remove(x));
            assert(out@.to_multiset().add(v@.to_multiset()) =~= out0.to_multiset().add(
                v0.to_multiset(),
            ));
            // The new last element keeps the output sorted and below
            // everything that remains.
            assert(forall|i: int| 0 <= i < out0.len() ==> #[trigger] out0[i] <= x);
            assert(forall|j: int| 0 <= j < v@.len() ==> x <= #[trigger] v@[j]) by {
                assert(forall|j: int|
                    0 <= j < v@.len() ==> #[trigger] v@[j] == v0[if j < m { j } else { j + 1 }]);
            }
            assert(sorted_by(out@, period_leq()));
        }
    }
    proof {
        broadcast use vstd::seq_lib::group_to_multiset_ensures;
        broadcast use vstd::multiset::group_multiset_axioms;

        assert(v@.to_multiset().len() == 0);
        vstd::multiset::lemma_multiset_empty_len(v@.to_multiset());
        assert(out@.to_multiset() =~= orig.to_multiset());
        lemma_period_leq_total();
        orig.lemma_sort_by_ensures(period_leq());
        lemma_sorted_unique(out@, sorted_periods(orig), period_leq());
    }
    *v = out;
}

/// Remove, in place and keeping order, every period that does not fit
/// a series of length `n`.
fn retain_fitting(v: &mut Vec<usize>, n: usize)
    ensures
        final(v)@ == old(v)@.filter(fits_pred(n)),
{
    let ghost orig = old(v)@;
    let mut out: Vec<usize> = Vec::new();
    let mut i: usize = 0;
    proof {
        reveal(Seq::filter);
        assert(orig.subrange(0, 0).filter(fits_pred(n)) =~= Seq::<usize>::empty());
    }
    while i < v.len()
        invariant
            i <= v@.len(),
            v@ == orig,
            out@ == orig.subrange(0, i as int).filter(fits_pred(n)),
        decreases v@.len() - i,
    {
        proof {
            reveal(Seq::filter);
            let s = orig.subrange(0, i as int + 1);
            assert(s.drop_last() =~= orig.subrange(0, i as int));
            assert(s.last() == orig[i as int]);
            assert(s.filter(fits_pred(n)) == if fits_pred(n)(s.last()) {
                s.drop_last().filter(fits_pred(n)).push(s.last())
            } else {
                s.drop_last().filter(fits_pred(n))
            });
        }
        if v[i] <= n / 2 {
            let x = v[i];
            out.push(x);
        }
        i += 1;
    }
    proof {
        assert(orig.subrange(0, orig.len() as int) =~= orig);
    }
    *v = out;
}

/// Validate and canonicalize the requested seasonal periods against a
/// series of length `n`.
///
/// The collection is mutated in place as an observable side effect of
/// validation: it is sorted ascending, and — when validation passes —
/// every period longer than half the series is removed. Callers must
/// treat the collection as changed after the call.
///
/// Fails with [`Error::InvalidInput`] exactly when the collection is
/// empty or its smallest element is no greater than one; the
/// collection is then left sorted but unfiltered. No other
/// deduplication or bounds checking is performed.
pub fn normalize_periods(periods: &mut Vec<usize>, n: usize) -> (r: Result<(), Error>)
    ensures
        r is Ok <==> valid_periods(old(periods)@),
        r matches Err(e) ==> e == Error::InvalidInput && final(periods)@ == sorted_periods(
            old(periods)@,
        ),
        r is Ok ==> final(periods)@ == surviving_periods(old(periods)@, n),
{
    let ghost orig = old(periods)@;
    sort_ascending(periods);
    proof {
        lemma_sorted_periods_elems(orig);
    }
    if periods.len() == 0 {
        return Err(Error::InvalidInput);
    }
    let first = periods[0];
    if first <= 1 {
        proof {
            assert(sorted_periods(orig).contains(sorted_periods(orig)[0]));
            assert(orig.contains(sorted_periods(orig)[0]));
            assert(!valid_periods(orig));
        }
        return Err(Error::InvalidInput);
    }
    proof {
        let s = sorted_periods(orig);
        assert forall|i: int| 0 <= i < orig.len() implies #[trigger] orig[i] > 1 by {
            assert(orig.contains(orig[i]));
            assert(s.contains(orig[i]));
            let j = choose|j: int| 0 <= j < s.len() && s[j] == orig[i];
            if j > 0 {
                assert(period_leq()(s[0], s[j]));
            }
        }
    }
    retain_fitting(periods, n);
    Ok(())
}

/// The seasonal smoothing window for the period at 0-based position
/// `rank` in the sorted surviving list.
pub open spec fn window_for_rank(rank: int) -> int {
    7 + 4 * (rank + 1)
}

/// The seasonal smoothing windows for `k` surviving periods, by rank.
pub open spec fn spec_windows(k: nat) -> Seq<usize> {
    Seq::new(k, |i: int| window_for_rank(i) as usize)
}

/// Derive one seasonal smoothing window per surviving period.
///
/// The window depends only on the period's rank in the sorted list —
/// later (longer) periods get progressively wider windows — and never
/// on the period's numeric value. Every window is odd, as the
/// smoothing primitive requires. The heuristic is fixed, not tunable.
pub fn seasonal_windows(n_periods: usize) -> (r: Vec<usize>)
    requires
        4 * n_periods + 7 <= usize::MAX,
    ensures
        r@ == spec_windows(n_periods as nat),
        r@.len() == n_periods,
        forall|i: int| 0 <= i < n_periods ==> #[trigger] r@[i] == window_for_rank(i),
        forall|i: int| 0 <= i < n_periods ==> #[trigger] r@[i] % 2 == 1,
{
    let mut r: Vec<usize> = Vec::new();
    let mut i: usize = 0;
    while i < n_periods
        invariant
            i <= n_periods,
            4 * n_periods + 7 <= usize::MAX,
            r@.len() == i,
            forall|k: int| 0 <= k < i ==> #[trigger] r@[k] == window_for_rank(k),
        decreases n_periods - i,
    {
        let w: usize = 7 + 4 * (i + 1);
        r.push(w);
        i += 1;
    }
    proof {
        assert forall|i: int| 0 <= i < n_periods implies #[trigger] r@[i] % 2 == 1 by {
            assert(r@[i] == 7 + 4 * (i + 1));
        }
        assert(r@ =~= spec_windows(n_periods as nat));
    }
    r
}

/// Number of outer refitting passes for a given count of surviving
/// periods: a single seasonal component needs no refinement pass,
/// while several need one re-estimation pass so that each period's
/// decomposition accounts for the others' latest estimates.
pub open spec fn spec_outer_iterations(n_periods: nat) -> nat {
    if n_periods == 1 {
        1
    } else {
        2
    }
}

/// Exec counterpart of [`spec_outer_iterations`].
pub fn outer_iterations(n_periods: usize) -> (r: usize)
    ensures
        r == spec_outer_iterations(n_periods as nat),
{
    if n_periods == 1 {
        1
    } else {
        2
    }
}

} // verus!
