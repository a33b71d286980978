use vstd::prelude::*;
use crate::error::Error;
use crate::params::StlParams;
use crate::period_map::PeriodMap;
use crate::periods::{
    fits_pred, lemma_surviving_sorted, normalize_periods, outer_iterations, period_leq,
    seasonal_windows, spec_outer_iterations, spec_windows, surviving_periods, valid_periods,
};
use crate::primitive::{seq_add, seq_sub, zeros_seq, StlFit, StlSample};
use vstd::relations::sorted_by;

verus! {

/// The modeled state of the refitting loop: the working series with
/// the current seasonal estimates removed, the current seasonal
/// estimate per surviving period, and the most recent fit's trend and
/// robust weights, if any fit has run.
pub struct EngineState<S> {
    /// The deseasonalized working series.
    pub deseas: Seq<S>,
    /// The current seasonal estimate per surviving period.
    pub seasonals: Map<usize, Seq<S>>,
    /// Trend and robust weights of the most recent fit.
    pub last: Option<(Seq<S>, Seq<S>)>,
}

/// One refit of one period: restore its current seasonal estimate onto
/// the working series, decompose for that period, keep the fresh
/// seasonal component, and remove it again, so that the next period
/// sees this period's latest effect removed.
pub open spec fn fit_step<S: StlSample>(
    params: StlParams,
    st: EngineState<S>,
    p: usize,
    w: usize,
) -> Result<EngineState<S>, String> {
    let restored = seq_add(st.deseas, st.seasonals[p]);
    match S::fit_spec(params, restored, p, w) {
        Ok(f) => Ok(
            EngineState {
                deseas: seq_sub(restored, f.seasonal@),
                seasonals: st.seasonals.insert(p, f.seasonal@),
                last: Some((f.trend@, f.weights@)),
            },
        ),
        Err(e) => Err(e),
    }
}

/// The tail of one outer pass, from position `j` on: each surviving
/// period is refitted in ascending order, with the window of its rank;
/// the first failure aborts the run.
pub open spec fn run_pass<S: StlSample>(
    params: StlParams,
    st: EngineState<S>,
    periods: Seq<usize>,
    windows: Seq<usize>,
    j: int,
) -> Result<EngineState<S>, String>
    decreases periods.len() - j,
{
    if j < 0 || j >= periods.len() {
        Ok(st)
    } else {
        match fit_step(params, st, periods[j], windows[j]) {
            Ok(s2) => run_pass(params, s2, periods, windows, j + 1),
            Err(e) => Err(e),
        }
    }
}

/// The given number of whole outer passes, applied in order.
pub open spec fn run_passes<S: StlSample>(
    params: StlParams,
    init: EngineState<S>,
    periods: Seq<usize>,
    windows: Seq<usize>,
    passes: nat,
) -> Result<EngineState<S>, String>
    decreases passes,
{
    if passes == 0 {
        Ok(init)
    } else {
        match run_passes(params, init, periods, windows, (passes - 1) as nat) {
            Ok(st) => run_pass(params, st, periods, windows, 0),
            Err(e) => Err(e),
        }
    }
}

/// The state a run starts from: the working series is the input
/// series, and every surviving period's seasonal estimate is zero.
pub open spec fn init_state<S: StlSample>(y: Seq<S>, survivors: Seq<usize>) -> EngineState<S> {
    EngineState {
        deseas: y,
        seasonals: Map::new(|p: usize| survivors.contains(p), |p: usize| zeros_seq(y.len())),
        last: None,
    }
}

/// The modeled outcome of a whole run on a valid request: take
/// normalization's survivors, give the period of each rank the window
/// of that rank, and refit once per (pass, period) pair — one pass for
/// a single survivor, two otherwise.
pub open spec fn fit_model<S: StlSample>(
    y: Seq<S>,
    periods: Seq<usize>,
    params: StlParams,
) -> Result<EngineState<S>, String> {
    let survivors = surviving_periods(periods, y.len() as usize);
    run_passes(
        params,
        init_state(y, survivors),
        survivors,
        spec_windows(survivors.len()),
        spec_outer_iterations(survivors.len()),
    )
}

/// A failed pass fails every longer run with the same error.
proof fn lemma_run_passes_err_stable<S: StlSample>(
    params: StlParams,
    init: EngineState<S>,
    periods: Seq<usize>,
    windows: Seq<usize>,
    m1: nat,
    m2: nat,
)
    requires
        m1 <= m2,
        run_passes(params, init, periods, windows, m1) is Err,
    ensures
        run_passes(params, init, periods, windows, m2) == run_passes(
            params,
            init,
            periods,
            windows,
            m1,
        ),
    decreases m2 - m1,
{
    if m2 > m1 {
        lemma_run_passes_err_stable(params, init, periods, windows, m1, (m2 - 1) as nat);
    }
}

/// The whole modeled run depends on the requested periods only through
/// their multiset: reordering the request leaves the modeled
/// decomposition unchanged, since normalization sorts before any
/// fitting.
pub proof fn lemma_fit_model_order_invariant<S: StlSample>(
    y: Seq<S>,
    a: Seq<usize>,
    b: Seq<usize>,
    params: StlParams,
)
    requires
        a.to_multiset() == b.to_multiset(),
    ensures
        fit_model::<S>(y, a, params) == fit_model::<S>(y, b, params),
{
    crate::periods::lemma_normalization_order_invariant(a, b, y.len() as usize);
}

/// The period map as the model sees it.
spec fn abs_map<S>(m: PeriodMap<S>) -> Map<usize, Seq<S>> {
    Map::new(|p: usize| m.contains_key(p), |p: usize| m.value_of(p))
}

/// The most recent fit as the model sees it.
spec fn abs_last<S>(t: Option<Vec<S>>, w: Option<Vec<S>>) -> Option<(Seq<S>, Seq<S>)> {
    match (t, w) {
        (Some(tv), Some(wv)) => Some((tv@, wv@)),
        _ => None,
    }
}

/// The loop's concrete state as the model sees it.
spec fn abs_state<S: StlSample>(
    deseas: Vec<S>,
    seasonals: PeriodMap<S>,
    t: Option<Vec<S>>,
    w: Option<Vec<S>>,
) -> EngineState<S> {
    EngineState { deseas: deseas@, seasonals: abs_map(seasonals), last: abs_last(t, w) }
}

/// A vector of `n` zero samples.
fn zeros_vec<S: StlSample>(n: usize) -> (r: Vec<S>)
    ensures
        r@ == zeros_seq::<S>(n as nat),
{
    let mut r: Vec<S> = Vec::new();
    while r.len() < n
        invariant
            r@.len() <= n,
            forall|k: int| 0 <= k < r@.len() ==> r@[k] == S::zero_spec(),
        decreases n - r@.len(),
    {
        r.push(S::zero());
    }
    proof {
        assert(r@ =~= zeros_seq::<S>(n as nat));
    }
    r
}

/// Add `src` onto `dest`, element by element.
fn add_assign<S: StlSample>(dest: &mut Vec<S>, src: &Vec<S>)
    requires
        old(dest)@.len() == src@.len(),
    ensures
        final(dest)@ == seq_add(old(dest)@, src@),
{
    let ghost d0 = old(dest)@;
    let mut j: usize = 0;
    while j < dest.len()
        invariant
            j <= dest@.len(),
            dest@.len() == d0.len(),
            d0.len() == src@.len(),
            forall|i: int| 0 <= i < j ==> dest@[i] == S::add_spec(d0[i], src@[i]),
            forall|i: int| j <= i < dest@.len() ==> dest@[i] == d0[i],
        decreases dest@.len() - j,
    {
        let x = S::add(dest[j], src[j]);
        dest.set(j, x);
        j += 1;
    }
    proof {
        assert(dest@ =~= seq_add(d0, src@));
    }
}

/// Subtract `src` from `dest`, element by element.
fn sub_assign<S: StlSample>(dest: &mut Vec<S>, src: &Vec<S>)
    requires
        old(dest)@.len() == src@.len(),
    ensures
        final(dest)@ == seq_sub(old(dest)@, src@),
{
    let ghost d0 = old(dest)@;
    let mut j: usize = 0;
    while j < dest.len()
        invariant
            j <= dest@.len(),
            dest@.len() == d0.len(),
            d0.len() == src@.len(),
            forall|i: int| 0 <= i < j ==> dest@[i] == S::sub_spec(d0[i], src@[i]),
            forall|i: int| j <= i < dest@.len() ==> dest@[i] == d0[i],
        decreases dest@.len() - j,
    {
        let x = S::sub(dest[j], src[j]);
        dest.set(j, x);
        j += 1;
    }
    proof {
        assert(dest@ =~= seq_sub(d0, src@));
    }
}

/// The result of a multi-seasonal decomposition: the final trend, one
/// seasonal component per surviving period, the residuals, and the
/// robust weights of the most recent fit.
///
/// Created once, atomically, at the end of a successful run; read-only
/// afterwards.
pub struct MSTLDecomposition<S> {
    trend: Vec<S>,
    seasonal: PeriodMap<S>,
    residuals: Vec<S>,
    robust_weights: Vec<S>,
}

impl<S> MSTLDecomposition<S> {
    /// The trend component.
    pub closed spec fn trend_seq(self) -> Seq<S> {
        self.trend@
    }

    /// The seasonal components, keyed by period.
    pub closed spec fn seasonal_map(self) -> PeriodMap<S> {
        self.seasonal
    }

    /// The residual component.
    pub closed spec fn residual_seq(self) -> Seq<S> {
        self.residuals@
    }

    /// The robust weights.
    pub closed spec fn weight_seq(self) -> Seq<S> {
        self.robust_weights@
    }

    /// Whether a seasonal component is held for `period`.
    pub open spec fn has_period(self, period: usize) -> bool {
        self.seasonal_map().contains_key(period)
    }

    /// The period map is well formed, and every component — the trend,
    /// the residuals, the robust weights, and each seasonal sequence —
    /// has length exactly `n`.
    pub open spec fn wf(self, n: nat) -> bool {
        &&& self.seasonal_map().wf()
        &&& self.trend_seq().len() == n
        &&& self.residual_seq().len() == n
        &&& self.weight_seq().len() == n
        &&& forall|p: usize|
            self.has_period(p) ==> (#[trigger] self.seasonal_map().value_of(p)).len() == n
    }

    /// Return the trend component.
    pub fn trend(&self) -> (r: &Vec<S>)
        ensures
            r@ == self.trend_seq(),
    {
        &self.trend
    }

    /// Return the seasonal component for a given period, or `None` if
    /// that period is not part of the decomposition.
    pub fn seasonal(&self, period: usize) -> (r: Option<&Vec<S>>)
        requires
            self.seasonal_map().wf(),
        ensures
            r is Some <==> self.has_period(period),
            r matches Some(v) ==> v@ == self.seasonal_map().value_of(period),
    {
        if self.seasonal.contains(period) {
            Some(self.seasonal.get_existing(period))
        } else {
            None
        }
    }

    /// Return the full mapping from period to seasonal component.
    pub fn seasonals(&self) -> (r: &PeriodMap<S>)
        ensures
            *r == self.seasonal_map(),
    {
        &self.seasonal
    }

    /// Return the residuals.
    pub fn residuals(&self) -> (r: &Vec<S>)
        ensures
            r@ == self.residual_seq(),
    {
        &self.residuals
    }

    /// Return the robust weights.
    pub fn robust_weights(&self) -> (r: &Vec<S>)
        ensures
            r@ == self.weight_seq(),
    {
        &self.robust_weights
    }
}

/// Multiple seasonal-trend decomposition of a time series.
///
/// The decomposer owns the series and the period collection for the
/// run; the requested periods are normalized — sorted ascending and
/// filtered — as part of fitting, and the surviving periods are handed
/// back to the caller as the keys of the resulting seasonal map.
/// Calling [`MSTL::fit`] runs one single-season STL fit per (outer
/// pass, period) pair, in ascending period order, and returns the
/// final trend, seasonal, and remainder components.
pub struct MSTL<S: StlSample> {
    y: Vec<S>,
    periods: Vec<usize>,
    stl_params: StlParams,
}

impl<S: StlSample> MSTL<S> {
    /// The series to decompose.
    pub closed spec fn series_seq(self) -> Seq<S> {
        self.y@
    }

    /// The requested periods, as supplied.
    pub closed spec fn period_seq(self) -> Seq<usize> {
        self.periods@
    }

    /// The shared smoothing options.
    pub closed spec fn params_spec(self) -> StlParams {
        self.stl_params
    }

    /// Create a new decomposition of `y` with the given seasonal
    /// periods.
    ///
    /// Call `fit` to run the decomposition.
    pub fn new(y: Vec<S>, periods: Vec<usize>) -> (r: MSTL<S>)
        ensures
            r.series_seq() == y@,
            r.period_seq() == periods@,
            r.params_spec().is_unset(),
    {
        MSTL { y, periods, stl_params: StlParams::new() }
    }

    /// Set the options shared by each individual STL fit.
    pub fn stl_params(self, params: StlParams) -> (r: MSTL<S>)
        ensures
            r.series_seq() == self.series_seq(),
            r.period_seq() == self.period_seq(),
            r.params_spec() == params,
    {
        MSTL { stl_params: params, ..self }
    }

    /// Run the decomposition.
    ///
    /// The requested periods are first sorted ascending and validated:
    /// an empty collection, or a smallest period no greater than one,
    /// fails with [`Error::InvalidInput`] before any decomposition
    /// work. Periods longer than half the series are then dropped; if
    /// none survives, the run fails with [`Error::NoFitProduced`].
    /// Otherwise the run is exactly what [`fit_model`] describes: one
    /// STL fit per (outer pass, period) pair in ascending period
    /// order, each pass re-estimating one period's seasonal component
    /// with the others' latest estimates removed from the working
    /// series; the final trend and robust weights are the most recent
    /// fit's, and the residuals are the working series minus that
    /// trend. A failure of the external primitive is wrapped verbatim
    /// in [`Error::UnderlyingDecompositionFailure`] and aborts the
    /// run. On success, every returned component has the length of the
    /// series, and the seasonal map holds exactly the surviving
    /// periods.
    pub fn fit(self) -> (r: Result<MSTLDecomposition<S>, Error>)
        requires
            4 * self.period_seq().len() + 7 <= usize::MAX,
        ensures
            (r matches Err(Error::InvalidInput)) <==> !valid_periods(self.period_seq()),
            (r matches Err(Error::NoFitProduced)) <==> (valid_periods(self.period_seq())
                && surviving_periods(
                self.period_seq(),
                self.series_seq().len() as usize,
            ).len() == 0),
            (r matches Err(Error::UnderlyingDecompositionFailure(_))) ==> (valid_periods(
                self.period_seq(),
            ) && surviving_periods(
                self.period_seq(),
                self.series_seq().len() as usize,
            ).len() > 0),
            r matches Ok(d) ==> {
                &&& valid_periods(self.period_seq())
                &&& surviving_periods(self.period_seq(), self.series_seq().len() as usize).len()
                    > 0
                &&& d.wf(self.series_seq().len())
                &&& sorted_by(d.seasonal_map().key_seq(), period_leq())
                &&& forall|p: usize|
                    #[trigger] d.has_period(p) <==> surviving_periods(
                        self.period_seq(),
                        self.series_seq().len() as usize,
                    ).contains(p)
            },
            (valid_periods(self.period_seq()) && surviving_periods(
                self.period_seq(),
                self.series_seq().len() as usize,
            ).len() > 0) ==> ({
                let model = fit_model::<S>(
                    self.series_seq(),
                    self.period_seq(),
                    self.params_spec(),
                );
                &&& (r is Ok <==> model is Ok)
                &&& (model matches Ok(st) ==> (r matches Ok(d) && st.last matches Some(tw)
                    && d.trend_seq() == tw.0 && d.weight_seq() == tw.1 && d.residual_seq()
                    == seq_sub(st.deseas, tw.0) && (forall|p: usize|
                    #[trigger] d.has_period(p) ==> d.seasonal_map().value_of(p)
                        == st.seasonals[p])))
                &&& (model matches Err(e) ==> (r matches Err(
                    Error::UnderlyingDecompositionFailure(m),
                ) && m == e))
            }),
    {
        let MSTL { y, mut periods, stl_params } = self;
        let ghost y0 = y@;
        let n = y.len();
        match normalize_periods(&mut periods, n) {
            Err(e) => {
                return Err(e);
            },
            Ok(()) => {},
        }
        proof {
            crate::periods::lemma_sorted_periods_elems(self.period_seq());
            crate::periods::sorted_periods(self.period_seq()).lemma_filter_len(fits_pred(n));
            lemma_surviving_sorted(self.period_seq(), n);
        }
        let windows = seasonal_windows(periods.len());
        let iterate = outer_iterations(periods.len());
        let ghost init = init_state::<S>(y0, periods@);
        // One zeroed seasonal estimate per distinct surviving period.
        let mut seasonals: PeriodMap<S> = PeriodMap::new();
        let mut j: usize = 0;
        while j < periods.len()
            invariant
                j <= periods@.len(),
                sorted_by(periods@, period_leq()),
                seasonals.wf(),
                sorted_by(seasonals.key_seq(), period_leq()),
                forall|q: usize|
                    #[trigger] seasonals.contains_key(q) <==> periods@.subrange(
                        0,
                        j as int,
                    ).contains(q),
                forall|q: usize|
                    #[trigger] seasonals.contains_key(q) ==> seasonals.value_of(q) == zeros_seq::<
                        S,
                    >(n as nat),
            decreases periods@.len() - j,
        {
            let p = periods[j];
            let ghost sub0 = periods@.subrange(0, j as int);
            let ghost sub1 = periods@.subrange(0, j as int + 1);
            proof {
                assert(sub1 =~= sub0.push(periods@[j as int]));
            }
            let ghost m0 = seasonals;
            if !seasonals.contains(p) {
                let z = zeros_vec::<S>(n);
                seasonals.insert(p, z);
                proof {
                    let ks = seasonals.key_seq();
                    let ks0 = m0.key_seq();
                    assert(ks == ks0.push(p));
                    assert forall|a: int, b: int| 0 <= a < b < ks.len() implies period_leq()(
                        ks[a],
                        ks[b],
                    ) by {
                        if b < ks0.len() {
                            assert(period_leq()(ks0[a], ks0[b]));
                        } else {
                            assert(ks[b] == p);
                            assert(ks0.contains(ks0[a]));
                            assert(m0.contains_key(ks0[a]));
                            assert(sub0.contains(ks0[a]));
                            let w = choose|k: int| 0 <= k < sub0.len() && sub0[k] == ks0[a];
                            assert(periods@[w] == ks0[a]);
                            assert(period_leq()(periods@[w], periods@[j as int]));
                        }
                    }
                    assert(sorted_by(seasonals.key_seq(), period_leq()));
                }
            }
            proof {
                assert forall|q: usize| #[trigger] seasonals.contains_key(q) <==> sub1.contains(
                    q,
                ) by {
                    if sub1.contains(q) {
                        let w = choose|k: int| 0 <= k < sub1.len() && sub1[k] == q;
                        if w < j as int {
                            assert(sub0[w] == q);
                        } else {
                            assert(q == p);
                        }
                    }
                    if sub0.contains(q) {
                        let w = choose|k: int| 0 <= k < sub0.len() && sub0[k] == q;
                        assert(sub1[w] == q);
                    }
                    if q == p {
                        assert(sub1[j as int] == q);
                    }
                }
            }
            j += 1;
        }
        proof {
            assert(periods@.subrange(0, periods@.len() as int) =~= periods@);
            assert forall|q: usize|
                abs_map(seasonals).dom().contains(q) <==> init.seasonals.dom().contains(q) by {
                assert(seasonals.contains_key(q) <==> periods@.contains(q));
            }
            assert forall|q: usize| #[trigger]
                init.seasonals.dom().contains(q) implies abs_map(seasonals)[q]
                == init.seasonals[q] by {
                assert(seasonals.contains_key(q));
                assert(seasonals.value_of(q) == zeros_seq::<S>(n as nat));
                assert(init.seasonals[q] == zeros_seq::<S>(y0.len()));
                assert(y0.len() == n as nat);
            }
            assert(abs_map(seasonals) =~= init.seasonals);
        }
        // The working series starts as the input series; each pass
        // restores one period's current seasonal estimate, re-fits,
        // and removes the fresh estimate again.
        let mut deseas = y;
        let mut last_trend: Option<Vec<S>> = None;
        let mut last_weights: Option<Vec<S>> = None;
        let mut it: usize = 0;
        proof {
            assert(run_passes(stl_params, init, periods@, windows@, 0nat) == Ok::<
                EngineState<S>,
                String,
            >(abs_state(deseas, seasonals, last_trend, last_weights)));
        }
        while it < iterate
            invariant
                it <= iterate,
                1 <= iterate <= 2,
                n == self.series_seq().len(),
                stl_params == self.params_spec(),
                valid_periods(self.period_seq()),
                periods@ == surviving_periods(self.period_seq(), n),
                windows@ == spec_windows(periods@.len() as nat),
                iterate == spec_outer_iterations(periods@.len() as nat),
                init == init_state::<S>(self.series_seq(), periods@),
                run_passes(stl_params, init, periods@, windows@, it as nat) == Ok::<
                    EngineState<S>,
                    String,
                >(abs_state(deseas, seasonals, last_trend, last_weights)),
                deseas@.len() == n,
                seasonals.wf(),
                sorted_by(seasonals.key_seq(), period_leq()),
                forall|q: usize| #[trigger] seasonals.contains_key(q) <==> periods@.contains(q),
                forall|q: usize|
                    #[trigger] seasonals.contains_key(q) ==> seasonals.value_of(q).len() == n,
                last_trend is Some <==> last_weights is Some,
                last_trend is Some ==> periods@.len() > 0,
                last_trend matches Some(t) ==> t@.len() == n,
                last_weights matches Some(w) ==> w@.len() == n,
                it > 0 && periods@.len() > 0 ==> last_trend is Some,
            decreases iterate - it,
        {
            let ghost st0 = abs_state(deseas, seasonals, last_trend, last_weights);
            let mut k: usize = 0;
            while k < periods.len()
                invariant
                    k <= periods@.len(),
                    it < iterate,
                    1 <= iterate <= 2,
                    n == self.series_seq().len(),
                    stl_params == self.params_spec(),
                    valid_periods(self.period_seq()),
                    periods@ == surviving_periods(self.period_seq(), n),
                    windows@ == spec_windows(periods@.len() as nat),
                    iterate == spec_outer_iterations(periods@.len() as nat),
                    init == init_state::<S>(self.series_seq(), periods@),
                    run_passes(stl_params, init, periods@, windows@, it as nat) == Ok::<
                        EngineState<S>,
                        String,
                    >(st0),
                    run_pass(stl_params, st0, periods@, windows@, 0) == run_pass(
                        stl_params,
                        abs_state(deseas, seasonals, last_trend, last_weights),
                        periods@,
                        windows@,
                        k as int,
                    ),
                    deseas@.len() == n,
                    seasonals.wf(),
                    sorted_by(seasonals.key_seq(), period_leq()),
                    forall|q: usize| #[trigger] seasonals.contains_key(q) <==> periods@.contains(q),
                    forall|q: usize|
                        #[trigger] seasonals.contains_key(q) ==> seasonals.value_of(q).len() == n,
                    last_trend is Some <==> last_weights is Some,
                    last_trend is Some ==> periods@.len() > 0,
                    last_trend matches Some(t) ==> t@.len() == n,
                    last_weights matches Some(w) ==> w@.len() == n,
                    k > 0 ==> last_trend is Some,
                decreases periods@.len() - k,
            {
                let p = periods[k];
                let w = windows[k];
                proof {
                    assert(periods@.contains(periods@[k as int]));
                    assert(seasonals.contains_key(p));
                    assert(seasonals.value_of(p).len() == n);
                    assert(self.series_seq().len() as usize == n);
                }
                let ghost a0 = abs_state(deseas, seasonals, last_trend, last_weights);
                let seas: &Vec<S> = seasonals.get_existing(p);
                add_assign(&mut deseas, seas);
                proof {
                    assert(a0.seasonals[p] == seasonals.value_of(p));
                    assert(deseas@ == seq_add(a0.deseas, a0.seasonals[p]));
                }
                let ghost restored = deseas@;
                match S::stl_fit(&stl_params, &deseas, p, w) {
                    Err(m) => {
                        proof {
                            assert(S::fit_spec(stl_params, restored, p, w) == Err::<
                                StlFit<S>,
                                String,
                            >(m));
                            assert(fit_step(stl_params, a0, p, w) == Err::<
                                EngineState<S>,
                                String,
                            >(m));
                            assert(run_pass(stl_params, a0, periods@, windows@, k as int) == Err::<
                                EngineState<S>,
                                String,
                            >(m));
                            assert(run_passes(
                                stl_params,
                                init,
                                periods@,
                                windows@,
                                (it + 1) as nat,
                            ) == Err::<EngineState<S>, String>(m));
                            lemma_run_passes_err_stable(
                                stl_params,
                                init,
                                periods@,
                                windows@,
                                (it + 1) as nat,
                                iterate as nat,
                            );
                            assert(fit_model::<S>(
                                self.series_seq(),
                                self.period_seq(),
                                self.params_spec(),
                            ) == Err::<EngineState<S>, String>(m));
                        }
                        return Err(Error::UnderlyingDecompositionFailure(m));
                    },
                    Ok(f) => {
                        let ghost fg = f;
                        proof {
                            assert(S::fit_spec(stl_params, restored, p, w) == Ok::<
                                StlFit<S>,
                                String,
                            >(fg));
                            assert(fg.wf(restored.len()));
                        }
                        let StlFit { trend, seasonal, remainder: _, weights } = f;
                        sub_assign(&mut deseas, &seasonal);
                        let ghost pm0 = seasonals;
                        seasonals.replace(p, seasonal);
                        last_trend = Some(trend);
                        last_weights = Some(weights);
                        proof {
                            assert(seasonals.key_seq() == pm0.key_seq());
                            assert forall|q: usize| #[trigger]
                                seasonals.contains_key(q) <==> periods@.contains(q) by {
                                assert(pm0.contains_key(q) <==> periods@.contains(q));
                            }
                            assert forall|q: usize| #[trigger]
                                seasonals.contains_key(q) implies seasonals.value_of(q).len()
                                == n by {
                                if q == p {
                                    assert(seasonals.value_of(p) == fg.seasonal@);
                                } else {
                                    assert(pm0.contains_key(q));
                                    assert(seasonals.value_of(q) == pm0.value_of(q));
                                }
                            }
                            let a1 = abs_state(deseas, seasonals, last_trend, last_weights);
                            let mid = EngineState::<S> {
                                deseas: seq_sub(restored, fg.seasonal@),
                                seasonals: a0.seasonals.insert(p, fg.seasonal@),
                                last: Some((fg.trend@, fg.weights@)),
                            };
                            assert(fit_step(stl_params, a0, p, w) == Ok::<
                                EngineState<S>,
                                String,
                            >(mid));
                            assert(a1.deseas == mid.deseas);
                            assert forall|q: usize|
                                a1.seasonals.dom().contains(q) <==> mid.seasonals.dom().contains(
                                q,
                            ) by {
                                assert(seasonals.contains_key(q) <==> pm0.contains_key(q));
                            }
                            assert forall|q: usize| #[trigger]
                                mid.seasonals.dom().contains(q) implies a1.seasonals[q]
                                == mid.seasonals[q] by {
                                assert(a1.seasonals[q] == seasonals.value_of(q));
                                if q == p {
                                    assert(seasonals.value_of(p) == fg.seasonal@);
                                } else {
                                    assert(pm0.contains_key(q));
                                    assert(seasonals.value_of(q) == pm0.value_of(q));
                                    assert(a0.seasonals[q] == pm0.value_of(q));
                                }
                            }
                            assert(a1.seasonals =~= mid.seasonals);
                            assert(a1.last == mid.last);
                            assert(a1 == mid);
                            assert(run_pass(stl_params, a0, periods@, windows@, k as int)
                                == run_pass(stl_params, a1, periods@, windows@, k as int + 1));
                        }
                    },
                }
                k += 1;
            }
            proof {
                let cur = abs_state(deseas, seasonals, last_trend, last_weights);
                assert(run_pass(stl_params, cur, periods@, windows@, k as int) == Ok::<
                    EngineState<S>,
                    String,
                >(cur));
                assert(run_passes(stl_params, init, periods@, windows@, (it + 1) as nat) == Ok::<
                    EngineState<S>,
                    String,
                >(cur));
            }
            it += 1;
        }
        // The final trend and robust weights come from the single most
        // recent fit; nothing was fitted only if no period survived.
        let ghost final_state = abs_state(deseas, seasonals, last_trend, last_weights);
        match (last_trend, last_weights) {
            (Some(trend), Some(weights)) => {
                proof {
                    assert(self.series_seq().len() as usize == n);
                    assert(run_passes(stl_params, init, periods@, windows@, iterate as nat)
                        == Ok::<EngineState<S>, String>(final_state));
                    assert(fit_model::<S>(
                        self.series_seq(),
                        self.period_seq(),
                        self.params_spec(),
                    ) == Ok::<EngineState<S>, String>(final_state));
                    assert(final_state.last == Some((trend@, weights@)));
                }
                sub_assign(&mut deseas, &trend);
                let result = MSTLDecomposition {
                    trend,
                    seasonal: seasonals,
                    residuals: deseas,
                    robust_weights: weights,
                };
                proof {
                    assert forall|q: usize| #[trigger]
                        result.has_period(q) implies result.seasonal_map().value_of(q)
                        == final_state.seasonals[q] by {
                        assert(abs_map(seasonals)[q] == seasonals.value_of(q));
                    }
                }
                Ok(result)
            },
            _ => Err(Error::NoFitProduced),
        }
    }
}

} // verus!
