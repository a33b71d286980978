use vstd::prelude::*;
use crate::params::StlParams;

verus! {

/// One single-season decomposition: four components, each exactly as
/// long as the decomposed series.
pub struct StlFit<S> {
    /// Trend component.
    pub trend: Vec<S>,
    /// Seasonal component for the fitted period.
    pub seasonal: Vec<S>,
    /// Remainder after removing trend and seasonal component.
    pub remainder: Vec<S>,
    /// Per-observation weights produced by the robustness iterations.
    pub weights: Vec<S>,
}

impl<S> StlFit<S> {
    /// Every component has the length of the decomposed series.
    pub open spec fn wf(self, n: nat) -> bool {
        &&& self.trend@.len() == n
        &&& self.seasonal@.len() == n
        &&& self.remainder@.len() == n
        &&& self.weights@.len() == n
    }
}

/// The sample type of a series, together with the external
/// single-season decomposition primitive that works on it.
///
/// The decomposition engine is generic over this narrow capability —
/// (series, period, window, options) to (trend, seasonal, remainder,
/// weights) — so the primitive can be supplied, swapped or stubbed
/// without reimplementing local-regression smoothing here.
///
/// Each executable operation is paired with an uninterpreted spec
/// function naming its outcome: the primitive is a blocking,
/// deterministic function of its arguments, so `stl_fit` on given
/// arguments has one result, named by `fit_spec`, and likewise for the
/// sample arithmetic. The engine's own contract is stated over those
/// names, which makes its result a function of its inputs.
///
/// The engine is verified for every implementation that honors these
/// obligations. Implementations live outside the verified crate (the
/// usual primitive is robust loess smoothing on floating-point
/// samples), so the obligations — each call returns its named,
/// deterministic outcome, and a successful fit returns components
/// exactly as long as its input — are trusted assumptions about them,
/// not something checked here.
pub trait StlSample: Sized + Copy {
    /// The value that [`StlSample::zero`] returns: some fixed value
    /// of the type. The body is closed and nothing in the crate
    /// unfolds it; it only fixes that the value is the same at every
    /// use.
    closed spec fn zero_spec() -> Self {
        vstd::pervasive::arbitrary()
    }

    /// The value that [`StlSample::add`] returns on `a` and `b`. The
    /// closed body only fixes that the value depends on `a` and `b`
    /// alone; nothing in the crate unfolds it.
    closed spec fn add_spec(a: Self, b: Self) -> Self {
        (choose|t: (Self, Self, Self, int)| t.1 == a && t.2 == b && t.3 == 0).0
    }

    /// The value that [`StlSample::sub`] returns on `a` and `b`. The
    /// closed body only fixes that the value depends on `a` and `b`
    /// alone; nothing in the crate unfolds it.
    closed spec fn sub_spec(a: Self, b: Self) -> Self {
        (choose|t: (Self, Self, Self, int)| t.1 == a && t.2 == b && t.3 == 1).0
    }

    /// The outcome of the decomposition primitive on the given
    /// arguments: the primitive is deterministic, so its result is a
    /// function of them alone, which is all the closed body fixes;
    /// nothing in the crate unfolds it.
    closed spec fn fit_spec(
        params: StlParams,
        series: Seq<Self>,
        period: usize,
        seasonal_window: usize,
    ) -> Result<StlFit<Self>, String> {
        (choose|t: (Result<StlFit<Self>, String>, StlParams, Seq<Self>, usize, usize)|
            t.1 == params && t.2 == series && t.3 == period && t.4 == seasonal_window).0
    }

    /// The additive identity, the initial estimate of every seasonal
    /// component.
    fn zero() -> (r: Self)
        ensures
            r == Self::zero_spec(),
    ;

    /// Sample addition, used to restore a seasonal effect onto the
    /// working series.
    fn add(a: Self, b: Self) -> (r: Self)
        ensures
            r == Self::add_spec(a, b),
    ;

    /// Sample subtraction, used to remove a seasonal effect from the
    /// working series.
    fn sub(a: Self, b: Self) -> (r: Self)
        ensures
            r == Self::sub_spec(a, b),
    ;

    /// Decompose `series` for one seasonal `period`, smoothing the
    /// seasonal component over `seasonal_window`, under the shared
    /// options `params`. A failure message is reported verbatim.
    fn stl_fit(
        params: &StlParams,
        series: &Vec<Self>,
        period: usize,
        seasonal_window: usize,
    ) -> (r: Result<StlFit<Self>, String>)
        ensures
            r == Self::fit_spec(*params, series@, period, seasonal_window),
            r matches Ok(f) ==> f.wf(series@.len() as nat),
    ;
}

/// A sequence of `n` zero samples.
pub open spec fn zeros_seq<S: StlSample>(n: nat) -> Seq<S> {
    Seq::new(n, |i: int| S::zero_spec())
}

/// Element-wise sample addition, over the length of `a`.
pub open spec fn seq_add<S: StlSample>(a: Seq<S>, b: Seq<S>) -> Seq<S> {
    Seq::new(a.len(), |i: int| S::add_spec(a[i], b[i]))
}

/// Element-wise sample subtraction, over the length of `a`.
pub open spec fn seq_sub<S: StlSample>(a: Seq<S>, b: Seq<S>) -> Seq<S> {
    Seq::new(a.len(), |i: int| S::sub_spec(a[i], b[i]))
}

} // verus!
