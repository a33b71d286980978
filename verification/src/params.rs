use vstd::prelude::*;

verus! {

/// Shared smoothing options handed unchanged to every single-season
/// decomposition of a run.
///
/// A field left at `None` leaves the corresponding choice to the
/// primitive's own default. None of these options changes this crate's
/// control flow: they only configure the external primitive.
#[derive(Debug, Clone, Copy, PartialEq, Eq)]
pub struct StlParams {
    /// Degree of the locally fitted polynomial in seasonal smoothing.
    pub seasonal_degree: Option<usize>,
    /// Skipping stride for seasonal smoothing.
    pub seasonal_jump: Option<usize>,
    /// Degree of the locally fitted polynomial in trend smoothing.
    pub trend_degree: Option<usize>,
    /// Skipping stride for trend smoothing.
    pub trend_jump: Option<usize>,
    /// Degree of the locally fitted polynomial in low-pass smoothing.
    pub low_pass_degree: Option<usize>,
    /// Skipping stride for low-pass smoothing.
    pub low_pass_jump: Option<usize>,
    /// Number of loops for updating the seasonal and trend components.
    pub inner_loops: Option<usize>,
    /// Number of iterations of robust fitting.
    pub outer_loops: Option<usize>,
}

impl StlParams {
    /// True when every option is left to the primitive's default.
    pub open spec fn is_unset(self) -> bool {
        &&& self.seasonal_degree is None
        &&& self.seasonal_jump is None
        &&& self.trend_degree is None
        &&& self.trend_jump is None
        &&& self.low_pass_degree is None
        &&& self.low_pass_jump is None
        &&& self.inner_loops is None
        &&& self.outer_loops is None
    }

    /// Options that leave every choice to the primitive's defaults.
    pub fn new() -> (r: StlParams)
        ensures
            r.is_unset(),
    {
        StlParams {
            seasonal_degree: None,
            seasonal_jump: None,
            trend_degree: None,
            trend_jump: None,
            low_pass_degree: None,
            low_pass_jump: None,
            inner_loops: None,
            outer_loops: None,
        }
    }

    /// Set the degree of the locally fitted polynomial in seasonal
    /// smoothing.
    pub fn seasonal_degree(self, v: usize) -> (r: StlParams)
        ensures
            r == (StlParams { seasonal_degree: Some(v), ..self }),
    {
        StlParams { seasonal_degree: Some(v), ..self }
    }

    /// Set the skipping stride for seasonal smoothing.
    pub fn seasonal_jump(self, v: usize) -> (r: StlParams)
        ensures
            r == (StlParams { seasonal_jump: Some(v), ..self }),
    {
        StlParams { seasonal_jump: Some(v), ..self }
    }

    /// Set the degree of the locally fitted polynomial in trend
    /// smoothing.
    pub fn trend_degree(self, v: usize) -> (r: StlParams)
        ensures
            r == (StlParams { trend_degree: Some(v), ..self }),
    {
        StlParams { trend_degree: Some(v), ..self }
    }

    /// Set the skipping stride for trend smoothing.
    pub fn trend_jump(self, v: usize) -> (r: StlParams)
        ensures
            r == (StlParams { trend_jump: Some(v), ..self }),
    {
        StlParams { trend_jump: Some(v), ..self }
    }

    /// Set the degree of the locally fitted polynomial in low-pass
    /// smoothing.
    pub fn low_pass_degree(self, v: usize) -> (r: StlParams)
        ensures
            r == (StlParams { low_pass_degree: Some(v), ..self }),
    {
        StlParams { low_pass_degree: Some(v), ..self }
    }

    /// Set the skipping stride for low-pass smoothing.
    pub fn low_pass_jump(self, v: usize) -> (r: StlParams)
        ensures
            r == (StlParams { low_pass_jump: Some(v), ..self }),
    {
        StlParams { low_pass_jump: Some(v), ..self }
    }

    /// Set the number of loops for updating the seasonal and trend
    /// components.
    pub fn inner_loops(self, v: usize) -> (r: StlParams)
        ensures
            r == (StlParams { inner_loops: Some(v), ..self }),
    {
        StlParams { inner_loops: Some(v), ..self }
    }

    /// Set the number of iterations of robust fitting.
    pub fn outer_loops(self, v: usize) -> (r: StlParams)
        ensures
            r == (StlParams { outer_loops: Some(v), ..self }),
    {
        StlParams { outer_loops: Some(v), ..self }
    }
}

} // verus!
