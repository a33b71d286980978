use mstl::{StlFit, StlParams, StlSample, MSTL};

#[test]
fn params_start_unset() {
    let p = StlParams::new();
    assert_eq!(p.seasonal_degree, None);
    assert_eq!(p.seasonal_jump, None);
    assert_eq!(p.trend_degree, None);
    assert_eq!(p.trend_jump, None);
    assert_eq!(p.low_pass_degree, None);
    assert_eq!(p.low_pass_jump, None);
    assert_eq!(p.inner_loops, None);
    assert_eq!(p.outer_loops, None);
}

#[test]
fn params_builders_set_their_field_only() {
    let p = StlParams::new()
        .seasonal_degree(0)
        .trend_degree(1)
        .low_pass_degree(1)
        .seasonal_jump(2)
        .trend_jump(3)
        .low_pass_jump(4)
        .inner_loops(2)
        .outer_loops(0);
    assert_eq!(p.seasonal_degree, Some(0));
    assert_eq!(p.trend_degree, Some(1));
    assert_eq!(p.low_pass_degree, Some(1));
    assert_eq!(p.seasonal_jump, Some(2));
    assert_eq!(p.trend_jump, Some(3));
    assert_eq!(p.low_pass_jump, Some(4));
    assert_eq!(p.inner_loops, Some(2));
    assert_eq!(p.outer_loops, Some(0));
    let q = StlParams::new().inner_loops(7);
    assert_eq!(q.inner_loops, Some(7));
    assert_eq!(q.outer_loops, None);
}

/// A primitive that reports the options it was handed, so the engine's
/// parameter plumbing is observable.
#[derive(Clone, Copy, Debug, PartialEq, Eq)]
struct EchoParams(i64);

impl StlSample for EchoParams {
    fn zero() -> EchoParams {
        EchoParams(0)
    }

    fn add(a: EchoParams, b: EchoParams) -> EchoParams {
        EchoParams(a.0 + b.0)
    }

    fn sub(a: EchoParams, b: EchoParams) -> EchoParams {
        EchoParams(a.0 - b.0)
    }

    fn stl_fit(
        params: &StlParams,
        series: &Vec<EchoParams>,
        _period: usize,
        seasonal_window: usize,
    ) -> Result<StlFit<EchoParams>, String> {
        let n = series.len();
        let loops = params.inner_loops.unwrap_or(99) as i64;
        Ok(StlFit {
            trend: vec![EchoParams(0); n],
            seasonal: vec![EchoParams(0); n],
            remainder: vec![EchoParams(0); n],
            weights: vec![EchoParams(loops * 1000 + seasonal_window as i64); n],
        })
    }
}

#[test]
fn engine_hands_options_and_window_to_primitive() {
    let y = vec![EchoParams(1); 12];
    let res = MSTL::new(y.clone(), vec![2])
        .stl_params(StlParams::new().inner_loops(5))
        .fit()
        .unwrap();
    // inner_loops reached the primitive; the single period got the
    // first seasonal window, 11.
    assert_eq!(res.robust_weights()[0].0, 5011);

    let res2 = MSTL::new(y, vec![2]).fit().unwrap();
    assert_eq!(res2.robust_weights()[0].0, 99011);
}

#[test]
fn later_periods_get_wider_windows() {
    let y = vec![EchoParams(1); 30];
    let res = MSTL::new(y, vec![2, 5]).fit().unwrap();
    // The most recent fit is for the longest period, which sits at
    // rank 1 and so is smoothed with window 15.
    assert_eq!(res.robust_weights()[0].0, 99015);
}
