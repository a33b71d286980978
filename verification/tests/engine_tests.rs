use mstl::{Error, StlFit, StlParams, StlSample, MSTL};

/// A deterministic integer stand-in for the smoothing primitive, so
/// the engine's control flow can be exercised without floating point.
#[derive(Clone, Copy, Debug, PartialEq, Eq)]
struct V(i64);

impl StlSample for V {
    fn zero() -> V {
        V(0)
    }

    fn add(a: V, b: V) -> V {
        V(a.0 + b.0)
    }

    fn sub(a: V, b: V) -> V {
        V(a.0 - b.0)
    }

    fn stl_fit(
        _params: &StlParams,
        series: &Vec<V>,
        period: usize,
        seasonal_window: usize,
    ) -> Result<StlFit<V>, String> {
        let n = series.len();
        let p = period as i64;
        let w = seasonal_window as i64;
        let mut trend = Vec::with_capacity(n);
        let mut seasonal = Vec::with_capacity(n);
        let mut remainder = Vec::with_capacity(n);
        let mut weights = Vec::with_capacity(n);
        for (i, x) in series.iter().enumerate() {
            seasonal.push(V((i as i64 % p) + x.0 / 4));
            trend.push(V(x.0 / 2 + w));
            remainder.push(V(0));
            weights.push(V(p));
        }
        Ok(StlFit { trend, seasonal, remainder, weights })
    }
}

/// A primitive that must never be reached.
#[derive(Clone, Copy, Debug, PartialEq, Eq)]
struct NeverFit(i64);

impl StlSample for NeverFit {
    fn zero() -> NeverFit {
        NeverFit(0)
    }

    fn add(a: NeverFit, b: NeverFit) -> NeverFit {
        NeverFit(a.0 + b.0)
    }

    fn sub(a: NeverFit, b: NeverFit) -> NeverFit {
        NeverFit(a.0 - b.0)
    }

    fn stl_fit(
        _params: &StlParams,
        _series: &Vec<NeverFit>,
        _period: usize,
        _seasonal_window: usize,
    ) -> Result<StlFit<NeverFit>, String> {
        panic!("the primitive must not be called for rejected input");
    }
}

/// A primitive that always reports a failure.
#[derive(Clone, Copy, Debug, PartialEq, Eq)]
struct AlwaysFail(i64);

impl StlSample for AlwaysFail {
    fn zero() -> AlwaysFail {
        AlwaysFail(0)
    }

    fn add(a: AlwaysFail, b: AlwaysFail) -> AlwaysFail {
        AlwaysFail(a.0 + b.0)
    }

    fn sub(a: AlwaysFail, b: AlwaysFail) -> AlwaysFail {
        AlwaysFail(a.0 - b.0)
    }

    fn stl_fit(
        _params: &StlParams,
        _series: &Vec<AlwaysFail>,
        _period: usize,
        _seasonal_window: usize,
    ) -> Result<StlFit<AlwaysFail>, String> {
        Err("smoothing went wrong".to_string())
    }
}

fn series(n: usize) -> Vec<V> {
    (0..n).map(|i| V((i as i64 * 13) % 97)).collect()
}

#[test]
fn fit_succeeds_with_full_length_components() {
    let y = series(24);
    let res = MSTL::new(y, vec![2, 3]).fit().unwrap();
    assert_eq!(res.trend().len(), 24);
    assert_eq!(res.residuals().len(), 24);
    assert_eq!(res.robust_weights().len(), 24);
    assert_eq!(res.seasonals().len(), 2);
    assert_eq!(res.seasonal(2).unwrap().len(), 24);
    assert_eq!(res.seasonal(3).unwrap().len(), 24);
    assert!(res.seasonal(5).is_none());
}

#[test]
fn fit_result_is_order_insensitive() {
    let a = MSTL::new(series(30), vec![5, 2]).fit().unwrap();
    let b = MSTL::new(series(30), vec![2, 5]).fit().unwrap();
    assert_eq!(a.trend(), b.trend());
    assert_eq!(a.residuals(), b.residuals());
    assert_eq!(a.robust_weights(), b.robust_weights());
    assert_eq!(a.seasonals().keys(), b.seasonals().keys());
    for p in a.seasonals().keys() {
        assert_eq!(a.seasonal(*p).unwrap(), b.seasonal(*p).unwrap());
    }
}

#[test]
fn fit_rejects_only_oversized_periods() {
    // Every period exceeds half the series length.
    let y = series(20);
    let r = MSTL::new(y, vec![11, 19]).fit();
    assert!(matches!(r, Err(Error::NoFitProduced)));
}

#[test]
fn fit_rejects_empty_periods_without_calling_primitive() {
    let y: Vec<NeverFit> = (0..10).map(NeverFit).collect();
    let r = MSTL::new(y, Vec::new()).fit();
    assert!(matches!(r, Err(Error::InvalidInput)));
}

#[test]
fn fit_rejects_tiny_periods_without_calling_primitive() {
    let y: Vec<NeverFit> = (0..10).map(NeverFit).collect();
    let r = MSTL::new(y, vec![1, 4]).fit();
    assert!(matches!(r, Err(Error::InvalidInput)));
}

#[test]
fn fit_wraps_primitive_failure_verbatim() {
    let y: Vec<AlwaysFail> = (0..10).map(AlwaysFail).collect();
    let r = MSTL::new(y, vec![2]).fit();
    match r {
        Err(Error::UnderlyingDecompositionFailure(m)) => {
            assert_eq!(m, "smoothing went wrong");
        },
        other => panic!("expected a wrapped failure, got {:?}", other.is_ok()),
    }
}

#[test]
fn single_period_yields_single_seasonal_entry() {
    let res = MSTL::new(series(24), vec![4]).fit().unwrap();
    assert_eq!(res.seasonals().len(), 1);
    assert_eq!(res.seasonals().keys(), &vec![4]);
}

#[test]
fn duplicate_periods_share_one_entry() {
    let res = MSTL::new(series(24), vec![4, 4]).fit().unwrap();
    assert_eq!(res.seasonals().len(), 1);
}

#[test]
fn stub_engine_numbers_match_hand_run() {
    // One period, so one outer pass and a single fit on the raw
    // series: seasonal[i] = i % 2 + y[i] / 4, trend[i] = y[i] / 2 + 11,
    // residual[i] = y[i] - seasonal[i] - trend[i], weights are the
    // period.
    let y = vec![V(8), V(12), V(20), V(40)];
    let res = MSTL::new(y.clone(), vec![2]).fit().unwrap();
    let seas: Vec<i64> = vec![0 + 2, 1 + 3, 0 + 5, 1 + 10];
    let trend: Vec<i64> = vec![4 + 11, 6 + 11, 10 + 11, 20 + 11];
    for i in 0..4 {
        assert_eq!(res.seasonal(2).unwrap()[i].0, seas[i]);
        assert_eq!(res.trend()[i].0, trend[i]);
        assert_eq!(res.residuals()[i].0, y[i].0 - seas[i] - trend[i]);
        assert_eq!(res.robust_weights()[i].0, 2);
    }
}
