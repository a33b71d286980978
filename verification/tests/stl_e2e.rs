use mstl::{StlFit, StlParams, StlSample, MSTL};

/// A floating-point sample backed by the real single-season STL
/// implementation.
#[derive(Clone, Copy, Debug, PartialEq)]
struct F(f64);

fn to_stlrs_params(p: &StlParams) -> stlrs::StlParams {
    let mut sp = stlrs::params();
    if let Some(v) = p.seasonal_degree {
        sp.seasonal_degree(v as i32);
    }
    if let Some(v) = p.seasonal_jump {
        sp.seasonal_jump(v);
    }
    if let Some(v) = p.trend_degree {
        sp.trend_degree(v as i32);
    }
    if let Some(v) = p.trend_jump {
        sp.trend_jump(v);
    }
    if let Some(v) = p.low_pass_degree {
        sp.low_pass_degree(v as i32);
    }
    if let Some(v) = p.low_pass_jump {
        sp.low_pass_jump(v);
    }
    if let Some(v) = p.inner_loops {
        sp.inner_loops(v);
    }
    if let Some(v) = p.outer_loops {
        sp.outer_loops(v);
    }
    sp
}

fn wrap(v: Vec<f64>) -> Vec<F> {
    v.into_iter().map(F).collect()
}

impl StlSample for F {
    fn zero() -> F {
        F(0.0)
    }

    fn add(a: F, b: F) -> F {
        F(a.0 + b.0)
    }

    fn sub(a: F, b: F) -> F {
        F(a.0 - b.0)
    }

    fn stl_fit(
        params: &StlParams,
        series: &Vec<F>,
        period: usize,
        seasonal_window: usize,
    ) -> Result<StlFit<F>, String> {
        let mut sp = to_stlrs_params(params);
        sp.seasonal_length(seasonal_window);
        let data: Vec<f64> = series.iter().map(|x| x.0).collect();
        match sp.fit(&data, period) {
            Ok(res) => {
                let (seasonal, trend, remainder, weights) = res.into_parts();
                Ok(StlFit {
                    trend: wrap(trend),
                    seasonal: wrap(seasonal),
                    remainder: wrap(remainder),
                    weights: wrap(weights),
                })
            }
            Err(e) => Err(e.to_string()),
        }
    }
}

/// A deterministic stand-in for two years' worth of hourly demand:
/// a slow drift plus a daily and a weekly cycle.
fn demand_series(n: usize) -> Vec<F> {
    let tau = std::f64::consts::TAU;
    (0..n)
        .map(|i| {
            let t = i as f64;
            let daily = 10.0 * (tau * t / 24.0).sin();
            let weekly = 5.0 * (tau * t / 168.0).sin();
            let bumps = 0.5 * (0.7 * t).sin();
            F(100.0 + 0.05 * t + daily + weekly + bumps)
        })
        .collect()
}

fn standard_params() -> StlParams {
    StlParams::new()
        .seasonal_degree(0)
        .seasonal_jump(1)
        .trend_degree(1)
        .trend_jump(1)
        .low_pass_degree(1)
        .low_pass_jump(1)
        .inner_loops(2)
        .outer_loops(0)
}

fn fit_demand(periods: Vec<usize>) -> mstl::MSTLDecomposition<F> {
    let y = demand_series(420);
    MSTL::new(y, periods)
        .stl_params(standard_params())
        .fit()
        .unwrap()
}

#[test]
fn hourly_scenario_decomposes_daily_and_weekly() {
    let n = 420;
    let y = demand_series(n);
    let res = fit_demand(vec![24, 168]);
    assert_eq!(res.trend().len(), n);
    assert_eq!(res.residuals().len(), n);
    assert_eq!(res.robust_weights().len(), n);
    assert_eq!(res.seasonals().keys(), &vec![24, 168]);
    let s24 = res.seasonal(24).unwrap();
    let s168 = res.seasonal(168).unwrap();
    assert_eq!(s24.len(), n);
    assert_eq!(s168.len(), n);
    // Reconstruction: trend + seasonal components + residual gives
    // back the series up to floating-point rounding.
    for i in 0..n {
        let rebuilt = res.trend()[i].0 + s24[i].0 + s168[i].0 + res.residuals()[i].0;
        assert!((rebuilt - y[i].0).abs() < 1e-6);
    }
    // The trend should sit near the drifting baseline, far from zero.
    let mean_trend: f64 = res.trend().iter().map(|x| x.0).sum::<f64>() / n as f64;
    assert!((mean_trend - 110.0).abs() < 20.0);
}

#[test]
fn runs_are_bit_identical() {
    let a = fit_demand(vec![24, 168]);
    let b = fit_demand(vec![24, 168]);
    for i in 0..420 {
        assert_eq!(a.trend()[i].0.to_bits(), b.trend()[i].0.to_bits());
        assert_eq!(a.residuals()[i].0.to_bits(), b.residuals()[i].0.to_bits());
        assert_eq!(
            a.seasonal(24).unwrap()[i].0.to_bits(),
            b.seasonal(24).unwrap()[i].0.to_bits()
        );
        assert_eq!(
            a.seasonal(168).unwrap()[i].0.to_bits(),
            b.seasonal(168).unwrap()[i].0.to_bits()
        );
        assert_eq!(
            a.robust_weights()[i].0.to_bits(),
            b.robust_weights()[i].0.to_bits()
        );
    }
}

#[test]
fn period_order_does_not_change_the_result() {
    let a = fit_demand(vec![168, 24]);
    let b = fit_demand(vec![24, 168]);
    assert_eq!(a.seasonals().keys(), b.seasonals().keys());
    for i in 0..420 {
        assert_eq!(a.trend()[i].0.to_bits(), b.trend()[i].0.to_bits());
        assert_eq!(a.residuals()[i].0.to_bits(), b.residuals()[i].0.to_bits());
        assert_eq!(
            a.seasonal(24).unwrap()[i].0.to_bits(),
            b.seasonal(24).unwrap()[i].0.to_bits()
        );
        assert_eq!(
            a.seasonal(168).unwrap()[i].0.to_bits(),
            b.seasonal(168).unwrap()[i].0.to_bits()
        );
    }
}

#[test]
fn single_period_gives_one_seasonal_component() {
    let res = fit_demand(vec![24]);
    assert_eq!(res.seasonals().len(), 1);
    assert!(res.seasonal(24).is_some());
    assert!(res.seasonal(168).is_none());
}
