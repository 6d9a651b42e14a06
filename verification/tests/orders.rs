use fluxquant::bootstrap::{bootstrap_draws, derive_path_seed, vol_position};
use fluxquant::dashboard::{fan_chart_indices, fan_chart_step};
use fluxquant::orders::{first_candidate, next_candidate, sarima_order_label, selected_order_label};
use fluxquant::settings::{
    forecast_weeks, history_range, report_weeks, resolve_bootstrap_paths, resolve_forecast_years,
    resolve_garch_order, resolve_history_years, resolve_sarima_order, resolve_ticker,
    sarima_mode_is_manual, wizard_bootstrap_paths, wizard_ticker, GarchSettings, HistoryRange, SarimaSettings,
    SimulationSettings,
};
use fluxquant::text::parse_usize;
use fluxquant::validation::{
    check_closing_prices, check_garch_sample, check_volatility_data, check_weekly_sample, garch_grid_exhausted,
};
use fluxquant::{FluxError, GarchOrder, SarimaOrder};

#[test]
fn sarima_labels() {
    assert_eq!(sarima_order_label(1, 1, 1, 1, 1, 1, 52), "(1,1,1)(1,1,1)[52]");
    assert_eq!(sarima_order_label(2, 0, 10, 0, 1, 0, 4), "(2,0,10)(0,1,0)[4]");
    assert_eq!(selected_order_label(None), "AutoARIMA");
    assert_eq!(selected_order_label(Some((0, 1, 2, 0, 0, 1, 52))), "(0,1,2)(0,0,1)[52]");
}

fn walk_grid(max_p: usize, max_q: usize) -> Vec<(usize, usize)> {
    let mut out = Vec::new();
    let mut c = first_candidate(max_p, max_q);
    while let Some(o) = c {
        out.push(o);
        c = next_candidate(o, max_p, max_q);
    }
    out
}

#[test]
fn garch_grid_is_p_major() {
    assert_eq!(walk_grid(2, 3), vec![(1, 1), (1, 2), (1, 3), (2, 1), (2, 2), (2, 3)]);
    assert!(walk_grid(0, 3).is_empty());
    assert!(walk_grid(3, 0).is_empty());
    assert_eq!(walk_grid(3, 3).len(), 9);
    assert_eq!(next_candidate((usize::MAX, usize::MAX), usize::MAX, usize::MAX), None);
}

#[test]
fn sample_checks() {
    assert!(check_garch_sample(12).is_ok());
    assert!(matches!(check_garch_sample(11), Err(FluxError::GARCHError(m)) if m == "Need at least 12 observations for GARCH fitting"));
    assert!(check_weekly_sample(20).is_ok());
    assert!(matches!(check_weekly_sample(19), Err(FluxError::SimulationError(m)) if m == "Need at least 20 weekly observations"));
    assert!(check_volatility_data(1).is_ok());
    assert!(matches!(check_volatility_data(0), Err(FluxError::VolatilityError(m)) if m == "Dataset is empty"));
    assert!(matches!(garch_grid_exhausted(3, 2), FluxError::GARCHError(m) if m == "All GARCH models failed for p=1..3, q=1..2"));
}

fn sarima(mode: Option<&str>) -> SarimaSettings {
    SarimaSettings {
        mode: mode.map(|m| m.to_string()),
        seasonal_period: None,
        p: Some(2),
        d: None,
        q: Some(0),
        P: None,
        D: Some(0),
        Q: None,
    }
}

#[test]
fn sarima_resolution() {
    let auto = "auto".to_string();
    let manual = "manual".to_string();
    assert!(matches!(
        resolve_sarima_order(&None, &auto, 52),
        SarimaOrder::Auto { seasonal_period: 52 }
    ));
    assert!(matches!(
        resolve_sarima_order(&Some(sarima(Some("manual"))), &auto, 12),
        SarimaOrder::Manual { p: 2, d: 1, q: 0, P: 1, D: 0, Q: 1, s: 12 }
    ));
    // the command line's mode applies when the file gives none
    assert!(matches!(
        resolve_sarima_order(&Some(sarima(None)), &manual, 4),
        SarimaOrder::Manual { p: 2, s: 4, .. }
    ));
    // the file's mode wins over the command line's
    assert!(matches!(
        resolve_sarima_order(&Some(sarima(Some("auto"))), &manual, 4),
        SarimaOrder::Auto { seasonal_period: 4 }
    ));
    let mut with_period = sarima(Some("auto"));
    with_period.seasonal_period = Some(26);
    assert!(matches!(
        resolve_sarima_order(&Some(with_period), &auto, 52),
        SarimaOrder::Auto { seasonal_period: 26 }
    ));
    assert!(sarima_mode_is_manual(&None, &manual));
    assert!(!sarima_mode_is_manual(&Some(sarima(Some("auto"))), &manual));
}

#[test]
fn garch_resolution() {
    let optimize = "optimize".to_string();
    let fixed = "fixed".to_string();
    assert!(matches!(
        resolve_garch_order(&None, &optimize, 3, 3, None, None),
        GarchOrder::Auto { max_p: 3, max_q: 3 }
    ));
    assert!(matches!(
        resolve_garch_order(&None, &fixed, 3, 3, Some(2), None),
        GarchOrder::Manual { p: 2, q: 1 }
    ));
    let section = GarchSettings { mode: Some("fixed".to_string()), max_p: Some(5), max_q: None, p: None, q: Some(4) };
    assert!(matches!(
        resolve_garch_order(&Some(section), &optimize, 3, 3, Some(2), Some(2)),
        GarchOrder::Manual { p: 2, q: 4 }
    ));
    let section = GarchSettings { mode: None, max_p: Some(5), max_q: None, p: None, q: None };
    assert!(matches!(
        resolve_garch_order(&Some(section), &optimize, 3, 2, None, None),
        GarchOrder::Auto { max_p: 5, max_q: 2 }
    ));
}

#[test]
fn plan_helpers() {
    assert_eq!(history_range(1), HistoryRange::OneYear);
    assert_eq!(history_range(2), HistoryRange::TwoYears);
    assert_eq!(history_range(3), HistoryRange::FiveYears);
    assert_eq!(history_range(0), HistoryRange::FiveYears);
    assert_eq!(forecast_weeks(5), 260);
    assert_eq!(report_weeks(260), vec![52, 104, 156, 208, 260]);
    assert_eq!(report_weeks(150), vec![52, 104]);
    assert!(report_weeks(51).is_empty());
}

#[test]
fn seeds_and_volatility_positions() {
    assert_eq!(derive_path_seed(42, 3), 45);
    assert_eq!(derive_path_seed(u64::MAX, 2), 1);
    assert_eq!(vol_position(2, 10), Some(2));
    assert_eq!(vol_position(12, 10), Some(9));
    assert_eq!(vol_position(0, 0), None);
}

#[test]
fn bootstrap_draws_come_from_residuals() {
    let residuals = vec![0.1, -0.1, 0.05, -0.05, 0.15, -0.15, 0.08, -0.08];
    let draws = bootstrap_draws(&residuals, 10, Some(42), 0).unwrap();
    assert_eq!(draws.len(), 10);
    for d in &draws {
        assert!(residuals.contains(&d.unwrap()));
    }
    // a seeded run draws the same residuals again
    assert_eq!(draws, bootstrap_draws(&residuals, 10, Some(42), 0).unwrap());
    let empty: Vec<f64> = Vec::new();
    assert_eq!(bootstrap_draws(&empty, 3, Some(1), 0), Some(vec![None, None, None]));
    assert_eq!(bootstrap_draws(&residuals, 4, None, 7).unwrap().len(), 4);
}

#[test]
fn fan_chart_sampling() {
    assert_eq!(fan_chart_step(2), 1);
    assert_eq!(fan_chart_indices(2), vec![0, 1]);
    assert_eq!(fan_chart_step(50), 1);
    assert_eq!(fan_chart_indices(50).len(), 50);
    assert_eq!(fan_chart_step(120), 2);
    assert_eq!(fan_chart_indices(120).len(), 60);
    assert_eq!(fan_chart_step(10000), 200);
    assert_eq!(fan_chart_indices(10000).len(), 50);
    assert!(fan_chart_indices(0).is_empty());
}

#[test]
fn error_texts() {
    assert_eq!(
        FluxError::SimulationError("Path count must be greater than zero".to_string()).message(),
        "Simulation failed: Path count must be greater than zero"
    );
    assert_eq!(FluxError::VolatilityError("x".to_string()).message(), "Volatility fitting error: x");
    assert_eq!(FluxError::SARIMAError("x".to_string()).message(), "SARIMA fitting error: x");
    assert_eq!(FluxError::GARCHError("x".to_string()).message(), "GARCH fitting error: x");
    assert_eq!(FluxError::DashboardError(String::new()).message(), "Dashboard generation error: ");
}

#[test]
fn simulation_overrides() {
    let default = "AAPL".to_string();
    let cli = Some("MSFT".to_string());
    let file = Some(SimulationSettings {
        ticker: Some("TSLA".to_string()),
        forecast_years: Some(2),
        history_years: None,
        n_bootstrap: Some(500),
    });
    assert_eq!(resolve_ticker(&file, &cli, &default), "TSLA");
    assert_eq!(resolve_ticker(&None, &cli, &default), "MSFT");
    assert_eq!(resolve_ticker(&None, &None, &default), "AAPL");
    assert_eq!(resolve_forecast_years(&file, 5), 2);
    assert_eq!(resolve_forecast_years(&None, 5), 5);
    assert_eq!(resolve_history_years(&file, 3), 3);
    assert_eq!(resolve_bootstrap_paths(&file, 10000), 500);
    assert_eq!(resolve_bootstrap_paths(&None, 10000), 10000);
}

#[test]
fn wizard_path_answers() {
    assert_eq!(wizard_bootstrap_paths("10000"), 10000);
    assert_eq!(wizard_bootstrap_paths("250"), 250);
    assert_eq!(wizard_bootstrap_paths("+7"), 7);
    assert_eq!(wizard_bootstrap_paths("0"), 0);
    assert_eq!(wizard_bootstrap_paths("abc"), 10000);
    assert_eq!(wizard_bootstrap_paths("-5"), 10000);
    assert_eq!(wizard_bootstrap_paths("+"), 10000);
    assert_eq!(wizard_bootstrap_paths(""), 10000);
    assert_eq!(wizard_bootstrap_paths("99999999999999999999999"), 10000);
}

#[test]
fn usize_parsing_matches_std() {
    for text in ["0", "42", "+42", "007", "", "+", "-1", " 1", "1 ", "1a", "١", "++1",
                 "18446744073709551615", "18446744073709551616", "99999999999999999999999"] {
        assert_eq!(parse_usize(text), text.parse::<usize>().ok(), "text {text:?}");
    }
}

#[test]
fn wizard_ticker_is_upper_case() {
    assert_eq!(wizard_ticker("aapl"), "AAPL");
    assert_eq!(wizard_ticker("MsFt"), "MSFT");
}

#[test]
fn closing_price_check() {
    assert!(check_closing_prices(20).is_ok());
    assert_eq!(
        check_closing_prices(7),
        Err("Insufficient data: got 7 closing prices, need at least 20".to_string())
    );
}
