use fluxquant::engine::DEFAULT_PATHS;
use fluxquant::{FluxError, SimulationEngine};

#[test]
fn default_engine_has_1000_paths() {
    let engine = SimulationEngine::new();
    assert_eq!(engine.paths, 1000);
}

#[test]
fn builder_sets_paths() {
    let engine = SimulationEngine::builder().paths(500).build();
    assert_eq!(engine.paths, 500);
}

#[test]
fn monte_carlo_succeeds() {
    let engine = SimulationEngine::new();
    assert!(engine.run_monte_carlo().is_ok());
}

#[test]
fn monte_carlo_zero_paths_fails() {
    let engine = SimulationEngine { paths: 0 };
    assert!(engine.run_monte_carlo().is_err());
}

#[test]
fn default_engine_matches_new() {
    let engine = SimulationEngine::default();
    assert_eq!(engine.paths, DEFAULT_PATHS);
}

#[test]
fn builder_without_paths_keeps_default() {
    let engine = SimulationEngine::builder().build();
    assert_eq!(engine.paths, 1000);
}

#[test]
fn builder_last_paths_call_wins() {
    let engine = SimulationEngine::builder().paths(7).paths(3).build();
    assert_eq!(engine.paths, 3);
}

#[test]
fn monte_carlo_zero_paths_error_message() {
    let engine = SimulationEngine::builder().paths(0).build();
    match engine.run_monte_carlo() {
        Err(FluxError::SimulationError(msg)) => {
            assert_eq!(msg, "Path count must be greater than zero")
        }
        _ => panic!("expected a simulation error"),
    }
}

#[test]
fn monte_carlo_one_path_succeeds() {
    let engine = SimulationEngine { paths: 1 };
    assert!(engine.run_monte_carlo().is_ok());
}
