//! Fluxquant: quantitative-finance building blocks around a SARIMA-GARCH
//! filtered-bootstrap simulation.
//!
//! This crate holds the integer and text logic of the pipeline: the engine
//! settings, model-order specifications and their labels, the GARCH order
//! grid, the sample-size checks, histogram tallies, bootstrap resampling
//! draws and the JSON framing of the dashboard data.
pub mod error;
pub mod engine;
pub mod text;
pub mod histogram;
pub mod orders;
pub mod validation;
pub mod settings;
pub mod bootstrap;
pub mod dashboard;

pub use error::FluxError;
pub use engine::{SimulationEngine, SimulationEngineBuilder};
pub use orders::{GarchOrder, SarimaOrder};
