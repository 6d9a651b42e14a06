use vstd::prelude::*;
use vstd::string::*;

verus! {

/// Errors that can occur during fluxquant operations.
#[derive(Debug, Clone)]
pub enum FluxError {
    /// Raised when a simulation fails to converge or encounters invalid state.
    SimulationError(String),
    /// Raised when volatility model fitting fails.
    VolatilityError(String),
    /// Raised when SARIMA model fitting fails.
    SARIMAError(String),
    /// Raised when GARCH model fitting fails.
    GARCHError(String),
    /// Raised when dashboard generation fails.
    DashboardError(String),
}

/// The text of an error: what kind of failure it is, then its detail.
pub open spec fn error_text(e: FluxError) -> Seq<char> {
    match e {
        FluxError::SimulationError(m) => "Simulation failed: "@ + m@,
        FluxError::VolatilityError(m) => "Volatility fitting error: "@ + m@,
        FluxError::SARIMAError(m) => "SARIMA fitting error: "@ + m@,
        FluxError::GARCHError(m) => "GARCH fitting error: "@ + m@,
        FluxError::DashboardError(m) => "Dashboard generation error: "@ + m@,
    }
}

impl FluxError {
    /// The error's text, e.g. `Simulation failed: Path count must be greater than zero`.
    pub fn message(&self) -> (text: String)
        ensures
            text@ == error_text(*self),
    {
        let (prefix, detail) = match self {
            FluxError::SimulationError(m) => ("Simulation failed: ", m),
            FluxError::VolatilityError(m) => ("Volatility fitting error: ", m),
            FluxError::SARIMAError(m) => ("SARIMA fitting error: ", m),
            FluxError::GARCHError(m) => ("GARCH fitting error: ", m),
            FluxError::DashboardError(m) => ("Dashboard generation error: ", m),
        };
        let mut text = String::from_str(prefix);
        text.append(detail.as_str());
        text
    }
}

} // verus!
