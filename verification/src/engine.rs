use vstd::prelude::*;
use vstd::string::*;

use crate::error::FluxError;

verus! {

/// The number of paths a freshly made engine simulates.
pub const DEFAULT_PATHS: usize = 1000;

/// High-performance simulation engine for quantitative finance.
pub struct SimulationEngine {
    pub paths: usize,
}

/// Builder for [`SimulationEngine`].
pub struct SimulationEngineBuilder {
    paths: usize,
}

impl SimulationEngineBuilder {
    /// The path count that `build` will give the engine.
    pub closed spec fn spec_paths(&self) -> usize {
        self.paths
    }

    /// Sets the number of paths.
    pub fn paths(self, paths: usize) -> (b: Self)
        ensures
            b.spec_paths() == paths,
    {
        let mut b = self;
        b.paths = paths;
        b
    }

    /// Builds the engine with the chosen path count.
    pub fn build(self) -> (e: SimulationEngine)
        ensures
            e.paths == self.spec_paths(),
    {
        SimulationEngine { paths: self.paths }
    }
}

/// The message of the error that `run_monte_carlo` gives for an engine without paths.
pub open spec fn zero_paths_message() -> Seq<char> {
    "Path count must be greater than zero"@
}

impl SimulationEngine {
    /// An engine with the default path count (1000).
    pub fn new() -> (e: Self)
        ensures
            e.paths == DEFAULT_PATHS,
    {
        SimulationEngine { paths: DEFAULT_PATHS }
    }

    /// A builder that starts from the default path count (1000).
    pub fn builder() -> (b: SimulationEngineBuilder)
        ensures
            b.spec_paths() == DEFAULT_PATHS,
    {
        SimulationEngineBuilder { paths: DEFAULT_PATHS }
    }

    /// Checks that the engine can run: it fails exactly when it has no paths.
    pub fn run_monte_carlo(&self) -> (r: Result<(), FluxError>)
        ensures
            r is Ok <==> self.paths > 0,
            r matches Err(e) ==> (e matches FluxError::SimulationError(msg) && msg@
                == zero_paths_message()),
    {
        if self.paths == 0 {
            return Err(FluxError::SimulationError(String::from_str("Path count must be greater than zero")));
        }
        Ok(())
    }
}

impl Default for SimulationEngine {
    fn default() -> (e: Self)
        ensures
            e.paths == DEFAULT_PATHS,
    {
        Self::new()
    }
}

/// Setting the path count on a builder and then building gives an engine with exactly
/// that path count (`builder.paths(n).build().paths == n`), whatever the builder held
/// before: `after` is what `paths(n)` gives back and `engine` what `build` makes of it.
pub proof fn lemma_builder_paths_then_build(paths: usize, after: SimulationEngineBuilder, engine: SimulationEngine)
    requires
        after.spec_paths() == paths,
        engine.paths == after.spec_paths(),
    ensures
        engine.paths == paths,
{
}

} // verus!
