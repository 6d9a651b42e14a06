# fluxquant

Quantitative-finance tooling around a SARIMA-GARCH filtered-bootstrap
simulation: fit a seasonal ARIMA model to weekly returns, fit GARCH on its
residuals, resample the standardized residuals into price paths, summarize
them and render an HTML dashboard.

## Layout

- `src/` — the verified library (Verus):
  - `engine.rs` — `SimulationEngine` and its builder;
  - `orders.rs` — SARIMA/GARCH order specifications, their labels and the
    GARCH order grid;
  - `settings.rs` — how a run's orders, history range and forecast length are
    chosen from the simulation file and the command line;
  - `validation.rs` — the sample-size checks and their errors;
  - `bootstrap.rs` — residual draws of the bootstrap paths (`rand`);
  - `histogram.rs` — bin tallies and the histogram's JSON;
  - `dashboard.rs` — which bootstrap paths the fan chart shows;
  - `text.rs` — decimal numerals, labels and JSON arrays;
  - `error.rs` — `FluxError`.
- `app/` — the program: the floating-point pipeline (model fitting,
  forecasts, statistics, the dashboard page) and the command-line tool.
- `tests/` — tests of the library.
