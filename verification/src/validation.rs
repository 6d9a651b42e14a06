use vstd::prelude::*;
use vstd::string::*;

use crate::error::FluxError;
use crate::text::{decimal, push_decimal};

verus! {

broadcast use vstd::string::group_string_axioms;

/// The fewest observations a GARCH order search is run on.
pub const MIN_GARCH_OBSERVATIONS: usize = 12;

/// The fewest weekly returns the SARIMA-GARCH pipeline is run on.
pub const MIN_WEEKLY_OBSERVATIONS: usize = 20;

/// Checks that a GARCH order search has enough observations (at least 12).
pub fn check_garch_sample(n_obs: usize) -> (r: Result<(), FluxError>)
    ensures
        r is Ok <==> n_obs >= MIN_GARCH_OBSERVATIONS,
        r matches Err(e) ==> (e matches FluxError::GARCHError(msg) && msg@
            == "Need at least 12 observations for GARCH fitting"@),
{
    if n_obs < MIN_GARCH_OBSERVATIONS {
        return Err(FluxError::GARCHError(String::from_str("Need at least 12 observations for GARCH fitting")));
    }
    Ok(())
}

/// Checks that the SARIMA-GARCH pipeline has enough weekly returns (at least 20).
pub fn check_weekly_sample(n_obs: usize) -> (r: Result<(), FluxError>)
    ensures
        r is Ok <==> n_obs >= MIN_WEEKLY_OBSERVATIONS,
        r matches Err(e) ==> (e matches FluxError::SimulationError(msg) && msg@
            == "Need at least 20 weekly observations"@),
{
    if n_obs < MIN_WEEKLY_OBSERVATIONS {
        return Err(FluxError::SimulationError(String::from_str("Need at least 20 weekly observations")));
    }
    Ok(())
}

/// Checks that a volatility fit has data to work on.
pub fn check_volatility_data(n_obs: usize) -> (r: Result<(), FluxError>)
    ensures
        r is Ok <==> n_obs > 0,
        r matches Err(e) ==> (e matches FluxError::VolatilityError(msg) && msg@ == "Dataset is empty"@),
{
    if n_obs == 0 {
        return Err(FluxError::VolatilityError(String::from_str("Dataset is empty")));
    }
    Ok(())
}

/// The fewest closing prices a run is started from.
pub const MIN_CLOSING_PRICES: usize = 20;

/// The message given when too few closing prices were fetched.
pub open spec fn insufficient_prices_message(n: nat) -> Seq<char> {
    "Insufficient data: got "@ + decimal(n) + " closing prices, need at least 20"@
}

/// Checks that at least 20 closing prices were fetched; otherwise gives the message
/// that the run stops with.
pub fn check_closing_prices(n_prices: usize) -> (r: Result<(), String>)
    ensures
        r is Ok <==> n_prices >= MIN_CLOSING_PRICES,
        r matches Err(msg) ==> msg@ == insufficient_prices_message(n_prices as nat),
{
    if n_prices < MIN_CLOSING_PRICES {
        let mut msg = String::from_str("Insufficient data: got ");
        push_decimal(&mut msg, n_prices);
        msg.append(" closing prices, need at least 20");
        return Err(msg);
    }
    Ok(())
}

/// The message of the error given when no order of the GARCH grid could be fitted.
pub open spec fn grid_exhausted_message(max_p: nat, max_q: nat) -> Seq<char> {
    "All GARCH models failed for p=1.."@ + decimal(max_p) + ", q=1.."@ + decimal(max_q)
}

/// The error given when no order of the GARCH grid `1..=max_p` x `1..=max_q` could be fitted.
pub fn garch_grid_exhausted(max_p: usize, max_q: usize) -> (e: FluxError)
    ensures
        e matches FluxError::GARCHError(msg) && msg@ == grid_exhausted_message(max_p as nat, max_q as nat),
{
    let mut msg = String::from_str("All GARCH models failed for p=1..");
    push_decimal(&mut msg, max_p);
    msg.append(", q=1..");
    push_decimal(&mut msg, max_q);
    FluxError::GARCHError(msg)
}

} // verus!
