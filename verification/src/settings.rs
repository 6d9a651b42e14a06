use vstd::prelude::*;
use vstd::string::*;

use crate::orders::{GarchOrder, SarimaOrder};
use crate::text::{parse_usize, usize_numeral};

verus! {

broadcast use vstd::string::group_string_axioms;

/// The plain-value part of the `simulation` section of a simulation file: every field
/// may be left out.
pub struct SimulationSettings {
    pub ticker: Option<String>,
    pub forecast_years: Option<u32>,
    pub history_years: Option<u32>,
    pub n_bootstrap: Option<usize>,
}

/// The ticker of a run: the file's, else the command line's, else the configured default.
pub open spec fn ticker_of(section: Option<SimulationSettings>, cli: Option<String>, default: Seq<char>) -> Seq<char> {
    match section {
        Some(SimulationSettings { ticker: Some(t), .. }) => t@,
        _ => match cli {
            Some(t) => t@,
            None => default,
        },
    }
}

/// The ticker of a run: the simulation file's, else the command line's, else the
/// configured default.
pub fn resolve_ticker(section: &Option<SimulationSettings>, cli: &Option<String>, default: &String) -> (t: String)
    ensures
        t@ == ticker_of(*section, *cli, default@),
{
    match section {
        Some(SimulationSettings { ticker: Some(t), .. }) => t.clone(),
        _ => match cli {
            Some(t) => t.clone(),
            None => default.clone(),
        },
    }
}

/// The ticker of a run is the simulation file's when it gives one; when it gives none
/// (no `simulation` section, or one without a ticker) it is the command line's when
/// given, else the configured default.
pub proof fn lemma_ticker_precedence(section: Option<SimulationSettings>, cli: Option<String>, default: Seq<char>)
    ensures
        section matches Some(SimulationSettings { ticker: Some(t), .. }) ==> ticker_of(section, cli, default) == t@,
        (section is None || section.unwrap().ticker is None) ==> (
            match cli {
                Some(c) => ticker_of(section, cli, default) == c@,
                None => ticker_of(section, cli, default) == default,
            }
        ),
{
}

/// The forecast horizon in years: the file's, else the command line's.
pub fn resolve_forecast_years(section: &Option<SimulationSettings>, cli: u32) -> (years: u32)
    ensures
        years == match *section {
            Some(SimulationSettings { forecast_years: Some(v), .. }) => v,
            _ => cli,
        },
{
    match section {
        Some(SimulationSettings { forecast_years: Some(v), .. }) => *v,
        _ => cli,
    }
}

/// The years of history to fetch: the file's, else the command line's.
pub fn resolve_history_years(section: &Option<SimulationSettings>, cli: u32) -> (years: u32)
    ensures
        years == match *section {
            Some(SimulationSettings { history_years: Some(v), .. }) => v,
            _ => cli,
        },
{
    match section {
        Some(SimulationSettings { history_years: Some(v), .. }) => *v,
        _ => cli,
    }
}

/// The number of bootstrap paths: the file's, else the command line's.
pub fn resolve_bootstrap_paths(section: &Option<SimulationSettings>, cli: usize) -> (paths: usize)
    ensures
        paths == match *section {
            Some(SimulationSettings { n_bootstrap: Some(v), .. }) => v,
            _ => cli,
        },
{
    match section {
        Some(SimulationSettings { n_bootstrap: Some(v), .. }) => *v,
        _ => cli,
    }
}

/// The upper-case form of a text, as `str::to_uppercase` computes it (Unicode case
/// mapping; a character may map to several).
pub uninterp spec fn uppercase(text: Seq<char>) -> Seq<char>;

/// `str::to_uppercase`: claims that the result is the upper-case form of the text and
/// depends on the text alone; the Unicode case mapping itself is left unsaid.
#[verifier::external_body]
fn to_uppercase(text: &str) -> (r: String)
    ensures
        r@ == uppercase(text@),
{
    text.to_uppercase()
}

/// The default ticker the setup wizard records for an answer: the answer in upper case.
pub fn wizard_ticker(answer: &str) -> (ticker: String)
    ensures
        ticker@ == uppercase(answer@),
{
    to_uppercase(answer)
}

/// The path count the setup wizard asks for when the answer is not a number.
pub const WIZARD_DEFAULT_PATHS: usize = 10000;

/// The default path count that the setup wizard records for an answer: the number the
/// answer spells, else 10000.
pub fn wizard_bootstrap_paths(answer: &str) -> (paths: usize)
    ensures
        paths == match usize_numeral(answer@) {
            Some(v) => v,
            None => WIZARD_DEFAULT_PATHS,
        },
{
    match parse_usize(answer) {
        Some(v) => v,
        None => WIZARD_DEFAULT_PATHS,
    }
}

/// The `sarima` section of a simulation file: every field may be left out.
#[allow(non_snake_case)]
pub struct SarimaSettings {
    pub mode: Option<String>,
    pub seasonal_period: Option<usize>,
    pub p: Option<usize>,
    pub d: Option<usize>,
    pub q: Option<usize>,
    pub P: Option<usize>,
    pub D: Option<usize>,
    pub Q: Option<usize>,
}

/// The `garch` section of a simulation file: every field may be left out.
pub struct GarchSettings {
    pub mode: Option<String>,
    pub max_p: Option<usize>,
    pub max_q: Option<usize>,
    pub p: Option<usize>,
    pub q: Option<usize>,
}

/// The value if present, else the fallback.
pub open spec fn or_else(o: Option<usize>, fallback: usize) -> usize {
    match o {
        Some(v) => v,
        None => fallback,
    }
}

/// The mode a section asks for: its own `mode` when it has one, else the command line's.
pub open spec fn effective_mode(section_mode: Option<Option<String>>, cli_mode: Seq<char>) -> Seq<char> {
    match section_mode {
        Some(Some(m)) => m@,
        _ => cli_mode,
    }
}

/// The SARIMA mode in force.
pub open spec fn sarima_mode(section: Option<SarimaSettings>, cli_mode: Seq<char>) -> Seq<char> {
    effective_mode(
        match section {
            Some(s) => Some(s.mode),
            None => None,
        },
        cli_mode,
    )
}

/// The GARCH mode in force.
pub open spec fn garch_mode(section: Option<GarchSettings>, cli_mode: Seq<char>) -> Seq<char> {
    effective_mode(
        match section {
            Some(s) => Some(s.mode),
            None => None,
        },
        cli_mode,
    )
}

/// The seasonal period in force: the file's, else the command line's.
pub open spec fn seasonal_period_of(section: Option<SarimaSettings>, cli_period: usize) -> usize {
    match section {
        Some(s) => or_else(s.seasonal_period, cli_period),
        None => cli_period,
    }
}

/// The SARIMA order that the settings ask for.
pub open spec fn resolved_sarima(section: Option<SarimaSettings>, cli_mode: Seq<char>, cli_period: usize) -> SarimaOrder {
    let period = seasonal_period_of(section, cli_period);
    if sarima_mode(section, cli_mode) == "manual"@ {
        let s = section.unwrap();
        SarimaOrder::Manual {
            p: or_else(s.p, 1),
            d: or_else(s.d, 1),
            q: or_else(s.q, 1),
            P: or_else(s.P, 1),
            D: or_else(s.D, 1),
            Q: or_else(s.Q, 1),
            s: period,
        }
    } else {
        SarimaOrder::Auto { seasonal_period: period }
    }
}

/// The GARCH order that the settings ask for.
pub open spec fn resolved_garch(
    section: Option<GarchSettings>,
    cli_mode: Seq<char>,
    cli_max_p: usize,
    cli_max_q: usize,
    cli_p: Option<usize>,
    cli_q: Option<usize>,
) -> GarchOrder {
    if garch_mode(section, cli_mode) == "fixed"@ {
        let (fp, fq) = match section {
            Some(s) => (
                match s.p { Some(v) => Some(v), None => cli_p },
                match s.q { Some(v) => Some(v), None => cli_q },
            ),
            None => (cli_p, cli_q),
        };
        GarchOrder::Manual { p: or_else(fp, 1), q: or_else(fq, 1) }
    } else {
        match section {
            Some(s) => GarchOrder::Auto { max_p: or_else(s.max_p, cli_max_p), max_q: or_else(s.max_q, cli_max_q) },
            None => GarchOrder::Auto { max_p: cli_max_p, max_q: cli_max_q },
        }
    }
}

fn is_text(s: &String, text: &str) -> (r: bool)
    ensures
        r == (s@ == text@),
{
    let t = String::from_str(text);
    s.eq(&t)
}

fn value_or(o: Option<usize>, fallback: usize) -> (v: usize)
    ensures
        v == or_else(o, fallback),
{
    match o {
        Some(v) => v,
        None => fallback,
    }
}

/// Whether the SARIMA settings ask for manual orders: the file's mode when it gives one,
/// else the command line's, compared with `manual`.
pub fn sarima_mode_is_manual(section: &Option<SarimaSettings>, cli_mode: &String) -> (r: bool)
    ensures
        r == (sarima_mode(*section, cli_mode@) == "manual"@),
{
    match section {
        Some(s) => match &s.mode {
            Some(m) => is_text(m, "manual"),
            None => is_text(cli_mode, "manual"),
        },
        None => is_text(cli_mode, "manual"),
    }
}

/// The SARIMA order of a run. The simulation file overrides the command line: with mode
/// `manual` the orders come from the file's `sarima` section (each missing one is 1),
/// otherwise AutoARIMA is used; the seasonal period is the file's, else the command line's.
/// Manual orders need the file's `sarima` section.
pub fn resolve_sarima_order(section: &Option<SarimaSettings>, cli_mode: &String, cli_period: usize) -> (order: SarimaOrder)
    requires
        section is None ==> cli_mode@ != "manual"@,
    ensures
        order == resolved_sarima(*section, cli_mode@, cli_period),
{
    let period = match section {
        Some(s) => value_or(s.seasonal_period, cli_period),
        None => cli_period,
    };
    if sarima_mode_is_manual(section, cli_mode) {
        match section {
            Some(s) => SarimaOrder::Manual {
                p: value_or(s.p, 1),
                d: value_or(s.d, 1),
                q: value_or(s.q, 1),
                P: value_or(s.P, 1),
                D: value_or(s.D, 1),
                Q: value_or(s.Q, 1),
                s: period,
            },
            None => SarimaOrder::Auto { seasonal_period: period },
        }
    } else {
        SarimaOrder::Auto { seasonal_period: period }
    }
}

/// The GARCH order of a run. The simulation file overrides the command line: with mode
/// `fixed` the orders are the file's, else the command line's, else 1; otherwise the grid
/// search bounds are the file's, else the command line's.
pub fn resolve_garch_order(
    section: &Option<GarchSettings>,
    cli_mode: &String,
    cli_max_p: usize,
    cli_max_q: usize,
    cli_p: Option<usize>,
    cli_q: Option<usize>,
) -> (order: GarchOrder)
    ensures
        order == resolved_garch(*section, cli_mode@, cli_max_p, cli_max_q, cli_p, cli_q),
{
    let fixed = match section {
        Some(s) => match &s.mode {
            Some(m) => is_text(m, "fixed"),
            None => is_text(cli_mode, "fixed"),
        },
        None => is_text(cli_mode, "fixed"),
    };
    if fixed {
        let (fp, fq) = match section {
            Some(s) => (
                match s.p { Some(v) => Some(v), None => cli_p },
                match s.q { Some(v) => Some(v), None => cli_q },
            ),
            None => (cli_p, cli_q),
        };
        GarchOrder::Manual { p: value_or(fp, 1), q: value_or(fq, 1) }
    } else {
        match section {
            Some(s) => GarchOrder::Auto { max_p: value_or(s.max_p, cli_max_p), max_q: value_or(s.max_q, cli_max_q) },
            None => GarchOrder::Auto { max_p: cli_max_p, max_q: cli_max_q },
        }
    }
}

/// The SARIMA order of a run, read off the inputs: its seasonal period is the file's
/// `seasonal_period` when the `sarima` section gives one, else the command line's, in
/// either mode; the mode is the file's when it gives one, else the command line's; in
/// `manual` mode each order is the file's, else 1; otherwise the order is AutoARIMA.
pub proof fn lemma_sarima_resolution(section: Option<SarimaSettings>, cli_mode: Seq<char>, cli_period: usize)
    requires
        section is None ==> cli_mode != "manual"@,
    ensures
        ({
            let period = match section {
                Some(SarimaSettings { seasonal_period: Some(v), .. }) => v,
                _ => cli_period,
            };
            let manual = match section {
                Some(SarimaSettings { mode: Some(m), .. }) => m@ == "manual"@,
                _ => cli_mode == "manual"@,
            };
            &&& match resolved_sarima(section, cli_mode, cli_period) {
                SarimaOrder::Auto { seasonal_period } => seasonal_period == period && !manual,
                SarimaOrder::Manual { s, .. } => s == period && manual,
            }
            &&& manual ==> {
                let f = section.unwrap();
                &&& resolved_sarima(section, cli_mode, cli_period) matches SarimaOrder::Manual { p, d, q, P, D, Q, .. }
                &&& p == (match f.p { Some(v) => v, None => 1usize })
                &&& d == (match f.d { Some(v) => v, None => 1usize })
                &&& q == (match f.q { Some(v) => v, None => 1usize })
                &&& P == (match f.P { Some(v) => v, None => 1usize })
                &&& D == (match f.D { Some(v) => v, None => 1usize })
                &&& Q == (match f.Q { Some(v) => v, None => 1usize })
            }
        }),
{
}

/// The GARCH order of a run, read off the inputs: the mode is the file's when it gives
/// one, else the command line's; with mode `fixed` the orders are the file's, else the
/// command line's, else 1; otherwise it is a grid search whose `max_p` is the file's
/// `max_p` when given, else the command line's, and likewise `max_q`.
pub proof fn lemma_garch_resolution(
    section: Option<GarchSettings>,
    cli_mode: Seq<char>,
    cli_max_p: usize,
    cli_max_q: usize,
    cli_p: Option<usize>,
    cli_q: Option<usize>,
)
    ensures
        ({
            let fixed = match section {
                Some(GarchSettings { mode: Some(m), .. }) => m@ == "fixed"@,
                _ => cli_mode == "fixed"@,
            };
            let order = resolved_garch(section, cli_mode, cli_max_p, cli_max_q, cli_p, cli_q);
            &&& !fixed ==> order == GarchOrder::Auto {
                max_p: match section {
                    Some(GarchSettings { max_p: Some(v), .. }) => v,
                    _ => cli_max_p,
                },
                max_q: match section {
                    Some(GarchSettings { max_q: Some(v), .. }) => v,
                    _ => cli_max_q,
                },
            }
            &&& fixed ==> order == GarchOrder::Manual {
                p: match section {
                    Some(GarchSettings { p: Some(v), .. }) => v,
                    _ => match cli_p { Some(v) => v, None => 1 },
                },
                q: match section {
                    Some(GarchSettings { q: Some(v), .. }) => v,
                    _ => match cli_q { Some(v) => v, None => 1 },
                },
            }
        }),
{
}

/// How much price history is fetched.
#[derive(Debug, Clone, Copy, PartialEq, Eq)]
pub enum HistoryRange {
    OneYear,
    TwoYears,
    FiveYears,
}

/// The history range fetched for a requested number of years: one and two years are
/// fetched as asked, anything else as five years.
pub fn history_range(years: u32) -> (r: HistoryRange)
    ensures
        r == if years == 1 {
            HistoryRange::OneYear
        } else if years == 2 {
            HistoryRange::TwoYears
        } else {
            HistoryRange::FiveYears
        },
{
    if years == 1 {
        HistoryRange::OneYear
    } else if years == 2 {
        HistoryRange::TwoYears
    } else {
        HistoryRange::FiveYears
    }
}

/// The number of weeks in a forecast of `years` years (52 weeks a year).
pub fn forecast_weeks(years: u32) -> (weeks: usize)
    requires
        years * 52 <= usize::MAX,
    ensures
        weeks == years * 52,
{
    years as usize * 52
}

/// The forecast weeks reported on the console: weeks 52, 104, 156, 208 and 260,
/// those within a forecast of `n` weeks.
pub fn report_weeks(n: usize) -> (weeks: Vec<usize>)
    ensures
        weeks@ == seq![52usize, 104, 156, 208, 260].filter(|w: usize| w <= n),
{
    let marks: [usize; 5] = [52, 104, 156, 208, 260];
    let ghost all = seq![52usize, 104, 156, 208, 260];
    let mut weeks: Vec<usize> = Vec::new();
    proof { assert(marks@ == all); }
    for i in 0..5
        invariant
            marks@ == all,
            weeks@ == all.take(i as int).filter(|w: usize| w <= n),
    {
        proof {
            reveal_with_fuel(Seq::filter, 1);
            assert(all.take(i + 1).drop_last() =~= all.take(i as int));
        }
        if marks[i] <= n {
            weeks.push(marks[i]);
        }
    }
    proof { assert(all.take(5) =~= all); }
    weeks
}

} // verus!
