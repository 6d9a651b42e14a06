use vstd::prelude::*;
use vstd::string::*;
use vstd::arithmetic::div_mod::lemma_fundamental_div_mod_converse;
use vstd::arithmetic::mul::lemma_mul_inequality;

use crate::text::{decimal, lemma_decimal_round_trip, push_decimal, spells};

verus! {

broadcast use vstd::string::group_string_axioms;

/// SARIMA order specification.
#[derive(Debug, Clone)]
pub enum SarimaOrder {
    /// Automatically select the best SARIMA order using AutoARIMA.
    Auto {
        /// Seasonal period (e.g. 52 for weekly data with yearly seasonality).
        seasonal_period: usize,
    },
    /// Manually specified SARIMA(p,d,q)(P,D,Q)[s] orders.
    #[allow(non_snake_case)]
    Manual { p: usize, d: usize, q: usize, P: usize, D: usize, Q: usize, s: usize },
}

/// GARCH order specification.
#[derive(Debug, Clone)]
pub enum GarchOrder {
    /// Grid search over (p,q) combinations, selecting the best by BIC.
    Auto {
        /// Maximum GARCH order p to test.
        max_p: usize,
        /// Maximum GARCH order q to test.
        max_q: usize,
    },
    /// Fixed GARCH(p,q) order.
    Manual { p: usize, q: usize },
}

/// The display form `(p,d,q)(P,D,Q)[s]` of a seasonal ARIMA order.
pub open spec fn sarima_label(p: nat, d: nat, q: nat, cap_p: nat, cap_d: nat, cap_q: nat, s: nat) -> Seq<char> {
    "("@ + decimal(p) + ","@ + decimal(d) + ","@ + decimal(q) + ")("@ + decimal(cap_p) + ","@
        + decimal(cap_d) + ","@ + decimal(cap_q) + ")["@ + decimal(s) + "]"@
}

/// Reading a SARIMA label back gives the order: the label is `(`, a numeral of `p`, `,`,
/// a numeral of `d`, `,`, a numeral of `q`, `)(`, numerals of `P`, `D`, `Q` between
/// commas, `)[`, a numeral of `s`, and `]`, in that order.
pub proof fn lemma_sarima_label_reads_back(p: nat, d: nat, q: nat, cap_p: nat, cap_d: nat, cap_q: nat, s: nat)
    ensures
        exists|a: Seq<char>, b: Seq<char>, c: Seq<char>, e: Seq<char>, f: Seq<char>, g: Seq<char>, h: Seq<char>|
            #![trigger spells(a, p), spells(b, d), spells(c, q), spells(e, cap_p), spells(f, cap_d), spells(g, cap_q), spells(h, s)]
            spells(a, p) && spells(b, d) && spells(c, q) && spells(e, cap_p) && spells(f, cap_d)
                && spells(g, cap_q) && spells(h, s)
                && sarima_label(p, d, q, cap_p, cap_d, cap_q, s) == "("@ + a + ","@ + b + ","@ + c + ")("@ + e
                + ","@ + f + ","@ + g + ")["@ + h + "]"@,
{
    lemma_decimal_round_trip(p);
    lemma_decimal_round_trip(d);
    lemma_decimal_round_trip(q);
    lemma_decimal_round_trip(cap_p);
    lemma_decimal_round_trip(cap_d);
    lemma_decimal_round_trip(cap_q);
    lemma_decimal_round_trip(s);
    assert(spells(decimal(p), p));
    assert(spells(decimal(d), d));
    assert(spells(decimal(q), q));
    assert(spells(decimal(cap_p), cap_p));
    assert(spells(decimal(cap_d), cap_d));
    assert(spells(decimal(cap_q), cap_q));
    assert(spells(decimal(s), s));
}

/// Writes a seasonal ARIMA order as `(p,d,q)(P,D,Q)[s]`.
pub fn sarima_order_label(p: usize, d: usize, q: usize, cap_p: usize, cap_d: usize, cap_q: usize, s: usize) -> (label: String)
    ensures
        label@ == sarima_label(p as nat, d as nat, q as nat, cap_p as nat, cap_d as nat, cap_q as nat, s as nat),
{
    let mut label = String::new();
    label.append("(");
    push_decimal(&mut label, p);
    label.append(",");
    push_decimal(&mut label, d);
    label.append(",");
    push_decimal(&mut label, q);
    label.append(")(");
    push_decimal(&mut label, cap_p);
    label.append(",");
    push_decimal(&mut label, cap_d);
    label.append(",");
    push_decimal(&mut label, cap_q);
    label.append(")[");
    push_decimal(&mut label, s);
    label.append("]");
    label
}

/// The label of the order that AutoARIMA selected: the order written as
/// `(p,d,q)(P,D,Q)[s]`, or `AutoARIMA` when no order is reported.
pub fn selected_order_label(selected: Option<(usize, usize, usize, usize, usize, usize, usize)>) -> (label: String)
    ensures
        label@ == match selected {
            Some(o) => sarima_label(o.0 as nat, o.1 as nat, o.2 as nat, o.3 as nat, o.4 as nat, o.5 as nat, o.6 as nat),
            None => "AutoARIMA"@,
        },
{
    match selected {
        Some(o) => sarima_order_label(o.0, o.1, o.2, o.3, o.4, o.5, o.6),
        None => String::from_str("AutoARIMA"),
    }
}

/// Entry `k` of the GARCH order grid: `(k / max_q + 1, k % max_q + 1)`.
pub open spec fn grid_entry(k: int, max_q: int) -> (int, int) {
    (k / max_q + 1, k % max_q + 1)
}

/// The order pair as integers.
pub open spec fn pair_int(o: (usize, usize)) -> (int, int) {
    (o.0 as int, o.1 as int)
}

/// The first order the GARCH grid search fits: GARCH(1,1), when the grid is not empty.
pub fn first_candidate(max_p: usize, max_q: usize) -> (c: Option<(usize, usize)>)
    ensures
        c is Some <==> (max_p >= 1 && max_q >= 1),
        c matches Some(o) ==> pair_int(o) == grid_entry(0, max_q as int),
{
    if max_p >= 1 && max_q >= 1 {
        proof { lemma_fundamental_div_mod_converse(0, max_q as int, 0, 0); }
        Some((1, 1))
    } else {
        None
    }
}

/// The order fitted after GARCH(p,q) in the grid search: q runs fastest from 1 to
/// `max_q`, then p moves on; `None` after the last order.
pub fn next_candidate(current: (usize, usize), max_p: usize, max_q: usize) -> (next: Option<(usize, usize)>)
    requires
        1 <= current.0 <= max_p,
        1 <= current.1 <= max_q,
    ensures
        next == if current.1 < max_q {
            Some((current.0, (current.1 + 1) as usize))
        } else if current.0 < max_p {
            Some(((current.0 + 1) as usize, 1usize))
        } else {
            None::<(usize, usize)>
        },
{
    if current.1 < max_q {
        Some((current.0, current.1 + 1))
    } else if current.0 < max_p {
        Some((current.0 + 1, 1))
    } else {
        None
    }
}

/// Stepping with `next_candidate` walks the grid in order: after entry `k` comes entry
/// `k + 1`, and there is none after the last entry `max_p * max_q - 1`. With
/// `first_candidate`, the search fits exactly the entries `0 .. max_p * max_q`.
pub proof fn lemma_next_candidate_walks_grid(max_p: int, max_q: int, k: int)
    requires
        max_q >= 1,
        0 <= k < max_p * max_q,
    ensures
        1 <= grid_entry(k, max_q).0 <= max_p,
        1 <= grid_entry(k, max_q).1 <= max_q,
        k + 1 < max_p * max_q ==> if grid_entry(k, max_q).1 < max_q {
            grid_entry(k + 1, max_q) == (grid_entry(k, max_q).0, grid_entry(k, max_q).1 + 1)
        } else {
            grid_entry(k, max_q).0 < max_p && grid_entry(k + 1, max_q) == (grid_entry(k, max_q).0 + 1, 1int)
        },
        k + 1 == max_p * max_q ==> grid_entry(k, max_q).1 == max_q && grid_entry(k, max_q).0 == max_p,
{
    let i = k / max_q;
    let j = k % max_q;
    vstd::arithmetic::div_mod::lemma_fundamental_div_mod(k, max_q);
    assert(0 <= j < max_q);
    assert(k == max_q * i + j);
    assert(i >= 0) by (nonlinear_arith)
        requires
            k == max_q * i + j,
            0 <= j < max_q,
            k >= 0,
    ;
    assert(i < max_p) by (nonlinear_arith)
        requires
            k == max_q * i + j,
            0 <= j,
            k < max_p * max_q,
            max_q >= 1,
    ;
    if j + 1 < max_q {
        assert(k + 1 == i * max_q + (j + 1)) by (nonlinear_arith)
            requires
                k == max_q * i + j,
        ;
        lemma_mul_inequality(i + 1, max_p, max_q);
        assert((i + 1) * max_q == i * max_q + max_q) by (nonlinear_arith);
        assert(k + 1 < max_p * max_q);
        lemma_fundamental_div_mod_converse(k + 1, max_q, i, j + 1);
    } else {
        assert(k + 1 == (i + 1) * max_q) by (nonlinear_arith)
            requires
                k == max_q * i + j,
                j + 1 == max_q,
        ;
        if k + 1 < max_p * max_q {
            assert(i + 1 < max_p) by (nonlinear_arith)
                requires
                    k + 1 == (i + 1) * max_q,
                    k + 1 < max_p * max_q,
                    max_q >= 1,
            ;
            lemma_fundamental_div_mod_converse(k + 1, max_q, i + 1, 0);
        } else {
            assert(i + 1 == max_p) by (nonlinear_arith)
                requires
                    k + 1 == (i + 1) * max_q,
                    k + 1 == max_p * max_q,
                    max_q >= 1,
            ;
        }
    }
}

/// The grid holds every order in range: GARCH(p,q) with `1 <= p <= max_p` and
/// `1 <= q <= max_q` is entry `(p - 1) * max_q + (q - 1)` of the grid.
pub proof fn lemma_grid_covers(max_p: int, max_q: int, p: int, q: int)
    requires
        1 <= p <= max_p,
        1 <= q <= max_q,
    ensures
        0 <= (p - 1) * max_q + (q - 1) < max_p * max_q,
        grid_entry((p - 1) * max_q + (q - 1), max_q) == (p, q),
{
    lemma_fundamental_div_mod_converse((p - 1) * max_q + (q - 1), max_q, p - 1, q - 1);
    lemma_mul_inequality(p, max_p, max_q);
    assert(p * max_q == (p - 1) * max_q + max_q) by (nonlinear_arith);
    assert(0 <= (p - 1) * max_q) by (nonlinear_arith)
        requires
            p >= 1,
            max_q >= 1,
    ;
}

/// No order appears twice in the grid.
pub proof fn lemma_grid_distinct(max_q: int, k1: int, k2: int)
    requires
        max_q > 0,
        0 <= k1,
        0 <= k2,
        k1 != k2,
    ensures
        grid_entry(k1, max_q) != grid_entry(k2, max_q),
{
    if grid_entry(k1, max_q) == grid_entry(k2, max_q) {
        vstd::arithmetic::div_mod::lemma_fundamental_div_mod(k1, max_q);
        vstd::arithmetic::div_mod::lemma_fundamental_div_mod(k2, max_q);
    }
}

} // verus!
