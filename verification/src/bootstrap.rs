use vstd::prelude::*;

use rand::rngs::StdRng;
use rand::seq::SliceRandom;
use rand::SeedableRng;

verus! {

#[verifier::external_type_specification]
#[verifier::external_body]
pub struct ExStdRng(StdRng);

/// `StdRng::seed_from_u64` (through `rand::SeedableRng`): a generator seeded from a `u64`.
/// Nothing is claimed of the generator that comes back.
#[verifier::external_body]
fn seeded_rng(seed: u64) -> StdRng {
    StdRng::seed_from_u64(seed)
}

/// `StdRng::from_rng` (through `rand::SeedableRng`) on `rand::rngs::OsRng`: a generator
/// seeded from the operating system, or `None` when the operating system gives no
/// entropy (the outside call's error). Nothing is claimed of the generator that comes
/// back, nor of when the operating system fails.
#[verifier::external_body]
fn entropy_rng() -> Option<StdRng> {
    StdRng::from_rng(rand::rngs::OsRng).ok()
}

/// `rand::seq::SliceRandom::choose`, copying the element out: claims that the result is
/// `None` exactly when the slice is empty, and otherwise one of the slice's elements.
/// Which element comes back, and the generator's new state, are left unsaid: they depend
/// on the generator.
#[verifier::external_body]
fn choose_from<T: Copy>(rng: &mut StdRng, items: &[T]) -> (r: Option<T>)
    ensures
        r is None <==> items@.len() == 0,
        r matches Some(x) ==> items@.contains(x),
{
    items.choose(rng).copied()
}

/// The seed of bootstrap path `path_idx` when the run is seeded with `seed`:
/// `seed + path_idx`, wrapping at 2^64.
pub open spec fn path_seed(seed: u64, path_idx: usize) -> u64 {
    if seed + path_idx > u64::MAX {
        (seed + path_idx - 0x1_0000_0000_0000_0000int) as u64
    } else {
        (seed + path_idx) as u64
    }
}

/// Path seeds count up from the run's seed, modulo 2^64: path `i` gets `seed + i`
/// reduced modulo 2^64, so path 0 gets the run's seed itself.
pub proof fn lemma_path_seed_counts_up(seed: u64, path_idx: usize)
    ensures
        path_seed(seed, path_idx) as int == (seed + path_idx) % 0x1_0000_0000_0000_0000int,
        path_seed(seed, 0) == seed,
{
    let t = seed + path_idx;
    if t > u64::MAX {
        assert(0 <= t - 0x1_0000_0000_0000_0000int < 0x1_0000_0000_0000_0000int);
        vstd::arithmetic::div_mod::lemma_fundamental_div_mod_converse(t, 0x1_0000_0000_0000_0000int, 1, t - 0x1_0000_0000_0000_0000int);
    } else {
        vstd::arithmetic::div_mod::lemma_fundamental_div_mod_converse(t, 0x1_0000_0000_0000_0000int, 0, t);
    }
}

/// Computes the seed of bootstrap path `path_idx` from the run's seed.
pub fn derive_path_seed(seed: u64, path_idx: usize) -> (s: u64)
    ensures
        s == path_seed(seed, path_idx),
{
    let idx = path_idx as u64;
    seed.wrapping_add(idx)
}

/// The residual draws of one bootstrap path: for each of the `weeks` forecast weeks, one
/// residual drawn with replacement, by a generator seeded with `path_seed(seed, path_idx)`
/// when the run is seeded and from the operating system otherwise. A draw is `None` only
/// when there are no residuals. The result is `None` only for an unseeded run whose
/// generator the operating system could not seed. Which residuals a seeded run draws, and
/// that equal seeds give equal draws, is left unsaid here: the picks rest on the state of
/// a `StdRng`, which has no view that a contract could name.
pub fn bootstrap_draws<T: Copy>(residuals: &[T], weeks: usize, seed: Option<u64>, path_idx: usize) -> (r: Option<Vec<Option<T>>>)
    ensures
        seed is Some ==> r is Some,
        r matches Some(draws) ==> {
            &&& draws@.len() == weeks
            &&& forall|t: int| 0 <= t < weeks ==> (#[trigger] draws@[t] is None <==> residuals@.len() == 0)
            &&& forall|t: int| 0 <= t < weeks ==> (#[trigger] draws@[t] matches Some(x) ==> residuals@.contains(x))
        },
{
    let mut rng = match seed {
        Some(s) => seeded_rng(derive_path_seed(s, path_idx)),
        None => match entropy_rng() {
            Some(g) => g,
            None => return None,
        },
    };
    let mut draws: Vec<Option<T>> = Vec::new();
    for t in 0..weeks
        invariant
            draws@.len() == t,
            forall|k: int| 0 <= k < t ==> (#[trigger] draws@[k] is None <==> residuals@.len() == 0),
            forall|k: int| 0 <= k < t ==> (#[trigger] draws@[k] matches Some(x) ==> residuals@.contains(x)),
    {
        let d = choose_from(&mut rng, residuals);
        draws.push(d);
    }
    Some(draws)
}

/// Which volatility forecast applies to forecast week `t` (counted from 0) when `len`
/// forecasts are available: week `t`'s own, else the last one, else none.
pub open spec fn vol_position_of(t: usize, len: usize) -> Option<usize> {
    if t < len {
        Some(t)
    } else if len > 0 {
        Some((len - 1) as usize)
    } else {
        None
    }
}

/// The volatility forecast used in week `t` is week `t`'s own while there is one, the last
/// one after that, and none when there are no forecasts: its position is `min(t, len - 1)`.
pub proof fn lemma_vol_position_is_clamped(t: usize, len: usize)
    ensures
        len == 0 ==> vol_position_of(t, len) is None,
        len > 0 ==> vol_position_of(t, len) == Some(if t <= len - 1 { t } else { (len - 1) as usize }),
{
}

/// Picks the volatility forecast for forecast week `t` out of `len` forecasts: week `t`'s
/// own, else the last one, else none.
pub fn vol_position(t: usize, len: usize) -> (pos: Option<usize>)
    ensures
        pos == vol_position_of(t, len),
        pos matches Some(i) ==> i < len,
{
    if t < len {
        Some(t)
    } else if len > 0 {
        Some(len - 1)
    } else {
        None
    }
}

} // verus!
