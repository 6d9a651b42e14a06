use vstd::prelude::*;

verus! {

/// The number of bootstrap paths the fan chart aims to show.
pub const FAN_CHART_PATHS: usize = 50;

/// The stride through the bootstrap paths for the fan chart: every path when there are
/// at most 50, else every `n / 50`-th.
pub open spec fn fan_step(n_paths: nat) -> nat {
    if n_paths > FAN_CHART_PATHS { n_paths / (FAN_CHART_PATHS as nat) } else { 1 }
}

/// The fan chart's stride, read off the path count: 1 for at most 50 paths; above
/// that, the largest stride with 50 strides fitting in the path count.
pub proof fn lemma_fan_step_bounds(n_paths: nat)
    ensures
        n_paths <= 50 ==> fan_step(n_paths) == 1,
        n_paths > 50 ==> 50 * fan_step(n_paths) <= n_paths < 50 * (fan_step(n_paths) + 1),
        fan_step(n_paths) >= 1,
{
    if n_paths > 50 {
        vstd::arithmetic::div_mod::lemma_fundamental_div_mod(n_paths as int, 50);
    }
}

/// The stride through `n_paths` bootstrap paths for the fan chart.
pub fn fan_chart_step(n_paths: usize) -> (step: usize)
    ensures
        step == fan_step(n_paths as nat),
        step >= 1,
{
    let sample_size = if n_paths < FAN_CHART_PATHS { n_paths } else { FAN_CHART_PATHS };
    if n_paths > sample_size {
        n_paths / sample_size
    } else {
        1
    }
}

/// The positions of the bootstrap paths drawn on the fan chart: 0, step, 2 * step, ...,
/// every multiple of the stride below `n_paths`, in increasing order.
pub fn fan_chart_indices(n_paths: usize) -> (indices: Vec<usize>)
    ensures
        forall|k: int| 0 <= k < indices@.len() ==> #[trigger] indices@[k] == k * fan_step(n_paths as nat),
        forall|k: int| 0 <= k < indices@.len() ==> #[trigger] indices@[k] < n_paths,
        indices@.len() * fan_step(n_paths as nat) >= n_paths,
{
    let step = fan_chart_step(n_paths);
    let mut indices: Vec<usize> = Vec::new();
    let mut next: usize = 0;
    proof {
        assert(indices@.len() == 0);
        assert(0 * step == 0) by (nonlinear_arith);
    }
    while next < n_paths
        invariant
            step >= 1,
            step == fan_step(n_paths as nat),
            next == indices@.len() * step,
            forall|k: int| 0 <= k < indices@.len() ==> #[trigger] indices@[k] == k * step,
            forall|k: int| 0 <= k < indices@.len() ==> #[trigger] indices@[k] < n_paths,
        decreases n_paths - next,
    {
        indices.push(next);
        proof {
            assert((indices@.len() - 1) * step + step == indices@.len() * step) by (nonlinear_arith);
        }
        if n_paths - next <= step {
            proof {
                assert(indices@.len() * step >= n_paths);
            }
            return indices;
        }
        next = next + step;
    }
    indices
}

} // verus!
