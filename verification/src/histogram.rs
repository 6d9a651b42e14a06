use vstd::prelude::*;
use vstd::string::*;

use crate::text::{json_count_array, json_counts, json_string_array, json_strings, views};

verus! {

/// The bin a position falls in: positions past the last bin count in the last bin.
pub open spec fn bin_of(position: usize, n_bins: nat) -> nat {
    if position < n_bins { position as nat } else { (n_bins - 1) as nat }
}

/// How many of the positions fall in bin `b`.
pub open spec fn count_in_bin(positions: Seq<usize>, n_bins: nat, b: nat) -> nat
    decreases positions.len(),
{
    if positions.len() == 0 {
        0
    } else {
        count_in_bin(positions.drop_last(), n_bins, b) + if bin_of(positions.last(), n_bins) == b {
            1nat
        } else {
            0nat
        }
    }
}

/// The sum of a sequence of counts.
pub open spec fn total(counts: Seq<usize>) -> int
    decreases counts.len(),
{
    if counts.len() == 0 {
        0
    } else {
        total(counts.drop_last()) + counts.last()
    }
}

/// A single position is counted once, in its own bin when it is below `n_bins` and in
/// the last bin otherwise; no other bin counts it.
pub proof fn lemma_tally_single(x: usize, n_bins: nat, b: nat)
    requires
        n_bins > 0,
    ensures
        count_in_bin(seq![x], n_bins, b) == if (x < n_bins && b == x) || (x >= n_bins && b == n_bins - 1) {
            1nat
        } else {
            0nat
        },
{
    assert(seq![x].drop_last() =~= Seq::<usize>::empty());
    assert(count_in_bin(Seq::<usize>::empty(), n_bins, b) == 0);
    assert(seq![x].last() == x);
    assert(count_in_bin(seq![x], n_bins, b) == count_in_bin(seq![x].drop_last(), n_bins, b)
        + if bin_of(x, n_bins) == b { 1nat } else { 0nat });
}

/// Tallies add up: the count of a bin over two runs of positions is the sum of its
/// counts over each.
pub proof fn lemma_tally_append(first: Seq<usize>, second: Seq<usize>, n_bins: nat, b: nat)
    ensures
        count_in_bin(first + second, n_bins, b) == count_in_bin(first, n_bins, b) + count_in_bin(second, n_bins, b),
    decreases second.len(),
{
    if second.len() == 0 {
        assert(first + second =~= first);
    } else {
        lemma_tally_append(first, second.drop_last(), n_bins, b);
        assert((first + second).drop_last() =~= first + second.drop_last());
        assert((first + second).last() == second.last());
    }
}

proof fn lemma_count_in_bin_bounded(positions: Seq<usize>, n_bins: nat, b: nat)
    ensures
        count_in_bin(positions, n_bins, b) <= positions.len(),
    decreases positions.len(),
{
    if positions.len() > 0 {
        lemma_count_in_bin_bounded(positions.drop_last(), n_bins, b);
    }
}

proof fn lemma_total_increment(counts: Seq<usize>, j: int, v: usize)
    requires
        0 <= j < counts.len(),
        v == counts[j] + 1,
    ensures
        total(counts.update(j, v)) == total(counts) + 1,
    decreases counts.len(),
{
    let u = counts.update(j, v);
    if j == counts.len() - 1 {
        assert(u.drop_last() =~= counts.drop_last());
    } else {
        assert(u.drop_last() =~= counts.drop_last().update(j, v));
        lemma_total_increment(counts.drop_last(), j, v);
    }
}

proof fn lemma_total_zeros(counts: Seq<usize>)
    requires
        forall|k: int| 0 <= k < counts.len() ==> counts[k] == 0,
    ensures
        total(counts) == 0,
    decreases counts.len(),
{
    if counts.len() > 0 {
        lemma_total_zeros(counts.drop_last());
    }
}

/// Counts how many positions fall in each of `n_bins` bins; a position at or past the
/// last bin counts in the last bin.
pub fn tally_bins(positions: &[usize], n_bins: usize) -> (counts: Vec<usize>)
    requires
        n_bins > 0,
    ensures
        counts@.len() == n_bins,
        forall|b: int| 0 <= b < n_bins ==> #[trigger] counts@[b] == count_in_bin(positions@, n_bins as nat, b as nat),
        total(counts@) == positions@.len(),
{
    let mut counts: Vec<usize> = Vec::new();
    for b in 0..n_bins
        invariant
            counts@.len() == b,
            forall|k: int| 0 <= k < b ==> counts@[k] == 0,
    {
        counts.push(0);
    }
    proof {
        lemma_total_zeros(counts@);
        assert forall|b: int| 0 <= b < n_bins implies #[trigger] counts@[b] == count_in_bin(positions@.take(0), n_bins as nat, b as nat) by {
            assert(positions@.take(0).len() == 0);
        }
    }
    let n = positions.len();
    for i in 0..n
        invariant
            n == positions@.len(),
            n_bins > 0,
            counts@.len() == n_bins,
            forall|b: int| 0 <= b < n_bins ==> #[trigger] counts@[b] == count_in_bin(positions@.take(i as int), n_bins as nat, b as nat),
            total(counts@) == i,
    {
        let p = positions[i];
        let idx = if p < n_bins { p } else { n_bins - 1 };
        let ghost before = counts@;
        proof {
            lemma_count_in_bin_bounded(positions@.take(i as int), n_bins as nat, idx as nat);
        }
        let c = counts[idx];
        counts.set(idx, c + 1);
        proof {
            lemma_total_increment(before, idx as int, (c + 1) as usize);
            let next = positions@.take(i + 1);
            assert(next.drop_last() =~= positions@.take(i as int));
            assert(next.last() == p);
            assert forall|b: int| 0 <= b < n_bins implies #[trigger] counts@[b] == count_in_bin(next, n_bins as nat, b as nat) by {
                assert(counts@[b] == before[b] + if b == idx { 1int } else { 0int });
            }
        }
    }
    proof { assert(positions@.take(n as int) =~= positions@); }
    counts
}

/// A histogram: one label and one count per bin.
pub struct Histogram {
    pub labels: Vec<String>,
    pub counts: Vec<usize>,
}

/// The JSON object that the dashboard reads a histogram from.
pub open spec fn histogram_json(labels: Seq<Seq<char>>, counts: Seq<usize>) -> Seq<char> {
    "{\"labels\":"@ + json_strings(labels) + ",\"counts\":"@ + json_counts(counts) + "}"@
}

impl Histogram {
    /// Writes the histogram as a JSON object with a `labels` and a `counts` array.
    pub fn to_json(&self) -> (s: String)
        ensures
            s@ == histogram_json(views(self.labels@), self.counts@),
    {
        let mut s = String::new();
        s.append("{\"labels\":");
        let labels = json_string_array(self.labels.as_slice());
        s.append(labels.as_str());
        s.append(",\"counts\":");
        let counts = json_count_array(self.counts.as_slice());
        s.append(counts.as_str());
        s.append("}");
        s
    }
}

} // verus!
