//! Phase bins: which bin a sample falls into, how many samples each bin
//! holds, and how many degrees of freedom the bins pool.
//!
//! A fold at one frequency gives every sample a raw bin number, the integer
//! part of its phase times the number of bins. Rounding at a phase close to
//! one can push that number to the bin count itself, so it is clamped into
//! the valid range. The populations of the bins are then the multiplicities
//! of the clamped numbers, and a bin of `n >= 2` samples contributes `n - 1`
//! degrees of freedom to the pooled variance, a smaller bin none.
use vstd::prelude::*;
use vstd::multiset::Multiset;
use crate::error::PdmError;

verus! {

/// The bin of a raw bin number among `n_bins >= 1` bins: the number itself
/// where it is a valid index, else the nearest valid index.
pub open spec fn spec_bin_index(raw: int, n_bins: int) -> int {
    if raw < 0 {
        0
    } else if raw >= n_bins {
        n_bins - 1
    } else {
        raw
    }
}

/// What `bin_index` returns: there is no bin to assign when there are no bins.
pub open spec fn spec_checked_bin_index(raw: int, n_bins: int) -> Result<usize, PdmError> {
    if n_bins == 0 {
        Err(PdmError::InvalidBinCount)
    } else {
        Ok(spec_bin_index(raw, n_bins) as usize)
    }
}

/// The degrees of freedom of a variance over the given number of samples:
/// one for each sample beyond the first.
pub open spec fn spare(population: nat) -> nat {
    if population >= 2 {
        (population - 1) as nat
    } else {
        0
    }
}

/// 1 where the condition holds, else 0.
pub open spec fn one_if(condition: bool) -> nat {
    if condition {
        1
    } else {
        0
    }
}

/// The number of samples in the bins `0 .. k`.
pub open spec fn population_sum(bins: Multiset<int>, k: nat) -> nat
    decreases k,
{
    if k == 0 {
        0
    } else {
        population_sum(bins, (k - 1) as nat) + bins.count(k - 1)
    }
}

/// The number of bins among `0 .. k` that hold at least one sample.
pub open spec fn occupied_bins(bins: Multiset<int>, k: nat) -> nat
    decreases k,
{
    if k == 0 {
        0
    } else {
        occupied_bins(bins, (k - 1) as nat) + one_if(bins.count(k - 1) > 0)
    }
}

/// The degrees of freedom pooled over the bins `0 .. k`: the sum of
/// `n_j - 1` over the bins with `n_j >= 2`.
pub open spec fn pooled_degrees(bins: Multiset<int>, k: nat) -> nat
    decreases k,
{
    if k == 0 {
        0
    } else {
        pooled_degrees(bins, (k - 1) as nat) + spare(bins.count(k - 1))
    }
}

/// Whether every sample of `bins` lies in one of the bins `0 .. k`.
pub open spec fn within_bins(bins: Multiset<int>, k: nat) -> bool {
    forall|v: int| #[trigger] bins.count(v) > 0 ==> 0 <= v < k
}

fn clamp_to_bins(raw: i64, n_bins: usize) -> (bin: usize)
    requires
        n_bins >= 1,
    ensures
        bin == spec_bin_index(raw as int, n_bins as int),
        bin < n_bins,
{
    if raw < 0 {
        0
    } else if raw as u64 >= n_bins as u64 {
        n_bins - 1
    } else {
        raw as usize
    }
}

/// Assigns a raw bin number to one of `n_bins` bins, clamping it into
/// `0 ..= n_bins - 1`. Fails with `InvalidBinCount` exactly when `n_bins` is 0.
pub fn bin_index(raw: i64, n_bins: usize) -> (assigned: Result<usize, PdmError>)
    ensures
        assigned == spec_checked_bin_index(raw as int, n_bins as int),
{
    if n_bins == 0 {
        Err(PdmError::InvalidBinCount)
    } else {
        Ok(clamp_to_bins(raw, n_bins))
    }
}

/// The populations of the phase bins of one fold. Its view is the multiset of
/// the bins that the recorded samples were assigned to.
pub struct BinCounts {
    counts: Vec<u64>,
    total: u64,
    degrees: u64,
    recorded: Ghost<Multiset<int>>,
}

impl View for BinCounts {
    type V = Multiset<int>;

    closed spec fn view(&self) -> Multiset<int> {
        self.recorded@
    }
}

impl BinCounts {
    /// The number of bins.
    pub closed spec fn spec_n_bins(&self) -> nat {
        self.counts@.len()
    }

    /// The counters agree with the recorded samples, and every recorded
    /// sample lies in a bin that exists.
    pub closed spec fn wf(&self) -> bool {
        &&& self.counts@.len() >= 1
        &&& forall|j: int|
            0 <= j < self.counts@.len() ==> #[trigger] self.counts@[j] == self.recorded@.count(j)
        &&& within_bins(self.recorded@, self.counts@.len())
        &&& self.total == self.recorded@.len()
        &&& self.degrees == pooled_degrees(self.recorded@, self.counts@.len())
        &&& self.degrees <= self.total
    }

    /// A well-formed counter has at least one bin and holds no sample
    /// outside its bins, which is what the laws of this module ask for.
    pub proof fn lemma_samples_within_bins(&self)
        requires
            self.wf(),
        ensures
            self.spec_n_bins() >= 1,
            within_bins(self@, self.spec_n_bins()),
    {
    }

    /// Empty bins. Fails with `InvalidBinCount` exactly when `n_bins` is 0.
    pub fn new(n_bins: usize) -> (made: Result<BinCounts, PdmError>)
        ensures
            n_bins == 0 ==> (made matches Err(e) && e == PdmError::InvalidBinCount),
            n_bins > 0 ==> (made matches Ok(counts) && counts.wf() && counts.spec_n_bins()
                == n_bins && counts@ == Multiset::<int>::empty()),
    {
        if n_bins == 0 {
            return Err(PdmError::InvalidBinCount);
        }
        let counts: Vec<u64> = vec![0u64; n_bins];
        proof {
            lemma_no_samples(n_bins as nat);
        }
        Ok(BinCounts { counts, total: 0, degrees: 0, recorded: Ghost(Multiset::empty()) })
    }

    /// The number of bins.
    pub fn n_bins(&self) -> (n: usize)
        requires
            self.wf(),
        ensures
            n == self.spec_n_bins(),
            n >= 1,
    {
        self.counts.len()
    }

    /// Records one sample by its raw bin number and returns the bin that it
    /// was assigned to.
    pub fn record(&mut self, raw: i64) -> (bin: usize)
        requires
            old(self).wf(),
            old(self)@.len() < u64::MAX,
        ensures
            final(self).wf(),
            final(self).spec_n_bins() == old(self).spec_n_bins(),
            bin == spec_bin_index(raw as int, old(self).spec_n_bins() as int),
            final(self)@ == old(self)@.insert(bin as int),
    {
        let n = self.counts.len();
        let bin = clamp_to_bins(raw, n);
        let was = self.counts[bin];
        proof {
            lemma_degrees_after_insert(self.recorded@, bin as int, n as nat);
            assert(self.recorded@.count(bin as int) <= self.recorded@.len());
        }
        self.counts.set(bin, was + 1);
        self.total = self.total + 1;
        if was >= 1 {
            self.degrees = self.degrees + 1;
        }
        self.recorded = Ghost(self.recorded@.insert(bin as int));
        bin
    }

    /// The number of samples recorded in a bin; 0 for a bin that does not
    /// exist.
    pub fn count(&self, bin: usize) -> (population: u64)
        requires
            self.wf(),
        ensures
            population == self@.count(bin as int),
    {
        if bin < self.counts.len() {
            self.counts[bin]
        } else {
            0
        }
    }

    /// The weight of a bin in the pooled variance: its population less one
    /// where it holds at least two samples, else nothing.
    pub fn weight(&self, bin: usize) -> (weight: u64)
        requires
            self.wf(),
        ensures
            weight == spare(self@.count(bin as int)),
    {
        let population = self.count(bin);
        if population >= 2 {
            population - 1
        } else {
            0
        }
    }

    /// The number of samples recorded.
    pub fn total(&self) -> (samples: u64)
        requires
            self.wf(),
        ensures
            samples == self@.len(),
    {
        self.total
    }

    /// The degrees of freedom of the variance of the whole series: the
    /// number of samples less one, and none for fewer than two samples.
    pub fn total_degrees_of_freedom(&self) -> (degrees: u64)
        requires
            self.wf(),
        ensures
            degrees == spare(self@.len()),
    {
        if self.total >= 2 {
            self.total - 1
        } else {
            0
        }
    }

    /// The degrees of freedom of the pooled variance: the sum of `n_j - 1`
    /// over the bins that hold at least two samples.
    pub fn degrees_of_freedom(&self) -> (degrees: u64)
        requires
            self.wf(),
        ensures
            degrees == pooled_degrees(self@, self.spec_n_bins()),
            degrees <= self@.len(),
    {
        self.degrees
    }
}

/// With no sample recorded, the bins are empty and pool nothing.
pub proof fn lemma_no_samples(k: nat)
    ensures
        population_sum(Multiset::<int>::empty(), k) == 0,
        occupied_bins(Multiset::<int>::empty(), k) == 0,
        pooled_degrees(Multiset::<int>::empty(), k) == 0,
    decreases k,
{
    if k > 0 {
        lemma_no_samples((k - 1) as nat);
    }
}

/// One more sample in a bin adds a degree of freedom exactly when the bin
/// was not empty before.
pub proof fn lemma_degrees_after_insert(bins: Multiset<int>, bin: int, k: nat)
    ensures
        pooled_degrees(bins.insert(bin), k) == pooled_degrees(bins, k) + one_if(
            0 <= bin < k && bins.count(bin) >= 1,
        ),
    decreases k,
{
    if k > 0 {
        lemma_degrees_after_insert(bins, bin, (k - 1) as nat);
    }
}

/// One more sample in a bin adds one to the number of samples in the bins,
/// and one to the number of occupied bins exactly when the bin was empty.
pub proof fn lemma_sums_after_insert(bins: Multiset<int>, bin: int, k: nat)
    ensures
        population_sum(bins.insert(bin), k) == population_sum(bins, k) + one_if(0 <= bin < k),
        occupied_bins(bins.insert(bin), k) == occupied_bins(bins, k) + one_if(
            0 <= bin < k && bins.count(bin) == 0,
        ),
    decreases k,
{
    if k > 0 {
        lemma_sums_after_insert(bins, bin, (k - 1) as nat);
    }
}

/// Every sample is counted in exactly one bin: the populations of the bins
/// add up to the number of samples.
pub proof fn lemma_populations_sum_to_total(bins: Multiset<int>, n_bins: nat)
    requires
        within_bins(bins, n_bins),
    ensures
        population_sum(bins, n_bins) == bins.len(),
    decreases bins.len(),
{
    if bins.len() == 0 {
        assert(bins =~= Multiset::<int>::empty()) by {
            assert forall|v: int| bins.count(v) == 0 by {
                assert(bins.count(v) <= bins.len());
            }
        }
        lemma_no_samples(n_bins);
    } else {
        let v = bins.choose();
        let rest = bins.remove(v);
        assert(bins.count(v) > 0);
        assert(rest.insert(v) =~= bins);
        assert(within_bins(rest, n_bins)) by {
            assert forall|w: int| #[trigger] rest.count(w) > 0 implies 0 <= w < n_bins by {
                assert(bins.count(w) > 0);
            }
        }
        assert(rest.len() + 1 == bins.len());
        lemma_populations_sum_to_total(rest, n_bins);
        lemma_sums_after_insert(rest, v, n_bins);
    }
}

/// The pooled degrees of freedom are the number of samples less the number
/// of occupied bins: each occupied bin gives one sample to its own mean.
pub proof fn lemma_degrees_are_samples_less_occupied_bins(bins: Multiset<int>, n_bins: nat)
    requires
        within_bins(bins, n_bins),
    ensures
        pooled_degrees(bins, n_bins) + occupied_bins(bins, n_bins) == bins.len(),
{
    lemma_populations_sum_to_total(bins, n_bins);
    lemma_degrees_split(bins, n_bins);
}

proof fn lemma_degrees_split(bins: Multiset<int>, k: nat)
    ensures
        pooled_degrees(bins, k) + occupied_bins(bins, k) == population_sum(bins, k),
    decreases k,
{
    if k > 0 {
        lemma_degrees_split(bins, (k - 1) as nat);
    }
}

/// A single bin takes every sample, whatever its raw bin number, and pools
/// all samples but one.
pub proof fn lemma_single_bin(bins: Multiset<int>, raw: int)
    requires
        within_bins(bins, 1),
    ensures
        spec_bin_index(raw, 1) == 0,
        bins.count(0) == bins.len(),
        pooled_degrees(bins, 1) == spare(bins.len()),
{
    lemma_populations_sum_to_total(bins, 1);
    assert(population_sum(bins, 1) == population_sum(bins, 0) + bins.count(0));
    assert(pooled_degrees(bins, 1) == pooled_degrees(bins, 0) + spare(bins.count(0)));
}

/// The populations depend on which samples were recorded, not on the order
/// in which they were: recording two samples either way round leaves the
/// same multiset, and every count is read off that multiset.
pub proof fn lemma_recording_order_is_irrelevant(bins: Multiset<int>, a: int, b: int)
    ensures
        bins.insert(a).insert(b) == bins.insert(b).insert(a),
{
    assert(bins.insert(a).insert(b) =~= bins.insert(b).insert(a));
}

} // verus!
