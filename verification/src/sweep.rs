//! The plan of a sweep: whether a request is admitted, and how its
//! frequencies are to be evaluated.
use vstd::prelude::*;
use crate::binary64::Binary64;
use crate::checks::{
    check_bin_count, check_matching_length, check_min_less_max, check_time_kind,
    spec_check_bin_count, spec_check_matching_length, spec_check_min_less_max,
    spec_check_time_kind, TimeKind,
};
use crate::error::PdmError;

verus! {

/// The grid size from which a sweep is evaluated in parallel by default.
pub const DEFAULT_PARALLEL_THRESHOLD: usize = 1;

/// How the frequencies of a grid are evaluated.
#[derive(Clone, Copy, Debug, PartialEq, Eq, Structural)]
pub enum Schedule {
    /// One after the other, on the calling thread.
    Sequential,
    /// Independently of each other, on a pool of worker threads.
    Parallel,
}

/// What a caller asks for, in plain values.
#[derive(Clone, Copy, Debug)]
pub struct SweepRequest {
    /// The kind code of the time array.
    pub time_kind_code: char,
    /// The length of the time sequence.
    pub time_len: usize,
    /// The length of the signal sequence.
    pub signal_len: usize,
    /// The lower bound of the frequency grid.
    pub min_freq: Binary64,
    /// The upper bound of the frequency grid.
    pub max_freq: Binary64,
    /// The number of grid points.
    pub n_freqs: usize,
    /// The number of phase bins.
    pub n_bins: usize,
    /// The grid size from which the sweep runs in parallel.
    pub parallel_threshold: usize,
}

/// An admitted request.
#[derive(Clone, Copy, Debug, PartialEq, Eq, Structural)]
pub struct SweepPlan {
    /// How the time sequence measures time.
    pub time_kind: TimeKind,
    /// The number of samples in the series.
    pub n_samples: usize,
    /// The number of frequencies, and so of theta values, in the result.
    pub n_freqs: usize,
    /// The number of phase bins of every fold.
    pub n_bins: usize,
    /// How the frequencies are evaluated.
    pub schedule: Schedule,
}

/// A grid below the threshold is swept sequentially, any other in parallel.
pub open spec fn spec_choose_schedule(n_freqs: nat, parallel_threshold: nat) -> Schedule {
    if n_freqs >= parallel_threshold {
        Schedule::Parallel
    } else {
        Schedule::Sequential
    }
}

/// Whether a request meets every precondition of a sweep.
pub open spec fn admissible(request: SweepRequest) -> bool {
    &&& request.time_kind_code == 'f' || request.time_kind_code == 'M'
    &&& request.time_len == request.signal_len
    &&& request.n_freqs >= 1
    &&& request.min_freq.spec_lt(request.max_freq)
    &&& request.n_bins >= 1
}

/// The plan of a request, or the first precondition that it violates: the
/// kind of the time array is looked at first, then the two lengths, then the
/// frequency range, then the bin count.
pub open spec fn spec_plan_sweep(request: SweepRequest) -> Result<SweepPlan, PdmError> {
    match spec_check_time_kind(request.time_kind_code) {
        Err(e) => Err(e),
        Ok(time_kind) => match spec_check_matching_length(
            request.time_len as nat,
            request.signal_len as nat,
        ) {
            Err(e) => Err(e),
            Ok(_) => match spec_check_min_less_max(
                request.min_freq,
                request.max_freq,
                request.n_freqs as nat,
            ) {
                Err(e) => Err(e),
                Ok(_) => match spec_check_bin_count(request.n_bins as nat) {
                    Err(e) => Err(e),
                    Ok(_) => Ok(
                        SweepPlan {
                            time_kind,
                            n_samples: request.time_len,
                            n_freqs: request.n_freqs,
                            n_bins: request.n_bins,
                            schedule: spec_choose_schedule(
                                request.n_freqs as nat,
                                request.parallel_threshold as nat,
                            ),
                        },
                    ),
                },
            },
        },
    }
}

/// Chooses between a sequential and a parallel sweep of `n_freqs`
/// frequencies: parallel exactly when `n_freqs` reaches the threshold.
pub fn choose_schedule(n_freqs: usize, parallel_threshold: usize) -> (schedule: Schedule)
    ensures
        schedule == spec_choose_schedule(n_freqs as nat, parallel_threshold as nat),
{
    if n_freqs >= parallel_threshold {
        Schedule::Parallel
    } else {
        Schedule::Sequential
    }
}

/// Checks every precondition of a sweep, once and before any computation,
/// and plans the sweep of an admitted request.
pub fn plan_sweep(request: &SweepRequest) -> (planned: Result<SweepPlan, PdmError>)
    ensures
        planned == spec_plan_sweep(*request),
{
    let time_kind = match check_time_kind(request.time_kind_code) {
        Ok(kind) => kind,
        Err(e) => {
            return Err(e);
        },
    };
    match check_matching_length(request.time_len, request.signal_len) {
        Ok(_) => {},
        Err(e) => {
            return Err(e);
        },
    }
    match check_min_less_max(request.min_freq, request.max_freq, request.n_freqs) {
        Ok(_) => {},
        Err(e) => {
            return Err(e);
        },
    }
    match check_bin_count(request.n_bins) {
        Ok(_) => {},
        Err(e) => {
            return Err(e);
        },
    }
    Ok(
        SweepPlan {
            time_kind,
            n_samples: request.time_len,
            n_freqs: request.n_freqs,
            n_bins: request.n_bins,
            schedule: choose_schedule(request.n_freqs, request.parallel_threshold),
        },
    )
}

/// A request is planned exactly when it is admissible, and each rejection
/// names the first precondition that fails. The plan of an admitted request
/// keeps its sizes, so the result of the sweep has one frequency and one
/// theta value for each of the `n_freqs` grid points.
pub proof fn lemma_plan_admits_exactly_the_admissible(request: SweepRequest)
    ensures
        spec_plan_sweep(request) is Ok <==> admissible(request),
        spec_plan_sweep(request) matches Ok(plan) ==> plan.n_freqs == request.n_freqs
            && plan.n_bins == request.n_bins && plan.n_samples == request.time_len
            && plan.n_samples == request.signal_len && plan.n_freqs >= 1 && plan.n_bins >= 1,
        spec_plan_sweep(request) == Err::<SweepPlan, PdmError>(
            PdmError::UnsupportedTimeRepresentation,
        ) <==> !(request.time_kind_code == 'f' || request.time_kind_code == 'M'),
        spec_plan_sweep(request) == Err::<SweepPlan, PdmError>(PdmError::LengthMismatch) <==> (
        request.time_kind_code == 'f' || request.time_kind_code == 'M') && request.time_len
            != request.signal_len,
        spec_plan_sweep(request) == Err::<SweepPlan, PdmError>(PdmError::InvalidFrequencyRange)
            <==> (request.time_kind_code == 'f' || request.time_kind_code == 'M')
            && request.time_len == request.signal_len && !(request.n_freqs >= 1
            && request.min_freq.spec_lt(request.max_freq)),
        spec_plan_sweep(request) == Err::<SweepPlan, PdmError>(PdmError::InvalidBinCount) <==> (
        request.time_kind_code == 'f' || request.time_kind_code == 'M') && request.time_len
            == request.signal_len && request.n_freqs >= 1 && request.min_freq.spec_lt(
            request.max_freq,
        ) && request.n_bins == 0,
{
}

} // verus!
