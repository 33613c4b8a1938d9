//! The preconditions of a sweep, each checked once before any computation.
use vstd::prelude::*;
use crate::binary64::Binary64;
use crate::error::PdmError;

verus! {

/// How the time sequence measures time.
#[derive(Clone, Copy, Debug, PartialEq, Eq, Structural)]
pub enum TimeKind {
    /// Floating-point offsets in seconds.
    Seconds,
    /// Calendar timestamps, counted in nanoseconds.
    Timestamps,
}

impl TimeKind {
    /// The number of time units in one second.
    pub open spec fn spec_units_per_second(self) -> nat {
        match self {
            TimeKind::Seconds => 1,
            TimeKind::Timestamps => 1_000_000_000,
        }
    }

    /// The factor between a frequency per time unit and a frequency per
    /// second: 1 for seconds, 10^9 for nanosecond timestamps.
    pub fn units_per_second(self) -> (units: u64)
        ensures
            units == self.spec_units_per_second(),
    {
        match self {
            TimeKind::Seconds => 1,
            TimeKind::Timestamps => 1_000_000_000,
        }
    }
}

/// The kind that an array kind code stands for: `'f'` is a floating-point
/// array and `'M'` an array of timestamps. No other kind is supported.
pub open spec fn spec_check_time_kind(code: char) -> Result<TimeKind, PdmError> {
    if code == 'f' {
        Ok(TimeKind::Seconds)
    } else if code == 'M' {
        Ok(TimeKind::Timestamps)
    } else {
        Err(PdmError::UnsupportedTimeRepresentation)
    }
}

/// The two sequences of a series must pair up one to one.
pub open spec fn spec_check_matching_length(time_len: nat, signal_len: nat) -> Result<
    (),
    PdmError,
> {
    if time_len == signal_len {
        Ok(())
    } else {
        Err(PdmError::LengthMismatch)
    }
}

/// A frequency grid needs at least one point and a lower bound that is
/// numerically below the upper bound; a NaN bound is below nothing.
pub open spec fn spec_check_min_less_max(
    min_freq: Binary64,
    max_freq: Binary64,
    n_freqs: nat,
) -> Result<(), PdmError> {
    if n_freqs >= 1 && min_freq.spec_lt(max_freq) {
        Ok(())
    } else {
        Err(PdmError::InvalidFrequencyRange)
    }
}

/// A fold needs at least one phase bin.
pub open spec fn spec_check_bin_count(n_bins: nat) -> Result<(), PdmError> {
    if n_bins >= 1 {
        Ok(())
    } else {
        Err(PdmError::InvalidBinCount)
    }
}

/// Reads the kind code of the time array. Fails with
/// `UnsupportedTimeRepresentation` for every code but `'f'` and `'M'`.
pub fn check_time_kind(code: char) -> (kind: Result<TimeKind, PdmError>)
    ensures
        kind == spec_check_time_kind(code),
{
    if code == 'f' {
        Ok(TimeKind::Seconds)
    } else if code == 'M' {
        Ok(TimeKind::Timestamps)
    } else {
        Err(PdmError::UnsupportedTimeRepresentation)
    }
}

/// Fails with `LengthMismatch` exactly when the two lengths differ.
pub fn check_matching_length(time_len: usize, signal_len: usize) -> (checked: Result<
    (),
    PdmError,
>)
    ensures
        checked == spec_check_matching_length(time_len as nat, signal_len as nat),
{
    if time_len == signal_len {
        Ok(())
    } else {
        Err(PdmError::LengthMismatch)
    }
}

/// Fails with `InvalidFrequencyRange` exactly when `n_freqs` is 0 or
/// `min_freq` is not numerically below `max_freq`.
pub fn check_min_less_max(min_freq: Binary64, max_freq: Binary64, n_freqs: usize) -> (checked:
    Result<(), PdmError>)
    ensures
        checked == spec_check_min_less_max(min_freq, max_freq, n_freqs as nat),
{
    if n_freqs >= 1 && min_freq.lt(max_freq) {
        Ok(())
    } else {
        Err(PdmError::InvalidFrequencyRange)
    }
}

/// Fails with `InvalidBinCount` exactly when `n_bins` is 0.
pub fn check_bin_count(n_bins: usize) -> (checked: Result<(), PdmError>)
    ensures
        checked == spec_check_bin_count(n_bins as nat),
{
    if n_bins >= 1 {
        Ok(())
    } else {
        Err(PdmError::InvalidBinCount)
    }
}

} // verus!
