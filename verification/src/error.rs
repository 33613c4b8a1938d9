//! The ways in which a periodogram request is turned away.
use vstd::prelude::*;

verus! {

/// Why a request was rejected. A rejected request yields no partial result.
#[derive(Clone, Copy, Debug, PartialEq, Eq, Structural)]
pub enum PdmError {
    /// The time and signal sequences differ in length.
    LengthMismatch,
    /// The lower frequency bound is not below the upper one, or no
    /// frequencies were asked for.
    InvalidFrequencyRange,
    /// Zero phase bins were asked for.
    InvalidBinCount,
    /// The time sequence is of a kind that cannot be read as seconds.
    UnsupportedTimeRepresentation,
}

impl PdmError {
    /// The text of the description that goes with each rejection.
    pub open spec fn spec_message(self) -> Seq<char> {
        match self {
            PdmError::LengthMismatch => "time and signal must have the same length"@,
            PdmError::InvalidFrequencyRange =>
                "min_freq must be below max_freq and n_freqs must be at least 1"@,
            PdmError::InvalidBinCount => "n_bins must be at least 1"@,
            PdmError::UnsupportedTimeRepresentation =>
                "time must be an array of floating-point seconds or of timestamps"@,
        }
    }

    /// A description that names the violated precondition.
    pub fn message(&self) -> (text: String)
        ensures
            text@ == self.spec_message(),
    {
        match self {
            PdmError::LengthMismatch => "time and signal must have the same length".to_owned(),
            PdmError::InvalidFrequencyRange =>
                "min_freq must be below max_freq and n_freqs must be at least 1".to_owned(),
            PdmError::InvalidBinCount => "n_bins must be at least 1".to_owned(),
            PdmError::UnsupportedTimeRepresentation =>
                "time must be an array of floating-point seconds or of timestamps".to_owned(),
        }
    }
}

} // verus!
