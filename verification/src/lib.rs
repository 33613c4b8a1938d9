//! The discrete core of a phase-dispersion-minimisation periodogram.
//!
//! A periodogram sweep folds an irregularly sampled series at each candidate
//! frequency, sorts the samples into phase bins and compares the scatter inside
//! the bins with the scatter of the whole series. This crate holds every part
//! of that procedure that is decided over integers: the admission of a request,
//! the layout of the frequency grid, the assignment of samples to bins, the
//! bin populations with their degrees of freedom, the conventions for an
//! undefined quotient, and the choice between a sequential and a
//! data-parallel sweep. Each of these is proved against a mathematical
//! statement of what it computes.
//!
//! Real numbers enter only as IEEE 754 binary64 bit patterns (`Binary64`),
//! which are classified, ordered and rounded down to integers here, all of
//! it exactly. Arithmetic that rounds is left to the caller: it multiplies a
//! time by a frequency and accumulates the moments of each bin, and asks
//! this crate where a sample belongs and what divides what.
pub mod binary64;
pub mod bins;
pub mod checks;
pub mod error;
pub mod grid;
pub mod sweep;
pub mod theta;

pub use crate::binary64::Binary64;
pub use crate::bins::{bin_index, BinCounts};
pub use crate::checks::{
    check_bin_count, check_matching_length, check_min_less_max, check_time_kind, TimeKind,
};
pub use crate::error::PdmError;
pub use crate::grid::{grid_point, GridPoint};
pub use crate::sweep::{
    choose_schedule, plan_sweep, Schedule, SweepPlan, SweepRequest, DEFAULT_PARALLEL_THRESHOLD,
};
pub use crate::theta::{theta_form, variance_form, Quotient};
