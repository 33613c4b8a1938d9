//! The layout of an evenly spaced frequency grid.
//!
//! A grid of `n` points divides the span between its bounds into `n - 1`
//! equal intervals. Its first point is the lower bound itself and, where
//! there is more than one point, its last point is the upper bound itself:
//! neither is obtained by stepping, so neither carries a rounding error.
//! Every point in between lies a whole number of steps above the lower bound.
use vstd::prelude::*;

verus! {

/// Where a grid point lies between the bounds of its grid.
#[derive(Clone, Copy, Debug, PartialEq, Eq, Structural)]
pub enum GridPoint {
    /// The lower bound.
    Lower,
    /// `steps` intervals above the lower bound, of the `intervals` equal
    /// intervals between the bounds.
    Interior { steps: usize, intervals: usize },
    /// The upper bound.
    Upper,
}

impl GridPoint {
    /// How many intervals above the lower bound the point lies, in a grid of
    /// `n_freqs` points.
    pub open spec fn steps_above_lower(self, n_freqs: nat) -> nat {
        match self {
            GridPoint::Lower => 0,
            GridPoint::Interior { steps, intervals } => steps as nat,
            GridPoint::Upper => (n_freqs - 1) as nat,
        }
    }
}

/// The point at `index` of a grid of `n_freqs` points, if the grid has one.
pub open spec fn spec_grid_point(index: nat, n_freqs: nat) -> Option<GridPoint> {
    if index >= n_freqs {
        None
    } else if index == 0 {
        Some(GridPoint::Lower)
    } else if index == n_freqs - 1 {
        Some(GridPoint::Upper)
    } else {
        Some(GridPoint::Interior { steps: index as usize, intervals: (n_freqs - 1) as usize })
    }
}

/// Lays out one point of a grid of `n_freqs` points. `None` exactly when
/// `index` is not below `n_freqs`. A grid of one point consists of the lower
/// bound alone.
pub fn grid_point(index: usize, n_freqs: usize) -> (point: Option<GridPoint>)
    ensures
        point == spec_grid_point(index as nat, n_freqs as nat),
{
    if index >= n_freqs {
        None
    } else if index == 0 {
        Some(GridPoint::Lower)
    } else if index == n_freqs - 1 {
        Some(GridPoint::Upper)
    } else {
        Some(GridPoint::Interior { steps: index, intervals: n_freqs - 1 })
    }
}

/// A grid has exactly `n_freqs` points. It starts at the lower bound and,
/// with more than one point, ends at the upper bound; the point at `index`
/// lies `index` intervals above the lower bound, strictly inside the span
/// unless it is the first or the last.
pub proof fn lemma_grid_spans_bounds(index: usize, n_freqs: usize)
    ensures
        spec_grid_point(index as nat, n_freqs as nat) is Some <==> index < n_freqs,
        n_freqs >= 1 ==> spec_grid_point(0, n_freqs as nat) == Some(GridPoint::Lower),
        n_freqs >= 2 ==> spec_grid_point((n_freqs - 1) as nat, n_freqs as nat) == Some(
            GridPoint::Upper,
        ),
        index < n_freqs ==> spec_grid_point(
            index as nat,
            n_freqs as nat,
        ).unwrap().steps_above_lower(n_freqs as nat) == index,
        spec_grid_point(index as nat, n_freqs as nat) matches Some(
            GridPoint::Interior { steps, intervals },
        ) ==> 0 < steps < intervals && intervals == n_freqs - 1,
{
}

/// The points of a grid ascend: a later point lies more intervals above the
/// lower bound than an earlier one.
pub proof fn lemma_grid_ascends(earlier: usize, later: usize, n_freqs: usize)
    requires
        earlier < later < n_freqs,
    ensures
        spec_grid_point(earlier as nat, n_freqs as nat).unwrap().steps_above_lower(n_freqs as nat)
            < spec_grid_point(later as nat, n_freqs as nat).unwrap().steps_above_lower(
            n_freqs as nat,
        ),
{
}

} // verus!
