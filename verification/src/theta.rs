//! The conventions by which the dispersion statistic avoids an undefined
//! quotient.
//!
//! A variance divides a sum of squared deviations by its degrees of freedom:
//! the population less one for a bin or for the whole series, the pooled
//! degrees for the pooled variance. With no degrees of freedom there is no
//! estimate of dispersion and the variance is zero. Theta divides the pooled
//! variance by the total variance; where both are zero, as for a constant
//! signal, theta is zero.
use vstd::prelude::*;
use crate::binary64::Binary64;

verus! {

/// How a quotient of the statistic is obtained.
#[derive(Clone, Copy, Debug, PartialEq, Eq, Structural)]
pub enum Quotient {
    /// The quotient is zero by convention; nothing is divided.
    Zero,
    /// The quotient is the numerator divided by the denominator.
    Divide,
}

/// A variance is zero by convention exactly when it has no degrees of
/// freedom.
pub open spec fn spec_variance_form(degrees_of_freedom: nat) -> Quotient {
    if degrees_of_freedom == 0 {
        Quotient::Zero
    } else {
        Quotient::Divide
    }
}

/// Theta is zero by convention exactly when the pooled and the total variance
/// are both zero.
pub open spec fn spec_theta_form(pooled_variance: Binary64, total_variance: Binary64) -> Quotient {
    if pooled_variance.spec_is_zero() && total_variance.spec_is_zero() {
        Quotient::Zero
    } else {
        Quotient::Divide
    }
}

/// Decides how a variance is obtained from its degrees of freedom.
pub fn variance_form(degrees_of_freedom: u64) -> (form: Quotient)
    ensures
        form == spec_variance_form(degrees_of_freedom as nat),
{
    if degrees_of_freedom == 0 {
        Quotient::Zero
    } else {
        Quotient::Divide
    }
}

/// Decides how theta is obtained from the pooled and the total variance.
pub fn theta_form(pooled_variance: Binary64, total_variance: Binary64) -> (form: Quotient)
    ensures
        form == spec_theta_form(pooled_variance, total_variance),
{
    if pooled_variance.is_zero() && total_variance.is_zero() {
        Quotient::Zero
    } else {
        Quotient::Divide
    }
}

} // verus!
