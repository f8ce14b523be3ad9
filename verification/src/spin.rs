//! Frame time to spin angle.
//!
//! The driver measures elapsed wall-clock time and turns it into a spin
//! angle at a fixed angular velocity.  The angle is measured here in
//! microturns — millionths of a full revolution — so the mapping is
//! exact integer arithmetic: with the rate given as the fraction
//! `rate_num / rate_den` revolutions per second and the time in
//! microseconds, the microseconds and the microturns cancel.
//! Converting the angle to a trigonometric pair is the caller's step.

use vstd::prelude::*;

verus! {

/// The spin angle, in microturns, after `elapsed_micros` microseconds at
/// `rate_num / rate_den` revolutions per second: exactly
/// `elapsed_micros * rate_num / rate_den`, rounded down.  The angle
/// accumulates without wrapping; trigonometric evaluation is periodic,
/// so no explicit modulo is needed.
pub fn spin_microturns(elapsed_micros: u64, rate_num: u64, rate_den: u64) -> (r: u64)
    requires
        rate_den > 0,
        elapsed_micros * rate_num <= u64::MAX,
    ensures
        r == elapsed_micros * rate_num / (rate_den as int),
{
    (elapsed_micros * rate_num) / rate_den
}

} // verus!
