//! The decision rule of the Aberration strategy, a Bollinger-band
//! mean reversion.
//!
//! The strategy keeps a rolling mean and standard deviation of the last
//! prices and a position flag in {-1, 0, +1}. Closing has priority over
//! opening: a long closes when the price falls below the mean, a short
//! when it rises above; a flat position opens long above the upper band
//! and short below the lower band. The rule is decided here over double
//! bit patterns; the caller computes the mean and the two bands
//! (mean ± 2·stdev) and builds the order. Comparisons against NaN are
//! false, so nothing is traded before the statistics are defined.

use vstd::prelude::*;

use crate::fp::{bits_gt, bits_lt, float_lt};
use crate::types::{DirectionType, OffsetFlagType};

verus! {

/// One step of the Aberration rule: from the position flag, the last
/// price, the rolling mean and the two bands to the new flag and the
/// order to emit, if any.
pub fn aberration_decide(position: i32, last: u64, mean: u64, upper: u64, lower: u64) -> (r: (
    i32,
    Option<(DirectionType, OffsetFlagType)>,
))
    ensures
        position > 0 && float_lt(last, mean) ==> r == (
            0i32,
            Some((DirectionType::SELL, OffsetFlagType::CLOSE)),
        ),
        position > 0 && !float_lt(last, mean) ==> r == (
            position,
            None::<(DirectionType, OffsetFlagType)>,
        ),
        position < 0 && float_lt(mean, last) ==> r == (
            0i32,
            Some((DirectionType::BUY, OffsetFlagType::CLOSE)),
        ),
        position < 0 && !float_lt(mean, last) ==> r == (
            position,
            None::<(DirectionType, OffsetFlagType)>,
        ),
        position == 0 && float_lt(upper, last) ==> r == (
            1i32,
            Some((DirectionType::BUY, OffsetFlagType::OPEN)),
        ),
        position == 0 && !float_lt(upper, last) && float_lt(last, lower) ==> r == (
            -1i32,
            Some((DirectionType::SELL, OffsetFlagType::OPEN)),
        ),
        position == 0 && !float_lt(upper, last) && !float_lt(last, lower) ==> r == (
            0i32,
            None::<(DirectionType, OffsetFlagType)>,
        ),
{
    if position > 0 {
        if bits_lt(last, mean) {
            return (0, Some((DirectionType::SELL, OffsetFlagType::CLOSE)));
        }
        return (position, None);
    }
    if position < 0 {
        if bits_gt(last, mean) {
            return (0, Some((DirectionType::BUY, OffsetFlagType::CLOSE)));
        }
        return (position, None);
    }
    if bits_gt(last, upper) {
        return (1, Some((DirectionType::BUY, OffsetFlagType::OPEN)));
    }
    if bits_lt(last, lower) {
        return (-1, Some((DirectionType::SELL, OffsetFlagType::OPEN)));
    }
    (0, None)
}

} // verus!
