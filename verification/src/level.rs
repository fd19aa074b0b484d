//! Signal levels and the pull-default substitution rule.
//!
//! A level is an optional fixed-point value in thousandths of a logic unit:
//! `Some(1000)` is a full high, `Some(0)` a full low, and `None` a floating
//! (high-impedance) signal.  Intermediate values model analog uses such as
//! switch levels of `250` or `750`.

use vstd::prelude::*;

verus! {

/// A signal level; `None` means floating / high-impedance.
pub type Level = Option<i64>;

/// The level of a full logic high.
pub const LEVEL_HIGH: i64 = 1000;

/// The level of a full logic low.
pub const LEVEL_LOW: i64 = 0;

/// Levels at or above this threshold read as high; defined levels below it
/// read as low.
pub const LEVEL_THRESHOLD: i64 = 500;

/// The pull-default rule: an absent level is replaced by the pull level
/// (itself possibly absent); a defined level stands.
pub open spec fn spec_normalize(level: Level, pull: Level) -> Level {
    if level is Some {
        level
    } else {
        pull
    }
}

/// A defined level at or above the threshold is high.
pub open spec fn spec_high(level: Level) -> bool {
    level is Some && level->0 >= LEVEL_THRESHOLD
}

/// A defined level below the threshold is low.
pub open spec fn spec_low(level: Level) -> bool {
    level is Some && level->0 < LEVEL_THRESHOLD
}

/// Substitutes the pull level for an absent level.
pub fn normalize(level: Level, pull: Level) -> (r: Level)
    ensures
        r == spec_normalize(level, pull),
{
    match level {
        None => pull,
        _ => level,
    }
}

} // verus!
