//! Traces: the wires that join two or more pins.
//!
//! A trace holds a computed level derived from the pins currently driving
//! it, plus its own pull default.  The level is always recomputed by the
//! resolution algorithm in [`crate::circuit`]; it is never stored in a way
//! that survives a driving pin.

use vstd::prelude::*;
use crate::level::{Level, spec_high, spec_low};

verus! {

/// A printed-circuit-board trace connecting pins of a circuit.
///
/// Membership is by pin index into the owning circuit.  Pins can be added
/// by an explicit connect operation but never removed.
#[derive(Debug)]
pub struct Trace {
    /// The aggregate level; `None` if nothing drives the trace and no pull
    /// is configured.
    pub level: Level,
    /// The pull default substituted when the aggregate would be absent.
    pub float: Level,
    /// The indices of the member pins, in insertion order.
    pub pins: Vec<usize>,
}

impl Trace {
    /// Returns the aggregate level; `None` if the trace floats.
    pub fn level(&self) -> (l: Level)
        ensures
            l == self.level,
    {
        self.level
    }

    /// Whether the aggregate level is defined and at or above the high
    /// threshold.
    pub fn high(&self) -> (r: bool)
        ensures
            r == spec_high(self.level),
    {
        match self.level {
            None => false,
            Some(n) => n >= crate::level::LEVEL_THRESHOLD,
        }
    }

    /// Whether the aggregate level is defined and below the high threshold.
    pub fn low(&self) -> (r: bool)
        ensures
            r == spec_low(self.level),
    {
        match self.level {
            None => false,
            Some(n) => n < crate::level::LEVEL_THRESHOLD,
        }
    }

    /// Whether the aggregate level is absent.
    pub fn floating(&self) -> (r: bool)
        ensures
            r == (self.level is None),
    {
        match self.level {
            None => true,
            _ => false,
        }
    }

    /// The member pins, in insertion order.
    pub fn members(&self) -> (m: &Vec<usize>)
        ensures
            m@ == self.pins@,
    {
        &self.pins
    }
}

} // verus!
