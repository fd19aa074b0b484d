//! Pins: the externally visible terminals of a simulated component.
//!
//! A pin has a direction mode, a current level, a pull default substituted
//! for absent levels, at most one wire association (set once, never cleared),
//! and at most one observing device.  Pins live in a [`crate::circuit::Circuit`]
//! arena and are addressed by index; the operations that involve a connected
//! wire are methods of the circuit, while the purely local state is read and
//! changed here.

use vstd::prelude::*;
use crate::level::{Level, spec_normalize, spec_high, spec_low, LEVEL_HIGH, LEVEL_LOW};
use crate::level::normalize;

verus! {

/// The direction through which data can flow through a pin.
#[derive(Copy, Clone, Debug, PartialEq, Eq, Structural)]
pub enum Mode {
    /// The pin neither drives nor listens to its trace; level changes stay
    /// local and observers are never notified.
    Unconnected,
    /// The pin listens to its trace: its level follows the trace and cannot
    /// be set directly.
    Input,
    /// The pin drives its trace: setting its level pushes the value to the
    /// trace, and the trace cannot change the pin.
    Output,
    /// The pin both drives and listens.  A pin that is sometimes an input
    /// and sometimes an output should switch modes instead.
    Bidirectional,
}

/// A terminal of a simulated component.
///
/// The display name is kept beside the pin in the circuit arena so that the
/// pin itself stays a plain value.
#[derive(Copy, Clone, Debug)]
pub struct Pin {
    /// The pin number, as defined in chip or port literature.
    pub number: usize,
    /// The direction mode.
    pub mode: Mode,
    /// The current level; `None` is floating / high-impedance.
    pub level: Level,
    /// The pull default substituted whenever an operation would leave the
    /// level absent (`Some(1000)` = pull-up, `Some(0)` = pull-down).
    pub float: Level,
    /// The trace this pin is wired to, set at most once.
    pub trace: Option<usize>,
    /// The observing device, notified when the level of an input-capable
    /// pin changes.
    pub observer: Option<usize>,
}

impl Pin {
    /// An input-capable pin: mode `Input` or `Bidirectional`.
    pub open spec fn spec_input(self) -> bool {
        self.mode == Mode::Input || self.mode == Mode::Bidirectional
    }

    /// An output-capable pin: mode `Output` or `Bidirectional`.
    pub open spec fn spec_output(self) -> bool {
        self.mode == Mode::Output || self.mode == Mode::Bidirectional
    }

    /// Creates a pin in the given state with no level, no pull default, no
    /// wire and no observer.
    pub fn new(number: usize, mode: Mode) -> (pin: Pin)
        ensures
            pin == (Pin {
                number,
                mode,
                level: None,
                float: None,
                trace: None,
                observer: None,
            }),
    {
        Pin { number, mode, level: None, float: None, trace: None, observer: None }
    }

    /// Returns the pin number.
    pub fn number(&self) -> (n: usize)
        ensures
            n == self.number,
    {
        self.number
    }

    /// Returns the current level; `None` is floating.
    pub fn level(&self) -> (l: Level)
        ensures
            l == self.level,
    {
        self.level
    }

    /// Returns the current mode.
    pub fn mode(&self) -> (m: Mode)
        ensures
            m == self.mode,
    {
        self.mode
    }

    /// Whether the level is defined and at or above the high threshold.
    pub fn high(&self) -> (r: bool)
        ensures
            r == spec_high(self.level),
    {
        match self.level {
            None => false,
            Some(n) => n >= crate::level::LEVEL_THRESHOLD,
        }
    }

    /// Whether the level is defined and below the high threshold.
    pub fn low(&self) -> (r: bool)
        ensures
            r == spec_low(self.level),
    {
        match self.level {
            None => false,
            Some(n) => n < crate::level::LEVEL_THRESHOLD,
        }
    }

    /// Whether the level is absent (high-impedance).
    pub fn floating(&self) -> (r: bool)
        ensures
            r == (self.level is None),
    {
        match self.level {
            None => true,
            _ => false,
        }
    }

    /// Whether the pin accepts levels from its trace (`Input` or
    /// `Bidirectional`).
    pub fn input(&self) -> (r: bool)
        ensures
            r == self.spec_input(),
    {
        match self.mode {
            Mode::Input | Mode::Bidirectional => true,
            _ => false,
        }
    }

    /// Whether the pin drives its trace (`Output` or `Bidirectional`).
    pub fn output(&self) -> (r: bool)
        ensures
            r == self.spec_output(),
    {
        match self.mode {
            Mode::Output | Mode::Bidirectional => true,
            _ => false,
        }
    }

    /// Whether the pin has been wired to a trace.
    pub fn connected(&self) -> (r: bool)
        ensures
            r == (self.trace is Some),
    {
        match self.trace {
            None => false,
            _ => true,
        }
    }

    /// Pulls the pin up: an absent level now reads as a full high, and a
    /// currently floating pin snaps to it at once.
    pub fn pull_up(&mut self)
        ensures
            *final(self) == (Pin {
                float: Some(LEVEL_HIGH),
                level: spec_normalize(old(self).level, Some(LEVEL_HIGH)),
                ..*old(self)
            }),
    {
        self.float = Some(LEVEL_HIGH);
        self.level = normalize(self.level, self.float);
    }

    /// Pulls the pin down: an absent level now reads as a full low.
    pub fn pull_down(&mut self)
        ensures
            *final(self) == (Pin {
                float: Some(LEVEL_LOW),
                level: spec_normalize(old(self).level, Some(LEVEL_LOW)),
                ..*old(self)
            }),
    {
        self.float = Some(LEVEL_LOW);
        self.level = normalize(self.level, self.float);
    }

    /// Removes any pull: an absent level stays absent.
    pub fn pull_off(&mut self)
        ensures
            *final(self) == (Pin { float: None, ..*old(self) }),
    {
        self.float = None;
        self.level = normalize(self.level, self.float);
    }

    /// Attaches an observing device, replacing any previous one.
    pub fn attach(&mut self, device: usize)
        ensures
            *final(self) == (Pin { observer: Some(device), ..*old(self) }),
    {
        self.observer = Some(device);
    }

    /// Detaches the observing device.
    pub fn detach(&mut self)
        ensures
            *final(self) == (Pin { observer: None, ..*old(self) }),
    {
        self.observer = None;
    }
}

} // verus!
