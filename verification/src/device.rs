//! The device contract and the level-change notification payload.
//!
//! A device is a simulated component (a chip, a port, a CPU) that owns pins
//! and reacts when one of its input-capable pins changes level.  The kernel
//! itself never calls into device code: every operation on a
//! [`crate::circuit::Circuit`] records the notifications it raises as
//! [`LevelChange`] events, in order, and the surrounding program delivers
//! them to the devices it keeps and lets those devices act on the circuit
//! in turn.

use vstd::prelude::*;
use crate::level::Level;
use crate::circuit::Circuit;

verus! {

/// The notification payload delivered to a device when a pin it observes
/// changes level.
#[derive(Copy, Clone, Debug, PartialEq, Eq, Structural)]
pub struct LevelChange {
    /// The pin whose level changed.
    pub pin: usize,
    /// The device observing that pin at the time of the change.
    pub device: usize,
    /// The pin's new level.
    pub level: Level,
}

/// The capability contract implemented by every simulated component.
///
/// `update` is invoked (by the loop that drains a circuit's event log)
/// whenever an input-capable pin the device observes changes level; it is
/// expected to read other owned pins and set its own output pins in
/// response.  A device must tolerate being invoked zero, one, or many times
/// for a single externally visible change.
pub trait Device {
    /// The indices of the pins this device owns, in pin-number order.
    fn pins(&self) -> Vec<usize>;

    /// A device-specific register snapshot for introspection.
    fn registers(&self) -> Vec<u8>;

    /// Reacts to a level change on an observed pin.
    fn update(&mut self, circuit: &mut Circuit, event: &LevelChange);
}

} // verus!
