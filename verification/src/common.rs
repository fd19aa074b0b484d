//! Small shared helpers and the clocking contract.

use vstd::prelude::*;

verus! {

/// A component driven by a clock signal, one tick at a time.
///
/// `clock_ready` is the component's own readiness condition; ticking keeps
/// it ready, so a clock can be driven in a loop.
pub trait Clocked {
    /// Whether the component can accept a tick.
    spec fn clock_ready(&self) -> bool;

    /// Advances the component by one clock cycle.
    fn clock(&mut self)
        requires
            old(self).clock_ready(),
        ensures
            final(self).clock_ready(),
    ;
}

/// Reads one bit of a byte.
pub fn get_bit(num: u8, idx: u8) -> (r: bool)
    requires
        idx < 8,
    ensures
        r == ((num >> idx) & 1 == 1),
{
    proof {
        assert(((num >> idx) & 1 > 0) == ((num >> idx) & 1 == 1)) by (bit_vector);
    }
    (num >> idx) & 1 > 0
}

} // verus!
