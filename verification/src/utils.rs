//! Helpers that move whole values on and off groups of pins.
//!
//! A device reads a bus by collecting the high bits of its pins into an
//! integer, and drives a bus by spreading an integer's bits across its
//! pins, least significant bit first.

use vstd::prelude::*;
use vstd::arithmetic::power2::{pow2, lemma_pow2_strictly_increases, lemma2_to64, lemma2_to64_rest};
use crate::level::{spec_high, LEVEL_HIGH, LEVEL_LOW};
use crate::pin::Mode;
use crate::circuit::{Circuit, NetModel, pin_set_level_model, pin_set_mode_model};

verus! {


/// The transition of writing a value onto the pins: each pin in turn gets
/// a direct level request with a full high where its bit of the value is
/// one and a full low otherwise.
pub open spec fn value_to_pins_model(m: NetModel, value: u64, pins: Seq<usize>) -> NetModel
    decreases pins.len(),
{
    if pins.len() == 0 {
        m
    } else {
        let prev = value_to_pins_model(m, value, pins.drop_last());
        pin_set_level_model(prev, pins.last() as int, Some(
            if (value >> ((pins.len() - 1) as u64)) & 1 == 1 {
                LEVEL_HIGH
            } else {
                LEVEL_LOW
            },
        ))
    }
}

/// The transition of floating every pin in the group in turn.
pub open spec fn none_to_pins_model(m: NetModel, pins: Seq<usize>) -> NetModel
    decreases pins.len(),
{
    if pins.len() == 0 {
        m
    } else {
        pin_set_level_model(none_to_pins_model(m, pins.drop_last()), pins.last() as int, None)
    }
}

/// The transition of putting every pin in the group into a mode in turn.
pub open spec fn mode_to_pins_model(m: NetModel, mode: Mode, pins: Seq<usize>) -> NetModel
    decreases pins.len(),
{
    if pins.len() == 0 {
        m
    } else {
        pin_set_mode_model(mode_to_pins_model(m, mode, pins.drop_last()), pins.last() as int, mode)
    }
}

/// The value read off the pins: bit `i` of the result is set exactly when
/// pin `pins[i]` reads high.
pub open spec fn spec_pins_value(m: crate::circuit::NetModel, pins: Seq<usize>) -> nat
    decreases pins.len(),
{
    if pins.len() == 0 {
        0
    } else {
        spec_pins_value(m, pins.drop_last()) + if (pins.last() as int) < m.pins.len() && spec_high(
            m.pins[pins.last() as int].level,
        ) {
            pow2((pins.len() - 1) as nat)
        } else {
            0
        }
    }
}

/// The value is bounded by two to the number of pins.
pub proof fn lemma_pins_value_bound(m: crate::circuit::NetModel, pins: Seq<usize>)
    ensures
        spec_pins_value(m, pins) < pow2(pins.len()),
    decreases pins.len(),
{
    if pins.len() == 0 {
        lemma2_to64();
    } else {
        lemma_pins_value_bound(m, pins.drop_last());
        assert(pow2(pins.len()) == 2 * pow2((pins.len() - 1) as nat)) by {
            vstd::arithmetic::power2::lemma_pow2_unfold(pins.len() as nat);
        }
    }
}

/// Reads the value currently on a group of pins, least significant bit
/// first: bit `i` of the result is set exactly when pin `pins[i]` is high.
pub fn pins_to_value(c: &Circuit, pins: &Vec<usize>) -> (value: usize)
    requires
        pins@.len() <= 32,
        forall|k: int| 0 <= k < pins@.len() ==> (#[trigger] pins@[k]) < c@.pins.len(),
    ensures
        value == spec_pins_value(c@, pins@),
{
    let mut value: u64 = 0;
    let mut bit: u64 = 1;
    let count = pins.len();
    let mut i: usize = 0;
    proof {
        lemma2_to64();
        assert(pins@.subrange(0, 0) =~= Seq::<usize>::empty());
    }
    while i < count
        invariant
            i <= count,
            count == pins@.len(),
            count <= 32,
            forall|k: int| 0 <= k < pins@.len() ==> (#[trigger] pins@[k]) < c@.pins.len(),
            value == spec_pins_value(c@, pins@.subrange(0, i as int)),
            i < count ==> bit == pow2(i as nat),
            value < 0x1_0000_0000,
            bit <= 0x8000_0000,
        decreases count - i,
    {
        proof {
            lemma_pins_value_bound(c@, pins@.subrange(0, i as int));
            assert(pins@.subrange(0, i as int + 1).drop_last() =~= pins@.subrange(0, i as int));
            assert(pins@.subrange(0, i as int + 1).last() == pins@[i as int]);
            lemma2_to64();
            lemma2_to64_rest();
            if (i as nat) + 1 < 32 {
                lemma_pow2_strictly_increases((i + 1) as nat, 32);
            }
        }
        if c.pin(pins[i]).high() {
            value = value + bit;
        }
        i = i + 1;
        if i < count {
            proof {
                lemma2_to64();
                if (i as nat) < 31 {
                    lemma_pow2_strictly_increases(i as nat, 31);
                }
                vstd::arithmetic::power2::lemma_pow2_unfold(i as nat);
            }
            bit = bit * 2;
        }
    }
    proof {
        assert(pins@.subrange(0, count as int) =~= pins@);
        lemma_pins_value_bound(c@, pins@);
        vstd::arithmetic::power2::lemma_pow2_adds(32, (32 - pins@.len()) as nat);
        vstd::arithmetic::power2::lemma_pow2_pos((32 - pins@.len()) as nat);
        lemma2_to64();
        if pins@.len() < 32 {
            lemma_pow2_strictly_increases(pins@.len() as nat, 32);
        }
        assert(value < 0x1_0000_0000);
    }
    value as usize
}

/// Writes a value onto a group of pins, least significant bit first: pin
/// `pins[i]` is set to a full high when bit `i` of the value is one and a
/// full low otherwise, each through the pin's normal level request.
pub fn value_to_pins(value: usize, c: &mut Circuit, pins: &Vec<usize>)
    requires
        old(c)@.wf(),
        pins@.len() <= 32,
        forall|k: int| 0 <= k < pins@.len() ==> (#[trigger] pins@[k]) < old(c)@.pins.len(),
    ensures
        final(c)@ == value_to_pins_model(old(c)@, value as u64, pins@),
        final(c)@.wf(),
        final(c)@.pins.len() == old(c)@.pins.len(),
        final(c)@.traces.len() == old(c)@.traces.len(),
        final(c).spec_names() == old(c).spec_names(),
{
    let count = pins.len();
    let mut i: usize = 0;
    while i < count
        invariant
            i <= count,
            count == pins@.len(),
            count <= 32,
            c@ == value_to_pins_model(old(c)@, value as u64, pins@.subrange(0, i as int)),
            c@.wf(),
            c@.pins.len() == old(c)@.pins.len(),
            c@.traces.len() == old(c)@.traces.len(),
            c.spec_names() == old(c).spec_names(),
            forall|k: int| 0 <= k < pins@.len() ==> (#[trigger] pins@[k]) < old(c)@.pins.len(),
        decreases count - i,
    {
        let bit = ((value as u64) >> (i as u64)) & 1;
        if bit == 1 {
            c.set_level(pins[i], Some(LEVEL_HIGH));
        } else {
            c.set_level(pins[i], Some(LEVEL_LOW));
        }
        proof {
            assert(pins@.subrange(0, i as int + 1).drop_last() =~= pins@.subrange(0, i as int));
            assert(pins@.subrange(0, i as int + 1).last() == pins@[i as int]);
        }
        i = i + 1;
    }
    proof {
        assert(pins@.subrange(0, count as int) =~= pins@);
    }
}

/// Floats every pin in the group, each through the pin's normal level
/// request.
pub fn none_to_pins(c: &mut Circuit, pins: &Vec<usize>)
    requires
        old(c)@.wf(),
        forall|k: int| 0 <= k < pins@.len() ==> (#[trigger] pins@[k]) < old(c)@.pins.len(),
    ensures
        final(c)@ == none_to_pins_model(old(c)@, pins@),
        final(c)@.wf(),
        final(c)@.pins.len() == old(c)@.pins.len(),
        final(c)@.traces.len() == old(c)@.traces.len(),
        final(c).spec_names() == old(c).spec_names(),
{
    let count = pins.len();
    let mut i: usize = 0;
    while i < count
        invariant
            i <= count,
            count == pins@.len(),
            c@ == none_to_pins_model(old(c)@, pins@.subrange(0, i as int)),
            c@.wf(),
            c@.pins.len() == old(c)@.pins.len(),
            c@.traces.len() == old(c)@.traces.len(),
            c.spec_names() == old(c).spec_names(),
            forall|k: int| 0 <= k < pins@.len() ==> (#[trigger] pins@[k]) < old(c)@.pins.len(),
        decreases count - i,
    {
        c.float(pins[i]);
        proof {
            assert(pins@.subrange(0, i as int + 1).drop_last() =~= pins@.subrange(0, i as int));
            assert(pins@.subrange(0, i as int + 1).last() == pins@[i as int]);
        }
        i = i + 1;
    }
    proof {
        assert(pins@.subrange(0, count as int) =~= pins@);
    }
}

/// Puts every pin in the group into the given mode.
pub fn mode_to_pins(mode: Mode, c: &mut Circuit, pins: &Vec<usize>)
    requires
        old(c)@.wf(),
        forall|k: int| 0 <= k < pins@.len() ==> (#[trigger] pins@[k]) < old(c)@.pins.len(),
    ensures
        final(c)@ == mode_to_pins_model(old(c)@, mode, pins@),
        final(c)@.wf(),
        final(c)@.pins.len() == old(c)@.pins.len(),
        final(c)@.traces.len() == old(c)@.traces.len(),
        final(c).spec_names() == old(c).spec_names(),
{
    let count = pins.len();
    let mut i: usize = 0;
    while i < count
        invariant
            i <= count,
            count == pins@.len(),
            c@ == mode_to_pins_model(old(c)@, mode, pins@.subrange(0, i as int)),
            c@.wf(),
            c@.pins.len() == old(c)@.pins.len(),
            c@.traces.len() == old(c)@.traces.len(),
            c.spec_names() == old(c).spec_names(),
            forall|k: int| 0 <= k < pins@.len() ==> (#[trigger] pins@[k]) < old(c)@.pins.len(),
        decreases count - i,
    {
        c.set_mode(pins[i], mode);
        proof {
            assert(pins@.subrange(0, i as int + 1).drop_last() =~= pins@.subrange(0, i as int));
            assert(pins@.subrange(0, i as int + 1).last() == pins@[i as int]);
        }
        i = i + 1;
    }
    proof {
        assert(pins@.subrange(0, count as int) =~= pins@);
    }
}

} // verus!
