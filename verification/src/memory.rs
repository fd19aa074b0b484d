//! Byte-addressed memories: the access contract, RAM and ROM.

use vstd::prelude::*;
use crate::save::Saveable;

verus! {

/// A byte-addressed memory with a 16-bit address bus.
///
/// `mem` is the byte view, `ready` says that the full 64 KiB address space
/// is usable (so the wrapping multi-byte reads below are in bounds), and
/// `writable` says whether stores are accepted at all.
pub trait Addressable {
    /// The bytes held, by address.
    spec fn mem(&self) -> Seq<u8>;

    /// Whether the full 64 KiB address space is usable.
    spec fn ready(&self) -> bool;

    /// Whether stores are accepted.
    spec fn writable(&self) -> bool;

    /// A usable memory spans exactly the 16-bit address space.
    proof fn ready_len(&self)
        requires
            self.ready(),
        ensures
            self.mem().len() == 0x10000,
    ;

    /// Loads the byte at `ptr`.
    fn read(&self, ptr: u16) -> (r: u8)
        requires
            (ptr as int) < self.mem().len(),
        ensures
            r == self.mem()[ptr as int],
    ;

    /// Stores `value` at `ptr`.
    fn write(&mut self, ptr: u16, value: u8)
        requires
            (ptr as int) < old(self).mem().len(),
            old(self).writable(),
        ensures
            final(self).mem() == old(self).mem().update(ptr as int, value),
            final(self).ready() == old(self).ready(),
            final(self).writable() == old(self).writable(),
    ;

    /// Loads a little-endian 16-bit word, the high byte wrapping around
    /// the address space.
    fn read16(&self, ptr: u16) -> (r: u16)
        requires
            self.ready(),
        ensures
            r == self.mem()[ptr as int] + 0x100 * self.mem()[((ptr as int) + 1) % 0x10000],
    {
        proof {
            self.ready_len();
        }
        let lo = self.read(ptr);
        let hi = self.read(ptr.wrapping_add(1));
        (lo as u16) + (hi as u16) * 0x100
    }

    /// Loads the byte at `ptr + offset`, wrapping.
    fn read_offset(&self, ptr: u16, offset: u16) -> (r: u8)
        requires
            self.ready(),
        ensures
            r == self.mem()[((ptr as int) + (offset as int)) % 0x10000],
    {
        proof {
            self.ready_len();
        }
        self.read(ptr.wrapping_add(offset))
    }

    /// Loads a little-endian 16-bit word at `ptr + offset`, wrapping.
    fn read_offset16(&self, ptr: u16, offset: u16) -> (r: u16)
        requires
            self.ready(),
        ensures
            ({
                let base = ((ptr as int) + (offset as int)) % 0x10000;
                r == self.mem()[base] + 0x100 * self.mem()[(base + 1) % 0x10000]
            }),
    {
        proof {
            self.ready_len();
        }
        self.read16(ptr.wrapping_add(offset))
    }

    /// Stores `value` at `ptr + offset`, wrapping.
    fn write_offset(&mut self, ptr: u16, offset: u16, value: u8)
        requires
            old(self).ready(),
            old(self).writable(),
        ensures
            final(self).mem() == old(self).mem().update(
                ((ptr as int) + (offset as int)) % 0x10000,
                value,
            ),
            final(self).ready() == old(self).ready(),
            final(self).writable() == old(self).writable(),
    {
        proof {
            self.ready_len();
        }
        self.write(ptr.wrapping_add(offset), value);
    }
}

/// Random-access memory: readable and writable, zero-initialised.
pub struct Ram {
    bytes: Vec<u8>,
}

impl Ram {
    /// Creates a RAM of the given size, filled with zeroes.
    pub fn new(size: usize) -> (r: Ram)
        ensures
            r.mem().len() == size,
            forall|i: int| 0 <= i < size ==> r.mem()[i] == 0u8,
            r.writable(),
            size == 0x10000 ==> r.ready(),
    {
        let mut bytes: Vec<u8> = Vec::new();
        let mut i: usize = 0;
        while i < size
            invariant
                i <= size,
                bytes@.len() == i,
                forall|j: int| 0 <= j < i ==> bytes@[j] == 0u8,
            decreases size - i,
        {
            bytes.push(0);
            i = i + 1;
        }
        Ram { bytes }
    }
}

impl Addressable for Ram {
    closed spec fn mem(&self) -> Seq<u8> {
        self.bytes@
    }

    closed spec fn ready(&self) -> bool {
        self.bytes@.len() == 0x10000
    }

    closed spec fn writable(&self) -> bool {
        true
    }

    proof fn ready_len(&self) {
    }

    fn read(&self, ptr: u16) -> (r: u8) {
        self.bytes[ptr as usize]
    }

    fn write(&mut self, ptr: u16, value: u8) {
        self.bytes.set(ptr as usize, value);
    }
}

/// Read-only memory: holds the bytes it was created with and accepts no
/// store, ever — the store contract can never be met for a ROM.
pub struct Rom {
    bytes: Vec<u8>,
}

impl Rom {
    /// Creates a ROM holding exactly the given bytes.
    pub fn new(bytes: Vec<u8>) -> (r: Rom)
        ensures
            r.mem() == bytes@,
            !r.writable(),
    {
        Rom { bytes }
    }
}

impl Addressable for Rom {
    closed spec fn mem(&self) -> Seq<u8> {
        self.bytes@
    }

    closed spec fn ready(&self) -> bool {
        self.bytes@.len() == 0x10000
    }

    closed spec fn writable(&self) -> bool {
        false
    }

    proof fn ready_len(&self) {
    }

    fn read(&self, ptr: u16) -> (r: u8) {
        self.bytes[ptr as usize]
    }

    fn write(&mut self, ptr: u16, value: u8) {
    }
}


impl Saveable for Ram {
    closed spec fn encoding(&self) -> Seq<u8> {
        self.bytes.encoding()
    }

    fn save(&self, out: &mut Vec<u8>) {
        self.bytes.save(out);
    }

    fn load(&mut self, data: &Vec<u8>, pos: &mut usize) -> (ok: bool) {
        self.bytes.load(data, pos)
    }
}

impl Saveable for Rom {
    closed spec fn encoding(&self) -> Seq<u8> {
        self.bytes.encoding()
    }

    fn save(&self, out: &mut Vec<u8>) {
        self.bytes.save(out);
    }

    fn load(&mut self, data: &Vec<u8>, pos: &mut usize) -> (ok: bool) {
        self.bytes.load(data, pos)
    }
}

} // verus!
