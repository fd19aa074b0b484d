//! The eight-bit CPU core: registers, flags, stack, interrupts and the
//! clock loop.  Instruction decoding and execution live in
//! [`crate::alu`].

use vstd::prelude::*;
use crate::common::Clocked;
use crate::memory::Addressable;
use crate::alu::{decode_instruction, execute_instruction};
use crate::save::Saveable;

verus! {

/// The reset vector address.
pub const ADDRESS_RESET: u16 = 0xfffc;

/// The non-maskable-interrupt vector address.
pub const ADDRESS_NMI: u16 = 0xfffa;

/// The break/interrupt vector address.
pub const ADDRESS_BRK: u16 = 0xfffe;

/// The page the stack lives in.
pub const STACK_PAGE: u16 = 0x0100;

/// The CPU: registers, processor-status flags, its memory, and its cycle
/// bookkeeping.  A processor-jamming instruction sets `jammed`, after
/// which clock ticks do nothing.
pub struct Cpu<M: Addressable> {
    /// The accumulator.
    pub a: u8,
    /// The X index register.
    pub x: u8,
    /// The Y index register.
    pub y: u8,
    /// The program counter.
    pub pc: u16,
    /// The stack pointer, an offset into the stack page.
    pub sp: u8,
    /// The carry flag.
    pub c: bool,
    /// The zero flag.
    pub z: bool,
    /// The interrupt-disable flag.
    pub i: bool,
    /// The decimal-mode flag.
    pub d: bool,
    /// The overflow flag.
    pub v: bool,
    /// The negative flag.
    pub n: bool,
    /// The memory the CPU addresses.
    pub memory: M,
    /// Clock ticks seen so far.
    pub counter: usize,
    /// Reserved cycle bookkeeping.
    pub cycles: usize,
    /// Cycles left before the next instruction is fetched.
    pub cycles_left: u16,
    /// Whether a jamming instruction has halted the processor.
    pub jammed: bool,
}

impl<M: Addressable> Cpu<M> {
    /// The CPU is usable: its memory spans the full address space and
    /// accepts stores.
    pub open spec fn wf(&self) -> bool {
        self.memory.ready() && self.memory.writable()
    }

    /// Creates a CPU over the given memory, with cleared registers, the
    /// program counter at the reset vector and a six-cycle start-up delay.
    pub fn new(memory: M) -> (r: Cpu<M>)
        ensures
            r.a == 0 && r.x == 0 && r.y == 0,
            r.pc == ADDRESS_RESET,
            r.sp == 0xfd,
            !r.c && !r.z && !r.i && !r.d && !r.v && !r.n,
            r.memory == memory,
            r.counter == 0,
            r.cycles == 0,
            r.cycles_left == 6,
            !r.jammed,
    {
        Cpu {
            a: 0,
            x: 0,
            y: 0,
            pc: ADDRESS_RESET,
            sp: 0xfd,
            c: false,
            z: false,
            i: false,
            d: false,
            v: false,
            n: false,
            memory,
            counter: 0,
            cycles: 0,
            cycles_left: 6,
            jammed: false,
        }
    }

    /// Reads an instruction target: the accumulator when there is none,
    /// the addressed byte otherwise.
    pub(crate) fn read_target(&self, target: Option<u16>) -> (r: u8)
        requires
            self.wf(),
        ensures
            r == match target {
                None => self.a,
                Some(ptr) => self.memory.mem()[ptr as int],
            },
    {
        proof {
            self.memory.ready_len();
        }
        match target {
            None => self.a,
            Some(ptr) => self.memory.read(ptr),
        }
    }

    /// Writes an instruction target: the accumulator when there is none,
    /// the addressed byte otherwise.
    pub(crate) fn write_target(&mut self, target: Option<u16>, value: u8)
        requires
            old(self).wf(),
        ensures
            final(self).wf(),
            *final(self) == match target {
                None => (Cpu { a: value, ..*old(self) }),
                Some(ptr) => (Cpu {
                    memory: final(self).memory,
                    ..*old(self)
                }),
            },
            target matches Some(ptr) ==> final(self).memory.mem() == old(self).memory.mem().update(
                ptr as int,
                value,
            ),
            target is None ==> final(self).memory == old(self).memory,
    {
        proof {
            self.memory.ready_len();
        }
        match target {
            None => {
                self.a = value;
            },
            Some(ptr) => {
                self.memory.write(ptr, value);
            },
        }
    }

    /// Pushes a byte onto the stack and moves the stack pointer down.
    pub(crate) fn push_stack(&mut self, value: u8)
        requires
            old(self).wf(),
        ensures
            final(self).wf(),
            final(self).memory.mem() == old(self).memory.mem().update(
                0x100 + old(self).sp as int,
                value,
            ),
            final(self).sp == ((old(self).sp as int + 255) % 256) as u8,
            *final(self) == (Cpu {
                memory: final(self).memory,
                sp: final(self).sp,
                ..*old(self)
            }),
    {
        proof {
            self.memory.ready_len();
        }
        self.memory.write_offset(STACK_PAGE, self.sp as u16, value);
        self.sp = self.sp.wrapping_sub(1);
    }

    /// Pops a byte off the stack after moving the stack pointer up.
    pub(crate) fn pop_stack(&mut self) -> (r: u8)
        requires
            old(self).wf(),
        ensures
            final(self).wf(),
            final(self).sp == ((old(self).sp as int + 1) % 256) as u8,
            r == old(self).memory.mem()[0x100 + final(self).sp as int],
            *final(self) == (Cpu { sp: final(self).sp, ..*old(self) }),
    {
        proof {
            self.memory.ready_len();
        }
        self.sp = self.sp.wrapping_add(1);
        self.memory.read_offset(STACK_PAGE, self.sp as u16)
    }

    /// Pushes a 16-bit word onto the stack, high byte first.
    pub(crate) fn push_stack16(&mut self, value: u16)
        requires
            old(self).wf(),
        ensures
            final(self).wf(),
            final(self).memory.mem() == old(self).memory.mem().update(
                0x100 + old(self).sp as int,
                (value >> 8) as u8,
            ).update(0x100 + ((old(self).sp as int + 255) % 256), (value & 0xff) as u8),
            final(self).sp == ((old(self).sp as int + 254) % 256) as u8,
            *final(self) == (Cpu {
                memory: final(self).memory,
                sp: final(self).sp,
                ..*old(self)
            }),
    {
        proof {
            assert(((value & 0xff00) >> 8) == (value >> 8) & 0xff) by (bit_vector);
            assert((value >> 8) & 0xff == (value >> 8)) by (bit_vector);
            assert((value >> 8) <= 0xff) by (bit_vector);
        }
        self.push_stack(((value & 0xff00) >> 8) as u8);
        self.push_stack((value & 0xff) as u8);
    }

    /// Pops a 16-bit word off the stack, low byte first.
    pub(crate) fn pop_stack16(&mut self) -> (r: u16)
        requires
            old(self).wf(),
        ensures
            final(self).wf(),
            final(self).sp == ((old(self).sp as int + 2) % 256) as u8,
            *final(self) == (Cpu { sp: final(self).sp, ..*old(self) }),
    {
        let lsb = self.pop_stack() as u16;
        let msb = self.pop_stack() as u16;
        proof {
            assert((msb << 8u16) <= 0xff00) by (bit_vector)
                requires
                    msb <= 0xff,
            ;
            assert(((msb << 8u16) | lsb) == (msb << 8u16) + lsb) by (bit_vector)
                requires
                    msb <= 0xff && lsb <= 0xff,
            ;
        }
        (msb << 8) | lsb
    }

    /// Reads a 16-bit word from the zero page, the high byte's address
    /// wrapping within the zero page.
    pub(crate) fn read_zero16(&self, ptr: u8) -> (r: u16)
        requires
            self.wf(),
    {
        proof {
            self.memory.ready_len();
        }
        let lsb = self.memory.read(ptr as u16) as u16;
        let msb = self.memory.read(ptr.wrapping_add(1) as u16) as u16;
        proof {
            assert((msb << 8u16) <= 0xff00) by (bit_vector)
                requires
                    msb <= 0xff,
            ;
            assert(((msb << 8u16) | lsb) == (msb << 8u16) + lsb) by (bit_vector)
                requires
                    msb <= 0xff && lsb <= 0xff,
            ;
        }
        (msb << 8) | lsb
    }

    /// Reads a 16-bit word whose high byte's address wraps within the same
    /// page, reproducing the indirect-jump page-wrap quirk.
    pub(crate) fn read_pagewrap16(&self, ptr: u16) -> (r: u16)
        requires
            self.wf(),
    {
        proof {
            self.memory.ready_len();
        }
        let lsb = self.memory.read(ptr) as u16;
        let hi_addr = ((ptr >> 8) << 8) | (((ptr % 256) as u8).wrapping_add(1) as u16);
        let msb = self.memory.read(hi_addr) as u16;
        proof {
            assert((msb << 8u16) <= 0xff00) by (bit_vector)
                requires
                    msb <= 0xff,
            ;
            assert(((msb << 8u16) | lsb) == (msb << 8u16) + lsb) by (bit_vector)
                requires
                    msb <= 0xff && lsb <= 0xff,
            ;
        }
        (msb << 8) | lsb
    }

    /// Sets the zero and negative flags from a result byte.
    pub(crate) fn update_result_flags(&mut self, value: u8)
        ensures
            *final(self) == (Cpu { z: value == 0, n: value >= 128, ..*old(self) }),
    {
        self.z = value == 0;
        self.n = value >= 128;
    }

    /// Sets the zero and negative flags from the accumulator.
    pub(crate) fn update_acc_flags(&mut self)
        ensures
            *final(self) == (Cpu {
                z: old(self).a == 0,
                n: old(self).a >= 128,
                ..*old(self)
            }),
    {
        let a = self.a;
        self.update_result_flags(a);
    }

    /// The processor status byte as assembled from the flags; bit five is
    /// set when the push comes from an instruction, bit four is always
    /// clear.
    pub open spec fn spec_psr(&self, is_instruction: bool) -> u8 {
        (self.c as u8) | ((self.z as u8) << 1u8) | ((self.i as u8) << 2u8) | ((self.d as u8)
            << 3u8) | (((if is_instruction {
            1u8
        } else {
            0u8
        })) << 5u8) | ((self.v as u8) << 6u8) | ((self.n as u8) << 7u8)
    }

    /// Assembles the processor status byte from the flags; bit five is set
    /// when the push comes from an instruction.
    pub fn get_psr(&self, is_instruction: bool) -> (r: u8)
        ensures
            r == self.spec_psr(is_instruction),
    {
        (self.c as u8) | ((self.z as u8) << 1) | ((self.i as u8) << 2) | ((self.d as u8) << 3) | ((
        if is_instruction {
            1
        } else {
            0
        }) << 5) | ((self.v as u8) << 6) | ((self.n as u8) << 7)
    }

    /// Scatters a processor status byte back into the flags; bits four and
    /// five are ignored.
    pub fn set_psr(&mut self, value: u8)
        ensures
            *final(self) == (Cpu {
                c: value & 0x01 > 0,
                z: value & 0x02 > 0,
                i: value & 0x04 > 0,
                d: value & 0x08 > 0,
                v: value & 0x40 > 0,
                n: value & 0x80 > 0,
                ..*old(self)
            }),
    {
        self.c = value & 0x01 > 0;
        self.z = value & 0x02 > 0;
        self.i = value & 0x04 > 0;
        self.d = value & 0x08 > 0;
        self.v = value & 0x40 > 0;
        self.n = value & 0x80 > 0;
    }

    /// Runs whole instructions: each one clears the remaining-cycle delay
    /// and ticks the clock once, so exactly one instruction is fetched and
    /// executed per step.
    pub fn run_instructions(&mut self, count: usize)
        requires
            old(self).wf(),
        ensures
            final(self).wf(),
            final(self).counter == (old(self).counter + count) % (usize::MAX as int + 1),
    {
        let mut i: usize = 0;
        proof {
            vstd::arithmetic::div_mod::lemma_small_mod(
                old(self).counter as nat,
                (usize::MAX as nat) + 1,
            );
        }
        while i < count
            invariant
                i <= count,
                self.wf(),
                self.counter == (old(self).counter + i) % (usize::MAX as int + 1),
            decreases count - i,
        {
            self.cycles_left = 0;
            let ghost before = self.counter as int;
            self.step();
            proof {
                vstd::arithmetic::div_mod::lemma_small_mod(
                    before as nat,
                    (usize::MAX as nat) + 1,
                );
                vstd::arithmetic::div_mod::lemma_add_mod_noop(
                    old(self).counter as int + i,
                    1,
                    usize::MAX as int + 1,
                );
                vstd::arithmetic::div_mod::lemma_small_mod(1nat, (usize::MAX as nat) + 1);
                if before < usize::MAX {
                    vstd::arithmetic::div_mod::lemma_small_mod(
                        (before + 1) as nat,
                        (usize::MAX as nat) + 1,
                    );
                } else {
                    vstd::arithmetic::div_mod::lemma_mod_self_0(usize::MAX as int + 1);
                }
            }
            i = i + 1;
        }
    }

    /// Raises a non-maskable interrupt: pushes the program counter (high
    /// byte first) and the status byte, and jumps through the NMI vector.
    /// Registers and flags are otherwise untouched.
    pub fn nmi(&mut self)
        requires
            old(self).wf(),
        ensures
            final(self).wf(),
            final(self).memory.mem() == old(self).memory.mem().update(
                0x100 + old(self).sp as int,
                (old(self).pc >> 8) as u8,
            ).update(
                0x100 + ((old(self).sp as int + 255) % 256),
                (old(self).pc & 0xff) as u8,
            ).update(0x100 + ((old(self).sp as int + 254) % 256), old(self).spec_psr(false)),
            final(self).sp == ((old(self).sp as int + 253) % 256) as u8,
            final(self).pc == old(self).memory.mem()[ADDRESS_NMI as int]
                + 0x100 * old(self).memory.mem()[ADDRESS_NMI as int + 1],
            *final(self) == (Cpu {
                memory: final(self).memory,
                sp: final(self).sp,
                pc: final(self).pc,
                ..*old(self)
            }),
    {
        let pc = self.pc;
        let status = self.get_psr(false);
        self.push_stack16(pc);
        self.push_stack(status);
        proof {
            self.memory.ready_len();
            assert(0x100 + (old(self).sp as int) < 0x200);
            assert(0x100 + ((old(self).sp as int + 255) % 256) < 0x200);
            assert(0x100 + ((old(self).sp as int + 254) % 256) < 0x200);
            assert(self.memory.mem() =~= old(self).memory.mem().update(
                0x100 + old(self).sp as int,
                (old(self).pc >> 8) as u8,
            ).update(
                0x100 + ((old(self).sp as int + 255) % 256),
                (old(self).pc & 0xff) as u8,
            ).update(0x100 + ((old(self).sp as int + 254) % 256), old(self).spec_psr(false)));
            assert(ADDRESS_NMI as int == 0xfffa);
            let m0 = old(self).memory.mem();
            let c1 = m0.update(0x100 + old(self).sp as int, (old(self).pc >> 8) as u8);
            let c2 = c1.update(
                0x100 + ((old(self).sp as int + 255) % 256),
                (old(self).pc & 0xff) as u8,
            );
            let c3 = c2.update(
                0x100 + ((old(self).sp as int + 254) % 256),
                old(self).spec_psr(false),
            );
            old(self).memory.ready_len();
            assert(self.memory.mem() == c3);
            assert(m0.len() == 0x10000);
            assert(c1.len() == m0.len());
            assert(c2.len() == c1.len());
            assert(c3.len() == c2.len());
            assert(c3[0xfffa] == c2[0xfffa]);
            assert(c2[0xfffa] == c1[0xfffa]);
            assert(c1[0xfffa] == m0[0xfffa]);
            assert(c3[0xfffb] == c2[0xfffb]);
            assert(c2[0xfffb] == c1[0xfffb]);
            assert(c1[0xfffb] == m0[0xfffb]);
            assert(self.memory.mem()[ADDRESS_NMI as int] == old(self).memory.mem()[
                ADDRESS_NMI as int]);
            assert(self.memory.mem()[ADDRESS_NMI as int + 1] == old(self).memory.mem()[
                ADDRESS_NMI as int + 1]);
        }
        self.pc = self.memory.read16(ADDRESS_NMI);
    }

    /// Raises a maskable interrupt: a complete no-op while interrupts are
    /// disabled, otherwise identical to the non-maskable interrupt except
    /// that the jump goes through the break vector.
    pub fn irq(&mut self)
        requires
            old(self).wf(),
        ensures
            final(self).wf(),
            old(self).i ==> *final(self) == *old(self),
            !old(self).i ==> final(self).memory.mem() == old(self).memory.mem().update(
                0x100 + old(self).sp as int,
                (old(self).pc >> 8) as u8,
            ).update(
                0x100 + ((old(self).sp as int + 255) % 256),
                (old(self).pc & 0xff) as u8,
            ).update(0x100 + ((old(self).sp as int + 254) % 256), old(self).spec_psr(false)),
            !old(self).i ==> final(self).sp == ((old(self).sp as int + 253) % 256) as u8,
            !old(self).i ==> final(self).pc == old(self).memory.mem()[ADDRESS_BRK as int]
                + 0x100 * old(self).memory.mem()[ADDRESS_BRK as int + 1],
            !old(self).i ==> *final(self) == (Cpu {
                memory: final(self).memory,
                sp: final(self).sp,
                pc: final(self).pc,
                ..*old(self)
            }),
    {
        if self.i {
            return ;
        }
        let pc = self.pc;
        let status = self.get_psr(false);
        self.push_stack16(pc);
        self.push_stack(status);
        proof {
            self.memory.ready_len();
            assert(0x100 + (old(self).sp as int) < 0x200);
            assert(0x100 + ((old(self).sp as int + 255) % 256) < 0x200);
            assert(0x100 + ((old(self).sp as int + 254) % 256) < 0x200);
            assert(ADDRESS_BRK as int == 0xfffe);
            let m0 = old(self).memory.mem();
            let c1 = m0.update(0x100 + old(self).sp as int, (old(self).pc >> 8) as u8);
            let c2 = c1.update(
                0x100 + ((old(self).sp as int + 255) % 256),
                (old(self).pc & 0xff) as u8,
            );
            let c3 = c2.update(
                0x100 + ((old(self).sp as int + 254) % 256),
                old(self).spec_psr(false),
            );
            old(self).memory.ready_len();
            assert(self.memory.mem() == c3);
            assert(m0.len() == 0x10000);
            assert(c1.len() == m0.len());
            assert(c2.len() == c1.len());
            assert(c3.len() == c2.len());
            assert(c3[0xfffe] == c2[0xfffe]);
            assert(c2[0xfffe] == c1[0xfffe]);
            assert(c1[0xfffe] == m0[0xfffe]);
            assert(c3[0xffff] == c2[0xffff]);
            assert(c2[0xffff] == c1[0xffff]);
            assert(c1[0xffff] == m0[0xffff]);
            assert(self.memory.mem()[ADDRESS_BRK as int] == old(self).memory.mem()[
                ADDRESS_BRK as int]);
            assert(self.memory.mem()[ADDRESS_BRK as int + 1] == old(self).memory.mem()[
                ADDRESS_BRK as int + 1]);
        }
        self.pc = self.memory.read16(ADDRESS_BRK);
    }

    /// Stalls the CPU for the given number of cycles.
    pub fn pause(&mut self, cycles: u16)
        ensures
            *final(self) == (Cpu { cycles_left: cycles, ..*old(self) }),
    {
        self.cycles_left = cycles;
    }
}

impl<M: Addressable> Addressable for Cpu<M> {
    open spec fn mem(&self) -> Seq<u8> {
        self.memory.mem()
    }

    open spec fn ready(&self) -> bool {
        self.memory.ready()
    }

    open spec fn writable(&self) -> bool {
        self.memory.writable()
    }

    proof fn ready_len(&self) {
        self.memory.ready_len();
    }

    fn read(&self, ptr: u16) -> (r: u8) {
        self.memory.read(ptr)
    }

    fn write(&mut self, ptr: u16, value: u8) {
        self.memory.write(ptr, value);
    }
}

impl<M: Addressable> Cpu<M> {
    /// One clock tick: waits out any remaining cycles of the previous
    /// instruction, then fetches, decodes and executes the next one and
    /// charges its timing.  A jammed processor only counts ticks.
    fn step(&mut self)
        requires
            old(self).wf(),
        ensures
            final(self).wf(),
            final(self).counter == (if old(self).counter < usize::MAX {
                old(self).counter + 1
            } else {
                0int
            }),
            old(self).jammed ==> *final(self) == (Cpu {
                counter: final(self).counter,
                ..*old(self)
            }),
            !old(self).jammed && old(self).cycles_left > 0 ==> *final(self) == (Cpu {
                counter: final(self).counter,
                cycles_left: (old(self).cycles_left - 1) as u16,
                ..*old(self)
            }),
    {
        self.counter = self.counter.wrapping_add(1);
        if self.jammed {
            return ;
        }
        if self.cycles_left > 0 {
            self.cycles_left = self.cycles_left - 1;
            return ;
        }
        let (instr, byte_count, paged) = decode_instruction(self);
        self.pc = self.pc.wrapping_add(byte_count);
        execute_instruction(self, instr);
        if self.jammed {
            return ;
        }
        let extra: u16 = if instr.page_cycle && paged {
            1
        } else {
            0
        };
        self.cycles_left = self.cycles_left + (instr.cycles as u16) + extra - 1;
    }
}

impl<M: Addressable> Clocked for Cpu<M> {
    open spec fn clock_ready(&self) -> bool {
        self.wf()
    }

    fn clock(&mut self) {
        self.step();
    }
}


impl<M: Addressable + Saveable> Saveable for Cpu<M> {
    open spec fn encoding(&self) -> Seq<u8> {
        self.a.encoding() + self.x.encoding() + self.y.encoding() + self.pc.encoding()
            + self.sp.encoding() + self.c.encoding() + self.z.encoding() + self.i.encoding()
            + self.d.encoding() + self.v.encoding() + self.n.encoding() + self.memory.encoding()
            + self.counter.encoding() + self.cycles.encoding() + self.cycles_left.encoding()
    }

    #[verifier::rlimit(100)]
    fn save(&self, out: &mut Vec<u8>) {
        self.a.save(out);
        self.x.save(out);
        self.y.save(out);
        self.pc.save(out);
        self.sp.save(out);
        self.c.save(out);
        self.z.save(out);
        self.i.save(out);
        self.d.save(out);
        self.v.save(out);
        self.n.save(out);
        self.memory.save(out);
        self.counter.save(out);
        self.cycles.save(out);
        self.cycles_left.save(out);
        proof {
            assert(final(out)@ =~= old(out)@ + self.encoding());
        }
    }

    #[verifier::rlimit(100)]
    fn load(&mut self, data: &Vec<u8>, pos: &mut usize) -> (ok: bool) {
        let ghost p0 = *pos;
        if !self.a.load(data, pos) {
            return false;
        }
        let ghost p1 = *pos;
        if !self.x.load(data, pos) {
            return false;
        }
        let ghost p2 = *pos;
        if !self.y.load(data, pos) {
            return false;
        }
        let ghost p3 = *pos;
        if !self.pc.load(data, pos) {
            return false;
        }
        let ghost p4 = *pos;
        if !self.sp.load(data, pos) {
            return false;
        }
        let ghost p5 = *pos;
        if !self.c.load(data, pos) {
            return false;
        }
        let ghost p6 = *pos;
        if !self.z.load(data, pos) {
            return false;
        }
        let ghost p7 = *pos;
        if !self.i.load(data, pos) {
            return false;
        }
        let ghost p8 = *pos;
        if !self.d.load(data, pos) {
            return false;
        }
        let ghost p9 = *pos;
        if !self.v.load(data, pos) {
            return false;
        }
        let ghost p10 = *pos;
        if !self.n.load(data, pos) {
            return false;
        }
        let ghost p11 = *pos;
        if !self.memory.load(data, pos) {
            return false;
        }
        let ghost p12 = *pos;
        if !self.counter.load(data, pos) {
            return false;
        }
        let ghost p13 = *pos;
        if !self.cycles.load(data, pos) {
            return false;
        }
        let ghost p14 = *pos;
        if !self.cycles_left.load(data, pos) {
            return false;
        }
        proof {
            let ghost_end = *final(pos) as int;
            let f = *final(self);
            let e1 = f.a.encoding();
            assert(e1 =~= data@.subrange(p0 as int, p1 as int));
            let e2 = e1 + f.x.encoding();
            assert(data@.subrange(p0 as int, p2 as int) =~= data@.subrange(p0 as int, p1 as int)
                + data@.subrange(p1 as int, p2 as int));
            assert(e2 =~= data@.subrange(p0 as int, p2 as int));
            let e3 = e2 + f.y.encoding();
            assert(data@.subrange(p0 as int, p3 as int) =~= data@.subrange(p0 as int, p2 as int)
                + data@.subrange(p2 as int, p3 as int));
            assert(e3 =~= data@.subrange(p0 as int, p3 as int));
            let e4 = e3 + f.pc.encoding();
            assert(data@.subrange(p0 as int, p4 as int) =~= data@.subrange(p0 as int, p3 as int)
                + data@.subrange(p3 as int, p4 as int));
            assert(e4 =~= data@.subrange(p0 as int, p4 as int));
            let e5 = e4 + f.sp.encoding();
            assert(data@.subrange(p0 as int, p5 as int) =~= data@.subrange(p0 as int, p4 as int)
                + data@.subrange(p4 as int, p5 as int));
            assert(e5 =~= data@.subrange(p0 as int, p5 as int));
            let e6 = e5 + f.c.encoding();
            assert(data@.subrange(p0 as int, p6 as int) =~= data@.subrange(p0 as int, p5 as int)
                + data@.subrange(p5 as int, p6 as int));
            assert(e6 =~= data@.subrange(p0 as int, p6 as int));
            let e7 = e6 + f.z.encoding();
            assert(data@.subrange(p0 as int, p7 as int) =~= data@.subrange(p0 as int, p6 as int)
                + data@.subrange(p6 as int, p7 as int));
            assert(e7 =~= data@.subrange(p0 as int, p7 as int));
            let e8 = e7 + f.i.encoding();
            assert(data@.subrange(p0 as int, p8 as int) =~= data@.subrange(p0 as int, p7 as int)
                + data@.subrange(p7 as int, p8 as int));
            assert(e8 =~= data@.subrange(p0 as int, p8 as int));
            let e9 = e8 + f.d.encoding();
            assert(data@.subrange(p0 as int, p9 as int) =~= data@.subrange(p0 as int, p8 as int)
                + data@.subrange(p8 as int, p9 as int));
            assert(e9 =~= data@.subrange(p0 as int, p9 as int));
            let e10 = e9 + f.v.encoding();
            assert(data@.subrange(p0 as int, p10 as int) =~= data@.subrange(p0 as int, p9 as int)
                + data@.subrange(p9 as int, p10 as int));
            assert(e10 =~= data@.subrange(p0 as int, p10 as int));
            let e11 = e10 + f.n.encoding();
            assert(data@.subrange(p0 as int, p11 as int) =~= data@.subrange(p0 as int, p10 as int)
                + data@.subrange(p10 as int, p11 as int));
            assert(e11 =~= data@.subrange(p0 as int, p11 as int));
            let e12 = e11 + f.memory.encoding();
            assert(data@.subrange(p0 as int, p12 as int) =~= data@.subrange(p0 as int, p11 as int)
                + data@.subrange(p11 as int, p12 as int));
            assert(e12 =~= data@.subrange(p0 as int, p12 as int));
            let e13 = e12 + f.counter.encoding();
            assert(data@.subrange(p0 as int, p13 as int) =~= data@.subrange(p0 as int, p12 as int)
                + data@.subrange(p12 as int, p13 as int));
            assert(e13 =~= data@.subrange(p0 as int, p13 as int));
            let e14 = e13 + f.cycles.encoding();
            assert(data@.subrange(p0 as int, p14 as int) =~= data@.subrange(p0 as int, p13 as int)
                + data@.subrange(p13 as int, p14 as int));
            assert(e14 =~= data@.subrange(p0 as int, p14 as int));
            let e15 = e14 + f.cycles_left.encoding();
            assert(data@.subrange(p0 as int, ghost_end) =~= data@.subrange(p0 as int, p14 as int)
                + data@.subrange(p14 as int, ghost_end));
            assert(e15 =~= data@.subrange(p0 as int, ghost_end));
            assert(final(self).encoding() == e15);
        }
        true
    }
}

} // verus!
