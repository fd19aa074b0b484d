//! Instruction decoding and execution for the CPU core.

use vstd::prelude::*;
use crate::common::get_bit;
use crate::cpu::{Cpu, ADDRESS_BRK};
use crate::instruction::{AddressingMode, Instruction, Operation, opcode};
use crate::memory::Addressable;

verus! {

/// A byte reinterpreted as a two's-complement signed value.
pub open spec fn signed8(v: u8) -> int {
    if v >= 128 {
        v - 256
    } else {
        v as int
    }
}

/// The unsigned sum of an addition with carry-in.
pub open spec fn sum3(v1: u8, v2: u8, carry: bool) -> int {
    v1 + v2 + if carry {
        1int
    } else {
        0int
    }
}

/// The unsigned difference of a subtraction with borrow-in.
pub open spec fn diff3(v1: u8, v2: u8, carry: bool) -> int {
    v1 - v2 - if carry {
        0int
    } else {
        1int
    }
}

/// Whether two addresses lie in different 256-byte pages.
pub(crate) fn crossed_page_boundary(ptr1: u16, ptr2: u16) -> (r: bool)
    ensures
        r == (ptr1 / 256 != ptr2 / 256),
{
    (ptr1 / 256) != (ptr2 / 256)
}

/// Whether the operation reads its target before acting.
pub(crate) fn generates_read(op: Operation) -> (r: bool)
    ensures
        r == !(op == Operation::STA || op == Operation::STX || op == Operation::STY),
{
    match op {
        Operation::STA => false,
        Operation::STX => false,
        Operation::STY => false,
        _ => true,
    }
}

/// Resolves an addressing mode: the operand value (when the operation
/// reads), the target address, the operand length in bytes, and whether a
/// page boundary was crossed.
pub(crate) fn decode_addressing_mode<M: Addressable>(
    cpu: &Cpu<M>,
    mode: AddressingMode,
    ptr: u16,
    read: bool,
) -> (r: (u16, Option<u16>, u16, bool))
    requires
        cpu.wf(),
    ensures
        r.2 <= 2,
{
    proof {
        cpu.memory.ready_len();
    }
    match mode {
        AddressingMode::Implied => (0, None, 0, false),
        AddressingMode::Accumulator => (cpu.a as u16, None, 0, false),
        AddressingMode::Immediate => {
            let value = if read {
                cpu.memory.read(ptr) as u16
            } else {
                0
            };
            (value, Some(ptr), 1, false)
        },
        AddressingMode::ZeroPage => {
            let addr = cpu.memory.read(ptr) as u16;
            let value = if read {
                cpu.memory.read(addr) as u16
            } else {
                0
            };
            (value, Some(addr), 1, false)
        },
        AddressingMode::ZeroPageX => {
            let addr = cpu.memory.read(ptr).wrapping_add(cpu.x) as u16;
            let value = if read {
                cpu.memory.read(addr) as u16
            } else {
                0
            };
            (value, Some(addr), 1, false)
        },
        AddressingMode::ZeroPageY => {
            let addr = cpu.memory.read(ptr).wrapping_add(cpu.y) as u16;
            let value = if read {
                cpu.memory.read(addr) as u16
            } else {
                0
            };
            (value, Some(addr), 1, false)
        },
        AddressingMode::Relative => {
            let value = if read {
                cpu.memory.read(ptr) as u16
            } else {
                0
            };
            (value, Some(ptr), 1, false)
        },
        AddressingMode::Absolute => {
            let addr = cpu.memory.read16(ptr);
            let value = if read {
                cpu.memory.read(addr) as u16
            } else {
                0
            };
            (value, Some(addr), 2, false)
        },
        AddressingMode::AbsoluteX => {
            let base = cpu.memory.read16(ptr);
            let addr = base.wrapping_add(cpu.x as u16);
            let value = if read {
                cpu.memory.read(addr) as u16
            } else {
                0
            };
            (value, Some(addr), 2, crossed_page_boundary(base, addr))
        },
        AddressingMode::AbsoluteY => {
            let base = cpu.memory.read16(ptr);
            let addr = base.wrapping_add(cpu.y as u16);
            let value = if read {
                cpu.memory.read(addr) as u16
            } else {
                0
            };
            (value, Some(addr), 2, crossed_page_boundary(base, addr))
        },
        AddressingMode::Indirect => {
            let addr = cpu.memory.read16(ptr);
            let jmp = cpu.read_pagewrap16(addr);
            (0, Some(jmp), 2, false)
        },
        AddressingMode::IndirectX => {
            let zp = cpu.memory.read(ptr).wrapping_add(cpu.x);
            let addr = cpu.read_zero16(zp);
            let value = if read {
                cpu.memory.read(addr) as u16
            } else {
                0
            };
            (value, Some(addr), 1, false)
        },
        AddressingMode::IndirectY => {
            let zp = cpu.memory.read(ptr);
            let base = cpu.read_zero16(zp);
            let addr = base.wrapping_add(cpu.y as u16);
            let value = if read {
                cpu.memory.read(addr) as u16
            } else {
                0
            };
            (value, Some(addr), 1, crossed_page_boundary(base, addr))
        },
    }
}

/// Fetches and decodes the instruction at the program counter, returning
/// it with its total byte length and whether its operand fetch crossed a
/// page boundary.
pub(crate) fn decode_instruction<M: Addressable>(cpu: &Cpu<M>) -> (r: (Instruction, u16, bool))
    requires
        cpu.wf(),
    ensures
        r.0.op == Operation::KIL || (1 <= r.0.cycles <= 8),
        r.1 <= 3,
{
    proof {
        cpu.memory.ready_len();
    }
    let ptr = cpu.pc;
    let code = cpu.memory.read(ptr);
    let (op, mode, cycles, page_cycle) = opcode(code);
    let (arg, target, arg_length, paged) = decode_addressing_mode(
        cpu,
        mode,
        ptr.wrapping_add(1),
        generates_read(op),
    );
    let instruction = Instruction { op, mode, arg, target, cycles, page_cycle };
    (instruction, 1 + arg_length, paged)
}

// ARITHMETIC

/// Adds with carry in binary: returns the result byte, the carry-out and
/// the signed-overflow flag.
pub(crate) fn binary_add(value1: u8, value2: u8, carry: bool) -> (r: (u8, bool, bool))
    ensures
        r.0 == sum3(value1, value2, carry) % 256,
        r.1 == (sum3(value1, value2, carry) > 255),
        r.2 == ({
            let s = signed8(value1) + signed8(value2) + if carry {
                1int
            } else {
                0int
            };
            s < -128 || s > 127
        }),
{
    let cin: u16 = if carry {
        1
    } else {
        0
    };
    let total: u16 = value1 as u16 + value2 as u16 + cin;
    let s1: i16 = if value1 >= 128 {
        value1 as i16 - 256
    } else {
        value1 as i16
    };
    let s2: i16 = if value2 >= 128 {
        value2 as i16 - 256
    } else {
        value2 as i16
    };
    let ssum: i16 = s1 + s2 + cin as i16;
    ((total % 256) as u8, total > 255, ssum < -128 || ssum > 127)
}

/// Subtracts with borrow in binary: returns the result byte, the carry-out
/// (clear when a borrow occurred) and the signed-overflow flag.
pub(crate) fn binary_sub(value1: u8, value2: u8, carry: bool) -> (r: (u8, bool, bool))
    ensures
        r.0 == ((diff3(value1, value2, carry) + 512) % 256),
        r.1 == (diff3(value1, value2, carry) >= 0),
        r.2 == ({
            let s = signed8(value1) - signed8(value2) - if carry {
                0int
            } else {
                1int
            };
            s < -128 || s > 127
        }),
{
    let bin: i32 = if carry {
        0
    } else {
        1
    };
    let total: i32 = value1 as i32 - value2 as i32 - bin;
    let s1: i32 = if value1 >= 128 {
        value1 as i32 - 256
    } else {
        value1 as i32
    };
    let s2: i32 = if value2 >= 128 {
        value2 as i32 - 256
    } else {
        value2 as i32
    };
    let sdiff: i32 = s1 - s2 - bin;
    (((total + 512) % 256) as u8, total >= 0, sdiff < -128 || sdiff > 127)
}

pub(crate) fn execute_binary_adc<M: Addressable>(cpu: &mut Cpu<M>, value: u8)
    ensures
        *final(cpu) == (Cpu {
            a: final(cpu).a,
            c: final(cpu).c,
            v: final(cpu).v,
            z: final(cpu).z,
            n: final(cpu).n,
            ..*old(cpu)
        }),
        final(cpu).a == sum3(old(cpu).a, value, old(cpu).c) % 256,
        final(cpu).c == (sum3(old(cpu).a, value, old(cpu).c) > 255),
        final(cpu).v == ({
            let s = signed8(old(cpu).a) + signed8(value) + if old(cpu).c {
                1int
            } else {
                0int
            };
            s < -128 || s > 127
        }),
        final(cpu).z == (final(cpu).a == 0),
        final(cpu).n == (final(cpu).a >= 128),
{
    let (result, carry, overflow) = binary_add(cpu.a, value, cpu.c);
    cpu.a = result;
    cpu.c = carry;
    cpu.v = overflow;
    cpu.update_acc_flags();
}

pub(crate) fn execute_decimal_adc<M: Addressable>(cpu: &mut Cpu<M>, value: u8)
    ensures
        *final(cpu) == (Cpu {
            a: final(cpu).a,
            c: final(cpu).c,
            v: final(cpu).v,
            z: final(cpu).z,
            n: final(cpu).n,
            ..*old(cpu)
        }),
{
    let a = cpu.a;
    let carry_in = cpu.c;
    proof {
        assert((a & 0x0f) <= 0x0f && (value & 0x0f) <= 0x0f && (a & 0xf0) <= 0xf0 && (value
            & 0xf0) <= 0xf0) by (bit_vector);
    }
    let mut al: u8 = (a & 0x0f) + (value & 0x0f) + (if carry_in {
        1
    } else {
        0
    });
    if al >= 0x0a {
        let t: u8 = al + 0x06;
        proof {
            assert(t & 0x0f <= 0x0f) by (bit_vector);
        }
        al = (t & 0x0f) + 0x10;
    }
    let au0: u16 = ((a & 0xf0) as u16) + ((value & 0xf0) as u16) + (al as u16);
    let au: u16 = if au0 >= 0xa0 {
        au0 + 0x60
    } else {
        au0
    };
    let sa: i16 = if (a & 0xf0) >= 128 {
        (a & 0xf0) as i16 - 256
    } else {
        (a & 0xf0) as i16
    };
    let sv: i16 = if (value & 0xf0) >= 128 {
        (value & 0xf0) as i16 - 256
    } else {
        (value & 0xf0) as i16
    };
    let sl: i16 = al as i16;
    let ag: i16 = sa + sv + sl;
    let (bin, _, _) = binary_add(a, value, carry_in);
    // The N, Z and V flags reflect the binary result, as the hardware
    // does; only the carry is valid for decimal arithmetic.
    let m: i16 = ((ag % 256) + 256) % 256;
    cpu.n = m >= 128;
    cpu.v = (ag < -128) || (ag > 127);
    cpu.c = au > 0xff;
    cpu.z = bin == 0;
    cpu.a = (au % 256) as u8;
}

pub(crate) fn execute_adc<M: Addressable>(cpu: &mut Cpu<M>, value: u8)
    ensures
        *final(cpu) == (Cpu {
            a: final(cpu).a,
            c: final(cpu).c,
            v: final(cpu).v,
            z: final(cpu).z,
            n: final(cpu).n,
            ..*old(cpu)
        }),
        !old(cpu).d ==> final(cpu).a == sum3(old(cpu).a, value, old(cpu).c) % 256 && final(cpu).c
            == (sum3(old(cpu).a, value, old(cpu).c) > 255) && final(cpu).v == ({
            let s = signed8(old(cpu).a) + signed8(value) + if old(cpu).c {
                1int
            } else {
                0int
            };
            s < -128 || s > 127
        }) && final(cpu).z == (final(cpu).a == 0) && final(cpu).n == (final(cpu).a >= 128),
{
    if cpu.d {
        execute_decimal_adc(cpu, value);
    } else {
        execute_binary_adc(cpu, value);
    }
}

pub(crate) fn execute_binary_sbc<M: Addressable>(cpu: &mut Cpu<M>, value: u8)
    ensures
        *final(cpu) == (Cpu {
            a: final(cpu).a,
            c: final(cpu).c,
            v: final(cpu).v,
            z: final(cpu).z,
            n: final(cpu).n,
            ..*old(cpu)
        }),
        final(cpu).a == ((diff3(old(cpu).a, value, old(cpu).c) + 512) % 256),
        final(cpu).c == (diff3(old(cpu).a, value, old(cpu).c) >= 0),
        final(cpu).v == ({
            let s = signed8(old(cpu).a) - signed8(value) - if old(cpu).c {
                0int
            } else {
                1int
            };
            s < -128 || s > 127
        }),
        final(cpu).z == (final(cpu).a == 0),
        final(cpu).n == (final(cpu).a >= 128),
{
    let (result, carry, overflow) = binary_sub(cpu.a, value, cpu.c);
    cpu.a = result;
    cpu.c = carry;
    cpu.v = overflow;
    cpu.update_acc_flags();
}

pub(crate) fn execute_decimal_sbc<M: Addressable>(cpu: &mut Cpu<M>, value: u8)
    ensures
        *final(cpu) == (Cpu {
            a: final(cpu).a,
            c: final(cpu).c,
            v: final(cpu).v,
            z: final(cpu).z,
            n: final(cpu).n,
            ..*old(cpu)
        }),
{
    let a = cpu.a;
    let a_lo: i16 = (a & 0x0f) as i16;
    let v_lo: i16 = (value & 0x0f) as i16;
    let mut al: i16 = a_lo - v_lo + (if cpu.c {
        1i16
    } else {
        0i16
    }) - 1;
    if al < 0 {
        let masked: i16 = (al - 0x06) % 16;
        let masked = if masked < 0 {
            masked + 16
        } else {
            masked
        };
        al = masked - 0x10;
    }
    let a_hi: i16 = if (a & 0xf0) >= 128 {
        (a & 0xf0) as i16 - 256
    } else {
        (a & 0xf0) as i16
    };
    let v_hi: i16 = if (value & 0xf0) >= 128 {
        (value & 0xf0) as i16 - 256
    } else {
        (value & 0xf0) as i16
    };
    proof {
        assert((a & 0x0f) <= 0x0f && (value & 0x0f) <= 0x0f) by (bit_vector);
        assert((a & 0xf0) <= 0xf0 && (value & 0xf0) <= 0xf0) by (bit_vector);
    }
    let mut acc: i16 = a_hi - v_hi + al;
    if acc < 0 {
        acc = acc - 0x60;
    }
    let wrapped: i16 = acc % 256;
    let wrapped = if wrapped < 0 {
        wrapped + 256
    } else {
        wrapped
    };
    cpu.a = wrapped as u8;
    let (bin, carry, overflow) = binary_sub(cpu.a, value, cpu.c);
    cpu.c = carry;
    cpu.v = overflow;
    cpu.update_result_flags(bin);
}

pub(crate) fn execute_sbc<M: Addressable>(cpu: &mut Cpu<M>, value: u8)
    ensures
        *final(cpu) == (Cpu {
            a: final(cpu).a,
            c: final(cpu).c,
            v: final(cpu).v,
            z: final(cpu).z,
            n: final(cpu).n,
            ..*old(cpu)
        }),
        !old(cpu).d ==> final(cpu).a == ((diff3(old(cpu).a, value, old(cpu).c) + 512) % 256)
            && final(cpu).c == (diff3(old(cpu).a, value, old(cpu).c) >= 0) && final(cpu).v == ({
            let s = signed8(old(cpu).a) - signed8(value) - if old(cpu).c {
                0int
            } else {
                1int
            };
            s < -128 || s > 127
        }) && final(cpu).z == (final(cpu).a == 0) && final(cpu).n == (final(cpu).a >= 128),
{
    if cpu.d {
        execute_decimal_sbc(cpu, value);
    } else {
        execute_binary_sbc(cpu, value);
    }
}

// LOGIC AND SHIFTS

pub(crate) fn execute_and<M: Addressable>(cpu: &mut Cpu<M>, value: u8)
    ensures
        *final(cpu) == (Cpu {
            a: old(cpu).a & value,
            z: (old(cpu).a & value) == 0,
            n: (old(cpu).a & value) >= 128,
            ..*old(cpu)
        }),
{
    cpu.a = cpu.a & value;
    cpu.update_acc_flags();
}

pub(crate) fn execute_eor<M: Addressable>(cpu: &mut Cpu<M>, value: u8)
    ensures
        *final(cpu) == (Cpu {
            a: old(cpu).a ^ value,
            z: (old(cpu).a ^ value) == 0,
            n: (old(cpu).a ^ value) >= 128,
            ..*old(cpu)
        }),
{
    cpu.a = cpu.a ^ value;
    cpu.update_acc_flags();
}

pub(crate) fn execute_ora<M: Addressable>(cpu: &mut Cpu<M>, value: u8)
    ensures
        *final(cpu) == (Cpu {
            a: old(cpu).a | value,
            z: (old(cpu).a | value) == 0,
            n: (old(cpu).a | value) >= 128,
            ..*old(cpu)
        }),
{
    cpu.a = cpu.a | value;
    cpu.update_acc_flags();
}

pub(crate) fn execute_asl<M: Addressable>(cpu: &mut Cpu<M>, value: u8) -> (r: u8)
    ensures
        r == (value * 2) % 256,
        *final(cpu) == (Cpu { c: (value >> 7u8) & 1 == 1, ..*old(cpu) }),
{
    let num = ((value as u16 * 2) % 256) as u8;
    cpu.c = get_bit(value, 7);
    num
}

pub(crate) fn execute_lsr<M: Addressable>(cpu: &mut Cpu<M>, value: u8) -> (r: u8)
    ensures
        r == value / 2,
        *final(cpu) == (Cpu {
            c: value & 0x01 > 0,
            z: value / 2 == 0,
            n: false,
            ..*old(cpu)
        }),
{
    cpu.c = value & 0x01 > 0;
    let result = value / 2;
    proof {
        assert(value / 2 < 128);
    }
    cpu.update_result_flags(result);
    result
}

pub(crate) fn execute_rol<M: Addressable>(cpu: &mut Cpu<M>, value: u8) -> (r: u8)
    ensures
        r == (value * 2) % 256 + if old(cpu).c {
            1int
        } else {
            0int
        },
        *final(cpu) == (Cpu {
            c: value & 0x80 > 0,
            z: r == 0,
            n: r >= 128,
            ..*old(cpu)
        }),
{
    let cin: u16 = if cpu.c {
        1
    } else {
        0
    };
    cpu.c = value & 0x80 > 0;
    let result = ((value as u16 * 2) % 256 + cin) as u8;
    cpu.update_result_flags(result);
    result
}

pub(crate) fn execute_ror<M: Addressable>(cpu: &mut Cpu<M>, value: u8) -> (r: u8)
    ensures
        r == value / 2 + if old(cpu).c {
            128int
        } else {
            0int
        },
        *final(cpu) == (Cpu {
            c: value & 0x01 > 0,
            z: r == 0,
            n: r >= 128,
            ..*old(cpu)
        }),
{
    let mut result = value / 2;
    if cpu.c {
        result = result + 128;
    }
    cpu.c = value & 0x01 > 0;
    cpu.update_result_flags(result);
    result
}

// BRANCHES

/// The wrapped target of a relative branch.
pub open spec fn branch_target(pc: u16, value: u8) -> int {
    (pc + signed8(value) + 0x10000) % 0x10000
}

pub(crate) fn execute_branch<M: Addressable>(cpu: &mut Cpu<M>, value: u8)
    requires
        old(cpu).cycles_left <= 0xfff0,
    ensures
        *final(cpu) == (Cpu {
            pc: final(cpu).pc,
            cycles_left: final(cpu).cycles_left,
            ..*old(cpu)
        }),
        final(cpu).pc == branch_target(old(cpu).pc, value),
        old(cpu).cycles_left + 1 <= final(cpu).cycles_left <= old(cpu).cycles_left + 2,
{
    let pc = cpu.pc;
    let off: i32 = if value >= 128 {
        value as i32 - 256
    } else {
        value as i32
    };
    let target: i32 = (pc as i32 + off + 0x10000) % 0x10000;
    cpu.pc = target as u16;
    cpu.cycles_left = cpu.cycles_left + 1;
    if crossed_page_boundary(cpu.pc, pc) {
        cpu.cycles_left = cpu.cycles_left + 1;
    }
}

// COMPARISONS

pub(crate) fn execute_compare<M: Addressable>(cpu: &mut Cpu<M>, value1: u8, value2: u8)
    ensures
        *final(cpu) == (Cpu {
            c: value1 >= value2,
            z: value1 == value2,
            n: ((value1 - value2 + 256) % 256) >= 128,
            ..*old(cpu)
        }),
{
    let result = (((value1 as u16) + 256 - (value2 as u16)) % 256) as u8;
    cpu.c = value1 >= value2;
    cpu.z = value1 == value2;
    cpu.n = result >= 128;
}

pub(crate) fn execute_bit<M: Addressable>(cpu: &mut Cpu<M>, value: u8)
    ensures
        *final(cpu) == (Cpu {
            n: 0x80 & value > 0,
            v: 0x40 & value > 0,
            z: old(cpu).a & value == 0,
            ..*old(cpu)
        }),
{
    cpu.n = 0x80 & value > 0;
    cpu.v = 0x40 & value > 0;
    cpu.z = cpu.a & value == 0;
}

// INCREMENT / DECREMENT

pub(crate) fn execute_dec<M: Addressable>(cpu: &mut Cpu<M>, value: u8) -> (r: u8)
    ensures
        r == (value + 255) % 256,
        *final(cpu) == (Cpu { z: r == 0, n: r >= 128, ..*old(cpu) }),
{
    let result = (((value as u16) + 255) % 256) as u8;
    cpu.update_result_flags(result);
    result
}

pub(crate) fn execute_inc<M: Addressable>(cpu: &mut Cpu<M>, value: u8) -> (r: u8)
    ensures
        r == (value + 1) % 256,
        *final(cpu) == (Cpu { z: r == 0, n: r >= 128, ..*old(cpu) }),
{
    let result = (((value as u16) + 1) % 256) as u8;
    cpu.update_result_flags(result);
    result
}

// LOADS AND TRANSFERS

pub(crate) fn execute_lda<M: Addressable>(cpu: &mut Cpu<M>, value: u8)
    ensures
        *final(cpu) == (Cpu { a: value, z: value == 0, n: value >= 128, ..*old(cpu) }),
{
    cpu.a = value;
    cpu.update_acc_flags();
}

pub(crate) fn execute_ldx<M: Addressable>(cpu: &mut Cpu<M>, value: u8)
    ensures
        *final(cpu) == (Cpu { x: value, z: value == 0, n: value >= 128, ..*old(cpu) }),
{
    cpu.x = value;
    cpu.update_result_flags(value);
}

pub(crate) fn execute_ldy<M: Addressable>(cpu: &mut Cpu<M>, value: u8)
    ensures
        *final(cpu) == (Cpu { y: value, z: value == 0, n: value >= 128, ..*old(cpu) }),
{
    cpu.y = value;
    cpu.update_result_flags(value);
}

pub(crate) fn execute_jmp<M: Addressable>(cpu: &mut Cpu<M>, ptr: u16)
    ensures
        *final(cpu) == (Cpu { pc: ptr, ..*old(cpu) }),
{
    cpu.pc = ptr;
}

pub(crate) fn execute_jsr<M: Addressable>(cpu: &mut Cpu<M>, ptr: u16)
    requires
        old(cpu).wf(),
    ensures
        final(cpu).wf(),
        final(cpu).pc == ptr,
        final(cpu).sp == ((old(cpu).sp as int + 254) % 256) as u8,
        final(cpu).a == old(cpu).a && final(cpu).x == old(cpu).x && final(cpu).y == old(cpu).y,
        final(cpu).cycles_left == old(cpu).cycles_left,
        final(cpu).counter == old(cpu).counter,
        final(cpu).jammed == old(cpu).jammed,
{
    let ret = cpu.pc.wrapping_sub(1);
    cpu.push_stack16(ret);
    cpu.pc = ptr;
}

pub(crate) fn execute_brk<M: Addressable>(cpu: &mut Cpu<M>)
    requires
        old(cpu).wf(),
    ensures
        final(cpu).wf(),
        final(cpu).cycles_left == old(cpu).cycles_left,
        final(cpu).counter == old(cpu).counter,
        final(cpu).jammed == old(cpu).jammed,
{
    let pc = cpu.pc;
    let status = cpu.get_psr(true);
    cpu.push_stack16(pc);
    cpu.push_stack(status);
    cpu.pc = cpu.memory.read16(ADDRESS_BRK);
}

pub(crate) fn execute_pha<M: Addressable>(cpu: &mut Cpu<M>)
    requires
        old(cpu).wf(),
    ensures
        final(cpu).wf(),
        final(cpu).memory.mem() == old(cpu).memory.mem().update(
            0x100 + old(cpu).sp as int,
            old(cpu).a,
        ),
        *final(cpu) == (Cpu {
            memory: final(cpu).memory,
            sp: final(cpu).sp,
            ..*old(cpu)
        }),
{
    let a = cpu.a;
    cpu.push_stack(a);
}

pub(crate) fn execute_php<M: Addressable>(cpu: &mut Cpu<M>)
    requires
        old(cpu).wf(),
    ensures
        final(cpu).wf(),
        *final(cpu) == (Cpu {
            memory: final(cpu).memory,
            sp: final(cpu).sp,
            ..*old(cpu)
        }),
{
    let status = cpu.get_psr(true);
    cpu.push_stack(status);
}

pub(crate) fn execute_pla<M: Addressable>(cpu: &mut Cpu<M>)
    requires
        old(cpu).wf(),
    ensures
        final(cpu).wf(),
        *final(cpu) == (Cpu {
            a: final(cpu).a,
            sp: final(cpu).sp,
            z: final(cpu).a == 0,
            n: final(cpu).a >= 128,
            ..*old(cpu)
        }),
{
    cpu.a = cpu.pop_stack();
    cpu.update_acc_flags();
}

pub(crate) fn execute_plp<M: Addressable>(cpu: &mut Cpu<M>)
    requires
        old(cpu).wf(),
    ensures
        final(cpu).wf(),
        final(cpu).cycles_left == old(cpu).cycles_left,
        final(cpu).counter == old(cpu).counter,
        final(cpu).jammed == old(cpu).jammed,
{
    let p = cpu.pop_stack();
    cpu.set_psr(p);
}

pub(crate) fn execute_rti<M: Addressable>(cpu: &mut Cpu<M>)
    requires
        old(cpu).wf(),
    ensures
        final(cpu).wf(),
        final(cpu).cycles_left == old(cpu).cycles_left,
        final(cpu).counter == old(cpu).counter,
        final(cpu).jammed == old(cpu).jammed,
{
    let p = cpu.pop_stack();
    cpu.set_psr(p);
    cpu.pc = cpu.pop_stack16();
}

pub(crate) fn execute_rts<M: Addressable>(cpu: &mut Cpu<M>)
    requires
        old(cpu).wf(),
    ensures
        final(cpu).wf(),
        final(cpu).cycles_left == old(cpu).cycles_left,
        final(cpu).counter == old(cpu).counter,
        final(cpu).jammed == old(cpu).jammed,
{
    cpu.pc = cpu.pop_stack16().wrapping_add(1);
}

// UNDOCUMENTED OPERATIONS

pub(crate) fn execute_anc<M: Addressable>(cpu: &mut Cpu<M>, value: u8)
    ensures
        *final(cpu) == (Cpu {
            a: old(cpu).a & value,
            z: (old(cpu).a & value) == 0,
            n: (old(cpu).a & value) >= 128,
            c: (old(cpu).a & value) & 0x80 > 0,
            ..*old(cpu)
        }),
{
    let result = cpu.a & value;
    cpu.a = result;
    cpu.update_acc_flags();
    cpu.c = result & 0x80 > 0;
}

pub(crate) fn execute_lax<M: Addressable>(cpu: &mut Cpu<M>, value: u8)
    ensures
        *final(cpu) == (Cpu {
            a: value,
            x: value,
            z: value == 0,
            n: value >= 128,
            ..*old(cpu)
        }),
{
    cpu.a = value;
    cpu.x = value;
    cpu.update_acc_flags();
}

pub(crate) fn execute_sax<M: Addressable>(cpu: &Cpu<M>) -> (r: u8)
    ensures
        r == (cpu.a & cpu.x),
{
    cpu.a & cpu.x
}

// DISPATCH

/// Executes one decoded instruction against the CPU state.  A
/// processor-jamming or unimplemented operation sets the jam flag instead
/// of stopping the program.
pub(crate) fn execute_instruction<M: Addressable>(cpu: &mut Cpu<M>, i: Instruction)
    requires
        old(cpu).wf(),
        old(cpu).cycles_left <= 0xfff0,
    ensures
        final(cpu).wf(),
        final(cpu).counter == old(cpu).counter,
        final(cpu).cycles_left <= old(cpu).cycles_left + 2,
        i.op == Operation::KIL ==> final(cpu).jammed,
{
    let value = (i.arg % 256) as u8;

    match i.op {
        Operation::ADC => execute_adc(cpu, value),
        Operation::AND => execute_and(cpu, value),
        Operation::ASL => {
            let r = cpu.read_target(i.target);
            let w = execute_asl(cpu, r);
            cpu.write_target(i.target, w);
            cpu.update_acc_flags();
        },
        Operation::BCC => {
            if !cpu.c {
                execute_branch(cpu, value);
            }
        },
        Operation::BCS => {
            if cpu.c {
                execute_branch(cpu, value);
            }
        },
        Operation::BEQ => {
            if cpu.z {
                execute_branch(cpu, value);
            }
        },
        Operation::BIT => execute_bit(cpu, value),
        Operation::BMI => {
            if cpu.n {
                execute_branch(cpu, value);
            }
        },
        Operation::BNE => {
            if !cpu.z {
                execute_branch(cpu, value);
            }
        },
        Operation::BPL => {
            if !cpu.n {
                execute_branch(cpu, value);
            }
        },
        Operation::BRK => execute_brk(cpu),
        Operation::BVC => {
            if !cpu.v {
                execute_branch(cpu, value);
            }
        },
        Operation::BVS => {
            if cpu.v {
                execute_branch(cpu, value);
            }
        },
        Operation::CLC => {
            cpu.c = false;
        },
        Operation::CLD => {
            cpu.d = false;
        },
        Operation::CLI => {
            cpu.i = false;
        },
        Operation::CLV => {
            cpu.v = false;
        },
        Operation::CMP => {
            let a = cpu.a;
            execute_compare(cpu, a, value);
        },
        Operation::CPX => {
            let x = cpu.x;
            execute_compare(cpu, x, value);
        },
        Operation::CPY => {
            let y = cpu.y;
            execute_compare(cpu, y, value);
        },
        Operation::DEC => {
            let r = cpu.read_target(i.target);
            let w = execute_dec(cpu, r);
            cpu.write_target(i.target, w);
        },
        Operation::DEX => {
            let x = cpu.x;
            cpu.x = execute_dec(cpu, x);
        },
        Operation::DEY => {
            let y = cpu.y;
            cpu.y = execute_dec(cpu, y);
        },
        Operation::EOR => execute_eor(cpu, value),
        Operation::INC => {
            let r = cpu.read_target(i.target);
            let w = execute_inc(cpu, r);
            cpu.write_target(i.target, w);
        },
        Operation::INX => {
            let x = cpu.x;
            cpu.x = execute_inc(cpu, x);
        },
        Operation::INY => {
            let y = cpu.y;
            cpu.y = execute_inc(cpu, y);
        },
        Operation::JMP => {
            match i.target {
                Some(ptr) => execute_jmp(cpu, ptr),
                None => {
                    cpu.jammed = true;
                },
            }
        },
        Operation::JSR => {
            match i.target {
                Some(ptr) => execute_jsr(cpu, ptr),
                None => {
                    cpu.jammed = true;
                },
            }
        },
        Operation::LDA => execute_lda(cpu, value),
        Operation::LDX => execute_ldx(cpu, value),
        Operation::LDY => execute_ldy(cpu, value),
        Operation::LSR => {
            let r = cpu.read_target(i.target);
            let w = execute_lsr(cpu, r);
            cpu.write_target(i.target, w);
            cpu.update_acc_flags();
        },
        Operation::NOP => {},
        Operation::ORA => execute_ora(cpu, value),
        Operation::PHA => execute_pha(cpu),
        Operation::PHP => execute_php(cpu),
        Operation::PLA => execute_pla(cpu),
        Operation::PLP => execute_plp(cpu),
        Operation::ROL => {
            let r = cpu.read_target(i.target);
            let w = execute_rol(cpu, r);
            cpu.write_target(i.target, w);
        },
        Operation::ROR => {
            let r = cpu.read_target(i.target);
            let w = execute_ror(cpu, r);
            cpu.write_target(i.target, w);
        },
        Operation::RTI => execute_rti(cpu),
        Operation::RTS => execute_rts(cpu),
        Operation::SBC => execute_sbc(cpu, value),
        Operation::SEC => {
            cpu.c = true;
        },
        Operation::SED => {
            cpu.d = true;
        },
        Operation::SEI => {
            cpu.i = true;
        },
        Operation::STA => {
            let a = cpu.a;
            cpu.write_target(i.target, a);
        },
        Operation::STX => {
            let x = cpu.x;
            cpu.write_target(i.target, x);
        },
        Operation::STY => {
            let y = cpu.y;
            cpu.write_target(i.target, y);
        },
        Operation::TAX => {
            cpu.x = cpu.a;
            let x = cpu.x;
            cpu.update_result_flags(x);
        },
        Operation::TAY => {
            cpu.y = cpu.a;
            let y = cpu.y;
            cpu.update_result_flags(y);
        },
        Operation::TSX => {
            cpu.x = cpu.sp;
            let x = cpu.x;
            cpu.update_result_flags(x);
        },
        Operation::TXA => {
            cpu.a = cpu.x;
            cpu.update_acc_flags();
        },
        Operation::TXS => {
            cpu.sp = cpu.x;
        },
        Operation::TYA => {
            cpu.a = cpu.y;
            cpu.update_acc_flags();
        },
        Operation::ANC => execute_anc(cpu, value),
        Operation::DCP => {
            let r = cpu.read_target(i.target);
            let w = execute_dec(cpu, r);
            let a = cpu.a;
            execute_compare(cpu, a, w);
            cpu.write_target(i.target, w);
        },
        Operation::ISC => {
            let r = cpu.read_target(i.target);
            let w = execute_inc(cpu, r);
            execute_sbc(cpu, w);
            cpu.write_target(i.target, w);
        },
        Operation::KIL => {
            cpu.jammed = true;
        },
        Operation::LAX => execute_lax(cpu, value),
        Operation::RLA => {
            let r = cpu.read_target(i.target);
            let w = execute_rol(cpu, r);
            execute_and(cpu, w);
            cpu.write_target(i.target, w);
        },
        Operation::RRA => {
            let r = cpu.read_target(i.target);
            let w = execute_ror(cpu, r);
            execute_adc(cpu, w);
            cpu.write_target(i.target, w);
        },
        Operation::SAX => {
            let w = execute_sax(cpu);
            cpu.write_target(i.target, w);
        },
        Operation::SLO => {
            let r = cpu.read_target(i.target);
            let w = execute_asl(cpu, r);
            execute_ora(cpu, w);
            cpu.write_target(i.target, w);
        },
        Operation::SRE => {
            let r = cpu.read_target(i.target);
            let w = execute_lsr(cpu, r);
            execute_eor(cpu, w);
            cpu.write_target(i.target, w);
        },
        _ => {
            cpu.jammed = true;
        },
    }
}

} // verus!
