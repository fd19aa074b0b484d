//! The instruction set tables: operations, addressing modes and the
//! opcode decode table of the eight-bit CPU.

use vstd::prelude::*;

verus! {

/// The operations of the instruction set, documented and undocumented.
#[derive(Copy, Clone, Debug, PartialEq, Eq, Structural)]
#[allow(missing_docs)]
pub enum Operation {
    ADC,
    AND,
    ASL,
    BCC,
    BCS,
    BEQ,
    BIT,
    BMI,
    BNE,
    BPL,
    BRK,
    BVC,
    BVS,
    CLC,
    CLD,
    CLI,
    CLV,
    CMP,
    CPX,
    CPY,
    DEC,
    DEX,
    DEY,
    EOR,
    INC,
    INX,
    INY,
    JMP,
    JSR,
    LDA,
    LDX,
    LDY,
    LSR,
    NOP,
    ORA,
    PHA,
    PHP,
    PLA,
    PLP,
    ROL,
    ROR,
    RTI,
    RTS,
    SBC,
    SEC,
    SED,
    SEI,
    STA,
    STX,
    STY,
    TAX,
    TAY,
    TSX,
    TXA,
    TXS,
    TYA,
    AHX,
    ALR,
    ANC,
    ARR,
    AXS,
    DCP,
    ISC,
    KIL,
    LAS,
    LAX,
    RLA,
    RRA,
    SAX,
    SHX,
    SHY,
    SLO,
    SRE,
    TAS,
    XAA,
}

/// How an instruction finds its operand.
#[derive(Copy, Clone, Debug, PartialEq, Eq, Structural)]
#[allow(missing_docs)]
pub enum AddressingMode {
    Implied,
    Accumulator,
    Immediate,
    ZeroPage,
    ZeroPageX,
    ZeroPageY,
    Relative,
    Absolute,
    AbsoluteX,
    AbsoluteY,
    Indirect,
    IndirectX,
    IndirectY,
}

/// A decoded instruction: the operation, its addressing mode, the operand
/// value and target address it resolved to, and its base timing.
#[derive(Copy, Clone, Debug)]
pub struct Instruction {
    /// The operation to perform.
    pub op: Operation,
    /// The addressing mode it was decoded with.
    pub mode: AddressingMode,
    /// The operand value read for the instruction.
    pub arg: u16,
    /// The memory target, if the instruction has one; `None` addresses the
    /// accumulator.
    pub target: Option<u16>,
    /// The base number of clock cycles the instruction takes.
    pub cycles: u8,
    /// Whether crossing a page boundary costs one extra cycle.
    pub page_cycle: bool,
}

/// Looks an opcode up: its operation, addressing mode, base cycle count
/// and whether a crossed page boundary adds a cycle.  Every operation but
/// the processor-jamming one takes at least one cycle.
pub fn opcode(code: u8) -> (r: (Operation, AddressingMode, u8, bool))
    ensures
        r.0 == Operation::KIL || (1 <= r.2 <= 8),
{
    match code {
        0x00 => (Operation::BRK, AddressingMode::Implied, 7, false),
        0x01 => (Operation::ORA, AddressingMode::IndirectX, 6, false),
        0x02 => (Operation::KIL, AddressingMode::Implied, 0, false),
        0x03 => (Operation::SLO, AddressingMode::IndirectX, 8, false),
        0x04 => (Operation::NOP, AddressingMode::ZeroPage, 3, false),
        0x05 => (Operation::ORA, AddressingMode::ZeroPage, 3, false),
        0x06 => (Operation::ASL, AddressingMode::ZeroPage, 5, false),
        0x07 => (Operation::SLO, AddressingMode::ZeroPage, 5, false),
        0x08 => (Operation::PHP, AddressingMode::Implied, 3, false),
        0x09 => (Operation::ORA, AddressingMode::Immediate, 2, false),
        0x0a => (Operation::ASL, AddressingMode::Accumulator, 2, false),
        0x0b => (Operation::ANC, AddressingMode::Immediate, 2, false),
        0x0c => (Operation::NOP, AddressingMode::Absolute, 4, false),
        0x0d => (Operation::ORA, AddressingMode::Absolute, 4, false),
        0x0e => (Operation::ASL, AddressingMode::Absolute, 6, false),
        0x0f => (Operation::SLO, AddressingMode::Absolute, 6, false),
        0x10 => (Operation::BPL, AddressingMode::Relative, 2, false),
        0x11 => (Operation::ORA, AddressingMode::IndirectY, 5, true),
        0x12 => (Operation::KIL, AddressingMode::Implied, 0, false),
        0x13 => (Operation::SLO, AddressingMode::IndirectY, 8, false),
        0x14 => (Operation::NOP, AddressingMode::ZeroPageX, 4, false),
        0x15 => (Operation::ORA, AddressingMode::ZeroPageX, 4, false),
        0x16 => (Operation::ASL, AddressingMode::ZeroPageX, 6, false),
        0x17 => (Operation::SLO, AddressingMode::ZeroPageX, 6, false),
        0x18 => (Operation::CLC, AddressingMode::Implied, 2, false),
        0x19 => (Operation::ORA, AddressingMode::AbsoluteY, 4, true),
        0x1a => (Operation::NOP, AddressingMode::Implied, 2, false),
        0x1b => (Operation::SLO, AddressingMode::AbsoluteY, 7, false),
        0x1c => (Operation::NOP, AddressingMode::AbsoluteX, 4, true),
        0x1d => (Operation::ORA, AddressingMode::AbsoluteX, 4, true),
        0x1e => (Operation::ASL, AddressingMode::AbsoluteX, 7, false),
        0x1f => (Operation::SLO, AddressingMode::AbsoluteX, 7, false),
        0x20 => (Operation::JSR, AddressingMode::Absolute, 6, false),
        0x21 => (Operation::AND, AddressingMode::IndirectX, 6, false),
        0x22 => (Operation::KIL, AddressingMode::Implied, 0, false),
        0x23 => (Operation::RLA, AddressingMode::IndirectX, 8, false),
        0x24 => (Operation::BIT, AddressingMode::ZeroPage, 3, false),
        0x25 => (Operation::AND, AddressingMode::ZeroPage, 3, false),
        0x26 => (Operation::ROL, AddressingMode::ZeroPage, 5, false),
        0x27 => (Operation::RLA, AddressingMode::ZeroPage, 5, false),
        0x28 => (Operation::PLP, AddressingMode::Implied, 4, false),
        0x29 => (Operation::AND, AddressingMode::Immediate, 2, false),
        0x2a => (Operation::ROL, AddressingMode::Accumulator, 2, false),
        0x2b => (Operation::ANC, AddressingMode::Immediate, 2, false),
        0x2c => (Operation::BIT, AddressingMode::Absolute, 4, false),
        0x2d => (Operation::AND, AddressingMode::Absolute, 4, false),
        0x2e => (Operation::ROL, AddressingMode::Absolute, 6, false),
        0x2f => (Operation::RLA, AddressingMode::Absolute, 6, false),
        0x30 => (Operation::BMI, AddressingMode::Relative, 2, false),
        0x31 => (Operation::AND, AddressingMode::IndirectY, 5, true),
        0x32 => (Operation::KIL, AddressingMode::Implied, 0, false),
        0x33 => (Operation::RLA, AddressingMode::IndirectY, 8, false),
        0x34 => (Operation::NOP, AddressingMode::ZeroPageX, 4, false),
        0x35 => (Operation::AND, AddressingMode::ZeroPageX, 4, false),
        0x36 => (Operation::ROL, AddressingMode::ZeroPageX, 6, false),
        0x37 => (Operation::RLA, AddressingMode::ZeroPageX, 7, false),
        0x38 => (Operation::SEC, AddressingMode::Implied, 2, false),
        0x39 => (Operation::AND, AddressingMode::AbsoluteY, 4, true),
        0x3a => (Operation::NOP, AddressingMode::Implied, 2, false),
        0x3b => (Operation::RLA, AddressingMode::AbsoluteY, 7, false),
        0x3c => (Operation::NOP, AddressingMode::AbsoluteX, 4, true),
        0x3d => (Operation::AND, AddressingMode::AbsoluteX, 4, true),
        0x3e => (Operation::ROL, AddressingMode::AbsoluteX, 7, false),
        0x3f => (Operation::RLA, AddressingMode::AbsoluteX, 7, false),
        0x40 => (Operation::RTI, AddressingMode::Implied, 6, false),
        0x41 => (Operation::EOR, AddressingMode::IndirectX, 6, false),
        0x42 => (Operation::KIL, AddressingMode::Implied, 0, false),
        0x43 => (Operation::SRE, AddressingMode::IndirectX, 8, false),
        0x44 => (Operation::NOP, AddressingMode::ZeroPage, 3, false),
        0x45 => (Operation::EOR, AddressingMode::ZeroPage, 3, false),
        0x46 => (Operation::LSR, AddressingMode::ZeroPage, 5, false),
        0x47 => (Operation::SRE, AddressingMode::ZeroPage, 5, false),
        0x48 => (Operation::PHA, AddressingMode::Implied, 3, false),
        0x49 => (Operation::EOR, AddressingMode::Immediate, 2, false),
        0x4a => (Operation::LSR, AddressingMode::Accumulator, 2, false),
        0x4b => (Operation::ALR, AddressingMode::Immediate, 2, false),
        0x4c => (Operation::JMP, AddressingMode::Absolute, 3, false),
        0x4d => (Operation::EOR, AddressingMode::Absolute, 4, false),
        0x4e => (Operation::LSR, AddressingMode::Absolute, 6, false),
        0x4f => (Operation::SRE, AddressingMode::Absolute, 6, false),
        0x50 => (Operation::BVC, AddressingMode::Relative, 2, false),
        0x51 => (Operation::EOR, AddressingMode::IndirectY, 5, true),
        0x52 => (Operation::KIL, AddressingMode::Implied, 0, false),
        0x53 => (Operation::SRE, AddressingMode::IndirectY, 8, false),
        0x54 => (Operation::NOP, AddressingMode::ZeroPageX, 4, false),
        0x55 => (Operation::EOR, AddressingMode::ZeroPageX, 4, false),
        0x56 => (Operation::LSR, AddressingMode::ZeroPageX, 6, false),
        0x57 => (Operation::SRE, AddressingMode::ZeroPageX, 6, false),
        0x58 => (Operation::CLI, AddressingMode::Implied, 2, false),
        0x59 => (Operation::EOR, AddressingMode::AbsoluteY, 4, true),
        0x5a => (Operation::NOP, AddressingMode::Implied, 2, false),
        0x5b => (Operation::SRE, AddressingMode::AbsoluteY, 7, false),
        0x5c => (Operation::NOP, AddressingMode::AbsoluteX, 4, true),
        0x5d => (Operation::EOR, AddressingMode::AbsoluteX, 4, true),
        0x5e => (Operation::LSR, AddressingMode::AbsoluteX, 7, false),
        0x5f => (Operation::SRE, AddressingMode::AbsoluteX, 7, false),
        0x60 => (Operation::RTS, AddressingMode::Implied, 6, false),
        0x61 => (Operation::ADC, AddressingMode::IndirectX, 6, false),
        0x62 => (Operation::KIL, AddressingMode::Implied, 0, false),
        0x63 => (Operation::RRA, AddressingMode::IndirectX, 8, false),
        0x64 => (Operation::NOP, AddressingMode::ZeroPage, 3, false),
        0x65 => (Operation::ADC, AddressingMode::ZeroPage, 3, false),
        0x66 => (Operation::ROR, AddressingMode::ZeroPage, 5, false),
        0x67 => (Operation::RRA, AddressingMode::ZeroPage, 5, false),
        0x68 => (Operation::PLA, AddressingMode::Implied, 4, false),
        0x69 => (Operation::ADC, AddressingMode::Immediate, 2, false),
        0x6a => (Operation::ROR, AddressingMode::Accumulator, 2, false),
        0x6b => (Operation::ARR, AddressingMode::Immediate, 2, false),
        0x6c => (Operation::JMP, AddressingMode::Indirect, 5, false),
        0x6d => (Operation::ADC, AddressingMode::Absolute, 4, false),
        0x6e => (Operation::ROR, AddressingMode::Absolute, 6, false),
        0x6f => (Operation::RRA, AddressingMode::Absolute, 6, false),
        0x70 => (Operation::BVS, AddressingMode::Relative, 2, false),
        0x71 => (Operation::ADC, AddressingMode::IndirectY, 5, true),
        0x72 => (Operation::KIL, AddressingMode::Implied, 0, false),
        0x73 => (Operation::RRA, AddressingMode::IndirectY, 8, false),
        0x74 => (Operation::NOP, AddressingMode::ZeroPageX, 4, false),
        0x75 => (Operation::ADC, AddressingMode::ZeroPageX, 4, false),
        0x76 => (Operation::ROR, AddressingMode::ZeroPageX, 6, false),
        0x77 => (Operation::RRA, AddressingMode::ZeroPageX, 6, false),
        0x78 => (Operation::SEI, AddressingMode::Implied, 2, false),
        0x79 => (Operation::ADC, AddressingMode::AbsoluteY, 4, true),
        0x7a => (Operation::NOP, AddressingMode::Implied, 2, false),
        0x7b => (Operation::RRA, AddressingMode::AbsoluteY, 7, false),
        0x7c => (Operation::NOP, AddressingMode::AbsoluteX, 4, true),
        0x7d => (Operation::ADC, AddressingMode::AbsoluteX, 4, true),
        0x7e => (Operation::ROR, AddressingMode::AbsoluteX, 7, false),
        0x7f => (Operation::RRA, AddressingMode::AbsoluteX, 7, false),
        0x80 => (Operation::NOP, AddressingMode::Immediate, 2, false),
        0x81 => (Operation::STA, AddressingMode::IndirectX, 6, false),
        0x82 => (Operation::NOP, AddressingMode::Immediate, 2, false),
        0x83 => (Operation::SAX, AddressingMode::IndirectX, 6, false),
        0x84 => (Operation::STY, AddressingMode::ZeroPage, 3, false),
        0x85 => (Operation::STA, AddressingMode::ZeroPage, 3, false),
        0x86 => (Operation::STX, AddressingMode::ZeroPage, 3, false),
        0x87 => (Operation::SAX, AddressingMode::ZeroPage, 3, false),
        0x88 => (Operation::DEY, AddressingMode::Implied, 2, false),
        0x89 => (Operation::NOP, AddressingMode::Immediate, 2, false),
        0x8a => (Operation::TXA, AddressingMode::Implied, 2, false),
        0x8b => (Operation::XAA, AddressingMode::Immediate, 2, false),
        0x8c => (Operation::STY, AddressingMode::Absolute, 4, false),
        0x8d => (Operation::STA, AddressingMode::Absolute, 4, false),
        0x8e => (Operation::STX, AddressingMode::Absolute, 4, false),
        0x8f => (Operation::SAX, AddressingMode::Absolute, 4, false),
        0x90 => (Operation::BCC, AddressingMode::Relative, 2, false),
        0x91 => (Operation::STA, AddressingMode::IndirectY, 6, false),
        0x92 => (Operation::KIL, AddressingMode::Implied, 0, false),
        0x93 => (Operation::AHX, AddressingMode::IndirectY, 6, false),
        0x94 => (Operation::STY, AddressingMode::ZeroPageX, 4, false),
        0x95 => (Operation::STA, AddressingMode::ZeroPageX, 4, false),
        0x96 => (Operation::STX, AddressingMode::ZeroPageY, 4, false),
        0x97 => (Operation::SAX, AddressingMode::ZeroPageY, 4, false),
        0x98 => (Operation::TYA, AddressingMode::Implied, 2, false),
        0x99 => (Operation::STA, AddressingMode::AbsoluteY, 5, false),
        0x9a => (Operation::TXS, AddressingMode::Implied, 2, false),
        0x9b => (Operation::TAS, AddressingMode::AbsoluteY, 5, false),
        0x9c => (Operation::SHY, AddressingMode::AbsoluteX, 5, false),
        0x9d => (Operation::STA, AddressingMode::AbsoluteX, 5, false),
        0x9e => (Operation::SHX, AddressingMode::AbsoluteY, 5, false),
        0x9f => (Operation::AHX, AddressingMode::AbsoluteY, 5, false),
        0xa0 => (Operation::LDY, AddressingMode::Immediate, 2, false),
        0xa1 => (Operation::LDA, AddressingMode::IndirectX, 6, false),
        0xa2 => (Operation::LDX, AddressingMode::Immediate, 2, false),
        0xa3 => (Operation::LAX, AddressingMode::IndirectX, 6, false),
        0xa4 => (Operation::LDY, AddressingMode::ZeroPage, 3, false),
        0xa5 => (Operation::LDA, AddressingMode::ZeroPage, 3, false),
        0xa6 => (Operation::LDX, AddressingMode::ZeroPage, 3, false),
        0xa7 => (Operation::LAX, AddressingMode::ZeroPage, 3, false),
        0xa8 => (Operation::TAY, AddressingMode::Implied, 2, false),
        0xa9 => (Operation::LDA, AddressingMode::Immediate, 2, false),
        0xaa => (Operation::TAX, AddressingMode::Implied, 2, false),
        0xab => (Operation::LAX, AddressingMode::Immediate, 2, false),
        0xac => (Operation::LDY, AddressingMode::Absolute, 4, false),
        0xad => (Operation::LDA, AddressingMode::Absolute, 4, false),
        0xae => (Operation::LDX, AddressingMode::Absolute, 4, false),
        0xaf => (Operation::LAX, AddressingMode::Absolute, 4, false),
        0xb0 => (Operation::BCS, AddressingMode::Relative, 2, false),
        0xb1 => (Operation::LDA, AddressingMode::IndirectY, 5, true),
        0xb2 => (Operation::KIL, AddressingMode::Implied, 0, false),
        0xb3 => (Operation::LAX, AddressingMode::IndirectY, 5, true),
        0xb4 => (Operation::LDY, AddressingMode::ZeroPageX, 4, false),
        0xb5 => (Operation::LDA, AddressingMode::ZeroPageX, 4, false),
        0xb6 => (Operation::LDX, AddressingMode::ZeroPageY, 4, false),
        0xb7 => (Operation::LAX, AddressingMode::ZeroPageY, 4, false),
        0xb8 => (Operation::CLV, AddressingMode::Implied, 2, false),
        0xb9 => (Operation::LDA, AddressingMode::AbsoluteY, 4, true),
        0xba => (Operation::TSX, AddressingMode::Implied, 2, false),
        0xbb => (Operation::LAS, AddressingMode::AbsoluteY, 4, true),
        0xbc => (Operation::LDY, AddressingMode::AbsoluteX, 4, true),
        0xbd => (Operation::LDA, AddressingMode::AbsoluteX, 4, true),
        0xbe => (Operation::LDX, AddressingMode::AbsoluteY, 4, true),
        0xbf => (Operation::LAX, AddressingMode::AbsoluteY, 4, true),
        0xc0 => (Operation::CPY, AddressingMode::Immediate, 2, false),
        0xc1 => (Operation::CMP, AddressingMode::IndirectX, 6, false),
        0xc2 => (Operation::NOP, AddressingMode::Immediate, 2, false),
        0xc3 => (Operation::DCP, AddressingMode::IndirectX, 8, false),
        0xc4 => (Operation::CPY, AddressingMode::ZeroPage, 3, false),
        0xc5 => (Operation::CMP, AddressingMode::ZeroPage, 3, false),
        0xc6 => (Operation::DEC, AddressingMode::ZeroPage, 5, false),
        0xc7 => (Operation::DCP, AddressingMode::ZeroPage, 5, false),
        0xc8 => (Operation::INY, AddressingMode::Implied, 2, false),
        0xc9 => (Operation::CMP, AddressingMode::Immediate, 2, false),
        0xca => (Operation::DEX, AddressingMode::Implied, 2, false),
        0xcb => (Operation::AXS, AddressingMode::Immediate, 2, false),
        0xcc => (Operation::CPY, AddressingMode::Absolute, 4, false),
        0xcd => (Operation::CMP, AddressingMode::Absolute, 4, false),
        0xce => (Operation::DEC, AddressingMode::Absolute, 6, false),
        0xcf => (Operation::DCP, AddressingMode::Absolute, 6, false),
        0xd0 => (Operation::BNE, AddressingMode::Relative, 2, false),
        0xd1 => (Operation::CMP, AddressingMode::IndirectY, 5, true),
        0xd2 => (Operation::KIL, AddressingMode::Implied, 0, false),
        0xd3 => (Operation::DCP, AddressingMode::IndirectY, 8, false),
        0xd4 => (Operation::NOP, AddressingMode::ZeroPageX, 4, false),
        0xd5 => (Operation::CMP, AddressingMode::ZeroPageX, 4, false),
        0xd6 => (Operation::DEC, AddressingMode::ZeroPageX, 6, false),
        0xd7 => (Operation::DCP, AddressingMode::ZeroPageX, 6, false),
        0xd8 => (Operation::CLD, AddressingMode::Implied, 2, false),
        0xd9 => (Operation::CMP, AddressingMode::AbsoluteY, 4, true),
        0xda => (Operation::NOP, AddressingMode::Implied, 2, false),
        0xdb => (Operation::DCP, AddressingMode::AbsoluteY, 7, false),
        0xdc => (Operation::NOP, AddressingMode::AbsoluteX, 4, true),
        0xdd => (Operation::CMP, AddressingMode::AbsoluteX, 4, true),
        0xde => (Operation::DEC, AddressingMode::AbsoluteX, 7, false),
        0xdf => (Operation::DCP, AddressingMode::AbsoluteX, 7, false),
        0xe0 => (Operation::CPX, AddressingMode::Immediate, 2, false),
        0xe1 => (Operation::SBC, AddressingMode::IndirectX, 6, false),
        0xe2 => (Operation::NOP, AddressingMode::Immediate, 2, false),
        0xe3 => (Operation::ISC, AddressingMode::IndirectX, 8, false),
        0xe4 => (Operation::CPX, AddressingMode::ZeroPage, 3, false),
        0xe5 => (Operation::SBC, AddressingMode::ZeroPage, 3, false),
        0xe6 => (Operation::INC, AddressingMode::ZeroPage, 5, false),
        0xe7 => (Operation::ISC, AddressingMode::ZeroPage, 5, false),
        0xe8 => (Operation::INX, AddressingMode::Implied, 2, false),
        0xe9 => (Operation::SBC, AddressingMode::Immediate, 2, false),
        0xea => (Operation::NOP, AddressingMode::Implied, 2, false),
        0xeb => (Operation::SBC, AddressingMode::Immediate, 2, false),
        0xec => (Operation::CPX, AddressingMode::Absolute, 4, false),
        0xed => (Operation::SBC, AddressingMode::Absolute, 4, false),
        0xee => (Operation::INC, AddressingMode::Absolute, 6, false),
        0xef => (Operation::ISC, AddressingMode::Absolute, 6, false),
        0xf0 => (Operation::BEQ, AddressingMode::Relative, 2, false),
        0xf1 => (Operation::SBC, AddressingMode::IndirectY, 5, true),
        0xf2 => (Operation::KIL, AddressingMode::Implied, 0, false),
        0xf3 => (Operation::ISC, AddressingMode::IndirectY, 8, false),
        0xf4 => (Operation::NOP, AddressingMode::ZeroPageX, 4, false),
        0xf5 => (Operation::SBC, AddressingMode::ZeroPageX, 4, false),
        0xf6 => (Operation::INC, AddressingMode::ZeroPageX, 6, false),
        0xf7 => (Operation::ISC, AddressingMode::ZeroPageX, 6, false),
        0xf8 => (Operation::SED, AddressingMode::Implied, 2, false),
        0xf9 => (Operation::SBC, AddressingMode::AbsoluteY, 4, true),
        0xfa => (Operation::NOP, AddressingMode::Implied, 2, false),
        0xfb => (Operation::ISC, AddressingMode::AbsoluteY, 7, false),
        0xfc => (Operation::NOP, AddressingMode::AbsoluteX, 4, true),
        0xfd => (Operation::SBC, AddressingMode::AbsoluteX, 4, true),
        0xfe => (Operation::INC, AddressingMode::AbsoluteX, 7, false),
        _ => (Operation::ISC, AddressingMode::AbsoluteX, 7, false),
    }
}

} // verus!
