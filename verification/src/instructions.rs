//! The R8 instruction set: decoding opcodes, encoding instructions, and operand counts.
use vstd::prelude::*;

use crate::regs::{reg_from_id, reg_id, reg_is16, reg_name, Reg};
use crate::text::push_str;

verus! {

/// Instruction kinds.
#[non_exhaustive]
#[derive(Copy, Clone, Debug, PartialEq, Eq, Structural)]
pub enum InstructionKind {
    /// Add with carry.
    Add(Reg),
    /// Bitwise immediate AND.
    And(Reg),
    /// Branch always.
    BranchAlways,
    /// Branch if the carry flag is clear.
    BranchCc,
    /// Branch if the carry flag is set.
    BranchCs,
    /// Branch if the zero flag is set.
    BranchEq,
    /// Branch if the zero flag is clear.
    BranchNe,
    /// Call a subroutine.
    Call,
    /// Clear carry flag.
    Clc,
    /// Compare a register with an immediate operand.
    Cmp(Reg),
    /// Decrement a register.
    Dec(Reg),
    /// Decrement a memory location in a register.
    DecIndirect,
    /// Decrement a memory location.
    DecMem,
    /// Halt the CPU.
    Halt,
    /// Increment a register.
    Inc(Reg),
    /// Increment a memory location in a register.
    IncIndirect,
    /// Increment a memory location.
    IncMem,
    /// Far jump.
    Jmp,
    /// Load a register with an immediate operand.
    LdRegImm(Reg),
    /// Load a register from an indirect address in another register.
    LdRegIndirect,
    /// Load a register from another register.
    LdRegReg,
    /// Logical shift right.
    Lsr(Reg),
    /// No operation.
    Nop,
    /// Pop a register value from the stack.
    Pop(Reg),
    /// Push a register value to the stack.
    Push(Reg),
    /// Return from a subroutine call.
    Ret,
    /// Return from a trap.
    Rti,
    /// Set carry flag.
    Sec,
    /// Store a register value at an immediate address.
    StoreRegDirect(Reg),
    /// Store a register value at an indirect address in another register.
    StoreRegIndirect,
    /// Subtract with carry.
    Sub(Reg),
    /// Trap with a specified code.
    Trap,
}

/// Specifies whether an instruction takes zero, one, or two operands.
#[derive(Copy, Clone, Debug, PartialEq, Eq, Structural)]
pub enum Operands {
    /// One operand.
    One,
    /// Two operands.
    Two,
    /// Zero operands.
    Zero,
}

/// The instruction that `opcode` encodes, if any (see the opcode table in the README):
/// the high nibble selects a row of the table, the low nibble a column.
pub open spec fn decode(opcode: u8) -> Option<InstructionKind> {
    let hi = opcode / 16;
    let lo = opcode % 16;
    let r = reg_from_id(lo)->0;
    if hi == 0x0 {
        if lo == 0x0 {
            Some(InstructionKind::Halt)
        } else if lo == 0x1 {
            Some(InstructionKind::Nop)
        } else if lo == 0x3 {
            Some(InstructionKind::Sec)
        } else if lo == 0x4 {
            Some(InstructionKind::Clc)
        } else if lo == 0x8 {
            Some(InstructionKind::Ret)
        } else if lo == 0x9 {
            Some(InstructionKind::Rti)
        } else {
            None
        }
    } else if hi == 0x1 {
        if lo <= 0xC {
            Some(InstructionKind::LdRegImm(r))
        } else if lo == 0xD {
            Some(InstructionKind::LdRegIndirect)
        } else if lo == 0xF {
            Some(InstructionKind::LdRegReg)
        } else {
            None
        }
    } else if hi == 0x2 {
        if lo <= 0x7 {
            Some(InstructionKind::StoreRegDirect(r))
        } else if lo == 0x8 {
            Some(InstructionKind::StoreRegIndirect)
        } else {
            None
        }
    } else if hi == 0x3 {
        if lo <= 0xC {
            Some(InstructionKind::Inc(r))
        } else if lo == 0xD {
            Some(InstructionKind::IncIndirect)
        } else if lo == 0xE {
            Some(InstructionKind::IncMem)
        } else {
            None
        }
    } else if hi == 0x4 {
        if lo <= 0xC {
            Some(InstructionKind::Dec(r))
        } else if lo == 0xD {
            Some(InstructionKind::DecIndirect)
        } else if lo == 0xE {
            Some(InstructionKind::DecMem)
        } else {
            None
        }
    } else if hi == 0x5 {
        if lo <= 0x7 {
            Some(InstructionKind::Add(r))
        } else {
            None
        }
    } else if hi == 0x6 {
        if lo <= 0x7 {
            Some(InstructionKind::Sub(r))
        } else {
            None
        }
    } else if hi == 0x7 {
        if lo <= 0xB {
            Some(InstructionKind::Cmp(r))
        } else {
            None
        }
    } else if hi == 0x8 {
        if lo <= 0x7 {
            Some(InstructionKind::And(r))
        } else {
            None
        }
    } else if hi == 0xA {
        if lo >= 0x8 {
            Some(InstructionKind::Lsr(reg_from_id((lo - 8) as u8)->0))
        } else {
            None
        }
    } else if hi == 0xD {
        if lo <= 0xB {
            Some(InstructionKind::Push(r))
        } else {
            None
        }
    } else if hi == 0xE {
        if lo <= 0xB {
            Some(InstructionKind::Pop(r))
        } else {
            None
        }
    } else if hi == 0xF {
        if lo == 0x0 {
            Some(InstructionKind::BranchAlways)
        } else if lo == 0x1 {
            Some(InstructionKind::BranchEq)
        } else if lo == 0x2 {
            Some(InstructionKind::BranchNe)
        } else if lo == 0x3 {
            Some(InstructionKind::BranchCs)
        } else if lo == 0x4 {
            Some(InstructionKind::BranchCc)
        } else if lo == 0x7 {
            Some(InstructionKind::Jmp)
        } else if lo == 0x8 {
            Some(InstructionKind::Call)
        } else if lo == 0x9 {
            Some(InstructionKind::Trap)
        } else {
            None
        }
    } else {
        None
    }
}

/// The opcode byte of an instruction: a base value OR-ed with the register ID, where
/// the instruction names a register.
pub open spec fn opcode(ins: InstructionKind) -> u8 {
    match ins {
        InstructionKind::Add(r) => 0x50u8 | reg_id(r),
        InstructionKind::And(r) => 0x80u8 | reg_id(r),
        InstructionKind::BranchAlways => 0xF0,
        InstructionKind::BranchCc => 0xF4,
        InstructionKind::BranchCs => 0xF3,
        InstructionKind::BranchEq => 0xF1,
        InstructionKind::BranchNe => 0xF2,
        InstructionKind::Call => 0xF8,
        InstructionKind::Clc => 0x04,
        InstructionKind::Cmp(r) => 0x70u8 | reg_id(r),
        InstructionKind::Dec(r) => 0x40u8 | reg_id(r),
        InstructionKind::DecIndirect => 0x4D,
        InstructionKind::DecMem => 0x4E,
        InstructionKind::Halt => 0x00,
        InstructionKind::Jmp => 0xF7,
        InstructionKind::Inc(r) => 0x30u8 | reg_id(r),
        InstructionKind::IncIndirect => 0x3D,
        InstructionKind::IncMem => 0x3E,
        InstructionKind::LdRegImm(r) => 0x10u8 | reg_id(r),
        InstructionKind::LdRegIndirect => 0x1D,
        InstructionKind::LdRegReg => 0x1F,
        InstructionKind::Lsr(r) => 0xA8u8 | reg_id(r),
        InstructionKind::Nop => 0x01,
        InstructionKind::Pop(r) => 0xE0u8 | reg_id(r),
        InstructionKind::Push(r) => 0xD0u8 | reg_id(r),
        InstructionKind::Ret => 0x08,
        InstructionKind::Rti => 0x09,
        InstructionKind::Sec => 0x03,
        InstructionKind::StoreRegDirect(r) => 0x20u8 | reg_id(r),
        InstructionKind::StoreRegIndirect => 0x28,
        InstructionKind::Sub(r) => 0x60u8 | reg_id(r),
        InstructionKind::Trap => 0xF9,
    }
}

/// True if the instruction names a register that it can be encoded with: 8-bit
/// registers only for `add`, `sub`, `and`, `lsr` and `ld NN, R`; any register but
/// `sp` for `cmp`, `push` and `pop`; any register for the rest.
pub open spec fn encodable(ins: InstructionKind) -> bool {
    match ins {
        InstructionKind::Add(r) => !reg_is16(r),
        InstructionKind::And(r) => !reg_is16(r),
        InstructionKind::Lsr(r) => !reg_is16(r),
        InstructionKind::StoreRegDirect(r) => !reg_is16(r),
        InstructionKind::Sub(r) => !reg_is16(r),
        InstructionKind::Cmp(r) => r != Reg::SP,
        InstructionKind::Push(r) => r != Reg::SP,
        InstructionKind::Pop(r) => r != Reg::SP,
        _ => true,
    }
}

/// The number of operand bytes that follow an instruction's opcode.
pub open spec fn spec_operands(ins: InstructionKind) -> Operands {
    match ins {
        InstructionKind::Clc | InstructionKind::Dec(_) | InstructionKind::Halt
        | InstructionKind::Inc(_) | InstructionKind::Nop | InstructionKind::Push(_)
        | InstructionKind::Pop(_) | InstructionKind::Ret | InstructionKind::Rti
        | InstructionKind::Sec => Operands::Zero,
        InstructionKind::Add(_) | InstructionKind::And(_) | InstructionKind::BranchAlways
        | InstructionKind::BranchCc | InstructionKind::BranchCs | InstructionKind::BranchEq
        | InstructionKind::BranchNe | InstructionKind::DecIndirect
        | InstructionKind::IncIndirect | InstructionKind::LdRegIndirect
        | InstructionKind::LdRegReg | InstructionKind::Lsr(_)
        | InstructionKind::StoreRegIndirect | InstructionKind::Sub(_)
        | InstructionKind::Trap => Operands::One,
        InstructionKind::Cmp(r) | InstructionKind::LdRegImm(r) => if reg_is16(r) {
            Operands::Two
        } else {
            Operands::One
        },
        InstructionKind::Call | InstructionKind::DecMem | InstructionKind::IncMem
        | InstructionKind::Jmp | InstructionKind::StoreRegDirect(_) => Operands::Two,
    }
}

/// The text of the opcode table entry for an instruction, such as `add a, N`.
pub open spec fn template(ins: InstructionKind) -> Seq<char> {
    match ins {
        InstructionKind::Add(r) => "add "@ + reg_name(r) + ", N"@,
        InstructionKind::And(r) => "and "@ + reg_name(r) + ", N"@,
        InstructionKind::BranchAlways => "bra D"@,
        InstructionKind::BranchCc => "bcc D"@,
        InstructionKind::BranchCs => "bcs D"@,
        InstructionKind::BranchEq => "beq D"@,
        InstructionKind::BranchNe => "bne D"@,
        InstructionKind::Call => "call NN"@,
        InstructionKind::Clc => "clc"@,
        InstructionKind::Cmp(r) => "cmp "@ + reg_name(r) + ", N"@,
        InstructionKind::Dec(r) => "dec "@ + reg_name(r),
        InstructionKind::DecIndirect => "dec (RR)"@,
        InstructionKind::DecMem => "dec (NN)"@,
        InstructionKind::Halt => "halt"@,
        InstructionKind::Inc(r) => "inc "@ + reg_name(r),
        InstructionKind::IncIndirect => "inc (RR)"@,
        InstructionKind::IncMem => "inc (NN)"@,
        InstructionKind::Jmp => "jmp NN"@,
        InstructionKind::LdRegImm(r) => "ld "@ + reg_name(r) + (if reg_is16(r) {
            ", NN"@
        } else {
            ", N"@
        }),
        InstructionKind::LdRegIndirect => "ld R, (RR)"@,
        InstructionKind::LdRegReg => "ld R, R"@,
        InstructionKind::Lsr(r) => "lsr "@ + reg_name(r) + ", S"@,
        InstructionKind::Nop => "nop"@,
        InstructionKind::Pop(r) => "pop "@ + reg_name(r),
        InstructionKind::Push(r) => "push "@ + reg_name(r),
        InstructionKind::Ret => "ret"@,
        InstructionKind::Rti => "rti"@,
        InstructionKind::Sec => "sec"@,
        InstructionKind::StoreRegDirect(r) => "ld NN, "@ + reg_name(r),
        InstructionKind::StoreRegIndirect => "ld (RR), R"@,
        InstructionKind::Sub(r) => "sub "@ + reg_name(r) + ", N"@,
        InstructionKind::Trap => "trap T"@,
    }
}

/// The register in the low nibble of `opcode`, which the caller knows is valid.
fn reg_in(opcode: u8) -> (r: Reg)
    requires
        opcode % 16 <= 0x0C,
    ensures
        Some(r) == reg_from_id(opcode % 16),
{
    match Reg::from_id(opcode % 16) {
        Some(r) => r,
        None => Reg::A,
    }
}

impl InstructionKind {
    /// Decodes `opcode`, returning `None` for an invalid opcode.
    pub fn from_opcode(opcode: u8) -> (r: Option<InstructionKind>)
        ensures
            r == decode(opcode),
    {
        match opcode {
            0x00 => Some(InstructionKind::Halt),
            0x01 => Some(InstructionKind::Nop),
            0x03 => Some(InstructionKind::Sec),
            0x04 => Some(InstructionKind::Clc),
            0x08 => Some(InstructionKind::Ret),
            0x09 => Some(InstructionKind::Rti),
            0x10..=0x1C => Some(InstructionKind::LdRegImm(reg_in(opcode))),
            0x1D => Some(InstructionKind::LdRegIndirect),
            0x1F => Some(InstructionKind::LdRegReg),
            0x20..=0x27 => Some(InstructionKind::StoreRegDirect(reg_in(opcode))),
            0x28 => Some(InstructionKind::StoreRegIndirect),
            0x30..=0x3C => Some(InstructionKind::Inc(reg_in(opcode))),
            0x3D => Some(InstructionKind::IncIndirect),
            0x3E => Some(InstructionKind::IncMem),
            0x40..=0x4C => Some(InstructionKind::Dec(reg_in(opcode))),
            0x4D => Some(InstructionKind::DecIndirect),
            0x4E => Some(InstructionKind::DecMem),
            0x50..=0x57 => Some(InstructionKind::Add(reg_in(opcode))),
            0x60..=0x67 => Some(InstructionKind::Sub(reg_in(opcode))),
            0x70..=0x7B => Some(InstructionKind::Cmp(reg_in(opcode))),
            0x80..=0x87 => Some(InstructionKind::And(reg_in(opcode))),
            0xA8..=0xAF => Some(InstructionKind::Lsr(reg_in(opcode - 8))),
            0xD0..=0xDB => Some(InstructionKind::Push(reg_in(opcode))),
            0xE0..=0xEB => Some(InstructionKind::Pop(reg_in(opcode))),
            0xF0 => Some(InstructionKind::BranchAlways),
            0xF1 => Some(InstructionKind::BranchEq),
            0xF2 => Some(InstructionKind::BranchNe),
            0xF3 => Some(InstructionKind::BranchCs),
            0xF4 => Some(InstructionKind::BranchCc),
            0xF7 => Some(InstructionKind::Jmp),
            0xF8 => Some(InstructionKind::Call),
            0xF9 => Some(InstructionKind::Trap),
            _ => None,
        }
    }

    /// Returns the instruction's opcode byte.
    pub fn opcode(&self) -> (r: u8)
        ensures
            r == opcode(*self),
    {
        match *self {
            InstructionKind::Add(reg) => 0x50 | reg.id(),
            InstructionKind::And(reg) => 0x80 | reg.id(),
            InstructionKind::BranchAlways => 0xF0,
            InstructionKind::BranchCc => 0xF4,
            InstructionKind::BranchCs => 0xF3,
            InstructionKind::BranchEq => 0xF1,
            InstructionKind::BranchNe => 0xF2,
            InstructionKind::Call => 0xF8,
            InstructionKind::Clc => 0x04,
            InstructionKind::Cmp(reg) => 0x70 | reg.id(),
            InstructionKind::Dec(reg) => 0x40 | reg.id(),
            InstructionKind::DecIndirect => 0x4D,
            InstructionKind::DecMem => 0x4E,
            InstructionKind::Halt => 0x00,
            InstructionKind::Jmp => 0xF7,
            InstructionKind::Inc(reg) => 0x30 | reg.id(),
            InstructionKind::IncIndirect => 0x3D,
            InstructionKind::IncMem => 0x3E,
            InstructionKind::LdRegImm(reg) => 0x10 | reg.id(),
            InstructionKind::LdRegIndirect => 0x1D,
            InstructionKind::LdRegReg => 0x1F,
            InstructionKind::Lsr(reg) => 0xA8 | reg.id(),
            InstructionKind::Nop => 0x01,
            InstructionKind::Pop(reg) => 0xE0 | reg.id(),
            InstructionKind::Push(reg) => 0xD0 | reg.id(),
            InstructionKind::Ret => 0x08,
            InstructionKind::Rti => 0x09,
            InstructionKind::Sec => 0x03,
            InstructionKind::StoreRegDirect(reg) => 0x20 | reg.id(),
            InstructionKind::StoreRegIndirect => 0x28,
            InstructionKind::Sub(reg) => 0x60 | reg.id(),
            InstructionKind::Trap => 0xF9,
        }
    }

    /// Returns the number of operands this instruction takes.
    pub fn operands(&self) -> (r: Operands)
        ensures
            r == spec_operands(*self),
    {
        match *self {
            InstructionKind::Clc | InstructionKind::Dec(_) | InstructionKind::Halt | InstructionKind::Inc(_) | InstructionKind::Nop | InstructionKind::Push(_) | InstructionKind::Pop(_) | InstructionKind::Ret | InstructionKind::Rti | InstructionKind::Sec => Operands::Zero,
            InstructionKind::Add(_) | InstructionKind::And(_) | InstructionKind::BranchAlways | InstructionKind::BranchCc | InstructionKind::BranchCs | InstructionKind::BranchEq | InstructionKind::BranchNe
            | InstructionKind::DecIndirect | InstructionKind::IncIndirect | InstructionKind::LdRegIndirect | InstructionKind::LdRegReg | InstructionKind::Lsr(_) | InstructionKind::StoreRegIndirect
            | InstructionKind::Sub(_) | InstructionKind::Trap => Operands::One,
            InstructionKind::Cmp(reg) | InstructionKind::LdRegImm(reg) => {
                if reg.is16() {
                    Operands::Two
                } else {
                    Operands::One
                }
            },
            InstructionKind::Call | InstructionKind::DecMem | InstructionKind::IncMem | InstructionKind::Jmp | InstructionKind::StoreRegDirect(_) => Operands::Two,
        }
    }

    /// Returns the instruction's entry in the opcode table, such as `add a, N`.
    pub fn to_text(&self) -> (s: String)
        ensures
            s@ == template(*self),
    {
        let mut s = String::new();
        match *self {
            InstructionKind::Add(reg) => {
                push_str(&mut s, "add ");
                push_str(&mut s, reg.name());
                push_str(&mut s, ", N");
            },
            InstructionKind::And(reg) => {
                push_str(&mut s, "and ");
                push_str(&mut s, reg.name());
                push_str(&mut s, ", N");
            },
            InstructionKind::BranchAlways => push_str(&mut s, "bra D"),
            InstructionKind::BranchCc => push_str(&mut s, "bcc D"),
            InstructionKind::BranchCs => push_str(&mut s, "bcs D"),
            InstructionKind::BranchEq => push_str(&mut s, "beq D"),
            InstructionKind::BranchNe => push_str(&mut s, "bne D"),
            InstructionKind::Call => push_str(&mut s, "call NN"),
            InstructionKind::Clc => push_str(&mut s, "clc"),
            InstructionKind::Cmp(reg) => {
                push_str(&mut s, "cmp ");
                push_str(&mut s, reg.name());
                push_str(&mut s, ", N");
            },
            InstructionKind::Dec(reg) => {
                push_str(&mut s, "dec ");
                push_str(&mut s, reg.name());
            },
            InstructionKind::DecIndirect => push_str(&mut s, "dec (RR)"),
            InstructionKind::DecMem => push_str(&mut s, "dec (NN)"),
            InstructionKind::Halt => push_str(&mut s, "halt"),
            InstructionKind::Inc(reg) => {
                push_str(&mut s, "inc ");
                push_str(&mut s, reg.name());
            },
            InstructionKind::IncIndirect => push_str(&mut s, "inc (RR)"),
            InstructionKind::IncMem => push_str(&mut s, "inc (NN)"),
            InstructionKind::Jmp => push_str(&mut s, "jmp NN"),
            InstructionKind::LdRegImm(reg) => {
                push_str(&mut s, "ld ");
                push_str(&mut s, reg.name());
                if reg.is16() {
                    push_str(&mut s, ", NN");
                } else {
                    push_str(&mut s, ", N");
                }
            },
            InstructionKind::LdRegIndirect => push_str(&mut s, "ld R, (RR)"),
            InstructionKind::LdRegReg => push_str(&mut s, "ld R, R"),
            InstructionKind::Lsr(reg) => {
                push_str(&mut s, "lsr ");
                push_str(&mut s, reg.name());
                push_str(&mut s, ", S");
            },
            InstructionKind::Nop => push_str(&mut s, "nop"),
            InstructionKind::Pop(reg) => {
                push_str(&mut s, "pop ");
                push_str(&mut s, reg.name());
            },
            InstructionKind::Push(reg) => {
                push_str(&mut s, "push ");
                push_str(&mut s, reg.name());
            },
            InstructionKind::Ret => push_str(&mut s, "ret"),
            InstructionKind::Rti => push_str(&mut s, "rti"),
            InstructionKind::Sec => push_str(&mut s, "sec"),
            InstructionKind::StoreRegDirect(reg) => {
                push_str(&mut s, "ld NN, ");
                push_str(&mut s, reg.name());
            },
            InstructionKind::StoreRegIndirect => push_str(&mut s, "ld (RR), R"),
            InstructionKind::Sub(reg) => {
                push_str(&mut s, "sub ");
                push_str(&mut s, reg.name());
                push_str(&mut s, ", N");
            },
            InstructionKind::Trap => push_str(&mut s, "trap T"),
        }
        s
    }
}

/// OR-ing a base whose low nibble is clear with a value below 16 is adding them, and
/// the result keeps the base's high nibble and the value as its low nibble.
proof fn lemma_or_low_nibble(base: u8, x: u8)
    requires
        base % 16 == 0,
        x < 16,
    ensures
        base | x == base + x,
        (base | x) / 16 == base / 16,
        (base | x) % 16 == x,
{
    assert(base % 16 == 0 && x < 16 ==> base | x == base + x) by (bit_vector);
}

/// OR-ing the `lsr` base with a register ID below 8 is adding them.
proof fn lemma_or_lsr(x: u8)
    requires
        x < 8,
    ensures
        0xA8u8 | x == 0xA8u8 + x,
{
    assert(x < 8 ==> 0xA8u8 | x == 0xA8u8 + x) by (bit_vector);
}

/// Every encodable instruction decodes back from its opcode.
#[verifier::spinoff_prover]
#[verifier::rlimit(60)]
pub proof fn lemma_decode_opcode(ins: InstructionKind)
    requires
        encodable(ins),
    ensures
        decode(opcode(ins)) == Some(ins),
{
    match ins {
        InstructionKind::Add(r) => {
            crate::regs::lemma_reg_id_round_trip(r);
            lemma_or_low_nibble(0x50, reg_id(r));
        },
        InstructionKind::And(r) => {
            crate::regs::lemma_reg_id_round_trip(r);
            lemma_or_low_nibble(0x80, reg_id(r));
        },
        InstructionKind::Cmp(r) => {
            crate::regs::lemma_reg_id_round_trip(r);
            lemma_or_low_nibble(0x70, reg_id(r));
        },
        InstructionKind::Dec(r) => {
            crate::regs::lemma_reg_id_round_trip(r);
            lemma_or_low_nibble(0x40, reg_id(r));
        },
        InstructionKind::Inc(r) => {
            crate::regs::lemma_reg_id_round_trip(r);
            lemma_or_low_nibble(0x30, reg_id(r));
        },
        InstructionKind::LdRegImm(r) => {
            crate::regs::lemma_reg_id_round_trip(r);
            lemma_or_low_nibble(0x10, reg_id(r));
        },
        InstructionKind::Lsr(r) => {
            crate::regs::lemma_reg_id_round_trip(r);
            lemma_or_lsr(reg_id(r));
            assert(opcode(ins) / 16 == 0xA);
            assert(opcode(ins) % 16 == reg_id(r) + 8);
        },
        InstructionKind::Pop(r) => {
            crate::regs::lemma_reg_id_round_trip(r);
            lemma_or_low_nibble(0xE0, reg_id(r));
        },
        InstructionKind::Push(r) => {
            crate::regs::lemma_reg_id_round_trip(r);
            lemma_or_low_nibble(0xD0, reg_id(r));
        },
        InstructionKind::StoreRegDirect(r) => {
            crate::regs::lemma_reg_id_round_trip(r);
            lemma_or_low_nibble(0x20, reg_id(r));
        },
        InstructionKind::Sub(r) => {
            crate::regs::lemma_reg_id_round_trip(r);
            lemma_or_low_nibble(0x60, reg_id(r));
        },
        _ => {},
    }
}

/// Every valid opcode is the opcode of the (encodable) instruction it decodes to.
pub proof fn lemma_opcode_decode(b: u8)
    requires
        decode(b) is Some,
    ensures
        encodable(decode(b)->0),
        opcode(decode(b)->0) == b,
{
    let hi = b / 16;
    let lo = b % 16;
    crate::regs::lemma_reg_from_id_inverse(lo);
    if hi == 0x1 || hi == 0x2 || hi == 0x3 || hi == 0x4 || hi == 0x5 || hi == 0x6
        || hi == 0x7 || hi == 0x8 || hi == 0xD || hi == 0xE {
        if lo <= 0xC {
            lemma_or_low_nibble((hi * 16) as u8, lo);
        }
    } else if hi == 0xA {
        crate::regs::lemma_reg_from_id_inverse((lo - 8) as u8);
        lemma_or_lsr((lo - 8) as u8);
    }
}

} // verus!
