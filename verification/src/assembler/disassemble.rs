//! The disassembler: object code back to assembly source, one instruction per line.
use vstd::prelude::*;

use crate::instructions::{decode, spec_operands, InstructionKind, Operands};
use crate::regs::{reg_from_id, reg_is16, reg_name, source_and_target_from, source_from, spec_source_and_target, Reg};
use crate::text::{hex_byte, hex_byte_text, hex_word, hex_word_text, push_str, string_from};

verus! {

/// What the disassembler shows for a missing or invalid operand.
pub open spec fn no_operand() -> Seq<char> {
    "??? (no operand)"@
}

/// A byte operand at `p`: its hex form, and the position after it.
pub open spec fn byte_operand(code: Seq<u8>, p: int) -> (Seq<char>, int) {
    if 0 <= p < code.len() {
        (hex_byte_text(code[p]), p + 1)
    } else {
        (no_operand(), p)
    }
}

/// A word operand at `p`, low byte first: its hex form, and the position after it. With
/// only one byte left, that byte is consumed and the operand is missing.
pub open spec fn word_operand(code: Seq<u8>, p: int) -> (Seq<char>, int) {
    if 0 <= p && p + 1 < code.len() {
        (hex_word_text((code[p] + 256 * code[p + 1]) as u16), p + 2)
    } else if 0 <= p < code.len() {
        (no_operand(), p + 1)
    } else {
        (no_operand(), p)
    }
}

/// The immediate operand for an instruction on `reg`: a word for a 16-bit register, a
/// byte for an 8-bit one.
pub open spec fn reg_operand(code: Seq<u8>, p: int, reg: Reg) -> (Seq<char>, int) {
    if reg_is16(reg) {
        word_operand(code, p)
    } else {
        byte_operand(code, p)
    }
}

/// `mnemonic (RR)` for the 16-bit source register in the high nibble of the operand
/// byte at `p`.
pub open spec fn indirect_operand(code: Seq<u8>, p: int, mnemonic: Seq<char>) -> (
    Seq<char>,
    int,
) {
    if 0 <= p < code.len() {
        (match reg_from_id(code[p] / 16) {
            Some(source) => if reg_is16(source) {
                mnemonic + " ("@ + reg_name(source) + ")"@
            } else {
                no_operand()
            },
            None => no_operand(),
        }, p + 1)
    } else {
        (no_operand(), p)
    }
}

/// How the two registers of a register-pair operand are shown.
pub enum PairForm {
    /// `ld T, (S)`.
    LoadIndirect,
    /// `ld T, S`.
    LoadReg,
    /// `ld (T), S`.
    StoreIndirect,
}

/// The instruction text for source `s` and target `t` in the form `form`.
pub open spec fn pair_text(form: PairForm, s: Reg, t: Reg) -> Seq<char> {
    match form {
        PairForm::LoadIndirect => "ld "@ + reg_name(t) + ", ("@ + reg_name(s) + ")"@,
        PairForm::LoadReg => "ld "@ + reg_name(t) + ", "@ + reg_name(s),
        PairForm::StoreIndirect => "ld ("@ + reg_name(t) + "), "@ + reg_name(s),
    }
}

/// An instruction whose operand byte at `p` names a source and a target register.
pub open spec fn pair_operand(code: Seq<u8>, p: int, form: PairForm) -> (Seq<char>, int) {
    if 0 <= p < code.len() {
        (match spec_source_and_target(code[p]) {
            Some((s, t)) => pair_text(form, s, t),
            None => no_operand(),
        }, p + 1)
    } else {
        (no_operand(), p)
    }
}

/// `prefix` put before the text of an operand.
pub open spec fn after(prefix: Seq<char>, op: (Seq<char>, int)) -> (Seq<char>, int) {
    (prefix + op.0, op.1)
}

/// The text of the instruction starting at `pos`, and the position after it. An invalid
/// opcode shows as `??? (0xNN)`.
pub open spec fn dis_line(code: Seq<u8>, pos: int) -> (Seq<char>, int) {
    let opcode = code[pos];
    let p = pos + 1;
    match decode(opcode) {
        None => ("??? ("@ + hex_byte_text(opcode) + ")"@, p),
        Some(ins) => match ins {
            InstructionKind::Add(r) => after("add "@ + reg_name(r) + ", "@, byte_operand(code, p)),
            InstructionKind::And(r) => after("and "@ + reg_name(r) + ", "@, byte_operand(code, p)),
            InstructionKind::BranchAlways => after("bra "@, byte_operand(code, p)),
            InstructionKind::BranchCc => after("bcc "@, byte_operand(code, p)),
            InstructionKind::BranchCs => after("bcs "@, byte_operand(code, p)),
            InstructionKind::BranchEq => after("beq "@, byte_operand(code, p)),
            InstructionKind::BranchNe => after("bne "@, byte_operand(code, p)),
            InstructionKind::Call => after("call "@, word_operand(code, p)),
            InstructionKind::Clc => ("clc"@, p),
            InstructionKind::Cmp(r) => after(
                "cmp "@ + reg_name(r) + ", "@,
                reg_operand(code, p, r),
            ),
            InstructionKind::Dec(r) => ("dec "@ + reg_name(r), p),
            InstructionKind::DecIndirect => indirect_operand(code, p, "dec"@),
            InstructionKind::DecMem => {
                let (t, q) = word_operand(code, p);
                ("dec ("@ + t + ")"@, q)
            },
            InstructionKind::Halt => ("halt"@, p),
            InstructionKind::Inc(r) => ("inc "@ + reg_name(r), p),
            InstructionKind::IncIndirect => indirect_operand(code, p, "inc"@),
            InstructionKind::IncMem => {
                let (t, q) = word_operand(code, p);
                ("inc ("@ + t + ")"@, q)
            },
            InstructionKind::Jmp => after("jmp "@, word_operand(code, p)),
            InstructionKind::LdRegImm(r) => after(
                "ld "@ + reg_name(r) + ", "@,
                reg_operand(code, p, r),
            ),
            InstructionKind::LdRegIndirect => pair_operand(code, p, PairForm::LoadIndirect),
            InstructionKind::LdRegReg => pair_operand(code, p, PairForm::LoadReg),
            InstructionKind::Lsr(r) => after("lsr "@ + reg_name(r) + ", "@, byte_operand(code, p)),
            InstructionKind::Nop => ("nop"@, p),
            InstructionKind::Pop(r) => ("pop "@ + reg_name(r), p),
            InstructionKind::Push(r) => ("push "@ + reg_name(r), p),
            InstructionKind::Ret => ("ret"@, p),
            InstructionKind::Rti => ("rti"@, p),
            InstructionKind::Sec => ("sec"@, p),
            InstructionKind::StoreRegDirect(r) => {
                let (t, q) = word_operand(code, p);
                ("ld "@ + t + ", "@ + reg_name(r), q)
            },
            InstructionKind::StoreRegIndirect => pair_operand(code, p, PairForm::StoreIndirect),
            InstructionKind::Sub(r) => after("sub "@ + reg_name(r) + ", "@, byte_operand(code, p)),
            InstructionKind::Trap => after("trap "@, byte_operand(code, p)),
        },
    }
}

/// Each instruction takes at least its opcode byte, and no more than there is.
pub proof fn lemma_dis_line_advances(code: Seq<u8>, pos: int)
    requires
        0 <= pos < code.len(),
    ensures
        pos < dis_line(code, pos).1 <= code.len(),
{
}

/// The number of operand bytes an `Operands` count stands for.
pub open spec fn operand_bytes(n: Operands) -> int {
    match n {
        Operands::Zero => 0,
        Operands::One => 1,
        Operands::Two => 2,
    }
}

/// The disassembler reads exactly the operands that the CPU fetches: for a valid opcode
/// with all its operand bytes present, the next line starts right after them.
pub proof fn lemma_disassembler_reads_operands(code: Seq<u8>, pos: int, ins: InstructionKind)
    requires
        0 <= pos < code.len(),
        decode(code[pos]) == Some(ins),
        pos + 1 + operand_bytes(spec_operands(ins)) <= code.len(),
    ensures
        dis_line(code, pos).1 == pos + 1 + operand_bytes(spec_operands(ins)),
{
}

/// The lines of the instructions from `pos` to the end of the code.
pub open spec fn dis_lines(code: Seq<u8>, pos: int) -> Seq<Seq<char>>
    decreases code.len() - pos,
{
    if 0 <= pos < code.len() {
        let (t, q) = dis_line(code, pos);
        if pos < q {
            seq![t] + dis_lines(code, q)
        } else {
            seq![t]
        }
    } else {
        Seq::empty()
    }
}

/// Disassembles a given binary program.
pub struct Disassembler {
    /// The code to be disassembled.
    pub code: Vec<u8>,
    /// The position of the next byte to read.
    pub pos: usize,
}

impl Disassembler {
    /// A disassembler at the start of `code`.
    pub fn new(code: &[u8]) -> (d: Disassembler)
        ensures
            d.code@ == code@,
            d.pos == 0,
    {
        let mut v: Vec<u8> = Vec::new();
        let mut i: usize = 0;
        while i < code.len()
            invariant
                i <= code@.len(),
                v@ == code@.subrange(0, i as int),
            decreases code.len() - i,
        {
            v.push(code[i]);
            i = i + 1;
        }
        assert(v@ =~= code@);
        Disassembler { code: v, pos: 0 }
    }

    /// Reads a byte operand and formats it for display.
    fn format_byte(&mut self) -> (s: String)
        requires
            old(self).pos <= old(self).code@.len(),
        ensures
            final(self).code@ == old(self).code@,
            (s@, final(self).pos as int) == byte_operand(old(self).code@, old(self).pos as int),
    {
        if self.pos < self.code.len() {
            let b = self.code[self.pos];
            self.pos = self.pos + 1;
            hex_byte(b)
        } else {
            string_from("??? (no operand)")
        }
    }

    /// Reads a word operand and formats it for display.
    fn format_word(&mut self) -> (s: String)
        requires
            old(self).pos <= old(self).code@.len(),
        ensures
            final(self).code@ == old(self).code@,
            (s@, final(self).pos as int) == word_operand(old(self).code@, old(self).pos as int),
    {
        if self.pos < self.code.len() && self.pos + 1 < self.code.len() {
            let lo = self.code[self.pos];
            let hi = self.code[self.pos + 1];
            self.pos = self.pos + 2;
            hex_word(lo as u16 + 256 * hi as u16)
        } else {
            if self.pos < self.code.len() {
                self.pos = self.pos + 1;
            }
            string_from("??? (no operand)")
        }
    }

    /// Reads an operand for `reg` and formats it for display.
    fn format_op_for_reg(&mut self, reg: Reg) -> (s: String)
        requires
            old(self).pos <= old(self).code@.len(),
        ensures
            final(self).code@ == old(self).code@,
            (s@, final(self).pos as int) == reg_operand(
                old(self).code@,
                old(self).pos as int,
                reg,
            ),
    {
        if reg.is16() {
            self.format_word()
        } else {
            self.format_byte()
        }
    }

    /// Reads an operand specifying the source register and formats the instruction
    /// (`inc` or `dec`, per `mnemonic`) for display.
    fn format_indirect(&mut self, mnemonic: &str) -> (s: String)
        requires
            old(self).pos <= old(self).code@.len(),
        ensures
            final(self).code@ == old(self).code@,
            (s@, final(self).pos as int) == indirect_operand(
                old(self).code@,
                old(self).pos as int,
                mnemonic@,
            ),
    {
        if self.pos < self.code.len() {
            let regs = self.code[self.pos];
            self.pos = self.pos + 1;
            if let Some(source) = source_from(regs) {
                if source.is16() {
                    let mut s = string_from(mnemonic);
                    push_str(&mut s, " (");
                    push_str(&mut s, source.name());
                    push_str(&mut s, ")");
                    return s;
                }
            }
        }
        string_from("??? (no operand)")
    }

    /// Reads an operand specifying source and target registers and formats the
    /// instruction, in the form `form`, for display.
    fn format_pair(&mut self, form: PairForm) -> (s: String)
        requires
            old(self).pos <= old(self).code@.len(),
        ensures
            final(self).code@ == old(self).code@,
            (s@, final(self).pos as int) == pair_operand(
                old(self).code@,
                old(self).pos as int,
                form,
            ),
    {
        if self.pos < self.code.len() {
            let regs = self.code[self.pos];
            self.pos = self.pos + 1;
            if let Some((source, target)) = source_and_target_from(regs) {
                let mut s = String::new();
                match form {
                    PairForm::LoadIndirect => {
                        push_str(&mut s, "ld ");
                        push_str(&mut s, target.name());
                        push_str(&mut s, ", (");
                        push_str(&mut s, source.name());
                        push_str(&mut s, ")");
                    },
                    PairForm::LoadReg => {
                        push_str(&mut s, "ld ");
                        push_str(&mut s, target.name());
                        push_str(&mut s, ", ");
                        push_str(&mut s, source.name());
                    },
                    PairForm::StoreIndirect => {
                        push_str(&mut s, "ld (");
                        push_str(&mut s, target.name());
                        push_str(&mut s, "), ");
                        push_str(&mut s, source.name());
                    },
                }
                return s;
            }
        }
        string_from("??? (no operand)")
    }
    /// Appends `op` to `prefix`.
    fn joined(prefix: String, op: String) -> (s: String)
        ensures
            s@ == prefix@ + op@,
    {
        let mut s = prefix;
        push_str(&mut s, op.as_str());
        s
    }

    /// Disassembles the next instruction, or returns `None` at the end of the code.
    #[verifier::spinoff_prover]
    #[verifier::rlimit(50)]
    pub fn next(&mut self) -> (r: Option<String>)
        requires
            old(self).pos <= old(self).code@.len(),
        ensures
            final(self).code@ == old(self).code@,
            final(self).pos <= final(self).code@.len(),
            old(self).pos < old(self).code@.len() ==> r is Some && (
                r->Some_0@,
                final(self).pos as int,
            ) == dis_line(old(self).code@, old(self).pos as int),
            old(self).pos >= old(self).code@.len() ==> r is None && final(self).pos == old(
                self,
            ).pos,
    {
        if self.pos >= self.code.len() {
            return None;
        }
        let ghost code = self.code@;
        let ghost pos = self.pos as int;
        proof {
            lemma_dis_line_advances(code, pos);
        }
        let opcode = self.code[self.pos];
        self.pos = self.pos + 1;
        let line = match InstructionKind::from_opcode(opcode) {
            None => {
                let mut s = string_from("??? (");
                push_str(&mut s, hex_byte(opcode).as_str());
                push_str(&mut s, ")");
                s
            },
            Some(ins) => match ins {
                InstructionKind::Add(reg) => {
                    let mut s = string_from("add ");
                    push_str(&mut s, reg.name());
                    push_str(&mut s, ", ");
                    Self::joined(s, self.format_byte())
                },
                InstructionKind::And(reg) => {
                    let mut s = string_from("and ");
                    push_str(&mut s, reg.name());
                    push_str(&mut s, ", ");
                    Self::joined(s, self.format_byte())
                },
                InstructionKind::BranchAlways => Self::joined(string_from("bra "), self.format_byte()),
                InstructionKind::BranchCc => Self::joined(string_from("bcc "), self.format_byte()),
                InstructionKind::BranchCs => Self::joined(string_from("bcs "), self.format_byte()),
                InstructionKind::BranchEq => Self::joined(string_from("beq "), self.format_byte()),
                InstructionKind::BranchNe => Self::joined(string_from("bne "), self.format_byte()),
                InstructionKind::Call => Self::joined(string_from("call "), self.format_word()),
                InstructionKind::Clc => string_from("clc"),
                InstructionKind::Cmp(reg) => {
                    let mut s = string_from("cmp ");
                    push_str(&mut s, reg.name());
                    push_str(&mut s, ", ");
                    Self::joined(s, self.format_op_for_reg(reg))
                },
                InstructionKind::Dec(reg) => {
                    let mut s = string_from("dec ");
                    push_str(&mut s, reg.name());
                    s
                },
                InstructionKind::DecIndirect => self.format_indirect("dec"),
                InstructionKind::DecMem => {
                    let mut s = Self::joined(string_from("dec ("), self.format_word());
                    push_str(&mut s, ")");
                    s
                },
                InstructionKind::Halt => string_from("halt"),
                InstructionKind::Inc(reg) => {
                    let mut s = string_from("inc ");
                    push_str(&mut s, reg.name());
                    s
                },
                InstructionKind::IncIndirect => self.format_indirect("inc"),
                InstructionKind::IncMem => {
                    let mut s = Self::joined(string_from("inc ("), self.format_word());
                    push_str(&mut s, ")");
                    s
                },
                InstructionKind::Jmp => Self::joined(string_from("jmp "), self.format_word()),
                InstructionKind::LdRegImm(reg) => {
                    let mut s = string_from("ld ");
                    push_str(&mut s, reg.name());
                    push_str(&mut s, ", ");
                    Self::joined(s, self.format_op_for_reg(reg))
                },
                InstructionKind::LdRegIndirect => self.format_pair(PairForm::LoadIndirect),
                InstructionKind::LdRegReg => self.format_pair(PairForm::LoadReg),
                InstructionKind::Lsr(reg) => {
                    let mut s = string_from("lsr ");
                    push_str(&mut s, reg.name());
                    push_str(&mut s, ", ");
                    Self::joined(s, self.format_byte())
                },
                InstructionKind::Nop => string_from("nop"),
                InstructionKind::Pop(reg) => {
                    let mut s = string_from("pop ");
                    push_str(&mut s, reg.name());
                    s
                },
                InstructionKind::Push(reg) => {
                    let mut s = string_from("push ");
                    push_str(&mut s, reg.name());
                    s
                },
                InstructionKind::Ret => string_from("ret"),
                InstructionKind::Rti => string_from("rti"),
                InstructionKind::Sec => string_from("sec"),
                InstructionKind::StoreRegDirect(reg) => {
                    let mut s = Self::joined(string_from("ld "), self.format_word());
                    push_str(&mut s, ", ");
                    push_str(&mut s, reg.name());
                    s
                },
                InstructionKind::StoreRegIndirect => self.format_pair(PairForm::StoreIndirect),
                InstructionKind::Sub(reg) => {
                    let mut s = string_from("sub ");
                    push_str(&mut s, reg.name());
                    push_str(&mut s, ", ");
                    Self::joined(s, self.format_byte())
                },
                InstructionKind::Trap => Self::joined(string_from("trap "), self.format_byte()),
            },
        };
        Some(line)
    }

    /// Disassembles the rest of the code, one line per instruction.
    pub fn collect(&mut self) -> (v: Vec<String>)
        requires
            old(self).pos <= old(self).code@.len(),
        ensures
            final(self).code@ == old(self).code@,
            v@.map_values(|s: String| s@) == dis_lines(old(self).code@, old(self).pos as int),
    {
        let ghost code = self.code@;
        let ghost start = self.pos as int;
        let mut v: Vec<String> = Vec::new();
        while self.pos < self.code.len()
            invariant
                self.code@ == code,
                self.pos <= code.len(),
                dis_lines(code, start) == v@.map_values(|s: String| s@) + dis_lines(
                    code,
                    self.pos as int,
                ),
            decreases code.len() - self.pos,
        {
            let ghost p = self.pos as int;
            proof {
                lemma_dis_line_advances(code, p);
            }
            match self.next() {
                Some(line) => {
                    proof {
                        assert(dis_lines(code, p) == seq![line@] + dis_lines(code, self.pos as int));
                        assert(v@.push(line).map_values(|s: String| s@) =~= v@.map_values(
                            |s: String| s@,
                        ).push(line@));
                    }
                    v.push(line);
                },
                None => {},
            }
        }
        proof {
            assert(dis_lines(code, self.pos as int) =~= Seq::<Seq<char>>::empty());
            assert(v@.map_values(|s: String| s@) + Seq::<Seq<char>>::empty() =~= v@.map_values(
                |s: String| s@,
            ));
        }
        v
    }
}

/// Disassembles a single instruction from `code` (empty text for empty code).
///
/// Useful for writing tests.
pub fn disassemble(code: &[u8]) -> (s: String)
    ensures
        code@.len() == 0 ==> s@ == Seq::<char>::empty(),
        code@.len() > 0 ==> s@ == dis_line(code@, 0).0,
{
    let mut dis = Disassembler::new(code);
    match dis.next() {
        Some(line) => line,
        None => String::new(),
    }
}

/// The bytes of `data` in hex, separated by commas.
pub open spec fn hex_list(data: Seq<u8>) -> Seq<char>
    decreases data.len(),
{
    if data.len() == 0 {
        Seq::empty()
    } else if data.len() == 1 {
        hex_byte_text(data[0])
    } else {
        hex_list(data.drop_last()) + ", "@ + hex_byte_text(data.last())
    }
}

/// Formats the `data` slice as comma-separated hex bytes, in square brackets.
pub fn as_hex(data: &[u8]) -> (s: String)
    ensures
        s@ == "["@ + hex_list(data@) + "]"@,
{
    let mut s = string_from("[");
    let mut i: usize = 0;
    while i < data.len()
        invariant
            i <= data@.len(),
            s@ == "["@ + hex_list(data@.take(i as int)),
        decreases data.len() - i,
    {
        proof {
            assert(data@.take(i + 1).drop_last() =~= data@.take(i as int));
        }
        if i > 0 {
            push_str(&mut s, ", ");
        }
        push_str(&mut s, hex_byte(data[i]).as_str());
        i = i + 1;
    }
    push_str(&mut s, "]");
    assert(data@.take(data@.len() as int) =~= data@);
    s
}

} // verus!
