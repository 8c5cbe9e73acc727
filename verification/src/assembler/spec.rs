//! What the assembler does, stated over the token sequence: the grammar of each
//! statement and the bytes it generates.
use vstd::prelude::*;

use crate::assembler::token::TokenView;
use crate::assembler::tokenizer::{is_keyword, scan, skip_spaces, tokens_from};
use crate::cpu::{sign_extend, wrap16};
use crate::instructions::{decode, lemma_decode_opcode, opcode, InstructionKind};
use crate::regs::{reg_is16, spec_u8_from, Reg};

verus! {

/// The default base address for assembled code.
pub const BASE: u16 = 0x0100;

/// What the assembler expected when it found something else.
#[derive(Clone, Copy, Debug, PartialEq, Eq, Structural)]
pub enum Expected {
    /// A comma.
    Comma,
    /// A closing parenthesis.
    ParenClose,
    /// Some other specific token.
    Token,
    /// A register name.
    Register,
    /// An 8-bit register name.
    Register8,
    /// A 16-bit register name.
    Register16,
    /// A register other than `sp` (which cannot be compared, pushed or popped).
    RegisterNotSp,
    /// A register of the same width as the other.
    SameSizeRegister,
    /// An immediate byte value.
    ImmediateByte,
    /// An immediate word value.
    ImmediateWord,
    /// A label or an address.
    LabelOrAddress,
    /// A label or an immediate byte displacement.
    LabelOrDisplacement,
    /// An address.
    Address,
    /// A 16-bit register or an address (in parentheses).
    Register16OrAddress,
    /// A register or an indirect address.
    RegisterOrIndirect,
    /// A shift count byte.
    ShiftCount,
    /// A trap code byte.
    TrapCode,
}

/// Why assembly failed.
#[derive(Clone, Copy, Debug, PartialEq, Eq, Structural)]
pub enum AsmError {
    /// The input ended in the middle of a statement.
    UnexpectedEnd,
    /// The next token was not what the statement needs.
    Expected(Expected),
    /// A token that cannot start a statement or operand.
    UnexpectedToken,
    /// The code wrapped around past the end of the 64KiB address space.
    CodeTooBig,
    /// A branch target is too far away for a signed byte displacement.
    DisplacementOutOfRange(u16),
    /// A label used on the second pass was never defined.
    UndefinedLabel,
    /// A string literal holds a character that is not ASCII.
    NonAscii(char),
    /// An `org` address lies below the current location.
    InvalidOrg(u16),
    /// A trap code above 0x3F.
    InvalidTrapCode(u8),
    /// The line counter overflowed.
    LineOverflow,
}

/// The abstract state of the assembler.
#[verifier::ext_equal]
pub struct AsmView {
    /// Generated object code.
    pub code: Seq<u8>,
    /// Index of the next token.
    pub cursor: int,
    /// Label definitions, in order; a later definition of a name overrides earlier ones.
    pub labels: Seq<(Seq<char>, u16)>,
    /// Line counter.
    pub line: int,
    /// Location counter.
    pub loc: u16,
    /// Are we on the second pass?
    pub pass2: bool,
    /// The tokens being assembled.
    pub tokens: Seq<TokenView>,
}

/// The address most recently defined for `name`, if any.
pub open spec fn lookup(labels: Seq<(Seq<char>, u16)>, name: Seq<char>) -> Option<u16>
    decreases labels.len(),
{
    if labels.len() == 0 {
        None
    } else if labels.last().0 == name {
        Some(labels.last().1)
    } else {
        lookup(labels.drop_last(), name)
    }
}

/// True if every keyword token is one of the assembler's keywords (as the tokenizer
/// guarantees).
pub open spec fn keywords_valid(tokens: Seq<TokenView>) -> bool {
    forall|i: int|
        0 <= i < tokens.len() ==> (#[trigger] tokens[i] matches TokenView::Keyword(k)
            ==> is_keyword(k))
}

/// The tokenizer only makes keyword tokens of keywords.
pub proof fn lemma_tokens_keywords_valid(s: Seq<char>, i: int)
    ensures
        keywords_valid(tokens_from(s, i)),
    decreases s.len() - i,
{
    if 0 <= i < s.len() {
        let (t, j) = scan(s, i);
        let n = skip_spaces(s, j);
        assert(t matches TokenView::Keyword(w) ==> is_keyword(w));
        if i < n <= s.len() {
            lemma_tokens_keywords_valid(s, n);
            let rest = tokens_from(s, n);
            let all = seq![t] + rest;
            assert forall|k: int| 0 <= k < all.len() implies (#[trigger] all[k] matches TokenView::Keyword(
                w,
            ) ==> is_keyword(w)) by {
                if k > 0 {
                    assert(all[k] == rest[k - 1]);
                }
            }
        }
    }
}

/// What every statement keeps: the tokens, the labels and the pass are unchanged, the
/// line counter does not go back, and the cursor only moves forward, staying within the
/// tokens.
pub open spec fn progressed(a: AsmView, b: AsmView) -> bool {
    &&& b.tokens == a.tokens
    &&& b.labels == a.labels
    &&& b.pass2 == a.pass2
    &&& a.line <= b.line
    &&& a.cursor <= b.cursor
    &&& (a.cursor <= a.tokens.len() ==> b.cursor <= b.tokens.len())
}

/// The low byte of a word.
pub open spec fn lo(w: u16) -> u8 {
    (w % 256) as u8
}

/// The high byte of a word.
pub open spec fn hi(w: u16) -> u8 {
    (w / 256) as u8
}

/// The result of a step of assembly: the new state, and the value or the error.
pub type Step<T> = (AsmView, Result<T, AsmError>);

impl AsmView {
    /// The state with the cursor moved on by one token.
    pub open spec fn advance(self) -> AsmView {
        AsmView { cursor: self.cursor + 1, ..self }
    }

    /// Taking the next token.
    pub open spec fn next(self) -> Step<TokenView> {
        if 0 <= self.cursor < self.tokens.len() {
            (self.advance(), Ok(self.tokens[self.cursor]))
        } else {
            (self, Err(AsmError::UnexpectedEnd))
        }
    }

    /// Adding `byte` to the code and the location counter; running past the top of
    /// memory (the location wrapping round to 1 after more than one byte) is an error.
    pub open spec fn emit_byte(self, byte: u8) -> Step<()> {
        let s = AsmView {
            code: self.code.push(byte),
            loc: ((self.loc + 1) % 65536) as u16,
            ..self
        };
        (s, if s.loc == 1 && s.code.len() > 1 {
            Err(AsmError::CodeTooBig)
        } else {
            Ok(())
        })
    }

    /// Adding `word` to the code, low byte first.
    pub open spec fn emit_word(self, word: u16) -> Step<()> {
        let (s, r) = self.emit_byte(lo(word));
        if r is Err {
            (s, r)
        } else {
            s.emit_byte(hi(word))
        }
    }

    /// Adding the opcode of `ins` to the code.
    pub open spec fn emit_op(self, ins: InstructionKind) -> Step<()> {
        self.emit_byte(opcode(ins))
    }

    /// Adding the opcode of `ins` and then `byte` to the code.
    pub open spec fn emit_op_byte(self, ins: InstructionKind, byte: u8) -> Step<()> {
        let (s, r) = self.emit_op(ins);
        if r is Err {
            (s, r)
        } else {
            s.emit_byte(byte)
        }
    }

    /// Adding the opcode of `ins` and then `word` to the code.
    pub open spec fn emit_op_word(self, ins: InstructionKind, word: u16) -> Step<()> {
        let (s, r) = self.emit_op(ins);
        if r is Err {
            (s, r)
        } else {
            s.emit_word(word)
        }
    }

    /// Consuming the token `expected`.
    pub open spec fn expect(self, expected: TokenView) -> Step<()> {
        let (s, r) = self.next();
        match r {
            Err(e) => (s, Err(e)),
            Ok(t) => (s, if t == expected {
                Ok(())
            } else {
                Err(AsmError::Expected(expected_kind(expected)))
            }),
        }
    }

    /// The address of a label: undefined labels read as 0 on the first pass, and are an
    /// error on the second.
    pub open spec fn resolve(self, name: Seq<char>) -> Result<u16, AsmError> {
        match lookup(self.labels, name) {
            Some(addr) => Ok(addr),
            None => if self.pass2 {
                Err(AsmError::UndefinedLabel)
            } else {
                Ok(0)
            },
        }
    }

    /// A branch displacement: an immediate byte, or a label whose address, relative to
    /// the instruction after the branch (location + 2), fits a signed byte; on the first
    /// pass a label gives 0.
    pub open spec fn expect_displacement(self) -> Step<u8> {
        let (s, r) = self.next();
        match r {
            Err(e) => (s, Err(e)),
            Ok(TokenView::ByteLiteral(dis)) => (s, Ok(dis)),
            Ok(TokenView::Identifier(label)) => if self.pass2 {
                match s.resolve(label) {
                    Err(e) => (s, Err(e)),
                    Ok(addr) => {
                        let long_dis = ((addr - self.loc - 2 + 2 * 65536) % 65536) as u16;
                        if long_dis <= 0x7F || long_dis >= 0xFF80 {
                            (s, Ok(lo(long_dis)))
                        } else {
                            (s, Err(AsmError::DisplacementOutOfRange(long_dis)))
                        }
                    },
                }
            } else {
                (s, Ok(0))
            },
            Ok(_) => (s, Err(AsmError::Expected(Expected::LabelOrDisplacement))),
        }
    }

    /// The operand bytes for an instruction on `reg`: a byte for an 8-bit register, a
    /// word (low byte first) for a 16-bit one.
    pub open spec fn expect_op_for_reg(self, reg: Reg) -> Step<Seq<u8>> {
        let (s, r) = self.next();
        match r {
            Err(e) => (s, Err(e)),
            Ok(TokenView::ByteLiteral(b)) if !reg_is16(reg) => (s, Ok(seq![b])),
            Ok(TokenView::WordLiteral(w)) if reg_is16(reg) => (s, Ok(seq![lo(w), hi(w)])),
            Ok(_) => (s, Err(AsmError::Expected(if reg_is16(reg) {
                Expected::ImmediateWord
            } else {
                Expected::ImmediateByte
            }))),
        }
    }

    /// A register name.
    pub open spec fn expect_reg(self) -> Step<Reg> {
        let (s, r) = self.next();
        match r {
            Err(e) => (s, Err(e)),
            Ok(TokenView::Register(reg)) => (s, Ok(reg)),
            Ok(_) => (s, Err(AsmError::Expected(Expected::Register))),
        }
    }

    /// A 16-bit register name.
    pub open spec fn expect_reg16(self) -> Step<Reg> {
        let (s, r) = self.next();
        match r {
            Err(e) => (s, Err(e)),
            Ok(TokenView::Register(reg)) => (s, if reg_is16(reg) {
                Ok(reg)
            } else {
                Err(AsmError::Expected(Expected::Register16))
            }),
            Ok(_) => (s, Err(AsmError::Expected(Expected::Register))),
        }
    }

    /// An 8-bit register name.
    pub open spec fn expect_reg8(self) -> Step<Reg> {
        let (s, r) = self.next();
        match r {
            Err(e) => (s, Err(e)),
            Ok(TokenView::Register(reg)) => (s, if !reg_is16(reg) {
                Ok(reg)
            } else {
                Err(AsmError::Expected(Expected::Register8))
            }),
            Ok(_) => (s, Err(AsmError::Expected(Expected::Register))),
        }
    }

    /// `OP R, N` for an 8-bit register (the opcode of `make(R)`, then the byte).
    pub open spec fn gen_reg_imm8(self, ins: spec_fn(Reg) -> InstructionKind) -> Step<()> {
        let (s1, r1) = self.expect_reg8();
        match r1 {
            Err(e) => (s1, Err(e)),
            Ok(reg) => {
                let (s2, r2) = s1.expect(TokenView::Comma);
                if r2 is Err {
                    (s2, r2)
                } else {
                    let (s3, r3) = s2.emit_op(ins(reg));
                    if r3 is Err {
                        (s3, r3)
                    } else {
                        let (s4, r4) = s3.expect_op_for_reg(reg);
                        match r4 {
                            Err(e) => (s4, Err(e)),
                            Ok(bytes) => s4.emit_bytes(bytes),
                        }
                    }
                }
            },
        }
    }

    /// Adding `bytes` to the code in order, stopping at the first error.
    pub open spec fn emit_bytes(self, bytes: Seq<u8>) -> Step<()>
        decreases bytes.len(),
    {
        if bytes.len() == 0 {
            (self, Ok(()))
        } else {
            let (s, r) = self.emit_byte(bytes[0]);
            if r is Err {
                (s, r)
            } else {
                s.emit_bytes(bytes.drop_first())
            }
        }
    }

    /// `add R, N`.
    pub open spec fn gen_add(self) -> Step<()> {
        self.gen_reg_imm8(|r: Reg| InstructionKind::Add(r))
    }

    /// `and R, N`.
    pub open spec fn gen_and(self) -> Step<()> {
        self.gen_reg_imm8(|r: Reg| InstructionKind::And(r))
    }

    /// `sub R, N`.
    pub open spec fn gen_sub(self) -> Step<()> {
        self.gen_reg_imm8(|r: Reg| InstructionKind::Sub(r))
    }

    /// `cmp R, N` / `cmp RR, NN`, for any register but `sp`.
    pub open spec fn gen_cmp(self) -> Step<()> {
        let (s1, r1) = self.expect_reg();
        match r1 {
            Err(e) => (s1, Err(e)),
            Ok(reg) => if reg == Reg::SP {
                (s1, Err(AsmError::Expected(Expected::RegisterNotSp)))
            } else {
                let (s2, r2) = s1.expect(TokenView::Comma);
                if r2 is Err {
                    (s2, r2)
                } else {
                    let (s3, r3) = s2.emit_op(InstructionKind::Cmp(reg));
                    if r3 is Err {
                        (s3, r3)
                    } else {
                        let (s4, r4) = s3.expect_op_for_reg(reg);
                        match r4 {
                            Err(e) => (s4, Err(e)),
                            Ok(bytes) => s4.emit_bytes(bytes),
                        }
                    }
                }
            },
        }
    }

    /// A branch of kind `kind`, then its displacement.
    pub open spec fn gen_branch(self, kind: InstructionKind) -> Step<()> {
        let (s1, r1) = self.expect_displacement();
        match r1 {
            Err(e) => (s1, Err(e)),
            Ok(dis) => s1.emit_op_byte(kind, dis),
        }
    }

    /// `call` / `jmp` (per `kind`) to a label or an address.
    pub open spec fn gen_far(self, kind: InstructionKind) -> Step<()> {
        let (s1, r1) = self.next();
        match r1 {
            Err(e) => (s1, Err(e)),
            Ok(TokenView::Identifier(label)) => match s1.resolve(label) {
                Err(e) => (s1, Err(e)),
                Ok(addr) => s1.emit_op_word(kind, addr),
            },
            Ok(TokenView::WordLiteral(addr)) => s1.emit_op_word(kind, addr),
            Ok(_) => (s1, Err(AsmError::Expected(Expected::LabelOrAddress))),
        }
    }

    /// The characters of a string literal as ASCII bytes, stopping at the first
    /// character that is not ASCII.
    pub open spec fn emit_string(self, text: Seq<char>) -> Step<()>
        decreases text.len(),
    {
        if text.len() == 0 {
            (self, Ok(()))
        } else if (text[0] as u32) < 128 {
            let (s, r) = self.emit_byte(text[0] as u8);
            if r is Err {
                (s, r)
            } else {
                s.emit_string(text.drop_first())
            }
        } else {
            (self, Err(AsmError::NonAscii(text[0])))
        }
    }

    /// `data`: bytes and strings, separated by commas if you like, up to and including
    /// the end of the line, which is counted as a line.
    pub open spec fn gen_data(self) -> Step<()>
        decreases self.tokens.len() - self.cursor,
    {
        if 0 <= self.cursor < self.tokens.len() {
            let s = self.advance();
            match self.tokens[self.cursor] {
                TokenView::ByteLiteral(b) => {
                    let (s2, r2) = s.emit_byte(b);
                    if r2 is Err {
                        (s2, r2)
                    } else if s2.cursor == s.cursor && s2.tokens == s.tokens {
                        s2.gen_data()
                    } else {
                        (s2, r2)
                    }
                },
                TokenView::Comma => s.gen_data(),
                TokenView::StringLiteral(text) => {
                    let (s2, r2) = s.emit_string(text);
                    if r2 is Err {
                        (s2, r2)
                    } else if s2.cursor == s.cursor && s2.tokens == s.tokens {
                        s2.gen_data()
                    } else {
                        (s2, r2)
                    }
                },
                TokenView::Newline => if s.line + 1 > usize::MAX {
                    (s, Err(AsmError::LineOverflow))
                } else {
                    (AsmView { line: s.line + 1, ..s }, Ok(()))
                },
                _ => (s, Err(AsmError::Expected(Expected::ImmediateByte))),
            }
        } else {
            (self, Err(AsmError::UnexpectedEnd))
        }
    }

    /// `inc`/`dec` (per `reg_kind`, `indirect_kind`, `mem_kind`): a register, `(RR)` or
    /// `(NN)`.
    pub open spec fn gen_inc_dec(
        self,
        reg_kind: spec_fn(Reg) -> InstructionKind,
        indirect_kind: InstructionKind,
        mem_kind: InstructionKind,
    ) -> Step<()> {
        let (s1, r1) = self.next();
        match r1 {
            Err(e) => (s1, Err(e)),
            Ok(TokenView::ParenOpen) => {
                let (s2, r2) = s1.next();
                match r2 {
                    Err(e) => (s2, Err(e)),
                    Ok(TokenView::Register(source)) if reg_is16(source) => {
                        let (s3, r3) = s2.expect(TokenView::ParenClose);
                        if r3 is Err {
                            (s3, r3)
                        } else {
                            s3.emit_op_byte(indirect_kind, spec_u8_from(source, Reg::A))
                        }
                    },
                    Ok(TokenView::WordLiteral(addr)) => {
                        let (s3, r3) = s2.expect(TokenView::ParenClose);
                        if r3 is Err {
                            (s3, r3)
                        } else {
                            s3.emit_op_word(mem_kind, addr)
                        }
                    },
                    Ok(_) => (s2, Err(AsmError::Expected(Expected::Register16OrAddress))),
                }
            },
            Ok(TokenView::Register(reg)) => s1.emit_op(reg_kind(reg)),
            Ok(_) => (s1, Err(AsmError::Expected(Expected::RegisterOrIndirect))),
        }
    }

    /// `dec R`, `dec (RR)`, `dec (NN)`.
    pub open spec fn gen_dec(self) -> Step<()> {
        self.gen_inc_dec(
            |r: Reg| InstructionKind::Dec(r),
            InstructionKind::DecIndirect,
            InstructionKind::DecMem,
        )
    }

    /// `inc R`, `inc (RR)`, `inc (NN)`.
    pub open spec fn gen_inc(self) -> Step<()> {
        self.gen_inc_dec(
            |r: Reg| InstructionKind::Inc(r),
            InstructionKind::IncIndirect,
            InstructionKind::IncMem,
        )
    }

    /// `ld R, N` (with the byte already read).
    pub open spec fn gen_ld_reg_imm8(self, target: Reg, byte: u8) -> Step<()> {
        if reg_is16(target) {
            (self, Err(AsmError::Expected(Expected::ImmediateWord)))
        } else {
            self.emit_op_byte(InstructionKind::LdRegImm(target), byte)
        }
    }

    /// `ld RR, NN` (with the word already read).
    pub open spec fn gen_ld_reg_imm16(self, target: Reg, word: u16) -> Step<()> {
        if !reg_is16(target) {
            (self, Err(AsmError::Expected(Expected::ImmediateByte)))
        } else {
            self.emit_op_word(InstructionKind::LdRegImm(target), word)
        }
    }

    /// `ld RR, LABEL` (with the label already read).
    pub open spec fn gen_ld_reg_imm_label(self, target: Reg, label: Seq<char>) -> Step<()> {
        if !reg_is16(target) {
            (self, Err(AsmError::Expected(Expected::ImmediateByte)))
        } else {
            let (s1, r1) = self.emit_op(InstructionKind::LdRegImm(target));
            if r1 is Err {
                (s1, r1)
            } else {
                match s1.resolve(label) {
                    Err(e) => (s1, Err(e)),
                    Ok(addr) => s1.emit_word(addr),
                }
            }
        }
    }

    /// `ld R, (RR)` (after the opening parenthesis).
    pub open spec fn gen_ld_reg_indirect(self, target: Reg) -> Step<()> {
        if reg_is16(target) {
            (self, Err(AsmError::Expected(Expected::Register8)))
        } else {
            let (s1, r1) = self.emit_op(InstructionKind::LdRegIndirect);
            if r1 is Err {
                (s1, r1)
            } else {
                let (s2, r2) = s1.expect_reg16();
                match r2 {
                    Err(e) => (s2, Err(e)),
                    Ok(source) => {
                        let (s3, r3) = s2.expect(TokenView::ParenClose);
                        if r3 is Err {
                            (s3, r3)
                        } else {
                            s3.emit_byte(spec_u8_from(source, target))
                        }
                    },
                }
            }
        }
    }

    /// `ld R, R` (with both registers already read).
    pub open spec fn gen_ld_reg_reg(self, source: Reg, target: Reg) -> Step<()> {
        if reg_is16(source) != reg_is16(target) {
            (self, Err(AsmError::Expected(Expected::SameSizeRegister)))
        } else {
            self.emit_op_byte(InstructionKind::LdRegReg, spec_u8_from(source, target))
        }
    }

    /// `ld R, ...` (after the target register).
    pub open spec fn gen_ld_reg(self, target: Reg) -> Step<()> {
        let (s1, r1) = self.expect(TokenView::Comma);
        if r1 is Err {
            (s1, r1)
        } else {
            let (s2, r2) = s1.next();
            match r2 {
                Err(e) => (s2, Err(e)),
                Ok(TokenView::ByteLiteral(b)) => s2.gen_ld_reg_imm8(target, b),
                Ok(TokenView::Identifier(label)) => s2.gen_ld_reg_imm_label(target, label),
                Ok(TokenView::ParenOpen) => s2.gen_ld_reg_indirect(target),
                Ok(TokenView::Register(source)) => s2.gen_ld_reg_reg(source, target),
                Ok(TokenView::WordLiteral(w)) => s2.gen_ld_reg_imm16(target, w),
                Ok(_) => (s2, Err(AsmError::UnexpectedToken)),
            }
        }
    }

    /// `ld NN, R` (after the address).
    pub open spec fn gen_store_direct(self, addr: u16) -> Step<()> {
        let (s1, r1) = self.expect(TokenView::Comma);
        if r1 is Err {
            (s1, r1)
        } else {
            let (s2, r2) = s1.expect_reg8();
            match r2 {
                Err(e) => (s2, Err(e)),
                Ok(reg) => s2.emit_op_word(InstructionKind::StoreRegDirect(reg), addr),
            }
        }
    }

    /// `ld (RR), R` (after the opening parenthesis).
    pub open spec fn gen_store_indirect(self) -> Step<()> {
        let (s1, r1) = self.expect_reg16();
        match r1 {
            Err(e) => (s1, Err(e)),
            Ok(target) => {
                let (s2, r2) = s1.expect(TokenView::ParenClose);
                if r2 is Err {
                    (s2, r2)
                } else {
                    let (s3, r3) = s2.expect(TokenView::Comma);
                    if r3 is Err {
                        (s3, r3)
                    } else {
                        let (s4, r4) = s3.expect_reg8();
                        match r4 {
                            Err(e) => (s4, Err(e)),
                            Ok(source) => s4.emit_op_byte(
                                InstructionKind::StoreRegIndirect,
                                spec_u8_from(source, target),
                            ),
                        }
                    }
                }
            },
        }
    }

    /// `ld` in all its forms.
    pub open spec fn gen_ld(self) -> Step<()> {
        let (s1, r1) = self.next();
        match r1 {
            Err(e) => (s1, Err(e)),
            Ok(TokenView::ParenOpen) => s1.gen_store_indirect(),
            Ok(TokenView::Register(target)) => s1.gen_ld_reg(target),
            Ok(TokenView::WordLiteral(addr)) => s1.gen_store_direct(addr),
            Ok(_) => (s1, Err(AsmError::Expected(Expected::Register))),
        }
    }

    /// `lsr R, S`.
    pub open spec fn gen_lsr(self) -> Step<()> {
        let (s1, r1) = self.expect_reg8();
        match r1 {
            Err(e) => (s1, Err(e)),
            Ok(target) => {
                let (s2, r2) = s1.emit_op(InstructionKind::Lsr(target));
                if r2 is Err {
                    (s2, r2)
                } else {
                    let (s3, r3) = s2.expect(TokenView::Comma);
                    if r3 is Err {
                        (s3, r3)
                    } else {
                        let (s4, r4) = s3.next();
                        match r4 {
                            Err(e) => (s4, Err(e)),
                            Ok(TokenView::ByteLiteral(shift)) => s4.emit_byte(shift),
                            Ok(_) => (s4, Err(AsmError::Expected(Expected::ShiftCount))),
                        }
                    }
                }
            },
        }
    }

    /// `push R` / `pop R` (per `kind`), for any register but `sp`.
    pub open spec fn gen_stack(self, kind: spec_fn(Reg) -> InstructionKind) -> Step<()> {
        let (s1, r1) = self.expect_reg();
        match r1 {
            Err(e) => (s1, Err(e)),
            Ok(reg) => if reg == Reg::SP {
                (s1, Err(AsmError::Expected(Expected::RegisterNotSp)))
            } else {
                s1.emit_op(kind(reg))
            },
        }
    }

    /// `trap T`, for a trap code up to 0x3F.
    pub open spec fn gen_trap(self) -> Step<()> {
        let (s1, r1) = self.next();
        match r1 {
            Err(e) => (s1, Err(e)),
            Ok(TokenView::ByteLiteral(code)) => if code <= 0x3F {
                s1.emit_op_byte(InstructionKind::Trap, code)
            } else {
                (s1, Err(AsmError::InvalidTrapCode(code)))
            },
            Ok(_) => (s1, Err(AsmError::Expected(Expected::TrapCode))),
        }
    }

    /// `org NN`: set the location counter; once code has been generated, the address may
    /// not go backwards, and the gap is filled with zeroes.
    pub open spec fn org(self) -> Step<()> {
        let (s1, r1) = self.next();
        match r1 {
            Err(e) => (s1, Err(e)),
            Ok(TokenView::WordLiteral(addr)) => if s1.code.len() != 0 {
                if addr < s1.loc {
                    (s1, Err(AsmError::InvalidOrg(addr)))
                } else {
                    (
                        AsmView {
                            code: s1.code + Seq::new((addr - s1.loc) as nat, |i: int| 0u8),
                            loc: addr,
                            ..s1
                        },
                        Ok(()),
                    )
                }
            } else {
                (AsmView { loc: addr, ..s1 }, Ok(()))
            },
            Ok(_) => (s1, Err(AsmError::Expected(Expected::Address))),
        }
    }

    /// The statement that keyword `kw` starts.
    pub open spec fn assemble_kw(self, kw: Seq<char>) -> Step<()> {
        if kw == "add"@ {
            self.gen_add()
        } else if kw == "and"@ {
            self.gen_and()
        } else if kw == "bcc"@ {
            self.gen_branch(InstructionKind::BranchCc)
        } else if kw == "bcs"@ {
            self.gen_branch(InstructionKind::BranchCs)
        } else if kw == "beq"@ {
            self.gen_branch(InstructionKind::BranchEq)
        } else if kw == "bne"@ {
            self.gen_branch(InstructionKind::BranchNe)
        } else if kw == "bra"@ {
            self.gen_branch(InstructionKind::BranchAlways)
        } else if kw == "call"@ {
            self.gen_far(InstructionKind::Call)
        } else if kw == "clc"@ {
            self.emit_op(InstructionKind::Clc)
        } else if kw == "cmp"@ {
            self.gen_cmp()
        } else if kw == "data"@ {
            self.gen_data()
        } else if kw == "dec"@ {
            self.gen_dec()
        } else if kw == "halt"@ {
            self.emit_op(InstructionKind::Halt)
        } else if kw == "inc"@ {
            self.gen_inc()
        } else if kw == "jmp"@ {
            self.gen_far(InstructionKind::Jmp)
        } else if kw == "ld"@ {
            self.gen_ld()
        } else if kw == "lsr"@ {
            self.gen_lsr()
        } else if kw == "nop"@ {
            self.emit_op(InstructionKind::Nop)
        } else if kw == "org"@ {
            self.org()
        } else if kw == "pop"@ {
            self.gen_stack(|r: Reg| InstructionKind::Pop(r))
        } else if kw == "push"@ {
            self.gen_stack(|r: Reg| InstructionKind::Push(r))
        } else if kw == "ret"@ {
            self.emit_op(InstructionKind::Ret)
        } else if kw == "rti"@ {
            self.emit_op(InstructionKind::Rti)
        } else if kw == "sec"@ {
            self.emit_op(InstructionKind::Sec)
        } else if kw == "sub"@ {
            self.gen_sub()
        } else {
            self.gen_trap()
        }
    }
}

/// A branch to a label lands on the label: on the second pass, the displacement that the
/// assembler computes for a defined label, added (sign-extended) to the address after
/// the two-byte branch, is the label's address.
pub proof fn lemma_branch_reaches_label(s: AsmView, label: Seq<char>, addr: u16)
    requires
        s.pass2,
        0 <= s.cursor < s.tokens.len(),
        s.tokens[s.cursor] == TokenView::Identifier(label),
        lookup(s.labels, label) == Some(addr),
        s.expect_displacement().1 is Ok,
    ensures
        wrap16(s.loc + 2 + sign_extend(s.expect_displacement().1->Ok_0)) == addr,
{
    let long_dis = ((addr - s.loc - 2 + 2 * 65536) % 65536) as u16;
    assert(long_dis == (addr - s.loc - 2 + 2 * 65536) % 65536);
}

/// On the second pass, `ld RR, LABEL` for a defined label emits the opcode and then the
/// label's address, low byte first, and moves the location past the three bytes.
pub proof fn lemma_ld_label_emits_address(s: AsmView, target: Reg, label: Seq<char>, addr: u16)
    requires
        s.pass2,
        reg_is16(target),
        lookup(s.labels, label) == Some(addr),
        1 <= s.loc,
        s.loc + 3 <= 0xFFFF,
    ensures
        ({
            let (t, r) = s.gen_ld_reg_imm_label(target, label);
            &&& r is Ok
            &&& t.code == s.code + seq![opcode(InstructionKind::LdRegImm(target)), lo(addr), hi(addr)]
            &&& t.loc == s.loc + 3
            &&& t.cursor == s.cursor
        }),
{
    let (t, r) = s.gen_ld_reg_imm_label(target, label);
    assert(t.code =~= s.code + seq![opcode(InstructionKind::LdRegImm(target)), lo(addr), hi(addr)]);
}

/// On the second pass, `call LABEL` and `jmp LABEL` for a defined label emit the opcode
/// and then the label's address, low byte first, and move the location past the three
/// bytes.
pub proof fn lemma_far_label_emits_address(s: AsmView, kind: InstructionKind, label: Seq<char>, addr: u16)
    requires
        s.pass2,
        kind is Call || kind is Jmp,
        0 <= s.cursor < s.tokens.len(),
        s.tokens[s.cursor] == TokenView::Identifier(label),
        lookup(s.labels, label) == Some(addr),
        1 <= s.loc,
        s.loc + 3 <= 0xFFFF,
    ensures
        ({
            let (t, r) = s.gen_far(kind);
            &&& r is Ok
            &&& t.code == s.code + seq![opcode(kind), lo(addr), hi(addr)]
            &&& t.loc == s.loc + 3
            &&& t.cursor == s.cursor + 1
        }),
{
    let (t, r) = s.gen_far(kind);
    assert(t.code =~= s.code + seq![opcode(kind), lo(addr), hi(addr)]);
}

/// `trap N` emits the trap opcode and the code when the code is at most 0x3F, and is
/// refused with the code otherwise.
pub proof fn lemma_trap_code_checked(s: AsmView, code: u8)
    requires
        0 <= s.cursor < s.tokens.len(),
        s.tokens[s.cursor] == TokenView::ByteLiteral(code),
        1 <= s.loc,
        s.loc + 2 <= 0xFFFF,
    ensures
        code <= 0x3F ==> s.gen_trap().1 is Ok && s.gen_trap().0.code == s.code + seq![
            opcode(InstructionKind::Trap),
            code,
        ],
        code > 0x3F ==> s.gen_trap().1 == Err::<(), AsmError>(AsmError::InvalidTrapCode(code)),
{
    assert(s.gen_trap().0.code =~= s.code + seq![opcode(InstructionKind::Trap), code]
        || code > 0x3F);
}

/// `org NN` after some code moves the location to NN, filling the gap with zero bytes
/// and keeping the code before it; an address below the location is refused.
pub proof fn lemma_org_fills_with_zeroes(s: AsmView, addr: u16)
    requires
        0 <= s.cursor < s.tokens.len(),
        s.tokens[s.cursor] == TokenView::WordLiteral(addr),
        s.code.len() > 0,
    ensures
        addr >= s.loc ==> {
            let t = s.org().0;
            &&& s.org().1 is Ok
            &&& t.loc == addr
            &&& t.code.len() == s.code.len() + (addr - s.loc)
            &&& t.code.subrange(0, s.code.len() as int) == s.code
            &&& forall|i: int| s.code.len() <= i < t.code.len() ==> #[trigger] t.code[i] == 0
        },
        addr < s.loc ==> s.org().1 == Err::<(), AsmError>(AsmError::InvalidOrg(addr)),
{
    if addr >= s.loc {
        let t = s.org().0;
        assert(t.code.subrange(0, s.code.len() as int) =~= s.code);
    }
}

/// The bytes of an ASCII string, in order.
pub open spec fn ascii_bytes(text: Seq<char>) -> Seq<u8> {
    text.map_values(|c: char| c as u8)
}

/// An ASCII string emits its characters as bytes, in order, moving the location past
/// them.
pub proof fn lemma_string_emits_ascii(s: AsmView, text: Seq<char>)
    requires
        forall|i: int| 0 <= i < text.len() ==> (#[trigger] text[i] as u32) < 128,
        1 <= s.loc,
        s.loc + text.len() <= 0xFFFF,
    ensures
        s.emit_string(text).1 is Ok,
        s.emit_string(text).0.code == s.code + ascii_bytes(text),
        s.emit_string(text).0.loc == s.loc + text.len(),
        s.emit_string(text).0.cursor == s.cursor,
    decreases text.len(),
{
    if text.len() > 0 {
        let t = s.emit_byte(text[0] as u8).0;
        let rest = text.drop_first();
        assert forall|i: int| 0 <= i < rest.len() implies (#[trigger] rest[i] as u32) < 128 by {
            assert(rest[i] == text[i + 1]);
        }
        lemma_string_emits_ascii(t, rest);
        assert(s.code + ascii_bytes(text) =~= t.code + ascii_bytes(rest));
    } else {
        assert(s.code + ascii_bytes(text) =~= s.code);
    }
}

/// The values of the byte literals among `items`, in order.
pub open spec fn literal_bytes(items: Seq<TokenView>) -> Seq<u8>
    decreases items.len(),
{
    if items.len() == 0 {
        Seq::empty()
    } else {
        match items[0] {
            TokenView::ByteLiteral(b) => seq![b] + literal_bytes(items.drop_first()),
            _ => literal_bytes(items.drop_first()),
        }
    }
}

/// A `data` line of byte literals (with or without commas between them) emits exactly
/// those bytes, in order, and counts its line.
pub proof fn lemma_data_emits_bytes(s: AsmView, items: Seq<TokenView>, bytes: Seq<u8>)
    requires
        0 <= s.cursor,
        s.cursor + items.len() < s.tokens.len(),
        forall|i: int| 0 <= i < items.len() ==> #[trigger] s.tokens[s.cursor + i] == items[i],
        s.tokens[s.cursor + items.len()] == TokenView::Newline,
        forall|i: int|
            0 <= i < items.len() ==> (#[trigger] items[i] is Comma || items[i] is ByteLiteral),
        bytes == literal_bytes(items),
        1 <= s.loc,
        s.loc + items.len() <= 0xFFFF,
        s.line + 1 <= usize::MAX,
    ensures
        s.gen_data().1 is Ok,
        s.gen_data().0.code == s.code + bytes,
        s.gen_data().0.line == s.line + 1,
        s.gen_data().0.cursor == s.cursor + items.len() + 1,
    decreases items.len(),
{
    if items.len() == 0 {
        assert(s.code + bytes =~= s.code);
    } else {
        let rest = items.drop_first();
        let a = s.advance();
        assert forall|i: int| 0 <= i < rest.len() implies #[trigger] a.tokens[a.cursor + i]
            == rest[i] by {
            assert(s.tokens[s.cursor + (i + 1)] == items[i + 1]);
        }
        assert forall|i: int| 0 <= i < rest.len() implies (#[trigger] rest[i] is Comma
            || rest[i] is ByteLiteral) by {
            assert(rest[i] == items[i + 1]);
        }
        assert(s.tokens[s.cursor + 0] == items[0]);
        assert(a.tokens[a.cursor + rest.len()] == TokenView::Newline);
        if let TokenView::ByteLiteral(b) = items[0] {
            let t = a.emit_byte(b).0;
            lemma_data_emits_bytes(t, rest, literal_bytes(rest));
            assert(s.code + bytes =~= t.code + literal_bytes(rest));
        } else {
            lemma_data_emits_bytes(a, rest, literal_bytes(rest));
        }
    }
}

/// The first byte of code that state `after` has beyond state `before`.
pub open spec fn first_added(before: AsmView, after: AsmView) -> u8 {
    after.code[before.code.len() as int]
}

/// `push`, `pop` and `cmp` only emit opcodes that the CPU decodes: when the statement
/// succeeds, the opcode it added to the code decodes back to a push, pop or compare of
/// the register named (which is never `sp`).
pub proof fn lemma_stack_and_compare_decode(s: AsmView)
    ensures
        ({
            let (p, r) = s.gen_stack(|r: Reg| InstructionKind::Push(r));
            r is Ok ==> exists|reg: Reg|
                reg != Reg::SP && decode(#[trigger] first_added(s, p)) == Some(
                    InstructionKind::Push(reg),
                )
        }),
        ({
            let (p, r) = s.gen_stack(|r: Reg| InstructionKind::Pop(r));
            r is Ok ==> exists|reg: Reg|
                reg != Reg::SP && decode(#[trigger] first_added(s, p)) == Some(
                    InstructionKind::Pop(reg),
                )
        }),
        ({
            let (p, r) = s.gen_cmp();
            r is Ok ==> exists|reg: Reg|
                reg != Reg::SP && decode(#[trigger] first_added(s, p)) == Some(
                    InstructionKind::Cmp(reg),
                )
        }),
{
    let (s1, r1) = s.expect_reg();
    if let Ok(reg) = r1 {
        if reg != Reg::SP {
            lemma_decode_opcode(InstructionKind::Push(reg));
            lemma_decode_opcode(InstructionKind::Pop(reg));
            lemma_decode_opcode(InstructionKind::Cmp(reg));
            let (s2, r2) = s1.expect(TokenView::Comma);
            let (s3, r3) = s2.emit_op(InstructionKind::Cmp(reg));
            let (s4, r4) = s3.expect_op_for_reg(reg);
            if r3 is Ok && r4 is Ok {
                lemma_emit_bytes_keeps_prefix(s4, r4->Ok_0);
            }
        }
    }
}

/// Adding bytes to the code keeps what was there.
pub proof fn lemma_emit_bytes_keeps_prefix(s: AsmView, bytes: Seq<u8>)
    ensures
        s.emit_bytes(bytes).0.code.len() >= s.code.len(),
        forall|i: int| 0 <= i < s.code.len() ==> #[trigger] s.emit_bytes(bytes).0.code[i] == s.code[i],
    decreases bytes.len(),
{
    if bytes.len() > 0 {
        let t = s.emit_byte(bytes[0]).0;
        lemma_emit_bytes_keeps_prefix(t, bytes.drop_first());
    }
}

/// What an `expect` of token `t` reports when it finds something else.
pub open spec fn expected_kind(t: TokenView) -> Expected {
    match t {
        TokenView::Comma => Expected::Comma,
        TokenView::ParenClose => Expected::ParenClose,
        _ => Expected::Token,
    }
}

impl AsmView {
    /// An assembly pass over the rest of the tokens: comments and newlines count lines,
    /// keywords start statements, label definitions record the current location; any
    /// other token is an error. The pass ends at the end of the tokens.
    pub open spec fn pass(self) -> Step<()>
        decreases self.tokens.len() - self.cursor,
    {
        if 0 <= self.cursor < self.tokens.len() {
            let s = self.advance();
            match self.tokens[self.cursor] {
                TokenView::Comment(_) | TokenView::Newline => if s.line + 1 > usize::MAX {
                    (s, Err(AsmError::LineOverflow))
                } else {
                    AsmView { line: s.line + 1, ..s }.pass()
                },
                TokenView::Keyword(kw) => {
                    let (s2, r2) = s.assemble_kw(kw);
                    if r2 is Err {
                        (s2, r2)
                    } else if s.cursor <= s2.cursor <= s2.tokens.len() && s2.tokens == s.tokens {
                        s2.pass()
                    } else {
                        (s2, r2)
                    }
                },
                TokenView::LabelDef(label) => AsmView {
                    labels: s.labels.push((label, s.loc)),
                    ..s
                }.pass(),
                _ => (s, Err(AsmError::UnexpectedToken)),
            }
        } else {
            (self, Ok(()))
        }
    }

    /// The state at the start of the second pass: code, cursor, line and location reset,
    /// labels kept from the first pass.
    pub open spec fn second_pass_start(self) -> AsmView {
        AsmView { code: Seq::empty(), pass2: true, cursor: 0, line: 1, loc: BASE, ..self }
    }

    /// Two-pass assembly: the first pass collects the labels, the second generates the
    /// code with every label known. An error carries the line it was found on.
    pub open spec fn assemble(self) -> (AsmView, Result<Seq<u8>, AssemblyError>) {
        let (s1, r1) = self.pass();
        match r1 {
            Err(e) => (s1, Err(AssemblyError { kind: e, line: s1.line as usize })),
            Ok(()) => {
                let (s2, r2) = s1.second_pass_start().pass();
                match r2 {
                    Err(e) => (s2, Err(AssemblyError { kind: e, line: s2.line as usize })),
                    Ok(()) => (s2, Ok(s2.code)),
                }
            },
        }
    }

    /// A fresh assembler over `tokens`.
    pub open spec fn initial(tokens: Seq<TokenView>) -> AsmView {
        AsmView {
            code: Seq::empty(),
            cursor: 0,
            labels: Seq::empty(),
            line: 1,
            loc: BASE,
            pass2: false,
            tokens,
        }
    }
}

/// A failed assembly: what went wrong, and on which line.
#[derive(Clone, Copy, Debug, PartialEq, Eq, Structural)]
pub struct AssemblyError {
    /// What went wrong.
    pub kind: AsmError,
    /// The line counter when it went wrong.
    pub line: usize,
}

} // verus!
