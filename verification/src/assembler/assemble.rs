//! The two-pass assembler.
use vstd::prelude::*;

use crate::assembler::spec::{
    hi, keywords_valid, lemma_tokens_keywords_valid, lo, lookup, progressed, AsmError, AsmView, AssemblyError, Expected, BASE,
};
use crate::assembler::token::{Token, TokenView};
use crate::assembler::tokenizer::{
    is_keyword, skip_spaces, spec_tokenize, tokenize, tokenize_with_debug, tokens_view,
};
use crate::instructions::InstructionKind;
use crate::regs::{u8_from, Reg};
use crate::text::{chars_of, eq_chars_str, string_from};

verus! {

/// The views of a label table.
pub open spec fn labels_view(v: Seq<(String, u16)>) -> Seq<(Seq<char>, u16)> {
    v.map_values(|p: (String, u16)| (p.0@, p.1))
}

/// The view of a token result.
pub open spec fn token_result(r: Result<Token, AsmError>) -> Result<TokenView, AsmError> {
    match r {
        Ok(t) => Ok(t@),
        Err(e) => Err(e),
    }
}

/// The view of a byte-vector result.
pub open spec fn bytes_result(r: Result<Vec<u8>, AsmError>) -> Result<Seq<u8>, AsmError> {
    match r {
        Ok(v) => Ok(v@),
        Err(e) => Err(e),
    }
}

/// Assembles a given source program.
pub struct Assembler {
    /// Generated object code.
    pub code: Vec<u8>,
    /// Next token to assemble.
    pub cursor: usize,
    /// Enables verbose debugging.
    pub debug: bool,
    /// Label table: each definition in order; the latest definition of a name counts.
    pub labels: Vec<(String, u16)>,
    /// Line counter.
    pub line: usize,
    /// Location counter.
    pub loc: u16,
    /// Are we on the second pass?
    pub pass2: bool,
    /// Path to source file.
    pub path: String,
    /// Tokens to assemble.
    pub tokens: Vec<Token>,
}

impl View for Assembler {
    type V = AsmView;

    open spec fn view(&self) -> AsmView {
        AsmView {
            code: self.code@,
            cursor: self.cursor as int,
            labels: labels_view(self.labels@),
            line: self.line as int,
            loc: self.loc,
            pass2: self.pass2,
            tokens: tokens_view(self.tokens@),
        }
    }
}

impl Assembler {
    /// A fresh assembler over `tokens`, at the default base address.
    pub fn new(tokens: Vec<Token>) -> (a: Assembler)
        ensures
            a@ == AsmView::initial(tokens_view(tokens@)),
            !a.debug,
            a.path@ == "input"@,
    {
        let a = Assembler {
            code: Vec::new(),
            cursor: 0,
            debug: false,
            labels: Vec::new(),
            line: 1,
            loc: BASE,
            pass2: false,
            path: string_from("input"),
            tokens,
        };
        assert(a@.labels =~= Seq::<(Seq<char>, u16)>::empty());
        a
    }

    /// Scans and returns the next token from the source code.
    ///
    /// # Errors
    ///
    /// * Unexpected end of input.
    pub fn next_token(&mut self) -> (r: Result<Token, AsmError>)
        ensures
            (final(self)@, token_result(r)) == old(self)@.next(),
            final(self).path == old(self).path,
            final(self).debug == old(self).debug,
            progressed(old(self)@, final(self)@),
    {
        if self.cursor < self.tokens.len() {
            let token = self.tokens[self.cursor].clone();
            self.cursor = self.cursor + 1;
            Ok(token)
        } else {
            Err(AsmError::UnexpectedEnd)
        }
    }

    /// Adds `byte` to the generated code, updating the location counter.
    ///
    /// # Errors
    ///
    /// * Code too big for (target system) memory.
    pub fn emit_byte(&mut self, byte: u8) -> (r: Result<(), AsmError>)
        ensures
            (final(self)@, r) == old(self)@.emit_byte(byte),
            final(self).path == old(self).path,
            final(self).debug == old(self).debug,
            progressed(old(self)@, final(self)@),
    {
        self.code.push(byte);
        self.loc = self.loc.wrapping_add(1);
        if self.loc == 1 && self.code.len() > 1 {
            // We must have wrapped around past the end of memory
            return Err(AsmError::CodeTooBig);
        }
        Ok(())
    }

    /// Adds `word` to the generated code in little-endian order, updating the location
    /// counter.
    ///
    /// # Errors
    ///
    /// * Code too big for (target system) memory.
    pub fn emit_word(&mut self, word: u16) -> (r: Result<(), AsmError>)
        ensures
            (final(self)@, r) == old(self)@.emit_word(word),
            final(self).path == old(self).path,
            final(self).debug == old(self).debug,
            progressed(old(self)@, final(self)@),
    {
        self.emit_byte((word % 256) as u8)?;
        self.emit_byte((word / 256) as u8)
    }

    /// Adds the opcode of `ins` to the generated code.
    fn emit_op(&mut self, ins: InstructionKind) -> (r: Result<(), AsmError>)
        ensures
            (final(self)@, r) == old(self)@.emit_op(ins),
            final(self).path == old(self).path,
            final(self).debug == old(self).debug,
            progressed(old(self)@, final(self)@),
    {
        self.emit_byte(ins.opcode())
    }

    /// Adds the opcode of `ins` and then `byte` to the generated code.
    fn emit_op_byte(&mut self, ins: InstructionKind, byte: u8) -> (r: Result<(), AsmError>)
        ensures
            (final(self)@, r) == old(self)@.emit_op_byte(ins, byte),
            final(self).path == old(self).path,
            final(self).debug == old(self).debug,
            progressed(old(self)@, final(self)@),
    {
        self.emit_op(ins)?;
        self.emit_byte(byte)
    }

    /// Adds the opcode of `ins` and then `word` to the generated code.
    fn emit_op_word(&mut self, ins: InstructionKind, word: u16) -> (r: Result<(), AsmError>)
        ensures
            (final(self)@, r) == old(self)@.emit_op_word(ins, word),
            final(self).path == old(self).path,
            final(self).debug == old(self).debug,
            progressed(old(self)@, final(self)@),
    {
        self.emit_op(ins)?;
        self.emit_word(word)
    }

    /// Adds `bytes` to the generated code in order.
    fn emit_bytes(&mut self, bytes: &Vec<u8>) -> (r: Result<(), AsmError>)
        ensures
            (final(self)@, r) == old(self)@.emit_bytes(bytes@),
            final(self).path == old(self).path,
            final(self).debug == old(self).debug,
            progressed(old(self)@, final(self)@),
    {
        let mut i: usize = 0;
        assert(bytes@.skip(0) =~= bytes@);
        while i < bytes.len()
            invariant
                i <= bytes@.len(),
                old(self)@.emit_bytes(bytes@) == self@.emit_bytes(bytes@.skip(i as int)),
                self.path == old(self).path,
                self.debug == old(self).debug,
                progressed(old(self)@, self@),
            decreases bytes.len() - i,
        {
            proof {
                assert(bytes@.skip(i as int).drop_first() =~= bytes@.skip(i + 1));
            }
            self.emit_byte(bytes[i])?;
            i = i + 1;
        }
        proof {
            assert(bytes@.skip(i as int) =~= Seq::<u8>::empty());
        }
        Ok(())
    }

    /// Consumes the specified token.
    ///
    /// # Errors
    ///
    /// * Next token does not match `expected`.
    pub fn expect(&mut self, expected: &Token) -> (r: Result<(), AsmError>)
        ensures
            (final(self)@, r) == old(self)@.expect(expected@),
            final(self).path == old(self).path,
            final(self).debug == old(self).debug,
            progressed(old(self)@, final(self)@),
    {
        let token = self.next_token()?;
        if !token.same(expected) {
            let kind = match expected {
                Token::Comma => Expected::Comma,
                Token::ParenClose => Expected::ParenClose,
                _ => Expected::Token,
            };
            return Err(AsmError::Expected(kind));
        }
        Ok(())
    }

    /// Returns the value associated with `label`.
    ///
    /// # Errors
    ///
    /// * Undefined label (on pass 2).
    pub fn resolve_label(&self, label: &str) -> (r: Result<u16, AsmError>)
        ensures
            r == self@.resolve(label@),
    {
        let name = string_from(label);
        self.resolve(&name)
    }

    /// Returns the value associated with the label `name`.
    fn resolve(&self, name: &String) -> (r: Result<u16, AsmError>)
        ensures
            r == self@.resolve(name@),
    {
        let ghost labels = self@.labels;
        let mut i = self.labels.len();
        assert(labels.take(i as int) =~= labels);
        while i > 0
            invariant
                i <= labels.len(),
                labels == labels_view(self.labels@),
                lookup(labels, name@) == lookup(labels.take(i as int), name@),
            decreases i,
        {
            proof {
                assert(labels.take(i as int).drop_last() =~= labels.take(i - 1));
            }
            if self.labels[i - 1].0.eq(name) {
                return Ok(self.labels[i - 1].1);
            }
            i = i - 1;
        }
        if self.pass2 {
            Err(AsmError::UndefinedLabel)
        } else {
            Ok(0)
        }
    }

    /// Returns the displacement for the current branch instruction.
    ///
    /// This may be an immediate value or a label reference.
    ///
    /// # Errors
    ///
    /// * Undefined label.
    /// * No displacement.
    /// * Displacement out of range (signed byte).
    pub fn expect_displacement(&mut self) -> (r: Result<u8, AsmError>)
        ensures
            (final(self)@, r) == old(self)@.expect_displacement(),
            final(self).path == old(self).path,
            final(self).debug == old(self).debug,
            progressed(old(self)@, final(self)@),
    {
        match self.next_token()? {
            Token::ByteLiteral(dis) => Ok(dis),
            Token::Identifier(label) => {
                if self.pass2 {
                    let addr = self.resolve(&label)?;
                    // Displacement is calculated relative to the address of the next
                    // instruction (i.e. PC+2)
                    let long_dis = addr.wrapping_sub(self.loc).wrapping_sub(2);
                    // This must fit into a signed byte (-128 <= dis <= +127)
                    if long_dis <= 0x7F || long_dis >= 0xFF80 {
                        Ok((long_dis % 256) as u8)
                    } else {
                        Err(AsmError::DisplacementOutOfRange(long_dis))
                    }
                } else {
                    Ok(0)  // resolve for real on next pass
                }
            },
            _ => Err(AsmError::Expected(Expected::LabelOrDisplacement)),
        }
    }

    /// Returns the operand bytes for an instruction targeting `reg`.
    ///
    /// # Errors
    ///
    /// * Missing or wrong size operand.
    pub fn expect_op_for_reg(&mut self, reg: Reg) -> (r: Result<Vec<u8>, AsmError>)
        ensures
            (final(self)@, bytes_result(r)) == old(self)@.expect_op_for_reg(reg),
            final(self).path == old(self).path,
            final(self).debug == old(self).debug,
            progressed(old(self)@, final(self)@),
    {
        let token = self.next_token()?;
        match token {
            Token::ByteLiteral(operand) if !reg.is16() => {
                let v = vec![operand];
                assert(v@ =~= seq![operand]);
                Ok(v)
            },
            Token::WordLiteral(operand) if reg.is16() => {
                let v = vec![(operand % 256) as u8, (operand / 256) as u8];
                assert(v@ =~= seq![lo(operand), hi(operand)]);
                Ok(v)
            },
            _ => {
                if reg.is16() {
                    Err(AsmError::Expected(Expected::ImmediateWord))
                } else {
                    Err(AsmError::Expected(Expected::ImmediateByte))
                }
            },
        }
    }

    /// Returns the register named by the next token.
    ///
    /// # Errors
    ///
    /// * Next token is not a register name.
    pub fn expect_reg(&mut self) -> (r: Result<Reg, AsmError>)
        ensures
            (final(self)@, r) == old(self)@.expect_reg(),
            final(self).path == old(self).path,
            final(self).debug == old(self).debug,
            progressed(old(self)@, final(self)@),
    {
        match self.next_token()? {
            Token::Register(reg) => Ok(reg),
            _ => Err(AsmError::Expected(Expected::Register)),
        }
    }

    /// Returns the 16-bit register named by the next token.
    ///
    /// # Errors
    ///
    /// * Next token is not a 16-bit register name.
    pub fn expect_reg16(&mut self) -> (r: Result<Reg, AsmError>)
        ensures
            (final(self)@, r) == old(self)@.expect_reg16(),
            final(self).path == old(self).path,
            final(self).debug == old(self).debug,
            progressed(old(self)@, final(self)@),
    {
        match self.next_token()? {
            Token::Register(reg) => if reg.is16() {
                Ok(reg)
            } else {
                Err(AsmError::Expected(Expected::Register16))
            },
            _ => Err(AsmError::Expected(Expected::Register)),
        }
    }

    /// Returns the 8-bit register named by the next token.
    ///
    /// # Errors
    ///
    /// * Next token is not an 8-bit register name.
    pub fn expect_reg8(&mut self) -> (r: Result<Reg, AsmError>)
        ensures
            (final(self)@, r) == old(self)@.expect_reg8(),
            final(self).path == old(self).path,
            final(self).debug == old(self).debug,
            progressed(old(self)@, final(self)@),
    {
        match self.next_token()? {
            Token::Register(reg) => if !reg.is16() {
                Ok(reg)
            } else {
                Err(AsmError::Expected(Expected::Register8))
            },
            _ => Err(AsmError::Expected(Expected::Register)),
        }
    }

    /// Generates an add with carry instruction.
    ///
    /// # Errors
    ///
    /// * Missing register name.
    /// * Missing comma.
    /// * Missing or mis-sized operand.
    pub fn gen_add(&mut self) -> (r: Result<(), AsmError>)
        ensures
            (final(self)@, r) == old(self)@.gen_add(),
            final(self).path == old(self).path,
            final(self).debug == old(self).debug,
            progressed(old(self)@, final(self)@),
    {
        let reg = self.expect_reg8()?;
        self.expect(&Token::Comma)?;
        self.emit_op(InstructionKind::Add(reg))?;
        let op = self.expect_op_for_reg(reg)?;
        self.emit_bytes(&op)
    }

    /// Generates a bitwise immediate and instruction.
    ///
    /// # Errors
    ///
    /// * Missing register name.
    /// * Missing comma.
    /// * Missing or mis-sized operand.
    pub fn gen_and(&mut self) -> (r: Result<(), AsmError>)
        ensures
            (final(self)@, r) == old(self)@.gen_and(),
            final(self).path == old(self).path,
            final(self).debug == old(self).debug,
            progressed(old(self)@, final(self)@),
    {
        let reg = self.expect_reg8()?;
        self.expect(&Token::Comma)?;
        self.emit_op(InstructionKind::And(reg))?;
        let op = self.expect_op_for_reg(reg)?;
        self.emit_bytes(&op)
    }

    /// Generates a subtract with carry instruction.
    ///
    /// # Errors
    ///
    /// * Missing register name.
    /// * Missing comma.
    /// * Missing or mis-sized operand.
    pub fn gen_sub(&mut self) -> (r: Result<(), AsmError>)
        ensures
            (final(self)@, r) == old(self)@.gen_sub(),
            final(self).path == old(self).path,
            final(self).debug == old(self).debug,
            progressed(old(self)@, final(self)@),
    {
        let reg = self.expect_reg8()?;
        self.expect(&Token::Comma)?;
        self.emit_op(InstructionKind::Sub(reg))?;
        let op = self.expect_op_for_reg(reg)?;
        self.emit_bytes(&op)
    }

    /// Generates a compare instruction.
    ///
    /// # Errors
    ///
    /// * Missing register name, or `sp`.
    /// * Missing comma.
    /// * Missing or mis-sized operand.
    pub fn gen_cmp(&mut self) -> (r: Result<(), AsmError>)
        ensures
            (final(self)@, r) == old(self)@.gen_cmp(),
            final(self).path == old(self).path,
            final(self).debug == old(self).debug,
            progressed(old(self)@, final(self)@),
    {
        let reg = self.expect_reg()?;
        if reg == Reg::SP {
            return Err(AsmError::Expected(Expected::RegisterNotSp));
        }
        self.expect(&Token::Comma)?;
        self.emit_op(InstructionKind::Cmp(reg))?;
        let op = self.expect_op_for_reg(reg)?;
        self.emit_bytes(&op)
    }

    /// Generates a branch instruction of kind `kind`.
    ///
    /// # Errors
    ///
    /// * Missing or invalid displacement.
    pub fn gen_branch(&mut self, kind: InstructionKind) -> (r: Result<(), AsmError>)
        ensures
            (final(self)@, r) == old(self)@.gen_branch(kind),
            final(self).path == old(self).path,
            final(self).debug == old(self).debug,
            progressed(old(self)@, final(self)@),
    {
        let dis = self.expect_displacement()?;
        self.emit_op_byte(kind, dis)
    }

    /// Generates a `call` or `jmp` (per `kind`) to a label or address.
    fn gen_far(&mut self, kind: InstructionKind) -> (r: Result<(), AsmError>)
        ensures
            (final(self)@, r) == old(self)@.gen_far(kind),
            final(self).path == old(self).path,
            final(self).debug == old(self).debug,
            progressed(old(self)@, final(self)@),
    {
        let addr = match self.next_token()? {
            Token::Identifier(label) => self.resolve(&label)?,
            Token::WordLiteral(addr) => addr,
            _ => return Err(AsmError::Expected(Expected::LabelOrAddress)),
        };
        self.emit_op_word(kind, addr)
    }

    /// Generates a call instruction.
    ///
    /// # Errors
    ///
    /// * Missing or invalid label or address.
    pub fn gen_call(&mut self) -> (r: Result<(), AsmError>)
        ensures
            (final(self)@, r) == old(self)@.gen_far(InstructionKind::Call),
            final(self).path == old(self).path,
            final(self).debug == old(self).debug,
            progressed(old(self)@, final(self)@),
    {
        self.gen_far(InstructionKind::Call)
    }

    /// Generates a jump instruction.
    ///
    /// # Errors
    ///
    /// * Missing or invalid label or address.
    pub fn gen_jmp(&mut self) -> (r: Result<(), AsmError>)
        ensures
            (final(self)@, r) == old(self)@.gen_far(InstructionKind::Jmp),
            final(self).path == old(self).path,
            final(self).debug == old(self).debug,
            progressed(old(self)@, final(self)@),
    {
        self.gen_far(InstructionKind::Jmp)
    }

    /// Adds the characters of `text` to the generated code as ASCII bytes.
    fn emit_string(&mut self, text: &String) -> (r: Result<(), AsmError>)
        ensures
            (final(self)@, r) == old(self)@.emit_string(text@),
            final(self).path == old(self).path,
            final(self).debug == old(self).debug,
            progressed(old(self)@, final(self)@),
    {
        let chars = chars_of(text.as_str());
        let mut i: usize = 0;
        assert(chars@.skip(0) =~= chars@);
        while i < chars.len()
            invariant
                i <= chars@.len(),
                chars@ == text@,
                old(self)@.emit_string(text@) == self@.emit_string(chars@.skip(i as int)),
                self.path == old(self).path,
                self.debug == old(self).debug,
                progressed(old(self)@, self@),
            decreases chars.len() - i,
        {
            proof {
                assert(chars@.skip(i as int).drop_first() =~= chars@.skip(i + 1));
            }
            let ch = chars[i];
            if (ch as u32) < 128 {
                self.emit_byte(ch as u8)?;
            } else {
                return Err(AsmError::NonAscii(ch));
            }
            i = i + 1;
        }
        proof {
            assert(chars@.skip(i as int) =~= Seq::<char>::empty());
        }
        Ok(())
    }

    /// Generates literal data.
    ///
    /// # Errors
    ///
    /// * Non-ASCII character in string.
    /// * Unexpected token.
    pub fn gen_data(&mut self) -> (r: Result<(), AsmError>)
        ensures
            (final(self)@, r) == old(self)@.gen_data(),
            final(self).path == old(self).path,
            final(self).debug == old(self).debug,
            progressed(old(self)@, final(self)@),
    {
        loop
            invariant_except_break
                old(self)@.gen_data() == self@.gen_data(),
            invariant
                self.path == old(self).path,
                self.debug == old(self).debug,
                progressed(old(self)@, self@),
            ensures
                old(self)@.gen_data() == (self@, Ok::<(), AsmError>(())),
            decreases self@.tokens.len() - self@.cursor,
        {
            let ghost before = self@;
            match self.next_token()? {
                Token::ByteLiteral(byte) => {
                    self.emit_byte(byte)?;
                },
                Token::Comma => {},
                Token::StringLiteral(string) => {
                    proof {
                        lemma_emit_string_keeps_cursor(self@, string@);
                    }
                    self.emit_string(&string)?;
                },
                Token::Newline => {
                    if self.line == usize::MAX {
                        return Err(AsmError::LineOverflow);
                    }
                    self.line = self.line + 1;
                    break;
                },
                _ => return Err(AsmError::Expected(Expected::ImmediateByte)),
            }
        }
        Ok(())
    }
}

impl Assembler {
    /// Generates an increment (`inc`) or decrement instruction: on a register, on
    /// `(RR)` or on `(NN)`.
    fn gen_inc_dec(&mut self, inc: bool) -> (r: Result<(), AsmError>)
        ensures
            (final(self)@, r) == (if inc { old(self)@.gen_inc() } else { old(self)@.gen_dec() }),
            final(self).path == old(self).path,
            final(self).debug == old(self).debug,
            progressed(old(self)@, final(self)@),
    {
        match self.next_token()? {
            Token::ParenOpen => match self.next_token()? {
                Token::Register(source) => {
                    if !source.is16() {
                        return Err(AsmError::Expected(Expected::Register16OrAddress));
                    }
                    self.expect(&Token::ParenClose)?;
                    let kind = if inc {
                        InstructionKind::IncIndirect
                    } else {
                        InstructionKind::DecIndirect
                    };
                    // The target register is not used: A stands in for it.
                    self.emit_op_byte(kind, u8_from(source, Reg::A))
                },
                Token::WordLiteral(addr) => {
                    self.expect(&Token::ParenClose)?;
                    let kind = if inc {
                        InstructionKind::IncMem
                    } else {
                        InstructionKind::DecMem
                    };
                    self.emit_op_word(kind, addr)
                },
                _ => Err(AsmError::Expected(Expected::Register16OrAddress)),
            },
            Token::Register(reg) => {
                let kind = if inc {
                    InstructionKind::Inc(reg)
                } else {
                    InstructionKind::Dec(reg)
                };
                self.emit_op(kind)
            },
            _ => Err(AsmError::Expected(Expected::RegisterOrIndirect)),
        }
    }

    /// Generates a decrement instruction.
    ///
    /// # Errors
    ///
    /// * Missing or invalid register name or address.
    pub fn gen_dec(&mut self) -> (r: Result<(), AsmError>)
        ensures
            (final(self)@, r) == old(self)@.gen_dec(),
            final(self).path == old(self).path,
            final(self).debug == old(self).debug,
            progressed(old(self)@, final(self)@),
    {
        self.gen_inc_dec(false)
    }

    /// Generates an increment instruction.
    ///
    /// # Errors
    ///
    /// * Missing or invalid register name or address.
    pub fn gen_inc(&mut self) -> (r: Result<(), AsmError>)
        ensures
            (final(self)@, r) == old(self)@.gen_inc(),
            final(self).path == old(self).path,
            final(self).debug == old(self).debug,
            progressed(old(self)@, final(self)@),
    {
        self.gen_inc_dec(true)
    }

    /// Generates a load register immediate word instruction.
    ///
    /// # Errors
    ///
    /// * Wrong target register width.
    pub fn gen_ld_reg_imm16(&mut self, target: Reg, word: u16) -> (r: Result<(), AsmError>)
        ensures
            (final(self)@, r) == old(self)@.gen_ld_reg_imm16(target, word),
            final(self).path == old(self).path,
            final(self).debug == old(self).debug,
            progressed(old(self)@, final(self)@),
    {
        if !target.is16() {
            return Err(AsmError::Expected(Expected::ImmediateByte));
        }
        self.emit_op_word(InstructionKind::LdRegImm(target), word)
    }

    /// Generates a load register immediate byte instruction.
    ///
    /// # Errors
    ///
    /// * Wrong target register width.
    pub fn gen_ld_reg_imm8(&mut self, target: Reg, byte: u8) -> (r: Result<(), AsmError>)
        ensures
            (final(self)@, r) == old(self)@.gen_ld_reg_imm8(target, byte),
            final(self).path == old(self).path,
            final(self).debug == old(self).debug,
            progressed(old(self)@, final(self)@),
    {
        if target.is16() {
            return Err(AsmError::Expected(Expected::ImmediateWord));
        }
        self.emit_op_byte(InstructionKind::LdRegImm(target), byte)
    }

    /// Generates a load register immediate instruction with a label operand.
    ///
    /// # Errors
    ///
    /// * If the target is not a 16-bit register.
    /// * Undefined label (on pass 2).
    pub fn gen_ld_reg_imm_label(&mut self, target: Reg, label: &String) -> (r: Result<(), AsmError>)
        ensures
            (final(self)@, r) == old(self)@.gen_ld_reg_imm_label(target, label@),
            final(self).path == old(self).path,
            final(self).debug == old(self).debug,
            progressed(old(self)@, final(self)@),
    {
        if !target.is16() {
            return Err(AsmError::Expected(Expected::ImmediateByte));
        }
        self.emit_op(InstructionKind::LdRegImm(target))?;
        let addr = self.resolve(label)?;
        self.emit_word(addr)
    }

    /// Generates a load register indirect instruction.
    ///
    /// # Errors
    ///
    /// * Invalid source or target registers.
    /// * Syntax errors.
    pub fn gen_ld_reg_indirect(&mut self, target: Reg) -> (r: Result<(), AsmError>)
        ensures
            (final(self)@, r) == old(self)@.gen_ld_reg_indirect(target),
            final(self).path == old(self).path,
            final(self).debug == old(self).debug,
            progressed(old(self)@, final(self)@),
    {
        if target.is16() {
            return Err(AsmError::Expected(Expected::Register8));
        }
        self.emit_op(InstructionKind::LdRegIndirect)?;
        let source = self.expect_reg16()?;
        self.expect(&Token::ParenClose)?;
        self.emit_byte(u8_from(source, target))
    }

    /// Generates a load register register instruction.
    ///
    /// # Errors
    ///
    /// * Mismatched register widths.
    pub fn gen_ld_reg_reg(&mut self, source: Reg, target: Reg) -> (r: Result<(), AsmError>)
        ensures
            (final(self)@, r) == old(self)@.gen_ld_reg_reg(source, target),
            final(self).path == old(self).path,
            final(self).debug == old(self).debug,
            progressed(old(self)@, final(self)@),
    {
        if source.is16() != target.is16() {
            return Err(AsmError::Expected(Expected::SameSizeRegister));
        }
        self.emit_op_byte(InstructionKind::LdRegReg, u8_from(source, target))
    }

    /// Generates a load register immediate or load register register instruction.
    ///
    /// # Errors
    ///
    /// * Syntax errors.
    pub fn gen_ld_reg(&mut self, target: Reg) -> (r: Result<(), AsmError>)
        ensures
            (final(self)@, r) == old(self)@.gen_ld_reg(target),
            final(self).path == old(self).path,
            final(self).debug == old(self).debug,
            progressed(old(self)@, final(self)@),
    {
        self.expect(&Token::Comma)?;
        match self.next_token()? {
            Token::ByteLiteral(byte) => self.gen_ld_reg_imm8(target, byte),
            Token::Identifier(label) => self.gen_ld_reg_imm_label(target, &label),
            Token::ParenOpen => self.gen_ld_reg_indirect(target),
            Token::Register(source) => self.gen_ld_reg_reg(source, target),
            Token::WordLiteral(word) => self.gen_ld_reg_imm16(target, word),
            _ => Err(AsmError::UnexpectedToken),
        }
    }

    /// Generates a store register direct instruction.
    ///
    /// # Errors
    ///
    /// * Missing comma before register name.
    /// * Invalid register name.
    pub fn gen_store_direct(&mut self, addr: u16) -> (r: Result<(), AsmError>)
        ensures
            (final(self)@, r) == old(self)@.gen_store_direct(addr),
            final(self).path == old(self).path,
            final(self).debug == old(self).debug,
            progressed(old(self)@, final(self)@),
    {
        self.expect(&Token::Comma)?;
        let reg = self.expect_reg8()?;
        self.emit_op_word(InstructionKind::StoreRegDirect(reg), addr)
    }

    /// Generates a store register indirect instruction.
    ///
    /// # Errors
    ///
    /// * Missing comma before register name.
    /// * Invalid register name.
    pub fn gen_store_indirect(&mut self) -> (r: Result<(), AsmError>)
        ensures
            (final(self)@, r) == old(self)@.gen_store_indirect(),
            final(self).path == old(self).path,
            final(self).debug == old(self).debug,
            progressed(old(self)@, final(self)@),
    {
        let target = self.expect_reg16()?;
        self.expect(&Token::ParenClose)?;
        self.expect(&Token::Comma)?;
        let source = self.expect_reg8()?;
        self.emit_op_byte(InstructionKind::StoreRegIndirect, u8_from(source, target))
    }

    /// Generates a load (or store) instruction.
    ///
    /// # Errors
    ///
    /// * Syntax errors.
    pub fn gen_ld(&mut self) -> (r: Result<(), AsmError>)
        ensures
            (final(self)@, r) == old(self)@.gen_ld(),
            final(self).path == old(self).path,
            final(self).debug == old(self).debug,
            progressed(old(self)@, final(self)@),
    {
        match self.next_token()? {
            Token::ParenOpen => self.gen_store_indirect(),
            Token::Register(target) => self.gen_ld_reg(target),
            Token::WordLiteral(addr) => self.gen_store_direct(addr),
            _ => Err(AsmError::Expected(Expected::Register)),
        }
    }

    /// Generates a logical shift right instruction.
    ///
    /// # Errors
    ///
    /// * Syntax errors.
    pub fn gen_lsr(&mut self) -> (r: Result<(), AsmError>)
        ensures
            (final(self)@, r) == old(self)@.gen_lsr(),
            final(self).path == old(self).path,
            final(self).debug == old(self).debug,
            progressed(old(self)@, final(self)@),
    {
        let target = self.expect_reg8()?;
        self.emit_op(InstructionKind::Lsr(target))?;
        self.expect(&Token::Comma)?;
        match self.next_token()? {
            Token::ByteLiteral(shift) => self.emit_byte(shift),
            _ => Err(AsmError::Expected(Expected::ShiftCount)),
        }
    }

    /// Generates a pop instruction.
    ///
    /// # Errors
    ///
    /// * Invalid register name, or `sp`.
    pub fn gen_pop(&mut self) -> (r: Result<(), AsmError>)
        ensures
            (final(self)@, r) == old(self)@.gen_stack(|r: Reg| InstructionKind::Pop(r)),
            final(self).path == old(self).path,
            final(self).debug == old(self).debug,
            progressed(old(self)@, final(self)@),
    {
        let reg = self.expect_reg()?;
        if reg == Reg::SP {
            return Err(AsmError::Expected(Expected::RegisterNotSp));
        }
        self.emit_op(InstructionKind::Pop(reg))
    }

    /// Generates a push instruction.
    ///
    /// # Errors
    ///
    /// * Invalid register name, or `sp`.
    pub fn gen_push(&mut self) -> (r: Result<(), AsmError>)
        ensures
            (final(self)@, r) == old(self)@.gen_stack(|r: Reg| InstructionKind::Push(r)),
            final(self).path == old(self).path,
            final(self).debug == old(self).debug,
            progressed(old(self)@, final(self)@),
    {
        let reg = self.expect_reg()?;
        if reg == Reg::SP {
            return Err(AsmError::Expected(Expected::RegisterNotSp));
        }
        self.emit_op(InstructionKind::Push(reg))
    }

    /// Generates a trap instruction.
    ///
    /// # Errors
    ///
    /// * Invalid trap code.
    pub fn gen_trap(&mut self) -> (r: Result<(), AsmError>)
        ensures
            (final(self)@, r) == old(self)@.gen_trap(),
            final(self).path == old(self).path,
            final(self).debug == old(self).debug,
            progressed(old(self)@, final(self)@),
    {
        match self.next_token()? {
            Token::ByteLiteral(code) => {
                if code <= 0x3F {
                    self.emit_op_byte(InstructionKind::Trap, code)
                } else {
                    Err(AsmError::InvalidTrapCode(code))
                }
            },
            _ => Err(AsmError::Expected(Expected::TrapCode)),
        }
    }

    /// Processes an org directive.
    ///
    /// # Errors
    ///
    /// * Missing or invalid address.
    /// * An address below the current location, once code has been generated.
    pub fn org(&mut self) -> (r: Result<(), AsmError>)
        ensures
            (final(self)@, r) == old(self)@.org(),
            final(self).path == old(self).path,
            final(self).debug == old(self).debug,
            progressed(old(self)@, final(self)@),
    {
        let addr = match self.next_token()? {
            Token::WordLiteral(addr) => addr,
            _ => return Err(AsmError::Expected(Expected::Address)),
        };
        if self.code.len() != 0 {
            if addr < self.loc {
                return Err(AsmError::InvalidOrg(addr));
            }
            let offset = addr - self.loc;
            let ghost start = self@;
            let mut k: u16 = 0;
            while k < offset
                invariant
                    k <= offset,
                    self@ == (AsmView {
                        code: start.code + Seq::new(k as nat, |i: int| 0u8),
                        ..start
                    }),
                    self.path == old(self).path,
                    self.debug == old(self).debug,
                decreases offset - k,
            {
                self.code.push(0);
                k = k + 1;
                assert(self@.code =~= start.code + Seq::new(k as nat, |i: int| 0u8));
            }
        }
        self.loc = addr;
        Ok(())
    }
}

impl Assembler {
    /// Assembles keyword `kw`.
    ///
    /// # Errors
    ///
    /// * Syntax errors.
    pub fn assemble_kw(&mut self, kw: &String) -> (r: Result<(), AsmError>)
        requires
            is_keyword(kw@),
        ensures
            (final(self)@, r) == old(self)@.assemble_kw(kw@),
            final(self).path == old(self).path,
            final(self).debug == old(self).debug,
            progressed(old(self)@, final(self)@),
    {
        let word = chars_of(kw.as_str());
        if eq_chars_str(&word, "add") {
            self.gen_add()
        } else if eq_chars_str(&word, "and") {
            self.gen_and()
        } else if eq_chars_str(&word, "bcc") {
            self.gen_branch(InstructionKind::BranchCc)
        } else if eq_chars_str(&word, "bcs") {
            self.gen_branch(InstructionKind::BranchCs)
        } else if eq_chars_str(&word, "beq") {
            self.gen_branch(InstructionKind::BranchEq)
        } else if eq_chars_str(&word, "bne") {
            self.gen_branch(InstructionKind::BranchNe)
        } else if eq_chars_str(&word, "bra") {
            self.gen_branch(InstructionKind::BranchAlways)
        } else if eq_chars_str(&word, "call") {
            self.gen_call()
        } else if eq_chars_str(&word, "clc") {
            self.emit_op(InstructionKind::Clc)
        } else if eq_chars_str(&word, "cmp") {
            self.gen_cmp()
        } else if eq_chars_str(&word, "data") {
            self.gen_data()
        } else if eq_chars_str(&word, "dec") {
            self.gen_dec()
        } else if eq_chars_str(&word, "halt") {
            self.emit_op(InstructionKind::Halt)
        } else if eq_chars_str(&word, "inc") {
            self.gen_inc()
        } else if eq_chars_str(&word, "jmp") {
            self.gen_jmp()
        } else if eq_chars_str(&word, "ld") {
            self.gen_ld()
        } else if eq_chars_str(&word, "lsr") {
            self.gen_lsr()
        } else if eq_chars_str(&word, "nop") {
            self.emit_op(InstructionKind::Nop)
        } else if eq_chars_str(&word, "org") {
            self.org()
        } else if eq_chars_str(&word, "pop") {
            self.gen_pop()
        } else if eq_chars_str(&word, "push") {
            self.gen_push()
        } else if eq_chars_str(&word, "ret") {
            self.emit_op(InstructionKind::Ret)
        } else if eq_chars_str(&word, "rti") {
            self.emit_op(InstructionKind::Rti)
        } else if eq_chars_str(&word, "sec") {
            self.emit_op(InstructionKind::Sec)
        } else if eq_chars_str(&word, "sub") {
            self.gen_sub()
        } else {
            self.gen_trap()
        }
    }

    /// Runs an assembly pass.
    ///
    /// # Errors
    ///
    /// * Syntax errors.
    pub fn pass(&mut self) -> (r: Result<(), AsmError>)
        requires
            keywords_valid(old(self)@.tokens),
        ensures
            (final(self)@, r) == old(self)@.pass(),
            final(self).path == old(self).path,
            final(self).debug == old(self).debug,
            final(self)@.tokens == old(self)@.tokens,
            final(self)@.pass2 == old(self)@.pass2,
    {
        loop
            invariant_except_break
                old(self)@.pass() == self@.pass(),
            invariant
                keywords_valid(self@.tokens),
                self@.tokens == old(self)@.tokens,
                self@.pass2 == old(self)@.pass2,
                self.path == old(self).path,
                self.debug == old(self).debug,
            ensures
                old(self)@.pass() == (self@, Ok::<(), AsmError>(())),
            decreases self@.tokens.len() - self@.cursor,
        {
            if self.cursor >= self.tokens.len() {
                break;
            }
            let ghost i = self.cursor as int;
            let token = self.next_token()?;
            match token {
                Token::Comment(_) | Token::Newline => {
                    if self.line == usize::MAX {
                        return Err(AsmError::LineOverflow);
                    }
                    self.line = self.line + 1;
                },
                Token::Keyword(kw) => {
                    proof {
                        assert(self@.tokens[i] matches TokenView::Keyword(_));
                    }
                    self.assemble_kw(&kw)?;
                },
                Token::LabelDef(label) => {
                    let ghost before = self@;
                    self.labels.push((label, self.loc));
                    proof {
                        assert(self@.labels =~= before.labels.push((label@, before.loc)));
                    }
                },
                _ => return Err(AsmError::UnexpectedToken),
            }
        }
        Ok(())
    }

    /// Assembles the source code: a first pass collects the labels, a second generates
    /// the code.
    ///
    /// # Errors
    ///
    /// * Syntax errors, with the line they were found on.
    pub fn assemble(&mut self) -> (r: Result<Vec<u8>, AssemblyError>)
        requires
            keywords_valid(old(self)@.tokens),
        ensures
            (final(self)@, assembled(r)) == old(self)@.assemble(),
    {
        if let Err(e) = self.pass() {
            return Err(AssemblyError { kind: e, line: self.line });
        }
        self.code = Vec::new();
        self.pass2 = true;
        self.cursor = 0;
        self.line = 1;
        self.loc = BASE;
        if let Err(e) = self.pass() {
            return Err(AssemblyError { kind: e, line: self.line });
        }
        let code = self.code.clone();
        assert(code@ =~= self.code@);
        Ok(code)
    }
}

/// The view of an assembly result.
pub open spec fn assembled(r: Result<Vec<u8>, AssemblyError>) -> Result<Seq<u8>, AssemblyError> {
    match r {
        Ok(v) => Ok(v@),
        Err(e) => Err(e),
    }
}

/// What assembling source text `source` gives: its tokens assembled in two passes.
pub open spec fn spec_assemble(source: Seq<char>) -> Result<Seq<u8>, AssemblyError> {
    AsmView::initial(spec_tokenize(source)).assemble().1
}

/// Assembles `source`.
///
/// # Errors
///
/// * Syntax errors.
pub fn assemble(source: &str) -> (r: Result<Vec<u8>, AssemblyError>)
    ensures
        assembled(r) == spec_assemble(source@),
{
    let tokens = tokenize(source);
    proof {
        lemma_tokens_keywords_valid(source@, skip_spaces(source@, 0));
    }
    let mut assembler = Assembler::new(tokens);
    assembler.assemble()
}

/// Assembles `source` with the debug flag set.
///
/// # Errors
///
/// * Syntax errors.
pub fn assemble_with_debug(source: &str) -> (r: Result<Vec<u8>, AssemblyError>)
    ensures
        assembled(r) == spec_assemble(source@),
{
    let tokens = tokenize_with_debug(source);
    proof {
        lemma_tokens_keywords_valid(source@, skip_spaces(source@, 0));
    }
    let mut assembler = Assembler::new(tokens);
    assembler.debug = true;
    assembler.assemble()
}

/// Adding a string to the code moves neither the cursor nor the tokens.
pub proof fn lemma_emit_string_keeps_cursor(s: AsmView, text: Seq<char>)
    ensures
        s.emit_string(text).0.cursor == s.cursor,
        s.emit_string(text).0.tokens == s.tokens,
        s.emit_string(text).0.labels == s.labels,
        s.emit_string(text).0.pass2 == s.pass2,
        s.emit_string(text).0.line == s.line,
    decreases text.len(),
{
    if text.len() > 0 && (text[0] as u32) < 128 {
        lemma_emit_string_keeps_cursor(s.emit_byte(text[0] as u8).0, text.drop_first());
    }
}

} // verus!
