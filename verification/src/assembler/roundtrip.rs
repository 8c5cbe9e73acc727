//! Disassembly undone: the text that the disassembler gives for an instruction assembles
//! back to the instruction's bytes.
use vstd::prelude::*;

use crate::assembler::assemble::spec_assemble;
use crate::assembler::disassemble::{dis_line, operand_bytes};
use crate::assembler::spacing::lemma_tokens_shift;
use crate::assembler::spec::{hi, lo, AsmError, AsmView, AssemblyError, BASE};
use crate::assembler::token::{
    hex_digit_value, hex_value, is_ascii_alpha, is_hex_digit, is_ident_char, is_space,
    TokenView,
};
use crate::assembler::tokenizer::{
    hex_pred, ident_pred, is_keyword, lemma_span, pow16, scan, space_pred, span,
    spec_tokenize, tokens_from,
};
use crate::instructions::{decode, lemma_opcode_decode, opcode, spec_operands, InstructionKind};
use crate::regs::{
    lemma_reg_from_id_inverse, lemma_reg_name_round_trip, reg_from_id, reg_from_name,
    reg_is16, reg_name, spec_source_and_target, spec_u8_from, Reg,
};
use crate::text::{hex_byte_text, hex_digit, hex_digits, hex_word_text};

verus! {

/// A run of characters satisfying `p` from `i` up to `k`, where it stops, is the span
/// from `i`.
proof fn lemma_span_exact(s: Seq<char>, i: int, k: int, p: spec_fn(char) -> bool)
    requires
        0 <= i <= k <= s.len(),
        forall|j: int| i <= j < k ==> p(#[trigger] s[j]),
        k == s.len() || !p(s[k]),
    ensures
        span(s, i, p) == k,
{
    lemma_span(s, i, p);
    let m = span(s, i, p);
    if m < k {
        assert(p(s[m]));
    } else if m > k {
        assert(p(s[k]));
    }
}

/// The digit characters are hex digits, with the values they stand for.
proof fn lemma_hex_digit(n: int)
    requires
        0 <= n < 16,
    ensures
        is_hex_digit(hex_digit(n)),
        hex_digit_value(hex_digit(n)) == n,
{
}

/// `width` hex digits of `value` are hex digits that read back as `value` modulo
/// `16^width`.
pub(crate) proof fn lemma_hex_digits(value: nat, width: nat)
    ensures
        hex_digits(value, width).len() == width,
        forall|k: int| 0 <= k < width ==> is_hex_digit(#[trigger] hex_digits(value, width)[k]),
        hex_value(hex_digits(value, width)) == value % pow16(width),
    decreases width,
{
    if width > 0 {
        let w1 = (width - 1) as nat;
        lemma_hex_digits(value / 16, w1);
        let front = hex_digits(value / 16, w1);
        let d = hex_digit((value % 16) as int);
        lemma_hex_digit((value % 16) as int);
        let all = front.push(d);
        assert(all.drop_last() =~= front);
        assert(hex_value(all) == hex_value(front) * 16 + hex_digit_value(d));
        assert(pow16(w1) > 0) by {
            lemma_pow16_pos(w1);
        }
        vstd::arithmetic::div_mod::lemma_mod_breakdown(value as int, 16, pow16(w1) as int);
        assert(pow16(width) == pow16(w1) * 16);
        assert(16 * pow16(w1) == pow16(w1) * 16) by (nonlinear_arith);
        assert(hex_value(all) == value % pow16(width));
    }
}

proof fn lemma_pow16_pos(n: nat)
    ensures
        pow16(n) > 0,
    decreases n,
{
    if n > 0 {
        lemma_pow16_pos((n - 1) as nat);
    }
}

/// The token that the tokenizer makes of the word `w`: a register if `w` names one, or
/// else a keyword.
pub open spec fn word_token(w: Seq<char>) -> TokenView {
    match reg_from_name(w) {
        Some(r) => TokenView::Register(r),
        None => TokenView::Keyword(w),
    }
}

/// The token that the tokenizer makes of the hex digits `d` after `0x`: a byte for two
/// digits, a word for four.
pub open spec fn hex_token(d: Seq<char>) -> TokenView {
    if d.len() == 2 {
        TokenView::ByteLiteral(hex_value(d) as u8)
    } else {
        TokenView::WordLiteral(hex_value(d) as u16)
    }
}

/// The token for a comma or a parenthesis.
pub open spec fn punct_token(c: char) -> TokenView {
    if c == '(' {
        TokenView::ParenOpen
    } else if c == ')' {
        TokenView::ParenClose
    } else {
        TokenView::Comma
    }
}

/// A separator after a token: one space, or nothing.
pub open spec fn is_sep(sep: Seq<char>) -> bool {
    sep == seq![' '] || sep.len() == 0
}

/// `rest` does not start with a space.
pub open spec fn starts_unspaced(rest: Seq<char>) -> bool {
    rest.len() == 0 || !is_space(rest[0])
}

/// The tokens of `lead + sep + rest`, where `lead` scans as token `t` and `sep` is a
/// separator, are `t` and then the tokens of `rest`.
proof fn lemma_lead_then(lead: Seq<char>, sep: Seq<char>, rest: Seq<char>, t: TokenView)
    requires
        0 < lead.len(),
        is_sep(sep),
        starts_unspaced(rest),
        scan(lead + sep + rest, 0) == (t, lead.len() as int),
    ensures
        tokens_from(lead + sep + rest, 0) == seq![t] + tokens_from(rest, 0),
{
    let y = lead + sep + rest;
    let k = lead.len() as int;
    let n = k + sep.len();
    assert(y[k + sep.len()] == rest[0] || n == y.len());
    lemma_span_exact(y, k, n, space_pred());
    assert(y =~= (lead + sep) + rest);
    lemma_tokens_shift(lead + sep, rest, 0);
}

/// A keyword or register name, followed by a separator and then by something that is
/// not part of a word, is its word token, and then the tokens of what follows.
proof fn lemma_word_then(w: Seq<char>, sep: Seq<char>, rest: Seq<char>)
    requires
        0 < w.len(),
        is_ascii_alpha(w[0]),
        forall|k: int| 0 <= k < w.len() ==> is_ident_char(#[trigger] w[k]),
        reg_from_name(w) is Some || is_keyword(w),
        is_sep(sep),
        starts_unspaced(rest),
        sep.len() == 0 ==> rest.len() == 0 || !is_ident_char(rest[0]),
    ensures
        tokens_from(w + sep + rest, 0) == seq![word_token(w)] + tokens_from(rest, 0),
{
    let y = w + sep + rest;
    let k = w.len() as int;
    assert forall|j: int| 0 <= j < k implies ident_pred()(#[trigger] y[j]) by {
        assert(y[j] == w[j]);
    }
    lemma_span_exact(y, 0, k, ident_pred());
    assert(y.subrange(0, k) =~= w);
    assert(y[0] == w[0]);
    lemma_lead_then(w, sep, rest, word_token(w));
}

/// `0x` and two or four hex digits, followed by a separator and then by something that
/// is not a hex digit, is a byte or word token, and then the tokens of what follows.
proof fn lemma_hex_then(d: Seq<char>, sep: Seq<char>, rest: Seq<char>)
    requires
        d.len() == 2 || d.len() == 4,
        forall|k: int| 0 <= k < d.len() ==> is_hex_digit(#[trigger] d[k]),
        is_sep(sep),
        starts_unspaced(rest),
        sep.len() == 0 ==> rest.len() == 0 || !is_hex_digit(rest[0]),
    ensures
        tokens_from(seq!['0', 'x'] + d + sep + rest, 0) == seq![hex_token(d)] + tokens_from(
            rest,
            0,
        ),
{
    let lead = seq!['0', 'x'] + d;
    let y = lead + sep + rest;
    let k = lead.len() as int;
    assert forall|j: int| 2 <= j < k implies hex_pred()(#[trigger] y[j]) by {
        assert(y[j] == d[j - 2]);
    }
    lemma_span_exact(y, 2, k, hex_pred());
    assert(y.subrange(2, k) =~= d);
    assert(y =~= seq!['0', 'x'] + d + sep + rest);
    lemma_lead_then(lead, sep, rest, hex_token(d));
}

/// A comma or a parenthesis, followed by a separator, is its token, and then the tokens
/// of what follows.
proof fn lemma_punct_then(c: char, sep: Seq<char>, rest: Seq<char>)
    requires
        c == '(' || c == ')' || c == ',',
        is_sep(sep),
        starts_unspaced(rest),
    ensures
        tokens_from(seq![c] + sep + rest, 0) == seq![punct_token(c)] + tokens_from(rest, 0),
{
    let y = seq![c] + sep + rest;
    assert(y[0] == c);
    lemma_lead_then(seq![c], sep, rest, punct_token(c));
}

/// A register name, then a separator, then something that is not part of a word: the
/// register's token, then the tokens of what follows.
proof fn lemma_reg_then(r: Reg, sep: Seq<char>, rest: Seq<char>)
    requires
        is_sep(sep),
        starts_unspaced(rest),
        sep.len() == 0 ==> rest.len() == 0 || !is_ident_char(rest[0]),
    ensures
        tokens_from(reg_name(r) + sep + rest, 0) == seq![TokenView::Register(r)] + tokens_from(
            rest,
            0,
        ),
{
    lemma_reg_name_round_trip(r);
    lemma_word_then(reg_name(r), sep, rest);
}

/// The hex form of a byte, then a separator, then something that is not a hex digit:
/// the byte's token, then the tokens of what follows.
proof fn lemma_byte_then(b: u8, sep: Seq<char>, rest: Seq<char>)
    requires
        is_sep(sep),
        starts_unspaced(rest),
        sep.len() == 0 ==> rest.len() == 0 || !is_hex_digit(rest[0]),
    ensures
        tokens_from(hex_byte_text(b) + sep + rest, 0) == seq![TokenView::ByteLiteral(b)]
            + tokens_from(rest, 0),
{
    lemma_hex_digits(b as nat, 2);
    assert(pow16(2) == 256) by {
        reveal_with_fuel(pow16, 3);
    }
    lemma_hex_then(hex_digits(b as nat, 2), sep, rest);
}

/// The hex form of a word, then a separator, then something that is not a hex digit:
/// the word's token, then the tokens of what follows.
proof fn lemma_word16_then(w: u16, sep: Seq<char>, rest: Seq<char>)
    requires
        is_sep(sep),
        starts_unspaced(rest),
        sep.len() == 0 ==> rest.len() == 0 || !is_hex_digit(rest[0]),
    ensures
        tokens_from(hex_word_text(w) + sep + rest, 0) == seq![TokenView::WordLiteral(w)]
            + tokens_from(rest, 0),
{
    lemma_hex_digits(w as nat, 4);
    assert(pow16(4) == 65536) by {
        reveal_with_fuel(pow16, 5);
    }
    lemma_hex_then(hex_digits(w as nat, 4), sep, rest);
}

/// A keyword: a word of the assembler's that names no register.
pub open spec fn is_keyword_word(kw: Seq<char>) -> bool {
    &&& 0 < kw.len()
    &&& is_ascii_alpha(kw[0])
    &&& forall|k: int| 0 <= k < kw.len() ==> is_ident_char(#[trigger] kw[k])
    &&& is_keyword(kw)
    &&& reg_from_name(kw) is None
}

/// A keyword, then a separator, then something that is not part of a word: the
/// keyword's token, then the tokens of what follows.
proof fn lemma_kw_then(kw: Seq<char>, sep: Seq<char>, rest: Seq<char>)
    requires
        is_keyword_word(kw),
        is_sep(sep),
        starts_unspaced(rest),
        sep.len() == 0 ==> rest.len() == 0 || !is_ident_char(rest[0]),
    ensures
        tokens_from(kw + sep + rest, 0) == seq![TokenView::Keyword(kw)] + tokens_from(rest, 0),
{
    lemma_word_then(kw, sep, rest);
}

/// The keywords that the disassembler writes, character by character.
proof fn lemma_keyword_texts()
    ensures
        "add"@ == seq!['a', 'd', 'd'],
        "and"@ == seq!['a', 'n', 'd'],
        "bcc"@ == seq!['b', 'c', 'c'],
        "bcs"@ == seq!['b', 'c', 's'],
        "beq"@ == seq!['b', 'e', 'q'],
        "bne"@ == seq!['b', 'n', 'e'],
        "bra"@ == seq!['b', 'r', 'a'],
        "call"@ == seq!['c', 'a', 'l', 'l'],
        "clc"@ == seq!['c', 'l', 'c'],
        "cmp"@ == seq!['c', 'm', 'p'],
        "data"@ == seq!['d', 'a', 't', 'a'],
        "dec"@ == seq!['d', 'e', 'c'],
        "halt"@ == seq!['h', 'a', 'l', 't'],
        "inc"@ == seq!['i', 'n', 'c'],
        "jmp"@ == seq!['j', 'm', 'p'],
        "ld"@ == seq!['l', 'd'],
        "lsr"@ == seq!['l', 's', 'r'],
        "nop"@ == seq!['n', 'o', 'p'],
        "org"@ == seq!['o', 'r', 'g'],
        "pop"@ == seq!['p', 'o', 'p'],
        "push"@ == seq!['p', 'u', 's', 'h'],
        "ret"@ == seq!['r', 'e', 't'],
        "rti"@ == seq!['r', 't', 'i'],
        "sec"@ == seq!['s', 'e', 'c'],
        "sub"@ == seq!['s', 'u', 'b'],
        "trap"@ == seq!['t', 'r', 'a', 'p'],
{
    reveal_strlit("add");
    reveal_strlit("and");
    reveal_strlit("bcc");
    reveal_strlit("bcs");
    reveal_strlit("beq");
    reveal_strlit("bne");
    reveal_strlit("bra");
    reveal_strlit("call");
    reveal_strlit("clc");
    reveal_strlit("cmp");
    reveal_strlit("data");
    reveal_strlit("dec");
    reveal_strlit("halt");
    reveal_strlit("inc");
    reveal_strlit("jmp");
    reveal_strlit("ld");
    reveal_strlit("lsr");
    reveal_strlit("nop");
    reveal_strlit("org");
    reveal_strlit("pop");
    reveal_strlit("push");
    reveal_strlit("ret");
    reveal_strlit("rti");
    reveal_strlit("sec");
    reveal_strlit("sub");
    reveal_strlit("trap");
}

/// The phrases that the disassembler writes around operands.
proof fn lemma_phrase_texts()
    ensures
        "add "@ == "add"@ + seq![' '],
        "and "@ == "and"@ + seq![' '],
        "bra "@ == "bra"@ + seq![' '],
        "bcc "@ == "bcc"@ + seq![' '],
        "bcs "@ == "bcs"@ + seq![' '],
        "beq "@ == "beq"@ + seq![' '],
        "bne "@ == "bne"@ + seq![' '],
        "call "@ == "call"@ + seq![' '],
        "cmp "@ == "cmp"@ + seq![' '],
        "dec "@ == "dec"@ + seq![' '],
        "inc "@ == "inc"@ + seq![' '],
        "jmp "@ == "jmp"@ + seq![' '],
        "ld "@ == "ld"@ + seq![' '],
        "lsr "@ == "lsr"@ + seq![' '],
        "pop "@ == "pop"@ + seq![' '],
        "push "@ == "push"@ + seq![' '],
        "sub "@ == "sub"@ + seq![' '],
        "trap "@ == "trap"@ + seq![' '],
        ", "@ == seq![',', ' '],
        " ("@ == seq![' ', '('],
        ")"@ == seq![')'],
        ", ("@ == seq![',', ' ', '('],
        "), "@ == seq![')', ',', ' '],
        "ld ("@ == "ld"@ + seq![' ', '('],
        "dec ("@ == "dec"@ + seq![' ', '('],
        "inc ("@ == "inc"@ + seq![' ', '('],
{
    reveal_strlit("add ");
    reveal_strlit("add");
    reveal_strlit("and ");
    reveal_strlit("and");
    reveal_strlit("bra ");
    reveal_strlit("bra");
    reveal_strlit("bcc ");
    reveal_strlit("bcc");
    reveal_strlit("bcs ");
    reveal_strlit("bcs");
    reveal_strlit("beq ");
    reveal_strlit("beq");
    reveal_strlit("bne ");
    reveal_strlit("bne");
    reveal_strlit("call ");
    reveal_strlit("call");
    reveal_strlit("cmp ");
    reveal_strlit("cmp");
    reveal_strlit("dec ");
    reveal_strlit("dec");
    reveal_strlit("inc ");
    reveal_strlit("inc");
    reveal_strlit("jmp ");
    reveal_strlit("jmp");
    reveal_strlit("ld ");
    reveal_strlit("ld");
    reveal_strlit("lsr ");
    reveal_strlit("lsr");
    reveal_strlit("pop ");
    reveal_strlit("pop");
    reveal_strlit("push ");
    reveal_strlit("push");
    reveal_strlit("sub ");
    reveal_strlit("sub");
    reveal_strlit("trap ");
    reveal_strlit("trap");
    reveal_strlit(", ");
    reveal_strlit(" (");
    reveal_strlit(")");
    reveal_strlit(", (");
    reveal_strlit("), ");
    reveal_strlit("ld (");
    reveal_strlit("dec (");
    reveal_strlit("inc (");
}

/// The tokens of a text that starts with a keyword are read from its first character.
proof fn lemma_tokenize_from_start(text: Seq<char>)
    requires
        0 < text.len(),
        is_ascii_alpha(text[0]),
    ensures
        spec_tokenize(text) == tokens_from(text, 0),
{
    lemma_span_exact(text, 0, 0, space_pred());
}

/// An instruction without operands generates its opcode.
proof fn lemma_runs_plain(ins: InstructionKind)
    requires
        ins is Clc || ins is Halt || ins is Nop || ins is Ret || ins is Rti || ins is Sec,
    ensures
        runs_to(seq![TokenView::Keyword(mnemonic(ins))], mnemonic(ins), seq![opcode(ins)]),
{
    lemma_keyword_texts();
    let toks = seq![TokenView::Keyword(mnemonic(ins))];
    assert forall|a: AsmView|
        a.cursor == 1 && a.tokens == toks && a.code.len() == 0 && a.loc == BASE implies
        #[trigger] a.assemble_kw(mnemonic(ins)) == (
            AsmView { cursor: 1, code: seq![opcode(ins)], loc: (BASE + 1) as u16, ..a },
            Ok::<(), AsmError>(()),
        ) by {
        assert(a.code.push(opcode(ins)) =~= seq![opcode(ins)]);
    }
}

/// An instruction without operands assembles back from its text.
proof fn lemma_round_trip_plain(code: Seq<u8>, ins: InstructionKind)
    requires
        code.len() == 1,
        decode(code[0]) == Some(ins),
        ins is Clc || ins is Halt || ins is Nop || ins is Ret || ins is Rti || ins is Sec,
    ensures
        spec_assemble(dis_line(code, 0).0) == Ok::<Seq<u8>, AssemblyError>(code),
{
    lemma_keyword_texts();
    lemma_opcode_decode(code[0]);
    let kw = mnemonic(ins);
    let text = dis_line(code, 0).0;
    let e = Seq::<char>::empty();
    assert(text =~= kw + e + e);
    lemma_kw_then(kw, e, e);
    lemma_tokenize_from_start(text);
    let toks = seq![TokenView::Keyword(kw)];
    assert(spec_tokenize(text) =~= toks);
    lemma_runs_plain(ins);
    assert(code =~= seq![opcode(ins)]);
    lemma_statement_runs(toks, kw, code);
}

/// The register an instruction names, if it names one in its opcode.
pub open spec fn named_reg(ins: InstructionKind) -> Reg {
    match ins {
        InstructionKind::Add(r) | InstructionKind::And(r) | InstructionKind::Cmp(r)
        | InstructionKind::Dec(r) | InstructionKind::Inc(r) | InstructionKind::LdRegImm(r)
        | InstructionKind::Lsr(r) | InstructionKind::Pop(r) | InstructionKind::Push(r)
        | InstructionKind::StoreRegDirect(r) | InstructionKind::Sub(r) => r,
        _ => Reg::A,
    }
}

/// The keyword that the disassembler writes for an instruction.
pub open spec fn mnemonic(ins: InstructionKind) -> Seq<char> {
    match ins {
        InstructionKind::Add(_) => "add"@,
        InstructionKind::And(_) => "and"@,
        InstructionKind::BranchAlways => "bra"@,
        InstructionKind::BranchCc => "bcc"@,
        InstructionKind::BranchCs => "bcs"@,
        InstructionKind::BranchEq => "beq"@,
        InstructionKind::BranchNe => "bne"@,
        InstructionKind::Call => "call"@,
        InstructionKind::Clc => "clc"@,
        InstructionKind::Cmp(_) => "cmp"@,
        InstructionKind::Dec(_) | InstructionKind::DecIndirect | InstructionKind::DecMem => "dec"@,
        InstructionKind::Halt => "halt"@,
        InstructionKind::Inc(_) | InstructionKind::IncIndirect | InstructionKind::IncMem => "inc"@,
        InstructionKind::Jmp => "jmp"@,
        InstructionKind::LdRegImm(_) | InstructionKind::LdRegIndirect | InstructionKind::LdRegReg
        | InstructionKind::StoreRegDirect(_) | InstructionKind::StoreRegIndirect => "ld"@,
        InstructionKind::Lsr(_) => "lsr"@,
        InstructionKind::Nop => "nop"@,
        InstructionKind::Pop(_) => "pop"@,
        InstructionKind::Push(_) => "push"@,
        InstructionKind::Ret => "ret"@,
        InstructionKind::Rti => "rti"@,
        InstructionKind::Sec => "sec"@,
        InstructionKind::Sub(_) => "sub"@,
        InstructionKind::Trap => "trap"@,
    }
}

/// `inc R`, `dec R`, `push R` and `pop R` assemble back from their text.
proof fn lemma_round_trip_reg(code: Seq<u8>, ins: InstructionKind)
    requires
        code.len() == 1,
        decode(code[0]) == Some(ins),
        ins is Dec || ins is Inc || ins is Pop || ins is Push,
    ensures
        spec_assemble(dis_line(code, 0).0) == Ok::<Seq<u8>, AssemblyError>(code),
{
    lemma_keyword_texts();
    lemma_phrase_texts();
    lemma_opcode_decode(code[0]);
    let r = named_reg(ins);
    let kw = mnemonic(ins);
    let text = dis_line(code, 0).0;
    let e = Seq::<char>::empty();
    let sp = seq![' '];
    assert(text =~= kw + sp + (reg_name(r) + e + e));
    lemma_reg_then(r, e, e);
    lemma_kw_then(kw, sp, reg_name(r) + e + e);
    lemma_tokenize_from_start(text);
    let toks = seq![TokenView::Keyword(kw), TokenView::Register(r)];
    assert(spec_tokenize(text) =~= toks);
    lemma_runs_reg(ins);
    assert(code =~= seq![opcode(ins)]);
    lemma_statement_runs(toks, kw, code);
}

/// `inc R`, `dec R`, and `push R` and `pop R` for a register other than `sp`, generate
/// their opcode.
proof fn lemma_runs_reg(ins: InstructionKind)
    requires
        ins is Dec || ins is Inc || ins is Pop || ins is Push,
        (ins is Pop || ins is Push) ==> named_reg(ins) != Reg::SP,
    ensures
        runs_to(
            seq![TokenView::Keyword(mnemonic(ins)), TokenView::Register(named_reg(ins))],
            mnemonic(ins),
            seq![opcode(ins)],
        ),
{
    lemma_keyword_texts();
    let toks = seq![TokenView::Keyword(mnemonic(ins)), TokenView::Register(named_reg(ins))];
    assert forall|a: AsmView|
        a.cursor == 1 && a.tokens == toks && a.code.len() == 0 && a.loc == BASE implies
        #[trigger] a.assemble_kw(mnemonic(ins)) == (
            AsmView { cursor: 2, code: seq![opcode(ins)], loc: (BASE + 1) as u16, ..a },
            Ok::<(), AsmError>(()),
        ) by {
        assert(a.code.push(opcode(ins)) =~= seq![opcode(ins)]);
    }
}

/// `KW R, 0xNN` reads as a keyword, a register, a comma and a byte.
proof fn lemma_tokens_reg_byte(kw: Seq<char>, r: Reg, b: u8)
    requires
        is_keyword_word(kw),
    ensures
        spec_tokenize(kw + seq![' '] + reg_name(r) + seq![',', ' '] + hex_byte_text(b)) == seq![
            TokenView::Keyword(kw),
            TokenView::Register(r),
            TokenView::Comma,
            TokenView::ByteLiteral(b),
        ],
{
    let text = kw + seq![' '] + reg_name(r) + seq![',', ' '] + hex_byte_text(b);
    let e = Seq::<char>::empty();
    let sp = seq![' '];
    let tail = seq![','] + sp + (hex_byte_text(b) + e + e);
    assert(text =~= kw + sp + (reg_name(r) + e + tail));
    lemma_byte_then(b, e, e);
    lemma_punct_then(',', sp, hex_byte_text(b) + e + e);
    lemma_reg_then(r, e, tail);
    lemma_kw_then(kw, sp, reg_name(r) + e + tail);
    lemma_tokenize_from_start(text);
    assert(spec_tokenize(text) =~= seq![
        TokenView::Keyword(kw),
        TokenView::Register(r),
        TokenView::Comma,
        TokenView::ByteLiteral(b),
    ]);
}

/// `KW R, 0xNNNN` reads as a keyword, a register, a comma and a word.
proof fn lemma_tokens_reg_word(kw: Seq<char>, r: Reg, w: u16)
    requires
        is_keyword_word(kw),
    ensures
        spec_tokenize(kw + seq![' '] + reg_name(r) + seq![',', ' '] + hex_word_text(w)) == seq![
            TokenView::Keyword(kw),
            TokenView::Register(r),
            TokenView::Comma,
            TokenView::WordLiteral(w),
        ],
{
    let text = kw + seq![' '] + reg_name(r) + seq![',', ' '] + hex_word_text(w);
    let e = Seq::<char>::empty();
    let sp = seq![' '];
    let tail = seq![','] + sp + (hex_word_text(w) + e + e);
    assert(text =~= kw + sp + (reg_name(r) + e + tail));
    lemma_word16_then(w, e, e);
    lemma_punct_then(',', sp, hex_word_text(w) + e + e);
    lemma_reg_then(r, e, tail);
    lemma_kw_then(kw, sp, reg_name(r) + e + tail);
    lemma_tokenize_from_start(text);
    assert(spec_tokenize(text) =~= seq![
        TokenView::Keyword(kw),
        TokenView::Register(r),
        TokenView::Comma,
        TokenView::WordLiteral(w),
    ]);
}

/// From any state at the start of a one-statement source `toks` that begins with `kw`,
/// with no code generated yet and the location at the base address, the statement
/// generates `code` and reaches the end of the tokens.
spec fn runs_to(toks: Seq<TokenView>, kw: Seq<char>, code: Seq<u8>) -> bool {
    forall|a: AsmView|
        a.cursor == 1 && a.tokens == toks && a.code.len() == 0 && a.loc == BASE
            ==> #[trigger] a.assemble_kw(kw) == (
            AsmView { cursor: toks.len() as int, code, loc: (BASE + code.len()) as u16, ..a },
            Ok::<(), AsmError>(()),
        )
}

/// A one-statement source whose statement runs to `code` assembles to `code`.
proof fn lemma_statement_runs(toks: Seq<TokenView>, kw: Seq<char>, code: Seq<u8>)
    requires
        toks.len() > 0,
        toks[0] == TokenView::Keyword(kw),
        code.len() <= 3,
        runs_to(toks, kw, code),
    ensures
        AsmView::initial(toks).assemble().1 == Ok::<Seq<u8>, AssemblyError>(code),
{
    let a = AsmView::initial(toks);
    let (b, r) = a.advance().assemble_kw(kw);
    assert(b.pass() == (b, Ok::<(), AsmError>(())));
    assert(a.pass() == b.pass());
    let c = b.second_pass_start();
    let (b2, r2) = c.advance().assemble_kw(kw);
    assert(b2.pass() == (b2, Ok::<(), AsmError>(())));
    assert(c.pass() == b2.pass());
}

/// `add`, `and` and `sub` of an 8-bit register and a byte generate the opcode and the
/// byte.
proof fn lemma_runs_reg_imm8(ins: InstructionKind, b: u8)
    requires
        ins is Add || ins is And || ins is Sub,
        !reg_is16(named_reg(ins)),
    ensures
        runs_to(
            seq![
                TokenView::Keyword(mnemonic(ins)),
                TokenView::Register(named_reg(ins)),
                TokenView::Comma,
                TokenView::ByteLiteral(b),
            ],
            mnemonic(ins),
            seq![opcode(ins), b],
        ),
{
    lemma_keyword_texts();
    let r = named_reg(ins);
    let toks = seq![
        TokenView::Keyword(mnemonic(ins)),
        TokenView::Register(r),
        TokenView::Comma,
        TokenView::ByteLiteral(b),
    ];
    assert forall|a: AsmView|
        a.cursor == 1 && a.tokens == toks && a.code.len() == 0 && a.loc == BASE implies
        #[trigger] a.assemble_kw(mnemonic(ins)) == (
            AsmView { cursor: 4, code: seq![opcode(ins), b], loc: (BASE + 2) as u16, ..a },
            Ok::<(), AsmError>(()),
        ) by {
        let s3 = a.advance().advance().emit_op(ins).0;
        let s4 = s3.advance();
        assert(s4.emit_bytes(seq![b]) == s4.emit_byte(b)) by {
            assert(seq![b].drop_first() =~= Seq::<u8>::empty());
            reveal_with_fuel(AsmView::emit_bytes, 2);
        }
        assert(a.code.push(opcode(ins)).push(b) =~= seq![opcode(ins), b]);
    }
}

/// `cmp R, 0xNN` generates the opcode and the byte.
proof fn lemma_runs_compare8(r: Reg, b: u8)
    requires
        !reg_is16(r),
    ensures
        runs_to(seq![TokenView::Keyword("cmp"@), TokenView::Register(r), TokenView::Comma, TokenView::ByteLiteral(b)], "cmp"@, seq![opcode(InstructionKind::Cmp(r)), b]),
{
    lemma_keyword_texts();
    let toks = seq![TokenView::Keyword("cmp"@), TokenView::Register(r), TokenView::Comma, TokenView::ByteLiteral(b)];
    let code = seq![opcode(InstructionKind::Cmp(r)), b];
    assert forall|a: AsmView|
        a.cursor == 1 && a.tokens == toks && a.code.len() == 0 && a.loc == BASE implies
        #[trigger] a.assemble_kw("cmp"@) == (
            AsmView { cursor: toks.len() as int, code, loc: (BASE + code.len()) as u16, ..a },
            Ok::<(), AsmError>(()),
        ) by {
        let s4 = a.advance().advance().emit_op(InstructionKind::Cmp(r)).0.advance();
        assert(s4.emit_bytes(seq![b]) == s4.emit_byte(b)) by {
            assert(seq![b].drop_first() =~= Seq::<u8>::empty());
            reveal_with_fuel(AsmView::emit_bytes, 2);
        }
        assert(a.code.push(opcode(InstructionKind::Cmp(r))).push(b) =~= code);
    }
}

/// `cmp RR, 0xNNNN` generates the opcode and the word, low byte first.
proof fn lemma_runs_compare16(r: Reg, w: u16)
    requires
        reg_is16(r),
        r != Reg::SP,
    ensures
        runs_to(seq![TokenView::Keyword("cmp"@), TokenView::Register(r), TokenView::Comma, TokenView::WordLiteral(w)], "cmp"@, seq![opcode(InstructionKind::Cmp(r)), lo(w), hi(w)]),
{
    lemma_keyword_texts();
    let toks = seq![TokenView::Keyword("cmp"@), TokenView::Register(r), TokenView::Comma, TokenView::WordLiteral(w)];
    let code = seq![opcode(InstructionKind::Cmp(r)), lo(w), hi(w)];
    assert forall|a: AsmView|
        a.cursor == 1 && a.tokens == toks && a.code.len() == 0 && a.loc == BASE implies
        #[trigger] a.assemble_kw("cmp"@) == (
            AsmView { cursor: toks.len() as int, code, loc: (BASE + code.len()) as u16, ..a },
            Ok::<(), AsmError>(()),
        ) by {
        let s4 = a.advance().advance().emit_op(InstructionKind::Cmp(r)).0.advance();
        assert(s4.emit_bytes(seq![lo(w), hi(w)]) == s4.emit_byte(lo(w)).0.emit_byte(hi(w))) by {
            assert(seq![lo(w), hi(w)].drop_first() =~= seq![hi(w)]);
            assert(seq![hi(w)].drop_first() =~= Seq::<u8>::empty());
            reveal_with_fuel(AsmView::emit_bytes, 3);
        }
        assert(a.code.push(opcode(InstructionKind::Cmp(r))).push(lo(w)).push(hi(w)) =~= code);
    }
}

/// `lsr R, 0xNN` generates the opcode and the shift count.
proof fn lemma_runs_lsr(r: Reg, b: u8)
    requires
        !reg_is16(r),
    ensures
        runs_to(seq![TokenView::Keyword("lsr"@), TokenView::Register(r), TokenView::Comma, TokenView::ByteLiteral(b)], "lsr"@, seq![opcode(InstructionKind::Lsr(r)), b]),
{
    lemma_keyword_texts();
    let toks = seq![TokenView::Keyword("lsr"@), TokenView::Register(r), TokenView::Comma, TokenView::ByteLiteral(b)];
    let code = seq![opcode(InstructionKind::Lsr(r)), b];
    assert forall|a: AsmView|
        a.cursor == 1 && a.tokens == toks && a.code.len() == 0 && a.loc == BASE implies
        #[trigger] a.assemble_kw("lsr"@) == (
            AsmView { cursor: toks.len() as int, code, loc: (BASE + code.len()) as u16, ..a },
            Ok::<(), AsmError>(()),
        ) by {
        assert(a.code.push(opcode(InstructionKind::Lsr(r))).push(b) =~= code);
    }
}

/// `ld R, 0xNN` generates the opcode and the byte.
proof fn lemma_runs_ld_imm8(r: Reg, b: u8)
    requires
        !reg_is16(r),
    ensures
        runs_to(seq![TokenView::Keyword("ld"@), TokenView::Register(r), TokenView::Comma, TokenView::ByteLiteral(b)], "ld"@, seq![opcode(InstructionKind::LdRegImm(r)), b]),
{
    lemma_keyword_texts();
    let toks = seq![TokenView::Keyword("ld"@), TokenView::Register(r), TokenView::Comma, TokenView::ByteLiteral(b)];
    let code = seq![opcode(InstructionKind::LdRegImm(r)), b];
    assert forall|a: AsmView|
        a.cursor == 1 && a.tokens == toks && a.code.len() == 0 && a.loc == BASE implies
        #[trigger] a.assemble_kw("ld"@) == (
            AsmView { cursor: toks.len() as int, code, loc: (BASE + code.len()) as u16, ..a },
            Ok::<(), AsmError>(()),
        ) by {
        assert(a.code.push(opcode(InstructionKind::LdRegImm(r))).push(b) =~= code);
    }
}

/// `ld RR, 0xNNNN` generates the opcode and the word, low byte first.
proof fn lemma_runs_ld_imm16(r: Reg, w: u16)
    requires
        reg_is16(r),
    ensures
        runs_to(seq![TokenView::Keyword("ld"@), TokenView::Register(r), TokenView::Comma, TokenView::WordLiteral(w)], "ld"@, seq![opcode(InstructionKind::LdRegImm(r)), lo(w), hi(w)]),
{
    lemma_keyword_texts();
    let toks = seq![TokenView::Keyword("ld"@), TokenView::Register(r), TokenView::Comma, TokenView::WordLiteral(w)];
    let code = seq![opcode(InstructionKind::LdRegImm(r)), lo(w), hi(w)];
    assert forall|a: AsmView|
        a.cursor == 1 && a.tokens == toks && a.code.len() == 0 && a.loc == BASE implies
        #[trigger] a.assemble_kw("ld"@) == (
            AsmView { cursor: toks.len() as int, code, loc: (BASE + code.len()) as u16, ..a },
            Ok::<(), AsmError>(()),
        ) by {
        assert(a.code.push(opcode(InstructionKind::LdRegImm(r))).push(lo(w)).push(hi(w)) =~= code);
    }
}

/// A branch with a byte displacement generates the opcode and the displacement.
proof fn lemma_runs_branch(ins: InstructionKind, b: u8)
    requires
        ins is BranchAlways || ins is BranchCc || ins is BranchCs || ins is BranchEq || ins is BranchNe,
    ensures
        runs_to(seq![TokenView::Keyword(mnemonic(ins)), TokenView::ByteLiteral(b)], mnemonic(ins), seq![opcode(ins), b]),
{
    lemma_keyword_texts();
    let toks = seq![TokenView::Keyword(mnemonic(ins)), TokenView::ByteLiteral(b)];
    let code = seq![opcode(ins), b];
    assert forall|a: AsmView|
        a.cursor == 1 && a.tokens == toks && a.code.len() == 0 && a.loc == BASE implies
        #[trigger] a.assemble_kw(mnemonic(ins)) == (
            AsmView { cursor: toks.len() as int, code, loc: (BASE + code.len()) as u16, ..a },
            Ok::<(), AsmError>(()),
        ) by {
        assert(a.code.push(opcode(ins)).push(b) =~= code);
    }
}

/// `trap 0xNN`, for a trap code up to 0x3F, generates the opcode and the code.
proof fn lemma_runs_trap(b: u8)
    requires
        b <= 0x3F,
    ensures
        runs_to(seq![TokenView::Keyword("trap"@), TokenView::ByteLiteral(b)], "trap"@, seq![opcode(InstructionKind::Trap), b]),
{
    lemma_keyword_texts();
    let toks = seq![TokenView::Keyword("trap"@), TokenView::ByteLiteral(b)];
    let code = seq![opcode(InstructionKind::Trap), b];
    assert forall|a: AsmView|
        a.cursor == 1 && a.tokens == toks && a.code.len() == 0 && a.loc == BASE implies
        #[trigger] a.assemble_kw("trap"@) == (
            AsmView { cursor: toks.len() as int, code, loc: (BASE + code.len()) as u16, ..a },
            Ok::<(), AsmError>(()),
        ) by {
        assert(a.code.push(opcode(InstructionKind::Trap)).push(b) =~= code);
    }
}

/// `call` and `jmp` to an address generate the opcode and the address, low byte first.
proof fn lemma_runs_far(ins: InstructionKind, w: u16)
    requires
        ins is Call || ins is Jmp,
    ensures
        runs_to(seq![TokenView::Keyword(mnemonic(ins)), TokenView::WordLiteral(w)], mnemonic(ins), seq![opcode(ins), lo(w), hi(w)]),
{
    lemma_keyword_texts();
    let toks = seq![TokenView::Keyword(mnemonic(ins)), TokenView::WordLiteral(w)];
    let code = seq![opcode(ins), lo(w), hi(w)];
    assert forall|a: AsmView|
        a.cursor == 1 && a.tokens == toks && a.code.len() == 0 && a.loc == BASE implies
        #[trigger] a.assemble_kw(mnemonic(ins)) == (
            AsmView { cursor: toks.len() as int, code, loc: (BASE + code.len()) as u16, ..a },
            Ok::<(), AsmError>(()),
        ) by {
        assert(a.code.push(opcode(ins)).push(lo(w)).push(hi(w)) =~= code);
    }
}

/// `inc (RR)` and `dec (RR)` generate the opcode and the register byte.
proof fn lemma_runs_indirect(ins: InstructionKind, src: Reg)
    requires
        ins is IncIndirect || ins is DecIndirect,
        reg_is16(src),
    ensures
        runs_to(seq![TokenView::Keyword(mnemonic(ins)), TokenView::ParenOpen, TokenView::Register(src), TokenView::ParenClose], mnemonic(ins), seq![opcode(ins), spec_u8_from(src, Reg::A)]),
{
    lemma_keyword_texts();
    let toks = seq![TokenView::Keyword(mnemonic(ins)), TokenView::ParenOpen, TokenView::Register(src), TokenView::ParenClose];
    let code = seq![opcode(ins), spec_u8_from(src, Reg::A)];
    assert forall|a: AsmView|
        a.cursor == 1 && a.tokens == toks && a.code.len() == 0 && a.loc == BASE implies
        #[trigger] a.assemble_kw(mnemonic(ins)) == (
            AsmView { cursor: toks.len() as int, code, loc: (BASE + code.len()) as u16, ..a },
            Ok::<(), AsmError>(()),
        ) by {
        assert(a.code.push(opcode(ins)).push(spec_u8_from(src, Reg::A)) =~= code);
    }
}

/// `inc (0xNNNN)` and `dec (0xNNNN)` generate the opcode and the address, low byte first.
proof fn lemma_runs_mem(ins: InstructionKind, w: u16)
    requires
        ins is IncMem || ins is DecMem,
    ensures
        runs_to(seq![TokenView::Keyword(mnemonic(ins)), TokenView::ParenOpen, TokenView::WordLiteral(w), TokenView::ParenClose], mnemonic(ins), seq![opcode(ins), lo(w), hi(w)]),
{
    lemma_keyword_texts();
    let toks = seq![TokenView::Keyword(mnemonic(ins)), TokenView::ParenOpen, TokenView::WordLiteral(w), TokenView::ParenClose];
    let code = seq![opcode(ins), lo(w), hi(w)];
    assert forall|a: AsmView|
        a.cursor == 1 && a.tokens == toks && a.code.len() == 0 && a.loc == BASE implies
        #[trigger] a.assemble_kw(mnemonic(ins)) == (
            AsmView { cursor: toks.len() as int, code, loc: (BASE + code.len()) as u16, ..a },
            Ok::<(), AsmError>(()),
        ) by {
        assert(a.code.push(opcode(ins)).push(lo(w)).push(hi(w)) =~= code);
    }
}

/// `ld 0xNNNN, R` generates the opcode and the address, low byte first.
proof fn lemma_runs_store_direct(r: Reg, w: u16)
    requires
        !reg_is16(r),
    ensures
        runs_to(seq![TokenView::Keyword("ld"@), TokenView::WordLiteral(w), TokenView::Comma, TokenView::Register(r)], "ld"@, seq![opcode(InstructionKind::StoreRegDirect(r)), lo(w), hi(w)]),
{
    lemma_keyword_texts();
    let toks = seq![TokenView::Keyword("ld"@), TokenView::WordLiteral(w), TokenView::Comma, TokenView::Register(r)];
    let code = seq![opcode(InstructionKind::StoreRegDirect(r)), lo(w), hi(w)];
    assert forall|a: AsmView|
        a.cursor == 1 && a.tokens == toks && a.code.len() == 0 && a.loc == BASE implies
        #[trigger] a.assemble_kw("ld"@) == (
            AsmView { cursor: toks.len() as int, code, loc: (BASE + code.len()) as u16, ..a },
            Ok::<(), AsmError>(()),
        ) by {
        assert(a.code.push(opcode(InstructionKind::StoreRegDirect(r))).push(lo(w)).push(hi(w)) =~= code);
    }
}

/// `ld R, (RR)` generates the opcode and the register byte.
proof fn lemma_runs_ld_indirect(t: Reg, src: Reg)
    requires
        !reg_is16(t),
        reg_is16(src),
    ensures
        runs_to(seq![TokenView::Keyword("ld"@), TokenView::Register(t), TokenView::Comma, TokenView::ParenOpen, TokenView::Register(src), TokenView::ParenClose], "ld"@, seq![opcode(InstructionKind::LdRegIndirect), spec_u8_from(src, t)]),
{
    lemma_keyword_texts();
    let toks = seq![TokenView::Keyword("ld"@), TokenView::Register(t), TokenView::Comma, TokenView::ParenOpen, TokenView::Register(src), TokenView::ParenClose];
    let code = seq![opcode(InstructionKind::LdRegIndirect), spec_u8_from(src, t)];
    assert forall|a: AsmView|
        a.cursor == 1 && a.tokens == toks && a.code.len() == 0 && a.loc == BASE implies
        #[trigger] a.assemble_kw("ld"@) == (
            AsmView { cursor: toks.len() as int, code, loc: (BASE + code.len()) as u16, ..a },
            Ok::<(), AsmError>(()),
        ) by {
        assert(a.code.push(opcode(InstructionKind::LdRegIndirect)).push(spec_u8_from(src, t)) =~= code);
    }
}

/// `ld T, S` for registers of one width generates the opcode and the register byte.
proof fn lemma_runs_ld_reg(t: Reg, src: Reg)
    requires
        reg_is16(t) == reg_is16(src),
    ensures
        runs_to(seq![TokenView::Keyword("ld"@), TokenView::Register(t), TokenView::Comma, TokenView::Register(src)], "ld"@, seq![opcode(InstructionKind::LdRegReg), spec_u8_from(src, t)]),
{
    lemma_keyword_texts();
    let toks = seq![TokenView::Keyword("ld"@), TokenView::Register(t), TokenView::Comma, TokenView::Register(src)];
    let code = seq![opcode(InstructionKind::LdRegReg), spec_u8_from(src, t)];
    assert forall|a: AsmView|
        a.cursor == 1 && a.tokens == toks && a.code.len() == 0 && a.loc == BASE implies
        #[trigger] a.assemble_kw("ld"@) == (
            AsmView { cursor: toks.len() as int, code, loc: (BASE + code.len()) as u16, ..a },
            Ok::<(), AsmError>(()),
        ) by {
        assert(a.code.push(opcode(InstructionKind::LdRegReg)).push(spec_u8_from(src, t)) =~= code);
    }
}

/// `ld (RR), R` generates the opcode and the register byte.
proof fn lemma_runs_store_indirect(t: Reg, src: Reg)
    requires
        reg_is16(t),
        !reg_is16(src),
    ensures
        runs_to(seq![TokenView::Keyword("ld"@), TokenView::ParenOpen, TokenView::Register(t), TokenView::ParenClose, TokenView::Comma, TokenView::Register(src)], "ld"@, seq![opcode(InstructionKind::StoreRegIndirect), spec_u8_from(src, t)]),
{
    lemma_keyword_texts();
    let toks = seq![TokenView::Keyword("ld"@), TokenView::ParenOpen, TokenView::Register(t), TokenView::ParenClose, TokenView::Comma, TokenView::Register(src)];
    let code = seq![opcode(InstructionKind::StoreRegIndirect), spec_u8_from(src, t)];
    assert forall|a: AsmView|
        a.cursor == 1 && a.tokens == toks && a.code.len() == 0 && a.loc == BASE implies
        #[trigger] a.assemble_kw("ld"@) == (
            AsmView { cursor: toks.len() as int, code, loc: (BASE + code.len()) as u16, ..a },
            Ok::<(), AsmError>(()),
        ) by {
        assert(a.code.push(opcode(InstructionKind::StoreRegIndirect)).push(spec_u8_from(src, t)) =~= code);
    }
}

/// `KW 0xNN` reads as a keyword and a byte.
proof fn lemma_tokens_byte(kw: Seq<char>, b: u8)
    requires
        is_keyword_word(kw),
    ensures
        spec_tokenize(kw + seq![' '] + hex_byte_text(b)) == seq![TokenView::Keyword(kw), TokenView::ByteLiteral(b)],
{
    let text = kw + seq![' '] + hex_byte_text(b);
    let e = Seq::<char>::empty();
    let sp = seq![' '];
    assert(text =~= kw + sp + (hex_byte_text(b) + e + e));
    lemma_byte_then(b, e, e);
    lemma_kw_then(kw, sp, hex_byte_text(b) + e + e);
    lemma_tokenize_from_start(text);
    assert(spec_tokenize(text) =~= seq![TokenView::Keyword(kw), TokenView::ByteLiteral(b)]);
}

/// `KW 0xNNNN` reads as a keyword and a word.
proof fn lemma_tokens_word(kw: Seq<char>, w: u16)
    requires
        is_keyword_word(kw),
    ensures
        spec_tokenize(kw + seq![' '] + hex_word_text(w)) == seq![TokenView::Keyword(kw), TokenView::WordLiteral(w)],
{
    let text = kw + seq![' '] + hex_word_text(w);
    let e = Seq::<char>::empty();
    let sp = seq![' '];
    assert(text =~= kw + sp + (hex_word_text(w) + e + e));
    lemma_word16_then(w, e, e);
    lemma_kw_then(kw, sp, hex_word_text(w) + e + e);
    lemma_tokenize_from_start(text);
    assert(spec_tokenize(text) =~= seq![TokenView::Keyword(kw), TokenView::WordLiteral(w)]);
}

/// `KW (RR)` reads as a keyword, a parenthesis, a register and a parenthesis.
proof fn lemma_tokens_paren_reg(kw: Seq<char>, r: Reg)
    requires
        is_keyword_word(kw),
    ensures
        spec_tokenize(kw + seq![' ', '('] + reg_name(r) + seq![')']) == seq![TokenView::Keyword(kw), TokenView::ParenOpen, TokenView::Register(r), TokenView::ParenClose],
{
    let text = kw + seq![' ', '('] + reg_name(r) + seq![')'];
    let e = Seq::<char>::empty();
    let sp = seq![' '];
    assert(text =~= kw + sp + (seq!['('] + e + (reg_name(r) + e + (seq![')'] + e + e))));
    lemma_punct_then(')', e, e);
    lemma_reg_then(r, e, seq![')'] + e + e);
    lemma_punct_then('(', e, reg_name(r) + e + (seq![')'] + e + e));
    lemma_kw_then(kw, sp, seq!['('] + e + (reg_name(r) + e + (seq![')'] + e + e)));
    lemma_tokenize_from_start(text);
    assert(spec_tokenize(text) =~= seq![TokenView::Keyword(kw), TokenView::ParenOpen, TokenView::Register(r), TokenView::ParenClose]);
}

/// `KW (0xNNNN)` reads as a keyword, a parenthesis, a word and a parenthesis.
proof fn lemma_tokens_paren_word(kw: Seq<char>, w: u16)
    requires
        is_keyword_word(kw),
    ensures
        spec_tokenize(kw + seq![' ', '('] + hex_word_text(w) + seq![')']) == seq![TokenView::Keyword(kw), TokenView::ParenOpen, TokenView::WordLiteral(w), TokenView::ParenClose],
{
    let text = kw + seq![' ', '('] + hex_word_text(w) + seq![')'];
    let e = Seq::<char>::empty();
    let sp = seq![' '];
    assert(text =~= kw + sp + (seq!['('] + e + (hex_word_text(w) + e + (seq![')'] + e + e))));
    lemma_punct_then(')', e, e);
    lemma_word16_then(w, e, seq![')'] + e + e);
    lemma_punct_then('(', e, hex_word_text(w) + e + (seq![')'] + e + e));
    lemma_kw_then(kw, sp, seq!['('] + e + (hex_word_text(w) + e + (seq![')'] + e + e)));
    lemma_tokenize_from_start(text);
    assert(spec_tokenize(text) =~= seq![TokenView::Keyword(kw), TokenView::ParenOpen, TokenView::WordLiteral(w), TokenView::ParenClose]);
}

/// `KW 0xNNNN, R` reads as a keyword, a word, a comma and a register.
proof fn lemma_tokens_word_reg(kw: Seq<char>, w: u16, r: Reg)
    requires
        is_keyword_word(kw),
    ensures
        spec_tokenize(kw + seq![' '] + hex_word_text(w) + seq![',', ' '] + reg_name(r)) == seq![TokenView::Keyword(kw), TokenView::WordLiteral(w), TokenView::Comma, TokenView::Register(r)],
{
    let text = kw + seq![' '] + hex_word_text(w) + seq![',', ' '] + reg_name(r);
    let e = Seq::<char>::empty();
    let sp = seq![' '];
    assert(text =~= kw + sp + (hex_word_text(w) + e + (seq![','] + sp + (reg_name(r) + e + e))));
    lemma_reg_then(r, e, e);
    lemma_punct_then(',', sp, reg_name(r) + e + e);
    lemma_word16_then(w, e, seq![','] + sp + (reg_name(r) + e + e));
    lemma_kw_then(kw, sp, hex_word_text(w) + e + (seq![','] + sp + (reg_name(r) + e + e)));
    lemma_tokenize_from_start(text);
    assert(spec_tokenize(text) =~= seq![TokenView::Keyword(kw), TokenView::WordLiteral(w), TokenView::Comma, TokenView::Register(r)]);
}

/// `KW T, S` reads as a keyword, a register, a comma and a register.
proof fn lemma_tokens_reg_reg(kw: Seq<char>, t: Reg, r: Reg)
    requires
        is_keyword_word(kw),
    ensures
        spec_tokenize(kw + seq![' '] + reg_name(t) + seq![',', ' '] + reg_name(r)) == seq![TokenView::Keyword(kw), TokenView::Register(t), TokenView::Comma, TokenView::Register(r)],
{
    let text = kw + seq![' '] + reg_name(t) + seq![',', ' '] + reg_name(r);
    let e = Seq::<char>::empty();
    let sp = seq![' '];
    assert(text =~= kw + sp + (reg_name(t) + e + (seq![','] + sp + (reg_name(r) + e + e))));
    lemma_reg_then(r, e, e);
    lemma_punct_then(',', sp, reg_name(r) + e + e);
    lemma_reg_then(t, e, seq![','] + sp + (reg_name(r) + e + e));
    lemma_kw_then(kw, sp, reg_name(t) + e + (seq![','] + sp + (reg_name(r) + e + e)));
    lemma_tokenize_from_start(text);
    assert(spec_tokenize(text) =~= seq![TokenView::Keyword(kw), TokenView::Register(t), TokenView::Comma, TokenView::Register(r)]);
}

/// `(R)` reads as a parenthesis, a register and a parenthesis.
proof fn lemma_tokens_parens(r: Reg)
    ensures
        tokens_from(seq!['('] + Seq::<char>::empty() + (reg_name(r) + Seq::<char>::empty() + (
        seq![')'] + Seq::<char>::empty() + Seq::<char>::empty())), 0) == seq![
            TokenView::ParenOpen,
            TokenView::Register(r),
            TokenView::ParenClose,
        ],
{
    let e = Seq::<char>::empty();
    let close = seq![')'] + e + e;
    let inner = reg_name(r) + e + close;
    lemma_punct_then(')', e, e);
    assert(tokens_from(close, 0) =~= seq![TokenView::ParenClose]);
    lemma_reg_then(r, e, close);
    assert(tokens_from(inner, 0) =~= seq![TokenView::Register(r), TokenView::ParenClose]);
    lemma_punct_then('(', e, inner);
    assert(tokens_from(seq!['('] + e + inner, 0) =~= seq![
        TokenView::ParenOpen,
        TokenView::Register(r),
        TokenView::ParenClose,
    ]);
}

/// `KW T, (S)` reads as a keyword, a register, a comma, a parenthesis, a register and a
/// parenthesis.
proof fn lemma_tokens_reg_paren_reg(kw: Seq<char>, t: Reg, r: Reg)
    requires
        is_keyword_word(kw),
    ensures
        spec_tokenize(kw + seq![' '] + reg_name(t) + seq![',', ' ', '('] + reg_name(r) + seq![')'])
            == seq![
            TokenView::Keyword(kw),
            TokenView::Register(t),
            TokenView::Comma,
            TokenView::ParenOpen,
            TokenView::Register(r),
            TokenView::ParenClose,
        ],
{
    let text = kw + seq![' '] + reg_name(t) + seq![',', ' ', '('] + reg_name(r) + seq![')'];
    let e = Seq::<char>::empty();
    let sp = seq![' '];
    let parens = seq!['('] + e + (reg_name(r) + e + (seq![')'] + e + e));
    let tail = seq![','] + sp + parens;
    let after_kw = reg_name(t) + e + tail;
    assert(text =~= kw + sp + after_kw);
    lemma_tokens_parens(r);
    lemma_punct_then(',', sp, parens);
    let ptoks = seq![TokenView::ParenOpen, TokenView::Register(r), TokenView::ParenClose];
    assert(tokens_from(tail, 0) =~= seq![TokenView::Comma] + ptoks);
    lemma_reg_then(t, e, tail);
    assert(tokens_from(after_kw, 0) =~= seq![TokenView::Register(t), TokenView::Comma] + ptoks);
    lemma_kw_then(kw, sp, after_kw);
    lemma_tokenize_from_start(text);
    assert(spec_tokenize(text) =~= seq![
        TokenView::Keyword(kw),
        TokenView::Register(t),
        TokenView::Comma,
        TokenView::ParenOpen,
        TokenView::Register(r),
        TokenView::ParenClose,
    ]);
}

/// `KW (T), S` reads as a keyword, a parenthesis, a register, a parenthesis, a comma and
/// a register.
proof fn lemma_tokens_paren_reg_reg(kw: Seq<char>, t: Reg, r: Reg)
    requires
        is_keyword_word(kw),
    ensures
        spec_tokenize(kw + seq![' ', '('] + reg_name(t) + seq![')', ',', ' '] + reg_name(r))
            == seq![
            TokenView::Keyword(kw),
            TokenView::ParenOpen,
            TokenView::Register(t),
            TokenView::ParenClose,
            TokenView::Comma,
            TokenView::Register(r),
        ],
{
    let text = kw + seq![' ', '('] + reg_name(t) + seq![')', ',', ' '] + reg_name(r);
    let e = Seq::<char>::empty();
    let sp = seq![' '];
    let last = reg_name(r) + e + e;
    let comma = seq![','] + sp + last;
    let close = seq![')'] + e + comma;
    let inner = reg_name(t) + e + close;
    let open = seq!['('] + e + inner;
    assert(text =~= kw + sp + open);
    lemma_reg_then(r, e, e);
    assert(tokens_from(last, 0) =~= seq![TokenView::Register(r)]);
    lemma_punct_then(',', sp, last);
    assert(tokens_from(comma, 0) =~= seq![TokenView::Comma, TokenView::Register(r)]);
    lemma_punct_then(')', e, comma);
    assert(tokens_from(close, 0) =~= seq![
        TokenView::ParenClose,
        TokenView::Comma,
        TokenView::Register(r),
    ]);
    lemma_reg_then(t, e, close);
    lemma_punct_then('(', e, inner);
    assert(tokens_from(open, 0) =~= seq![
        TokenView::ParenOpen,
        TokenView::Register(t),
        TokenView::ParenClose,
        TokenView::Comma,
        TokenView::Register(r),
    ]);
    lemma_kw_then(kw, sp, open);
    lemma_tokenize_from_start(text);
    assert(spec_tokenize(text) =~= seq![
        TokenView::Keyword(kw),
        TokenView::ParenOpen,
        TokenView::Register(t),
        TokenView::ParenClose,
        TokenView::Comma,
        TokenView::Register(r),
    ]);
}

/// The word that the disassembler reads from two bytes has them as its low and high
/// bytes.
proof fn lemma_word_bytes(x: u8, y: u8)
    ensures
        lo((x + 256 * y) as u16) == x,
        hi((x + 256 * y) as u16) == y,
{
    let w = (x + 256 * y) as u16;
    assert(w == x + 256 * y);
}

/// `OP R, 0xNN` for an 8-bit register assembles back from its text.
#[verifier::spinoff_prover]
#[verifier::rlimit(40)]
proof fn lemma_round_trip_reg_byte(code: Seq<u8>, ins: InstructionKind)
    requires
        code.len() == 2,
        decode(code[0]) == Some(ins),
        ins is Add || ins is And || ins is Sub || ins is Lsr || ins is Cmp || ins is LdRegImm,
        !reg_is16(named_reg(ins)),
    ensures
        spec_assemble(dis_line(code, 0).0) == Ok::<Seq<u8>, AssemblyError>(code),
{
    lemma_keyword_texts();
    lemma_phrase_texts();
    lemma_opcode_decode(code[0]);
    let r = named_reg(ins);
    let kw = mnemonic(ins);
    let b = code[1];
    let text = dis_line(code, 0).0;
    assert(text =~= kw + seq![' '] + reg_name(r) + seq![',', ' '] + hex_byte_text(b));
    lemma_tokens_reg_byte(kw, r, b);
    match ins {
        InstructionKind::Lsr(_) => lemma_runs_lsr(r, b),
        InstructionKind::Cmp(_) => lemma_runs_compare8(r, b),
        InstructionKind::LdRegImm(_) => lemma_runs_ld_imm8(r, b),
        _ => lemma_runs_reg_imm8(ins, b),
    }
    assert(code =~= seq![opcode(ins), b]);
    let toks = seq![
        TokenView::Keyword(kw),
        TokenView::Register(r),
        TokenView::Comma,
        TokenView::ByteLiteral(b),
    ];
    lemma_statement_runs(toks, kw, code);
}

/// `cmp RR, 0xNNNN` and `ld RR, 0xNNNN` assemble back from their text.
#[verifier::spinoff_prover]
#[verifier::rlimit(40)]
proof fn lemma_round_trip_reg_word(code: Seq<u8>, ins: InstructionKind)
    requires
        code.len() == 3,
        decode(code[0]) == Some(ins),
        ins is Cmp || ins is LdRegImm,
        reg_is16(named_reg(ins)),
    ensures
        spec_assemble(dis_line(code, 0).0) == Ok::<Seq<u8>, AssemblyError>(code),
{
    lemma_keyword_texts();
    lemma_phrase_texts();
    lemma_opcode_decode(code[0]);
    let r = named_reg(ins);
    let kw = mnemonic(ins);
    let w = (code[1] + 256 * code[2]) as u16;
    lemma_word_bytes(code[1], code[2]);
    let text = dis_line(code, 0).0;
    assert(text =~= kw + seq![' '] + reg_name(r) + seq![',', ' '] + hex_word_text(w));
    lemma_tokens_reg_word(kw, r, w);
    match ins {
        InstructionKind::Cmp(_) => lemma_runs_compare16(r, w),
        _ => lemma_runs_ld_imm16(r, w),
    }
    assert(code =~= seq![opcode(ins), lo(w), hi(w)]);
    let toks = seq![
        TokenView::Keyword(kw),
        TokenView::Register(r),
        TokenView::Comma,
        TokenView::WordLiteral(w),
    ];
    lemma_statement_runs(toks, kw, code);
}

/// Branches and `trap` (with a trap code up to 0x3F) assemble back from their text.
proof fn lemma_round_trip_byte(code: Seq<u8>, ins: InstructionKind)
    requires
        code.len() == 2,
        decode(code[0]) == Some(ins),
        ins is BranchAlways || ins is BranchCc || ins is BranchCs || ins is BranchEq
            || ins is BranchNe || ins is Trap,
        ins is Trap ==> code[1] <= 0x3F,
    ensures
        spec_assemble(dis_line(code, 0).0) == Ok::<Seq<u8>, AssemblyError>(code),
{
    lemma_keyword_texts();
    lemma_phrase_texts();
    lemma_opcode_decode(code[0]);
    let kw = mnemonic(ins);
    let b = code[1];
    let text = dis_line(code, 0).0;
    assert(text =~= kw + seq![' '] + hex_byte_text(b));
    lemma_tokens_byte(kw, b);
    if ins is Trap {
        lemma_runs_trap(b);
    } else {
        lemma_runs_branch(ins, b);
    }
    assert(code =~= seq![opcode(ins), b]);
    lemma_statement_runs(seq![TokenView::Keyword(kw), TokenView::ByteLiteral(b)], kw, code);
}

/// `call` and `jmp` assemble back from their text.
proof fn lemma_round_trip_far(code: Seq<u8>, ins: InstructionKind)
    requires
        code.len() == 3,
        decode(code[0]) == Some(ins),
        ins is Call || ins is Jmp,
    ensures
        spec_assemble(dis_line(code, 0).0) == Ok::<Seq<u8>, AssemblyError>(code),
{
    lemma_keyword_texts();
    lemma_phrase_texts();
    lemma_opcode_decode(code[0]);
    let kw = mnemonic(ins);
    let w = (code[1] + 256 * code[2]) as u16;
    lemma_word_bytes(code[1], code[2]);
    let text = dis_line(code, 0).0;
    assert(text =~= kw + seq![' '] + hex_word_text(w));
    lemma_tokens_word(kw, w);
    lemma_runs_far(ins, w);
    assert(code =~= seq![opcode(ins), lo(w), hi(w)]);
    lemma_statement_runs(seq![TokenView::Keyword(kw), TokenView::WordLiteral(w)], kw, code);
}

/// A register byte whose nibbles both name registers encodes those registers.
proof fn lemma_pair_byte(x: u8)
    requires
        spec_source_and_target(x) is Some,
    ensures
        match spec_source_and_target(x) {
            Some((src, t)) => spec_u8_from(src, t) == x,
            None => false,
        },
{
    lemma_reg_from_id_inverse(x / 16);
    lemma_reg_from_id_inverse(x % 16);
}

/// A register byte with a 16-bit register in its high nibble and a zero low nibble
/// encodes that register with `a`.
proof fn lemma_indirect_byte(x: u8)
    requires
        reg_from_id(x / 16) is Some,
        x % 16 == 0,
    ensures
        spec_u8_from(reg_from_id(x / 16)->0, Reg::A) == x,
{
    lemma_reg_from_id_inverse(x / 16);
}

/// `inc (RR)` and `dec (RR)` assemble back from their text.
proof fn lemma_round_trip_indirect(code: Seq<u8>, ins: InstructionKind)
    requires
        code.len() == 2,
        decode(code[0]) == Some(ins),
        ins is IncIndirect || ins is DecIndirect,
        code[1] % 16 == 0,
        reg_from_id(code[1] / 16) matches Some(src) && reg_is16(src),
    ensures
        spec_assemble(dis_line(code, 0).0) == Ok::<Seq<u8>, AssemblyError>(code),
{
    lemma_keyword_texts();
    lemma_phrase_texts();
    lemma_opcode_decode(code[0]);
    let kw = mnemonic(ins);
    let src = reg_from_id(code[1] / 16)->0;
    let text = dis_line(code, 0).0;
    assert(text =~= kw + seq![' ', '('] + reg_name(src) + seq![')']);
    lemma_tokens_paren_reg(kw, src);
    lemma_runs_indirect(ins, src);
    lemma_indirect_byte(code[1]);
    assert(code =~= seq![opcode(ins), spec_u8_from(src, Reg::A)]);
    lemma_statement_runs(
        seq![
            TokenView::Keyword(kw),
            TokenView::ParenOpen,
            TokenView::Register(src),
            TokenView::ParenClose,
        ],
        kw,
        code,
    );
}

/// `inc (0xNNNN)` and `dec (0xNNNN)` assemble back from their text.
proof fn lemma_round_trip_mem(code: Seq<u8>, ins: InstructionKind)
    requires
        code.len() == 3,
        decode(code[0]) == Some(ins),
        ins is IncMem || ins is DecMem,
    ensures
        spec_assemble(dis_line(code, 0).0) == Ok::<Seq<u8>, AssemblyError>(code),
{
    lemma_keyword_texts();
    lemma_phrase_texts();
    lemma_opcode_decode(code[0]);
    let kw = mnemonic(ins);
    let w = (code[1] + 256 * code[2]) as u16;
    lemma_word_bytes(code[1], code[2]);
    let text = dis_line(code, 0).0;
    assert(text =~= kw + seq![' ', '('] + hex_word_text(w) + seq![')']);
    lemma_tokens_paren_word(kw, w);
    lemma_runs_mem(ins, w);
    assert(code =~= seq![opcode(ins), lo(w), hi(w)]);
    lemma_statement_runs(
        seq![
            TokenView::Keyword(kw),
            TokenView::ParenOpen,
            TokenView::WordLiteral(w),
            TokenView::ParenClose,
        ],
        kw,
        code,
    );
}

/// `ld 0xNNNN, R` assembles back from its text.
proof fn lemma_round_trip_store_direct(code: Seq<u8>, r: Reg)
    requires
        code.len() == 3,
        decode(code[0]) == Some(InstructionKind::StoreRegDirect(r)),
    ensures
        spec_assemble(dis_line(code, 0).0) == Ok::<Seq<u8>, AssemblyError>(code),
{
    lemma_keyword_texts();
    lemma_phrase_texts();
    lemma_opcode_decode(code[0]);
    let w = (code[1] + 256 * code[2]) as u16;
    lemma_word_bytes(code[1], code[2]);
    let text = dis_line(code, 0).0;
    assert(text =~= "ld"@ + seq![' '] + hex_word_text(w) + seq![',', ' '] + reg_name(r));
    lemma_tokens_word_reg("ld"@, w, r);
    lemma_runs_store_direct(r, w);
    assert(code =~= seq![opcode(InstructionKind::StoreRegDirect(r)), lo(w), hi(w)]);
    lemma_statement_runs(
        seq![
            TokenView::Keyword("ld"@),
            TokenView::WordLiteral(w),
            TokenView::Comma,
            TokenView::Register(r),
        ],
        "ld"@,
        code,
    );
}

/// `ld T, (S)`, `ld T, S` and `ld (T), S` assemble back from their text, when the
/// registers have the widths that the statement takes.
#[verifier::spinoff_prover]
#[verifier::rlimit(40)]
proof fn lemma_round_trip_pair(code: Seq<u8>, ins: InstructionKind)
    requires
        code.len() == 2,
        decode(code[0]) == Some(ins),
        ins is LdRegIndirect || ins is LdRegReg || ins is StoreRegIndirect,
        spec_source_and_target(code[1]) matches Some((src, t)) && (if ins is LdRegIndirect {
            reg_is16(src) && !reg_is16(t)
        } else if ins is LdRegReg {
            reg_is16(src) == reg_is16(t)
        } else {
            !reg_is16(src) && reg_is16(t)
        }),
    ensures
        spec_assemble(dis_line(code, 0).0) == Ok::<Seq<u8>, AssemblyError>(code),
{
    lemma_keyword_texts();
    lemma_phrase_texts();
    lemma_opcode_decode(code[0]);
    let (src, t) = spec_source_and_target(code[1])->0;
    lemma_pair_byte(code[1]);
    let text = dis_line(code, 0).0;
    assert(code =~= seq![opcode(ins), spec_u8_from(src, t)]);
    if ins is LdRegIndirect {
        assert(text =~= "ld"@ + seq![' '] + reg_name(t) + seq![',', ' ', '('] + reg_name(src)
            + seq![')']);
        lemma_tokens_reg_paren_reg("ld"@, t, src);
        lemma_runs_ld_indirect(t, src);
        lemma_statement_runs(
            seq![
                TokenView::Keyword("ld"@),
                TokenView::Register(t),
                TokenView::Comma,
                TokenView::ParenOpen,
                TokenView::Register(src),
                TokenView::ParenClose,
            ],
            "ld"@,
            code,
        );
    } else if ins is LdRegReg {
        assert(text =~= "ld"@ + seq![' '] + reg_name(t) + seq![',', ' '] + reg_name(src));
        lemma_tokens_reg_reg("ld"@, t, src);
        lemma_runs_ld_reg(t, src);
        lemma_statement_runs(
            seq![
                TokenView::Keyword("ld"@),
                TokenView::Register(t),
                TokenView::Comma,
                TokenView::Register(src),
            ],
            "ld"@,
            code,
        );
    } else {
        assert(text =~= "ld"@ + seq![' ', '('] + reg_name(t) + seq![')', ',', ' '] + reg_name(
            src,
        ));
        lemma_tokens_paren_reg_reg("ld"@, t, src);
        lemma_runs_store_indirect(t, src);
        lemma_statement_runs(
            seq![
                TokenView::Keyword("ld"@),
                TokenView::ParenOpen,
                TokenView::Register(t),
                TokenView::ParenClose,
                TokenView::Comma,
                TokenView::Register(src),
            ],
            "ld"@,
            code,
        );
    }
}

/// True if the operand bytes of `code`, an instruction `ins`, are as the assembler
/// writes them: a trap code is at most 0x3F; the register byte of `inc (RR)` and
/// `dec (RR)` has a 16-bit register in its high nibble and zero in its low nibble; that
/// of `ld T, (S)` names an 8-bit target and a 16-bit source, that of `ld (T), S` a
/// 16-bit target and an 8-bit source, and that of `ld T, S` two registers of one width.
pub open spec fn operands_as_assembled(ins: InstructionKind, code: Seq<u8>) -> bool {
    match ins {
        InstructionKind::Trap => code[1] <= 0x3F,
        InstructionKind::DecIndirect | InstructionKind::IncIndirect => code[1] % 16 == 0 && (
        reg_from_id(code[1] / 16) matches Some(src) && reg_is16(src)),
        InstructionKind::LdRegIndirect => spec_source_and_target(code[1]) matches Some((src, t))
            && reg_is16(src) && !reg_is16(t),
        InstructionKind::LdRegReg => spec_source_and_target(code[1]) matches Some((src, t))
            && reg_is16(src) == reg_is16(t),
        InstructionKind::StoreRegIndirect => spec_source_and_target(code[1]) matches Some(
            (src, t),
        ) && !reg_is16(src) && reg_is16(t),
        _ => true,
    }
}

/// True if `code` is one whole instruction as the assembler writes it: a valid opcode,
/// followed by exactly its operand bytes, which are as the assembler writes them.
pub open spec fn one_assembled_instruction(code: Seq<u8>) -> bool {
    &&& code.len() > 0
    &&& decode(code[0]) is Some
    &&& code.len() == 1 + operand_bytes(spec_operands(decode(code[0])->0))
    &&& operands_as_assembled(decode(code[0])->0, code)
}

/// Assembly undoes disassembly: the line that the disassembler shows for one whole
/// instruction, as the assembler writes instructions, assembles back to that
/// instruction's bytes; so disassembling what that line assembles to gives the line
/// back.
pub proof fn lemma_disassembly_reassembles(code: Seq<u8>)
    requires
        one_assembled_instruction(code),
    ensures
        spec_assemble(dis_line(code, 0).0) == Ok::<Seq<u8>, AssemblyError>(code),
        dis_line(spec_assemble(dis_line(code, 0).0)->Ok_0, 0).0 == dis_line(code, 0).0,
{
    let ins = decode(code[0])->0;
    lemma_opcode_decode(code[0]);
    match ins {
        InstructionKind::Clc | InstructionKind::Halt | InstructionKind::Nop | InstructionKind::Ret
        | InstructionKind::Rti | InstructionKind::Sec => {
            lemma_round_trip_plain(code, ins);
        },
        InstructionKind::Dec(_) | InstructionKind::Inc(_) | InstructionKind::Pop(_)
        | InstructionKind::Push(_) => {
            lemma_round_trip_reg(code, ins);
        },
        InstructionKind::Add(_) | InstructionKind::And(_) | InstructionKind::Sub(_)
        | InstructionKind::Lsr(_) => {
            lemma_round_trip_reg_byte(code, ins);
        },
        InstructionKind::Cmp(r) | InstructionKind::LdRegImm(r) => {
            if reg_is16(r) {
                lemma_round_trip_reg_word(code, ins);
            } else {
                lemma_round_trip_reg_byte(code, ins);
            }
        },
        InstructionKind::BranchAlways | InstructionKind::BranchCc | InstructionKind::BranchCs
        | InstructionKind::BranchEq | InstructionKind::BranchNe | InstructionKind::Trap => {
            lemma_round_trip_byte(code, ins);
        },
        InstructionKind::Call | InstructionKind::Jmp => {
            lemma_round_trip_far(code, ins);
        },
        InstructionKind::DecIndirect | InstructionKind::IncIndirect => {
            lemma_round_trip_indirect(code, ins);
        },
        InstructionKind::DecMem | InstructionKind::IncMem => {
            lemma_round_trip_mem(code, ins);
        },
        InstructionKind::StoreRegDirect(r) => {
            lemma_round_trip_store_direct(code, r);
        },
        InstructionKind::LdRegIndirect | InstructionKind::LdRegReg
        | InstructionKind::StoreRegIndirect => {
            lemma_round_trip_pair(code, ins);
        },
    }
}

/// The empty source assembles to no code (which the disassembler shows as the empty
/// text).
pub proof fn lemma_empty_source_assembles_to_nothing()
    ensures
        spec_assemble(Seq::<char>::empty()) == Ok::<Seq<u8>, AssemblyError>(Seq::<u8>::empty()),
{
    let e = Seq::<char>::empty();
    lemma_span_exact(e, 0, 0, space_pred());
    assert(spec_tokenize(e) =~= Seq::<TokenView>::empty());
}

} // verus!
