//! Tests of the assembler, the tokenizer and the disassembler.
use rx82::assembler::{
    as_hex, assemble, assemble_with_debug, disassemble, tokenize, AsmError, Assembler,
    Tokenizer,
    Disassembler, Expected, Token, BASE,
};
use rx82::instructions::InstructionKind;
use rx82::regs::Reg;

/// Checks that `source` assembled to `object`, showing both in hex if not.
fn check_asm(source: &str, generated: &[u8], object: &[u8]) {
    assert_eq!(
        generated,
        object,
        "wrong assembly for '{}': want {}, got {}",
        source,
        as_hex(object),
        as_hex(generated),
    );
}

/// Checks that `generated` disassembles to `source`.
fn check_disasm(generated: &[u8], source: &str) {
    assert_eq!(
        disassemble(generated),
        source,
        "wrong disassembly for {}",
        as_hex(generated)
    );
}

#[test]
fn assembler_accepts_label_as_immediate_word_value() {
    let source = "
        LABEL:
            ld cd, LABEL
";
    let generated = assemble_with_debug(source).unwrap();
    check_asm(
        source,
        &generated,
        &[InstructionKind::LdRegImm(Reg::CD).opcode(), 0x00, 0x01],
    );
}

#[test]
fn assembler_counts_lines_correctly() {
    let source = "ld a, 0xFF\ninc a\nhalt";
    let mut assembler = Assembler::new(tokenize(source));
    assembler.debug = true;
    assembler.assemble().unwrap();
    assert_eq!(assembler.line, 3, "wrong line count");
}

#[test]
fn assembler_uses_0x0100_as_default_base_address() {
    let source = "
        call AHEAD
        halt
    AHEAD:
        halt
";
    let mut assembler = Assembler::new(tokenize(source));
    assembler.debug = true;
    assembler.assemble().unwrap();
    let got = assembler.resolve_label("AHEAD").unwrap();
    assert_eq!(got, 0x0104, "wrong address: want {:#06X}, got {:#06X}", 0x0104, got);
}

#[test]
fn assembler_ignores_comments() {
    let source = "ld a, 0xFF ; loop count";
    let generated = assemble_with_debug(source).unwrap();
    let object = &[InstructionKind::LdRegImm(Reg::A).opcode(), 0xFF];
    check_asm(source, &generated, object);
}

#[test]
fn assembler_resolves_backward_labels() {
    let source = "
        ld a, 0x06 ; about 1 second
    LOOP:
        ld cd, 0xFFFF ; inner loop
    INNER_LOOP:
        dec cd
        bne INNER_LOOP
        dec a
        bne LOOP
        halt
";
    let generated = assemble_with_debug(source).unwrap();
    let object = &[
        InstructionKind::LdRegImm(Reg::A).opcode(),
        0x06,
        InstructionKind::LdRegImm(Reg::CD).opcode(),
        0xFF,
        0xFF,
        InstructionKind::Dec(Reg::CD).opcode(),
        InstructionKind::BranchNe.opcode(),
        0xFD,
        InstructionKind::Dec(Reg::A).opcode(),
        InstructionKind::BranchNe.opcode(),
        0xF7,
        InstructionKind::Halt.opcode(),
    ];
    check_asm(source, &generated, object);
}

#[test]
fn assembler_resolves_forward_labels_for_branches() {
    let source = "
        bra AHEAD
        halt
    AHEAD:
        halt
";
    let generated = assemble_with_debug(source).unwrap();
    let object = &[
        InstructionKind::BranchAlways.opcode(),
        0x01,
        InstructionKind::Halt.opcode(),
        InstructionKind::Halt.opcode(),
    ];
    check_asm(source, &generated, object);
}

#[test]
fn assembler_resolves_forward_labels_for_calls() {
    let source = "
        call AHEAD
        halt
    AHEAD:
        halt
";
    let generated = assemble_with_debug(source).unwrap();
    let object = &[
        InstructionKind::Call.opcode(),
        0x04,
        0x01,
        InstructionKind::Halt.opcode(),
        InstructionKind::Halt.opcode(),
    ];
    check_asm(source, &generated, object);
}

#[test]
fn data_emits_literal_bytes() {
    let source = "
        nop
        data 0x01, 0x02, 0x03
        halt
";
    let generated = assemble_with_debug(source).unwrap();
    let object = &[
        InstructionKind::Nop.opcode(),
        0x01,
        0x02,
        0x03,
        InstructionKind::Halt.opcode(),
    ];
    check_asm(source, &generated, object);
}

#[test]
fn data_emits_bytes_for_strings() {
    let source = "
        nop
        data 0x01, \"hello\", 0x0A, 0x03
        halt
";
    let generated = assemble_with_debug(source).unwrap();
    let object = &[
        InstructionKind::Nop.opcode(),
        0x01,
        0x68,
        0x65,
        0x6C,
        0x6C,
        0x6F,
        0x0A,
        0x03,
        InstructionKind::Halt.opcode(),
    ];
    check_asm(source, &generated, object);
}

#[test]
fn emit_byte_fn_detects_wraparound_of_memory() {
    let source = "
        org 0xFFFF
        data 0x01, 0x02";
    assemble_with_debug(source).expect_err("overflowing memory should fail");
}

#[test]
fn emit_word_fn_detects_wraparound_of_memory_before_word() {
    let source = "
        org 0xFFFF
        call 0xBABE";
    assemble_with_debug(source).expect_err("overflowing memory should fail");
}

#[test]
fn emit_word_fn_detects_wraparound_of_memory_in_mid_word() {
    let source = "
        org 0xFFFE
        call 0xBABE";
    assemble_with_debug(source).expect_err("overflowing memory should fail");
}

#[test]
fn org_adjusts_subsequent_label_address() {
    let source = "
        org 0xC000
        call AHEAD
        halt
    AHEAD:
        halt
";
    let generated = assemble_with_debug(source).unwrap();
    let object = &[
        InstructionKind::Call.opcode(),
        0x04,
        0xC0,
        InstructionKind::Halt.opcode(),
        InstructionKind::Halt.opcode(),
    ];
    check_asm(source, &generated, object);
}

#[test]
fn org_after_code_start_pads_with_zeroes() {
    let source = "
        ld a, 0xFF
        bra AHEAD
        org 0x0108
    AHEAD:
        halt
";
    let generated = assemble_with_debug(source).unwrap();
    let object = &[
        InstructionKind::LdRegImm(Reg::A).opcode(),
        0xFF,
        InstructionKind::BranchAlways.opcode(),
        0x04,
        0x00,
        0x00,
        0x00,
        0x00,
        InstructionKind::Halt.opcode(),
    ];
    check_asm(source, &generated, object);
}

#[test]
fn get_displacement_fn_calculates_correct_max_displacements() {
    let mut source = String::from("LOOP:\n");
    source.push_str("nop\n".repeat(126).as_str());
    source.push_str("beq LOOP");
    let generated = assemble_with_debug(&source).unwrap();
    let mut object = vec![InstructionKind::Nop.opcode(); 126];
    object.extend([InstructionKind::BranchEq.opcode(), 0x80]);
    check_asm(&source, &generated, &object);
}

#[test]
fn get_displacement_fn_rejects_out_of_range_displacement() {
    let mut source = String::from("LOOP:\n");
    source.push_str("nop\n".repeat(127).as_str());
    source.push_str("beq LOOP");
    assemble_with_debug(source.as_str()).expect_err("invalid displacement should be rejected");
}

#[test]
fn disassembler_correctly_disassembles_multiline_programs() {
    let source = "ld a, 0x01\ndec a\nld b, 0x02\ninc b\nld c, 0x03\ndec c\ndec c";
    let code = assemble_with_debug(source).unwrap();
    let output: Vec<String> = Disassembler::new(code.as_slice()).collect();
    assert_eq!(output.join("\n"), source);
}

#[test]
fn disassembler_copes_with_invalid_code() {
    check_disasm(&[0x10], "ld a, ??? (no operand)");
    check_disasm(&[0x1D], "??? (no operand)");
    check_disasm(&[0x28], "??? (no operand)");
    check_disasm(&[0x1F], "??? (no operand)");
    check_disasm(&[0x3D], "??? (no operand)");
    check_disasm(&[0x3E], "inc (??? (no operand))");
    check_disasm(&[0x4D], "??? (no operand)");
    check_disasm(&[0x4E], "dec (??? (no operand))");
    // Invalid opcode
    check_disasm(&[0xFF, 0xFF], "??? (0xFF)");
}

#[test]
fn as_hex_fn_formats_value_as_hex() {
    assert_eq!(as_hex(&[1, 255]), "[0x01, 0xFF]");
}

#[test]
fn assembler_assembles_and_disassembles_instructions_correctly() {
    let cases: &[(&str, &[u8])] = &[
        ("", &[]),
        ("add a, 0x01", &[InstructionKind::Add(Reg::A).opcode(), 0x01]),
        ("and a, 0x01", &[InstructionKind::And(Reg::A).opcode(), 0x01]),
        ("bcc 0x10", &[InstructionKind::BranchCc.opcode(), 0x10]),
        ("bcs 0x10", &[InstructionKind::BranchCs.opcode(), 0x10]),
        ("beq 0xF0", &[InstructionKind::BranchEq.opcode(), 0xF0]),
        ("bne 0x01", &[InstructionKind::BranchNe.opcode(), 0x01]),
        ("bra 0x99", &[InstructionKind::BranchAlways.opcode(), 0x99]),
        ("call 0xBEEE", &[InstructionKind::Call.opcode(), 0xEE, 0xBE]),
        ("clc", &[InstructionKind::Clc.opcode()]),
        ("cmp d, 0x01", &[InstructionKind::Cmp(Reg::D).opcode(), 0x01]),
        ("cmp gh, 0xDEAD", &[InstructionKind::Cmp(Reg::GH).opcode(), 0xAD, 0xDE]),
        ("dec (0xBABE)", &[InstructionKind::DecMem.opcode(), 0xBE, 0xBA]),
        ("dec (gh)", &[InstructionKind::DecIndirect.opcode(), 0xB0]),
        ("dec ab", &[InstructionKind::Dec(Reg::AB).opcode()]),
        ("dec g", &[InstructionKind::Dec(Reg::G).opcode()]),
        ("halt", &[InstructionKind::Halt.opcode()]),
        ("inc (0xCAFE)", &[InstructionKind::IncMem.opcode(), 0xFE, 0xCA]),
        ("inc (cd)", &[InstructionKind::IncIndirect.opcode(), 0x90]),
        ("inc a", &[InstructionKind::Inc(Reg::A).opcode()]),
        ("inc ef", &[InstructionKind::Inc(Reg::EF).opcode()]),
        ("jmp 0x1234", &[InstructionKind::Jmp.opcode(), 0x34, 0x12]),
        ("ld (ef), a", &[InstructionKind::StoreRegIndirect.opcode(), 0x0A]),
        ("ld 0x00AF, h", &[InstructionKind::StoreRegDirect(Reg::H).opcode(), 0xAF, 0x00]),
        ("ld a, b", &[InstructionKind::LdRegReg.opcode(), 0x10]),
        ("ld ab, 0x000F", &[InstructionKind::LdRegImm(Reg::AB).opcode(), 0x0F, 0x00]),
        ("ld b, (cd)", &[InstructionKind::LdRegIndirect.opcode(), 0x91]),
        ("ld b, 0xFF", &[InstructionKind::LdRegImm(Reg::B).opcode(), 0xFF]),
        ("ld cd, 0xBEEF", &[InstructionKind::LdRegImm(Reg::CD).opcode(), 0xEF, 0xBE]),
        ("ld sp, 0x010F", &[InstructionKind::LdRegImm(Reg::SP).opcode(), 0x0F, 0x01]),
        ("lsr a, 0x04", &[InstructionKind::Lsr(Reg::A).opcode(), 0x04]),
        ("nop", &[InstructionKind::Nop.opcode()]),
        ("pop e", &[InstructionKind::Pop(Reg::E).opcode()]),
        ("push c", &[InstructionKind::Push(Reg::C).opcode()]),
        ("ret", &[InstructionKind::Ret.opcode()]),
        ("rti", &[InstructionKind::Rti.opcode()]),
        ("sec", &[InstructionKind::Sec.opcode()]),
        ("sub a, 0x01", &[InstructionKind::Sub(Reg::A).opcode(), 0x01]),
        ("trap 0x01", &[InstructionKind::Trap.opcode(), 0x01]),
    ];
    for &(source, object) in cases {
        let generated = assemble_with_debug(source).unwrap();
        check_asm(source, &generated, object);
        check_disasm(&generated, source);
    }
}

#[test]
fn assembler_rejects_invalid_code() {
    let cases: &[&str] = &[
        "&",
        "add",
        "add a",
        "add a, cd",
        "add ab, 0xFFFF",
        "and",
        "and ab, 0xFF",
        "and cd, 0xC0DE",
        "and a, 0x1000",
        "and 0x01, 0x0F",
        "bcc",
        "bcs a",
        "bcs 0x1000",
        "beq UNDEFINED_LABEL",
        "beq",
        "bne 0x1000",
        "bogus",
        "bra a",
        "call 0x01",
        "call gh",
        "call",
        "clc 0x00",
        "cmp a, b, d",
        "data (",
        "data \"©\"",
        "data",
        "dec (",
        "dec (a)",
        "dec z",
        "dec",
        "inc (",
        "inc (0xFF)",
        "inc (a)",
        "inc ,",
        "inc 0x0000",
        "inc ax",
        "inc",
        "jmp",
        "jmp ab",
        "jmp 0x01",
        "ld (0x0), b",
        "ld 0x0000",
        "ld 0x0000, ",
        "ld 0x00AF, ab",
        "ld a 0x01",
        "ld a",
        "ld a, ",
        "ld a, (bogus)",
        "ld a, 0x1000",
        "ld a, 0xZ",
        "ld a, LABEL",
        "ld a, cd",
        "ld ab, (cd)",
        "ld ab, 0x--",
        "ld ab, 0x00009",
        "ld ab, UNDEFINED",
        "ld bogus, 0x01",
        "ld cd, 0x09",
        "ld ef",
        "ld ef, 0x02",
        "ld",
        "lsr",
        "lsr a",
        "lsr ab, 0x02",
        "nop\norg 0x0000",
        "org 0xFFFF\nld a, 0x01",
        "pop 0x01",
        "push",
        "ret cd",
        "rti 0x0100",
        "sec ab",
        "sub",
        "sub a",
        "sub a, cd",
        "sub ab, 0xFFFF",
        "trap 0x40",
        "trap 0xFF",
        "trap a",
        "trap",
    ];
    for &source in cases {
        assemble_with_debug(source)
            .expect_err(&format!("assembling invalid source '{source}' should fail"));
    }
}

/// The kind of error that assembling `source` gives.
fn error_kind(source: &str) -> AsmError {
    assemble(source).expect_err("source should be rejected").kind
}

#[test]
fn each_assembly_error_has_an_input_that_gives_it() {
    assert_eq!(error_kind("add"), AsmError::UnexpectedEnd);
    assert_eq!(error_kind("ld a 0x01"), AsmError::Expected(Expected::Comma));
    assert_eq!(error_kind("&"), AsmError::UnexpectedToken);
    assert_eq!(error_kind("org 0xFFFF\ndata 0x01, 0x02"), AsmError::CodeTooBig);
    let mut far = String::from("LOOP:\n");
    far.push_str("nop\n".repeat(127).as_str());
    far.push_str("beq LOOP");
    assert_eq!(error_kind(&far), AsmError::DisplacementOutOfRange(0xFF7F));
    assert_eq!(error_kind("beq UNDEFINED_LABEL"), AsmError::UndefinedLabel);
    assert_eq!(error_kind("data \"\u{a9}\""), AsmError::NonAscii('\u{a9}'));
    assert_eq!(error_kind("nop\norg 0x0000"), AsmError::InvalidOrg(0x0000));
    assert_eq!(error_kind("trap 0x40"), AsmError::InvalidTrapCode(0x40));
    assert_eq!(error_kind("dec (a)"), AsmError::Expected(Expected::Register16OrAddress));
    assert_eq!(error_kind("ld a, cd"), AsmError::Expected(Expected::SameSizeRegister));
    assert_eq!(error_kind("ld ab, (cd)"), AsmError::Expected(Expected::Register8));
    assert_eq!(error_kind("lsr a, b"), AsmError::Expected(Expected::ShiftCount));
}

#[test]
fn assembly_errors_carry_their_line() {
    let err = assemble("nop\nnop\nbogus").expect_err("bogus is not an instruction");
    assert_eq!(err.kind, AsmError::UnexpectedToken);
    assert_eq!(err.line, 3);
}

#[test]
fn default_base_is_0x0100() {
    assert_eq!(BASE, 0x0100);
    let assembler = Assembler::new(tokenize("nop"));
    assert_eq!(assembler.loc, 0x0100);
}

#[test]
fn tokenizer_splits_a_statement() {
    let tokens = tokenize("  ld a, 0xFF ; count\nLOOP: bne LOOP");
    let want = vec![
        Token::Keyword(String::from("ld")),
        Token::Register(Reg::A),
        Token::Comma,
        Token::ByteLiteral(0xFF),
        Token::Comment(String::from("count")),
        Token::LabelDef(String::from("LOOP")),
        Token::Keyword(String::from("bne")),
        Token::Identifier(String::from("LOOP")),
    ];
    assert_eq!(tokens, want);
}

#[test]
fn tokenizer_reads_literals_and_illegal_characters() {
    let tokens = tokenize("0x1234 0x12 0x123 \"hi there\" ( ) &");
    let want = vec![
        Token::WordLiteral(0x1234),
        Token::ByteLiteral(0x12),
        Token::Illegal(String::from("123")),
        Token::StringLiteral(String::from("hi there")),
        Token::ParenOpen,
        Token::ParenClose,
        Token::Illegal(String::from("&")),
    ];
    assert_eq!(tokens, want);
}

#[test]
fn a_branch_to_a_label_lands_on_it() {
    // bne at 0x0102 to LOOP at 0x0100: 0x0104 + (-4) = 0x0100.
    let code = assemble("nop\nLOOP: nop\nbne LOOP").unwrap();
    assert_eq!(code, vec![0x01, 0x01, InstructionKind::BranchNe.opcode(), 0xFD]);
    let displacement = i32::from(i8::from_ne_bytes([code[3]]));
    assert_eq!(0x0104 + displacement, 0x0101);
}

#[test]
fn labels_take_their_latest_definition() {
    let code = assemble("X: nop\nX: nop\njmp X").unwrap();
    assert_eq!(code, vec![0x01, 0x01, InstructionKind::Jmp.opcode(), 0x01, 0x01]);
}

#[test]
fn disassembler_lists_every_instruction() {
    let code = [0x10, 0x05, 0x39, 0xFF, 0x00];
    let lines = Disassembler::new(&code).collect();
    assert_eq!(lines, vec!["ld a, 0x05", "inc cd", "??? (0xFF)", "halt"]);
    let mut dis = Disassembler::new(&code);
    assert_eq!(dis.next(), Some(String::from("ld a, 0x05")));
    assert_eq!(dis.pos, 2);
    assert_eq!(disassemble(&[]), "");
}

#[test]
fn word_operands_are_little_endian() {
    let code = assemble("ld ab, 0x1234\njmp 0xBEEF").unwrap();
    assert_eq!(code, vec![0x18, 0x34, 0x12, InstructionKind::Jmp.opcode(), 0xEF, 0xBE]);
}

#[test]
fn the_second_pass_meets_each_label_where_the_first_did() {
    let mut assembler = Assembler::new(tokenize("A: nop\njmp B\nB: halt"));
    assembler.assemble().unwrap();
    let first = vec![(String::from("A"), 0x0100), (String::from("B"), 0x0104)];
    let mut both = first.clone();
    both.extend(first);
    assert_eq!(assembler.labels, both);
    assert_eq!(assembler.code, vec![0x01, InstructionKind::Jmp.opcode(), 0x04, 0x01, 0x00]);
}

#[test]
fn sp_cannot_be_pushed_popped_or_compared() {
    assert_eq!(error_kind("push sp"), AsmError::Expected(Expected::RegisterNotSp));
    assert_eq!(error_kind("pop sp"), AsmError::Expected(Expected::RegisterNotSp));
    assert_eq!(error_kind("cmp sp, 0x0001"), AsmError::Expected(Expected::RegisterNotSp));
    assert_eq!(assemble("push c").unwrap(), vec![0xD2]);
    assert_eq!(assemble("pop gh").unwrap(), vec![InstructionKind::Pop(Reg::GH).opcode()]);
}

#[test]
fn only_0x_prefixed_numbers_are_literals() {
    let tokens = tokenize("0123 0x23");
    let want = vec![
        Token::Illegal(String::from("0")),
        Token::Illegal(String::from("1")),
        Token::Illegal(String::from("2")),
        Token::Illegal(String::from("3")),
        Token::ByteLiteral(0x23),
    ];
    assert_eq!(tokens, want);
    assert_eq!(error_kind("ld a, 0123"), AsmError::UnexpectedToken);
    assert_eq!(tokenize("0"), vec![Token::Illegal(String::from("0"))]);
}

#[test]
fn there_are_never_more_tokens_than_characters() {
    let source = "\u{e9}";
    let tokens = tokenize(source);
    assert!(tokens.len() <= source.chars().count());
    assert_eq!(error_kind(source), AsmError::UnexpectedToken);
    let tokens = tokenize("(),\n");
    assert_eq!(tokens.len(), 4);
}

#[test]
fn spaces_in_front_of_tokens_are_ignored() {
    let tight = "LOOP:ld a,0xFF\nbne LOOP";
    let loose = "  LOOP: \tld   a,   0xFF\n   bne  LOOP";
    assert_eq!(tokenize(tight), tokenize(loose));
    assert_eq!(assemble(tight).unwrap(), assemble(loose).unwrap());
}

#[test]
fn comment_takes_its_crlf_line_end() {
    let tokens = tokenize("; hi\r\nnop");
    assert_eq!(
        tokens,
        vec![
            Token::Comment(String::from("hi")),
            Token::Keyword(String::from("nop")),
        ]
    );
    assert_eq!(tokens, tokenize("; hi\nnop"));
}

#[test]
fn crlf_comment_line_counts_once() {
    let mut assembler = Assembler::new(tokenize("; c\r\nnop\nhalt"));
    assembler.assemble().unwrap();
    assert_eq!(assembler.line, 3);
}

#[test]
fn data_statement_counts_its_line() {
    let mut assembler = Assembler::new(tokenize("data 0x01\nhalt"));
    assembler.assemble().unwrap();
    assert_eq!(assembler.line, 2);
    let err = assemble("data 0x01\nbogus").expect_err("bogus is not an instruction");
    assert_eq!(err.kind, AsmError::UnexpectedToken);
    assert_eq!(err.line, 2);
}

#[test]
fn tokenizer_reads_all_of_its_input() {
    let mut tok = Tokenizer::new("ld a, 0x01 ; x\r\nhalt");
    let tokens = tok.tokenize();
    assert_eq!(tok.pos, tok.chars.len());
    assert_eq!(tokens.len(), 6);
}

#[test]
fn every_assembler_form_instruction_reassembles_from_its_disassembly() {
    let mut checked = 0;
    for op in 0u8..=255 {
        for &(x, y) in &[(0x00u8, 0x00u8), (0x3F, 0x12), (0xB0, 0xFF), (0x9A, 0x00), (0x19, 0x34)] {
            let code = [op, x, y];
            let line = disassemble(&code);
            if line.contains("???") {
                continue;
            }
            let Ok(back) = assemble(&line) else {
                continue;
            };
            assert_eq!(disassemble(&back), line, "line {line}");
            checked += 1;
        }
    }
    assert!(checked > 300);
    for line in ["ld (gh), b", "ld b, (cd)", "ld ab, cd", "trap 0x3F", "push a", "ret"] {
        assert_eq!(disassemble(&assemble(line).unwrap()), line);
    }
    assert!(assemble("trap 0x40").is_err());
}

#[test]
fn spaces_before_several_tokens_change_nothing() {
    let plain = "ld a,0x01\nLOOP: dec a\nbne LOOP\nhalt";
    let spaced = "   ld  a ,\t0x01\n \tLOOP:   dec   a\n  bne\tLOOP\n    halt";
    assert_eq!(tokenize(plain), tokenize(spaced));
    assert_eq!(assemble(plain).unwrap(), assemble(spaced).unwrap());
}
