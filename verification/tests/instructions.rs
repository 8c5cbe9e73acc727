//! Tests of each instruction's effect on the system.
use rx82::assembler::assemble;
use rx82::regs::Reg;
use rx82::system::System;

/// Checks a value against what the test wants, showing both in hex if they differ.
fn check_hex(got: impl Into<u16>, want: u16, msg: &str) {
    let got: u16 = got.into();
    assert_eq!(got, want, "{}: want {:#06X}, got {:#06X}", msg, want, got);
}

#[test]
fn beq() {
    let mut sys = System::default();
    sys.cpu.flags.zero = true;
    sys.run_program(&assemble(
        "
        beq 0x00
        halt")
    .unwrap())
    .unwrap();
    check_hex(sys.cpu.pc, 0x0103, "wrong PC after zero branch");
    sys.run_program(&assemble(
        "
        beq 0x7F
        halt")
    .unwrap())
    .unwrap();
    check_hex(sys.cpu.pc, 0x0182, "wrong PC after max forward branch");
    sys.mem
        .load(
            0x1000,
            &assemble(
                "
            beq 0x80
            halt")
            .unwrap(),
        )
        .unwrap();
    sys.cpu.pc = 0x1000;
    sys.run();
    check_hex(sys.cpu.pc, 0x0F83, "wrong PC after max backward branch");
    sys.run_program(&assemble(
        "
        beq 0x01
        halt")
    .unwrap())
    .unwrap();
    check_hex(sys.cpu.pc, 0x0104, "forward branch not taken");
    sys.run_program(&assemble(
        "
        beq 0x01
        halt
        beq 0xFD")
    .unwrap())
    .unwrap();
    check_hex(sys.cpu.pc, 0x0103, "backward branch not taken");
    sys.run_program(&assemble(
        "
        beq 0x01
        halt
        inc a
        beq 0xFC")
    .unwrap())
    .unwrap();
    check_hex(sys.cpu.pc, 0x0107, "backward branch taken");
    sys.run_program(&assemble(
        "
        inc a
        beq 0x01
        halt")
    .unwrap())
    .unwrap();
    check_hex(sys.cpu.pc, 0x0104, "forward branch taken");
}

#[test]
fn bne() {
    let mut sys = System::default();
    sys.cpu.flags.zero = true;
    sys.run_program(&assemble(
        "
        bne 0x01
        halt
        halt")
    .unwrap())
    .unwrap();
    check_hex(sys.cpu.pc, 0x0103, "branch taken");
    sys.run_program(&assemble(
        "
        inc a
        bne 0x01
        halt
        halt")
    .unwrap())
    .unwrap();
    check_hex(sys.cpu.pc, 0x0105, "branch not taken");
}

#[test]
fn bra() {
    let mut sys = System::default();
    sys.cpu.flags.zero = true;
    sys.run_program(&assemble(
        "
        bra 0x01
        halt
        halt")
    .unwrap())
    .unwrap();
    check_hex(sys.cpu.pc, 0x0104, "branch not taken");
}

#[test]
fn call() {
    let mut sys = System::default();
    sys.cpu.regs.set(Reg::SP, 0x0200);
    sys.run_program(&assemble(
        "
        call SUBR
        halt
    SUBR:
        ld a, 0xFF
        halt")
    .unwrap())
    .unwrap();
    check_hex(sys.cpu.pc, 0x0107, "wrong PC");
    check_hex(sys.cpu.regs.get(Reg::A), 0xFF, "wrong A");
    check_hex(sys.peek_mem(0x01FF), 0x01, "wrong high byte on stack");
    check_hex(sys.peek_mem(0x0200), 0x03, "wrong low byte on stack");
    check_hex(sys.cpu.regs.get(Reg::SP), 0x01FE, "wrong SP");
}

#[test]
fn cmp() {
    let mut sys = System::default();
    sys.cpu.flags.zero = false;
    sys.cpu.flags.carry = false;
    sys.run_program(&assemble(
        "
        ld a, 0x01
        cmp a, 0x01
        halt")
    .unwrap())
    .unwrap();
    assert_eq!(sys.cpu.flags.zero, true, "zero clear: equal cmp");
    assert_eq!(sys.cpu.flags.carry, true, "carry clear: equal cmp");
    sys.run_program(&assemble(
        "
        ld a, 0x03
        cmp a, 0x07
        halt")
    .unwrap())
    .unwrap();
    assert_eq!(sys.cpu.flags.zero, false, "zero set: unequal cmp");
    assert_eq!(sys.cpu.flags.carry, false, "carry set: cmp with borrow");
    sys.run_program(&assemble(
        "
        ld a, 0x07
        cmp a, 0x03
        halt")
    .unwrap())
    .unwrap();
    assert_eq!(sys.cpu.flags.zero, false, "zero set: unequal comparison");
    assert_eq!(sys.cpu.flags.carry, true, "carry clear: cmp with no borrow");
    sys.run_program(&assemble(
        "
        ld gh, 0xFF03
        cmp gh, 0xFF03
        halt")
    .unwrap())
    .unwrap();
    assert_eq!(sys.cpu.flags.zero, true, "zero clear: equal cmp");
    assert_eq!(sys.cpu.flags.carry, true, "carry clear: equal cmp");
    sys.run_program(&assemble(
        "
        ld ab, 0x0003
        cmp ab, 0xFF07
        halt")
    .unwrap())
    .unwrap();
    assert_eq!(sys.cpu.flags.zero, false, "zero set: unequal cmp");
    assert_eq!(sys.cpu.flags.carry, false, "carry set: cmp with borrow");
    sys.run_program(&assemble(
        "
        ld cd, 0x0107
        cmp cd, 0x0103
        halt")
    .unwrap())
    .unwrap();
    assert_eq!(sys.cpu.flags.zero, false, "zero set: unequal cmp");
    assert_eq!(sys.cpu.flags.carry, true, "carry clear: cmp with no borrow");
    sys.run_program(&assemble(
        "
        ld cd, 0xFFFF
        cmp a, 0x00
        halt")
    .unwrap())
    .unwrap();
    assert_eq!(
        sys.cpu.flags.zero, true,
        "zero clear: equal cmp (junk in high byte?)"
    );
    assert_eq!(sys.cpu.flags.carry, true, "carry clear: cmp with no borrow");
}

#[test]
fn dec() {
    let mut sys = System::default();
    sys.run_program(&assemble(
        "
        dec a
        halt")
    .unwrap())
    .unwrap();
    check_hex(sys.cpu.regs.get(Reg::A), 0x00FF, "wrong A");
    assert_eq!(sys.cpu.flags.zero, false, "zero set: dec to non-zero");
    sys.run_program(&assemble(
        "
        ld sp, 0xFF01
        dec sp
        halt")
    .unwrap())
    .unwrap();
    check_hex(sys.cpu.regs.get(Reg::SP), 0xFF00, "wrong SP");
    assert_eq!(sys.cpu.flags.zero, false, "zero set: dec to non-zero");
    sys.run_program(&assemble(
        "
        ld a, 0x01
        dec a
        halt")
    .unwrap())
    .unwrap();
    check_hex(sys.cpu.regs.get(Reg::A), 0x0000, "wrong A");
    assert_eq!(sys.cpu.flags.zero, true, "zero clear: dec to zero");
    sys.run_program(&assemble(
        "
        ld ef, 0x0001
        dec ef
        halt")
    .unwrap())
    .unwrap();
    assert_eq!(sys.cpu.flags.zero, true, "zero clear: dec to zero");
}

#[test]
fn dec_nn() {
    let mut sys = System::default();
    sys.run_program(&assemble(
        "
        ld a, 0x02
        ld 0x0010, a
        dec (0x0010)
        halt")
    .unwrap())
    .unwrap();
    check_hex(sys.mem.get(0x0010), 0x01, "wrong memory contents");
    assert_eq!(sys.cpu.flags.zero, false, "zero set: dec to non-zero");
    sys.run_program(&assemble(
        "
        dec (0x0010)
        halt")
    .unwrap())
    .unwrap();
    check_hex(sys.mem.get(0x0010), 0x00, "wrong memory contents");
    assert_eq!(sys.cpu.flags.zero, true, "zero clear: dec to zero");
}

#[test]
fn dec_rr() {
    let mut sys = System::default();
    sys.run_program(&assemble(
        "
        ld a, 0x02
        ld ef, 0x0010
        ld (ef), a
        dec (ef)
        halt")
    .unwrap())
    .unwrap();
    check_hex(sys.mem.get(0x0010), 0x01, "wrong memory contents");
    assert_eq!(sys.cpu.flags.zero, false, "zero set: dec to non-zero");
    sys.run_program(&assemble(
        "
        dec (ef)
        halt")
    .unwrap())
    .unwrap();
    check_hex(sys.mem.get(0x0010), 0x00, "wrong memory contents");
    assert_eq!(sys.cpu.flags.zero, true, "zero clear: dec to zero");
}

#[test]
fn halt() {
    let mut sys = System::default();
    sys.run_program(&assemble("halt").unwrap()).unwrap();
    assert!(sys.cpu.halt, "not halted");
    check_hex(sys.cpu.pc, 0x0101, "wrong PC");
}

#[test]
fn inc() {
    let mut sys = System::default();
    sys.run_program(&assemble(
        "
        inc d
        halt")
    .unwrap())
    .unwrap();
    check_hex(sys.cpu.regs.get(Reg::D), 0x0001, "wrong D");
    assert_eq!(sys.cpu.flags.zero, false, "zero set: inc to non-zero");
    sys.run_program(&assemble(
        "
        inc ab
        halt")
    .unwrap())
    .unwrap();
    let _ = sys.debug_print();
    check_hex(sys.cpu.regs.get(Reg::AB), 0x0001, "wrong AB");
    assert_eq!(sys.cpu.flags.zero, false, "zero set: inc to non-zero");
    sys.run_program(&assemble(
        "
        ld a, 0xFF
        inc a
        halt")
    .unwrap())
    .unwrap();
    check_hex(sys.cpu.regs.get(Reg::A), 0x0000, "wrong A");
    assert_eq!(sys.cpu.flags.zero, true, "zero clear: inc to zero");
    sys.run_program(&assemble(
        "
        ld ab, 0xFFFF
        inc ab
        halt")
    .unwrap())
    .unwrap();
    check_hex(sys.cpu.regs.get(Reg::AB), 0x0000, "wrong AB");
    assert_eq!(sys.cpu.flags.zero, true, "zero clear: inc to zero");
    sys.run_program(&assemble(
        "
        ld sp, 0xFFFF
        inc sp
        halt")
    .unwrap())
    .unwrap();
    check_hex(sys.cpu.regs.get(Reg::SP), 0x0000, "wrong SP");
    assert_eq!(sys.cpu.flags.zero, true, "zero clear: inc to zero");
}

#[test]
fn inc_nn() {
    let mut sys = System::default();
    sys.run_program(&assemble(
        "
        ld a, 0xFE
        ld 0x0010, a
        inc (0x0010)
        halt")
    .unwrap())
    .unwrap();
    check_hex(sys.mem.get(0x0010), 0xFF, "wrong memory contents");
    assert_eq!(sys.cpu.flags.zero, false, "zero set: inc to non-zero");
    sys.run_program(&assemble(
        "
        inc (0x0010)
        halt")
    .unwrap())
    .unwrap();
    check_hex(sys.mem.get(0x0010), 0x00, "wrong memory contents");
    assert_eq!(sys.cpu.flags.zero, true, "zero clear: inc to zero");
}

#[test]
fn inc_rr() {
    let mut sys = System::default();
    sys.run_program(&assemble(
        "
        ld a, 0xFE
        ld cd, 0x0010
        ld (cd), a
        inc (cd)
        halt")
    .unwrap())
    .unwrap();
    check_hex(sys.mem.get(0x0010), 0xFF, "wrong memory contents");
    assert_eq!(sys.cpu.flags.zero, false, "zero set: inc to non-zero");
    sys.run_program(&assemble(
        "
        inc (cd)
        halt")
    .unwrap())
    .unwrap();
    check_hex(sys.mem.get(0x0010), 0x00, "wrong memory contents");
    assert_eq!(sys.cpu.flags.zero, true, "zero clear: inc to zero");
}

#[test]
fn ld_reg_imm8() {
    let mut sys = System::default();
    sys.run_program(&assemble(
        "
        ld a, 0xFF
        halt")
    .unwrap())
    .unwrap();
    check_hex(sys.cpu.regs.get(Reg::A), 0x00FF, "wrong A");
    check_hex(sys.cpu.pc, 0x0103, "wrong PC");
}

#[test]
fn ld_reg_imm16() {
    let mut sys = System::default();
    sys.run_program(&assemble(
        "
        ld ab, 0x00C0
        ld sp, 0xBEEF
        halt")
    .unwrap())
    .unwrap();
    check_hex(sys.cpu.regs.get(Reg::AB), 0x00C0, "wrong AB");
    check_hex(sys.cpu.regs.get(Reg::SP), 0xBEEF, "wrong SP");
    check_hex(sys.cpu.pc, 0x0107, "wrong PC");
}

#[test]
fn ld_reg_indirect() {
    let mut sys = System::default();
    sys.run_program(&assemble(
        "
        ld a, 0xFF
        ld 0x0100, a
        ld cd, 0x0100
        ld b, (cd)
        ld sp, 0x0100
        ld c, (sp)
        halt")
    .unwrap())
    .unwrap();
    let _ = sys.debug_print();
    check_hex(sys.cpu.regs.get(Reg::B), 0xFF, "wrong B");
    check_hex(sys.cpu.regs.get(Reg::C), 0xFF, "wrong C");
}

#[test]
fn ld_reg_reg() {
    let mut sys = System::default();
    sys.run_program(&assemble(
        "
        ld a, 0xFF
        ld b, a
        ld cd, ab
        ld e, c
        halt")
    .unwrap())
    .unwrap();
    let _ = sys.debug_print();
    check_hex(sys.cpu.regs.get(Reg::B), 0xFF, "wrong B");
    check_hex(sys.cpu.regs.get(Reg::CD), 0xFFFF, "wrong CD");
    check_hex(sys.cpu.regs.get(Reg::E), 0xFF, "wrong E");
}

#[test]
fn nop() {
    let mut sys = System::default();
    sys.run_program(&assemble(
        "
        nop
        halt")
    .unwrap())
    .unwrap();
    check_hex(sys.cpu.pc, 0x0102, "wrong PC");
}

#[test]
fn pop() {
    let mut sys = System::default();
    sys.mem.load(0xBFFD, &[0x01, 0x02, 0x03]).unwrap();
    sys.run_program(&assemble(
        "
        ld sp, 0xBFFC
        pop gh
        pop b
        halt")
    .unwrap())
    .unwrap();
    check_hex(sys.cpu.regs.get(Reg::SP), 0xBFFF, "wrong SP");
    check_hex(sys.cpu.regs.get(Reg::GH), 0x0102, "wrong GH");
    check_hex(sys.cpu.regs.get(Reg::B), 0x03, "wrong B");
}

#[test]
fn push() {
    let mut sys = System::default();
    sys.run_program(&assemble(
        "
        ld sp, 0xBFFF
        ld a, 0xFF
        push a
        ld cd, 0xCAFE
        push cd
        halt")
    .unwrap())
    .unwrap();
    check_hex(sys.cpu.regs.get(Reg::SP), 0xBFFC, "wrong SP");
    check_hex(sys.mem.get(0xBFFF), 0xFF, "wrong stack value for A");
    check_hex(sys.mem.get(0xBFFE), 0xFE, "wrong stack value for D");
    check_hex(sys.mem.get(0xBFFD), 0xCA, "wrong stack value for C");
}

#[test]
fn ret() {
    let mut sys = System::default();
    sys.cpu.regs.set(Reg::SP, 0x0200);
    sys.run_program(&assemble(
        "
        call SUBR
        inc a
        halt
    SUBR:
        ld a, 0x01
        ret")
    .unwrap())
    .unwrap();
    check_hex(sys.cpu.pc, 0x0105, "wrong PC");
    check_hex(sys.cpu.regs.get(Reg::A), 0x02, "wrong A");
    check_hex(sys.cpu.regs.get(Reg::SP), 0x0200, "wrong SP");
}

#[test]
fn rti() {
    let mut sys = System::default();
    sys.cpu.regs.set(Reg::SP, 0x0200);
    // trap vector 0x01 points to TRAP_1
    sys.mem.load(0x0000, &[0x00, 0x00, 0x10, 0x01]).unwrap();
    sys.run_program(&assemble(
        "
        trap 0x01
        inc a
        halt
        org 0x0110
    TRAP_1:
        pop a
        push a
        rti")
    .unwrap())
    .unwrap();
    check_hex(sys.cpu.pc, 0x0104, "wrong PC");
    check_hex(sys.cpu.regs.get(Reg::A), 0x02, "wrong A");
    check_hex(sys.cpu.regs.get(Reg::SP), 0x0200, "wrong SP");
}

#[test]
fn store_reg_direct() {
    let mut sys = System::default();
    sys.run_program(&assemble(
        "
        ld a, 0xFF
        ld 0xBEEF, a
        halt")
    .unwrap())
    .unwrap();
    let val = sys.mem.get(0xBEEF);
    check_hex(val, 0xFF, "wrong mem value");
}

#[test]
fn store_reg_indirect() {
    let mut sys = System::default();
    sys.run_program(&assemble(
        "
        ld ef, 0xBABE
        ld a, 0xFF
        ld (ef), a
        halt")
    .unwrap())
    .unwrap();
    let val = sys.mem.get(0xBABE);
    check_hex(val, 0xFF, "wrong mem value");
}

#[test]
fn trap() {
    let mut sys = System::default();
    sys.cpu.regs.set(Reg::SP, 0x0200);
    // trap vector 0x01 points to TRAP_1
    sys.mem.load(0x0000, &[0x00, 0x00, 0x10, 0x01]).unwrap();
    sys.run_program(&assemble(
        "
        trap 0x01
        halt
        org 0x0110
    TRAP_1:
        pop a
        push a
        halt")
    .unwrap())
    .unwrap();
    check_hex(sys.cpu.pc, 0x0113, "wrong PC");
    check_hex(sys.cpu.regs.get(Reg::A), 0x01, "wrong A");
    check_hex(sys.peek_mem(0x01FF), 0x01, "wrong high byte on stack");
    check_hex(sys.peek_mem(0x0200), 0x02, "wrong low byte on stack");
    check_hex(sys.cpu.regs.get(Reg::SP), 0x01FD, "wrong SP");
}

#[test]
fn zero_flag() {
    let mut sys = System::default();
    assert_eq!(sys.cpu.flags.zero, false, "zero flag wrongly initialised");
    sys.run_program(&assemble(
        "
        dec a
        halt")
    .unwrap())
    .unwrap(); // a = -1
    assert_eq!(sys.cpu.flags.zero, false, "zero flag set after dec");
    sys.run_program(&assemble(
        "
        inc a
        halt")
    .unwrap())
    .unwrap(); // a = 0
    assert_eq!(sys.cpu.flags.zero, true, "zero flag clear after inc");
    sys.run_program(&assemble(
        "
        inc a
        halt")
    .unwrap())
    .unwrap(); // a = 1
    assert_eq!(sys.cpu.flags.zero, false, "zero flag set after inc");
    sys.run_program(&assemble(
        "
        dec a
        halt")
    .unwrap())
    .unwrap(); // a = 0
    assert_eq!(sys.cpu.flags.zero, true, "zero flag clear after dec");
}
