//! Tests of the CPU's state machine: the states it passes through for each kind of
//! instruction, its traps, and its reset.
use rx82::assembler::{as_hex, assemble_with_debug};
use rx82::cpu::{State, TRAP_ILLEGAL};
use rx82::instructions::InstructionKind;
use rx82::regs::Reg;
use rx82::system::System;

#[test]
fn cpu_states_are_correct_for_1_byte_instruction() {
    let mut sys = System::default();
    let source = "
    nop
    halt";
    sys.mem
        .load(0x0100, &assemble_with_debug(source).unwrap())
        .unwrap();
    sys.cpu.pc = 0x0100;
    assert_eq!(sys.cpu.state, State::FetchOpcode);
    assert_eq!(sys.cpu.pc, 0x0100);
    sys.tick();
    assert_eq!(sys.cpu.state, State::WaitOpcode);
    assert_eq!(sys.cpu.pc, 0x0101);
    sys.tick();
    assert_eq!(sys.cpu.state, State::Decode);
    assert_eq!(sys.cpu.pc, 0x0101);
    sys.tick();
    assert_eq!(sys.cpu.state, State::Execute);
    assert_eq!(sys.cpu.pc, 0x0101);
    sys.tick();
    assert_eq!(sys.cpu.state, State::FetchOpcode);
    assert_eq!(sys.cpu.pc, 0x0101);
}

#[test]
fn cpu_states_are_correct_for_2_byte_instruction() {
    let mut sys = System::default();
    let source = "
    ld a, 0xFF
    halt";
    sys.mem
        .load(0x0100, &assemble_with_debug(source).unwrap())
        .unwrap();
    sys.cpu.pc = 0x0100;
    assert_eq!(sys.cpu.state, State::FetchOpcode);
    sys.tick();
    assert_eq!(sys.cpu.pc, 0x0101);
    assert_eq!(sys.cpu.state, State::WaitOpcode);
    sys.tick();
    assert_eq!(sys.cpu.state, State::Decode);
    sys.tick();
    assert_eq!(sys.cpu.state, State::WaitOp);
    assert_eq!(sys.cpu.pc, 0x0102);
    sys.tick();
    assert_eq!(sys.cpu.state, State::ReadOp);
    sys.tick();
    assert_eq!(sys.cpu.state, State::Execute);
    sys.tick();
    assert_eq!(sys.cpu.regs.get(Reg::A), 0xFF);
    assert_eq!(sys.cpu.pc, 0x0102);
}

#[test]
fn cpu_states_are_correct_for_3_byte_instruction() {
    let mut sys = System::default();
    let source = "
    ld ab, 0xBEEF
    halt";
    sys.mem
        .load(0x0100, &assemble_with_debug(source).unwrap())
        .unwrap();
    sys.cpu.pc = 0x0100;
    assert_eq!(sys.cpu.state, State::FetchOpcode);
    sys.tick();
    assert_eq!(sys.cpu.state, State::WaitOpcode);
    sys.tick();
    assert_eq!(sys.cpu.state, State::Decode);
    assert_eq!(sys.cpu.pc, 0x0101);
    sys.tick();
    assert_eq!(sys.cpu.state, State::WaitOpLo);
    sys.tick();
    assert_eq!(sys.cpu.state, State::ReadOpLo);
    assert_eq!(sys.cpu.pc, 0x0102);
    sys.tick();
    assert_eq!(sys.cpu.state, State::WaitOpHi);
    sys.tick();
    assert_eq!(sys.cpu.state, State::ReadOpHi);
    assert_eq!(sys.cpu.pc, 0x0103);
    sys.tick();
    assert_eq!(sys.cpu.state, State::Execute);
    sys.tick();
    assert_eq!(sys.cpu.regs.get(Reg::AB), 0xBEEF);
    assert_eq!(sys.cpu.pc, 0x0103);
}

#[test]
fn cpu_states_are_correct_for_mem_read_instruction() {
    let mut sys = System::default();
    let source = "
    ld b, (cd)
    halt";
    sys.mem.set(0x0110, 0xFF);
    sys.cpu.regs.set(Reg::CD, 0x0110);
    sys.mem
        .load(0x0100, &assemble_with_debug(source).unwrap())
        .unwrap();
    sys.cpu.pc = 0x0100;
    assert_eq!(sys.cpu.state, State::FetchOpcode);
    sys.tick();
    assert_eq!(sys.cpu.state, State::WaitOpcode);
    assert_eq!(sys.cpu.pc, 0x0101);
    sys.tick();
    assert_eq!(sys.cpu.state, State::Decode);
    sys.tick();
    assert_eq!(sys.cpu.state, State::WaitOp);
    sys.tick();
    assert_eq!(sys.cpu.state, State::ReadOp);
    sys.tick();
    assert_eq!(sys.cpu.state, State::Execute);
    sys.tick();
    assert_eq!(sys.cpu.pc, 0x0102);
    assert_eq!(sys.cpu.state, State::WaitLoad(Reg::B));
    sys.tick();
    assert_eq!(sys.cpu.state, State::ReadLoad(Reg::B));
    sys.tick();
    assert_eq!(sys.cpu.regs.get(Reg::B), 0xFF);
    assert_eq!(sys.cpu.pc, 0x0102);
    assert_eq!(sys.cpu.state, State::FetchOpcode);
}

#[test]
fn cpu_states_are_correct_for_mem_write_instruction() {
    let mut sys = System::default();
    let source = "
    ld 0xBEEF, a
    halt";
    sys.mem
        .load(0x0100, &assemble_with_debug(source).unwrap())
        .unwrap();
    sys.cpu.pc = 0x0100;
    sys.cpu.regs.set(Reg::A, 0xFF);
    assert_eq!(sys.cpu.state, State::FetchOpcode);
    sys.tick();
    assert_eq!(sys.cpu.state, State::WaitOpcode);
    sys.tick();
    assert_eq!(sys.cpu.state, State::Decode);
    sys.tick();
    assert_eq!(sys.cpu.state, State::WaitOpLo);
    assert_eq!(sys.cpu.pc, 0x0102);
    sys.tick();
    assert_eq!(sys.cpu.state, State::ReadOpLo);
    sys.tick();
    assert_eq!(sys.cpu.state, State::WaitOpHi);
    sys.tick();
    assert_eq!(sys.cpu.state, State::ReadOpHi);
    assert_eq!(sys.cpu.pc, 0x0103);
    sys.tick();
    assert_eq!(sys.cpu.state, State::Execute);
    sys.tick();
    assert_eq!(sys.cpu.state, State::FetchOpcode);
    sys.tick();
    assert_eq!(sys.cpu.state, State::WaitOpcode);
    assert_eq!(sys.cpu.pc, 0x0104);
}

#[test]
fn cpu_states_are_correct_for_16_bit_pop_instruction() {
    let mut sys = System::default();
    let source = "
    pop cd
    halt";
    sys.mem.load(0xBFFE, &[0xBA, 0xBE]).unwrap();
    sys.cpu.regs.set(Reg::SP, 0xBFFD);
    sys.mem
        .load(0x0100, &assemble_with_debug(source).unwrap())
        .unwrap();
    sys.cpu.pc = 0x0100;
    assert_eq!(sys.cpu.state, State::FetchOpcode);
    sys.tick();
    assert_eq!(sys.cpu.state, State::WaitOpcode);
    sys.tick();
    assert_eq!(sys.cpu.state, State::Decode);
    sys.tick();
    assert_eq!(sys.cpu.state, State::Execute);
    sys.tick();
    assert_eq!(sys.cpu.state, State::WaitStackHi(Reg::CD));
    sys.tick();
    assert_eq!(sys.cpu.state, State::ReadStackHi(Reg::CD));
    sys.tick();
    assert_eq!(sys.cpu.state, State::WaitLoad(Reg::CD));
    sys.tick();
    assert_eq!(sys.cpu.state, State::ReadLoad(Reg::CD));
    sys.tick();
    assert_eq!(sys.cpu.state, State::FetchOpcode);
}

#[test]
fn cpu_states_are_correct_for_16_bit_push_instruction() {
    let mut sys = System::default();
    let source = "
    push ab
    halt";
    sys.cpu.regs.set(Reg::SP, 0xBFFF);
    sys.cpu.regs.set(Reg::AB, 0xCAFE);
    sys.mem
        .load(0x0100, &assemble_with_debug(source).unwrap())
        .unwrap();
    sys.cpu.pc = 0x0100;
    assert_eq!(sys.cpu.state, State::FetchOpcode);
    sys.tick();
    assert_eq!(sys.cpu.state, State::WaitOpcode);
    sys.tick();
    assert_eq!(sys.cpu.state, State::Decode);
    sys.tick();
    assert_eq!(sys.cpu.state, State::Execute);
    sys.tick();
    assert_eq!(sys.cpu.state, State::WaitPush(0xCA));
    sys.tick();
    assert_eq!(sys.cpu.state, State::FetchOpcode);
}

#[test]
fn cpu_traps_for_various_illegal_programs() {
    let mut sys = System::default();
    // dummy trap 0x00 handler, jumps to `halt` at 0x0002
    sys.mem.load(0x0000, &[0x02, 0x00, InstructionKind::Halt.opcode()]).unwrap();
    let cases: &[&[u8]] = &[
        &[0x01, 0xFF], // reserved opcode
        &[0x1D, 0xFF], // `ld R, (RR)` with invalid regs
        &[0x28, 0xFF], // `ld (RR), R` with invalid regs
        &[0x1F, 0x08], // `ld R, R` with mixed 8/16 regs
        &[0x3D, 0xFF], // `inc (RR)` with invalid regs
        &[0x4D, 0xFF], // `dec (RR)` with invalid regs
        &[0xF9, 0x40], // `trap` with invalid code
    ];
    for prog in cases {
        // initialise stack
        sys.cpu.regs.set(Reg::SP, 0xBFFF);
        // junk to be overwritten by trap stack frame
        sys.mem.load(0xBFFD, &[0xFF, 0xFF, 0xFF]).unwrap();
        sys.test_prog(prog);
        // verify trap stack frame
        assert_eq!(
            sys.mem.get(0xBFFD),
            TRAP_ILLEGAL,
            "{}: wrong trap code",
            as_hex(prog)
        );
        assert_eq!(
            sys.mem.get(0xBFFE),
            0x01,
            "{}: wrong return address high byte",
            as_hex(prog)
        );
        assert_eq!(
            sys.mem.get(0xBFFF),
            u8::try_from(prog.len()).unwrap(),
            "{}: wrong return address low byte",
            as_hex(prog)
        );
    }
}

#[test]
fn reset_resets_cpu() {
    let mut sys = System::default();
    sys.cpu.regs.set(Reg::AB, 0xBEEF);
    sys.cpu.regs.set(Reg::SP, 0xFFFD);
    sys.cpu.pc = 0x0000;
    sys.cpu.flags.carry = true;
    sys.cpu.flags.zero = true;
    sys.cpu.reset(&mut sys.bus);
    assert_eq!(sys.cpu.state, State::WaitResetLo);
    sys.tick();
    assert_eq!(sys.cpu.state, State::ReadResetLo);
    sys.tick();
    assert_eq!(sys.cpu.state, State::WaitAddrHi);
    sys.tick();
    assert_eq!(sys.cpu.state, State::ReadAddrHi);
    sys.tick();
    assert_eq!(sys.cpu.state, State::FetchOpcode);
    assert_eq!(sys.cpu.regs.get(Reg::AB), 0x0000, "AB not reset");
    assert_eq!(sys.cpu.regs.get(Reg::SP), 0x0000, "SP not reset");
    assert_eq!(sys.cpu.pc, 0xC000, "PC not initialized from reset vector");
    assert_eq!(sys.cpu.flags.carry, false, "carry not reset");
    assert_eq!(sys.cpu.flags.zero, false, "zero not reset");
}
