//! Tests of the system as a whole, its memory, ROM, registers and bus.
use rx82::assembler::assemble;
use rx82::bus::Bstate;
use rx82::instructions::InstructionKind;
use rx82::memory::Memory;
use rx82::regs::{Reg, Regs};
use rx82::rom::Rom;
use rx82::system::System;

#[test]
fn load_checks_bounds_correctly() {
    let mut mem = Memory::default();
    mem.load(0x0000, &[0x00]).expect("valid load failed");
    mem.load(0xBFFF, &[0x00]).expect("valid load failed");
    mem.load(0xBFFE, &[0x00, 0x00, 0x00])
        .expect_err("invalid load succeeded");
    mem.load(0xC000, &[0x00])
        .expect_err("invalid load succeeded");
    mem.load(0xFFFF, &[0x00, 0x00])
        .expect_err("invalid load succeeded");
}

#[test]
fn addressing_individual_regs_works() {
    let mut regs = Regs::default();
    regs.set(Reg::A, 0x00FF);
    assert_eq!(regs.get(Reg::A), 0x00FF, "wrong A");
    regs.set(Reg::B, 0x00FF);
    assert_eq!(regs.get(Reg::B), 0x00FF, "wrong B");
}

#[test]
fn addressing_reg_pairs_works() {
    let mut regs = Regs::default();
    regs.set(Reg::A, 0x00DE);
    regs.set(Reg::B, 0x00AD);
    assert_eq!(regs.get(Reg::AB), 0xDEAD, "wrong AB");
    regs.set(Reg::AB, 0xBEEF);
    assert_eq!(regs.get(Reg::AB), 0xBEEF, "wrong AB");
    assert_eq!(regs.get(Reg::A), 0xBE, "wrong A");
    assert_eq!(regs.get(Reg::B), 0xEF, "wrong B");
}

#[test]
fn addressing_sp_works() {
    let mut regs = Regs::default();
    let sp = Reg::SP;
    regs.set(sp, 0xFFFF);
    assert!(sp.is16(), "SP should be 16-bit");
    assert_eq!(regs.get(sp), 0xFFFF, "wrong SP");
}

#[test]
fn rom_responds_to_in_range_requests() {
    let mut sys = System::default();
    sys.devices.push(Rom {
        start: 0xB000,
        end: 0xB002,
        data: vec![0xF0, 0xF1, 0xF2],
    });
    sys.run_program(
        &assemble(
            "
            ld cd, 0xBFFF
            ld a, (cd)
            halt",
        )
        .unwrap(),
    )
    .unwrap();
    assert_eq!(sys.cpu.regs.get(Reg::A), 0x00, "wrong A");
    sys.run_program(
        &assemble(
            "
            ld cd, 0xB000
            ld a, (cd)
            halt",
        )
        .unwrap(),
    )
    .unwrap();
    assert_eq!(sys.cpu.regs.get(Reg::A), 0xF0, "wrong A");
    sys.run_program(
        &assemble(
            "
            ld cd, 0xB001
            ld a, (cd)
            halt",
        )
        .unwrap(),
    )
    .unwrap();
    assert_eq!(sys.cpu.regs.get(Reg::A), 0xF1, "wrong A");
    sys.run_program(
        &assemble(
            "
            ld cd, 0xB002
            ld a, (cd)
            halt",
        )
        .unwrap(),
    )
    .unwrap();
    assert_eq!(sys.cpu.regs.get(Reg::A), 0xF2, "wrong A");
}

#[test]
fn system_trace_formatting_copes_with_long_lines() {
    let mut sys = System::default();
    let mut nops = vec![InstructionKind::Nop.opcode(); 7];
    nops.push(InstructionKind::Halt.opcode());
    sys.test_prog(&nops);
}

#[test]
fn trace_formatting_copes_with_long_lines() {
    let mut sys = System {
        debug: true,
        ..System::default()
    };
    let mut nops = vec![InstructionKind::Nop.opcode(); 7];
    nops.push(InstructionKind::Halt.opcode());
    sys.run_program(&nops).unwrap();
    sys.trace();
}

#[test]
fn program_executes_with_correct_bus_states() {
    let mut sys = System {
        debug: true,
        ..Default::default()
    };
    sys.mem
        .load(
            0x0100,
            &assemble(
                "
                ld a, 0xFF
                nop
                halt",
            )
            .unwrap(),
        )
        .unwrap();
    sys.cpu.pc = 0x0100;
    let ticks = vec![
        (
            "initial",
            [Bstate::Addr(0x0000), Bstate::Data(0x00), Bstate::Mem(false)],
        ),
        (
            "after fetchopcode at 0x0100",
            [Bstate::Addr(0x0100), Bstate::Data(0x00), Bstate::Mem(true)],
        ),
        (
            "after waitopcode at 0x0100",
            [Bstate::Addr(0x0100), Bstate::Data(0x10), Bstate::Mem(true)],
        ),
        (
            "after decode ld a, 0xFF",
            [Bstate::Addr(0x0101), Bstate::Data(0x10), Bstate::Mem(true)],
        ),
        (
            "after waitop1of1",
            [Bstate::Addr(0x0101), Bstate::Data(0xFF), Bstate::Mem(true)],
        ),
        (
            "after readop1of1",
            [Bstate::Addr(0x0101), Bstate::Data(0xFF), Bstate::Mem(true)],
        ),
        (
            "after execute 'ld a, 0xff'",
            [Bstate::Addr(0x0101), Bstate::Data(0xFF), Bstate::Mem(true)],
        ),
        (
            "after fetchopcode",
            [Bstate::Addr(0x0102), Bstate::Data(0xFF), Bstate::Mem(true)],
        ),
        (
            "after waitopcode",
            [Bstate::Addr(0x0102), Bstate::Data(0x01), Bstate::Mem(true)],
        ),
        (
            "after decode nop",
            [Bstate::Addr(0x0102), Bstate::Data(0x01), Bstate::Mem(false)],
        ),
        (
            "after execute 'nop'",
            [Bstate::Addr(0x0102), Bstate::Data(0x01), Bstate::Mem(false)],
        ),
    ];

    for (msg, start_states) in ticks {
        if let Err(e) = sys.bus.assert_states(&start_states, msg) {
            for line in sys.trace() {
                println!("{line}");
            }
            panic!("{e:?}");
        }
        sys.tick();
    }
}

#[test]
fn load_program_points_pc_at_the_program_without_running_it() {
    let mut sys = System::default();
    let program = assemble("ld a, 0x07\nhalt").unwrap();
    sys.load_program(&program).unwrap();
    assert_eq!(sys.cpu.pc, 0x0100);
    assert_eq!(sys.mem.get(0x0100), program[0]);
    assert_eq!(sys.mem.get(0x0101), 0x07);
    assert_eq!(sys.cpu.regs.get(Reg::A), 0x00);
    let too_big = vec![0u8; 0xC000];
    assert!(sys.load_program(&too_big).is_err());
    assert_eq!(sys.cpu.pc, 0x0100);
}
