//! Concrete instances of the library's laws, and the behaviour of its smaller parts.
use rx82::assembler::assemble;
use rx82::bus::{Bstate, Bus};
use rx82::cpu::State;
use rx82::device::Device;
use rx82::instructions::{InstructionKind, Operands};
use rx82::memory::{LoadError, Memory};
use rx82::rom::Rom;
use rx82::regs::{source_and_target_from, u8_from, Reg};
use rx82::system::System;
use rx82::text::{hex_byte, hex_word, string_of};

/// Runs `source` on a fresh system and returns the system.
fn run(source: &str) -> System {
    let mut sys = System::default();
    sys.run_program(&assemble(source).unwrap()).unwrap();
    sys
}

#[test]
fn push_then_pop_restores_value_and_stack_pointer() {
    let sys = run("ld sp, 0xBFFF\nld a, 0x42\npush a\npop b\nhalt");
    assert_eq!(sys.cpu.regs.get(Reg::B), 0x42);
    assert_eq!(sys.cpu.regs.get(Reg::SP), 0xBFFF);
    let sys = run("ld sp, 0xBFFF\nld cd, 0xCAFE\npush cd\npop gh\nhalt");
    assert_eq!(sys.cpu.regs.get(Reg::GH), 0xCAFE);
    assert_eq!(sys.cpu.regs.get(Reg::SP), 0xBFFF);
}

#[test]
fn inc_then_dec_restores_value_and_keeps_carry() {
    let sys = run("ld a, 0xFF\nsec\ninc a\ndec a\nhalt");
    assert_eq!(sys.cpu.regs.get(Reg::A), 0xFF);
    assert!(sys.cpu.flags.carry);
    let sys = run("ld ab, 0x0000\ndec ab\ninc ab\nhalt");
    assert_eq!(sys.cpu.regs.get(Reg::AB), 0x0000);
    assert!(sys.cpu.flags.zero);
    assert!(!sys.cpu.flags.carry);
}

#[test]
fn cmp_sets_flags_like_sub_but_keeps_the_register() {
    let cmp = run("ld a, 0x03\ncmp a, 0x07\nhalt");
    let sub = run("ld a, 0x03\nsec\nsub a, 0x07\nhalt");
    assert_eq!(cmp.cpu.flags, sub.cpu.flags);
    assert_eq!(cmp.cpu.regs.get(Reg::A), 0x03);
    assert_eq!(sub.cpu.regs.get(Reg::A), 0xFC);
    let cmp = run("ld a, 0x07\ncmp a, 0x07\nhalt");
    let sub = run("ld a, 0x07\nsec\nsub a, 0x07\nhalt");
    assert_eq!(cmp.cpu.flags, sub.cpu.flags);
    assert!(cmp.cpu.flags.carry && cmp.cpu.flags.zero);
}

#[test]
fn add_and_lsr_set_carry() {
    let sys = run("ld a, 0xF0\nclc\nadd a, 0x20\nhalt");
    assert_eq!(sys.cpu.regs.get(Reg::A), 0x10);
    assert!(sys.cpu.flags.carry);
    let sys = run("ld a, 0x05\nlsr a, 0x01\nhalt");
    assert_eq!(sys.cpu.regs.get(Reg::A), 0x02);
    assert!(sys.cpu.flags.carry);
    let sys = run("ld a, 0x0F\nand a, 0x30\nhalt");
    assert_eq!(sys.cpu.regs.get(Reg::A), 0x00);
    assert!(sys.cpu.flags.zero);
}

#[test]
fn a_byte_written_over_the_bus_reads_back() {
    let mut mem = Memory::default();
    let mut bus = Bus::default();
    bus.write_mem(0x0010, 0xAB);
    bus.reconcile();
    mem.tick(&mut bus);
    assert_eq!(mem.get(0x0010), 0xAB);
    bus.read_mem(0x0010);
    bus.reconcile();
    bus.write_data(0x00);
    bus.reconcile();
    bus.read_mem(0x0010);
    bus.reconcile();
    mem.tick(&mut bus);
    bus.reconcile();
    assert_eq!(bus.data, 0xAB);
}

#[test]
fn the_first_device_to_drive_the_bus_wins() {
    let mut bus = Bus::default();
    bus.read_mem(0x1234);
    bus.write_data(0x99);
    bus.reconcile();
    assert_eq!(bus.addr, 0x1234);
    assert_eq!(bus.data, 0x00);
    assert!(bus.mem && !bus.write);
    let err = bus.assert_states(&[Bstate::Addr(0x1234), Bstate::Data(0x01)], "check").unwrap_err();
    assert_eq!(err.want, Bstate::Data(0x01));
    assert_eq!(err.got, Bstate::Data(0x00));
    assert_eq!(err.msg, "check");
    assert!(bus.assert_states(&[Bstate::Mem(true), Bstate::Write(false)], "ok").is_ok());
}

#[test]
fn opcodes_decode_to_instructions_that_encode_back() {
    let mut valid = 0;
    for b in 0..=255u8 {
        if let Some(ins) = InstructionKind::from_opcode(b) {
            assert_eq!(ins.opcode(), b);
            valid += 1;
        }
    }
    assert_eq!(valid, 136);
    assert_eq!(InstructionKind::Add(Reg::A).to_text(), "add a, N");
    assert_eq!(InstructionKind::LdRegImm(Reg::SP).to_text(), "ld sp, NN");
    assert_eq!(InstructionKind::Cmp(Reg::AB).operands(), Operands::Two);
    assert_eq!(InstructionKind::Cmp(Reg::A).operands(), Operands::One);
    assert_eq!(InstructionKind::Nop.operands(), Operands::Zero);
}

#[test]
fn register_operand_bytes_round_trip() {
    for source in [Reg::A, Reg::CD, Reg::SP] {
        for target in [Reg::B, Reg::GH] {
            assert_eq!(source_and_target_from(u8_from(source, target)), Some((source, target)));
        }
    }
    assert_eq!(source_and_target_from(0xFF), None);
    assert_eq!(Reg::from_name(&['c', 'd']), Some(Reg::CD));
    assert_eq!(Reg::CD.name(), "cd");
    assert_eq!(Reg::from_id(0x0C), Some(Reg::SP));
    assert_eq!(Reg::from_id(0x0D), None);
}

#[test]
fn load_errors_say_why() {
    let mut mem = Memory::default();
    assert_eq!(mem.load(0xC000, &[0x00]), Err(LoadError::OutOfRange));
    assert_eq!(mem.load(0xBFFF, &[0x00, 0x00]), Err(LoadError::OutOfBounds));
    let mut sys = System::default();
    let big = vec![0u8; 0xC000];
    assert_eq!(sys.run_program(&big), Err(LoadError::OutOfBounds));
}

#[test]
fn putchar_trap_collects_output() {
    let mut sys = run("ld a, 0x41\ntrap 0x20\nhalt");
    assert_eq!(sys.cpu.take_output(), vec![0x41]);
    assert!(sys.cpu.take_output().is_empty());
}

#[test]
fn peeking_memory_restores_the_bus_and_halt_flag() {
    let mut sys = System::default();
    sys.mem.load(0x0200, &[0x5A]).unwrap();
    sys.bus.addr = 0x1111;
    assert_eq!(sys.peek_mem(0x0200), 0x5A);
    assert_eq!(sys.bus.addr, 0x1111);
    assert!(!sys.cpu.halt);
    assert_eq!(sys.disassemble_next(), "halt");
    let lines = sys.debug_print();
    assert_eq!(lines[1], "0000 0000 00 00 00 00 00 00 00 00 00 | halt");
}

#[test]
fn reset_runs_the_boot_rom() {
    let mut sys = System::default();
    sys.turbo = true;
    sys.reset();
    assert!(sys.cpu.halt);
    assert_eq!(sys.cpu.regs.get(Reg::SP), 0xBFFF);
    assert_eq!(sys.cpu.regs.get(Reg::CD), 0xBFFF);
}

#[test]
fn trace_shows_blocks_of_sixteen_ticks() {
    let mut sys = System::default();
    let lines = sys.test_prog(&[InstructionKind::Halt.opcode()]);
    assert_eq!(lines.len(), 8);
    assert_eq!(lines[0], "TICK  0000 0001 0002 0003");
    assert_eq!(lines[1], "─────────────────────────");
    assert_eq!(lines[2], "CPU   FOPC WOPC DCOD EXEC");
    assert_eq!(lines[3], "ADDR  0100 0100 0100 0100");
    assert_eq!(lines[4], "DATA  ──00 ──00 ──00 ──00");
    assert_eq!(lines[5], "/MEM  ─MEM ─MEM ──── ────");
    assert_eq!(lines[6], "/WRT  ──── ──── ──── ────");
    assert_eq!(lines[7], "");
    assert_eq!(State::Decode.label(), "DCOD");
}

#[test]
fn hex_formatting() {
    assert_eq!(hex_byte(0xAB), "0xAB");
    assert_eq!(hex_byte(0x05), "0x05");
    assert_eq!(hex_word(0xBEEF), "0xBEEF");
    assert_eq!(string_of(&['h', 'i']), "hi");
}

#[test]
fn lsr_sets_zero_from_the_result() {
    let sys = run("ld a, 0x01\nlsr a, 0x01\nhalt");
    assert_eq!(sys.cpu.regs.get(Reg::A), 0x00);
    assert!(sys.cpu.flags.zero);
    assert!(sys.cpu.flags.carry);
    let sys = run("ld a, 0x80\ninc b\nlsr a, 0x07\nhalt");
    assert_eq!(sys.cpu.regs.get(Reg::A), 0x01);
    assert!(!sys.cpu.flags.zero);
    assert!(!sys.cpu.flags.carry);
}

#[test]
fn memory_and_rom_answer_zero_outside_their_range() {
    let mut mem = Memory::default();
    assert_eq!(mem.get(0xC000), 0);
    mem.set(0xC000, 0x12);
    assert_eq!(mem.get(0xC000), 0);
    let rom = Rom { start: 0xB000, end: 0xB002, data: vec![0xF0, 0xF1, 0xF2] };
    assert_eq!(rom.get(0xB001), 0xF1);
    assert_eq!(rom.get(0xB003), 0);
    assert_eq!(rom.get(0x0000), 0);
    let short = Rom { start: 0x0000, end: 0x0000, data: vec![1, 2] };
    assert_eq!(short.get(0x0000), 1);
    assert_eq!(short.get(0x0001), 0);
}

#[test]
fn reset_reads_the_vector_whatever_the_data_bus_held() {
    let mut sys = System::default();
    sys.bus.data = 0x55;
    sys.cpu.reset(&mut sys.bus);
    for _ in 0..4 {
        sys.tick();
    }
    assert_eq!(sys.cpu.state, State::FetchOpcode);
    assert_eq!(sys.cpu.pc, 0xC000);
}
