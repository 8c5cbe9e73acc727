//! Tests of the monitor, the clock, the CPU phases and the opcode table.
use rx82::assembler::assemble;
use rx82::clock::Clock;
use rx82::doc::opcodes;
use rx82::monitor::{banner, Command, Monitor, Reply};
use rx82::phase::Phase;

#[test]
fn monitor_reads_commands_and_arguments() {
    let mut mon = Monitor::default();
    assert_eq!(mon.get_command(""), (Command::Step, None));
    assert_eq!(mon.get_command("g 100"), (Command::Go, Some(0x0100)));
    assert_eq!(mon.get_command("  m fff0  "), (Command::Memory, Some(0xFFF0)));
    assert_eq!(mon.get_command(""), (Command::Memory, None));
    assert_eq!(mon.get_command("S"), (Command::Step, None));
    assert_eq!(mon.get_command("s zz"), (Command::Step, None));
    assert_eq!(mon.get_command("g +10"), (Command::Go, Some(0x0010)));
    assert_eq!(mon.get_command("m 10000"), (Command::Memory, None));
    assert_eq!(mon.get_command("m  10"), (Command::Memory, None));
    assert_eq!(mon.get_command("quit"), (Command::Quit, None));
    assert_eq!(mon.get_command("x"), (Command::Help, None));
    assert_eq!(mon.last_cmd, Some(Command::Help));
}

#[test]
fn monitor_dumps_memory_in_blocks() {
    let mut mon = Monitor::default();
    mon.sys
        .mem
        .load(0x0000, &[0x10, 0x06, 0x19, 0xFF, 0xFF, 0x49, 0xB2, 0xFD])
        .unwrap();
    let lines = mon.memory(Some(0xFFF0));
    assert_eq!(lines.len(), 8);
    assert_eq!(
        lines[0],
        "FFF0: 00 00 00 00 00 00 00 00 00 00 00 00 00 00 00 00"
    );
    assert_eq!(
        lines[1],
        "0000: 10 06 19 FF FF 49 B2 FD 00 00 00 00 00 00 00 00"
    );
    assert_eq!(mon.last_addr, Some(0x0070));
    let next = mon.memory(None);
    assert!(next[0].starts_with("0070:"));
    assert_eq!(mon.last_addr, Some(0x00F0));
}

#[test]
fn monitor_runs_and_steps_programs() {
    let mut mon = Monitor::default();
    let program = assemble("ld a, 0x05\ninc a\nhalt").unwrap();
    mon.sys.mem.load(0x0100, &program).unwrap();
    let lines = mon.step(Some(0x0100));
    assert!(mon.step);
    assert_eq!(lines.len(), 2);
    assert_eq!(lines[0], "  PC   SP  A  B  C  D  E  F  G  H ZC | NEXT");
    assert_eq!(lines[1], "0102 0000 05 00 00 00 00 00 00 00 00 | inc a");
    let lines = mon.go(None);
    assert!(!mon.step);
    assert_eq!(lines[0], "halted");
    assert_eq!(lines[2], "0104 0000 06 00 00 00 00 00 00 00 00 | halt");
    assert_eq!(mon.last_addr, Some(0x0104));
}

#[test]
fn monitor_handles_command_lines() {
    let mut mon = Monitor::default();
    let start = mon.start();
    assert_eq!(start[0], banner());
    assert_eq!(start.len(), 3);
    let help = mon.handle("h").unwrap();
    assert_eq!(help, vec![String::from(mon.help())]);
    assert!(mon.help().starts_with("Commands:\nG [<address>] = Go (run till halted)"));
    assert_eq!(mon.handle("m 0").unwrap().len(), 8);
    assert_eq!(mon.handle("q"), None);
}

#[test]
fn clock_paces_ticks() {
    let mut clock = Clock::default();
    assert_eq!(clock.tick_duration, 250);
    assert_eq!(clock.tick(100), 150);
    assert_eq!(clock.next_tick, 250);
    assert_eq!(clock.tick(1000), 0);
    assert_eq!(clock.next_tick, 500);
    let mut late = Clock { next_tick: u64::MAX - 10, tick_duration: 250 };
    assert_eq!(late.tick(5), 0);
    assert_eq!(late.next_tick, 5);
    let mut fresh = Clock::new(1000);
    assert_eq!(fresh.tick(1000), 250);
}

#[test]
fn phases_have_labels() {
    assert_eq!(Phase::default(), Phase::Fetch);
    assert_eq!(Phase::Decode.label(), "DCOD");
    assert_eq!(Phase::Execute.label(), "EXEC");
    assert_eq!(Phase::Fetch.label(), "FTCH");
    assert_eq!(Phase::MemWait.label(), "WAIT");
}

#[test]
fn opcode_table_matches_the_manual() {
    let lines = opcodes();
    assert_eq!(lines.len(), 18);
    assert_eq!(
        lines[0],
        "| HI/LO | -0 | -1 | -2 | -3 | -4 | -5 | -6 | -7 | -8 | -9 | -A | -B | -C | -D | -E | -F |"
    );
    assert_eq!(
        lines[2],
        "| `0-` | `halt` | `nop` | `--` | `sec` | `clc` | `--` | `--` | `--` | `ret` | `rti` | `--` | `--` | `--` | `--` | `--` | `--` |"
    );
    assert!(lines[3].starts_with("| `1-` | `ld a, N` | `ld b, N` |"));
    assert!(lines[17].starts_with("| `F-` | `bra D` | `beq D` | `bne D` | `bcs D` | `bcc D` |"));
}

#[test]
fn monitor_answers_each_command() {
    let mut mon = Monitor::default();
    assert!(matches!(mon.respond(Command::Go, Some(0x0100)), Reply::Run(Some(0x0100))));
    assert!(!mon.step);
    assert!(matches!(mon.respond(Command::Step, None), Reply::Run(None)));
    assert!(mon.step);
    assert!(matches!(mon.respond(Command::Quit, None), Reply::Quit));
    match mon.respond(Command::Help, None) {
        Reply::Show(lines) => assert_eq!(lines, vec![String::from(mon.help())]),
        other => panic!("help gave {:?}", other),
    }
    match mon.respond(Command::Memory, Some(0x0010)) {
        Reply::Show(lines) => {
            assert_eq!(lines.len(), 8);
            assert!(lines[0].starts_with("0010:"));
        }
        other => panic!("memory gave {:?}", other),
    }
    assert_eq!(mon.last_addr, Some(0x0090));
    assert_eq!(mon.last_cmd, None);
}
