//! The RX82 system as a whole: CPU, RAM, ROM and bus, advanced one clock cycle at a time.
use vstd::prelude::*;

use crate::bus::{read_request, Bus, BusView};
use crate::assembler::assemble::{assemble, spec_assemble};
use crate::assembler::disassemble::{dis_line, disassemble};
use crate::cpu::{state_label, wrap16, Cpu, CpuView, State};
use crate::regs::Reg;
use crate::text::{hex_digits, hex_digits_of, push_str, string_from};
use crate::device::Device;
use crate::memory::{lemma_memory_load_get, LoadError, Memory, MemoryView};
use crate::rom::{Rom, RomView};

verus! {

/// The first address of the ROM in the RX82 memory map.
pub const ROM_START: u16 = 0xC000;

/// The address at which programs are loaded and started.
pub const USER_START: u16 = 0x0100;

/// The boot program at the start of the RX82 ROM: the RAM test from the README, which
/// finds the highest usable RAM address, followed by `ld sp, cd` to put the stack there,
/// and `halt`.
pub open spec fn boot_code() -> Seq<u8> {
    seq![
        0x19, 0xFD, 0xFF, // ld cd, 0xFFFD
        0x10, 0x02, // ld a, 0x02
        0x28, 0x09, // RAM_FILL: ld (cd), a
        0x49, // dec cd
        0x79, 0xFF, 0x00, // cmp cd, 0x00FF
        0xF2, 0xF8, // bne RAM_FILL
        0x39, // RAM_READ: inc cd
        0x79, 0xFE, 0xFF, // cmp cd, 0xFFFE
        0xF1, 0x0B, // beq DONE
        0x4D, 0x90, // dec (cd)
        0xF1, 0x07, // beq DONE
        0x3E, 0x00, 0x00, // inc (0x0000)
        0x4D, 0x90, // dec (cd)
        0xF1, 0xEF, // beq RAM_READ
        0x49, // DONE: dec cd
        0x1F, 0x9C, // ld sp, cd
        0x00, // halt
    ]
}

/// The 16KiB RX82 ROM image: the boot program, zero padding, and the little-endian
/// reset vector 0xC000 in its last two bytes (addresses 0xFFFE-0xFFFF).
pub open spec fn rom_image() -> Seq<u8> {
    boot_code() + Seq::new((0x4000 - 2 - boot_code().len()) as nat, |i: int| 0u8) + seq![
        0x00,
        0xC0,
    ]
}

/// Returns the RX82 ROM image.
pub fn rom_data() -> (r: Vec<u8>)
    ensures
        r@ == rom_image(),
{
    let mut data: Vec<u8> = vec![
        0x19, 0xFD, 0xFF, 0x10, 0x02, 0x28, 0x09, 0x49, 0x79, 0xFF, 0x00, 0xF2, 0xF8, 0x39,
        0x79, 0xFE, 0xFF, 0xF1, 0x0B, 0x4D, 0x90, 0xF1, 0x07, 0x3E, 0x00, 0x00, 0x4D, 0x90,
        0xF1, 0xEF, 0x49, 0x1F, 0x9C, 0x00,
    ];
    assert(data@ =~= boot_code());
    let n = data.len();
    while data.len() < 0x4000 - 2
        invariant
            n == boot_code().len(),
            n <= data@.len() <= 0x4000 - 2,
            data@ =~= boot_code() + Seq::new((data@.len() - n) as nat, |i: int| 0u8),
        decreases 0x4000 - 2 - data.len(),
    {
        data.push(0);
    }
    data.push(0x00);
    data.push(0xC0);
    assert(data@ =~= rom_image());
    data
}

/// A snapshot of the system state for debugging.
#[non_exhaustive]
pub struct Snapshot {
    /// Bus state at end of tick.
    pub bus: Bus,
    /// CPU state at start of tick.
    pub state: State,
    /// Sequence number of just-completed tick.
    pub tick: u16,
}

/// The abstract content of a snapshot.
#[verifier::ext_equal]
pub struct SnapshotView {
    pub bus: BusView,
    pub state: State,
    pub tick: u16,
}

impl View for Snapshot {
    type V = SnapshotView;

    open spec fn view(&self) -> SnapshotView {
        SnapshotView { bus: self.bus@, state: self.state, tick: self.tick }
    }
}

/// The abstract state of the whole system.
#[verifier::ext_equal]
pub struct SystemView {
    pub bus: BusView,
    pub cpu: CpuView,
    pub cycles: u16,
    pub debug: bool,
    pub devices: Seq<RomView>,
    pub history: Seq<SnapshotView>,
    pub mem: MemoryView,
    pub turbo: bool,
}

/// The bus after each ROM in `roms`, in order, has had its chance to respond.
pub open spec fn roms_respond(roms: Seq<RomView>, bus: BusView) -> BusView
    decreases roms.len(),
{
    if roms.len() == 0 {
        bus
    } else {
        roms_respond(roms.drop_first(), roms[0].respond(bus))
    }
}

impl SystemView {
    /// One clock cycle: the CPU ticks, then each device, then memory; the bus then takes
    /// the first write requested in the cycle; a snapshot is recorded when debugging; and
    /// the cycle counter advances (wrapping).
    #[verifier::opaque]
    pub open spec fn step(self) -> SystemView {
        let (cpu, bus1) = self.cpu.step(self.bus);
        let bus2 = roms_respond(self.devices, bus1);
        let (mem, bus3) = self.mem.respond(bus2);
        let bus = bus3.reconciled();
        SystemView {
            bus,
            cpu,
            cycles: ((self.cycles + 1) % 65536) as u16,
            history: if self.debug {
                self.history.push(SnapshotView { bus, state: self.cpu.state, tick: self.cycles })
            } else {
                self.history
            },
            mem,
            ..self
        }
    }

    /// The system after `n` clock cycles.
    pub open spec fn steps(self, n: nat) -> SystemView
        decreases n,
    {
        if n == 0 {
            self
        } else {
            self.steps((n - 1) as nat).step()
        }
    }

    /// The system with the CPU's halt flag set to `h`.
    pub open spec fn with_halt(self, h: bool) -> SystemView {
        SystemView { cpu: CpuView { halt: h, ..self.cpu }, ..self }
    }

    /// `run`'s outcome: from `self` with the CPU un-halted, the cycles run until the CPU
    /// halts, or until the (practically unreachable) limit of `u64::MAX` cycles.
    #[verifier::opaque]
    pub open spec fn ran_to(self, fin: SystemView) -> bool {
        let start = self.with_halt(false);
        exists|n: nat|
            n <= u64::MAX && fin == start.steps(n) && (fin.cpu.halt || n == u64::MAX) && (
            forall|k: nat| k < n ==> !#[trigger] start.steps(k).cpu.halt)
    }

    /// Reading logical address `addr` as the monitor does: the read request put on the
    /// bus with the CPU halted, one cycle run to serve it; the byte on the data bus, and
    /// the system afterwards with the CPU's halt flag and the bus restored.
    pub open spec fn peek(self, addr: u16) -> (u8, SystemView) {
        let req = SystemView {
            bus: BusView { addr, mem: true, write: false, ..self.bus },
            ..self.with_halt(true)
        };
        let after = req.step();
        (after.bus.data, SystemView { bus: self.bus, ..after.with_halt(self.cpu.halt) })
    }

    /// The three bytes at PC, PC+1 and PC+2 (wrapping), peeked in turn, and the system
    /// afterwards.
    pub open spec fn peek_next(self) -> (Seq<u8>, SystemView) {
        let (b0, s1) = self.peek(self.cpu.pc);
        let (b1, s2) = s1.peek(wrap16(s1.cpu.pc + 1));
        let (b2, s3) = s2.peek(wrap16(s2.cpu.pc + 2));
        (seq![b0, b1, b2], s3)
    }

    /// The power-on system: an idle bus, the CPU in its initial state, no cycles run,
    /// debugging and turbo mode off, the RX82 ROM at 0xC000-0xFFFF, and 48KiB of zeroed
    /// RAM at 0x0000-0xBFFF.
    pub open spec fn initial() -> SystemView {
        SystemView {
            bus: Bus::default_view(),
            cpu: CpuView::initial(),
            cycles: 0,
            debug: false,
            devices: seq![RomView { data: rom_image(), start: ROM_START, end: 0xFFFF }],
            history: Seq::empty(),
            mem: MemoryView { data: Seq::new(0xC000, |i: int| 0u8), start: 0x0000, end: 0xBFFF },
            turbo: false,
        }
    }

    /// True if `program` fits in memory at the user start address.
    pub open spec fn fits(self, program: Seq<u8>) -> bool {
        &&& self.mem.in_range(USER_START)
        &&& (USER_START - self.mem.start) + program.len() <= self.mem.data.len()
    }

    /// The system with `program` loaded at the user start address and PC pointing there.
    pub open spec fn loaded(self, program: Seq<u8>) -> SystemView {
        let start = (USER_START - self.mem.start) as int;
        let end = start + program.len();
        SystemView {
            mem: MemoryView {
                data: self.mem.data.subrange(0, start) + program + self.mem.data.subrange(
                    end,
                    self.mem.data.len() as int,
                ),
                ..self.mem
            },
            cpu: CpuView { pc: USER_START, ..self.cpu },
            ..self
        }
    }
}

/// A trace cell: the tick number.
pub open spec fn tick_cell(s: SnapshotView) -> Seq<char> {
    " "@ + hex_digits(s.tick as nat, 4)
}

/// A trace cell: the rule under the tick numbers.
pub open spec fn header_cell(s: SnapshotView) -> Seq<char> {
    "─────"@
}

/// A trace cell: the CPU state at the start of the tick.
pub open spec fn state_cell(s: SnapshotView) -> Seq<char> {
    " "@ + state_label(s.state)
}

/// A trace cell: the address bus.
pub open spec fn addr_cell(s: SnapshotView) -> Seq<char> {
    " "@ + hex_digits(s.bus.addr as nat, 4)
}

/// A trace cell: the data bus.
pub open spec fn data_cell(s: SnapshotView) -> Seq<char> {
    " ──"@ + hex_digits(s.bus.data as nat, 2)
}

/// A trace cell: the `/MEM` line.
pub open spec fn mem_cell(s: SnapshotView) -> Seq<char> {
    if s.bus.mem {
        " ─MEM"@
    } else {
        " ────"@
    }
}

/// A trace cell: the `/WR` line.
pub open spec fn wrt_cell(s: SnapshotView) -> Seq<char> {
    if s.bus.write {
        " ─WRT"@
    } else {
        " ────"@
    }
}

/// The cells of `chunk`, one per snapshot, side by side.
pub open spec fn row(chunk: Seq<SnapshotView>, cell: spec_fn(SnapshotView) -> Seq<char>) -> Seq<char>
    decreases chunk.len(),
{
    if chunk.len() == 0 {
        Seq::empty()
    } else {
        row(chunk.drop_last(), cell) + cell(chunk.last())
    }
}

/// The timing diagram for one block of snapshots: tick numbers, a rule, the CPU state,
/// the address and data buses, the `/MEM` and `/WR` lines, and a blank line.
pub open spec fn chunk_lines(chunk: Seq<SnapshotView>) -> Seq<Seq<char>> {
    seq![
        "TICK "@ + row(chunk, |s: SnapshotView| tick_cell(s)),
        "─────"@ + row(chunk, |s: SnapshotView| header_cell(s)),
        "CPU  "@ + row(chunk, |s: SnapshotView| state_cell(s)),
        "ADDR "@ + row(chunk, |s: SnapshotView| addr_cell(s)),
        "DATA "@ + row(chunk, |s: SnapshotView| data_cell(s)),
        "/MEM "@ + row(chunk, |s: SnapshotView| mem_cell(s)),
        "/WRT "@ + row(chunk, |s: SnapshotView| wrt_cell(s)),
        Seq::empty(),
    ]
}

/// The timing diagram of the snapshots from index `i` on, in blocks of 16.
pub open spec fn trace_from(h: Seq<SnapshotView>, i: int) -> Seq<Seq<char>>
    decreases h.len() - i,
{
    if 0 <= i < h.len() {
        let j = if i + 16 < h.len() {
            i + 16
        } else {
            h.len() as int
        };
        chunk_lines(h.subrange(i, j)) + trace_from(h, j)
    } else {
        Seq::empty()
    }
}

/// The heading of the CPU status display.
pub open spec fn status_header() -> Seq<char> {
    "  PC   SP  A  B  C  D  E  F  G  H ZC | NEXT"@
}

/// `1` for a set flag, `0` for a clear one.
pub open spec fn bit(b: bool) -> Seq<char> {
    if b {
        "1"@
    } else {
        "0"@
    }
}

/// The CPU status line: PC, SP, the eight 8-bit registers, the zero and carry flags, and
/// the next instruction.
pub open spec fn status_line(cpu: CpuView, next: Seq<char>) -> Seq<char> {
    hex_digits(cpu.pc as nat, 4) + " "@ + hex_digits(cpu.regs.sp as nat, 4) + " "@
        + hex_digits(cpu.regs.a as nat, 2) + " "@ + hex_digits(cpu.regs.b as nat, 2) + " "@
        + hex_digits(cpu.regs.c as nat, 2) + " "@ + hex_digits(cpu.regs.d as nat, 2) + " "@
        + hex_digits(cpu.regs.e as nat, 2) + " "@ + hex_digits(cpu.regs.f as nat, 2) + " "@
        + hex_digits(cpu.regs.g as nat, 2) + " "@ + hex_digits(cpu.regs.h as nat, 2) + " "@
        + bit(cpu.flags.zero) + bit(cpu.flags.carry) + " | "@ + next
}

/// The status line lines up under its header: PC in columns 0-3, SP in 5-8, registers
/// A to H in two columns each from column 10, three apart; the zero and carry flags as
/// `1` or `0` in columns 34 and 35; and the next instruction from column 39. Every
/// number reads back from its hex digits.
#[verifier::spinoff_prover]
#[verifier::rlimit(40)]
pub proof fn lemma_status_columns(cpu: CpuView, next: Seq<char>)
    ensures
        ({
            let line = status_line(cpu, next);
            let regs = seq![
                cpu.regs.a,
                cpu.regs.b,
                cpu.regs.c,
                cpu.regs.d,
                cpu.regs.e,
                cpu.regs.f,
                cpu.regs.g,
                cpu.regs.h,
            ];
            &&& line.len() == 39 + next.len()
            &&& crate::assembler::token::hex_value(line.subrange(0, 4)) == cpu.pc
            &&& crate::assembler::token::hex_value(line.subrange(5, 9)) == cpu.regs.sp
            &&& forall|i: int|
                0 <= i < 8 ==> crate::assembler::token::hex_value(
                    #[trigger] line.subrange(10 + 3 * i, 12 + 3 * i),
                ) == regs[i]
            &&& line[34] == (if cpu.flags.zero {
                '1'
            } else {
                '0'
            })
            &&& line[35] == (if cpu.flags.carry {
                '1'
            } else {
                '0'
            })
            &&& line.subrange(39, line.len() as int) == next
        }),
{
    reveal_strlit(" ");
    reveal_strlit("1");
    reveal_strlit("0");
    reveal_strlit(" | ");
    let sp = " "@;
    let regs = seq![
        cpu.regs.a,
        cpu.regs.b,
        cpu.regs.c,
        cpu.regs.d,
        cpu.regs.e,
        cpu.regs.f,
        cpu.regs.g,
        cpu.regs.h,
    ];
    crate::assembler::roundtrip::lemma_hex_digits(cpu.pc as nat, 4);
    crate::assembler::roundtrip::lemma_hex_digits(cpu.regs.sp as nat, 4);
    assert forall|i: int| 0 <= i < 8 implies #[trigger] hex_digits(regs[i] as nat, 2).len() == 2
        && crate::assembler::token::hex_value(hex_digits(regs[i] as nat, 2)) == regs[i] by {
        crate::assembler::roundtrip::lemma_hex_digits(regs[i] as nat, 2);
        assert(crate::assembler::tokenizer::pow16(2) == 256) by {
            reveal_with_fuel(crate::assembler::tokenizer::pow16, 3);
        }
    }
    assert(crate::assembler::tokenizer::pow16(4) == 65536) by {
        reveal_with_fuel(crate::assembler::tokenizer::pow16, 5);
    }
    let line = status_line(cpu, next);
    let p = hex_digits(cpu.pc as nat, 4);
    let q = hex_digits(cpu.regs.sp as nat, 4);
    let cells = Seq::new(8, |i: int| sp + hex_digits(regs[i] as nat, 2));
    let tail = sp + bit(cpu.flags.zero) + bit(cpu.flags.carry) + " | "@ + next;
    let body = p + sp + q + cells[0] + cells[1] + cells[2] + cells[3] + cells[4] + cells[5]
        + cells[6] + cells[7] + tail;
    assert(line =~= body);
    assert(line.subrange(0, 4) =~= p);
    assert(line.subrange(5, 9) =~= q);
    assert forall|i: int| 0 <= i < 8 implies crate::assembler::token::hex_value(
        #[trigger] line.subrange(10 + 3 * i, 12 + 3 * i),
    ) == regs[i] by {
        assert(line.subrange(10 + 3 * i, 12 + 3 * i) =~= hex_digits(regs[i] as nat, 2));
    }
    assert(line.subrange(39, line.len() as int) =~= next);
}

/// The last two bytes of the RX82 ROM image hold the reset vector 0xC000, low byte
/// first.
pub proof fn lemma_rom_reset_vector()
    ensures
        rom_image().len() == 0x4000,
        rom_image()[0x3FFE] == 0x00,
        rom_image()[0x3FFF] == 0xC0,
{
    assert(boot_code().len() == 34);
}

/// True if the bus carries a memory read of `addr`, with no request pending.
pub open spec fn reading(b: BusView, addr: u16) -> bool {
    b.addr == addr && b.mem && !b.write && b.pending is None
}

/// A cycle in which the CPU does not drive the bus while it reads the ROM: the ROM puts
/// its byte on the data bus.
proof fn lemma_quiet_rom_cycle(t: SystemView, addr: u16, c: CpuView)
    requires
        t.devices == SystemView::initial().devices,
        reading(t.bus, addr),
        addr >= ROM_START,
        t.cpu.step(t.bus) == (c, t.bus),
    ensures
        t.step().cpu == c,
        t.step().bus == (BusView {
            data: (RomView { data: rom_image(), start: ROM_START, end: 0xFFFF }).get(addr),
            ..t.bus
        }),
        t.step().mem == t.mem,
        t.step().devices == t.devices,
{
    reveal(SystemView::step);
    reveal_with_fuel(BusView::apply_all, 2);
    let rom = RomView { data: rom_image(), start: ROM_START, end: 0xFFFF };
    assert(t.devices.drop_first() =~= Seq::<RomView>::empty());
    assert(roms_respond(t.devices, t.bus) == roms_respond(t.devices.drop_first(), rom.respond(t.bus)));
}

/// A cycle in which the CPU asks to read `next` while the bus reads the ROM at `addr`:
/// the CPU's request wins, and the bus ends up reading `next`.
proof fn lemma_cpu_request_cycle(t: SystemView, addr: u16, next: u16, c: CpuView)
    requires
        t.devices == SystemView::initial().devices,
        reading(t.bus, addr),
        addr >= ROM_START,
        t.cpu.step(t.bus) == (c, t.bus.request(read_request(next))),
    ensures
        t.step().cpu == c,
        reading(t.step().bus, next),
        t.step().bus.data == t.bus.data,
        t.step().mem == t.mem,
        t.step().devices == t.devices,
{
    reveal(SystemView::step);
    reveal_with_fuel(BusView::apply_all, 4);
    let rom = RomView { data: rom_image(), start: ROM_START, end: 0xFFFF };
    assert(t.devices.drop_first() =~= Seq::<RomView>::empty());
    let b1 = t.bus.request(read_request(next));
    assert(roms_respond(t.devices, b1) == roms_respond(t.devices.drop_first(), rom.respond(b1)));
}

/// At reset the CPU starts where the reset vector says: from any RX82 system (whatever
/// its CPU, bus and RAM hold), a CPU reset and four clock cycles later the CPU is about
/// to fetch its first opcode from 0xC000, the address in the ROM's reset vector, with
/// every register and flag zero.
pub proof fn lemma_reset_starts_at_vector(s: SystemView)
    requires
        s.devices == SystemView::initial().devices,
    ensures
        ({
            let r = SystemView {
                cpu: CpuView::initial().with_state(State::WaitResetLo),
                bus: s.bus.driven_read(crate::cpu::VEC_RESET),
                ..s
            };
            let fin = r.steps(4);
            &&& fin.cpu.state == State::FetchOpcode
            &&& fin.cpu.pc == 0xC000
            &&& fin.cpu.regs == CpuView::initial().regs
            &&& fin.cpu.flags == CpuView::initial().flags
        }),
{
    lemma_rom_reset_vector();
    reveal_with_fuel(SystemView::steps, 5);
    let rom = RomView { data: rom_image(), start: ROM_START, end: 0xFFFF };
    assert(rom.get(0xFFFE) == 0x00);
    assert(rom.get(0xFFFF) == 0xC0);
    let r = SystemView {
        cpu: CpuView::initial().with_state(State::WaitResetLo),
        bus: s.bus.driven_read(crate::cpu::VEC_RESET),
        ..s
    };
    let c1 = r.cpu.with_state(State::ReadResetLo);
    assert(r.cpu.step(r.bus) == (c1, r.bus)) by {
        reveal(CpuView::step);
    }
    lemma_quiet_rom_cycle(r, 0xFFFE, c1);
    let s1 = r.step();
    assert(r.steps(1) == s1);
    let c2 = CpuView { op_lo: 0x00, ..c1 }.with_state(State::WaitAddrHi);
    assert(s1.cpu.step(s1.bus) == (c2, s1.bus.request(read_request(0xFFFF)))) by {
        reveal(CpuView::step);
    }
    lemma_cpu_request_cycle(s1, 0xFFFE, 0xFFFF, c2);
    let s2 = s1.step();
    assert(r.steps(2) == s2);
    let c3 = c2.with_state(State::ReadAddrHi);
    assert(s2.cpu.step(s2.bus) == (c3, s2.bus)) by {
        reveal(CpuView::step);
    }
    lemma_quiet_rom_cycle(s2, 0xFFFF, c3);
    let s3 = s2.step();
    assert(r.steps(3) == s3);
    let c4 = CpuView { op_hi: 0xC0, ..c3 };
    let c5 = CpuView { pc: c4.op(), ..c4 }.with_state(State::FetchOpcode);
    assert(s3.cpu.step(s3.bus) == (c5, s3.bus)) by {
        reveal(CpuView::step);
    }
    let s4 = s3.step();
    assert(r.steps(4) == s4);
    assert(s4.cpu == c5) by {
        reveal(SystemView::step);
    }
}

/// A program that fits is loaded at the user start address: each of its bytes reads
/// back from memory there, and PC points at its first byte.
pub proof fn lemma_loaded_program_reads_back(s: SystemView, program: Seq<u8>, i: int)
    requires
        s.fits(program),
        0 <= i < program.len(),
        USER_START + i <= s.mem.end,
    ensures
        s.loaded(program).mem.get((USER_START + i) as u16) == program[i],
        s.loaded(program).cpu.pc == USER_START,
{
    lemma_memory_load_get(s.mem, USER_START, program, i);
}

/// The RX82 system as a whole.
///
/// Execution proceeds by repeatedly calling [`System::tick`]. On each tick, all devices
/// attached to the system will be ticked by calling their [`Device::tick`] method in
/// turn, in this order:
///
/// 1. CPU
/// 2. Devices in the `devices` list, in order of decreasing priority.
/// 3. Memory
///
/// Each device has a chance to write to the bus on its tick, but if a higher-priority
/// device has already written to the bus, this attempted write will be ignored. This
/// models a simple daisy-chained "bus grant" arbitration scheme.
///
/// Pacing the system to its nominal 4MHz cycle rate is the job of a [`crate::clock::Clock`]
/// run alongside it (skipped in turbo mode); it can only slow a speeding system down.
pub struct System {
    /// The system bus.
    pub bus: Bus,
    /// The system CPU.
    pub cpu: Cpu,
    /// Cycle counter.
    pub cycles: u16,
    /// Enable debug snapshots.
    pub debug: bool,
    /// Attached devices, such as the system [`Rom`].
    pub devices: Vec<Rom>,
    /// Stored debug snapshots.
    pub history: Vec<Snapshot>,
    /// The system memory.
    pub mem: Memory,
    /// Turbo (max clock speed) mode.
    pub turbo: bool,
}

impl View for System {
    type V = SystemView;

    open spec fn view(&self) -> SystemView {
        SystemView {
            bus: self.bus@,
            cpu: self.cpu@,
            cycles: self.cycles,
            debug: self.debug,
            devices: self.devices@.map_values(|r: Rom| r@),
            history: self.history@.map_values(|s: Snapshot| s@),
            mem: self.mem@,
            turbo: self.turbo,
        }
    }
}

impl Default for System {
    /// The default `System`: default bus, CPU and RAM, and the RX82 ROM at 0xC000-0xFFFF.
    fn default() -> (s: System)
        ensures
            s@ == SystemView::initial(),
    {
        let rom = Rom { start: ROM_START, end: 0xFFFF, data: rom_data() };
        let mut devices = Vec::new();
        devices.push(rom);
        let s = System {
            bus: Bus::default(),
            cpu: Cpu::default(),
            cycles: 0,
            debug: false,
            devices,
            history: Vec::new(),
            mem: Memory::default(),
            turbo: false,
        };
        assert(s@.devices =~= seq![RomView { data: rom_image(), start: ROM_START, end: 0xFFFF }]);
        assert(s@.history =~= Seq::<SnapshotView>::empty());
        assert(s@ =~= SystemView::initial());
        s
    }
}

impl System {
    /// Advances the system by one clock cycle.
    pub fn tick(&mut self)
        ensures
            final(self)@ == old(self)@.step(),
    {
        let state = self.cpu.state;  // save before cpu.tick() overwrites it
        self.cpu.tick(&mut self.bus);
        let ghost after_cpu = self.bus@;
        let ghost cpu_after = self.cpu@;
        let ghost roms = self@.devices;
        assert(roms.subrange(0, roms.len() as int) =~= roms);
        let mut i: usize = 0;
        while i < self.devices.len()
            invariant
                i <= self.devices@.len(),
                self.devices@ == old(self).devices@,
                roms == self@.devices,
                self.history@ == old(self).history@,
                self.cpu@ == cpu_after,
                self.mem@ == old(self).mem@,
                self.cycles == old(self).cycles,
                self.debug == old(self).debug,
                self.turbo == old(self).turbo,
                roms_respond(roms, after_cpu) == roms_respond(
                    roms.subrange(i as int, roms.len() as int),
                    self.bus@,
                ),
            decreases self.devices.len() - i,
        {
            self.devices[i].serve(&mut self.bus);
            proof {
                let rest = roms.subrange(i as int, roms.len() as int);
                assert(rest.drop_first() =~= roms.subrange(i + 1, roms.len() as int));
                assert(rest[0] == self.devices@[i as int]@);
            }
            i = i + 1;
        }
        proof {
            assert(roms.subrange(i as int, roms.len() as int) =~= Seq::<RomView>::empty());
        }
        self.mem.tick(&mut self.bus);
        self.bus.reconcile();
        if self.debug {
            let snapshot = Snapshot { tick: self.cycles, state, bus: self.bus.clone() };
            let ghost snap = snapshot@;
            let ghost before = self.history@;
            self.history.push(snapshot);
            assert(self@.history.len() == old(self)@.history.len() + 1);
            assert forall|j: int| 0 <= j < self@.history.len() implies #[trigger] self@.history[j]
                == old(self)@.history.push(snap)[j] by {
                if j < old(self)@.history.len() {
                    assert(self.history@[j] == before[j]);
                } else {
                    assert(self.history@[j]@ == snap);
                }
            }
            assert(self@.history =~= old(self)@.history.push(snap));
        }
        self.cycles = self.cycles.wrapping_add(1);
        proof {
            reveal(SystemView::step);
        }
    }

    /// Runs the system until halted.
    ///
    /// Returns early only after `u64::MAX` cycles without a halt.
    pub fn run(&mut self)
        ensures
            old(self)@.ran_to(final(self)@),
    {
        self.cpu.halt = false;
        let ghost start = self@;
        assert(start == old(self)@.with_halt(false));
        let mut count: u64 = 0;
        while !self.cpu.halt && count < u64::MAX
            invariant
                self@ == start.steps(count as nat),
                forall|k: nat| k < count ==> !#[trigger] start.steps(k).cpu.halt,
            decreases u64::MAX - count,
        {
            self.tick();
            proof {
                assert(start.steps((count + 1) as nat) == start.steps(count as nat).step());
            }
            count = count + 1;
        }
        proof {
            reveal(SystemView::ran_to);
            let n = count as nat;
            assert(n <= u64::MAX && self@ == start.steps(n) && (self@.cpu.halt || n == u64::MAX)
                && (forall|k: nat| k < n ==> !#[trigger] start.steps(k).cpu.halt));
        }
    }

    /// Loads `program` at start of user memory and runs until halted.
    ///
    /// # Errors
    ///
    /// If the program does not fit into memory.
    pub fn run_program(&mut self, program: &[u8]) -> (r: Result<(), LoadError>)
        ensures
            old(self)@.fits(program@) ==> r is Ok && old(self)@.loaded(program@).ran_to(
                final(self)@,
            ),
            !old(self)@.fits(program@) ==> r is Err && final(self)@ == old(self)@,
    {
        self.load_program(program)?;
        self.run();
        Ok(())
    }

    /// Loads `program` at the start of user memory and points PC at it, without running
    /// it.
    ///
    /// # Errors
    ///
    /// If the program does not fit into memory.
    pub fn load_program(&mut self, program: &[u8]) -> (r: Result<(), LoadError>)
        ensures
            old(self)@.fits(program@) ==> r is Ok && final(self)@ == old(self)@.loaded(program@),
            !old(self)@.fits(program@) ==> r is Err && final(self)@ == old(self)@,
    {
        let ghost before = self@;
        match self.mem.load(USER_START, program) {
            Ok(()) => {},
            Err(e) => return Err(e),
        }
        self.cpu.pc = USER_START;
        assert(self@ =~= before.loaded(program@));
        Ok(())
    }

    /// Runs `program` with debug snapshots enabled, starting from an empty history, and
    /// returns the bus timing diagram of the run.
    pub fn test_prog(&mut self, program: &[u8]) -> (lines: Vec<String>)
        requires
            old(self)@.fits(program@),
        ensures
            (SystemView { debug: true, history: Seq::empty(), ..old(self)@ }).loaded(
                program@,
            ).ran_to(final(self)@),
            lines@.map_values(|l: String| l@) == trace_from(final(self)@.history, 0),
    {
        self.debug = true;
        self.history = Vec::new();
        assert(self@ =~= SystemView { debug: true, history: Seq::empty(), ..old(self)@ });
        let _ = self.run_program(program);
        self.trace()
    }

    /// Assembles `source`, runs it with debug snapshots enabled and returns the bus timing
    /// diagram of the run.
    pub fn test_asm(&mut self, source: &str) -> (lines: Vec<String>)
        requires
            spec_assemble(source@) is Ok,
            old(self)@.fits(spec_assemble(source@)->Ok_0),
        ensures
            (SystemView { debug: true, history: Seq::empty(), ..old(self)@ }).loaded(
                spec_assemble(source@)->Ok_0,
            ).ran_to(final(self)@),
            lines@.map_values(|l: String| l@) == trace_from(final(self)@.history, 0),
    {
        match assemble(source) {
            Ok(program) => self.test_prog(program.as_slice()),
            Err(_) => Vec::new(),
        }
    }

    /// Returns the disassembly of the instruction at PC (from the three bytes there).
    pub fn disassemble_next(&mut self) -> (s: String)
        ensures
            s@ == dis_line(old(self)@.peek_next().0, 0).0,
            final(self)@ == old(self)@.peek_next().1,
    {
        let b0 = self.peek_mem(self.cpu.pc);
        let b1 = self.peek_mem(self.cpu.pc.wrapping_add(1));
        let b2 = self.peek_mem(self.cpu.pc.wrapping_add(2));
        let code = vec![b0, b1, b2];
        assert(code@ =~= old(self)@.peek_next().0);
        disassemble(code.as_slice())
    }

    /// The CPU status display: a heading, then the registers, flags and the next
    /// instruction in memory.
    pub fn debug_print(&mut self) -> (lines: Vec<String>)
        ensures
            final(self)@ == old(self)@.peek_next().1,
            lines@.map_values(|l: String| l@) == seq![
                status_header(),
                status_line(final(self)@.cpu, dis_line(old(self)@.peek_next().0, 0).0),
            ],
    {
        let next = self.disassemble_next();
        let mut line = hex_digits_of(self.cpu.pc, 4);
        push_str(&mut line, " ");
        push_str(&mut line, hex_digits_of(self.cpu.regs.get(Reg::SP), 4).as_str());
        push_str(&mut line, " ");
        push_str(&mut line, hex_digits_of(self.cpu.regs.get(Reg::A), 2).as_str());
        push_str(&mut line, " ");
        push_str(&mut line, hex_digits_of(self.cpu.regs.get(Reg::B), 2).as_str());
        push_str(&mut line, " ");
        push_str(&mut line, hex_digits_of(self.cpu.regs.get(Reg::C), 2).as_str());
        push_str(&mut line, " ");
        push_str(&mut line, hex_digits_of(self.cpu.regs.get(Reg::D), 2).as_str());
        push_str(&mut line, " ");
        push_str(&mut line, hex_digits_of(self.cpu.regs.get(Reg::E), 2).as_str());
        push_str(&mut line, " ");
        push_str(&mut line, hex_digits_of(self.cpu.regs.get(Reg::F), 2).as_str());
        push_str(&mut line, " ");
        push_str(&mut line, hex_digits_of(self.cpu.regs.get(Reg::G), 2).as_str());
        push_str(&mut line, " ");
        push_str(&mut line, hex_digits_of(self.cpu.regs.get(Reg::H), 2).as_str());
        push_str(&mut line, " ");
        push_str(&mut line, if self.cpu.flags.zero { "1" } else { "0" });
        push_str(&mut line, if self.cpu.flags.carry { "1" } else { "0" });
        push_str(&mut line, " | ");
        push_str(&mut line, next.as_str());
        let mut lines = Vec::new();
        lines.push(string_from("  PC   SP  A  B  C  D  E  F  G  H ZC | NEXT"));
        lines.push(line);
        assert(lines@.map_values(|l: String| l@) =~= seq![
            status_header(),
            status_line(self@.cpu, dis_line(old(self)@.peek_next().0, 0).0),
        ]);
        lines
    }

    /// The bus timing diagram of the stored history, in blocks of 16 ticks.
    pub fn trace(&self) -> (lines: Vec<String>)
        ensures
            lines@.map_values(|l: String| l@) == trace_from(self@.history, 0),
    {
        let ghost h = self@.history;
        let n = self.history.len();
        let mut lines: Vec<String> = Vec::new();
        let mut i: usize = 0;
        while i < n
            invariant
                n == h.len(),
                h == self@.history,
                i <= n,
                trace_from(h, 0) == lines@.map_values(|l: String| l@) + trace_from(h, i as int),
            decreases n - i,
        {
            let j = if n - i > 16 {
                i + 16
            } else {
                n
            };
            let mut tick = string_from("TICK ");
            let mut header = string_from("─────");
            let mut state = string_from("CPU  ");
            let mut addr = string_from("ADDR ");
            let mut data = string_from("DATA ");
            let mut mem = string_from("/MEM ");
            let mut wrt = string_from("/WRT ");
            let mut k = i;
            while k < j
                invariant
                    n == h.len(),
                    h == self@.history,
                    i <= k <= j <= n,
                    tick@ == "TICK "@ + row(h.subrange(i as int, k as int), |s: SnapshotView| tick_cell(s)),
                    header@ == "─────"@ + row(h.subrange(i as int, k as int), |s: SnapshotView| header_cell(s)),
                    state@ == "CPU  "@ + row(h.subrange(i as int, k as int), |s: SnapshotView| state_cell(s)),
                    addr@ == "ADDR "@ + row(h.subrange(i as int, k as int), |s: SnapshotView| addr_cell(s)),
                    data@ == "DATA "@ + row(h.subrange(i as int, k as int), |s: SnapshotView| data_cell(s)),
                    mem@ == "/MEM "@ + row(h.subrange(i as int, k as int), |s: SnapshotView| mem_cell(s)),
                    wrt@ == "/WRT "@ + row(h.subrange(i as int, k as int), |s: SnapshotView| wrt_cell(s)),
                decreases j - k,
            {
                let snap = &self.history[k];
                proof {
                    let c = h.subrange(i as int, k + 1);
                    assert(c.drop_last() =~= h.subrange(i as int, k as int));
                    assert(c.last() == snap@);
                }
                push_str(&mut tick, " ");
                push_str(&mut tick, hex_digits_of(snap.tick, 4).as_str());
                push_str(&mut header, "─────");
                push_str(&mut state, " ");
                push_str(&mut state, snap.state.label());
                push_str(&mut addr, " ");
                push_str(&mut addr, hex_digits_of(snap.bus.addr, 4).as_str());
                push_str(&mut data, " ──");
                push_str(&mut data, hex_digits_of(snap.bus.data as u16, 2).as_str());
                push_str(&mut mem, if snap.bus.mem { " ─MEM" } else { " ────" });
                push_str(&mut wrt, if snap.bus.write { " ─WRT" } else { " ────" });
                k = k + 1;
            }
            let ghost before = lines@.map_values(|l: String| l@);
            lines.push(tick);
            lines.push(header);
            lines.push(state);
            lines.push(addr);
            lines.push(data);
            lines.push(mem);
            lines.push(wrt);
            lines.push(String::new());
            proof {
                assert(lines@.map_values(|l: String| l@) =~= before + chunk_lines(
                    h.subrange(i as int, j as int),
                ));
            }
            i = j;
        }
        proof {
            assert(trace_from(h, i as int) =~= Seq::<Seq<char>>::empty());
            assert(lines@.map_values(|l: String| l@) + Seq::<Seq<char>>::empty()
                =~= lines@.map_values(|l: String| l@));
        }
        lines
    }

    /// Reads the contents of system memory at logical address `addr`.
    ///
    /// This may be RAM, ROM, or a memory-mapped I/O device: the request is put on the bus
    /// with the CPU halted, the system is ticked once to service it, and the data bus is
    /// read back; the CPU's halt flag and the bus are then restored.
    pub fn peek_mem(&mut self, addr: u16) -> (r: u8)
        ensures
            (r, final(self)@) == old(self)@.peek(addr),
    {
        // Save current CPU/bus state
        let halted = self.cpu.halt;
        let bus_state = self.bus.clone();

        // Halt the CPU and set up the bus request
        self.cpu.halt = true;
        self.bus.addr = addr;
        self.bus.mem = true;
        self.bus.write = false;

        // Tick the system once to fulfil the request
        self.tick();

        // Restore the saved state
        self.cpu.halt = halted;
        let data = self.bus.data;
        self.bus = bus_state;
        data
    }

    /// Resets the system (by triggering a CPU reset) and runs from the reset vector until
    /// halted.
    ///
    /// This resets the CPU to its default state and starts execution from the reset
    /// vector. Memory and other devices are not affected.
    pub fn reset(&mut self)
        ensures
            (SystemView {
                cpu: CpuView::initial().with_state(State::WaitResetLo),
                bus: old(self)@.bus.driven_read(crate::cpu::VEC_RESET),
                ..old(self)@
            }).ran_to(final(self)@),
    {
        self.cpu.reset(&mut self.bus);
        self.run();
    }
}

impl Bus {
    /// The view of a default (idle) bus.
    pub open spec fn default_view() -> BusView {
        BusView { addr: 0, data: 0, debug: false, mem: false, pending: None, write: false }
    }
}

} // verus!
