//! The R8 CPU: a state machine that advances by one bus cycle per tick.
use vstd::prelude::*;

use crate::bus::{read_request, write_request, Bstate, Bus, BusView};
use crate::device::Device;
use crate::instructions::{decode, spec_operands, InstructionKind, Operands};
use crate::regs::{
    lemma_regs_set_get, pair, reg_from_id, reg_is16, spec_source_and_target, source_and_target_from,
    source_from,
    Reg, Regs, RegsView,
};

verus! {

/// Trap code for the 'illegal instruction' trap.
pub const TRAP_ILLEGAL: u8 = 0x00;

/// Trap code for the 'putchar' trap, which prints the character in register A.
pub const TRAP_PUTCHAR: u8 = 0x20;

/// The hard-wired reset vector address.
pub const VEC_RESET: u16 = 0xFFFE;

/// `x` reduced to 16 bits (wrapping arithmetic).
pub open spec fn wrap16(x: int) -> u16 {
    (x % 65536) as u16
}

/// `x` reduced to 8 bits (wrapping arithmetic).
pub open spec fn wrap8(x: int) -> u8 {
    (x % 256) as u8
}

/// The signed value of a branch displacement byte (-128 to +127).
pub open spec fn sign_extend(d: u8) -> int {
    if d < 128 {
        d as int
    } else {
        d as int - 256
    }
}

/// The state of the CPU's flag bits.
#[derive(Clone, Copy, Debug, PartialEq, Eq, Structural)]
pub struct Flags {
    /// Indicates carry (from addition) or 'no borrow' (from subtraction or comparison).
    pub carry: bool,
    /// Indicates a zero result from the last operation.
    pub zero: bool,
}

impl Default for Flags {
    /// Both flags clear.
    fn default() -> (f: Flags)
        ensures
            f == (Flags { carry: false, zero: false }),
    {
        Flags { carry: false, zero: false }
    }
}

/// The state of the CPU on the next tick.
#[derive(Clone, Copy, Debug, PartialEq, Eq, Structural)]
pub enum State {
    /// Reads the opcode from the data bus.
    Decode,
    /// Executes the current instruction.
    Execute,
    /// Requests the next opcode from memory.
    FetchOpcode,
    /// Reads the high byte of the address to jump to.
    ReadAddrHi,
    /// Reads a byte from memory for a `dec` instruction.
    ReadDec(u16),
    /// Reads a byte from memory for an `inc` instruction.
    ReadInc(u16),
    /// Loads a register from the bus.
    ReadLoad(Reg),
    /// Reads a single operand from the bus.
    ReadOp,
    /// Reads the second of two operands from the bus.
    ReadOpHi,
    /// Reads the first of two operands from the bus.
    ReadOpLo,
    /// Reads the low byte of the reset vector from the bus.
    ReadResetLo,
    /// Reads the high byte of the return address for a `ret` instruction.
    ReadRetHi,
    /// Reads the low byte of the return address for a `ret` instruction.
    ReadRetLo,
    /// Reads the first of two stack values from the bus.
    ReadStackHi(Reg),
    /// Reads the low byte of the selected trap vector.
    ReadTrapVecLo(u16),
    /// Waits for the high byte of the address to jump to.
    WaitAddrHi,
    /// Waits for the low byte of the return address to be pushed for a `call`
    /// instruction.
    WaitCall(u8, u16),
    /// Waits for a byte from memory for a `dec` instruction.
    WaitDec(u16),
    /// Waits for a byte from memory for an `inc` instruction.
    WaitInc(u16),
    /// Waits for a byte from memory to load a register.
    WaitLoad(Reg),
    /// Waits for a single operand read from memory.
    WaitOp,
    /// Waits for the second of two operands from memory.
    WaitOpHi,
    /// Waits for the first of two operands from memory.
    WaitOpLo,
    /// Waits for an opcode fetch to complete.
    WaitOpcode,
    /// Waits for a stack push, before pushing another value.
    WaitPush(u8),
    /// Waits for the low byte of the reset vector.
    WaitResetLo,
    /// Waits for the high byte of the return address for a `ret` instruction.
    WaitRetHi,
    /// Waits for the low byte of the return address for a `ret` instruction.
    WaitRetLo,
    /// Waits for the first of 2 stack pops to a register.
    WaitStackHi(Reg),
    /// Waits for the trap code to be pushed following a trap.
    WaitTrapCode(u8),
    /// Waits for the high byte of the return address to be pushed following a trap.
    WaitTrapHi(u8),
    /// Waits for the low byte of the return address to be pushed following a trap.
    WaitTrapLo(u8, u8),
    /// Waits for the low byte of the trap vector following a trap.
    WaitTrapVecLo(u16),
}

impl Default for State {
    /// A CPU starts by fetching an opcode.
    fn default() -> (s: State)
        ensures
            s == State::FetchOpcode,
    {
        State::FetchOpcode
    }
}

impl State {
    /// Returns the four-letter code shown for this state in bus traces.
    pub fn label(&self) -> (s: &'static str)
        ensures
            s@ == state_label(*self),
    {
        match *self {
            State::Decode => "DCOD",
            State::Execute => "EXEC",
            State::FetchOpcode => "FOPC",
            State::ReadAddrHi => "RDAH",
            State::ReadDec(_) => "RDEC",
            State::ReadInc(_) => "RINC",
            State::ReadLoad(_) => "RDLD",
            State::ReadOp => "RDOP",
            State::ReadOpHi => "ROPH",
            State::ReadOpLo => "ROPL",
            State::ReadResetLo => "RRSL",
            State::ReadRetHi => "RRTH",
            State::ReadRetLo => "RRTL",
            State::ReadStackHi(_) => "RSTH",
            State::ReadTrapVecLo(_) => "RTVL",
            State::WaitCall(_, _) => "WCAL",
            State::WaitDec(_) => "WDEC",
            State::WaitInc(_) => "WINC",
            State::WaitLoad(_) => "WTLD",
            State::WaitOp => "WTOP",
            State::WaitOpHi => "WOPH",
            State::WaitOpLo => "WOPL",
            State::WaitOpcode => "WOPC",
            State::WaitPush(_) => "WPSH",
            State::WaitAddrHi => "WTAH",
            State::WaitResetLo => "WRSL",
            State::WaitRetHi => "WRTH",
            State::WaitRetLo => "WRTL",
            State::WaitStackHi(_) => "WSTH",
            State::WaitTrapCode(_) => "WTTC",
            State::WaitTrapHi(_) => "WTTH",
            State::WaitTrapLo(_, _) => "WTTL",
            State::WaitTrapVecLo(_) => "WTVL",
        }
    }
}

/// The four-letter trace code of a CPU state.
pub open spec fn state_label(s: State) -> Seq<char> {
    match s {
        State::Decode => "DCOD"@,
        State::Execute => "EXEC"@,
        State::FetchOpcode => "FOPC"@,
        State::ReadAddrHi => "RDAH"@,
        State::ReadDec(_) => "RDEC"@,
        State::ReadInc(_) => "RINC"@,
        State::ReadLoad(_) => "RDLD"@,
        State::ReadOp => "RDOP"@,
        State::ReadOpHi => "ROPH"@,
        State::ReadOpLo => "ROPL"@,
        State::ReadResetLo => "RRSL"@,
        State::ReadRetHi => "RRTH"@,
        State::ReadRetLo => "RRTL"@,
        State::ReadStackHi(_) => "RSTH"@,
        State::ReadTrapVecLo(_) => "RTVL"@,
        State::WaitCall(_, _) => "WCAL"@,
        State::WaitDec(_) => "WDEC"@,
        State::WaitInc(_) => "WINC"@,
        State::WaitLoad(_) => "WTLD"@,
        State::WaitOp => "WTOP"@,
        State::WaitOpHi => "WOPH"@,
        State::WaitOpLo => "WOPL"@,
        State::WaitOpcode => "WOPC"@,
        State::WaitPush(_) => "WPSH"@,
        State::WaitAddrHi => "WTAH"@,
        State::WaitResetLo => "WRSL"@,
        State::WaitRetHi => "WRTH"@,
        State::WaitRetLo => "WRTL"@,
        State::WaitStackHi(_) => "WSTH"@,
        State::WaitTrapCode(_) => "WTTC"@,
        State::WaitTrapHi(_) => "WTTH"@,
        State::WaitTrapLo(_, _) => "WTTL"@,
        State::WaitTrapVecLo(_) => "WTVL"@,
    }
}

/// The abstract state of the CPU.
#[verifier::ext_equal]
pub struct CpuView {
    pub flags: Flags,
    pub halt: bool,
    pub ins: InstructionKind,
    pub op_hi: u8,
    pub op_lo: u8,
    pub pc: u16,
    pub regs: RegsView,
    pub state: State,
    /// Characters printed by the 'putchar' trap and not yet collected.
    pub output: Seq<u8>,
}

impl CpuView {
    /// The power-on state, before the reset vector is read.
    pub open spec fn initial() -> CpuView {
        CpuView {
            flags: Flags { carry: false, zero: false },
            halt: false,
            ins: InstructionKind::Nop,
            op_hi: 0,
            op_lo: 0,
            pc: 0,
            regs: RegsView::zeroed(),
            state: State::FetchOpcode,
            output: Seq::empty(),
        }
    }

    /// The 16-bit value of the two operand bytes (high byte first).
    pub open spec fn op(self) -> u16 {
        pair(self.op_hi, self.op_lo)
    }

    /// The value of register `r`.
    pub open spec fn reg(self, r: Reg) -> u16 {
        self.regs.get(r)
    }

    /// The low byte of register `r` (the whole value for an 8-bit register).
    pub open spec fn reg8(self, r: Reg) -> u8 {
        (self.regs.get(r) % 256) as u8
    }

    /// The CPU with register `r` set to `val`.
    pub open spec fn with_reg(self, r: Reg, val: u16) -> CpuView {
        CpuView { regs: self.regs.set(r, val), ..self }
    }

    /// The CPU with state `s`.
    pub open spec fn with_state(self, s: State) -> CpuView {
        CpuView { state: s, ..self }
    }

    /// The CPU with the zero flag set to `z`.
    pub open spec fn with_zero(self, z: bool) -> CpuView {
        CpuView { flags: Flags { zero: z, ..self.flags }, ..self }
    }

    /// The CPU with the carry flag set to `c`.
    pub open spec fn with_carry(self, c: bool) -> CpuView {
        CpuView { flags: Flags { carry: c, ..self.flags }, ..self }
    }

    /// Requesting the byte at PC and advancing PC.
    pub open spec fn fetch_and_advance(self, bus: BusView) -> (CpuView, BusView) {
        (CpuView { pc: wrap16(self.pc + 1), ..self }, bus.request(read_request(self.pc)))
    }

    /// Writing `val` at SP, then moving SP down one byte.
    pub open spec fn stack_push(self, val: u8, bus: BusView) -> (CpuView, BusView) {
        let sp = self.regs.sp;
        (self.with_reg(Reg::SP, wrap16(sp - 1)), bus.request(write_request(sp, val)))
    }

    /// Moving SP up one byte, then requesting the byte there.
    pub open spec fn stack_pop(self, bus: BusView) -> (CpuView, BusView) {
        let addr = wrap16(self.regs.sp + 1);
        (self.with_reg(Reg::SP, addr), bus.request(read_request(addr)))
    }

    /// Taking trap `code`: 'putchar' prints register A; a code above 0x3F becomes the
    /// 'illegal instruction' trap; the low byte of the return address (PC) is pushed and
    /// the rest of the trap frame follows on the next ticks.
    pub open spec fn trap(self, code: u8, bus: BusView) -> (CpuView, BusView) {
        let printed = if code == TRAP_PUTCHAR {
            CpuView { output: self.output.push(self.reg8(Reg::A)), ..self }
        } else {
            self
        };
        let code = if code >= 0x40 {
            TRAP_ILLEGAL
        } else {
            code
        };
        let (c, b) = printed.stack_push((self.pc % 256) as u8, bus);
        (c.with_state(State::WaitTrapLo((self.pc / 256) as u8, code)), b)
    }

    /// Add with carry into an 8-bit register.
    pub open spec fn add(self, reg: Reg, addend: u8) -> CpuView {
        let sum = self.reg8(reg) + addend + (if self.flags.carry {
            1int
        } else {
            0
        });
        self.with_reg(reg, wrap8(sum) as u16).with_carry(sum >= 256).with_zero(wrap8(sum) == 0)
    }

    /// Subtract with borrow (carry clear means borrow) from an 8-bit register.
    pub open spec fn sub(self, reg: Reg, subtrahend: u8) -> CpuView {
        let diff = self.reg8(reg) - subtrahend - (if self.flags.carry {
            0int
        } else {
            1
        });
        self.with_reg(reg, wrap8(diff + 256) as u16).with_carry(diff >= 0).with_zero(
            wrap8(diff + 256) == 0,
        )
    }

    /// Bitwise AND of an 8-bit register with `mask`.
    pub open spec fn and(self, reg: Reg, mask: u8) -> CpuView {
        let result = self.reg8(reg) & mask;
        self.with_reg(reg, result as u16).with_zero(result == 0)
    }

    /// Logical shift right of an 8-bit register by `bits` (taken as 1 if below 1 and as 8
    /// if above 8); the carry flag receives the last bit shifted out, and the zero flag is
    /// set exactly when the result is zero.
    pub open spec fn lsr(self, reg: Reg, bits: u8) -> CpuView {
        let n = if bits < 1 {
            1u8
        } else if bits > 8 {
            8u8
        } else {
            bits
        };
        let v = self.reg8(reg);
        self.with_reg(reg, (v >> n) as u16).with_carry((v >> ((n - 1) as u8)) & 1 == 1).with_zero(
            (v >> n) == 0,
        )
    }

    /// Comparing an 8-bit register with `rhs`.
    pub open spec fn cmp(self, reg: Reg, rhs: u8) -> CpuView {
        let lhs = self.reg8(reg);
        self.with_zero(lhs == rhs).with_carry(lhs >= rhs)
    }

    /// Comparing a 16-bit register with `rhs`.
    pub open spec fn cmp16(self, reg: Reg, rhs: u16) -> CpuView {
        let lhs = self.reg(reg);
        self.with_zero(lhs == rhs).with_carry(lhs >= rhs)
    }

    /// Decrementing an 8-bit register.
    pub open spec fn dec(self, reg: Reg) -> CpuView {
        let result = wrap8(self.reg8(reg) - 1 + 256);
        self.with_reg(reg, result as u16).with_zero(result == 0)
    }

    /// Decrementing a 16-bit register.
    pub open spec fn dec16(self, reg: Reg) -> CpuView {
        let result = wrap16(self.reg(reg) - 1 + 65536);
        self.with_reg(reg, result).with_zero(result == 0)
    }

    /// Incrementing an 8-bit register.
    pub open spec fn inc(self, reg: Reg) -> CpuView {
        let result = wrap8(self.reg8(reg) + 1);
        self.with_reg(reg, result as u16).with_zero(result == 0)
    }

    /// Incrementing a 16-bit register.
    pub open spec fn inc16(self, reg: Reg) -> CpuView {
        let result = wrap16(self.reg(reg) + 1);
        self.with_reg(reg, result).with_zero(result == 0)
    }

    /// Branching by the signed displacement `dis` from PC.
    pub open spec fn branch(self, dis: u8) -> CpuView {
        CpuView { pc: wrap16(self.pc + sign_extend(dis)), ..self }
    }

    /// Requesting the byte at `addr` to be decremented.
    pub open spec fn dec_mem(self, addr: u16, bus: BusView) -> (CpuView, BusView) {
        (self.with_state(State::WaitDec(addr)), bus.request(read_request(addr)))
    }

    /// Requesting the byte at `addr` to be incremented.
    pub open spec fn inc_mem(self, addr: u16, bus: BusView) -> (CpuView, BusView) {
        (self.with_state(State::WaitInc(addr)), bus.request(read_request(addr)))
    }

    /// `dec (RR)`: the operand's high nibble must name a 16-bit register.
    pub open spec fn dec_indirect(self, bus: BusView) -> (CpuView, BusView) {
        match reg_from_id(self.op_lo / 16) {
            Some(source) if reg_is16(source) => self.dec_mem(self.reg(source), bus),
            _ => self.trap(TRAP_ILLEGAL, bus),
        }
    }

    /// `inc (RR)`: the operand's high nibble must name a 16-bit register.
    pub open spec fn inc_indirect(self, bus: BusView) -> (CpuView, BusView) {
        match reg_from_id(self.op_lo / 16) {
            Some(source) if reg_is16(source) => self.inc_mem(self.reg(source), bus),
            _ => self.trap(TRAP_ILLEGAL, bus),
        }
    }

    /// `ld R, (RR)`: request the byte at the address in the source register, to be
    /// loaded into the target register.
    pub open spec fn ld_reg_indirect(self, bus: BusView) -> (CpuView, BusView) {
        match spec_source_and_target(self.op_lo) {
            Some((source, target)) => (
                self.with_state(State::WaitLoad(target)),
                bus.request(read_request(self.reg(source))),
            ),
            None => self.trap(TRAP_ILLEGAL, bus),
        }
    }

    /// `ld R, R`: copy between registers of the same width.
    pub open spec fn ld_reg_reg(self, bus: BusView) -> (CpuView, BusView) {
        match spec_source_and_target(self.op_lo) {
            Some((source, target)) if reg_is16(source) == reg_is16(target) => (
                self.with_reg(target, self.reg(source)),
                bus,
            ),
            _ => self.trap(TRAP_ILLEGAL, bus),
        }
    }

    /// `ld (RR), R`: write an 8-bit register to the address in a 16-bit register.
    pub open spec fn store_reg_indirect(self, bus: BusView) -> (CpuView, BusView) {
        match spec_source_and_target(self.op_lo) {
            Some((source, target)) if !reg_is16(source) && reg_is16(target) => (
                self,
                bus.request(write_request(self.reg(target), self.reg8(source))),
            ),
            _ => self.trap(TRAP_ILLEGAL, bus),
        }
    }

    /// `call`: push the low byte of the return address; the high byte follows.
    pub open spec fn call(self, addr: u16, bus: BusView) -> (CpuView, BusView) {
        let (c, b) = self.stack_push((self.pc % 256) as u8, bus);
        (c.with_state(State::WaitCall((self.pc / 256) as u8, addr)), b)
    }

    /// `pop`: request the top of the stack.
    pub open spec fn pop(self, reg: Reg, bus: BusView) -> (CpuView, BusView) {
        let (c, b) = self.stack_pop(bus);
        if reg_is16(reg) {
            (c.with_state(State::WaitStackHi(reg)), b)
        } else {
            (CpuView { op_hi: 0, ..c }.with_state(State::WaitLoad(reg)), b)
        }
    }

    /// `push`: push a register (low byte first for a 16-bit register).
    pub open spec fn push(self, reg: Reg, bus: BusView) -> (CpuView, BusView) {
        if reg_is16(reg) {
            let (c, b) = self.stack_push((self.reg(reg) % 256) as u8, bus);
            (c.with_state(State::WaitPush((self.reg(reg) / 256) as u8)), b)
        } else {
            self.stack_push(self.reg8(reg), bus)
        }
    }

    /// `ret`: pop the high byte of the return address.
    pub open spec fn ret(self, bus: BusView) -> (CpuView, BusView) {
        let (c, b) = self.stack_pop(bus);
        (c.with_state(State::WaitRetHi), b)
    }

    /// `rti`: skip the trap code on the stack and pop the high byte of the return
    /// address.
    pub open spec fn rti(self, bus: BusView) -> (CpuView, BusView) {
        let addr = wrap16(self.regs.sp + 2);
        (self.with_reg(Reg::SP, addr).with_state(State::WaitRetHi), bus.request(read_request(addr)))
    }

    /// Executing instruction `ins` with the current operands.
    pub open spec fn execute(self, ins: InstructionKind, bus: BusView) -> (CpuView, BusView) {
        match ins {
            InstructionKind::Add(r) => (self.add(r, self.op_lo), bus),
            InstructionKind::And(r) => (self.and(r, self.op_lo), bus),
            InstructionKind::BranchAlways => (self.branch(self.op_lo), bus),
            InstructionKind::BranchCc => (if !self.flags.carry {
                self.branch(self.op_lo)
            } else {
                self
            }, bus),
            InstructionKind::BranchCs => (if self.flags.carry {
                self.branch(self.op_lo)
            } else {
                self
            }, bus),
            InstructionKind::BranchEq => (if self.flags.zero {
                self.branch(self.op_lo)
            } else {
                self
            }, bus),
            InstructionKind::BranchNe => (if !self.flags.zero {
                self.branch(self.op_lo)
            } else {
                self
            }, bus),
            InstructionKind::Call => self.call(self.op(), bus),
            InstructionKind::Clc => (self.with_carry(false), bus),
            InstructionKind::Cmp(r) => (if reg_is16(r) {
                self.cmp16(r, self.op())
            } else {
                self.cmp(r, self.op_lo)
            }, bus),
            InstructionKind::Dec(r) => (if reg_is16(r) {
                self.dec16(r)
            } else {
                self.dec(r)
            }, bus),
            InstructionKind::DecIndirect => self.dec_indirect(bus),
            InstructionKind::DecMem => self.dec_mem(self.op(), bus),
            InstructionKind::Halt => (CpuView { halt: true, ..self }, bus),
            InstructionKind::Inc(r) => (if reg_is16(r) {
                self.inc16(r)
            } else {
                self.inc(r)
            }, bus),
            InstructionKind::IncIndirect => self.inc_indirect(bus),
            InstructionKind::IncMem => self.inc_mem(self.op(), bus),
            InstructionKind::Jmp => (CpuView { pc: self.op(), ..self }, bus),
            InstructionKind::LdRegImm(r) => (self.with_reg(r, self.op()), bus),
            InstructionKind::LdRegIndirect => self.ld_reg_indirect(bus),
            InstructionKind::LdRegReg => self.ld_reg_reg(bus),
            InstructionKind::Lsr(r) => (self.lsr(r, self.op_lo), bus),
            InstructionKind::Nop => (self, bus),
            InstructionKind::Pop(r) => self.pop(r, bus),
            InstructionKind::Push(r) => self.push(r, bus),
            InstructionKind::Ret => self.ret(bus),
            InstructionKind::Rti => self.rti(bus),
            InstructionKind::Sec => (self.with_carry(true), bus),
            InstructionKind::StoreRegDirect(r) => (
                self,
                bus.request(write_request(self.op(), self.reg8(r))),
            ),
            InstructionKind::StoreRegIndirect => self.store_reg_indirect(bus),
            InstructionKind::Sub(r) => (self.sub(r, self.op_lo), bus),
            InstructionKind::Trap => self.trap(self.op_lo, bus),
        }
    }

    /// One tick of the CPU: what it does in each state, and the state it moves to.
    #[verifier::opaque]
    pub open spec fn step(self, bus: BusView) -> (CpuView, BusView) {
        match self.state {
            State::Decode => match decode(bus.data) {
                None => self.trap(TRAP_ILLEGAL, bus),
                Some(ins) => {
                    let c = CpuView { ins, ..self };
                    match spec_operands(ins) {
                        Operands::Zero => (
                            c.with_state(State::Execute),
                            bus.request(seq![Bstate::Mem(false)]),
                        ),
                        Operands::One => {
                            let (c2, b2) = c.fetch_and_advance(bus);
                            (c2.with_state(State::WaitOp), b2)
                        },
                        Operands::Two => {
                            let (c2, b2) = c.fetch_and_advance(bus);
                            (c2.with_state(State::WaitOpLo), b2)
                        },
                    }
                },
            },
            State::Execute => self.with_state(State::FetchOpcode).execute(self.ins, bus),
            State::FetchOpcode => if self.halt {
                (self, bus)
            } else {
                let (c, b) = self.fetch_and_advance(bus);
                (c.with_state(State::WaitOpcode), b)
            },
            State::ReadDec(addr) => {
                let val = wrap8(bus.data - 1 + 256);
                (
                    self.with_zero(val == 0).with_state(State::FetchOpcode),
                    bus.request(write_request(addr, val)),
                )
            },
            State::ReadInc(addr) => {
                let val = wrap8(bus.data + 1);
                (
                    self.with_zero(val == 0).with_state(State::FetchOpcode),
                    bus.request(write_request(addr, val)),
                )
            },
            State::ReadLoad(reg) => {
                let c = CpuView { op_lo: bus.data, ..self };
                (if reg_is16(reg) {
                    c.with_reg(reg, c.op())
                } else {
                    c.with_reg(reg, bus.data as u16)
                }.with_state(State::FetchOpcode), bus)
            },
            State::ReadOp => (
                CpuView { op_hi: 0, op_lo: bus.data, ..self }.with_state(State::Execute),
                bus,
            ),
            State::ReadOpLo => {
                let (c, b) = CpuView { op_lo: bus.data, ..self }.fetch_and_advance(bus);
                (c.with_state(State::WaitOpHi), b)
            },
            State::ReadOpHi => (
                CpuView { op_hi: bus.data, ..self }.with_state(State::Execute),
                bus,
            ),
            State::ReadResetLo => (
                CpuView { op_lo: bus.data, ..self }.with_state(State::WaitAddrHi),
                bus.request(read_request(wrap16(VEC_RESET + 1))),
            ),
            State::ReadAddrHi => {
                let c = CpuView { op_hi: bus.data, ..self };
                (CpuView { pc: c.op(), ..c }.with_state(State::FetchOpcode), bus)
            },
            State::ReadRetHi => {
                let (c, b) = CpuView { op_hi: bus.data, ..self }.stack_pop(bus);
                (c.with_state(State::WaitRetLo), b)
            },
            State::ReadRetLo => {
                let c = CpuView { op_lo: bus.data, ..self };
                (CpuView { pc: c.op(), ..c }.with_state(State::FetchOpcode), bus)
            },
            State::ReadStackHi(reg) => {
                let (c, b) = CpuView { op_hi: bus.data, ..self }.stack_pop(bus);
                (c.with_state(State::WaitLoad(reg)), b)
            },
            State::ReadTrapVecLo(addr) => (
                CpuView { op_lo: bus.data, ..self }.with_state(State::WaitAddrHi),
                bus.request(read_request(addr)),
            ),
            State::WaitCall(hi, subr_addr) => {
                let (c, b) = self.stack_push(hi, bus);
                (CpuView { pc: subr_addr, ..c }.with_state(State::FetchOpcode), b)
            },
            State::WaitDec(addr) => (self.with_state(State::ReadDec(addr)), bus),
            State::WaitInc(addr) => (self.with_state(State::ReadInc(addr)), bus),
            State::WaitLoad(reg) => (self.with_state(State::ReadLoad(reg)), bus),
            State::WaitOp => (self.with_state(State::ReadOp), bus),
            State::WaitOpLo => (self.with_state(State::ReadOpLo), bus),
            State::WaitOpHi => (self.with_state(State::ReadOpHi), bus),
            State::WaitOpcode => (self.with_state(State::Decode), bus),
            State::WaitResetLo => (self.with_state(State::ReadResetLo), bus),
            State::WaitAddrHi => (self.with_state(State::ReadAddrHi), bus),
            State::WaitStackHi(reg) => (self.with_state(State::ReadStackHi(reg)), bus),
            State::WaitPush(val) => {
                let (c, b) = self.stack_push(val, bus);
                (c.with_state(State::FetchOpcode), b)
            },
            State::WaitRetHi => (self.with_state(State::ReadRetHi), bus),
            State::WaitRetLo => (self.with_state(State::ReadRetLo), bus),
            State::WaitTrapCode(trap_code) => {
                let vec_addr = (trap_code as int * 2) as u16;
                (
                    self.with_state(State::WaitTrapVecLo(wrap16(vec_addr + 1))),
                    bus.request(read_request(vec_addr)),
                )
            },
            State::WaitTrapLo(hi, trap_code) => {
                let (c, b) = self.stack_push(hi, bus);
                (c.with_state(State::WaitTrapHi(trap_code)), b)
            },
            State::WaitTrapHi(trap_code) => {
                let (c, b) = self.stack_push(trap_code, bus);
                (c.with_state(State::WaitTrapCode(trap_code)), b)
            },
            State::WaitTrapVecLo(addr) => (self.with_state(State::ReadTrapVecLo(addr)), bus),
        }
    }
}

/// The system CPU.
#[derive(Debug)]
pub struct Cpu {
    /// Flags.
    pub flags: Flags,
    /// Is the CPU halted?
    pub halt: bool,
    /// The current instruction.
    pub ins: InstructionKind,
    /// The current operand (high byte).
    pub op_hi: u8,
    /// The current operand (low byte).
    pub op_lo: u8,
    /// The program counter.
    pub pc: u16,
    /// The CPU's registers.
    pub regs: Regs,
    /// The current state.
    pub state: State,
    /// Characters printed by the 'putchar' trap and not yet collected.
    pub output: Vec<u8>,
}

impl View for Cpu {
    type V = CpuView;

    open spec fn view(&self) -> CpuView {
        CpuView {
            flags: self.flags,
            halt: self.halt,
            ins: self.ins,
            op_hi: self.op_hi,
            op_lo: self.op_lo,
            pc: self.pc,
            regs: self.regs@,
            state: self.state,
            output: self.output@,
        }
    }
}

impl Default for Cpu {
    /// The power-on CPU: registers and flags zero, not halted, about to fetch an opcode
    /// from address 0.
    fn default() -> (c: Cpu)
        ensures
            c@ == CpuView::initial(),
    {
        Cpu {
            flags: Flags::default(),
            halt: false,
            ins: InstructionKind::Nop,
            op_hi: 0,
            op_lo: 0,
            pc: 0,
            state: State::default(),
            regs: Regs::default(),
            output: Vec::new(),
        }
    }
}

impl Device for Cpu {
    /// Transitions to the next state.
    #[verifier::spinoff_prover]
    #[verifier::rlimit(100)]
    fn tick(&mut self, bus: &mut Bus)
        ensures
            (final(self)@, final(bus)@) == old(self)@.step(old(bus)@),
    {
        reveal(CpuView::step);
        match self.state {
            State::Decode => {
                let opcode = bus.data;
                match InstructionKind::from_opcode(opcode) {
                    None => self.trap(TRAP_ILLEGAL, bus),
                    Some(ins) => {
                        self.ins = ins;
                        match ins.operands() {
                            Operands::Zero => {
                                // No operands needed, go straight to 'execute'
                                bus.disable_mem();
                                self.state = State::Execute;
                            },
                            Operands::One => {
                                self.fetch_and_advance(bus);
                                self.state = State::WaitOp;
                            },
                            Operands::Two => {
                                self.fetch_and_advance(bus);
                                self.state = State::WaitOpLo;
                            },
                        }
                    },
                }
            },
            State::Execute => {
                let ins = self.ins;
                // default next state, but may be overridden by instruction
                self.state = State::FetchOpcode;
                ins.execute(self, bus);
            },
            State::FetchOpcode => {
                if !self.halt {
                    self.fetch_and_advance(bus);
                    self.state = State::WaitOpcode;
                }
            },
            State::ReadDec(addr) => {
                let val = bus.data.wrapping_sub(1);
                bus.write_mem(addr, val);
                self.flags.zero = val == 0;
                self.state = State::FetchOpcode;
            },
            State::ReadInc(addr) => {
                let val = bus.data.wrapping_add(1);
                bus.write_mem(addr, val);
                self.flags.zero = val == 0;
                self.state = State::FetchOpcode;
            },
            State::ReadLoad(reg) => {
                self.op_lo = bus.data;
                if reg.is16() {
                    let val = self.op();
                    self.regs.set(reg, val);
                } else {
                    self.regs.set(reg, self.op_lo as u16);
                }
                self.state = State::FetchOpcode;
            },
            State::ReadOp => {
                self.op_hi = 0;
                self.op_lo = bus.data;
                self.state = State::Execute;
            },
            State::ReadOpLo => {
                self.op_lo = bus.data;
                self.fetch_and_advance(bus);
                self.state = State::WaitOpHi;
            },
            State::ReadOpHi => {
                self.op_hi = bus.data;
                self.state = State::Execute;
            },
            State::ReadResetLo => {
                self.op_lo = bus.data;
                bus.read_mem(VEC_RESET.wrapping_add(1));
                self.state = State::WaitAddrHi;
            },
            State::ReadAddrHi => {
                self.op_hi = bus.data;
                self.pc = self.op();
                self.state = State::FetchOpcode;
            },
            State::ReadRetHi => {
                self.op_hi = bus.data;
                self.stack_pop(bus);
                self.state = State::WaitRetLo;
            },
            State::ReadRetLo => {
                self.op_lo = bus.data;
                self.pc = self.op();
                self.state = State::FetchOpcode;
            },
            State::ReadStackHi(reg) => {
                self.op_hi = bus.data;
                self.stack_pop(bus);
                self.state = State::WaitLoad(reg);
            },
            State::ReadTrapVecLo(addr) => {
                self.op_lo = bus.data;
                bus.read_mem(addr);
                self.state = State::WaitAddrHi;
            },
            State::WaitCall(hi, subr_addr) => {
                self.stack_push(hi, bus);
                self.pc = subr_addr;
                self.state = State::FetchOpcode;
            },
            State::WaitDec(addr) => self.state = State::ReadDec(addr),
            State::WaitInc(addr) => self.state = State::ReadInc(addr),
            State::WaitLoad(reg) => self.state = State::ReadLoad(reg),
            State::WaitOp => self.state = State::ReadOp,
            State::WaitOpLo => self.state = State::ReadOpLo,
            State::WaitOpHi => self.state = State::ReadOpHi,
            State::WaitOpcode => self.state = State::Decode,
            State::WaitResetLo => self.state = State::ReadResetLo,
            State::WaitAddrHi => self.state = State::ReadAddrHi,
            State::WaitStackHi(reg) => self.state = State::ReadStackHi(reg),
            State::WaitPush(val) => {
                self.stack_push(val, bus);
                self.state = State::FetchOpcode;
            },
            State::WaitRetHi => self.state = State::ReadRetHi,
            State::WaitRetLo => self.state = State::ReadRetLo,
            State::WaitTrapCode(trap_code) => {
                let vec_addr = (trap_code as u16) * 2;
                bus.read_mem(vec_addr);
                self.state = State::WaitTrapVecLo(vec_addr.wrapping_add(1));
            },
            State::WaitTrapLo(hi, trap_code) => {
                self.stack_push(hi, bus);
                self.state = State::WaitTrapHi(trap_code);
            },
            State::WaitTrapHi(trap_code) => {
                self.stack_push(trap_code, bus);
                self.state = State::WaitTrapCode(trap_code);
            },
            State::WaitTrapVecLo(addr) => self.state = State::ReadTrapVecLo(addr),
        }
    }
}

impl Cpu {
    /// The low byte of register `reg` (the whole value for an 8-bit register).
    fn reg8(&self, reg: Reg) -> (r: u8)
        ensures
            r == self@.reg8(reg),
    {
        (self.regs.get(reg) % 256) as u8
    }

    /// Add with carry.
    pub fn add(&mut self, reg: Reg, addend: u8)
        ensures
            final(self)@ == old(self)@.add(reg, addend),
    {
        let augend = self.regs.get(reg) % 256;
        let carry_in: u16 = if self.flags.carry {
            1
        } else {
            0
        };
        let sum = augend + addend as u16 + carry_in;
        let result = (sum % 256) as u8;
        self.flags.carry = sum >= 256;
        self.regs.set(reg, result as u16);
        self.flags.zero = result == 0;
    }

    /// Bitwise AND.
    pub fn and(&mut self, reg: Reg, mask: u8)
        ensures
            final(self)@ == old(self)@.and(reg, mask),
    {
        let value = (self.regs.get(reg) % 256) as u8;
        let result = value & mask;
        self.regs.set(reg, result as u16);
        self.flags.zero = result == 0;
    }

    /// Branches to PC+`dis`, where `dis` is a signed displacement.
    pub fn branch(&mut self, dis: u8)
        ensures
            final(self)@ == old(self)@.branch(dis),
    {
        if dis < 128 {
            self.pc = self.pc.wrapping_add(dis as u16);
        } else {
            self.pc = self.pc.wrapping_sub(256 - dis as u16);
        }
    }

    /// Calls the subroutine at `addr`, pushing the return address on the stack.
    pub fn call(&mut self, addr: u16, bus: &mut Bus)
        ensures
            (final(self)@, final(bus)@) == old(self)@.call(addr, old(bus)@),
    {
        let ret_addr = self.pc;
        self.stack_push((ret_addr % 256) as u8, bus);
        self.state = State::WaitCall((ret_addr / 256) as u8, addr);
    }

    /// Compares the value in register `reg` with the operand, updating flags.
    pub fn cmp(&mut self, reg: Reg, rhs: u8)
        ensures
            final(self)@ == old(self)@.cmp(reg, rhs),
    {
        let lhs = self.reg8(reg);
        self.flags.zero = lhs == rhs;
        self.flags.carry = lhs >= rhs;
    }

    /// Compares the value in register pair `reg` with the operand, updating flags.
    pub fn cmp16(&mut self, reg: Reg, rhs: u16)
        ensures
            final(self)@ == old(self)@.cmp16(reg, rhs),
    {
        let lhs = self.regs.get(reg);
        self.flags.zero = lhs == rhs;
        self.flags.carry = lhs >= rhs;
    }

    /// Decrements the value in register `reg`, updating flags.
    pub fn dec(&mut self, reg: Reg)
        ensures
            final(self)@ == old(self)@.dec(reg),
    {
        let result = ((self.regs.get(reg) % 256) as u8).wrapping_sub(1);
        self.regs.set(reg, result as u16);
        self.flags.zero = result == 0;
    }

    /// Decrements the value in register pair `reg`, updating flags.
    pub fn dec16(&mut self, reg: Reg)
        ensures
            final(self)@ == old(self)@.dec16(reg),
    {
        let result = self.regs.get(reg).wrapping_sub(1);
        self.regs.set(reg, result);
        self.flags.zero = result == 0;
    }

    /// Decrements the value at the address in the register named by the operand's high
    /// nibble, updating flags; traps if that is not a 16-bit register.
    pub fn dec_indirect(&mut self, bus: &mut Bus)
        ensures
            (final(self)@, final(bus)@) == old(self)@.dec_indirect(old(bus)@),
    {
        match source_from(self.op_lo) {
            Some(source) if source.is16() => {
                let addr = self.regs.get(source);
                self.dec_mem(addr, bus);
            },
            _ => self.trap(TRAP_ILLEGAL, bus),
        }
    }

    /// Decrements the value at the address `addr`, updating flags.
    pub fn dec_mem(&mut self, addr: u16, bus: &mut Bus)
        ensures
            (final(self)@, final(bus)@) == old(self)@.dec_mem(addr, old(bus)@),
    {
        bus.read_mem(addr);
        self.state = State::WaitDec(addr);
    }

    /// Issues a memory fetch and advances PC.
    pub fn fetch_and_advance(&mut self, bus: &mut Bus)
        ensures
            (final(self)@, final(bus)@) == old(self)@.fetch_and_advance(old(bus)@),
    {
        bus.read_mem(self.pc);
        self.pc = self.pc.wrapping_add(1);
    }

    /// Halts the CPU.
    pub fn halt(&mut self)
        ensures
            final(self)@ == (CpuView { halt: true, ..old(self)@ }),
    {
        self.halt = true;
    }

    /// Increments the value in register `reg`, updating flags.
    pub fn inc(&mut self, reg: Reg)
        ensures
            final(self)@ == old(self)@.inc(reg),
    {
        let result = ((self.regs.get(reg) % 256) as u8).wrapping_add(1);
        self.regs.set(reg, result as u16);
        self.flags.zero = result == 0;
    }

    /// Increments the value in register pair `reg`, updating flags.
    pub fn inc16(&mut self, reg: Reg)
        ensures
            final(self)@ == old(self)@.inc16(reg),
    {
        let result = self.regs.get(reg).wrapping_add(1);
        self.regs.set(reg, result);
        self.flags.zero = result == 0;
    }

    /// Increments the value at the address in the register named by the operand's high
    /// nibble, updating flags; traps if that is not a 16-bit register.
    pub fn inc_indirect(&mut self, bus: &mut Bus)
        ensures
            (final(self)@, final(bus)@) == old(self)@.inc_indirect(old(bus)@),
    {
        match source_from(self.op_lo) {
            Some(source) if source.is16() => {
                let addr = self.regs.get(source);
                self.inc_mem(addr, bus);
            },
            _ => self.trap(TRAP_ILLEGAL, bus),
        }
    }

    /// Increments the value at the address `addr`, updating flags.
    pub fn inc_mem(&mut self, addr: u16, bus: &mut Bus)
        ensures
            (final(self)@, final(bus)@) == old(self)@.inc_mem(addr, old(bus)@),
    {
        bus.read_mem(addr);
        self.state = State::WaitInc(addr);
    }

    /// Jumps to address `addr`.
    pub fn jmp(&mut self, addr: u16)
        ensures
            final(self)@ == (CpuView { pc: addr, ..old(self)@ }),
    {
        self.pc = addr;
    }

    /// Executes a load register indirect instruction.
    pub fn ld_reg_indirect(&mut self, bus: &mut Bus)
        ensures
            (final(self)@, final(bus)@) == old(self)@.ld_reg_indirect(old(bus)@),
    {
        match source_and_target_from(self.op_lo) {
            Some((source, target)) => {
                bus.read_mem(self.regs.get(source));
                self.state = State::WaitLoad(target);
            },
            None => self.trap(TRAP_ILLEGAL, bus),
        }
    }

    /// Executes a load register register instruction.
    pub fn ld_reg_reg(&mut self, bus: &mut Bus)
        ensures
            (final(self)@, final(bus)@) == old(self)@.ld_reg_reg(old(bus)@),
    {
        match source_and_target_from(self.op_lo) {
            Some((source, target)) if source.is16() == target.is16() => {
                let val = self.regs.get(source);
                self.regs.set(target, val);
            },
            _ => self.trap(TRAP_ILLEGAL, bus),
        }
    }

    /// Executes a logical shift right instruction.
    pub fn lsr(&mut self, reg: Reg, bits: u8)
        ensures
            final(self)@ == old(self)@.lsr(reg, bits),
    {
        let n: u8 = if bits < 1 {
            1
        } else if bits > 8 {
            8
        } else {
            bits
        };
        let v = (self.regs.get(reg) % 256) as u8;
        let shifted = v >> (n - 1);
        let last_bit = shifted & 1;
        let value = shifted >> 1;
        assert(value == v >> n) by (bit_vector)
            requires
                1 <= n <= 8,
                shifted == v >> ((n - 1) as u8),
                value == shifted >> 1u8,
        ;
        self.regs.set(reg, value as u16);
        self.flags.carry = last_bit == 1;
        self.flags.zero = value == 0;
    }

    /// Returns the 16-bit value of the two operand registers.
    pub fn op(&self) -> (r: u16)
        ensures
            r == self@.op(),
    {
        (self.op_hi as u16) * 256 + (self.op_lo as u16)
    }

    /// Executes a `pop` instruction with `reg`.
    pub fn pop(&mut self, reg: Reg, bus: &mut Bus)
        ensures
            (final(self)@, final(bus)@) == old(self)@.pop(reg, old(bus)@),
    {
        self.stack_pop(bus);
        if reg.is16() {
            self.state = State::WaitStackHi(reg);
        } else {
            self.op_hi = 0;
            self.state = State::WaitLoad(reg);
        }
    }

    /// Executes a `push` instruction with `reg`.
    pub fn push(&mut self, reg: Reg, bus: &mut Bus)
        ensures
            (final(self)@, final(bus)@) == old(self)@.push(reg, old(bus)@),
    {
        if reg.is16() {
            let val = self.regs.get(reg);
            self.stack_push((val % 256) as u8, bus);
            self.state = State::WaitPush((val / 256) as u8);
        } else {
            let val = (self.regs.get(reg) % 256) as u8;
            self.stack_push(val, bus);
        }
    }

    /// Resets the CPU to its power-on state.
    ///
    /// The initial state is: all registers and flags zero, not halted, state
    /// [`State::WaitResetLo`]. The reset signal puts a read of the low byte of the reset
    /// vector, at [`VEC_RESET`], on the bus at once (cancelling any request pending in the
    /// interrupted cycle), so that memory answers on the next tick; the CPU reads that
    /// byte on the tick after, and the high byte two ticks later.
    pub fn reset(&mut self, bus: &mut Bus)
        ensures
            final(self)@ == CpuView::initial().with_state(State::WaitResetLo),
            final(bus)@ == old(bus)@.driven_read(VEC_RESET),
    {
        *self = Self::default();
        bus.drive_read(VEC_RESET);
        self.state = State::WaitResetLo;
    }

    /// Returns from a subroutine to a return address on the stack.
    pub fn ret(&mut self, bus: &mut Bus)
        ensures
            (final(self)@, final(bus)@) == old(self)@.ret(old(bus)@),
    {
        self.stack_pop(bus);
        self.state = State::WaitRetHi;
    }

    /// Returns from a trap to a return address on the stack.
    pub fn rti(&mut self, bus: &mut Bus)
        ensures
            (final(self)@, final(bus)@) == old(self)@.rti(old(bus)@),
    {
        let mut addr = self.regs.get(Reg::SP);
        addr = addr.wrapping_add(2);  // skip trap code
        bus.read_mem(addr);
        self.regs.set(Reg::SP, addr);
        self.state = State::WaitRetHi;
    }

    /// Reads the current top-of-stack value, adjusting SP.
    pub fn stack_pop(&mut self, bus: &mut Bus)
        ensures
            (final(self)@, final(bus)@) == old(self)@.stack_pop(old(bus)@),
    {
        let mut addr = self.regs.get(Reg::SP);
        addr = addr.wrapping_add(1);
        bus.read_mem(addr);
        self.regs.set(Reg::SP, addr);
    }

    /// Writes `val` to the stack, adjusting SP.
    pub fn stack_push(&mut self, val: u8, bus: &mut Bus)
        ensures
            (final(self)@, final(bus)@) == old(self)@.stack_push(val, old(bus)@),
    {
        let mut addr = self.regs.get(Reg::SP);
        bus.write_mem(addr, val);
        addr = addr.wrapping_sub(1);
        self.regs.set(Reg::SP, addr);
    }

    /// Executes a store register direct instruction.
    pub fn store_reg_direct(&mut self, reg: Reg, bus: &mut Bus)
        ensures
            final(self)@ == old(self)@,
            final(bus)@ == old(bus)@.request(write_request(old(self)@.op(), old(self)@.reg8(reg))),
    {
        let val = (self.regs.get(reg) % 256) as u8;
        bus.write_mem(self.op(), val);
    }

    /// Executes a store register indirect instruction.
    pub fn store_reg_indirect(&mut self, bus: &mut Bus)
        ensures
            (final(self)@, final(bus)@) == old(self)@.store_reg_indirect(old(bus)@),
    {
        match source_and_target_from(self.op_lo) {
            Some((source, target)) if !source.is16() && target.is16() => {
                let val = (self.regs.get(source) % 256) as u8;
                bus.write_mem(self.regs.get(target), val);
            },
            _ => self.trap(TRAP_ILLEGAL, bus),
        }
    }

    /// Subtract with carry.
    pub fn sub(&mut self, reg: Reg, subtrahend: u8)
        ensures
            final(self)@ == old(self)@.sub(reg, subtrahend),
    {
        let minuend = self.regs.get(reg) % 256;
        let borrow_in: u16 = if self.flags.carry {
            0
        } else {
            1
        };
        let diff = minuend + 256 - subtrahend as u16 - borrow_in;
        let result = (diff % 256) as u8;
        self.flags.carry = diff >= 256;
        self.regs.set(reg, result as u16);
        self.flags.zero = result == 0;
    }

    /// Executes a trap.
    ///
    /// The `trap_code` is used to select a vector from the trap table, and the CPU jumps
    /// to that address after pushing the return address and the trap code to the stack.
    /// The 'putchar' trap also prints the character in register A (to [`Cpu::output`]).
    pub fn trap(&mut self, trap_code: u8, bus: &mut Bus)
        ensures
            (final(self)@, final(bus)@) == old(self)@.trap(trap_code, old(bus)@),
    {
        if trap_code == TRAP_PUTCHAR {
            let ch = (self.regs.get(Reg::A) % 256) as u8;
            self.output.push(ch);
        }
        let code = if trap_code >= 0x40 {
            TRAP_ILLEGAL
        } else {
            trap_code
        };
        let ret_addr = self.pc;
        self.stack_push((ret_addr % 256) as u8, bus);
        self.state = State::WaitTrapLo((ret_addr / 256) as u8, code);
    }

    /// Returns the characters printed since the last call, leaving none.
    pub fn take_output(&mut self) -> (r: Vec<u8>)
        ensures
            r@ == old(self)@.output,
            final(self)@ == (CpuView { output: Seq::empty(), ..old(self)@ }),
    {
        let mut out = Vec::new();
        std::mem::swap(&mut out, &mut self.output);
        out
    }
}

impl InstructionKind {
    /// Executes the instruction.
    #[verifier::spinoff_prover]
    #[verifier::rlimit(100)]
    pub fn execute(&self, cpu: &mut Cpu, bus: &mut Bus)
        ensures
            (final(cpu)@, final(bus)@) == old(cpu)@.execute(*self, old(bus)@),
    {
        match *self {
            InstructionKind::Add(reg) => cpu.add(reg, cpu.op_lo),
            InstructionKind::And(reg) => cpu.and(reg, cpu.op_lo),
            InstructionKind::BranchAlways => cpu.branch(cpu.op_lo),
            InstructionKind::BranchCc => if !cpu.flags.carry {
                cpu.branch(cpu.op_lo)
            },
            InstructionKind::BranchCs => if cpu.flags.carry {
                cpu.branch(cpu.op_lo)
            },
            InstructionKind::BranchEq => if cpu.flags.zero {
                cpu.branch(cpu.op_lo)
            },
            InstructionKind::BranchNe => if !cpu.flags.zero {
                cpu.branch(cpu.op_lo)
            },
            InstructionKind::Call => {
                let addr = cpu.op();
                cpu.call(addr, bus)
            },
            InstructionKind::Clc => cpu.flags.carry = false,
            InstructionKind::Cmp(reg) => if reg.is16() {
                let rhs = cpu.op();
                cpu.cmp16(reg, rhs)
            } else {
                cpu.cmp(reg, cpu.op_lo)
            },
            InstructionKind::Dec(reg) => if reg.is16() {
                cpu.dec16(reg)
            } else {
                cpu.dec(reg)
            },
            InstructionKind::DecIndirect => cpu.dec_indirect(bus),
            InstructionKind::DecMem => {
                let addr = cpu.op();
                cpu.dec_mem(addr, bus)
            },
            InstructionKind::Halt => cpu.halt(),
            InstructionKind::Inc(reg) => if reg.is16() {
                cpu.inc16(reg)
            } else {
                cpu.inc(reg)
            },
            InstructionKind::IncIndirect => cpu.inc_indirect(bus),
            InstructionKind::IncMem => {
                let addr = cpu.op();
                cpu.inc_mem(addr, bus)
            },
            InstructionKind::Jmp => {
                let addr = cpu.op();
                cpu.jmp(addr)
            },
            InstructionKind::LdRegImm(reg) => {
                let val = cpu.op();
                cpu.regs.set(reg, val);
            },
            InstructionKind::LdRegIndirect => cpu.ld_reg_indirect(bus),
            InstructionKind::LdRegReg => cpu.ld_reg_reg(bus),
            InstructionKind::Lsr(reg) => cpu.lsr(reg, cpu.op_lo),
            InstructionKind::Nop => {},
            InstructionKind::Pop(reg) => cpu.pop(reg, bus),
            InstructionKind::Push(reg) => cpu.push(reg, bus),
            InstructionKind::Ret => cpu.ret(bus),
            InstructionKind::Rti => cpu.rti(bus),
            InstructionKind::Sec => cpu.flags.carry = true,
            InstructionKind::StoreRegDirect(reg) => cpu.store_reg_direct(reg, bus),
            InstructionKind::StoreRegIndirect => cpu.store_reg_indirect(bus),
            InstructionKind::Sub(reg) => cpu.sub(reg, cpu.op_lo),
            InstructionKind::Trap => cpu.trap(cpu.op_lo, bus),
        }
    }
}

/// Incrementing and then decrementing an 8-bit register gives its value back.
pub proof fn lemma_inc_dec_inverse(c: CpuView, r: Reg)
    requires
        !reg_is16(r),
    ensures
        c.inc(r).dec(r).reg8(r) == c.reg8(r),
        c.dec(r).inc(r).reg8(r) == c.reg8(r),
{
    lemma_regs_set_get(c.regs, r, wrap8(c.reg8(r) + 1) as u16);
    lemma_regs_set_get(c.inc(r).regs, r, wrap8(c.inc(r).reg8(r) - 1 + 256) as u16);
    lemma_regs_set_get(c.regs, r, wrap8(c.reg8(r) - 1 + 256) as u16);
    lemma_regs_set_get(c.dec(r).regs, r, wrap8(c.dec(r).reg8(r) + 1) as u16);
}

/// Incrementing and then decrementing a 16-bit register gives its value back.
#[verifier::spinoff_prover]
#[verifier::rlimit(40)]
pub proof fn lemma_inc16_dec16_inverse(c: CpuView, r: Reg)
    requires
        reg_is16(r),
    ensures
        c.inc16(r).dec16(r).reg(r) == c.reg(r),
        c.dec16(r).inc16(r).reg(r) == c.reg(r),
{
    lemma_regs_set_get(c.regs, r, wrap16(c.reg(r) + 1));
    lemma_regs_set_get(c.inc16(r).regs, r, wrap16(c.inc16(r).reg(r) - 1 + 65536));
    lemma_regs_set_get(c.regs, r, wrap16(c.reg(r) - 1 + 65536));
    lemma_regs_set_get(c.dec16(r).regs, r, wrap16(c.dec16(r).reg(r) + 1));
}

/// Increment and decrement instructions do not affect the carry flag, and set the zero
/// flag exactly when the result is zero.
pub proof fn lemma_inc_dec_keep_carry(c: CpuView, r: Reg)
    ensures
        c.inc(r).flags.carry == c.flags.carry,
        c.dec(r).flags.carry == c.flags.carry,
        c.inc16(r).flags.carry == c.flags.carry,
        c.dec16(r).flags.carry == c.flags.carry,
        !reg_is16(r) ==> (c.inc(r).flags.zero <==> c.inc(r).reg8(r) == 0),
        !reg_is16(r) ==> (c.dec(r).flags.zero <==> c.dec(r).reg8(r) == 0),
        reg_is16(r) ==> (c.inc16(r).flags.zero <==> c.inc16(r).reg(r) == 0),
        reg_is16(r) ==> (c.dec16(r).flags.zero <==> c.dec16(r).reg(r) == 0),
{
    lemma_regs_set_get(c.regs, r, wrap8(c.reg8(r) + 1) as u16);
    lemma_regs_set_get(c.regs, r, wrap8(c.reg8(r) - 1 + 256) as u16);
    lemma_regs_set_get(c.regs, r, wrap16(c.reg(r) + 1));
    lemma_regs_set_get(c.regs, r, wrap16(c.reg(r) - 1 + 65536));
}

/// A comparison sets the flags as a subtraction without borrow would (carry: no borrow
/// occurred, that is X >= Y; zero: X == Y), but leaves the register unchanged.
pub proof fn lemma_cmp_is_sub_without_result(c: CpuView, r: Reg, y: u8)
    requires
        !reg_is16(r),
    ensures
        c.cmp(r, y).flags == c.with_carry(true).sub(r, y).flags,
        c.cmp(r, y).regs == c.regs,
        c.cmp(r, y).flags.carry <==> c.reg8(r) >= y,
{
}

/// The stack grows downwards one byte per push: a push writes at SP and moves SP down;
/// the next pop moves SP back up and reads from that same address.
pub proof fn lemma_push_then_pop(c: CpuView, v: u8, bus: BusView, later: BusView)
    ensures
        ({
            let (c1, b1) = c.stack_push(v, bus);
            let (c2, b2) = c1.stack_pop(later);
            &&& b1 == bus.request(write_request(c.regs.sp, v))
            &&& c1.regs.sp == wrap16(c.regs.sp - 1)
            &&& c2.regs.sp == c.regs.sp
            &&& b2 == later.request(read_request(c.regs.sp))
        }),
{
    lemma_regs_set_get(c.regs, Reg::SP, wrap16(c.regs.sp - 1));
    let c1 = c.stack_push(v, bus).0;
    lemma_regs_set_get(c1.regs, Reg::SP, wrap16(c1.regs.sp + 1));
}

/// A trap builds its stack frame over three cycles: the low byte of the return address
/// is pushed first, then the high byte, then the trap code (a code above 0x3F becoming
/// the 'illegal instruction' trap). Afterwards SP is three bytes lower, so the frame
/// reads trap code, high byte, low byte at SP+1, SP+2, SP+3; the vector is fetched next.
pub proof fn lemma_trap_frame(c: CpuView, code: u8, b0: BusView, b1: BusView, b2: BusView)
    ensures
        ({
            let sp = c.regs.sp;
            let k = if code >= 0x40 {
                TRAP_ILLEGAL
            } else {
                code
            };
            let (c1, r1) = c.trap(code, b0);
            let (c2, r2) = c1.step(b1);
            let (c3, r3) = c2.step(b2);
            &&& r1 == b0.request(write_request(sp, (c.pc % 256) as u8))
            &&& r2 == b1.request(write_request(wrap16(sp - 1), (c.pc / 256) as u8))
            &&& r3 == b2.request(write_request(wrap16(sp - 2), k))
            &&& c3.regs.sp == wrap16(sp - 3)
            &&& c3.state == State::WaitTrapCode(k)
            &&& c3.pc == c.pc
        }),
{
    let sp = c.regs.sp;
    let k = if code >= 0x40 {
        TRAP_ILLEGAL
    } else {
        code
    };
    let (c1, r1) = c.trap(code, b0);
    lemma_regs_set_get(c.regs, Reg::SP, wrap16(sp - 1));
    assert(c1.regs.sp == wrap16(sp - 1));
    assert(c1.state == State::WaitTrapLo((c.pc / 256) as u8, k));
    lemma_step_wait_trap_lo(c1, (c.pc / 256) as u8, k, b1);
    let (c2, r2) = c1.step(b1);
    lemma_regs_set_get(c1.regs, Reg::SP, wrap16(c1.regs.sp - 1));
    assert(c2.regs.sp == wrap16(sp - 2));
    lemma_step_wait_trap_hi(c2, k, b2);
    let (c3, r3) = c2.step(b2);
    lemma_regs_set_get(c2.regs, Reg::SP, wrap16(c2.regs.sp - 1));
    assert(c3.regs.sp == wrap16(sp - 3));
}

/// The cycle after a trap starts: the high byte of the return address is pushed.
proof fn lemma_step_wait_trap_lo(c: CpuView, hi: u8, k: u8, bus: BusView)
    requires
        c.state == State::WaitTrapLo(hi, k),
    ensures
        c.step(bus) == ({
            let (c2, b2) = c.stack_push(hi, bus);
            (c2.with_state(State::WaitTrapHi(k)), b2)
        }),
{
    reveal(CpuView::step);
}

/// The next cycle of a trap: the trap code is pushed.
proof fn lemma_step_wait_trap_hi(c: CpuView, k: u8, bus: BusView)
    requires
        c.state == State::WaitTrapHi(k),
    ensures
        c.step(bus) == ({
            let (c2, b2) = c.stack_push(k, bus);
            (c2.with_state(State::WaitTrapCode(k)), b2)
        }),
{
    reveal(CpuView::step);
}

/// A 16-bit register is pushed low byte first: the low byte goes to SP, and on the next
/// cycle the high byte goes to the address below; SP ends two bytes lower.
pub proof fn lemma_push16_low_byte_first(c: CpuView, r: Reg, b0: BusView, b1: BusView)
    requires
        reg_is16(r),
    ensures
        ({
            let sp = c.regs.sp;
            let (c1, r1) = c.push(r, b0);
            let (c2, r2) = c1.step(b1);
            &&& r1 == b0.request(write_request(sp, (c.reg(r) % 256) as u8))
            &&& r2 == b1.request(write_request(wrap16(sp - 1), (c.reg(r) / 256) as u8))
            &&& c2.regs.sp == wrap16(sp - 2)
            &&& c2.state == State::FetchOpcode
        }),
{
    reveal(CpuView::step);
    let sp = c.regs.sp;
    let (c1, r1) = c.push(r, b0);
    lemma_regs_set_get(c.regs, Reg::SP, wrap16(sp - 1));
    let (c2, r2) = c1.step(b1);
    lemma_regs_set_get(c1.regs, Reg::SP, wrap16(c1.regs.sp - 1));
}

/// The cycle after a `call` starts: the high byte of the return address is pushed and
/// the jump made.
proof fn lemma_step_wait_call(c: CpuView, hi: u8, subr: u16, bus: BusView)
    requires
        c.state == State::WaitCall(hi, subr),
    ensures
        c.step(bus) == ({
            let (c2, b2) = c.stack_push(hi, bus);
            (CpuView { pc: subr, ..c2 }.with_state(State::FetchOpcode), b2)
        }),
{
    reveal(CpuView::step);
}

/// The cycles of a return: waiting for the high byte, reading it and popping the low
/// byte, waiting for it, and reading it into PC.
proof fn lemma_step_return(c: CpuView, bus: BusView)
    ensures
        c.state == State::WaitRetHi ==> c.step(bus) == (c.with_state(State::ReadRetHi), bus),
        c.state == State::ReadRetHi ==> c.step(bus) == ({
            let (c2, b2) = CpuView { op_hi: bus.data, ..c }.stack_pop(bus);
            (c2.with_state(State::WaitRetLo), b2)
        }),
        c.state == State::WaitRetLo ==> c.step(bus) == (c.with_state(State::ReadRetLo), bus),
        c.state == State::ReadRetLo ==> c.step(bus) == ({
            let c2 = CpuView { op_lo: bus.data, ..c };
            (CpuView { pc: c2.op(), ..c2 }.with_state(State::FetchOpcode), bus)
        }),
{
    reveal(CpuView::step);
}

/// The four cycles after a return starts bring the popped address into PC: the high
/// byte read from `b2` (at SP+1), the low byte from `b4` (at SP+2).
proof fn lemma_return_cycles(d: CpuView, b1: BusView, b2: BusView, b3: BusView, b4: BusView)
    requires
        d.state == State::WaitRetHi,
    ensures
        ({
            let (d1, q1) = d.step(b1);
            let (d2, q2) = d1.step(b2);
            let (d3, q3) = d2.step(b3);
            let (d4, q4) = d3.step(b4);
            &&& q2 == b2.request(read_request(wrap16(d.regs.sp + 1)))
            &&& d4.pc == pair(b2.data, b4.data)
            &&& d4.regs.sp == wrap16(d.regs.sp + 1)
            &&& d4.state == State::FetchOpcode
        }),
{
    let (d1, q1) = d.step(b1);
    lemma_step_return(d, b1);
    let (d2, q2) = d1.step(b2);
    lemma_step_return(d1, b2);
    lemma_regs_set_get(d1.regs, Reg::SP, wrap16(d1.regs.sp + 1));
    let (d3, q3) = d2.step(b3);
    lemma_step_return(d2, b3);
    let (d4, q4) = d3.step(b4);
    lemma_step_return(d3, b4);
}

/// `ret` undoes `call`: a call pushes the return address (low byte at SP, high byte
/// below it) and jumps; a later `ret`, with the stack as the call left it, reads the
/// high byte and then the low byte back from those addresses, and with those bytes on
/// the data bus returns to the instruction after the call with SP restored.
#[verifier::spinoff_prover]
pub proof fn lemma_ret_undoes_call(
    c: CpuView,
    subr: u16,
    b0: BusView,
    b1: BusView,
    d: CpuView,
    b2: BusView,
    b3: BusView,
    b4: BusView,
    b5: BusView,
    b6: BusView,
)
    requires
        d.regs.sp == wrap16(c.regs.sp - 2),
        b4.data == (c.pc / 256) as u8,
        b6.data == (c.pc % 256) as u8,
    ensures
        ({
            let sp = c.regs.sp;
            let (c1, r1) = c.call(subr, b0);
            let (c2, r2) = c1.step(b1);
            let (d1, q1) = d.ret(b2);
            let (d2, q2) = d1.step(b3);
            let (d3, q3) = d2.step(b4);
            let (d4, q4) = d3.step(b5);
            let (d5, q5) = d4.step(b6);
            &&& r1 == b0.request(write_request(sp, (c.pc % 256) as u8))
            &&& r2 == b1.request(write_request(wrap16(sp - 1), (c.pc / 256) as u8))
            &&& c2.pc == subr
            &&& c2.regs.sp == wrap16(sp - 2)
            &&& q1 == b2.request(read_request(wrap16(sp - 1)))
            &&& q3 == b4.request(read_request(sp))
            &&& d5.pc == c.pc
            &&& d5.regs.sp == sp
            &&& d5.state == State::FetchOpcode
        }),
{
    let sp = c.regs.sp;
    let (c1, r1) = c.call(subr, b0);
    lemma_regs_set_get(c.regs, Reg::SP, wrap16(sp - 1));
    lemma_step_wait_call(c1, (c.pc / 256) as u8, subr, b1);
    lemma_regs_set_get(c1.regs, Reg::SP, wrap16(c1.regs.sp - 1));
    let (d1, q1) = d.ret(b2);
    lemma_regs_set_get(d.regs, Reg::SP, wrap16(d.regs.sp + 1));
    lemma_return_cycles(d1, b3, b4, b5, b6);
    assert(pair((c.pc / 256) as u8, (c.pc % 256) as u8) == c.pc);
}

/// `rti` undoes a trap: with the stack as the trap left it, `rti` skips the trap code,
/// reads the return address back from the frame (high byte at SP+2, low byte at SP+3),
/// and with those bytes on the data bus returns to the instruction after the trap with
/// the frame removed from the stack.
#[verifier::spinoff_prover]
pub proof fn lemma_rti_undoes_trap(
    c: CpuView,
    d: CpuView,
    b2: BusView,
    b3: BusView,
    b4: BusView,
    b5: BusView,
    b6: BusView,
)
    requires
        d.regs.sp == wrap16(c.regs.sp - 3),
        b4.data == (c.pc / 256) as u8,
        b6.data == (c.pc % 256) as u8,
    ensures
        ({
            let sp = c.regs.sp;
            let (d1, q1) = d.rti(b2);
            let (d2, q2) = d1.step(b3);
            let (d3, q3) = d2.step(b4);
            let (d4, q4) = d3.step(b5);
            let (d5, q5) = d4.step(b6);
            &&& q1 == b2.request(read_request(wrap16(sp - 1)))
            &&& q3 == b4.request(read_request(sp))
            &&& d5.pc == c.pc
            &&& d5.regs.sp == sp
            &&& d5.state == State::FetchOpcode
        }),
{
    let sp = c.regs.sp;
    let (d1, q1) = d.rti(b2);
    lemma_regs_set_get(d.regs, Reg::SP, wrap16(d.regs.sp + 2));
    lemma_return_cycles(d1, b3, b4, b5, b6);
    assert(pair((c.pc / 256) as u8, (c.pc % 256) as u8) == c.pc);
}


/// The carry as a number: 1 if set, 0 if clear.
pub open spec fn carry_bit(c: CpuView) -> int {
    if c.flags.carry {
        1
    } else {
        0
    }
}

/// Addition with carry into an 8-bit register is a full adder: the new value of the
/// register and 256 times the new carry add up to the old value, the operand and the old
/// carry; and the zero flag is set exactly when the new value is zero.
pub proof fn lemma_add_is_full_adder(c: CpuView, r: Reg, x: u8)
    requires
        !reg_is16(r),
    ensures
        c.add(r, x).reg8(r) + 256 * carry_bit(c.add(r, x)) == c.reg8(r) + x + carry_bit(c),
        c.add(r, x).flags.zero <==> c.add(r, x).reg8(r) == 0,
{
    let sum = c.reg8(r) + x + carry_bit(c);
    lemma_regs_set_get(c.regs, r, wrap8(sum) as u16);
}

/// Subtraction with borrow (a clear carry) from an 8-bit register: the new value of the
/// register is the old value less the operand and the borrow, plus 256 when that went
/// below zero, which is exactly when the new carry is clear; and the zero flag is set
/// exactly when the new value is zero.
pub proof fn lemma_sub_borrows(c: CpuView, r: Reg, x: u8)
    requires
        !reg_is16(r),
    ensures
        c.sub(r, x).reg8(r) == c.reg8(r) - x - (1 - carry_bit(c)) + 256 * (1 - carry_bit(
            c.sub(r, x),
        )),
        c.sub(r, x).flags.zero <==> c.sub(r, x).reg8(r) == 0,
{
    let diff = c.reg8(r) - x - (1 - carry_bit(c));
    lemma_regs_set_get(c.regs, r, wrap8(diff + 256) as u16);
}

/// A bitwise AND on an 8-bit register leaves the carry alone and sets the zero flag
/// exactly when the new value is zero; the new value has no bit that either the old
/// value or the mask lacks.
pub proof fn lemma_and_masks(c: CpuView, r: Reg, x: u8)
    requires
        !reg_is16(r),
    ensures
        c.and(r, x).reg8(r) == c.reg8(r) & x,
        c.and(r, x).reg8(r) <= c.reg8(r),
        c.and(r, x).reg8(r) <= x,
        c.and(r, x).flags.carry == c.flags.carry,
        c.and(r, x).flags.zero <==> c.and(r, x).reg8(r) == 0,
{
    let v = c.reg8(r);
    lemma_regs_set_get(c.regs, r, (v & x) as u16);
    assert(v & x <= v && v & x <= x) by (bit_vector);
    assert((v & x) as u16 % 256 == (v & x)) by (bit_vector);
}

/// A logical shift right of an 8-bit register by `n` (1 to 8) divides it by 2 to the
/// `n`; the carry takes the last bit shifted out, bit `n - 1` of the old value; and the
/// zero flag is set exactly when the new value is zero.
pub proof fn lemma_lsr_shifts_out(c: CpuView, r: Reg, n: u8)
    requires
        !reg_is16(r),
        1 <= n <= 8,
    ensures
        c.lsr(r, n).reg8(r) == c.reg8(r) as nat / vstd::arithmetic::power2::pow2(n as nat),
        c.lsr(r, n).flags.carry <==> (c.reg8(r) as nat / vstd::arithmetic::power2::pow2(
            (n - 1) as nat,
        )) % 2 == 1,
        c.lsr(r, n).flags.zero <==> c.lsr(r, n).reg8(r) == 0,
{
    let v = c.reg8(r);
    let m = (n - 1) as u8;
    vstd::bits::lemma_u8_shr_is_div(v, m);
    let y = v >> m;
    assert((y & 1 == 1) == (y % 2 == 1)) by (bit_vector);
    if n < 8 {
        vstd::bits::lemma_u8_shr_is_div(v, n);
    } else {
        assert(v >> 8u8 == 0) by (bit_vector);
        vstd::arithmetic::power2::lemma2_to64();
        assert(v as nat / vstd::arithmetic::power2::pow2(8) == 0);
    }
    lemma_regs_set_get(c.regs, r, (v >> n) as u16);
    assert((v >> n) as u16 % 256 == (v >> n)) by (bit_vector);
}


/// True if branch instruction `ins` is taken with flags `f`: `bra` always, `beq`/`bne`
/// when the zero flag is set/clear, `bcs`/`bcc` when the carry flag is set/clear.
pub open spec fn branch_taken(ins: InstructionKind, f: Flags) -> bool {
    match ins {
        InstructionKind::BranchAlways => true,
        InstructionKind::BranchEq => f.zero,
        InstructionKind::BranchNe => !f.zero,
        InstructionKind::BranchCs => f.carry,
        InstructionKind::BranchCc => !f.carry,
        _ => false,
    }
}

/// Control flow on execution: a taken branch moves PC by its displacement read as a
/// signed byte (-128 to 127) and keeps the registers and flags, an untaken one leaves
/// the CPU alone, and `jmp` sets PC to its operand; none of these touches the bus.
#[verifier::spinoff_prover]
#[verifier::rlimit(40)]
pub proof fn lemma_execute_jumps(c: CpuView, ins: InstructionKind, bus: BusView)
    ensures
        (ins is BranchAlways || ins is BranchEq || ins is BranchNe || ins is BranchCs
            || ins is BranchCc) ==> {
            let (d, b) = c.execute(ins, bus);
            &&& b == bus
            &&& branch_taken(ins, c.flags) ==> d.pc == (c.pc as int + (if c.op_lo < 128 {
                c.op_lo as int
            } else {
                c.op_lo as int - 256
            }) + 65536) % 65536
            &&& branch_taken(ins, c.flags) ==> d.regs == c.regs && d.flags == c.flags
            &&& !branch_taken(ins, c.flags) ==> d == c
        },
        ins is Jmp ==> c.execute(ins, bus).0.pc == c.op_hi * 256 + c.op_lo && c.execute(
            ins,
            bus,
        ).1 == bus,
{
    assert(pair(c.op_hi, c.op_lo) == c.op_hi * 256 + c.op_lo);
}

/// `clc` and `sec` clear and set the carry, keeping the zero flag and the registers.
#[verifier::spinoff_prover]
pub proof fn lemma_execute_carry_flag(c: CpuView, bus: BusView)
    ensures
        !c.execute(InstructionKind::Clc, bus).0.flags.carry,
        c.execute(InstructionKind::Clc, bus).0.flags.zero == c.flags.zero,
        c.execute(InstructionKind::Clc, bus).0.regs == c.regs,
        c.execute(InstructionKind::Sec, bus).0.flags.carry,
        c.execute(InstructionKind::Sec, bus).0.flags.zero == c.flags.zero,
        c.execute(InstructionKind::Sec, bus).0.regs == c.regs,
{
    assert(c.execute(InstructionKind::Clc, bus) == (c.with_carry(false), bus));
    assert(c.execute(InstructionKind::Sec, bus) == (c.with_carry(true), bus));
}

/// `ld R, NN` puts its operand in the register (a word for a 16-bit register, the low
/// operand byte for an 8-bit one) and keeps the flags.
#[verifier::spinoff_prover]
pub proof fn lemma_execute_load_immediate(c: CpuView, r: Reg, bus: BusView)
    ensures
        reg_is16(r) ==> c.execute(InstructionKind::LdRegImm(r), bus).0.reg(r) == c.op_hi * 256
            + c.op_lo,
        !reg_is16(r) ==> c.execute(InstructionKind::LdRegImm(r), bus).0.reg(r) == c.op_lo,
        c.execute(InstructionKind::LdRegImm(r), bus).0.flags == c.flags,
{
    assert(c.execute(InstructionKind::LdRegImm(r), bus) == (c.with_reg(r, c.op()), bus));
    assert(pair(c.op_hi, c.op_lo) == c.op_hi * 256 + c.op_lo);
    lemma_regs_set_get(c.regs, r, c.op());
}

/// `ld T, S` between registers of one width copies S into T and keeps the flags.
#[verifier::spinoff_prover]
pub proof fn lemma_execute_load_register(c: CpuView, src: Reg, t: Reg, bus: BusView)
    requires
        spec_source_and_target(c.op_lo) == Some((src, t)),
        reg_is16(src) == reg_is16(t),
    ensures
        c.execute(InstructionKind::LdRegReg, bus).0.reg(t) == c.reg(src),
        c.execute(InstructionKind::LdRegReg, bus).0.flags == c.flags,
{
    assert(c.execute(InstructionKind::LdRegReg, bus) == c.ld_reg_reg(bus));
    assert(c.ld_reg_reg(bus) == (c.with_reg(t, c.reg(src)), bus));
    lemma_regs_set_get(c.regs, t, c.reg(src));
}


/// Increment and decrement move a register by one, wrapping round at its width.
pub proof fn lemma_inc_dec_step_by_one(c: CpuView, r: Reg)
    ensures
        !reg_is16(r) ==> c.inc(r).reg8(r) == (c.reg8(r) + 1) % 256,
        !reg_is16(r) ==> c.dec(r).reg8(r) == (c.reg8(r) + 255) % 256,
        reg_is16(r) ==> c.inc16(r).reg(r) == (c.reg(r) + 1) % 65536,
        reg_is16(r) ==> c.dec16(r).reg(r) == (c.reg(r) + 65535) % 65536,
{
    lemma_regs_set_get(c.regs, r, wrap8(c.reg8(r) + 1) as u16);
    lemma_regs_set_get(c.regs, r, wrap8(c.reg8(r) - 1 + 256) as u16);
    lemma_regs_set_get(c.regs, r, wrap16(c.reg(r) + 1));
    lemma_regs_set_get(c.regs, r, wrap16(c.reg(r) - 1 + 65536));
}

/// Comparing a 16-bit register with a word sets the zero flag exactly when they are
/// equal and the carry exactly when the register is not below the word, and changes
/// nothing else.
pub proof fn lemma_compare16_flags(c: CpuView, r: Reg, y: u16)
    ensures
        c.cmp16(r, y).flags.zero <==> c.reg(r) == y,
        c.cmp16(r, y).flags.carry <==> c.reg(r) >= y,
        c.cmp16(r, y).regs == c.regs,
        c.cmp16(r, y).pc == c.pc,
{
}

} // verus!
