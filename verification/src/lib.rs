//! An emulator for the RX82 fantasy retro computer system, including the R8 8-bit CPU,
//! with an assembler and disassembler for R8 assembly language.
pub mod assembler;
pub mod bus;
pub mod clock;
pub mod cpu;
pub mod device;
pub mod doc;
pub mod instructions;
pub mod memory;
pub mod monitor;
pub mod phase;
pub mod regs;
pub mod rom;
pub mod system;
pub mod text;
