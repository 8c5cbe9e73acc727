//! The R8 assembler and disassembler.
pub mod assemble;
pub mod disassemble;
pub mod passes;
pub mod roundtrip;
pub mod spacing;
pub mod spec;
pub mod token;
pub mod tokenizer;

pub use self::assemble::{assemble, assemble_with_debug, Assembler};
pub use self::disassemble::{as_hex, disassemble, Disassembler};
pub use self::spec::{AsmError, AssemblyError, Expected, BASE};
pub use self::token::Token;
pub use self::tokenizer::{tokenize, tokenize_with_debug, Tokenizer};
