//! An 8086 instruction decoder and register-level simulator.
//!
//! Raw machine-code bytes are decoded one instruction at a time into
//! structured instructions, rendered as NASM-like assembly text, and
//! optionally applied to a register file.
pub mod cli;
pub mod cpu_state;
pub mod cursor;
pub mod decoder;
pub mod emitter;
pub mod operand;
pub mod simulator;
pub mod text;

pub use cli::Args;
pub use cpu_state::{CpuState, Reg, Register, UnknownRegister};
pub use cursor::ByteCursor;
pub use decoder::{decode_all, decode_next, DecodeError, Instruction, Mnemonic, Step};
pub use emitter::{disassemble, render_listing};
pub use operand::{AddressBase, Immediate, MemoryOperand, Operand, Width};
pub use simulator::{apply_effect, Effect};
