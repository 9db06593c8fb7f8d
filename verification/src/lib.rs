//! A software model of a RISC-style 32-bit CPU.
//!
//! The crate loads an executable image, executes it instruction by
//! instruction against a register/memory state, and records a complete,
//! deterministic execution trace.  A separate set of modules describes the
//! column layouts and cross-table lookups that a downstream constraint
//! system reads off that trace.

pub mod code;
pub mod columns;
pub mod decode;
pub mod elf;
pub mod image;
pub mod instruction;
pub mod memory;
pub mod memory_fullword;
pub mod memory_io;
pub mod rangecheck;
pub mod rangecheck_u8;
pub mod register;
pub mod registerinit;
pub mod state;
pub mod tables;
pub mod utils;
pub mod vm;
