//! A simulator core for the RISC-V base integer instruction set (RV32I).
//!
//! The library fetches instruction words from a bounded byte-addressable bus,
//! decodes their bit fields and executes their semantics on a register file and
//! a program counter. Every executable function carries a contract that Verus
//! proves against a mathematical model of the hart.
pub mod fault;
pub mod memory;
pub mod opcode;
pub mod registers;
pub mod cpu;
pub mod elf;
