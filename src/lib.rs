//! A small register machine: an assembler from a line-based instruction
//! language to fixed-width 4-byte words, and a core that fetches, decodes
//! and executes those words against sixteen-bit registers, 64 KiB of memory
//! and devices that the host plugs in.
//!
//! - `registers`: register names, their byte ids, and the register file.
//! - `instructions`: the instruction set, its text syntax and its encoding.
//! - `programs`: the two-pass assembler with labels.
//! - `devices`: the interface of a peripheral.
//! - `cpu`: the execution core.
//! - `text`: character-level scanning shared by the above.
pub mod cpu;
pub mod devices;
pub mod instructions;
pub mod programs;
pub mod registers;
pub mod text;
