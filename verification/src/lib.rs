//! Dynamic instrumentation for a small RISC-V kernel, with verified contracts.
//!
//! The crate models the machinery a kernel needs to observe and intercept
//! execution at arbitrary instruction addresses:
//!
//! - a breakpoint primitive that swaps a trap encoding in and out of code
//!   memory ([`code_mem`]);
//! - an instruction classifier and emulator for the control-transfer shapes
//!   that cannot be replayed out of line ([`insn`]);
//! - registries for probes at instruction addresses ([`kprobes`]) and for
//!   function-return interception ([`kretprobes`]);
//! - a handle-indexed table of program and map objects together with the
//!   tracepoint attachment machinery that binds loaded programs to probed
//!   addresses ([`map`], [`program`], [`tracepoints`]).
//!
//! Shared kernel state (code bytes, the probe tables, the object table) is
//! held in explicit service values passed to each operation, so every table
//! update and every trap decision is stated in contracts and checked.
//! Work that only the surrounding kernel can do — executing a staged
//! instruction, running jitted native code, invoking a caller's handler —
//! is returned from the trap path as data for the caller to perform.

pub mod errors;
pub mod machine;
pub mod insn;
pub mod code_mem;
pub mod pool;
pub mod probes;
pub mod kprobes;
pub mod kretprobes;
pub mod map;
pub mod object;
pub mod program;
pub mod elf;
pub mod tracepoints;
pub mod symbols;
pub mod helpers;
pub mod trap;
