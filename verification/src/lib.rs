//! A native-process debugger core for 64-bit ELF executables on Linux.
//!
//! The crate owns the tracing logic: breakpoint bookkeeping (every patched
//! byte restorable), load-base resolution from the process mapping table,
//! entry-point discovery from debug symbols, and the trap-handling run
//! step. Kernel tracing primitives, object-file parsing, line lookup,
//! demangling and disassembly are reached through a small set of trusted
//! wrappers; every decision around them is verified.

pub mod breakpoints;
pub mod debugger;
pub mod error;
pub mod procmaps;
pub mod source_files;
pub mod symbols;
pub mod text;
