//! The core of a Cairo virtual machine: a runtime that executes programs
//! of encoded 63-bit instructions over three registers and a segmented,
//! write-once memory of field elements, together with the runner that
//! wires a program and its stack into memory, steps the machine to its
//! final location, and validates the builtins' stop pointers.

pub mod assoc;
pub mod builtins;
pub mod cairo_runner;
pub mod encode;
pub mod felt;
pub mod identifier;
pub mod instances;
pub mod instruction;
pub mod memory_dict;
pub mod memory_segments;
pub mod output_builtin_runner;
pub mod program;
pub mod relocatable;
pub mod scoped_name;
pub mod trace_entry;
pub mod utils;
pub mod validated_memory_dict;
pub mod vm_core;
