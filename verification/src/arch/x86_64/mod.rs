//! The tables that an x86-64 processor reads from memory.

pub mod gdt;
pub mod interrupts;
pub mod paging;
pub mod stack_trace;
