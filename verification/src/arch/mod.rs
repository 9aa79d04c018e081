//! Architecture-specific data structures.

pub mod x86_64;
