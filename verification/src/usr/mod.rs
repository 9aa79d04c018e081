//! What the kernel shows to its user and takes from them.

pub mod tty;
