//! Locks.

pub mod mutex;
