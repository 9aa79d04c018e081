//! Device-independent driver logic.

pub mod acpi;
pub mod fs;
pub mod serial;
pub mod storage;
pub mod video;
