//! Small self-contained helpers shared by the rest of the kernel.

pub mod allocator;
pub mod bytes;
pub mod cell;
pub mod decompress;
pub mod endian;
pub mod gzip;
pub mod limine;
pub mod sync;
pub mod text;
