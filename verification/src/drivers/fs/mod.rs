//! File systems: the virtual file system and its backends.

pub mod backend;
pub mod devfs;
pub mod fat;
pub mod initramfs;
pub mod vfs;
