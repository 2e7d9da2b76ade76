//! 32-bit ELF images: the header and the tables that it leads to.

pub mod cursor;
pub mod elf32;
pub mod error;
pub mod report;
pub mod value;
