//! The address space of a process: its mappings and the extraction of its memory.

pub mod coverage;
pub mod error;
pub mod format;
pub mod line;
pub mod maps;
pub mod mem;
pub mod utils;
