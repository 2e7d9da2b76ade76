//! Tools for looking into a running process: the listing of its memory mappings, the
//! plans that copy parts of its memory into a file, and a decoder for 32-bit ELF images.
//!
//! Nothing here opens a file or reads memory. A listing comes in as text and goes out as
//! records; an extraction goes out as a plan of copies for the caller to run; an ELF
//! image comes in as bytes.

pub mod elf;
pub mod number;
pub mod proc;
pub mod text;
