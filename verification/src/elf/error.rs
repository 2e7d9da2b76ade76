use vstd::prelude::*;
use vstd::string::StringExecFns;

verus! {

/// Why an ELF image could not be decoded.
#[derive(Clone, Copy, Debug, PartialEq, Eq, Structural)]
pub enum ElfError {
    /// The image ends before the bytes that were asked for.
    InvalidLength,
    /// The header gives its table entries less room than an entry needs.
    InvalidHeaderEntrySize,
    /// The section is no string table.
    NotStringTable,
    /// The section is not of the type that the table needs.
    InvalidSectionType,
    /// The section gives its entries less room than an entry needs.
    InvalidEntrySize,
    /// The section's size is no multiple of its entry size.
    InvalidSectionSize,
}

impl ElfError {
    /// The error in words.
    pub fn message(&self) -> (text: String)
        ensures
            text@ == match *self {
                ElfError::InvalidLength => "invalid length"@,
                ElfError::InvalidHeaderEntrySize => "invalid e_shentsize"@,
                ElfError::NotStringTable => "section type is not SHT_STRTAB"@,
                ElfError::InvalidSectionType => "invalid section type"@,
                ElfError::InvalidEntrySize => "invalid entry size"@,
                ElfError::InvalidSectionSize => "invalid section size"@,
            },
    {
        match self {
            ElfError::InvalidLength => String::from_str("invalid length"),
            ElfError::InvalidHeaderEntrySize => String::from_str("invalid e_shentsize"),
            ElfError::NotStringTable => String::from_str("section type is not SHT_STRTAB"),
            ElfError::InvalidSectionType => String::from_str("invalid section type"),
            ElfError::InvalidEntrySize => String::from_str("invalid entry size"),
            ElfError::InvalidSectionSize => String::from_str("invalid section size"),
        }
    }
}

} // verus!
