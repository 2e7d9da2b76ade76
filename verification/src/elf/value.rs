use vstd::prelude::*;

verus! {

// ELFHeader.e_type
pub const ET_NONE: u16 = 0;

pub const ET_REL: u16 = 1;

pub const ET_EXEC: u16 = 2;

pub const ET_DYN: u16 = 3;

pub const ET_CORE: u16 = 4;

pub const ET_LOPROC: u16 = 0xff00;

pub const ET_HIPROC: u16 = 0xffff;

// ELFHeader.e_machine
pub const EM_NONE: u16 = 0;

pub const EM_M32: u16 = 1;

pub const EM_SPARC: u16 = 2;

pub const EM_386: u16 = 3;

pub const EM_68K: u16 = 4;

pub const EM_88K: u16 = 5;

pub const EM_860: u16 = 7;

pub const EM_MIPS: u16 = 8;

pub const EM_MIPS_RS4_BE: u16 = 10;

// ELFHeader.e_version
pub const EV_NONE: u32 = 0;

pub const EV_CURRENT: u32 = 1;

// Indices into ELFHeader.e_ident
pub const EI_MAG0: usize = 0;

pub const EI_MAG1: usize = 1;

pub const EI_MAG2: usize = 2;

pub const EI_MAG3: usize = 3;

pub const EI_CLASS: usize = 4;

pub const EI_DATA: usize = 5;

pub const EI_VERSION: usize = 6;

pub const EI_PAD: usize = 7;

pub const EI_NIDENT: usize = 16;

// The magic number
pub const ELFMAG0: u8 = 0x7F;

pub const ELFMAG1: u8 = 0x45;

pub const ELFMAG2: u8 = 0x4C;

pub const ELFMAG3: u8 = 0x46;

// e_ident[EI_CLASS]
pub const ELFCLASSNONE: u8 = 0;

pub const ELFCLASS32: u8 = 1;

pub const ELFCLASS64: u8 = 2;

// e_ident[EI_DATA]
pub const ELFDATANONE: u8 = 0;

pub const ELFDATA2LSB: u8 = 1;

pub const ELFDATA2MSB: u8 = 2;

// Special section indices
pub const SHN_UNDEF: usize = 0;

pub const SHN_LORESERVE: usize = 0xFF00;

pub const SHN_LOPROC: usize = 0xFF00;

pub const SHN_HIPROC: usize = 0xFF1F;

pub const SHN_ABS: usize = 0xFFF1;

pub const SHN_COMMON: usize = 0xFFF2;

pub const SHN_HIRESERVE: usize = 0xFFFF;

// SectionHeader.sh_type
pub const SHT_NULL: u32 = 0;

pub const SHT_PROGBITS: u32 = 1;

pub const SHT_SYMTAB: u32 = 2;

pub const SHT_STRTAB: u32 = 3;

pub const SHT_RELA: u32 = 4;

pub const SHT_HASH: u32 = 5;

pub const SHT_DYNAMIC: u32 = 6;

pub const SHT_NOTE: u32 = 7;

pub const SHT_NOBITS: u32 = 8;

pub const SHT_REL: u32 = 9;

pub const SHT_SHLIB: u32 = 10;

pub const SHT_DYNSYM: u32 = 11;

pub const SHT_LOPROC: u32 = 0x70000000;

pub const SHT_HIPROC: u32 = 0x7fffffff;

pub const SHT_LOUSER: u32 = 0x80000000;

pub const SHT_HIUSER: u32 = 0xffffffff;

// SectionHeader.sh_flags
pub const SHF_WRITE: u32 = 0x1;

pub const SHF_ALLOC: u32 = 0x2;

pub const SHF_EXECINSTR: u32 = 0x4;

pub const SHF_MASKPROC: u32 = 0xF0000000;

// Symbol table index
pub const STN_UNDEF: usize = 0;

// Symbol binding
pub const STB_LOCAL: u8 = 0;

pub const STB_GLOBAL: u8 = 1;

pub const STB_WEAK: u8 = 2;

pub const STB_LOPROC: u8 = 13;

pub const STB_HIPROC: u8 = 15;

// Symbol type
pub const STT_NOTYPE: u8 = 0;

pub const STT_OBJECT: u8 = 1;

pub const STT_FUNC: u8 = 2;

pub const STT_SECTION: u8 = 3;

pub const STT_FILE: u8 = 4;

pub const STT_LOPROC: u8 = 13;

pub const STT_HIPROC: u8 = 15;

/// The binding of a symbol: the high four bits of its `st_info`.
pub fn symbol_bind(i: u8) -> (r: u8)
    ensures
        r == i / 16,
{
    assert(i >> 4 == i / 16) by (bit_vector);
    i >> 4
}

/// The type of a symbol: the low four bits of its `st_info`.
pub fn symbol_type(i: u8) -> (r: u8)
    ensures
        r == i % 16,
{
    assert(i & 0xF == i % 16) by (bit_vector);
    i & 0xF
}

/// The `st_info` of a symbol with binding `b` and type `t`. Of each only the low four
/// bits count.
pub fn symbol_info(b: u8, t: u8) -> (r: u8)
    ensures
        r == (b % 16) * 16 + t % 16,
{
    assert((b << 4) | (t & 0xF) == (b % 16) * 16 + t % 16) by (bit_vector);
    (b << 4) | (t & 0xF)
}

/// The symbol index of a relocation: the high 24 bits of its `r_info`.
pub fn relocation_symbol(i: u32) -> (r: u32)
    ensures
        r == i / 256,
{
    assert(i >> 8 == i / 256) by (bit_vector);
    i >> 8
}

/// The type of a relocation: the low four bits of its `r_info`.
pub fn relocation_type(i: u32) -> (r: u32)
    ensures
        r == i % 16,
{
    assert(i & 0xF == i % 16) by (bit_vector);
    i & 0xF
}

/// The `r_info` of a relocation of symbol `s` and type `t`. Of `s` only the low 24 bits
/// count, of `t` the low four.
pub fn relocation_info(s: u32, t: u32) -> (r: u32)
    ensures
        r == (s % 0x100_0000) * 256 + t % 16,
{
    assert((s << 8) | (t & 0xF) == (s % 0x100_0000) * 256 + t % 16) by (bit_vector);
    (s << 8) | (t & 0xF)
}

} // verus!
