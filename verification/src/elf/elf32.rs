use crate::elf::cursor::{
    copy_to_ident, get_i32_le, get_u16_le, get_u32_le, get_u8, i32_le, u16_le, u32_le,
};
use crate::elf::error::ElfError;
use crate::elf::value::{SHT_REL, SHT_RELA, SHT_STRTAB, SHT_SYMTAB};
use crate::text::{find_from, lemma_find_from, string_from_utf8};
use vstd::prelude::*;
use vstd::slice::{slice_subrange, slice_to_vec};
use vstd::utf8::{decode_utf8, valid_utf8};

verus! {

/// The header of an ELF image, 0x34 bytes at its start.
#[derive(Debug, Default)]
pub struct ELFHeader {
    pub e_ident: [u8; 16],
    pub e_type: u16,
    pub e_machine: u16,
    pub e_version: u32,
    pub e_entry: u32,
    pub e_phoff: u32,
    pub e_shoff: u32,
    pub e_flags: u32,
    pub e_ehsize: u16,
    pub e_phentsize: u16,
    pub e_phnum: u16,
    pub e_shentsize: u16,
    pub e_shnum: u16,
    pub e_shstrndx: u16,
}

/// `h` is what the first 0x34 bytes of `b` write as a header, little-endian.
pub open spec fn is_header_of(h: ELFHeader, b: Seq<u8>) -> bool {
    &&& h.e_ident@ == b.take(16)
    &&& h.e_type == u16_le(b.skip(16))
    &&& h.e_machine == u16_le(b.skip(18))
    &&& h.e_version == u32_le(b.skip(20))
    &&& h.e_entry == u32_le(b.skip(24))
    &&& h.e_phoff == u32_le(b.skip(28))
    &&& h.e_shoff == u32_le(b.skip(32))
    &&& h.e_flags == u32_le(b.skip(36))
    &&& h.e_ehsize == u16_le(b.skip(40))
    &&& h.e_phentsize == u16_le(b.skip(42))
    &&& h.e_phnum == u16_le(b.skip(44))
    &&& h.e_shentsize == u16_le(b.skip(46))
    &&& h.e_shnum == u16_le(b.skip(48))
    &&& h.e_shstrndx == u16_le(b.skip(50))
}

impl ELFHeader {
    /// A header whose fields are all zero.
    pub fn new() -> (h: ELFHeader)
        ensures
            h.e_ident@ == Seq::new(16, |i: int| 0u8),
            h.e_type == 0 && h.e_machine == 0 && h.e_version == 0 && h.e_entry == 0,
            h.e_phoff == 0 && h.e_shoff == 0 && h.e_flags == 0 && h.e_ehsize == 0,
            h.e_phentsize == 0 && h.e_phnum == 0,
            h.e_shentsize == 0 && h.e_shnum == 0 && h.e_shstrndx == 0,
    {
        let e_ident: [u8; 16] = [0; 16];
        ELFHeader {
            e_ident,
            e_type: 0,
            e_machine: 0,
            e_version: 0,
            e_entry: 0,
            e_phoff: 0,
            e_shoff: 0,
            e_flags: 0,
            e_ehsize: 0,
            e_phentsize: 0,
            e_phnum: 0,
            e_shentsize: 0,
            e_shnum: 0,
            e_shstrndx: 0,
        }
    }

    /// Decodes the header at the start of the image `elf`. An image of fewer than 0x34
    /// bytes has no header.
    pub fn load(elf: &[u8]) -> (r: Result<ELFHeader, ElfError>)
        ensures
            match r {
                Ok(h) => elf@.len() >= 0x34 && is_header_of(h, elf@),
                Err(e) => elf@.len() < 0x34 && e == ElfError::InvalidLength,
            },
    {
        if elf.len() < 0x34 {
            return Err(ElfError::InvalidLength);
        }
        let mut cursor = elf;
        let e_ident = copy_to_ident(&mut cursor);
        let e_type = get_u16_le(&mut cursor);
        let e_machine = get_u16_le(&mut cursor);
        let e_version = get_u32_le(&mut cursor);
        let e_entry = get_u32_le(&mut cursor);
        let e_phoff = get_u32_le(&mut cursor);
        let e_shoff = get_u32_le(&mut cursor);
        let e_flags = get_u32_le(&mut cursor);
        let e_ehsize = get_u16_le(&mut cursor);
        let e_phentsize = get_u16_le(&mut cursor);
        let e_phnum = get_u16_le(&mut cursor);
        let e_shentsize = get_u16_le(&mut cursor);
        let e_shnum = get_u16_le(&mut cursor);
        let e_shstrndx = get_u16_le(&mut cursor);
        Ok(
            ELFHeader {
                e_ident,
                e_type,
                e_machine,
                e_version,
                e_entry,
                e_phoff,
                e_shoff,
                e_flags,
                e_ehsize,
                e_phentsize,
                e_phnum,
                e_shentsize,
                e_shnum,
                e_shstrndx,
            },
        )
    }
}

/// Where entry `index` starts in a table at `offset` whose entries lie `stride` bytes
/// apart.
pub open spec fn entry_start(offset: u32, stride: u32, index: int) -> int {
    offset + index * stride
}

/// Entry `index` of the table, `width` bytes long, lies inside the image.
pub open spec fn entry_fits(len: nat, offset: u32, stride: u32, index: int, width: int) -> bool {
    entry_start(offset, stride, index) + width <= len
}

/// Each of the first `count` entries of the table lies inside the image.
pub open spec fn entries_fit(len: nat, offset: u32, stride: u32, count: int, width: int) -> bool {
    forall|i: int| 0 <= i < count ==> #[trigger] entry_fits(len, offset, stride, i, width)
}

/// The bytes of entry `index` of the table.
pub open spec fn entry_bytes(elf: Seq<u8>, offset: u32, stride: u32, index: int, width: int) -> Seq<
    u8,
> {
    elf.subrange(entry_start(offset, stride, index), entry_start(offset, stride, index) + width)
}

/// The bytes of entry `index`, or `None` where the image ends before the entry does.
fn entry_at<'a>(elf: &'a [u8], offset: u32, stride: u32, index: u32, width: usize) -> (r: Option<
    &'a [u8],
>)
    requires
        0 < width <= 0x100,
    ensures
        match r {
            Some(part) => entry_fits(elf@.len(), offset, stride, index as int, width as int)
                && part@ == entry_bytes(elf@, offset, stride, index as int, width as int),
            None => !entry_fits(elf@.len(), offset, stride, index as int, width as int),
        },
{
    assert(index * stride <= 0xffff_ffff * 0xffff_ffff) by (nonlinear_arith)
        requires
            0 <= index <= 0xffff_ffff,
            0 <= stride <= 0xffff_ffff,
    ;
    let start: u64 = offset as u64 + index as u64 * stride as u64;
    let len: u64 = elf.len() as u64;
    if start > len || len - start < width as u64 {
        return None;
    }
    Some(slice_subrange(elf, start as usize, start as usize + width))
}

/// The header of one section, 0x28 bytes.
#[derive(Debug, Default, Clone, Copy, PartialEq, Eq, Structural)]
pub struct SectionHeader {
    pub sh_name: u32,
    pub sh_type: u32,
    pub sh_flags: u32,
    pub sh_addr: u32,
    pub sh_offset: u32,
    pub sh_size: u32,
    pub sh_link: u32,
    pub sh_info: u32,
    pub sh_addralign: u32,
    pub sh_entsize: u32,
}

/// The section header that the first 0x28 bytes of `b` write.
pub open spec fn section_header_of(b: Seq<u8>) -> SectionHeader {
    SectionHeader {
        sh_name: u32_le(b),
        sh_type: u32_le(b.skip(4)),
        sh_flags: u32_le(b.skip(8)),
        sh_addr: u32_le(b.skip(12)),
        sh_offset: u32_le(b.skip(16)),
        sh_size: u32_le(b.skip(20)),
        sh_link: u32_le(b.skip(24)),
        sh_info: u32_le(b.skip(28)),
        sh_addralign: u32_le(b.skip(32)),
        sh_entsize: u32_le(b.skip(36)),
    }
}

/// A section header whose fields are all zero.
pub open spec fn empty_section() -> SectionHeader {
    SectionHeader {
        sh_name: 0,
        sh_type: 0,
        sh_flags: 0,
        sh_addr: 0,
        sh_offset: 0,
        sh_size: 0,
        sh_link: 0,
        sh_info: 0,
        sh_addralign: 0,
        sh_entsize: 0,
    }
}

fn zero_section() -> (s: SectionHeader)
    ensures
        s == empty_section(),
{
    SectionHeader {
        sh_name: 0,
        sh_type: 0,
        sh_flags: 0,
        sh_addr: 0,
        sh_offset: 0,
        sh_size: 0,
        sh_link: 0,
        sh_info: 0,
        sh_addralign: 0,
        sh_entsize: 0,
    }
}

fn read_section_header(part: &[u8]) -> (h: SectionHeader)
    requires
        part@.len() >= 0x28,
    ensures
        h == section_header_of(part@),
{
    let mut cursor = part;
    let sh_name = get_u32_le(&mut cursor);
    let sh_type = get_u32_le(&mut cursor);
    let sh_flags = get_u32_le(&mut cursor);
    let sh_addr = get_u32_le(&mut cursor);
    let sh_offset = get_u32_le(&mut cursor);
    let sh_size = get_u32_le(&mut cursor);
    let sh_link = get_u32_le(&mut cursor);
    let sh_info = get_u32_le(&mut cursor);
    let sh_addralign = get_u32_le(&mut cursor);
    let sh_entsize = get_u32_le(&mut cursor);
    SectionHeader {
        sh_name,
        sh_type,
        sh_flags,
        sh_addr,
        sh_offset,
        sh_size,
        sh_link,
        sh_info,
        sh_addralign,
        sh_entsize,
    }
}

/// The section headers of an image.
#[derive(Debug, Default)]
pub struct SectionTable {
    /// `e_shoff` of the header
    pub offset: u32,
    /// `e_shentsize` of the header
    pub size: u16,
    /// `e_shnum` of the header
    pub num: u16,
    /// `e_shstrndx` of the header
    pub name: u16,
    pub data: Vec<SectionHeader>,
}

/// The section headers that the image holds for the header `h`.
pub open spec fn sections_of(elf: Seq<u8>, h: ELFHeader) -> Seq<SectionHeader> {
    Seq::new(
        h.e_shnum as nat,
        |i: int| section_header_of(entry_bytes(elf, h.e_shoff, h.e_shentsize as u32, i, 0x28)),
    )
}

impl SectionTable {
    /// A table without sections, whose other fields are zero.
    pub fn new() -> (t: SectionTable)
        ensures
            t.offset == 0 && t.size == 0 && t.num == 0 && t.name == 0,
            t.data@.len() == 0,
    {
        SectionTable { offset: 0, size: 0, num: 0, name: 0, data: Vec::new() }
    }

    /// Decodes the section headers of the image `elf`, whose header is `ehdr`.
    ///
    /// The header must give each entry the 0x28 bytes that a section header takes, and
    /// each of the `e_shnum` entries must lie inside the image.
    pub fn load(elf: &[u8], ehdr: &ELFHeader) -> (r: Result<SectionTable, ElfError>)
        ensures
            match r {
                Ok(t) => {
                    &&& ehdr.e_shentsize >= 0x28
                    &&& entries_fit(
                        elf@.len(),
                        ehdr.e_shoff,
                        ehdr.e_shentsize as u32,
                        ehdr.e_shnum as int,
                        0x28,
                    )
                    &&& t.offset == ehdr.e_shoff
                    &&& t.size == ehdr.e_shentsize
                    &&& t.num == ehdr.e_shnum
                    &&& t.name == ehdr.e_shstrndx
                    &&& t.data@ == sections_of(elf@, *ehdr)
                },
                Err(e) => if ehdr.e_shentsize < 0x28 {
                    e == ElfError::InvalidHeaderEntrySize
                } else {
                    e == ElfError::InvalidLength && !entries_fit(
                        elf@.len(),
                        ehdr.e_shoff,
                        ehdr.e_shentsize as u32,
                        ehdr.e_shnum as int,
                        0x28,
                    )
                },
            },
    {
        if ehdr.e_shentsize < 0x28 {
            return Err(ElfError::InvalidHeaderEntrySize);
        }
        let num = ehdr.e_shnum;
        let size = ehdr.e_shentsize as u32;
        let offset = ehdr.e_shoff;
        let mut sections: Vec<SectionHeader> = Vec::new();
        let mut i: u16 = 0;
        while i < num
            invariant
                i <= num == ehdr.e_shnum,
                size == ehdr.e_shentsize >= 0x28,
                offset == ehdr.e_shoff,
                entries_fit(elf@.len(), offset, size, i as int, 0x28),
                sections@ == sections_of(elf@, *ehdr).take(i as int),
            decreases num - i,
        {
            let part = match entry_at(elf, offset, size, i as u32, 0x28) {
                Some(part) => part,
                None => {
                    return Err(ElfError::InvalidLength);
                },
            };
            sections.push(read_section_header(part));
            i += 1;
        }
        Ok(
            SectionTable {
                offset: ehdr.e_shoff,
                size: ehdr.e_shentsize,
                num: ehdr.e_shnum,
                name: ehdr.e_shstrndx,
                data: sections,
            },
        )
    }
}

/// Why a table cannot be read from `section`, if it cannot: the section is not of the
/// type `kind`, or its entries are shorter than `width`, or its size is no multiple of
/// its entry size, or one of its entries lies outside an image of `len` bytes. The first
/// of these that holds is the one reported.
pub open spec fn table_refusal(len: nat, section: SectionHeader, kind: u32, width: u32) -> Option<
    ElfError,
> {
    if section.sh_type != kind {
        Some(ElfError::InvalidSectionType)
    } else if section.sh_entsize < width {
        Some(ElfError::InvalidEntrySize)
    } else if section.sh_size % section.sh_entsize != 0 {
        Some(ElfError::InvalidSectionSize)
    } else if !entries_fit(
        len,
        section.sh_offset,
        section.sh_entsize,
        entry_count(section),
        width as int,
    ) {
        Some(ElfError::InvalidLength)
    } else {
        None
    }
}

/// The number of entries in a section whose size is a multiple of its entry size.
pub open spec fn entry_count(section: SectionHeader) -> int {
    section.sh_size as int / section.sh_entsize as int
}

/// The number of entries in `section`, once its type and its sizes have been checked.
fn count_entries(section: &SectionHeader, kind: u32, width: u32) -> (r: Result<u32, ElfError>)
    requires
        width > 0,
    ensures
        match r {
            Ok(count) => {
                &&& section.sh_type == kind
                &&& section.sh_entsize >= width
                &&& section.sh_size % section.sh_entsize == 0
                &&& count == entry_count(*section)
            },
            Err(e) => forall|len: nat| table_refusal(len, *section, kind, width) == Some(e),
        },
{
    if section.sh_type != kind {
        return Err(ElfError::InvalidSectionType);
    }
    if section.sh_entsize < width {
        return Err(ElfError::InvalidEntrySize);
    }
    if section.sh_size % section.sh_entsize != 0 {
        return Err(ElfError::InvalidSectionSize);
    }
    Ok(section.sh_size / section.sh_entsize)
}

/// The strings of an image: names that each end at a zero byte.
#[derive(Debug, Default)]
pub struct StringTable {
    pub section: SectionHeader,
    pub data: Vec<u8>,
}

/// The bytes of the section: `sh_size` bytes of the image from `sh_offset` on.
pub open spec fn section_bytes(elf: Seq<u8>, section: SectionHeader) -> Seq<u8> {
    if section.sh_size == 0 {
        Seq::empty()
    } else {
        elf.subrange(section.sh_offset as int, section.sh_offset + section.sh_size)
    }
}

/// The section's bytes lie inside an image of `len` bytes. A section without bytes lies
/// inside every image.
pub open spec fn section_fits(len: nat, section: SectionHeader) -> bool {
    section.sh_size == 0 || section.sh_offset + section.sh_size <= len
}

/// The bytes of the name at `pos`: from `pos` up to the next zero byte, or to the end of
/// the table where no zero byte follows.
pub open spec fn name_bytes(data: Seq<u8>, pos: int) -> Seq<u8> {
    data.subrange(pos, find_from(data, 0u8, pos))
}

impl StringTable {
    /// A table without bytes, for a section whose fields are all zero.
    pub fn new() -> (t: StringTable)
        ensures
            t.section == empty_section(),
            t.data@.len() == 0,
    {
        StringTable { section: zero_section(), data: Vec::new() }
    }

    /// Takes the string table that `section` describes out of the image `elf`.
    ///
    /// The section must be of type `SHT_STRTAB`, and its bytes must lie inside the image.
    pub fn load(elf: &[u8], section: &SectionHeader) -> (r: Result<StringTable, ElfError>)
        ensures
            match r {
                Ok(t) => {
                    &&& section.sh_type == SHT_STRTAB
                    &&& section_fits(elf@.len(), *section)
                    &&& t.section == *section
                    &&& t.data@ == section_bytes(elf@, *section)
                },
                Err(e) => if section.sh_type != SHT_STRTAB {
                    e == ElfError::NotStringTable
                } else {
                    e == ElfError::InvalidLength && !section_fits(elf@.len(), *section)
                },
            },
    {
        if section.sh_type != SHT_STRTAB {
            return Err(ElfError::NotStringTable);
        }
        if section.sh_size == 0 {
            return Ok(StringTable { section: *section, data: Vec::new() });
        }
        let start: u64 = section.sh_offset as u64;
        let end: u64 = start + section.sh_size as u64;
        if end > elf.len() as u64 {
            return Err(ElfError::InvalidLength);
        }
        let data = slice_to_vec(slice_subrange(elf, start as usize, end as usize));
        Ok(StringTable { section: *section, data })
    }

    /// The name at `pos`, or nothing where `pos` lies outside the table or the bytes of
    /// the name are not UTF-8.
    pub fn lookup(&self, pos: usize) -> (r: Option<String>)
        ensures
            match r {
                Some(name) => {
                    &&& pos < self.data@.len()
                    &&& valid_utf8(name_bytes(self.data@, pos as int))
                    &&& name@ == decode_utf8(name_bytes(self.data@, pos as int))
                },
                None => pos >= self.data@.len() || !valid_utf8(
                    name_bytes(self.data@, pos as int),
                ),
            },
    {
        if pos >= self.data.len() {
            return None;
        }
        let mut name: Vec<u8> = Vec::new();
        let mut i: usize = pos;
        while i < self.data.len() && self.data[i] != 0
            invariant
                pos <= i <= self.data@.len(),
                forall|j: int| pos <= j < i ==> self.data@[j] != 0u8,
                name@ == self.data@.subrange(pos as int, i as int),
            decreases self.data@.len() - i,
        {
            name.push(self.data[i]);
            i += 1;
        }
        proof {
            lemma_find_from(self.data@, 0u8, pos as int, i as int);
        }
        string_from_utf8(name)
    }

    /// The name at `pos`, which must lie inside the table and hold UTF-8.
    pub fn get(&self, pos: usize) -> (name: String)
        requires
            pos < self.data@.len(),
            valid_utf8(name_bytes(self.data@, pos as int)),
        ensures
            name@ == decode_utf8(name_bytes(self.data@, pos as int)),
    {
        match self.lookup(pos) {
            Some(name) => name,
            None => String::new(),
        }
    }
}

/// One symbol, 0x10 bytes.
#[derive(Debug, Default, Clone, Copy, PartialEq, Eq, Structural)]
pub struct SymbolEntry {
    pub st_name: u32,
    pub st_value: u32,
    pub st_size: u32,
    pub st_info: u8,
    pub st_other: u8,
    pub st_shndx: u16,
}

/// The symbol that the first 0x10 bytes of `b` write.
pub open spec fn symbol_of(b: Seq<u8>) -> SymbolEntry {
    SymbolEntry {
        st_name: u32_le(b),
        st_value: u32_le(b.skip(4)),
        st_size: u32_le(b.skip(8)),
        st_info: b[12],
        st_other: b[13],
        st_shndx: u16_le(b.skip(14)),
    }
}

fn read_symbol(part: &[u8]) -> (e: SymbolEntry)
    requires
        part@.len() >= 0x10,
    ensures
        e == symbol_of(part@),
{
    let mut cursor = part;
    let st_name = get_u32_le(&mut cursor);
    let st_value = get_u32_le(&mut cursor);
    let st_size = get_u32_le(&mut cursor);
    let st_info = get_u8(&mut cursor);
    let st_other = get_u8(&mut cursor);
    let st_shndx = get_u16_le(&mut cursor);
    SymbolEntry { st_name, st_value, st_size, st_info, st_other, st_shndx }
}

/// The symbols of one section.
#[derive(Debug, Default)]
pub struct SymbolTable {
    pub section: SectionHeader,
    pub data: Vec<SymbolEntry>,
}

/// The symbols that the image holds in `section`.
pub open spec fn symbols_of(elf: Seq<u8>, section: SectionHeader) -> Seq<SymbolEntry> {
    Seq::new(
        entry_count(section) as nat,
        |i: int| symbol_of(entry_bytes(elf, section.sh_offset, section.sh_entsize, i, 0x10)),
    )
}

impl SymbolTable {
    /// A table without symbols, for a section whose fields are all zero.
    pub fn new() -> (t: SymbolTable)
        ensures
            t.section == empty_section(),
            t.data@.len() == 0,
    {
        SymbolTable { section: zero_section(), data: Vec::new() }
    }

    /// Decodes the symbols that `section` describes in the image `elf`.
    ///
    /// The section must be of type `SHT_SYMTAB`, give each entry at least 0x10 bytes, hold
    /// a whole number of entries, and lie inside the image.
    pub fn load(elf: &[u8], section: &SectionHeader) -> (r: Result<SymbolTable, ElfError>)
        ensures
            match r {
                Ok(t) => {
                    &&& table_refusal(elf@.len(), *section, SHT_SYMTAB, 0x10) is None
                    &&& t.section == *section
                    &&& t.data@ == symbols_of(elf@, *section)
                },
                Err(e) => table_refusal(elf@.len(), *section, SHT_SYMTAB, 0x10) == Some(e),
            },
    {
        let num = match count_entries(section, SHT_SYMTAB, 0x10) {
            Ok(num) => num,
            Err(e) => {
                return Err(e);
            },
        };
        let mut symbols: Vec<SymbolEntry> = Vec::new();
        let mut n: u32 = 0;
        while n < num
            invariant
                n <= num == entry_count(*section),
                section.sh_type == SHT_SYMTAB,
                section.sh_entsize >= 0x10,
                section.sh_size % section.sh_entsize == 0,
                entries_fit(elf@.len(), section.sh_offset, section.sh_entsize, n as int, 0x10),
                symbols@ == symbols_of(elf@, *section).take(n as int),
            decreases num - n,
        {
            let part = match entry_at(elf, section.sh_offset, section.sh_entsize, n, 0x10) {
                Some(part) => part,
                None => {
                    return Err(ElfError::InvalidLength);
                },
            };
            symbols.push(read_symbol(part));
            n += 1;
        }
        Ok(SymbolTable { section: *section, data: symbols })
    }
}

/// One relocation without addend, 0x8 bytes.
#[derive(Debug, Default, Clone, Copy, PartialEq, Eq, Structural)]
pub struct RelEntry {
    pub r_offset: u32,
    pub r_info: u32,
}

/// The relocation that the first 0x8 bytes of `b` write.
pub open spec fn rel_of(b: Seq<u8>) -> RelEntry {
    RelEntry { r_offset: u32_le(b), r_info: u32_le(b.skip(4)) }
}

fn read_rel(part: &[u8]) -> (e: RelEntry)
    requires
        part@.len() >= 0x8,
    ensures
        e == rel_of(part@),
{
    let mut cursor = part;
    let r_offset = get_u32_le(&mut cursor);
    let r_info = get_u32_le(&mut cursor);
    RelEntry { r_offset, r_info }
}

/// The relocations of one section of type `SHT_REL`.
#[derive(Debug, Default)]
pub struct RelTable {
    pub section: SectionHeader,
    pub data: Vec<RelEntry>,
}

/// The relocations that the image holds in `section`.
pub open spec fn rels_of(elf: Seq<u8>, section: SectionHeader) -> Seq<RelEntry> {
    Seq::new(
        entry_count(section) as nat,
        |i: int| rel_of(entry_bytes(elf, section.sh_offset, section.sh_entsize, i, 0x8)),
    )
}

impl RelTable {
    /// A table without relocations, for a section whose fields are all zero.
    pub fn new() -> (t: RelTable)
        ensures
            t.section == empty_section(),
            t.data@.len() == 0,
    {
        RelTable { section: zero_section(), data: Vec::new() }
    }

    /// Decodes the relocations that `section` describes in the image `elf`.
    ///
    /// The section must be of type `SHT_REL`, give each entry at least 0x8 bytes, hold a
    /// whole number of entries, and lie inside the image.
    pub fn load(elf: &[u8], section: &SectionHeader) -> (r: Result<RelTable, ElfError>)
        ensures
            match r {
                Ok(t) => {
                    &&& table_refusal(elf@.len(), *section, SHT_REL, 0x8) is None
                    &&& t.section == *section
                    &&& t.data@ == rels_of(elf@, *section)
                },
                Err(e) => table_refusal(elf@.len(), *section, SHT_REL, 0x8) == Some(e),
            },
    {
        let num = match count_entries(section, SHT_REL, 0x8) {
            Ok(num) => num,
            Err(e) => {
                return Err(e);
            },
        };
        let mut entries: Vec<RelEntry> = Vec::new();
        let mut n: u32 = 0;
        while n < num
            invariant
                n <= num == entry_count(*section),
                section.sh_type == SHT_REL,
                section.sh_entsize >= 0x8,
                section.sh_size % section.sh_entsize == 0,
                entries_fit(elf@.len(), section.sh_offset, section.sh_entsize, n as int, 0x8),
                entries@ == rels_of(elf@, *section).take(n as int),
            decreases num - n,
        {
            let part = match entry_at(elf, section.sh_offset, section.sh_entsize, n, 0x8) {
                Some(part) => part,
                None => {
                    return Err(ElfError::InvalidLength);
                },
            };
            entries.push(read_rel(part));
            n += 1;
        }
        Ok(RelTable { section: *section, data: entries })
    }
}

/// One relocation with addend, 0xC bytes.
#[derive(Debug, Default, Clone, Copy, PartialEq, Eq, Structural)]
pub struct RelaEntry {
    pub r_offset: u32,
    pub r_info: u32,
    pub r_addend: i32,
}

/// The relocation that the first 0xC bytes of `b` write.
pub open spec fn rela_of(b: Seq<u8>) -> RelaEntry {
    RelaEntry { r_offset: u32_le(b), r_info: u32_le(b.skip(4)), r_addend: i32_le(b.skip(8)) }
}

fn read_rela(part: &[u8]) -> (e: RelaEntry)
    requires
        part@.len() >= 0xC,
    ensures
        e == rela_of(part@),
{
    let mut cursor = part;
    let r_offset = get_u32_le(&mut cursor);
    let r_info = get_u32_le(&mut cursor);
    let r_addend = get_i32_le(&mut cursor);
    RelaEntry { r_offset, r_info, r_addend }
}

/// The relocations of one section of type `SHT_RELA`.
#[derive(Debug, Default)]
pub struct RelaTable {
    pub section: SectionHeader,
    pub data: Vec<RelaEntry>,
}

/// The relocations that the image holds in `section`.
pub open spec fn relas_of(elf: Seq<u8>, section: SectionHeader) -> Seq<RelaEntry> {
    Seq::new(
        entry_count(section) as nat,
        |i: int| rela_of(entry_bytes(elf, section.sh_offset, section.sh_entsize, i, 0xC)),
    )
}

impl RelaTable {
    /// A table without relocations, for a section whose fields are all zero.
    pub fn new() -> (t: RelaTable)
        ensures
            t.section == empty_section(),
            t.data@.len() == 0,
    {
        RelaTable { section: zero_section(), data: Vec::new() }
    }

    /// Decodes the relocations that `section` describes in the image `elf`.
    ///
    /// The section must be of type `SHT_RELA`, give each entry at least 0xC bytes, hold a
    /// whole number of entries, and lie inside the image.
    pub fn load(elf: &[u8], section: &SectionHeader) -> (r: Result<RelaTable, ElfError>)
        ensures
            match r {
                Ok(t) => {
                    &&& table_refusal(elf@.len(), *section, SHT_RELA, 0xC) is None
                    &&& t.section == *section
                    &&& t.data@ == relas_of(elf@, *section)
                },
                Err(e) => table_refusal(elf@.len(), *section, SHT_RELA, 0xC) == Some(e),
            },
    {
        let num = match count_entries(section, SHT_RELA, 0xC) {
            Ok(num) => num,
            Err(e) => {
                return Err(e);
            },
        };
        let mut entries: Vec<RelaEntry> = Vec::new();
        let mut n: u32 = 0;
        while n < num
            invariant
                n <= num == entry_count(*section),
                section.sh_type == SHT_RELA,
                section.sh_entsize >= 0xC,
                section.sh_size % section.sh_entsize == 0,
                entries_fit(elf@.len(), section.sh_offset, section.sh_entsize, n as int, 0xC),
                entries@ == relas_of(elf@, *section).take(n as int),
            decreases num - n,
        {
            let part = match entry_at(elf, section.sh_offset, section.sh_entsize, n, 0xC) {
                Some(part) => part,
                None => {
                    return Err(ElfError::InvalidLength);
                },
            };
            entries.push(read_rela(part));
            n += 1;
        }
        Ok(RelaTable { section: *section, data: entries })
    }
}

/// The header of one segment, 0x20 bytes.
#[derive(Debug, Default, Clone, Copy, PartialEq, Eq, Structural)]
pub struct ProgramHeader {
    pub p_type: u32,
    pub p_offset: u32,
    pub p_vaddr: u32,
    pub p_paddr: u32,
    pub p_filesz: u32,
    pub p_memsz: u32,
    pub p_flags: u32,
    pub p_align: u32,
}

/// The program header that the first 0x20 bytes of `b` write.
pub open spec fn program_header_of(b: Seq<u8>) -> ProgramHeader {
    ProgramHeader {
        p_type: u32_le(b),
        p_offset: u32_le(b.skip(4)),
        p_vaddr: u32_le(b.skip(8)),
        p_paddr: u32_le(b.skip(12)),
        p_filesz: u32_le(b.skip(16)),
        p_memsz: u32_le(b.skip(20)),
        p_flags: u32_le(b.skip(24)),
        p_align: u32_le(b.skip(28)),
    }
}

fn read_program_header(part: &[u8]) -> (h: ProgramHeader)
    requires
        part@.len() >= 0x20,
    ensures
        h == program_header_of(part@),
{
    let mut cursor = part;
    let p_type = get_u32_le(&mut cursor);
    let p_offset = get_u32_le(&mut cursor);
    let p_vaddr = get_u32_le(&mut cursor);
    let p_paddr = get_u32_le(&mut cursor);
    let p_filesz = get_u32_le(&mut cursor);
    let p_memsz = get_u32_le(&mut cursor);
    let p_flags = get_u32_le(&mut cursor);
    let p_align = get_u32_le(&mut cursor);
    ProgramHeader { p_type, p_offset, p_vaddr, p_paddr, p_filesz, p_memsz, p_flags, p_align }
}

/// The program headers of an image.
#[derive(Debug, Default)]
pub struct ProgramTable {
    /// `e_phoff` of the header
    pub offset: u32,
    /// `e_phentsize` of the header
    pub size: u16,
    /// `e_phnum` of the header
    pub num: u16,
    pub programs: Vec<ProgramHeader>,
}

/// The program headers that the image holds for the header `h`.
pub open spec fn programs_of(elf: Seq<u8>, h: ELFHeader) -> Seq<ProgramHeader> {
    Seq::new(
        h.e_phnum as nat,
        |i: int| program_header_of(entry_bytes(elf, h.e_phoff, h.e_phentsize as u32, i, 0x20)),
    )
}

impl ProgramTable {
    /// A table without program headers, whose other fields are zero.
    pub fn new() -> (t: ProgramTable)
        ensures
            t.offset == 0 && t.size == 0 && t.num == 0,
            t.programs@.len() == 0,
    {
        ProgramTable { offset: 0, size: 0, num: 0, programs: Vec::new() }
    }

    /// Decodes the program headers of the image `elf`, whose header is `ehdr`.
    ///
    /// The header must give each entry the 0x20 bytes that a program header takes, and
    /// each of the `e_phnum` entries must lie inside the image.
    pub fn load(elf: &[u8], ehdr: &ELFHeader) -> (r: Result<ProgramTable, ElfError>)
        ensures
            match r {
                Ok(t) => {
                    &&& ehdr.e_phentsize >= 0x20
                    &&& entries_fit(
                        elf@.len(),
                        ehdr.e_phoff,
                        ehdr.e_phentsize as u32,
                        ehdr.e_phnum as int,
                        0x20,
                    )
                    &&& t.offset == ehdr.e_phoff
                    &&& t.size == ehdr.e_phentsize
                    &&& t.num == ehdr.e_phnum
                    &&& t.programs@ == programs_of(elf@, *ehdr)
                },
                Err(e) => if ehdr.e_phentsize < 0x20 {
                    e == ElfError::InvalidHeaderEntrySize
                } else {
                    e == ElfError::InvalidLength && !entries_fit(
                        elf@.len(),
                        ehdr.e_phoff,
                        ehdr.e_phentsize as u32,
                        ehdr.e_phnum as int,
                        0x20,
                    )
                },
            },
    {
        if ehdr.e_phentsize < 0x20 {
            return Err(ElfError::InvalidHeaderEntrySize);
        }
        let num = ehdr.e_phnum;
        let size = ehdr.e_phentsize as u32;
        let offset = ehdr.e_phoff;
        let mut programs: Vec<ProgramHeader> = Vec::new();
        let mut i: u16 = 0;
        while i < num
            invariant
                i <= num == ehdr.e_phnum,
                size == ehdr.e_phentsize >= 0x20,
                offset == ehdr.e_phoff,
                entries_fit(elf@.len(), offset, size, i as int, 0x20),
                programs@ == programs_of(elf@, *ehdr).take(i as int),
            decreases num - i,
        {
            let part = match entry_at(elf, offset, size, i as u32, 0x20) {
                Some(part) => part,
                None => {
                    return Err(ElfError::InvalidLength);
                },
            };
            programs.push(read_program_header(part));
            i += 1;
        }
        Ok(
            ProgramTable {
                programs,
                offset: ehdr.e_phoff,
                size: ehdr.e_phentsize,
                num: ehdr.e_phnum,
            },
        )
    }
}

} // verus!
