use satori::elf::elf32::{
    ELFHeader, ProgramHeader, ProgramTable, RelEntry, RelTable, RelaEntry, RelaTable,
    SectionHeader, SectionTable, StringTable, SymbolEntry, SymbolTable,
};
use satori::elf::error::ElfError;
use satori::elf::report::{section_flags, section_index_name, section_report, section_type_name};
use satori::elf::value::{
    relocation_info, relocation_symbol, relocation_type, symbol_bind, symbol_info, symbol_type,
    SHT_REL, SHT_RELA, SHT_STRTAB, SHT_SYMTAB, STB_GLOBAL, STT_FUNC,
};

fn words(values: &[u32]) -> Vec<u8> {
    values.iter().flat_map(|v| v.to_le_bytes()).collect()
}

fn header_bytes() -> Vec<u8> {
    let mut b = vec![0x7f, b'E', b'L', b'F', 1, 1, 1, 0, 0, 0, 0, 0, 0, 0, 0, 0];
    b.extend_from_slice(&3u16.to_le_bytes());
    b.extend_from_slice(&0x28u16.to_le_bytes());
    b.extend_from_slice(&1u32.to_le_bytes());
    b.extend_from_slice(&0x8049000u32.to_le_bytes());
    b.extend_from_slice(&0x34u32.to_le_bytes());
    b.extend_from_slice(&0x1234u32.to_le_bytes());
    b.extend_from_slice(&0x5000002u32.to_le_bytes());
    b.extend_from_slice(&0x34u16.to_le_bytes());
    b.extend_from_slice(&0x20u16.to_le_bytes());
    b.extend_from_slice(&7u16.to_le_bytes());
    b.extend_from_slice(&0x28u16.to_le_bytes());
    b.extend_from_slice(&0x1bu16.to_le_bytes());
    b.extend_from_slice(&0x1au16.to_le_bytes());
    b
}

fn section(sh_type: u32, sh_offset: u32, sh_size: u32, sh_entsize: u32) -> SectionHeader {
    SectionHeader {
        sh_name: 0,
        sh_type,
        sh_flags: 0,
        sh_addr: 0,
        sh_offset,
        sh_size,
        sh_link: 0,
        sh_info: 0,
        sh_addralign: 0,
        sh_entsize,
    }
}

#[test]
fn header_load_decodes_little_endian_fields() {
    let bytes = header_bytes();
    assert_eq!(bytes.len(), 0x34);
    let h = ELFHeader::load(&bytes).unwrap();
    assert_eq!(&h.e_ident[..4], &[0x7f, b'E', b'L', b'F']);
    assert_eq!(h.e_ident[4], 1);
    assert_eq!(h.e_ident[15], 0);
    assert_eq!(h.e_type, 3);
    assert_eq!(h.e_machine, 0x28);
    assert_eq!(h.e_version, 1);
    assert_eq!(h.e_entry, 0x8049000);
    assert_eq!(h.e_phoff, 0x34);
    assert_eq!(h.e_shoff, 0x1234);
    assert_eq!(h.e_flags, 0x5000002);
    assert_eq!(h.e_ehsize, 0x34);
    assert_eq!(h.e_phentsize, 0x20);
    assert_eq!(h.e_phnum, 7);
    assert_eq!(h.e_shentsize, 0x28);
    assert_eq!(h.e_shnum, 0x1b);
    assert_eq!(h.e_shstrndx, 0x1a);
}

#[test]
fn header_load_ignores_what_follows() {
    let mut bytes = header_bytes();
    bytes.extend_from_slice(&[0xff; 100]);
    let h = ELFHeader::load(&bytes).unwrap();
    assert_eq!(h.e_shstrndx, 0x1a);
}

#[test]
fn header_load_needs_the_whole_header() {
    let bytes = header_bytes();
    assert_eq!(ELFHeader::load(&bytes[..0x33]).err(), Some(ElfError::InvalidLength));
    assert_eq!(ELFHeader::load(&[]).err(), Some(ElfError::InvalidLength));
}

#[test]
fn new_values_are_zero() {
    let h = ELFHeader::new();
    assert_eq!(h.e_ident, [0u8; 16]);
    assert_eq!((h.e_type, h.e_machine, h.e_version, h.e_entry), (0, 0, 0, 0));
    assert_eq!((h.e_phoff, h.e_shoff, h.e_flags, h.e_ehsize), (0, 0, 0, 0));
    assert_eq!((h.e_phentsize, h.e_phnum, h.e_shentsize, h.e_shnum, h.e_shstrndx), (0, 0, 0, 0, 0));
    let t = SectionTable::new();
    assert_eq!((t.offset, t.size, t.num, t.name, t.data.len()), (0, 0, 0, 0, 0));
    let p = ProgramTable::new();
    assert_eq!((p.offset, p.size, p.num, p.programs.len()), (0, 0, 0, 0));
    assert_eq!(StringTable::new().section, SectionHeader::default());
    assert!(StringTable::new().data.is_empty());
    assert_eq!(SymbolTable::new().section, SectionHeader::default());
    assert!(SymbolTable::new().data.is_empty());
    assert_eq!(RelTable::new().section, SectionHeader::default());
    assert!(RelTable::new().data.is_empty());
    assert_eq!(RelaTable::new().section, SectionHeader::default());
    assert!(RelaTable::new().data.is_empty());
}

#[test]
fn section_table_load() {
    let mut h = ELFHeader::new();
    h.e_shoff = 8;
    h.e_shentsize = 0x2c;
    h.e_shnum = 2;
    h.e_shstrndx = 1;
    let mut image = vec![0xaa; 8];
    image.extend(words(&[1, 2, 3, 4, 5, 6, 7, 8, 9, 10, 0xdeadbeef]));
    image.extend(words(&[11, 12, 13, 14, 15, 16, 17, 18, 19, 0xfffffffe]));
    let t = SectionTable::load(&image, &h).unwrap();
    assert_eq!((t.offset, t.size, t.num, t.name), (8, 0x2c, 2, 1));
    assert_eq!(
        t.data,
        vec![
            SectionHeader {
                sh_name: 1,
                sh_type: 2,
                sh_flags: 3,
                sh_addr: 4,
                sh_offset: 5,
                sh_size: 6,
                sh_link: 7,
                sh_info: 8,
                sh_addralign: 9,
                sh_entsize: 10,
            },
            SectionHeader {
                sh_name: 11,
                sh_type: 12,
                sh_flags: 13,
                sh_addr: 14,
                sh_offset: 15,
                sh_size: 16,
                sh_link: 17,
                sh_info: 18,
                sh_addralign: 19,
                sh_entsize: 0xfffffffe,
            },
        ]
    );
    assert_eq!(
        SectionTable::load(&image[..image.len() - 1], &h).err(),
        Some(ElfError::InvalidLength)
    );
    h.e_shnum = 3;
    assert_eq!(SectionTable::load(&image, &h).err(), Some(ElfError::InvalidLength));
    h.e_shentsize = 0x27;
    assert_eq!(SectionTable::load(&image, &h).err(), Some(ElfError::InvalidHeaderEntrySize));
    h.e_shentsize = 0x28;
    h.e_shnum = 0;
    h.e_shoff = 0xffff_ffff;
    assert!(SectionTable::load(&image, &h).unwrap().data.is_empty());
}

#[test]
fn program_table_load() {
    let mut h = ELFHeader::new();
    h.e_phoff = 4;
    h.e_phentsize = 0x20;
    h.e_phnum = 2;
    let mut image = vec![0u8; 4];
    image.extend(words(&[1, 0x1000, 0x8048000, 0x8048000, 0x200, 0x300, 5, 0x1000]));
    image.extend(words(&[2, 3, 4, 5, 6, 7, 8, 0x80000000]));
    let t = ProgramTable::load(&image, &h).unwrap();
    assert_eq!((t.offset, t.size, t.num), (4, 0x20, 2));
    assert_eq!(
        t.programs,
        vec![
            ProgramHeader {
                p_type: 1,
                p_offset: 0x1000,
                p_vaddr: 0x8048000,
                p_paddr: 0x8048000,
                p_filesz: 0x200,
                p_memsz: 0x300,
                p_flags: 5,
                p_align: 0x1000,
            },
            ProgramHeader {
                p_type: 2,
                p_offset: 3,
                p_vaddr: 4,
                p_paddr: 5,
                p_filesz: 6,
                p_memsz: 7,
                p_flags: 8,
                p_align: 0x80000000,
            },
        ]
    );
    h.e_phoff = 5;
    assert_eq!(ProgramTable::load(&image, &h).err(), Some(ElfError::InvalidLength));
    h.e_phentsize = 0x1f;
    assert_eq!(ProgramTable::load(&image, &h).err(), Some(ElfError::InvalidHeaderEntrySize));
}

#[test]
fn string_table_load_and_get() {
    let image = b"....\0.text\0.data\0caf\xc3\xa9\0bad\xff\0tail".to_vec();
    let s = section(SHT_STRTAB, 4, (image.len() - 4) as u32, 0);
    let t = StringTable::load(&image, &s).unwrap();
    assert_eq!(t.section, s);
    assert_eq!(t.data, &image[4..]);
    assert_eq!(t.get(0), "");
    assert_eq!(t.get(1), ".text");
    assert_eq!(t.get(3), "ext");
    assert_eq!(t.get(7), ".data");
    assert_eq!(t.get(13), "café");
    assert_eq!(t.get(t.data.len() - 4), "tail");
    assert_eq!(t.lookup(1), Some(".text".to_string()));
    assert_eq!(t.lookup(19), None);
    assert_eq!(t.lookup(17), None);
    assert_eq!(t.lookup(t.data.len()), None);
    assert_eq!(t.lookup(t.data.len() - 1), Some("l".to_string()));
}

#[test]
fn string_table_load_checks() {
    let image = vec![0u8; 16];
    assert_eq!(
        StringTable::load(&image, &section(SHT_SYMTAB, 0, 4, 0)).err(),
        Some(ElfError::NotStringTable)
    );
    assert_eq!(
        StringTable::load(&image, &section(SHT_STRTAB, 13, 4, 0)).err(),
        Some(ElfError::InvalidLength)
    );
    assert_eq!(
        StringTable::load(&image, &section(SHT_STRTAB, 0xffff_ffff, 0xffff_ffff, 0)).err(),
        Some(ElfError::InvalidLength)
    );
    assert_eq!(StringTable::load(&image, &section(SHT_STRTAB, 12, 4, 0)).unwrap().data, [0; 4]);
    assert!(StringTable::load(&image, &section(SHT_STRTAB, 100, 0, 0)).unwrap().data.is_empty());
}

#[test]
fn symbol_table_load() {
    let mut image = vec![0u8; 3];
    image.extend(words(&[1, 0x8048000, 0x40]));
    image.extend_from_slice(&[0x12, 0x03, 0xf1, 0xff]);
    image.extend(words(&[0xaaaa_aaaa]));
    image.extend(words(&[2, 3, 4]));
    image.extend_from_slice(&[0xff, 0x00, 0x34, 0x12]);
    image.extend(words(&[0xbbbb_bbbb]));
    let s = section(SHT_SYMTAB, 3, 0x28, 0x14);
    let t = SymbolTable::load(&image, &s).unwrap();
    assert_eq!(t.section, s);
    assert_eq!(
        t.data,
        vec![
            SymbolEntry {
                st_name: 1,
                st_value: 0x8048000,
                st_size: 0x40,
                st_info: 0x12,
                st_other: 3,
                st_shndx: 0xfff1,
            },
            SymbolEntry {
                st_name: 2,
                st_value: 3,
                st_size: 4,
                st_info: 0xff,
                st_other: 0,
                st_shndx: 0x1234,
            },
        ]
    );
    assert_eq!(
        SymbolTable::load(&image, &section(SHT_STRTAB, 3, 0x28, 0x14)).err(),
        Some(ElfError::InvalidSectionType)
    );
    assert_eq!(
        SymbolTable::load(&image, &section(SHT_SYMTAB, 3, 0x28, 0xf)).err(),
        Some(ElfError::InvalidEntrySize)
    );
    assert_eq!(
        SymbolTable::load(&image, &section(SHT_SYMTAB, 3, 0x29, 0x14)).err(),
        Some(ElfError::InvalidSectionSize)
    );
    assert_eq!(
        SymbolTable::load(&image, &section(SHT_SYMTAB, 3, 0x3c, 0x14)).err(),
        Some(ElfError::InvalidLength)
    );
    assert_eq!(
        SymbolTable::load(&image, &section(SHT_SYMTAB, 0, 0x28, 0)).err(),
        Some(ElfError::InvalidEntrySize)
    );
    assert!(SymbolTable::load(&image, &section(SHT_SYMTAB, 999, 0, 0x10)).unwrap().data.is_empty());
    let tight = SymbolTable::load(&image[..3 + 0x14 + 0x10], &s).unwrap();
    assert_eq!(tight.data, t.data);
    assert_eq!(
        SymbolTable::load(&image[..3 + 0x14 + 0xf], &s).err(),
        Some(ElfError::InvalidLength)
    );
}

#[test]
fn rel_table_load() {
    let image = words(&[0x1000, 0x0000_0507, 0x2000, 0xffff_ff01]);
    let s = section(SHT_REL, 0, 16, 8);
    let t = RelTable::load(&image, &s).unwrap();
    assert_eq!(
        t.data,
        vec![
            RelEntry { r_offset: 0x1000, r_info: 0x507 },
            RelEntry { r_offset: 0x2000, r_info: 0xffff_ff01 },
        ]
    );
    assert_eq!(
        RelTable::load(&image, &section(SHT_RELA, 0, 16, 8)).err(),
        Some(ElfError::InvalidSectionType)
    );
    assert_eq!(
        RelTable::load(&image, &section(SHT_REL, 0, 16, 7)).err(),
        Some(ElfError::InvalidEntrySize)
    );
    assert_eq!(
        RelTable::load(&image, &section(SHT_REL, 0, 15, 8)).err(),
        Some(ElfError::InvalidSectionSize)
    );
    assert_eq!(
        RelTable::load(&image, &section(SHT_REL, 9, 8, 8)).err(),
        Some(ElfError::InvalidLength)
    );
}

#[test]
fn rela_table_load_reads_signed_addends() {
    let image = words(&[0x1000, 0x507, 0xffff_fffc, 0x2000, 0x601, 0x7fff_ffff, 3, 4, 0x8000_0000]);
    let s = section(SHT_RELA, 0, 36, 12);
    let t = RelaTable::load(&image, &s).unwrap();
    assert_eq!(
        t.data,
        vec![
            RelaEntry { r_offset: 0x1000, r_info: 0x507, r_addend: -4 },
            RelaEntry { r_offset: 0x2000, r_info: 0x601, r_addend: i32::MAX },
            RelaEntry { r_offset: 3, r_info: 4, r_addend: i32::MIN },
        ]
    );
    assert_eq!(
        RelaTable::load(&image, &section(SHT_REL, 0, 36, 12)).err(),
        Some(ElfError::InvalidSectionType)
    );
    assert_eq!(
        RelaTable::load(&image, &section(SHT_RELA, 0, 36, 11)).err(),
        Some(ElfError::InvalidEntrySize)
    );
    assert_eq!(
        RelaTable::load(&image, &section(SHT_RELA, 0, 35, 12)).err(),
        Some(ElfError::InvalidSectionSize)
    );
    assert_eq!(
        RelaTable::load(&image, &section(SHT_RELA, 0, 48, 12)).err(),
        Some(ElfError::InvalidLength)
    );
}

#[test]
fn symbol_info_parts() {
    assert_eq!(symbol_bind(0x12), 1);
    assert_eq!(symbol_type(0x12), 2);
    assert_eq!(symbol_bind(0xff), 15);
    assert_eq!(symbol_type(0xff), 15);
    assert_eq!(symbol_info(STB_GLOBAL, STT_FUNC), 0x12);
    assert_eq!(symbol_info(0xff, 0xff), 0xff);
    assert_eq!(symbol_info(0x1f, 0x23), 0xf3);
    for i in 0..=255u8 {
        assert_eq!(symbol_info(symbol_bind(i), symbol_type(i)), i);
    }
}

#[test]
fn relocation_info_parts() {
    assert_eq!(relocation_symbol(0x0000_0507), 5);
    assert_eq!(relocation_type(0x0000_0507), 7);
    assert_eq!(relocation_symbol(0xffff_ffff), 0x00ff_ffff);
    assert_eq!(relocation_type(0xffff_ffff), 0xf);
    assert_eq!(relocation_type(0x1234_5678), 8);
    assert_eq!(relocation_info(5, 7), 0x507);
    assert_eq!(relocation_info(0xffff_ffff, 0xffff_ffff), 0xffff_ff0f);
    assert_eq!(relocation_info(0x0123_4567, 0x12), 0x2345_6702);
}

#[test]
fn elf_error_messages() {
    assert_eq!(ElfError::InvalidLength.message(), "invalid length");
    assert_eq!(ElfError::InvalidHeaderEntrySize.message(), "invalid e_shentsize");
    assert_eq!(ElfError::NotStringTable.message(), "section type is not SHT_STRTAB");
    assert_eq!(ElfError::InvalidSectionType.message(), "invalid section type");
    assert_eq!(ElfError::InvalidEntrySize.message(), "invalid entry size");
    assert_eq!(ElfError::InvalidSectionSize.message(), "invalid section size");
}

#[test]
fn section_report_texts() {
    assert_eq!(section_flags(0), "0x0");
    assert_eq!(section_flags(0x3), "0x3 { WRITE ALLOC }");
    assert_eq!(section_flags(0x6), "0x6 { ALLOC EXECINSTR }");
    assert_eq!(section_flags(0x1000_0008), "0x10000008 { MASKPROC OTHER }");
    assert_eq!(
        section_flags(0xffff_ffff),
        "0xffffffff { WRITE ALLOC EXECINSTR MASKPROC OTHER }"
    );
    assert_eq!(section_type_name(0), "SHT_NULL");
    assert_eq!(section_type_name(3), "SHT_STRTAB");
    assert_eq!(section_type_name(11), "SHT_DYNSYM");
    assert_eq!(section_type_name(12), "INVALID");
    assert_eq!(section_type_name(0x7000_0000), "SHT_LOPROC");
    assert_eq!(section_type_name(0xffff_ffff), "SHT_HIUSER");
    assert_eq!(section_index_name(0), "SHN_UNDEF");
    assert_eq!(section_index_name(0xff00), "SHN_LOPROC");
    assert_eq!(section_index_name(0xfff1), "SHN_ABS");
    assert_eq!(section_index_name(0xffff), "SHN_HIRESERVE");
    assert_eq!(section_index_name(17), "17");
    assert_eq!(section_index_name(0x10000), "65536");
    let h = SectionHeader {
        sh_name: 0x1b,
        sh_type: 1,
        sh_flags: 6,
        sh_addr: 0x8048000,
        sh_offset: 0x1000,
        sh_size: 0x234,
        sh_link: 0,
        sh_info: 3,
        sh_addralign: 16,
        sh_entsize: 0,
    };
    assert_eq!(
        section_report(12, ".text", &h),
        "section 12 {\n\tname: .text (0x1b)\n\ttype: SHT_PROGBITS (0x1)\n\tflags 0x6 { ALLOC EXECINSTR }\n\
         \taddr: 0x8048000\n\toffset: 0x1000\n\tsize: 0x234\n\tlink: SHN_UNDEF\n\tinfo: 3\n\
         \taddr align: 16\n\tentry size: 0x0\n}"
    );
}
