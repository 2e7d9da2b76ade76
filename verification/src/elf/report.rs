use crate::elf::elf32::SectionHeader;
use crate::number::{number_text, push_number};
use vstd::prelude::*;
use vstd::string::StringExecFns;

verus! {

/// The names of the flags that are set, each behind a space, in the order `WRITE`,
/// `ALLOC`, `EXECINSTR`, `MASKPROC`, and `OTHER` for any bit that has no name.
pub open spec fn flag_names(flags: u32) -> Seq<char> {
    (if flags & 0x1 != 0 {
        " WRITE"@
    } else {
        Seq::empty()
    }) + (if flags & 0x2 != 0 {
        " ALLOC"@
    } else {
        Seq::empty()
    }) + (if flags & 0x4 != 0 {
        " EXECINSTR"@
    } else {
        Seq::empty()
    }) + (if flags & 0xF0000000 != 0 {
        " MASKPROC"@
    } else {
        Seq::empty()
    }) + (if flags & 0x0FFFFFF8 != 0 {
        " OTHER"@
    } else {
        Seq::empty()
    })
}

/// The flags of a section in hexadecimal, and behind them, where any is set, their names
/// in braces.
pub open spec fn flags_text(flags: u32) -> Seq<char> {
    if flags == 0 {
        "0x"@ + number_text(flags as nat, 16)
    } else {
        "0x"@ + number_text(flags as nat, 16) + " {"@ + flag_names(flags) + " }"@
    }
}

/// The name of a section type, or `INVALID` for a number that names none.
pub open spec fn type_text(sh_type: u32) -> Seq<char> {
    if sh_type == 0 {
        "SHT_NULL"@
    } else if sh_type == 1 {
        "SHT_PROGBITS"@
    } else if sh_type == 2 {
        "SHT_SYMTAB"@
    } else if sh_type == 3 {
        "SHT_STRTAB"@
    } else if sh_type == 4 {
        "SHT_RELA"@
    } else if sh_type == 5 {
        "SHT_HASH"@
    } else if sh_type == 6 {
        "SHT_DYNAMIC"@
    } else if sh_type == 7 {
        "SHT_NOTE"@
    } else if sh_type == 8 {
        "SHT_NOBITS"@
    } else if sh_type == 9 {
        "SHT_REL"@
    } else if sh_type == 10 {
        "SHT_SHLIB"@
    } else if sh_type == 11 {
        "SHT_DYNSYM"@
    } else if sh_type == 0x70000000 {
        "SHT_LOPROC"@
    } else if sh_type == 0x7fffffff {
        "SHT_HIPROC"@
    } else if sh_type == 0x80000000 {
        "SHT_LOUSER"@
    } else if sh_type == 0xffffffff {
        "SHT_HIUSER"@
    } else {
        "INVALID"@
    }
}

/// A section index as it is shown: the name of a special index, or the index in decimal.
pub open spec fn index_text(n: u32) -> Seq<char> {
    if n == 0 {
        "SHN_UNDEF"@
    } else if n == 0xff00 {
        "SHN_LOPROC"@
    } else if n == 0xff1f {
        "SHN_HIPROC"@
    } else if n == 0xfff1 {
        "SHN_ABS"@
    } else if n == 0xfff2 {
        "SHN_COMMON"@
    } else if n == 0xffff {
        "SHN_HIRESERVE"@
    } else {
        number_text(n as nat, 10)
    }
}

/// The lines that describe section `index`, whose name is `name`: an opening line, one
/// line for each field behind a tab, and a closing brace. A line feed ends each line
/// but the last.
pub open spec fn section_text(index: usize, name: Seq<char>, h: SectionHeader) -> Seq<char> {
    "section "@ + number_text(index as nat, 10) + " {\n\tname: "@ + name + " (0x"@ + number_text(
        h.sh_name as nat,
        16,
    ) + ")\n\ttype: "@ + type_text(h.sh_type) + " (0x"@ + number_text(h.sh_type as nat, 16)
        + ")\n\tflags "@ + flags_text(h.sh_flags) + "\n\taddr: 0x"@ + number_text(
        h.sh_addr as nat,
        16,
    ) + "\n\toffset: 0x"@ + number_text(h.sh_offset as nat, 16) + "\n\tsize: 0x"@ + number_text(
        h.sh_size as nat,
        16,
    ) + "\n\tlink: "@ + index_text(h.sh_link) + "\n\tinfo: "@ + index_text(h.sh_info)
        + "\n\taddr align: "@ + number_text(h.sh_addralign as nat, 10) + "\n\tentry size: 0x"@
        + number_text(h.sh_entsize as nat, 16) + "\n}"@
}

/// The flags of a section as text.
pub fn section_flags(flags: u32) -> (text: String)
    ensures
        text@ == flags_text(flags),
{
    let mut text = String::from_str("0x");
    push_number(&mut text, flags as u64, 16);
    if flags != 0 {
        let ghost head = text@;
        let mut names = String::new();
        if (flags & 0x1) != 0 {
            names.append(" WRITE");
        }
        if (flags & 0x2) != 0 {
            names.append(" ALLOC");
        }
        if (flags & 0x4) != 0 {
            names.append(" EXECINSTR");
        }
        if (flags & 0xF0000000) != 0 {
            names.append(" MASKPROC");
        }
        if (flags & 0x0FFFFFF8) != 0 {
            names.append(" OTHER");
        }
        text.append(" {");
        text.append(names.as_str());
        text.append(" }");
    }
    text
}

/// The name of a section type.
pub fn section_type_name(sh_type: u32) -> (name: &'static str)
    ensures
        name@ == type_text(sh_type),
{
    if sh_type == 0 {
        "SHT_NULL"
    } else if sh_type == 1 {
        "SHT_PROGBITS"
    } else if sh_type == 2 {
        "SHT_SYMTAB"
    } else if sh_type == 3 {
        "SHT_STRTAB"
    } else if sh_type == 4 {
        "SHT_RELA"
    } else if sh_type == 5 {
        "SHT_HASH"
    } else if sh_type == 6 {
        "SHT_DYNAMIC"
    } else if sh_type == 7 {
        "SHT_NOTE"
    } else if sh_type == 8 {
        "SHT_NOBITS"
    } else if sh_type == 9 {
        "SHT_REL"
    } else if sh_type == 10 {
        "SHT_SHLIB"
    } else if sh_type == 11 {
        "SHT_DYNSYM"
    } else if sh_type == 0x70000000 {
        "SHT_LOPROC"
    } else if sh_type == 0x7fffffff {
        "SHT_HIPROC"
    } else if sh_type == 0x80000000 {
        "SHT_LOUSER"
    } else if sh_type == 0xffffffff {
        "SHT_HIUSER"
    } else {
        "INVALID"
    }
}

/// A section index as text.
pub fn section_index_name(n: u32) -> (text: String)
    ensures
        text@ == index_text(n),
{
    if n == 0 {
        String::from_str("SHN_UNDEF")
    } else if n == 0xff00 {
        String::from_str("SHN_LOPROC")
    } else if n == 0xff1f {
        String::from_str("SHN_HIPROC")
    } else if n == 0xfff1 {
        String::from_str("SHN_ABS")
    } else if n == 0xfff2 {
        String::from_str("SHN_COMMON")
    } else if n == 0xffff {
        String::from_str("SHN_HIRESERVE")
    } else {
        let mut text = String::new();
        push_number(&mut text, n as u64, 10);
        text
    }
}

/// The lines that describe one section of a section table.
pub fn section_report(index: usize, name: &str, shdr: &SectionHeader) -> (text: String)
    ensures
        text@ == section_text(index, name@, *shdr),
{
    let mut text = String::from_str("section ");
    push_number(&mut text, index as u64, 10);
    text.append(" {\n\tname: ");
    text.append(name);
    text.append(" (0x");
    push_number(&mut text, shdr.sh_name as u64, 16);
    text.append(")\n\ttype: ");
    text.append(section_type_name(shdr.sh_type));
    text.append(" (0x");
    push_number(&mut text, shdr.sh_type as u64, 16);
    text.append(")\n\tflags ");
    text.append(section_flags(shdr.sh_flags).as_str());
    text.append("\n\taddr: 0x");
    push_number(&mut text, shdr.sh_addr as u64, 16);
    text.append("\n\toffset: 0x");
    push_number(&mut text, shdr.sh_offset as u64, 16);
    text.append("\n\tsize: 0x");
    push_number(&mut text, shdr.sh_size as u64, 16);
    text.append("\n\tlink: ");
    text.append(section_index_name(shdr.sh_link).as_str());
    text.append("\n\tinfo: ");
    text.append(section_index_name(shdr.sh_info).as_str());
    text.append("\n\taddr align: ");
    push_number(&mut text, shdr.sh_addralign as u64, 10);
    text.append("\n\tentry size: 0x");
    push_number(&mut text, shdr.sh_entsize as u64, 16);
    text.append("\n}");
    text
}

} // verus!
