use crate::number::{
    lemma_digits_value_nonneg, lemma_number_text_value, number_text, number_text_two,
    number_value, push_number,
};
use crate::number::{all_digits, digit_value, digits_value};
use crate::proc::line::{
    address_range, after, before, contains_char, device_of, line_record, perms_of, trim_spaces,
};
use crate::text::lemma_find_from;
use crate::proc::maps::{Dev, MappingRecord, PageInfo, Perms};
use vstd::prelude::*;
use vstd::string::StringExecFns;

verus! {

/// The four permission characters: `r`, `w` and `x` where granted, then `s` for shared
/// or `p` for private, and `-` in each position that grants nothing.
pub open spec fn perms_text(p: Perms) -> Seq<char> {
    seq![
        if p.read {
            'r'
        } else {
            '-'
        },
        if p.write {
            'w'
        } else {
            '-'
        },
        if p.execute {
            'x'
        } else {
            '-'
        },
        if p.shared {
            's'
        } else if p.private {
            'p'
        } else {
            '-'
        },
    ]
}

/// The device as `major:minor`, each in hexadecimal with two digits at least.
pub open spec fn dev_text(d: Dev) -> Seq<char> {
    number_text_two(d.major as nat, 16) + seq![':'] + number_text_two(d.minor as nat, 16)
}

/// One line of text for a record: its fields with one space between them. Addresses and
/// the offset are in hexadecimal behind `0x`, the inode is in decimal, and the pathname
/// stands last as it is, so that the text of an anonymous mapping ends with the space
/// behind the inode.
pub open spec fn record_text(r: MappingRecord) -> Seq<char> {
    "0x"@ + number_text(r.begin as nat, 16) + " 0x"@ + number_text(r.end as nat, 16) + " "@
        + perms_text(r.perms) + " 0x"@ + number_text(r.offset as nat, 16) + " "@ + dev_text(r.dev)
        + " "@ + number_text(r.inode as nat, 10) + " "@ + r.pathname
}

/// Appends `n` in hexadecimal, with two digits at least.
fn push_two_digits(out: &mut String, n: u32)
    ensures
        final(out)@ == old(out)@ + number_text_two(n as nat, 16),
{
    if n < 16 {
        out.push('0');
    }
    push_number(out, n as u64, 16);
}

impl Perms {
    /// The permissions as their four characters.
    pub fn to_text(&self) -> (text: String)
        ensures
            text@ == perms_text(*self),
    {
        let mut text = String::new();
        text.push(
            if self.read {
                'r'
            } else {
                '-'
            },
        );
        text.push(
            if self.write {
                'w'
            } else {
                '-'
            },
        );
        text.push(
            if self.execute {
                'x'
            } else {
                '-'
            },
        );
        text.push(
            if self.shared {
                's'
            } else if self.private {
                'p'
            } else {
                '-'
            },
        );
        text
    }
}

impl Dev {
    /// The device as `major:minor`.
    pub fn to_text(&self) -> (text: String)
        ensures
            text@ == dev_text(*self),
    {
        let mut text = String::new();
        push_two_digits(&mut text, self.major);
        text.push(':');
        push_two_digits(&mut text, self.minor);
        text
    }
}

impl PageInfo {
    /// The record as one line of text.
    pub fn to_text(&self) -> (text: String)
        ensures
            text@ == record_text(self@),
    {
        let mut text = String::from_str("0x");
        push_number(&mut text, self.begin, 16);
        text.append(" 0x");
        push_number(&mut text, self.end, 16);
        text.append(" ");
        text.append(self.perms.to_text().as_str());
        text.append(" 0x");
        push_number(&mut text, self.offset, 16);
        text.append(" ");
        text.append(self.dev.to_text().as_str());
        text.append(" ");
        push_number(&mut text, self.inode as u64, 10);
        text.append(" ");
        text.append(self.pathname.as_str());
        text
    }
}

/// The permission field holds in each position the letter of that position or `-`.
pub open spec fn plain_perms(field: Seq<char>) -> bool {
    &&& field.len() == 4
    &&& (field[0] == 'r' || field[0] == '-')
    &&& (field[1] == 'w' || field[1] == '-')
    &&& (field[2] == 'x' || field[2] == '-')
    &&& (field[3] == 's' || field[3] == 'p' || field[3] == '-')
}

/// The permission characters and the permissions are two forms of one thing: reading
/// the characters of well-formed permissions gives these permissions, and a plain
/// permission field is the text of the permissions read from it.
pub proof fn lemma_perms_round_trip(p: Perms, field: Seq<char>)
    ensures
        p.wf() ==> perms_of(perms_text(p)) == Some(p),
        plain_perms(field) ==> perms_text(perms_of(field)->0) == field,
{
}

/// Reading a line and showing its record keeps the address range, the permission
/// characters and the pathname.
///
/// The text of the record shows the range as two numbers that read back as the numbers
/// of the line's address field; it shows the permission field of the line, character
/// for character, where that field is plain; and it ends with the pathname of the line
/// without the spaces before it, which is nothing where the line has no pathname.
pub proof fn lemma_parse_then_show(line: Seq<char>)
    requires
        line_record(line) is Some,
    ensures
        ({
            let r = line_record(line)->0;
            let address = before(line, ' ');
            let perms = before(after(line, ' '), ' ');
            let path = after(after(after(after(after(line, ' '), ' '), ' '), ' '), ' ');
            &&& number_value(number_text(r.begin as nat, 16), 16, u64::MAX as int)
                == number_value(before(address, '-'), 16, u64::MAX as int)
            &&& number_value(number_text(r.end as nat, 16), 16, u64::MAX as int) == number_value(
                after(address, '-'),
                16,
                u64::MAX as int,
            )
            &&& number_value(number_text(r.begin as nat, 16), 16, u64::MAX as int) == Some(
                r.begin as int,
            )
            &&& number_value(number_text(r.end as nat, 16), 16, u64::MAX as int) == Some(
                r.end as int,
            )
            &&& plain_perms(perms) ==> perms_text(r.perms) == perms
            &&& r.pathname == trim_spaces(path)
            &&& record_text(r) == "0x"@ + number_text(r.begin as nat, 16) + " 0x"@ + number_text(
                r.end as nat,
                16,
            ) + " "@ + perms_text(r.perms) + " 0x"@ + number_text(r.offset as nat, 16) + " "@
                + dev_text(r.dev) + " "@ + number_text(r.inode as nat, 10) + " "@ + trim_spaces(
                path,
            )
        }),
{
    let r = line_record(line)->0;
    let address = before(line, ' ');
    lemma_digits_value_nonneg(before(address, '-'), 16);
    lemma_digits_value_nonneg(after(address, '-'), 16);
    lemma_number_text_value(r.begin as nat, 16);
    lemma_number_text_value(r.end as nat, 16);
    lemma_perms_round_trip(r.perms, before(after(line, ' '), ' '));
}

/// A field, the space that ends it, and what follows.
pub open spec fn field_then(field: Seq<char>, rest: Seq<char>) -> Seq<char> {
    field + seq![' '] + rest
}

/// The line that writes a record in the form of a listing: the address range as
/// `begin-end` in hexadecimal, the permission characters, the offset in hexadecimal, the
/// device, the inode in decimal and the pathname, with one space after each field but
/// the last.
pub open spec fn listing_line(r: MappingRecord) -> Seq<char> {
    field_then(
        number_text(r.begin as nat, 16) + seq!['-'] + number_text(r.end as nat, 16),
        field_then(
            perms_text(r.perms),
            field_then(
                number_text(r.offset as nat, 16),
                field_then(
                    dev_text(r.dev),
                    field_then(number_text(r.inode as nat, 10), r.pathname),
                ),
            ),
        ),
    )
}

/// A text that holds no `c`, then `c`, then anything: the first `c` cuts it there.
proof fn lemma_cut(head: Seq<char>, c: char, rest: Seq<char>)
    requires
        forall|i: int| 0 <= i < head.len() ==> head[i] != c,
    ensures
        contains_char(head + seq![c] + rest, c),
        before(head + seq![c] + rest, c) == head,
        after(head + seq![c] + rest, c) == rest,
{
    let s = head + seq![c] + rest;
    lemma_find_from(s, c, 0, head.len() as int);
}

/// The two-digit text of a number reads back as the number.
proof fn lemma_two_digits_value(n: nat)
    ensures
        number_text_two(n, 16).len() > 0,
        all_digits(number_text_two(n, 16), 16),
        digits_value(number_text_two(n, 16), 16) == n,
{
    lemma_number_text_value(n, 16);
    if n < 16 {
        let t = number_text_two(n, 16);
        assert(t.drop_last() =~= seq!['0']);
        assert(digits_value(seq!['0'], 16) == 0) by {
            assert(digits_value(seq!['0'].drop_last(), 16) == 0);
        }
    }
}

/// Every well-formed record has a line, and reading that line gives the record back.
///
/// The pathname must not begin with a space: the spaces before a pathname are no part
/// of it, so no line can say such a pathname.
pub proof fn lemma_line_round_trip(r: MappingRecord)
    requires
        r.wf(),
        r.pathname.len() == 0 || r.pathname[0] != ' ',
    ensures
        line_record(listing_line(r)) == Some(r),
{
    let begin = number_text(r.begin as nat, 16);
    let end = number_text(r.end as nat, 16);
    let address = begin + seq!['-'] + end;
    let perms = perms_text(r.perms);
    let offset = number_text(r.offset as nat, 16);
    let major = number_text_two(r.dev.major as nat, 16);
    let minor = number_text_two(r.dev.minor as nat, 16);
    let device = dev_text(r.dev);
    let inode = number_text(r.inode as nat, 10);
    let rest4 = field_then(inode, r.pathname);
    let rest3 = field_then(device, rest4);
    let rest2 = field_then(offset, rest3);
    let rest1 = field_then(perms, rest2);
    let line = field_then(address, rest1);
    lemma_number_text_value(r.begin as nat, 16);
    lemma_number_text_value(r.end as nat, 16);
    lemma_number_text_value(r.offset as nat, 16);
    lemma_number_text_value(r.inode as nat, 10);
    lemma_two_digits_value(r.dev.major as nat);
    lemma_two_digits_value(r.dev.minor as nat);
    // No field holds a space, so the spaces between the fields cut the line.
    lemma_cut(address, ' ', rest1);
    lemma_cut(perms, ' ', rest2);
    lemma_cut(offset, ' ', rest3);
    lemma_cut(device, ' ', rest4);
    lemma_cut(inode, ' ', r.pathname);
    // The dash cuts the address field, and the colon the device field.
    lemma_cut(begin, '-', end);
    lemma_cut(major, ':', minor);
}

/// Reading a line of a listing, writing the record as a line and reading that line gives
/// the same record: nothing that a line says of a record is lost when it is written anew.
pub proof fn lemma_reading_is_stable(line: Seq<char>)
    requires
        line_record(line) is Some,
    ensures
        line_record(listing_line(line_record(line)->0)) == line_record(line),
{
    let r = line_record(line)->0;
    let path = after(after(after(after(after(line, ' '), ' '), ' '), ' '), ' ');
    lemma_trimmed(path);
    lemma_line_round_trip(r);
}

/// What `trim_spaces` leaves does not begin with a space.
proof fn lemma_trimmed(s: Seq<char>)
    ensures
        trim_spaces(s).len() == 0 || trim_spaces(s)[0] != ' ',
    decreases s.len(),
{
    if s.len() > 0 && s[0] == ' ' {
        lemma_trimmed(s.drop_first());
    }
}

} // verus!
