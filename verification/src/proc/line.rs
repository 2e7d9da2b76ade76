use crate::number::{number_value, parse_number};
use crate::proc::error::Error;
use crate::proc::maps::{Dev, MappingRecord, PageInfo, Perms};
use crate::text::{chars_of, find_from, lemma_find_from, string_of};
use vstd::prelude::*;

verus! {

/// The first index where `s` holds `c`, or the length of `s` if it holds none.
pub open spec fn index_of(s: Seq<char>, c: char) -> int {
    find_from(s, c, 0)
}

/// `s` holds `c` somewhere.
pub open spec fn contains_char(s: Seq<char>, c: char) -> bool {
    index_of(s, c) < s.len()
}

/// The part of `s` before its first `c`; all of `s` if it holds none.
pub open spec fn before(s: Seq<char>, c: char) -> Seq<char> {
    s.take(index_of(s, c))
}

/// The part of `s` after its first `c`; empty if it holds none.
pub open spec fn after(s: Seq<char>, c: char) -> Seq<char> {
    if contains_char(s, c) {
        s.skip(index_of(s, c) + 1)
    } else {
        Seq::empty()
    }
}

/// `s` without the spaces it starts with.
pub open spec fn trim_spaces(s: Seq<char>) -> Seq<char>
    decreases s.len(),
{
    if s.len() > 0 && s[0] == ' ' {
        trim_spaces(s.drop_first())
    } else {
        s
    }
}

/// The address field `begin-end`: two hexadecimal numbers of 64 bits around the first dash.
pub open spec fn address_range(field: Seq<char>) -> Option<(u64, u64)> {
    match (
        number_value(before(field, '-'), 16, u64::MAX as int),
        number_value(after(field, '-'), 16, u64::MAX as int),
    ) {
        (Some(begin), Some(end)) => if contains_char(field, '-') {
            Some((begin as u64, end as u64))
        } else {
            None
        },
        _ => None,
    }
}

/// The permission field: four characters, one position each for read, write, execute and
/// the sharing mode. A position that does not hold its letter grants nothing.
pub open spec fn perms_of(field: Seq<char>) -> Option<Perms> {
    if field.len() == 4 {
        Some(
            Perms {
                read: field[0] == 'r',
                write: field[1] == 'w',
                execute: field[2] == 'x',
                shared: field[3] == 's',
                private: field[3] == 'p',
            },
        )
    } else {
        None
    }
}

/// The device field `major:minor`: two hexadecimal numbers of 32 bits around the first
/// colon.
pub open spec fn device_of(field: Seq<char>) -> Option<Dev> {
    match (
        number_value(before(field, ':'), 16, u32::MAX as int),
        number_value(after(field, ':'), 16, u32::MAX as int),
    ) {
        (Some(major), Some(minor)) => if contains_char(field, ':') {
            Some(Dev { major: major as u32, minor: minor as u32 })
        } else {
            None
        },
        _ => None,
    }
}

/// The record that one line of a listing describes, or `None` where the line is
/// malformed.
///
/// A line is five fields with one space after each of the first four: the address range,
/// the permissions, the offset in hexadecimal, the device, and the inode in decimal. A
/// space and the pathname may follow; the pathname is what is left of the line once the
/// spaces before it are gone, so it may hold spaces itself. The range must not be empty.
pub open spec fn line_record(line: Seq<char>) -> Option<MappingRecord> {
    let after_address = after(line, ' ');
    let after_perms = after(after_address, ' ');
    let after_offset = after(after_perms, ' ');
    let after_device = after(after_offset, ' ');
    if !(contains_char(line, ' ') && contains_char(after_address, ' ') && contains_char(after_perms, ' ') && contains_char(
        after_offset,
        ' ',
    )) {
        None
    } else {
        match (
            address_range(before(line, ' ')),
            perms_of(before(after_address, ' ')),
            number_value(before(after_perms, ' '), 16, u64::MAX as int),
            device_of(before(after_offset, ' ')),
            number_value(before(after_device, ' '), 10, u32::MAX as int),
        ) {
            (Some(range), Some(perms), Some(offset), Some(dev), Some(inode)) => if range.0
                < range.1 {
                Some(
                    MappingRecord {
                        begin: range.0,
                        end: range.1,
                        perms,
                        offset: offset as u64,
                        dev,
                        inode: inode as u32,
                        pathname: trim_spaces(after(after_device, ' ')),
                    },
                )
            } else {
                None
            },
            _ => None,
        }
    }
}

/// A line that describes a record describes a well-formed one.
pub proof fn lemma_line_record_wf(line: Seq<char>)
    requires
        line_record(line) is Some,
    ensures
        line_record(line)->0.wf(),
{
}

/// Cuts `chars[from..to]` at its first `c`: the index of that `c`, or `to` where there is
/// none.
pub fn find_in(chars: &Vec<char>, c: char, from: usize, to: usize) -> (at: usize)
    requires
        from <= to <= chars.len(),
    ensures
        from <= at <= to,
        contains_char(chars@.subrange(from as int, to as int), c) == (at < to),
        before(chars@.subrange(from as int, to as int), c) == chars@.subrange(
            from as int,
            at as int,
        ),
        at < to ==> after(chars@.subrange(from as int, to as int), c) == chars@.subrange(
            at + 1,
            to as int,
        ),
{
    let mut i: usize = from;
    while i < to && chars[i] != c
        invariant
            from <= i <= to <= chars.len(),
            forall|j: int| from <= j < i ==> chars@[j] != c,
        decreases to - i,
    {
        i += 1;
    }
    proof {
        lemma_find_from(chars@.subrange(from as int, to as int), c, 0, i - from);
    }
    i
}

/// The first index at or after `from` that holds no space, or the length of `chars`.
fn skip_spaces(chars: &Vec<char>, from: usize) -> (at: usize)
    requires
        from <= chars.len(),
    ensures
        from <= at <= chars.len(),
        chars@.subrange(at as int, chars@.len() as int) == trim_spaces(
            chars@.subrange(from as int, chars@.len() as int),
        ),
{
    let ghost n = chars@.len() as int;
    let mut i: usize = from;
    while i < chars.len() && chars[i] == ' '
        invariant
            from <= i <= chars.len(),
            n == chars@.len(),
            trim_spaces(chars@.subrange(i as int, n)) == trim_spaces(
                chars@.subrange(from as int, n),
            ),
        decreases chars.len() - i,
    {
        assert(chars@.subrange(i as int, n).drop_first() =~= chars@.subrange(i + 1, n));
        i += 1;
    }
    i
}

/// Reads the address field in `chars[from..to]`.
fn parse_address(chars: &Vec<char>, from: usize, to: usize) -> (r: Option<(u64, u64)>)
    requires
        from <= to <= chars.len(),
    ensures
        r == address_range(chars@.subrange(from as int, to as int)),
{
    let dash = find_in(chars, '-', from, to);
    if dash >= to {
        return None;
    }
    let begin = parse_number(chars, from, dash, 16, u64::MAX);
    let end = parse_number(chars, dash + 1, to, 16, u64::MAX);
    match (begin, end) {
        (Some(begin), Some(end)) => Some((begin, end)),
        _ => None,
    }
}

/// Reads the permission field in `chars[from..to]`.
fn parse_perms(chars: &Vec<char>, from: usize, to: usize) -> (r: Option<Perms>)
    requires
        from <= to <= chars.len(),
    ensures
        r == perms_of(chars@.subrange(from as int, to as int)),
{
    if to - from != 4 {
        return None;
    }
    Some(
        Perms {
            read: chars[from] == 'r',
            write: chars[from + 1] == 'w',
            execute: chars[from + 2] == 'x',
            shared: chars[from + 3] == 's',
            private: chars[from + 3] == 'p',
        },
    )
}

/// Reads the device field in `chars[from..to]`.
fn parse_device(chars: &Vec<char>, from: usize, to: usize) -> (r: Option<Dev>)
    requires
        from <= to <= chars.len(),
    ensures
        r == device_of(chars@.subrange(from as int, to as int)),
{
    let colon = find_in(chars, ':', from, to);
    if colon >= to {
        return None;
    }
    let major = parse_number(chars, from, colon, 16, 0xffff_ffff);
    let minor = parse_number(chars, colon + 1, to, 16, 0xffff_ffff);
    match (major, minor) {
        (Some(major), Some(minor)) => Some(Dev { major: major as u32, minor: minor as u32 }),
        _ => None,
    }
}

/// Reads the record that the characters of one line describe.
pub fn parse_chars(chars: &Vec<char>) -> (r: Option<PageInfo>)
    ensures
        match r {
            Some(info) => line_record(chars@) == Some(info@) && info@.wf(),
            None => line_record(chars@) is None,
        },
{
    let n = chars.len();
    assert(chars@.subrange(0, n as int) =~= chars@);
    let a = find_in(chars, ' ', 0, n);
    if a >= n {
        return None;
    }
    let p = find_in(chars, ' ', a + 1, n);
    if p >= n {
        return None;
    }
    let o = find_in(chars, ' ', p + 1, n);
    if o >= n {
        return None;
    }
    let d = find_in(chars, ' ', o + 1, n);
    if d >= n {
        return None;
    }
    let e = find_in(chars, ' ', d + 1, n);
    let start = if e < n {
        skip_spaces(chars, e + 1)
    } else {
        n
    };
    assert(chars@.subrange(start as int, n as int) == trim_spaces(
        after(chars@.subrange(d + 1, n as int), ' '),
    ));
    let range = parse_address(chars, 0, a);
    let perms = parse_perms(chars, a + 1, p);
    let offset = parse_number(chars, p + 1, o, 16, u64::MAX);
    let dev = parse_device(chars, o + 1, d);
    let inode = parse_number(chars, d + 1, e, 10, 0xffff_ffff);
    match (range, perms, offset, dev, inode) {
        (Some(range), Some(perms), Some(offset), Some(dev), Some(inode)) => {
            if range.0 < range.1 {
                Some(
                    PageInfo {
                        begin: range.0,
                        end: range.1,
                        perms,
                        offset,
                        dev,
                        inode: inode as u32,
                        pathname: string_of(chars, start, n),
                    },
                )
            } else {
                None
            }
        },
        _ => None,
    }
}

/// Reads one line of a listing, without its line ending.
///
/// A line that is no mapping record is refused with `MalformedListing`, which carries the
/// line as it was given.
pub fn parse_line(line: &str) -> (r: Result<PageInfo, Error>)
    ensures
        match r {
            Ok(info) => line_record(line@) == Some(info@) && info@.wf(),
            Err(Error::MalformedListing { line: text }) => line_record(line@) is None && text@
                == line@,
            Err(_) => false,
        },
{
    let chars = chars_of(line);
    match parse_chars(&chars) {
        Some(info) => Ok(info),
        None => Err(Error::MalformedListing { line: line.to_owned() }),
    }
}

} // verus!
