use crate::proc::error::Error;
use crate::proc::line::{after, before, contains_char, find_in, line_record, parse_chars};
use crate::text::{chars_between, chars_of, lemma_find_from_is_first, string_of};
use vstd::prelude::*;

verus! {

/// What a process may do with a region, and how the region is shared.
#[derive(Clone, Copy, Debug, PartialEq, Eq, Structural)]
pub struct Perms {
    pub read: bool,
    pub write: bool,
    pub execute: bool,
    pub shared: bool,
    pub private: bool,
}

/// The device that holds a region's backing file.
#[derive(Clone, Copy, Debug, PartialEq, Eq, Structural)]
pub struct Dev {
    pub major: u32,
    pub minor: u32,
}

/// One contiguous region `[begin, end)` of a process's address space.
#[derive(Debug, PartialEq, Eq)]
pub struct PageInfo {
    pub begin: u64,
    pub end: u64,
    pub perms: Perms,
    pub offset: u64,
    pub dev: Dev,
    pub inode: u32,
    pub pathname: String,
}

/// A mapping record as a mathematical value: a `PageInfo` with its pathname as a sequence
/// of characters.
pub struct MappingRecord {
    pub begin: u64,
    pub end: u64,
    pub perms: Perms,
    pub offset: u64,
    pub dev: Dev,
    pub inode: u32,
    pub pathname: Seq<char>,
}

impl Perms {
    /// A region is shared, private, or neither: never both.
    pub open spec fn wf(self) -> bool {
        !(self.shared && self.private)
    }
}

impl MappingRecord {
    /// The region is not empty and its sharing mode is one of shared, private, none.
    pub open spec fn wf(self) -> bool {
        self.begin < self.end && self.perms.wf()
    }

    /// `address` lies in `[begin, end)`.
    pub open spec fn covers(self, address: u64) -> bool {
        self.begin <= address < self.end
    }
}

impl View for PageInfo {
    type V = MappingRecord;

    open spec fn view(&self) -> MappingRecord {
        MappingRecord {
            begin: self.begin,
            end: self.end,
            perms: self.perms,
            offset: self.offset,
            dev: self.dev,
            inode: self.inode,
            pathname: self.pathname@,
        }
    }
}

impl Clone for PageInfo {
    fn clone(&self) -> (r: PageInfo)
        ensures
            r == *self,
    {
        PageInfo {
            begin: self.begin,
            end: self.end,
            perms: self.perms,
            offset: self.offset,
            dev: self.dev,
            inode: self.inode,
            pathname: self.pathname.clone(),
        }
    }
}

/// `needle` stands in `hay` at index `i`.
pub open spec fn occurs_at(hay: Seq<char>, needle: Seq<char>, i: int) -> bool {
    0 <= i && i + needle.len() <= hay.len() && hay.subrange(i, i + needle.len()) == needle
}

/// `needle` is a contiguous part of `hay`. The empty text is part of every text.
pub open spec fn contains_text(hay: Seq<char>, needle: Seq<char>) -> bool {
    exists|i: int| occurs_at(hay, needle, i)
}

/// Whether `needle` stands in `hay` at index `at`.
fn occurs_here(hay: &Vec<char>, needle: &Vec<char>, at: usize) -> (r: bool)
    requires
        at + needle.len() <= hay.len(),
    ensures
        r == occurs_at(hay@, needle@, at as int),
{
    let mut k: usize = 0;
    while k < needle.len()
        invariant
            k <= needle.len(),
            at + needle.len() <= hay.len(),
            forall|j: int| 0 <= j < k ==> hay@[at + j] == needle@[j],
        decreases needle.len() - k,
    {
        if hay[at + k] != needle[k] {
            return false;
        }
        k += 1;
    }
    assert(hay@.subrange(at as int, at + needle.len()) =~= needle@);
    true
}

/// Whether `needle` is a contiguous part of `hay`.
pub fn text_contains(hay: &Vec<char>, needle: &Vec<char>) -> (r: bool)
    ensures
        r == contains_text(hay@, needle@),
{
    if needle.len() > hay.len() {
        return false;
    }
    let last: usize = hay.len() - needle.len();
    let mut i: usize = 0;
    loop
        invariant
            last == hay.len() - needle.len(),
            i <= last,
            forall|j: int| 0 <= j < i ==> !occurs_at(hay@, needle@, j),
        decreases last - i,
    {
        if occurs_here(hay, needle, i) {
            return true;
        }
        if i == last {
            return false;
        }
        i += 1;
    }
}

impl PageInfo {
    /// Whether `address` lies in this region.
    pub fn match_range(&self, address: u64) -> (r: bool)
        ensures
            r == self@.covers(address),
    {
        address >= self.begin && address < self.end
    }

    /// Whether `name` is a contiguous part of this region's pathname. The comparison is
    /// by character, so case matters, and the empty name is part of every pathname.
    pub fn match_name(&self, name: &str) -> (r: bool)
        ensures
            r == contains_text(self.pathname@, name@),
    {
        let hay = chars_of(self.pathname.as_str());
        let needle = chars_of(name);
        text_contains(&hay, &needle)
    }
}

/// The records that `filter_by_address` keeps.
pub open spec fn records_at(records: Seq<PageInfo>, address: u64) -> Seq<PageInfo> {
    records.filter(|r: PageInfo| r@.covers(address))
}

/// The records that `filter_by_path_substring` keeps.
pub open spec fn records_containing(records: Seq<PageInfo>, needle: Seq<char>) -> Seq<PageInfo> {
    records.filter(|r: PageInfo| contains_text(r.pathname@, needle))
}

/// The records that `filter_by_path_exact` keeps.
pub open spec fn records_named(records: Seq<PageInfo>, name: Seq<char>) -> Seq<PageInfo> {
    records.filter(|r: PageInfo| r.pathname@ == name)
}

/// The exact filter is the stricter of the two filters by pathname. A name that is part
/// of a record's pathname without being all of it has the record kept by
/// `filter_by_path_substring` and dropped by `filter_by_path_exact`; and whatever the
/// exact filter keeps, the substring filter keeps too.
pub proof fn lemma_exact_is_stricter(records: Seq<PageInfo>, name: Seq<char>, i: int)
    requires
        0 <= i < records.len(),
    ensures
        contains_text(records[i].pathname@, name) && records[i].pathname@ != name ==> {
            &&& records_containing(records, name).contains(records[i])
            &&& !records_named(records, name).contains(records[i])
        },
        records_named(records, name).contains(records[i]) ==> records_containing(
            records,
            name,
        ).contains(records[i]),
{
    broadcast use vstd::seq_lib::group_filter_ensures;

    let kept = records_named(records, name);
    if kept.contains(records[i]) {
        let k = choose|k: int| 0 <= k < kept.len() && kept[k] == records[i];
        assert(name.subrange(0, name.len() as int) =~= name);
        assert(occurs_at(records[i].pathname@, name, 0));
    }
}

/// The records whose region holds `address`, in the order of `records`.
pub fn filter_by_address(records: &Vec<PageInfo>, address: u64) -> (out: Vec<PageInfo>)
    ensures
        out@ == records_at(records@, address),
{
    let ghost keep = |r: PageInfo| r@.covers(address);
    let mut out: Vec<PageInfo> = Vec::new();
    let mut i: usize = 0;
    while i < records.len()
        invariant
            i <= records.len(),
            keep == |r: PageInfo| r@.covers(address),
            out@ == records@.take(i as int).filter(keep),
        decreases records.len() - i,
    {
        proof {
            records@.take(i as int).lemma_filter_push(records@[i as int], keep);
            assert(records@.take(i as int).push(records@[i as int]) =~= records@.take(i + 1));
        }
        if records[i].match_range(address) {
            out.push(records[i].clone());
        }
        i += 1;
    }
    assert(records@.take(i as int) =~= records@);
    out
}

/// The records whose pathname holds `needle` as a contiguous part, in the order of
/// `records`. The empty needle keeps every record.
pub fn filter_by_path_substring(records: &Vec<PageInfo>, needle: &str) -> (out: Vec<PageInfo>)
    ensures
        out@ == records_containing(records@, needle@),
{
    let ghost keep = |r: PageInfo| contains_text(r.pathname@, needle@);
    let wanted = chars_of(needle);
    let mut out: Vec<PageInfo> = Vec::new();
    let mut i: usize = 0;
    while i < records.len()
        invariant
            i <= records.len(),
            keep == |r: PageInfo| contains_text(r.pathname@, needle@),
            wanted@ == needle@,
            out@ == records@.take(i as int).filter(keep),
        decreases records.len() - i,
    {
        proof {
            records@.take(i as int).lemma_filter_push(records@[i as int], keep);
            assert(records@.take(i as int).push(records@[i as int]) =~= records@.take(i + 1));
        }
        if text_contains(&chars_of(records[i].pathname.as_str()), &wanted) {
            out.push(records[i].clone());
        }
        i += 1;
    }
    assert(records@.take(i as int) =~= records@);
    out
}

/// The records whose pathname is exactly `name`, in the order of `records`.
pub fn filter_by_path_exact(records: &Vec<PageInfo>, name: &str) -> (out: Vec<PageInfo>)
    ensures
        out@ == records_named(records@, name@),
{
    let ghost keep = |r: PageInfo| r.pathname@ == name@;
    let wanted = name.to_owned();
    let mut out: Vec<PageInfo> = Vec::new();
    let mut i: usize = 0;
    while i < records.len()
        invariant
            i <= records.len(),
            keep == |r: PageInfo| r.pathname@ == name@,
            wanted@ == name@,
            out@ == records@.take(i as int).filter(keep),
        decreases records.len() - i,
    {
        proof {
            records@.take(i as int).lemma_filter_push(records@[i as int], keep);
            assert(records@.take(i as int).push(records@[i as int]) =~= records@.take(i + 1));
        }
        if records[i].pathname == wanted {
            out.push(records[i].clone());
        }
        i += 1;
    }
    assert(records@.take(i as int) =~= records@);
    out
}

/// A line without the carriage return that it ends with, if it ends with one.
pub open spec fn strip_cr(line: Seq<char>) -> Seq<char> {
    if line.len() > 0 && line.last() == '\r' {
        line.drop_last()
    } else {
        line
    }
}

/// The lines of a text. A line ends at a line feed, or at a carriage return and a line
/// feed, neither of which belongs to it; the last line may end with the text. A carriage
/// return that no line feed follows stays in its line.
pub open spec fn lines_of(text: Seq<char>) -> Seq<Seq<char>>
    decreases text.len(),
    via lines_of_decreases
{
    if text.len() == 0 {
        Seq::empty()
    } else if !contains_char(text, '\n') {
        seq![text]
    } else {
        seq![strip_cr(before(text, '\n'))] + lines_of(after(text, '\n'))
    }
}

#[via_fn]
proof fn lines_of_decreases(text: Seq<char>) {
    lemma_find_from_is_first(text, '\n', 0);
}

/// Line `at` is the first line of `lines` that describes no record.
pub open spec fn first_malformed(lines: Seq<Seq<char>>, at: int) -> bool {
    &&& 0 <= at < lines.len()
    &&& line_record(lines[at]) is None
    &&& forall|j: int| 0 <= j < at ==> line_record(#[trigger] lines[j]) is Some
}

/// `records` are what the lines describe, line by line.
pub open spec fn records_of_lines(lines: Seq<Seq<char>>, records: Seq<PageInfo>) -> bool {
    &&& records.len() == lines.len()
    &&& forall|i: int|
        0 <= i < lines.len() ==> line_record(#[trigger] lines[i]) == Some(records[i]@)
}

/// Every record of the listing is well formed.
pub open spec fn all_wf(records: Seq<PageInfo>) -> bool {
    forall|i: int| 0 <= i < records.len() ==> (#[trigger] records[i])@.wf()
}

/// Reads a listing of mapping records, one record per line, in the order of the lines.
///
/// The listing is read whole or not at all: the first line that describes no record is
/// handed back in `MalformedListing`, and no other error occurs.
pub fn read_maps(text: &str) -> (r: Result<Vec<PageInfo>, Error>)
    ensures
        match r {
            Ok(records) => records_of_lines(lines_of(text@), records@) && all_wf(records@),
            Err(Error::MalformedListing { line }) => exists|at: int|
                first_malformed(lines_of(text@), at) && line@ == lines_of(text@)[at],
            Err(_) => false,
        },
{
    let chars = chars_of(text);
    let n = chars.len();
    let mut records: Vec<PageInfo> = Vec::new();
    let ghost mut done: Seq<Seq<char>> = Seq::empty();
    let mut pos: usize = 0;
    assert(chars@.subrange(0, n as int) =~= text@);
    while pos < n
        invariant
            pos <= n == chars.len(),
            lines_of(text@) == done + lines_of(chars@.subrange(pos as int, n as int)),
            records_of_lines(done, records@),
            all_wf(records@),
        decreases n - pos,
    {
        let ghost rest = chars@.subrange(pos as int, n as int);
        let feed = find_in(&chars, '\n', pos, n);
        let end = if feed < n && pos < feed && chars[feed - 1] == '\r' {
            feed - 1
        } else {
            feed
        };
        let next = if feed < n {
            feed + 1
        } else {
            n
        };
        let line = chars_between(&chars, pos, end);
        proof {
            if feed < n {
                assert(line@ =~= strip_cr(before(rest, '\n')));
            }
        }
        match parse_chars(&line) {
            Some(info) => {
                records.push(info);
            },
            None => {
                let text_of_line = string_of(&line, 0, line.len());
                proof {
                    let at = done.len() as int;
                    assert(lines_of(text@)[at] == line@);
                    assert forall|j: int| 0 <= j < at implies line_record(
                        #[trigger] lines_of(text@)[j],
                    ) is Some by {}
                }
                return Err(Error::MalformedListing { line: text_of_line });
            },
        }
        proof {
            done = done.push(line@);
        }
        pos = next;
    }
    Ok(records)
}

} // verus!
