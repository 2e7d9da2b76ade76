use satori::proc::error::Error;
use satori::proc::maps::{read_maps, Dev, PageInfo, Perms};
use satori::proc::mem::{dump_library, dump_pages, mem_dump, CopyStep};

fn region(begin: u64, end: u64, read: bool, pathname: &str) -> PageInfo {
    PageInfo {
        begin,
        end,
        perms: Perms { read, write: true, execute: false, shared: false, private: true },
        offset: 0,
        dev: Dev { major: 0, minor: 0 },
        inode: 0,
        pathname: pathname.to_string(),
    }
}

fn step(source: u64, length: u64, target: u64) -> CopyStep {
    CopyStep { source, length, target }
}

/// Runs a plan on a memory in which the byte at address `a` is `a % 251`, and returns the
/// output: `None` where nothing was written.
fn run(plan: &[CopyStep], size: usize) -> Vec<Option<u8>> {
    let mut out: Vec<Option<u8>> = vec![None; size];
    for s in plan {
        for k in 0..s.length {
            out[(s.target + k) as usize] = Some(((s.source + k) % 251) as u8);
        }
    }
    out
}

#[test]
fn range_inside_one_region() {
    let maps = vec![region(0x1000, 0x2000, true, "")];
    let plan = mem_dump(&maps, 0x1500, 0x1800).unwrap();
    assert_eq!(plan, vec![step(0x1500, 0x300, 0)]);
    assert_eq!(plan.len(), 1);
}

#[test]
fn range_must_not_be_empty() {
    let maps = vec![region(0x1000, 0x2000, true, "")];
    assert_eq!(
        mem_dump(&maps, 0x1800, 0x1800),
        Err(Error::InvalidRange { begin: 0x1800, end: 0x1800 })
    );
    assert_eq!(
        mem_dump(&maps, 0x1800, 0x1500),
        Err(Error::InvalidRange { begin: 0x1800, end: 0x1500 })
    );
    assert_eq!(mem_dump(&[].to_vec(), 5, 5), Err(Error::InvalidRange { begin: 5, end: 5 }));
    assert_eq!(
        mem_dump(&maps, u64::MAX, 0),
        Err(Error::InvalidRange { begin: u64::MAX, end: 0 })
    );
}

#[test]
fn range_must_begin_in_a_region() {
    let maps = vec![region(0x1000, 0x2000, true, ""), region(0x3000, 0x4000, true, "")];
    assert_eq!(mem_dump(&maps, 0x500, 0x1800), Err(Error::AddressOutOfRange { address: 0x500 }));
    assert_eq!(
        mem_dump(&maps, 0x2000, 0x3800),
        Err(Error::AddressOutOfRange { address: 0x2000 })
    );
    assert_eq!(
        mem_dump(&Vec::new(), 0x500, 0x1800),
        Err(Error::AddressOutOfRange { address: 0x500 })
    );
}

#[test]
fn range_skips_unreadable_regions() {
    let maps = vec![
        region(0x1000, 0x2000, true, ""),
        region(0x2000, 0x3000, false, ""),
        region(0x3000, 0x4000, true, ""),
        region(0x8000, 0x9000, true, ""),
    ];
    let plan = mem_dump(&maps, 0x1800, 0x3800).unwrap();
    assert_eq!(plan, vec![step(0x1800, 0x800, 0), step(0x3000, 0x800, 0x1800)]);
    assert_eq!(plan.len(), 2);
}

#[test]
fn range_that_begins_in_an_unreadable_region() {
    let maps = vec![region(0x1000, 0x2000, false, ""), region(0x2000, 0x3000, true, "")];
    assert_eq!(mem_dump(&maps, 0x1800, 0x2800).unwrap(), vec![step(0x2000, 0x800, 0x800)]);
    assert_eq!(mem_dump(&maps, 0x1800, 0x1900).unwrap(), Vec::<CopyStep>::new());
}

#[test]
fn range_stops_at_the_first_region_past_its_end() {
    let maps = vec![
        region(0x1000, 0x2000, true, ""),
        region(0x2000, 0x3000, true, ""),
        region(0x3000, 0x4000, true, ""),
    ];
    assert_eq!(
        mem_dump(&maps, 0x1000, 0x3000).unwrap(),
        vec![step(0x1000, 0x1000, 0), step(0x2000, 0x1000, 0x1000)]
    );
    assert_eq!(
        mem_dump(&maps, 0x1fff, 0x3001).unwrap(),
        vec![step(0x1fff, 1, 0), step(0x2000, 0x1000, 1), step(0x3000, 1, 0x1001)]
    );
    assert_eq!(
        mem_dump(&maps, 0x2000, u64::MAX).unwrap(),
        vec![step(0x2000, 0x1000, 0), step(0x3000, 0x1000, 0x1000)]
    );
}

#[test]
fn range_output_mirrors_memory() {
    let maps = vec![
        region(0x10, 0x20, true, ""),
        region(0x20, 0x28, false, ""),
        region(0x30, 0x40, true, ""),
        region(0x40, 0x50, true, ""),
    ];
    let (begin, end) = (0x18u64, 0x48u64);
    let plan = mem_dump(&maps, begin, end).unwrap();
    let out = run(&plan, (end - begin) as usize);
    for o in 0..(end - begin) {
        let address = begin + o;
        let readable = maps.iter().any(|r| r.perms.read && r.begin <= address && address < r.end);
        let expected = if readable { Some((address % 251) as u8) } else { None };
        assert_eq!(out[o as usize], expected);
    }
    assert_eq!(plan.len(), 3);
}

#[test]
fn range_on_a_parsed_listing() {
    let maps = read_maps(
        "00001000-00002000 rw-p 00000000 00:00 0 \n\
         00002000-00003000 ---p 00000000 00:00 0 \n\
         00003000-00004000 r--p 00000000 08:01 7 /lib/x\n",
    )
    .unwrap();
    assert_eq!(
        mem_dump(&maps, 0x1000, 0x4000).unwrap(),
        vec![step(0x1000, 0x1000, 0), step(0x3000, 0x1000, 0x2000)]
    );
}

#[test]
fn selection_keeps_the_layout() {
    let plan = dump_pages(vec![
        region(0x9000, 0x9200, true, "libfoo.so"),
        region(0x7000, 0x8000, true, "libfoo.so"),
    ]);
    assert_eq!(plan, vec![step(0x7000, 0x1000, 0), step(0x9000, 0x200, 0x2000)]);
}

#[test]
fn selection_empty_is_empty_plan() {
    assert_eq!(dump_pages(Vec::new()), Vec::<CopyStep>::new());
}

#[test]
fn selection_skips_unreadable_but_keeps_base() {
    let plan = dump_pages(vec![
        region(0x5000, 0x6000, true, "a"),
        region(0x1000, 0x2000, false, "a"),
        region(0x3000, 0x3800, true, "a"),
    ]);
    assert_eq!(plan, vec![step(0x3000, 0x800, 0x2000), step(0x5000, 0x1000, 0x4000)]);
}

#[test]
fn selection_sort_is_stable() {
    let plan = dump_pages(vec![
        region(0x2000, 0x3000, true, "a"),
        region(0x1000, 0x1800, true, "a"),
        region(0x2000, 0x2800, true, "a"),
        region(0x1000, 0x2000, true, "a"),
    ]);
    assert_eq!(
        plan,
        vec![
            step(0x1000, 0x800, 0),
            step(0x1000, 0x1000, 0),
            step(0x2000, 0x1000, 0x1000),
            step(0x2000, 0x800, 0x1000),
        ]
    );
}

#[test]
fn library_image_from_two_mappings() {
    let maps = vec![
        region(0x7000, 0x8000, true, "libfoo.so"),
        region(0x8000, 0x9000, true, ""),
        region(0x9000, 0x9200, true, "libfoo.so"),
    ];
    let plan = dump_library(&maps, "libfoo.so").unwrap();
    assert_eq!(plan, vec![step(0x7000, 0x1000, 0), step(0x9000, 0x200, 0x2000)]);
    assert_eq!(plan.len(), 2);
    let out = run(&plan, 0x2200);
    assert!(out[..0x1000].iter().all(|b| b.is_some()));
    assert!(out[0x1000..0x2000].iter().all(|b| b.is_none()));
    assert!(out[0x2000..].iter().all(|b| b.is_some()));
}

#[test]
fn library_name_must_match_exactly() {
    let maps = vec![
        region(0x7000, 0x8000, true, "/system/lib/libfoo.so"),
        region(0x9000, 0x9200, true, "libfoo.so.1"),
    ];
    assert_eq!(
        dump_library(&maps, "libfoo.so"),
        Err(Error::LibraryNotMapped { name: "libfoo.so".to_string() })
    );
    assert_eq!(
        dump_library(&maps, "/system/lib/libfoo.so").unwrap(),
        vec![step(0x7000, 0x1000, 0)]
    );
    assert_eq!(
        dump_library(&Vec::new(), ""),
        Err(Error::LibraryNotMapped { name: String::new() })
    );
}

#[test]
fn error_messages() {
    assert_eq!(
        Error::InvalidRange { begin: 0x20, end: 0x10 }.message(),
        "Invalid begin-end range: 0x20-0x10"
    );
    assert_eq!(
        Error::AddressOutOfRange { address: 0x500 }.message(),
        "begin address out of range: 0x500"
    );
    assert_eq!(
        Error::MalformedListing { line: "bad line".to_string() }.message(),
        "malformed listing: bad line"
    );
    assert_eq!(
        Error::LibraryNotMapped { name: "libfoo.so".to_string() }.message(),
        "library not mapped: libfoo.so"
    );
    assert_eq!(
        Error::ProcessNotFound { detail: "x".to_string() }.message(),
        "process not found: x"
    );
    assert_eq!(Error::IOError { detail: "broken pipe".to_string() }.message(), "broken pipe");
}
