use satori::number::{digit_of, char_of_digit};
use satori::proc::line::parse_line;
use satori::proc::maps::{Dev, PageInfo, Perms};
use satori::proc::utils::{command_line, lookup_pid, package_pid};
use satori::proc::error::Error;
use satori::text::{chars_between, chars_of, string_of};

#[test]
fn perms_to_text() {
    let all = Perms { read: true, write: true, execute: true, shared: true, private: false };
    assert_eq!(all.to_text(), "rwxs");
    let none = Perms { read: false, write: false, execute: false, shared: false, private: false };
    assert_eq!(none.to_text(), "----");
    let private = Perms { read: true, write: false, execute: true, shared: false, private: true };
    assert_eq!(private.to_text(), "r-xp");
    let both = Perms { read: false, write: true, execute: false, shared: true, private: true };
    assert_eq!(both.to_text(), "-w-s");
}

#[test]
fn dev_to_text() {
    assert_eq!(Dev { major: 0, minor: 0 }.to_text(), "00:00");
    assert_eq!(Dev { major: 8, minor: 0x1f }.to_text(), "08:1f");
    assert_eq!(Dev { major: 0x103, minor: 0xfd }.to_text(), "103:fd");
    assert_eq!(Dev { major: u32::MAX, minor: 16 }.to_text(), "ffffffff:10");
}

#[test]
fn page_info_to_text() {
    let info = PageInfo {
        begin: 0x7f5c8a400000,
        end: 0x7f5c8a5b5000,
        perms: Perms { read: true, write: false, execute: true, shared: false, private: true },
        offset: 0x1f000,
        dev: Dev { major: 8, minor: 1 },
        inode: 1835041,
        pathname: "/usr/lib/libc-2.31.so".to_string(),
    };
    assert_eq!(
        info.to_text(),
        "0x7f5c8a400000 0x7f5c8a5b5000 r-xp 0x1f000 08:01 1835041 /usr/lib/libc-2.31.so"
    );
    let anonymous = PageInfo {
        begin: 0,
        end: u64::MAX,
        perms: Perms { read: true, write: true, execute: false, shared: false, private: true },
        offset: 0,
        dev: Dev { major: 0, minor: 0 },
        inode: 0,
        pathname: String::new(),
    };
    assert_eq!(anonymous.to_text(), "0x0 0xffffffffffffffff rw-p 0x0 00:00 0 ");
}

#[test]
fn parse_then_show_keeps_an_empty_pathname_empty() {
    for line in [
        "00001000-00002000 rw-p 00000000 00:00 0",
        "00001000-00002000 rw-p 00000000 00:00 0 ",
        "00001000-00002000 rw-p 00000000 00:00 0        ",
    ] {
        let text = parse_line(line).unwrap().to_text();
        assert_eq!(text, "0x1000 0x2000 rw-p 0x0 00:00 0 ");
        let words: Vec<&str> = text.splitn(7, ' ').collect();
        assert_eq!(words[6], "");
    }
    let named = parse_line("00001000-00002000 rw-p 00000000 00:00 0    <anonymous>").unwrap();
    assert_eq!(named.to_text(), "0x1000 0x2000 rw-p 0x0 00:00 0 <anonymous>");
}

#[test]
fn parse_then_show_keeps_range_permissions_and_pathname() {
    let line = "00400000-0040b000 r-xs 00001000 fd:01 393449          /bin/my cat";
    let text = parse_line(line).unwrap().to_text();
    assert_eq!(text, "0x400000 0x40b000 r-xs 0x1000 fd:01 393449 /bin/my cat");
    let words: Vec<&str> = text.splitn(7, ' ').collect();
    assert_eq!(u64::from_str_radix(&words[0][2..], 16), Ok(0x400000));
    assert_eq!(u64::from_str_radix(&words[1][2..], 16), Ok(0x40b000));
    assert_eq!(words[2], "r-xs");
    assert_eq!(words[6], "/bin/my cat");
}

#[test]
fn digits() {
    assert_eq!(digit_of('0', 10), Some(0));
    assert_eq!(digit_of('9', 10), Some(9));
    assert_eq!(digit_of('a', 10), None);
    assert_eq!(digit_of('a', 16), Some(10));
    assert_eq!(digit_of('F', 16), Some(15));
    assert_eq!(digit_of('g', 16), None);
    assert_eq!(digit_of('/', 16), None);
    assert_eq!(digit_of(':', 16), None);
    assert_eq!(digit_of('@', 16), None);
    assert_eq!(digit_of('G', 16), None);
    assert_eq!(digit_of('`', 16), None);
    assert_eq!(digit_of('٣', 10), None);
    assert_eq!(char_of_digit(0), '0');
    assert_eq!(char_of_digit(9), '9');
    assert_eq!(char_of_digit(10), 'a');
    assert_eq!(char_of_digit(15), 'f');
}

#[test]
fn text_helpers() {
    let chars = chars_of("héllo wörld");
    assert_eq!(chars.len(), 11);
    assert_eq!(chars[1], 'é');
    assert_eq!(string_of(&chars, 6, 11), "wörld");
    assert_eq!(string_of(&chars, 3, 3), "");
    assert_eq!(chars_between(&chars, 0, 2), vec!['h', 'é']);
}

#[test]
fn package_pid_reads_one_number() {
    assert_eq!(package_pid("1234\n"), Ok(1234));
    assert_eq!(package_pid("1234"), Ok(1234));
    assert_eq!(package_pid("18446744073709551615\n"), Ok(u64::MAX));
    assert_eq!(package_pid("0"), Ok(0));
}

#[test]
fn package_pid_refuses_anything_else() {
    for text in ["", "\n", "12 34\n", "1234\n\n", "abc", "18446744073709551616", "-1", "12\r\n"] {
        assert_eq!(package_pid(text), Err(Error::ProcessNotFound { detail: text.to_string() }));
    }
}

#[test]
fn lookup_pid_reads_the_number_of_a_lookup_that_succeeded() {
    assert_eq!(lookup_pid("com.example.app", true, b"1234\n"), Ok(1234));
    assert_eq!(lookup_pid("com.example.app", true, b"1234"), Ok(1234));
    assert_eq!(lookup_pid("", true, b"18446744073709551615\n"), Ok(u64::MAX));
}

#[test]
fn lookup_pid_says_why_no_process_was_found() {
    assert_eq!(
        lookup_pid("com.example.app", false, b"1234\n"),
        Err(Error::ProcessNotFound {
            detail: "com.example.app not running or not exist".to_string()
        })
    );
    assert_eq!(
        lookup_pid("com.example.app", false, b""),
        Err(Error::ProcessNotFound {
            detail: "com.example.app not running or not exist".to_string()
        })
    );
    assert_eq!(
        lookup_pid("com.example.app", true, b"12\xff34\n"),
        Err(Error::ProcessNotFound {
            detail: "invalid utf-8 in the process identifier".to_string()
        })
    );
    assert_eq!(
        lookup_pid("com.example.app", true, b"12 34\n"),
        Err(Error::ProcessNotFound { detail: "12 34\n".to_string() })
    );
    assert_eq!(
        lookup_pid("com.example.app", true, b""),
        Err(Error::ProcessNotFound { detail: String::new() })
    );
    assert_eq!(
        lookup_pid("com.example.app", true, "\u{663}\n".as_bytes()),
        Err(Error::ProcessNotFound { detail: "\u{663}\n".to_string() })
    );
}

#[test]
fn command_line_splits_at_zero_characters() {
    assert_eq!(command_line("ls\0-l\0/tmp\0"), vec!["ls", "-l", "/tmp"]);
    assert_eq!(command_line("ls\0-l\0/tmp"), vec!["ls", "-l", "/tmp"]);
    assert_eq!(command_line("com.example.app\0\0"), vec!["com.example.app"]);
    assert_eq!(command_line("\0a\0\0b c\0"), vec!["a", "b c"]);
    assert_eq!(command_line(""), Vec::<String>::new());
    assert_eq!(command_line("\0\0"), Vec::<String>::new());
}
