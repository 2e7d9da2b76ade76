use crate::number::{number_value, parse_number};
use crate::proc::error::Error;
use crate::proc::line::{after, before, find_in};
use crate::text::{chars_of, lemma_find_from_is_first, string_from_utf8, string_of};
use vstd::prelude::*;
use vstd::slice::slice_to_vec;
use vstd::string::StringExecFns;
use vstd::utf8::{decode_utf8, valid_utf8};

verus! {

/// `text` without the line feed that it ends with, if it ends with one.
pub open spec fn strip_line_feed(text: Seq<char>) -> Seq<char> {
    if text.len() > 0 && text.last() == '\n' {
        text.drop_last()
    } else {
        text
    }
}

/// Reads the identifier of a process from what the lookup of its name printed: one
/// decimal number of 64 bits, and a line feed after it or none.
///
/// Anything else names no process, and is handed back in `ProcessNotFound`.
pub fn package_pid(output: &str) -> (r: Result<u64, Error>)
    ensures
        match r {
            Ok(pid) => number_value(strip_line_feed(output@), 10, u64::MAX as int) == Some(
                pid as int,
            ),
            Err(Error::ProcessNotFound { detail }) => number_value(
                strip_line_feed(output@),
                10,
                u64::MAX as int,
            ) is None && detail@ == output@,
            Err(_) => false,
        },
{
    let chars = chars_of(output);
    let n = chars.len();
    let end = if n > 0 && chars[n - 1] == '\n' {
        n - 1
    } else {
        n
    };
    assert(chars@.subrange(0, end as int) =~= strip_line_feed(output@));
    match parse_number(&chars, 0, end, 10, u64::MAX) {
        Some(pid) => Ok(pid),
        None => Err(Error::ProcessNotFound { detail: output.to_owned() }),
    }
}

/// The identifier that a lookup found, if it found one: the lookup succeeded, and what it
/// printed is UTF-8 and one decimal number of 64 bits, with a line feed after it or none.
pub open spec fn found_pid(success: bool, output: Seq<u8>) -> Option<int> {
    if success && valid_utf8(output) {
        number_value(strip_line_feed(decode_utf8(output)), 10, u64::MAX as int)
    } else {
        None
    }
}

/// What `ProcessNotFound` says where the lookup of `package` found no identifier: that
/// the package is not running where the lookup failed; that the output is no text where
/// it is not UTF-8; else the output as it was printed.
pub open spec fn lookup_failure(package: Seq<char>, success: bool, output: Seq<u8>) -> Seq<char> {
    if !success {
        package + " not running or not exist"@
    } else if !valid_utf8(output) {
        "invalid utf-8 in the process identifier"@
    } else {
        decode_utf8(output)
    }
}

/// Reads the identifier of the process of `package` from the outcome of its lookup:
/// whether the lookup succeeded, and the bytes that it printed.
///
/// A lookup that failed, printed bytes that are not UTF-8, or printed anything but one
/// number found no process, and `ProcessNotFound` says which of these it was.
pub fn lookup_pid(package: &str, success: bool, output: &[u8]) -> (r: Result<u64, Error>)
    ensures
        match r {
            Ok(pid) => found_pid(success, output@) == Some(pid as int),
            Err(Error::ProcessNotFound { detail }) => found_pid(success, output@) is None
                && detail@ == lookup_failure(package@, success, output@),
            Err(_) => false,
        },
{
    if !success {
        let detail = package.to_owned().concat(" not running or not exist");
        return Err(Error::ProcessNotFound { detail });
    }
    match string_from_utf8(slice_to_vec(output)) {
        Some(text) => package_pid(text.as_str()),
        None => Err(
            Error::ProcessNotFound {
                detail: String::from_str("invalid utf-8 in the process identifier"),
            },
        ),
    }
}

/// The arguments of a command line: the pieces between its zero characters, without
/// those that are empty.
pub open spec fn arguments_of(raw: Seq<char>) -> Seq<Seq<char>>
    decreases raw.len(),
    via arguments_of_decreases
{
    if raw.len() == 0 {
        Seq::empty()
    } else if before(raw, '\0').len() == 0 {
        arguments_of(after(raw, '\0'))
    } else {
        seq![before(raw, '\0')] + arguments_of(after(raw, '\0'))
    }
}

#[via_fn]
proof fn arguments_of_decreases(raw: Seq<char>) {
    lemma_find_from_is_first(raw, '\0', 0);
}

/// The texts of the strings, in order.
pub open spec fn texts(strings: Seq<String>) -> Seq<Seq<char>> {
    strings.map_values(|s: String| s@)
}

/// Splits the command line of a process, as the system hands it out, into its arguments.
///
/// A zero character ends each argument. Empty pieces are left out, so that the zero
/// characters at the end of the command line give no argument.
pub fn command_line(raw: &str) -> (arguments: Vec<String>)
    ensures
        texts(arguments@) == arguments_of(raw@),
{
    let chars = chars_of(raw);
    let n = chars.len();
    let mut arguments: Vec<String> = Vec::new();
    let mut pos: usize = 0;
    assert(chars@.subrange(0, n as int) =~= raw@);
    while pos < n
        invariant
            pos <= n == chars.len(),
            arguments_of(raw@) == texts(arguments@) + arguments_of(
                chars@.subrange(pos as int, n as int),
            ),
        decreases n - pos,
    {
        let end = find_in(&chars, '\0', pos, n);
        let next = if end < n {
            end + 1
        } else {
            n
        };
        proof {
            if end >= n {
                assert(chars@.subrange(n as int, n as int) =~= Seq::<char>::empty());
            }
        }
        if end > pos {
            arguments.push(string_of(&chars, pos, end));
        }
        pos = next;
    }
    arguments
}

} // verus!
