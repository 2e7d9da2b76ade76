use crate::number::{number_text, push_number};
use vstd::prelude::*;
use vstd::string::StringExecFns;

verus! {

/// Why an operation on a process's address space failed.
#[derive(Debug, PartialEq, Eq)]
pub enum Error {
    /// The process could not be identified, or its listing or memory could not be opened.
    ProcessNotFound { detail: String },
    /// A line of the listing does not have the form of a mapping record.
    MalformedListing { line: String },
    /// The requested range `[begin, end)` is empty or inverted.
    InvalidRange { begin: u64, end: u64 },
    /// The address lies in no mapped region.
    AddressOutOfRange { address: u64 },
    /// No mapping is backed by a file of this name.
    LibraryNotMapped { name: String },
    /// Reading, writing or seeking failed.
    IOError { detail: String },
}

/// The error in words, with what it carries.
pub open spec fn message_text(e: Error) -> Seq<char> {
    match e {
        Error::ProcessNotFound { detail } => "process not found: "@ + detail@,
        Error::MalformedListing { line } => "malformed listing: "@ + line@,
        Error::InvalidRange { begin, end } => "Invalid begin-end range: 0x"@ + number_text(
            begin as nat,
            16,
        ) + "-0x"@ + number_text(end as nat, 16),
        Error::AddressOutOfRange { address } => "begin address out of range: 0x"@ + number_text(
            address as nat,
            16,
        ),
        Error::LibraryNotMapped { name } => "library not mapped: "@ + name@,
        Error::IOError { detail } => detail@,
    }
}

impl Error {
    /// The error in words, for people to read.
    pub fn message(&self) -> (text: String)
        ensures
            text@ == message_text(*self),
    {
        match self {
            Error::ProcessNotFound { detail } => {
                String::from_str("process not found: ").concat(detail.as_str())
            },
            Error::MalformedListing { line } => {
                String::from_str("malformed listing: ").concat(line.as_str())
            },
            Error::InvalidRange { begin, end } => {
                let mut text = String::from_str("Invalid begin-end range: 0x");
                push_number(&mut text, *begin, 16);
                text.append("-0x");
                push_number(&mut text, *end, 16);
                text
            },
            Error::AddressOutOfRange { address } => {
                let mut text = String::from_str("begin address out of range: 0x");
                push_number(&mut text, *address, 16);
                text
            },
            Error::LibraryNotMapped { name } => {
                String::from_str("library not mapped: ").concat(name.as_str())
            },
            Error::IOError { detail } => detail.clone(),
        }
    }
}

} // verus!
