//! Counts for the first lines or bytes of a file.

use crate::decimal::{parse_unsigned, unsigned_reading};
use crate::text::{chars_of, decode_lossy, utf8_lossy};
use vstd::prelude::*;
use vstd::string::StringExecFns;

verus! {

/// What a text denotes as a count: a number above zero that fits the
/// machine word, written as digits after an optional plus sign.
pub open spec fn count_reading(s: Seq<char>) -> Option<nat> {
    match unsigned_reading(s, usize::MAX as nat) {
        Ok(n) => if n > 0 {
            Some(n)
        } else {
            None
        },
        Err(_) => None,
    }
}

/// Reads `val` as a count above zero. A text that denotes none comes back
/// as the error.
pub fn parse_positive_int(val: &str) -> (r: Result<usize, String>)
    ensures
        match count_reading(val@) {
            Some(n) => r == Ok::<usize, String>(n as usize),
            None => r is Err && r->Err_0@ == val@,
        },
{
    let chars = chars_of(val);
    match parse_unsigned(chars.as_slice(), usize::MAX as u64) {
        Ok(n) => {
            if n > 0 {
                Ok(n as usize)
            } else {
                Err(String::from_str(val))
            }
        },
        Err(_) => Err(String::from_str(val)),
    }
}

/// The settings of one run.
#[derive(Debug)]
pub struct Config {
    /// The files to show, in order; `-` is the standard input.
    pub files: Vec<String>,
    /// How many lines to show of each.
    pub lines: usize,
    /// How many bytes to show of each, instead of lines.
    pub bytes: Option<usize>,
}

/// The complaint about a line count that is none.
pub open spec fn bad_line_count(val: Seq<char>) -> Seq<char> {
    "illegal line count -- "@ + val
}

/// The complaint about a byte count that is none.
pub open spec fn bad_byte_count(val: Seq<char>) -> Seq<char> {
    "illegal byte count -- "@ + val
}

impl Config {
    /// Settings from what was given on the command line. The line count is
    /// looked at before the byte count.
    pub fn new(files: Vec<String>, lines: &str, bytes: Option<&str>) -> (r: Result<Config, String>)
        ensures
            count_reading(lines@) is None ==> r is Err && r->Err_0@ == bad_line_count(lines@),
            count_reading(lines@) is Some && bytes is Some && count_reading(bytes->Some_0@) is None
                ==> r is Err && r->Err_0@ == bad_byte_count(bytes->Some_0@),
            count_reading(lines@) is Some && (bytes is Some ==> count_reading(bytes->Some_0@)
                is Some) ==> {
                &&& r is Ok
                &&& r->Ok_0.files == files
                &&& r->Ok_0.lines == count_reading(lines@)->Some_0
                &&& r->Ok_0.bytes is Some == bytes is Some
                &&& bytes is Some ==> r->Ok_0.bytes->Some_0 == count_reading(
                    bytes->Some_0@,
                )->Some_0
            },
    {
        let lines: usize = match parse_positive_int(lines) {
            Ok(n) => n,
            Err(val) => {
                let mut msg = String::from_str("illegal line count -- ");
                msg.append(val.as_str());
                return Err(msg);
            },
        };
        let bytes: Option<usize> = match bytes {
            None => None,
            Some(text) => match parse_positive_int(text) {
                Ok(n) => Some(n),
                Err(val) => {
                    let mut msg = String::from_str("illegal byte count -- ");
                    msg.append(val.as_str());
                    return Err(msg);
                },
            },
        };
        Ok(Config { files, lines, bytes })
    }
}

/// The heading of a file's part of the output: the name between arrows,
/// after an empty line unless the file is the first.
pub open spec fn header_text(file_num: nat, filename: Seq<char>) -> Seq<char> {
    if file_num > 0 {
        "\n"@ + "==> "@ + filename + " <=="@
    } else {
        "==> "@ + filename + " <=="@
    }
}

/// The heading of a file's part of the output.
pub fn header(file_num: usize, filename: &str) -> (s: String)
    ensures
        s@ == header_text(file_num as nat, filename@),
{
    let mut s = String::new();
    if file_num > 0 {
        s.append("\n");
    }
    s.append("==> ");
    s.append(filename);
    s.append(" <==");
    assert(s@ =~= header_text(file_num as nat, filename@));
    s
}

/// The first `limit` bytes of `data`, or all of it where it is shorter.
pub open spec fn leading_bytes(data: Seq<u8>, limit: nat) -> Seq<u8> {
    if limit < data.len() {
        data.take(limit as int)
    } else {
        data
    }
}

/// The first `limit` bytes of `data`, decoded leniently.
pub fn head_bytes(data: &[u8], limit: usize) -> (s: String)
    ensures
        s@ == utf8_lossy(leading_bytes(data@, limit as nat)),
{
    if limit < data.len() {
        let part: &[u8] = vstd::slice::slice_subrange(data, 0, limit);
        assert(part@ =~= data@.take(limit as int));
        decode_lossy(part)
    } else {
        decode_lossy(data)
    }
}

/// The complaint about a file that cannot be opened.
pub fn open_failure(filename: &str, reason: &str) -> (s: String)
    ensures
        s@ == "head: "@ + filename@ + ": "@ + reason@,
{
    let mut s = String::from_str("head: ");
    s.append(filename);
    s.append(": ");
    s.append(reason);
    s
}

} // verus!
