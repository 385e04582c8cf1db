//! Copying lines, with numbers before them where asked for.

use crate::decimal::{decimal_repr, render};
use crate::text::{align_right, push_char, push_chars, right_aligned};
use vstd::prelude::*;
use vstd::string::StringExecFns;

verus! {

/// The settings of one run.
#[derive(Debug)]
pub struct Config {
    /// The files to copy, in order; `-` is the standard input.
    pub files: Vec<String>,
    /// Number every line.
    pub number_lines: bool,
    /// Number the lines that are not empty.
    pub number_nonblank_lines: bool,
}

/// A line with its number: the number at the right edge of six places, a
/// tab, the line.
pub open spec fn numbered(n: nat, line: Seq<char>) -> Seq<char> {
    right_aligned(decimal_repr(n), 6) + seq!['\t'] + line
}

/// Whether the line gets a number under these settings.
pub open spec fn takes_number(config: &Config, line: Seq<char>) -> bool {
    config.number_lines || (config.number_nonblank_lines && line.len() > 0)
}

/// What is printed for a line, when `count` lines of the file have been
/// numbered before it. Numbering every line goes before numbering the lines
/// that are not empty; with neither, the line is copied.
pub open spec fn line_text(config: &Config, count: nat, line: Seq<char>) -> Seq<char> {
    if takes_number(config, line) {
        numbered(count + 1, line)
    } else {
        line
    }
}

/// The text to print for `line`, and how many lines of the file have been
/// numbered once it is printed.
pub fn cat_line(config: &Config, count: usize, line: &str) -> (r: (String, usize))
    requires
        count < usize::MAX,
    ensures
        r.0@ == line_text(config, count as nat, line@),
        r.1 == if takes_number(config, line@) {
            count + 1
        } else {
            count as int
        },
{
    let blank: bool = line.unicode_len() == 0;
    if config.number_lines || (config.number_nonblank_lines && !blank) {
        let digits = render((count + 1) as u64);
        let cell = align_right(digits.as_slice(), 6);
        let mut out = String::new();
        push_chars(&mut out, cell.as_slice());
        push_char(&mut out, '\t');
        out.append(line);
        assert(out@ =~= numbered((count + 1) as nat, line@));
        (out, count + 1)
    } else {
        (String::from_str(line), count)
    }
}

/// The complaint about a file that cannot be opened.
pub open spec fn open_failure_text(filename: Seq<char>, reason: Seq<char>) -> Seq<char> {
    "Failed to open "@ + filename + ": "@ + reason
}

/// The complaint about a file that cannot be opened.
pub fn open_failure(filename: &str, reason: &str) -> (s: String)
    ensures
        s@ == open_failure_text(filename@, reason@),
{
    let mut s = String::from_str("Failed to open ");
    s.append(filename);
    s.append(": ");
    s.append(reason);
    s
}

/// Numbers count up by one from one: the line after a numbered line gets
/// the next number, and a line that gets none leaves the count alone.
pub proof fn numbers_count_up(config: &Config, count: nat, first: Seq<char>, second: Seq<char>)
    requires
        takes_number(config, second),
    ensures
        takes_number(config, first) ==> line_text(config, count + 1, second) == numbered(
            count + 2,
            second,
        ),
        !takes_number(config, first) ==> line_text(config, count, second) == numbered(
            count + 1,
            second,
        ),
{
}

} // verus!
