//! Where the last lines or bytes of a file begin.

use crate::decimal::{parse_signed, signed_reading};
use crate::text::{chars_of, decode_lossy, lines_of, split_lines, utf8_lossy, views};
use vstd::prelude::*;
use vstd::string::StringExecFns;

verus! {

/// How much of a file to take.
#[derive(Clone, Copy, Debug, PartialEq, Eq, Structural)]
pub enum TakeValue {
    /// Everything, from the start.
    PlusZero,
    /// From the given line or byte on where positive, counted from one; the
    /// last so many where negative; nothing where zero.
    TakeNum(i64),
}

/// What a text denotes as a number of 64 bits with a sign.
pub open spec fn number_reading(s: Seq<char>) -> Option<int> {
    match signed_reading(s, i64::MIN as int, i64::MAX as int) {
        Ok(v) => Some(v),
        Err(_) => None,
    }
}

/// What a count given to the tool denotes. `+0` is everything. After a
/// plus sign the number counts from the start; a number with a minus sign
/// or with no sign counts from the end.
pub open spec fn take_reading(s: Seq<char>) -> Option<TakeValue> {
    if s =~= seq!['+', '0'] {
        Some(TakeValue::PlusZero)
    } else if s.len() > 0 && s[0] == '+' {
        match number_reading(s.skip(1)) {
            Some(v) => Some(TakeValue::TakeNum(v as i64)),
            None => None,
        }
    } else if s.len() > 0 && s[0] == '-' {
        match number_reading(s) {
            Some(v) => Some(TakeValue::TakeNum(v as i64)),
            None => None,
        }
    } else {
        match number_reading(s) {
            Some(v) => Some(TakeValue::TakeNum((-v) as i64)),
            None => None,
        }
    }
}

/// Reads a count given to the tool. A text that denotes none comes back as
/// the error.
pub fn parse_num(val: &str) -> (r: Result<TakeValue, String>)
    ensures
        match take_reading(val@) {
            Some(t) => r == Ok::<TakeValue, String>(t),
            None => r is Err && r->Err_0@ == val@,
        },
{
    let chars = chars_of(val);
    let n: usize = chars.len();
    if n == 2 && chars[0] == '+' && chars[1] == '0' {
        assert(val@ =~= seq!['+', '0']);
        return Ok(TakeValue::PlusZero);
    }
    if n > 0 && chars[0] == '+' {
        let rest: &[char] = vstd::slice::slice_subrange(chars.as_slice(), 1, n);
        assert(rest@ =~= val@.skip(1));
        match parse_signed(rest, i64::MIN, i64::MAX) {
            Ok(v) => Ok(TakeValue::TakeNum(v)),
            Err(_) => Err(String::from_str(val)),
        }
    } else if n > 0 && chars[0] == '-' {
        match parse_signed(chars.as_slice(), i64::MIN, i64::MAX) {
            Ok(v) => Ok(TakeValue::TakeNum(v)),
            Err(_) => Err(String::from_str(val)),
        }
    } else {
        match parse_signed(chars.as_slice(), i64::MIN, i64::MAX) {
            Ok(v) => {
                proof {
                    crate::decimal::unsigned_text_is_not_negative(
                        val@,
                        i64::MIN as int,
                        i64::MAX as int,
                    );
                }
                Ok(TakeValue::TakeNum(-v))
            },
            Err(_) => Err(String::from_str(val)),
        }
    }
}

/// Where to start in a file of `total` lines or bytes, counted from zero,
/// or nothing where nothing is to be shown.
pub open spec fn start_index(take: TakeValue, total: int) -> Option<int> {
    match take {
        TakeValue::PlusZero => if total > 0 {
            Some(0)
        } else {
            None
        },
        TakeValue::TakeNum(n) => if n == 0 {
            None
        } else if n < 0 {
            if total + n > 0 {
                Some(total + n)
            } else {
                Some(0)
            }
        } else if total < n {
            None
        } else {
            Some(n - 1)
        },
    }
}

/// Where to start in a file of `total` lines or bytes.
pub fn get_start_index(take_val: &TakeValue, total: i64) -> (r: Option<u64>)
    ensures
        match start_index(*take_val, total as int) {
            Some(i) => r == Some(i as u64) && 0 <= i <= u64::MAX,
            None => r is None,
        },
{
    match take_val {
        TakeValue::PlusZero => {
            if total > 0 {
                Some(0)
            } else {
                None
            }
        },
        TakeValue::TakeNum(n) => {
            let n: i64 = *n;
            if n == 0 {
                None
            } else if n < 0 {
                if total > 0 && total + n > 0 {
                    Some((total + n) as u64)
                } else {
                    Some(0)
                }
            } else if total < n {
                None
            } else {
                Some((n - 1) as u64)
            }
        },
    }
}

/// The start lies inside the file: whenever there is something to show, it
/// begins before the end.
pub proof fn start_is_inside(take: TakeValue, total: int)
    requires
        start_index(take, total) is Some,
    ensures
        0 <= start_index(take, total)->Some_0,
        total > 0 ==> start_index(take, total)->Some_0 < total,
{
}

/// The settings of one run.
#[derive(Debug)]
pub struct Config {
    /// The files to show, in order.
    pub files: Vec<String>,
    /// How many lines to show of each.
    pub lines: TakeValue,
    /// How many bytes to show of each, instead of lines.
    pub bytes: Option<TakeValue>,
    /// Leave the headings out.
    pub quiet: bool,
}

impl Config {
    /// Settings from what was given on the command line. The line count is
    /// looked at before the byte count.
    pub fn new(files: Vec<String>, lines: &str, bytes: Option<&str>, quiet: bool) -> (r: Result<
        Config,
        String,
    >)
        ensures
            take_reading(lines@) is None ==> r is Err && r->Err_0@ == "illegal line count -- "@
                + lines@,
            take_reading(lines@) is Some && bytes is Some && take_reading(bytes->Some_0@) is None
                ==> r is Err && r->Err_0@ == "illegal byte count -- "@ + bytes->Some_0@,
            take_reading(lines@) is Some && (bytes is Some ==> take_reading(bytes->Some_0@)
                is Some) ==> {
                &&& r is Ok
                &&& r->Ok_0.files == files
                &&& r->Ok_0.quiet == quiet
                &&& r->Ok_0.lines == take_reading(lines@)->Some_0
                &&& r->Ok_0.bytes is Some == bytes is Some
                &&& bytes is Some ==> r->Ok_0.bytes->Some_0 == take_reading(bytes->Some_0@)->Some_0
            },
    {
        let lines: TakeValue = match parse_num(lines) {
            Ok(n) => n,
            Err(val) => {
                let mut msg = String::from_str("illegal line count -- ");
                msg.append(val.as_str());
                return Err(msg);
            },
        };
        let bytes: Option<TakeValue> = match bytes {
            None => None,
            Some(text) => match parse_num(text) {
                Ok(n) => Some(n),
                Err(val) => {
                    let mut msg = String::from_str("illegal byte count -- ");
                    msg.append(val.as_str());
                    return Err(msg);
                },
            },
        };
        Ok(Config { files, lines, bytes, quiet })
    }

    /// Whether each file's part of the output gets a heading: where more
    /// than one file is shown, unless headings are left out.
    pub fn shows_headers(&self) -> (b: bool)
        ensures
            b == (!self.quiet && self.files@.len() > 1),
    {
        !self.quiet && self.files.len() > 1
    }
}

/// The number of lines and the number of bytes of `data`.
pub fn count_lines_bytes(data: &[u8]) -> (r: (i64, i64))
    requires
        data@.len() <= i64::MAX,
    ensures
        r.0 == lines_of(data@).len(),
        r.1 == data@.len(),
{
    let mut line_num: i64 = 0;
    let mut open: bool = false;
    let mut i: usize = 0;
    while i < data.len()
        invariant
            0 <= i <= data@.len(),
            data@.len() <= i64::MAX,
            0 <= line_num <= i,
            line_num == crate::text::closed_lines(data@.take(i as int)).len(),
            open == (crate::text::open_line(data@.take(i as int)).len() > 0),
            open ==> line_num < i,
        decreases data@.len() - i,
    {
        proof {
            let next = data@.take(i + 1);
            assert(next.drop_last() =~= data@.take(i as int));
            assert(next.last() == data@[i as int]);
        }
        if data[i] == 10u8 {
            line_num = line_num + 1;
            open = false;
        } else {
            open = true;
        }
        i = i + 1;
    }
    assert(data@.take(i as int) =~= data@);
    if open {
        line_num = line_num + 1;
    }
    (line_num, data.len() as i64)
}

/// The lines from index `start` on, or none where there are not so many.
pub open spec fn lines_from(lines: Seq<Seq<u8>>, start: int) -> Seq<Seq<u8>> {
    if 0 <= start < lines.len() {
        lines.skip(start)
    } else {
        Seq::empty()
    }
}

/// What is shown of `data` by lines: the lines from the start index on, each
/// decoded leniently, or nothing where there is no start index.
pub open spec fn shown_lines(data: Seq<u8>, take: TakeValue, total: int) -> Seq<Seq<u8>> {
    match start_index(take, total) {
        Some(start) => lines_from(lines_of(data), start),
        None => Seq::empty(),
    }
}

/// The lines of `data` to print, given that it has `total_lines` lines.
pub fn print_lines(data: &[u8], num_lines: &TakeValue, total_lines: i64) -> (out: Vec<String>)
    ensures
        out@.len() == shown_lines(data@, *num_lines, total_lines as int).len(),
        forall|k: int|
            0 <= k < out@.len() ==> (#[trigger] out@[k])@ == utf8_lossy(
                shown_lines(data@, *num_lines, total_lines as int)[k],
            ),
{
    let mut out: Vec<String> = Vec::new();
    match get_start_index(num_lines, total_lines) {
        None => {},
        Some(start) => {
            let lines = split_lines(data);
            if start < lines.len() as u64 {
                let first: usize = start as usize;
                let mut i: usize = first;
                while i < lines.len()
                    invariant
                        first <= i <= lines@.len(),
                        out@.len() == i - first,
                        forall|k: int|
                            0 <= k < out@.len() ==> (#[trigger] out@[k])@ == utf8_lossy(
                                lines@[first + k]@,
                            ),
                    decreases lines@.len() - i,
                {
                    out.push(decode_lossy(lines[i].as_slice()));
                    i = i + 1;
                }
                proof {
                    let shown = shown_lines(data@, *num_lines, total_lines as int);
                    assert(shown == views(lines@).skip(first as int));
                    assert forall|k: int| 0 <= k < out@.len() implies (#[trigger] out@[k])@
                        == utf8_lossy(shown[k]) by {
                        assert(shown[k] == views(lines@)[first + k]);
                    }
                }
            }
        },
    }
    out
}

/// What is shown of `data` by bytes: the bytes from the start index on,
/// decoded leniently, or nothing where there is no start index or nothing
/// after it.
pub open spec fn shown_bytes(data: Seq<u8>, take: TakeValue, total: int) -> Option<Seq<u8>> {
    match start_index(take, total) {
        Some(start) => if start < data.len() {
            Some(data.skip(start))
        } else {
            None
        },
        None => None,
    }
}

/// The end of `data` to print, given that it has `total_bytes` bytes.
pub fn print_bytes(data: &[u8], num_bytes: &TakeValue, total_bytes: i64) -> (out: Option<String>)
    ensures
        match shown_bytes(data@, *num_bytes, total_bytes as int) {
            Some(bytes) => out is Some && out->Some_0@ == utf8_lossy(bytes),
            None => out is None,
        },
{
    match get_start_index(num_bytes, total_bytes) {
        None => None,
        Some(start) => {
            if start < data.len() as u64 {
                let rest: &[u8] = vstd::slice::slice_subrange(data, start as usize, data.len());
                assert(rest@ =~= data@.skip(start as int));
                Some(decode_lossy(rest))
            } else {
                None
            }
        },
    }
}

/// The heading of a file's part of the output: the name between arrows,
/// after an empty line unless the file is the first.
pub fn header(file_num: usize, filename: &str) -> (s: String)
    ensures
        s@ == crate::headr::header_text(file_num as nat, filename@),
{
    crate::headr::header(file_num, filename)
}

/// Taken with the counts of the file itself, the last lines are the last
/// lines: asking for the last `n` of a file with more than `n` lines shows
/// exactly `n` lines, and asking for more shows them all.
pub proof fn last_lines_are_counted(data: Seq<u8>, n: i64)
    requires
        n > 0,
    ensures
        ({
            let total = lines_of(data).len() as int;
            let shown = shown_lines(data, TakeValue::TakeNum((-n) as i64), total);
            &&& total > n ==> shown.len() == n
            &&& 0 < total <= n ==> shown == lines_of(data)
        }),
{
    let total = lines_of(data).len() as int;
    if 0 < total <= n {
        assert(lines_of(data).skip(0) =~= lines_of(data));
    }
}

} // verus!
