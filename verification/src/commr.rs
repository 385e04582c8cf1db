//! Comparing two sorted files line by line: what is in the first only, in
//! the second only, and in both.

use vstd::prelude::*;
use vstd::string::StringExecFns;
use vstd::string::StringSliceAdditionalSpecFns;

verus! {

/// The settings of one run.
#[derive(Debug)]
pub struct Config {
    pub file1: String,
    pub file2: String,
    /// Show the lines that only the first file has.
    pub show_col1: bool,
    /// Show the lines that only the second file has.
    pub show_col2: bool,
    /// Show the lines that both files have.
    pub show_col3: bool,
    /// Take upper and lower case for the same.
    pub insensitive: bool,
    /// What stands between columns.
    pub delimiter: String,
}

/// A line with the column that it belongs in.
#[derive(Clone, Copy, Debug)]
pub enum Column<'a> {
    Col1(&'a str),
    Col2(&'a str),
    Col3(&'a str),
}

/// How two texts stand to one another.
#[derive(Clone, Copy, Debug, PartialEq, Eq, Structural)]
pub enum Order {
    Less,
    Equal,
    Greater,
}

/// The order of two byte strings as in a dictionary: the first byte in
/// which they differ decides, and a string goes before those that it begins.
pub open spec fn byte_order(a: Seq<u8>, b: Seq<u8>) -> Order
    decreases a.len(),
{
    if a.len() == 0 && b.len() == 0 {
        Order::Equal
    } else if a.len() == 0 {
        Order::Less
    } else if b.len() == 0 {
        Order::Greater
    } else if a[0] < b[0] {
        Order::Less
    } else if a[0] > b[0] {
        Order::Greater
    } else {
        byte_order(a.skip(1), b.skip(1))
    }
}

/// Two byte strings are in equal order exactly when they are the same, and
/// turning them round turns the order round.
pub proof fn byte_order_is_an_order(a: Seq<u8>, b: Seq<u8>)
    ensures
        byte_order(a, b) == Order::Equal <==> a == b,
        byte_order(a, b) == Order::Less <==> byte_order(b, a) == Order::Greater,
    decreases a.len(),
{
    if a.len() > 0 && b.len() > 0 && a[0] == b[0] {
        byte_order_is_an_order(a.skip(1), b.skip(1));
        if a.skip(1) == b.skip(1) {
            assert(a =~= seq![a[0]] + a.skip(1));
            assert(b =~= seq![b[0]] + b.skip(1));
        }
    } else if a.len() == 0 && b.len() == 0 {
        assert(a =~= b);
    }
}

/// The order of two lines: that of their bytes.
pub fn compare_lines(a: &str, b: &str) -> (order: Order)
    ensures
        order == byte_order(a.spec_bytes(), b.spec_bytes()),
{
    let x = a.as_bytes();
    let y = b.as_bytes();
    let mut i: usize = 0;
    proof {
        assert(x@.skip(0) =~= x@);
        assert(y@.skip(0) =~= y@);
    }
    while i < x.len() && i < y.len()
        invariant
            0 <= i <= x@.len(),
            i <= y@.len(),
            x@ == a.spec_bytes(),
            y@ == b.spec_bytes(),
            byte_order(x@, y@) == byte_order(x@.skip(i as int), y@.skip(i as int)),
        decreases x@.len() - i,
    {
        proof {
            assert(x@.skip(i as int)[0] == x@[i as int]);
            assert(y@.skip(i as int)[0] == y@[i as int]);
            assert(x@.skip(i as int).skip(1) =~= x@.skip(i + 1));
            assert(y@.skip(i as int).skip(1) =~= y@.skip(i + 1));
        }
        if x[i] < y[i] {
            return Order::Less;
        }
        if x[i] > y[i] {
            return Order::Greater;
        }
        i = i + 1;
    }
    if i < y.len() {
        Order::Less
    } else if i < x.len() {
        Order::Greater
    } else {
        Order::Equal
    }
}

/// What to do with the lines in hand.
#[derive(Clone, Copy, Debug)]
pub struct Move<'a> {
    /// The line to show, with its column.
    pub column: Column<'a>,
    /// Read on in the first file.
    pub advance1: bool,
    /// Read on in the second file.
    pub advance2: bool,
}

/// The column of the next line to show, as a number from one to three, and
/// the files to read on in; nothing when both files are at their end. A line
/// that both files have goes in the third column; otherwise the line that
/// comes first in order is shown, in the column of its file.
pub open spec fn next_move(line1: Option<Seq<u8>>, line2: Option<Seq<u8>>) -> Option<
    (int, bool, bool),
> {
    match (line1, line2) {
        (Some(a), Some(b)) => match byte_order(a, b) {
            Order::Equal => Some((3, true, true)),
            Order::Less => Some((1, true, false)),
            Order::Greater => Some((2, false, true)),
        },
        (Some(_), None) => Some((1, true, false)),
        (None, Some(_)) => Some((2, false, true)),
        (None, None) => None,
    }
}

/// The bytes of an optional line.
pub open spec fn bytes_of(line: Option<&str>) -> Option<Seq<u8>> {
    match line {
        Some(l) => Some(l.spec_bytes()),
        None => None,
    }
}

impl<'a> Column<'a> {
    /// The number of the column, from one to three.
    pub open spec fn number(self) -> int {
        match self {
            Column::Col1(_) => 1,
            Column::Col2(_) => 2,
            Column::Col3(_) => 3,
        }
    }

    /// The line in the column.
    pub open spec fn line(self) -> Seq<char> {
        match self {
            Column::Col1(l) => l@,
            Column::Col2(l) => l@,
            Column::Col3(l) => l@,
        }
    }
}

/// Decides what to show next, given the line in hand of each file.
pub fn step<'a>(line1: Option<&'a str>, line2: Option<&'a str>) -> (r: Option<Move<'a>>)
    ensures
        match next_move(bytes_of(line1), bytes_of(line2)) {
            Some((column, advance1, advance2)) => {
                &&& r is Some
                &&& r->Some_0.column.number() == column
                &&& r->Some_0.advance1 == advance1
                &&& r->Some_0.advance2 == advance2
                &&& r->Some_0.column.line() == if column == 2 {
                    line2->Some_0@
                } else {
                    line1->Some_0@
                }
            },
            None => r is None,
        },
{
    match (line1, line2) {
        (Some(a), Some(b)) => match compare_lines(a, b) {
            Order::Equal => Some(Move { column: Column::Col3(a), advance1: true, advance2: true }),
            Order::Less => Some(Move { column: Column::Col1(a), advance1: true, advance2: false }),
            Order::Greater => Some(
                Move { column: Column::Col2(b), advance1: false, advance2: true },
            ),
        },
        (Some(a), None) => Some(Move { column: Column::Col1(a), advance1: true, advance2: false }),
        (None, Some(b)) => Some(Move { column: Column::Col2(b), advance1: false, advance2: true }),
        (None, None) => None,
    }
}

/// `count` delimiters in a row.
pub open spec fn delimiters(delimiter: Seq<char>, count: nat) -> Seq<char>
    decreases count,
{
    if count == 0 {
        Seq::empty()
    } else {
        delimiters(delimiter, (count - 1) as nat) + delimiter
    }
}

/// How many columns that are shown stand before column `number`.
pub open spec fn columns_before(config: &Config, number: int) -> nat {
    (if number > 1 && config.show_col1 {
        1nat
    } else {
        0nat
    }) + (if number > 2 && config.show_col2 {
        1nat
    } else {
        0nat
    })
}

/// Whether the column is shown.
pub open spec fn is_shown(config: &Config, number: int) -> bool {
    if number == 1 {
        config.show_col1
    } else if number == 2 {
        config.show_col2
    } else {
        config.show_col3
    }
}

/// What is printed for a line in its column: the line after one delimiter
/// for each shown column before its own, or nothing where its column is not
/// shown.
pub open spec fn column_text(config: &Config, number: int, line: Seq<char>) -> Option<Seq<char>> {
    if is_shown(config, number) {
        Some(delimiters(config.delimiter@, columns_before(config, number)) + line)
    } else {
        None
    }
}

/// The text to print for a line in its column, if any.
pub fn format_column(config: &Config, column: Column) -> (out: Option<String>)
    ensures
        match column_text(config, column.number(), column.line()) {
            Some(text) => out is Some && out->Some_0@ == text,
            None => out is None,
        },
{
    let ghost d = config.delimiter@;
    proof {
        assert(delimiters(d, 1) =~= d) by {
            assert(delimiters(d, 0) =~= Seq::<char>::empty());
        }
        assert(delimiters(d, 2) =~= d + d);
    }
    match column {
        Column::Col1(val) => {
            if config.show_col1 {
                let s = String::from_str(val);
                assert(s@ =~= delimiters(d, 0) + val@);
                Some(s)
            } else {
                None
            }
        },
        Column::Col2(val) => {
            if config.show_col2 {
                let mut s = String::new();
                if config.show_col1 {
                    s.append(config.delimiter.as_str());
                }
                s.append(val);
                assert(s@ =~= delimiters(d, columns_before(config, 2)) + val@);
                Some(s)
            } else {
                None
            }
        },
        Column::Col3(val) => {
            if config.show_col3 {
                let mut s = String::new();
                if config.show_col1 {
                    s.append(config.delimiter.as_str());
                }
                if config.show_col2 {
                    s.append(config.delimiter.as_str());
                }
                s.append(val);
                assert(s@ =~= delimiters(d, columns_before(config, 3)) + val@);
                Some(s)
            } else {
                None
            }
        },
    }
}

/// What `str::to_lowercase` makes of a text.
pub uninterp spec fn lowercase(text: Seq<char>) -> Seq<char>;

/// `str::to_lowercase`: the text with every character in lower case.
#[verifier::external_body]
fn to_lowercase(text: &str) -> (out: String)
    ensures
        out@ == lowercase(text@),
{
    text.to_lowercase()
}

/// The form in which a line is compared and shown: in lower case where case
/// does not count, else as it stands.
pub fn fold_case(config: &Config, line: String) -> (out: String)
    ensures
        out@ == if config.insensitive {
            lowercase(line@)
        } else {
            line@
        },
{
    if config.insensitive {
        to_lowercase(line.as_str())
    } else {
        line
    }
}

/// Whether both files are the standard input, which cannot be read twice.
pub fn both_stdin(config: &Config) -> (both: bool)
    ensures
        both == (config.file1@ == seq!['-'] && config.file2@ == seq!['-']),
{
    let dash = String::from_str("-");
    proof {
        reveal_strlit("-");
        assert("-"@ =~= seq!['-']);
    }
    config.file1 == dash && config.file2 == dash
}

/// The complaint about a file that cannot be opened.
pub fn open_failure(filename: &str, reason: &str) -> (s: String)
    ensures
        s@ == filename@ + ": "@ + reason@,
{
    let mut s = String::from_str(filename);
    s.append(": ");
    s.append(reason);
    s
}

} // verus!
