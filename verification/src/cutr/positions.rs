//! Selection lists: the text form `1,7,3-5` and the half-open index ranges
//! that it denotes.

use crate::decimal::{
    all_digit_chars, all_digits, decimal_repr, error_text, parse_unsigned, render,
    unsigned_reading,
};
use crate::text::{chars_of, push_chars, split, split_on, string_of, views};
use std::ops::Range;
use vstd::prelude::*;
use vstd::string::StringExecFns;

verus! {

/// An ordered list of half-open index ranges, kept as written: not sorted,
/// not merged, duplicates and overlaps allowed.
pub type PositionList = Vec<Range<usize>>;

/// Why a selection list was refused.
#[derive(Debug)]
pub enum ParseError {
    /// There was nothing to parse.
    EmptyList,
    /// A value is not a positive number, or an entry has neither the form
    /// `n` nor `n-m`. Holds the text to quote.
    IllegalValue(String),
    /// A range whose first number is not below its second.
    NotAscending(usize, usize),
}

/// A refusal, with its quoted text as a sequence of characters.
pub enum ParseFailure {
    EmptyList,
    IllegalValue(Seq<char>),
    NotAscending(nat, nat),
}

impl View for ParseError {
    type V = ParseFailure;

    open spec fn view(&self) -> ParseFailure {
        match self {
            ParseError::EmptyList => ParseFailure::EmptyList,
            ParseError::IllegalValue(t) => ParseFailure::IllegalValue(t@),
            ParseError::NotAscending(a, b) => ParseFailure::NotAscending(*a as nat, *b as nat),
        }
    }
}

/// The message for a refusal.
pub open spec fn failure_text(f: ParseFailure) -> Seq<char> {
    match f {
        ParseFailure::EmptyList => "empty string"@,
        ParseFailure::IllegalValue(t) => "illegal list value: \""@ + t + "\""@,
        ParseFailure::NotAscending(a, b) => "First number in range ("@ + decimal_repr(a)
            + ") must be lower than second number ("@ + decimal_repr(b) + ")"@,
    }
}

impl ParseError {
    /// The message for this refusal.
    pub fn to_string(&self) -> (s: String)
        ensures
            s@ == failure_text(self@),
    {
        match self {
            ParseError::EmptyList => String::from_str("empty string"),
            ParseError::IllegalValue(t) => {
                let mut s = String::from_str("illegal list value: \"");
                s.append(t.as_str());
                s.append("\"");
                s
            },
            ParseError::NotAscending(a, b) => {
                let first = render(*a as u64);
                let second = render(*b as u64);
                let mut s = String::from_str("First number in range (");
                push_chars(&mut s, first.as_slice());
                s.append(") must be lower than second number (");
                push_chars(&mut s, second.as_slice());
                s.append(")");
                s
            },
        }
    }
}

/// What a text denotes as a position counted from one: a number above zero
/// that fits the machine word. Zero is refused quoting `0`, anything else
/// that is no such number quoting the reason.
pub open spec fn positive_reading(s: Seq<char>) -> Result<nat, ParseFailure> {
    match unsigned_reading(s, usize::MAX as nat) {
        Ok(n) => if n == 0 {
            Err(ParseFailure::IllegalValue("0"@))
        } else {
            Ok(n)
        },
        Err(e) => Err(ParseFailure::IllegalValue(error_text(e))),
    }
}

/// Where the first `c` stands in `s`, or the length of `s` if there is none.
pub open spec fn first_index(s: Seq<char>, c: char) -> int
    decreases s.len(),
{
    if s.len() == 0 {
        0
    } else if s[0] == c {
        0
    } else {
        1 + first_index(s.skip(1), c)
    }
}

/// `first_index` is the one position before which there is no `c` and at
/// which there is one, or the end.
pub proof fn first_index_found(s: Seq<char>, c: char, k: int)
    requires
        0 <= k <= s.len(),
        forall|j: int| 0 <= j < k ==> s[j] != c,
        k < s.len() ==> s[k] == c,
    ensures
        first_index(s, c) == k,
    decreases s.len(),
{
    if s.len() > 0 && k > 0 {
        let rest = s.skip(1);
        assert forall|j: int| 0 <= j < k - 1 implies rest[j] != c by {
            assert(rest[j] == s[j + 1]);
        }
        first_index_found(rest, c, k - 1);
    }
}

/// The entry is one run of digits.
pub open spec fn is_single(tok: Seq<char>) -> bool {
    tok.len() >= 1 && all_digits(tok)
}

/// The entry is two runs of digits with one hyphen between them.
pub open spec fn is_pair(tok: Seq<char>) -> bool {
    let k = first_index(tok, '-');
    &&& 0 < k
    &&& k + 1 < tok.len()
    &&& all_digits(tok.take(k))
    &&& all_digits(tok.skip(k + 1))
}

/// The range that one entry of a selection list denotes. `n` is the single
/// position `n`, counted from one; `a-b` is the positions from `a` to `b`,
/// both included, and `a` must be below `b`.
pub open spec fn entry_reading(tok: Seq<char>) -> Result<Range<usize>, ParseFailure> {
    let k = first_index(tok, '-');
    if is_pair(tok) {
        match positive_reading(tok.take(k)) {
            Err(e) => Err(e),
            Ok(a) => match positive_reading(tok.skip(k + 1)) {
                Err(e) => Err(e),
                Ok(b) => if a >= b {
                    Err(ParseFailure::NotAscending(a, b))
                } else {
                    Ok(Range { start: (a - 1) as usize, end: b as usize })
                },
            },
        }
    } else if is_single(tok) {
        match positive_reading(tok) {
            Err(e) => Err(e),
            Ok(n) => Ok(Range { start: (n - 1) as usize, end: n as usize }),
        }
    } else {
        Err(ParseFailure::IllegalValue(tok))
    }
}

/// The ranges that a list of entries denotes, in the order of the entries,
/// or the refusal of the first entry that is refused.
pub open spec fn entries_reading(toks: Seq<Seq<char>>) -> Result<Seq<Range<usize>>, ParseFailure>
    decreases toks.len(),
{
    if toks.len() == 0 {
        Ok(Seq::empty())
    } else {
        match entries_reading(toks.drop_last()) {
            Err(e) => Err(e),
            Ok(rs) => match entry_reading(toks.last()) {
                Err(e) => Err(e),
                Ok(r) => Ok(rs.push(r)),
            },
        }
    }
}

/// The ranges that a selection list denotes: its entries are what stands
/// between commas. The empty text is refused as empty.
pub open spec fn list_reading(spec: Seq<char>) -> Result<Seq<Range<usize>>, ParseFailure> {
    if spec.len() == 0 {
        Err(ParseFailure::EmptyList)
    } else {
        entries_reading(split_on(spec, ','))
    }
}

fn positive_of(chars: &[char]) -> (r: Result<usize, ParseError>)
    ensures
        match positive_reading(chars@) {
            Ok(v) => r is Ok && r->Ok_0 == v,
            Err(f) => r is Err && r->Err_0@ == f,
        },
{
    match parse_unsigned(chars, usize::MAX as u64) {
        Ok(n) => {
            if n == 0 {
                Err(ParseError::IllegalValue(String::from_str("0")))
            } else {
                Ok(n as usize)
            }
        },
        Err(e) => Err(ParseError::IllegalValue(String::from_str(e.describe()))),
    }
}

/// Reads `val` as a position counted from one: an optional plus sign and
/// digits that denote a number above zero.
pub fn parse_positive_int(val: &str) -> (r: Result<usize, ParseError>)
    ensures
        match positive_reading(val@) {
            Ok(v) => r is Ok && r->Ok_0 == v,
            Err(f) => r is Err && r->Err_0@ == f,
        },
        r is Ok ==> r->Ok_0 > 0,
{
    let chars = chars_of(val);
    positive_of(chars.as_slice())
}

/// Reads one entry of a selection list.
pub fn parse_entry(tok: &[char]) -> (r: Result<Range<usize>, ParseError>)
    ensures
        match entry_reading(tok@) {
            Ok(v) => r is Ok && r->Ok_0 == v,
            Err(f) => r is Err && r->Err_0@ == f,
        },
        r is Ok ==> r->Ok_0.start < r->Ok_0.end,
{
    let n: usize = tok.len();
    let mut k: usize = 0;
    while k < n && tok[k] != '-'
        invariant
            0 <= k <= n,
            n == tok@.len(),
            forall|j: int| 0 <= j < k ==> tok@[j] != '-',
        decreases n - k,
    {
        k = k + 1;
    }
    proof {
        first_index_found(tok@, '-', k as int);
    }
    if k < n {
        assert(!is_single(tok@)) by {
            assert(tok@[k as int] == '-');
        }
        if k == 0 || k + 1 >= n {
            return Err(ParseError::IllegalValue(string_of(tok)));
        }
        let left: &[char] = vstd::slice::slice_subrange(tok, 0, k);
        let right: &[char] = vstd::slice::slice_subrange(tok, k + 1, n);
        assert(left@ =~= tok@.take(k as int));
        assert(right@ =~= tok@.skip(k + 1));
        if !all_digit_chars(left) || !all_digit_chars(right) {
            return Err(ParseError::IllegalValue(string_of(tok)));
        }
        assert(is_pair(tok@));
        let a: usize = match positive_of(left) {
            Ok(a) => a,
            Err(e) => {
                return Err(e);
            },
        };
        let b: usize = match positive_of(right) {
            Ok(b) => b,
            Err(e) => {
                return Err(e);
            },
        };
        if a >= b {
            return Err(ParseError::NotAscending(a, b));
        }
        Ok(a - 1..b)
    } else {
        assert(!is_pair(tok@));
        if n == 0 || !all_digit_chars(tok) {
            return Err(ParseError::IllegalValue(string_of(tok)));
        }
        match positive_of(tok) {
            Ok(v) => Ok(v - 1..v),
            Err(e) => Err(e),
        }
    }
}

/// Once an entry is refused, the list is refused in the same way whatever
/// follows.
pub proof fn first_refusal_stands(toks: Seq<Seq<char>>, k: int)
    requires
        0 <= k <= toks.len(),
    ensures
        entries_reading(toks.take(k)) is Err ==> entries_reading(toks) == entries_reading(
            toks.take(k),
        ),
    decreases toks.len() - k,
{
    if k < toks.len() {
        first_refusal_stands(toks, k + 1);
        assert(toks.take(k + 1).drop_last() =~= toks.take(k));
    } else {
        assert(toks.take(k) =~= toks);
    }
}

/// A list that is accepted has one range for each entry, and each range
/// holds at least one position.
pub proof fn accepted_ranges_are_proper(toks: Seq<Seq<char>>)
    requires
        entries_reading(toks) is Ok,
    ensures
        entries_reading(toks)->Ok_0.len() == toks.len(),
        forall|i: int|
            0 <= i < toks.len() ==> entry_reading(toks[i]) == Ok::<Range<usize>, ParseFailure>(
                #[trigger] entries_reading(toks)->Ok_0[i],
            ),
        forall|i: int|
            0 <= i < toks.len() ==> (#[trigger] entries_reading(toks)->Ok_0[i]).start
                < entries_reading(toks)->Ok_0[i].end,
    decreases toks.len(),
{
    if toks.len() > 0 {
        accepted_ranges_are_proper(toks.drop_last());
        let rs = entries_reading(toks)->Ok_0;
        let head = entries_reading(toks.drop_last())->Ok_0;
        assert forall|i: int| 0 <= i < toks.len() implies entry_reading(toks[i]) == Ok::<
            Range<usize>,
            ParseFailure,
        >(#[trigger] rs[i]) && rs[i].start < rs[i].end by {
            if i < toks.len() - 1 {
                assert(rs[i] == head[i]);
                assert(toks.drop_last()[i] == toks[i]);
            }
        }
    }
}

/// Reads a selection list such as `1,7,3-5`: the ranges of its entries in
/// the order written, or the refusal of the first entry that is refused.
pub fn parse_pos(range: &str) -> (r: Result<PositionList, ParseError>)
    ensures
        match list_reading(range@) {
            Ok(v) => r is Ok && r->Ok_0@ == v,
            Err(f) => r is Err && r->Err_0@ == f,
        },
        r is Ok ==> r->Ok_0@.len() == split_on(range@, ',').len(),
        r is Ok ==> forall|i: int|
            0 <= i < r->Ok_0@.len() ==> (#[trigger] r->Ok_0@[i]).start < r->Ok_0@[i].end,
{
    let chars = chars_of(range);
    if chars.len() == 0 {
        return Err(ParseError::EmptyList);
    }
    let toks = split(chars.as_slice(), ',');
    let ghost entries = split_on(range@, ',');
    let mut out: Vec<Range<usize>> = Vec::new();
    let mut i: usize = 0;
    while i < toks.len()
        invariant
            0 <= i <= toks@.len(),
            range@.len() > 0,
            entries == split_on(range@, ','),
            views(toks@) == entries,
            entries_reading(entries.take(i as int)) == Ok::<Seq<Range<usize>>, ParseFailure>(out@),
        decreases toks@.len() - i,
    {
        proof {
            assert(entries.take(i + 1).drop_last() =~= entries.take(i as int));
            assert(entries.take(i + 1).last() == toks@[i as int]@);
            first_refusal_stands(entries, i + 1);
        }
        match parse_entry(toks[i].as_slice()) {
            Ok(r) => {
                out.push(r);
            },
            Err(e) => {
                return Err(e);
            },
        }
        i = i + 1;
    }
    proof {
        assert(entries.take(i as int) =~= entries);
        accepted_ranges_are_proper(entries);
    }
    Ok(out)
}

} // verus!
