//! What a run is told to show: a month, or a whole year.

use crate::calr::dates::{month_name, month_title, Date, MAX_YEAR, MIN_YEAR};
use crate::calr::year::{format_month, format_year, month_page, year_page};
use crate::decimal::{parse_signed, parse_unsigned, signed_reading, unsigned_reading};
use crate::text::{chars_of, texts};
use vstd::prelude::*;
use vstd::string::StringExecFns;

verus! {

/// The settings of one run.
#[derive(Debug)]
pub struct Config {
    /// The month to show, or the whole year.
    pub month: Option<u32>,
    /// The year.
    pub year: i32,
    /// The day to mark.
    pub today: Date,
}

/// A letter of the Latin alphabet in lower case; any other character as it
/// is.
pub open spec fn lower(c: char) -> char {
    if 'A' <= c && c <= 'Z' {
        ((c as u32) + 32) as char
    } else {
        c
    }
}

/// A text with its Latin letters in lower case.
pub open spec fn lowered(s: Seq<char>) -> Seq<char> {
    Seq::new(s.len(), |i: int| lower(s[i]))
}

/// Whether `text` begins `name`, upper and lower case taken for the same.
pub open spec fn begins(name: Seq<char>, text: Seq<char>) -> bool {
    text.len() <= name.len() && lowered(name).take(text.len() as int) == lowered(text)
}

/// The months up to `last` whose names `text` begins.
pub open spec fn months_beginning(text: Seq<char>, last: nat) -> Seq<int>
    decreases last,
{
    if last == 0 {
        Seq::empty()
    } else if begins(month_title(last as int), text) {
        months_beginning(text, (last - 1) as nat).push(last as int)
    } else {
        months_beginning(text, (last - 1) as nat)
    }
}

/// The complaint about a number that is no month.
pub open spec fn month_out_of_range(text: Seq<char>) -> Seq<char> {
    "month \""@ + text + "\" not in the range 1 through 12"@
}

/// The complaint about a text that names no month, or more than one.
pub open spec fn invalid_month(text: Seq<char>) -> Seq<char> {
    "Invalid month \""@ + text + "\""@
}

/// The month that a text denotes: a number from 1 to 12, or the beginning
/// of the name of exactly one month.
pub open spec fn month_reading(text: Seq<char>) -> Result<int, Seq<char>> {
    match unsigned_reading(text, u32::MAX as nat) {
        Ok(n) => if 1 <= n <= 12 {
            Ok(n as int)
        } else {
            Err(month_out_of_range(text))
        },
        Err(_) => if months_beginning(text, 12).len() == 1 {
            Ok(months_beginning(text, 12)[0])
        } else {
            Err(invalid_month(text))
        },
    }
}

fn lower_char(c: char) -> (l: char)
    ensures
        l == lower(c),
{
    if 'A' <= c && c <= 'Z' {
        let code: u8 = (c as u32 + 32) as u8;
        code as char
    } else {
        c
    }
}

fn begins_name(name: &str, text: &[char]) -> (b: bool)
    ensures
        b == begins(name@, text@),
{
    let letters = chars_of(name);
    if text.len() > letters.len() {
        return false;
    }
    let mut i: usize = 0;
    while i < text.len()
        invariant
            0 <= i <= text@.len() <= letters@.len(),
            letters@ == name@,
            forall|j: int| 0 <= j < i ==> lower(letters@[j]) == lower(text@[j]),
        decreases text@.len() - i,
    {
        if lower_char(letters[i]) != lower_char(text[i]) {
            proof {
                let a = lowered(name@).take(text@.len() as int);
                let b = lowered(text@);
                assert(a[i as int] != b[i as int]);
            }
            return false;
        }
        i = i + 1;
    }
    assert(lowered(name@).take(text@.len() as int) =~= lowered(text@));
    true
}

/// Reads `text` as a month.
pub fn parse_month(text: &str) -> (r: Result<u32, String>)
    ensures
        match month_reading(text@) {
            Ok(m) => r == Ok::<u32, String>(m as u32) && 1 <= m <= 12,
            Err(msg) => r is Err && r->Err_0@ == msg,
        },
{
    let chars = chars_of(text);
    match parse_unsigned(chars.as_slice(), u32::MAX as u64) {
        Ok(n) => {
            if 1 <= n && n <= 12 {
                Ok(n as u32)
            } else {
                let mut msg = String::from_str("month \"");
                msg.append(text);
                msg.append("\" not in the range 1 through 12");
                Err(msg)
            }
        },
        Err(_) => {
            let mut found: Vec<u32> = Vec::new();
            let mut m: u32 = 1;
            while m <= 12
                invariant
                    1 <= m <= 13,
                    chars@ == text@,
                    found@.len() == months_beginning(text@, (m - 1) as nat).len(),
                    forall|k: int|
                        0 <= k < found@.len() ==> #[trigger] found@[k] == months_beginning(
                            text@,
                            (m - 1) as nat,
                        )[k] && 1 <= found@[k] <= 12,
                decreases 13 - m,
            {
                if begins_name(month_name(m), chars.as_slice()) {
                    found.push(m);
                }
                m = m + 1;
            }
            if found.len() == 1 {
                Ok(found[0])
            } else {
                let mut msg = String::from_str("Invalid month \"");
                msg.append(text);
                msg.append("\"");
                Err(msg)
            }
        },
    }
}

/// The complaint about a number that is no year to show.
pub open spec fn year_out_of_range(text: Seq<char>) -> Seq<char> {
    "year \""@ + text + "\" not in the range 1 through 9999"@
}

/// The complaint about a text that is no number.
pub open spec fn invalid_integer(text: Seq<char>) -> Seq<char> {
    "Invalid integer \""@ + text + "\""@
}

/// The year that a text denotes: a number from 1 to 9999.
pub open spec fn year_reading(text: Seq<char>) -> Result<int, Seq<char>> {
    match signed_reading(text, i32::MIN as int, i32::MAX as int) {
        Ok(y) => if 1 <= y <= 9999 {
            Ok(y)
        } else {
            Err(year_out_of_range(text))
        },
        Err(_) => Err(invalid_integer(text)),
    }
}

/// Reads `text` as a year.
pub fn parse_year(text: &str) -> (r: Result<i32, String>)
    ensures
        match year_reading(text@) {
            Ok(y) => r == Ok::<i32, String>(y as i32) && 1 <= y <= 9999,
            Err(msg) => r is Err && r->Err_0@ == msg,
        },
{
    let chars = chars_of(text);
    match parse_signed(chars.as_slice(), i32::MIN as i64, i32::MAX as i64) {
        Ok(y) => {
            if 1 <= y && y <= 9999 {
                Ok(y as i32)
            } else {
                let mut msg = String::from_str("year \"");
                msg.append(text);
                msg.append("\" not in the range 1 through 9999");
                Err(msg)
            }
        },
        Err(_) => {
            let mut msg = String::from_str("Invalid integer \"");
            msg.append(text);
            msg.append("\"");
            Err(msg)
        },
    }
}

/// The month that is shown: the one asked for; else none where a year is
/// asked for or the whole year; else the month of today.
pub open spec fn shown_month(
    month: Option<Seq<char>>,
    year_given: bool,
    whole_year: bool,
    today: Date,
) -> Result<Option<int>, Seq<char>> {
    match month {
        Some(text) => match month_reading(text) {
            Ok(m) => Ok(Some(m)),
            Err(msg) => Err(msg),
        },
        None => if year_given || whole_year {
            Ok(None)
        } else {
            Ok(Some(today.month as int))
        },
    }
}

/// The year that is shown: the one asked for, else the year of today.
pub open spec fn shown_year(year: Option<Seq<char>>, today: Date) -> Result<int, Seq<char>> {
    match year {
        Some(text) => year_reading(text),
        None => Ok(today.year as int),
    }
}

impl Config {
    /// Whether the settings name a month and a year that the calendar has.
    pub open spec fn is_valid(&self) -> bool {
        &&& MIN_YEAR <= self.year < MAX_YEAR
        &&& self.month is Some ==> 1 <= self.month->Some_0 <= 12
    }

    /// Settings from what was given on the command line and the day it is.
    /// The month is looked at before the year. Asking for the whole of the
    /// current year and for a year at once is not provided for.
    pub fn new(month: Option<&str>, year: Option<&str>, whole_year: bool, today: Date) -> (r: Result<
        Config,
        String,
    >)
        requires
            !(whole_year && year is Some),
        ensures
            match shown_month(crate::cutr::config::text_of(month), year is Some, whole_year, today) {
                Err(msg) => r is Err && r->Err_0@ == msg,
                Ok(m) => match shown_year(crate::cutr::config::text_of(year), today) {
                    Err(msg) => r is Err && r->Err_0@ == msg,
                    Ok(y) => {
                        &&& r is Ok
                        &&& r->Ok_0.today == today
                        &&& r->Ok_0.year == y
                        &&& r->Ok_0.month is Some == m is Some
                        &&& m is Some ==> r->Ok_0.month->Some_0 == m->Some_0
                        &&& today.is_valid() && today.year < MAX_YEAR ==> r->Ok_0.is_valid()
                    },
                },
            },
    {
        let shown: Option<u32> = match month {
            Some(text) => match parse_month(text) {
                Ok(m) => Some(m),
                Err(msg) => {
                    return Err(msg);
                },
            },
            None => if year.is_some() || whole_year {
                None
            } else {
                Some(today.month)
            },
        };
        let in_year: i32 = match year {
            Some(text) => match parse_year(text) {
                Ok(y) => y,
                Err(msg) => {
                    return Err(msg);
                },
            },
            None => today.year,
        };
        Ok(Config { month: shown, year: in_year, today })
    }

    /// The lines to print: the page of the month with its year in the
    /// heading, or the page of the year.
    pub fn page(&self) -> (lines: Vec<String>)
        requires
            self.is_valid(),
        ensures
            texts(lines@) == match self.month {
                Some(m) => month_page(self.year as int, m as int, true, self.today),
                None => year_page(self.year as int, self.today),
            },
    {
        match self.month {
            Some(m) => format_month(self.year, m, true, self.today),
            None => format_year(self.year, self.today),
        }
    }
}

} // verus!
