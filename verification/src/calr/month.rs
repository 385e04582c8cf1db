//! One month on the page: a heading, the days of the week, and a line for
//! each week.

use crate::calr::dates::month_title;
use crate::decimal::{decimal_repr, render, signed_repr};
use crate::text::{
    align_center, align_left, align_right, blanks, centered, chars_of, left_aligned, push_all,
    push_blanks, right_aligned, string_of, texts, views,
};
use ansi_term::Style;
use vstd::prelude::*;
use vstd::string::StringExecFns;

verus! {

/// A day of a month, with where it falls.
#[derive(Clone, Copy, Debug, PartialEq, Eq, Structural)]
pub struct Day {
    /// The day of the month.
    pub day: u32,
    /// The day of the week, from 0 for Sunday to 6 for Saturday.
    pub weekday: u32,
    /// The number of the ISO week, which starts on a Monday.
    pub week: u32,
}

impl Day {
    /// The day of the week and the number of the week are such.
    pub open spec fn is_proper(self) -> bool {
        self.weekday < 7 && 1 <= self.week <= 53
    }

    /// The line of the page that the day stands on. Lines start on a
    /// Sunday, so a Sunday stands on the line of the week after it.
    pub open spec fn row(self) -> int {
        if self.weekday == 0 {
            self.week + 1
        } else {
            self.week as int
        }
    }
}

/// The days that stand on line `row`, in their order.
pub open spec fn with_row(days: Seq<Day>, row: int) -> Seq<Day>
    decreases days.len(),
{
    if days.len() == 0 {
        Seq::empty()
    } else if days.last().row() == row {
        with_row(days.drop_last(), row).push(days.last())
    } else {
        with_row(days.drop_last(), row)
    }
}

/// The lines up to line `last`, in rising order, without those on which no
/// day stands.
pub open spec fn rows_upto(days: Seq<Day>, last: nat) -> Seq<Seq<Day>>
    decreases last,
{
    if last == 0 {
        Seq::empty()
    } else if with_row(days, last as int).len() > 0 {
        rows_upto(days, (last - 1) as nat).push(with_row(days, last as int))
    } else {
        rows_upto(days, (last - 1) as nat)
    }
}

/// The lines of the days: the days of one line together, the lines in the
/// rising order of their numbers.
pub open spec fn rows(days: Seq<Day>) -> Seq<Seq<Day>> {
    rows_upto(days, 54)
}

/// Groups the days into the lines of the page.
pub fn group_rows(days: &[Day]) -> (out: Vec<Vec<Day>>)
    ensures
        views(out@) == rows(days@),
{
    let mut out: Vec<Vec<Day>> = Vec::new();
    let mut row: u32 = 1;
    while row <= 54
        invariant
            1 <= row <= 55,
            views(out@) == rows_upto(days@, (row - 1) as nat),
        decreases 55 - row,
    {
        let mut line: Vec<Day> = Vec::new();
        let mut i: usize = 0;
        while i < days.len()
            invariant
                0 <= i <= days@.len(),
                1 <= row <= 54,
                line@ == with_row(days@.take(i as int), row as int),
            decreases days@.len() - i,
        {
            proof {
                assert(days@.take(i + 1).drop_last() =~= days@.take(i as int));
                assert(days@.take(i + 1).last() == days@[i as int]);
            }
            let d: Day = days[i];
            let on: u64 = if d.weekday == 0 {
                d.week as u64 + 1
            } else {
                d.week as u64
            };
            if on == row as u64 {
                line.push(d);
            }
            i = i + 1;
        }
        assert(days@.take(i as int) =~= days@);
        if line.len() > 0 {
            let ghost done = views(out@);
            let ghost this = line@;
            out.push(line);
            assert(views(out@) =~= done.push(this));
        }
        row = row + 1;
    }
    out
}

/// A text in reverse video: between the codes that switch it on and off.
pub open spec fn reversed(text: Seq<char>) -> Seq<char> {
    seq!['\u{1b}', '[', '7', 'm'] + text + seq!['\u{1b}', '[', '0', 'm']
}

/// `Style::paint` with the reverse style: the text between the escape
/// codes for reverse video and for reset.
#[verifier::external_body]
fn paint_reversed(text: &str) -> (out: String)
    ensures
        out@ == reversed(text@),
{
    Style::new().reverse().paint(text).to_string()
}

/// The number of a day as it is written.
pub open spec fn day_text(day: Day) -> Seq<char> {
    decimal_repr(day.day as nat)
}

/// The place of the first day of a line: its number at the right edge of
/// the column of its day of the week, in reverse video where it is the day
/// to mark. The codes count as part of the text when it is moved right.
pub open spec fn first_cell(day: Day, mark: Option<u32>) -> Seq<char> {
    right_aligned(
        if mark == Some(day.day) {
            reversed(day_text(day))
        } else {
            day_text(day)
        },
        (2 + 3 * day.weekday) as nat,
    )
}

/// The place of a later day of a line: its number at the right edge of
/// three places, or after a blank and in reverse video at the right edge of
/// two where it is the day to mark.
pub open spec fn later_cell(day: Day, mark: Option<u32>) -> Seq<char> {
    if mark == Some(day.day) {
        seq![' '] + reversed(right_aligned(day_text(day), 2))
    } else {
        right_aligned(day_text(day), 3)
    }
}

/// The places of the days of a line, one after the other.
pub open spec fn cells(line: Seq<Day>, mark: Option<u32>) -> Seq<char>
    decreases line.len(),
{
    if line.len() == 0 {
        Seq::empty()
    } else if line.len() == 1 {
        first_cell(line[0], mark)
    } else {
        cells(line.drop_last(), mark) + later_cell(line.last(), mark)
    }
}

/// A line of the page: the places of its days, filled up to 22 places. A
/// line that the codes for reverse video make longer than that gets two
/// blanks at its end.
pub open spec fn row_text(line: Seq<Day>, mark: Option<u32>) -> Seq<char> {
    let filled = left_aligned(cells(line, mark), 22);
    if filled.len() > 22 {
        filled + seq![' ', ' ']
    } else {
        filled
    }
}

fn day_string(day: Day) -> (s: String)
    ensures
        s@ == day_text(day),
{
    let digits = render(day.day as u64);
    string_of(digits.as_slice())
}

/// Writes one line of the page.
pub fn format_row(line: &[Day], mark: Option<u32>) -> (s: String)
    requires
        forall|k: int| 0 <= k < line@.len() ==> (#[trigger] line@[k]).is_proper(),
    ensures
        s@ == row_text(line@, mark),
{
    let mut res: Vec<char> = Vec::new();
    let mut i: usize = 0;
    while i < line.len()
        invariant
            0 <= i <= line@.len(),
            forall|k: int| 0 <= k < line@.len() ==> (#[trigger] line@[k]).is_proper(),
            res@ == cells(line@.take(i as int), mark),
        decreases line@.len() - i,
    {
        proof {
            assert(line@.take(i + 1).drop_last() =~= line@.take(i as int));
            assert(line@.take(i + 1).last() == line@[i as int]);
            assert(line@.take(i + 1)[0] == line@[0]);
            assert(line@[i as int].is_proper());
        }
        let d: Day = line[i];
        let marked: bool = match mark {
            Some(m) => m == d.day,
            None => false,
        };
        if i == 0 {
            let painted = if marked {
                paint_reversed(day_string(d).as_str())
            } else {
                day_string(d)
            };
            let width: usize = 2 + 3 * (d.weekday as usize);
            let cell = align_right(chars_of(painted.as_str()).as_slice(), width);
            push_all(&mut res, cell.as_slice());
            assert(res@ =~= first_cell(d, mark));
        } else {
            let ghost before = res@;
            if marked {
                let digits = render(d.day as u64);
                let two = string_of(align_right(digits.as_slice(), 2).as_slice());
                let painted = paint_reversed(two.as_str());
                res.push(' ');
                push_all(&mut res, chars_of(painted.as_str()).as_slice());
            } else {
                let cell = align_right(render(d.day as u64).as_slice(), 3);
                push_all(&mut res, cell.as_slice());
            }
            assert(res@ =~= before + later_cell(d, mark));
        }
        i = i + 1;
    }
    assert(line@.take(i as int) =~= line@);
    let mut filled = align_left(res.as_slice(), 22);
    if filled.len() > 22 {
        filled.push(' ');
        filled.push(' ');
    }
    assert(filled@ =~= row_text(line@, mark));
    string_of(filled.as_slice())
}

/// The heading of a month: its name and, after a blank, the year where
/// the year is shown.
pub open spec fn title_text(month: int, year: Option<int>) -> Seq<char> {
    month_title(month) + seq![' '] + match year {
        Some(y) => signed_repr(y),
        None => Seq::<char>::empty(),
    }
}

/// The days of the week as they head the columns.
pub open spec fn weekday_line() -> Seq<char> {
    "Su Mo Tu We Th Fr Sa  "@
}

/// The page of a month: the title in the middle of 20 places and filled up
/// to 22, the days of the week, a line for each week, and an empty line of
/// 22 blanks unless the last day is a Sunday.
pub open spec fn month_lines(title: Seq<char>, days: Seq<Day>, mark: Option<u32>) -> Seq<
    Seq<char>,
> {
    seq![left_aligned(centered(title, 20), 22), weekday_line()] + Seq::new(
        rows(days).len(),
        |k: int| row_text(rows(days)[k], mark),
    ) + if days.len() > 0 && days.last().weekday == 0 {
        Seq::<Seq<char>>::empty()
    } else {
        seq![blanks(22)]
    }
}

/// Every day of every line is one of the days.
pub proof fn rows_hold_the_days(days: Seq<Day>, last: nat)
    ensures
        forall|k: int, j: int|
            0 <= k < rows_upto(days, last).len() && 0 <= j < rows_upto(days, last)[k].len()
                ==> days.contains(#[trigger] rows_upto(days, last)[k][j]),
    decreases last,
{
    if last > 0 {
        rows_hold_the_days(days, (last - 1) as nat);
        with_row_holds_the_days(days, last as int);
        let all = rows_upto(days, last);
        let before = rows_upto(days, (last - 1) as nat);
        assert forall|k: int, j: int| 0 <= k < all.len() && 0 <= j < all[k].len() implies days.contains(
            #[trigger] all[k][j],
        ) by {
            if k < before.len() {
                assert(all[k] == before[k]);
            } else {
                assert(all[k] == with_row(days, last as int));
            }
        }
    }
}

/// Every day of a line is one of the days.
pub proof fn with_row_holds_the_days(days: Seq<Day>, row: int)
    ensures
        forall|j: int|
            0 <= j < with_row(days, row).len() ==> days.contains(#[trigger] with_row(days, row)[j]),
    decreases days.len(),
{
    if days.len() > 0 {
        let head = days.drop_last();
        with_row_holds_the_days(head, row);
        let line = with_row(days, row);
        assert forall|j: int| 0 <= j < line.len() implies days.contains(#[trigger] line[j]) by {
            if j < with_row(head, row).len() {
                let d = with_row(head, row)[j];
                assert(head.contains(d));
                let i = choose|i: int| 0 <= i < head.len() && head[i] == d;
                assert(days[i] == d);
            } else {
                assert(line[j] == days[days.len() - 1]);
            }
        }
    }
}

/// Lays out the page of a month from its title and its days.
pub fn layout_month(title: &str, days: &[Day], mark: Option<u32>) -> (page: Vec<String>)
    requires
        forall|k: int| 0 <= k < days@.len() ==> (#[trigger] days@[k]).is_proper(),
    ensures
        texts(page@) == month_lines(title@, days@, mark),
{
    let mut page: Vec<String> = Vec::new();
    let head = align_left(align_center(chars_of(title).as_slice(), 20).as_slice(), 22);
    page.push(string_of(head.as_slice()));
    page.push(String::from_str("Su Mo Tu We Th Fr Sa  "));
    let lines = group_rows(days);
    let ghost top = texts(page@);
    let mut k: usize = 0;
    proof {
        rows_hold_the_days(days@, 54);
    }
    while k < lines.len()
        invariant
            0 <= k <= lines@.len(),
            views(lines@) == rows(days@),
            forall|i: int| 0 <= i < days@.len() ==> (#[trigger] days@[i]).is_proper(),
            forall|a: int, b: int|
                0 <= a < rows(days@).len() && 0 <= b < rows(days@)[a].len() ==> days@.contains(
                    #[trigger] rows(days@)[a][b],
                ),
            texts(page@) == top + Seq::new(k as nat, |j: int| row_text(rows(days@)[j], mark)),
        decreases lines@.len() - k,
    {
        let ghost before = texts(page@);
        proof {
            assert(views(lines@)[k as int] == lines@[k as int]@);
            assert forall|j: int| 0 <= j < lines@[k as int]@.len() implies (
            #[trigger] lines@[k as int]@[j]).is_proper() by {
                assert(days@.contains(rows(days@)[k as int][j]));
            }
        }
        page.push(format_row(lines[k].as_slice(), mark));
        assert(texts(page@) =~= before.push(row_text(rows(days@)[k as int], mark)));
        assert(texts(page@) =~= top + Seq::new(
            (k + 1) as nat,
            |j: int| row_text(rows(days@)[j], mark),
        ));
        k = k + 1;
    }
    let sunday_last: bool = days.len() > 0 && days[days.len() - 1].weekday == 0;
    if !sunday_last {
        let ghost before = texts(page@);
        let mut blank: Vec<char> = Vec::new();
        push_blanks(&mut blank, 22);
        page.push(string_of(blank.as_slice()));
        assert(blank@ =~= blanks(22));
        assert(texts(page@) =~= before.push(blanks(22)));
    }
    assert(texts(page@) =~= month_lines(title@, days@, mark));
    page
}

/// How many of the days stand on the lines from 1 to `last`.
pub open spec fn days_upto(days: Seq<Day>, last: nat) -> nat
    decreases days.len(),
{
    if days.len() == 0 {
        0
    } else {
        days_upto(days.drop_last(), last) + if 1 <= days.last().row() <= last {
            1nat
        } else {
            0nat
        }
    }
}

/// The lines up to line `last` hold as many days as stand on them.
pub proof fn rows_count_their_days(days: Seq<Day>, last: nat)
    ensures
        rows_upto(days, last).flatten().len() == days_upto(days, last),
    decreases last,
{
    if last == 0 {
        nothing_stands_before_the_first_line(days);
    } else {
        rows_count_their_days(days, (last - 1) as nat);
        one_more_line(days, last);
        let before = rows_upto(days, (last - 1) as nat);
        let line = with_row(days, last as int);
        if line.len() > 0 {
            before.lemma_flatten_push(line);
        }
    }
}

proof fn nothing_stands_before_the_first_line(days: Seq<Day>)
    ensures
        days_upto(days, 0) == 0,
    decreases days.len(),
{
    if days.len() > 0 {
        nothing_stands_before_the_first_line(days.drop_last());
    }
}

proof fn one_more_line(days: Seq<Day>, last: nat)
    requires
        last >= 1,
    ensures
        days_upto(days, last) == days_upto(days, (last - 1) as nat) + with_row(
            days,
            last as int,
        ).len(),
    decreases days.len(),
{
    if days.len() > 0 {
        one_more_line(days.drop_last(), last);
    }
}

/// No day is lost and none is shown twice: the lines of the page hold as
/// many days as there are.
pub proof fn rows_hold_every_day_once(days: Seq<Day>)
    requires
        forall|k: int| 0 <= k < days.len() ==> (#[trigger] days[k]).is_proper(),
    ensures
        rows(days).flatten().len() == days.len(),
{
    rows_count_their_days(days, 54);
    proper_days_stand_on_the_page(days);
}

proof fn proper_days_stand_on_the_page(days: Seq<Day>)
    requires
        forall|k: int| 0 <= k < days.len() ==> (#[trigger] days[k]).is_proper(),
    ensures
        days_upto(days, 54) == days.len(),
    decreases days.len(),
{
    if days.len() > 0 {
        let head = days.drop_last();
        assert forall|k: int| 0 <= k < head.len() implies (#[trigger] head[k]).is_proper() by {
            assert(head[k] == days[k]);
        }
        proper_days_stand_on_the_page(head);
        assert(days.last() == days[days.len() - 1]);
    }
}

} // verus!
