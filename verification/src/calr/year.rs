//! The page of a month of a given year, and the pages of the twelve months
//! of a year in four bands of three.

use crate::calr::dates::{
    date_exists, iso_week_number, iso_week_of, last_day_in_month, month_length, month_name,
    weekday_number, weekday_of, Date, MAX_YEAR, MIN_YEAR,
};
use crate::calr::month::{layout_month, month_lines, title_text, Day};
use crate::decimal::{render_signed, signed_repr};
use crate::text::{align_center, centered, push_char, push_chars, string_of, texts};
use vstd::prelude::*;
use vstd::string::StringExecFns;

verus! {

/// The day of the given month, with where it falls.
pub open spec fn day_of(year: int, month: int, day: int) -> Day {
    Day {
        day: day as u32,
        weekday: weekday_number(year, month, day) as u32,
        week: iso_week_number(year, month, day) as u32,
    }
}

/// The days of a month, from the first to the last.
pub open spec fn month_days(year: int, month: int) -> Seq<Day> {
    Seq::new(month_length(year, month) as nat, |i: int| day_of(year, month, i + 1))
}

/// The day of the month to mark: that of `today`, where `today` is in the
/// month.
pub open spec fn mark_of(year: int, month: int, today: Date) -> Option<u32> {
    if today.year == year && today.month == month {
        Some(today.day)
    } else {
        None
    }
}

/// The page of a month.
pub open spec fn month_page(year: int, month: int, print_year: bool, today: Date) -> Seq<
    Seq<char>,
> {
    month_lines(
        title_text(
            month,
            if print_year {
                Some(year)
            } else {
                None
            },
        ),
        month_days(year, month),
        mark_of(year, month, today),
    )
}

/// The page of the month `month` of `year`, with `today` in reverse video
/// where it is in the month, and with the year in the heading where
/// `print_year` is set.
pub fn format_month(year: i32, month: u32, print_year: bool, today: Date) -> (page: Vec<String>)
    requires
        date_exists(year as int, month as int, 1),
        year < MAX_YEAR,
    ensures
        texts(page@) == month_page(year as int, month as int, print_year, today),
{
    let last = last_day_in_month(year, month);
    let mut title = String::from_str(month_name(month));
    push_char(&mut title, ' ');
    if print_year {
        push_chars(&mut title, render_signed(year as i64).as_slice());
    }
    assert(title@ =~= title_text(
        month as int,
        if print_year {
            Some(year as int)
        } else {
            None
        },
    ));
    let mut days: Vec<Day> = Vec::new();
    let mut day: u32 = 1;
    while day <= last.day
        invariant
            1 <= day <= last.day + 1,
            date_exists(year as int, month as int, 1),
            last.day == month_length(year as int, month as int),
            days@.len() == day - 1,
            forall|i: int| 0 <= i < days@.len() ==> (#[trigger] days@[i]).is_proper(),
            forall|i: int|
                0 <= i < days@.len() ==> #[trigger] days@[i] == day_of(
                    year as int,
                    month as int,
                    i + 1,
                ),
        decreases last.day + 1 - day,
    {
        let date = Date { year, month, day };
        let weekday = weekday_of(date);
        let week = iso_week_of(date);
        days.push(Day { day, weekday, week });
        day = day + 1;
    }
    assert(days@ =~= month_days(year as int, month as int));
    let mark: Option<u32> = if today.year == year && today.month == month {
        Some(today.day)
    } else {
        None
    };
    layout_month(title.as_str(), days.as_slice(), mark)
}

/// The smallest of three lengths.
pub open spec fn least(a: nat, b: nat, c: nat) -> nat {
    if a <= b && a <= c {
        a
    } else if b <= c {
        b
    } else {
        c
    }
}

/// Three pages side by side: line by line, as far as all three have
/// lines.
pub open spec fn band(a: Seq<Seq<char>>, b: Seq<Seq<char>>, c: Seq<Seq<char>>) -> Seq<Seq<char>> {
    Seq::new(least(a.len(), b.len(), c.len()), |i: int| a[i] + b[i] + c[i])
}

/// The band of the three months from `first` on.
pub open spec fn year_band(year: int, first: int, today: Date) -> Seq<Seq<char>> {
    band(
        month_page(year, first, false, today),
        month_page(year, first + 1, false, today),
        month_page(year, first + 2, false, today),
    )
}

/// The page of a year: the year in the middle of 66 places, then the
/// months in four bands of three.
pub open spec fn year_page(year: int, today: Date) -> Seq<Seq<char>> {
    seq![centered(signed_repr(year), 66)] + year_band(year, 1, today) + year_band(
        year,
        4,
        today,
    ) + year_band(year, 7, today) + year_band(year, 10, today)
}

fn side_by_side(a: &Vec<String>, b: &Vec<String>, c: &Vec<String>, page: &mut Vec<String>)
    ensures
        texts(final(page)@) == texts(old(page)@) + band(texts(a@), texts(b@), texts(c@)),
{
    let n: usize = if a.len() <= b.len() && a.len() <= c.len() {
        a.len()
    } else if b.len() <= c.len() {
        b.len()
    } else {
        c.len()
    };
    let ghost whole = band(texts(a@), texts(b@), texts(c@));
    let mut i: usize = 0;
    while i < n
        invariant
            0 <= i <= n,
            n == whole.len(),
            n <= a@.len(),
            n <= b@.len(),
            n <= c@.len(),
            whole == band(texts(a@), texts(b@), texts(c@)),
            texts(page@) == texts(old(page)@) + whole.take(i as int),
        decreases n - i,
    {
        let ghost before = texts(page@);
        let mut line = a[i].clone();
        line.append(b[i].as_str());
        line.append(c[i].as_str());
        page.push(line);
        assert(texts(page@) =~= before.push(whole[i as int]));
        assert(texts(page@) =~= texts(old(page)@) + whole.take(i + 1));
        i = i + 1;
    }
    assert(whole.take(i as int) =~= whole);
}

/// The page of the year `year`, with `today` in reverse video.
pub fn format_year(year: i32, today: Date) -> (page: Vec<String>)
    requires
        MIN_YEAR <= year < MAX_YEAR,
    ensures
        texts(page@) == year_page(year as int, today),
{
    let mut page: Vec<String> = Vec::new();
    let head = align_center(render_signed(year as i64).as_slice(), 66);
    page.push(string_of(head.as_slice()));
    let mut first: u32 = 1;
    while first <= 10
        invariant
            first == 1 || first == 4 || first == 7 || first == 10 || first == 13,
            MIN_YEAR <= year < MAX_YEAR,
            texts(page@) == seq![centered(signed_repr(year as int), 66)] + (if first > 1 {
                year_band(year as int, 1, today)
            } else {
                Seq::<Seq<char>>::empty()
            }) + (if first > 4 {
                year_band(year as int, 4, today)
            } else {
                Seq::<Seq<char>>::empty()
            }) + (if first > 7 {
                year_band(year as int, 7, today)
            } else {
                Seq::<Seq<char>>::empty()
            }) + (if first > 10 {
                year_band(year as int, 10, today)
            } else {
                Seq::<Seq<char>>::empty()
            }),
        decreases 13 - first,
    {
        let ghost before = texts(page@);
        let a = format_month(year, first, false, today);
        let b = format_month(year, first + 1, false, today);
        let c = format_month(year, first + 2, false, today);
        side_by_side(&a, &b, &c, &mut page);
        assert(texts(page@) =~= before + year_band(year as int, first as int, today));
        first = first + 3;
    }
    assert(texts(page@) =~= year_page(year as int, today));
    page
}

} // verus!
