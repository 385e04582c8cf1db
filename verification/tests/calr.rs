use chrono::{Datelike, Month, NaiveDate};
use textkit::calr::config::{parse_month, parse_year, Config};
use textkit::calr::dates::{
    day_before, days_in_month, last_day_in_month, leap_year, month_name, valid_date, Date,
};
use textkit::calr::month::{format_row, group_rows, layout_month, Day};
use textkit::calr::year::{format_month, format_year};

fn date(year: i32, month: u32, day: u32) -> Date {
    Date { year, month, day }
}

#[test]
fn test_format_month() {
    let today = date(0, 1, 1);
    let leap_february = vec![
        "   February 2020      ",
        "Su Mo Tu We Th Fr Sa  ",
        "                   1  ",
        " 2  3  4  5  6  7  8  ",
        " 9 10 11 12 13 14 15  ",
        "16 17 18 19 20 21 22  ",
        "23 24 25 26 27 28 29  ",
        "                      ",
    ];
    assert_eq!(format_month(2020, 2, true, today), leap_february);

    let may = vec![
        "        May           ",
        "Su Mo Tu We Th Fr Sa  ",
        "                1  2  ",
        " 3  4  5  6  7  8  9  ",
        "10 11 12 13 14 15 16  ",
        "17 18 19 20 21 22 23  ",
        "24 25 26 27 28 29 30  ",
        "31                    ",
    ];
    assert_eq!(format_month(2020, 5, false, today), may);

    let april_hl = vec![
        "     April 2021       ",
        "Su Mo Tu We Th Fr Sa  ",
        "             1  2  3  ",
        " 4  5  6 \u{1b}[7m 7\u{1b}[0m  8  9 10  ",
        "11 12 13 14 15 16 17  ",
        "18 19 20 21 22 23 24  ",
        "25 26 27 28 29 30     ",
        "                      ",
    ];
    let today = date(2021, 4, 7);
    assert_eq!(format_month(2021, 4, true, today), april_hl);
}

#[test]
fn test_last_day_in_month() {
    assert_eq!(last_day_in_month(2020, 1), date(2020, 1, 31));
    assert_eq!(last_day_in_month(2020, 2), date(2020, 2, 29));
    assert_eq!(last_day_in_month(2020, 4), date(2020, 4, 30));
}

#[test]
fn last_days_follow_the_calendar() {
    for year in [-262143, -4, -1, 0, 1, 1900, 2000, 2023, 2024, 2100, 9999, 262141] {
        for month in 1..=12u32 {
            let next = if month == 12 {
                NaiveDate::from_ymd_opt(year + 1, 1, 1)
            } else {
                NaiveDate::from_ymd_opt(year, month + 1, 1)
            };
            let last = next.unwrap().pred_opt().unwrap();
            assert_eq!(last_day_in_month(year, month), date(last.year(), last.month(), last.day()));
        }
    }
    assert_eq!(last_day_in_month(2020, 0), date(2019, 12, 31));
    assert_eq!(last_day_in_month(2020, 13), date(2020, 12, 31));
    assert_eq!(last_day_in_month(2020, 12), date(2020, 12, 31));
}

#[test]
fn a_marked_first_day_is_moved_less_far() {
    let page = format_month(2021, 4, true, date(2021, 4, 4));
    assert_eq!(page[3], "\u{1b}[7m4\u{1b}[0m  5  6  7  8  9 10  ");
    let page = format_month(2021, 4, true, date(2021, 4, 1));
    assert_eq!(page[2], "     \u{1b}[7m1\u{1b}[0m  2  3  ");
    let page = format_month(2021, 4, true, date(2021, 4, 30));
    assert_eq!(page[6], "25 26 27 28 29 \u{1b}[7m30\u{1b}[0m  ");
    let page = format_month(2020, 5, true, date(2020, 5, 31));
    assert_eq!(page[7], "\u{1b}[7m31\u{1b}[0m            ");
}

#[test]
fn weeks_at_the_turn_of_the_year_are_put_by_their_numbers() {
    let page = format_month(2021, 1, true, date(0, 1, 1));
    let expected = vec![
        "    January 2021      ",
        "Su Mo Tu We Th Fr Sa  ",
        "    4  5  6  7  8  9  ",
        "10 11 12 13 14 15 16  ",
        "17 18 19 20 21 22 23  ",
        "24 25 26 27 28 29 30  ",
        "31                    ",
        "                1  2  ",
        " 3                    ",
    ];
    assert_eq!(page, expected);
}

#[test]
fn days_are_grouped_by_line() {
    let days = vec![
        Day { day: 1, weekday: 6, week: 9 },
        Day { day: 2, weekday: 0, week: 9 },
        Day { day: 3, weekday: 1, week: 10 },
        Day { day: 4, weekday: 2, week: 10 },
        Day { day: 5, weekday: 3, week: 1 },
    ];
    let groups = group_rows(&days);
    assert_eq!(groups, vec![vec![days[4]], vec![days[0]], vec![days[1], days[2], days[3]]]);
    assert_eq!(group_rows(&[]), Vec::<Vec<Day>>::new());
    assert_eq!(format_row(&groups[1], None), "                   1  ");
    assert_eq!(format_row(&groups[2], None), " 2  3  4              ");
    assert_eq!(
        format_row(&groups[2], Some(3)),
        format!("{:22}", " 2 \u{1b}[7m 3\u{1b}[0m  4")
    );
    assert_eq!(format_row(&[], None), "                      ");
    let page = layout_month("Title", &days, None);
    assert_eq!(page.len(), 6);
    assert_eq!(page[0], "       Title          ");
    assert_eq!(page[5], "                      ");
    let page = layout_month("A title that is far too long", &days[..2], None);
    assert_eq!(page[0], "A title that is far too long");
    assert_eq!(page.len(), 4);
}

#[test]
fn a_year_is_shown_in_bands_of_three_months() {
    let page = format_year(2020, date(0, 1, 1));
    assert_eq!(page[0], format!("{:^66}", 2020));
    assert_eq!(
        page[1],
        format!(
            "{:22}{:22}{:22}",
            format!("{:^20}", "January "),
            format!("{:^20}", "February "),
            format!("{:^20}", "March ")
        )
    );
    assert_eq!(page[2], "Su Mo Tu We Th Fr Sa  Su Mo Tu We Th Fr Sa  Su Mo Tu We Th Fr Sa  ");
    let months: Vec<Vec<String>> =
        (1..=12).map(|m| format_month(2020, m, false, date(0, 1, 1))).collect();
    let mut expected = vec![format!("{:^66}", 2020)];
    for band in months.chunks(3) {
        let n = band.iter().map(|m| m.len()).min().unwrap();
        for i in 0..n {
            expected.push(format!("{}{}{}", band[0][i], band[1][i], band[2][i]));
        }
    }
    assert_eq!(page, expected);
    assert!(page.iter().all(|l| l.len() == 66));
}

#[test]
fn months_are_read_by_number_or_name() {
    assert_eq!(parse_month("1"), Ok(1));
    assert_eq!(parse_month("12"), Ok(12));
    assert_eq!(parse_month("+7"), Ok(7));
    assert_eq!(parse_month("jan"), Ok(1));
    assert_eq!(parse_month("JANUARY"), Ok(1));
    assert_eq!(parse_month("d"), Ok(12));
    assert_eq!(parse_month("May"), Ok(5));
    assert_eq!(parse_month("ma"), Err("Invalid month \"ma\"".to_string()));
    assert_eq!(parse_month("ju"), Err("Invalid month \"ju\"".to_string()));
    assert_eq!(parse_month("jun"), Ok(6));
    assert_eq!(parse_month(""), Err("Invalid month \"\"".to_string()));
    assert_eq!(parse_month("Januaryy"), Err("Invalid month \"Januaryy\"".to_string()));
    assert_eq!(parse_month("foo"), Err("Invalid month \"foo\"".to_string()));
    assert_eq!(parse_month("-1"), Err("Invalid month \"-1\"".to_string()));
    assert_eq!(
        parse_month("0"),
        Err("month \"0\" not in the range 1 through 12".to_string())
    );
    assert_eq!(
        parse_month("13"),
        Err("month \"13\" not in the range 1 through 12".to_string())
    );
    assert_eq!(
        parse_month("4294967296"),
        Err("Invalid month \"4294967296\"".to_string())
    );
}

#[test]
fn years_are_read_within_bounds() {
    assert_eq!(parse_year("1"), Ok(1));
    assert_eq!(parse_year("9999"), Ok(9999));
    assert_eq!(parse_year("+2020"), Ok(2020));
    assert_eq!(
        parse_year("0"),
        Err("year \"0\" not in the range 1 through 9999".to_string())
    );
    assert_eq!(
        parse_year("10000"),
        Err("year \"10000\" not in the range 1 through 9999".to_string())
    );
    assert_eq!(
        parse_year("-1"),
        Err("year \"-1\" not in the range 1 through 9999".to_string())
    );
    assert_eq!(parse_year("foo"), Err("Invalid integer \"foo\"".to_string()));
    assert_eq!(
        parse_year("2147483648"),
        Err("Invalid integer \"2147483648\"".to_string())
    );
}

#[test]
fn settings_fall_back_on_today() {
    let today = date(2024, 3, 9);
    let c = Config::new(None, None, false, today).unwrap();
    assert_eq!((c.month, c.year, c.today), (Some(3), 2024, today));
    let c = Config::new(None, None, true, today).unwrap();
    assert_eq!((c.month, c.year), (None, 2024));
    let c = Config::new(None, Some("1999"), false, today).unwrap();
    assert_eq!((c.month, c.year), (None, 1999));
    let c = Config::new(Some("feb"), Some("1999"), false, today).unwrap();
    assert_eq!((c.month, c.year), (Some(2), 1999));
    let c = Config::new(Some("11"), None, true, today).unwrap();
    assert_eq!((c.month, c.year), (Some(11), 2024));
    assert_eq!(
        Config::new(Some("x"), Some("y"), false, today).unwrap_err(),
        "Invalid month \"x\""
    );
    assert_eq!(
        Config::new(Some("1"), Some("y"), false, today).unwrap_err(),
        "Invalid integer \"y\""
    );
    let c = Config::new(Some("4"), Some("2021"), false, date(2021, 4, 7)).unwrap();
    assert_eq!(c.page(), format_month(2021, 4, true, date(2021, 4, 7)));
    let c = Config::new(None, Some("2021"), false, date(2021, 4, 7)).unwrap();
    assert_eq!(c.page(), format_year(2021, date(2021, 4, 7)));
}

#[test]
fn the_calendar_has_the_days_that_chrono_has() {
    let years = [
        -262144, -262143, -262142, -401, -400, -100, -4, -1, 0, 1, 4, 100, 400, 1582, 1600, 1700,
        1900, 1999, 2000, 2001, 2020, 2021, 2100, 2400, 9999, 262141, 262142, 262143, i32::MAX,
        i32::MIN,
    ];
    for year in years {
        for month in [0u32, 1, 2, 3, 4, 5, 6, 7, 8, 9, 10, 11, 12, 13, u32::MAX] {
            for day in [0u32, 1, 2, 27, 28, 29, 30, 31, 32, u32::MAX] {
                assert_eq!(
                    valid_date(year, month, day),
                    NaiveDate::from_ymd_opt(year, month, day).is_some(),
                    "{} {} {}",
                    year,
                    month,
                    day
                );
            }
        }
    }
}

#[test]
fn leap_years_and_month_lengths_follow_chrono() {
    for year in [-262143, -400, -100, -5, -4, -1, 0, 1, 1900, 2000, 2023, 2024, 2100, 262142] {
        let leap = NaiveDate::from_ymd_opt(year, 2, 29).is_some();
        assert_eq!(leap_year(year), leap, "{}", year);
        for month in 1..=12u32 {
            let length = (28..=31)
                .rev()
                .find(|&d| NaiveDate::from_ymd_opt(year, month, d).is_some())
                .unwrap();
            assert_eq!(days_in_month(year, month), length, "{} {}", year, month);
        }
    }
}

#[test]
fn the_day_before_follows_chrono() {
    for (y, m, d) in [
        (2020, 3, 1),
        (2021, 3, 1),
        (2000, 3, 1),
        (1900, 3, 1),
        (2020, 1, 1),
        (2020, 5, 1),
        (2020, 12, 31),
        (2020, 8, 1),
        (1, 1, 1),
        (0, 1, 1),
        (-4, 3, 1),
        (262142, 12, 31),
        (-262143, 1, 2),
        (-262142, 1, 1),
    ] {
        let before = NaiveDate::from_ymd_opt(y, m, d).unwrap().pred_opt().unwrap();
        assert_eq!(
            day_before(date(y, m, d)),
            date(before.year(), before.month(), before.day())
        );
    }
}

#[test]
fn months_are_called_as_chrono_calls_them() {
    for m in 1..=12u8 {
        assert_eq!(month_name(m as u32), Month::try_from(m).unwrap().name());
    }
}
