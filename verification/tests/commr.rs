use textkit::commr::{
    both_stdin, compare_lines, fold_case, format_column, open_failure, step, Column, Config, Order,
};

fn config(show: (bool, bool, bool), delimiter: &str) -> Config {
    Config {
        file1: "a".to_string(),
        file2: "-".to_string(),
        show_col1: show.0,
        show_col2: show.1,
        show_col3: show.2,
        insensitive: false,
        delimiter: delimiter.to_string(),
    }
}

#[test]
fn lines_are_ordered_as_strings_are() {
    let words = ["", "a", "A", "ab", "b", "á", "z", "€", "a\n", "𝄞", "aa"];
    for x in words {
        for y in words {
            let expected = match x.cmp(y) {
                std::cmp::Ordering::Less => Order::Less,
                std::cmp::Ordering::Equal => Order::Equal,
                std::cmp::Ordering::Greater => Order::Greater,
            };
            assert_eq!(compare_lines(x, y), expected, "{:?} {:?}", x, y);
        }
    }
}

#[test]
fn the_line_that_comes_first_is_shown() {
    let m = step(Some("a"), Some("b")).unwrap();
    assert!(matches!(m.column, Column::Col1("a")));
    assert!(m.advance1 && !m.advance2);
    let m = step(Some("b"), Some("a")).unwrap();
    assert!(matches!(m.column, Column::Col2("a")));
    assert!(!m.advance1 && m.advance2);
    let m = step(Some("a"), Some("a")).unwrap();
    assert!(matches!(m.column, Column::Col3("a")));
    assert!(m.advance1 && m.advance2);
    let m = step(Some("a"), None).unwrap();
    assert!(matches!(m.column, Column::Col1("a")));
    assert!(m.advance1 && !m.advance2);
    let m = step(None, Some("b")).unwrap();
    assert!(matches!(m.column, Column::Col2("b")));
    assert!(!m.advance1 && m.advance2);
    assert!(step(None, None).is_none());
}

#[test]
fn columns_are_set_off_by_delimiters() {
    let all = config((true, true, true), "\t");
    assert_eq!(format_column(&all, Column::Col1("x")), Some("x".to_string()));
    assert_eq!(format_column(&all, Column::Col2("x")), Some("\tx".to_string()));
    assert_eq!(format_column(&all, Column::Col3("x")), Some("\t\tx".to_string()));
    let no_first = config((false, true, true), "--");
    assert_eq!(format_column(&no_first, Column::Col1("x")), None);
    assert_eq!(format_column(&no_first, Column::Col2("x")), Some("x".to_string()));
    assert_eq!(format_column(&no_first, Column::Col3("x")), Some("--x".to_string()));
    let only_third = config((false, false, true), ":");
    assert_eq!(format_column(&only_third, Column::Col2("x")), None);
    assert_eq!(format_column(&only_third, Column::Col3("x")), Some("x".to_string()));
    let no_third = config((true, true, false), ":");
    assert_eq!(format_column(&no_third, Column::Col3("x")), None);
    let no_second = config((true, false, true), ":");
    assert_eq!(format_column(&no_second, Column::Col3("")), Some(":".to_string()));
}

#[test]
fn case_is_folded_where_it_does_not_count() {
    let mut c = config((true, true, true), "\t");
    assert_eq!(fold_case(&c, "AbÇ".to_string()), "AbÇ");
    c.insensitive = true;
    assert_eq!(fold_case(&c, "AbÇ".to_string()), "abç");
}

#[test]
fn the_standard_input_cannot_be_read_twice() {
    let mut c = config((true, true, true), "\t");
    assert!(!both_stdin(&c));
    c.file1 = "-".to_string();
    assert!(both_stdin(&c));
    c.file2 = "--".to_string();
    assert!(!both_stdin(&c));
    assert_eq!(open_failure("f", "gone"), "f: gone");
}
