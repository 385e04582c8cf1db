use textkit::catr::{cat_line, open_failure, Config};

fn config(number_lines: bool, number_nonblank_lines: bool) -> Config {
    Config {
        files: vec!["-".to_string()],
        number_lines,
        number_nonblank_lines,
    }
}

#[test]
fn lines_are_copied_without_numbers() {
    let c = config(false, false);
    assert_eq!(cat_line(&c, 0, "abc"), ("abc".to_string(), 0));
    assert_eq!(cat_line(&c, 5, ""), ("".to_string(), 5));
}

#[test]
fn every_line_is_numbered() {
    let c = config(true, false);
    assert_eq!(cat_line(&c, 0, "abc"), (format!("{:>6}\t{}", 1, "abc"), 1));
    assert_eq!(cat_line(&c, 1, ""), (format!("{:>6}\t{}", 2, ""), 2));
    assert_eq!(cat_line(&c, 999_999, "x"), ("1000000\tx".to_string(), 1_000_000));
}

#[test]
fn empty_lines_are_passed_over_in_numbering() {
    let c = config(false, true);
    assert_eq!(cat_line(&c, 0, "abc"), ("     1\tabc".to_string(), 1));
    assert_eq!(cat_line(&c, 1, ""), ("".to_string(), 1));
    assert_eq!(cat_line(&c, 1, " "), ("     2\t ".to_string(), 2));
}

#[test]
fn a_file_that_cannot_be_opened_is_named() {
    assert_eq!(
        open_failure("nofile", "No such file or directory (os error 2)"),
        "Failed to open nofile: No such file or directory (os error 2)"
    );
}
