use textkit::wcr::{count, format_cols, format_field, total, Config, FileInfo};

#[test]
fn test_count() {
    let text = "I don't want the world. I just want your half.\r\n";
    let info = count(text);
    let expected = FileInfo {
        num_lines: 1,
        num_words: 10,
        num_chars: 48,
        num_bytes: 48,
    };
    assert_eq!(info, expected);
}

#[test]
fn count_agrees_with_the_standard_iterators() {
    for text in [
        "",
        "\n",
        "a",
        "a\n",
        "a\nb",
        "  two  words \n\n last",
        "tab\tand\u{a0}hard\u{3000}space\u{2028}sep",
        "ábc ü\r\n€ 𝄞\n",
        "\n\n\n",
    ] {
        let info = count(text);
        let lines = text.split_inclusive('\n').count();
        assert_eq!(info.num_lines, lines);
        assert_eq!(info.num_words, text.split_whitespace().count());
        assert_eq!(info.num_chars, text.chars().count());
        assert_eq!(info.num_bytes, text.len());
    }
}

#[test]
fn format_field_fills_eight_places() {
    assert_eq!(format_field(1, true), "       1");
    assert_eq!(format_field(0, true), "       0");
    assert_eq!(format_field(12345678, true), "12345678");
    assert_eq!(format_field(123456789, true), "123456789");
    assert_eq!(format_field(7, false), "");
    assert_eq!(format_field(usize::MAX, true), format!("{:>8}", usize::MAX));
}

#[test]
fn plus_adds_count_by_count() {
    let a = FileInfo { num_lines: 1, num_words: 2, num_bytes: 3, num_chars: 4 };
    let b = FileInfo { num_lines: 10, num_words: 20, num_bytes: 30, num_chars: 40 };
    let expected = FileInfo { num_lines: 11, num_words: 22, num_bytes: 33, num_chars: 44 };
    assert_eq!(a.plus(&b), expected);
    assert_eq!(a.plus(&FileInfo::zero()), a);
}

#[test]
fn columns_default_to_lines_words_and_bytes() {
    let c = Config::new(vec![], false, false, false, false);
    assert_eq!((c.lines, c.words, c.bytes, c.chars), (true, true, true, false));
    let c = Config::new(vec![], false, false, false, true);
    assert_eq!((c.lines, c.words, c.bytes, c.chars), (false, false, false, true));
    let c = Config::new(vec![], true, false, false, false);
    assert_eq!((c.lines, c.words, c.bytes, c.chars), (true, false, false, false));
}

#[test]
fn a_report_line_shows_the_columns_asked_for() {
    let info = FileInfo { num_lines: 1, num_words: 4, num_bytes: 23, num_chars: 22 };
    let all = Config::new(vec![], false, false, false, false);
    assert_eq!(format_cols(&all, &info, "atlamal.txt"), "       1       4      23 atlamal.txt");
    assert_eq!(format_cols(&all, &info, "-"), "       1       4      23");
    assert_eq!(format_cols(&all, &info, "--"), "       1       4      23 --");
    let chars = Config::new(vec![], false, false, false, true);
    assert_eq!(format_cols(&chars, &info, "f"), "      22 f");
    let both = Config { files: vec![], lines: true, words: false, bytes: true, chars: true };
    assert_eq!(format_cols(&both, &info, "f"), "       1      23 f");
    assert_eq!(total(&[]), FileInfo::zero());
    assert_eq!(
        total(&[info, info, info]),
        FileInfo { num_lines: 3, num_words: 12, num_bytes: 69, num_chars: 66 }
    );
}
