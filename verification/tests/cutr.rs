use csv::StringRecord;
use textkit::cutr::config::{Config, ConfigError};
use textkit::cutr::driver::{Driver, Event, Output, Request};
use textkit::cutr::extract::{
    extract_bytes, extract_chars, extract_fields, select_bytes, select_units, Extract,
};
use textkit::cutr::positions::{parse_entry, parse_pos, parse_positive_int, ParseError};

#[test]
fn test_parse_pos() {
    // The empty string is an error
    assert!(parse_pos("").is_err());

    // Zero is an error
    let res = parse_pos("0");
    assert!(res.is_err());
    assert_eq!(res.unwrap_err().to_string(), "illegal list value: \"0\"",);

    let res = parse_pos("0-1");
    assert!(res.is_err());
    assert_eq!(res.unwrap_err().to_string(), "illegal list value: \"0\"",);

    // A leading "+" is an error
    let res = parse_pos("+1");
    assert!(res.is_err());
    assert_eq!(res.unwrap_err().to_string(), "illegal list value: \"+1\"",);

    let res = parse_pos("+1-2");
    assert!(res.is_err());
    assert_eq!(res.unwrap_err().to_string(), "illegal list value: \"+1-2\"",);

    let res = parse_pos("1-+2");
    assert!(res.is_err());
    assert_eq!(res.unwrap_err().to_string(), "illegal list value: \"1-+2\"",);

    // Any non-number is an error
    let res = parse_pos("a");
    assert!(res.is_err());
    assert_eq!(res.unwrap_err().to_string(), "illegal list value: \"a\"",);

    let res = parse_pos("1,a");
    assert!(res.is_err());
    assert_eq!(res.unwrap_err().to_string(), "illegal list value: \"a\"",);

    let res = parse_pos("1-a");
    assert!(res.is_err());
    assert_eq!(res.unwrap_err().to_string(), "illegal list value: \"1-a\"",);

    let res = parse_pos("a-1");
    assert!(res.is_err());
    assert_eq!(res.unwrap_err().to_string(), "illegal list value: \"a-1\"",);

    // Wonky ranges
    let res = parse_pos("-");
    assert!(res.is_err());

    let res = parse_pos(",");
    assert!(res.is_err());

    let res = parse_pos("1,");
    assert!(res.is_err());

    let res = parse_pos("1-");
    assert!(res.is_err());

    let res = parse_pos("1-1-1");
    assert!(res.is_err());

    let res = parse_pos("1-1-a");
    assert!(res.is_err());

    // First number must be less than second
    let res = parse_pos("1-1");
    assert!(res.is_err());
    assert_eq!(
        res.unwrap_err().to_string(),
        "First number in range (1) must be lower than second number (1)"
    );

    let res = parse_pos("2-1");
    assert!(res.is_err());
    assert_eq!(
        res.unwrap_err().to_string(),
        "First number in range (2) must be lower than second number (1)"
    );

    // All the following are acceptable
    let res = parse_pos("1");
    assert!(res.is_ok());
    assert_eq!(res.unwrap(), vec![0..1]);

    let res = parse_pos("01");
    assert!(res.is_ok());
    assert_eq!(res.unwrap(), vec![0..1]);

    let res = parse_pos("1,3");
    assert!(res.is_ok());
    assert_eq!(res.unwrap(), vec![0..1, 2..3]);

    let res = parse_pos("001,0003");
    assert!(res.is_ok());
    assert_eq!(res.unwrap(), vec![0..1, 2..3]);

    let res = parse_pos("1-3");
    assert!(res.is_ok());
    assert_eq!(res.unwrap(), vec![0..3]);

    let res = parse_pos("0001-03");
    assert!(res.is_ok());
    assert_eq!(res.unwrap(), vec![0..3]);

    let res = parse_pos("1,7,3-5");
    assert!(res.is_ok());
    assert_eq!(res.unwrap(), vec![0..1, 6..7, 2..5]);

    let res = parse_pos("15,19-20");
    assert!(res.is_ok());
    assert_eq!(res.unwrap(), vec![14..15, 18..20]);
}

#[test]
fn test_extract_chars() {
    assert_eq!(extract_chars("", &[0..1]), "".to_string());
    assert_eq!(extract_chars("ábc", &[0..1]), "á".to_string());
    assert_eq!(extract_chars("ábc", &[0..1, 2..3]), "ác".to_string());
    assert_eq!(extract_chars("ábc", &[0..3]), "ábc".to_string());
    assert_eq!(extract_chars("ábc", &[2..3, 1..2]), "cb".to_string());
    assert_eq!(extract_chars("ábc", &[0..1, 1..2, 4..5]), "áb".to_string());
}

#[test]
fn test_extract_bytes() {
    assert_eq!(extract_bytes("ábc", &[0..1]), "�".to_string());
    assert_eq!(extract_bytes("ábc", &[0..2]), "á".to_string());
    assert_eq!(extract_bytes("ábc", &[0..3]), "áb".to_string());
    assert_eq!(extract_bytes("ábc", &[0..4]), "ábc".to_string());
    assert_eq!(extract_bytes("ábc", &[3..4, 2..3]), "cb".to_string());
    assert_eq!(extract_bytes("ábc", &[0..2, 5..6]), "á".to_string());
}

#[test]
fn test_extract_fields() {
    let rec = StringRecord::from(vec!["Captain", "Sham", "12345"]);
    assert_eq!(extract_fields(&rec, &[0..1]), &["Captain"]);
    assert_eq!(extract_fields(&rec, &[1..2]), &["Sham"]);
    assert_eq!(extract_fields(&rec, &[0..1, 2..3]), &["Captain", "12345"]);
    assert_eq!(extract_fields(&rec, &[0..1, 3..4]), &["Captain"]);
    assert_eq!(extract_fields(&rec, &[1..2, 0..1]), &["Sham", "Captain"]);
}

#[test]
fn parse_positive_int_follows_the_number_grammar() {
    assert_eq!(parse_positive_int("3").unwrap(), 3);
    assert_eq!(parse_positive_int("+3").unwrap(), 3);
    assert_eq!(parse_positive_int("007").unwrap(), 7);
    assert_eq!(
        parse_positive_int("0").unwrap_err().to_string(),
        "illegal list value: \"0\""
    );
    assert_eq!(
        parse_positive_int("00").unwrap_err().to_string(),
        "illegal list value: \"0\""
    );
    for bad in ["", "a", "+", "-", "-1", "1a", " 1", "99999999999999999999999999"] {
        let expected = format!(
            "illegal list value: \"{}\"",
            bad.parse::<usize>().unwrap_err()
        );
        assert_eq!(parse_positive_int(bad).unwrap_err().to_string(), expected);
    }
}

fn files(names: &[&str]) -> Vec<String> {
    names.iter().map(|n| n.to_string()).collect()
}

#[test]
fn the_empty_list_is_refused_as_empty() {
    assert_eq!(parse_pos("").unwrap_err().to_string(), "empty string");
    assert_eq!(parse_pos(",").unwrap_err().to_string(), "illegal list value: \"\"");
    assert_eq!(parse_pos("1,").unwrap_err().to_string(), "illegal list value: \"\"");
    assert_eq!(parse_pos("1-").unwrap_err().to_string(), "illegal list value: \"1-\"");
    assert_eq!(parse_pos("-").unwrap_err().to_string(), "illegal list value: \"-\"");
    assert_eq!(parse_pos("1-1-1").unwrap_err().to_string(), "illegal list value: \"1-1-1\"");
    assert_eq!(parse_pos("1,,2").unwrap_err().to_string(), "illegal list value: \"\"");
    assert_eq!(parse_pos(" 1").unwrap_err().to_string(), "illegal list value: \" 1\"");
    assert_eq!(parse_pos("١").unwrap_err().to_string(), "illegal list value: \"١\"");
}

#[test]
fn the_first_entry_that_is_refused_decides() {
    assert_eq!(parse_pos("2-1,a").unwrap_err().to_string(),
        "First number in range (2) must be lower than second number (1)");
    assert_eq!(parse_pos("a,2-1").unwrap_err().to_string(), "illegal list value: \"a\"");
    assert_eq!(parse_pos("1,0,a").unwrap_err().to_string(), "illegal list value: \"0\"");
    assert_eq!(parse_pos("5-0").unwrap_err().to_string(), "illegal list value: \"0\"");
    assert_eq!(parse_pos("0-0").unwrap_err().to_string(), "illegal list value: \"0\"");
    assert_eq!(parse_pos("00").unwrap_err().to_string(), "illegal list value: \"0\"");
    assert_eq!(
        parse_pos("10-9").unwrap_err().to_string(),
        "First number in range (10) must be lower than second number (9)"
    );
}

#[test]
fn numbers_beyond_the_machine_word_are_refused() {
    let huge = "99999999999999999999999999";
    let reason = huge.parse::<usize>().unwrap_err().to_string();
    let expected = format!("illegal list value: \"{}\"", reason);
    assert_eq!(parse_pos(huge).unwrap_err().to_string(), expected);
    assert_eq!(parse_pos(&format!("1-{}", huge)).unwrap_err().to_string(), expected);
    let max = usize::MAX.to_string();
    assert_eq!(parse_pos(&max).unwrap(), vec![usize::MAX - 1..usize::MAX]);
    assert_eq!(parse_pos(&format!("1-{}", max)).unwrap(), vec![0..usize::MAX]);
}

#[test]
fn duplicates_and_overlaps_are_kept() {
    assert_eq!(parse_pos("1,1,1-3,2-3").unwrap(), vec![0..1, 0..1, 0..3, 1..3]);
    assert_eq!(extract_chars("abc", &[0..1, 0..1, 0..3, 1..3]), "aaabcbc");
    let entry: Vec<char> = "3-5".chars().collect();
    assert_eq!(parse_entry(&entry).unwrap(), 2..5);
    assert!(matches!(parse_entry(&[]), Err(ParseError::IllegalValue(_))));
}

#[test]
fn selecting_is_the_same_every_time() {
    let list = parse_pos("2,1,5-9,1-2").unwrap();
    for line in ["", "a", "ábc", "hello, world", "𝄞𝄞𝄞"] {
        assert_eq!(extract_chars(line, &list), extract_chars(line, &list));
        assert_eq!(extract_bytes(line, &list), extract_bytes(line, &list));
        assert_eq!(select_bytes(line, &list), select_bytes(line, &list));
    }
    let rec = StringRecord::from(vec!["a", "b", "c"]);
    assert_eq!(extract_fields(&rec, &list), extract_fields(&rec, &list));
    assert_eq!(extract_fields(&rec, &list), vec!["b", "a", "a", "b"]);
}

#[test]
fn ranges_that_hold_nothing_pick_nothing() {
    let backwards = std::ops::Range { start: 2, end: 1 };
    assert_eq!(extract_chars("abc", &[1..1, backwards.clone(), 3..9, 7..8]), "");
    assert_eq!(extract_bytes("abc", &[1..1, backwards.clone(), 3..9]), "");
    assert_eq!(select_units(&[1, 2, 3], &[backwards, 2..usize::MAX]), vec![3]);
    assert_eq!(select_units::<u8>(&[], &[0..5]), Vec::<u8>::new());
    assert_eq!(extract_fields(&StringRecord::new(), &[0..1]), Vec::<String>::new());
    assert_eq!(extract_chars("abc", &[]), "");
}

#[test]
fn bytes_and_chars_agree_on_ascii() {
    let list = parse_pos("3,1-2,2-100").unwrap();
    for line in ["", "a", "plain ascii text", "tab\tsep"] {
        assert_eq!(extract_bytes(line, &list), extract_chars(line, &list));
    }
    assert_eq!(extract_bytes("ábc", &[0..1000]), "ábc");
    assert_eq!(extract_bytes("ábc", &[1..2]), "\u{fffd}");
    assert_eq!(extract_bytes("ábc", &[1..2, 0..1]), "\u{fffd}\u{fffd}");
    assert_eq!(extract_bytes("ábc", &[1..2, 2..3]), "\u{fffd}b");
}

#[test]
fn settings_are_checked_in_order() {
    let err = Config::new(files(&["-"]), ",,", None, None, None).unwrap_err();
    assert_eq!(err.to_string(), "--delim \",,\" must be a single byte");
    let err = Config::new(files(&["-"]), "", Some("x"), None, None).unwrap_err();
    assert_eq!(err.to_string(), "--delim \"\" must be a single byte");
    let err = Config::new(files(&["-"]), "é", Some("1"), None, None).unwrap_err();
    assert_eq!(err.to_string(), "--delim \"é\" must be a single byte");
    let err = Config::new(files(&["-"]), "\t", None, None, None).unwrap_err();
    assert!(matches!(err, ConfigError::NoMode));
    assert_eq!(err.to_string(), "Must have --fields, --bytes, or --chars");
    let err = Config::new(files(&["-"]), "\t", Some("0"), Some("1"), None).unwrap_err();
    assert_eq!(err.to_string(), "illegal list value: \"0\"");
    let ok = Config::new(files(&["a", "b"]), ",", None, Some("1-2"), Some("x")).unwrap();
    assert_eq!(ok.files, files(&["a", "b"]));
    assert_eq!(ok.delimiter, b',');
    assert!(matches!(ok.extract, Extract::Bytes(ref list) if list == &vec![0..2]));
    let ok = Config::new(files(&[]), ",", Some("2"), Some("1"), Some("3")).unwrap();
    assert!(matches!(ok.extract, Extract::Fields(ref list) if list == &vec![1..2]));
    let ok = Config::new(files(&[]), ",", None, None, Some("3")).unwrap();
    assert!(matches!(ok.extract, Extract::Chars(ref list) if list == &vec![2..3]));
}

#[test]
fn a_file_that_fails_to_open_is_passed_over() {
    let config = Config::new(files(&["missing", "present"]), "\t", None, None, Some("1,3")).unwrap();
    let mut driver = Driver::new();
    assert_eq!(driver.request(&config), Request::Open(0));
    let step = driver.react(&config, Event::OpenFailed("No such file or directory (os error 2)"));
    assert_eq!(
        step.output,
        Output::Diagnostic("missing: No such file or directory (os error 2)".to_string())
    );
    assert_eq!(step.request, Request::Open(1));
    let step = driver.react(&config, Event::Opened);
    assert_eq!((step.output, step.request), (Output::Nothing, Request::ReadLine));
    let step = driver.react(&config, Event::Line("ábc"));
    assert_eq!((step.output, step.request), (Output::Line("ác".to_string()), Request::ReadLine));
    let step = driver.react(&config, Event::Line(""));
    assert_eq!((step.output, step.request), (Output::Line("".to_string()), Request::ReadLine));
    let step = driver.react(&config, Event::EndOfFile);
    assert_eq!((step.output, step.request), (Output::Nothing, Request::Finish));
    assert_eq!(driver, Driver { file: 2, reading: false });
    let step = driver.react(&config, Event::Opened);
    assert_eq!((step.output, step.request), (Output::Nothing, Request::Finish));
}

#[test]
fn records_are_cut_by_fields() {
    let config = Config::new(files(&["-"]), ",", Some("2,1,7"), None, None).unwrap();
    let mut driver = Driver::new();
    assert_eq!(driver.react(&config, Event::Opened).request, Request::ReadRecord);
    let record = StringRecord::from(vec!["Captain", "Sham", "12345"]);
    let step = driver.react(&config, Event::Record(&record));
    assert_eq!(
        step.output,
        Output::Record(vec!["Sham".to_string(), "Captain".to_string()])
    );
    assert_eq!(step.request, Request::ReadRecord);
    let step = driver.react(&config, Event::Line("a,b"));
    assert_eq!((step.output, step.request), (Output::Nothing, Request::ReadRecord));
    let step = driver.react(&config, Event::ReadFailed("invalid utf-8"));
    assert_eq!(
        (step.output, step.request),
        (Output::Diagnostic("-: invalid utf-8".to_string()), Request::Finish)
    );
    assert_eq!(driver.request(&config), Request::Finish);
}

#[test]
fn a_file_that_fails_to_be_read_is_passed_over() {
    for (mode, asks) in [("chars", Request::ReadLine), ("fields", Request::ReadRecord)] {
        let config = if mode == "chars" {
            Config::new(files(&["a", "b"]), ",", None, None, Some("2")).unwrap()
        } else {
            Config::new(files(&["a", "b"]), ",", Some("2"), None, None).unwrap()
        };
        let record = StringRecord::from(vec!["x", "y"]);
        let mut driver = Driver::new();
        assert_eq!(driver.react(&config, Event::Opened).request, asks);
        let step = driver.react(&config, Event::ReadFailed("Input/output error (os error 5)"));
        assert_eq!(
            step.output,
            Output::Diagnostic("a: Input/output error (os error 5)".to_string())
        );
        assert_eq!(step.request, Request::Open(1));
        assert_eq!(driver, Driver { file: 1, reading: false });
        // what is left of the first file is not taken in
        let step = driver.react(&config, Event::Line("x,y"));
        assert_eq!((step.output, step.request), (Output::Nothing, Request::Open(1)));
        let step = driver.react(&config, Event::Record(&record));
        assert_eq!((step.output, step.request), (Output::Nothing, Request::Open(1)));
        // the second file is cut as if nothing had failed
        assert_eq!(driver.react(&config, Event::Opened).request, asks);
        let step = if mode == "chars" {
            driver.react(&config, Event::Line("x,y"))
        } else {
            driver.react(&config, Event::Record(&record))
        };
        let expected = if mode == "chars" {
            Output::Line(",".to_string())
        } else {
            Output::Record(vec!["y".to_string()])
        };
        assert_eq!((step.output, step.request), (expected, asks));
        let step = driver.react(&config, Event::EndOfFile);
        assert_eq!((step.output, step.request), (Output::Nothing, Request::Finish));
    }
}

#[test]
fn a_failed_read_out_of_turn_is_ignored() {
    let config = Config::new(files(&["a"]), ",", None, None, Some("1")).unwrap();
    let mut driver = Driver::new();
    let step = driver.react(&config, Event::ReadFailed("early"));
    assert_eq!((step.output, step.request), (Output::Nothing, Request::Open(0)));
    driver.react(&config, Event::Opened);
    driver.react(&config, Event::EndOfFile);
    let step = driver.react(&config, Event::ReadFailed("late"));
    assert_eq!((step.output, step.request), (Output::Nothing, Request::Finish));
    assert_eq!(driver, Driver { file: 1, reading: false });
}

#[test]
fn bytes_are_cut_leniently_and_events_out_of_turn_are_ignored() {
    let config = Config::new(files(&["a"]), "\t", None, Some("1"), None).unwrap();
    let mut driver = Driver::new();
    let step = driver.react(&config, Event::Line("ábc"));
    assert_eq!((step.output, step.request), (Output::Nothing, Request::Open(0)));
    let step = driver.react(&config, Event::EndOfFile);
    assert_eq!((step.output, step.request), (Output::Nothing, Request::Open(0)));
    driver.react(&config, Event::Opened);
    let step = driver.react(&config, Event::OpenFailed("late"));
    assert_eq!((step.output, step.request), (Output::Nothing, Request::ReadLine));
    let step = driver.react(&config, Event::Line("ábc"));
    assert_eq!(step.output, Output::Line("\u{fffd}".to_string()));
    let none = Config::new(files(&[]), "\t", None, Some("1"), None).unwrap();
    assert_eq!(Driver::new().request(&none), Request::Finish);
}

#[test]
fn lists_that_are_refused() {
    for list in ["", ",", "1,", "1-", "1-1-1"] {
        assert!(parse_pos(list).is_err(), "{:?}", list);
    }
    for list in ["0", "0-1"] {
        assert_eq!(parse_pos(list).unwrap_err().to_string(), "illegal list value: \"0\"");
    }
    for list in ["+1", "1-+2", "a", "1-a"] {
        assert_eq!(
            parse_pos(list).unwrap_err().to_string(),
            format!("illegal list value: \"{}\"", list)
        );
    }
    assert_eq!(
        parse_pos("1-1").unwrap_err().to_string(),
        "First number in range (1) must be lower than second number (1)"
    );
    assert_eq!(
        parse_pos("2-1").unwrap_err().to_string(),
        "First number in range (2) must be lower than second number (1)"
    );
}

#[test]
fn lists_that_are_accepted() {
    assert_eq!(parse_pos("1").unwrap(), vec![0..1]);
    assert_eq!(parse_pos("01").unwrap(), vec![0..1]);
    assert_eq!(parse_pos("1,3").unwrap(), vec![0..1, 2..3]);
    assert_eq!(parse_pos("1,7,3-5").unwrap(), vec![0..1, 6..7, 2..5]);
    assert_eq!(parse_pos("15,19-20").unwrap(), vec![14..15, 18..20]);
}

#[test]
fn characters_follow_the_list() {
    assert_eq!(extract_chars("", &[0..1]), "");
    assert_eq!(extract_chars("ábc", &[0..1, 2..3]), "ác");
    assert_eq!(extract_chars("ábc", &[2..3, 1..2]), "cb");
    assert_eq!(extract_chars("ábc", &[0..1, 4..5]), "á");
}

#[test]
fn bytes_are_decoded_leniently() {
    assert_eq!(extract_bytes("ábc", &[0..1]), "\u{fffd}");
    assert_eq!(extract_bytes("ábc", &[0..2]), "á");
    assert_eq!(extract_bytes("", &[0..1]), "");
}

#[test]
fn fields_follow_the_list() {
    let record = StringRecord::from(vec!["Captain", "Sham", "12345"]);
    assert_eq!(extract_fields(&record, &[0..1]), vec!["Captain"]);
    assert_eq!(extract_fields(&record, &[1..2, 0..1]), vec!["Sham", "Captain"]);
    assert_eq!(extract_fields(&record, &[0..1, 3..4]), vec!["Captain"]);
}
