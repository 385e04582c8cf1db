use textkit::headr::{head_bytes, header, open_failure, parse_positive_int, Config};

#[test]
fn test_parse_positive_int() {
    let res = parse_positive_int("3");
    assert!(res.is_ok());
    assert_eq!(res.unwrap(), 3);

    let res = parse_positive_int("foo");
    assert!(res.is_err());
    assert_eq!(res.unwrap_err().to_string(), "foo".to_string());

    let res = parse_positive_int("0");
    assert!(res.is_err());
    assert_eq!(res.unwrap_err().to_string(), "0".to_string());
}

#[test]
fn counts_agree_with_the_standard_parser() {
    for text in ["1", "+1", "0010", "", "+", "-1", "1.0", "18446744073709551615", "18446744073709551616", "٣"] {
        let expected = match text.parse::<usize>() {
            Ok(n) if n > 0 => Ok(n),
            _ => Err(text.to_string()),
        };
        assert_eq!(parse_positive_int(text), expected);
    }
}

#[test]
fn head_settings_are_checked_in_order() {
    let c = Config::new(vec!["-".to_string()], "10", None).unwrap();
    assert_eq!((c.lines, c.bytes), (10, None));
    let c = Config::new(vec![], "3", Some("4")).unwrap();
    assert_eq!((c.lines, c.bytes), (3, Some(4)));
    assert_eq!(
        Config::new(vec![], "0", Some("x")).unwrap_err(),
        "illegal line count -- 0"
    );
    assert_eq!(
        Config::new(vec![], "1", Some("x")).unwrap_err(),
        "illegal byte count -- x"
    );
}

#[test]
fn head_headings_and_bytes() {
    assert_eq!(header(0, "a.txt"), "==> a.txt <==");
    assert_eq!(header(1, "a.txt"), "\n==> a.txt <==");
    assert_eq!(head_bytes("ábc".as_bytes(), 1), "\u{fffd}");
    assert_eq!(head_bytes("ábc".as_bytes(), 2), "á");
    assert_eq!(head_bytes("ábc".as_bytes(), 4), "ábc");
    assert_eq!(head_bytes("ábc".as_bytes(), 100), "ábc");
    assert_eq!(head_bytes(b"", 3), "");
    assert_eq!(open_failure("f", "gone"), "head: f: gone");
}
