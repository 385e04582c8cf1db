use textkit::fortuner::parse_u64;

#[test]
fn test_parse_u64() {
    let res = parse_u64("a");
    assert!(res.is_err());
    assert_eq!(res.unwrap_err().to_string(), "\"a\" not a valid integer");
    let res = parse_u64("0");
    assert!(res.is_ok());
    assert_eq!(res.unwrap(), 0);
    let res = parse_u64("4");
    assert!(res.is_ok());
    assert_eq!(res.unwrap(), 4);
}

#[test]
fn parse_u64_at_the_largest_seed() {
    assert_eq!(parse_u64("18446744073709551615").unwrap(), u64::MAX);
    assert_eq!(
        parse_u64("18446744073709551616").unwrap_err(),
        "\"18446744073709551616\" not a valid integer"
    );
    assert_eq!(parse_u64("+7").unwrap(), 7);
    assert_eq!(parse_u64("").unwrap_err(), "\"\" not a valid integer");
}
