use textkit::grepr::{classify, find_lines, report, Config, PathKind, Search};
use textkit::pattern::Pattern;

fn lines() -> Vec<String> {
    vec!["Lorem\n".to_string(), "Ipsum\r\n".to_string(), "DOLOR".to_string()]
}

#[test]
fn test_find_lines() {
    let text = lines();
    // The pattern _or_ should match the one line, "Lorem"
    let re1 = Pattern::new("or", false).unwrap();
    let matches = find_lines(&text, &re1, false);
    assert_eq!(matches.len(), 1);
    // When inverted, the function should match the other two lines
    let matches = find_lines(&text, &re1, true);
    assert_eq!(matches.len(), 2);
    // This regex will be case-insensitive
    let re2 = Pattern::new("or", true).unwrap();
    // The two lines "Lorem" and "DOLOR" should match
    let matches = find_lines(&text, &re2, false);
    assert_eq!(matches.len(), 2);
    // When inverted, the one remaining line should match
    let matches = find_lines(&text, &re2, true);
    assert_eq!(matches.len(), 1);
}

#[test]
fn found_lines_keep_their_order_and_text() {
    let text = lines();
    let re = Pattern::new("(?i)^[il]", false).unwrap();
    assert_eq!(find_lines(&text, &re, false), vec!["Lorem\n", "Ipsum\r\n"]);
    assert_eq!(find_lines(&text, &re, true), vec!["DOLOR"]);
    assert_eq!(find_lines(&[], &re, true), Vec::<String>::new());
}

#[test]
fn a_bad_pattern_is_complained_of() {
    assert!(Pattern::new("*foo", false).is_none());
    let err = Config::new("*foo", false, vec![], false, false, false).unwrap_err();
    assert_eq!(err, "Invalid pattern \"*foo\"");
    let ok = Config::new("fo+", true, vec!["-".to_string()], true, false, true).unwrap();
    assert_eq!(ok.files, vec!["-"]);
    assert!(ok.recursive && !ok.count && ok.invert_match);
    assert_eq!(find_lines(&["FOO".to_string()], &ok.pattern, false), vec!["FOO"]);
}

#[test]
fn paths_are_searched_walked_or_refused() {
    let missing = PathKind::Missing("No such file or directory (os error 2)".to_string());
    assert_eq!(classify("-", &missing, false), Search::File("-".to_string()));
    assert_eq!(classify("-", &PathKind::Directory, true), Search::File("-".to_string()));
    assert_eq!(
        classify("blargh", &missing, true),
        Search::Refuse("blargh: No such file or directory (os error 2)".to_string())
    );
    assert_eq!(
        classify("./tests/inputs", &PathKind::Directory, false),
        Search::Refuse("./tests/inputs is a directory".to_string())
    );
    assert_eq!(classify("./tests/inputs", &PathKind::Directory, true), Search::Walk);
    assert_eq!(classify("fox.txt", &PathKind::File, false), Search::File("fox.txt".to_string()));
    assert_eq!(classify("fox.txt", &PathKind::File, true), Search::File("fox.txt".to_string()));
}

#[test]
fn lines_are_reported_with_the_name_of_their_file() {
    let taken = vec!["one\n".to_string(), "two\n".to_string()];
    let mut c = Config::new("o", false, vec![], false, false, false).unwrap();
    assert_eq!(report(&c, 1, "f", &taken), "one\ntwo\n");
    assert_eq!(report(&c, 0, "f", &taken), "one\ntwo\n");
    assert_eq!(report(&c, 2, "f", &taken), "f:one\nf:two\n");
    assert_eq!(report(&c, 2, "f", &[]), "");
    c.count = true;
    assert_eq!(report(&c, 1, "f", &taken), "2\n");
    assert_eq!(report(&c, 2, "f", &taken), "f:2\n");
    assert_eq!(report(&c, 2, "f", &[]), "f:0\n");
}
