use textkit::findr::{times_listed, Config, Entry, EntryType};

fn entry(kind: &str, name: &str) -> Entry {
    Entry {
        is_dir: kind == "d",
        is_file: kind == "f" || kind == "lf",
        is_symlink: kind == "l" || kind == "lf",
        file_name: name.to_string(),
    }
}

fn config(names: &[&str], types: &[EntryType]) -> Config {
    let names: Vec<String> = names.iter().map(|n| n.to_string()).collect();
    Config::new(vec![".".to_string()], &names, types.to_vec()).unwrap()
}

#[test]
fn letters_stand_for_kinds() {
    assert_eq!(EntryType::from_letter("f"), Some(EntryType::File));
    assert_eq!(EntryType::from_letter("d"), Some(EntryType::Dir));
    assert_eq!(EntryType::from_letter("l"), Some(EntryType::Link));
    assert_eq!(EntryType::from_letter("x"), None);
    assert_eq!(EntryType::from_letter(""), None);
    assert_eq!(EntryType::from_letter("ff"), None);
}

#[test]
fn the_first_bad_name_is_complained_of() {
    let names = vec!["a.*".to_string(), "*.csv".to_string(), "(".to_string()];
    let err = Config::new(vec![], &names, vec![]).unwrap_err();
    assert_eq!(err, "Invalid --name \"*.csv\"");
}

#[test]
fn everything_is_listed_once_where_nothing_is_asked_for() {
    let c = config(&[], &[]);
    assert_eq!(times_listed(&c, &entry("f", "a.txt")), 1);
    assert_eq!(times_listed(&c, &entry("d", "dir")), 1);
}

#[test]
fn entries_are_listed_for_each_kind_and_name_that_fits() {
    let c = config(&[], &[EntryType::File]);
    assert_eq!(times_listed(&c, &entry("f", "a.txt")), 1);
    assert_eq!(times_listed(&c, &entry("d", "a.txt")), 0);
    let c = config(&[".*\\.txt"], &[]);
    assert_eq!(times_listed(&c, &entry("f", "a.txt")), 1);
    assert_eq!(times_listed(&c, &entry("f", "a.csv")), 0);
    assert_eq!(times_listed(&c, &entry("f", "A.TXT")), 0);
    let c = config(&["a", "txt", "z"], &[EntryType::File, EntryType::Link, EntryType::Dir]);
    assert_eq!(times_listed(&c, &entry("lf", "a.txt")), 4);
    assert_eq!(times_listed(&c, &entry("d", "a.txt")), 2);
    assert_eq!(times_listed(&c, &entry("d", "q")), 0);
    let c = config(&[], &[EntryType::File, EntryType::File]);
    assert_eq!(times_listed(&c, &entry("f", "q")), 2);
}
