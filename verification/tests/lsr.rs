use textkit::lsr::{
    format_chunk, format_entry, format_mode, format_output, is_listed, missing, LongEntry,
};

#[test]
fn test_format_mode() {
    assert_eq!(format_mode(0o755), "rwxr-xr-x");
    assert_eq!(format_mode(0o421), "r---w---x");
}

#[test]
fn format_mode_ignores_higher_bits() {
    assert_eq!(format_mode(0), "---------");
    assert_eq!(format_mode(0o777), "rwxrwxrwx");
    assert_eq!(format_mode(0o100644), "rw-r--r--");
    assert_eq!(format_mode(u32::MAX), "rwxrwxrwx");
}

#[test]
fn format_chunk_marks_what_is_set() {
    assert_eq!(format_chunk((0o400, 0, 0o100)), "r-x");
    assert_eq!(format_chunk((0, 0o2, 0)), "-w-");
    assert_eq!(format_chunk((0, 0, 0)), "---");
}

fn entry(path: &str, is_dir: bool, mode: u32, size: u64, modified: i64) -> LongEntry {
    LongEntry {
        is_dir,
        mode,
        nlink: 1,
        user: "root".to_string(),
        group: "wheel".to_string(),
        size,
        modified,
        path: path.to_string(),
    }
}

fn long_match(line: &str, expected_name: &str, expected_perms: &str, expected_size: Option<&str>) {
    let parts: Vec<_> = line.split_whitespace().collect();
    assert!(parts.len() > 0 && parts.len() <= 10);
    let perms = parts.get(0).unwrap();
    assert_eq!(perms, &expected_perms);
    if let Some(size) = expected_size {
        let file_size = parts.get(4).unwrap();
        assert_eq!(file_size, &size);
    }
    let display_name = parts.last().unwrap();
    assert_eq!(display_name, &expected_name);
}

#[test]
fn a_long_line_shows_what_is_known() {
    let bustle = entry("tests/inputs/bustle.txt", false, 0o100644, 193, 1_617_753_600);
    let out = format_output(&[bustle]).unwrap();
    let lines: Vec<&str> = out.split("\n").filter(|s| !s.is_empty()).collect();
    assert_eq!(lines.len(), 1);
    long_match(lines[0], "tests/inputs/bustle.txt", "-rw-r--r--", Some("193"));
    assert_eq!(out, "-rw-r--r--  1  root  wheel  193  Apr 07 21  tests/inputs/bustle.txt\n");
}

#[test]
fn long_lines_are_set_in_columns() {
    let out = format_output(&[
        entry("tests/inputs/dir", true, 0o40755, 4096, 0),
        entry("tests/inputs/empty.txt", false, 0o644, 0, 86_400 * 400),
    ])
    .unwrap();
    let expected = "drwxr-xr-x  1  root  wheel  4096  Jan 01 70  tests/inputs/dir\n\
                    -rw-r--r--  1  root  wheel     0  Feb 05 71  tests/inputs/empty.txt\n";
    assert_eq!(out, expected);
    let mut lines: Vec<&str> = out.split("\n").filter(|s| !s.is_empty()).collect();
    lines.sort();
    assert_eq!(lines.len(), 2);
    long_match(lines[0], "tests/inputs/empty.txt", "-rw-r--r--", Some("0"));
    long_match(lines[1], "tests/inputs/dir", "drwxr-xr-x", None);
    assert_eq!(format_output(&[]), Some("".to_string()));
}

#[test]
fn a_moment_out_of_range_gives_no_listing() {
    let far = entry("f", false, 0o644, 0, i64::MAX);
    assert_eq!(format_output(&[entry("a", false, 0, 0, 0), far]), None);
}

#[test]
fn the_cells_of_an_entry() {
    let e = entry("p", true, 0o750, 12, 0);
    assert_eq!(
        format_entry(&e, "then"),
        vec!["d", "rwxr-x---", "1", "root", "wheel", "12", "then", "p"]
    );
}

#[test]
fn hidden_entries_are_listed_on_demand() {
    assert!(is_listed("fox.txt", false));
    assert!(!is_listed(".hidden", false));
    assert!(is_listed(".hidden", true));
    assert!(is_listed("", false));
    assert!(is_listed("a.b", false));
    assert!(!is_listed(".", false));
    assert_eq!(missing("blargh", "No such file"), "blargh: No such file");
}
