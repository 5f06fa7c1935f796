use mad_typing::files::{is_supported_extension, parse_lines, sort_files, trim, TextFile};

#[test]
fn test_supported_extensions() {
    assert!(is_supported_extension("test.txt"));
    assert!(is_supported_extension("test.md"));
    assert!(is_supported_extension("test.TXT"));
    assert!(is_supported_extension("test.MD"));
    assert!(!is_supported_extension("test.rs"));
    assert!(!is_supported_extension("test"));
}

#[test]
fn extension_edge_cases() {
    assert!(is_supported_extension("a.b.txt"));
    assert!(is_supported_extension("notes.mD"));
    assert!(!is_supported_extension(".txt"));
    assert!(!is_supported_extension("file."));
    assert!(!is_supported_extension(""));
    assert!(!is_supported_extension("txt"));
}

#[test]
fn trim_removes_surrounding_whitespace() {
    assert_eq!(trim("  hello  "), "hello");
    assert_eq!(trim("\t a b \r"), "a b");
    assert_eq!(trim(""), "");
    assert_eq!(trim("   "), "");
    assert_eq!(trim("x"), "x");
}

#[test]
fn parse_lines_splits_trims_and_drops_empties() {
    let lines = parse_lines("  hello \n\n  world\r\nlast");
    assert_eq!(lines, vec!["hello".to_string(), "world".to_string(), "last".to_string()]);
}

#[test]
fn parse_lines_of_empty_contents() {
    assert_eq!(parse_lines(""), Vec::<String>::new());
    assert_eq!(parse_lines("\n\n  \n"), Vec::<String>::new());
}

#[test]
fn sorting_is_alphabetical_ignoring_case() {
    let make = |name: &str| TextFile {
        name: name.to_string(),
        path: name.to_string(),
        lines: vec!["x".to_string()],
    };
    let sorted = sort_files(vec![make("zeta.txt"), make("Alpha.txt"), make("beta.md")]);
    let names: Vec<&str> = sorted.iter().map(|f| f.name.as_str()).collect();
    assert_eq!(names, vec!["Alpha.txt", "beta.md", "zeta.txt"]);
}

#[test]
fn from_contents_discards_empty_files() {
    let none = TextFile::from_contents("a.txt".to_string(), "/a.txt".to_string(), " \n ");
    assert!(none.is_none());

    let some = TextFile::from_contents("a.txt".to_string(), "/a.txt".to_string(), "hi\nthere\n");
    let f = some.unwrap();
    assert_eq!(f.name, "a.txt");
    assert_eq!(f.path, "/a.txt");
    assert_eq!(f.lines, vec!["hi".to_string(), "there".to_string()]);
    assert_eq!(f.line_count(), 2);
}
