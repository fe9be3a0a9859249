use releaser::markers::{
    increase_extra_files_version, replace_chars, replace_version, update_version_markers,
};

#[test]
fn test_increase_extra_files_version() {
    let test_cases = vec![
        ("1.2.3", "1.2.4"),
        ("1.2.3", "1.3.0"),
        ("1.2.3", "2.0.0"),
        ("1.2.3-beta", "1.2.3"),
        ("1.2.3-beta.1", "1.2.3"),
        ("1.2.3", "1.2.4-beta"),
        ("1.2.3", "1.3.0-beta"),
        ("1.2.3", "2.0.0-beta"),
        ("1.2.3-beta", "1.2.4-beta.1"),
        ("1.2.3-beta.1", "1.2.4-beta.2"),
    ];

    for (old_version, new_version) in test_cases {
        let content = format!(
            "const VERSION = '{}'; // x-releaser-version\nOther content\n",
            old_version
        );

        let extra_files = vec![content];

        let updated = increase_extra_files_version(&extra_files, new_version);
        assert_eq!(updated.len(), 1);
        let updated_content = &updated[0];

        let expected_line = format!("const VERSION = '{}'; // x-releaser-version", new_version);
        assert!(
            updated_content.contains(&expected_line),
            "Failed to update from {} to {}",
            old_version,
            new_version
        );
        assert!(updated_content.contains("Other content"));
        assert_eq!(*updated_content, format!("{}\nOther content\n", expected_line));
    }
}

#[test]
fn only_marked_lines_change() {
    let contents = "version = \"1.0.0\"\nversion = \"1.0.0\" // x-releaser-version\nlast 1.0.0";
    assert_eq!(
        update_version_markers(contents, "1.1.0"),
        "version = \"1.0.0\"\nversion = \"1.1.0\" // x-releaser-version\nlast 1.0.0"
    );
}

#[test]
fn the_end_of_the_file_stays_as_it_was() {
    let marked = "v 1.0.0 // x-releaser-version";
    assert_eq!(update_version_markers(marked, "2.0.0"), "v 2.0.0 // x-releaser-version");
    assert_eq!(
        update_version_markers(&format!("{}\n", marked), "2.0.0"),
        "v 2.0.0 // x-releaser-version\n"
    );
    assert_eq!(
        update_version_markers(&format!("{}\n\n", marked), "2.0.0"),
        "v 2.0.0 // x-releaser-version\n\n"
    );
    assert_eq!(update_version_markers("", "2.0.0"), "");
    assert_eq!(update_version_markers("\n", "2.0.0"), "\n");
    assert_eq!(update_version_markers("a\nb", "2.0.0"), "a\nb");
}

#[test]
fn carriage_returns_before_line_feeds_go() {
    assert_eq!(update_version_markers("a\r\nb\r\n", "2.0.0"), "a\nb\n");
    assert_eq!(update_version_markers("a\r\nb\r", "2.0.0"), "a\nb\r");
}

#[test]
fn the_version_is_looked_for_in_front_of_the_marker() {
    assert_eq!(
        update_version_markers("a 1.2.3 b 1.2.3 // x-releaser-version 1.2.3 and 4.5.6", "9.9.9"),
        "a 9.9.9 b 9.9.9 // x-releaser-version 9.9.9 and 4.5.6"
    );
    assert_eq!(
        update_version_markers("no version here // x-releaser-version 1.2.3", "9.9.9"),
        "no version here // x-releaser-version 1.2.3"
    );
    assert_eq!(
        update_version_markers("first 1.0.0 then 2.0.0 // x-releaser-version", "9.9.9"),
        "first 9.9.9 then 2.0.0 // x-releaser-version"
    );
    assert_eq!(
        update_version_markers("v1.2.3-beta.4 // x-releaser-version", "1.2.3"),
        "v1.2.3 // x-releaser-version"
    );
}

#[test]
fn every_file_is_updated_on_its_own() {
    let files = vec![
        "1.0.0 // x-releaser-version\n".to_string(),
        "nothing".to_string(),
        String::new(),
        "2.0.0 // x-releaser-version".to_string(),
    ];
    assert_eq!(
        increase_extra_files_version(&files, "3.0.0"),
        vec![
            "3.0.0 // x-releaser-version\n".to_string(),
            "nothing".to_string(),
            String::new(),
            "3.0.0 // x-releaser-version".to_string(),
        ]
    );
    assert_eq!(increase_extra_files_version(&Vec::new(), "3.0.0"), Vec::<String>::new());
}

#[test]
fn a_marked_line_is_rewritten_from_what_was_found() {
    assert_eq!(replace_version("a 1.0 b 1.0", Some("1.0".to_string()), "2"), "a 2 b 2");
    assert_eq!(replace_version("a 1.0 b 1.0", None, "2"), "a 1.0 b 1.0");
    assert_eq!(replace_version("abc", Some("x".to_string()), "2"), "abc");
    assert_eq!(replace_version("ab", Some(String::new()), "-"), "-a-b-");
}

#[test]
fn replacing_takes_occurrences_from_the_left() {
    let chars = |s: &str| s.chars().collect::<Vec<char>>();
    assert_eq!(replace_chars(&chars("aaa"), &chars("aa"), &chars("b")), chars("ba"));
    assert_eq!(replace_chars(&chars("abcabc"), &chars("bc"), &chars("")), chars("aa"));
    assert_eq!(replace_chars(&chars(""), &chars("a"), &chars("b")), chars(""));
    assert_eq!(replace_chars(&chars(""), &chars(""), &chars("b")), chars("b"));
    assert_eq!(replace_chars(&chars("xyz"), &chars("xyz"), &chars("xyzxyz")), chars("xyzxyz"));
}
