use releaser::changelog::{
    get_new_changelog, merge_changelog, pull_request_section, update_changelog, Changelog,
};
use releaser::cli::DryRunConfig;

#[test]
fn test_update_changelog() {
    let name = "test-package";
    let new_version = "1.2.3";
    let dry_run_config = DryRunConfig { is_dry_run: false };

    // New changelog, no existing content
    let changelog = Changelog {
        features: "- New feature 1\n- New feature 2\n".to_string(),
        fixes: "- Bug fix 1\n".to_string(),
        perf: "- Performance improvement 1\n".to_string(),
        breaking: "".to_string(),
    };
    let new_changelog_body = get_new_changelog(name, new_version, changelog);
    let result = update_changelog(None, name, &new_changelog_body, &dry_run_config);

    assert!(result.starts_with(&format!("# {}\n## Version {}", name, new_version)));
    assert!(result.contains("### Features"));
    assert!(result.contains("### Fixes"));
    assert!(result.contains("### Performance"));

    // Updating existing changelog
    let existing_changelog = format!(
        "# {}\n## Version 1.1.0\n### Features\n- Old feature\n",
        name
    );
    let result = update_changelog(
        Some(&existing_changelog),
        name,
        &new_changelog_body,
        &dry_run_config,
    );

    assert!(result.starts_with(&format!("# {}\n## Version {}", name, new_version)));
    assert!(result.contains("- New feature 1"));
    assert!(result.contains("## Version 1.1.0"));
    assert!(result.contains("- Old feature"));

    // Ensure new version comes before old version
    assert!(result.find("## Version 1.2.3").unwrap() < result.find("## Version 1.1.0").unwrap());

    // Dry run
    let dry_run_config = DryRunConfig { is_dry_run: true };
    let result = update_changelog(
        Some(&existing_changelog),
        name,
        &new_changelog_body,
        &dry_run_config,
    );

    assert_eq!(result, new_changelog_body);
}

fn entries(features: &str, fixes: &str, perf: &str, breaking: &str) -> Changelog {
    Changelog {
        features: features.to_string(),
        fixes: fixes.to_string(),
        perf: perf.to_string(),
        breaking: breaking.to_string(),
    }
}

#[test]
fn a_section_has_a_block_for_each_kind_that_has_entries() {
    assert_eq!(
        get_new_changelog("pkg", "1.1.0", entries("a\nb\n", "c\n", "d\n", "")),
        "# pkg\n## Version 1.1.0\n### Features\na\nb\n\n### Fixes\nc\n\n### Performance\nd\n\n"
    );
    assert_eq!(
        get_new_changelog("pkg", "1.1.0", entries("", "c\n", "", "")),
        "# pkg\n## Version 1.1.0\n### Fixes\nc\n\n"
    );
    assert_eq!(get_new_changelog("pkg", "1.1.0", entries("", "", "", "")), "# pkg\n## Version 1.1.0\n");
    assert_eq!(get_new_changelog("", "", entries("", "", "", "")), "# \n## Version \n");
}

#[test]
fn breaking_changes_have_no_block() {
    assert_eq!(
        get_new_changelog("pkg", "2.0.0", entries("", "", "", "**core**: gone\n")),
        "# pkg\n## Version 2.0.0\n"
    );
}

#[test]
fn merging_without_a_changelog_gives_the_section() {
    assert_eq!(merge_changelog(None, "pkg", "# pkg\n## Version 1.0.0\n"), "# pkg\n## Version 1.0.0\n");
    assert_eq!(merge_changelog(None, "pkg", ""), "");
}

#[test]
fn merging_takes_the_first_title_line_out() {
    assert_eq!(
        merge_changelog(Some("# pkg\n## Version 1.0.0\nold\n"), "pkg", "# pkg\n## Version 1.1.0\nnew\n"),
        "# pkg\n## Version 1.1.0\nnew\n## Version 1.0.0\nold\n"
    );
    assert_eq!(
        merge_changelog(Some("intro\n# pkg\nbody\n# pkg\ntail\n"), "pkg", "NEW\n"),
        "NEW\nintro\nbody\n# pkg\ntail\n"
    );
    assert_eq!(merge_changelog(Some("# other\nbody\n"), "pkg", "NEW\n"), "NEW\n# other\nbody\n");
    assert_eq!(merge_changelog(Some("# pkg"), "pkg", "NEW\n"), "NEW\n# pkg");
    assert_eq!(merge_changelog(Some(""), "pkg", "NEW\n"), "NEW\n");
}

#[test]
fn a_run_that_writes_merges_and_a_dry_run_does_not() {
    let writes = DryRunConfig { is_dry_run: false };
    let dry = DryRunConfig { is_dry_run: true };
    assert_eq!(update_changelog(Some("# p\nold\n"), "p", "# p\nnew\n", &writes), "# p\nnew\nold\n");
    assert_eq!(update_changelog(Some("# p\nold\n"), "p", "# p\nnew\n", &dry), "# p\nnew\n");
    assert_eq!(update_changelog(None, "p", "# p\nnew\n", &writes), "# p\nnew\n");
    assert_eq!(update_changelog(None, "p", "# p\nnew\n", &dry), "# p\nnew\n");
}

#[test]
fn the_pull_request_gets_the_lines_that_are_no_headings() {
    assert_eq!(
        pull_request_section(
            "pkg",
            "1.1.0",
            "# pkg\n## Version 1.1.0\n### Features\n**x**: add thing\n\n### Fixes\n**y**: fix thing\n\n"
        ),
        "## pkg - 1.1.0\n**x**: add thing\n\n**y**: fix thing\n\n\n"
    );
    assert_eq!(pull_request_section("pkg", "1.1.0", ""), "## pkg - 1.1.0\n\n\n");
    assert_eq!(pull_request_section("pkg", "1.1.0", "# only\n## headings\n"), "## pkg - 1.1.0\n\n\n");
    assert_eq!(pull_request_section("p", "1", "a\r\nb #c\n #d"), "## p - 1\na\nb #c\n #d\n\n");
}

#[test]
fn merging_keeps_every_line_but_the_first_title_line() {
    let section = "# pkg\n## Version 2.0.0\n### Features\nnew\n\n";
    let existing = "# pkg\n## Version 1.1.0\n### Fixes\nmend\n\n# pkg\n## Version 1.0.0\nfirst\n";
    let merged = merge_changelog(Some(existing), "pkg", section);
    assert!(merged.starts_with(section));
    let mut expected: Vec<&str> = section.lines().collect();
    let mut old_lines: Vec<&str> = existing.lines().collect();
    let title = old_lines.iter().position(|line| *line == "# pkg").unwrap();
    old_lines.remove(title);
    expected.extend(old_lines);
    assert_eq!(merged.lines().collect::<Vec<&str>>(), expected);
    assert_eq!(merged.matches("# pkg\n").count(), 2);
}
