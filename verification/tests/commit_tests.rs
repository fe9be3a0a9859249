use releaser::commits::{
    classify, determine_semver_target, format_commit_message, render_entry,
};
use releaser::version::Semver;

fn lines(all: &[&str]) -> Vec<String> {
    all.iter().map(|line| line.to_string()).collect()
}

#[test]
fn test_format_commit_message() {
    assert_eq!(
        format_commit_message(
            "195eabb15 fix(prediction): fix all the prediction refetch. The UX was flickering"
        ),
        "**prediction**: fix all the prediction refetch. The UX was flickering"
    );
    assert_eq!(
        format_commit_message("081b0001c fix(quote request line): the process step product lines name and price were not updated"), "**quote request line**: the process step product lines name and price were not updated");
    assert_eq!(
        format_commit_message(
            "f0c7441f1 feat(quote request line): fix React Hook Form context in sync with API"
        ),
        "**quote request line**: fix React Hook Form context in sync with API"
    );
}

#[test]
fn a_line_without_the_shape_is_its_own_entry() {
    for line in [
        "",
        "abc123 update the readme",
        "abc123 feat: no scope",
        "abc123 feat(): empty scope",
        "feat(x): no hash",
        "abc123 feat(x) missing colon",
        "abc123 feat(x):no space",
        "abc123 feat(x): ",
    ] {
        assert_eq!(format_commit_message(line), line);
    }
}

#[test]
fn a_breaking_marker_belongs_to_the_shape() {
    assert_eq!(format_commit_message("h1 !fix(core): breaking change"), "**core**: breaking change");
    assert_eq!(format_commit_message("h1 !feat(api): new shape"), "**api**: new shape");
    assert_eq!(format_commit_message("h1 feat(x): add thing"), "**x**: add thing");
}

#[test]
fn entries_are_rendered_from_their_parts() {
    assert_eq!(
        render_entry("raw", Some(("scope".to_string(), "text".to_string()))),
        "**scope**: text"
    );
    assert_eq!(render_entry("raw line", None), "raw line");
    assert_eq!(render_entry("raw", Some((String::new(), String::new()))), "****: ");
}

#[test]
fn classify_sorts_lines_by_their_markers() {
    let (changelog, step) = classify(&lines(&[
        "a1 feat(ui): button",
        "a2 fix(ui): colour",
        "a3 perf(db): index",
        "a4 chore(ci): cache",
        "a5 feat(api): route",
    ]));
    assert_eq!(changelog.features, "**ui**: button\n**api**: route\n");
    assert_eq!(changelog.fixes, "**ui**: colour\n");
    assert_eq!(changelog.perf, "**db**: index\n");
    assert_eq!(changelog.breaking, "");
    assert_eq!(step, Semver::Minor);
}

#[test]
fn a_breaking_line_is_of_two_kinds() {
    let (changelog, step) = classify(&lines(&["b1 !fix(core): breaking change"]));
    assert_eq!(changelog.fixes, "**core**: breaking change\n");
    assert_eq!(changelog.breaking, "**core**: breaking change\n");
    assert_eq!(changelog.features, "");
    assert_eq!(step, Semver::Major);

    let (changelog, step) = classify(&lines(&["b2 !feat(core): new engine"]));
    assert_eq!(changelog.features, "**core**: new engine\n");
    assert_eq!(changelog.breaking, "**core**: new engine\n");
    assert_eq!(changelog.fixes, "");
    assert_eq!(step, Semver::Major);
}

#[test]
fn lines_without_the_shape_go_into_their_bucket_as_they_are() {
    let (changelog, step) = classify(&lines(&["merge feat(x) into main", "plain words"]));
    assert_eq!(changelog.features, "merge feat(x) into main\n");
    assert_eq!(changelog.fixes, "");
    assert_eq!(step, Semver::Minor);
}

#[test]
fn no_commits_ask_for_a_patch() {
    let (changelog, step) = classify(&Vec::new());
    assert_eq!(step, Semver::Patch);
    assert_eq!(changelog.features, "");
    assert_eq!(changelog.fixes, "");
    assert_eq!(changelog.perf, "");
    assert_eq!(changelog.breaking, "");
    assert_eq!(determine_semver_target(&Vec::new()), Semver::Patch);
    assert_eq!(classify(&lines(&["c1 docs(readme): typo"])).1, Semver::Patch);
    assert_eq!(classify(&lines(&["c1 fix(a): b", "c2 perf(a): b"])).1, Semver::Patch);
}

#[test]
fn the_step_does_not_depend_on_the_order() {
    let history = ["d1 fix(a): one", "d2 feat(b): two", "d3 perf(c): three", "d4 !fix(d): four"];
    for len in 0..=history.len() {
        let forward = lines(&history[..len]);
        let mut backward = forward.clone();
        backward.reverse();
        assert_eq!(classify(&forward).1, classify(&backward).1);
        assert_eq!(classify(&forward).1, determine_semver_target(&forward));
        assert_eq!(determine_semver_target(&forward), determine_semver_target(&backward));
        for i in 0..len {
            for j in 0..len {
                let mut swapped = forward.clone();
                swapped.swap(i, j);
                assert_eq!(classify(&swapped).1, classify(&forward).1);
            }
        }
    }
}

#[test]
fn the_buckets_keep_the_order_of_the_commits() {
    let forward = lines(&["e1 feat(a): first", "e2 feat(b): second"]);
    let backward = lines(&["e2 feat(b): second", "e1 feat(a): first"]);
    assert_eq!(classify(&forward).0.features, "**a**: first\n**b**: second\n");
    assert_eq!(classify(&backward).0.features, "**b**: second\n**a**: first\n");
}

#[test]
fn the_target_is_the_step_of_the_history() {
    assert_eq!(determine_semver_target(&lines(&["f1 feat(a): b"])), Semver::Minor);
    assert_eq!(determine_semver_target(&lines(&["f1 fix(a): b"])), Semver::Patch);
    assert_eq!(
        determine_semver_target(&lines(&["f1 !feat(a): b", "f2 feat(c): d"])),
        Semver::Major
    );
    assert_eq!(
        determine_semver_target(&lines(&["f1 feat(a): b", "f2 !fix(c): d", "f3 fix(e): f"])),
        Semver::Major
    );
}
