use releaser::commits::classify;
use releaser::metadata::{get_version_and_name, update_package};
use releaser::package::{
    follows_changed, has_dependency_changes, names_recorded, process_dependencies, Manifest,
    Package, PackageStatus, ReleaseState,
};
use releaser::release::log_range;
use releaser::tags::get_latest_tag;
use releaser::version::{increase_version, ReleaseError};

fn strings(all: &[&str]) -> Vec<String> {
    all.iter().map(|text| text.to_string()).collect()
}

fn package(path: &str, dependencies: &[&str]) -> Package {
    Package { path: path.to_string(), extra_files: Vec::new(), dependencies: strings(dependencies) }
}

fn status(name: &str, version: &str, dependencies: &[&str], commits: &[&str]) -> PackageStatus {
    PackageStatus {
        name: name.to_string(),
        version: version.to_string(),
        dependencies: strings(dependencies),
        commits: strings(commits),
    }
}

fn changed(pairs: &[(&str, &str)]) -> ReleaseState {
    let mut state = ReleaseState::new();
    for (name, version) in pairs {
        state.insert(name.to_string(), version.to_string());
    }
    state
}

fn pairs(all: &[(&str, &str)]) -> Vec<(String, String)> {
    all.iter().map(|(name, version)| (name.to_string(), version.to_string())).collect()
}

#[test]
fn test_dependency_update() {
    // package1 depends on package2
    let manifest = Manifest {
        packages: vec![package("package1", &["package2"]), package("package2", &[])],
    };

    // package1 (no changes)
    let package1_json = "{\"name\": \"package1\", \"version\": \"1.0.0\"}";
    let (name1, version1) = get_version_and_name(package1_json).unwrap();
    assert_eq!(
        get_latest_tag(&name1, &version1, "production", &strings(&["package1-v1.0.0"])),
        "package1-v1.0.0"
    );

    // package2 (with changes)
    let package2_json = "{\"name\": \"package2\", \"version\": \"1.0.0\"}";
    let (name2, version2) = get_version_and_name(package2_json).unwrap();
    let last_tag = get_latest_tag(&name2, &version2, "production", &strings(&["package2-v1.0.0"]));
    assert_eq!(log_range(&last_tag), "package2-v1.0.0..HEAD");
    let commits = strings(&["abcdef1 fix(package2): some bugfix"]);
    let (_, step) = classify(&commits);
    let new_version2 = increase_version(&version2, step, "production").unwrap();

    let mut state = ReleaseState::new();
    state.insert(name2.clone(), new_version2.clone());
    assert!(has_dependency_changes(&manifest.packages[0], &state));
    assert!(!has_dependency_changes(&manifest.packages[1], &state));

    let packages = vec![
        status(&name1, &version1, &["package2"], &[]),
        status(&name2, &version2, &[], &["abcdef1 fix(package2): some bugfix"]),
    ];
    let added = process_dependencies(&packages, "production", &state).unwrap();
    assert_eq!(added, pairs(&[("package1", "1.0.1")]));

    // Expect updates
    let written2 = update_package(package2_json, &new_version2).unwrap();
    assert_eq!(
        get_version_and_name(&written2),
        Ok(("package2".to_string(), "1.0.1".to_string()))
    );
    let written1 = update_package(package1_json, &added[0].1).unwrap();
    assert_eq!(
        get_version_and_name(&written1),
        Ok(("package1".to_string(), "1.0.1".to_string()))
    );
}

#[test]
fn the_packages_of_a_manifest_have_paths_of_their_own() {
    let manifest = |paths: &[&str]| Manifest {
        packages: paths.iter().map(|path| package(path, &[])).collect(),
    };
    assert!(manifest(&[]).has_distinct_paths());
    assert!(manifest(&["a"]).has_distinct_paths());
    assert!(manifest(&["a", "b", "c", "a/b"]).has_distinct_paths());
    assert!(!manifest(&["a", "a"]).has_distinct_paths());
    assert!(!manifest(&["a", "b", "c", "b"]).has_distinct_paths());
    assert!(!manifest(&["", "x", ""]).has_distinct_paths());
}

#[test]
fn a_record_holds_each_name_once() {
    let mut state = ReleaseState::new();
    assert_eq!(state.len(), 0);
    assert!(!state.contains_key("a"));
    state.insert("a".to_string(), "1.0.0".to_string());
    state.insert("b".to_string(), "2.0.0".to_string());
    state.insert("a".to_string(), "1.0.1".to_string());
    assert_eq!(state.len(), 2);
    assert!(state.contains_key("a"));
    assert!(state.contains_key("b"));
    assert!(!state.contains_key("c"));
    assert!(!state.contains_key(""));
    assert_eq!(state.entry(0), Some(("a", "1.0.1")));
    assert_eq!(state.entry(1), Some(("b", "2.0.0")));
}

#[test]
fn a_dependency_counts_when_it_is_recorded() {
    let state = changed(&[("pkg-a", "1.1.0")]);
    assert!(has_dependency_changes(&package("b", &["pkg-a"]), &state));
    assert!(has_dependency_changes(&package("b", &["x", "pkg-a", "y"]), &state));
    assert!(!has_dependency_changes(&package("b", &["pkg-aa", "pkg"]), &state));
    assert!(!has_dependency_changes(&package("b", &[]), &state));
    assert!(!has_dependency_changes(&package("b", &["pkg-a"]), &ReleaseState::new()));
    assert!(names_recorded(&strings(&["pkg-a"]), &state));
    assert!(!names_recorded(&strings(&["1.1.0"]), &state));
    assert!(follows_changed("pkg-b", &strings(&["pkg-a"]), &state));
    assert!(!follows_changed("pkg-a", &strings(&["pkg-a"]), &state));
    assert!(!follows_changed("pkg-b", &strings(&["pkg-c"]), &state));
}

#[test]
fn a_follower_without_commits_takes_a_patch() {
    let state = changed(&[("pkg-a", "1.1.0")]);
    let packages = vec![
        status("pkg-a", "1.0.0", &[], &["h1 feat(a): thing"]),
        status("pkg-b", "2.3.4", &["pkg-a"], &[]),
    ];
    assert_eq!(
        process_dependencies(&packages, "production", &state),
        Ok(pairs(&[("pkg-b", "2.3.5")]))
    );
    assert_eq!(
        process_dependencies(&packages, "staging", &state),
        Ok(pairs(&[("pkg-b", "2.3.5-beta")]))
    );
}

#[test]
fn a_follower_with_commits_takes_the_step_of_its_history() {
    let state = changed(&[("pkg-a", "1.1.0")]);
    let packages = vec![
        status("pkg-b", "2.3.4", &["pkg-a"], &["h1 feat(b): thing"]),
        status("pkg-c", "2.3.4", &["pkg-a"], &["h2 !fix(c): thing"]),
        status("pkg-d", "2.3.4", &["pkg-a"], &["h3 fix(d): thing"]),
    ];
    assert_eq!(
        process_dependencies(&packages, "production", &state),
        Ok(pairs(&[("pkg-b", "2.4.0"), ("pkg-c", "3.0.0"), ("pkg-d", "2.3.5")]))
    );
}

#[test]
fn what_follows_is_decided_by_the_first_pass_alone() {
    // c depends on b, b on a; only a changed: b follows, c does not.
    let state = changed(&[("a", "1.0.1")]);
    let packages = vec![
        status("a", "1.0.0", &[], &[]),
        status("b", "1.0.0", &["a"], &[]),
        status("c", "1.0.0", &["b"], &[]),
    ];
    assert_eq!(process_dependencies(&packages, "production", &state), Ok(pairs(&[("b", "1.0.1")])));
    let reordered = vec![
        status("c", "1.0.0", &["b"], &[]),
        status("b", "1.0.0", &["a"], &[]),
        status("a", "1.0.0", &[], &[]),
    ];
    assert_eq!(process_dependencies(&reordered, "production", &state), Ok(pairs(&[("b", "1.0.1")])));
}

#[test]
fn a_package_that_changed_itself_does_not_follow() {
    let state = changed(&[("a", "1.0.1"), ("b", "5.0.0")]);
    let packages = vec![status("a", "1.0.0", &["b"], &[]), status("b", "4.0.0", &["a"], &[])];
    assert_eq!(process_dependencies(&packages, "production", &state), Ok(Vec::new()));
    assert_eq!(process_dependencies(&Vec::new(), "production", &state), Ok(Vec::new()));
    assert_eq!(process_dependencies(&packages, "production", &ReleaseState::new()), Ok(Vec::new()));
}

#[test]
fn a_follower_with_a_malformed_version_fails_the_pass() {
    let state = changed(&[("a", "1.0.1")]);
    let packages = vec![
        status("b", "1.0.0", &["a"], &[]),
        status("c", "one.two", &["a"], &[]),
        status("d", "1.0.0", &["a"], &[]),
    ];
    assert_eq!(
        process_dependencies(&packages, "production", &state),
        Err(ReleaseError::MalformedVersion)
    );
    // a malformed version does no harm where the package does not follow
    let idle = vec![status("c", "one.two", &["z"], &[]), status("b", "1.0.0", &["a"], &[])];
    assert_eq!(process_dependencies(&idle, "production", &state), Ok(pairs(&[("b", "1.0.1")])));
}
