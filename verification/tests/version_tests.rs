use releaser::version::{get_higher_semver, increase_version, is_production, ReleaseError, Semver};

#[test]
fn test_increase_version() {
    assert_eq!(
        increase_version("1.2.3", Semver::Patch, "production").unwrap(),
        "1.2.4"
    );
    assert_eq!(
        increase_version("1.2.3", Semver::Minor, "production").unwrap(),
        "1.3.0"
    );
    assert_eq!(
        increase_version("1.2.3", Semver::Major, "production").unwrap(),
        "2.0.0"
    );
    assert_eq!(
        increase_version("1.2.3", Semver::Patch, "staging").unwrap(),
        "1.2.4-beta"
    );
    assert_eq!(
        increase_version("1.2.3", Semver::Minor, "staging").unwrap(),
        "1.3.0-beta"
    );
    assert_eq!(
        increase_version("1.2.3", Semver::Major, "staging").unwrap(),
        "2.0.0-beta"
    );
    assert_eq!(
        increase_version("1.2.3-beta", Semver::Major, "production").unwrap(),
        "1.2.3"
    );
    assert_eq!(
        increase_version("1.2.3-beta.1", Semver::Patch, "production").unwrap(),
        "1.2.3"
    );
    assert_eq!(
        increase_version("1.2.3-beta.1", Semver::Minor, "production").unwrap(),
        "1.2.3"
    );
    assert_eq!(
        increase_version("1.2.3-beta.1", Semver::Major, "production").unwrap(),
        "1.2.3"
    );
    assert_eq!(
        increase_version("1.2.3-beta", Semver::Minor, "staging").unwrap(),
        "1.3.0-beta.1"
    );
    assert_eq!(
        increase_version("1.2.3", Semver::Minor, "staging").unwrap(),
        "1.3.0-beta"
    );
}

#[test]
fn production_steps_one_number_and_zeroes_those_below() {
    let cases = vec![
        ("0.0.0", "0.0.1", "0.1.0", "1.0.0"),
        ("4.5.6", "4.5.7", "4.6.0", "5.0.0"),
        ("10.99.999", "10.99.1000", "10.100.0", "11.0.0"),
        ("1.9.9", "1.9.10", "1.10.0", "2.0.0"),
    ];
    for (version, patch, minor, major) in cases {
        assert_eq!(increase_version(version, Semver::Patch, "production").unwrap(), patch);
        assert_eq!(increase_version(version, Semver::Minor, "production").unwrap(), minor);
        assert_eq!(increase_version(version, Semver::Major, "production").unwrap(), major);
    }
}

#[test]
fn production_promotes_a_prerelease_whatever_the_step() {
    assert_eq!(increase_version("1.2.3-beta", Semver::Major, "production").unwrap(), "1.2.3");
    assert_eq!(increase_version("1.2.3-beta", Semver::Minor, "production").unwrap(), "1.2.3");
    assert_eq!(increase_version("1.2.3-beta", Semver::Patch, "production").unwrap(), "1.2.3");
    assert_eq!(increase_version("7.0.1-rc.4", Semver::Major, "production").unwrap(), "7.0.1");
}

#[test]
fn prerelease_counter_starts_bare_and_counts_up() {
    assert_eq!(
        increase_version("1.2.3-beta.1", Semver::Minor, "staging").unwrap(),
        "1.3.0-beta.2"
    );
    assert_eq!(increase_version("1.2.3", Semver::Minor, "staging").unwrap(), "1.3.0-beta");
    assert_eq!(increase_version("1.2.3-beta", Semver::Patch, "staging").unwrap(), "1.2.4-beta.1");
    assert_eq!(
        increase_version("1.2.3-beta.9", Semver::Major, "staging").unwrap(),
        "2.0.0-beta.10"
    );
    assert_eq!(increase_version("1.2.3", Semver::Patch, "preview").unwrap(), "1.2.4-beta");
}

#[test]
fn numbers_at_the_limit_step_without_wrapping() {
    assert_eq!(
        increase_version("4294967295.0.0", Semver::Major, "production").unwrap(),
        "4294967296.0.0"
    );
    assert_eq!(
        increase_version("1.2.3-beta.4294967295", Semver::Patch, "staging").unwrap(),
        "1.2.4-beta.4294967296"
    );
}

#[test]
fn a_plus_sign_and_leading_zeros_read_as_numbers() {
    assert_eq!(increase_version("+1.02.3", Semver::Patch, "production").unwrap(), "1.2.4");
    assert_eq!(increase_version("1.2.3.4", Semver::Patch, "production").unwrap(), "1.2.4");
}

#[test]
fn malformed_versions_are_refused() {
    let malformed = vec![
        "", "1", "1.2", "1.2.", "a.b.c", "1.2.x", "1..3", "-1.2.3", "1.2.3x", "v1.2.3",
        "1.2.4294967296", "1.2.+", " 1.2.3",
    ];
    for version in malformed {
        assert_eq!(
            increase_version(version, Semver::Patch, "production"),
            Err(ReleaseError::MalformedVersion),
            "{}",
            version
        );
        assert_eq!(
            increase_version(version, Semver::Minor, "staging"),
            Err(ReleaseError::MalformedVersion),
            "{}",
            version
        );
    }
}

#[test]
fn a_counter_that_is_no_number_is_refused_where_it_is_read() {
    assert_eq!(
        increase_version("1.2.3-beta.x", Semver::Patch, "staging"),
        Err(ReleaseError::MalformedVersion)
    );
    assert_eq!(
        increase_version("1.2.3-beta.", Semver::Patch, "staging"),
        Err(ReleaseError::MalformedVersion)
    );
    assert_eq!(increase_version("1.2.3-beta.x", Semver::Patch, "production").unwrap(), "1.2.3");
}

#[test]
fn the_higher_step_is_the_maximum() {
    let steps = [Semver::Patch, Semver::Minor, Semver::Major];
    for (i, a) in steps.iter().enumerate() {
        for (j, b) in steps.iter().enumerate() {
            let expected = if i >= j { *a } else { *b };
            assert_eq!(get_higher_semver(*a, *b), expected);
            assert_eq!(get_higher_semver(*a, *b), get_higher_semver(*b, *a));
        }
    }
}

#[test]
fn only_production_is_production() {
    assert!(is_production("production"));
    assert!(!is_production("staging"));
    assert!(!is_production("Production"));
    assert!(!is_production(""));
    assert!(!is_production("production "));
}
