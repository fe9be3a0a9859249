use releaser::metadata::{get_version_and_name, metadata_of, update_package, written_metadata};
use releaser::version::ReleaseError;

#[test]
fn name_and_version_are_read_from_the_metadata() {
    assert_eq!(
        get_version_and_name("{\"name\": \"package1\", \"version\": \"1.0.0\"}"),
        Ok(("package1".to_string(), "1.0.0".to_string()))
    );
    assert_eq!(
        get_version_and_name("{\"version\": \"2.1.0-beta.3\", \"private\": true, \"name\": \"@scope/pkg\"}"),
        Ok(("@scope/pkg".to_string(), "2.1.0-beta.3".to_string()))
    );
}

#[test]
fn metadata_without_name_or_version_is_missing() {
    for document in [
        "",
        "not json",
        "[]",
        "{}",
        "{\"name\": \"package1\"}",
        "{\"version\": \"1.0.0\"}",
        "{\"name\": 1, \"version\": \"1.0.0\"}",
        "{\"name\": \"package1\", \"version\": 1}",
        "{\"name\": \"package1\", \"version\": \"1.0.0\"",
    ] {
        assert_eq!(get_version_and_name(document), Err(ReleaseError::MissingMetadata), "{}", document);
    }
}

#[test]
fn both_parts_of_the_metadata_are_needed() {
    assert_eq!(
        metadata_of(Some("n".to_string()), Some("v".to_string())),
        Ok(("n".to_string(), "v".to_string()))
    );
    assert_eq!(metadata_of(None, Some("v".to_string())), Err(ReleaseError::MissingMetadata));
    assert_eq!(metadata_of(Some("n".to_string()), None), Err(ReleaseError::MissingMetadata));
    assert_eq!(metadata_of(None, None), Err(ReleaseError::MissingMetadata));
    assert_eq!(written_metadata(Some("{}".to_string())), Ok("{}".to_string()));
    assert_eq!(written_metadata(None), Err(ReleaseError::MissingMetadata));
}

#[test]
fn the_new_version_is_written_into_the_metadata() {
    assert_eq!(
        update_package("{\"name\": \"package2\", \"version\": \"1.0.0\"}", "1.0.1"),
        Ok("{\n  \"name\": \"package2\",\n  \"version\": \"1.0.1\"\n}".to_string())
    );
    assert_eq!(update_package("{}", "0.1.0"), Ok("{\n  \"version\": \"0.1.0\"\n}".to_string()));
    let written = update_package(
        "{\"name\": \"p\", \"version\": 3, \"scripts\": {\"build\": \"tsc\"}}",
        "1.0.0-beta",
    )
    .unwrap();
    assert_eq!(
        get_version_and_name(&written),
        Ok(("p".to_string(), "1.0.0-beta".to_string()))
    );
    assert!(written.contains("\"build\": \"tsc\""));
}

#[test]
fn what_is_no_object_cannot_be_updated() {
    for document in ["", "not json", "[]", "\"text\"", "{\"name\": "] {
        assert_eq!(update_package(document, "1.0.0"), Err(ReleaseError::MissingMetadata), "{}", document);
    }
}
