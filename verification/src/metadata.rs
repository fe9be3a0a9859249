//! The metadata of a package: a JSON object that holds, among other things,
//! the package's name and its version. The JSON itself is read and written by
//! the crate `serde_json`; what it returns is named here, as a function of the
//! document and the key.

use vstd::prelude::*;
use crate::text::{append_str, from_chars, to_chars};
use crate::version::ReleaseError;

verus! {

/// The string that the JSON document `document` holds under `key` at its top
/// level. `None` where `document` is no JSON, and where its value is no object
/// that holds a string under `key`.
pub uninterp spec fn member_text(document: Seq<char>, key: Seq<char>) -> Option<Seq<char>>;

/// The JSON object `document` with the string `text` under `key`, in place of
/// what it held there if anything, written out with indentation. `None` where
/// `document` is no JSON object.
pub uninterp spec fn with_member(document: Seq<char>, key: Seq<char>, text: Seq<char>) -> Option<
    Seq<char>,
>;

/// `serde_json::from_str` into a `Value`, then `Value::get` and
/// `Value::as_str`: the string under `key`. Trusted to return what
/// `member_text` names, which depends on the two arguments alone.
#[verifier::external_body]
pub(crate) fn read_member(document: &str, key: &str) -> (r: Option<String>)
    ensures
        match r {
            Some(text) => member_text(document@, key@) == Some(text@),
            None => member_text(document@, key@) is None,
        },
{
    let value: serde_json::Value = serde_json::from_str(document).ok()?;
    Some(value.get(key)?.as_str()?.to_string())
}

/// `serde_json::from_str` into a `Map`, then `Map::insert` of a
/// `Value::String` and `serde_json::to_string_pretty`. Trusted to return what
/// `with_member` names, which depends on the three arguments alone.
#[verifier::external_body]
pub(crate) fn write_member(document: &str, key: &str, text: &str) -> (r: Option<String>)
    ensures
        match r {
            Some(written) => with_member(document@, key@, text@) == Some(written@),
            None => with_member(document@, key@, text@) is None,
        },
{
    let mut object: serde_json::Map<String, serde_json::Value> = serde_json::from_str(document)
        .ok()?;
    object.insert(key.to_string(), serde_json::Value::String(text.to_string()));
    serde_json::to_string_pretty(&object).ok()
}

/// The file that holds the metadata of the package at `path`.
pub fn metadata_path(path: &str) -> (file: String)
    ensures
        file@ == path@ + "/package.json"@,
{
    let mut out = to_chars(path);
    append_str(&mut out, "/package.json");
    from_chars(&out)
}

/// The name and the version of a package, from what its metadata holds under
/// `name` and under `version`: both must be there.
pub open spec fn name_and_version(name: Option<Seq<char>>, version: Option<Seq<char>>) -> Result<
    (Seq<char>, Seq<char>),
    ReleaseError,
> {
    match (name, version) {
        (Some(name), Some(version)) => Ok((name, version)),
        _ => Err(ReleaseError::MissingMetadata),
    }
}

/// The name and the version of a package, `name` and `version` being what its
/// metadata holds under these keys.
pub fn metadata_of(name: Option<String>, version: Option<String>) -> (r: Result<
    (String, String),
    ReleaseError,
>)
    ensures
        match r {
            Ok(pair) => name_and_version(
                match name {
                    Some(text) => Some(text@),
                    None => None,
                },
                match version {
                    Some(text) => Some(text@),
                    None => None,
                },
            ) == Ok::<(Seq<char>, Seq<char>), ReleaseError>((pair.0@, pair.1@)),
            Err(e) => e == ReleaseError::MissingMetadata && (name is None || version is None),
        },
{
    match (name, version) {
        (Some(name), Some(version)) => Ok((name, version)),
        _ => Err(ReleaseError::MissingMetadata),
    }
}

/// The name and the version of the package whose metadata is `package_json`,
/// in this order. Fails with `MissingMetadata` exactly when the metadata does
/// not hold a string under `name` and one under `version`.
pub fn get_version_and_name(package_json: &str) -> (r: Result<(String, String), ReleaseError>)
    ensures
        match r {
            Ok(pair) => name_and_version(
                member_text(package_json@, "name"@),
                member_text(package_json@, "version"@),
            ) == Ok::<(Seq<char>, Seq<char>), ReleaseError>((pair.0@, pair.1@)),
            Err(e) => e == ReleaseError::MissingMetadata && (member_text(package_json@, "name"@)
                is None || member_text(package_json@, "version"@) is None),
        },
{
    let version = read_member(package_json, "version");
    let name = read_member(package_json, "name");
    metadata_of(name, version)
}

/// The metadata that is written, `written` being the document that came of
/// putting the new version into the old metadata. Fails with
/// `MissingMetadata` exactly when there is no such document.
pub fn written_metadata(written: Option<String>) -> (r: Result<String, ReleaseError>)
    ensures
        match r {
            Ok(document) => written == Some(document),
            Err(e) => e == ReleaseError::MissingMetadata && written is None,
        },
{
    match written {
        Some(document) => Ok(document),
        None => Err(ReleaseError::MissingMetadata),
    }
}

/// The metadata `package_json` with `new_version` as the package's version.
/// Fails with `MissingMetadata` exactly when `package_json` is no JSON object.
pub fn update_package(package_json: &str, new_version: &str) -> (r: Result<String, ReleaseError>)
    ensures
        match r {
            Ok(document) => with_member(package_json@, "version"@, new_version@) == Some(
                document@,
            ),
            Err(e) => e == ReleaseError::MissingMetadata && with_member(
                package_json@,
                "version"@,
                new_version@,
            ) is None,
        },
{
    written_metadata(write_member(package_json, "version", new_version))
}

} // verus!
