//! The order of versions.
//!
//! Versions are ordered by their three release numbers, the first being the
//! most significant. Where these agree, a version without a prerelease marker
//! is above every version with one, and two versions with a marker are ordered
//! by the counters of their markers.

use std::cmp::Ordering;
use vstd::prelude::*;
use crate::pieces::split_chars;
use crate::text::{to_chars, views};
use crate::version::{component_number, counter_of, has_marker, marker, marker_counter,
    release_component};

verus! {

/// The `k`-th release number of a version; 0 where the version has no such
/// component or it is no number.
pub open spec fn release_number(version: Seq<char>, k: int) -> u32 {
    match release_component(version, k) {
        Some(n) => n,
        None => 0,
    }
}

/// The counter by which a version with a marker is ordered: the counter of
/// its marker, 0 where the marker has none or what stands in its place is no
/// number.
pub open spec fn order_counter(version: Seq<char>) -> u32 {
    match marker_counter(marker(version)) {
        Some(counter) => counter,
        None => 0,
    }
}

/// Two versions have the same three release numbers.
pub open spec fn same_release(a: Seq<char>, b: Seq<char>) -> bool {
    &&& release_number(a, 0) == release_number(b, 0)
    &&& release_number(a, 1) == release_number(b, 1)
    &&& release_number(a, 2) == release_number(b, 2)
}

/// The order of two numbers.
pub open spec fn number_order(a: u32, b: u32) -> Ordering {
    if a < b {
        Ordering::Less
    } else if a > b {
        Ordering::Greater
    } else {
        Ordering::Equal
    }
}

/// The order of two versions.
pub open spec fn version_order(a: Seq<char>, b: Seq<char>) -> Ordering {
    if release_number(a, 0) != release_number(b, 0) {
        number_order(release_number(a, 0), release_number(b, 0))
    } else if release_number(a, 1) != release_number(b, 1) {
        number_order(release_number(a, 1), release_number(b, 1))
    } else if release_number(a, 2) != release_number(b, 2) {
        number_order(release_number(a, 2), release_number(b, 2))
    } else if !has_marker(a) && !has_marker(b) {
        Ordering::Equal
    } else if !has_marker(a) {
        Ordering::Greater
    } else if !has_marker(b) {
        Ordering::Less
    } else {
        number_order(order_counter(a), order_counter(b))
    }
}

/// What a version is ordered by.
pub struct VersionKey {
    pub major: u32,
    pub minor: u32,
    pub patch: u32,
    pub has_marker: bool,
    pub counter: u32,
}

/// Reads from `version` what it is ordered by. The counter is read only where
/// there is a marker, and is 0 otherwise.
pub fn version_key(version: &Vec<char>) -> (key: VersionKey)
    ensures
        key.major == release_number(version@, 0),
        key.minor == release_number(version@, 1),
        key.patch == release_number(version@, 2),
        key.has_marker == has_marker(version@),
        key.counter == if has_marker(version@) {
            order_counter(version@)
        } else {
            0
        },
{
    let parts = split_chars(version, '-');
    assert(views(parts@)[0] == parts@[0]@);
    let release = split_chars(&parts[0], '.');
    let major = match component_number(&release, 0) {
        Some(n) => n,
        None => 0,
    };
    let minor = match component_number(&release, 1) {
        Some(n) => n,
        None => 0,
    };
    let patch = match component_number(&release, 2) {
        Some(n) => n,
        None => 0,
    };
    let has_marker = parts.len() > 1;
    let counter = if has_marker {
        assert(views(parts@)[1] == parts@[1]@);
        match counter_of(&parts[1]) {
            Some(n) => n,
            None => 0,
        }
    } else {
        0
    };
    VersionKey { major, minor, patch, has_marker, counter }
}

/// The order of two numbers.
fn order_numbers(a: u32, b: u32) -> (r: Ordering)
    ensures
        r == number_order(a, b),
{
    if a < b {
        Ordering::Less
    } else if a > b {
        Ordering::Greater
    } else {
        Ordering::Equal
    }
}

/// The order of two versions, from what they are ordered by.
pub fn order_keys(a: &VersionKey, b: &VersionKey) -> (r: Ordering)
    ensures
        r == if a.major != b.major {
            number_order(a.major, b.major)
        } else if a.minor != b.minor {
            number_order(a.minor, b.minor)
        } else if a.patch != b.patch {
            number_order(a.patch, b.patch)
        } else if !a.has_marker && !b.has_marker {
            Ordering::Equal
        } else if !a.has_marker {
            Ordering::Greater
        } else if !b.has_marker {
            Ordering::Less
        } else {
            number_order(a.counter, b.counter)
        },
{
    if a.major != b.major {
        order_numbers(a.major, b.major)
    } else if a.minor != b.minor {
        order_numbers(a.minor, b.minor)
    } else if a.patch != b.patch {
        order_numbers(a.patch, b.patch)
    } else if !a.has_marker && !b.has_marker {
        Ordering::Equal
    } else if !a.has_marker {
        Ordering::Greater
    } else if !b.has_marker {
        Ordering::Less
    } else {
        order_numbers(a.counter, b.counter)
    }
}

/// Compares two versions. A component of the release part that is missing or
/// is no number counts as 0, and so does a counter that is no number.
pub fn semver_compare(a: &str, b: &str) -> (r: Ordering)
    ensures
        r == version_order(a@, b@),
{
    let a_chars = to_chars(a);
    let b_chars = to_chars(b);
    let a_key = version_key(&a_chars);
    let b_key = version_key(&b_chars);
    order_keys(&a_key, &b_key)
}

/// `a` is above `b` in the order of versions.
pub open spec fn is_above(a: Seq<char>, b: Seq<char>) -> bool {
    version_order(a, b) == Ordering::Greater
}

/// Whether `a` is above `b` in the order of versions.
pub fn version_is_above(a: &Vec<char>, b: &Vec<char>) -> (r: bool)
    ensures
        r == is_above(a@, b@),
{
    let a_key = version_key(a);
    let b_key = version_key(b);
    match order_keys(&a_key, &b_key) {
        Ordering::Greater => true,
        _ => false,
    }
}

/// Being above is a strict order in which not being above is transitive too:
/// nothing is above itself; what is above something that `c` is not above is
/// above `c`; and what is not above `b`, `b` not being above `c`, is not above
/// `c`.
pub proof fn lemma_above(a: Seq<char>, b: Seq<char>, c: Seq<char>)
    ensures
        !is_above(a, a),
        is_above(a, b) ==> !is_above(b, a),
        is_above(a, b) && !is_above(c, b) ==> is_above(a, c),
        !is_above(a, b) && !is_above(b, c) ==> !is_above(a, c),
        !is_above(a, b) && is_above(c, b) ==> is_above(c, a),
{
}

/// Among versions with the same release numbers, one without a prerelease
/// marker is above one with a marker, whatever the marker's counter.
pub proof fn lemma_release_above_prerelease(release: Seq<char>, prerelease: Seq<char>)
    requires
        same_release(release, prerelease),
        !has_marker(release),
        has_marker(prerelease),
    ensures
        version_order(release, prerelease) == Ordering::Greater,
        version_order(prerelease, release) == Ordering::Less,
        is_above(release, prerelease),
{
}

/// Every version is equal to itself in the order, and turning a comparison
/// round turns its result round.
pub proof fn lemma_order_mirror(a: Seq<char>, b: Seq<char>)
    ensures
        version_order(a, a) == Ordering::Equal,
        version_order(a, b) == Ordering::Less <==> version_order(b, a) == Ordering::Greater,
        version_order(a, b) == Ordering::Equal <==> version_order(b, a) == Ordering::Equal,
{
}

/// The order is transitive: what is not above `b`, while `b` is not above `c`,
/// is not above `c`; and it is below `c` if one of the two steps is strict.
pub proof fn lemma_order_transitive(a: Seq<char>, b: Seq<char>, c: Seq<char>)
    requires
        version_order(a, b) != Ordering::Greater,
        version_order(b, c) != Ordering::Greater,
    ensures
        version_order(a, c) != Ordering::Greater,
        version_order(a, b) == Ordering::Less || version_order(b, c) == Ordering::Less
            ==> version_order(a, c) == Ordering::Less,
{
}

} // verus!
