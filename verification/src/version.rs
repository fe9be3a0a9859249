//! Version arithmetic: the next version of a package from its current
//! version, the size of the step and the channel it is released on.
//!
//! A version is text of the shape `major.minor.patch`, optionally followed by a
//! hyphen and a prerelease marker such as `beta` or `beta.2`. On the channel
//! `production` a version with a marker is promoted to the release it
//! announces, and a version without one is stepped. On every other channel
//! the release numbers are stepped and the result carries a `beta` marker,
//! numbered one above the marker of the version it came from.

use vstd::prelude::*;
use crate::number::{decimal, decimal_chars, is_digit, lemma_decimal, lemma_parse_decimal,
    parse_number, parse_u32};
use crate::pieces::{free_of, lemma_split_next, lemma_split_single, split, split_chars};
use crate::text::{append_chars, append_str, from_chars, same_text, to_chars, views};

verus! {

/// The size of a version step.
#[derive(Clone, Copy, Debug, PartialEq, Eq, Structural)]
pub enum Semver {
    Patch,
    Minor,
    Major,
}

/// What can be wrong with the input of a release.
#[derive(Clone, Copy, Debug, PartialEq, Eq, Structural)]
pub enum ReleaseError {
    /// A version lacks three numeric components separated by dots, or, where
    /// its marker's counter is read, that counter is no number.
    MalformedVersion,
    /// A package's metadata is not a JSON object with a name and a version.
    MissingMetadata,
}

impl Semver {
    /// The place of a step in the order `Patch < Minor < Major`.
    pub open spec fn rank(self) -> nat {
        match self {
            Semver::Patch => 0,
            Semver::Minor => 1,
            Semver::Major => 2,
        }
    }

    /// The larger of two steps.
    pub open spec fn join(self, other: Semver) -> Semver {
        if self.rank() >= other.rank() {
            self
        } else {
            other
        }
    }
}

/// The larger of two steps.
pub fn get_higher_semver(current_semver: Semver, new_semver: Semver) -> (r: Semver)
    ensures
        r == current_semver.join(new_semver),
{
    match current_semver {
        Semver::Patch => new_semver,
        Semver::Minor => match new_semver {
            Semver::Major => Semver::Major,
            _ => Semver::Minor,
        },
        Semver::Major => Semver::Major,
    }
}

/// Joining steps is taking a maximum: the order of the arguments and the way
/// they are grouped do not matter, and a step joined with itself is itself.
pub proof fn lemma_join_is_max(a: Semver, b: Semver, c: Semver)
    ensures
        a.join(b) == b.join(a),
        a.join(b).join(c) == a.join(b.join(c)),
        a.join(a) == a,
        a.join(b).rank() >= a.rank(),
        a.join(b).rank() >= b.rank(),
        a.join(b) == a || a.join(b) == b,
        Semver::Patch.join(a) == a,
{
}

/// The channel on which final releases are made.
pub open spec fn production() -> Seq<char> {
    "production"@
}

/// Whether `environment` is the production channel.
pub fn is_production(environment: &str) -> (r: bool)
    ensures
        r == (environment@ == production()),
{
    same_text(environment, "production")
}

/// The release part of a version: what stands before its first hyphen.
pub open spec fn release_part(version: Seq<char>) -> Seq<char> {
    split(version, '-')[0]
}

/// Whether a version carries a prerelease marker, that is, holds a hyphen.
pub open spec fn has_marker(version: Seq<char>) -> bool {
    split(version, '-').len() > 1
}

/// The prerelease marker of a version that has one: what stands between its
/// first hyphen and its second, or its end.
pub open spec fn marker(version: Seq<char>) -> Seq<char> {
    split(version, '-')[1]
}

/// The `k`-th component of the release part, read as a number. `None` where
/// the release part has no such component or it is no number.
pub open spec fn release_component(version: Seq<char>, k: int) -> Option<u32> {
    let parts = split(release_part(version), '.');
    if 0 <= k < parts.len() {
        parse_u32(parts[k])
    } else {
        None
    }
}

/// The counter that a marker stands at: the number behind its first dot, 0
/// where it has no dot, `None` where what stands there is no number.
pub open spec fn marker_counter(marker: Seq<char>) -> Option<u32> {
    let parts = split(marker, '.');
    if parts.len() > 1 {
        parse_u32(parts[1])
    } else {
        Some(0)
    }
}

/// Release numbers after a step: the stepped number is one higher, those
/// below it are zero, those above it stay.
pub open spec fn stepped(major: nat, minor: nat, patch: nat, step: Semver) -> (nat, nat, nat) {
    match step {
        Semver::Patch => (major, minor, patch + 1),
        Semver::Minor => (major, minor + 1, 0),
        Semver::Major => (major + 1, 0, 0),
    }
}

/// Three release numbers as text.
pub open spec fn release_text(numbers: (nat, nat, nat)) -> Seq<char> {
    decimal(numbers.0) + "."@ + decimal(numbers.1) + "."@ + decimal(numbers.2)
}

/// The version that follows `version`.
pub open spec fn next_version(version: Seq<char>, step: Semver, production: bool) -> Result<
    Seq<char>,
    ReleaseError,
> {
    match (
        release_component(version, 0),
        release_component(version, 1),
        release_component(version, 2),
    ) {
        (Some(major), Some(minor), Some(patch)) => {
            let current = (major as nat, minor as nat, patch as nat);
            let next = stepped(major as nat, minor as nat, patch as nat, step);
            if production {
                if has_marker(version) {
                    Ok(release_text(current))
                } else {
                    Ok(release_text(next))
                }
            } else if has_marker(version) {
                match marker_counter(marker(version)) {
                    Some(counter) => Ok(
                        release_text(next) + "-beta."@ + decimal((counter + 1) as nat),
                    ),
                    None => Err(ReleaseError::MalformedVersion),
                }
            } else {
                Ok(release_text(next) + "-beta"@)
            }
        },
        _ => Err(ReleaseError::MalformedVersion),
    }
}

/// The counter that the marker `marker` stands at.
pub fn counter_of(marker: &Vec<char>) -> (r: Option<u32>)
    ensures
        r == marker_counter(marker@),
{
    let parts = split_chars(marker, '.');
    if parts.len() > 1 {
        assert(views(parts@)[1] == parts@[1]@);
        parse_number(&parts[1])
    } else {
        Some(0)
    }
}

/// Whether `version` carries a prerelease marker.
pub fn carries_marker(version: &Vec<char>) -> (r: bool)
    ensures
        r == has_marker(version@),
{
    let parts = split_chars(version, '-');
    parts.len() > 1
}

/// Writes three release numbers as text.
fn release_chars(major: u64, minor: u64, patch: u64) -> (out: Vec<char>)
    ensures
        out@ == release_text((major as nat, minor as nat, patch as nat)),
{
    let mut out = decimal_chars(major);
    append_str(&mut out, ".");
    let minor_chars = decimal_chars(minor);
    append_chars(&mut out, &minor_chars);
    append_str(&mut out, ".");
    let patch_chars = decimal_chars(patch);
    append_chars(&mut out, &patch_chars);
    out
}

/// Reads the `k`-th of the pieces `parts` as a number.
pub fn component_number(parts: &Vec<Vec<char>>, k: usize) -> (r: Option<u32>)
    ensures
        r == if k < parts.len() {
            parse_u32(views(parts@)[k as int])
        } else {
            None
        },
{
    if k < parts.len() {
        parse_number(&parts[k])
    } else {
        None
    }
}

/// The version that follows `version` after a step of size `semver` on the
/// channel `environment`.
///
/// Fails with `MalformedVersion` exactly when the release part of `version`
/// has fewer than three leading numeric components, or when the channel is not
/// `production` and the counter of the marker is no number.
pub fn increase_version(version: &str, semver: Semver, environment: &str) -> (r: Result<
    String,
    ReleaseError,
>)
    ensures
        match r {
            Ok(next) => next_version(version@, semver, environment@ == production()) == Ok::<
                Seq<char>,
                ReleaseError,
            >(next@),
            Err(e) => next_version(version@, semver, environment@ == production()) == Err::<
                Seq<char>,
                ReleaseError,
            >(e),
        },
{
    let chars = to_chars(version);
    let parts = split_chars(&chars, '-');
    let release = split_chars(&parts[0], '.');
    assert(views(parts@)[0] == parts@[0]@);
    let major = component_number(&release, 0);
    let minor = component_number(&release, 1);
    let patch = component_number(&release, 2);
    let (major, minor, patch) = match (major, minor, patch) {
        (Some(major), Some(minor), Some(patch)) => (major as u64, minor as u64, patch as u64),
        _ => {
            return Err(ReleaseError::MalformedVersion);
        },
    };
    let is_beta = parts.len() > 1;
    let on_production = is_production(environment);
    if on_production && is_beta {
        let out = release_chars(major, minor, patch);
        return Ok(from_chars(&out));
    }
    let mut out = match semver {
        Semver::Patch => release_chars(major, minor, patch + 1),
        Semver::Minor => release_chars(major, minor + 1, 0),
        Semver::Major => release_chars(major + 1, 0, 0),
    };
    if on_production {
        return Ok(from_chars(&out));
    }
    if is_beta {
        assert(views(parts@)[1] == parts@[1]@);
        let counter: u64 = match counter_of(&parts[1]) {
            Some(counter) => counter as u64,
            None => {
                return Err(ReleaseError::MalformedVersion);
            },
        };
        append_str(&mut out, "-beta.");
        let counter_chars = decimal_chars(counter + 1);
        append_chars(&mut out, &counter_chars);
    } else {
        append_str(&mut out, "-beta");
    }
    Ok(from_chars(&out))
}

/// What `decimal` writes holds neither a dot nor a hyphen.
pub proof fn lemma_decimal_plain(n: nat)
    ensures
        free_of(decimal(n), '.'),
        free_of(decimal(n), '-'),
{
    lemma_decimal(n);
    let s = decimal(n);
    assert forall|i: int| 0 <= i < s.len() implies s[i] != '.' && s[i] != '-' by {
        assert(is_digit(s[i]));
    }
}

/// Three release numbers written as text are a version without a marker,
/// whose components read as those numbers.
pub proof fn lemma_release_text(major: nat, minor: nat, patch: nat)
    ensures
        !has_marker(release_text((major, minor, patch))),
        release_part(release_text((major, minor, patch))) == release_text((major, minor, patch)),
        split(release_text((major, minor, patch)), '.') == seq![
            decimal(major),
            decimal(minor),
            decimal(patch),
        ],
{
    reveal_strlit(".");
    let text = release_text((major, minor, patch));
    let dot = seq!['.'];
    assert("."@ == dot);
    lemma_decimal_plain(major);
    lemma_decimal_plain(minor);
    lemma_decimal_plain(patch);
    lemma_split_single(decimal(major), '.');
    lemma_split_next(decimal(major), decimal(minor), '.');
    lemma_split_next(decimal(major) + dot + decimal(minor), decimal(patch), '.');
    assert(seq![decimal(major)].push(decimal(minor)).push(decimal(patch)) == seq![
        decimal(major),
        decimal(minor),
        decimal(patch),
    ]);
    assert forall|i: int| 0 <= i < text.len() implies text[i] != '-' by {
        let a = decimal(major).len();
        let b = decimal(minor).len();
        if i < a {
            assert(text[i] == decimal(major)[i]);
        } else if i == a {
        } else if i < a + 1 + b {
            assert(text[i] == decimal(minor)[i - a - 1]);
        } else if i == a + 1 + b {
        } else {
            assert(text[i] == decimal(patch)[i - a - b - 2]);
        }
    }
    lemma_split_single(text, '-');
}

/// On `production`, a version that consists of three release numbers steps to
/// the version in which the number that the step names is one higher, the
/// numbers below it are zero and the numbers above it are unchanged; neither
/// version carries a prerelease marker.
pub proof fn lemma_production_step(major: u32, minor: u32, patch: u32, step: Semver)
    ensures
        next_version(release_text((major as nat, minor as nat, patch as nat)), step, true) == Ok::<
            Seq<char>,
            ReleaseError,
        >(release_text(stepped(major as nat, minor as nat, patch as nat, step))),
        !has_marker(release_text(stepped(major as nat, minor as nat, patch as nat, step))),
        split(release_text(stepped(major as nat, minor as nat, patch as nat, step)), '.') == seq![
            decimal(stepped(major as nat, minor as nat, patch as nat, step).0),
            decimal(stepped(major as nat, minor as nat, patch as nat, step).1),
            decimal(stepped(major as nat, minor as nat, patch as nat, step).2),
        ],
{
    let version = release_text((major as nat, minor as nat, patch as nat));
    lemma_release_text(major as nat, minor as nat, patch as nat);
    lemma_parse_decimal(major);
    lemma_parse_decimal(minor);
    lemma_parse_decimal(patch);
    let parts = split(release_part(version), '.');
    assert(parts[0] == decimal(major as nat));
    assert(parts[1] == decimal(minor as nat));
    assert(parts[2] == decimal(patch as nat));
    let next = stepped(major as nat, minor as nat, patch as nat, step);
    lemma_release_text(next.0, next.1, next.2);
}

/// On `production`, a version that carries a prerelease marker is promoted:
/// the result is its three release numbers, whatever the step asked for, and
/// carries no marker.
pub proof fn lemma_production_promotes(version: Seq<char>, step: Semver, other_step: Semver)
    requires
        has_marker(version),
        release_component(version, 0) is Some,
        release_component(version, 1) is Some,
        release_component(version, 2) is Some,
    ensures
        next_version(version, step, true) == Ok::<Seq<char>, ReleaseError>(
            release_text(
                (
                    release_component(version, 0)->0 as nat,
                    release_component(version, 1)->0 as nat,
                    release_component(version, 2)->0 as nat,
                ),
            ),
        ),
        next_version(version, step, true) == next_version(version, other_step, true),
        next_version(version, step, true) matches Ok(promoted) && !has_marker(promoted),
{
    lemma_release_text(
        release_component(version, 0)->0 as nat,
        release_component(version, 1)->0 as nat,
        release_component(version, 2)->0 as nat,
    );
}

/// On a channel other than `production` the release numbers are stepped and
/// the result carries the marker `beta`: bare where the version carried no
/// marker, with the counter 1 where its marker had no counter, and with the
/// counter one above where its marker had one.
pub proof fn lemma_prerelease_counts(version: Seq<char>, step: Semver)
    requires
        release_component(version, 0) is Some,
        release_component(version, 1) is Some,
        release_component(version, 2) is Some,
    ensures
        ({
            let next = release_text(
                stepped(
                    release_component(version, 0)->0 as nat,
                    release_component(version, 1)->0 as nat,
                    release_component(version, 2)->0 as nat,
                    step,
                ),
            );
            &&& !has_marker(version) ==> next_version(version, step, false) == Ok::<
                Seq<char>,
                ReleaseError,
            >(next + "-beta"@)
            &&& has_marker(version) && split(marker(version), '.').len() == 1 ==> next_version(
                version,
                step,
                false,
            ) == Ok::<Seq<char>, ReleaseError>(next + "-beta."@ + seq!['1'])
            &&& has_marker(version) ==> (marker_counter(marker(version)) matches Some(counter)
                ==> next_version(version, step, false) == Ok::<Seq<char>, ReleaseError>(
                next + "-beta."@ + decimal((counter + 1) as nat),
            ))
        }),
{
    assert(decimal(1) == seq!['1']);
}

} // verus!
