//! Release tags. The tag of a release is the package's name, `-v` and the
//! version; the latest tag of a package is the highest of its tags in the order
//! of versions.

use vstd::prelude::*;
use crate::compare::{is_above, lemma_above, lemma_release_above_prerelease, same_release,
    version_is_above};
use crate::pieces::{strip_leading, strip_leading_chars};
use crate::text::{append_str, from_chars, starts_with_chars, string_views, to_chars};
use crate::version::{carries_marker, has_marker, is_production, production};

verus! {

/// What every tag of the package `name` begins with.
pub open spec fn tag_prefix(name: Seq<char>) -> Seq<char> {
    name + "-v"@
}

/// The tag of the release `version` of the package `name`.
pub open spec fn tag_name(name: Seq<char>, version: Seq<char>) -> Seq<char> {
    name + "-v"@ + version
}

/// The version that a tag names: the tag without the prefix at its front.
pub open spec fn tag_version(tag: Seq<char>, prefix: Seq<char>) -> Seq<char> {
    strip_leading(tag, prefix)
}

/// Whether `tag` is one of those among which the latest is looked for: it
/// begins with the prefix and, on the production channel, names a version
/// without a prerelease marker.
pub open spec fn is_candidate(tag: Seq<char>, prefix: Seq<char>, production: bool) -> bool {
    &&& prefix.is_prefix_of(tag)
    &&& production ==> !has_marker(tag_version(tag, prefix))
}

/// The tag `a` names a version above that of the tag `b`.
pub open spec fn tag_above(a: Seq<char>, b: Seq<char>, prefix: Seq<char>) -> bool {
    is_above(tag_version(a, prefix), tag_version(b, prefix))
}

/// The latest candidate among `tags`: read from first to last, a later
/// candidate takes the place of the one held unless the one held is above it.
pub open spec fn latest_among(tags: Seq<Seq<char>>, prefix: Seq<char>, production: bool) -> Option<
    Seq<char>,
>
    decreases tags.len(),
{
    if tags.len() == 0 {
        None
    } else {
        let held = latest_among(tags.drop_last(), prefix, production);
        let tag = tags.last();
        if !is_candidate(tag, prefix, production) {
            held
        } else {
            match held {
                Some(best) if tag_above(best, tag, prefix) => held,
                _ => Some(tag),
            }
        }
    }
}

/// The tag from which the history of a package is read: the latest candidate
/// among `tags`, and the tag of the current version where there is none.
pub open spec fn latest_tag(
    name: Seq<char>,
    version: Seq<char>,
    production: bool,
    tags: Seq<Seq<char>>,
) -> Seq<char> {
    match latest_among(tags, tag_prefix(name), production) {
        Some(tag) => tag,
        None => tag_name(name, version),
    }
}

/// The latest candidate is a candidate that no candidate is above, and the
/// last such one: it is above every candidate that comes after it. There is
/// none exactly when no tag is a candidate.
pub proof fn lemma_latest_among(tags: Seq<Seq<char>>, prefix: Seq<char>, production: bool)
    ensures
        match latest_among(tags, prefix, production) {
            Some(best) => exists|i: int|
                {
                    &&& 0 <= i < tags.len()
                    &&& #[trigger] tags[i] == best
                    &&& is_candidate(best, prefix, production)
                    &&& forall|j: int|
                        0 <= j < tags.len() && is_candidate(#[trigger] tags[j], prefix, production)
                            ==> !tag_above(tags[j], best, prefix)
                    &&& forall|j: int|
                        i < j < tags.len() && is_candidate(#[trigger] tags[j], prefix, production)
                            ==> tag_above(best, tags[j], prefix)
                },
            None => forall|j: int|
                0 <= j < tags.len() ==> !is_candidate(#[trigger] tags[j], prefix, production),
        },
    decreases tags.len(),
{
    if tags.len() > 0 {
        let before = tags.drop_last();
        let tag = tags.last();
        let last = tags.len() - 1;
        lemma_latest_among(before, prefix, production);
        assert forall|j: int| 0 <= j < last implies before[j] == tags[j] by {}
        let held = latest_among(before, prefix, production);
        if !is_candidate(tag, prefix, production) {
            match held {
                Some(best) => {
                    let i = choose|i: int|
                        {
                            &&& 0 <= i < before.len()
                            &&& #[trigger] before[i] == best
                            &&& is_candidate(best, prefix, production)
                            &&& forall|j: int|
                                0 <= j < before.len() && is_candidate(
                                    #[trigger] before[j],
                                    prefix,
                                    production,
                                ) ==> !tag_above(before[j], best, prefix)
                            &&& forall|j: int|
                                i < j < before.len() && is_candidate(
                                    #[trigger] before[j],
                                    prefix,
                                    production,
                                ) ==> tag_above(best, before[j], prefix)
                        };
                    assert(tags[i] == best);
                    assert forall|j: int|
                        0 <= j < tags.len() && is_candidate(
                            #[trigger] tags[j],
                            prefix,
                            production,
                        ) implies !tag_above(tags[j], best, prefix) by {
                        assert(before[j] == tags[j]);
                    }
                    assert forall|j: int|
                        i < j < tags.len() && is_candidate(
                            #[trigger] tags[j],
                            prefix,
                            production,
                        ) implies tag_above(best, tags[j], prefix) by {
                        assert(before[j] == tags[j]);
                    }
                },
                None => {
                    assert forall|j: int| 0 <= j < tags.len() implies !is_candidate(
                        #[trigger] tags[j],
                        prefix,
                        production,
                    ) by {
                        if j < last {
                            assert(before[j] == tags[j]);
                        }
                    }
                },
            }
        } else {
            match held {
                Some(best) => {
                    let i = choose|i: int|
                        {
                            &&& 0 <= i < before.len()
                            &&& #[trigger] before[i] == best
                            &&& is_candidate(best, prefix, production)
                            &&& forall|j: int|
                                0 <= j < before.len() && is_candidate(
                                    #[trigger] before[j],
                                    prefix,
                                    production,
                                ) ==> !tag_above(before[j], best, prefix)
                            &&& forall|j: int|
                                i < j < before.len() && is_candidate(
                                    #[trigger] before[j],
                                    prefix,
                                    production,
                                ) ==> tag_above(best, before[j], prefix)
                        };
                    if tag_above(best, tag, prefix) {
                        assert(tags[i] == best);
                        lemma_above(
                            tag_version(best, prefix),
                            tag_version(tag, prefix),
                            tag_version(tag, prefix),
                        );
                        assert forall|j: int|
                            0 <= j < tags.len() && is_candidate(
                                #[trigger] tags[j],
                                prefix,
                                production,
                            ) implies !tag_above(tags[j], best, prefix) by {
                            if j < last {
                                assert(before[j] == tags[j]);
                            }
                        }
                        assert forall|j: int|
                            i < j < tags.len() && is_candidate(
                                #[trigger] tags[j],
                                prefix,
                                production,
                            ) implies tag_above(best, tags[j], prefix) by {
                            if j < last {
                                assert(before[j] == tags[j]);
                            }
                        }
                    } else {
                        assert(tags[last] == tag);
                        assert forall|j: int|
                            0 <= j < tags.len() && is_candidate(
                                #[trigger] tags[j],
                                prefix,
                                production,
                            ) implies !tag_above(tags[j], tag, prefix) by {
                            if j < last {
                                assert(before[j] == tags[j]);
                                lemma_above(
                                    tag_version(tags[j], prefix),
                                    tag_version(best, prefix),
                                    tag_version(tag, prefix),
                                );
                            } else {
                                lemma_above(
                                    tag_version(tag, prefix),
                                    tag_version(tag, prefix),
                                    tag_version(tag, prefix),
                                );
                            }
                        }
                    }
                },
                None => {
                    assert(tags[last] == tag);
                    lemma_above(
                        tag_version(tag, prefix),
                        tag_version(tag, prefix),
                        tag_version(tag, prefix),
                    );
                    assert forall|j: int|
                        0 <= j < tags.len() && is_candidate(
                            #[trigger] tags[j],
                            prefix,
                            production,
                        ) implies !tag_above(tags[j], tag, prefix) by {
                        if j < last {
                            assert(before[j] == tags[j]);
                        }
                    }
                },
            }
        }
    }
}

/// Where no tag is a candidate, and so where there are no tags at all, the
/// latest tag is the tag of the current version.
pub proof fn lemma_latest_tag_without_candidates(
    name: Seq<char>,
    version: Seq<char>,
    production: bool,
    tags: Seq<Seq<char>>,
)
    requires
        forall|j: int|
            0 <= j < tags.len() ==> !is_candidate(#[trigger] tags[j], tag_prefix(name), production),
    ensures
        latest_tag(name, version, production, tags) == tag_name(name, version),
{
    lemma_latest_among(tags, tag_prefix(name), production);
    match latest_among(tags, tag_prefix(name), production) {
        Some(best) => {
            let i = choose|i: int|
                0 <= i < tags.len() && #[trigger] tags[i] == best && is_candidate(
                    best,
                    tag_prefix(name),
                    production,
                );
            assert(is_candidate(tags[i], tag_prefix(name), production));
        },
        None => {},
    }
}

/// Among the tags of versions with the same release numbers, the tag of a
/// version without a prerelease marker is above the tag of a version with one,
/// whatever the marker's counter.
pub proof fn lemma_release_tag_above_prerelease_tag(
    release: Seq<char>,
    prerelease: Seq<char>,
    prefix: Seq<char>,
)
    requires
        same_release(tag_version(release, prefix), tag_version(prerelease, prefix)),
        !has_marker(tag_version(release, prefix)),
        has_marker(tag_version(prerelease, prefix)),
    ensures
        tag_above(release, prerelease, prefix),
        !tag_above(prerelease, release, prefix),
{
    lemma_release_above_prerelease(tag_version(release, prefix), tag_version(prerelease, prefix));
    lemma_above(
        tag_version(release, prefix),
        tag_version(prerelease, prefix),
        tag_version(release, prefix),
    );
}

/// The tag of the release `version` of the package `name`.
pub fn release_tag(name: &str, version: &str) -> (tag: String)
    ensures
        tag@ == tag_name(name@, version@),
{
    let mut out = to_chars(name);
    append_str(&mut out, "-v");
    append_str(&mut out, version);
    from_chars(&out)
}

/// The pattern that lists the tags of the package `name`: its tag prefix and
/// an asterisk.
pub fn tag_pattern(name: &str) -> (pattern: String)
    ensures
        pattern@ == tag_prefix(name@) + "*"@,
{
    let mut out = to_chars(name);
    append_str(&mut out, "-v");
    append_str(&mut out, "*");
    from_chars(&out)
}

/// The tag from which the history of the package `name` is read, `tags` being
/// the tags of the repository: the latest of the package's tags, without the
/// prereleases on the production channel, and the tag of `version` where the
/// package has no such tag.
pub fn get_latest_tag(name: &str, version: &str, environment: &str, tags: &Vec<String>) -> (tag:
    String)
    ensures
        tag@ == latest_tag(name@, version@, environment@ == production(), string_views(tags@)),
{
    let on_production = is_production(environment);
    let mut prefix = to_chars(name);
    append_str(&mut prefix, "-v");
    let ghost all = string_views(tags@);
    let mut held: Option<Vec<char>> = None;
    let mut held_version: Vec<char> = Vec::new();
    let mut i: usize = 0;
    while i < tags.len()
        invariant
            i <= tags.len(),
            all == string_views(tags@),
            prefix@ == tag_prefix(name@),
            on_production == (environment@ == production()),
            match held {
                Some(best) => latest_among(all.take(i as int), prefix@, on_production) == Some(best@)
                    && held_version@ == tag_version(best@, prefix@),
                None => latest_among(all.take(i as int), prefix@, on_production) is None,
            },
        decreases tags.len() - i,
    {
        assert(all.take(i + 1).drop_last() == all.take(i as int));
        assert(all.take(i + 1).last() == tags@[i as int]@);
        let tag = to_chars(tags[i].as_str());
        let version_of_tag = strip_leading_chars(&tag, &prefix);
        if starts_with_chars(&tag, &prefix) && !(on_production && carries_marker(&version_of_tag)) {
            let keep = match &held {
                Some(_) => version_is_above(&held_version, &version_of_tag),
                None => false,
            };
            if !keep {
                held = Some(tag);
                held_version = version_of_tag;
            }
        }
        i += 1;
    }
    assert(all.take(tags.len() as int) == all);
    match held {
        Some(best) => from_chars(&best),
        None => release_tag(name, version),
    }
}

} // verus!
