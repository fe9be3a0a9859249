//! Packages, the record of the packages that a run has given a new version,
//! and the packages that follow because something they depend on changed.

use vstd::prelude::*;
use crate::commits::{commits_step, determine_semver_target};
use crate::text::{same_text, string_views};
use crate::version::{increase_version, next_version, production, ReleaseError};

verus! {

/// A package of the repository.
#[derive(Debug)]
pub struct Package {
    /// Where the package lies; no two packages of a manifest share a path.
    pub path: String,
    /// Files that carry the version of the package behind a marker comment.
    pub extra_files: Vec<String>,
    /// The names of the packages of the same manifest that this one depends on.
    pub dependencies: Vec<String>,
}

/// The packages of the repository, in the order in which they are worked on.
#[derive(Debug)]
pub struct Manifest {
    pub packages: Vec<Package>,
}

impl Manifest {
    /// The paths of the packages, in the order of the manifest.
    pub open spec fn paths(&self) -> Seq<Seq<char>> {
        Seq::new(self.packages@.len(), |i: int| self.packages@[i].path@)
    }

    /// No two packages share a path.
    pub open spec fn wf(&self) -> bool {
        forall|i: int, j: int|
            0 <= i < j < self.paths().len() ==> #[trigger] self.paths()[i] != #[trigger] self.paths()[j]
    }

    /// Whether no two packages share a path.
    pub fn has_distinct_paths(&self) -> (r: bool)
        ensures
            r == self.wf(),
    {
        let n: usize = self.packages.len();
        let mut j: usize = 0;
        while j < n
            invariant
                j <= n,
                n == self.packages.len(),
                forall|a: int, b: int|
                    0 <= a < b < j ==> #[trigger] self.paths()[a] != #[trigger] self.paths()[b],
            decreases n - j,
        {
            let mut i: usize = 0;
            while i < j
                invariant
                    i <= j < n,
                    n == self.packages.len(),
                    forall|a: int| 0 <= a < i ==> #[trigger] self.paths()[a] != self.paths()[j as int],
                decreases j - i,
            {
                if same_text(self.packages[i].path.as_str(), self.packages[j].path.as_str()) {
                    assert(self.paths()[i as int] == self.paths()[j as int]);
                    return false;
                }
                i += 1;
            }
            j += 1;
        }
        true
    }
}

/// The packages that a run has given a new version, each with that version,
/// in the order in which they were recorded. No name is recorded twice.
pub struct ReleaseState {
    changed: Vec<(String, String)>,
}

/// `name` is one of the names recorded in `changed`.
pub open spec fn recorded(changed: Seq<(Seq<char>, Seq<char>)>, name: Seq<char>) -> bool {
    exists|i: int| 0 <= i < changed.len() && (#[trigger] changed[i]).0 == name
}

/// No name is recorded twice in `changed`.
pub open spec fn distinct_names(changed: Seq<(Seq<char>, Seq<char>)>) -> bool {
    forall|i: int, j: int|
        0 <= i < j < changed.len() ==> (#[trigger] changed[i]).0 != (#[trigger] changed[j]).0
}

/// `changed` with `version` recorded for `name`: in the place where `name`
/// was recorded, at the end where it was not.
pub open spec fn record(
    changed: Seq<(Seq<char>, Seq<char>)>,
    name: Seq<char>,
    version: Seq<char>,
) -> Seq<(Seq<char>, Seq<char>)> {
    if recorded(changed, name) {
        Seq::new(
            changed.len(),
            |i: int|
                if changed[i].0 == name {
                    (name, version)
                } else {
                    changed[i]
                },
        )
    } else {
        changed.push((name, version))
    }
}

/// Recording keeps every name recorded once, records `name`, and touches no
/// other name.
pub proof fn lemma_record(changed: Seq<(Seq<char>, Seq<char>)>, name: Seq<char>, version: Seq<char>)
    requires
        distinct_names(changed),
    ensures
        distinct_names(record(changed, name, version)),
        forall|other: Seq<char>|
            recorded(record(changed, name, version), other) <==> other == name || recorded(
                changed,
                other,
            ),
        exists|i: int|
            0 <= i < record(changed, name, version).len() && #[trigger] record(
                changed,
                name,
                version,
            )[i] == (name, version),
{
    let after = record(changed, name, version);
    if recorded(changed, name) {
        let at = choose|i: int| 0 <= i < changed.len() && (#[trigger] changed[i]).0 == name;
        assert(after[at] == (name, version));
        assert forall|i: int| 0 <= i < changed.len() implies (#[trigger] after[i]).0
            == changed[i].0 by {}
        assert forall|other: Seq<char>| recorded(after, other) <==> other == name || recorded(
            changed,
            other,
        ) by {
            if recorded(after, other) {
                let i = choose|i: int| 0 <= i < after.len() && (#[trigger] after[i]).0 == other;
                assert(changed[i].0 == other);
            }
            if recorded(changed, other) {
                let i = choose|i: int| 0 <= i < changed.len() && (#[trigger] changed[i]).0 == other;
                assert(after[i].0 == other);
            }
        }
        assert forall|i: int, j: int| 0 <= i < j < after.len() implies (#[trigger] after[i]).0 != (
        #[trigger] after[j]).0 by {
            assert(after[i].0 == changed[i].0);
            assert(after[j].0 == changed[j].0);
        }
    } else {
        let last = changed.len() as int;
        assert(after[last] == (name, version));
        assert forall|other: Seq<char>| recorded(after, other) <==> other == name || recorded(
            changed,
            other,
        ) by {
            if recorded(after, other) {
                let i = choose|i: int| 0 <= i < after.len() && (#[trigger] after[i]).0 == other;
                if i < last {
                    assert(changed[i].0 == other);
                }
            }
            if recorded(changed, other) {
                let i = choose|i: int| 0 <= i < changed.len() && (#[trigger] changed[i]).0 == other;
                assert(after[i].0 == other);
            }
            if other == name {
                assert(after[last].0 == other);
            }
        }
        assert forall|i: int, j: int| 0 <= i < j < after.len() implies (#[trigger] after[i]).0 != (
        #[trigger] after[j]).0 by {
            assert(after[i] == changed[i]);
            if j < last {
                assert(after[j] == changed[j]);
            } else {
                assert(changed[i].0 != name);
            }
        }
    }
}

/// The views of a sequence of names with versions.
pub open spec fn pair_views(pairs: Seq<(String, String)>) -> Seq<(Seq<char>, Seq<char>)> {
    Seq::new(pairs.len(), |i: int| (pairs[i].0@, pairs[i].1@))
}

/// Where `name` stands among `pairs`.
fn position(pairs: &Vec<(String, String)>, name: &str) -> (at: Option<usize>)
    ensures
        match at {
            Some(i) => i < pairs.len() && pair_views(pairs@)[i as int].0 == name@,
            None => !recorded(pair_views(pairs@), name@),
        },
{
    let mut i: usize = 0;
    while i < pairs.len()
        invariant
            i <= pairs.len(),
            forall|k: int| 0 <= k < i ==> (#[trigger] pair_views(pairs@)[k]).0 != name@,
        decreases pairs.len() - i,
    {
        if same_text(pairs[i].0.as_str(), name) {
            return Some(i);
        }
        i += 1;
    }
    None
}

impl ReleaseState {
    /// What is recorded: the names with their versions, in the order of
    /// recording.
    pub closed spec fn view(&self) -> Seq<(Seq<char>, Seq<char>)> {
        pair_views(self.changed@)
    }

    /// No name is recorded twice.
    #[verifier::type_invariant]
    closed spec fn wf(&self) -> bool {
        distinct_names(pair_views(self.changed@))
    }

    /// A record of nothing.
    pub fn new() -> (state: ReleaseState)
        ensures
            state@ == Seq::<(Seq<char>, Seq<char>)>::empty(),
    {
        ReleaseState { changed: Vec::new() }
    }

    /// The number of packages recorded, each of them once.
    pub fn len(&self) -> (n: usize)
        ensures
            n == self@.len(),
            distinct_names(self@),
    {
        proof {
            use_type_invariant(self);
        }
        self.changed.len()
    }

    /// Whether `name` is recorded.
    pub fn contains_key(&self, name: &str) -> (r: bool)
        ensures
            r == recorded(self@, name@),
    {
        let at = position(&self.changed, name);
        proof {
            if let Some(i) = at {
                assert(self@[i as int].0 == name@);
            }
        }
        at.is_some()
    }

    /// The name and the version recorded at position `i`, counted from 0 in
    /// the order of recording; `None` where less is recorded.
    pub fn entry(&self, i: usize) -> (r: Option<(&str, &str)>)
        ensures
            match r {
                Some(pair) => i < self@.len() && pair.0@ == self@[i as int].0 && pair.1@
                    == self@[i as int].1,
                None => i >= self@.len(),
            },
    {
        if i < self.changed.len() {
            Some((self.changed[i].0.as_str(), self.changed[i].1.as_str()))
        } else {
            None
        }
    }

    /// Records `version` for `name`, in place of the version recorded for it
    /// before if there was one.
    pub fn insert(&mut self, name: String, version: String)
        ensures
            final(self)@ == record(old(self)@, name@, version@),
    {
        proof {
            use_type_invariant(&*self);
            lemma_record(self@, name@, version@);
        }
        let ghost before = self@;
        let ghost after = record(before, name@, version@);
        let mut changed: Vec<(String, String)> = Vec::new();
        std::mem::swap(&mut self.changed, &mut changed);
        match position(&changed, name.as_str()) {
            Some(i) => {
                assert(recorded(before, name@)) by {
                    assert(before[i as int].0 == name@);
                }
                changed.set(i, (name, version));
                assert(pair_views(changed@) =~= after) by {
                    assert forall|k: int| 0 <= k < after.len() implies pair_views(changed@)[k]
                        == after[k] by {
                        if k != i {
                            assert(before[k].0 != name@) by {
                                if k < i {
                                    assert(before[k].0 != before[i as int].0);
                                } else {
                                    assert(before[i as int].0 != before[k].0);
                                }
                            }
                        }
                    }
                }
            },
            None => {
                changed.push((name, version));
                assert(pair_views(changed@) =~= after);
            },
        }
        self.changed = changed;
    }
}

/// Whether one of the packages that `package` depends on has been given a new
/// version.
pub fn has_dependency_changes(package: &Package, changed_packages: &ReleaseState) -> (r: bool)
    ensures
        r == depends_on_changed(string_views(package.dependencies@), changed_packages@),
{
    names_recorded(&package.dependencies, changed_packages)
}

/// One of `dependencies` is recorded in `changed`.
pub open spec fn depends_on_changed(
    dependencies: Seq<Seq<char>>,
    changed: Seq<(Seq<char>, Seq<char>)>,
) -> bool {
    exists|i: int| 0 <= i < dependencies.len() && recorded(changed, #[trigger] dependencies[i])
}

/// Whether one of `names` is recorded in `changed`.
pub fn names_recorded(names: &Vec<String>, changed: &ReleaseState) -> (r: bool)
    ensures
        r == depends_on_changed(string_views(names@), changed@),
{
    let ghost all = string_views(names@);
    let mut i: usize = 0;
    while i < names.len()
        invariant
            i <= names.len(),
            all == string_views(names@),
            forall|k: int| 0 <= k < i ==> !recorded(changed@, #[trigger] all[k]),
        decreases names.len() - i,
    {
        if changed.contains_key(names[i].as_str()) {
            assert(recorded(changed@, all[i as int]));
            return true;
        }
        i += 1;
    }
    false
}

/// Whether the package `name`, which depends on `dependencies`, follows: it
/// has not been given a new version itself, and a package it depends on has.
pub fn follows_changed(name: &str, dependencies: &Vec<String>, changed: &ReleaseState) -> (r: bool)
    ensures
        r == (!recorded(changed@, name@) && depends_on_changed(
            string_views(dependencies@),
            changed@,
        )),
{
    !changed.contains_key(name) && names_recorded(dependencies, changed)
}

/// What the second pass of a run knows of a package: its name and version as
/// its metadata gives them, the names it depends on, and the lines of its own
/// commits since its latest tag, none where it has none.
pub struct PackageStatus {
    pub name: String,
    pub version: String,
    pub dependencies: Vec<String>,
    pub commits: Vec<String>,
}

/// The text of a `PackageStatus`.
pub struct PackageStatusText {
    pub name: Seq<char>,
    pub version: Seq<char>,
    pub dependencies: Seq<Seq<char>>,
    pub commits: Seq<Seq<char>>,
}

impl View for PackageStatus {
    type V = PackageStatusText;

    open spec fn view(&self) -> PackageStatusText {
        PackageStatusText {
            name: self.name@,
            version: self.version@,
            dependencies: string_views(self.dependencies@),
            commits: string_views(self.commits@),
        }
    }
}

/// The views of a sequence of package states.
pub open spec fn status_views(packages: Seq<PackageStatus>) -> Seq<PackageStatusText> {
    Seq::new(packages.len(), |i: int| packages[i]@)
}

/// A package follows when it has not been given a new version itself and
/// one of the packages it depends on has.
pub open spec fn follows(package: PackageStatusText, changed: Seq<(Seq<char>, Seq<char>)>) -> bool {
    !recorded(changed, package.name) && depends_on_changed(package.dependencies, changed)
}

/// The version that a package that follows is given: one step above its
/// own, the step being the one its own commits ask for, which is `Patch`
/// where it has no commits.
pub open spec fn following_version(package: PackageStatusText, production: bool) -> Result<
    Seq<char>,
    ReleaseError,
> {
    next_version(package.version, commits_step(package.commits), production)
}

/// The packages among `packages` that follow, each with its new version, in
/// the order of `packages`. What follows is decided by `changed` alone: a
/// package does not follow because a package it depends on follows. Fails with
/// the error of the first package that follows and whose version is
/// malformed.
pub open spec fn propagated(
    packages: Seq<PackageStatusText>,
    changed: Seq<(Seq<char>, Seq<char>)>,
    production: bool,
) -> Result<Seq<(Seq<char>, Seq<char>)>, ReleaseError>
    decreases packages.len(),
{
    if packages.len() == 0 {
        Ok(Seq::empty())
    } else {
        match propagated(packages.drop_last(), changed, production) {
            Ok(earlier) => if follows(packages.last(), changed) {
                match following_version(packages.last(), production) {
                    Ok(version) => Ok(earlier.push((packages.last().name, version))),
                    Err(e) => Err(e),
                }
            } else {
                Ok(earlier)
            },
            Err(e) => Err(e),
        }
    }
}

/// `pair` is the name of a package among `packages` that follows, with the
/// version that this package is given.
pub open spec fn given_to_follower(
    packages: Seq<PackageStatusText>,
    changed: Seq<(Seq<char>, Seq<char>)>,
    production: bool,
    pair: (Seq<char>, Seq<char>),
) -> bool {
    exists|i: int|
        0 <= i < packages.len() && follows(#[trigger] packages[i], changed) && packages[i].name
            == pair.0 && following_version(packages[i], production) == Ok::<
            Seq<char>,
            ReleaseError,
        >(pair.1)
}

/// Every package that `propagated` gives a version follows by `changed`
/// itself, so none follows because of a package that only follows; and every
/// package that follows is given a version.
pub proof fn lemma_propagated_single_hop(
    packages: Seq<PackageStatusText>,
    changed: Seq<(Seq<char>, Seq<char>)>,
    production: bool,
)
    ensures
        propagated(packages, changed, production) matches Ok(added) ==> {
            &&& forall|k: int|
                0 <= k < added.len() ==> given_to_follower(
                    packages,
                    changed,
                    production,
                    #[trigger] added[k],
                )
            &&& forall|i: int|
                0 <= i < packages.len() && follows(#[trigger] packages[i], changed) ==> recorded(
                    added,
                    packages[i].name,
                )
        },
    decreases packages.len(),
{
    if packages.len() > 0 {
        let before = packages.drop_last();
        let last = packages.len() - 1;
        lemma_propagated_single_hop(before, changed, production);
        if let Ok(earlier) = propagated(before, changed, production) {
            if let Ok(added) = propagated(packages, changed, production) {
                assert forall|k: int| 0 <= k < added.len() implies given_to_follower(
                    packages,
                    changed,
                    production,
                    #[trigger] added[k],
                ) by {
                    if k < earlier.len() {
                        assert(added[k] == earlier[k]);
                        assert(given_to_follower(before, changed, production, earlier[k]));
                        let i = choose|i: int|
                            0 <= i < before.len() && follows(#[trigger] before[i], changed)
                                && before[i].name == earlier[k].0 && following_version(
                                before[i],
                                production,
                            ) == Ok::<Seq<char>, ReleaseError>(earlier[k].1);
                        assert(packages[i] == before[i]);
                    } else {
                        assert(follows(packages[last], changed));
                    }
                }
                assert forall|i: int|
                    0 <= i < packages.len() && follows(
                        #[trigger] packages[i],
                        changed,
                    ) implies recorded(added, packages[i].name) by {
                    if i < last {
                        assert(before[i] == packages[i]);
                        assert(recorded(earlier, before[i].name));
                        let k = choose|k: int|
                            0 <= k < earlier.len() && (#[trigger] earlier[k]).0 == before[i].name;
                        assert(added[k] == earlier[k]);
                    } else {
                        assert(added[added.len() - 1].0 == packages[i].name);
                    }
                }
            }
        }
    }
}

/// The second pass of a run: the packages that follow because a package
/// they depend on was given a new version in the first pass, each with its
/// own new version.
pub fn process_dependencies(
    packages: &Vec<PackageStatus>,
    environment: &str,
    changed_packages: &ReleaseState,
) -> (r: Result<Vec<(String, String)>, ReleaseError>)
    ensures
        match r {
            Ok(added) => propagated(
                status_views(packages@),
                changed_packages@,
                environment@ == production(),
            ) == Ok::<Seq<(Seq<char>, Seq<char>)>, ReleaseError>(pair_views(added@)),
            Err(e) => propagated(
                status_views(packages@),
                changed_packages@,
                environment@ == production(),
            ) == Err::<Seq<(Seq<char>, Seq<char>)>, ReleaseError>(e),
        },
{
    let ghost all = status_views(packages@);
    let ghost on_production = environment@ == production();
    let mut added: Vec<(String, String)> = Vec::new();
    let mut i: usize = 0;
    assert(all.take(0) == Seq::<PackageStatusText>::empty());
    assert(pair_views(added@) == Seq::<(Seq<char>, Seq<char>)>::empty());
    while i < packages.len()
        invariant
            i <= packages.len(),
            all == status_views(packages@),
            on_production == (environment@ == production()),
            propagated(all.take(i as int), changed_packages@, on_production) == Ok::<
                Seq<(Seq<char>, Seq<char>)>,
                ReleaseError,
            >(pair_views(added@)),
        decreases packages.len() - i,
    {
        let package = &packages[i];
        proof {
            assert(all.take(i + 1).drop_last() == all.take(i as int));
            assert(all.take(i + 1).last() == package@);
        }
        if follows_changed(package.name.as_str(), &package.dependencies, changed_packages) {
            let semver_target = determine_semver_target(&package.commits);
            match increase_version(package.version.as_str(), semver_target, environment) {
                Ok(new_version) => {
                    let ghost before = added@;
                    let name = package.name.clone();
                    added.push((name, new_version));
                    assert(pair_views(added@) == pair_views(before).push(
                        (package.name@, new_version@),
                    ));
                },
                Err(e) => {
                    proof {
                        lemma_propagated_rest(all, i + 1, changed_packages@, on_production, e);
                    }
                    return Err(e);
                },
            }
        }
        i += 1;
    }
    assert(all.take(packages.len() as int) == all);
    Ok(added)
}

/// An error among the first packages is the error of them all.
pub proof fn lemma_propagated_rest(
    packages: Seq<PackageStatusText>,
    n: int,
    changed: Seq<(Seq<char>, Seq<char>)>,
    production: bool,
    e: ReleaseError,
)
    requires
        0 <= n <= packages.len(),
        propagated(packages.take(n), changed, production) == Err::<
            Seq<(Seq<char>, Seq<char>)>,
            ReleaseError,
        >(e),
    ensures
        propagated(packages, changed, production) == Err::<
            Seq<(Seq<char>, Seq<char>)>,
            ReleaseError,
        >(e),
    decreases packages.len() - n,
{
    if n == packages.len() {
        assert(packages.take(n) == packages);
    } else {
        assert(packages.take(n + 1).drop_last() == packages.take(n));
        lemma_propagated_rest(packages, n + 1, changed, production, e);
    }
}

} // verus!
