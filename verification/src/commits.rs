//! Commits: what a commit line contributes to the changelog, and the size of
//! the version step that a history of commits asks for.
//!
//! A commit line is a hash and a message. A message of the shape
//! `type(scope): description`, the type optionally preceded by `!`, is a
//! structured one. Lines are sorted by the markers they hold: `feat(` makes a
//! feature, `fix(` a fix, `perf(` a performance change, and `!feat(` or `!fix(`
//! a breaking change. A line may be of several kinds.

use vstd::prelude::*;
use crate::changelog::{Changelog, ChangelogText};
use crate::pattern::{capture_pair, captured_pair};
use crate::text::{append_chars, append_str, contains_chars, contains_text, from_chars,
    string_views, to_chars};
use crate::version::{get_higher_semver, Semver};

verus! {

/// The regular expression that a structured commit line matches as a whole. Its
/// first group is the scope, its second the description.
pub const COMMIT_PATTERN: &'static str = r"^\S+\s+!?\w+\(([^)]+)\):\s+(.+)$";

/// The scope and the description of a structured commit line; `None` for a
/// line that is not structured.
pub open spec fn commit_parts(line: Seq<char>) -> Option<(Seq<char>, Seq<char>)> {
    captured_pair(COMMIT_PATTERN@, line)
}

/// The changelog entry of a commit line whose scope and description are
/// `parts`: the scope in bold, a colon and the description; the line itself
/// where it has no such parts.
pub open spec fn entry_text(line: Seq<char>, parts: Option<(Seq<char>, Seq<char>)>) -> Seq<char> {
    match parts {
        Some((scope, description)) => "**"@ + scope + "**: "@ + description,
        None => line,
    }
}

/// The changelog entry of a commit line.
pub open spec fn commit_entry(line: Seq<char>) -> Seq<char> {
    entry_text(line, commit_parts(line))
}

/// The changelog entry of the commit line `line`, `parts` being its scope and
/// description where it is structured.
pub fn render_entry(line: &str, parts: Option<(String, String)>) -> (entry: String)
    ensures
        entry@ == entry_text(
            line@,
            match parts {
                Some(pair) => Some((pair.0@, pair.1@)),
                None => None,
            },
        ),
{
    match parts {
        Some((scope, description)) => {
            let mut out: Vec<char> = Vec::new();
            append_str(&mut out, "**");
            append_str(&mut out, scope.as_str());
            append_str(&mut out, "**: ");
            append_str(&mut out, description.as_str());
            from_chars(&out)
        },
        None => line.to_owned(),
    }
}

/// The changelog entry of a commit line.
pub fn format_commit_message(input: &str) -> (entry: String)
    ensures
        entry@ == commit_entry(input@),
{
    let parts = capture_pair(COMMIT_PATTERN, input);
    render_entry(input, parts)
}

/// A commit line that brings a feature.
pub open spec fn is_feature(line: Seq<char>) -> bool {
    contains_text(line, "feat("@)
}

/// A commit line that brings a fix.
pub open spec fn is_fix(line: Seq<char>) -> bool {
    contains_text(line, "fix("@)
}

/// A commit line that brings a performance change.
pub open spec fn is_perf(line: Seq<char>) -> bool {
    contains_text(line, "perf("@)
}

/// A commit line that brings a breaking change.
pub open spec fn is_breaking(line: Seq<char>) -> bool {
    contains_text(line, "!feat("@) || contains_text(line, "!fix("@)
}

/// The kinds of a commit line.
pub struct Kinds {
    pub feature: bool,
    pub fix: bool,
    pub perf: bool,
    pub breaking: bool,
}

/// The kinds of the commit line `line`.
pub fn line_kinds(line: &Vec<char>) -> (kinds: Kinds)
    ensures
        kinds.feature == is_feature(line@),
        kinds.fix == is_fix(line@),
        kinds.perf == is_perf(line@),
        kinds.breaking == is_breaking(line@),
{
    let feat = to_chars("feat(");
    let fix = to_chars("fix(");
    let perf = to_chars("perf(");
    let breaking_feat = to_chars("!feat(");
    let breaking_fix = to_chars("!fix(");
    Kinds {
        feature: contains_chars(line, &feat),
        fix: contains_chars(line, &fix),
        perf: contains_chars(line, &perf),
        breaking: contains_chars(line, &breaking_feat) || contains_chars(line, &breaking_fix),
    }
}

/// The size of the step that one commit line asks for.
pub open spec fn line_step(line: Seq<char>) -> Semver {
    if is_breaking(line) {
        Semver::Major
    } else if is_feature(line) {
        Semver::Minor
    } else {
        Semver::Patch
    }
}

/// The size of the step that a history asks for: `Major` where a commit
/// brings a breaking change, else `Minor` where one brings a feature, else
/// `Patch`.
pub open spec fn commits_step(lines: Seq<Seq<char>>) -> Semver {
    if exists|i: int| 0 <= i < lines.len() && is_breaking(#[trigger] lines[i]) {
        Semver::Major
    } else if exists|i: int| 0 <= i < lines.len() && is_feature(#[trigger] lines[i]) {
        Semver::Minor
    } else {
        Semver::Patch
    }
}

/// The entries of the lines among `lines` that are of one kind, one entry per
/// line, in the order of `lines`.
pub open spec fn entries(lines: Seq<Seq<char>>, of_kind: spec_fn(Seq<char>) -> bool) -> Seq<char>
    decreases lines.len(),
{
    if lines.len() == 0 {
        Seq::<char>::empty()
    } else if of_kind(lines.last()) {
        entries(lines.drop_last(), of_kind) + commit_entry(lines.last()) + "\n"@
    } else {
        entries(lines.drop_last(), of_kind)
    }
}

/// What a history contributes to the changelog.
pub open spec fn classified(lines: Seq<Seq<char>>) -> ChangelogText {
    ChangelogText {
        features: entries(lines, |line: Seq<char>| is_feature(line)),
        fixes: entries(lines, |line: Seq<char>| is_fix(line)),
        perf: entries(lines, |line: Seq<char>| is_perf(line)),
        breaking: entries(lines, |line: Seq<char>| is_breaking(line)),
    }
}

/// One more commit raises the step of a history to the larger of the
/// history's step and its own.
pub proof fn lemma_step_push(lines: Seq<Seq<char>>, line: Seq<char>)
    ensures
        commits_step(lines.push(line)) == commits_step(lines).join(line_step(line)),
{
    let more = lines.push(line);
    let n = lines.len() as int;
    assert(more[n] == line);
    assert forall|i: int| 0 <= i < n implies more[i] == lines[i] by {}
    if exists|i: int| 0 <= i < lines.len() && is_breaking(#[trigger] lines[i]) {
        let i = choose|i: int| 0 <= i < lines.len() && is_breaking(#[trigger] lines[i]);
        assert(is_breaking(more[i]));
    }
    if exists|i: int| 0 <= i < lines.len() && is_feature(#[trigger] lines[i]) {
        let i = choose|i: int| 0 <= i < lines.len() && is_feature(#[trigger] lines[i]);
        assert(is_feature(more[i]));
    }
    if is_breaking(line) {
        assert(is_breaking(more[n]));
    }
    if is_feature(line) {
        assert(is_feature(more[n]));
    }
}

/// The step that a history asks for does not depend on the order of its
/// commits: it stays the same when two of them change places.
pub proof fn lemma_step_ignores_order(lines: Seq<Seq<char>>, i: int, j: int)
    requires
        0 <= i < lines.len(),
        0 <= j < lines.len(),
    ensures
        commits_step(lines.update(i, lines[j]).update(j, lines[i])) == commits_step(lines),
{
    let swapped = lines.update(i, lines[j]).update(j, lines[i]);
    assert(swapped[j] == lines[i]);
    assert(swapped[i] == lines[j]);
    assert forall|k: int| 0 <= k < lines.len() && k != i && k != j implies swapped[k]
        == lines[k] by {}
    if exists|k: int| 0 <= k < lines.len() && is_breaking(#[trigger] lines[k]) {
        let k = choose|k: int| 0 <= k < lines.len() && is_breaking(#[trigger] lines[k]);
        let to = if k == i {
            j
        } else if k == j {
            i
        } else {
            k
        };
        assert(is_breaking(swapped[to]));
    }
    if exists|k: int| 0 <= k < swapped.len() && is_breaking(#[trigger] swapped[k]) {
        let k = choose|k: int| 0 <= k < swapped.len() && is_breaking(#[trigger] swapped[k]);
        let from = if k == i {
            j
        } else if k == j {
            i
        } else {
            k
        };
        assert(is_breaking(lines[from]));
    }
    if exists|k: int| 0 <= k < lines.len() && is_feature(#[trigger] lines[k]) {
        let k = choose|k: int| 0 <= k < lines.len() && is_feature(#[trigger] lines[k]);
        let to = if k == i {
            j
        } else if k == j {
            i
        } else {
            k
        };
        assert(is_feature(swapped[to]));
    }
    if exists|k: int| 0 <= k < swapped.len() && is_feature(#[trigger] swapped[k]) {
        let k = choose|k: int| 0 <= k < swapped.len() && is_feature(#[trigger] swapped[k]);
        let from = if k == i {
            j
        } else if k == j {
            i
        } else {
            k
        };
        assert(is_feature(lines[from]));
    }
}

/// The entries of a history are those of its first part followed by those of
/// its second part: the changelog keeps the order of the commits.
pub proof fn lemma_entries_keep_order(
    first: Seq<Seq<char>>,
    second: Seq<Seq<char>>,
    of_kind: spec_fn(Seq<char>) -> bool,
)
    ensures
        entries(first + second, of_kind) == entries(first, of_kind) + entries(second, of_kind),
    decreases second.len(),
{
    if second.len() == 0 {
        assert(first + second == first);
        assert(entries(first, of_kind) + Seq::<char>::empty() == entries(first, of_kind));
    } else {
        lemma_entries_keep_order(first, second.drop_last(), of_kind);
        assert((first + second).drop_last() == first + second.drop_last());
        assert((first + second).last() == second.last());
        let a = entries(first, of_kind);
        let b = entries(second.drop_last(), of_kind);
        let e = commit_entry(second.last());
        assert((a + b) + e + "\n"@ == a + (b + e + "\n"@));
    }
}

/// Sorts the commit lines of a history into the entries of a changelog, and
/// gives the size of the version step that the history asks for.
pub fn classify(commits: &Vec<String>) -> (r: (Changelog, Semver))
    ensures
        r.0@ == classified(string_views(commits@)),
        r.1 == commits_step(string_views(commits@)),
{
    let ghost lines = string_views(commits@);
    let ghost feature_kind = |line: Seq<char>| is_feature(line);
    let ghost fix_kind = |line: Seq<char>| is_fix(line);
    let ghost perf_kind = |line: Seq<char>| is_perf(line);
    let ghost breaking_kind = |line: Seq<char>| is_breaking(line);
    let mut features: Vec<char> = Vec::new();
    let mut fixes: Vec<char> = Vec::new();
    let mut perf: Vec<char> = Vec::new();
    let mut breaking: Vec<char> = Vec::new();
    let mut semver_target = Semver::Patch;
    let mut i: usize = 0;
    assert(lines.take(0) == Seq::<Seq<char>>::empty());
    while i < commits.len()
        invariant
            i <= commits.len(),
            lines == string_views(commits@),
            feature_kind == (|line: Seq<char>| is_feature(line)),
            fix_kind == (|line: Seq<char>| is_fix(line)),
            perf_kind == (|line: Seq<char>| is_perf(line)),
            breaking_kind == (|line: Seq<char>| is_breaking(line)),
            features@ == entries(lines.take(i as int), feature_kind),
            fixes@ == entries(lines.take(i as int), fix_kind),
            perf@ == entries(lines.take(i as int), perf_kind),
            breaking@ == entries(lines.take(i as int), breaking_kind),
            semver_target == commits_step(lines.take(i as int)),
        decreases commits.len() - i,
    {
        let line = commits[i].as_str();
        proof {
            assert(lines.take(i + 1).drop_last() == lines.take(i as int));
            assert(lines.take(i + 1).last() == line@);
            assert(lines.take(i + 1) == lines.take(i as int).push(line@));
            lemma_step_push(lines.take(i as int), line@);
        }
        let entry = to_chars(format_commit_message(line).as_str());
        let chars = to_chars(line);
        let kinds = line_kinds(&chars);
        if kinds.feature {
            append_chars(&mut features, &entry);
            append_str(&mut features, "\n");
            semver_target = get_higher_semver(semver_target, Semver::Minor);
        }
        if kinds.fix {
            append_chars(&mut fixes, &entry);
            append_str(&mut fixes, "\n");
            semver_target = get_higher_semver(semver_target, Semver::Patch);
        }
        if kinds.perf {
            append_chars(&mut perf, &entry);
            append_str(&mut perf, "\n");
            semver_target = get_higher_semver(semver_target, Semver::Patch);
        }
        if kinds.breaking {
            append_chars(&mut breaking, &entry);
            append_str(&mut breaking, "\n");
            semver_target = get_higher_semver(semver_target, Semver::Major);
        }
        i += 1;
    }
    assert(lines.take(commits.len() as int) == lines);
    let changelog = Changelog {
        features: from_chars(&features),
        fixes: from_chars(&fixes),
        perf: from_chars(&perf),
        breaking: from_chars(&breaking),
    };
    (changelog, semver_target)
}

/// The size of the version step that a history asks for.
pub fn determine_semver_target(commits: &Vec<String>) -> (step: Semver)
    ensures
        step == commits_step(string_views(commits@)),
{
    let ghost lines = string_views(commits@);
    let mut semver_target = Semver::Patch;
    let mut i: usize = 0;
    assert(lines.take(0) == Seq::<Seq<char>>::empty());
    while i < commits.len()
        invariant
            i <= commits.len(),
            lines == string_views(commits@),
            semver_target == commits_step(lines.take(i as int)),
            semver_target != Semver::Major,
        decreases commits.len() - i,
    {
        let line = to_chars(commits[i].as_str());
        proof {
            assert(lines.take(i + 1) == lines.take(i as int).push(line@));
            lemma_step_push(lines.take(i as int), line@);
        }
        let kinds = line_kinds(&line);
        if kinds.feature {
            semver_target = get_higher_semver(semver_target, Semver::Minor);
        }
        if kinds.breaking {
            proof {
                assert(is_breaking(lines[i as int]));
            }
            return Semver::Major;
        }
        i += 1;
    }
    assert(lines.take(commits.len() as int) == lines);
    semver_target
}

} // verus!
