//! The course of a release.
//!
//! The work on one package alternates between questions to the repository and
//! decisions. The decisions are made here: `advance` takes the stage that a
//! package is at and the answer to the question that was asked last, and
//! gives the next stage with the next thing to do. Whoever drives the run asks
//! the questions, carries out what is to be done and hands back the answers.

use vstd::prelude::*;
use crate::changelog::{get_new_changelog, merge_changelog, merged, pull_request_section,
    pull_request_text, rendered};
use crate::cli::DryRunConfig;
use crate::commits::{classified, classify, commits_step};
use crate::package::{pair_views, record, ReleaseState};
use crate::tags::{get_latest_tag, latest_tag, release_tag, tag_name, tag_pattern, tag_prefix};
use crate::text::{append_str, from_chars, string_views, to_chars};
use crate::version::{increase_version, next_version, production, ReleaseError};

verus! {

/// What is known of a package before the work on it begins.
pub struct PackageContext {
    /// The name of the package, from its metadata.
    pub name: String,
    /// The version the package stands at, from its metadata.
    pub version: String,
    /// Where the package lies.
    pub path: String,
    /// The channel that is released on.
    pub environment: String,
    /// Whether the run changes nothing.
    pub dry_run: bool,
}

/// The text of a `PackageContext`.
pub struct ContextText {
    pub name: Seq<char>,
    pub version: Seq<char>,
    pub path: Seq<char>,
    pub environment: Seq<char>,
    pub dry_run: bool,
}

impl View for PackageContext {
    type V = ContextText;

    open spec fn view(&self) -> ContextText {
        ContextText {
            name: self.name@,
            version: self.version@,
            path: self.path@,
            environment: self.environment@,
            dry_run: self.dry_run,
        }
    }
}

/// What a release changes for one package.
pub struct PackageRelease {
    pub name: String,
    pub new_version: String,
    /// The file that holds the changelog of the package.
    pub changelog_path: String,
    /// What that file holds after the release.
    pub changelog: String,
    /// What the release adds to the description of the pull request.
    pub pull_request: String,
}

/// The text of a `PackageRelease`.
pub struct ReleaseText {
    pub name: Seq<char>,
    pub new_version: Seq<char>,
    pub changelog_path: Seq<char>,
    pub changelog: Seq<char>,
    pub pull_request: Seq<char>,
}

impl View for PackageRelease {
    type V = ReleaseText;

    open spec fn view(&self) -> ReleaseText {
        ReleaseText {
            name: self.name@,
            new_version: self.new_version@,
            changelog_path: self.changelog_path@,
            changelog: self.changelog@,
            pull_request: self.pull_request@,
        }
    }
}

/// How far the work on a package has come.
pub enum Stage {
    /// The tags of the repository have been asked for.
    ResolvingTag,
    /// The latest tag is known; the paths changed since have been asked for.
    CheckingDiff { tag: String },
    /// Something changed; the commits since the tag have been asked for.
    ReadingLog { tag: String },
    /// The new version and its section are known; the changelog that is there
    /// has been asked for.
    ReadingChangelog { new_version: String, section: String },
    /// Nothing changed since the latest tag: the package is left alone.
    Skipped,
    /// The package has its new version.
    Recorded { new_version: String },
    /// The work on the package has failed.
    Failed { error: ReleaseError },
}

/// The text of a `Stage`.
pub enum StageText {
    ResolvingTag,
    CheckingDiff { tag: Seq<char> },
    ReadingLog { tag: Seq<char> },
    ReadingChangelog { new_version: Seq<char>, section: Seq<char> },
    Skipped,
    Recorded { new_version: Seq<char> },
    Failed { error: ReleaseError },
}

impl View for Stage {
    type V = StageText;

    open spec fn view(&self) -> StageText {
        match self {
            Stage::ResolvingTag => StageText::ResolvingTag,
            Stage::CheckingDiff { tag } => StageText::CheckingDiff { tag: tag@ },
            Stage::ReadingLog { tag } => StageText::ReadingLog { tag: tag@ },
            Stage::ReadingChangelog { new_version, section } => StageText::ReadingChangelog {
                new_version: new_version@,
                section: section@,
            },
            Stage::Skipped => StageText::Skipped,
            Stage::Recorded { new_version } => StageText::Recorded { new_version: new_version@ },
            Stage::Failed { error } => StageText::Failed { error: *error },
        }
    }
}

/// An answer of the repository.
pub enum Event {
    /// The tags of the repository.
    Tags(Vec<String>),
    /// The paths that changed.
    ChangedPaths(Vec<String>),
    /// The commit lines.
    Subjects(Vec<String>),
    /// The changelog of the package, if it has one.
    ExistingChangelog(Option<String>),
}

/// The text of an `Event`.
pub enum EventText {
    Tags(Seq<Seq<char>>),
    ChangedPaths(Seq<Seq<char>>),
    Subjects(Seq<Seq<char>>),
    ExistingChangelog(Option<Seq<char>>),
}

impl View for Event {
    type V = EventText;

    open spec fn view(&self) -> EventText {
        match self {
            Event::Tags(tags) => EventText::Tags(string_views(tags@)),
            Event::ChangedPaths(paths) => EventText::ChangedPaths(string_views(paths@)),
            Event::Subjects(lines) => EventText::Subjects(string_views(lines@)),
            Event::ExistingChangelog(existing) => EventText::ExistingChangelog(
                match existing {
                    Some(body) => Some(body@),
                    None => None,
                },
            ),
        }
    }
}

/// What is to be done next for a package.
pub enum Action {
    /// List the tags that match `pattern`.
    ListTags { pattern: String },
    /// List the paths under `scope_path` that differ between `since_tag` and
    /// `until_ref`.
    DiffChangedPaths { since_tag: String, until_ref: String, scope_path: String },
    /// List the commits in `range` that touch `scope_path`.
    LogSubjects { range: String, scope_path: String },
    /// Read the file at `path`.
    ReadText { path: String },
    /// Write the release to the files of the package.
    Write(PackageRelease),
    /// Say what the release would write, and write nothing.
    Report(PackageRelease),
    /// Nothing: the work on the package has ended.
    Nothing,
}

/// The text of an `Action`.
pub enum ActionText {
    ListTags { pattern: Seq<char> },
    DiffChangedPaths { since_tag: Seq<char>, until_ref: Seq<char>, scope_path: Seq<char> },
    LogSubjects { range: Seq<char>, scope_path: Seq<char> },
    ReadText { path: Seq<char> },
    Write(ReleaseText),
    Report(ReleaseText),
    Nothing,
}

impl View for Action {
    type V = ActionText;

    open spec fn view(&self) -> ActionText {
        match self {
            Action::ListTags { pattern } => ActionText::ListTags { pattern: pattern@ },
            Action::DiffChangedPaths { since_tag, until_ref, scope_path } => {
                ActionText::DiffChangedPaths {
                    since_tag: since_tag@,
                    until_ref: until_ref@,
                    scope_path: scope_path@,
                }
            },
            Action::LogSubjects { range, scope_path } => ActionText::LogSubjects {
                range: range@,
                scope_path: scope_path@,
            },
            Action::ReadText { path } => ActionText::ReadText { path: path@ },
            Action::Write(release) => ActionText::Write(release@),
            Action::Report(release) => ActionText::Report(release@),
            Action::Nothing => ActionText::Nothing,
        }
    }
}

/// The file to which a run in which tags are created writes the tags it
/// created.
pub const TAGS_FILE: &'static str = "tags_to_create.txt";

/// The file to which a release writes the description of the pull request.
pub const PULL_REQUEST_FILE: &'static str = "pull_request_content.md";

/// The question whose answer a stage waits for; nothing for a stage at which
/// the work has ended.
pub open spec fn awaited(ctx: ContextText, stage: StageText) -> ActionText {
    match stage {
        StageText::ResolvingTag => ActionText::ListTags { pattern: tag_prefix(ctx.name) + "*"@ },
        StageText::CheckingDiff { tag } => ActionText::DiffChangedPaths {
            since_tag: tag,
            until_ref: "HEAD"@,
            scope_path: ctx.path,
        },
        StageText::ReadingLog { tag } => ActionText::LogSubjects {
            range: tag + "..HEAD"@,
            scope_path: ctx.path,
        },
        StageText::ReadingChangelog { new_version, section } => ActionText::ReadText {
            path: ctx.path + "/CHANGELOG.md"@,
        },
        _ => ActionText::Nothing,
    }
}

/// What the release of `new_version` changes, `section` being the section of
/// the version and `existing` the changelog that is there.
pub open spec fn release_of(
    ctx: ContextText,
    new_version: Seq<char>,
    section: Seq<char>,
    existing: Option<Seq<char>>,
) -> ReleaseText {
    ReleaseText {
        name: ctx.name,
        new_version: new_version,
        changelog_path: ctx.path + "/CHANGELOG.md"@,
        changelog: merged(existing, ctx.name, section),
        pull_request: pull_request_text(ctx.name, new_version, section),
    }
}

/// The stage that follows `stage` on the answer `event`.
///
/// From the tags comes the latest tag. Where no path changed since that tag
/// the package is skipped. From the commits come the new version and its
/// section; a version that cannot be stepped ends the work. With the
/// changelog that is there the release is complete. An answer that the stage
/// does not wait for leaves the stage as it is.
pub open spec fn next_stage(ctx: ContextText, stage: StageText, event: EventText) -> StageText {
    match (stage, event) {
        (StageText::ResolvingTag, EventText::Tags(tags)) => StageText::CheckingDiff {
            tag: latest_tag(ctx.name, ctx.version, ctx.environment == production(), tags),
        },
        (StageText::CheckingDiff { tag }, EventText::ChangedPaths(paths)) => if paths.len() == 0 {
            StageText::Skipped
        } else {
            StageText::ReadingLog { tag }
        },
        (StageText::ReadingLog { tag }, EventText::Subjects(lines)) => match next_version(
            ctx.version,
            commits_step(lines),
            ctx.environment == production(),
        ) {
            Ok(new_version) => StageText::ReadingChangelog {
                new_version,
                section: rendered(ctx.name, new_version, classified(lines)),
            },
            Err(error) => StageText::Failed { error },
        },
        (
            StageText::ReadingChangelog { new_version, section },
            EventText::ExistingChangelog(existing),
        ) => StageText::Recorded { new_version },
        _ => stage,
    }
}

/// What is to be done when `stage` is left on the answer `event`: the release
/// is written, or in a dry run reported, when it is complete; in every other
/// case the question of the next stage is asked.
pub open spec fn next_action(ctx: ContextText, stage: StageText, event: EventText) -> ActionText {
    match (stage, event) {
        (
            StageText::ReadingChangelog { new_version, section },
            EventText::ExistingChangelog(existing),
        ) => if ctx.dry_run {
            ActionText::Report(release_of(ctx, new_version, section, existing))
        } else {
            ActionText::Write(release_of(ctx, new_version, section, existing))
        },
        _ => awaited(ctx, next_stage(ctx, stage, event)),
    }
}

/// The question whose answer `stage` waits for.
pub fn ask(ctx: &PackageContext, stage: &Stage) -> (action: Action)
    ensures
        action@ == awaited(ctx@, stage@),
{
    match stage {
        Stage::ResolvingTag => Action::ListTags { pattern: tag_pattern(ctx.name.as_str()) },
        Stage::CheckingDiff { tag } => Action::DiffChangedPaths {
            since_tag: tag.clone(),
            until_ref: "HEAD".to_owned(),
            scope_path: ctx.path.clone(),
        },
        Stage::ReadingLog { tag } => Action::LogSubjects {
            range: log_range(tag.as_str()),
            scope_path: ctx.path.clone(),
        },
        Stage::ReadingChangelog { new_version, section } => Action::ReadText {
            path: changelog_path(ctx.path.as_str()),
        },
        _ => Action::Nothing,
    }
}

/// The commits since the tag `tag`, as a range.
pub fn log_range(tag: &str) -> (range: String)
    ensures
        range@ == tag@ + "..HEAD"@,
{
    let mut out = to_chars(tag);
    append_str(&mut out, "..HEAD");
    from_chars(&out)
}

/// The file that holds the changelog of the package at `path`.
pub fn changelog_path(path: &str) -> (file: String)
    ensures
        file@ == path@ + "/CHANGELOG.md"@,
{
    let mut out = to_chars(path);
    append_str(&mut out, "/CHANGELOG.md");
    from_chars(&out)
}

/// Where the work on a package begins: the tags are asked for.
pub fn begin(ctx: &PackageContext) -> (r: (Stage, Action))
    ensures
        r.0@ == StageText::ResolvingTag,
        r.1@ == awaited(ctx@, StageText::ResolvingTag),
{
    let stage = Stage::ResolvingTag;
    let action = ask(ctx, &stage);
    (stage, action)
}

/// Takes the work on a package one stage further: `stage` is the stage it is
/// at, `event` the answer to what was asked last.
pub fn advance(ctx: &PackageContext, stage: Stage, event: Event) -> (r: (Stage, Action))
    ensures
        r.0@ == next_stage(ctx@, stage@, event@),
        r.1@ == next_action(ctx@, stage@, event@),
{
    match (stage, event) {
        (Stage::ResolvingTag, Event::Tags(tags)) => {
            let tag = get_latest_tag(
                ctx.name.as_str(),
                ctx.version.as_str(),
                ctx.environment.as_str(),
                &tags,
            );
            let next = Stage::CheckingDiff { tag };
            let action = ask(ctx, &next);
            (next, action)
        },
        (Stage::CheckingDiff { tag }, Event::ChangedPaths(paths)) => {
            let next = if paths.len() == 0 {
                Stage::Skipped
            } else {
                Stage::ReadingLog { tag }
            };
            let action = ask(ctx, &next);
            (next, action)
        },
        (Stage::ReadingLog { tag }, Event::Subjects(lines)) => {
            let (changelog, semver_target) = classify(&lines);
            let next = match increase_version(
                ctx.version.as_str(),
                semver_target,
                ctx.environment.as_str(),
            ) {
                Ok(new_version) => {
                    let section = get_new_changelog(
                        ctx.name.as_str(),
                        new_version.as_str(),
                        changelog,
                    );
                    Stage::ReadingChangelog { new_version, section }
                },
                Err(error) => Stage::Failed { error },
            };
            let action = ask(ctx, &next);
            (next, action)
        },
        (Stage::ReadingChangelog { new_version, section }, Event::ExistingChangelog(existing)) => {
            let changelog = match &existing {
                Some(body) => merge_changelog(
                    Some(body.as_str()),
                    ctx.name.as_str(),
                    section.as_str(),
                ),
                None => merge_changelog(None, ctx.name.as_str(), section.as_str()),
            };
            let release = PackageRelease {
                name: ctx.name.clone(),
                new_version: new_version.clone(),
                changelog_path: changelog_path(ctx.path.as_str()),
                changelog,
                pull_request: pull_request_section(
                    ctx.name.as_str(),
                    new_version.as_str(),
                    section.as_str(),
                ),
            };
            let action = if ctx.dry_run {
                Action::Report(release)
            } else {
                Action::Write(release)
            };
            (Stage::Recorded { new_version }, action)
        },
        (stage, _) => {
            let action = ask(ctx, &stage);
            (stage, action)
        },
    }
}

/// A context that differs from `ctx` at most in whether the run is a dry run.
pub open spec fn with_dry_run(ctx: ContextText, dry_run: bool) -> ContextText {
    ContextText {
        name: ctx.name,
        version: ctx.version,
        path: ctx.path,
        environment: ctx.environment,
        dry_run: dry_run,
    }
}

/// A dry run comes to the same stages, and so to the same new versions, as a
/// run that changes things. It never writes: where the other run writes a
/// release, the dry run reports that same release, and everything else it
/// does is what the other run does.
pub proof fn lemma_dry_run_same_course(ctx: ContextText, stage: StageText, event: EventText)
    ensures
        next_stage(with_dry_run(ctx, true), stage, event) == next_stage(
            with_dry_run(ctx, false),
            stage,
            event,
        ),
        !(next_action(with_dry_run(ctx, true), stage, event) is Write),
        match next_action(with_dry_run(ctx, false), stage, event) {
            ActionText::Write(release) => next_action(with_dry_run(ctx, true), stage, event)
                == ActionText::Report(release),
            other => next_action(with_dry_run(ctx, true), stage, event) == other,
        },
{
}

/// The whole course of the work on a package, from the four answers. Where
/// no path changed the package is skipped, whatever the later answers. Where
/// a path changed and the version can be stepped, the package is recorded
/// with the version that the commits ask for, and the release that is written
/// or reported holds the section of the classified commits merged with the
/// changelog that is there. Where the version cannot be stepped the work
/// fails.
pub proof fn lemma_course(
    ctx: ContextText,
    tags: Seq<Seq<char>>,
    paths: Seq<Seq<char>>,
    lines: Seq<Seq<char>>,
    existing: Option<Seq<char>>,
)
    ensures
        ({
            let resolved = next_stage(ctx, StageText::ResolvingTag, EventText::Tags(tags));
            let checked = next_stage(ctx, resolved, EventText::ChangedPaths(paths));
            let read = next_stage(ctx, checked, EventText::Subjects(lines));
            let last_event = EventText::ExistingChangelog(existing);
            let ended = next_stage(ctx, read, last_event);
            let done = next_action(ctx, read, last_event);
            &&& resolved == StageText::CheckingDiff {
                tag: latest_tag(ctx.name, ctx.version, ctx.environment == production(), tags),
            }
            &&& paths.len() == 0 ==> ended == StageText::Skipped && done == ActionText::Nothing
            &&& paths.len() > 0 ==> match next_version(
                ctx.version,
                commits_step(lines),
                ctx.environment == production(),
            ) {
                Ok(new_version) => {
                    let release = release_of(
                        ctx,
                        new_version,
                        rendered(ctx.name, new_version, classified(lines)),
                        existing,
                    );
                    &&& ended == StageText::Recorded { new_version }
                    &&& done == if ctx.dry_run {
                        ActionText::Report(release)
                    } else {
                        ActionText::Write(release)
                    }
                },
                Err(error) => ended == StageText::Failed { error } && done == ActionText::Nothing,
            }
        }),
{
}

/// A package is skipped exactly when it is found that no path changed since
/// its latest tag, and the stages at which the work has ended are left by no
/// answer.
pub proof fn lemma_course_ends(ctx: ContextText, stage: StageText, event: EventText)
    ensures
        (stage !is Skipped && next_stage(ctx, stage, event) is Skipped) <==> (stage is CheckingDiff
            && event == EventText::ChangedPaths(Seq::<Seq<char>>::empty())),
        stage is Skipped || stage is Recorded || stage is Failed ==> next_stage(ctx, stage, event)
            == stage && next_action(ctx, stage, event) == ActionText::Nothing,
{
    if let EventText::ChangedPaths(paths) = event {
        if paths.len() == 0 {
            assert(paths == Seq::<Seq<char>>::empty());
        }
    }
}

/// What is to be done about the tag of a package's current version.
pub enum TagAction {
    /// Say that the tag would be created; a dry run creates none.
    Report { tag: String },
    /// The tag is there already: leave it.
    Skip { tag: String },
    /// Create the tag.
    Create { tag: String },
}

/// The text of a `TagAction`.
pub enum TagActionText {
    Report { tag: Seq<char> },
    Skip { tag: Seq<char> },
    Create { tag: Seq<char> },
}

impl View for TagAction {
    type V = TagActionText;

    open spec fn view(&self) -> TagActionText {
        match self {
            TagAction::Report { tag } => TagActionText::Report { tag: tag@ },
            TagAction::Skip { tag } => TagActionText::Skip { tag: tag@ },
            TagAction::Create { tag } => TagActionText::Create { tag: tag@ },
        }
    }
}

/// What is to be done about the tag `tag`: a dry run reports it, whether it
/// is there or not; any other run creates it unless it is there.
pub open spec fn tag_action(tag: Seq<char>, dry_run: bool, tag_exists: bool) -> TagActionText {
    if dry_run {
        TagActionText::Report { tag }
    } else if tag_exists {
        TagActionText::Skip { tag }
    } else {
        TagActionText::Create { tag }
    }
}

/// Decides what is to be done about the tag of the version `version` of the
/// package `name`, `tag_exists` saying whether the repository has that tag. A
/// tag that is to be created is added to `tags_to_create`. In a dry run
/// `tag_exists` is not looked at.
pub fn process_tag_creation(
    name: &str,
    version: &str,
    dry_run_config: &DryRunConfig,
    tag_exists: bool,
    tags_to_create: &mut Vec<String>,
) -> (action: TagAction)
    ensures
        action@ == tag_action(tag_name(name@, version@), dry_run_config.is_dry_run, tag_exists),
        string_views(final(tags_to_create)@) == if action is Create {
            string_views(old(tags_to_create)@).push(tag_name(name@, version@))
        } else {
            string_views(old(tags_to_create)@)
        },
{
    let tag = release_tag(name, version);
    if dry_run_config.is_dry_run {
        TagAction::Report { tag }
    } else if tag_exists {
        TagAction::Skip { tag }
    } else {
        let ghost before = tags_to_create@;
        tags_to_create.push(tag.clone());
        assert(string_views(tags_to_create@) == string_views(before).push(tag@));
        TagAction::Create { tag }
    }
}

/// The tags in `tags`, each on a line of its own.
pub open spec fn tags_file_text(tags: Seq<Seq<char>>) -> Seq<char>
    decreases tags.len(),
{
    if tags.len() == 0 {
        Seq::<char>::empty()
    } else {
        tags_file_text(tags.drop_last()) + tags.last() + "\n"@
    }
}

/// What the file that lists the tags created holds.
pub fn tags_file(tags_to_create: &Vec<String>) -> (contents: String)
    ensures
        contents@ == tags_file_text(string_views(tags_to_create@)),
{
    let ghost all = string_views(tags_to_create@);
    let mut out: Vec<char> = Vec::new();
    let mut i: usize = 0;
    assert(all.take(0) == Seq::<Seq<char>>::empty());
    while i < tags_to_create.len()
        invariant
            i <= tags_to_create.len(),
            all == string_views(tags_to_create@),
            out@ == tags_file_text(all.take(i as int)),
        decreases tags_to_create.len() - i,
    {
        assert(all.take(i + 1).drop_last() == all.take(i as int));
        assert(all.take(i + 1).last() == tags_to_create@[i as int]@);
        append_str(&mut out, tags_to_create[i].as_str());
        append_str(&mut out, "\n");
        i += 1;
    }
    assert(all.take(tags_to_create.len() as int) == all);
    from_chars(&out)
}

/// The packages of `changed` as they stand in the message of the release
/// commit: for each a hyphen, its name, a colon and its version.
pub open spec fn bump_list(changed: Seq<(Seq<char>, Seq<char>)>) -> Seq<char>
    decreases changed.len(),
{
    if changed.len() == 0 {
        Seq::<char>::empty()
    } else {
        bump_list(changed.drop_last()) + "- "@ + changed.last().0 + ": "@ + changed.last().1
    }
}

/// The message of the release commit.
pub open spec fn commit_message(changed: Seq<(Seq<char>, Seq<char>)>) -> Seq<char> {
    "chore(release): bump packages"@ + bump_list(changed)
}

/// The message of the commit that holds the release, naming the packages of
/// `name_to_version` in the order in which they were recorded. `None` in a dry
/// run, which commits nothing.
pub fn commit_changes(dry_run_config: &DryRunConfig, name_to_version: &ReleaseState) -> (message:
    Option<String>)
    ensures
        match message {
            Some(text) => !dry_run_config.is_dry_run && text@ == commit_message(name_to_version@),
            None => dry_run_config.is_dry_run,
        },
{
    if dry_run_config.is_dry_run {
        return None;
    }
    let ghost all = name_to_version@;
    let mut out = to_chars("chore(release): bump packages");
    let ghost head = out@;
    let n: usize = name_to_version.len();
    let mut i: usize = 0;
    assert(all.take(0) == Seq::<(Seq<char>, Seq<char>)>::empty());
    assert(head + Seq::<char>::empty() == head);
    loop
        invariant
            i <= n == all.len(),
            all == name_to_version@,
            head == "chore(release): bump packages"@,
            out@ == head + bump_list(all.take(i as int)),
        ensures
            out@ == head + bump_list(all),
        decreases all.len() - i,
    {
        match name_to_version.entry(i) {
            Some((name, version)) => {
                assert(all.take(i + 1).drop_last() == all.take(i as int));
                assert(all.take(i + 1).last() == all[i as int]);
                append_str(&mut out, "- ");
                append_str(&mut out, name);
                append_str(&mut out, ": ");
                append_str(&mut out, version);
                assert(out@ == head + (bump_list(all.take(i as int)) + "- "@ + name@ + ": "@
                    + version@));
                i += 1;
            },
            None => {
                assert(all.take(i as int) == all);
                break ;
            },
        }
    }
    Some(from_chars(&out))
}

/// What a run has come to so far.
pub struct ReleaseRun {
    /// The packages that have been given a new version, by the first pass or
    /// by the second.
    pub changed_packages: ReleaseState,
    /// The packages that the first pass has given a new version; these are
    /// named in the release commit.
    pub name_to_version: ReleaseState,
    /// The description of the pull request.
    pub pull_request_content: String,
}

/// `changed` with each of `added` recorded, in the order of `added`.
pub open spec fn record_all(
    changed: Seq<(Seq<char>, Seq<char>)>,
    added: Seq<(Seq<char>, Seq<char>)>,
) -> Seq<(Seq<char>, Seq<char>)>
    decreases added.len(),
{
    if added.len() == 0 {
        changed
    } else {
        record(record_all(changed, added.drop_last()), added.last().0, added.last().1)
    }
}

impl ReleaseRun {
    /// A run that has not come to anything yet.
    pub fn new() -> (run: ReleaseRun)
        ensures
            run.changed_packages@.len() == 0,
            run.name_to_version@.len() == 0,
            run.pull_request_content@.len() == 0,
    {
        ReleaseRun {
            changed_packages: ReleaseState::new(),
            name_to_version: ReleaseState::new(),
            pull_request_content: String::new(),
        }
    }

    /// Takes up a release of the first pass: its package is recorded with its
    /// new version, and what it adds to the pull request is appended.
    pub fn record_release(&mut self, release: &PackageRelease)
        ensures
            final(self).changed_packages@ == record(
                old(self).changed_packages@,
                release.name@,
                release.new_version@,
            ),
            final(self).name_to_version@ == record(
                old(self).name_to_version@,
                release.name@,
                release.new_version@,
            ),
            final(self).pull_request_content@ == old(self).pull_request_content@
                + release.pull_request@,
    {
        self.changed_packages.insert(release.name.clone(), release.new_version.clone());
        self.name_to_version.insert(release.name.clone(), release.new_version.clone());
        let mut text = to_chars(self.pull_request_content.as_str());
        append_str(&mut text, release.pull_request.as_str());
        self.pull_request_content = from_chars(&text);
    }

    /// Takes up the packages that the second pass has given a new version.
    /// They are recorded as changed; the release commit does not name them.
    pub fn record_followers(&mut self, added: &Vec<(String, String)>)
        ensures
            final(self).changed_packages@ == record_all(
                old(self).changed_packages@,
                pair_views(added@),
            ),
            final(self).name_to_version@ == old(self).name_to_version@,
            final(self).pull_request_content@ == old(self).pull_request_content@,
    {
        let ghost all = pair_views(added@);
        let mut i: usize = 0;
        assert(all.take(0) == Seq::<(Seq<char>, Seq<char>)>::empty());
        while i < added.len()
            invariant
                i <= added.len(),
                all == pair_views(added@),
                self.changed_packages@ == record_all(
                    old(self).changed_packages@,
                    all.take(i as int),
                ),
                self.name_to_version@ == old(self).name_to_version@,
                self.pull_request_content@ == old(self).pull_request_content@,
            decreases added.len() - i,
        {
            assert(all.take(i + 1).drop_last() == all.take(i as int));
            assert(all.take(i + 1).last() == (added@[i as int].0@, added@[i as int].1@));
            self.changed_packages.insert(added[i].0.clone(), added[i].1.clone());
            i += 1;
        }
        assert(all.take(added.len() as int) == all);
    }
}

} // verus!
