//! The changelog of a package: the section of a new version, and the new
//! section put above what the changelog held before.

use vstd::prelude::*;
use crate::cli::DryRunConfig;
use crate::pieces::{free_of, join, join_chars, lemma_lines_concat, lemma_split_next, lemma_split_single,
    lines, lines_of, split, strip_cr};
use crate::text::{append_chars, append_str, find_chars_from, find_first, from_chars,
    lemma_find_from, slice_chars, to_chars, views};

verus! {

/// The entries of one version, by kind. Each field holds its entries one per
/// line, every line ended by a line feed, in the order of the commits.
pub struct Changelog {
    pub features: String,
    pub fixes: String,
    pub perf: String,
    pub breaking: String,
}

/// The text of a `Changelog`.
pub struct ChangelogText {
    pub features: Seq<char>,
    pub fixes: Seq<char>,
    pub perf: Seq<char>,
    pub breaking: Seq<char>,
}

impl View for Changelog {
    type V = ChangelogText;

    open spec fn view(&self) -> ChangelogText {
        ChangelogText {
            features: self.features@,
            fixes: self.fixes@,
            perf: self.perf@,
            breaking: self.breaking@,
        }
    }
}

/// The line that a changelog opens with: the name of its package as a title.
pub open spec fn title_line(name: Seq<char>) -> Seq<char> {
    "# "@ + name + "\n"@
}

/// One block of a version's section: the heading, the entries and an empty
/// line; nothing where there are no entries.
pub open spec fn block(heading: Seq<char>, entries: Seq<char>) -> Seq<char> {
    if entries.len() == 0 {
        Seq::<char>::empty()
    } else {
        heading + entries + "\n"@
    }
}

/// The section of a new version: the title of the package, the heading of the
/// version, and the blocks of features, fixes and performance, in this order.
/// Breaking changes have no block of their own.
pub open spec fn rendered(name: Seq<char>, version: Seq<char>, entries: ChangelogText) -> Seq<
    char,
> {
    title_line(name) + "## Version "@ + version + "\n"@ + block(
        "### Features\n"@,
        entries.features,
    ) + block("### Fixes\n"@, entries.fixes) + block("### Performance\n"@, entries.perf)
}

/// `hay` without the first occurrence of `needle`.
pub open spec fn without_first(hay: Seq<char>, needle: Seq<char>) -> Seq<char> {
    match find_first(hay, needle) {
        Some(i) => hay.take(i) + hay.skip(i + needle.len()),
        None => hay,
    }
}

/// The new section above what the changelog held before, from which the first
/// title line of the package is taken out; the new section alone where there
/// was no changelog.
pub open spec fn merged(existing: Option<Seq<char>>, name: Seq<char>, section: Seq<char>) -> Seq<
    char,
> {
    match existing {
        Some(body) => section + without_first(body, title_line(name)),
        None => section,
    }
}

/// Whether a line is a heading: it begins with `#`.
pub open spec fn is_heading(line: Seq<char>) -> bool {
    line.len() > 0 && line[0] == '#'
}

/// What a version contributes to the description of the pull request: a
/// heading with the package and the version, the lines of the version's
/// section that are no headings, and an empty line.
pub open spec fn pull_request_text(name: Seq<char>, version: Seq<char>, section: Seq<char>) -> Seq<
    char,
> {
    "## "@ + name + " - "@ + version + "\n"@ + join(
        lines(section).filter(|line: Seq<char>| !is_heading(line)),
        "\n"@,
    ) + "\n\n"@
}

/// The text of the title line, without the line feed that ends it.
pub open spec fn title_text(name: Seq<char>) -> Seq<char> {
    "# "@ + name
}

/// Merging with no changelog gives the new section, and merging with a
/// changelog gives a text that begins with the new section.
pub proof fn lemma_merged_begins_with_section(
    existing: Option<Seq<char>>,
    name: Seq<char>,
    section: Seq<char>,
)
    ensures
        merged(None, name, section) == section,
        section.is_prefix_of(merged(existing, name, section)),
{
    let all = merged(existing, name, section);
    assert(all.subrange(0, section.len() as int) == section);
}

/// The title line of a package whose name holds no line feed is one line.
pub proof fn lemma_title_is_a_line(name: Seq<char>)
    requires
        free_of(name, '\n'),
    ensures
        lines(title_line(name)) == seq![strip_cr(title_text(name))],
{
    reveal_strlit("# ");
    reveal_strlit("\n");
    let text = title_text(name);
    assert forall|i: int| 0 <= i < text.len() implies text[i] != '\n' by {
        if i >= 2 {
            assert(text[i] == name[i - 2]);
        }
    }
    assert("\n"@ == seq!['\n']);
    let none = Seq::<char>::empty();
    lemma_split_single(text, '\n');
    lemma_split_next(text, none, '\n');
    assert(text + seq!['\n'] + none == title_line(name));
    let pieces = split(title_line(name), '\n');
    assert(pieces == seq![text, none]);
    assert(pieces.last() == none);
    assert(lines(title_line(name)) == seq![strip_cr(text)]);
}

/// What merging keeps of the changelog that was there. Let the new section
/// be empty or end with a line feed, let the name hold no line feed, and let
/// the first title line of the old changelog begin on a line of its own.
/// Then the lines of the merged changelog are the lines of the new section,
/// followed by the lines of the old changelog without that title line. An old
/// changelog without a title line keeps all its lines.
pub proof fn lemma_merged_keeps_lines(existing: Seq<char>, name: Seq<char>, section: Seq<char>)
    requires
        free_of(name, '\n'),
        section.len() == 0 || section.last() == '\n',
        find_first(existing, title_line(name)) matches Some(at) ==> at == 0 || existing[at - 1]
            == '\n',
    ensures
        match find_first(existing, title_line(name)) {
            Some(at) => {
                let k = lines(existing.take(at)).len() as int;
                &&& k < lines(existing).len()
                &&& lines(existing)[k] == strip_cr(title_text(name))
                &&& lines(merged(Some(existing), name, section)) == lines(section) + lines(
                    existing,
                ).remove(k)
            },
            None => lines(merged(Some(existing), name, section)) == lines(section) + lines(
                existing,
            ),
        },
{
    let title = title_line(name);
    lemma_find_from(existing, title, 0);
    match find_first(existing, title) {
        Some(at) => {
            reveal_strlit("\n");
            let before = existing.take(at);
            let after = existing.skip(at + title.len());
            assert(existing.subrange(at, at + title.len()) == title);
            assert(existing == before + (title + after));
            assert(title.last() == '\n');
            if at > 0 {
                assert(before.last() == existing[at - 1]);
            }
            lemma_title_is_a_line(name);
            lemma_lines_concat(title, after);
            lemma_lines_concat(before, title + after);
            let k = lines(before).len() as int;
            let line = strip_cr(title_text(name));
            assert(lines(existing) == lines(before) + (seq![line] + lines(after)));
            assert(lines(existing)[k] == line);
            assert(lines(existing).remove(k) == lines(before) + lines(after));
            lemma_lines_concat(before, after);
            lemma_lines_concat(section, before + after);
        },
        None => {
            lemma_lines_concat(section, existing);
        },
    }
}

/// Appends one block of a version's section to `out`.
fn append_block(out: &mut Vec<char>, heading: &str, entries: &str)
    ensures
        final(out)@ == old(out)@ + block(heading@, entries@),
{
    let body = to_chars(entries);
    if body.len() > 0 {
        let ghost before = out@;
        append_str(out, heading);
        append_chars(out, &body);
        append_str(out, "\n");
        assert(out@ == before + (heading@ + entries@ + "\n"@));
    } else {
        assert(out@ + Seq::<char>::empty() == out@);
    }
}

/// The section of the version `new_version` of the package `name`.
pub fn get_new_changelog(name: &str, new_version: &str, changelog: Changelog) -> (section: String)
    ensures
        section@ == rendered(name@, new_version@, changelog@),
{
    let mut out: Vec<char> = Vec::new();
    append_str(&mut out, "# ");
    append_str(&mut out, name);
    append_str(&mut out, "\n");
    assert(out@ == title_line(name@));
    append_str(&mut out, "## Version ");
    append_str(&mut out, new_version);
    append_str(&mut out, "\n");
    append_block(&mut out, "### Features\n", changelog.features.as_str());
    append_block(&mut out, "### Fixes\n", changelog.fixes.as_str());
    append_block(&mut out, "### Performance\n", changelog.perf.as_str());
    from_chars(&out)
}

/// `hay` without the first occurrence of `needle`.
pub fn remove_first(hay: &Vec<char>, needle: &Vec<char>) -> (out: Vec<char>)
    ensures
        out@ == without_first(hay@, needle@),
{
    match find_chars_from(hay, needle, 0) {
        Some(i) => {
            proof {
                lemma_find_from(hay@, needle@, 0);
            }
            let mut out = slice_chars(hay, 0, i);
            let rest = slice_chars(hay, i + needle.len(), hay.len());
            append_chars(&mut out, &rest);
            assert(hay@.subrange(0, i as int) == hay@.take(i as int));
            assert(hay@.subrange(i + needle.len(), hay.len() as int) == hay@.skip(
                i + needle.len(),
            ));
            out
        },
        None => {
            let out = slice_chars(hay, 0, hay.len());
            assert(hay@.subrange(0, hay.len() as int) == hay@);
            out
        },
    }
}

/// The changelog of the package `name` after a new version: `section` above
/// what the changelog held before, without its first title line.
pub fn merge_changelog(existing: Option<&str>, name: &str, section: &str) -> (changelog: String)
    ensures
        changelog@ == merged(
            match existing {
                Some(body) => Some(body@),
                None => None,
            },
            name@,
            section@,
        ),
{
    let mut out = to_chars(section);
    match existing {
        Some(body) => {
            let mut title: Vec<char> = Vec::new();
            append_str(&mut title, "# ");
            append_str(&mut title, name);
            append_str(&mut title, "\n");
            let old_body = to_chars(body);
            let kept = remove_first(&old_body, &title);
            append_chars(&mut out, &kept);
        },
        None => {},
    }
    from_chars(&out)
}

/// What is written as the changelog of the package `name`. A dry run writes
/// nothing and gives the new section back as it is; any other run gives the
/// new section merged with the changelog that was there.
pub fn update_changelog(
    current_changelog: Option<&str>,
    name: &str,
    new_changelog_body: &str,
    dry_run: &DryRunConfig,
) -> (changelog: String)
    ensures
        changelog@ == if dry_run.is_dry_run {
            new_changelog_body@
        } else {
            merged(
                match current_changelog {
                    Some(body) => Some(body@),
                    None => None,
                },
                name@,
                new_changelog_body@,
            )
        },
{
    if dry_run.is_dry_run {
        new_changelog_body.to_owned()
    } else {
        merge_changelog(current_changelog, name, new_changelog_body)
    }
}

/// The lines among `all` that are no headings.
fn body_lines(all: Vec<Vec<char>>) -> (kept: Vec<Vec<char>>)
    ensures
        views(kept@) == views(all@).filter(|line: Seq<char>| !is_heading(line)),
{
    let ghost pred = |line: Seq<char>| !is_heading(line);
    let ghost source = views(all@);
    let mut kept: Vec<Vec<char>> = Vec::new();
    let mut i: usize = 0;
    let n: usize = all.len();
    proof {
        reveal(Seq::filter);
        assert(source.take(0).filter(pred) == Seq::<Seq<char>>::empty());
    }
    while i < n
        invariant
            i <= n,
            n == all.len(),
            source == views(all@),
            pred == (|line: Seq<char>| !is_heading(line)),
            views(kept@) == source.take(i as int).filter(pred),
        decreases n - i,
    {
        let line = &all[i];
        proof {
            reveal(Seq::filter);
            assert(source.take(i + 1).drop_last() == source.take(i as int));
            assert(source.take(i + 1).last() == line@);
        }
        if !(line.len() > 0 && line[0] == '#') {
            let copy = slice_chars(line, 0, line.len());
            assert(copy@ == line@) by {
                assert(line@.subrange(0, line@.len() as int) == line@);
            }
            let ghost before = kept@;
            kept.push(copy);
            assert(views(kept@) == views(before).push(copy@));
        }
        i += 1;
    }
    assert(source.take(n as int) == source);
    kept
}

/// What the version `new_version` of the package `name` contributes to the
/// description of the pull request, `changelog_body` being its section.
pub fn pull_request_section(name: &str, new_version: &str, changelog_body: &str) -> (text: String)
    ensures
        text@ == pull_request_text(name@, new_version@, changelog_body@),
{
    let section = to_chars(changelog_body);
    let kept = body_lines(lines_of(&section));
    let newline = to_chars("\n");
    let body = join_chars(&kept, &newline);
    let mut out: Vec<char> = Vec::new();
    append_str(&mut out, "## ");
    append_str(&mut out, name);
    append_str(&mut out, " - ");
    append_str(&mut out, new_version);
    append_str(&mut out, "\n");
    append_chars(&mut out, &body);
    append_str(&mut out, "\n\n");
    from_chars(&out)
}

} // verus!
