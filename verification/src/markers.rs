//! Version markers in files other than a package's metadata. A line that
//! holds the comment `// x-releaser-version` carries the version of the
//! package in front of the comment; after a release every such line is
//! brought to the new version.

use vstd::prelude::*;
use crate::pattern::{find_match, first_match};
use crate::pieces::{join, join_chars, lines, lines_of};
use crate::text::{append_chars, append_str, contains_text, find_chars_from, find_first,
    from_chars, lemma_find_first_contains, lemma_find_from, matches_at, slice_chars,
    string_views, to_chars, views};

verus! {

/// The comment that marks a line as carrying the version.
pub const VERSION_MARKER: &'static str = "// x-releaser-version";

/// The regular expression that finds a version in a text: three numbers
/// separated by dots, and an optional marker behind a hyphen.
pub const VERSION_PATTERN: &'static str = r"\d+\.\d+\.\d+(-[a-zA-Z0-9.]+)?";

/// `s` with every occurrence of `from` replaced by `to`. Occurrences are
/// taken from the left and do not overlap. An empty `from` occurs before
/// every character and at the end.
pub open spec fn replaced(s: Seq<char>, from: Seq<char>, to: Seq<char>) -> Seq<char>
    decreases s.len(),
{
    if from.len() == 0 {
        if s.len() == 0 {
            to
        } else {
            to + seq![s[0]] + replaced(s.skip(1), from, to)
        }
    } else if from.is_prefix_of(s) {
        to + replaced(s.skip(from.len() as int), from, to)
    } else if s.len() == 0 {
        s
    } else {
        seq![s[0]] + replaced(s.skip(1), from, to)
    }
}

/// The part of a marked line in which its version is looked for: what stands
/// before the first marker comment.
pub open spec fn before_marker(line: Seq<char>) -> Seq<char> {
    match find_first(line, VERSION_MARKER@) {
        Some(i) => line.take(i),
        None => line,
    }
}

/// A marked line in which `found` was found as the version it carries: every
/// occurrence of that version gives way to `new_version`. The line itself
/// where no version was found.
pub open spec fn line_with_version(
    line: Seq<char>,
    found: Option<Seq<char>>,
    new_version: Seq<char>,
) -> Seq<char> {
    match found {
        Some(old_version) => replaced(line, old_version, new_version),
        None => line,
    }
}

/// A line after a release: a line with the marker comment carries the new
/// version in place of the version found in front of the comment, any other
/// line is unchanged.
pub open spec fn updated_line(line: Seq<char>, new_version: Seq<char>) -> Seq<char> {
    if contains_text(line, VERSION_MARKER@) {
        line_with_version(line, first_match(VERSION_PATTERN@, before_marker(line)), new_version)
    } else {
        line
    }
}

/// The contents of a file after a release: its lines, each updated, with a
/// line feed between them, and one at the end exactly where the file ended
/// with one.
pub open spec fn updated_contents(contents: Seq<char>, new_version: Seq<char>) -> Seq<char> {
    let updated = Seq::new(
        lines(contents).len(),
        |i: int| updated_line(lines(contents)[i], new_version),
    );
    if contents.len() > 0 && contents.last() == '\n' {
        join(updated, "\n"@) + "\n"@
    } else {
        join(updated, "\n"@)
    }
}

/// `s` with every occurrence of `from` replaced by `to`.
pub fn replace_chars(s: &Vec<char>, from: &Vec<char>, to: &Vec<char>) -> (out: Vec<char>)
    ensures
        out@ == replaced(s@, from@, to@),
{
    let mut out: Vec<char> = Vec::new();
    let mut i: usize = 0;
    assert(s@.skip(0) == s@);
    assert(out@ + replaced(s@.skip(0), from@, to@) == replaced(s@, from@, to@));
    while i < s.len()
        invariant
            i <= s.len(),
            out@ + replaced(s@.skip(i as int), from@, to@) == replaced(s@, from@, to@),
        decreases s.len() - i,
    {
        let ghost rest = s@.skip(i as int);
        let ghost before = out@;
        assert(rest.len() > 0);
        assert(rest[0] == s@[i as int]);
        if from.len() == 0 {
            append_chars(&mut out, to);
            out.push(s[i]);
            assert(rest.skip(1) == s@.skip(i + 1));
            assert(out@ + replaced(s@.skip(i + 1), from@, to@) == before + (to@ + seq![rest[0]]
                + replaced(rest.skip(1), from@, to@)));
            i += 1;
        } else {
            let here = matches_at(s, from, i);
            proof {
                if i + from.len() <= s.len() {
                    assert(rest.subrange(0, from.len() as int) == s@.subrange(
                        i as int,
                        i + from.len(),
                    ));
                }
            }
            if here {
                append_chars(&mut out, to);
                assert(rest.skip(from.len() as int) == s@.skip(i + from.len()));
                assert(out@ + replaced(s@.skip(i + from.len()), from@, to@) == before + (to@
                    + replaced(rest.skip(from.len() as int), from@, to@)));
                i += from.len();
            } else {
                out.push(s[i]);
                assert(rest.skip(1) == s@.skip(i + 1));
                assert(out@ + replaced(s@.skip(i + 1), from@, to@) == before + (seq![rest[0]]
                    + replaced(rest.skip(1), from@, to@)));
                i += 1;
            }
        }
    }
    assert(s@.skip(s.len() as int) == Seq::<char>::empty());
    if from.len() == 0 {
        append_chars(&mut out, to);
    } else {
        assert(out@ + Seq::<char>::empty() == out@);
    }
    out
}

/// The marked line `line` after a release, `found` being the version that was
/// found in front of its marker comment.
pub fn replace_version(line: &str, found: Option<String>, new_version: &str) -> (updated: String)
    ensures
        updated@ == line_with_version(
            line@,
            match found {
                Some(old_version) => Some(old_version@),
                None => None,
            },
            new_version@,
        ),
{
    match found {
        Some(old_version) => {
            let chars = to_chars(line);
            let from = to_chars(old_version.as_str());
            let to = to_chars(new_version);
            let out = replace_chars(&chars, &from, &to);
            from_chars(&out)
        },
        None => line.to_owned(),
    }
}

/// The line `line` after a release.
pub fn update_line(line: &Vec<char>, new_version: &str) -> (updated: Vec<char>)
    ensures
        updated@ == updated_line(line@, new_version@),
{
    let marker = to_chars(VERSION_MARKER);
    proof {
        lemma_find_first_contains(line@, marker@);
    }
    match find_chars_from(line, &marker, 0) {
        Some(at) => {
            proof {
                lemma_find_from(line@, marker@, 0);
            }
            let front = slice_chars(line, 0, at);
            assert(front@ == line@.take(at as int));
            let found = find_match(VERSION_PATTERN, from_chars(&front).as_str());
            let text = from_chars(line);
            to_chars(replace_version(text.as_str(), found, new_version).as_str())
        },
        None => {
            let out = slice_chars(line, 0, line.len());
            assert(line@.subrange(0, line.len() as int) == line@);
            out
        },
    }
}

/// The contents of a file after a release that brought the package to
/// `new_version`.
pub fn update_version_markers(contents: &str, new_version: &str) -> (updated: String)
    ensures
        updated@ == updated_contents(contents@, new_version@),
{
    let chars = to_chars(contents);
    let all = lines_of(&chars);
    let ghost source = lines(contents@);
    let mut changed: Vec<Vec<char>> = Vec::new();
    let mut i: usize = 0;
    while i < all.len()
        invariant
            i <= all.len(),
            views(all@) == source,
            views(changed@) == Seq::new(i as nat, |k: int| updated_line(source[k], new_version@)),
        decreases all.len() - i,
    {
        assert(views(all@)[i as int] == all@[i as int]@);
        let line = update_line(&all[i], new_version);
        let ghost before = changed@;
        changed.push(line);
        assert(views(changed@) == views(before).push(line@));
        assert(views(changed@) == Seq::new(
            (i + 1) as nat,
            |k: int| updated_line(source[k], new_version@),
        ));
        i += 1;
    }
    let newline = to_chars("\n");
    let mut out = join_chars(&changed, &newline);
    if chars.len() > 0 && chars[chars.len() - 1] == '\n' {
        append_str(&mut out, "\n");
    }
    from_chars(&out)
}

/// The contents of the extra files of a package after a release that
/// brought it to `new_version`, `contents` being what the files hold, one
/// entry per file.
pub fn increase_extra_files_version(contents: &Vec<String>, new_version: &str) -> (updated: Vec<
    String,
>)
    ensures
        string_views(updated@) == Seq::new(
            contents.len() as nat,
            |k: int| updated_contents(contents@[k]@, new_version@),
        ),
{
    let mut updated: Vec<String> = Vec::new();
    let mut i: usize = 0;
    while i < contents.len()
        invariant
            i <= contents.len(),
            string_views(updated@) == Seq::new(
                i as nat,
                |k: int| updated_contents(contents@[k]@, new_version@),
            ),
        decreases contents.len() - i,
    {
        let file = update_version_markers(contents[i].as_str(), new_version);
        let ghost before = updated@;
        updated.push(file);
        assert(string_views(updated@) == string_views(before).push(file@));
        assert(string_views(updated@) == Seq::new(
            (i + 1) as nat,
            |k: int| updated_contents(contents@[k]@, new_version@),
        ));
        i += 1;
    }
    updated
}

} // verus!
