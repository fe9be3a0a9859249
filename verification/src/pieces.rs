//! Cutting a text into pieces at a separator, into lines, and putting pieces
//! together again.

use vstd::prelude::*;
use crate::text::{append_chars, from_chars, matches_at, slice_chars, string_views, to_chars,
    views};

verus! {

/// The pieces of `s` between occurrences of `sep`. There is one piece more than
/// there are separators, so the empty text has one, empty, piece.
pub open spec fn split(s: Seq<char>, sep: char) -> Seq<Seq<char>>
    decreases s.len(),
{
    if s.len() == 0 {
        seq![Seq::<char>::empty()]
    } else {
        let before = split(s.drop_last(), sep);
        if s.last() == sep {
            before.push(Seq::<char>::empty())
        } else {
            before.drop_last().push(before.last().push(s.last()))
        }
    }
}

/// `pieces` with `sep` between each two neighbours.
pub open spec fn join(pieces: Seq<Seq<char>>, sep: Seq<char>) -> Seq<char>
    decreases pieces.len(),
{
    if pieces.len() == 0 {
        Seq::<char>::empty()
    } else if pieces.len() == 1 {
        pieces[0]
    } else {
        join(pieces.drop_last(), sep) + sep + pieces.last()
    }
}

/// `c` does not occur in `s`.
pub open spec fn free_of(s: Seq<char>, c: char) -> bool {
    forall|i: int| 0 <= i < s.len() ==> s[i] != c
}

/// A text always has at least one piece.
pub proof fn lemma_split_len(s: Seq<char>, sep: char)
    ensures
        split(s, sep).len() >= 1,
    decreases s.len(),
{
    if s.len() > 0 {
        lemma_split_len(s.drop_last(), sep);
    }
}

/// Text without a separator, put behind `s`, lengthens the last piece of `s`.
pub proof fn lemma_split_extend(s: Seq<char>, t: Seq<char>, sep: char)
    requires
        free_of(t, sep),
    ensures
        split(s, sep).len() >= 1,
        split(s + t, sep) == split(s, sep).drop_last().push(split(s, sep).last() + t),
    decreases t.len(),
{
    lemma_split_len(s, sep);
    let pieces = split(s, sep);
    if t.len() == 0 {
        assert(s + t == s);
        assert(pieces.last() + t == pieces.last());
        assert(pieces.drop_last().push(pieces.last()) == pieces);
    } else {
        lemma_split_extend(s, t.drop_last(), sep);
        assert((s + t).drop_last() == s + t.drop_last());
        assert((s + t).last() == t.last());
        let shorter = split(s + t.drop_last(), sep);
        assert(shorter.last() == pieces.last() + t.drop_last());
        assert(shorter.drop_last() == pieces.drop_last());
        assert((pieces.last() + t.drop_last()).push(t.last()) == pieces.last() + t);
    }
}

/// A separator and then text without one, put behind `s`, make a new last piece.
pub proof fn lemma_split_next(s: Seq<char>, t: Seq<char>, sep: char)
    requires
        free_of(t, sep),
    ensures
        split(s + seq![sep] + t, sep) == split(s, sep).push(t),
{
    let head = s + seq![sep];
    assert(head.drop_last() == s);
    assert(head.last() == sep);
    assert(split(head, sep) == split(s, sep).push(Seq::<char>::empty()));
    lemma_split_extend(head, t, sep);
    assert(Seq::<char>::empty() + t == t);
    assert(split(head, sep).drop_last() == split(s, sep));
}

/// A text without a separator is its own single piece.
pub proof fn lemma_split_single(t: Seq<char>, sep: char)
    requires
        free_of(t, sep),
    ensures
        split(t, sep) == seq![t],
{
    let none = Seq::<char>::empty();
    lemma_split_extend(none, t, sep);
    assert(none + t == t);
    assert(split(none, sep) == seq![none]);
    assert(seq![none].drop_last().push(none + t) == seq![t]);
}

/// No piece holds the separator, and the pieces joined by it give the text back.
pub proof fn lemma_split_join(s: Seq<char>, sep: char)
    ensures
        forall|k: int| 0 <= k < split(s, sep).len() ==> free_of(#[trigger] split(s, sep)[k], sep),
        join(split(s, sep), seq![sep]) == s,
    decreases s.len(),
{
    lemma_split_len(s, sep);
    if s.len() == 0 {
        assert(join(split(s, sep), seq![sep]) == s);
    } else {
        let before = split(s.drop_last(), sep);
        let after = split(s, sep);
        lemma_split_join(s.drop_last(), sep);
        lemma_split_len(s.drop_last(), sep);
        if s.last() == sep {
            assert(after.drop_last() == before);
            assert(join(after, seq![sep]) == s.drop_last() + seq![sep] + Seq::<char>::empty());
            assert(s.drop_last() + seq![sep] + Seq::<char>::empty() == s);
        } else {
            let grown = before.last().push(s.last());
            assert(after.last() == grown);
            assert(after.drop_last() == before.drop_last());
            assert(free_of(before.last(), sep));
            if before.len() == 1 {
                assert(before[0] == s.drop_last());
                assert(join(after, seq![sep]) == grown);
                assert(grown == s);
            } else {
                assert(join(before, seq![sep]) == join(before.drop_last(), seq![sep]) + seq![sep]
                    + before.last());
                assert(join(after, seq![sep]) == join(before.drop_last(), seq![sep]) + seq![sep]
                    + grown);
                assert(join(before.drop_last(), seq![sep]) + seq![sep] + grown == (join(
                    before.drop_last(),
                    seq![sep],
                ) + seq![sep] + before.last()).push(s.last()));
                assert(s.drop_last().push(s.last()) == s);
            }
        }
    }
}

/// The pieces of `v` between occurrences of `sep`.
pub fn split_chars(v: &Vec<char>, sep: char) -> (out: Vec<Vec<char>>)
    ensures
        views(out@) == split(v@, sep),
        out.len() >= 1,
{
    let mut out: Vec<Vec<char>> = Vec::new();
    let mut cur: Vec<char> = Vec::new();
    let mut i: usize = 0;
    while i < v.len()
        invariant
            i <= v.len(),
            views(out@).push(cur@) == split(v@.take(i as int), sep),
        decreases v.len() - i,
    {
        let ghost before = split(v@.take(i as int), sep);
        let ghost grown = v@.take(i + 1);
        assert(grown.drop_last() == v@.take(i as int));
        assert(grown.last() == v@[i as int]);
        if v[i] == sep {
            let ghost old_out = out@;
            out.push(cur);
            cur = Vec::new();
            assert(views(out@) == views(old_out).push(out@[old_out.len() as int]@));
            assert(split(grown, sep) == before.push(Seq::<char>::empty()));
        } else {
            cur.push(v[i]);
            assert(before.drop_last() == views(out@));
            assert(split(grown, sep) == views(out@).push(cur@));
        }
        i += 1;
    }
    assert(v@.take(v.len() as int) == v@);
    let ghost old_out = out@;
    out.push(cur);
    assert(views(out@) == views(old_out).push(out@[old_out.len() as int]@));
    out
}

/// `s` without one carriage return at its end, if it has one.
pub open spec fn strip_cr(s: Seq<char>) -> Seq<char> {
    if s.len() > 0 && s.last() == '\r' {
        s.drop_last()
    } else {
        s
    }
}

/// The lines of `s`. A line ends at a line feed; the line feed, and a carriage
/// return directly before it, are not part of the line. What follows the last
/// line feed is a line only if it is not empty.
pub open spec fn lines(s: Seq<char>) -> Seq<Seq<char>> {
    let pieces = split(s, '\n');
    let ended = Seq::new((pieces.len() - 1) as nat, |i: int| strip_cr(pieces[i]));
    if pieces.last().len() == 0 {
        ended
    } else {
        ended.push(pieces.last())
    }
}

/// The pieces of two texts put together: the last piece of the first and the
/// first piece of the second become one piece, the others stay.
pub proof fn lemma_split_concat(x: Seq<char>, y: Seq<char>, sep: char)
    ensures
        split(x, sep).len() >= 1,
        split(y, sep).len() >= 1,
        split(x + y, sep) == split(x, sep).drop_last().push(
            split(x, sep).last() + split(y, sep)[0],
        ) + split(y, sep).skip(1),
    decreases y.len(),
{
    lemma_split_len(x, sep);
    lemma_split_len(y, sep);
    let xs = split(x, sep);
    let ys = split(y, sep);
    if y.len() == 0 {
        assert(x + y == x);
        assert(xs.last() + ys[0] == xs.last());
        assert(xs.drop_last().push(xs.last()) + ys.skip(1) == xs);
    } else {
        let shorter = y.drop_last();
        let c = y.last();
        lemma_split_concat(x, shorter, sep);
        lemma_split_len(shorter, sep);
        assert((x + y).drop_last() == x + shorter);
        assert((x + y).last() == c);
        let ss = split(shorter, sep);
        let joined = split(x + shorter, sep);
        let head = xs.drop_last().push(xs.last() + ss[0]);
        assert(joined == head + ss.skip(1));
        if c == sep {
            assert(ys == ss.push(Seq::<char>::empty()));
            assert(ys[0] == ss[0]);
            assert(ys.skip(1) == ss.skip(1).push(Seq::<char>::empty()));
            assert((head + ss.skip(1)).push(Seq::<char>::empty()) == head + ss.skip(1).push(
                Seq::<char>::empty(),
            ));
        } else if ss.len() == 1 {
            assert(ss.skip(1) == Seq::<Seq<char>>::empty());
            assert(joined == head);
            assert(joined.last() == xs.last() + ss[0]);
            assert(joined.drop_last() == xs.drop_last());
            assert(ys == seq![ss[0].push(c)]);
            assert(ys.skip(1) == Seq::<Seq<char>>::empty());
            assert((xs.last() + ss[0]).push(c) == xs.last() + ss[0].push(c));
            assert(xs.drop_last().push(xs.last() + ys[0]) + ys.skip(1) == xs.drop_last().push(
                xs.last() + ys[0],
            ));
        } else {
            assert(joined.last() == ss.last());
            assert(joined.drop_last() == head + ss.skip(1).drop_last());
            assert(ys[0] == ss[0]);
            assert(ys.skip(1) == ss.skip(1).drop_last().push(ss.last().push(c)));
            assert((head + ss.skip(1).drop_last()).push(ss.last().push(c)) == head + ss.skip(
                1,
            ).drop_last().push(ss.last().push(c)));
        }
    }
}

/// The lines of two texts put together are the lines of the first followed by
/// the lines of the second, provided the first ends where a line ends.
pub proof fn lemma_lines_concat(a: Seq<char>, b: Seq<char>)
    requires
        a.len() == 0 || a.last() == '\n',
    ensures
        lines(a + b) == lines(a) + lines(b),
{
    lemma_split_len(b, '\n');
    if a.len() == 0 {
        assert(a + b == b);
        assert(lines(a) == Seq::<Seq<char>>::empty());
        assert(lines(a) + lines(b) == lines(b));
    } else {
        let front = a.drop_last();
        lemma_split_len(front, '\n');
        lemma_split_concat(a, b, '\n');
        let fs = split(front, '\n');
        let xs = split(a, '\n');
        let ys = split(b, '\n');
        assert(xs == fs.push(Seq::<char>::empty()));
        assert(xs.drop_last() == fs);
        assert(xs.last() + ys[0] == ys[0]);
        let all = split(a + b, '\n');
        assert(all == fs + ys) by {
            assert(fs.push(ys[0]) + ys.skip(1) == fs + ys);
        }
        assert(lines(a) == Seq::new(fs.len(), |i: int| strip_cr(fs[i])));
        let ended = Seq::new((all.len() - 1) as nat, |i: int| strip_cr(all[i]));
        let ended_b = Seq::new((ys.len() - 1) as nat, |i: int| strip_cr(ys[i]));
        assert(ended == lines(a) + ended_b);
        assert(all.last() == ys.last());
        if ys.last().len() == 0 {
        } else {
            assert((lines(a) + ended_b).push(ys.last()) == lines(a) + ended_b.push(ys.last()));
        }
    }
}

/// The lines of `v`.
pub fn lines_of(v: &Vec<char>) -> (out: Vec<Vec<char>>)
    ensures
        views(out@) == lines(v@),
{
    let pieces = split_chars(v, '\n');
    let ghost spec_pieces = split(v@, '\n');
    let n: usize = pieces.len();
    let mut out: Vec<Vec<char>> = Vec::new();
    let mut i: usize = 0;
    while i + 1 < n
        invariant
            i + 1 <= n,
            n == pieces.len(),
            views(pieces@) == spec_pieces,
            views(out@) == Seq::new(i as nat, |k: int| strip_cr(spec_pieces[k])),
        decreases n - i,
    {
        let piece = &pieces[i];
        assert(piece@ == views(pieces@)[i as int]);
        let len: usize = piece.len();
        let line = if len > 0 && piece[len - 1] == '\r' {
            slice_chars(piece, 0, len - 1)
        } else {
            slice_chars(piece, 0, len)
        };
        assert(line@ == strip_cr(spec_pieces[i as int])) by {
            assert(piece@.subrange(0, len as int) == piece@);
            if len > 0 {
                assert(piece@.subrange(0, len - 1) == piece@.drop_last());
            }
        }
        let ghost old_out = out@;
        out.push(line);
        assert(views(out@) == views(old_out).push(line@));
        assert(views(out@) == Seq::new((i + 1) as nat, |k: int| strip_cr(spec_pieces[k])));
        i += 1;
    }
    let last = &pieces[n - 1];
    assert(last@ == views(pieces@)[n - 1]);
    if last.len() > 0 {
        let line = slice_chars(last, 0, last.len());
        assert(line@ == last@) by {
            assert(last@.subrange(0, last@.len() as int) == last@);
        }
        let ghost old_out = out@;
        out.push(line);
        assert(views(out@) == views(old_out).push(line@));
    }
    out
}

/// The lines of the text `text`, each as a string.
pub fn text_lines(text: &str) -> (out: Vec<String>)
    ensures
        string_views(out@) == lines(text@),
{
    let chars = to_chars(text);
    let all = lines_of(&chars);
    let mut out: Vec<String> = Vec::new();
    let mut i: usize = 0;
    while i < all.len()
        invariant
            i <= all.len(),
            string_views(out@) == views(all@).take(i as int),
        decreases all.len() - i,
    {
        let line = from_chars(&all[i]);
        let ghost before = out@;
        out.push(line);
        assert(string_views(out@) == string_views(before).push(line@));
        assert(views(all@).take(i + 1) == views(all@).take(i as int).push(all@[i as int]@));
        i += 1;
    }
    assert(views(all@).take(all.len() as int) == views(all@));
    out
}

/// `pieces` with `sep` between each two neighbours.
pub fn join_chars(pieces: &Vec<Vec<char>>, sep: &Vec<char>) -> (out: Vec<char>)
    ensures
        out@ == join(views(pieces@), sep@),
{
    let mut out: Vec<char> = Vec::new();
    let mut i: usize = 0;
    while i < pieces.len()
        invariant
            i <= pieces.len(),
            out@ == join(views(pieces@).take(i as int), sep@),
        decreases pieces.len() - i,
    {
        let ghost done = views(pieces@).take(i as int);
        let ghost more = views(pieces@).take(i + 1);
        assert(more.drop_last() == done);
        assert(more.last() == pieces@[i as int]@);
        if i > 0 {
            append_chars(&mut out, sep);
        }
        append_chars(&mut out, &pieces[i]);
        i += 1;
    }
    assert(views(pieces@).take(pieces.len() as int) == views(pieces@));
    out
}

/// `s` without `prefix` at its front, as often as it stands there. An empty
/// `prefix` leaves `s` as it is.
pub open spec fn strip_leading(s: Seq<char>, prefix: Seq<char>) -> Seq<char>
    decreases s.len(),
{
    if prefix.len() > 0 && prefix.is_prefix_of(s) {
        strip_leading(s.skip(prefix.len() as int), prefix)
    } else {
        s
    }
}

/// `v` without `prefix` at its front, as often as it stands there.
pub fn strip_leading_chars(v: &Vec<char>, prefix: &Vec<char>) -> (out: Vec<char>)
    ensures
        out@ == strip_leading(v@, prefix@),
{
    let mut from: usize = 0;
    if prefix.len() > 0 {
        assert(v@.skip(0) == v@);
        loop
            invariant
                from <= v.len(),
                prefix.len() > 0,
                strip_leading(v@, prefix@) == strip_leading(v@.skip(from as int), prefix@),
            ensures
                from <= v.len(),
                strip_leading(v@, prefix@) == v@.skip(from as int),
            decreases v.len() - from,
        {
            let here = matches_at(v, prefix, from);
            proof {
                if from + prefix.len() <= v.len() {
                    assert(v@.skip(from as int).subrange(0, prefix.len() as int) == v@.subrange(
                        from as int,
                        from + prefix.len(),
                    ));
                }
            }
            if here {
                assert(v@.skip(from as int).skip(prefix.len() as int) == v@.skip(from + prefix.len()));
                from += prefix.len();
            } else {
                break ;
            }
        }
    } else {
        assert(v@.skip(0) == v@);
    }
    slice_chars(v, from, v.len())
}

} // verus!
