//! Where a text is cut.
use vstd::prelude::*;

use crate::bot::chunks::{chunks, full_pieces, line_stop, lines, packed};

verus! {

/// `p` ends with the end of a line.
pub open spec fn ends_a_line(p: Seq<char>) -> bool {
    p.len() > 0 && p.last() == '\n'
}

/// `p` is one line: no line ends before its last character.
pub open spec fn one_line(p: Seq<char>) -> bool {
    &&& p.len() > 0
    &&& forall|i: int| 0 <= i < p.len() - 1 ==> #[trigger] p[i] != '\n'
}

/// No line of `s` is longer than `limit`.
pub open spec fn short_lines(s: Seq<char>, limit: usize) -> bool {
    forall|i: int|
        0 <= i < lines(s).len() ==> (#[trigger] lines(s)[i]).len() <= limit
}

proof fn lemma_stop(s: Seq<char>, from: int)
    requires
        0 <= from <= s.len(),
    ensures
        from <= line_stop(s, from) <= s.len(),
        from < s.len() ==> from < line_stop(s, from),
        forall|i: int| from <= i < line_stop(s, from) - 1 ==> s[i] != '\n',
        line_stop(s, from) < s.len() ==> s[line_stop(s, from) - 1] == '\n',
    decreases s.len() - from,
{
    if from < s.len() && s[from] != '\n' {
        lemma_stop(s, from + 1);
    }
}

proof fn lemma_stop_of(s: Seq<char>, line: Seq<char>, from: int)
    requires
        0 <= from < line.len() <= s.len(),
        s.take(line.len() as int) == line,
        one_line(line),
        line.len() == s.len() || ends_a_line(line),
    ensures
        line_stop(s, from) == line.len(),
    decreases line.len() - from,
{
    assert(s[from] == s.take(line.len() as int)[from]);
    assert(s[from] == line[from]);
    if from + 1 < line.len() {
        assert(line[from] != '\n');
        lemma_stop_of(s, line, from + 1);
    } else if line[from] != '\n' {
        assert(line_stop(s, from + 1) == s.len());
    }
}

/// The lines of a text are lines: each but the last ends where a line ends, and nowhere
/// before.
pub proof fn law_lines_are_lines(s: Seq<char>)
    ensures
        forall|i: int| 0 <= i < lines(s).len() ==> one_line(#[trigger] lines(s)[i]),
        forall|i: int| 0 <= i < lines(s).len() - 1 ==> ends_a_line(#[trigger] lines(s)[i]),
    decreases s.len(),
{
    if s.len() > 0 {
        lemma_stop(s, 0);
        let p = line_stop(s, 0);
        let first = s.take(p);
        let rest = lines(s.skip(p));
        law_lines_are_lines(s.skip(p));
        assert(lines(s) == seq![first] + rest);
        assert(one_line(first)) by {
            assert forall|i: int| 0 <= i < first.len() - 1 implies #[trigger] first[i] != '\n' by {
                assert(first[i] == s[i]);
            }
        }
        assert forall|i: int| 0 <= i < lines(s).len() implies one_line(#[trigger] lines(s)[i]) by {
            if i > 0 {
                assert(lines(s)[i] == rest[i - 1]);
            }
        }
        assert forall|i: int| 0 <= i < lines(s).len() - 1 implies ends_a_line(
            #[trigger] lines(s)[i],
        ) by {
            if i > 0 {
                assert(lines(s)[i] == rest[i - 1]);
            } else if p == s.len() {
                assert(s.skip(p) =~= Seq::empty());
                assert(rest.len() == 0);
            } else {
                assert(first.last() == s[p - 1]);
            }
        }
    }
}

/// The pieces end where lines end, all but the last, and no piece could have taken in
/// the first line of the next.
pub open spec fn well_cut(pieces: Seq<Seq<char>>, limit: usize) -> bool {
    &&& forall|i: int| 0 <= i < pieces.len() - 1 ==> ends_a_line(#[trigger] pieces[i])
    &&& forall|i: int|
        0 <= i < pieces.len() - 1 ==> (#[trigger] pieces[i]).len() + line_stop(pieces[i + 1], 0)
            > limit
}

proof fn lemma_well_cut_push(pieces: Seq<Seq<char>>, p: Seq<char>, limit: usize)
    requires
        well_cut(pieces, limit),
        pieces.len() > 0 ==> ends_a_line(pieces.last()),
        pieces.len() > 0 ==> pieces.last().len() + line_stop(p, 0) > limit,
    ensures
        well_cut(pieces.push(p), limit),
{
    let all = pieces.push(p);
    assert forall|i: int| 0 <= i < all.len() - 1 implies ends_a_line(#[trigger] all[i]) && all[i].len()
        + line_stop(all[i + 1], 0) > limit by {
        assert(all[i] == pieces[i]);
        if i + 1 < pieces.len() {
            assert(all[i + 1] == pieces[i + 1]);
        }
    }
}

proof fn lemma_packed_well(
    ls: Seq<Seq<char>>,
    limit: usize,
    out: Seq<Seq<char>>,
    buf: Seq<char>,
)
    requires
        forall|i: int| 0 <= i < ls.len() ==> one_line(#[trigger] ls[i]) && ls[i].len() <= limit,
        forall|i: int| 0 <= i < ls.len() - 1 ==> ends_a_line(#[trigger] ls[i]),
        well_cut(out, limit),
        out.len() > 0 ==> ends_a_line(out.last()) && buf.len() > 0 && out.last().len()
            + line_stop(buf, 0) > limit,
        ls.len() > 0 && buf.len() > 0 ==> ends_a_line(buf),
        buf.len() <= limit,
    ensures
        well_cut(packed(ls, limit, out, buf), limit),
    decreases ls.len(),
{
    if ls.len() == 0 {
        if buf.len() > 0 {
            lemma_well_cut_push(out, buf, limit);
        }
    } else {
        let line = ls[0];
        let tail = ls.drop_first();
        assert forall|i: int| 0 <= i < tail.len() implies one_line(#[trigger] tail[i])
            && tail[i].len() <= limit by {
            assert(tail[i] == ls[i + 1]);
        }
        assert forall|i: int| 0 <= i < tail.len() - 1 implies ends_a_line(#[trigger] tail[i]) by {
            assert(tail[i] == ls[i + 1]);
        }
        assert(one_line(line) && line.len() <= limit);
        if tail.len() > 0 {
            assert(ends_a_line(ls[0]));
        }
        if buf.len() + line.len() > limit {
            lemma_well_cut_push(out, buf, limit);
            assert(line.take(line.len() as int) =~= line);
            lemma_stop_of(line, line, 0);
            assert(out.push(buf).last() == buf);
            lemma_packed_well(tail, limit, out.push(buf), line);
        } else {
            let grown = buf + line;
            if buf.len() > 0 {
                lemma_stop(buf, 0);
                let first = buf.take(line_stop(buf, 0));
                assert(grown.take(first.len() as int) =~= first);
                assert(one_line(first)) by {
                    assert forall|i: int| 0 <= i < first.len() - 1 implies #[trigger] first[i]
                        != '\n' by {
                        assert(first[i] == buf[i]);
                    }
                }
                assert(first.last() == buf[line_stop(buf, 0) - 1]);
                lemma_stop_of(grown, first, 0);
            }
            if tail.len() > 0 {
                assert(grown.last() == line.last());
            }
            lemma_packed_well(tail, limit, out, grown);
        }
    }
}

/// A text that fits is not cut. Where every line fits, a longer one is cut between lines
/// only, and as late as can be: each piece takes in every line that still fits.
pub proof fn law_texts_are_cut_between_lines(s: Seq<char>, limit: usize)
    ensures
        s.len() <= limit ==> chunks(s, limit) == seq![s],
        s.len() > limit && short_lines(s, limit) ==> well_cut(chunks(s, limit), limit),
{
    if s.len() > limit && short_lines(s, limit) {
        law_lines_are_lines(s);
        lemma_packed_well(lines(s), limit, Seq::empty(), Seq::empty());
    }
}

proof fn lemma_full_pieces(line: Seq<char>, step: int)
    requires
        step > 0,
    ensures
        forall|i: int|
            0 <= i < full_pieces(line, step).len() ==> (#[trigger] full_pieces(
                line,
                step,
            )[i]).len() == step,
    decreases line.len(),
{
    if line.len() >= step {
        lemma_full_pieces(line.skip(step), step);
        let all = full_pieces(line, step);
        let rest = full_pieces(line.skip(step), step);
        assert forall|i: int| 0 <= i < all.len() implies (#[trigger] all[i]).len() == step by {
            if i > 0 {
                assert(all[i] == rest[i - 1]);
            }
        }
    }
}

/// A line that is too long for one piece is cut by length: each piece but the last is as
/// long as a piece may be.
pub proof fn law_a_long_line_is_cut_by_length(s: Seq<char>, limit: usize)
    requires
        limit > 0,
        s.len() > limit,
        one_line(s),
    ensures
        forall|i: int|
            0 <= i < chunks(s, limit).len() - 1 ==> (#[trigger] chunks(s, limit)[i]).len()
                == limit,
{
    assert(s.take(s.len() as int) =~= s);
    lemma_stop_of(s, s, 0);
    assert(s.skip(s.len() as int) =~= Seq::empty());
    assert(lines(Seq::<char>::empty()) =~= Seq::empty());
    assert(lines(s) =~= seq![s]);
    assert(lines(s).drop_first() =~= Seq::empty());
    lemma_full_pieces(s, limit as int);
    let full = full_pieces(s, limit as int);
    assert(Seq::<Seq<char>>::empty() + full =~= full);
    reveal_with_fuel(packed, 2);
    assert forall|i: int| 0 <= i < chunks(s, limit).len() - 1 implies (#[trigger] chunks(
        s,
        limit,
    )[i]).len() == limit by {
        assert(chunks(s, limit)[i] == full[i]);
    }
}

} // verus!
