//! Cutting a text into pieces that a message can hold.
use vstd::prelude::*;

use crate::text::{
    chars_of, concat_all, lemma_concat_add, lemma_concat_one, lemma_concat_push, push_text,
};

verus! {

/// The first place from `from` on behind a line end, or the length where no line
/// ends.
pub open spec fn line_stop(s: Seq<char>, from: int) -> int
    decreases s.len() - from,
{
    if from >= s.len() {
        s.len() as int
    } else if s[from] == '\n' {
        from + 1
    } else {
        line_stop(s, from + 1)
    }
}

/// The lines of `s`, each with the character that ends it.
pub open spec fn lines(s: Seq<char>) -> Seq<Seq<char>>
    decreases s.len(),
    via lines_shrink
{
    if s.len() == 0 {
        Seq::empty()
    } else {
        let p = line_stop(s, 0);
        seq![s.take(p)] + lines(s.skip(p))
    }
}

proof fn lemma_line_stop(s: Seq<char>, from: int)
    requires
        0 <= from <= s.len(),
    ensures
        from <= line_stop(s, from) <= s.len(),
        from < s.len() ==> from < line_stop(s, from),
    decreases s.len() - from,
{
    if from < s.len() && s[from] != '\n' {
        lemma_line_stop(s, from + 1);
    }
}

#[via_fn]
proof fn lines_shrink(s: Seq<char>) {
    if s.len() > 0 {
        lemma_line_stop(s, 0);
    }
}

/// How long the pieces of a line are that is too long for one.
pub open spec fn piece_len(limit: usize) -> int {
    if limit == 0 {
        1
    } else {
        limit as int
    }
}

/// The pieces of length `step` that `line` begins with.
pub open spec fn full_pieces(line: Seq<char>, step: int) -> Seq<Seq<char>>
    decreases line.len(),
{
    if step <= 0 || line.len() < step {
        Seq::empty()
    } else {
        seq![line.take(step)] + full_pieces(line.skip(step), step)
    }
}

/// What is left of `line` behind its pieces of length `step`.
pub open spec fn rest_of(line: Seq<char>, step: int) -> Seq<char>
    decreases line.len(),
{
    if step <= 0 || line.len() < step {
        line
    } else {
        rest_of(line.skip(step), step)
    }
}

/// The pieces, where `out` are those that are finished and `buf` is the one being
/// filled. A line goes to the piece being filled where it fits, else to a new one;
/// a line that fits in none is cut by length.
pub open spec fn packed(
    ls: Seq<Seq<char>>,
    limit: usize,
    out: Seq<Seq<char>>,
    buf: Seq<char>,
) -> Seq<Seq<char>>
    decreases ls.len(),
{
    let closed = if buf.len() > 0 {
        out.push(buf)
    } else {
        out
    };
    if ls.len() == 0 {
        closed
    } else if ls[0].len() > limit {
        packed(
            ls.drop_first(),
            limit,
            closed + full_pieces(ls[0], piece_len(limit)),
            rest_of(ls[0], piece_len(limit)),
        )
    } else if buf.len() + ls[0].len() > limit {
        packed(ls.drop_first(), limit, out.push(buf), ls[0])
    } else {
        packed(ls.drop_first(), limit, out, buf + ls[0])
    }
}

/// `s` in pieces of at most `limit` characters, cut at line ends where possible.
pub open spec fn chunks(s: Seq<char>, limit: usize) -> Seq<Seq<char>> {
    if s.len() <= limit {
        seq![s]
    } else {
        packed(lines(s), limit, Seq::empty(), Seq::empty())
    }
}

fn push_piece(out: &mut Vec<String>, s: &str, from: usize, to: usize)
    requires
        from <= to <= s@.len(),
    ensures
        final(out).deep_view() == old(out).deep_view().push(s@.subrange(from as int, to as int)),
{
    push_text(out, s.substring_char(from, to));
}

fn push_full(out: &mut Vec<String>, s: &str, from: usize, to: usize, step: usize) -> (r: usize)
    requires
        from <= to <= s@.len(),
        step > 0,
    ensures
        from <= r <= to,
        final(out).deep_view() == old(out).deep_view() + full_pieces(
            s@.subrange(from as int, to as int),
            step as int,
        ),
        s@.subrange(r as int, to as int) == rest_of(
            s@.subrange(from as int, to as int),
            step as int,
        ),
{
    let ghost line = s@.subrange(from as int, to as int);
    let ghost first = out.deep_view();
    let mut p: usize = from;
    assert(first + Seq::<Seq<char>>::empty() =~= first);
    while to - p >= step
        invariant
            from <= p <= to <= s@.len(),
            step > 0,
            line == s@.subrange(from as int, to as int),
            first + full_pieces(line, step as int) == out.deep_view() + full_pieces(
                s@.subrange(p as int, to as int),
                step as int,
            ),
            rest_of(line, step as int) == rest_of(s@.subrange(p as int, to as int), step as int),
        decreases to - p,
    {
        let ghost here = s@.subrange(p as int, to as int);
        let ghost before = out.deep_view();
        push_piece(out, s, p, p + step);
        proof {
            assert(here.take(step as int) =~= s@.subrange(p as int, p + step));
            assert(here.skip(step as int) =~= s@.subrange(p + step, to as int));
            assert(before + (seq![here.take(step as int)] + full_pieces(
                here.skip(step as int),
                step as int,
            )) =~= out.deep_view() + full_pieces(here.skip(step as int), step as int));
        }
        p = p + step;
    }
    assert(out.deep_view() + Seq::<Seq<char>>::empty() =~= out.deep_view());
    p
}

/// Cuts a text into pieces of at most `limit` characters, at line ends where
/// possible.
pub fn chunk_message(s: &str, limit: usize) -> (r: Vec<String>)
    ensures
        r.deep_view() == chunks(s@, limit),
{
    let n = s.unicode_len();
    let mut out: Vec<String> = Vec::new();
    assert(out.deep_view() =~= Seq::<Seq<char>>::empty());
    if n <= limit {
        push_text(&mut out, s);
        assert(out.deep_view() =~= seq![s@]);
        return out;
    }
    let cs = chars_of(s);
    let step: usize = if limit == 0 { 1 } else { limit };
    let ghost all = packed(lines(s@), limit, Seq::empty(), Seq::empty());
    let mut start: usize = 0;
    let mut pos: usize = 0;
    assert(s@.skip(0) =~= s@);
    assert(s@.subrange(0, 0) =~= Seq::<char>::empty());
    while pos < n
        invariant
            n == s@.len(),
            cs@ == s@,
            start <= pos <= n,
            step == piece_len(limit),
            all == packed(
                lines(s@.skip(pos as int)),
                limit,
                out.deep_view(),
                s@.subrange(start as int, pos as int),
            ),
        decreases n - pos,
    {
        let ghost rest = s@.skip(pos as int);
        let mut e: usize = pos;
        while e < n && cs[e] != '\n'
            invariant
                n == s@.len(),
                cs@ == s@,
                pos <= e <= n,
                rest == s@.skip(pos as int),
                line_stop(rest, 0) == line_stop(rest, e - pos),
            decreases n - e,
        {
            assert(rest[e - pos] == s@[e as int]);
            e = e + 1;
        }
        if e < n {
            assert(rest[e - pos] == s@[e as int]);
            e = e + 1;
        }
        assert(line_stop(rest, 0) == e - pos);
        let ghost line = rest.take(e - pos);
        let ghost buf = s@.subrange(start as int, pos as int);
        let ghost before = out.deep_view();
        proof {
            lemma_line_stop(rest, 0);
            assert(line =~= s@.subrange(pos as int, e as int));
            assert(rest.skip(e - pos) =~= s@.skip(e as int));
            assert(lines(rest)[0] == line);
            assert(lines(rest).drop_first() =~= lines(s@.skip(e as int)));
        }
        if e - pos > limit {
            if pos > start {
                push_piece(&mut out, s, start, pos);
            }
            let ghost closed = out.deep_view();
            start = push_full(&mut out, s, pos, e, step);
            assert(out.deep_view() == closed + full_pieces(line, piece_len(limit)));
        } else if (pos - start) > limit - (e - pos) {
            push_piece(&mut out, s, start, pos);
            start = pos;
        } else {
            assert(buf + line =~= s@.subrange(start as int, e as int));
        }
        pos = e;
    }
    assert(lines(s@.skip(n as int)) =~= Seq::<Seq<char>>::empty());
    if pos > start {
        push_piece(&mut out, s, start, pos);
    }
    out
}

proof fn lemma_lines_whole(s: Seq<char>)
    ensures
        concat_all(lines(s)) == s,
    decreases s.len(),
{
    if s.len() > 0 {
        lemma_line_stop(s, 0);
        let p = line_stop(s, 0);
        lemma_lines_whole(s.skip(p));
        lemma_concat_add(seq![s.take(p)], lines(s.skip(p)));
        lemma_concat_one(s.take(p));
        assert(s.take(p) + s.skip(p) =~= s);
    }
}

proof fn lemma_pieces_whole(line: Seq<char>, step: int)
    requires
        step > 0,
    ensures
        concat_all(full_pieces(line, step)) + rest_of(line, step) == line,
        rest_of(line, step).len() < step,
        forall|i: int|
            0 <= i < full_pieces(line, step).len() ==> (#[trigger] full_pieces(line, step)[i]).len()
                == step,
    decreases line.len(),
{
    if line.len() >= step {
        let tail = line.skip(step);
        lemma_pieces_whole(tail, step);
        lemma_concat_add(seq![line.take(step)], full_pieces(tail, step));
        lemma_concat_one(line.take(step));
        assert((line.take(step) + concat_all(full_pieces(tail, step))) + rest_of(tail, step)
            =~= line.take(step) + tail);
        assert(line.take(step) + tail =~= line);
        assert forall|i: int| 0 <= i < full_pieces(line, step).len() implies (
        #[trigger] full_pieces(line, step)[i]).len() == step by {
            if i > 0 {
                assert(full_pieces(line, step)[i] == full_pieces(tail, step)[i - 1]);
            }
        }
    } else {
        assert(concat_all(full_pieces(line, step)) + line =~= line);
    }
}

proof fn lemma_packed_whole(
    ls: Seq<Seq<char>>,
    limit: usize,
    out: Seq<Seq<char>>,
    buf: Seq<char>,
)
    ensures
        concat_all(packed(ls, limit, out, buf)) == concat_all(out) + buf + concat_all(ls),
    decreases ls.len(),
{
    let closed = if buf.len() > 0 {
        out.push(buf)
    } else {
        out
    };
    lemma_concat_push(out, buf);
    assert(concat_all(closed) =~= concat_all(out) + buf);
    if ls.len() == 0 {
        assert(concat_all(out) + buf + concat_all(ls) =~= concat_all(out) + buf);
    } else {
        let line = ls[0];
        let tail = ls.drop_first();
        lemma_concat_one(line);
        lemma_concat_add(seq![line], tail);
        assert(seq![line] + tail =~= ls);
        let whole = concat_all(out) + buf + concat_all(ls);
        assert(whole =~= concat_all(out) + buf + line + concat_all(tail));
        if line.len() > limit {
            let step = piece_len(limit);
            let full = full_pieces(line, step);
            lemma_pieces_whole(line, step);
            lemma_packed_whole(tail, limit, closed + full, rest_of(line, step));
            lemma_concat_add(closed, full);
            assert(concat_all(closed) + concat_all(full) + rest_of(line, step) =~= concat_all(
                closed,
            ) + (concat_all(full) + rest_of(line, step)));
        } else if buf.len() + line.len() > limit {
            lemma_packed_whole(tail, limit, out.push(buf), line);
        } else {
            lemma_packed_whole(tail, limit, out, buf + line);
            assert(concat_all(out) + (buf + line) + concat_all(tail) =~= whole);
        }
    }
}

/// The pieces one after the other are the text: nothing is lost, added or moved.
pub proof fn law_chunks_are_the_text(s: Seq<char>, limit: usize)
    ensures
        concat_all(chunks(s, limit)) == s,
{
    if s.len() <= limit {
        lemma_concat_one(s);
    } else {
        lemma_packed_whole(lines(s), limit, Seq::empty(), Seq::empty());
        lemma_lines_whole(s);
        assert(concat_all(Seq::<Seq<char>>::empty()) + Seq::<char>::empty() + s =~= s);
    }
}

/// Every part has a character and at most `limit` of them.
pub open spec fn fits(parts: Seq<Seq<char>>, limit: usize) -> bool {
    forall|i: int| 0 <= i < parts.len() ==> 0 < (#[trigger] parts[i]).len() <= limit
}

proof fn lemma_packed_fits(ls: Seq<Seq<char>>, limit: usize, out: Seq<Seq<char>>, buf: Seq<char>)
    requires
        limit > 0,
        fits(out, limit),
        buf.len() <= limit,
    ensures
        fits(packed(ls, limit, out, buf), limit),
    decreases ls.len(),
{
    let closed = if buf.len() > 0 {
        out.push(buf)
    } else {
        out
    };
    assert(fits(closed, limit));
    if ls.len() > 0 {
        let line = ls[0];
        let tail = ls.drop_first();
        if line.len() > limit {
            let step = piece_len(limit);
            let full = full_pieces(line, step);
            lemma_pieces_whole(line, step);
            assert forall|i: int| 0 <= i < (closed + full).len() implies 0 < (#[trigger] (closed
                + full)[i]).len() <= limit by {
                if i >= closed.len() {
                    assert((closed + full)[i] == full[i - closed.len()]);
                }
            }
            lemma_packed_fits(tail, limit, closed + full, rest_of(line, step));
        } else if buf.len() + line.len() > limit {
            lemma_packed_fits(tail, limit, out.push(buf), line);
        } else {
            lemma_packed_fits(tail, limit, out, buf + line);
        }
    }
}

/// No piece is empty, and none is longer than the limit.
pub proof fn law_chunks_fit(s: Seq<char>, limit: usize)
    requires
        limit > 0,
        s.len() > 0,
    ensures
        fits(chunks(s, limit), limit),
{
    if s.len() > limit {
        lemma_packed_fits(lines(s), limit, Seq::empty(), Seq::empty());
    }
}

} // verus!
