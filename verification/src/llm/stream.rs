//! The event stream of a completion: lines of bytes in, data texts out.
use vstd::prelude::*;

use crate::text::{from_utf8_lossy, has_prefix, push_text, same, strip_prefix, trim, trim_seq, utf8_lossy};

verus! {

/// The byte that ends a line.
pub const NEWLINE: u8 = 10;

/// The first place from `from` on that ends a line, or the length where none does.
pub open spec fn line_end(bytes: Seq<u8>, from: int) -> int
    decreases bytes.len() - from,
{
    if from >= bytes.len() {
        bytes.len() as int
    } else if bytes[from] == NEWLINE {
        from
    } else {
        line_end(bytes, from + 1)
    }
}

/// The text of a line.
pub open spec fn line_text(bytes: Seq<u8>) -> Seq<char> {
    trim_seq(utf8_lossy(bytes))
}

/// The line says that the stream is over.
pub open spec fn is_end_mark(line: Seq<char>) -> bool {
    line == "data: [DONE]"@
}

/// The data of a line, where it has any.
pub open spec fn data_of(line: Seq<char>) -> Seq<Seq<char>> {
    if has_prefix(line, "data: "@) {
        seq![line.skip("data: "@.len() as int)]
    } else {
        Seq::empty()
    }
}

/// What is left of `bytes` once its complete lines have been taken, up to and with
/// the first that says that the stream is over.
pub open spec fn left_over(bytes: Seq<u8>) -> Seq<u8>
    decreases bytes.len(),
    via left_over_shrinks
{
    let p = line_end(bytes, 0);
    if p >= bytes.len() {
        bytes
    } else if is_end_mark(line_text(bytes.take(p + 1))) {
        bytes.skip(p + 1)
    } else {
        left_over(bytes.skip(p + 1))
    }
}

/// The data of the complete lines of `bytes`, up to the first that says that the
/// stream is over.
pub open spec fn data_in(bytes: Seq<u8>) -> Seq<Seq<char>>
    decreases bytes.len(),
    via data_in_shrinks
{
    let p = line_end(bytes, 0);
    if p >= bytes.len() {
        Seq::empty()
    } else {
        let line = line_text(bytes.take(p + 1));
        if is_end_mark(line) {
            Seq::empty()
        } else {
            data_of(line) + data_in(bytes.skip(p + 1))
        }
    }
}

/// No complete line of `bytes` says that the stream is over.
pub open spec fn no_end_mark(bytes: Seq<u8>) -> bool
    decreases bytes.len(),
    via no_end_mark_shrinks
{
    let p = line_end(bytes, 0);
    p < bytes.len() ==> !is_end_mark(line_text(bytes.take(p + 1))) && no_end_mark(
        bytes.skip(p + 1),
    )
}

proof fn lemma_line_end(bytes: Seq<u8>, from: int)
    requires
        0 <= from <= bytes.len(),
    ensures
        from <= line_end(bytes, from) <= bytes.len(),
        line_end(bytes, from) < bytes.len() ==> bytes[line_end(bytes, from)] == NEWLINE,
        forall|i: int| from <= i < line_end(bytes, from) ==> bytes[i] != NEWLINE,
    decreases bytes.len() - from,
{
    if from < bytes.len() && bytes[from] != NEWLINE {
        lemma_line_end(bytes, from + 1);
    }
}

#[via_fn]
proof fn left_over_shrinks(bytes: Seq<u8>) {
    lemma_line_end(bytes, 0);
}

#[via_fn]
proof fn data_in_shrinks(bytes: Seq<u8>) {
    lemma_line_end(bytes, 0);
}

#[via_fn]
proof fn no_end_mark_shrinks(bytes: Seq<u8>) {
    lemma_line_end(bytes, 0);
}

/// What a line says.
pub enum Line {
    /// The stream is over.
    Over,
    /// Data.
    Data(String),
    /// Nothing of use.
    Nothing,
}

/// Reads the text of a line.
pub fn read_line(text: &str) -> (r: Line)
    ensures
        match r {
            Line::Over => is_end_mark(trim_seq(text@)),
            Line::Data(d) => !is_end_mark(trim_seq(text@)) && data_of(trim_seq(text@)) == seq![d@],
            Line::Nothing => !is_end_mark(trim_seq(text@)) && data_of(trim_seq(text@))
                == Seq::<Seq<char>>::empty(),
        },
{
    let line = trim(text);
    if same(line.as_str(), "data: [DONE]") {
        return Line::Over;
    }
    match strip_prefix(line.as_str(), "data: ") {
        Some(data) => Line::Data(data),
        None => Line::Nothing,
    }
}

/// The bytes of the stream that make no complete line yet.
pub struct EventBuffer {
    pub bytes: Vec<u8>,
}

impl EventBuffer {
    /// A buffer with nothing in it.
    pub fn new() -> (r: EventBuffer)
        ensures
            r.bytes@ == Seq::<u8>::empty(),
    {
        EventBuffer { bytes: Vec::new() }
    }

    /// Takes in a piece of the stream and gives the data of the lines that it
    /// completes. A line that says that the stream is over ends the piece: what
    /// follows it waits for the next one.
    pub fn feed(&mut self, piece: &[u8]) -> (r: Vec<String>)
        ensures
            r.deep_view() == data_in(old(self).bytes@ + piece@),
            final(self).bytes@ == left_over(old(self).bytes@ + piece@),
    {
        let ghost all = self.bytes@ + piece@;
        let mut buf: Vec<u8> = Vec::new();
        for i in 0..self.bytes.len()
            invariant
                buf@ == self.bytes@.take(i as int),
        {
            buf.push(self.bytes[i]);
            assert(buf@ =~= self.bytes@.take(i + 1));
        }
        for i in 0..piece.len()
            invariant
                buf@ == self.bytes@ + piece@.take(i as int),
        {
            buf.push(piece[i]);
            assert(buf@ =~= self.bytes@ + piece@.take(i + 1));
        }
        assert(buf@ =~= all);
        let mut out: Vec<String> = Vec::new();
        let mut start: usize = 0;
        let mut open = true;
        assert(all.skip(0) =~= all);
        assert(Seq::<Seq<char>>::empty() + data_in(all) =~= data_in(all));
        assert(out.deep_view() =~= Seq::<Seq<char>>::empty());
        while open
            invariant
                buf@ == all,
                start <= buf.len(),
                open ==> data_in(all) == out.deep_view() + data_in(all.skip(start as int)),
                open ==> left_over(all) == left_over(all.skip(start as int)),
                !open ==> data_in(all) == out.deep_view(),
                !open ==> left_over(all) == all.skip(start as int),
            decreases buf.len() - start, open as int,
        {
            let ghost rest = all.skip(start as int);
            let mut end: usize = start;
            while end < buf.len() && buf[end] != NEWLINE
                invariant
                    buf@ == all,
                    start <= end <= buf.len(),
                    rest == all.skip(start as int),
                    line_end(rest, 0) == line_end(rest, end - start),
                decreases buf.len() - end,
            {
                assert(rest[end - start] == buf@[end as int]);
                end = end + 1;
            }
            proof {
                if end < buf@.len() {
                    assert(rest[end - start] == buf@[end as int]);
                }
                assert(line_end(rest, 0) == end - start);
            }
            if end >= buf.len() {
                assert(data_in(rest) =~= Seq::<Seq<char>>::empty());
                assert(out.deep_view() + data_in(rest) =~= out.deep_view());
                open = false;
            } else {
                let line_bytes = vstd::slice::slice_subrange(buf.as_slice(), start, end + 1);
                assert(line_bytes@ =~= rest.take(end - start + 1));
                let text = from_utf8_lossy(line_bytes);
                assert(rest.skip(end - start + 1) =~= all.skip(end + 1));
                let ghost before = out.deep_view();
                match read_line(text.as_str()) {
                    Line::Over => {
                        assert(out.deep_view() + Seq::<Seq<char>>::empty() =~= out.deep_view());
                        open = false;
                    },
                    Line::Data(data) => {
                        push_text(&mut out, data.as_str());
                        assert(before + (seq![data@] + data_in(all.skip(end + 1)))
                            =~= out.deep_view() + data_in(all.skip(end + 1)));
                    },
                    Line::Nothing => {
                        assert(before + (Seq::<Seq<char>>::empty() + data_in(all.skip(end + 1)))
                            =~= before + data_in(all.skip(end + 1)));
                    },
                }
                start = end + 1;
            }
        }
        let mut rest: Vec<u8> = Vec::new();
        for i in start..buf.len()
            invariant
                buf@ == all,
                start <= i <= buf.len(),
                rest@ == all.subrange(start as int, i as int),
        {
            rest.push(buf[i]);
            assert(rest@ =~= all.subrange(start as int, i + 1));
        }
        assert(rest@ =~= all.skip(start as int));
        self.bytes = rest;
        out
    }
}

proof fn lemma_line_end_in_prefix(a: Seq<u8>, b: Seq<u8>, from: int)
    requires
        0 <= from <= a.len(),
        line_end(a, from) < a.len(),
    ensures
        line_end(a + b, from) == line_end(a, from),
    decreases a.len() - from,
{
    if from < a.len() {
        assert((a + b)[from] == a[from]);
        if a[from] != NEWLINE {
            lemma_line_end_in_prefix(a, b, from + 1);
        }
    }
}

/// It does not matter how the stream is cut into pieces: two pieces one after the
/// other give the same data, and leave the same bytes over, as the two in one,
/// where no line in the first says that the stream is over.
pub proof fn law_pieces_do_not_matter(a: Seq<u8>, b: Seq<u8>)
    requires
        no_end_mark(a),
    ensures
        data_in(a + b) == data_in(a) + data_in(left_over(a) + b),
        left_over(a + b) == left_over(left_over(a) + b),
    decreases a.len(),
{
    lemma_line_end(a, 0);
    let p = line_end(a, 0);
    if p >= a.len() {
        assert(data_in(a) + data_in(a + b) =~= data_in(a + b));
    } else {
        lemma_line_end_in_prefix(a, b, 0);
        assert((a + b).take(p + 1) =~= a.take(p + 1));
        assert((a + b).skip(p + 1) =~= a.skip(p + 1) + b);
        let line = line_text(a.take(p + 1));
        law_pieces_do_not_matter(a.skip(p + 1), b);
        assert(data_of(line) + (data_in(a.skip(p + 1)) + data_in(left_over(a) + b)) =~= (data_of(
            line,
        ) + data_in(a.skip(p + 1))) + data_in(left_over(a) + b));
    }
}

/// What is left over holds no complete line, where no line says that the stream is
/// over.
pub proof fn law_left_over_is_one_line(bytes: Seq<u8>)
    requires
        no_end_mark(bytes),
    ensures
        line_end(left_over(bytes), 0) == left_over(bytes).len(),
        data_in(left_over(bytes)) == Seq::<Seq<char>>::empty(),
    decreases bytes.len(),
{
    lemma_line_end(bytes, 0);
    let p = line_end(bytes, 0);
    if p < bytes.len() {
        law_left_over_is_one_line(bytes.skip(p + 1));
    }
}

} // verus!
