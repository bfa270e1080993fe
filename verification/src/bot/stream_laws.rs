//! What streaming an answer promises as a whole.
use vstd::prelude::*;

use crate::bot::answer_stream::{
    fresh_stream, law_the_answer_goes_out, open_delay, status_text, StreamActionView, StreamEvent,
    StreamRunView,
};
use crate::llm::client::StreamChunk;
use crate::text::{concat_all, trim_seq};

verus! {

/// What a run asks to be shown in its next `fuel` steps, where `ok` tells which edits and
/// messages the chat accepts; and whether it has come to its end by then.
pub open spec fn shown(
    run: StreamRunView,
    action: StreamActionView,
    ok: spec_fn(StreamActionView) -> bool,
    fuel: nat,
) -> (Seq<StreamActionView>, bool)
    decreases fuel,
{
    match action {
        StreamActionView::Edit { .. } | StreamActionView::Send { .. } => if fuel == 0 {
            (Seq::empty(), false)
        } else {
            let next = if ok(action) {
                run.on(StreamEvent::Did)
            } else {
                run.on(StreamEvent::Failed)
            };
            let rest = shown(next.0, next.1, ok, (fuel - 1) as nat);
            (seq![action] + rest.0, rest.1)
        },
        StreamActionView::Done => (Seq::empty(), true),
        _ => (Seq::empty(), false),
    }
}

/// A piece going out: the first as an edit of the placeholder, the others as messages.
pub open spec fn going_out(i: int, text: Seq<char>, html: bool) -> StreamActionView {
    if i == 0 {
        StreamActionView::Edit { text, html }
    } else {
        StreamActionView::Send { text, html }
    }
}

/// The pieces from `i` on going out, each as HTML and, where that is refused, as plain
/// text.
pub open spec fn all_going_out(
    pieces: Seq<Seq<char>>,
    i: int,
    ok: spec_fn(StreamActionView) -> bool,
) -> Seq<StreamActionView>
    decreases pieces.len() - i,
{
    if i >= pieces.len() {
        Seq::empty()
    } else {
        let html = going_out(i, pieces[i], true);
        let rest = all_going_out(pieces, i + 1, ok);
        if ok(html) {
            seq![html] + rest
        } else {
            seq![html, going_out(i, pieces[i], false)] + rest
        }
    }
}

proof fn lemma_pieces_go_out(
    run: StreamRunView,
    ok: spec_fn(StreamActionView) -> bool,
    fuel: nat,
)
    requires
        0 <= run.next < run.pieces.len(),
        run.next == 0 ==> run.phase is EditingHtml,
        run.next > 0 ==> run.phase is SendingHtml,
        fuel >= 2 * (run.pieces.len() - run.next),
    ensures
        shown(run, going_out(run.next, run.pieces[run.next], true), ok, fuel) == (
            all_going_out(run.pieces, run.next, ok),
            true,
        ),
    decreases run.pieces.len() - run.next,
{
    let i = run.next;
    let html = going_out(i, run.pieces[i], true);
    let plain = going_out(i, run.pieces[i], false);
    reveal_with_fuel(shown, 3);
    reveal_with_fuel(all_going_out, 2);
    let last = i + 1 == run.pieces.len();
    if ok(html) {
        let next = run.on(StreamEvent::Did);
        if !last {
            lemma_pieces_go_out(next.0, ok, (fuel - 1) as nat);
        }
    } else {
        let refused = run.on(StreamEvent::Failed);
        let next = if ok(plain) {
            refused.0.on(StreamEvent::Did)
        } else {
            refused.0.on(StreamEvent::Failed)
        };
        assert(refused.1 == plain);
        if !last {
            lemma_pieces_go_out(next.0, ok, (fuel - 2) as nat);
        }
        let rest = shown(next.0, next.1, ok, (fuel - 2) as nat).0;
        assert(seq![html] + (seq![plain] + rest) =~= seq![html, plain] + rest);
    }
}

/// Once the answer has come in and is not blank, all of it goes out before the run is
/// done: its pieces are the answer, the placeholder becomes the first, each other one is
/// sent as a message, in their order, and one that is refused as HTML is tried as plain
/// text, whatever the chat accepts.
pub proof fn law_every_piece_goes_out(
    run: StreamRunView,
    event: StreamEvent,
    ok: spec_fn(StreamActionView) -> bool,
    fuel: nat,
) -> (pieces: Seq<Seq<char>>)
    requires
        run.phase is Reading,
        !(event is Chunk),
        trim_seq(run.content).len() > 0,
        fuel >= 2 * run.content.len(),
    ensures
        concat_all(pieces) == run.content,
        forall|i: int| 0 <= i < pieces.len() ==> 0 < (#[trigger] pieces[i]).len() <= 3900,
        shown(run.on(event).0, run.on(event).1, ok, fuel) == (
            all_going_out(pieces, 0, ok),
            true,
        ),
{
    let after = run.on(event).0;
    law_the_answer_goes_out(run);
    lemma_no_more_pieces_than_chars(after.pieces);
    lemma_pieces_go_out(after, ok, fuel);
    after.pieces
}

proof fn lemma_no_more_pieces_than_chars(pieces: Seq<Seq<char>>)
    requires
        forall|i: int| 0 <= i < pieces.len() ==> 0 < (#[trigger] pieces[i]).len(),
    ensures
        pieces.len() <= concat_all(pieces).len(),
    decreases pieces.len(),
{
    if pieces.len() > 0 {
        assert forall|i: int| 0 <= i < pieces.drop_last().len() implies 0 < (
        #[trigger] pieces.drop_last()[i]).len() by {
            assert(pieces.drop_last()[i] == pieces[i]);
        }
        lemma_no_more_pieces_than_chars(pieces.drop_last());
        assert(0 < pieces[pieces.len() - 1].len());
    }
}

/// While pieces are left, the next one goes out after the one at hand, be it accepted as
/// HTML or tried as plain text.
pub proof fn law_the_next_piece_follows(run: StreamRunView, outcome: StreamEvent)
    requires
        0 <= run.next,
        run.next + 1 < run.pieces.len(),
    ensures
        (run.phase is EditingHtml || run.phase is SendingHtml) && !(outcome is Failed)
            ==> run.on(outcome).1 == (StreamActionView::Send {
            text: run.pieces[run.next + 1],
            html: true,
        }),
        (run.phase is EditingPlain || run.phase is SendingPlain) ==> run.on(outcome).1 == (
        StreamActionView::Send { text: run.pieces[run.next + 1], html: true }),
{
}

/// A run after these chunks, each with whether the placeholder is overdue; every edit of
/// the placeholder in between may succeed or fail.
pub open spec fn after_chunks(
    run: StreamRunView,
    chunks: Seq<(StreamChunk, bool)>,
    edited: spec_fn(int) -> bool,
) -> StreamRunView
    decreases chunks.len(),
{
    if chunks.len() == 0 {
        run
    } else {
        let before = after_chunks(run, chunks.drop_last(), edited);
        let (chunk, overdue) = chunks.last();
        let next = before.on(StreamEvent::Chunk { chunk, overdue });
        if next.1 is Edit {
            if edited(chunks.len() as int) {
                next.0.on(StreamEvent::Did).0
            } else {
                next.0.on(StreamEvent::Failed).0
            }
        } else {
            next.0
        }
    }
}

/// The texts of the chunks, one after the other: of each the text of its first choice.
pub open spec fn streamed(chunks: Seq<(StreamChunk, bool)>) -> Seq<char>
    decreases chunks.len(),
{
    if chunks.len() == 0 {
        Seq::empty()
    } else {
        let c = chunks.last().0;
        streamed(chunks.drop_last()) + (if c.choices@.len() > 0 && c.choices@[0].delta.content
            is Some {
            c.choices@[0].delta.content->0@
        } else {
            Seq::empty()
        })
    }
}

/// The answer is what the chunks said, all of it and in order, however often the
/// placeholder was edited in between and whatever became of the edits.
pub proof fn law_the_answer_is_what_was_streamed(
    run: StreamRunView,
    chunks: Seq<(StreamChunk, bool)>,
    edited: spec_fn(int) -> bool,
)
    requires
        run.phase is Reading,
    ensures
        after_chunks(run, chunks, edited).phase is Reading,
        after_chunks(run, chunks, edited).content == run.content + streamed(chunks),
    decreases chunks.len(),
{
    if chunks.len() == 0 {
        assert(run.content + streamed(chunks) =~= run.content);
    } else {
        law_the_answer_is_what_was_streamed(run, chunks.drop_last(), edited);
        let before = after_chunks(run, chunks.drop_last(), edited);
        let (chunk, overdue) = chunks.last();
        assert(after_chunks(run, chunks, edited).content =~= before.content + (streamed(
            chunks,
        ).skip(streamed(chunks.drop_last()).len() as int)));
        assert(after_chunks(run, chunks, edited).content =~= run.content + streamed(chunks));
    }
}

/// An answer from the command to the last message: the placeholder is sent, the stream is
/// opened, the chunks are read, and then the whole of what they said goes out.
pub proof fn law_a_streamed_answer_arrives(
    chunks: Seq<(StreamChunk, bool)>,
    edited: spec_fn(int) -> bool,
    last: StreamEvent,
    ok: spec_fn(StreamActionView) -> bool,
    fuel: nat,
) -> (pieces: Seq<Seq<char>>)
    requires
        !(last is Chunk),
        trim_seq(streamed(chunks)).len() > 0,
        fuel >= 2 * streamed(chunks).len(),
    ensures
        ({
            let opening = fresh_stream().on(StreamEvent::Did);
            let reading = opening.0.on(StreamEvent::Did);
            let read = after_chunks(reading.0, chunks, edited);
            let finished = read.on(last);
            &&& opening.1 == StreamActionView::Open
            &&& reading.1 == StreamActionView::Read
            &&& concat_all(pieces) == streamed(chunks)
            &&& shown(finished.0, finished.1, ok, fuel) == (all_going_out(pieces, 0, ok), true)
        }),
{
    let reading = fresh_stream().on(StreamEvent::Did).0.on(StreamEvent::Did).0;
    law_the_answer_is_what_was_streamed(reading, chunks, edited);
    let read = after_chunks(reading, chunks, edited);
    assert(read.content =~= streamed(chunks));
    law_every_piece_goes_out(read, last, ok, fuel)
}

/// A blank answer is said to be blank, and then the run is done.
pub proof fn law_a_blank_answer_is_owned_up_to(
    run: StreamRunView,
    event: StreamEvent,
    outcome: StreamEvent,
)
    requires
        run.phase is Reading,
        !(event is Chunk),
        trim_seq(run.content).len() == 0,
    ensures
        run.on(event).1 == (StreamActionView::Edit {
            text: "Модель выдала пустой ответ. Попробуй еще раз."@,
            html: false,
        }),
        run.on(event).0.on(outcome).1 == StreamActionView::Done,
{
}

/// A stream that cannot be opened is tried three times in all, with pauses of half a
/// second and of a second, and then the chat is told.
pub proof fn law_opening_is_tried_three_times(waited: StreamEvent, told: StreamEvent)
    ensures
        ({
            let r1 = fresh_stream().on(StreamEvent::Did);
            let r2 = r1.0.on(StreamEvent::Failed);
            let r3 = r2.0.on(waited);
            let r4 = r3.0.on(StreamEvent::Failed);
            let r5 = r4.0.on(waited);
            let r6 = r5.0.on(StreamEvent::Failed);
            &&& r1.1 == StreamActionView::Open
            &&& r2.1 == StreamActionView::Sleep(500)
            &&& r3.1 == StreamActionView::Open
            &&& r4.1 == StreamActionView::Sleep(1000)
            &&& r5.1 == StreamActionView::Open
            &&& r6.1 == (StreamActionView::Edit {
                text: "Сервера модели перегружены или недоступны. Попробуй немного позже."@,
                html: false,
            })
            &&& r6.0.on(told).1 == (if told is Failed {
                StreamActionView::Fail
            } else {
                StreamActionView::Done
            })
        }),
{
}

/// What the placeholder shows while the answer comes in ends with the end of what has
/// come in: all of it, or its last 3800 characters.
pub proof fn law_preview_shows_the_end(content: Seq<char>)
    requires
        content.len() > 0,
    ensures
        ({
            let n = if content.len() < 3800 {
                content.len() as int
            } else {
                3800
            };
            let s = status_text(content);
            &&& s.len() >= n
            &&& s.skip(s.len() - n) == content.skip(content.len() - n)
            &&& s.take(s.len() - n) == "✍️ Пишу ответ...\n\n"@
        }),
{
    let n = if content.len() < 3800 {
        content.len() as int
    } else {
        3800
    };
    let s = status_text(content);
    assert(s.skip(s.len() - n) =~= content.skip(content.len() - n));
    assert(s.take(s.len() - n) =~= "✍️ Пишу ответ...\n\n"@);
}

/// The pause before another attempt begins at half a second and doubles each time.
pub proof fn law_pauses_double(attempt: u32)
    requires
        attempt < 3,
    ensures
        open_delay(0) == 500,
        open_delay((attempt + 1) as u32) == 2 * open_delay(attempt),
{
}

} // verus!
