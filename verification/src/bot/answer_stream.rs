//! Streaming a model's answer into a chat.
//!
//! A placeholder message is sent first and edited while the answer comes in. In the
//! end it becomes the first piece of the answer; the other pieces follow as
//! messages of their own. Each piece goes out as HTML, and as plain text where that
//! is refused.
use vstd::prelude::*;

use crate::bot::chunks::{chunk_message, chunks, law_chunks_are_the_text, law_chunks_fit};
use crate::error::joined;
use crate::llm::client::StreamChunk;
use crate::text::{concat_all, is_blank, last_chars, take_last_chars, trim_seq};

verus! {

/// The placeholder.
pub const WAIT_TEXT: &'static str = "⏳ Генерирую ответ...";
/// What the placeholder becomes while nothing has come in yet.
pub const THINKING_TEXT: &'static str = "⏳ Думаю...";
/// What stands before the part of the answer that has come in.
pub const WRITING_TEXT: &'static str = "✍️ Пишу ответ...\n\n";
/// What the placeholder becomes where no stream could be opened.
pub const UNAVAILABLE_TEXT: &'static str =
    "Сервера модели перегружены или недоступны. Попробуй немного позже.";
/// What the placeholder becomes where the answer is blank.
pub const EMPTY_TEXT: &'static str = "Модель выдала пустой ответ. Попробуй еще раз.";
/// How many times opening the stream is tried.
pub const MAX_ATTEMPTS: u32 = 3;
/// How many tokens an answer may take.
pub const STREAM_MAX_TOKENS: u32 = 30000;
/// How long the placeholder is left alone between two edits, in milliseconds.
pub const UPDATE_INTERVAL_MS: u64 = 1500;
/// How much of the answer the placeholder shows, in characters.
pub const PREVIEW_CHARS: usize = 3800;
/// The longest piece of an answer, in characters.
pub const ANSWER_CHUNK: usize = 3900;

/// What the stream waits for.
#[derive(Clone, Copy, Debug, PartialEq, Eq, Structural)]
pub enum StreamPhase {
    /// The placeholder being sent.
    Placing,
    /// The stream being opened.
    Opening,
    /// The pause before the next attempt.
    Pausing,
    /// The edit that says that the model is unavailable.
    GivingUp,
    /// The next chunk.
    Reading,
    /// An edit of the placeholder.
    Updating,
    /// The edit that says that the answer is blank.
    Emptying,
    /// The placeholder becoming the first piece, as HTML.
    EditingHtml,
    /// The placeholder becoming the first piece, as plain text.
    EditingPlain,
    /// A further piece being sent, as HTML.
    SendingHtml,
    /// A further piece being sent, as plain text.
    SendingPlain,
    /// Nothing any more.
    Ended,
}

/// A stream between two of its steps.
pub struct StreamRun {
    pub phase: StreamPhase,
    pub attempt: u32,
    pub content: String,
    pub pieces: Vec<String>,
    pub next: usize,
}

/// The same as a mathematical value.
#[verifier::ext_equal]
pub struct StreamRunView {
    pub phase: StreamPhase,
    pub attempt: u32,
    pub content: Seq<char>,
    pub pieces: Seq<Seq<char>>,
    pub next: int,
}

/// What happened since the last step.
pub enum StreamEvent {
    /// What was asked for is done.
    Did,
    /// What was asked for failed, or the stream broke.
    Failed,
    /// A chunk came; `overdue` where the placeholder has been left alone for longer
    /// than the interval.
    Chunk { chunk: StreamChunk, overdue: bool },
    /// The stream is over.
    Over,
}

/// What a chunk adds to the answer, where it has a choice: the text of its first.
pub open spec fn chunk_text(c: StreamChunk) -> Option<Seq<char>> {
    if c.choices@.len() == 0 {
        None
    } else {
        Some(
            match c.choices@[0].delta.content {
                Some(t) => t@,
                None => Seq::empty(),
            },
        )
    }
}

/// What the stream asks for next.
pub enum StreamAction {
    /// Send a message as an answer to the command.
    Place(String),
    /// Open the stream.
    Open,
    /// Wait.
    Sleep(u64),
    /// Wait for the next chunk.
    Read,
    /// Edit the placeholder, plain or as HTML.
    Edit { text: String, html: bool },
    /// Send a further message, plain or as HTML.
    Send { text: String, html: bool },
    /// The answer has gone out.
    Done,
    /// Give up with the error that the last action gave.
    Fail,
}

/// The same as a mathematical value.
#[verifier::ext_equal]
pub enum StreamActionView {
    Place(Seq<char>),
    Open,
    Sleep(u64),
    Read,
    Edit { text: Seq<char>, html: bool },
    Send { text: Seq<char>, html: bool },
    Done,
    Fail,
}

impl DeepView for StreamRun {
    type V = StreamRunView;

    open spec fn deep_view(&self) -> StreamRunView {
        StreamRunView {
            phase: self.phase,
            attempt: self.attempt,
            content: self.content@,
            pieces: self.pieces.deep_view(),
            next: self.next as int,
        }
    }
}

impl DeepView for StreamAction {
    type V = StreamActionView;

    open spec fn deep_view(&self) -> StreamActionView {
        match self {
            StreamAction::Place(t) => StreamActionView::Place(t@),
            StreamAction::Open => StreamActionView::Open,
            StreamAction::Sleep(ms) => StreamActionView::Sleep(*ms),
            StreamAction::Read => StreamActionView::Read,
            StreamAction::Edit { text, html } => StreamActionView::Edit { text: text@, html: *html },
            StreamAction::Send { text, html } => StreamActionView::Send { text: text@, html: *html },
            StreamAction::Done => StreamActionView::Done,
            StreamAction::Fail => StreamActionView::Fail,
        }
    }
}

/// What the placeholder shows while the answer comes in.
pub open spec fn status_text(content: Seq<char>) -> Seq<char> {
    if content.len() == 0 {
        THINKING_TEXT@
    } else {
        WRITING_TEXT@ + last_chars(content, PREVIEW_CHARS as int)
    }
}

/// The pause after attempt `attempt`: half a second, doubled each time.
pub open spec fn open_delay(attempt: u32) -> u64 {
    if attempt == 0 {
        500
    } else if attempt == 1 {
        1000
    } else if attempt == 2 {
        2000
    } else {
        4000
    }
}

impl StreamRunView {
    /// Attempts are counted, and what goes out next is one of the pieces.
    pub open spec fn wf(self) -> bool {
        &&& self.attempt < MAX_ATTEMPTS
        &&& (self.phase is EditingHtml || self.phase is EditingPlain || self.phase is SendingHtml
            || self.phase is SendingPlain) ==> 0 <= self.next < self.pieces.len()
    }

    /// Goes to a phase.
    pub open spec fn to(self, phase: StreamPhase) -> StreamRunView {
        StreamRunView { phase, ..self }
    }

    /// Goes on once the answer has come in.
    pub open spec fn finish(self) -> (StreamRunView, StreamActionView) {
        if trim_seq(self.content).len() == 0 {
            (
                self.to(StreamPhase::Emptying),
                StreamActionView::Edit { text: EMPTY_TEXT@, html: false },
            )
        } else {
            let pieces = chunks(self.content, ANSWER_CHUNK);
            (
                StreamRunView { phase: StreamPhase::EditingHtml, pieces, next: 0, ..self },
                StreamActionView::Edit { text: pieces[0], html: true },
            )
        }
    }

    /// Goes on with the next piece.
    pub open spec fn next_piece(self) -> (StreamRunView, StreamActionView) {
        if self.next + 1 < self.pieces.len() {
            (
                StreamRunView { phase: StreamPhase::SendingHtml, next: self.next + 1, ..self },
                StreamActionView::Send { text: self.pieces[self.next + 1], html: true },
            )
        } else {
            (self.to(StreamPhase::Ended), StreamActionView::Done)
        }
    }

    /// What an event leads to.
    pub open spec fn on(self, event: StreamEvent) -> (StreamRunView, StreamActionView) {
        match self.phase {
            StreamPhase::Placing => if event is Failed {
                (self.to(StreamPhase::Ended), StreamActionView::Fail)
            } else {
                (self.to(StreamPhase::Opening), StreamActionView::Open)
            },
            StreamPhase::Opening => if !(event is Failed) {
                (self.to(StreamPhase::Reading), StreamActionView::Read)
            } else if self.attempt + 1 < MAX_ATTEMPTS {
                (
                    StreamRunView {
                        phase: StreamPhase::Pausing,
                        attempt: (self.attempt + 1) as u32,
                        ..self
                    },
                    StreamActionView::Sleep(open_delay(self.attempt)),
                )
            } else {
                (
                    self.to(StreamPhase::GivingUp),
                    StreamActionView::Edit { text: UNAVAILABLE_TEXT@, html: false },
                )
            },
            StreamPhase::Pausing => (self.to(StreamPhase::Opening), StreamActionView::Open),
            StreamPhase::GivingUp => if event is Failed {
                (self.to(StreamPhase::Ended), StreamActionView::Fail)
            } else {
                (self.to(StreamPhase::Ended), StreamActionView::Done)
            },
            StreamPhase::Reading => match event {
                StreamEvent::Chunk { chunk, overdue } => match chunk_text(chunk) {
                    None => (self, StreamActionView::Read),
                    Some(t) => {
                        let grown = StreamRunView { content: self.content + t, ..self };
                        if overdue {
                            (
                                grown.to(StreamPhase::Updating),
                                StreamActionView::Edit {
                                    text: status_text(grown.content),
                                    html: false,
                                },
                            )
                        } else {
                            (grown, StreamActionView::Read)
                        }
                    },
                },
                _ => self.finish(),
            },
            StreamPhase::Updating => (self.to(StreamPhase::Reading), StreamActionView::Read),
            StreamPhase::Emptying => (self.to(StreamPhase::Ended), StreamActionView::Done),
            StreamPhase::EditingHtml => if event is Failed {
                (
                    self.to(StreamPhase::EditingPlain),
                    StreamActionView::Edit { text: self.pieces[self.next], html: false },
                )
            } else {
                self.next_piece()
            },
            StreamPhase::EditingPlain => self.next_piece(),
            StreamPhase::SendingHtml => if event is Failed {
                (
                    self.to(StreamPhase::SendingPlain),
                    StreamActionView::Send { text: self.pieces[self.next], html: false },
                )
            } else {
                self.next_piece()
            },
            StreamPhase::SendingPlain => self.next_piece(),
            StreamPhase::Ended => (self, StreamActionView::Done),
        }
    }
}

fn delay_after(attempt: u32) -> (r: u64)
    ensures
        r == open_delay(attempt),
{
    if attempt == 0 {
        500
    } else if attempt == 1 {
        1000
    } else if attempt == 2 {
        2000
    } else {
        4000
    }
}

/// A stream before its first step.
pub open spec fn fresh_stream() -> StreamRunView {
    StreamRunView {
        phase: StreamPhase::Placing,
        attempt: 0,
        content: Seq::empty(),
        pieces: Seq::empty(),
        next: 0,
    }
}

/// Starts streaming an answer: the placeholder is sent.
pub fn stream_to_chat() -> (r: (StreamRun, StreamAction))
    ensures
        r.0.deep_view() == fresh_stream(),
        r.0.deep_view().wf(),
        r.1.deep_view() == StreamActionView::Place(WAIT_TEXT@),
{
    let content = String::new();
    let pieces: Vec<String> = Vec::new();
    assert(content@ =~= Seq::<char>::empty());
    assert(pieces.deep_view() =~= Seq::<Seq<char>>::empty());
    let run = StreamRun { phase: StreamPhase::Placing, attempt: 0, content, pieces, next: 0 };
    (run, StreamAction::Place(WAIT_TEXT.to_owned()))
}

impl StreamRun {
    fn finish(&mut self) -> (r: StreamAction)
        requires
            old(self).deep_view().wf(),
        ensures
            (final(self).deep_view(), r.deep_view()) == old(self).deep_view().finish(),
            final(self).deep_view().wf(),
    {
        if is_blank(self.content.as_str()) {
            self.phase = StreamPhase::Emptying;
            assert(self.deep_view() =~= old(self).deep_view().finish().0);
            return StreamAction::Edit { text: EMPTY_TEXT.to_owned(), html: false };
        }
        let pieces = chunk_message(self.content.as_str(), ANSWER_CHUNK);
        proof {
            lemma_some_piece(self.content@);
            assert(pieces.deep_view()[0] == pieces@[0]@);
        }
        let first = pieces[0].clone();
        self.pieces = pieces;
        self.next = 0;
        self.phase = StreamPhase::EditingHtml;
        assert(self.deep_view() =~= old(self).deep_view().finish().0);
        StreamAction::Edit { text: first, html: true }
    }

    fn next_piece(&mut self) -> (r: StreamAction)
        requires
            old(self).deep_view().wf(),
            old(self).next < old(self).pieces.len(),
        ensures
            (final(self).deep_view(), r.deep_view()) == old(self).deep_view().next_piece(),
            final(self).deep_view().wf(),
    {
        if self.next + 1 < self.pieces.len() {
            self.next = self.next + 1;
            self.phase = StreamPhase::SendingHtml;
            assert(self.deep_view().pieces[self.next as int]
                == self.pieces@[self.next as int]@);
            assert(self.deep_view() =~= old(self).deep_view().next_piece().0);
            return StreamAction::Send { text: self.pieces[self.next].clone(), html: true };
        }
        self.phase = StreamPhase::Ended;
        assert(self.deep_view() =~= old(self).deep_view().next_piece().0);
        StreamAction::Done
    }

    fn read(&mut self, chunk: &StreamChunk, overdue: bool) -> (r: StreamAction)
        requires
            old(self).deep_view().wf(),
            old(self).phase is Reading,
        ensures
            (final(self).deep_view(), r.deep_view()) == old(self).deep_view().on(
                (StreamEvent::Chunk { chunk: *chunk, overdue }),
            ),
            final(self).deep_view().wf(),
    {
        if chunk.choices.len() == 0 {
            return StreamAction::Read;
        }
        if let Some(t) = &chunk.choices[0].delta.content {
            let grown = joined(self.content.as_str(), t.as_str());
            self.content = grown;
        } else {
            assert(self.content@ + Seq::<char>::empty() =~= self.content@);
        }
        if !overdue {
            assert(self.deep_view() =~= old(self).deep_view().on(
                (StreamEvent::Chunk { chunk: *chunk, overdue }),
            ).0);
            return StreamAction::Read;
        }
        let text = if self.content.as_str().is_empty() {
            THINKING_TEXT.to_owned()
        } else {
            let shown = take_last_chars(self.content.as_str(), PREVIEW_CHARS);
            joined(WRITING_TEXT, shown.as_str())
        };
        self.phase = StreamPhase::Updating;
        assert(self.deep_view() =~= old(self).deep_view().on(
            (StreamEvent::Chunk { chunk: *chunk, overdue }),
        ).0);
        StreamAction::Edit { text, html: false }
    }

    /// Takes in what happened and says what to do next.
    pub fn advance(&mut self, event: &StreamEvent) -> (r: StreamAction)
        requires
            old(self).deep_view().wf(),
        ensures
            (final(self).deep_view(), r.deep_view()) == old(self).deep_view().on(*event),
            final(self).deep_view().wf(),
    {
        let failed = match event {
            StreamEvent::Failed => true,
            _ => false,
        };
        let ghost v = self.deep_view();
        match self.phase {
            StreamPhase::Placing => {
                if failed {
                    self.phase = StreamPhase::Ended;
                    assert(self.deep_view() =~= v.to(StreamPhase::Ended));
                    StreamAction::Fail
                } else {
                    self.phase = StreamPhase::Opening;
                    assert(self.deep_view() =~= v.to(StreamPhase::Opening));
                    StreamAction::Open
                }
            },
            StreamPhase::Opening => {
                if !failed {
                    self.phase = StreamPhase::Reading;
                    assert(self.deep_view() =~= v.to(StreamPhase::Reading));
                    StreamAction::Read
                } else if self.attempt + 1 < MAX_ATTEMPTS {
                    let delay = delay_after(self.attempt);
                    self.attempt = self.attempt + 1;
                    self.phase = StreamPhase::Pausing;
                    assert(self.deep_view() =~= v.on(*event).0);
                    StreamAction::Sleep(delay)
                } else {
                    self.phase = StreamPhase::GivingUp;
                    assert(self.deep_view() =~= v.to(StreamPhase::GivingUp));
                    StreamAction::Edit { text: UNAVAILABLE_TEXT.to_owned(), html: false }
                }
            },
            StreamPhase::Pausing => {
                self.phase = StreamPhase::Opening;
                assert(self.deep_view() =~= v.to(StreamPhase::Opening));
                StreamAction::Open
            },
            StreamPhase::GivingUp => {
                self.phase = StreamPhase::Ended;
                assert(self.deep_view() =~= v.to(StreamPhase::Ended));
                if failed {
                    StreamAction::Fail
                } else {
                    StreamAction::Done
                }
            },
            StreamPhase::Reading => match event {
                StreamEvent::Chunk { chunk, overdue } => self.read(chunk, *overdue),
                _ => self.finish(),
            },
            StreamPhase::Updating => {
                self.phase = StreamPhase::Reading;
                assert(self.deep_view() =~= v.to(StreamPhase::Reading));
                StreamAction::Read
            },
            StreamPhase::Emptying => {
                self.phase = StreamPhase::Ended;
                assert(self.deep_view() =~= v.to(StreamPhase::Ended));
                StreamAction::Done
            },
            StreamPhase::EditingHtml => {
                if !failed {
                    return self.next_piece();
                }
                self.phase = StreamPhase::EditingPlain;
                assert(self.deep_view() =~= v.to(StreamPhase::EditingPlain));
                assert(v.pieces[self.next as int] == self.pieces@[self.next as int]@);
                StreamAction::Edit { text: self.pieces[self.next].clone(), html: false }
            },
            StreamPhase::SendingHtml => {
                if !failed {
                    return self.next_piece();
                }
                self.phase = StreamPhase::SendingPlain;
                assert(self.deep_view() =~= v.to(StreamPhase::SendingPlain));
                assert(v.pieces[self.next as int] == self.pieces@[self.next as int]@);
                StreamAction::Send { text: self.pieces[self.next].clone(), html: false }
            },
            StreamPhase::EditingPlain => self.next_piece(),
            StreamPhase::SendingPlain => self.next_piece(),
            StreamPhase::Ended => StreamAction::Done,
        }
    }
}

proof fn lemma_some_piece(content: Seq<char>)
    requires
        trim_seq(content).len() > 0,
    ensures
        chunks(content, ANSWER_CHUNK).len() > 0,
{
    law_chunks_are_the_text(content, ANSWER_CHUNK);
    if chunks(content, ANSWER_CHUNK).len() == 0 {
        assert(content =~= Seq::<char>::empty());
    }
}

/// Once the answer has come in and is not blank, the pieces that go out are the
/// answer, whole and in order, and each fits in a message.
pub proof fn law_the_answer_goes_out(run: StreamRunView)
    requires
        trim_seq(run.content).len() > 0,
    ensures
        ({
            let (after, action) = run.finish();
            &&& concat_all(after.pieces) == run.content
            &&& after.pieces.len() > 0
            &&& forall|i: int|
                0 <= i < after.pieces.len() ==> 0 < (#[trigger] after.pieces[i]).len()
                    <= ANSWER_CHUNK
            &&& action == (StreamActionView::Edit { text: after.pieces[0], html: true })
        }),
{
    lemma_some_piece(run.content);
    law_chunks_are_the_text(run.content, ANSWER_CHUNK);
    if run.content.len() == 0 {
        assert(trim_seq(run.content) =~= run.content);
    }
    law_chunks_fit(run.content, ANSWER_CHUNK);
}

/// Opening is tried at most three times: the third failure gives up.
pub proof fn law_opening_gives_up(run: StreamRunView)
    requires
        run.wf(),
        run.phase is Opening,
    ensures
        run.on(StreamEvent::Failed).1 is Sleep <==> run.attempt < 2,
        run.on(StreamEvent::Failed).0.attempt == (if run.attempt < 2 {
            run.attempt + 1
        } else {
            run.attempt as int
        }),
{
}

/// A piece that is refused as HTML goes out as plain text, and the pieces behind it
/// are not held up by it.
pub proof fn law_refused_html_goes_out_plain(run: StreamRunView)
    requires
        run.wf(),
        run.phase is EditingHtml || run.phase is SendingHtml,
    ensures
        ({
            let (plain, action) = run.on(StreamEvent::Failed);
            let text = run.pieces[run.next];
            &&& run.phase is EditingHtml ==> action == (StreamActionView::Edit {
                text,
                html: false,
            })
            &&& run.phase is SendingHtml ==> action == (StreamActionView::Send {
                text,
                html: false,
            })
            &&& plain.on(StreamEvent::Failed) == run.next_piece()
            &&& plain.on(StreamEvent::Did) == run.next_piece()
        }),
{
}

} // verus!
