//! Describing media: what is asked of the vision model and what is made of its
//! answer.
use vstd::prelude::*;

use crate::encoding::{base64_encode, base64_seq};
use crate::error::{Error, ErrorView};
use crate::llm::client::{
    ContentBlock, ContentBlockView, ImageUrl, InputAudio, Message, MessageContentView, MessageView,
};
use crate::llm::prompts::vision::{IMAGE_PROMPT, VOICE_PROMPT};
use crate::text::{ellipsize, ellipsized, push_text, trim, trim_seq};

verus! {

/// The longest description that is kept whole, in characters.
pub const DESC_MAX_CHARS: usize = 800;
/// How many tokens a description may take.
pub const VISION_MAX_TOKENS: u32 = 300;

/// What a model answered: its text, or why there is none.
pub enum Answer {
    Text(String),
    Failed(Error),
}

/// An answer as a mathematical value.
#[verifier::ext_equal]
pub enum AnswerView {
    Text(Seq<char>),
    Failed(ErrorView),
}

impl DeepView for Answer {
    type V = AnswerView;

    open spec fn deep_view(&self) -> AnswerView {
        match self {
            Answer::Text(t) => AnswerView::Text(t@),
            Answer::Failed(e) => AnswerView::Failed(e.deep_view()),
        }
    }
}

/// A description as it is kept.
pub open spec fn kept_desc(s: Seq<char>) -> Seq<char> {
    ellipsized(trim_seq(s), DESC_MAX_CHARS as int)
}

/// A description as it is kept: trimmed and cut.
pub fn trim_desc(s: &str) -> (r: String)
    ensures
        r@ == kept_desc(s@),
{
    ellipsize(trim(s).as_str(), DESC_MAX_CHARS)
}

/// A message of one text and one other block.
pub open spec fn with_text(text: Seq<char>, block: ContentBlockView) -> MessageView {
    MessageView {
        role: "user"@,
        content: MessageContentView::Multipart(seq![ContentBlockView::Text { text }, block]),
    }
}

fn multipart(text: &str, block: ContentBlock) -> (r: Message)
    ensures
        r.deep_view() == with_text(text@, block.deep_view()),
{
    let mut blocks: Vec<ContentBlock> = Vec::new();
    blocks.push(ContentBlock::Text { text: text.to_owned() });
    blocks.push(block);
    assert(blocks.deep_view() =~= seq![
        ContentBlockView::Text { text: text@ },
        block.deep_view(),
    ]);
    Message::user_multipart(blocks)
}

/// The message that shows a picture to a model.
pub fn image_message(bytes: &[u8], mime: &str) -> (r: Message)
    requires
        bytes@.len() <= usize::MAX / 4,
    ensures
        r.deep_view() == with_text(
            IMAGE_PROMPT@,
            ContentBlockView::ImageUrl {
                url: "data:"@ + mime@ + ";base64,"@ + base64_seq(bytes@),
            },
        ),
{
    let mut url = "data:".to_owned();
    url.append(mime);
    url.append(";base64,");
    let data = base64_encode(bytes);
    url.append(data.as_str());
    multipart(IMAGE_PROMPT, ContentBlock::ImageUrl { image_url: ImageUrl { url } })
}

/// The message that plays a voice message to a model.
pub fn voice_message(bytes: &[u8]) -> (r: Message)
    requires
        bytes@.len() <= usize::MAX / 4,
    ensures
        r.deep_view() == with_text(
            VOICE_PROMPT@,
            ContentBlockView::InputAudio { data: base64_seq(bytes@), format: "ogg"@ },
        ),
{
    let data = base64_encode(bytes);
    multipart(
        VOICE_PROMPT,
        ContentBlock::InputAudio { input_audio: InputAudio { data, format: "ogg".to_owned() } },
    )
}

/// The models to try, in order.
pub open spec fn model_order(primary: Seq<char>, fallbacks: Seq<Seq<char>>) -> Seq<Seq<char>> {
    seq![primary] + fallbacks
}

/// The models to try: the primary one, then the fallbacks.
pub fn models_to_try(primary: &str, fallbacks: &Vec<String>) -> (r: Vec<String>)
    ensures
        r.deep_view() == model_order(primary@, fallbacks.deep_view()),
{
    let mut v: Vec<String> = Vec::new();
    v.push(primary.to_owned());
    let ghost all = fallbacks.deep_view();
    assert(v.deep_view() =~= seq![primary@] + all.take(0));
    for i in 0..fallbacks.len()
        invariant
            all == fallbacks.deep_view(),
            v.deep_view() == seq![primary@] + all.take(i as int),
    {
        push_text(&mut v, fallbacks[i].as_str());
        assert(v.deep_view() =~= seq![primary@] + all.take(i + 1));
    }
    assert(all.take(fallbacks@.len() as int) =~= all);
    v
}

/// What describing does next.
pub enum DescribeStep {
    /// Ask this model.
    Ask(String),
    /// This is the description.
    Done(String),
    /// There is no description.
    Fail(Error),
}

/// A step as a mathematical value.
#[verifier::ext_equal]
pub enum DescribeStepView {
    Ask(Seq<char>),
    Done(Seq<char>),
    Fail(ErrorView),
}

impl DeepView for DescribeStep {
    type V = DescribeStepView;

    open spec fn deep_view(&self) -> DescribeStepView {
        match self {
            DescribeStep::Ask(m) => DescribeStepView::Ask(m@),
            DescribeStep::Done(d) => DescribeStepView::Done(d@),
            DescribeStep::Fail(e) => DescribeStepView::Fail(e.deep_view()),
        }
    }
}

/// The next step, once the first `tried` models have been asked and `last` is what
/// the latest of them answered.
pub open spec fn describe_next(
    models: Seq<Seq<char>>,
    tried: int,
    last: Option<AnswerView>,
) -> DescribeStepView {
    match last {
        Some(AnswerView::Text(t)) if kept_desc(t).len() > 0 => DescribeStepView::Done(
            kept_desc(t),
        ),
        _ => if 0 <= tried < models.len() {
            DescribeStepView::Ask(models[tried])
        } else {
            DescribeStepView::Fail(
                match last {
                    None => ErrorView::OpenRouter("no vision models configured"@),
                    Some(AnswerView::Text(_)) => ErrorView::OpenRouter("empty content"@),
                    Some(AnswerView::Failed(e)) => e,
                },
            )
        },
    }
}

/// Describes a picture: asks one model after the other until one of them gives a
/// description that is not blank. Where none does, the error is that of the last.
pub fn describe_image(models: &Vec<String>, tried: usize, last: Option<Answer>) -> (r: DescribeStep)
    ensures
        r.deep_view() == describe_next(models.deep_view(), tried as int, last.deep_view()),
{
    if let Some(Answer::Text(t)) = &last {
        let desc = trim_desc(t.as_str());
        if !desc.as_str().is_empty() {
            return DescribeStep::Done(desc);
        }
    }
    if tried < models.len() {
        assert(models.deep_view()[tried as int] == models@[tried as int]@);
        return DescribeStep::Ask(models[tried].clone());
    }
    DescribeStep::Fail(
        match last {
            None => Error::OpenRouter("no vision models configured".to_owned()),
            Some(Answer::Text(_)) => Error::OpenRouter("empty content".to_owned()),
            Some(Answer::Failed(e)) => e,
        },
    )
}

/// What is made of the model's answer to a voice message.
pub open spec fn transcribed(a: AnswerView) -> Result<Seq<char>, ErrorView> {
    match a {
        AnswerView::Failed(e) => Err(e),
        AnswerView::Text(t) => if kept_desc(t).len() > 0 {
            Ok(kept_desc(t))
        } else {
            Err(ErrorView::OpenRouter("voice transcription empty"@))
        },
    }
}

/// Transcribes a voice message from the model's answer. No other model is asked:
/// the fallbacks take pictures only.
pub fn transcribe_voice(answer: Answer) -> (r: Result<String, Error>)
    ensures
        crate::error::result_view(r) == transcribed(answer.deep_view()),
{
    match answer {
        Answer::Failed(e) => Err(e),
        Answer::Text(t) => {
            let desc = trim_desc(t.as_str());
            if desc.as_str().is_empty() {
                Err(Error::OpenRouter("voice transcription empty".to_owned()))
            } else {
                Ok(desc)
            }
        },
    }
}

/// A description is never blank and never longer than the cap and its ellipsis.
pub proof fn law_description_fits(models: Seq<Seq<char>>, tried: int, last: Option<AnswerView>)
    ensures
        describe_next(models, tried, last) matches DescribeStepView::Done(d) ==> 0 < d.len()
            <= DESC_MAX_CHARS + 1,
        last matches Some(a) ==> (transcribed(a) matches Ok(d) ==> 0 < d.len() <= DESC_MAX_CHARS
            + 1),
{
}

} // verus!
