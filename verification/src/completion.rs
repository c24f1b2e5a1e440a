//! The answer to a request that does not stream: the chunks of the stream
//! gathered into one message.

use vstd::prelude::*;
use vstd::string::StringExecFns;
use crate::chunk::{
    assistant_role, default_finish_reason, ChatCompletionStreamChunk,
    ChatCompletionStreamChunkView, Usage,
};
use crate::converter::{ResponseConverter, ResponseConverterView};
use crate::feed::text_or_empty;
use crate::tokenizer::{text_of, Tokenizer};
use crate::tool_call::ToolParser;

verus! {

/// What has been gathered from the chunks of a stream so far: the content of
/// all of them in order, and the finish reason and the usage that were seen
/// last.
pub struct CompletionAccumulator {
    pub content: String,
    pub finish_reason: Option<String>,
    pub usage: Option<Usage>,
}

pub struct CompletionAccumulatorView {
    pub content: Seq<char>,
    pub finish_reason: Option<Seq<char>>,
    pub usage: Option<Usage>,
}

impl View for CompletionAccumulator {
    type V = CompletionAccumulatorView;

    open spec fn view(&self) -> CompletionAccumulatorView {
        CompletionAccumulatorView {
            content: self.content@,
            finish_reason: text_of(self.finish_reason),
            usage: self.usage,
        }
    }
}

/// The whole answer to a request that does not stream.
pub struct ChatCompletion {
    pub id: String,
    pub object: String,
    pub created: u64,
    pub model: String,
    pub index: u32,
    pub role: String,
    pub content: String,
    pub finish_reason: String,
    pub usage: Option<Usage>,
}

pub struct ChatCompletionView {
    pub id: Seq<char>,
    pub object: Seq<char>,
    pub created: u64,
    pub model: Seq<char>,
    pub index: u32,
    pub role: Seq<char>,
    pub content: Seq<char>,
    pub finish_reason: Seq<char>,
    pub usage: Option<Usage>,
}

impl View for ChatCompletion {
    type V = ChatCompletionView;

    open spec fn view(&self) -> ChatCompletionView {
        ChatCompletionView {
            id: self.id@,
            object: self.object@,
            created: self.created,
            model: self.model@,
            index: self.index,
            role: self.role@,
            content: self.content@,
            finish_reason: self.finish_reason@,
            usage: self.usage,
        }
    }
}

/// The object tag of a whole answer.
pub open spec fn completion_object() -> Seq<char> {
    "chat.completion"@
}

/// Nothing gathered yet.
pub open spec fn nothing_gathered() -> CompletionAccumulatorView {
    CompletionAccumulatorView { content: Seq::empty(), finish_reason: None, usage: None }
}

/// What is gathered after one more chunk: its content joins the content; its
/// finish reason and its usage, where it has them, replace what was there.
pub open spec fn absorbed(
    pre: CompletionAccumulatorView,
    chunk: ChatCompletionStreamChunkView,
) -> CompletionAccumulatorView {
    CompletionAccumulatorView {
        content: pre.content + text_or_empty(chunk.choice.delta.content),
        finish_reason: if chunk.choice.finish_reason is Some {
            chunk.choice.finish_reason
        } else {
            pre.finish_reason
        },
        usage: if chunk.usage is Some {
            chunk.usage
        } else {
            pre.usage
        },
    }
}

/// What is gathered from the chunks of a stream, in order.
pub open spec fn gathered(chunks: Seq<ChatCompletionStreamChunkView>) -> CompletionAccumulatorView
    decreases chunks.len(),
{
    if chunks.len() == 0 {
        nothing_gathered()
    } else {
        absorbed(gathered(chunks.drop_last()), chunks.last())
    }
}

/// The whole answer of a converter's request for what was gathered: one
/// message of the assistant under output index zero, with the finish reason
/// seen last, or the default where none was seen.
pub open spec fn completion_of(
    converter: ResponseConverterView,
    all: CompletionAccumulatorView,
) -> ChatCompletionView {
    ChatCompletionView {
        id: converter.request_id,
        object: completion_object(),
        created: converter.created,
        model: converter.model,
        index: 0,
        role: assistant_role(),
        content: all.content,
        finish_reason: match all.finish_reason {
            Some(reason) => reason,
            None => default_finish_reason(),
        },
        usage: all.usage,
    }
}

/// The views of a list of chunks.
pub open spec fn chunks_of(chunks: Seq<ChatCompletionStreamChunk>) -> Seq<
    ChatCompletionStreamChunkView,
> {
    Seq::new(chunks.len(), |i: int| chunks[i]@)
}

impl CompletionAccumulator {
    /// Nothing gathered yet.
    pub fn new() -> (a: CompletionAccumulator)
        ensures
            a@ == nothing_gathered(),
    {
        CompletionAccumulator { content: String::new(), finish_reason: None, usage: None }
    }

    /// Takes in one more chunk of the stream.
    pub fn absorb(&mut self, chunk: &ChatCompletionStreamChunk)
        ensures
            final(self)@ == absorbed(old(self)@, chunk@),
    {
        match &chunk.choice.delta.content {
            Some(content) => {
                self.content.append(content.as_str());
            },
            None => {
                assert(self.content@ + Seq::<char>::empty() =~= self.content@);
            },
        }
        match &chunk.choice.finish_reason {
            Some(reason) => {
                self.finish_reason = Some(reason.clone());
            },
            None => {},
        }
        match chunk.usage {
            Some(usage) => {
                self.usage = Some(usage);
            },
            None => {},
        }
    }

    /// Gathers the chunks of a whole stream.
    pub fn gather(chunks: &Vec<ChatCompletionStreamChunk>) -> (a: CompletionAccumulator)
        ensures
            a@ == gathered(chunks_of(chunks@)),
    {
        let mut a = CompletionAccumulator::new();
        let mut i: usize = 0;
        while i < chunks.len()
            invariant
                i <= chunks.len(),
                a@ == gathered(chunks_of(chunks@).take(i as int)),
            decreases chunks.len() - i,
        {
            a.absorb(&chunks[i]);
            proof {
                let views = chunks_of(chunks@);
                assert(views.take(i + 1).drop_last() =~= views.take(i as int));
                assert(views.take(i + 1).last() == chunks@[i as int]@);
            }
            i += 1;
        }
        assert(chunks_of(chunks@).take(chunks.len() as int) =~= chunks_of(chunks@));
        a
    }
}

/// The whole answer of a converter's request for what was gathered from its
/// stream.
pub fn chat_completion<T: Tokenizer, P: ToolParser>(
    converter: &ResponseConverter<T, P>,
    all: CompletionAccumulator,
) -> (answer: ChatCompletion)
    ensures
        answer@ == completion_of(converter@, all@),
{
    let CompletionAccumulator { content, finish_reason, usage } = all;
    ChatCompletion {
        id: converter.request_id.clone(),
        object: "chat.completion".to_owned(),
        created: converter.created,
        model: converter.model.clone(),
        index: 0,
        role: "assistant".to_owned(),
        content,
        finish_reason: match finish_reason {
            Some(reason) => reason,
            None => "stop".to_owned(),
        },
        usage,
    }
}

/// The content gathered from a stream is the content of its chunks joined in
/// order: what one more chunk adds stands behind what was there.
pub proof fn law_content_is_joined(
    chunks: Seq<ChatCompletionStreamChunkView>,
    more: ChatCompletionStreamChunkView,
)
    ensures
        gathered(chunks.push(more)).content == gathered(chunks).content + text_or_empty(
            more.choice.delta.content,
        ),
        more.choice.finish_reason is Some ==> gathered(chunks.push(more)).finish_reason
            == more.choice.finish_reason,
        more.usage is Some ==> gathered(chunks.push(more)).usage == more.usage,
{
    assert(chunks.push(more).drop_last() =~= chunks);
}

} // verus!
