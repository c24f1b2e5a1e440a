//! The chunks of a chat-completion stream, and the token usage that the last
//! chunk of an output index reports.

use vstd::prelude::*;
use crate::tokenizer::text_of;

verus! {

/// Token counts of one output index.
#[derive(Clone, Copy, Debug, PartialEq, Eq, Structural)]
pub struct Usage {
    pub prompt_tokens: u32,
    pub completion_tokens: u32,
    pub total_tokens: u32,
}

/// One step of a tool call: its position among the calls of the message, and,
/// where the call starts, its identifier and the function's name.
pub struct ToolCallDelta {
    pub index: usize,
    pub id: Option<String>,
    pub name: Option<String>,
    pub arguments: String,
}

pub struct ToolCallDeltaView {
    pub index: usize,
    pub id: Option<Seq<char>>,
    pub name: Option<Seq<char>>,
    pub arguments: Seq<char>,
}

impl View for ToolCallDelta {
    type V = ToolCallDeltaView;

    open spec fn view(&self) -> ToolCallDeltaView {
        ToolCallDeltaView {
            index: self.index,
            id: text_of(self.id),
            name: text_of(self.name),
            arguments: self.arguments@,
        }
    }
}

/// The views of a list of tool-call deltas.
pub open spec fn deltas_of(calls: Seq<ToolCallDelta>) -> Seq<ToolCallDeltaView> {
    Seq::new(calls.len(), |i: int| calls[i]@)
}

/// What one chunk adds to the message of its output index.
pub struct ChatMessageDelta {
    pub role: Option<String>,
    pub content: Option<String>,
    pub tool_calls: Option<Vec<ToolCallDelta>>,
}

pub struct ChatMessageDeltaView {
    pub role: Option<Seq<char>>,
    pub content: Option<Seq<char>>,
    pub tool_calls: Option<Seq<ToolCallDeltaView>>,
}

impl View for ChatMessageDelta {
    type V = ChatMessageDeltaView;

    open spec fn view(&self) -> ChatMessageDeltaView {
        ChatMessageDeltaView {
            role: text_of(self.role),
            content: text_of(self.content),
            tool_calls: match self.tool_calls {
                Some(calls) => Some(deltas_of(calls@)),
                None => None,
            },
        }
    }
}

/// The choice that a chunk carries: always exactly one.
pub struct ChatStreamChoice {
    pub index: u32,
    pub delta: ChatMessageDelta,
    pub finish_reason: Option<String>,
    pub matched_stop: Option<String>,
}

pub struct ChatStreamChoiceView {
    pub index: u32,
    pub delta: ChatMessageDeltaView,
    pub finish_reason: Option<Seq<char>>,
    pub matched_stop: Option<Seq<char>>,
}

impl View for ChatStreamChoice {
    type V = ChatStreamChoiceView;

    open spec fn view(&self) -> ChatStreamChoiceView {
        ChatStreamChoiceView {
            index: self.index,
            delta: self.delta@,
            finish_reason: text_of(self.finish_reason),
            matched_stop: text_of(self.matched_stop),
        }
    }
}

/// One chunk of the stream.
pub struct ChatCompletionStreamChunk {
    pub id: String,
    pub object: String,
    pub created: u64,
    pub model: String,
    pub system_fingerprint: Option<String>,
    pub choice: ChatStreamChoice,
    pub usage: Option<Usage>,
}

pub struct ChatCompletionStreamChunkView {
    pub id: Seq<char>,
    pub object: Seq<char>,
    pub created: u64,
    pub model: Seq<char>,
    pub system_fingerprint: Option<Seq<char>>,
    pub choice: ChatStreamChoiceView,
    pub usage: Option<Usage>,
}

impl View for ChatCompletionStreamChunk {
    type V = ChatCompletionStreamChunkView;

    open spec fn view(&self) -> ChatCompletionStreamChunkView {
        ChatCompletionStreamChunkView {
            id: self.id@,
            object: self.object@,
            created: self.created,
            model: self.model@,
            system_fingerprint: text_of(self.system_fingerprint),
            choice: self.choice@,
            usage: self.usage,
        }
    }
}

/// The view of an optional chunk.
pub open spec fn chunk_of(c: Option<ChatCompletionStreamChunk>) -> Option<
    ChatCompletionStreamChunkView,
> {
    match c {
        Some(chunk) => Some(chunk@),
        None => None,
    }
}

/// The object tag of every chunk.
pub open spec fn chunk_object() -> Seq<char> {
    "chat.completion.chunk"@
}

/// The role that the first chunk of an output index announces.
pub open spec fn assistant_role() -> Seq<char> {
    "assistant"@
}

/// The finish reason of an index whose engine gave none.
pub open spec fn default_finish_reason() -> Seq<char> {
    "stop"@
}

/// A count with negative values raised to zero.
pub open spec fn clamped(n: int) -> int {
    if n < 0 {
        0
    } else {
        n
    }
}

/// The prompt tokens that the last chunk of an index reports: the count
/// recorded for the index, else the count of the closing event; where that is
/// zero, the count taken before generation, if there is one; never negative.
pub open spec fn final_prompt_tokens(recorded: Option<i32>, reported: i32, initial: Option<i32>) -> int {
    let known = match recorded {
        Some(t) => t,
        None => reported,
    };
    match initial {
        Some(first) if known == 0 => clamped(first as int),
        _ => clamped(known as int),
    }
}

/// The completion tokens that the last chunk of an index reports: the count
/// recorded for the index, else the count of the closing event; where that is
/// zero and output tokens came with the closing event, their number, as far
/// as a 32-bit count holds it; never negative.
pub open spec fn final_completion_tokens(recorded: Option<i32>, reported: i32, outputs: nat) -> int {
    let known = match recorded {
        Some(t) => t,
        None => reported,
    };
    if known == 0 && outputs > 0 {
        if outputs <= i32::MAX {
            outputs as int
        } else {
            i32::MAX as int
        }
    } else {
        clamped(known as int)
    }
}

/// The usage that the last chunk of an index reports.
pub open spec fn final_usage(
    recorded_prompt: Option<i32>,
    recorded_completion: Option<i32>,
    reported_prompt: i32,
    reported_completion: i32,
    initial_prompt: Option<i32>,
    outputs: nat,
) -> Usage {
    let prompt = final_prompt_tokens(recorded_prompt, reported_prompt, initial_prompt);
    let completion = final_completion_tokens(recorded_completion, reported_completion, outputs);
    Usage {
        prompt_tokens: prompt as u32,
        completion_tokens: completion as u32,
        total_tokens: (prompt + completion) as u32,
    }
}

/// A count with negative values raised to zero.
pub fn clamp(n: i32) -> (c: u32)
    ensures
        c == clamped(n as int),
{
    if n < 0 {
        0
    } else {
        n as u32
    }
}

impl Usage {
    /// The usage for the given counts: each raised to zero where negative,
    /// and their sum.
    pub fn new(prompt_tokens: i32, completion_tokens: i32) -> (u: Usage)
        ensures
            u.prompt_tokens == clamped(prompt_tokens as int),
            u.completion_tokens == clamped(completion_tokens as int),
            u.total_tokens == u.prompt_tokens + u.completion_tokens,
    {
        let p = clamp(prompt_tokens);
        let c = clamp(completion_tokens);
        Usage { prompt_tokens: p, completion_tokens: c, total_tokens: p + c }
    }

    /// The usage that the last chunk of an index reports, from the counts
    /// recorded for the index, the counts of the closing event, the count taken
    /// before generation and the number of output tokens of the closing event.
    pub fn at_completion(
        recorded_prompt: Option<i32>,
        recorded_completion: Option<i32>,
        reported_prompt: i32,
        reported_completion: i32,
        initial_prompt: Option<i32>,
        outputs: usize,
    ) -> (u: Usage)
        ensures
            u == final_usage(
                recorded_prompt,
                recorded_completion,
                reported_prompt,
                reported_completion,
                initial_prompt,
                outputs as nat,
            ),
            u.prompt_tokens == final_prompt_tokens(recorded_prompt, reported_prompt, initial_prompt),
            u.completion_tokens == final_completion_tokens(
                recorded_completion,
                reported_completion,
                outputs as nat,
            ),
            u.total_tokens == u.prompt_tokens + u.completion_tokens,
    {
        let mut prompt: i32 = match recorded_prompt {
            Some(t) => t,
            None => reported_prompt,
        };
        let mut completion: i32 = match recorded_completion {
            Some(t) => t,
            None => reported_completion,
        };
        if prompt == 0 {
            match initial_prompt {
                Some(first) => {
                    prompt = first;
                },
                None => {},
            }
        }
        if completion == 0 && outputs > 0 {
            completion = if outputs <= 0x7fff_ffff {
                outputs as i32
            } else {
                0x7fff_ffff
            };
        }
        Usage::new(prompt, completion)
    }
}

} // verus!
