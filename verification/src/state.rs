//! What the converter keeps for one output index between events.

use vstd::prelude::*;
use vstd::string::StringExecFns;
use crate::chunk::{
    assistant_role, deltas_of, ChatMessageDelta, ChatMessageDeltaView, ToolCallDelta,
    ToolCallDeltaView,
};
use crate::decode_stream::{DecodeStream, DecodeStreamView};
use crate::tokenizer::text_of;

verus! {

/// The state of one output index.
///
/// `is_first_chunk` holds until the index has announced its role. `buffer`
/// is decoded text that has not been delivered yet. The token counts are the
/// last ones that the engine reported.
pub struct StreamIndexState {
    pub is_first_chunk: bool,
    pub buffer: String,
    pub prompt_tokens: Option<i32>,
    pub completion_tokens: Option<i32>,
    pub has_tool_calls: bool,
    pub decoder: DecodeStream,
}

pub struct StreamIndexStateView {
    pub is_first_chunk: bool,
    pub buffer: Seq<char>,
    pub prompt_tokens: Option<i32>,
    pub completion_tokens: Option<i32>,
    pub has_tool_calls: bool,
    pub decoder: DecodeStreamView,
}

impl View for StreamIndexState {
    type V = StreamIndexStateView;

    open spec fn view(&self) -> StreamIndexStateView {
        StreamIndexStateView {
            is_first_chunk: self.is_first_chunk,
            buffer: self.buffer@,
            prompt_tokens: self.prompt_tokens,
            completion_tokens: self.completion_tokens,
            has_tool_calls: self.has_tool_calls,
            decoder: self.decoder@,
        }
    }
}

/// What a tool parser made of the buffered text of an index, with the calls
/// in the form in which they are emitted.
pub struct ParsedText {
    pub normal_text: String,
    pub deltas: Vec<ToolCallDelta>,
    pub remaining: String,
}

pub struct ParsedTextView {
    pub normal_text: Seq<char>,
    pub deltas: Seq<ToolCallDeltaView>,
    pub remaining: Seq<char>,
}

impl View for ParsedText {
    type V = ParsedTextView;

    open spec fn view(&self) -> ParsedTextView {
        ParsedTextView {
            normal_text: self.normal_text@,
            deltas: deltas_of(self.deltas@),
            remaining: self.remaining@,
        }
    }
}

/// The view of an optional parse.
pub open spec fn parsed_of(p: Option<ParsedText>) -> Option<ParsedTextView> {
    match p {
        Some(parsed) => Some(parsed@),
        None => None,
    }
}

/// The view of an optional delta.
pub open spec fn delta_of(d: Option<ChatMessageDelta>) -> Option<ChatMessageDeltaView> {
    match d {
        Some(delta) => Some(delta@),
        None => None,
    }
}

/// The state of an index of which no event has been seen.
pub open spec fn fresh_state(skip_special_tokens: bool) -> StreamIndexStateView {
    StreamIndexStateView {
        is_first_chunk: true,
        buffer: Seq::empty(),
        prompt_tokens: None,
        completion_tokens: None,
        has_tool_calls: false,
        decoder: DecodeStream::new_view(skip_special_tokens),
    }
}

/// The prompt tokens of an index after a chunk that reports `reported`: a
/// count other than zero is taken; a zero leaves a count that is there, and
/// puts the count taken before generation where none is.
pub open spec fn counted_prompt(recorded: Option<i32>, reported: i32, initial: Option<i32>) -> Option<
    i32,
> {
    if reported != 0 {
        Some(reported)
    } else if recorded is None {
        initial
    } else {
        recorded
    }
}

/// The state after the token counts of a chunk are taken in. The completion
/// count replaces the one that is there: the engine reports the running
/// total.
pub open spec fn counted(
    pre: StreamIndexStateView,
    prompt_tokens: i32,
    completion_tokens: i32,
    initial_prompt_tokens: Option<i32>,
) -> StreamIndexStateView {
    StreamIndexStateView {
        prompt_tokens: counted_prompt(pre.prompt_tokens, prompt_tokens, initial_prompt_tokens),
        completion_tokens: Some(completion_tokens),
        ..pre
    }
}

/// The text that a tool parser is to read for a chunk with decoded text
/// `text`: the buffer followed by `text`, unless this is the first chunk of
/// the index or `text` is empty.
pub open spec fn text_to_parse(pre: StreamIndexStateView, text: Seq<char>) -> Option<Seq<char>> {
    if !pre.is_first_chunk && text.len() > 0 {
        Some(pre.buffer + text)
    } else {
        None
    }
}

/// The state after a chunk with decoded text `text`, and the delta that is
/// emitted for it, if any.
///
/// The first chunk of an index announces the role, with the text as content
/// where there is any. A later chunk without text emits nothing. A later
/// chunk with text adds it to the buffer; without a parse the whole buffer is
/// delivered as content, with a parse what the parser found is delivered and
/// the rest stays in the buffer.
pub open spec fn chunk_step(
    pre: StreamIndexStateView,
    text: Seq<char>,
    parsed: Option<ParsedTextView>,
) -> (StreamIndexStateView, Option<ChatMessageDeltaView>) {
    let seen = StreamIndexStateView { is_first_chunk: false, ..pre };
    if pre.is_first_chunk {
        (
            seen,
            Some(
                ChatMessageDeltaView {
                    role: Some(assistant_role()),
                    content: if text.len() > 0 {
                        Some(text)
                    } else {
                        None
                    },
                    tool_calls: None,
                },
            ),
        )
    } else if text.len() == 0 {
        (seen, None)
    } else {
        match parsed {
            None => (
                StreamIndexStateView { buffer: Seq::empty(), ..seen },
                Some(
                    ChatMessageDeltaView {
                        role: None,
                        content: Some(pre.buffer + text),
                        tool_calls: None,
                    },
                ),
            ),
            Some(p) => {
                let post = StreamIndexStateView {
                    buffer: p.remaining,
                    has_tool_calls: pre.has_tool_calls || p.deltas.len() > 0,
                    ..seen
                };
                if p.normal_text.len() == 0 && p.deltas.len() == 0 {
                    (post, None)
                } else {
                    (
                        post,
                        Some(
                            ChatMessageDeltaView {
                                role: None,
                                content: if p.normal_text.len() > 0 {
                                    Some(p.normal_text)
                                } else {
                                    None
                                },
                                tool_calls: if p.deltas.len() > 0 {
                                    Some(p.deltas)
                                } else {
                                    None
                                },
                            },
                        ),
                    )
                }
            },
        }
    }
}

impl StreamIndexState {
    /// The state of an index of which no event has been seen.
    pub fn new(skip_special_tokens: bool) -> (s: StreamIndexState)
        ensures
            s@ == fresh_state(skip_special_tokens),
    {
        StreamIndexState {
            is_first_chunk: true,
            buffer: String::new(),
            prompt_tokens: None,
            completion_tokens: None,
            has_tool_calls: false,
            decoder: DecodeStream::new(skip_special_tokens),
        }
    }

    /// Takes in the token counts that a chunk reports.
    pub fn record_counts(
        &mut self,
        prompt_tokens: i32,
        completion_tokens: i32,
        initial_prompt_tokens: Option<i32>,
    )
        ensures
            final(self)@ == counted(
                old(self)@,
                prompt_tokens,
                completion_tokens,
                initial_prompt_tokens,
            ),
    {
        if prompt_tokens != 0 {
            self.prompt_tokens = Some(prompt_tokens);
        } else if self.prompt_tokens.is_none() {
            self.prompt_tokens = initial_prompt_tokens;
        }
        self.completion_tokens = Some(completion_tokens);
    }

    /// The text that a tool parser is to read for a chunk with decoded text
    /// `text`, if there is any to read.
    pub fn text_for_parser(&self, text: &str) -> (r: Option<String>)
        ensures
            text_of(r) == text_to_parse(self@, text@),
    {
        if !self.is_first_chunk && !text.is_empty() {
            let mut all = self.buffer.clone();
            all.append(text);
            Some(all)
        } else {
            None
        }
    }

    /// Takes in the decoded text of a chunk, with what a tool parser made of
    /// it where one was asked, and gives the delta to emit, if any.
    pub fn take_chunk(&mut self, text: String, parsed: Option<ParsedText>) -> (r: Option<
        ChatMessageDelta,
    >)
        ensures
            (final(self)@, delta_of(r)) == chunk_step(old(self)@, text@, parsed_of(parsed)),
    {
        let was_first = self.is_first_chunk;
        self.is_first_chunk = false;
        let has_text = !text.as_str().is_empty();
        if was_first {
            return Some(
                ChatMessageDelta {
                    role: Some("assistant".to_owned()),
                    content: if has_text {
                        Some(text)
                    } else {
                        None
                    },
                    tool_calls: None,
                },
            );
        }
        if !has_text {
            return None;
        }
        match parsed {
            None => {
                let mut content: String = String::new();
                std::mem::swap(&mut content, &mut self.buffer);
                content.append(text.as_str());
                assert(self.buffer@ =~= Seq::<char>::empty());
                Some(ChatMessageDelta { role: None, content: Some(content), tool_calls: None })
            },
            Some(p) => {
                let ParsedText { normal_text, deltas, remaining } = p;
                self.buffer = remaining;
                let has_text = !normal_text.as_str().is_empty();
                let has_calls = deltas.len() > 0;
                if has_calls {
                    self.has_tool_calls = true;
                }
                if !has_text && !has_calls {
                    None
                } else {
                    Some(
                        ChatMessageDelta {
                            role: None,
                            content: if has_text {
                                Some(normal_text)
                            } else {
                                None
                            },
                            tool_calls: if has_calls {
                                Some(deltas)
                            } else {
                                None
                            },
                        },
                    )
                }
            },
        }
    }
}

} // verus!
