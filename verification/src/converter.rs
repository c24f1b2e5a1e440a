//! The converter: one generation event in, at most one chunk of the
//! chat-completion stream out.

use std::collections::HashMap;
use vstd::prelude::*;
use vstd::string::StringExecFns;
use crate::chunk::{
    chunk_object, chunk_of, default_finish_reason, final_usage, ChatCompletionStreamChunk,
    ChatCompletionStreamChunkView, ChatMessageDelta, ChatMessageDeltaView, ChatStreamChoice,
    ChatStreamChoiceView, ToolCallDeltaView, Usage,
};
use crate::decode_stream::{flushed, DecodeStreamView};
use crate::event::{ConvertError, GenerationEvent};
use crate::feed::{decoder_run, feed_decoder, feed_filter, filter_run, text_or_empty, Answers};
use crate::state::{
    chunk_step, counted, fresh_state, parsed_of, text_to_parse, ParsedText, ParsedTextView,
    StreamIndexState, StreamIndexStateView,
};
use crate::stop::{StopSequenceFilter, StopSequenceFilterView, strings_of};
use crate::tokenizer::{ok_text, text_of, Tokenizer};
use crate::tool_call::{
    is_tool_call_id, lowercase, lowered_model, tool_call_deltas, Tool, ToolChoice, ToolParser,
};

verus! {

broadcast use vstd::std_specs::hash::group_hash_axioms;

/// The converter of one request.
///
/// It owns the state of every live output index. The stop-sequence filter,
/// where the request asks for one, is a single one for the whole request:
/// all output indices pass their tokens through it, and once it has stopped
/// it gives out nothing more for any of them.
pub struct ResponseConverter<T: Tokenizer, P: ToolParser> {
    pub tokenizer: T,
    pub tool_parser: Option<P>,
    pub stop_filter: Option<StopSequenceFilter>,
    pub model: String,
    pub request_id: String,
    pub created: u64,
    pub system_fingerprint: Option<String>,
    pub tools: Option<Vec<Tool>>,
    pub tool_choice: Option<ToolChoice>,
    pub history_tool_calls_count: usize,
    pub states: HashMap<u32, StreamIndexState>,
    pub initial_prompt_tokens: Option<i32>,
    pub skip_special_tokens: bool,
}

pub struct ResponseConverterView {
    pub model: Seq<char>,
    pub request_id: Seq<char>,
    pub created: u64,
    pub system_fingerprint: Option<Seq<char>>,
    pub tools_enabled: bool,
    pub history_tool_calls_count: usize,
    pub initial_prompt_tokens: Option<i32>,
    pub skip_special_tokens: bool,
    pub stop_filter: Option<StopSequenceFilterView>,
    pub states: Map<u32, StreamIndexStateView>,
}

/// The views of the states of the live indices.
pub open spec fn states_of(states: Map<u32, StreamIndexState>) -> Map<u32, StreamIndexStateView> {
    states.map_values(|s: StreamIndexState| s@)
}

/// The view of an optional filter.
pub open spec fn filter_of(f: Option<StopSequenceFilter>) -> Option<StopSequenceFilterView> {
    match f {
        Some(filter) => Some(filter@),
        None => None,
    }
}

impl<T: Tokenizer, P: ToolParser> View for ResponseConverter<T, P> {
    type V = ResponseConverterView;

    open spec fn view(&self) -> ResponseConverterView {
        ResponseConverterView {
            model: self.model@,
            request_id: self.request_id@,
            created: self.created,
            system_fingerprint: text_of(self.system_fingerprint),
            tools_enabled: self.tools is Some && self.tool_parser is Some && !(self.tool_choice
                matches Some(ToolChoice::Disabled)),
            history_tool_calls_count: self.history_tool_calls_count,
            initial_prompt_tokens: self.initial_prompt_tokens,
            skip_special_tokens: self.skip_special_tokens,
            stop_filter: filter_of(self.stop_filter),
            states: states_of(self.states@),
        }
    }
}

/// The fingerprint that every chunk carries.
pub open spec fn node_fingerprint() -> Seq<char> {
    "fp_sglang_node"@
}

/// The state of an index: the one kept for it, or that of an index of which
/// no event has been seen.
pub open spec fn state_at(pre: ResponseConverterView, index: u32) -> StreamIndexStateView {
    if pre.states.contains_key(index) {
        pre.states[index]
    } else {
        fresh_state(pre.skip_special_tokens)
    }
}

/// The chunk that carries `delta` for output index `index`.
pub open spec fn envelope(
    pre: ResponseConverterView,
    index: u32,
    delta: ChatMessageDeltaView,
    finish_reason: Option<Seq<char>>,
    usage: Option<Usage>,
) -> ChatCompletionStreamChunkView {
    ChatCompletionStreamChunkView {
        id: pre.request_id,
        object: chunk_object(),
        created: pre.created,
        model: pre.model,
        system_fingerprint: pre.system_fingerprint,
        choice: ChatStreamChoiceView { index, delta, finish_reason, matched_stop: None },
        usage,
    }
}

/// What decoding the tokens of a chunk gave: the text, and the decoder of the
/// index and the filter of the request as they are after it.
pub struct Decoded {
    pub text: Seq<char>,
    pub decoder: DecodeStreamView,
    pub stop_filter: Option<StopSequenceFilterView>,
}

/// `decoded` is a possible result of decoding the tokens `ids` of a chunk for
/// `index`: they went through the filter where the request has one, and
/// through the decoder of the index otherwise.
pub open spec fn decoding_of(
    pre: ResponseConverterView,
    index: u32,
    ids: Seq<u32>,
    decoded: Decoded,
) -> bool {
    match pre.stop_filter {
        Some(filter) => {
            &&& decoded.decoder == state_at(pre, index).decoder
            &&& decoded.stop_filter is Some
            &&& exists|answers: Seq<Answers>|
                answers.len() == ids.len() && #[trigger] filter_run(filter, ids, answers) == (
                    decoded.stop_filter->0,
                    decoded.text,
                )
        },
        None => {
            &&& decoded.stop_filter is None
            &&& exists|answers: Seq<Answers>|
                answers.len() == ids.len() && #[trigger] decoder_run(
                    state_at(pre, index).decoder,
                    ids,
                    answers,
                ) == (decoded.decoder, decoded.text)
        },
    }
}

/// `delta` has an identifier exactly where it names a function, and the
/// identifier is one that the call may get.
pub open spec fn is_emitted_call(lowered_model: Seq<char>, history: nat, delta: ToolCallDeltaView) -> bool {
    match delta.name {
        Some(name) => delta.id is Some && is_tool_call_id(
            lowered_model,
            name,
            delta.index as nat,
            history,
            delta.id->0,
        ),
        None => delta.id is None,
    }
}

/// `parsed` is a possible result of parsing for a chunk with decoded text
/// `text`: the parser is asked exactly where tools are in use and there is
/// text to parse, and every call that it found is emitted with a fitting
/// identifier.
pub open spec fn parsing_of(
    pre: ResponseConverterView,
    index: u32,
    text: Seq<char>,
    parsed: Option<ParsedTextView>,
) -> bool {
    &&& parsed is Some <==> pre.tools_enabled && text_to_parse(state_at(pre, index), text) is Some
    &&& parsed is Some ==> forall|i: int|
        0 <= i < parsed->0.deltas.len() ==> is_emitted_call(
            lowercase(pre.model),
            pre.history_tool_calls_count as nat,
            #[trigger] parsed->0.deltas[i],
        )
}

/// The converter after a chunk event is settled, and the chunk emitted for
/// it, if any: `state` is the state of the index with its decoder as decoding
/// left it, `text` the decoded text of the chunk, and `parsed` what the tool
/// parser made of the buffered text, where it was asked.
pub open spec fn chunk_settled(
    pre: ResponseConverterView,
    index: u32,
    state: StreamIndexStateView,
    prompt_tokens: i32,
    completion_tokens: i32,
    text: Seq<char>,
    parsed: Option<ParsedTextView>,
) -> (ResponseConverterView, Option<ChatCompletionStreamChunkView>) {
    let (kept, delta) = chunk_step(
        counted(state, prompt_tokens, completion_tokens, pre.initial_prompt_tokens),
        text,
        parsed,
    );
    (
        ResponseConverterView { states: pre.states.insert(index, kept), ..pre },
        match delta {
            Some(d) => Some(envelope(pre, index, d, None, None)),
            None => None,
        },
    )
}

/// The converter after a chunk event, and the chunk emitted for it, if any,
/// where `decoded` is what decoding gave and `parsed` what the tool parser
/// made of the buffered text.
pub open spec fn chunk_outcome(
    pre: ResponseConverterView,
    index: u32,
    prompt_tokens: i32,
    completion_tokens: i32,
    decoded: Decoded,
    parsed: Option<ParsedTextView>,
) -> (ResponseConverterView, Option<ChatCompletionStreamChunkView>) {
    chunk_settled(
        ResponseConverterView { stop_filter: decoded.stop_filter, ..pre },
        index,
        StreamIndexStateView { decoder: decoded.decoder, ..state_at(pre, index) },
        prompt_tokens,
        completion_tokens,
        decoded.text,
        parsed,
    )
}

/// `post` and `emitted` are a possible result of a chunk event.
pub open spec fn chunk_converted(
    pre: ResponseConverterView,
    index: u32,
    ids: Seq<u32>,
    prompt_tokens: i32,
    completion_tokens: i32,
    post: ResponseConverterView,
    emitted: Option<ChatCompletionStreamChunkView>,
) -> bool {
    exists|decoded: Decoded, parsed: Option<ParsedTextView>|
        {
            &&& decoding_of(pre, index, ids, decoded)
            &&& parsing_of(pre, index, decoded.text, parsed)
            &&& #[trigger] chunk_outcome(
                pre,
                index,
                prompt_tokens,
                completion_tokens,
                decoded,
                parsed,
            ) == (post, emitted)
        }
}

/// `tail` is a possible result of flushing for `index`: the text that the
/// filter holds, where the request has a filter, and otherwise what the
/// decoder of the index gives out on a flush; nothing for an index of which
/// no chunk has been seen.
pub open spec fn tail_of(pre: ResponseConverterView, index: u32, tail: Option<Seq<char>>) -> bool {
    match pre.stop_filter {
        Some(filter) => tail == if filter.jail.len() > 0 {
            Some(filter.jail)
        } else {
            None
        },
        None => if pre.states.contains_key(index) {
            exists|rest: Option<Seq<char>>| tail == #[trigger] flushed(pre.states[index].decoder, rest).1
        } else {
            tail is None
        },
    }
}

/// The streamed text of an index is empty although output tokens came with
/// its closing event: the content has to come from decoding those.
pub open spec fn lacks_text(buffered: Seq<char>, tail: Option<Seq<char>>, outputs: nat) -> bool {
    (buffered + text_or_empty(tail)).len() == 0 && outputs > 0
}

/// The content of the last chunk of an index: the buffered text followed by
/// the flushed text; where that is empty and output tokens came with the
/// closing event, the decoding of those, if it succeeded.
pub open spec fn final_text(
    buffered: Seq<char>,
    tail: Option<Seq<char>>,
    outputs: nat,
    fallback: Option<Seq<char>>,
) -> Seq<char> {
    if lacks_text(buffered, tail, outputs) {
        text_or_empty(fallback)
    } else {
        buffered + text_or_empty(tail)
    }
}

/// The last chunk of an index: what is left of its text as content, the
/// finish reason of the engine, or the default where it gave none, and the
/// usage. `buffered` and the recorded counts are what was kept for the
/// index, `tail` is what flushing gave and `fallback` the decoding of the
/// output tokens of the closing event.
pub open spec fn last_chunk(
    pre: ResponseConverterView,
    index: u32,
    buffered: Seq<char>,
    recorded_prompt: Option<i32>,
    recorded_completion: Option<i32>,
    outputs: nat,
    finish_reason: Seq<char>,
    prompt_tokens: i32,
    completion_tokens: i32,
    tail: Option<Seq<char>>,
    fallback: Option<Seq<char>>,
) -> ChatCompletionStreamChunkView {
    let text = final_text(buffered, tail, outputs, fallback);
    let usage = final_usage(
        recorded_prompt,
        recorded_completion,
        prompt_tokens,
        completion_tokens,
        pre.initial_prompt_tokens,
        outputs,
    );
    let delta = ChatMessageDeltaView {
        role: None,
        content: if text.len() > 0 {
            Some(text)
        } else {
            None
        },
        tool_calls: None,
    };
    let reason = if finish_reason.len() == 0 {
        default_finish_reason()
    } else {
        finish_reason
    };
    envelope(pre, index, delta, Some(reason), Some(usage))
}

/// The converter after the closing event of an index, and the last chunk of
/// the index, where `tail` is what flushing gave and `fallback` the decoding
/// of the output tokens of the event. No state of the index is kept, and the
/// filter holds nothing.
pub open spec fn complete_outcome(
    pre: ResponseConverterView,
    index: u32,
    outputs: nat,
    finish_reason: Seq<char>,
    prompt_tokens: i32,
    completion_tokens: i32,
    tail: Option<Seq<char>>,
    fallback: Option<Seq<char>>,
) -> (ResponseConverterView, ChatCompletionStreamChunkView) {
    let known = pre.states.contains_key(index);
    (
        ResponseConverterView {
            states: pre.states.remove(index),
            stop_filter: match pre.stop_filter {
                Some(filter) => Some(StopSequenceFilterView { jail: Seq::empty(), ..filter }),
                None => None,
            },
            ..pre
        },
        last_chunk(
            pre,
            index,
            if known {
                pre.states[index].buffer
            } else {
                Seq::empty()
            },
            if known {
                pre.states[index].prompt_tokens
            } else {
                None
            },
            if known {
                pre.states[index].completion_tokens
            } else {
                None
            },
            outputs,
            finish_reason,
            prompt_tokens,
            completion_tokens,
            tail,
            fallback,
        ),
    )
}

/// `post` and `emitted` are a possible result of the closing event of an
/// index.
pub open spec fn complete_converted(
    pre: ResponseConverterView,
    index: u32,
    outputs: nat,
    finish_reason: Seq<char>,
    prompt_tokens: i32,
    completion_tokens: i32,
    post: ResponseConverterView,
    emitted: ChatCompletionStreamChunkView,
) -> bool {
    exists|tail: Option<Seq<char>>, fallback: Option<Seq<char>>|
        {
            &&& tail_of(pre, index, tail)
            &&& #[trigger] complete_outcome(
                pre,
                index,
                outputs,
                finish_reason,
                prompt_tokens,
                completion_tokens,
                tail,
                fallback,
            ) == (post, emitted)
        }
}

/// `post` and `result` are a possible result of `event`.
///
/// No event changes nothing and emits nothing. A failure of the engine ends
/// the stream: it is handed on, nothing is emitted and no state is kept. A
/// chunk event goes by `chunk_converted`, a closing event by
/// `complete_converted`, and neither fails.
pub open spec fn converted(
    pre: ResponseConverterView,
    event: Option<GenerationEvent>,
    post: ResponseConverterView,
    result: Result<Option<ChatCompletionStreamChunk>, ConvertError>,
) -> bool {
    match event {
        None => post == pre && result matches Ok(None),
        Some(GenerationEvent::Error { message, status_code }) => {
            &&& post == ResponseConverterView { states: Map::empty(), ..pre }
            &&& result matches Err(e)
            &&& e.message@ == message@
            &&& e.status_code == status_code
        },
        Some(GenerationEvent::Chunk { index, token_ids, prompt_tokens, completion_tokens }) => {
            &&& result matches Ok(emitted)
            &&& chunk_converted(
                pre,
                index,
                token_ids@,
                prompt_tokens,
                completion_tokens,
                post,
                chunk_of(emitted),
            )
        },
        Some(
            GenerationEvent::Complete {
                index,
                output_ids,
                finish_reason,
                prompt_tokens,
                completion_tokens,
            },
        ) => {
            &&& result matches Ok(Some(emitted))
            &&& complete_converted(
                pre,
                index,
                output_ids@.len(),
                finish_reason@,
                prompt_tokens,
                completion_tokens,
                post,
                emitted@,
            )
        },
    }
}

/// Whether the content of the last chunk of an index has to come from the
/// output tokens of its closing event.
pub fn needs_fallback(buffered: &str, tail: &Option<String>, outputs: usize) -> (b: bool)
    ensures
        b == lacks_text(buffered@, text_of(*tail), outputs as nat),
{
    let no_tail = match tail {
        Some(text) => text.as_str().is_empty(),
        None => true,
    };
    buffered.is_empty() && no_tail && outputs > 0
}

impl<T: Tokenizer, P: ToolParser> ResponseConverter<T, P> {
    /// A converter for one request, with no live index.
    ///
    /// The tool parser is kept only where the request declares tools. A
    /// filter is made where the request gives stop strings or stop tokens; it
    /// trims what it matched.
    pub fn new(
        tokenizer: T,
        tool_parser: Option<P>,
        model: String,
        request_id: String,
        created: u64,
        tools: Option<Vec<Tool>>,
        tool_choice: Option<ToolChoice>,
        stop: Option<Vec<String>>,
        stop_token_ids: Option<Vec<u32>>,
        skip_special_tokens: bool,
    ) -> (c: Self)
        ensures
            c@ == (ResponseConverterView {
                model: model@,
                request_id: request_id@,
                created,
                system_fingerprint: Some(node_fingerprint()),
                tools_enabled: tools is Some && tool_parser is Some && !(tool_choice matches Some(
                    ToolChoice::Disabled,
                )),
                history_tool_calls_count: 0,
                initial_prompt_tokens: None,
                skip_special_tokens,
                stop_filter: if stop is Some || stop_token_ids is Some {
                    Some(
                        StopSequenceFilter::new_view(
                            match stop {
                                Some(words) => strings_of(words@),
                                None => Seq::empty(),
                            },
                            match stop_token_ids {
                                Some(ids) => ids@,
                                None => Seq::empty(),
                            },
                            true,
                            skip_special_tokens,
                        ),
                    )
                } else {
                    None
                },
                states: Map::empty(),
            }),
    {
        let stop_filter = if stop.is_some() || stop_token_ids.is_some() {
            let words: Vec<String> = match stop {
                Some(words) => words,
                None => Vec::new(),
            };
            let ids: Vec<u32> = match stop_token_ids {
                Some(ids) => ids,
                None => Vec::new(),
            };
            assert(strings_of(Seq::<String>::empty()) =~= Seq::<Seq<char>>::empty());
            Some(StopSequenceFilter::new(&words, ids, true, skip_special_tokens))
        } else {
            None
        };
        let tool_parser = if tools.is_some() {
            tool_parser
        } else {
            None
        };
        let states: HashMap<u32, StreamIndexState> = HashMap::new();
        assert(states_of(states@) =~= Map::<u32, StreamIndexStateView>::empty());
        ResponseConverter {
            tokenizer,
            tool_parser,
            stop_filter,
            model,
            request_id,
            created,
            system_fingerprint: Some("fp_sglang_node".to_owned()),
            tools,
            tool_choice,
            history_tool_calls_count: 0,
            states,
            initial_prompt_tokens: None,
            skip_special_tokens,
        }
    }

    /// Whether buffered text goes through the tool parser: the request
    /// declares tools, does not forbid their use, and a parser is there.
    pub fn tools_enabled(&self) -> (b: bool)
        ensures
            b == self@.tools_enabled,
    {
        let allowed = match &self.tool_choice {
            Some(ToolChoice::Disabled) => false,
            _ => true,
        };
        self.tools.is_some() && self.tool_parser.is_some() && allowed
    }

    /// The chunk that carries `delta` for output index `index`.
    pub fn wrap(
        &self,
        index: u32,
        delta: ChatMessageDelta,
        finish_reason: Option<String>,
        usage: Option<Usage>,
    ) -> (chunk: ChatCompletionStreamChunk)
        ensures
            chunk@ == envelope(self@, index, delta@, text_of(finish_reason), usage),
    {
        ChatCompletionStreamChunk {
            id: self.request_id.clone(),
            object: "chat.completion.chunk".to_owned(),
            created: self.created,
            model: self.model.clone(),
            system_fingerprint: self.system_fingerprint.clone(),
            choice: ChatStreamChoice { index, delta, finish_reason, matched_stop: None },
            usage,
        }
    }

    /// Runs buffered text through the tool parser, where there is one, and
    /// puts the calls that it found in the form in which they are emitted.
    pub fn parse_buffered(&mut self, buffered: &str) -> (r: Option<ParsedText>)
        ensures
            final(self)@ == old(self)@,
            r is Some <==> old(self).tool_parser is Some,
            r matches Some(parsed) ==> forall|i: int|
                0 <= i < parsed@.deltas.len() ==> is_emitted_call(
                    lowercase(old(self)@.model),
                    old(self)@.history_tool_calls_count as nat,
                    #[trigger] parsed@.deltas[i],
                ),
    {
        match self.tool_parser.take() {
            Some(mut parser) => {
                let found = parser.parse(buffered);
                self.tool_parser = Some(parser);
                let lowered = lowered_model(self.model.as_str());
                let deltas = tool_call_deltas(
                    lowered.as_str(),
                    self.history_tool_calls_count,
                    &found.calls,
                );
                Some(ParsedText { normal_text: found.normal_text, deltas, remaining: found.remaining })
            },
            None => None,
        }
    }

    /// Takes the state kept for `index` out of the converter, if one is kept.
    pub fn take_state(&mut self, index: u32) -> (state: Option<StreamIndexState>)
        ensures
            final(self)@ == (ResponseConverterView {
                states: old(self)@.states.remove(index),
                ..old(self)@
            }),
            match state {
                Some(kept) => old(self)@.states.contains_key(index) && kept@ == old(
                    self,
                )@.states[index],
                None => !old(self)@.states.contains_key(index),
            },
    {
        let ghost live = self.states@;
        let state = self.states.remove(&index);
        assert(states_of(live.remove(index)) =~= states_of(live).remove(index));
        state
    }

    /// Settles a chunk event once its tokens are decoded: takes in the token
    /// counts, decides what to emit for the text, and keeps the state of the
    /// index. `state` is the state of the index, taken out of the converter.
    pub fn settle_chunk(
        &mut self,
        index: u32,
        state: StreamIndexState,
        prompt_tokens: i32,
        completion_tokens: i32,
        text: String,
        parsed: Option<ParsedText>,
    ) -> (emitted: Option<ChatCompletionStreamChunk>)
        ensures
            (final(self)@, chunk_of(emitted)) == chunk_settled(
                old(self)@,
                index,
                state@,
                prompt_tokens,
                completion_tokens,
                text@,
                parsed_of(parsed),
            ),
    {
        let mut state = state;
        state.record_counts(prompt_tokens, completion_tokens, self.initial_prompt_tokens);
        let delta = state.take_chunk(text, parsed);
        let emitted = match delta {
            Some(d) => Some(self.wrap(index, d, None, None)),
            None => None,
        };
        let ghost kept = self.states@;
        self.states.insert(index, state);
        assert(states_of(kept.insert(index, state)) =~= states_of(kept).insert(index, state@));
        emitted
    }

    /// Handles a chunk event: decodes the tokens, through the filter where
    /// the request has one and through the decoder of the index otherwise,
    /// runs the buffered text through the tool parser where tools are in use,
    /// and settles the event.
    pub fn on_chunk(
        &mut self,
        index: u32,
        token_ids: &Vec<u32>,
        prompt_tokens: i32,
        completion_tokens: i32,
    ) -> (emitted: Option<ChatCompletionStreamChunk>)
        ensures
            chunk_converted(
                old(self)@,
                index,
                token_ids@,
                prompt_tokens,
                completion_tokens,
                final(self)@,
                chunk_of(emitted),
            ),
    {
        let ghost pre = self@;
        let mut state = match self.take_state(index) {
            Some(state) => state,
            None => StreamIndexState::new(self.skip_special_tokens),
        };
        let text = match self.stop_filter.take() {
            Some(mut filter) => {
                let ghost before = filter@;
                let text = feed_filter(&mut filter, &self.tokenizer, token_ids);
                proof {
                    let given = choose|answers: Seq<Answers>|
                        answers.len() == token_ids@.len() && #[trigger] filter_run(
                            before,
                            token_ids@,
                            answers,
                        ) == (filter@, text@);
                    assert(filter_run(pre.stop_filter->0, token_ids@, given) == (filter@, text@));
                }
                self.stop_filter = Some(filter);
                text
            },
            None => feed_decoder(&mut state.decoder, &self.tokenizer, token_ids),
        };
        let ghost decoded = Decoded {
            text: text@,
            decoder: state.decoder@,
            stop_filter: filter_of(self.stop_filter),
        };
        assert(decoding_of(pre, index, token_ids@, decoded));
        let to_parse = if self.tools_enabled() {
            state.text_for_parser(text.as_str())
        } else {
            None
        };
        let parsed = match to_parse {
            Some(buffered) => self.parse_buffered(buffered.as_str()),
            None => None,
        };
        let ghost parsed_view = parsed_of(parsed);
        let emitted = self.settle_chunk(
            index,
            state,
            prompt_tokens,
            completion_tokens,
            text,
            parsed,
        );
        proof {
            assert(self@.states =~= pre.states.insert(index, self@.states[index]));
            assert(chunk_outcome(pre, index, prompt_tokens, completion_tokens, decoded, parsed_view)
                == (self@, chunk_of(emitted)));
        }
        emitted
    }

    /// Settles the closing event of an index once what was held is flushed:
    /// gives its last chunk. `buffered` and the recorded counts are what was
    /// kept for the index.
    pub fn settle_completion(
        &self,
        index: u32,
        buffered: String,
        recorded_prompt: Option<i32>,
        recorded_completion: Option<i32>,
        outputs: usize,
        finish_reason: String,
        prompt_tokens: i32,
        completion_tokens: i32,
        tail: Option<String>,
        fallback: Option<String>,
    ) -> (emitted: ChatCompletionStreamChunk)
        ensures
            emitted@ == last_chunk(
                self@,
                index,
                buffered@,
                recorded_prompt,
                recorded_completion,
                outputs as nat,
                finish_reason@,
                prompt_tokens,
                completion_tokens,
                text_of(tail),
                text_of(fallback),
            ),
    {
        let lacking = needs_fallback(buffered.as_str(), &tail, outputs);
        let mut text = buffered;
        if lacking {
            text = match fallback {
                Some(decoded) => decoded,
                None => String::new(),
            };
        } else {
            match tail {
                Some(more) => {
                    text.append(more.as_str());
                },
                None => {
                    assert(text@ + Seq::<char>::empty() =~= text@);
                },
            }
        }
        let reason = if finish_reason.as_str().is_empty() {
            "stop".to_owned()
        } else {
            finish_reason
        };
        let usage = Usage::at_completion(
            recorded_prompt,
            recorded_completion,
            prompt_tokens,
            completion_tokens,
            self.initial_prompt_tokens,
            outputs,
        );
        let delta = ChatMessageDelta {
            role: None,
            content: if !text.as_str().is_empty() {
                Some(text)
            } else {
                None
            },
            tool_calls: None,
        };
        self.wrap(index, delta, Some(reason), Some(usage))
    }

    /// Handles the closing event of an index: removes its state, flushes
    /// what is held for it (the filter, where the request has one, and else
    /// the decoder of the index), decodes the output tokens where no text is
    /// left, and emits the last chunk of the index.
    pub fn on_complete(
        &mut self,
        index: u32,
        output_ids: &Vec<u32>,
        finish_reason: String,
        prompt_tokens: i32,
        completion_tokens: i32,
    ) -> (emitted: ChatCompletionStreamChunk)
        ensures
            complete_converted(
                old(self)@,
                index,
                output_ids@.len(),
                finish_reason@,
                prompt_tokens,
                completion_tokens,
                final(self)@,
                emitted@,
            ),
    {
        let ghost pre = self@;
        let (buffered, recorded_prompt, recorded_completion, decoder) = match self.take_state(
            index,
        ) {
            Some(state) => {
                let StreamIndexState { buffer, prompt_tokens, completion_tokens, decoder, .. } =
                    state;
                (buffer, prompt_tokens, completion_tokens, Some(decoder))
            },
            None => (String::new(), None, None, None),
        };
        let tail = match self.stop_filter.take() {
            Some(mut filter) => {
                let tail = filter.flush();
                self.stop_filter = Some(filter);
                tail
            },
            None => match decoder {
                Some(mut decoder) => {
                    let ghost before = decoder@;
                    let tail = decoder.flush(&self.tokenizer);
                    proof {
                        let rest = choose|rest: Option<Seq<char>>| #[trigger]
                            flushed(before, rest) == (decoder@, text_of(tail));
                        assert(text_of(tail) == flushed(pre.states[index].decoder, rest).1);
                    }
                    tail
                },
                None => None,
            },
        };
        assert(tail_of(pre, index, text_of(tail)));
        let fallback = if needs_fallback(buffered.as_str(), &tail, output_ids.len()) {
            ok_text(self.tokenizer.decode(output_ids.as_slice(), self.skip_special_tokens))
        } else {
            None
        };
        let emitted = self.settle_completion(
            index,
            buffered,
            recorded_prompt,
            recorded_completion,
            output_ids.len(),
            finish_reason,
            prompt_tokens,
            completion_tokens,
            tail,
            fallback,
        );
        proof {
            assert(complete_outcome(
                pre,
                index,
                output_ids@.len(),
                finish_reason@,
                prompt_tokens,
                completion_tokens,
                text_of(tail),
                text_of(fallback),
            ) == (self@, emitted@));
        }
        emitted
    }

    /// Converts one generation event into at most one chunk of the stream.
    pub fn convert_chunk(&mut self, event: Option<GenerationEvent>) -> (result: Result<
        Option<ChatCompletionStreamChunk>,
        ConvertError,
    >)
        ensures
            converted(old(self)@, event, final(self)@, result),
    {
        match event {
            None => Ok(None),
            Some(GenerationEvent::Error { message, status_code }) => {
                self.states.clear();
                assert(states_of(self.states@) =~= Map::<u32, StreamIndexStateView>::empty());
                Err(ConvertError { message, status_code })
            },
            Some(GenerationEvent::Chunk { index, token_ids, prompt_tokens, completion_tokens }) => {
                Ok(self.on_chunk(index, &token_ids, prompt_tokens, completion_tokens))
            },
            Some(
                GenerationEvent::Complete {
                    index,
                    output_ids,
                    finish_reason,
                    prompt_tokens,
                    completion_tokens,
                },
            ) => {
                Ok(
                    Some(
                        self.on_complete(
                            index,
                            &output_ids,
                            finish_reason,
                            prompt_tokens,
                            completion_tokens,
                        ),
                    ),
                )
            },
        }
    }
}

} // verus!
