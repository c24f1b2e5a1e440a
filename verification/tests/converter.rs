use sgl_chat_stream::chunk::{ChatCompletionStreamChunk, ChatMessageDelta, Usage};
use sgl_chat_stream::converter::{needs_fallback, ResponseConverter};
use sgl_chat_stream::event::GenerationEvent;
use sgl_chat_stream::state::StreamIndexState;
use sgl_chat_stream::tokenizer::{DecodeError, Tokenizer};
use sgl_chat_stream::tool_call::{PlainText, Tool, ToolCallItem, ToolChoice, ToolParse, ToolParser};

/// Decodes each token id to the word at that position of a vocabulary.
struct Vocabulary {
    words: Vec<&'static str>,
}

impl Tokenizer for Vocabulary {
    fn decode(&self, token_ids: &[u32], _skip_special_tokens: bool) -> Result<String, DecodeError> {
        let mut text = String::new();
        for id in token_ids {
            match self.words.get(*id as usize) {
                Some(word) => text.push_str(word),
                None => return Err(DecodeError { message: format!("unknown token {}", id) }),
            }
        }
        Ok(text)
    }
}

fn hello_vocabulary() -> Vocabulary {
    Vocabulary { words: vec!["Hel", "lo", "go ", "END", " now", "", "E", "N", "D", "x"] }
}

fn plain_converter(
    stop: Option<Vec<String>>,
    stop_token_ids: Option<Vec<u32>>,
) -> ResponseConverter<Vocabulary, PlainText> {
    ResponseConverter::new(
        hello_vocabulary(),
        None,
        "test-model".to_string(),
        "chatcmpl-1".to_string(),
        1700000000,
        None,
        None,
        stop,
        stop_token_ids,
        true,
    )
}

fn chunk(index: u32, token_ids: Vec<u32>, prompt_tokens: i32, completion_tokens: i32) -> Option<GenerationEvent> {
    Some(GenerationEvent::Chunk { index, token_ids, prompt_tokens, completion_tokens })
}

fn complete(
    index: u32,
    output_ids: Vec<u32>,
    finish_reason: &str,
    prompt_tokens: i32,
    completion_tokens: i32,
) -> Option<GenerationEvent> {
    Some(GenerationEvent::Complete {
        index,
        output_ids,
        finish_reason: finish_reason.to_string(),
        prompt_tokens,
        completion_tokens,
    })
}

fn emitted<T: Tokenizer>(
    converter: &mut ResponseConverter<T, PlainText>,
    event: Option<GenerationEvent>,
) -> Option<ChatCompletionStreamChunk> {
    match converter.convert_chunk(event) {
        Ok(chunk) => chunk,
        Err(e) => panic!("unexpected failure: {}", e.describe()),
    }
}

#[test]
fn two_chunks_then_complete_stream_hello() {
    let mut converter = plain_converter(None, None);

    let first = emitted(&mut converter, chunk(0, vec![0], 5, 1)).unwrap();
    assert_eq!(first.id, "chatcmpl-1");
    assert_eq!(first.object, "chat.completion.chunk");
    assert_eq!(first.created, 1700000000);
    assert_eq!(first.model, "test-model");
    assert_eq!(first.system_fingerprint.as_deref(), Some("fp_sglang_node"));
    assert_eq!(first.choice.index, 0);
    assert_eq!(first.choice.delta.role.as_deref(), Some("assistant"));
    assert_eq!(first.choice.delta.content.as_deref(), Some("Hel"));
    assert!(first.choice.delta.tool_calls.is_none());
    assert!(first.choice.finish_reason.is_none());
    assert!(first.usage.is_none());

    let second = emitted(&mut converter, chunk(0, vec![1], 5, 2)).unwrap();
    assert!(second.choice.delta.role.is_none());
    assert_eq!(second.choice.delta.content.as_deref(), Some("lo"));
    assert!(second.choice.finish_reason.is_none());
    assert!(second.usage.is_none());

    let last = emitted(&mut converter, complete(0, vec![], "", 5, 2)).unwrap();
    assert!(last.choice.delta.role.is_none());
    assert!(last.choice.delta.content.is_none());
    assert_eq!(last.choice.finish_reason.as_deref(), Some("stop"));
    assert!(last.choice.matched_stop.is_none());
    assert_eq!(last.usage, Some(Usage { prompt_tokens: 5, completion_tokens: 2, total_tokens: 7 }));
    assert!(converter.states.is_empty());
}

#[test]
fn stop_sequence_truncates_and_drops_the_rest() {
    let mut converter = plain_converter(Some(vec!["END".to_string()]), None);

    let first = emitted(&mut converter, chunk(0, vec![2, 3, 4], 3, 3)).unwrap();
    assert_eq!(first.choice.delta.role.as_deref(), Some("assistant"));
    assert_eq!(first.choice.delta.content.as_deref(), Some("go "));

    assert!(emitted(&mut converter, chunk(0, vec![4, 0, 1], 3, 6)).is_none());

    let last = emitted(&mut converter, complete(0, vec![], "stop", 3, 6)).unwrap();
    assert!(last.choice.delta.content.is_none());
    assert_eq!(last.choice.finish_reason.as_deref(), Some("stop"));
}

#[test]
fn stop_sequence_split_over_tokens_is_held_then_trimmed() {
    let mut converter = plain_converter(Some(vec!["END".to_string()]), None);

    let first = emitted(&mut converter, chunk(0, vec![2], 3, 1)).unwrap();
    assert_eq!(first.choice.delta.content.as_deref(), Some("go "));
    // "E" and "EN" may be the beginning of the stop string: nothing comes out.
    assert!(emitted(&mut converter, chunk(0, vec![6], 3, 2)).is_none());
    assert!(emitted(&mut converter, chunk(0, vec![7], 3, 3)).is_none());
    // "ENx" is not: the held text is released with the new text.
    let released = emitted(&mut converter, chunk(0, vec![9], 3, 4)).unwrap();
    assert_eq!(released.choice.delta.content.as_deref(), Some("ENx"));
    assert!(emitted(&mut converter, chunk(0, vec![6, 7], 3, 6)).is_none());
    assert!(emitted(&mut converter, chunk(0, vec![8, 4], 3, 8)).is_none());
    assert!(converter.stop_filter.as_ref().unwrap().stopped);
}

/// Takes each token id as one byte and decodes the bytes as UTF-8; token 255
/// cannot be decoded.
struct Utf8Bytes;

impl Tokenizer for Utf8Bytes {
    fn decode(&self, token_ids: &[u32], _skip_special_tokens: bool) -> Result<String, DecodeError> {
        if token_ids.contains(&255) {
            return Err(DecodeError { message: "bad token".to_string() });
        }
        let bytes: Vec<u8> = token_ids.iter().map(|id| *id as u8).collect();
        Ok(String::from_utf8_lossy(&bytes).into_owned())
    }
}

fn byte_converter() -> ResponseConverter<Utf8Bytes, PlainText> {
    ResponseConverter::new(
        Utf8Bytes,
        None,
        "bytes".to_string(),
        "chatcmpl-2".to_string(),
        1,
        None,
        None,
        None,
        None,
        false,
    )
}

#[test]
fn new_converter_has_no_live_index() {
    let converter = plain_converter(None, None);
    assert!(converter.states.is_empty());
    assert!(converter.stop_filter.is_none());
    assert!(converter.tool_parser.is_none());
    assert_eq!(converter.model, "test-model");
    assert_eq!(converter.request_id, "chatcmpl-1");
    assert_eq!(converter.created, 1700000000);
    assert_eq!(converter.system_fingerprint.as_deref(), Some("fp_sglang_node"));
    assert_eq!(converter.history_tool_calls_count, 0);
    assert_eq!(converter.initial_prompt_tokens, None);
    assert!(converter.skip_special_tokens);
    assert!(!converter.tools_enabled());
}

#[test]
fn new_converter_makes_a_filter_for_stops() {
    let with_strings = plain_converter(Some(vec!["END".to_string(), "\n".to_string()]), None);
    let filter = with_strings.stop_filter.as_ref().unwrap();
    assert_eq!(filter.stop_sequences, vec![vec!['E', 'N', 'D'], vec!['\n']]);
    assert!(filter.stop_token_ids.is_empty());
    assert!(filter.trim_stop);
    assert!(!filter.stopped);

    let with_tokens = plain_converter(None, Some(vec![7, 8]));
    let filter = with_tokens.stop_filter.as_ref().unwrap();
    assert!(filter.stop_sequences.is_empty());
    assert_eq!(filter.stop_token_ids, vec![7, 8]);

    let with_empty = plain_converter(Some(vec![]), None);
    assert!(with_empty.stop_filter.is_some());
}

#[test]
fn no_event_emits_nothing() {
    let mut converter = plain_converter(None, None);
    assert!(emitted(&mut converter, None).is_none());
    assert!(converter.states.is_empty());
}

#[test]
fn engine_failure_ends_the_stream() {
    let mut converter = plain_converter(None, None);
    emitted(&mut converter, chunk(0, vec![0], 5, 1));
    emitted(&mut converter, chunk(1, vec![0], 5, 1));
    assert_eq!(converter.states.len(), 2);
    let event = Some(GenerationEvent::Error { message: "boom".to_string(), status_code: 500 });
    match converter.convert_chunk(event) {
        Ok(_) => panic!("a failure of the engine has to be handed on"),
        Err(e) => {
            assert_eq!(e.message, "boom");
            assert_eq!(e.status_code, 500);
            assert_eq!(e.describe(), "Server error: boom (status: 500)");
        }
    }
    assert!(converter.states.is_empty());
}

#[test]
fn engine_failure_is_described_with_a_negative_status() {
    let mut converter = plain_converter(None, None);
    let event = Some(GenerationEvent::Error { message: String::new(), status_code: -1 });
    match converter.convert_chunk(event) {
        Ok(_) => panic!("a failure of the engine has to be handed on"),
        Err(e) => assert_eq!(e.describe(), "Server error:  (status: -1)"),
    }
}

#[test]
fn role_is_announced_once_for_every_index() {
    let mut converter = plain_converter(None, None);
    let events = vec![
        chunk(0, vec![0], 5, 1),
        chunk(1, vec![2], 5, 1),
        chunk(0, vec![1], 5, 2),
        chunk(1, vec![4], 5, 2),
        chunk(2, vec![], 5, 0),
        chunk(2, vec![9], 5, 1),
        complete(1, vec![], "stop", 5, 2),
        complete(0, vec![], "length", 5, 2),
        complete(2, vec![], "", 5, 1),
    ];
    let mut roles: Vec<(u32, Option<String>)> = Vec::new();
    for event in events {
        if let Some(c) = emitted(&mut converter, event) {
            roles.push((c.choice.index, c.choice.delta.role));
        }
    }
    for index in 0..3u32 {
        let of_index: Vec<&Option<String>> =
            roles.iter().filter(|(i, _)| *i == index).map(|(_, r)| r).collect();
        assert_eq!(of_index.len(), 3);
        assert_eq!(of_index[0].as_deref(), Some("assistant"));
        assert!(of_index[1..].iter().all(|r| r.is_none()));
    }
}

#[test]
fn first_chunk_without_text_announces_the_role() {
    let mut converter = plain_converter(None, None);
    let first = emitted(&mut converter, chunk(3, vec![], 0, 0)).unwrap();
    assert_eq!(first.choice.index, 3);
    assert_eq!(first.choice.delta.role.as_deref(), Some("assistant"));
    assert!(first.choice.delta.content.is_none());
    assert!(!converter.states[&3].is_first_chunk);
}

#[test]
fn chunks_without_text_emit_nothing_after_the_first() {
    let mut converter = plain_converter(None, None);
    let events = vec![
        chunk(0, vec![0], 5, 1),
        chunk(0, vec![], 5, 1),
        chunk(0, vec![5], 5, 2),
        chunk(0, vec![5, 5], 5, 4),
        chunk(0, vec![99], 5, 5),
    ];
    let count = events.len();
    let mut emissions = 0;
    for (i, event) in events.into_iter().enumerate() {
        let out = emitted(&mut converter, event);
        assert_eq!(out.is_some(), i == 0);
        if out.is_some() {
            emissions += 1;
        }
    }
    assert_eq!(emissions, 1);
    assert!(emissions <= count);
    // The counts are taken in all the same.
    assert_eq!(converter.states[&0].completion_tokens, Some(5));
}

#[test]
fn every_event_emits_where_every_chunk_has_text() {
    let mut converter = plain_converter(None, None);
    let events = vec![
        chunk(0, vec![0], 5, 1),
        chunk(0, vec![1], 5, 2),
        chunk(1, vec![5], 5, 1),
        chunk(1, vec![2], 5, 2),
        complete(0, vec![], "", 5, 2),
        complete(1, vec![], "", 5, 2),
    ];
    let count = events.len();
    let mut emissions = 0;
    for event in events {
        if emitted(&mut converter, event).is_some() {
            emissions += 1;
        }
    }
    assert_eq!(emissions, count);
}

#[test]
fn indices_decode_apart_from_each_other() {
    let mut converter = byte_converter();
    let a = emitted(&mut converter, chunk(0, vec![b'a' as u32], 1, 1)).unwrap();
    assert_eq!(a.choice.delta.content.as_deref(), Some("a"));
    let b = emitted(&mut converter, chunk(1, vec![b'b' as u32], 1, 1)).unwrap();
    assert_eq!(b.choice.delta.content.as_deref(), Some("b"));
    // Index 0 gets the first byte of a character, index 1 a whole one.
    assert!(emitted(&mut converter, chunk(0, vec![0xc3], 1, 2)).is_none());
    let c = emitted(&mut converter, chunk(1, vec![b'c' as u32], 1, 2)).unwrap();
    assert_eq!(c.choice.index, 1);
    assert_eq!(c.choice.delta.content.as_deref(), Some("c"));
    let d = emitted(&mut converter, chunk(0, vec![0xa9, b'!' as u32], 1, 4)).unwrap();
    assert_eq!(d.choice.index, 0);
    assert_eq!(d.choice.delta.content.as_deref(), Some("\u{e9}!"));
    assert_eq!(converter.states[&0].decoder.context, vec![b'!' as u32]);
    assert_eq!(converter.states[&1].decoder.context, vec![b'c' as u32]);
}

#[test]
fn last_chunk_carries_what_the_decoder_held() {
    let mut converter = byte_converter();
    emitted(&mut converter, chunk(0, vec![b'a' as u32], 1, 1));
    assert!(emitted(&mut converter, chunk(0, vec![0xc3], 1, 2)).is_none());
    let last = emitted(&mut converter, complete(0, vec![b'a' as u32, 0xc3], "length", 1, 2)).unwrap();
    assert_eq!(last.choice.delta.content.as_deref(), Some("\u{fffd}"));
    assert_eq!(last.choice.finish_reason.as_deref(), Some("length"));
    assert!(converter.states.is_empty());
}

#[test]
fn last_chunk_carries_what_the_filter_held() {
    let mut converter = plain_converter(Some(vec!["END".to_string()]), None);
    let first = emitted(&mut converter, chunk(0, vec![2, 6, 7], 3, 3)).unwrap();
    assert_eq!(first.choice.delta.content.as_deref(), Some("go "));
    let last = emitted(&mut converter, complete(0, vec![], "", 3, 3)).unwrap();
    assert_eq!(last.choice.delta.content.as_deref(), Some("EN"));
    assert_eq!(converter.stop_filter.as_ref().unwrap().jail, "");
}

#[test]
fn completion_tokens_are_those_of_the_last_chunk() {
    let mut converter = plain_converter(None, None);
    emitted(&mut converter, chunk(0, vec![0], 5, 1));
    emitted(&mut converter, chunk(0, vec![1], 5, 9));
    emitted(&mut converter, chunk(0, vec![9], 5, 4));
    let last = emitted(&mut converter, complete(0, vec![0, 1, 9], "stop", 77, 88)).unwrap();
    assert_eq!(last.usage, Some(Usage { prompt_tokens: 5, completion_tokens: 4, total_tokens: 9 }));
}

#[test]
fn output_tokens_are_counted_where_the_last_chunk_reported_none() {
    let mut converter = plain_converter(None, None);
    emitted(&mut converter, chunk(0, vec![0], 5, 0));
    let last = emitted(&mut converter, complete(0, vec![0, 1, 9], "stop", 5, 0)).unwrap();
    assert_eq!(last.usage, Some(Usage { prompt_tokens: 5, completion_tokens: 3, total_tokens: 8 }));

    let mut bare = plain_converter(None, None);
    emitted(&mut bare, chunk(0, vec![0], 5, 0));
    let last = emitted(&mut bare, complete(0, vec![], "stop", 5, 0)).unwrap();
    assert_eq!(last.usage, Some(Usage { prompt_tokens: 5, completion_tokens: 0, total_tokens: 5 }));
}

#[test]
fn prompt_tokens_fall_back_to_the_initial_count() {
    let mut converter = plain_converter(None, None);
    converter.initial_prompt_tokens = Some(21);
    emitted(&mut converter, chunk(0, vec![0], 0, 1));
    assert_eq!(converter.states[&0].prompt_tokens, Some(21));
    emitted(&mut converter, chunk(1, vec![0], 8, 1));
    assert_eq!(converter.states[&1].prompt_tokens, Some(8));
    emitted(&mut converter, chunk(1, vec![1], 0, 2));
    assert_eq!(converter.states[&1].prompt_tokens, Some(8));
    let last = emitted(&mut converter, complete(0, vec![], "stop", 0, 1)).unwrap();
    assert_eq!(last.usage, Some(Usage { prompt_tokens: 21, completion_tokens: 1, total_tokens: 22 }));
    let other = emitted(&mut converter, complete(1, vec![], "stop", 0, 2)).unwrap();
    assert_eq!(other.usage, Some(Usage { prompt_tokens: 8, completion_tokens: 2, total_tokens: 10 }));
}

#[test]
fn negative_counts_are_reported_as_zero() {
    let mut converter = plain_converter(None, None);
    emitted(&mut converter, chunk(0, vec![0], -5, -1));
    let last = emitted(&mut converter, complete(0, vec![], "stop", 3, 3)).unwrap();
    assert_eq!(last.usage, Some(Usage { prompt_tokens: 0, completion_tokens: 0, total_tokens: 0 }));
}

#[test]
fn closing_event_alone_decodes_the_output_tokens() {
    let mut converter = plain_converter(None, None);
    converter.initial_prompt_tokens = Some(4);
    let only = emitted(&mut converter, complete(0, vec![0, 1], "stop", 0, 0)).unwrap();
    assert!(only.choice.delta.role.is_none());
    assert_eq!(only.choice.delta.content.as_deref(), Some("Hello"));
    assert_eq!(only.choice.finish_reason.as_deref(), Some("stop"));
    assert_eq!(only.usage, Some(Usage { prompt_tokens: 4, completion_tokens: 2, total_tokens: 6 }));
    assert!(converter.states.is_empty());

    let counted = emitted(&mut converter, complete(5, vec![0, 1], "length", 9, 7)).unwrap();
    assert_eq!(counted.choice.index, 5);
    assert_eq!(counted.usage, Some(Usage { prompt_tokens: 9, completion_tokens: 7, total_tokens: 16 }));
}

#[test]
fn output_tokens_that_do_not_decode_give_no_content() {
    let mut converter = plain_converter(None, None);
    let only = emitted(&mut converter, complete(0, vec![0, 99], "", 2, 2)).unwrap();
    assert!(only.choice.delta.content.is_none());
    assert_eq!(only.choice.finish_reason.as_deref(), Some("stop"));
}

#[test]
fn state_of_an_index_ends_with_its_closing_event() {
    let mut converter = plain_converter(None, None);
    emitted(&mut converter, chunk(0, vec![0], 5, 1));
    emitted(&mut converter, chunk(1, vec![0], 5, 1));
    emitted(&mut converter, complete(0, vec![], "stop", 5, 1));
    assert!(!converter.states.contains_key(&0));
    assert!(converter.states.contains_key(&1));
    // A chunk for the index after that starts it anew.
    let again = emitted(&mut converter, chunk(0, vec![1], 5, 1)).unwrap();
    assert_eq!(again.choice.delta.role.as_deref(), Some("assistant"));
    assert_eq!(again.choice.delta.content.as_deref(), Some("lo"));
}

#[test]
fn stop_token_ends_the_text() {
    let mut converter = plain_converter(None, Some(vec![3]));
    let first = emitted(&mut converter, chunk(0, vec![0, 1, 3, 4], 2, 4)).unwrap();
    assert_eq!(first.choice.delta.content.as_deref(), Some("Hello"));
    assert!(converter.stop_filter.as_ref().unwrap().stopped);
    assert!(emitted(&mut converter, chunk(0, vec![4], 2, 5)).is_none());
}

/// Finds calls written as `<name>` and takes an unfinished `<...` as text
/// that it cannot attribute yet.
struct AngleCalls;

impl ToolParser for AngleCalls {
    fn parse(&mut self, buffered: &str) -> ToolParse {
        let mut normal_text = String::new();
        let mut calls = Vec::new();
        let mut rest = buffered;
        loop {
            match rest.find('<') {
                None => {
                    normal_text.push_str(rest);
                    return ToolParse { normal_text, calls, remaining: String::new() };
                }
                Some(open) => {
                    normal_text.push_str(&rest[..open]);
                    match rest[open..].find('>') {
                        None => {
                            return ToolParse { normal_text, calls, remaining: rest[open..].to_string() };
                        }
                        Some(close) => {
                            calls.push(ToolCallItem {
                                tool_index: calls.len(),
                                name: Some(rest[open + 1..open + close].to_string()),
                                parameters: "{}".to_string(),
                            });
                            rest = &rest[open + close + 1..];
                        }
                    }
                }
            }
        }
    }
}

struct Spelled(Vec<&'static str>);

impl Tokenizer for Spelled {
    fn decode(&self, token_ids: &[u32], _skip_special_tokens: bool) -> Result<String, DecodeError> {
        Ok(token_ids.iter().map(|id| self.0[*id as usize]).collect())
    }
}

fn tool_converter(model: &str, tool_choice: Option<ToolChoice>) -> ResponseConverter<Spelled, AngleCalls> {
    ResponseConverter::new(
        Spelled(vec!["Hi ", "<sea", "rch>", " done", "<a><b>", "<open"]),
        Some(AngleCalls),
        model.to_string(),
        "chatcmpl-3".to_string(),
        1,
        Some(vec![Tool { name: "search".to_string() }]),
        tool_choice,
        None,
        None,
        false,
    )
}

fn tool_emitted(
    converter: &mut ResponseConverter<Spelled, AngleCalls>,
    event: Option<GenerationEvent>,
) -> Option<ChatCompletionStreamChunk> {
    match converter.convert_chunk(event) {
        Ok(chunk) => chunk,
        Err(e) => panic!("unexpected failure: {}", e.describe()),
    }
}

#[test]
fn buffered_text_goes_through_the_tool_parser() {
    let mut converter = tool_converter("Kimi-K2", Some(ToolChoice::Auto));
    assert!(converter.tools_enabled());
    let first = tool_emitted(&mut converter, chunk(0, vec![0], 1, 1)).unwrap();
    assert_eq!(first.choice.delta.role.as_deref(), Some("assistant"));
    assert_eq!(first.choice.delta.content.as_deref(), Some("Hi "));
    // The beginning of a call is held back: nothing is emitted.
    assert!(tool_emitted(&mut converter, chunk(0, vec![1], 1, 2)).is_none());
    assert_eq!(converter.states[&0].buffer, "<sea");
    assert!(!converter.states[&0].has_tool_calls);
    // The call completes: it is emitted in place of content.
    let call = tool_emitted(&mut converter, chunk(0, vec![2], 1, 3)).unwrap();
    assert!(call.choice.delta.role.is_none());
    assert!(call.choice.delta.content.is_none());
    let calls = call.choice.delta.tool_calls.unwrap();
    assert_eq!(calls.len(), 1);
    assert_eq!(calls[0].index, 0);
    assert_eq!(calls[0].id.as_deref(), Some("functions.search:0"));
    assert_eq!(calls[0].name.as_deref(), Some("search"));
    assert_eq!(calls[0].arguments, "{}");
    assert_eq!(converter.states[&0].buffer, "");
    assert!(converter.states[&0].has_tool_calls);
    // Plain text behind it is content again.
    let text = tool_emitted(&mut converter, chunk(0, vec![3], 1, 4)).unwrap();
    assert_eq!(text.choice.delta.content.as_deref(), Some(" done"));
    assert!(text.choice.delta.tool_calls.is_none());
}

#[test]
fn several_calls_of_one_chunk_are_numbered_in_order() {
    let mut converter = tool_converter("kimi", None);
    converter.history_tool_calls_count = 10;
    tool_emitted(&mut converter, chunk(0, vec![0], 1, 1));
    let both = tool_emitted(&mut converter, chunk(0, vec![4], 1, 2)).unwrap();
    let calls = both.choice.delta.tool_calls.unwrap();
    assert_eq!(calls.len(), 2);
    assert_eq!(calls[0].id.as_deref(), Some("functions.a:10"));
    assert_eq!(calls[1].id.as_deref(), Some("functions.b:11"));
}

#[test]
fn text_that_the_parser_still_holds_ends_in_the_last_chunk() {
    let mut converter = tool_converter("llama", Some(ToolChoice::Required));
    tool_emitted(&mut converter, chunk(0, vec![0], 1, 1));
    assert!(tool_emitted(&mut converter, chunk(0, vec![5], 1, 2)).is_none());
    let last = tool_emitted(&mut converter, complete(0, vec![0, 5], "stop", 1, 2)).unwrap();
    assert_eq!(last.choice.delta.content.as_deref(), Some("<open"));
    assert!(last.choice.delta.tool_calls.is_none());
}

#[test]
fn forbidden_tools_leave_the_text_as_content() {
    let mut converter = tool_converter("kimi", Some(ToolChoice::Disabled));
    assert!(!converter.tools_enabled());
    tool_emitted(&mut converter, chunk(0, vec![0], 1, 1));
    let raw = tool_emitted(&mut converter, chunk(0, vec![1, 2], 1, 3)).unwrap();
    assert_eq!(raw.choice.delta.content.as_deref(), Some("<search>"));
    assert!(raw.choice.delta.tool_calls.is_none());
}

#[test]
fn parser_is_kept_only_where_tools_are_declared() {
    let without: ResponseConverter<Spelled, AngleCalls> = ResponseConverter::new(
        Spelled(vec![]),
        Some(AngleCalls),
        "m".to_string(),
        "r".to_string(),
        1,
        None,
        Some(ToolChoice::Auto),
        None,
        None,
        false,
    );
    assert!(without.tool_parser.is_none());
    assert!(!without.tools_enabled());
    let named = tool_converter("m", Some(ToolChoice::Function("search".to_string())));
    assert!(named.tool_parser.is_some());
    assert!(named.tools_enabled());
}

#[test]
fn parse_buffered_asks_the_parser() {
    let mut converter = tool_converter("kimi", None);
    let parsed = converter.parse_buffered("a<f>b<g").unwrap();
    assert_eq!(parsed.normal_text, "ab");
    assert_eq!(parsed.remaining, "<g");
    assert_eq!(parsed.deltas.len(), 1);
    assert_eq!(parsed.deltas[0].id.as_deref(), Some("functions.f:0"));
    let mut bare = plain_converter(None, None);
    assert!(bare.parse_buffered("a<f>").is_none());
}

#[test]
fn wrap_puts_the_delta_in_the_envelope_of_the_request() {
    let converter = plain_converter(None, None);
    let delta = ChatMessageDelta { role: None, content: Some("x".to_string()), tool_calls: None };
    let usage = Usage { prompt_tokens: 1, completion_tokens: 2, total_tokens: 3 };
    let c = converter.wrap(4, delta, Some("length".to_string()), Some(usage));
    assert_eq!(c.id, "chatcmpl-1");
    assert_eq!(c.object, "chat.completion.chunk");
    assert_eq!(c.created, 1700000000);
    assert_eq!(c.model, "test-model");
    assert_eq!(c.system_fingerprint.as_deref(), Some("fp_sglang_node"));
    assert_eq!(c.choice.index, 4);
    assert_eq!(c.choice.delta.content.as_deref(), Some("x"));
    assert_eq!(c.choice.finish_reason.as_deref(), Some("length"));
    assert!(c.choice.matched_stop.is_none());
    assert_eq!(c.usage, Some(usage));
}

#[test]
fn take_state_removes_the_state_of_the_index() {
    let mut converter = plain_converter(None, None);
    assert!(converter.take_state(0).is_none());
    emitted(&mut converter, chunk(0, vec![0], 5, 1));
    emitted(&mut converter, chunk(1, vec![0], 6, 2));
    let state = converter.take_state(0).unwrap();
    assert!(!state.is_first_chunk);
    assert_eq!(state.prompt_tokens, Some(5));
    assert_eq!(state.completion_tokens, Some(1));
    assert!(!converter.states.contains_key(&0));
    assert!(converter.states.contains_key(&1));
}

#[test]
fn settle_chunk_takes_decoded_text_as_it_is_given() {
    let mut converter = plain_converter(None, None);
    converter.initial_prompt_tokens = Some(30);
    let first = converter
        .settle_chunk(2, StreamIndexState::new(true), 0, 1, "Hel".to_string(), None)
        .unwrap();
    assert_eq!(first.choice.index, 2);
    assert_eq!(first.choice.delta.role.as_deref(), Some("assistant"));
    assert_eq!(first.choice.delta.content.as_deref(), Some("Hel"));
    assert_eq!(converter.states[&2].prompt_tokens, Some(30));
    assert_eq!(converter.states[&2].completion_tokens, Some(1));

    let state = converter.take_state(2).unwrap();
    assert!(converter.settle_chunk(2, state, 0, 2, String::new(), None).is_none());
    assert_eq!(converter.states[&2].completion_tokens, Some(2));

    let state = converter.take_state(2).unwrap();
    let second = converter.settle_chunk(2, state, 7, 3, "lo".to_string(), None).unwrap();
    assert!(second.choice.delta.role.is_none());
    assert_eq!(second.choice.delta.content.as_deref(), Some("lo"));
    assert!(second.choice.finish_reason.is_none());
    assert!(second.usage.is_none());
    assert_eq!(converter.states[&2].prompt_tokens, Some(7));
    assert_eq!(converter.states[&2].buffer, "");
}

#[test]
fn needs_fallback_only_without_text_and_with_output_tokens() {
    assert!(needs_fallback("", &None, 3));
    assert!(needs_fallback("", &Some(String::new()), 1));
    assert!(!needs_fallback("", &None, 0));
    assert!(!needs_fallback("a", &None, 3));
    assert!(!needs_fallback("", &Some("b".to_string()), 3));
}

#[test]
fn settle_completion_builds_the_last_chunk() {
    let mut converter = plain_converter(None, None);
    converter.initial_prompt_tokens = Some(30);
    let last = converter.settle_completion(
        1,
        "left".to_string(),
        Some(0),
        Some(0),
        4,
        String::new(),
        9,
        9,
        Some(" over".to_string()),
        Some("never used".to_string()),
    );
    assert_eq!(last.choice.index, 1);
    assert!(last.choice.delta.role.is_none());
    assert_eq!(last.choice.delta.content.as_deref(), Some("left over"));
    assert_eq!(last.choice.finish_reason.as_deref(), Some("stop"));
    assert_eq!(last.usage, Some(Usage { prompt_tokens: 30, completion_tokens: 4, total_tokens: 34 }));

    let decoded = converter.settle_completion(
        1,
        String::new(),
        None,
        None,
        2,
        "length".to_string(),
        9,
        8,
        None,
        Some("whole answer".to_string()),
    );
    assert_eq!(decoded.choice.delta.content.as_deref(), Some("whole answer"));
    assert_eq!(decoded.choice.finish_reason.as_deref(), Some("length"));
    assert_eq!(decoded.usage, Some(Usage { prompt_tokens: 9, completion_tokens: 8, total_tokens: 17 }));

    let nothing = converter.settle_completion(
        1,
        String::new(),
        None,
        None,
        0,
        "stop".to_string(),
        1,
        1,
        None,
        Some("not asked for".to_string()),
    );
    assert!(nothing.choice.delta.content.is_none());

    let failed = converter.settle_completion(
        1,
        String::new(),
        None,
        None,
        5,
        "stop".to_string(),
        1,
        1,
        None,
        None,
    );
    assert!(failed.choice.delta.content.is_none());
}
