use sgl_chat_stream::chunk::ToolCallDelta;
use sgl_chat_stream::state::{ParsedText, StreamIndexState};

fn later_state(buffer: &str) -> StreamIndexState {
    let mut state = StreamIndexState::new(false);
    state.is_first_chunk = false;
    state.buffer = buffer.to_string();
    state
}

#[test]
fn new_state_awaits_its_first_text() {
    let state = StreamIndexState::new(true);
    assert!(state.is_first_chunk);
    assert_eq!(state.buffer, "");
    assert_eq!(state.prompt_tokens, None);
    assert_eq!(state.completion_tokens, None);
    assert!(!state.has_tool_calls);
    assert!(state.decoder.context.is_empty() && state.decoder.held.is_empty());
    assert!(state.decoder.skip_special_tokens);
}

#[test]
fn record_counts_takes_a_prompt_count_other_than_zero() {
    let mut state = StreamIndexState::new(false);
    state.record_counts(12, 1, Some(99));
    assert_eq!(state.prompt_tokens, Some(12));
    assert_eq!(state.completion_tokens, Some(1));
    state.record_counts(13, 2, Some(99));
    assert_eq!(state.prompt_tokens, Some(13));
    state.record_counts(-4, 3, Some(99));
    assert_eq!(state.prompt_tokens, Some(-4));
}

#[test]
fn record_counts_falls_back_to_the_initial_count_once() {
    let mut state = StreamIndexState::new(false);
    state.record_counts(0, 1, Some(99));
    assert_eq!(state.prompt_tokens, Some(99));
    state.record_counts(0, 2, Some(55));
    assert_eq!(state.prompt_tokens, Some(99));

    let mut bare = StreamIndexState::new(false);
    bare.record_counts(0, 1, None);
    assert_eq!(bare.prompt_tokens, None);
    bare.record_counts(7, 2, None);
    bare.record_counts(0, 3, Some(1));
    assert_eq!(bare.prompt_tokens, Some(7));
}

#[test]
fn record_counts_replaces_the_completion_count() {
    let mut state = StreamIndexState::new(false);
    state.record_counts(1, 5, None);
    state.record_counts(1, 9, None);
    assert_eq!(state.completion_tokens, Some(9));
    state.record_counts(1, 3, None);
    assert_eq!(state.completion_tokens, Some(3));
    state.record_counts(1, 0, None);
    assert_eq!(state.completion_tokens, Some(0));
}

#[test]
fn first_chunk_announces_the_role() {
    let mut state = StreamIndexState::new(false);
    let delta = state.take_chunk("Hel".to_string(), None).unwrap();
    assert_eq!(delta.role.as_deref(), Some("assistant"));
    assert_eq!(delta.content.as_deref(), Some("Hel"));
    assert!(delta.tool_calls.is_none());
    assert!(!state.is_first_chunk);
    assert_eq!(state.buffer, "");

    let mut silent = StreamIndexState::new(false);
    let delta = silent.take_chunk(String::new(), None).unwrap();
    assert_eq!(delta.role.as_deref(), Some("assistant"));
    assert!(delta.content.is_none());
    assert!(!silent.is_first_chunk);
}

#[test]
fn later_chunk_without_text_emits_nothing() {
    let mut state = later_state("kept");
    assert!(state.take_chunk(String::new(), None).is_none());
    assert_eq!(state.buffer, "kept");
}

#[test]
fn later_chunk_delivers_the_buffer_with_the_text() {
    let mut state = later_state("");
    let delta = state.take_chunk("lo".to_string(), None).unwrap();
    assert!(delta.role.is_none());
    assert_eq!(delta.content.as_deref(), Some("lo"));
    assert_eq!(state.buffer, "");

    let mut held = later_state("<tool");
    let delta = held.take_chunk(" x".to_string(), None).unwrap();
    assert_eq!(delta.content.as_deref(), Some("<tool x"));
    assert_eq!(held.buffer, "");
}

#[test]
fn text_for_parser_is_the_buffer_and_the_text() {
    let state = later_state("<tool");
    assert_eq!(state.text_for_parser("_call>"), Some("<tool_call>".to_string()));
    assert_eq!(state.text_for_parser(""), None);
    let first = StreamIndexState::new(false);
    assert_eq!(first.text_for_parser("abc"), None);
}

#[test]
fn parsed_chunk_delivers_what_the_parser_found() {
    let mut state = later_state("<to");
    let parsed = ParsedText {
        normal_text: "Sure. ".to_string(),
        deltas: vec![ToolCallDelta {
            index: 0,
            id: Some("functions.f:0".to_string()),
            name: Some("f".to_string()),
            arguments: "{}".to_string(),
        }],
        remaining: "<to".to_string(),
    };
    let delta = state.take_chunk("ol".to_string(), Some(parsed)).unwrap();
    assert!(delta.role.is_none());
    assert_eq!(delta.content.as_deref(), Some("Sure. "));
    let calls = delta.tool_calls.unwrap();
    assert_eq!(calls.len(), 1);
    assert_eq!(calls[0].name.as_deref(), Some("f"));
    assert_eq!(state.buffer, "<to");
    assert!(state.has_tool_calls);
}

#[test]
fn parsed_chunk_with_nothing_found_emits_nothing() {
    let mut state = later_state("<to");
    let parsed = ParsedText {
        normal_text: String::new(),
        deltas: vec![],
        remaining: "<tool".to_string(),
    };
    assert!(state.take_chunk("ol".to_string(), Some(parsed)).is_none());
    assert_eq!(state.buffer, "<tool");
    assert!(!state.has_tool_calls);
}

#[test]
fn parsed_chunk_with_calls_only_has_no_content() {
    let mut state = later_state("");
    let parsed = ParsedText {
        normal_text: String::new(),
        deltas: vec![ToolCallDelta {
            index: 1,
            id: None,
            name: None,
            arguments: "\"x\"}".to_string(),
        }],
        remaining: String::new(),
    };
    let delta = state.take_chunk("\"x\"}".to_string(), Some(parsed)).unwrap();
    assert!(delta.content.is_none());
    assert_eq!(delta.tool_calls.unwrap()[0].arguments, "\"x\"}");
    assert!(state.has_tool_calls);
}
