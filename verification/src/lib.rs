//! Conversion of the token-level event stream of an inference engine into the
//! chunks of a chat-completion stream.
//!
//! * `tokenizer`: the decoding capability that a converter is given.
//! * `text`: search in character sequences, and decimal numerals.
//! * `decode_stream`: the incremental decoder of one output index.
//! * `stop`: the stop-sequence filter.
//! * `stop_laws`: what holds of the text that the filter gives out.
//! * `feed`: the tokens of one chunk through the decoder or the filter.
//! * `event`, `chunk`: what comes in and what goes out.
//! * `state`: what is kept for one output index.
//! * `tool_call`: tool parsers and the identifiers of tool calls.
//! * `converter`: one event in, at most one chunk out.
//! * `trace`: what holds of whole streams.
//! * `completion`: the answer to a request that does not stream.
//! * `request`: request identifiers and prompt-token counts.

pub mod chunk;
pub mod completion;
pub mod converter;
pub mod decode_stream;
pub mod event;
pub mod feed;
pub mod request;
pub mod state;
pub mod stop;
pub mod stop_laws;
pub mod text;
pub mod tokenizer;
pub mod tool_call;
pub mod trace;
