//! The decoding capability that the converter is given.

use vstd::prelude::*;

verus! {

/// The reason a tokenizer gave for not decoding a sequence of token ids.
pub struct DecodeError {
    pub message: String,
}

/// Turns token ids into text. An implementation may fail on any input; the
/// library treats a failure as text that is not available yet.
pub trait Tokenizer {
    fn decode(&self, token_ids: &[u32], skip_special_tokens: bool) -> Result<String, DecodeError>;
}

/// The text of an optional string.
pub open spec fn text_of(s: Option<String>) -> Option<Seq<char>> {
    match s {
        Some(t) => Some(t@),
        None => None,
    }
}

/// The text that a decoding produced, if it produced one.
pub open spec fn decoded_text(r: Result<String, DecodeError>) -> Option<Seq<char>> {
    match r {
        Ok(t) => Some(t@),
        Err(_) => None,
    }
}

/// Keeps the text of a successful decoding and drops the error of a failed
/// one.
pub fn ok_text(r: Result<String, DecodeError>) -> (t: Option<String>)
    ensures
        text_of(t) == decoded_text(r),
{
    match r {
        Ok(s) => Some(s),
        Err(_) => None,
    }
}

} // verus!
