//! The events that the inference engine sends, and the failure that ends a
//! stream.

use vstd::prelude::*;
use vstd::string::StringExecFns;
use crate::text::{signed_decimal, signed_decimal_string};

verus! {

/// One event of the generation stream.
pub enum GenerationEvent {
    /// Newly generated tokens of one output index, with the running counts.
    Chunk { index: u32, token_ids: Vec<u32>, prompt_tokens: i32, completion_tokens: i32 },
    /// The end of one output index.
    Complete {
        index: u32,
        output_ids: Vec<u32>,
        finish_reason: String,
        prompt_tokens: i32,
        completion_tokens: i32,
    },
    /// A failure of the engine, which ends the whole stream.
    Error { message: String, status_code: i32 },
}

/// The failure that the engine reported.
pub struct ConvertError {
    pub message: String,
    pub status_code: i32,
}

/// The text that describes a failure with the given message and status.
pub open spec fn error_text(message: Seq<char>, status_code: int) -> Seq<char> {
    "Server error: "@ + message + " (status: "@ + signed_decimal(status_code) + ")"@
}

impl ConvertError {
    /// The description of the failure.
    pub fn describe(&self) -> (s: String)
        ensures
            s@ == error_text(self.message@, self.status_code as int),
    {
        let mut s: String = "Server error: ".to_owned();
        s.append(self.message.as_str());
        s.append(" (status: ");
        let code = signed_decimal_string(self.status_code as i128);
        s.append(code.as_str());
        s.append(")");
        s
    }
}

} // verus!
