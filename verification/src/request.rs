//! What a request gets before its stream starts: an identifier, and the
//! count of its prompt tokens.

use vstd::prelude::*;
use vstd::string::StringExecFns;
use crate::tool_call::is_lower_hex;

verus! {

/// `s` is the text of an identifier in the hyphenated form: 32 lower-case
/// hexadecimal digits in groups of 8, 4, 4, 4 and 12, with a hyphen between
/// the groups.
pub open spec fn is_uuid_text(s: Seq<char>) -> bool {
    &&& s.len() == 36
    &&& forall|i: int|
        0 <= i < 36 ==> if i == 8 || i == 13 || i == 18 || i == 23 {
            #[trigger] s[i] == '-'
        } else {
            is_lower_hex(s[i])
        }
}

/// `uuid::Uuid::new_v4` and the `to_string` of the result: a fresh random
/// identifier in the hyphenated form.
#[verifier::external_body]
fn fresh_uuid_text() -> (s: String)
    ensures
        is_uuid_text(s@),
{
    uuid::Uuid::new_v4().to_string()
}

/// The request identifier built on `uuid_text`.
pub open spec fn request_id_of(uuid_text: Seq<char>) -> Seq<char> {
    "chatcmpl-"@ + uuid_text
}

/// The request identifier built on `uuid_text`.
pub fn request_id_from(uuid_text: &str) -> (id: String)
    ensures
        id@ == request_id_of(uuid_text@),
{
    let mut id: String = "chatcmpl-".to_owned();
    id.append(uuid_text);
    id
}

/// A fresh request identifier: `chatcmpl-` followed by a fresh random
/// identifier in the hyphenated form.
pub fn fresh_request_id() -> (id: String)
    ensures
        exists|uuid_text: Seq<char>| is_uuid_text(uuid_text) && id@ == #[trigger] request_id_of(uuid_text),
{
    let fresh = fresh_uuid_text();
    request_id_from(fresh.as_str())
}

/// The number of prompt tokens as a 32-bit count; a number that such a count
/// cannot hold is given as the greatest that it can.
pub fn prompt_token_count(tokens: usize) -> (count: i32)
    ensures
        count == if tokens <= i32::MAX {
            tokens as int
        } else {
            i32::MAX as int
        },
{
    if tokens <= 0x7fff_ffff {
        tokens as i32
    } else {
        0x7fff_ffff
    }
}

} // verus!
