//! Tool calls: what a request declares, what a tool parser finds in buffered
//! text, and the identifiers that emitted calls get.

use vstd::prelude::*;
use vstd::string::StringExecFns;
use crate::chunk::{deltas_of, ToolCallDelta, ToolCallDeltaView};
use crate::text::{contains, decimal, decimal_string, occurs_in, to_chars};
use crate::tokenizer::text_of;

verus! {

/// A function that the request declares.
pub struct Tool {
    pub name: String,
}

/// How the request lets the model choose among its tools.
pub enum ToolChoice {
    /// No tool may be called.
    Disabled,
    /// The model decides.
    Auto,
    /// Some tool has to be called.
    Required,
    /// The named function has to be called.
    Function(String),
}

/// One tool call found in buffered text. A call that starts carries the
/// function's name; a call that goes on carries more of its arguments only.
pub struct ToolCallItem {
    pub tool_index: usize,
    pub name: Option<String>,
    pub parameters: String,
}

pub struct ToolCallItemView {
    pub tool_index: usize,
    pub name: Option<Seq<char>>,
    pub parameters: Seq<char>,
}

impl View for ToolCallItem {
    type V = ToolCallItemView;

    open spec fn view(&self) -> ToolCallItemView {
        ToolCallItemView {
            tool_index: self.tool_index,
            name: text_of(self.name),
            parameters: self.parameters@,
        }
    }
}

/// What a tool parser makes of buffered text: the plain content in it, the
/// tool calls in it, and the rest, which it cannot attribute yet.
pub struct ToolParse {
    pub normal_text: String,
    pub calls: Vec<ToolCallItem>,
    pub remaining: String,
}

/// Finds tool calls in the buffered text of one output index. An
/// implementation may keep state between calls.
pub trait ToolParser {
    fn parse(&mut self, buffered: &str) -> ToolParse;
}

/// The parser that finds no tool call: all text is plain content.
pub struct PlainText {}

impl ToolParser for PlainText {
    fn parse(&mut self, buffered: &str) -> (r: ToolParse)
        ensures
            r.normal_text@ == buffered@,
            r.calls@.len() == 0,
            r.remaining@.len() == 0,
    {
        ToolParse { normal_text: buffered.to_owned(), calls: Vec::new(), remaining: String::new() }
    }
}

/// The lower-case form of a text, as `str::to_lowercase` gives it.
pub uninterp spec fn lowercase(s: Seq<char>) -> Seq<char>;

/// `str::to_lowercase`: the result is the lower-case form of the argument,
/// which the Unicode tables of the standard library determine.
#[verifier::external_body]
pub(crate) fn lowered_model(model: &str) -> (r: String)
    ensures
        r@ == lowercase(model@),
{
    model.to_lowercase()
}

/// A lower-case hexadecimal digit.
pub open spec fn is_lower_hex(c: char) -> bool {
    ('0' as u32 <= c as u32 && c as u32 <= '9' as u32) || ('a' as u32 <= c as u32 && c as u32
        <= 'f' as u32)
}

/// `uuid::Uuid::new_v4`, `Uuid::simple` and the `to_string` of the result: a
/// fresh random identifier written as 32 lower-case hexadecimal digits.
#[verifier::external_body]
fn fresh_uuid_hex() -> (s: String)
    ensures
        s@.len() == 32,
        forall|i: int| 0 <= i < 32 ==> is_lower_hex(#[trigger] s@[i]),
{
    uuid::Uuid::new_v4().simple().to_string()
}

/// The marker in a model's name, written in lower case, that asks for
/// identifiers tied to the order of the calls.
pub open spec fn vendor_marker() -> Seq<char> {
    "kimi"@
}

/// Whether a model's name, given in lower case, holds the vendor marker.
pub open spec fn is_vendor_model(lowered_model: Seq<char>) -> bool {
    occurs_in(lowered_model, vendor_marker())
}

/// The identifier tied to the order of the calls: the function's name and
/// the number of the call, counted over the calls of the history and of this
/// message.
pub open spec fn vendor_call_id(function_name: Seq<char>, index: nat, history: nat) -> Seq<char> {
    "functions."@ + function_name + ":"@ + decimal(history + index)
}

/// The opaque identifier made of the first 24 digits of `uuid_hex`.
pub open spec fn opaque_call_id(uuid_hex: Seq<char>) -> Seq<char> {
    "call_"@ + uuid_hex.take(24)
}

/// `id` is `call_` followed by exactly 24 lower-case hexadecimal digits.
pub open spec fn is_opaque_call_id(id: Seq<char>) -> bool {
    &&& id.len() == 29
    &&& id.take(5) == "call_"@
    &&& forall|i: int| 5 <= i < 29 ==> is_lower_hex(#[trigger] id[i])
}

/// `id` is an identifier that a call of `function_name` may get under a model
/// whose name in lower case is `lowered_model`.
pub open spec fn is_tool_call_id(
    lowered_model: Seq<char>,
    function_name: Seq<char>,
    index: nat,
    history: nat,
    id: Seq<char>,
) -> bool {
    if is_vendor_model(lowered_model) {
        id == vendor_call_id(function_name, index, history)
    } else {
        is_opaque_call_id(id)
    }
}

/// Whether a model's name, given in lower case, holds the vendor marker.
pub fn names_vendor(lowered_model: &str) -> (b: bool)
    ensures
        b == is_vendor_model(lowered_model@),
{
    let name = to_chars(lowered_model);
    let marker = to_chars("kimi");
    contains(name.as_slice(), marker.as_slice())
}

/// The identifier tied to the order of the calls.
pub fn vendor_tool_call_id(function_name: &str, index: usize, history_tool_calls_count: usize) -> (id:
    String)
    ensures
        id@ == vendor_call_id(function_name@, index as nat, history_tool_calls_count as nat),
{
    let mut id: String = "functions.".to_owned();
    id.append(function_name);
    id.append(":");
    let number = decimal_string(history_tool_calls_count as u128 + index as u128);
    id.append(number.as_str());
    id
}

/// The opaque identifier made of the first 24 characters of `uuid_hex`.
pub fn opaque_tool_call_id(uuid_hex: &str) -> (id: String)
    requires
        uuid_hex@.len() >= 24,
    ensures
        id@ == opaque_call_id(uuid_hex@),
{
    let mut id: String = "call_".to_owned();
    id.append(uuid_hex.substring_char(0, 24));
    id
}

/// An opaque identifier built on 24 lower-case hexadecimal digits is `call_`
/// followed by exactly those.
pub proof fn lemma_opaque_call_id(uuid_hex: Seq<char>)
    requires
        uuid_hex.len() >= 24,
        forall|i: int| 0 <= i < 24 ==> is_lower_hex(#[trigger] uuid_hex[i]),
    ensures
        is_opaque_call_id(opaque_call_id(uuid_hex)),
{
    reveal_strlit("call_");
    let id = opaque_call_id(uuid_hex);
    assert(id.take(5) =~= "call_"@);
    assert forall|i: int| 5 <= i < 29 implies is_lower_hex(#[trigger] id[i]) by {
        assert(id[i] == uuid_hex[i - 5]);
    }
}

/// Under a model whose name holds the vendor marker the identifier of a call
/// is determined by the function's name, the position of the call and the
/// number of calls in the history: two identifiers for the same call are the
/// same.
pub proof fn law_vendor_ids_are_determined(
    lowered_model: Seq<char>,
    function_name: Seq<char>,
    index: nat,
    history: nat,
    id: Seq<char>,
    again: Seq<char>,
)
    requires
        is_vendor_model(lowered_model),
        is_tool_call_id(lowered_model, function_name, index, history, id),
        is_tool_call_id(lowered_model, function_name, index, history, again),
    ensures
        id == again,
        id == vendor_call_id(function_name, index, history),
{
}

/// The identifier of a tool call, for a model whose name is given in lower
/// case: tied to the order of the calls where the name holds the vendor
/// marker, and else `call_` followed by 24 digits of a fresh random
/// identifier.
pub fn tool_call_id_for(
    lowered_model: &str,
    function_name: &str,
    index: usize,
    history_tool_calls_count: usize,
) -> (id: String)
    ensures
        is_tool_call_id(
            lowered_model@,
            function_name@,
            index as nat,
            history_tool_calls_count as nat,
            id@,
        ),
{
    if names_vendor(lowered_model) {
        vendor_tool_call_id(function_name, index, history_tool_calls_count)
    } else {
        let fresh = fresh_uuid_hex();
        proof {
            lemma_opaque_call_id(fresh@);
        }
        opaque_tool_call_id(fresh.as_str())
    }
}

/// The identifier of a tool call. The model's name is read without regard to
/// case.
pub fn generate_tool_call_id(
    model: &str,
    function_name: &str,
    index: usize,
    history_tool_calls_count: usize,
) -> (id: String)
    ensures
        is_tool_call_id(
            lowercase(model@),
            function_name@,
            index as nat,
            history_tool_calls_count as nat,
            id@,
        ),
{
    let lowered = lowered_model(model);
    tool_call_id_for(lowered.as_str(), function_name, index, history_tool_calls_count)
}

/// `delta` is the delta that the parsed call `item` is emitted as: same
/// position, name and arguments, and an identifier exactly where the call
/// starts.
pub open spec fn is_delta_of(
    lowered_model: Seq<char>,
    history: nat,
    item: ToolCallItemView,
    delta: ToolCallDeltaView,
) -> bool {
    &&& delta.index == item.tool_index
    &&& delta.name == item.name
    &&& delta.arguments == item.parameters
    &&& match item.name {
        Some(name) => delta.id is Some && is_tool_call_id(
            lowered_model,
            name,
            item.tool_index as nat,
            history,
            delta.id->0,
        ),
        None => delta.id is None,
    }
}

/// `deltas` are the deltas that the parsed calls `items` are emitted as, one
/// for one and in order.
pub open spec fn are_deltas_of(
    lowered_model: Seq<char>,
    history: nat,
    items: Seq<ToolCallItem>,
    deltas: Seq<ToolCallDeltaView>,
) -> bool {
    &&& deltas.len() == items.len()
    &&& forall|i: int|
        0 <= i < items.len() ==> is_delta_of(lowered_model, history, items[i]@, #[trigger] deltas[i])
}

/// The deltas that parsed calls are emitted as, for a model whose name is
/// given in lower case.
pub fn tool_call_deltas(
    lowered_model: &str,
    history_tool_calls_count: usize,
    items: &Vec<ToolCallItem>,
) -> (deltas: Vec<ToolCallDelta>)
    ensures
        are_deltas_of(
            lowered_model@,
            history_tool_calls_count as nat,
            items@,
            deltas_of(deltas@),
        ),
{
    let mut deltas: Vec<ToolCallDelta> = Vec::new();
    let mut i: usize = 0;
    while i < items.len()
        invariant
            i <= items.len(),
            deltas.len() == i,
            forall|j: int|
                0 <= j < i ==> is_delta_of(
                    lowered_model@,
                    history_tool_calls_count as nat,
                    items@[j]@,
                    (#[trigger] deltas@[j])@,
                ),
        decreases items.len() - i,
    {
        let item = &items[i];
        let (id, name) = match &item.name {
            Some(name) => (
                Some(
                    tool_call_id_for(
                        lowered_model,
                        name.as_str(),
                        item.tool_index,
                        history_tool_calls_count,
                    ),
                ),
                Some(name.clone()),
            ),
            None => (None, None),
        };
        deltas.push(
            ToolCallDelta { index: item.tool_index, id, name, arguments: item.parameters.clone() },
        );
        i += 1;
    }
    deltas
}

} // verus!
