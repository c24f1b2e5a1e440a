//! What holds of whole streams: a stream is a sequence of events, each with
//! what the tokenizer and the tool parser answered while it was handled.

use vstd::prelude::*;
use crate::chunk::{
    assistant_role, final_completion_tokens, final_prompt_tokens, final_usage,
    ChatCompletionStreamChunkView,
};
use crate::converter::{
    chunk_converted, chunk_outcome, complete_converted, complete_outcome, decoding_of, parsing_of,
    tail_of, Decoded, ResponseConverterView,
};
use crate::state::ParsedTextView;

verus! {

/// One handled event of a stream.
pub enum Step {
    /// A chunk event, with what decoding its tokens gave and what the tool
    /// parser made of the buffered text, where it was asked.
    Chunk {
        index: u32,
        prompt_tokens: i32,
        completion_tokens: i32,
        decoded: Decoded,
        parsed: Option<ParsedTextView>,
    },
    /// The closing event of an index, with the number of its output tokens,
    /// what flushing gave and the decoding of the output tokens.
    Complete {
        index: u32,
        outputs: nat,
        finish_reason: Seq<char>,
        prompt_tokens: i32,
        completion_tokens: i32,
        tail: Option<Seq<char>>,
        fallback: Option<Seq<char>>,
    },
}

/// The output index that a step belongs to.
pub open spec fn index_of(step: Step) -> u32 {
    match step {
        Step::Chunk { index, .. } => index,
        Step::Complete { index, .. } => index,
    }
}

/// The converter after a step, and the chunk emitted for it, if any.
pub open spec fn step_outcome(pre: ResponseConverterView, step: Step) -> (
    ResponseConverterView,
    Option<ChatCompletionStreamChunkView>,
) {
    match step {
        Step::Chunk { index, prompt_tokens, completion_tokens, decoded, parsed } => chunk_outcome(
            pre,
            index,
            prompt_tokens,
            completion_tokens,
            decoded,
            parsed,
        ),
        Step::Complete {
            index,
            outputs,
            finish_reason,
            prompt_tokens,
            completion_tokens,
            tail,
            fallback,
        } => {
            let (post, last) = complete_outcome(
                pre,
                index,
                outputs,
                finish_reason,
                prompt_tokens,
                completion_tokens,
                tail,
                fallback,
            );
            (post, Some(last))
        },
    }
}

/// The converter after all of `steps`.
pub open spec fn run(pre: ResponseConverterView, steps: Seq<Step>) -> ResponseConverterView
    decreases steps.len(),
{
    if steps.len() == 0 {
        pre
    } else {
        step_outcome(run(pre, steps.drop_last()), steps.last()).0
    }
}

/// The chunk emitted for step `k` of `steps`, if any.
pub open spec fn emission(pre: ResponseConverterView, steps: Seq<Step>, k: int) -> Option<
    ChatCompletionStreamChunkView,
> {
    step_outcome(run(pre, steps.take(k)), steps[k]).1
}

/// The number of chunks emitted for `steps`.
pub open spec fn emitted_count(pre: ResponseConverterView, steps: Seq<Step>) -> nat
    decreases steps.len(),
{
    if steps.len() == 0 {
        0
    } else {
        emitted_count(pre, steps.drop_last()) + if emission(pre, steps, steps.len() - 1) is Some {
            1nat
        } else {
            0nat
        }
    }
}

/// The index has announced its role: it is live and past its first chunk.
pub open spec fn announced(view: ResponseConverterView, index: u32) -> bool {
    view.states.contains_key(index) && !view.states[index].is_first_chunk
}

/// Step `k` is the first of `steps` that belongs to `index`.
pub open spec fn first_for(steps: Seq<Step>, index: u32, k: int) -> bool {
    forall|j: int| 0 <= j < k ==> index_of(#[trigger] steps[j]) != index
}

/// Step `j` is the last chunk event of `index` before step `k`, and no other
/// step of `index` stands between them.
pub open spec fn last_chunk_before(steps: Seq<Step>, index: u32, j: int, k: int) -> bool {
    &&& 0 <= j < k <= steps.len()
    &&& steps[j] is Chunk
    &&& index_of(steps[j]) == index
    &&& forall|m: int| j < m < k ==> index_of(#[trigger] steps[m]) != index
}

/// The events of `index` come in the order of its life: its closing event is
/// not its first event, and no event of the index follows its closing event.
pub open spec fn lifecycle(steps: Seq<Step>, index: u32) -> bool {
    &&& forall|k: int|
        0 <= k < steps.len() && #[trigger] steps[k] is Complete && index_of(steps[k]) == index
            ==> !first_for(steps, index, k)
    &&& forall|j: int, k: int|
        0 <= j < k < steps.len() && #[trigger] steps[j] is Complete && index_of(steps[j]) == index
            ==> index_of(#[trigger] steps[k]) != index
}

/// One of the first `k` steps is the closing event of `index`.
pub open spec fn closed_before(steps: Seq<Step>, index: u32, k: int) -> bool {
    exists|j: int| 0 <= j < k && #[trigger] steps[j] is Complete && index_of(steps[j]) == index
}

/// The state of an index is its own: a step of another index leaves it as it
/// is, whatever text that step decoded.
pub proof fn law_other_indices_untouched(pre: ResponseConverterView, step: Step, index: u32)
    requires
        index_of(step) != index,
    ensures
        step_outcome(pre, step).0.states.contains_key(index) == pre.states.contains_key(index),
        step_outcome(pre, step).0.states[index] == pre.states[index],
{
}

/// After the first `k` steps the index has announced its role exactly where
/// one of them belongs to it and none of them is its closing event.
pub proof fn lemma_announced(
    pre: ResponseConverterView,
    steps: Seq<Step>,
    index: u32,
    k: int,
)
    requires
        lifecycle(steps, index),
        !announced(pre, index),
        0 <= k <= steps.len(),
    ensures
        announced(run(pre, steps.take(k)), index) <==> !first_for(steps, index, k) && !closed_before(
            steps,
            index,
            k,
        ),
    decreases k,
{
    if k == 0 {
        assert(steps.take(0).len() == 0);
    } else {
        let before = steps.take(k - 1);
        let step = steps[k - 1];
        assert(steps.take(k).drop_last() =~= before);
        assert(steps.take(k).last() == step);
        lemma_announced(pre, steps, index, k - 1);
        if index_of(step) == index {
            assert(!first_for(steps, index, k));
            if step is Complete {
                assert(closed_before(steps, index, k));
                assert(!announced(run(pre, steps.take(k)), index));
            } else {
                assert(announced(run(pre, steps.take(k)), index));
                if closed_before(steps, index, k) {
                    let j = choose|j: int|
                        0 <= j < k && #[trigger] steps[j] is Complete && index_of(steps[j]) == index;
                    assert(index_of(steps[k - 1]) != index);
                }
            }
        } else {
            law_other_indices_untouched(run(pre, before), step, index);
            if first_for(steps, index, k - 1) {
                assert(first_for(steps, index, k));
            } else {
                let j = choose|j: int| 0 <= j < k - 1 && index_of(#[trigger] steps[j]) == index;
                assert(!first_for(steps, index, k));
            }
            if closed_before(steps, index, k - 1) {
                let j = choose|j: int|
                    0 <= j < k - 1 && #[trigger] steps[j] is Complete && index_of(steps[j]) == index;
                assert(closed_before(steps, index, k));
            } else {
                assert(!closed_before(steps, index, k));
            }
        }
    }
}

/// Every index announces its role once: of the steps of an index, the first
/// emits a chunk with the role of the assistant, and every later one emits a
/// chunk without a role or none at all. This holds of an index whose events
/// come in the order of its life and that has not announced its role before
/// the stream.
pub proof fn law_role_announced_once(
    pre: ResponseConverterView,
    steps: Seq<Step>,
    index: u32,
    k: int,
)
    requires
        lifecycle(steps, index),
        !announced(pre, index),
        0 <= k < steps.len(),
        index_of(steps[k]) == index,
    ensures
        first_for(steps, index, k) ==> emission(pre, steps, k) is Some,
        emission(pre, steps, k) matches Some(chunk) ==> {
            &&& chunk.choice.index == index
            &&& chunk.choice.delta.role == if first_for(steps, index, k) {
                Some(assistant_role())
            } else {
                None
            }
        },
{
    lemma_announced(pre, steps, index, k);
    if closed_before(steps, index, k) {
        let j = choose|j: int|
            0 <= j < k && #[trigger] steps[j] is Complete && index_of(steps[j]) == index;
        assert(index_of(steps[k]) != index);
    }
}

/// A chunk event without decoded text emits nothing, unless it is the first
/// of its index.
pub proof fn law_empty_chunk_is_silent(
    pre: ResponseConverterView,
    index: u32,
    prompt_tokens: i32,
    completion_tokens: i32,
    decoded: Decoded,
    parsed: Option<ParsedTextView>,
)
    requires
        announced(pre, index),
        decoded.text.len() == 0,
    ensures
        chunk_outcome(pre, index, prompt_tokens, completion_tokens, decoded, parsed).1 is None,
{
}

/// In a stream, a chunk event that is not the first event of its index and
/// whose tokens gave no text emits nothing.
pub proof fn law_later_empty_chunk_is_silent(
    pre: ResponseConverterView,
    steps: Seq<Step>,
    index: u32,
    k: int,
)
    requires
        lifecycle(steps, index),
        !announced(pre, index),
        0 <= k < steps.len(),
        steps[k] is Chunk,
        index_of(steps[k]) == index,
        !first_for(steps, index, k),
        steps[k]->Chunk_decoded.text.len() == 0,
    ensures
        emission(pre, steps, k) is None,
{
    lemma_announced(pre, steps, index, k);
    if closed_before(steps, index, k) {
        let j = choose|j: int|
            0 <= j < k && #[trigger] steps[j] is Complete && index_of(steps[j]) == index;
        assert(index_of(steps[k]) != index);
    }
}

/// A chunk event emits a chunk only where it is the first of its index or
/// its tokens gave text.
pub proof fn law_chunk_emits_for_text_or_first(
    pre: ResponseConverterView,
    index: u32,
    prompt_tokens: i32,
    completion_tokens: i32,
    decoded: Decoded,
    parsed: Option<ParsedTextView>,
)
    requires
        chunk_outcome(pre, index, prompt_tokens, completion_tokens, decoded, parsed).1 is Some,
    ensures
        !announced(pre, index) || decoded.text.len() > 0,
{
}

/// A stream emits at most one chunk for each event.
pub proof fn law_at_most_one_chunk_per_event(pre: ResponseConverterView, steps: Seq<Step>)
    ensures
        emitted_count(pre, steps) <= steps.len(),
    decreases steps.len(),
{
    if steps.len() > 0 {
        law_at_most_one_chunk_per_event(pre, steps.drop_last());
    }
}

/// Where a stream emits as many chunks as it has events, every event emitted
/// one.
pub proof fn lemma_full_count(pre: ResponseConverterView, steps: Seq<Step>, k: int)
    requires
        emitted_count(pre, steps) == steps.len(),
        0 <= k < steps.len(),
    ensures
        emission(pre, steps, k) is Some,
    decreases steps.len(),
{
    let shorter = steps.drop_last();
    law_at_most_one_chunk_per_event(pre, shorter);
    if k < steps.len() - 1 {
        lemma_full_count(pre, shorter, k);
        assert(shorter.take(k) =~= steps.take(k));
    }
}

/// A stream emits as many chunks as it has events only where every chunk
/// event is the first of its index or gave text. This holds of a stream in
/// which the events of every index come in the order of its life and no
/// index has announced its role before.
pub proof fn law_one_chunk_per_event_needs_text(
    pre: ResponseConverterView,
    steps: Seq<Step>,
    k: int,
)
    requires
        forall|index: u32| lifecycle(steps, index) && !announced(pre, index),
        emitted_count(pre, steps) == steps.len(),
        0 <= k < steps.len(),
        steps[k] is Chunk,
    ensures
        first_for(steps, index_of(steps[k]), k) || steps[k]->Chunk_decoded.text.len() > 0,
{
    let index = index_of(steps[k]);
    lemma_full_count(pre, steps, k);
    assert(lifecycle(steps, index) && !announced(pre, index));
    lemma_announced(pre, steps, index, k);
    if closed_before(steps, index, k) {
        let j = choose|j: int|
            0 <= j < k && #[trigger] steps[j] is Complete && index_of(steps[j]) == index;
        assert(index_of(steps[k]) != index);
    }
}

/// After a chunk event of `index` and steps of other indices only, the
/// completion count kept for `index` is the one that the chunk reported.
pub proof fn lemma_last_count_kept(
    pre: ResponseConverterView,
    steps: Seq<Step>,
    index: u32,
    j: int,
    k: int,
)
    requires
        last_chunk_before(steps, index, j, k),
    ensures
        run(pre, steps.take(k)).states.contains_key(index),
        run(pre, steps.take(k)).states[index].completion_tokens == Some(
            steps[j]->Chunk_completion_tokens,
        ),
    decreases k,
{
    let before = steps.take(k - 1);
    let step = steps[k - 1];
    assert(steps.take(k).drop_last() =~= before);
    assert(steps.take(k).last() == step);
    if k - 1 > j {
        lemma_last_count_kept(pre, steps, index, j, k - 1);
        law_other_indices_untouched(run(pre, before), step, index);
    }
}

/// The completion tokens in the usage of the last chunk of an index are the
/// count that the last chunk event of the index reported: that count itself
/// where it is positive; where it is zero and output tokens came with the
/// closing event, their number, as far as a 32-bit count holds it; and zero
/// where the engine reported a negative count.
pub proof fn law_final_completion_tokens(
    pre: ResponseConverterView,
    steps: Seq<Step>,
    index: u32,
    j: int,
    k: int,
)
    requires
        last_chunk_before(steps, index, j, k),
        k < steps.len(),
        steps[k] is Complete,
        index_of(steps[k]) == index,
    ensures
        emission(pre, steps, k) matches Some(chunk) && chunk.usage matches Some(usage) && {
            let reported = steps[j]->Chunk_completion_tokens;
            let outputs = steps[k]->outputs;
            &&& usage.completion_tokens == final_completion_tokens(
                Some(reported),
                steps[k]->Complete_completion_tokens,
                outputs,
            )
            &&& reported > 0 ==> usage.completion_tokens == reported
            &&& reported == 0 && 0 < outputs <= i32::MAX ==> usage.completion_tokens == outputs
            &&& reported == 0 && outputs == 0 ==> usage.completion_tokens == 0
        },
{
    lemma_last_count_kept(pre, steps, index, j, k);
}

/// In the usage that the last chunk of an index reports, no count is
/// negative and the total is the sum of the prompt and completion tokens.
pub proof fn law_usage_adds_up(
    recorded_prompt: Option<i32>,
    recorded_completion: Option<i32>,
    reported_prompt: i32,
    reported_completion: i32,
    initial_prompt: Option<i32>,
    outputs: nat,
)
    ensures
        ({
            let usage = final_usage(
                recorded_prompt,
                recorded_completion,
                reported_prompt,
                reported_completion,
                initial_prompt,
                outputs,
            );
            &&& usage.total_tokens == usage.prompt_tokens + usage.completion_tokens
            &&& usage.prompt_tokens == final_prompt_tokens(
                recorded_prompt,
                reported_prompt,
                initial_prompt,
            )
            &&& usage.completion_tokens == final_completion_tokens(
                recorded_completion,
                reported_completion,
                outputs,
            )
        }),
{
}

/// The last chunk of every index carries a usage whose total is the sum of
/// its prompt and completion tokens.
pub proof fn law_final_usage_adds_up(pre: ResponseConverterView, steps: Seq<Step>, k: int)
    requires
        0 <= k < steps.len(),
        steps[k] is Complete,
    ensures
        emission(pre, steps, k) matches Some(chunk) && chunk.usage matches Some(usage)
            && usage.total_tokens == usage.prompt_tokens + usage.completion_tokens,
{
    let before = run(pre, steps.take(k));
    let index = index_of(steps[k]);
    let known = before.states.contains_key(index);
    law_usage_adds_up(
        if known {
            before.states[index].prompt_tokens
        } else {
            None
        },
        if known {
            before.states[index].completion_tokens
        } else {
            None
        },
        steps[k]->Complete_prompt_tokens,
        steps[k]->Complete_completion_tokens,
        before.initial_prompt_tokens,
        steps[k]->outputs,
    );
}

/// Every chunk event that the converter handles is a step: whatever the
/// tokenizer and the tool parser answered, the converter and the emitted
/// chunk are the outcome of a step of the event's index.
pub proof fn law_chunk_event_is_step(
    pre: ResponseConverterView,
    index: u32,
    token_ids: Seq<u32>,
    prompt_tokens: i32,
    completion_tokens: i32,
    post: ResponseConverterView,
    emitted: Option<ChatCompletionStreamChunkView>,
)
    requires
        chunk_converted(pre, index, token_ids, prompt_tokens, completion_tokens, post, emitted),
    ensures
        exists|step: Step|
            step is Chunk && index_of(step) == index && #[trigger] step_outcome(pre, step) == (
                post,
                emitted,
            ),
{
    let (decoded, parsed) = choose|decoded: Decoded, parsed: Option<ParsedTextView>|
        {
            &&& decoding_of(pre, index, token_ids, decoded)
            &&& parsing_of(pre, index, decoded.text, parsed)
            &&& #[trigger] chunk_outcome(
                pre,
                index,
                prompt_tokens,
                completion_tokens,
                decoded,
                parsed,
            ) == (post, emitted)
        };
    let step = Step::Chunk { index, prompt_tokens, completion_tokens, decoded, parsed };
    assert(step_outcome(pre, step) == (post, emitted));
}

/// Every closing event that the converter handles is a step.
pub proof fn law_closing_event_is_step(
    pre: ResponseConverterView,
    index: u32,
    outputs: nat,
    finish_reason: Seq<char>,
    prompt_tokens: i32,
    completion_tokens: i32,
    post: ResponseConverterView,
    emitted: ChatCompletionStreamChunkView,
)
    requires
        complete_converted(
            pre,
            index,
            outputs,
            finish_reason,
            prompt_tokens,
            completion_tokens,
            post,
            emitted,
        ),
    ensures
        exists|step: Step|
            step is Complete && index_of(step) == index && #[trigger] step_outcome(pre, step) == (
                post,
                Some(emitted),
            ),
{
    let (tail, fallback) = choose|tail: Option<Seq<char>>, fallback: Option<Seq<char>>|
        {
            &&& tail_of(pre, index, tail)
            &&& #[trigger] complete_outcome(
                pre,
                index,
                outputs,
                finish_reason,
                prompt_tokens,
                completion_tokens,
                tail,
                fallback,
            ) == (post, emitted)
        };
    let step = Step::Complete {
        index,
        outputs,
        finish_reason,
        prompt_tokens,
        completion_tokens,
        tail,
        fallback,
    };
    assert(step_outcome(pre, step) == (post, Some(emitted)));
}

} // verus!
