//! Feeding the tokens of one chunk through the incremental decoder or the
//! stop-sequence filter.
//!
//! The tokenizer decides what each decoding gives. What comes out of a run is
//! therefore stated for the answers that the tokenizer gave: one entry per
//! token, holding the decodings asked for that token.

use vstd::prelude::*;
use vstd::string::StringExecFns;
use crate::decode_stream::{stepped, DecodeStream, DecodeStreamView};
use crate::stop::{processed, FilterOutput, FilterOutputView, StopSequenceFilter, StopSequenceFilterView};
use crate::tokenizer::{text_of, Tokenizer};

verus! {

/// The decodings that belong to one token: of the token alone, of the
/// decoder's context, and of the context followed by the held tokens and the
/// token. `None` stands for a decoding that failed or was not asked for.
pub struct Answers {
    pub token_text: Option<Seq<char>>,
    pub context_text: Option<Seq<char>>,
    pub full: Option<Seq<char>>,
}

/// The text of an optional fragment; no fragment is no text.
pub open spec fn text_or_empty(t: Option<Seq<char>>) -> Seq<char> {
    match t {
        Some(text) => text,
        None => Seq::empty(),
    }
}

/// The text that an output of the filter carries.
pub open spec fn output_text(out: FilterOutputView) -> Seq<char> {
    match out {
        FilterOutputView::Text(t) => t,
        FilterOutputView::StoppedWithText(t) => t,
        FilterOutputView::Stopped => Seq::empty(),
        FilterOutputView::Held => Seq::empty(),
    }
}

/// The decoder after the tokens `ids`, and the text that they gave, the
/// fragments in order, where `answers` holds the decodings of each token.
pub open spec fn decoder_run(pre: DecodeStreamView, ids: Seq<u32>, answers: Seq<Answers>) -> (
    DecodeStreamView,
    Seq<char>,
)
    decreases ids.len(),
{
    if ids.len() == 0 {
        (pre, Seq::empty())
    } else {
        let (mid, before) = decoder_run(pre, ids.drop_last(), answers.drop_last());
        let (post, fresh) = stepped(mid, ids.last(), answers.last().context_text, answers.last().full);
        (post, before + text_or_empty(fresh))
    }
}

/// The filter after the tokens `ids`, and the text that they gave, where
/// `answers` holds the decodings of each token. Once the filter has stopped
/// the remaining tokens change nothing and give no text.
pub open spec fn filter_run(pre: StopSequenceFilterView, ids: Seq<u32>, answers: Seq<Answers>) -> (
    StopSequenceFilterView,
    Seq<char>,
)
    decreases ids.len(),
{
    if ids.len() == 0 {
        (pre, Seq::empty())
    } else {
        let (mid, before) = filter_run(pre, ids.drop_last(), answers.drop_last());
        let (post, out) = processed(
            mid,
            ids.last(),
            answers.last().token_text,
            answers.last().context_text,
            answers.last().full,
        );
        (post, before + output_text(out))
    }
}

/// A filter that has stopped drops every token that follows: whatever the
/// tokens and whatever the tokenizer answers, it stays as it is and gives
/// out no text.
pub proof fn law_stopped_filter_drops_tokens(
    pre: StopSequenceFilterView,
    ids: Seq<u32>,
    answers: Seq<Answers>,
)
    requires
        pre.stopped,
    ensures
        filter_run(pre, ids, answers) == (pre, Seq::<char>::empty()),
    decreases ids.len(),
{
    if ids.len() > 0 {
        law_stopped_filter_drops_tokens(pre, ids.drop_last(), answers.drop_last());
        assert(Seq::<char>::empty() + Seq::<char>::empty() =~= Seq::<char>::empty());
    }
}

/// A filter that has stopped after the first `i` tokens is the same after
/// all of them, whatever the tokenizer would have answered for the rest.
pub proof fn lemma_stopped_run(
    pre: StopSequenceFilterView,
    ids: Seq<u32>,
    i: int,
    answers: Seq<Answers>,
) -> (all: Seq<Answers>)
    requires
        0 <= i <= ids.len(),
        answers.len() == i,
        filter_run(pre, ids.take(i), answers).0.stopped,
    ensures
        all.len() == ids.len(),
        filter_run(pre, ids, all) == filter_run(pre, ids.take(i), answers),
    decreases ids.len() - i,
{
    if i == ids.len() {
        assert(ids.take(i) =~= ids);
        answers
    } else {
        let idle = Answers { token_text: None, context_text: None, full: None };
        let next = answers.push(idle);
        let (mid, before) = filter_run(pre, ids.take(i), answers);
        assert(ids.take(i + 1).drop_last() =~= ids.take(i));
        assert(next.drop_last() =~= answers);
        assert(before + Seq::<char>::empty() =~= before);
        assert(filter_run(pre, ids.take(i + 1), next) == (mid, before));
        lemma_stopped_run(pre, ids, i + 1, next)
    }
}

/// Feeds the tokens of a chunk through the incremental decoder and joins the
/// fragments that come out.
pub fn feed_decoder<T: Tokenizer>(decoder: &mut DecodeStream, tokenizer: &T, ids: &Vec<u32>) -> (text:
    String)
    ensures
        exists|answers: Seq<Answers>|
            answers.len() == ids.len() && #[trigger] decoder_run(old(decoder)@, ids@, answers) == (
                final(decoder)@,
                text@,
            ),
{
    let ghost start = decoder@;
    let ghost mut answers: Seq<Answers> = Seq::empty();
    let mut text: String = String::new();
    let mut i: usize = 0;
    while i < ids.len()
        invariant
            i <= ids.len(),
            answers.len() == i,
            decoder_run(start, ids@.take(i as int), answers) == (decoder@, text@),
        decreases ids.len() - i,
    {
        let ghost mid = decoder@;
        let ghost before = text@;
        let ghost seen = answers;
        let fresh = decoder.step(tokenizer, ids[i]);
        proof {
            let (c, f) = choose|c: Option<Seq<char>>, f: Option<Seq<char>>| #[trigger]
                stepped(mid, ids@[i as int], c, f) == (decoder@, text_of(fresh));
            answers = seen.push(Answers { token_text: None, context_text: c, full: f });
            assert(ids@.take(i + 1).drop_last() =~= ids@.take(i as int));
            assert(answers.drop_last() =~= seen);
        }
        match fresh {
            Some(t) => {
                text.append(t.as_str());
            },
            None => {
                assert(before + Seq::<char>::empty() =~= before);
            },
        }
        i += 1;
    }
    assert(ids@.take(ids.len() as int) =~= ids@);
    text
}

/// The text that an output of the filter carries.
pub fn text_of_output(out: FilterOutput) -> (t: Option<String>)
    ensures
        text_or_empty(text_of(t)) == output_text(out@),
{
    match out {
        FilterOutput::Text(t) => Some(t),
        FilterOutput::StoppedWithText(t) => Some(t),
        FilterOutput::Stopped => None,
        FilterOutput::Held => None,
    }
}

/// Feeds the tokens of a chunk through the stop-sequence filter and joins
/// the text that comes out. No token is handed to the filter once it has
/// stopped.
pub fn feed_filter<T: Tokenizer>(filter: &mut StopSequenceFilter, tokenizer: &T, ids: &Vec<u32>) -> (text:
    String)
    ensures
        exists|answers: Seq<Answers>|
            answers.len() == ids.len() && #[trigger] filter_run(old(filter)@, ids@, answers) == (
                final(filter)@,
                text@,
            ),
{
    let ghost start = filter@;
    let ghost mut answers: Seq<Answers> = Seq::empty();
    let mut text: String = String::new();
    let mut i: usize = 0;
    while i < ids.len() && !filter.stopped
        invariant
            i <= ids.len(),
            answers.len() == i,
            filter_run(start, ids@.take(i as int), answers) == (filter@, text@),
        decreases ids.len() - i,
    {
        let ghost mid = filter@;
        let ghost before = text@;
        let ghost seen = answers;
        let out = filter.process_token(tokenizer, ids[i]);
        proof {
            let (t, c, f) = choose|
                t: Option<Seq<char>>,
                c: Option<Seq<char>>,
                f: Option<Seq<char>>,
            | #[trigger] processed(mid, ids@[i as int], t, c, f) == (filter@, out@);
            answers = seen.push(Answers { token_text: t, context_text: c, full: f });
            assert(ids@.take(i + 1).drop_last() =~= ids@.take(i as int));
            assert(answers.drop_last() =~= seen);
        }
        match text_of_output(out) {
            Some(t) => {
                text.append(t.as_str());
            },
            None => {
                assert(before + Seq::<char>::empty() =~= before);
            },
        }
        i += 1;
    }
    proof {
        if i < ids.len() {
            let all = lemma_stopped_run(start, ids@, i as int, answers);
            assert(filter_run(start, ids@, all) == (filter@, text@));
        } else {
            assert(ids@.take(ids.len() as int) =~= ids@);
        }
    }
    text
}

} // verus!
