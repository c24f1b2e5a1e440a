//! Incremental decoding: tokens whose text is not complete yet are held until
//! a later token completes it.

use vstd::prelude::*;
use crate::text::{replacement_char, to_chars};
use crate::tokenizer::{ok_text, text_of, Tokenizer};

verus! {

/// The incremental decoder of one output index.
///
/// It keeps two runs of tokens: the context, whose text has been given out
/// already, and the tokens received since, whose text is still held. Text is
/// measured in characters.
pub struct DecodeStream {
    pub context: Vec<u32>,
    pub held: Vec<u32>,
    pub skip_special_tokens: bool,
}

pub struct DecodeStreamView {
    pub context: Seq<u32>,
    pub held: Seq<u32>,
    pub skip_special_tokens: bool,
}

impl View for DecodeStream {
    type V = DecodeStreamView;

    open spec fn view(&self) -> DecodeStreamView {
        DecodeStreamView {
            context: self.context@,
            held: self.held@,
            skip_special_tokens: self.skip_special_tokens,
        }
    }
}

/// The text that `full` adds to `context_text`, where it is complete: `full`
/// is longer than `context_text` and does not end in the replacement
/// character. The fragment is what follows the first `context_text.len()`
/// characters of `full`.
pub open spec fn fragment(context_text: Seq<char>, full: Seq<char>) -> Option<Seq<char>> {
    if full.len() > context_text.len() && full.last() != replacement_char() {
        Some(full.subrange(context_text.len() as int, full.len() as int))
    } else {
        None
    }
}

/// The decoder after token `id`, and the fragment it gives out, where
/// `context_text` is the decoding of the context and `full` the decoding of
/// the context followed by the held tokens and `id`; `None` stands for a
/// decoding that failed.
pub open spec fn stepped(
    pre: DecodeStreamView,
    id: u32,
    context_text: Option<Seq<char>>,
    full: Option<Seq<char>>,
) -> (DecodeStreamView, Option<Seq<char>>) {
    let waiting = DecodeStreamView { held: pre.held.push(id), ..pre };
    if context_text is Some && full is Some && fragment(context_text->0, full->0) is Some {
        (
            DecodeStreamView { context: pre.held.push(id), held: Seq::empty(), ..pre },
            fragment(context_text->0, full->0),
        )
    } else {
        (waiting, None)
    }
}

/// The decoder after a flush, and the text it gives out, where `rest` is the
/// decoding of the held tokens; `None` stands for a decoding that failed.
pub open spec fn flushed(pre: DecodeStreamView, rest: Option<Seq<char>>) -> (
    DecodeStreamView,
    Option<Seq<char>>,
) {
    if pre.held.len() == 0 || rest is None {
        (pre, None)
    } else {
        (
            DecodeStreamView { context: pre.context + pre.held, held: Seq::empty(), ..pre },
            if rest->0.len() > 0 {
                rest
            } else {
                None
            },
        )
    }
}

/// The text that `full` adds to `context_text`, if it is complete.
pub fn new_fragment(context_text: &str, full: &str) -> (r: Option<String>)
    ensures
        text_of(r) == fragment(context_text@, full@),
{
    let before = to_chars(context_text);
    let all = to_chars(full);
    if all.len() > before.len() && all[all.len() - 1] != '\u{FFFD}' {
        let tail = full.substring_char(before.len(), all.len());
        Some(tail.to_owned())
    } else {
        None
    }
}

impl DecodeStream {
    /// The decoder that has seen no token.
    pub open spec fn new_view(skip_special_tokens: bool) -> DecodeStreamView {
        DecodeStreamView { context: Seq::empty(), held: Seq::empty(), skip_special_tokens }
    }

    /// A decoder that has seen no token.
    pub fn new(skip_special_tokens: bool) -> (s: DecodeStream)
        ensures
            s@ == Self::new_view(skip_special_tokens),
    {
        DecodeStream { context: Vec::new(), held: Vec::new(), skip_special_tokens }
    }

    /// The context followed by the held tokens and `id`: the tokens whose
    /// decoding shows what `id` adds.
    pub fn window_with(&self, id: u32) -> (ids: Vec<u32>)
        ensures
            ids@ == self@.context + self@.held.push(id),
    {
        let mut ids: Vec<u32> = self.context.clone();
        let mut i: usize = 0;
        while i < self.held.len()
            invariant
                i <= self.held.len(),
                ids@ == self.context@ + self.held@.take(i as int),
            decreases self.held.len() - i,
        {
            ids.push(self.held[i]);
            assert(self.held@.take(i + 1) =~= self.held@.take(i as int).push(self.held@[i as int]));
            i += 1;
        }
        ids.push(id);
        assert(self.held@.take(self.held.len() as int) =~= self.held@);
        assert(ids@ =~= self.context@ + self.held@.push(id));
        ids
    }

    /// Takes in token `id`, given the decoding of the context and the decoding
    /// of the context followed by the held tokens and `id`. Where the second
    /// adds complete text to the first, that text is given out and the held
    /// tokens with `id` become the context; otherwise `id` is held as well.
    pub fn advance(&mut self, id: u32, context_text: Option<String>, full: Option<String>) -> (r:
        Option<String>)
        ensures
            (final(self)@, text_of(r)) == stepped(
                old(self)@,
                id,
                text_of(context_text),
                text_of(full),
            ),
    {
        self.held.push(id);
        let found = match (&context_text, &full) {
            (Some(c), Some(f)) => new_fragment(c.as_str(), f.as_str()),
            _ => None,
        };
        if found.is_some() {
            let mut taken: Vec<u32> = Vec::new();
            std::mem::swap(&mut taken, &mut self.held);
            self.context = taken;
        }
        found
    }

    /// Takes in token `id` and gives out the text that it completes, if any.
    /// The tokenizer is asked for the text of the context, unless the context
    /// is empty, and for the text of the context followed by the held tokens
    /// and `id`; a decoding that fails counts as text that is not complete.
    pub fn step<T: Tokenizer>(&mut self, tokenizer: &T, id: u32) -> (r: Option<String>)
        ensures
            exists|context_text: Option<Seq<char>>, full: Option<Seq<char>>|
                {
                    &&& old(self)@.context.len() == 0 ==> context_text == Some(Seq::<char>::empty())
                    &&& #[trigger] stepped(old(self)@, id, context_text, full) == (
                        final(self)@,
                        text_of(r),
                    )
                },
    {
        let context_text = if self.context.len() == 0 {
            Some(String::new())
        } else {
            ok_text(tokenizer.decode(self.context.as_slice(), self.skip_special_tokens))
        };
        let full = match context_text {
            Some(_) => {
                let ids = self.window_with(id);
                ok_text(tokenizer.decode(ids.as_slice(), self.skip_special_tokens))
            },
            None => None,
        };
        let ghost c = text_of(context_text);
        let ghost f = text_of(full);
        let r = self.advance(id, context_text, full);
        assert(stepped(old(self)@, id, c, f) == (self@, text_of(r)));
        r
    }

    /// Ends the stream, given the decoding of the held tokens: where there
    /// are held tokens and their decoding succeeded, they join the context
    /// and their text, unless it is empty, is given out.
    pub fn release(&mut self, rest: Option<String>) -> (r: Option<String>)
        ensures
            (final(self)@, text_of(r)) == flushed(old(self)@, text_of(rest)),
    {
        if self.held.len() == 0 {
            return None;
        }
        match rest {
            None => None,
            Some(text) => {
                let mut taken: Vec<u32> = Vec::new();
                std::mem::swap(&mut taken, &mut self.held);
                self.context.append(&mut taken);
                if !text.as_str().is_empty() {
                    Some(text)
                } else {
                    None
                }
            },
        }
    }

    /// Ends the stream and gives out the text of the tokens still held, if
    /// there are any and they decode to text that is not empty. A decoding
    /// that fails leaves the decoder as it was.
    pub fn flush<T: Tokenizer>(&mut self, tokenizer: &T) -> (r: Option<String>)
        ensures
            exists|rest: Option<Seq<char>>| #[trigger]
                flushed(old(self)@, rest) == (final(self)@, text_of(r)),
    {
        let rest = if self.held.len() == 0 {
            None
        } else {
            ok_text(tokenizer.decode(self.held.as_slice(), self.skip_special_tokens))
        };
        let ghost t = text_of(rest);
        let r = self.release(rest);
        assert(flushed(old(self)@, t) == (self@, text_of(r)));
        r
    }
}

} // verus!
