//! The stop-sequence filter: text passes through until a stop string or a
//! stop token is met; text that may be the beginning of a stop string is held
//! until the next text settles it.

use vstd::prelude::*;
use vstd::string::StringExecFns;
use crate::decode_stream::{stepped, DecodeStream, DecodeStreamView};
use crate::text::{
    find, is_first_occurrence, is_overlap, longest_overlap, occurs_at, occurs_in, to_chars,
};
use crate::tokenizer::{ok_text, text_of, Tokenizer};

verus! {

/// What the filter gives out for one token.
pub enum FilterOutput {
    /// Text that is free to be emitted.
    Text(String),
    /// The last text before a stop; nothing follows.
    StoppedWithText(String),
    /// A stop with no text before it; nothing follows.
    Stopped,
    /// Nothing can be given out yet.
    Held,
}

pub enum FilterOutputView {
    Text(Seq<char>),
    StoppedWithText(Seq<char>),
    Stopped,
    Held,
}

impl View for FilterOutput {
    type V = FilterOutputView;

    open spec fn view(&self) -> FilterOutputView {
        match self {
            FilterOutput::Text(t) => FilterOutputView::Text(t@),
            FilterOutput::StoppedWithText(t) => FilterOutputView::StoppedWithText(t@),
            FilterOutput::Stopped => FilterOutputView::Stopped,
            FilterOutput::Held => FilterOutputView::Held,
        }
    }
}

/// The filter of one conversion.
///
/// `trim_stop` says whether a matched stop is left out of the text given out
/// (the usual case) or kept as its end. `jail` is the text held back because
/// it may be the beginning of a stop string.
pub struct StopSequenceFilter {
    pub stop_sequences: Vec<Vec<char>>,
    pub stop_token_ids: Vec<u32>,
    pub trim_stop: bool,
    pub stream: DecodeStream,
    pub jail: String,
    pub stopped: bool,
}

pub struct StopSequenceFilterView {
    pub stop_sequences: Seq<Seq<char>>,
    pub stop_token_ids: Seq<u32>,
    pub trim_stop: bool,
    pub stream: DecodeStreamView,
    pub jail: Seq<char>,
    pub stopped: bool,
}

/// The texts of a list of character vectors.
pub open spec fn texts_of(words: Seq<Vec<char>>) -> Seq<Seq<char>> {
    Seq::new(words.len(), |i: int| words[i]@)
}

impl View for StopSequenceFilter {
    type V = StopSequenceFilterView;

    open spec fn view(&self) -> StopSequenceFilterView {
        StopSequenceFilterView {
            stop_sequences: texts_of(self.stop_sequences@),
            stop_token_ids: self.stop_token_ids@,
            trim_stop: self.trim_stop,
            stream: self.stream@,
            jail: self.jail@,
            stopped: self.stopped,
        }
    }
}

/// Stop string `k` is the first of `stops`, in their given order, that occurs
/// in `text`, and `pos` is where it occurs first.
pub open spec fn is_first_stop(stops: Seq<Seq<char>>, text: Seq<char>, k: int, pos: int) -> bool {
    &&& 0 <= k < stops.len()
    &&& is_first_occurrence(text, stops[k], pos)
    &&& forall|j: int| 0 <= j < k ==> !occurs_in(text, #[trigger] stops[j])
}

/// The first of `stops` that occurs in `text`, with the position of its
/// leftmost occurrence; `None` where none of them occurs.
pub open spec fn first_stop(stops: Seq<Seq<char>>, text: Seq<char>) -> Option<(int, int)> {
    if exists|k: int, pos: int| is_first_stop(stops, text, k, pos) {
        Some(choose|hit: (int, int)| is_first_stop(stops, text, hit.0, hit.1))
    } else {
        None
    }
}

/// `n` is the length of the longest end of `text` that is a proper beginning
/// of one of `stops`, or zero where there is none.
pub open spec fn is_longest_hold(stops: Seq<Seq<char>>, text: Seq<char>, n: int) -> bool {
    &&& n == 0 || exists|k: int| 0 <= k < stops.len() && #[trigger] is_overlap(text, stops[k], n)
    &&& forall|k: int, m: int|
        0 <= k < stops.len() && #[trigger] is_overlap(text, stops[k], m) ==> m <= n
}

/// The number of characters at the end of `text` that have to be held back:
/// the length of the longest end of `text` with which one of `stops` begins.
pub open spec fn longest_hold(stops: Seq<Seq<char>>, text: Seq<char>) -> int {
    choose|n: int| is_longest_hold(stops, text, n)
}

/// The filter after new text, and what it gives out for it.
///
/// The text is read behind the held text. Where a stop string occurs, the
/// filter stops; of several that occur, the first in the given order of the
/// stop strings decides, at its leftmost occurrence. With trimming, what
/// stands before the stop is given out; without, the stop itself is its end.
/// Otherwise the longest end that may be the beginning of a stop is held and
/// the rest is given out.
pub open spec fn filtered(pre: StopSequenceFilterView, text: Seq<char>) -> (
    StopSequenceFilterView,
    FilterOutputView,
) {
    let check = pre.jail + text;
    match first_stop(pre.stop_sequences, check) {
        Some((k, pos)) => {
            let post = StopSequenceFilterView { jail: Seq::empty(), stopped: true, ..pre };
            if pre.trim_stop {
                if pos == 0 {
                    (post, FilterOutputView::Stopped)
                } else {
                    (post, FilterOutputView::StoppedWithText(check.take(pos)))
                }
            } else {
                (
                    post,
                    FilterOutputView::StoppedWithText(
                        check.take(pos + pre.stop_sequences[k].len()),
                    ),
                )
            }
        },
        None => {
            let n = longest_hold(pre.stop_sequences, check);
            let post = StopSequenceFilterView { jail: check.skip(check.len() - n), ..pre };
            if n == check.len() {
                (post, FilterOutputView::Held)
            } else {
                (post, FilterOutputView::Text(check.take(check.len() - n)))
            }
        },
    }
}

/// The filter after a stop token, and what it gives out, where `token_text`
/// is the decoding of the token alone; `None` stands for a decoding that
/// failed, and counts as no text.
pub open spec fn stopped_on_token(pre: StopSequenceFilterView, token_text: Option<Seq<char>>) -> (
    StopSequenceFilterView,
    FilterOutputView,
) {
    let post = StopSequenceFilterView { jail: Seq::empty(), stopped: true, ..pre };
    if pre.trim_stop {
        if pre.jail.len() == 0 {
            (post, FilterOutputView::Stopped)
        } else {
            (post, FilterOutputView::StoppedWithText(pre.jail))
        }
    } else {
        (
            post,
            FilterOutputView::StoppedWithText(
                pre.jail + (match token_text {
                    Some(t) => t,
                    None => Seq::empty(),
                }),
            ),
        )
    }
}

/// The filter after token `id`, and what it gives out, where `token_text` is
/// the decoding of `id` alone and `context_text` and `full` are the two
/// decodings that the incremental decoder asks for.
///
/// A filter that has stopped holds every token. A stop token stops it. Any
/// other token goes through the incremental decoder, and the text that it
/// completes goes through the search for stop strings.
pub open spec fn processed(
    pre: StopSequenceFilterView,
    id: u32,
    token_text: Option<Seq<char>>,
    context_text: Option<Seq<char>>,
    full: Option<Seq<char>>,
) -> (StopSequenceFilterView, FilterOutputView) {
    if pre.stopped {
        (pre, FilterOutputView::Held)
    } else if pre.stop_token_ids.contains(id) {
        stopped_on_token(pre, token_text)
    } else {
        let (stream, fresh) = stepped(pre.stream, id, context_text, full);
        let mid = StopSequenceFilterView { stream, ..pre };
        match fresh {
            Some(text) => filtered(mid, text),
            None => (mid, FilterOutputView::Held),
        }
    }
}

/// There is at most one first stop.
pub proof fn lemma_first_stop_unique(
    stops: Seq<Seq<char>>,
    text: Seq<char>,
    ka: int,
    pa: int,
    kb: int,
    pb: int,
)
    requires
        is_first_stop(stops, text, ka, pa),
        is_first_stop(stops, text, kb, pb),
    ensures
        ka == kb,
        pa == pb,
{
    assert(occurs_in(text, stops[ka])) by {
        assert(occurs_at(text, stops[ka], pa));
    }
    assert(occurs_in(text, stops[kb])) by {
        assert(occurs_at(text, stops[kb], pb));
    }
}

/// The first stop, once found, is what `first_stop` names.
pub proof fn lemma_first_stop_found(stops: Seq<Seq<char>>, text: Seq<char>, k: int, pos: int)
    requires
        is_first_stop(stops, text, k, pos),
    ensures
        first_stop(stops, text) == Some((k, pos)),
{
    let hit = choose|hit: (int, int)| is_first_stop(stops, text, hit.0, hit.1);
    assert(is_first_stop(stops, text, (k, pos).0, (k, pos).1));
    lemma_first_stop_unique(stops, text, k, pos, hit.0, hit.1);
}

/// Where none of the stops occurs, `first_stop` names none.
pub proof fn lemma_first_stop_absent(stops: Seq<Seq<char>>, text: Seq<char>)
    requires
        forall|j: int| 0 <= j < stops.len() ==> !occurs_in(text, #[trigger] stops[j]),
    ensures
        first_stop(stops, text) is None,
{
    if exists|k: int, pos: int| is_first_stop(stops, text, k, pos) {
        let (k, pos) = choose|k: int, pos: int| is_first_stop(stops, text, k, pos);
        assert(occurs_at(text, stops[k], pos));
        assert(occurs_in(text, stops[k]));
    }
}

/// The longest hold, once found, is what `longest_hold` names.
pub proof fn lemma_longest_hold_found(stops: Seq<Seq<char>>, text: Seq<char>, n: int)
    requires
        is_longest_hold(stops, text, n),
    ensures
        longest_hold(stops, text) == n,
        0 <= n <= text.len(),
{
    let m = longest_hold(stops, text);
    assert(is_longest_hold(stops, text, m));
}

/// The first of `stops` that occurs in `text`, with the position of its
/// leftmost occurrence.
pub fn find_first_stop(stops: &Vec<Vec<char>>, text: &[char]) -> (r: Option<(usize, usize)>)
    ensures
        match r {
            Some((k, pos)) => first_stop(texts_of(stops@), text@) == Some((k as int, pos as int))
                && k < stops.len() && pos + stops[k as int].len() <= text.len(),
            None => first_stop(texts_of(stops@), text@) is None,
        },
{
    let mut k: usize = 0;
    while k < stops.len()
        invariant
            k <= stops.len(),
            forall|j: int| 0 <= j < k ==> !occurs_in(text@, #[trigger] texts_of(stops@)[j]),
        decreases stops.len() - k,
    {
        assert(texts_of(stops@)[k as int] == stops[k as int]@);
        match find(text, stops[k].as_slice()) {
            Some(pos) => {
                proof {
                    lemma_first_stop_found(texts_of(stops@), text@, k as int, pos as int);
                }
                return Some((k, pos));
            },
            None => {},
        }
        k += 1;
    }
    proof {
        lemma_first_stop_absent(texts_of(stops@), text@);
    }
    None
}

/// The number of characters at the end of `text` that may be the beginning
/// of one of `stops`.
pub fn find_longest_hold(stops: &Vec<Vec<char>>, text: &[char]) -> (n: usize)
    ensures
        n == longest_hold(texts_of(stops@), text@),
        n <= text.len(),
{
    let mut n: usize = 0;
    let mut k: usize = 0;
    while k < stops.len()
        invariant
            k <= stops.len(),
            n == 0 || exists|j: int|
                0 <= j < k && #[trigger] is_overlap(text@, texts_of(stops@)[j], n as int),
            forall|j: int, m: int|
                0 <= j < k && #[trigger] is_overlap(text@, texts_of(stops@)[j], m) ==> m <= n,
        decreases stops.len() - k,
    {
        assert(texts_of(stops@)[k as int] == stops[k as int]@);
        let here = longest_overlap(text, stops[k].as_slice());
        if here > n {
            n = here;
        }
        k += 1;
    }
    proof {
        lemma_longest_hold_found(texts_of(stops@), text@, n as int);
    }
    n
}

/// Whether `id` is one of `ids`.
pub fn contains_id(ids: &Vec<u32>, id: u32) -> (b: bool)
    ensures
        b == ids@.contains(id),
{
    let mut i: usize = 0;
    while i < ids.len()
        invariant
            i <= ids.len(),
            forall|j: int| 0 <= j < i ==> ids@[j] != id,
        decreases ids.len() - i,
    {
        if ids[i] == id {
            return true;
        }
        i += 1;
    }
    false
}

/// The texts of a list of strings.
pub open spec fn strings_of(words: Seq<String>) -> Seq<Seq<char>> {
    Seq::new(words.len(), |i: int| words[i]@)
}

impl StopSequenceFilter {
    /// The filter for the given stop strings and stop tokens that has seen no
    /// token yet.
    pub open spec fn new_view(
        stop_sequences: Seq<Seq<char>>,
        stop_token_ids: Seq<u32>,
        trim_stop: bool,
        skip_special_tokens: bool,
    ) -> StopSequenceFilterView {
        StopSequenceFilterView {
            stop_sequences,
            stop_token_ids,
            trim_stop,
            stream: DecodeStream::new_view(skip_special_tokens),
            jail: Seq::empty(),
            stopped: false,
        }
    }

    /// A filter for the given stop strings and stop tokens that has seen no
    /// token yet.
    pub fn new(
        stop_sequences: &Vec<String>,
        stop_token_ids: Vec<u32>,
        trim_stop: bool,
        skip_special_tokens: bool,
    ) -> (s: StopSequenceFilter)
        ensures
            s@ == Self::new_view(
                strings_of(stop_sequences@),
                stop_token_ids@,
                trim_stop,
                skip_special_tokens,
            ),
    {
        let mut words: Vec<Vec<char>> = Vec::new();
        let mut i: usize = 0;
        while i < stop_sequences.len()
            invariant
                i <= stop_sequences.len(),
                words.len() == i,
                forall|j: int| 0 <= j < i ==> (#[trigger] words@[j])@ == stop_sequences@[j]@,
            decreases stop_sequences.len() - i,
        {
            words.push(to_chars(stop_sequences[i].as_str()));
            i += 1;
        }
        assert(texts_of(words@) =~= strings_of(stop_sequences@));
        StopSequenceFilter {
            stop_sequences: words,
            stop_token_ids,
            trim_stop,
            stream: DecodeStream::new(skip_special_tokens),
            jail: String::new(),
            stopped: false,
        }
    }

    /// Reads new text behind the held text, stops where a stop string occurs
    /// and holds what may be the beginning of one.
    pub fn filter_text(&mut self, text: &str) -> (r: FilterOutput)
        ensures
            (final(self)@, r@) == filtered(old(self)@, text@),
    {
        let mut check: String = self.jail.clone();
        check.append(text);
        let chars = to_chars(check.as_str());
        let total: usize = chars.len();
        match find_first_stop(&self.stop_sequences, chars.as_slice()) {
            Some((k, pos)) => {
                self.stopped = true;
                self.jail = String::new();
                if self.trim_stop {
                    if pos == 0 {
                        FilterOutput::Stopped
                    } else {
                        FilterOutput::StoppedWithText(
                            check.as_str().substring_char(0, pos).to_owned(),
                        )
                    }
                } else {
                    assert(texts_of(self.stop_sequences@)[k as int] == self.stop_sequences[k as int]@);
                    let end: usize = pos + self.stop_sequences[k].len();
                    FilterOutput::StoppedWithText(check.as_str().substring_char(0, end).to_owned())
                }
            },
            None => {
                let n = find_longest_hold(&self.stop_sequences, chars.as_slice());
                let keep: usize = total - n;
                self.jail = check.as_str().substring_char(keep, total).to_owned();
                if n == total {
                    FilterOutput::Held
                } else {
                    FilterOutput::Text(check.as_str().substring_char(0, keep).to_owned())
                }
            },
        }
    }

    /// Stops on a stop token. With trimming the held text, if any, is given
    /// out; without, the held text followed by the text of the token.
    pub fn stop_on_token(&mut self, token_text: Option<String>) -> (r: FilterOutput)
        ensures
            (final(self)@, r@) == stopped_on_token(old(self)@, text_of(token_text)),
    {
        let mut out: String = String::new();
        std::mem::swap(&mut out, &mut self.jail);
        self.stopped = true;
        assert(self.jail@ =~= Seq::<char>::empty());
        if self.trim_stop {
            if out.as_str().is_empty() {
                FilterOutput::Stopped
            } else {
                FilterOutput::StoppedWithText(out)
            }
        } else {
            match token_text {
                Some(t) => {
                    out.append(t.as_str());
                },
                None => {
                    assert(out@ + Seq::<char>::empty() =~= out@);
                },
            }
            FilterOutput::StoppedWithText(out)
        }
    }

    /// Takes in one token. Once the filter has stopped, every token is held.
    /// The tokenizer is asked for the text of a stop token where the stop is
    /// kept, and otherwise for what the incremental decoder needs; a decoding
    /// that fails counts as text that is not there.
    pub fn process_token<T: Tokenizer>(&mut self, tokenizer: &T, id: u32) -> (r: FilterOutput)
        ensures
            exists|token_text: Option<Seq<char>>, context_text: Option<Seq<char>>, full: Option<Seq<char>>| #[trigger]
                processed(old(self)@, id, token_text, context_text, full) == (final(self)@, r@),
    {
        if self.stopped {
            assert(processed(old(self)@, id, None, None, None) == (self@, FilterOutputView::Held));
            return FilterOutput::Held;
        }
        if contains_id(&self.stop_token_ids, id) {
            let token_text = if self.trim_stop {
                None
            } else {
                let mut one: Vec<u32> = Vec::new();
                one.push(id);
                ok_text(tokenizer.decode(one.as_slice(), self.stream.skip_special_tokens))
            };
            let ghost t = text_of(token_text);
            let r = self.stop_on_token(token_text);
            assert(processed(old(self)@, id, t, None, None) == (self@, r@));
            return r;
        }
        let fresh = self.stream.step(tokenizer, id);
        let ghost (c, f) = choose|c: Option<Seq<char>>, f: Option<Seq<char>>| #[trigger]
            stepped(old(self)@.stream, id, c, f) == (self.stream@, text_of(fresh));
        let r = match fresh {
            Some(text) => self.filter_text(text.as_str()),
            None => FilterOutput::Held,
        };
        assert(processed(old(self)@, id, None, c, f) == (self@, r@));
        r
    }

    /// Gives out the held text, if there is any, and holds nothing after.
    pub fn flush(&mut self) -> (r: Option<String>)
        ensures
            final(self)@ == (StopSequenceFilterView { jail: Seq::empty(), ..old(self)@ }),
            text_of(r) == if old(self)@.jail.len() > 0 {
                Some(old(self)@.jail)
            } else {
                None
            },
    {
        let mut out: String = String::new();
        std::mem::swap(&mut out, &mut self.jail);
        assert(self.jail@ =~= Seq::<char>::empty());
        if !out.as_str().is_empty() {
            Some(out)
        } else {
            None
        }
    }
}

} // verus!
