//! What holds of the text that the stop-sequence filter gives out over a
//! whole stream of texts.

use vstd::prelude::*;
use crate::feed::output_text;
use crate::stop::{
    filtered, first_stop, is_first_stop, is_longest_hold, longest_hold, StopSequenceFilterView,
};
use crate::text::{is_first_occurrence, is_overlap, occurs_at, occurs_in};

verus! {

/// The texts joined in order.
pub open spec fn joined(texts: Seq<Seq<char>>) -> Seq<char>
    decreases texts.len(),
{
    if texts.len() == 0 {
        Seq::empty()
    } else {
        joined(texts.drop_last()) + texts.last()
    }
}

/// The filter after the texts of a stream, and the text given out for them.
/// Once the filter has stopped, no text is read.
pub open spec fn texts_filtered(pre: StopSequenceFilterView, texts: Seq<Seq<char>>) -> (
    StopSequenceFilterView,
    Seq<char>,
)
    decreases texts.len(),
{
    if texts.len() == 0 {
        (pre, Seq::empty())
    } else {
        let (mid, before) = texts_filtered(pre, texts.drop_last());
        if mid.stopped {
            (mid, before)
        } else {
            let (post, out) = filtered(mid, texts.last());
            (post, before + output_text(out))
        }
    }
}

/// No stop string is empty.
pub open spec fn stops_are_words(stops: Seq<Seq<char>>) -> bool {
    forall|k: int| 0 <= k < stops.len() ==> (#[trigger] stops[k]).len() > 0
}

/// No stop string occurs in `total`, and no end of `total` that is longer
/// than `held` is the beginning of a stop string.
pub open spec fn is_clear(stops: Seq<Seq<char>>, total: Seq<char>, held: int) -> bool {
    &&& forall|k: int| 0 <= k < stops.len() ==> !occurs_in(total, #[trigger] stops[k])
    &&& forall|k: int, n: int|
        0 <= k < stops.len() && #[trigger] is_overlap(total, stops[k], n) ==> n <= held
}

/// Where `needle` occurs in `hay`, it has a leftmost occurrence.
pub proof fn lemma_leftmost_occurrence(hay: Seq<char>, needle: Seq<char>, pos: int) -> (first: int)
    requires
        occurs_at(hay, needle, pos),
    ensures
        is_first_occurrence(hay, needle, first),
        first <= pos,
    decreases pos,
{
    if exists|q: int| 0 <= q < pos && occurs_at(hay, needle, q) {
        let q = choose|q: int| 0 <= q < pos && occurs_at(hay, needle, q);
        lemma_leftmost_occurrence(hay, needle, q)
    } else {
        pos
    }
}

/// Where one of the stops occurs in `text`, there is a first stop.
pub proof fn lemma_first_stop_exists(stops: Seq<Seq<char>>, text: Seq<char>, k: int) -> (hit: (
    int,
    int,
))
    requires
        0 <= k < stops.len(),
        occurs_in(text, stops[k]),
    ensures
        is_first_stop(stops, text, hit.0, hit.1),
    decreases k,
{
    if exists|j: int| 0 <= j < k && occurs_in(text, #[trigger] stops[j]) {
        let j = choose|j: int| 0 <= j < k && occurs_in(text, #[trigger] stops[j]);
        lemma_first_stop_exists(stops, text, j)
    } else {
        let pos = choose|pos: int| occurs_at(text, stops[k], pos);
        let first = lemma_leftmost_occurrence(text, stops[k], pos);
        (k, first)
    }
}

/// Where `first_stop` names none, none of the stops occurs.
pub proof fn lemma_no_stop_occurs(stops: Seq<Seq<char>>, text: Seq<char>)
    requires
        first_stop(stops, text) is None,
    ensures
        forall|k: int| 0 <= k < stops.len() ==> !occurs_in(text, #[trigger] stops[k]),
{
    assert forall|k: int| 0 <= k < stops.len() implies !occurs_in(text, #[trigger] stops[k]) by {
        if occurs_in(text, stops[k]) {
            let hit = lemma_first_stop_exists(stops, text, k);
            assert(is_first_stop(stops, text, hit.0, hit.1));
        }
    }
}

/// What `first_stop` names is a first stop.
pub proof fn lemma_first_stop_is_first(stops: Seq<Seq<char>>, text: Seq<char>)
    requires
        first_stop(stops, text) is Some,
    ensures
        ({
            let hit = first_stop(stops, text)->0;
            is_first_stop(stops, text, hit.0, hit.1)
        }),
{
    let (k, pos) = choose|k: int, pos: int| is_first_stop(stops, text, k, pos);
    assert(is_first_stop(stops, text, (k, pos).0, (k, pos).1));
}

/// Among the overlaps of at most `bound` characters there is a longest.
proof fn lemma_longest_hold_below(stops: Seq<Seq<char>>, text: Seq<char>, bound: int) -> (n: int)
    requires
        0 <= bound,
    ensures
        0 <= n <= bound,
        n == 0 || exists|k: int| 0 <= k < stops.len() && #[trigger] is_overlap(text, stops[k], n),
        forall|k: int, m: int|
            0 <= k < stops.len() && m <= bound && #[trigger] is_overlap(text, stops[k], m) ==> m
                <= n,
    decreases bound,
{
    if bound == 0 {
        0
    } else if exists|k: int| 0 <= k < stops.len() && #[trigger] is_overlap(text, stops[k], bound) {
        bound
    } else {
        lemma_longest_hold_below(stops, text, bound - 1)
    }
}

/// What `longest_hold` names is the longest hold, and it is no longer than
/// the text.
pub proof fn lemma_longest_hold_is_longest(stops: Seq<Seq<char>>, text: Seq<char>)
    ensures
        is_longest_hold(stops, text, longest_hold(stops, text)),
        0 <= longest_hold(stops, text) <= text.len(),
{
    let n = lemma_longest_hold_below(stops, text, text.len() as int);
    assert(is_longest_hold(stops, text, n));
}

/// An occurrence in what follows `given` is an occurrence in the whole, and
/// the other way round.
proof fn lemma_occurs_behind(given: Seq<char>, check: Seq<char>, word: Seq<char>, pos: int)
    requires
        given.len() <= pos,
    ensures
        occurs_at(given + check, word, pos) == occurs_at(check, word, pos - given.len()),
{
    let whole = given + check;
    let shift = pos - given.len();
    if pos + word.len() <= whole.len() {
        assert(whole.subrange(pos, pos + word.len()) =~= check.subrange(shift, shift + word.len()));
    }
}

/// An occurrence in the whole that starts in `given` either lies in `total`
/// or makes an end of `total` the beginning of `word`.
proof fn lemma_occurs_across(
    total: Seq<char>,
    text: Seq<char>,
    word: Seq<char>,
    pos: int,
)
    requires
        occurs_at(total + text, word, pos),
        pos < total.len(),
    ensures
        occurs_at(total, word, pos) || is_overlap(total, word, total.len() - pos),
{
    let whole = total + text;
    if pos + word.len() <= total.len() {
        assert(total.subrange(pos, pos + word.len()) =~= whole.subrange(pos, pos + word.len()));
    } else {
        let n = total.len() - pos;
        assert(total.subrange(total.len() - n, total.len() as int) =~= whole.subrange(
            pos,
            pos + word.len(),
        ).subrange(0, n));
    }
}

/// An end of the whole that reaches into `total` and is the beginning of
/// `word` makes an end of `total` the beginning of `word`.
proof fn lemma_overlap_across(total: Seq<char>, text: Seq<char>, word: Seq<char>, m: int)
    requires
        is_overlap(total + text, word, m),
        m > text.len(),
    ensures
        is_overlap(total, word, m - text.len()),
{
    let whole = total + text;
    let n = m - text.len();
    assert(total.subrange(total.len() - n, total.len() as int) =~= whole.subrange(
        whole.len() - m,
        whole.len() as int,
    ).subrange(0, n));
    assert(word.subrange(0, n) =~= word.subrange(0, m).subrange(0, n));
}

/// An end of the whole that lies in `check` is an end of `check`.
proof fn lemma_overlap_behind(given: Seq<char>, check: Seq<char>, word: Seq<char>, m: int)
    requires
        is_overlap(given + check, word, m),
        m <= check.len(),
    ensures
        is_overlap(check, word, m),
{
    let whole = given + check;
    assert(check.subrange(check.len() - m, check.len() as int) =~= whole.subrange(
        whole.len() - m,
        whole.len() as int,
    ));
}

/// Text without a stop keeps the stream clear: where what was given out and
/// held is clear, and no stop occurs in the held text followed by the new
/// text, the whole is clear again with the new hold.
pub proof fn lemma_text_keeps_clear(
    stops: Seq<Seq<char>>,
    given: Seq<char>,
    jail: Seq<char>,
    text: Seq<char>,
)
    requires
        is_clear(stops, given + jail, jail.len() as int),
        first_stop(stops, jail + text) is None,
    ensures
        is_clear(stops, given + (jail + text), longest_hold(stops, jail + text)),
{
    let check = jail + text;
    let total = given + jail;
    let whole = given + check;
    let n = longest_hold(stops, check);
    assert(whole =~= total + text);
    lemma_no_stop_occurs(stops, check);
    lemma_longest_hold_is_longest(stops, check);
    assert forall|k: int| 0 <= k < stops.len() implies !occurs_in(whole, #[trigger] stops[k]) by {
        if occurs_in(whole, stops[k]) {
            let pos = choose|pos: int| occurs_at(whole, stops[k], pos);
            if pos >= given.len() {
                lemma_occurs_behind(given, check, stops[k], pos);
                assert(occurs_in(check, stops[k]));
            } else {
                lemma_occurs_across(total, text, stops[k], pos);
                if occurs_at(total, stops[k], pos) {
                    assert(occurs_in(total, stops[k]));
                } else {
                    assert(is_overlap(total, stops[k], total.len() - pos));
                }
            }
        }
    }
    assert forall|k: int, m: int|
        0 <= k < stops.len() && #[trigger] is_overlap(whole, stops[k], m) implies m <= n by {
        if m <= check.len() {
            lemma_overlap_behind(given, check, stops[k], m);
        } else {
            lemma_overlap_across(total, text, stops[k], m);
            assert(is_overlap(total, stops[k], m - text.len()));
        }
    }
}

/// A stop in new text is the first in the whole stream: where what was given
/// out and held is clear, the leftmost occurrence of a stop in the held text
/// followed by the new text is its leftmost occurrence in the whole.
pub proof fn lemma_stop_is_first_in_stream(
    stops: Seq<Seq<char>>,
    given: Seq<char>,
    jail: Seq<char>,
    text: Seq<char>,
    k: int,
    pos: int,
)
    requires
        is_clear(stops, given + jail, jail.len() as int),
        0 <= k < stops.len(),
        is_first_occurrence(jail + text, stops[k], pos),
    ensures
        is_first_occurrence(given + (jail + text), stops[k], given.len() + pos),
{
    let check = jail + text;
    let total = given + jail;
    let whole = given + check;
    assert(whole =~= total + text);
    lemma_occurs_behind(given, check, stops[k], given.len() + pos);
    assert forall|q: int| 0 <= q < given.len() + pos implies !occurs_at(whole, stops[k], q) by {
        if occurs_at(whole, stops[k], q) {
            if q >= given.len() {
                lemma_occurs_behind(given, check, stops[k], q);
            } else {
                lemma_occurs_across(total, text, stops[k], q);
                if occurs_at(total, stops[k], q) {
                    assert(occurs_in(total, stops[k]));
                } else {
                    assert(is_overlap(total, stops[k], total.len() - q));
                }
            }
        }
    }
}

/// A leftmost occurrence stays the leftmost where text is added behind.
pub proof fn lemma_first_occurrence_stays(
    hay: Seq<char>,
    more: Seq<char>,
    needle: Seq<char>,
    pos: int,
)
    requires
        is_first_occurrence(hay, needle, pos),
    ensures
        is_first_occurrence(hay + more, needle, pos),
{
    let whole = hay + more;
    assert(whole.subrange(pos, pos + needle.len()) =~= hay.subrange(pos, pos + needle.len()));
    assert forall|q: int| 0 <= q < pos implies !occurs_at(whole, needle, q) by {
        if occurs_at(whole, needle, q) {
            assert(hay.subrange(q, q + needle.len()) =~= whole.subrange(q, q + needle.len()));
            assert(occurs_at(hay, needle, q));
        }
    }
}

/// What holds of the filter after the texts of a stream, from a filter that
/// holds nothing and has not stopped.
pub open spec fn stream_filtered(
    pre: StopSequenceFilterView,
    texts: Seq<Seq<char>>,
    post: StopSequenceFilterView,
    given: Seq<char>,
) -> bool {
    let whole = joined(texts);
    &&& post.stop_sequences == pre.stop_sequences
    &&& post.trim_stop == pre.trim_stop
    &&& given.len() <= whole.len()
    &&& given == whole.take(given.len() as int)
    &&& if post.stopped {
        post.jail.len() == 0 && exists|k: int|
            0 <= k < pre.stop_sequences.len() && is_first_occurrence(
                whole,
                #[trigger] pre.stop_sequences[k],
                if pre.trim_stop {
                    given.len() as int
                } else {
                    given.len() - pre.stop_sequences[k].len()
                },
            )
    } else {
        given + post.jail == whole && is_clear(pre.stop_sequences, whole, post.jail.len() as int)
    }
}

/// The filter over a whole stream of texts.
proof fn lemma_stream_filtered(pre: StopSequenceFilterView, texts: Seq<Seq<char>>)
    requires
        stops_are_words(pre.stop_sequences),
        pre.jail.len() == 0,
        !pre.stopped,
    ensures
        stream_filtered(pre, texts, texts_filtered(pre, texts).0, texts_filtered(pre, texts).1),
    decreases texts.len(),
{
    let stops = pre.stop_sequences;
    let whole = joined(texts);
    if texts.len() == 0 {
        assert(Seq::<char>::empty() + pre.jail =~= whole);
        assert(whole.take(0) =~= Seq::<char>::empty());
        assert forall|k: int| 0 <= k < stops.len() implies !occurs_in(whole, #[trigger] stops[k]) by {
            if occurs_in(whole, stops[k]) {
                let pos = choose|pos: int| occurs_at(whole, stops[k], pos);
                assert(stops[k].len() > 0);
            }
        }
    } else {
        let earlier = texts.drop_last();
        let text = texts.last();
        let before_whole = joined(earlier);
        lemma_stream_filtered(pre, earlier);
        let (mid, before) = texts_filtered(pre, earlier);
        let (post, given) = texts_filtered(pre, texts);
        assert(whole == before_whole + text);
        if mid.stopped {
            let k = choose|k: int|
                0 <= k < stops.len() && is_first_occurrence(
                    before_whole,
                    #[trigger] stops[k],
                    if pre.trim_stop {
                        before.len() as int
                    } else {
                        before.len() - stops[k].len()
                    },
                );
            lemma_first_occurrence_stays(
                before_whole,
                text,
                stops[k],
                if pre.trim_stop {
                    before.len() as int
                } else {
                    before.len() - stops[k].len()
                },
            );
            assert(whole.take(before.len() as int) =~= before_whole.take(before.len() as int));
        } else {
            let check = mid.jail + text;
            assert(before + check =~= whole);
            match first_stop(stops, check) {
                Some((k, pos)) => {
                    lemma_first_stop_is_first(stops, check);
                    lemma_stop_is_first_in_stream(stops, before, mid.jail, text, k, pos);
                    if pre.trim_stop {
                        if pos == 0 {
                            assert(before + Seq::<char>::empty() =~= before);
                        }
                        assert(given =~= before + check.take(pos));
                        assert(whole.take(given.len() as int) =~= given);
                        assert(is_first_occurrence(whole, stops[k], given.len() as int));
                    } else {
                        assert(given =~= before + check.take(pos + stops[k].len()));
                        assert(whole.take(given.len() as int) =~= given);
                        assert(is_first_occurrence(whole, stops[k], given.len() - stops[k].len()));
                    }
                },
                None => {
                    let n = longest_hold(stops, check);
                    lemma_longest_hold_is_longest(stops, check);
                    lemma_text_keeps_clear(stops, before, mid.jail, text);
                    if n == check.len() {
                        assert(before + Seq::<char>::empty() =~= before);
                    }
                    assert(given =~= before + check.take(check.len() - n));
                    assert(post.jail =~= check.skip(check.len() - n));
                    assert(given + post.jail =~= whole);
                    assert(whole.take(given.len() as int) =~= given);
                },
            }
        }
    }
}

/// While the filter has not stopped, nothing is lost and no stop leaks: the
/// text given out followed by the held text is the whole text of the stream,
/// and no stop string occurs in it.
pub proof fn law_running_filter_holds_back_every_stop(
    pre: StopSequenceFilterView,
    texts: Seq<Seq<char>>,
)
    requires
        stops_are_words(pre.stop_sequences),
        pre.jail.len() == 0,
        !pre.stopped,
        !texts_filtered(pre, texts).0.stopped,
    ensures
        texts_filtered(pre, texts).1 + texts_filtered(pre, texts).0.jail == joined(texts),
        forall|k: int|
            0 <= k < pre.stop_sequences.len() ==> !occurs_in(
                joined(texts),
                #[trigger] pre.stop_sequences[k],
            ),
{
    lemma_stream_filtered(pre, texts);
}

/// A filter that trims and has stopped has given out the whole text of the
/// stream up to the leftmost occurrence of the stop string that it matched.
pub proof fn law_stopped_filter_truncates_at_the_stop(
    pre: StopSequenceFilterView,
    texts: Seq<Seq<char>>,
)
    requires
        stops_are_words(pre.stop_sequences),
        pre.jail.len() == 0,
        !pre.stopped,
        pre.trim_stop,
        texts_filtered(pre, texts).0.stopped,
    ensures
        ({
            let given = texts_filtered(pre, texts).1;
            &&& given == joined(texts).take(given.len() as int)
            &&& exists|k: int|
                0 <= k < pre.stop_sequences.len() && is_first_occurrence(
                    joined(texts),
                    #[trigger] pre.stop_sequences[k],
                    given.len() as int,
                )
        }),
{
    lemma_stream_filtered(pre, texts);
}

/// A filter that keeps the stop and has stopped has given out the whole text
/// of the stream up to the end of the leftmost occurrence of the stop string
/// that it matched.
pub proof fn law_stopped_filter_ends_with_the_stop(
    pre: StopSequenceFilterView,
    texts: Seq<Seq<char>>,
)
    requires
        stops_are_words(pre.stop_sequences),
        pre.jail.len() == 0,
        !pre.stopped,
        !pre.trim_stop,
        texts_filtered(pre, texts).0.stopped,
    ensures
        ({
            let given = texts_filtered(pre, texts).1;
            &&& given == joined(texts).take(given.len() as int)
            &&& exists|k: int|
                0 <= k < pre.stop_sequences.len() && is_first_occurrence(
                    joined(texts),
                    #[trigger] pre.stop_sequences[k],
                    given.len() - pre.stop_sequences[k].len(),
                )
        }),
{
    lemma_stream_filtered(pre, texts);
}

} // verus!
