//! Line segments: the bytes split at their line feeds, and the counts of
//! lines and words told over the segments.

use crate::scanner::{is_whitespace, line_count, line_feeds, word_count, word_starts_at, LINE_FEED};
use vstd::prelude::*;

verus! {

/// The bytes split at each line feed. There is always at least one
/// segment: a line feed ends the segment before it and opens the next, so
/// bytes that end in a line feed have an empty last segment.
pub open spec fn segments(bytes: Seq<u8>) -> Seq<Seq<u8>>
    decreases bytes.len(),
{
    if bytes.len() == 0 {
        seq![Seq::<u8>::empty()]
    } else {
        let before = segments(bytes.drop_last());
        if bytes.last() == LINE_FEED {
            before.push(Seq::<u8>::empty())
        } else {
            before.drop_last().push(before.last().push(bytes.last()))
        }
    }
}

/// The segments that count as lines: all of them, but for a last one that
/// is empty.
pub open spec fn counted_segments(bytes: Seq<u8>) -> Seq<Seq<u8>> {
    let all = segments(bytes);
    if all.last().len() == 0 {
        all.drop_last()
    } else {
        all
    }
}

/// The words of several segments together.
pub open spec fn words_in(parts: Seq<Seq<u8>>) -> nat
    decreases parts.len(),
{
    if parts.len() == 0 {
        0
    } else {
        words_in(parts.drop_last()) + word_count(parts.last())
    }
}

/// The bytes of several segments together, the line feeds between them
/// included.
pub open spec fn joined_len(parts: Seq<Seq<u8>>) -> nat
    decreases parts.len(),
{
    if parts.len() == 0 {
        0
    } else if parts.len() == 1 {
        parts.last().len()
    } else {
        joined_len(parts.drop_last()) + 1 + parts.last().len()
    }
}

/// One more byte at the end of a segment adds a word where one starts there.
proof fn lemma_word_count_push(part: Seq<u8>, b: u8)
    ensures
        word_count(part.push(b)) == word_count(part) + if !is_whitespace(b) && (part.len() == 0
            || is_whitespace(part.last())) {
            1nat
        } else {
            0nat
        },
{
    assert(part.push(b).drop_last() =~= part);
}

/// The shape of the split: one segment more than line feeds; the last
/// segment is empty exactly where the bytes are empty or end in a line
/// feed, and ends as the bytes end otherwise; no segment holds a line
/// feed; and the segments with the line feeds between them are as long as
/// the bytes.
pub proof fn lemma_segments_shape(bytes: Seq<u8>)
    ensures
        segments(bytes).len() == line_feeds(bytes) + 1,
        segments(bytes).last().len() == 0 <==> (bytes.len() == 0 || bytes.last() == LINE_FEED),
        segments(bytes).last().len() > 0 ==> segments(bytes).last().last() == bytes.last(),
        forall|i: int, k: int|
            0 <= i < segments(bytes).len() && 0 <= k < segments(bytes)[i].len() ==> segments(
                bytes,
            )[i][k] != LINE_FEED,
        joined_len(segments(bytes)) == bytes.len(),
    decreases bytes.len(),
{
    if bytes.len() > 0 {
        let shorter = bytes.drop_last();
        let before = segments(shorter);
        lemma_segments_shape(shorter);
        if bytes.last() == LINE_FEED {
            assert(segments(bytes).drop_last() =~= before);
        } else {
            let grown = before.last().push(bytes.last());
            let after = before.drop_last().push(grown);
            assert(segments(bytes) == after);
            assert(after.drop_last() =~= before.drop_last());
            assert forall|i: int, k: int| 0 <= i < after.len() && 0 <= k < after[i].len() implies
                after[i][k] != LINE_FEED by {
                if i < after.len() - 1 {
                    assert(after[i] == before[i]);
                } else if k < before.last().len() {
                    assert(after[i][k] == before.last()[k]);
                }
            }
        }
    }
}

/// The words of the bytes are the words of their segments.
pub proof fn lemma_words_by_segment(bytes: Seq<u8>)
    ensures
        words_in(segments(bytes)) == word_count(bytes),
    decreases bytes.len(),
{
    if bytes.len() == 0 {
        assert(segments(bytes).drop_last() =~= Seq::<Seq<u8>>::empty());
        assert(words_in(segments(bytes).drop_last()) == 0);
        assert(word_count(segments(bytes).last()) == 0);
    } else {
        let shorter = bytes.drop_last();
        let before = segments(shorter);
        lemma_words_by_segment(shorter);
        lemma_segments_shape(shorter);
        if bytes.last() == LINE_FEED {
            assert(segments(bytes).drop_last() =~= before);
            assert(word_count(segments(bytes).last()) == 0);
        } else {
            let grown = before.last().push(bytes.last());
            let after = before.drop_last().push(grown);
            assert(segments(bytes) == after);
            assert(after.drop_last() =~= before.drop_last());
            assert(words_in(after) == words_in(before.drop_last()) + word_count(grown));
            assert(words_in(before) == words_in(before.drop_last()) + word_count(before.last()));
            lemma_word_count_push(before.last(), bytes.last());
            assert(word_starts_at(bytes, bytes.len() - 1) == (!is_whitespace(bytes.last()) && (
            before.last().len() == 0 || is_whitespace(before.last().last())))) by {
                if shorter.len() > 0 {
                    assert(bytes[bytes.len() - 2] == shorter.last());
                }
            }
        }
    }
}

/// The lines are the counted segments, and the words are the words in them:
/// a last segment that is empty is no line and holds no word.
pub proof fn lemma_counts_by_segment(bytes: Seq<u8>)
    ensures
        line_count(bytes) == counted_segments(bytes).len(),
        word_count(bytes) == words_in(counted_segments(bytes)),
{
    lemma_segments_shape(bytes);
    lemma_words_by_segment(bytes);
}

} // verus!
