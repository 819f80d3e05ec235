//! The find bar: where a query occurs in the text of a conversation.
use crate::text::ascii_lowered;
use std::ops::Range;
use vstd::prelude::*;
use vstd::utf8::{encode_utf8, is_ascii_chars, is_ascii_chars_encode_utf8};

verus! {

/// The lower-case form of a text.
pub uninterp spec fn lowercased(text: Seq<char>) -> Seq<char>;

/// `str::to_lowercase`: the result depends on the text alone. Of ASCII text, each
/// letter is replaced by its lower-case form.
pub assume_specification[ str::to_lowercase ](text: &str) -> (r: String)
    ensures
        r@ == lowercased(text@),
        is_ascii_chars(text@) ==> r@ == ascii_lowered(text@),
;

/// Whether the bytes `needle` stand in `bytes` at offset `at`.
pub open spec fn bytes_at(bytes: Seq<u8>, needle: Seq<u8>, at: int) -> bool {
    0 <= at && at + needle.len() <= bytes.len() && bytes.subrange(at, at + needle.len()) == needle
}

/// The first offset at or after `from` at which `needle` stands in `bytes`.
pub open spec fn first_bytes_at(bytes: Seq<u8>, needle: Seq<u8>, from: int) -> Option<int>
    decreases bytes.len() - from + 1,
{
    if from < 0 || from + needle.len() > bytes.len() {
        None
    } else if bytes_at(bytes, needle, from) {
        Some(from)
    } else {
        first_bytes_at(bytes, needle, from + 1)
    }
}

/// A match that is found stands there and is not before the start.
pub proof fn lemma_first_bytes_at(bytes: Seq<u8>, needle: Seq<u8>, from: int)
    requires
        0 <= from,
    ensures
        first_bytes_at(bytes, needle, from) matches Some(at) ==> from <= at && bytes_at(
            bytes,
            needle,
            at,
        ),
    decreases bytes.len() - from + 1,
{
    if from + needle.len() <= bytes.len() && !bytes_at(bytes, needle, from) {
        lemma_first_bytes_at(bytes, needle, from + 1);
    }
}

/// The byte ranges of the successive non-overlapping occurrences of `needle`
/// in `bytes` from offset `from` on.
pub open spec fn all_matches(bytes: Seq<u8>, needle: Seq<u8>, from: int) -> Seq<(int, int)>
    decreases bytes.len() - from,
{
    if needle.len() == 0 || from < 0 || from > bytes.len() {
        Seq::empty()
    } else {
        proof {
            lemma_first_bytes_at(bytes, needle, from);
        }
        match first_bytes_at(bytes, needle, from) {
            Some(at) => seq![(at, at + needle.len())] + all_matches(
                bytes,
                needle,
                at + needle.len(),
            ),
            None => Seq::empty(),
        }
    }
}

/// The bounds of a list of ranges.
pub open spec fn bounds_of(ranges: Seq<Range<usize>>) -> Seq<(int, int)> {
    ranges.map_values(|range: Range<usize>| (range.start as int, range.end as int))
}

/// Every match is an occurrence, and the matches stand in order without
/// overlapping.
pub proof fn law_matches_ordered(bytes: Seq<u8>, needle: Seq<u8>, from: int)
    requires
        0 <= from,
    ensures
        forall|i: int|
            0 <= i < all_matches(bytes, needle, from).len() ==> {
                let m = #[trigger] all_matches(bytes, needle, from)[i];
                from <= m.0 && m.1 == m.0 + needle.len() && bytes_at(bytes, needle, m.0)
            },
        forall|i: int, j: int|
            0 <= i < j < all_matches(bytes, needle, from).len() ==> (#[trigger] all_matches(
                bytes,
                needle,
                from,
            )[i]).1 <= (#[trigger] all_matches(bytes, needle, from)[j]).0,
    decreases bytes.len() - from,
{
    if needle.len() > 0 && from <= bytes.len() {
        lemma_first_bytes_at(bytes, needle, from);
        match first_bytes_at(bytes, needle, from) {
            Some(at) => {
                let next = at + needle.len();
                law_matches_ordered(bytes, needle, next);
                let all = all_matches(bytes, needle, from);
                let rest = all_matches(bytes, needle, next);
                assert(all =~= seq![(at, next)] + rest);
                assert forall|i: int| 0 <= i < all.len() implies {
                    let m = #[trigger] all[i];
                    from <= m.0 && m.1 == m.0 + needle.len() && bytes_at(bytes, needle, m.0)
                } by {
                    if i > 0 {
                        assert(all[i] == rest[i - 1]);
                    }
                }
                assert forall|i: int, j: int| 0 <= i < j < all.len() implies (#[trigger] all[i]).1
                    <= (#[trigger] all[j]).0 by {
                    assert(all[j] == rest[j - 1]);
                    if i > 0 {
                        assert(all[i] == rest[i - 1]);
                    }
                }
            },
            None => {},
        }
    }
}

/// A match that is found is the first one.
proof fn lemma_none_before_first(bytes: Seq<u8>, needle: Seq<u8>, from: int, at: int)
    requires
        0 <= from <= at,
        bytes_at(bytes, needle, at),
    ensures
        first_bytes_at(bytes, needle, from) matches Some(first) && first <= at,
    decreases at - from,
{
    if !bytes_at(bytes, needle, from) {
        lemma_none_before_first(bytes, needle, from + 1, at);
    }
}

/// No occurrence is skipped: wherever the needle stands, a match starts there or
/// reaches over the place.
pub proof fn law_no_occurrence_is_skipped(bytes: Seq<u8>, needle: Seq<u8>, from: int, at: int)
    requires
        needle.len() > 0,
        0 <= from <= at,
        bytes_at(bytes, needle, at),
    ensures
        exists|i: int|
            0 <= i < all_matches(bytes, needle, from).len() && (#[trigger] all_matches(
                bytes,
                needle,
                from,
            )[i]).0 <= at < all_matches(bytes, needle, from)[i].1,
    decreases at - from,
{
    lemma_first_bytes_at(bytes, needle, from);
    lemma_none_before_first(bytes, needle, from, at);
    let first = first_bytes_at(bytes, needle, from)->0;
    let next = first + needle.len();
    let all = all_matches(bytes, needle, from);
    let rest = all_matches(bytes, needle, next);
    assert(all =~= seq![(first, next)] + rest);
    if at < next {
        assert(all[0].0 <= at < all[0].1);
    } else {
        law_no_occurrence_is_skipped(bytes, needle, next, at);
        let i = choose|i: int| 0 <= i < rest.len() && (#[trigger] rest[i]).0 <= at < rest[i].1;
        assert(all[i + 1] == rest[i]);
    }
}

/// In ASCII text every match is a range of the text itself: its characters there,
/// in lower case, are the query.
pub proof fn law_ascii_matches_are_ranges_of_the_text(
    text: Seq<char>,
    query_lower: Seq<char>,
    i: int,
)
    requires
        is_ascii_chars(text),
        is_ascii_chars(query_lower),
        0 <= i < all_matches(
            encode_utf8(ascii_lowered(text)),
            encode_utf8(query_lower),
            0,
        ).len(),
    ensures
        ({
            let m = all_matches(encode_utf8(ascii_lowered(text)), encode_utf8(query_lower), 0)[i];
            0 <= m.0 <= m.1 <= text.len() && ascii_lowered(text.subrange(m.0, m.1)) == query_lower
        }),
{
    let lower = ascii_lowered(text);
    assert(is_ascii_chars(lower)) by {
        assert forall|k: int| 0 <= k < lower.len() implies '\0' <= #[trigger] lower[k] <= '\u{7f}' by {
            assert('\0' <= text[k] <= '\u{7f}');
        }
    }
    is_ascii_chars_encode_utf8(lower);
    is_ascii_chars_encode_utf8(query_lower);
    let bytes = encode_utf8(lower);
    let needle = encode_utf8(query_lower);
    law_matches_ordered(bytes, needle, 0);
    let m = all_matches(bytes, needle, 0)[i];
    assert(bytes.subrange(m.0, m.1) == needle);
    let piece = ascii_lowered(text.subrange(m.0, m.1));
    assert forall|k: int| 0 <= k < query_lower.len() implies piece[k] == query_lower[k] by {
        assert(bytes.subrange(m.0, m.1)[k] == bytes[m.0 + k]);
        assert(bytes[m.0 + k] == lower[m.0 + k] as u8);
        assert(needle[k] == query_lower[k] as u8);
        assert(piece[k] == lower[m.0 + k]);
    }
    assert(piece =~= query_lower);
}

/// The first offset at or after `from` at which `needle` stands in `bytes`.
fn find_bytes(bytes: &[u8], needle: &[u8], from: usize) -> (r: Option<usize>)
    ensures
        match r {
            Some(at) => first_bytes_at(bytes@, needle@, from as int) == Some(at as int),
            None => first_bytes_at(bytes@, needle@, from as int) is None,
        },
{
    let n: usize = bytes.len();
    let m: usize = needle.len();
    let mut i: usize = from;
    while m <= n && i <= n - m
        invariant
            n == bytes@.len(),
            m == needle@.len(),
            first_bytes_at(bytes@, needle@, from as int) == first_bytes_at(
                bytes@,
                needle@,
                i as int,
            ),
        decreases n - i + 1,
    {
        let mut k: usize = 0;
        while k < m && bytes[i + k] == needle[k]
            invariant
                k <= m,
                i + m <= n,
                n == bytes@.len(),
                m == needle@.len(),
                forall|j: int| 0 <= j < k ==> bytes@[i + j] == needle@[j],
            decreases m - k,
        {
            k += 1;
        }
        if k == m {
            assert(bytes@.subrange(i as int, i + m) =~= needle@);
            return Some(i);
        }
        assert(bytes@.subrange(i as int, i + m)[k as int] != needle@[k as int]);
        if i == n {
            return None;
        }
        i += 1;
    }
    None
}

/// The byte ranges, in the lower-case form of `text`, of the occurrences of
/// `query_lower`. For ASCII text that form has the bytes of the text, but for the
/// case of letters.
pub fn find_all(text: &str, query_lower: &str) -> (r: Vec<Range<usize>>)
    ensures
        bounds_of(r@) == all_matches(
            encode_utf8(lowercased(text@)),
            encode_utf8(query_lower@),
            0,
        ),
        is_ascii_chars(text@) ==> bounds_of(r@) == all_matches(
            encode_utf8(ascii_lowered(text@)),
            encode_utf8(query_lower@),
            0,
        ),
{
    let haystack = text.to_lowercase();
    let bytes = haystack.as_str().as_bytes();
    let needle = query_lower.as_bytes();
    let mut out: Vec<Range<usize>> = Vec::new();
    if needle.len() == 0 {
        assert(bounds_of(out@) =~= Seq::<(int, int)>::empty());
        return out;
    }
    let mut start: usize = 0;
    let n: usize = bytes.len();
    assert(bounds_of(out@) + all_matches(bytes@, needle@, 0) =~= all_matches(bytes@, needle@, 0));
    loop
        invariant
            needle@.len() > 0,
            start <= n == bytes@.len(),
            all_matches(bytes@, needle@, 0) == bounds_of(out@) + all_matches(
                bytes@,
                needle@,
                start as int,
            ),
        ensures
            all_matches(bytes@, needle@, 0) == bounds_of(out@),
        decreases n - start,
    {
        proof {
            lemma_first_bytes_at(bytes@, needle@, start as int);
        }
        match find_bytes(bytes, needle, start) {
            Some(at) => {
                let end: usize = at + needle.len();
                let ghost done = bounds_of(out@);
                out.push(Range { start: at, end });
                assert(bounds_of(out@) =~= done.push((at as int, end as int)));
                assert(done + (seq![(at as int, end as int)] + all_matches(
                    bytes@,
                    needle@,
                    end as int,
                )) =~= bounds_of(out@) + all_matches(bytes@, needle@, end as int));
                start = end;
            },
            None => {
                assert(bounds_of(out@) + Seq::<(int, int)>::empty() =~= bounds_of(out@));
                break;
            },
        }
    }
    out
}

/// One match of a search: the entry, the span within it and the byte range
/// within the span.
#[derive(Debug)]
pub struct FindMatch {
    pub entry_idx: usize,
    pub span_idx: usize,
    pub range: Range<usize>,
}

/// The matches that lie in the given span, in order.
pub open spec fn span_matches(matches: Seq<FindMatch>, entry_idx: usize, span_idx: usize) -> Seq<
    FindMatch,
> {
    matches.filter(|m: FindMatch| m.entry_idx == entry_idx && m.span_idx == span_idx)
}

/// The bounds of the ranges of a list of matches.
pub open spec fn match_bounds(matches: Seq<FindMatch>) -> Seq<(int, int)> {
    matches.map_values(|m: FindMatch| (m.range.start as int, m.range.end as int))
}

/// The ranges of the matches in one span, and which of them is the selected
/// match, if it lies there.
pub fn matches_for_span(
    matches: &[FindMatch],
    selected: Option<usize>,
    entry_idx: usize,
    span_idx: usize,
) -> (r: (Vec<Range<usize>>, Option<usize>))
    ensures
        bounds_of(r.0@) == match_bounds(span_matches(matches@, entry_idx, span_idx)),
        match selected {
            Some(i) => {
                let here = i < matches@.len() && matches@[i as int].entry_idx == entry_idx
                    && matches@[i as int].span_idx == span_idx;
                &&& r.1 is Some <==> here
                &&& here ==> r.1->0 == span_matches(
                    matches@.take(i as int),
                    entry_idx,
                    span_idx,
                ).len()
            },
            None => r.1 is None,
        },
{
    let mut ranges: Vec<Range<usize>> = Vec::new();
    let mut selected_in_span: Option<usize> = None;
    let mut i: usize = 0;
    let ghost pred = |m: FindMatch| m.entry_idx == entry_idx && m.span_idx == span_idx;
    assert(matches@.take(0).filter(pred) =~= Seq::<FindMatch>::empty()) by {
        reveal(Seq::filter);
    }
    assert(bounds_of(ranges@) =~= match_bounds(matches@.take(0).filter(pred)));
    while i < matches.len()
        invariant
            i <= matches@.len(),
            pred == (|m: FindMatch| m.entry_idx == entry_idx && m.span_idx == span_idx),
            ranges@.len() == matches@.take(i as int).filter(pred).len(),
            bounds_of(ranges@) == match_bounds(matches@.take(i as int).filter(pred)),
            match selected {
                Some(k) => {
                    let here = k < i && matches@[k as int].entry_idx == entry_idx
                        && matches@[k as int].span_idx == span_idx;
                    &&& selected_in_span is Some <==> here
                    &&& here ==> selected_in_span->0 == matches@.take(k as int).filter(pred).len()
                },
                None => selected_in_span is None,
            },
        decreases matches@.len() - i,
    {
        let ghost seen = matches@.take(i as int);
        let ghost next = matches@.take(i as int + 1);
        assert(next =~= seen.push(matches@[i as int]));
        proof {
            reveal(Seq::filter);
            assert(next.drop_last() =~= seen);
        }
        let m = &matches[i];
        if m.entry_idx == entry_idx && m.span_idx == span_idx {
            match selected {
                Some(k) => {
                    if k == i {
                        selected_in_span = Some(ranges.len());
                    }
                },
                None => {},
            }
            let ghost before = bounds_of(ranges@);
            ranges.push(Range { start: m.range.start, end: m.range.end });
            assert(bounds_of(ranges@) =~= before.push(
                (m.range.start as int, m.range.end as int),
            ));
            assert(next.filter(pred) =~= seen.filter(pred).push(matches@[i as int]));
            assert(match_bounds(next.filter(pred)) =~= match_bounds(seen.filter(pred)).push(
                (m.range.start as int, m.range.end as int),
            ));
        }
        i += 1;
    }
    assert(matches@.take(i as int) =~= matches@);
    (ranges, selected_in_span)
}

} // verus!
