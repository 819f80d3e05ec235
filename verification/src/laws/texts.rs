//! What texts, numbers, paths and times stand for.
use crate::claude_adapter::member_label;
use crate::clock::Timestamp;
use crate::conversation_render::{
    assembled_blocks, labelled_image_count, linked_text, queued_preview, reflowed, user_links,
    with_linked_literals, without_injected_meta,
};
use crate::conversation_view::{can_be_shown, elapsed_of};
use crate::laws::compaction::{is_name, law_joining_adds_a_component};
use crate::laws::tasks::is_tight;
use crate::path::{components, joined_path};
use crate::search::{span_matches, FindMatch};
use crate::text::{
    decimal, digits_value, has_prefix, is_blank, is_digit, joined, lemma_trimmed_end_shape,
    lemma_trimmed_start_shape, lines_of, parsed_signed, replaced, signed_decimal, split_on,
    trimmed, trimmed_end, trimmed_start,
};
use crate::thread::{PromptBlockView, ToolCallView};
use vstd::prelude::*;

verus! {

/// A number that is written out is read back.
pub proof fn law_numbers_are_read_back(n: nat)
    ensures
        digits_value(decimal(n)) == Some(n),
        decimal(n).len() > 0,
        is_digit(decimal(n)[0]),
    decreases n,
{
    if n >= 10 {
        law_numbers_are_read_back(n / 10);
        assert(decimal(n).drop_last() =~= decimal(n / 10));
    }
}

/// A number with a sign that is written out is read back exactly where it lies within
/// the bounds.
pub proof fn law_signed_numbers_are_read_back(n: int, min: int, max: int)
    ensures
        min <= n <= max ==> parsed_signed(signed_decimal(n), min, max) == Some(n),
        !(min <= n <= max) ==> parsed_signed(signed_decimal(n), min, max) is None,
{
    if n < 0 {
        law_numbers_are_read_back((-n) as nat);
        assert(signed_decimal(n).drop_first() =~= decimal((-n) as nat));
    } else {
        law_numbers_are_read_back(n as nat);
    }
}

/// Only white space at the ends of a text is taken away, and all of it.
pub proof fn law_only_white_space_is_trimmed(
    before: Seq<char>,
    text: Seq<char>,
    after: Seq<char>,
)
    requires
        is_blank(before),
        is_tight(text),
        is_blank(after),
    ensures
        trimmed(before + text + after) == text,
        trimmed_start(before + text + after) == text + after,
        trimmed_end(before + text + after) == before + text,
{
    let whole = before + text + after;
    lemma_trimmed_start_shape(whole);
    let start = trimmed_start(whole);
    let cut = whole.len() - start.len();
    if cut < before.len() {
        assert(start[0] == whole[cut]);
        assert(before[cut] == whole[cut]);
        assert(false);
    }
    if cut > before.len() {
        assert(whole[before.len() as int] == text[0]);
        assert(false);
    }
    assert(start =~= text + after);
    lemma_trimmed_end_of(text, after);
    assert(is_tight(text));
    lemma_trimmed_end_shape(whole);
    let kept = trimmed_end(whole);
    let end = before.len() + text.len();
    if kept.len() > end {
        assert(kept.last() == whole[kept.len() - 1]);
        assert(after[kept.len() - 1 - end] == whole[kept.len() - 1]);
        assert(false);
    }
    if kept.len() < end {
        assert(whole[end - 1] == text.last());
        assert(false);
    }
    assert(kept =~= before + text);
}

/// White space behind a text that ends with none is taken away.
proof fn lemma_trimmed_end_of(text: Seq<char>, after: Seq<char>)
    requires
        is_tight(text),
        is_blank(after),
    ensures
        trimmed_end(text + after) == text,
{
    let whole = text + after;
    lemma_trimmed_end_shape(whole);
    let kept = trimmed_end(whole);
    if kept.len() > text.len() {
        assert(kept.last() == whole[kept.len() - 1]);
        assert(after[kept.len() - 1 - text.len()] == whole[kept.len() - 1]);
        assert(false);
    }
    if kept.len() < text.len() {
        assert(whole[text.len() - 1] == text.last());
        assert(false);
    }
    assert(kept =~= text);
}

/// Texts are joined in their order with the separator between any two.
pub proof fn law_texts_are_joined_in_order(
    parts: Seq<Seq<char>>,
    part: Seq<char>,
    sep: Seq<char>,
)
    ensures
        joined(Seq::empty(), sep) == Seq::<char>::empty(),
        parts.len() == 0 ==> joined(parts.push(part), sep) == part,
        parts.len() > 0 ==> joined(parts.push(part), sep) == joined(parts, sep) + sep + part,
{
    assert(parts.push(part).drop_last() =~= parts);
}

/// Splitting a text at a separator and joining the pieces gives the text back, and no
/// piece holds the separator.
pub proof fn law_pieces_make_up_the_text(s: Seq<char>, sep: char)
    ensures
        joined(split_on(s, sep), seq![sep]) == s,
        split_on(s, sep).len() > 0,
        forall|i: int|
            0 <= i < split_on(s, sep).len() ==> !(#[trigger] split_on(s, sep)[i]).contains(sep),
    decreases s.len(),
{
    let pieces = split_on(s, sep);
    if s.len() == 0 {
        assert(s =~= Seq::<char>::empty());
    } else {
        let shorter = s.drop_last();
        let before = split_on(shorter, sep);
        law_pieces_make_up_the_text(shorter, sep);
        if s.last() == sep {
            assert(pieces.drop_last() =~= before);
            assert(joined(pieces, seq![sep]) =~= s);
        } else {
            let last = before.last().push(s.last());
            assert(pieces.drop_last() =~= before.drop_last());
            if before.len() == 1 {
                assert(joined(pieces, seq![sep]) =~= s);
            } else {
                assert(joined(before, seq![sep]) == joined(before.drop_last(), seq![sep]) + seq![sep]
                    + before.last());
                assert(joined(pieces, seq![sep]) =~= joined(before, seq![sep]).push(s.last()));
                assert(joined(pieces, seq![sep]) =~= s);
            }
            assert forall|i: int| 0 <= i < pieces.len() implies !(
            #[trigger] pieces[i]).contains(sep) by {
                if i == pieces.len() - 1 {
                    assert(pieces[i] == last);
                    if last.contains(sep) {
                        let k = choose|k: int| 0 <= k < last.len() && last[k] == sep;
                        assert(before.last()[k] == sep);
                        assert(before[before.len() - 1].contains(sep));
                    }
                } else {
                    assert(pieces[i] == before[i]);
                }
            }
        }
    }
}

/// Texts with a blank line between any two.
pub open spec fn with_blank_lines(texts: Seq<Seq<char>>) -> Seq<char>
    decreases texts.len(),
{
    if texts.len() == 0 {
        Seq::empty()
    } else if texts.len() == 1 {
        texts[0]
    } else {
        with_blank_lines(texts.drop_last()) + seq!['\n', '\n'] + texts.last()
    }
}

/// Lines with a hard break between any two.
pub open spec fn with_hard_breaks(lines: Seq<Seq<char>>) -> Seq<char>
    decreases lines.len(),
{
    if lines.len() == 0 {
        Seq::empty()
    } else if lines.len() == 1 {
        lines[0]
    } else {
        with_hard_breaks(lines.drop_last()) + seq![' ', ' ', '\n'] + lines.last()
    }
}

/// Joining with a blank line.
proof fn lemma_blank_lines(texts: Seq<Seq<char>>)
    ensures
        joined(texts, "\n\n"@) == with_blank_lines(texts),
    decreases texts.len(),
{
    reveal_strlit("\n\n");
    assert("\n\n"@ =~= seq!['\n', '\n']);
    if texts.len() > 1 {
        lemma_blank_lines(texts.drop_last());
    }
}

/// Joining with a hard break.
proof fn lemma_hard_breaks(lines: Seq<Seq<char>>)
    ensures
        joined(lines, "  \n"@) == with_hard_breaks(lines),
    decreases lines.len(),
{
    reveal_strlit("  \n");
    assert("  \n"@ =~= seq![' ', ' ', '\n']);
    if lines.len() > 1 {
        lemma_hard_breaks(lines.drop_last());
    }
}

/// A text is shown paragraph by paragraph with a blank line between them, and line by
/// line within a paragraph with a break that is kept.
pub proof fn law_line_breaks_are_kept(text: Seq<char>)
    ensures
        ({
            let paragraphs = crate::conversation_render::paragraphs(lines_of(text));
            reflowed(text) == with_blank_lines(
                Seq::new(paragraphs.len(), |i: int| with_hard_breaks(paragraphs[i])),
            )
        }),
{
    let paragraphs = crate::conversation_render::paragraphs(lines_of(text));
    let texts = Seq::new(paragraphs.len(), |i: int| with_hard_breaks(paragraphs[i]));
    let shown = paragraphs.map_values(
        |lines: Seq<Seq<char>>| crate::conversation_render::paragraph_text(lines),
    );
    assert forall|i: int| 0 <= i < shown.len() implies shown[i] == texts[i] by {
        lemma_hard_breaks(paragraphs[i]);
    }
    assert(shown =~= texts);
    lemma_blank_lines(texts);
}

/// Whether a text stands nowhere in another.
pub open spec fn stands_nowhere(s: Seq<char>, needle: Seq<char>) -> bool {
    forall|k: int| 0 <= k <= s.len() ==> !has_prefix(#[trigger] s.skip(k), needle)
}

/// A text without what is to be replaced stays as it is.
proof fn lemma_nothing_replaced(s: Seq<char>, from: Seq<char>, to: Seq<char>)
    requires
        from.len() > 0,
        stands_nowhere(s, from),
    ensures
        replaced(s, from, to) == s,
    decreases s.len(),
{
    if s.len() >= from.len() {
        assert(s.skip(0) =~= s);
        assert(!has_prefix(s, from));
        let rest = s.drop_first();
        assert forall|k: int| 0 <= k <= rest.len() implies !has_prefix(
            #[trigger] rest.skip(k),
            from,
        ) by {
            assert(rest.skip(k) =~= s.skip(k + 1));
        }
        lemma_nothing_replaced(rest, from, to);
        assert(seq![s[0]] + rest =~= s);
    }
}

/// What is replaced gives way to its substitute where it stands first, and the same
/// goes for the rest. Nothing else is changed.
pub proof fn law_only_what_is_found_is_replaced(
    before: Seq<char>,
    after: Seq<char>,
    from: Seq<char>,
    to: Seq<char>,
)
    requires
        from.len() > 0,
        forall|k: int|
            0 <= k < before.len() ==> !has_prefix(
                #[trigger] (before + from + after).skip(k),
                from,
            ),
    ensures
        replaced(before + from + after, from, to) == before + to + replaced(after, from, to),
    decreases before.len(),
{
    let whole = before + from + after;
    if before.len() == 0 {
        assert(whole =~= from + after);
        assert(whole.take(from.len() as int) =~= from);
        assert(whole.skip(from.len() as int) =~= after);
        assert(before + to =~= to);
    } else {
        assert(whole.skip(0) =~= whole);
        assert(!has_prefix(whole, from));
        let shorter = before.drop_first();
        let rest = whole.drop_first();
        assert(rest =~= shorter + from + after);
        assert forall|k: int| 0 <= k < shorter.len() implies !has_prefix(
            #[trigger] (shorter + from + after).skip(k),
            from,
        ) by {
            assert((shorter + from + after).skip(k) =~= whole.skip(k + 1));
        }
        law_only_what_is_found_is_replaced(shorter, after, from, to);
        assert(seq![whole[0]] + (shorter + to + replaced(after, from, to)) =~= before + to
            + replaced(after, from, to));
    }
}

/// A text whose images are numbered is shown with its links, and a mark for an image
/// without a number is left out. Where none is numbered each mark becomes a link.
pub proof fn law_marks_give_way_to_links(
    text: Seq<char>,
    gaps: Seq<Seq<char>>,
    labels: Seq<Option<Seq<char>>>,
    before: Seq<char>,
    after: Seq<char>,
)
    ensures
        labels.len() == 0 ==> user_links(text, gaps, labels) == with_linked_literals(text, 0),
        labels.len() > 0 && stands_nowhere(linked_text(gaps, labels, 0), "`Image`"@) ==> user_links(
            text,
            gaps,
            labels,
        ) == linked_text(gaps, labels, 0),
        labels.len() > 0 && linked_text(gaps, labels, 0) == before + "`Image`"@ + after && (forall|
            k: int,
        |
            0 <= k < before.len() ==> !has_prefix(
                #[trigger] (before + "`Image`"@ + after).skip(k),
                "`Image`"@,
            )) && stands_nowhere(after, "`Image`"@) ==> user_links(text, gaps, labels) == before
            + after,
{
    reveal_strlit("`Image`");
    reveal_strlit("");
    let mark = "`Image`"@;
    assert(mark.len() == 7);
    let shown = linked_text(gaps, labels, 0);
    if stands_nowhere(shown, mark) {
        lemma_nothing_replaced(shown, mark, ""@);
    }
    if shown == before + mark + after && stands_nowhere(after, mark) && (forall|k: int|
        0 <= k < before.len() ==> !has_prefix(#[trigger] (before + mark + after).skip(k), mark)) {
        law_only_what_is_found_is_replaced(before, after, mark, ""@);
        lemma_nothing_replaced(after, mark, ""@);
        assert(before + ""@ + after =~= before + after);
    }
}

/// A message that waits is previewed without white space around it and without what
/// was added to it.
pub proof fn law_waiting_messages_are_previewed(
    blocks: Seq<PromptBlockView>,
    hint: Seq<char>,
    before: Seq<char>,
    own: Seq<char>,
    after: Seq<char>,
)
    requires
        assembled_blocks(blocks, labelled_image_count(blocks)) == before + own + after,
        is_blank(before),
        is_tight(own),
        is_blank(after),
    ensures
        queued_preview(blocks, hint) == without_injected_meta(own, hint),
{
    law_only_white_space_is_trimmed(before, own, after);
}

/// An image can be shown exactly if its type is one of those that are supported.
pub proof fn law_supported_images_are_shown(mime_type: Seq<char>, supported: Seq<Seq<char>>)
    ensures
        can_be_shown(mime_type, supported) <==> supported.contains(mime_type),
{
}

/// A member of a solution is called by the last part of its path.
pub proof fn law_members_are_called_by_their_name(dir: Seq<char>, name: Seq<char>)
    requires
        is_name(name),
        name != ".."@,
    ensures
        member_label(joined_path(dir, name)) == name,
{
    law_joining_adds_a_component(dir, name);
    reveal_strlit("/");
    reveal_strlit(".");
    reveal_strlit("..");
    let path = joined_path(dir, name);
    assert(components(path).last() == name);
    assert(name[0] != '/');
    assert("/"@[0] == '/');
}

/// The matches of a part are all those in it, in their order.
pub proof fn law_matches_of_a_part_are_those_in_it(
    matches: Seq<FindMatch>,
    found: FindMatch,
    entry_idx: usize,
    span_idx: usize,
)
    ensures
        span_matches(Seq::empty(), entry_idx, span_idx) == Seq::<FindMatch>::empty(),
        found.entry_idx == entry_idx && found.span_idx == span_idx ==> span_matches(
            matches.push(found),
            entry_idx,
            span_idx,
        ) == span_matches(matches, entry_idx, span_idx).push(found),
        !(found.entry_idx == entry_idx && found.span_idx == span_idx) ==> span_matches(
            matches.push(found),
            entry_idx,
            span_idx,
        ) == span_matches(matches, entry_idx, span_idx),
{
    reveal(Seq::filter);
    assert(matches.push(found).drop_last() =~= matches);
}

/// Outside of leap seconds, a call that runs is shown with the whole seconds since its
/// start, and with none where the clock was set back.
pub proof fn law_whole_seconds_are_shown(
    call: ToolCallView,
    started: Timestamp,
    now: Timestamp,
    nanos: int,
)
    requires
        call.status is InProgress,
        call.status_started_at == Some(started),
        0 <= started.subsec_nanos() < 1_000_000_000,
        0 <= now.subsec_nanos() < 1_000_000_000,
        nanos == (now.seconds() - started.seconds()) * 1_000_000_000 + now.subsec_nanos()
            - started.subsec_nanos(),
        nanos <= 1_000_000_000 * u64::MAX,
    ensures
        ({
            let shown = elapsed_of(call, now)->0;
            &&& elapsed_of(call, now) is Some
            &&& nanos < 0 ==> shown == 0
            &&& nanos >= 0 ==> shown * 1_000_000_000 <= nanos < (shown + 1) * 1_000_000_000
        }),
{
}

/// A leap second that one of two times lies in and the other lies behind counts for one
/// second between them, whichever comes first.
pub proof fn law_leap_seconds_count(a: Timestamp, b: Timestamp)
    ensures
        a.nanos_after(b) == -b.nanos_after(a),
        b.subsec_nanos() >= 1_000_000_000 && a.seconds() % 86_400 > b.seconds() % 86_400
            ==> a.nanos_after(b) == (a.seconds() + 1 - b.seconds()) * 1_000_000_000
            + a.subsec_nanos() - b.subsec_nanos(),
{
}

} // verus!
