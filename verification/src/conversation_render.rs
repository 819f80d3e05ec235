//! What a conversation looks like on screen: the text of its entries, the
//! answers offered to a permission request, the matches of a search.
use crate::duplicate::{push_value, Duplicate};
use crate::pattern::{
    find_gaps, find_groups, pattern_gaps, pattern_groups, IMAGE_PLACEHOLDER_PATTERN,
};
use crate::text::{
    chars_of, decimal, find_from, find_in, has_prefix, is_digit, join, joined, lemma_find_from,
    lines, lines_of, print_u64, replace, replaced, split_str, split_text, starts_with, strip_prefix,
    trim, trim_end, trim_start, trimmed, trimmed_end, trimmed_start,
};
use crate::permissions::{status_text, tool_call_status_text};
use crate::json::JsonTree;
use crate::thread::{
    AgentThreadEntry, AgentThreadEntryView, AssistantMessageChunk, AssistantMessageChunkView,
    PlanEntryView, PromptBlock, PromptBlockView, PromptContent, PromptContentView, ToolCall,
    ToolCallContentView, UserMessage,
};
use crate::tool_output::{content_summary, tool_call_content_summary};
use vstd::prelude::*;
use vstd::string::*;

verus! {

/// What stands in front of a time stamp that the queue puts before a message.
pub const TS_PREFIX_OPEN: &'static str = "[";

/// What stands behind a time stamp that the queue puts before a message.
pub const TS_PREFIX_CLOSE: &'static str = "] ";

/// The literal that stands for an image in rendered markdown.
pub const IMAGE_LITERAL: &'static str = "`Image`";

/// The id of the first user message at or after `from`.
pub open spec fn next_user_id(user_ids: Seq<Option<Seq<char>>>, from: int) -> Option<Seq<char>>
    decreases user_ids.len() - from,
{
    if from < 0 || from >= user_ids.len() {
        None
    } else if user_ids[from] is Some {
        user_ids[from]
    } else {
        next_user_id(user_ids, from + 1)
    }
}

/// For every entry the id of the next user message after it, to which the
/// conversation can be rewound. A user message is never its own target.
pub fn compute_rewind_table(user_ids: &[Option<String>]) -> (table: Vec<Option<String>>)
    ensures
        table@.len() == user_ids@.len(),
        forall|i: int|
            0 <= i < table@.len() ==> (#[trigger] table@[i]).deep_view() == (
            if user_ids@[i] is Some {
                None
            } else {
                next_user_id(user_ids.deep_view(), i + 1)
            }),
{
    let n: usize = user_ids.len();
    let ghost ids = user_ids.deep_view();
    let mut reversed: Vec<Option<String>> = Vec::new();
    let mut current: Option<String> = None;
    let mut i: usize = n;
    while i > 0
        invariant
            i <= n == user_ids@.len(),
            ids == user_ids.deep_view(),
            reversed@.len() == n - i,
            current.deep_view() == next_user_id(ids, i as int),
            forall|k: int|
                0 <= k < n - i ==> (#[trigger] reversed@[k]).deep_view() == (
                if user_ids@[n - 1 - k] is Some {
                    None
                } else {
                    next_user_id(ids, n - k)
                }),
        decreases i,
    {
        i -= 1;
        assert(ids[i as int] == user_ids@[i as int].deep_view());
        match &user_ids[i] {
            Some(id) => {
                current = Some(id.clone());
                reversed.push(None);
            },
            None => {
                reversed.push(current.duplicate());
            },
        }
    }
    let mut table: Vec<Option<String>> = Vec::new();
    while reversed.len() > 0
        invariant
            n == user_ids@.len(),
            ids == user_ids.deep_view(),
            reversed@.len() + table@.len() == n,
            forall|k: int|
                0 <= k < reversed@.len() ==> (#[trigger] reversed@[k]).deep_view() == (
                if user_ids@[n - 1 - k] is Some {
                    None
                } else {
                    next_user_id(ids, n - k)
                }),
            forall|k: int|
                0 <= k < table@.len() ==> (#[trigger] table@[k]).deep_view() == (
                if user_ids@[k] is Some {
                    None
                } else {
                    next_user_id(ids, k + 1)
                }),
        decreases reversed@.len(),
    {
        let ghost last = reversed@.len() - 1;
        assert(reversed@[last].deep_view() == reversed@[last].deep_view());
        let target = reversed.pop().unwrap();
        table.push(target);
    }
    table
}

/// Whether `stamp` reads `HH:MM:SS`.
pub open spec fn is_clock_stamp(stamp: Seq<char>) -> bool {
    &&& stamp.len() == 8
    &&& stamp[2] == ':'
    &&& stamp[5] == ':'
    &&& forall|i: int| 0 <= i < 8 && i != 2 && i != 5 ==> is_digit(#[trigger] stamp[i])
}

/// `segment` without one `[HH:MM:SS] ` at its start.
pub open spec fn without_timestamp(segment: Seq<char>) -> Seq<char> {
    if !has_prefix(segment, TS_PREFIX_OPEN@) {
        segment
    } else {
        let rest = segment.skip(TS_PREFIX_OPEN@.len() as int);
        match find_from(rest, TS_PREFIX_CLOSE@, 0) {
            Some(close) => if is_clock_stamp(rest.take(close)) {
                rest.skip(close + TS_PREFIX_CLOSE@.len())
            } else {
                segment
            },
            None => segment,
        }
    }
}

/// Whether `stamp` reads `HH:MM:SS`.
fn reads_as_clock_stamp(stamp: &str) -> (b: bool)
    ensures
        b == is_clock_stamp(stamp@),
{
    let v = chars_of(stamp);
    if v.len() != 8 || v[2] != ':' || v[5] != ':' {
        return false;
    }
    let mut i: usize = 0;
    while i < 8
        invariant
            i <= 8 == v@.len(),
            v@ == stamp@,
            forall|k: int| 0 <= k < i && k != 2 && k != 5 ==> is_digit(#[trigger] stamp@[k]),
        decreases 8 - i,
    {
        let c = v[i];
        if i != 2 && i != 5 && !('0' <= c && c <= '9') {
            assert(!is_digit(stamp@[i as int]));
            return false;
        }
        i += 1;
    }
    true
}

/// Drops one leading `[HH:MM:SS] ` from a segment, if it is there.
pub fn strip_one_timestamp(segment: &str) -> (r: &str)
    ensures
        r@ == without_timestamp(segment@),
{
    let rest = match strip_prefix(segment, TS_PREFIX_OPEN) {
        Some(rest) => rest,
        None => {
            return segment;
        },
    };
    let v = chars_of(rest);
    let close_chars = chars_of(TS_PREFIX_CLOSE);
    proof {
        lemma_find_from(rest@, TS_PREFIX_CLOSE@, 0);
    }
    match find_in(&v, &close_chars, 0) {
        Some(close) => {
            assert(rest@.subrange(0, close as int) == rest@.take(close as int));
            if reads_as_clock_stamp(rest.substring_char(0, close)) {
                let n: usize = rest.unicode_len();
                let from: usize = close + close_chars.len();
                assert(rest@.subrange(from as int, n as int) == rest@.skip(from as int));
                rest.substring_char(from, n)
            } else {
                segment
            }
        },
        None => segment,
    }
}

/// `text` without the line feeds at its start.
pub open spec fn without_leading_newlines(text: Seq<char>) -> Seq<char>
    decreases text.len(),
{
    if text.len() > 0 && text[0] == '\n' {
        without_leading_newlines(text.drop_first())
    } else {
        text
    }
}

/// `str::trim_start_matches` with a line feed.
fn trim_leading_newlines(text: &str) -> (r: &str)
    ensures
        r@ == without_leading_newlines(text@),
{
    let v = chars_of(text);
    let n: usize = v.len();
    let mut i: usize = 0;
    assert(text@.skip(0) == text@);
    while i < n && v[i] == '\n'
        invariant
            i <= n == v@.len(),
            v@ == text@,
            without_leading_newlines(text@) == without_leading_newlines(text@.skip(i as int)),
        decreases n - i,
    {
        assert(text@.skip(i as int).drop_first() == text@.skip(i as int + 1));
        i += 1;
    }
    assert(text@.subrange(i as int, n as int) == text@.skip(i as int));
    text.substring_char(i, n)
}

/// `text` without what the queue puts into it for the agent: the hint line
/// `hint` at its start and a time stamp in front of every paragraph.
pub open spec fn without_injected_meta(text: Seq<char>, hint: Seq<char>) -> Seq<char> {
    let body = if has_prefix(text, hint) {
        without_leading_newlines(text.skip(hint.len() as int))
    } else {
        text
    };
    joined(
        split_text(body, "\n\n"@).map_values(|segment: Seq<char>| without_timestamp(segment)),
        "\n\n"@,
    )
}

/// Removes what the queue puts into a message for the agent alone, so that
/// only the user's own text is left. `hint` is the line that the queue may put
/// in front of the whole message.
pub fn strip_injected_meta(text: &str, hint: &str) -> (r: String)
    ensures
        r@ == without_injected_meta(text@, hint@),
{
    let body = match strip_prefix(text, hint) {
        Some(rest) => trim_leading_newlines(rest),
        None => text,
    };
    let segments = split_str(body, "\n\n");
    let ghost all = segments.deep_view();
    let ghost clean = all.map_values(|segment: Seq<char>| without_timestamp(segment));
    let mut out: Vec<String> = Vec::new();
    let mut i: usize = 0;
    while i < segments.len()
        invariant
            i <= segments@.len(),
            all == segments.deep_view(),
            clean == all.map_values(|segment: Seq<char>| without_timestamp(segment)),
            out.deep_view() =~= clean.take(i as int),
        decreases segments@.len() - i,
    {
        assert(all[i as int] == segments@[i as int]@);
        let segment = strip_one_timestamp(segments[i].as_str()).to_owned();
        push_value(&mut out, segment);
        assert(clean.take(i as int + 1) =~= clean.take(i as int).push(clean[i as int]));
        i += 1;
    }
    assert(clean.take(i as int) =~= clean);
    join(&out, "\n\n")
}

/// The markdown link to the image at position `index`, labelled `label`.
pub open spec fn image_link(label: Seq<char>, index: nat) -> Seq<char> {
    "[image #"@ + label + "](spk-image://"@ + decimal(index) + ")"@
}

/// The label of the placeholder at position `k`: the number that it carries, as it
/// is written there, or else its 1-based position.
pub open spec fn placeholder_label(label: Option<Seq<char>>, k: nat) -> Seq<char> {
    match label {
        Some(digits) => digits,
        None => decimal(k + 1),
    }
}

/// The pieces `gaps` with a link to image `base + k` in place of the `k`-th
/// placeholder, whose number is `labels[k]` where it carries one.
pub open spec fn linked_text(
    gaps: Seq<Seq<char>>,
    labels: Seq<Option<Seq<char>>>,
    base: nat,
) -> Seq<char>
    decreases labels.len(),
{
    if labels.len() == 0 {
        gaps[0]
    } else {
        let k = (labels.len() - 1) as nat;
        linked_text(gaps, labels.drop_last(), base) + image_link(
            placeholder_label(labels.last(), k),
            base + k,
        ) + gaps[labels.len() as int]
    }
}

/// A link to an image.
fn print_image_link(label: &str, index: usize) -> (r: String)
    ensures
        r@ == image_link(label@, index as nat),
{
    let mut out = "[image #".to_owned();
    out.append(label);
    out.append("](spk-image://");
    let index_text = print_u64(index as u64);
    out.append(index_text.as_str());
    out.append(")");
    out
}

/// Puts a link to image `base + k` in place of the `k`-th placeholder between
/// the pieces `gaps`. A placeholder that carries a number keeps it as its label.
pub fn link_images(gaps: &Vec<String>, labels: &Vec<Option<String>>, base: usize) -> (r: String)
    requires
        gaps@.len() == labels@.len() + 1,
        base + labels@.len() <= usize::MAX,
    ensures
        r@ == linked_text(gaps.deep_view(), labels.deep_view(), base as nat),
{
    let ghost gap_views = gaps.deep_view();
    let ghost label_views = labels.deep_view();
    assert(gap_views[0] == gaps@[0]@);
    let mut out = gaps[0].clone();
    let mut k: usize = 0;
    while k < labels.len()
        invariant
            k <= labels@.len(),
            gaps@.len() == labels@.len() + 1,
            base + labels@.len() <= usize::MAX,
            gap_views == gaps.deep_view(),
            label_views == labels.deep_view(),
            out@ == linked_text(gap_views, label_views.take(k as int), base as nat),
        decreases labels@.len() - k,
    {
        assert(label_views[k as int] == labels@[k as int].deep_view());
        assert(gap_views[k + 1] == gaps@[k + 1]@);
        let label = match &labels[k] {
            Some(digits) => digits.clone(),
            None => print_u64((k + 1) as u64),
        };
        let link = print_image_link(label.as_str(), base + k);
        out.append(link.as_str());
        out.append(gaps[k + 1].as_str());
        assert(label_views.take(k as int + 1).drop_last() =~= label_views.take(k as int));
        k += 1;
    }
    assert(label_views.take(k as int) =~= label_views);
    out
}

/// No labels, `n` times.
pub open spec fn unlabelled(n: nat) -> Seq<Option<Seq<char>>> {
    Seq::new(n, |k: int| None)
}

/// How many image literals `text` holds.
pub open spec fn literal_count(text: Seq<char>) -> nat {
    (split_text(text, IMAGE_LITERAL@).len() - 1) as nat
}

/// How many image literals `text` holds.
pub fn count_image_literals(text: &str) -> (r: usize)
    ensures
        r == literal_count(text@),
{
    let gaps = split_str(text, IMAGE_LITERAL);
    proof {
        lemma_split_text_count(text@, IMAGE_LITERAL@);
    }
    assert(gaps@.len() == gaps.deep_view().len());
    gaps.len() - 1
}

/// `text` with a link to image `base + k` in place of the `k`-th image literal.
pub open spec fn with_linked_literals(text: Seq<char>, base: nat) -> Seq<char> {
    linked_text(split_text(text, IMAGE_LITERAL@), unlabelled(literal_count(text)), base)
}

/// Splitting leaves at least one piece, and at most one more than there are
/// characters.
pub proof fn lemma_split_text_count(s: Seq<char>, sep: Seq<char>)
    ensures
        0 < split_text(s, sep).len() <= s.len() + 1,
    decreases s.len(),
{
    if sep.len() > 0 {
        lemma_find_from(s, sep, 0);
        match find_from(s, sep, 0) {
            Some(at) => {
                lemma_split_text_count(s.skip(at + sep.len()), sep);
            },
            None => {},
        }
    }
}

/// Rewrites the image literals of an assistant message into links. The `k`-th
/// one links to image `image_index_base + k` and is labelled by its 1-based
/// position in the message.
pub fn clean_assistant_message_text(text: &str, image_index_base: usize) -> (r: String)
    requires
        image_index_base + literal_count(text@) <= usize::MAX,
    ensures
        r@ == with_linked_literals(text@, image_index_base as nat),
{
    let gaps = split_str(text, IMAGE_LITERAL);
    proof {
        lemma_split_text_count(text@, IMAGE_LITERAL@);
    }
    assert(gaps@.len() == gaps.deep_view().len());
    let mut labels: Vec<Option<String>> = Vec::new();
    let mut i: usize = 1;
    while i < gaps.len()
        invariant
            1 <= i <= gaps@.len(),
            labels@.len() == i - 1,
            forall|k: int| 0 <= k < labels@.len() ==> (#[trigger] labels@[k]) is None,
        decreases gaps@.len() - i,
    {
        labels.push(None);
        i += 1;
    }
    assert(labels.deep_view() =~= unlabelled(literal_count(text@)));
    link_images(&gaps, &labels, image_index_base)
}

/// The image links of a user message, given the numbered placeholders in it:
/// `gaps` and `labels` are what stands around and inside them. Where there are
/// any, they stand for the images and the image literals are dropped;
/// otherwise the literals are linked.
pub open spec fn user_links(
    text: Seq<char>,
    gaps: Seq<Seq<char>>,
    labels: Seq<Option<Seq<char>>>,
) -> Seq<char> {
    if labels.len() > 0 {
        replaced(linked_text(gaps, labels, 0), IMAGE_LITERAL@, ""@)
    } else {
        with_linked_literals(text, 0)
    }
}

/// Links the images of a user message.
pub fn link_user_images(text: &str, gaps: &Vec<String>, labels: &Vec<Option<String>>) -> (r: String)
    requires
        gaps@.len() == labels@.len() + 1,
    ensures
        r@ == user_links(text@, gaps.deep_view(), labels.deep_view()),
{
    if labels.len() > 0 {
        let linked = link_images(gaps, labels, 0);
        replace(linked.as_str(), IMAGE_LITERAL, "")
    } else {
        let n: usize = text.unicode_len();
        proof {
            lemma_split_text_count(text@, IMAGE_LITERAL@);
        }
        assert(literal_count(text@) <= n);
        clean_assistant_message_text(text, 0)
    }
}

/// Whether nothing but white space stands at the end of the line.
pub open spec fn is_blank_line(line: Seq<char>) -> bool {
    trimmed_end(line).len() == 0
}

/// The paragraphs of a text: its runs of lines that are not blank, each line
/// without the white space at its end.
pub open spec fn paragraphs(lines: Seq<Seq<char>>) -> Seq<Seq<Seq<char>>>
    decreases lines.len(),
{
    if lines.len() == 0 {
        Seq::empty()
    } else {
        let before = paragraphs(lines.drop_last());
        let line = trimmed_end(lines.last());
        if is_blank_line(lines.last()) {
            before
        } else if lines.len() > 1 && !is_blank_line(lines[lines.len() - 2]) {
            before.update(before.len() - 1, before.last().push(line))
        } else {
            before.push(seq![line])
        }
    }
}

/// The text of a paragraph: its lines with a hard break between each two.
pub open spec fn paragraph_text(lines: Seq<Seq<char>>) -> Seq<char> {
    joined(lines, "  \n"@)
}

/// `text` with a hard break at every line end inside a paragraph and one blank
/// line between paragraphs.
pub open spec fn reflowed(text: Seq<char>) -> Seq<char> {
    joined(
        paragraphs(lines_of(text)).map_values(|lines: Seq<Seq<char>>| paragraph_text(lines)),
        "\n\n"@,
    )
}

/// Every paragraph holds a line, and a text that ends in a line that is not
/// blank has a paragraph.
proof fn lemma_paragraphs_nonempty(lines: Seq<Seq<char>>)
    ensures
        lines.len() > 0 && !is_blank_line(lines.last()) ==> paragraphs(lines).len() > 0,
        forall|i: int|
            0 <= i < paragraphs(lines).len() ==> (#[trigger] paragraphs(lines)[i]).len() > 0,
    decreases lines.len(),
{
    if lines.len() > 0 {
        lemma_paragraphs_nonempty(lines.drop_last());
        let before = paragraphs(lines.drop_last());
        let after = paragraphs(lines);
        assert(lines.len() > 1 ==> lines.drop_last().last() == lines[lines.len() - 2]);
        assert forall|i: int| 0 <= i < after.len() implies (#[trigger] after[i]).len() > 0 by {
            if i < before.len() {
                assert(before[i].len() > 0);
            }
        }
    }
}

/// Lays out the lines of `text` with explicit line breaks.
pub fn reflow(text: &str) -> (r: String)
    ensures
        r@ == reflowed(text@),
{
    let rows = lines(text);
    let ghost all = rows.deep_view();
    let mut out: Vec<String> = Vec::new();
    let mut open = false;
    let mut i: usize = 0;
    let ghost shown = paragraphs(all.take(0)).map_values(
        |lines: Seq<Seq<char>>| paragraph_text(lines),
    );
    assert(out.deep_view() =~= shown);
    while i < rows.len()
        invariant
            i <= rows@.len(),
            all == rows.deep_view(),
            open == (i > 0 && !is_blank_line(all[i - 1])),
            out.deep_view() == paragraphs(all.take(i as int)).map_values(
                |lines: Seq<Seq<char>>| paragraph_text(lines),
            ),
        decreases rows@.len() - i,
    {
        assert(all[i as int] == rows@[i as int]@);
        let line = trim_end(rows[i].as_str());
        let ghost seen = all.take(i as int);
        let ghost next = all.take(i as int + 1);
        let ghost before = paragraphs(seen);
        let ghost done = out.deep_view();
        assert(next.drop_last() =~= seen);
        assert(i > 0 ==> next[next.len() - 2] == all[i - 1] && seen.last() == all[i - 1]);
        proof {
            lemma_paragraphs_nonempty(seen);
        }
        if line.is_empty() {
            open = false;
        } else if open {
            assert(done.len() == before.len());
            let mut last = out.pop().unwrap();
            assert(out.deep_view() =~= done.drop_last());
            assert(last@ == done[done.len() - 1]);
            assert(last@ == paragraph_text(before.last()));
            last.append("  \n");
            last.append(line);
            assert(before.last().push(line@).drop_last() =~= before.last());
            assert(last@ == paragraph_text(before.last().push(line@)));
            push_value(&mut out, last);
            assert(out.deep_view() =~= paragraphs(next).map_values(
                |lines: Seq<Seq<char>>| paragraph_text(lines),
            ));
        } else {
            push_value(&mut out, line.to_owned());
            assert(paragraph_text(seq![line@]) == line@);
            assert(out.deep_view() =~= paragraphs(next).map_values(
                |lines: Seq<Seq<char>>| paragraph_text(lines),
            ));
            open = true;
        }
        i += 1;
    }
    assert(all.take(i as int) =~= all);
    join(&out, "\n\n")
}

/// How a user message is shown: without what the queue put into it, with its
/// images linked and its line breaks kept.
pub open spec fn shown_user_text(text: Seq<char>, hint: Seq<char>) -> Seq<char> {
    let own = without_injected_meta(text, hint);
    reflowed(
        user_links(
            own,
            pattern_gaps(IMAGE_PLACEHOLDER_PATTERN@, own),
            pattern_groups(IMAGE_PLACEHOLDER_PATTERN@, own),
        ),
    )
}

/// Cleans a user message for display. `hint` is the line that the queue may
/// put in front of the whole message.
pub fn clean_user_message_text(text: &str, hint: &str) -> (r: String)
    ensures
        r@ == shown_user_text(text@, hint@),
{
    let own = strip_injected_meta(text, hint);
    let labels = find_groups(IMAGE_PLACEHOLDER_PATTERN, own.as_str());
    let gaps = find_gaps(IMAGE_PLACEHOLDER_PATTERN, own.as_str());
    assert(labels.deep_view().len() == labels@.len());
    let linked = link_user_images(own.as_str(), &gaps, &labels);
    reflow(linked.as_str())
}

/// How many of `blocks` are images.
pub open spec fn image_block_count(blocks: Seq<PromptBlockView>) -> nat
    decreases blocks.len(),
{
    if blocks.len() == 0 {
        0
    } else {
        image_block_count(blocks.drop_last()) + if blocks.last().content is Image {
            1nat
        } else {
            0
        }
    }
}

/// How many images the texts of `blocks` already carry a placeholder for.
pub open spec fn labelled_image_count(blocks: Seq<PromptBlockView>) -> nat
    decreases blocks.len(),
{
    if blocks.len() == 0 {
        0
    } else {
        labelled_image_count(blocks.drop_last()) + match blocks.last().content {
            PromptContentView::Text(text) => pattern_groups(IMAGE_PLACEHOLDER_PATTERN@, text).len(),
            _ => 0,
        }
    }
}

/// The texts of `blocks` one after the other, with a placeholder for every
/// image but the first `labelled`.
pub open spec fn assembled_blocks(blocks: Seq<PromptBlockView>, labelled: nat) -> Seq<char>
    decreases blocks.len(),
{
    if blocks.len() == 0 {
        Seq::empty()
    } else {
        let before = blocks.drop_last();
        assembled_blocks(before, labelled) + match blocks.last().content {
            PromptContentView::Text(text) => text,
            PromptContentView::Image { .. } => if image_block_count(before) >= labelled {
                "[image #"@ + decimal(image_block_count(before) + 1) + "]"@
            } else {
                Seq::empty()
            },
            PromptContentView::Other(_) => Seq::empty(),
        }
    }
}

/// A count of images never exceeds the number of blocks.
pub proof fn lemma_image_block_count(blocks: Seq<PromptBlockView>)
    ensures
        image_block_count(blocks) <= blocks.len(),
    decreases blocks.len(),
{
    if blocks.len() > 0 {
        lemma_image_block_count(blocks.drop_last());
    }
}

/// How many of `blocks` are images.
pub fn count_image_blocks(blocks: &Vec<PromptBlock>) -> (r: usize)
    ensures
        r == image_block_count(blocks.deep_view()),
{
    let ghost all = blocks.deep_view();
    let mut count: usize = 0;
    let mut i: usize = 0;
    assert(all.take(0) =~= Seq::<PromptBlockView>::empty());
    while i < blocks.len()
        invariant
            i <= blocks@.len(),
            all == blocks.deep_view(),
            count == image_block_count(all.take(i as int)),
            count <= i,
        decreases blocks@.len() - i,
    {
        assert(all[i as int] == blocks@[i as int].deep_view());
        assert(all.take(i as int + 1).drop_last() =~= all.take(i as int));
        if let PromptContent::Image { .. } = &blocks[i].content {
            count += 1;
        }
        i += 1;
    }
    assert(all.take(i as int) =~= all);
    count
}

/// The texts of `blocks` one after the other, with a placeholder for every
/// image but the first `labelled`.
pub fn assemble_blocks(blocks: &Vec<PromptBlock>, labelled: usize) -> (r: String)
    ensures
        r@ == assembled_blocks(blocks.deep_view(), labelled as nat),
{
    let ghost all = blocks.deep_view();
    let mut out = String::new();
    let mut images: usize = 0;
    let mut i: usize = 0;
    let n: usize = blocks.len();
    assert(all.take(0) =~= Seq::<PromptBlockView>::empty());
    while i < n
        invariant
            i <= n == blocks@.len(),
            all == blocks.deep_view(),
            images == image_block_count(all.take(i as int)),
            images <= i,
            out@ == assembled_blocks(all.take(i as int), labelled as nat),
        decreases n - i,
    {
        assert(all[i as int] == blocks@[i as int].deep_view());
        assert(all.take(i as int + 1).drop_last() =~= all.take(i as int));
        let ghost before = out@;
        match &blocks[i].content {
            PromptContent::Text(text) => {
                out.append(text.as_str());
            },
            PromptContent::Image { .. } => {
                if images >= labelled {
                    out.append("[image #");
                    let number = print_u64(images as u64 + 1);
                    out.append(number.as_str());
                    out.append("]");
                    assert(out@ =~= before + ("[image #"@ + decimal((images + 1) as nat) + "]"@));
                } else {
                    assert(out@ =~= before + Seq::<char>::empty());
                }
                images += 1;
            },
            PromptContent::Other(_) => {
                assert(out@ =~= before + Seq::<char>::empty());
            },
        }
        i += 1;
    }
    assert(all.take(i as int) =~= all);
    out
}

/// Placeholders beyond the number of blocks make no difference.
proof fn lemma_assembled_saturates(blocks: Seq<PromptBlockView>, a: nat, b: nat)
    requires
        blocks.len() <= a,
        blocks.len() <= b,
    ensures
        assembled_blocks(blocks, a) == assembled_blocks(blocks, b),
    decreases blocks.len(),
{
    if blocks.len() > 0 {
        lemma_assembled_saturates(blocks.drop_last(), a, b);
        lemma_image_block_count(blocks.drop_last());
    }
}

/// How a queued bundle is shown: the user's own text, with a placeholder for
/// every image that the text does not already carry one for.
pub open spec fn queued_preview(blocks: Seq<PromptBlockView>, hint: Seq<char>) -> Seq<char> {
    without_injected_meta(trimmed(assembled_blocks(blocks, labelled_image_count(blocks))), hint)
}

/// The preview of a bundle of blocks that waits in the queue.
pub fn pending_blocks_preview(blocks: &Vec<PromptBlock>, hint: &str) -> (r: String)
    ensures
        r@ == queued_preview(blocks.deep_view(), hint@),
{
    let ghost all = blocks.deep_view();
    let mut labelled: usize = 0;
    let mut i: usize = 0;
    let n: usize = blocks.len();
    assert(all.take(0) =~= Seq::<PromptBlockView>::empty());
    while i < n
        invariant
            i <= n == blocks@.len(),
            all == blocks.deep_view(),
            labelled <= n,
            if labelled_image_count(all.take(i as int)) <= n {
                labelled == labelled_image_count(all.take(i as int))
            } else {
                labelled == n
            },
        decreases n - i,
    {
        assert(all[i as int] == blocks@[i as int].deep_view());
        assert(all.take(i as int + 1).drop_last() =~= all.take(i as int));
        if let PromptContent::Text(text) = &blocks[i].content {
            let groups = find_groups(IMAGE_PLACEHOLDER_PATTERN, text.as_str());
            assert(groups.deep_view().len() == groups@.len());
            if groups.len() > n - labelled {
                labelled = n;
            } else {
                labelled += groups.len();
            }
        }
        i += 1;
    }
    assert(all.take(i as int) =~= all);
    proof {
        if labelled_image_count(all) > n {
            lemma_assembled_saturates(all, labelled as nat, labelled_image_count(all));
        }
    }
    let out = assemble_blocks(blocks, labelled);
    strip_injected_meta(trim(out.as_str()), hint)
}

/// The first line of the prompt that asks the agent to compact its context.
pub const COMPACT_PROMPT_HEADING: &'static str =
    "# Compact this session and prepare a clean handoff";

/// Whether `text` is the prompt that asks the agent to compact its context.
pub fn is_compaction_prompt_text(text: &str) -> (b: bool)
    ensures
        b == has_prefix(trimmed_start(text@), COMPACT_PROMPT_HEADING@),
{
    starts_with(trim_start(text), COMPACT_PROMPT_HEADING)
}

/// Whether a user message is the prompt that asks the agent to compact its
/// context.
pub fn is_compaction_prompt_message(message: &UserMessage) -> (b: bool)
    ensures
        b == has_prefix(
            trimmed_start(message.deep_view().content.source()),
            COMPACT_PROMPT_HEADING@,
        ),
{
    is_compaction_prompt_text(message.content.to_markdown())
}

/// Whether `chunk` is a thought.
pub open spec fn is_thought(chunk: AssistantMessageChunkView) -> bool {
    chunk is Thought
}

/// The markdown source of a chunk.
pub open spec fn chunk_source(chunk: AssistantMessageChunkView) -> Seq<char> {
    match chunk {
        AssistantMessageChunkView::Message { block } => block.source(),
        AssistantMessageChunkView::Thought { block } => block.source(),
    }
}

/// Whether `chunks` hold an answer, not only thoughts.
pub open spec fn has_answer(chunks: Seq<AssistantMessageChunkView>) -> bool {
    exists|i: int| 0 <= i < chunks.len() && #[trigger] chunks[i] is Message
}

/// The texts of the thoughts, or of the answers, among `chunks` that are not
/// empty.
pub open spec fn chunk_texts(chunks: Seq<AssistantMessageChunkView>, thoughts: bool) -> Seq<Seq<char>>
    decreases chunks.len(),
{
    if chunks.len() == 0 {
        Seq::empty()
    } else {
        let before = chunk_texts(chunks.drop_last(), thoughts);
        let chunk = chunks.last();
        if is_thought(chunk) == thoughts && chunk_source(chunk).len() > 0 {
            before.push(chunk_source(chunk))
        } else {
            before
        }
    }
}

/// The texts of the thoughts, or of the answers, among `chunks` that are not
/// empty.
pub fn collect_chunk_texts(chunks: &Vec<AssistantMessageChunk>, thoughts: bool) -> (r: Vec<String>)
    ensures
        r.deep_view() == chunk_texts(chunks.deep_view(), thoughts),
{
    let mut out: Vec<String> = Vec::new();
    let ghost all = chunks.deep_view();
    let mut i: usize = 0;
    assert(out.deep_view() =~= chunk_texts(all.take(0), thoughts));
    while i < chunks.len()
        invariant
            i <= chunks@.len(),
            all == chunks.deep_view(),
            out.deep_view() == chunk_texts(all.take(i as int), thoughts),
        decreases chunks@.len() - i,
    {
        assert(all[i as int] == chunks@[i as int].deep_view());
        assert(all.take(i as int + 1).drop_last() =~= all.take(i as int));
        let (thought, text) = match &chunks[i] {
            AssistantMessageChunk::Message { block } => (false, block.to_markdown()),
            AssistantMessageChunk::Thought { block } => (true, block.to_markdown()),
        };
        if thought == thoughts && !text.is_empty() {
            push_value(&mut out, text.to_owned());
        }
        i += 1;
    }
    assert(all.take(i as int) =~= all);
    out
}

/// Whether `chunks` hold an answer, not only thoughts.
pub fn contains_answer(chunks: &Vec<AssistantMessageChunk>) -> (b: bool)
    ensures
        b == has_answer(chunks.deep_view()),
{
    let ghost all = chunks.deep_view();
    let mut i: usize = 0;
    while i < chunks.len()
        invariant
            i <= chunks@.len(),
            all == chunks.deep_view(),
            forall|k: int| 0 <= k < i ==> !(#[trigger] all[k] is Message),
        decreases chunks@.len() - i,
    {
        assert(all[i as int] == chunks@[i as int].deep_view());
        if let AssistantMessageChunk::Message { .. } = &chunks[i] {
            assert(all[i as int] is Message);
            return true;
        }
        i += 1;
    }
    false
}

/// The spans of an assistant message: its answers as one text, or else one
/// span for each thought.
pub open spec fn assistant_spans(chunks: Seq<AssistantMessageChunkView>) -> Seq<Seq<char>> {
    if has_answer(chunks) {
        let texts = chunk_texts(chunks, false);
        if texts.len() == 0 {
            Seq::empty()
        } else {
            seq![joined(texts, "\n\n"@)]
        }
    } else {
        chunk_texts(chunks, true).map_values(|text: Seq<char>| "thinking: "@ + text)
    }
}

/// The summaries of `content` that are not empty.
pub open spec fn content_spans(
    content: Seq<ToolCallContentView>,
    raw_output: Option<JsonTree>,
) -> Seq<Seq<char>>
    decreases content.len(),
{
    if content.len() == 0 {
        Seq::empty()
    } else {
        let before = content_spans(content.drop_last(), raw_output);
        let summary = content_summary(content.last(), raw_output);
        if summary.len() > 0 {
            before.push(summary)
        } else {
            before
        }
    }
}

/// The texts of an entry, one for each piece of it that is shown on its own.
pub open spec fn spans_of(entry: AgentThreadEntryView, hint: Seq<char>) -> Seq<Seq<char>> {
    match entry {
        AgentThreadEntryView::UserMessage(message) => seq![
            shown_user_text(message.content.source(), hint),
        ],
        AgentThreadEntryView::AssistantMessage(message) => assistant_spans(message.chunks),
        AgentThreadEntryView::ToolCall(call) => seq![
            "Tool: "@ + call.label + " ("@ + status_text(call.status) + ")"@,
        ] + content_spans(call.content, call.raw_output),
        AgentThreadEntryView::CompletedPlan(entries) => seq!["Plan"@] + entries.map_values(
            |entry: PlanEntryView| "• "@ + entry.content,
        ),
    }
}

/// The summaries of what a tool call produced that are not empty.
pub fn tool_call_spans(call: &ToolCall) -> (r: Vec<String>)
    ensures
        r.deep_view() == content_spans(call.deep_view().content, call.deep_view().raw_output),
{
    let mut out: Vec<String> = Vec::new();
    let ghost raw = call.deep_view().raw_output;
    let ghost all = call.content.deep_view();
    let mut i: usize = 0;
    assert(out.deep_view() =~= content_spans(all.take(0), raw));
    while i < call.content.len()
        invariant
            i <= call.content@.len(),
            raw == call.deep_view().raw_output,
            all == call.content.deep_view(),
            out.deep_view() == content_spans(all.take(i as int), raw),
        decreases call.content@.len() - i,
    {
        assert(all[i as int] == call.content@[i as int].deep_view());
        assert(all.take(i as int + 1).drop_last() =~= all.take(i as int));
        let summary = tool_call_content_summary(call, &call.content[i]);
        if !summary.as_str().is_empty() {
            push_value(&mut out, summary);
        }
        i += 1;
    }
    assert(all.take(i as int) =~= all);
    out
}

/// The texts of an entry, in the order in which they are shown.
pub fn entry_text_spans(entry: &AgentThreadEntry, hint: &str) -> (r: Vec<String>)
    ensures
        r.deep_view() == spans_of(entry.deep_view(), hint@),
{
    let mut out: Vec<String> = Vec::new();
    match entry {
        AgentThreadEntry::UserMessage(message) => {
            push_value(&mut out, clean_user_message_text(message.content.to_markdown(), hint));
            assert(out.deep_view() =~= spans_of(entry.deep_view(), hint@));
            out
        },
        AgentThreadEntry::AssistantMessage(message) => {
            if contains_answer(&message.chunks) {
                let texts = collect_chunk_texts(&message.chunks, false);
                assert(texts.deep_view().len() == texts@.len());
                if texts.len() > 0 {
                    push_value(&mut out, join(&texts, "\n\n"));
                }
                assert(out.deep_view() =~= spans_of(entry.deep_view(), hint@));
                out
            } else {
                let texts = collect_chunk_texts(&message.chunks, true);
                let ghost all = texts.deep_view();
                let ghost spans = all.map_values(|text: Seq<char>| "thinking: "@ + text);
                let mut i: usize = 0;
                while i < texts.len()
                    invariant
                        i <= texts@.len(),
                        all == texts.deep_view(),
                        spans == all.map_values(|text: Seq<char>| "thinking: "@ + text),
                        out.deep_view() =~= spans.take(i as int),
                    decreases texts@.len() - i,
                {
                    assert(all[i as int] == texts@[i as int]@);
                    let mut span = "thinking: ".to_owned();
                    span.append(texts[i].as_str());
                    push_value(&mut out, span);
                    i += 1;
                }
                out
            }
        },
        AgentThreadEntry::ToolCall(call) => {
            let mut title = "Tool: ".to_owned();
            title.append(call.label.as_str());
            title.append(" (");
            title.append(tool_call_status_text(&call.status));
            title.append(")");
            push_value(&mut out, title);
            let ghost head = out.deep_view();
            let mut rest = tool_call_spans(call);
            let ghost tail = rest.deep_view();
            out.append(&mut rest);
            assert(out.deep_view() =~= head + tail);
            assert(out.deep_view() =~= spans_of(entry.deep_view(), hint@));
            out
        },
        AgentThreadEntry::CompletedPlan(entries) => {
            push_value(&mut out, "Plan".to_owned());
            let ghost all = entries.deep_view();
            let ghost spans = all.map_values(|entry: PlanEntryView| "• "@ + entry.content);
            let mut i: usize = 0;
            while i < entries.len()
                invariant
                    i <= entries@.len(),
                    all == entries.deep_view(),
                    spans == all.map_values(|entry: PlanEntryView| "• "@ + entry.content),
                    out.deep_view() =~= seq!["Plan"@] + spans.take(i as int),
                decreases entries@.len() - i,
            {
                assert(all[i as int] == entries@[i as int].deep_view());
                let mut span = "• ".to_owned();
                span.append(entries[i].content.as_str());
                push_value(&mut out, span);
                i += 1;
            }
            assert(spans.take(i as int) =~= spans);
            out
        },
    }
}

} // verus!
