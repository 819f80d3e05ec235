//! How a conversation is shown.
use crate::conversation_render::{
    assembled_blocks, assistant_spans, chunk_texts, content_spans, image_block_count, is_blank_line,
    labelled_image_count, linked_text, literal_count, next_user_id, paragraphs, spans_of,
    with_linked_literals, without_injected_meta, without_leading_newlines, without_timestamp,
};
use crate::json::JsonTree;
use crate::pattern::{pattern_groups, IMAGE_PLACEHOLDER_PATTERN};
use crate::permissions::status_text;
use crate::text::{
    decimal, find_from, has_prefix, is_digit, joined, lemma_find_from, occurs_at, split_text,
    trimmed_end,
};
use crate::thread::{
    AgentThreadEntryView, AssistantMessageChunkView, ContentBlockView, PlanEntryView,
    PromptBlockView, PromptContentView, ToolCallContentView, ToolCallStatusView, ToolCallView,
};
use crate::tool_output::content_summary;
use vstd::prelude::*;

verus! {

/// What can be gone back to from a place is the next message of the user behind it
/// that has an id; where there is none, there is nothing to go back to.
pub proof fn law_rewind_goes_to_the_next_message(user_ids: Seq<Option<Seq<char>>>, from: int)
    requires
        0 <= from,
    ensures
        match next_user_id(user_ids, from) {
            Some(id) => exists|k: int|
                #![trigger user_ids[k]]
                from <= k < user_ids.len() && user_ids[k] == Some(id) && forall|j: int|
                    from <= j < k ==> #[trigger] user_ids[j] is None,
            None => forall|k: int| from <= k < user_ids.len() ==> #[trigger] user_ids[k] is None,
        },
    decreases user_ids.len() - from,
{
    if from < user_ids.len() {
        if user_ids[from] is None {
            law_rewind_goes_to_the_next_message(user_ids, from + 1);
            if next_user_id(user_ids, from + 1) is Some {
                let id = next_user_id(user_ids, from + 1)->0;
                let k = choose|k: int|
                    #![trigger user_ids[k]]
                    from + 1 <= k < user_ids.len() && user_ids[k] == Some(id) && forall|j: int|
                        from + 1 <= j < k ==> #[trigger] user_ids[j] is None;
                assert(user_ids[k] == Some(id));
                assert forall|j: int| from <= j < k implies #[trigger] user_ids[j] is None by {}
            } else {
                assert forall|k: int| from <= k < user_ids.len() implies #[trigger] user_ids[k] is None by {}
            }
        } else {
            assert(user_ids[from] == Some(user_ids[from]->0));
        }
    }
}

/// Whether a text is a time of day: two digits each for hours, minutes and seconds.
pub open spec fn is_time_of_day(stamp: Seq<char>) -> bool {
    &&& stamp.len() == 8
    &&& forall|i: int|
        0 <= i < 8 ==> if i == 2 || i == 5 {
            #[trigger] stamp[i] == ':'
        } else {
            is_digit(stamp[i])
        }
}

/// A time stamp in front of a message is taken off, and the message is kept as it is.
/// A message without one is kept as it is too.
pub proof fn law_only_the_stamp_is_taken_off(stamp: Seq<char>, text: Seq<char>)
    ensures
        is_time_of_day(stamp) ==> without_timestamp("["@ + stamp + "] "@ + text) == text,
        text.len() > 0 && text[0] != '[' ==> without_timestamp(text) == text,
        text.len() == 0 ==> without_timestamp(text) == text,
{
    reveal_strlit("[");
    reveal_strlit("] ");
    if is_time_of_day(stamp) {
        let whole = "["@ + stamp + "] "@ + text;
        assert(whole.take(1) =~= "["@);
        let rest = whole.skip(1);
        assert(rest =~= stamp + "] "@ + text);
        lemma_find_from(rest, "] "@, 0);
        assert(occurs_at(rest, "] "@, 8)) by {
            assert(rest.subrange(8, 10) =~= "] "@);
        }
        let at = find_from(rest, "] "@, 0);
        assert(at is Some);
        assert forall|k: int| 0 <= k < 8 implies !occurs_at(rest, "] "@, k) by {
            if occurs_at(rest, "] "@, k) {
                assert(rest.subrange(k, k + 2)[0] == ']');
                assert(rest[k] == stamp[k]);
                if k != 2 && k != 5 {
                    assert(is_digit(stamp[k]));
                }
            }
        }
        if at->0 < 8 {
            assert(occurs_at(rest, "] "@, at->0));
        }
        assert(at->0 == 8);
        assert(rest.take(8) =~= stamp);
        assert forall|i: int| 0 <= i < 8 && i != 2 && i != 5 implies is_digit(
            #[trigger] rest.take(8)[i],
        ) by {
            assert(is_digit(stamp[i]));
        }
        assert(rest.skip(10) =~= text);
    }
    if has_prefix(text, "["@) {
        assert(text.take(1)[0] == '[');
    }
}

/// Text without a separator is a single piece.
proof fn lemma_split_single(s: Seq<char>, sep: Seq<char>)
    requires
        forall|k: int| 0 <= k ==> !occurs_at(s, sep, k),
    ensures
        split_text(s, sep) == seq![s],
{
    lemma_find_from(s, sep, 0);
    if let Some(at) = find_from(s, sep, 0) {
        assert(occurs_at(s, sep, at));
    }
}

/// Text that is split and joined again is the text.
proof fn lemma_split_and_join(s: Seq<char>, sep: Seq<char>)
    requires
        sep.len() > 0,
    ensures
        split_text(s, sep).len() > 0,
        joined(split_text(s, sep), sep) == s,
    decreases s.len(),
{
    lemma_find_from(s, sep, 0);
    match find_from(s, sep, 0) {
        Some(at) => {
            let rest = s.skip(at + sep.len());
            lemma_split_and_join(rest, sep);
            let tail = split_text(rest, sep);
            lemma_join_front(s.take(at), tail, sep);
            assert(s.take(at) + sep + rest =~= s) by {
                assert(s.subrange(at, at + sep.len()) == sep);
            }
        },
        None => {},
    }
}

/// Joining a piece in front puts it there, with a separator behind.
proof fn lemma_join_front(first: Seq<char>, rest: Seq<Seq<char>>, sep: Seq<char>)
    requires
        rest.len() > 0,
    ensures
        joined(seq![first] + rest, sep) == first + sep + joined(rest, sep),
    decreases rest.len(),
{
    let all = seq![first] + rest;
    assert(all.last() == rest.last());
    assert(all.drop_last() =~= seq![first] + rest.drop_last());
    if rest.len() == 1 {
        assert(all.drop_last() =~= seq![first]);
        assert(joined(all.drop_last(), sep) == first);
    } else {
        lemma_join_front(first, rest.drop_last(), sep);
        assert((first + sep + joined(rest.drop_last(), sep)) + sep + rest.last() =~= first + sep + (
        joined(rest.drop_last(), sep) + sep + rest.last()));
    }
}

/// What the user typed is shown as it is: a message that neither starts with the hint
/// nor holds a paragraph that starts with a bracket is not changed.
pub proof fn law_own_text_is_kept(text: Seq<char>, hint: Seq<char>)
    requires
        !has_prefix(text, hint),
        forall|i: int|
            0 <= i < split_text(text, "\n\n"@).len() ==> {
                let part = #[trigger] split_text(text, "\n\n"@)[i];
                part.len() == 0 || part[0] != '['
            },
    ensures
        without_injected_meta(text, hint) == text,
{
    reveal_strlit("\n\n");
    let parts = split_text(text, "\n\n"@);
    lemma_split_and_join(text, "\n\n"@);
    assert(parts.map_values(|segment: Seq<char>| without_timestamp(segment)) =~= parts) by {
        assert forall|i: int| 0 <= i < parts.len() implies without_timestamp(#[trigger] parts[i])
            == parts[i] by {
            law_only_the_stamp_is_taken_off(Seq::empty(), parts[i]);
        }
    }
}

/// The hint in front of a message, and the line feeds behind it, are not shown.
pub proof fn law_hint_is_taken_off(text: Seq<char>, hint: Seq<char>)
    requires
        hint.len() > 0,
        !has_prefix(text, hint),
        text.len() > 0 && text[0] != '\n',
    ensures
        without_injected_meta(hint + "\n\n"@ + text, hint) == without_injected_meta(text, hint),
        without_injected_meta(hint + text, hint) == without_injected_meta(text, hint),
{
    reveal_strlit("\n\n");
    let whole = hint + "\n\n"@ + text;
    assert(whole.take(hint.len() as int) =~= hint);
    assert(whole.skip(hint.len() as int) =~= "\n\n"@ + text);
    let one = "\n\n"@ + text;
    assert(one.drop_first().drop_first() =~= text);
    reveal_with_fuel(without_leading_newlines, 3);
    assert((hint + text).take(hint.len() as int) =~= hint);
    assert((hint + text).skip(hint.len() as int) =~= text);
}

/// Each image in a text is linked under the next number, with the number that was
/// written there as its label, or else its place among the images; all else is kept.
pub proof fn law_images_are_linked_in_turn(
    gaps: Seq<Seq<char>>,
    labels: Seq<Option<Seq<char>>>,
    base: nat,
    label: Option<Seq<char>>,
    gap: Seq<char>,
)
    requires
        gaps.len() == labels.len() + 1,
    ensures
        linked_text(gaps.push(gap), labels.push(label), base) == linked_text(gaps, labels, base)
            + "[image #"@ + (if label is Some {
            label->0
        } else {
            decimal(labels.len() + 1)
        }) + "](spk-image://"@ + decimal(base + labels.len()) + ")"@ + gap,
        linked_text(seq![gap], Seq::empty(), base) == gap,
{
    let more = labels.push(label);
    assert(more.drop_last() =~= labels);
    lemma_linked_needs_no_more(gaps, gaps.push(gap), labels, base);
    let shown = if label is Some {
        label->0
    } else {
        decimal(labels.len() + 1)
    };
    let start = linked_text(gaps, labels, base);
    assert(start + ("[image #"@ + shown + "](spk-image://"@ + decimal(base + labels.len()) + ")"@)
        + gap =~= start + "[image #"@ + shown + "](spk-image://"@ + decimal(base + labels.len())
        + ")"@ + gap);
}

/// What is linked depends on as many pieces as there are.
proof fn lemma_linked_needs_no_more(
    a: Seq<Seq<char>>,
    b: Seq<Seq<char>>,
    labels: Seq<Option<Seq<char>>>,
    base: nat,
)
    requires
        a.len() > labels.len(),
        b.len() > labels.len(),
        forall|i: int| 0 <= i <= labels.len() ==> #[trigger] a[i] == b[i],
    ensures
        linked_text(a, labels, base) == linked_text(b, labels, base),
    decreases labels.len(),
{
    assert(a[labels.len() as int] == b[labels.len() as int]);
    if labels.len() > 0 {
        lemma_linked_needs_no_more(a, b, labels.drop_last(), base);
    }
}

/// An assistant message without an image is shown as it is.
pub proof fn law_text_without_images_is_kept(text: Seq<char>, base: nat)
    requires
        forall|k: int| 0 <= k ==> !occurs_at(text, "`Image`"@, k),
    ensures
        with_linked_literals(text, base) == text,
        literal_count(text) == 0,
{
    lemma_split_single(text, "`Image`"@);
}

/// The lines that show something, without white space at their ends.
pub open spec fn shown_lines(lines: Seq<Seq<char>>) -> Seq<Seq<char>>
    decreases lines.len(),
{
    if lines.len() == 0 {
        Seq::empty()
    } else {
        let before = shown_lines(lines.drop_last());
        if trimmed_end(lines.last()).len() > 0 {
            before.push(trimmed_end(lines.last()))
        } else {
            before
        }
    }
}

/// Lines of paragraphs, one after the other.
pub open spec fn flattened(parts: Seq<Seq<Seq<char>>>) -> Seq<Seq<char>>
    decreases parts.len(),
{
    if parts.len() == 0 {
        Seq::empty()
    } else {
        flattened(parts.drop_last()) + parts.last()
    }
}

/// No line that shows something is lost: the paragraphs hold all of them in their
/// order, and none is empty.
pub proof fn law_paragraphs_hold_all_lines(lines: Seq<Seq<char>>)
    ensures
        flattened(paragraphs(lines)) == shown_lines(lines),
        forall|i: int|
            0 <= i < paragraphs(lines).len() ==> (#[trigger] paragraphs(lines)[i]).len() > 0,
        lines.len() > 0 && !is_blank_line(lines.last()) ==> paragraphs(lines).len() > 0,
    decreases lines.len(),
{
    if lines.len() > 0 {
        let rest = lines.drop_last();
        let before = paragraphs(rest);
        let after = paragraphs(lines);
        let line = trimmed_end(lines.last());
        law_paragraphs_hold_all_lines(rest);
        if !is_blank_line(lines.last()) {
            if lines.len() > 1 && !is_blank_line(lines[lines.len() - 2]) {
                assert(rest.last() == lines[lines.len() - 2]);
                assert(after.drop_last() =~= before.drop_last());
                assert(flattened(before.drop_last()) + before.last().push(line) =~= (flattened(
                    before.drop_last(),
                ) + before.last()).push(line));
            } else {
                assert(after.drop_last() =~= before);
                assert(flattened(before) + seq![line] =~= flattened(before).push(line));
            }
        }
    }
}

/// Two lines that follow one another stand in one paragraph exactly if both show
/// something: a blank line starts a new one.
pub proof fn law_blank_lines_part_paragraphs(lines: Seq<Seq<char>>, line: Seq<char>)
    requires
        trimmed_end(line).len() > 0,
    ensures
        paragraphs(lines.push(line)).len() == paragraphs(lines).len() + (if lines.len() > 0
            && trimmed_end(lines.last()).len() > 0 {
            0int
        } else {
            1
        }),
{
    assert(lines.push(line).drop_last() =~= lines);
    law_paragraphs_hold_all_lines(lines);
    if lines.len() > 0 {
        assert(lines.push(line)[lines.len() - 1] == lines.last());
    }
}

/// What waits to be sent is shown block by block: texts as they are, an image that no
/// text mentions by its number, and nothing for anything else.
pub proof fn law_waiting_blocks_are_shown_in_turn(
    blocks: Seq<PromptBlockView>,
    block: PromptBlockView,
    labelled: nat,
)
    ensures
        ({
            let before = assembled_blocks(blocks, labelled);
            let after = assembled_blocks(blocks.push(block), labelled);
            &&& assembled_blocks(Seq::empty(), labelled).len() == 0
            &&& block.content matches PromptContentView::Text(text) ==> after == before + text
            &&& block.content is Image && image_block_count(blocks) < labelled ==> after == before
            &&& block.content is Image && image_block_count(blocks) >= labelled ==> after == before
                + "[image #"@ + decimal(image_block_count(blocks) + 1) + "]"@
            &&& block.content is Other ==> after == before
        }),
{
    assert(blocks.push(block).drop_last() =~= blocks);
    let before = assembled_blocks(blocks, labelled);
    assert(before + Seq::<char>::empty() =~= before);
    let n = decimal(image_block_count(blocks) + 1);
    assert(before + ("[image #"@ + n + "]"@) =~= before + "[image #"@ + n + "]"@);
}

/// Images are counted where they are, and mentions of images where they are written.
pub proof fn law_images_are_counted(blocks: Seq<PromptBlockView>, block: PromptBlockView)
    ensures
        image_block_count(Seq::empty()) == 0,
        labelled_image_count(Seq::empty()) == 0,
        image_block_count(blocks.push(block)) == image_block_count(blocks) + (if block.content is Image {
            1int
        } else {
            0
        }),
        block.content matches PromptContentView::Text(text) ==> labelled_image_count(
            blocks.push(block),
        ) == labelled_image_count(blocks) + pattern_groups(IMAGE_PLACEHOLDER_PATTERN@, text).len(),
        !(block.content is Text) ==> labelled_image_count(blocks.push(block))
            == labelled_image_count(blocks),
{
    assert(blocks.push(block).drop_last() =~= blocks);
}

/// The texts of the chunks of one kind, one by one.
proof fn lemma_chunk_texts(
    chunks: Seq<AssistantMessageChunkView>,
    chunk: AssistantMessageChunkView,
    thoughts: bool,
)
    ensures
        chunk_texts(chunks.push(chunk), thoughts) == if (chunk is Thought) == thoughts
            && chunk_source_of(chunk).len() > 0 {
            chunk_texts(chunks, thoughts).push(chunk_source_of(chunk))
        } else {
            chunk_texts(chunks, thoughts)
        },
{
    assert(chunks.push(chunk).drop_last() =~= chunks);
}

/// The text of a chunk.
pub open spec fn chunk_source_of(chunk: AssistantMessageChunkView) -> Seq<char> {
    match chunk {
        AssistantMessageChunkView::Message { block } => block.source(),
        AssistantMessageChunkView::Thought { block } => block.source(),
    }
}

/// Once there is an answer it is shown in one piece, with a blank line between its
/// parts, and no thought is shown; until then each thought is shown on its own.
pub proof fn law_answers_take_the_place_of_thoughts(
    chunks: Seq<AssistantMessageChunkView>,
    block: ContentBlockView,
)
    requires
        block.source().len() > 0,
    ensures
        ({
            let answer = AssistantMessageChunkView::Message { block };
            let texts = chunk_texts(chunks, false);
            &&& assistant_spans(chunks.push(answer)).len() == 1
            &&& assistant_spans(chunks.push(answer))[0] == if texts.len() == 0 {
                block.source()
            } else {
                joined(texts, "\n\n"@) + "\n\n"@ + block.source()
            }
        }),
        ({
            let thought = AssistantMessageChunkView::Thought { block };
            let answered = exists|i: int| 0 <= i < chunks.len() && #[trigger] chunks[i] is Message;
            &&& answered ==> assistant_spans(chunks.push(thought)) == assistant_spans(chunks)
            &&& !answered ==> assistant_spans(chunks.push(thought)) == assistant_spans(chunks).push(
                "thinking: "@ + block.source(),
            )
        }),
{
    let answer = AssistantMessageChunkView::Message { block };
    let thought = AssistantMessageChunkView::Thought { block };
    lemma_chunk_texts(chunks, answer, false);
    lemma_chunk_texts(chunks, thought, false);
    lemma_chunk_texts(chunks, thought, true);
    let with_answer = chunks.push(answer);
    assert(with_answer[chunks.len() as int] is Message);
    let texts = chunk_texts(chunks, false);
    assert(texts.push(block.source()).drop_last() =~= texts);
    let with_thought = chunks.push(thought);
    if exists|i: int| 0 <= i < chunks.len() && #[trigger] chunks[i] is Message {
        let i = choose|i: int| 0 <= i < chunks.len() && #[trigger] chunks[i] is Message;
        assert(with_thought[i] is Message);
    } else {
        assert(forall|i: int| 0 <= i < with_thought.len() ==> !(#[trigger] with_thought[i] is Message))
            by {
            assert forall|i: int| 0 <= i < with_thought.len() implies !(#[trigger] with_thought[i] is Message) by {
                if i < chunks.len() {
                    assert(chunks[i] == with_thought[i]);
                }
            }
        }
        let thoughts = chunk_texts(chunks, true);
        assert(assistant_spans(with_thought) =~= assistant_spans(chunks).push(
            "thinking: "@ + block.source(),
        ));
    }
}

/// A tool call is shown by its title and status, and then by what it produced, each
/// item that shows anything on its own and in order.
pub proof fn law_tool_calls_are_shown(call: ToolCallView, hint: Seq<char>)
    ensures
        ({
            let spans = spans_of(AgentThreadEntryView::ToolCall(call), hint);
            &&& spans.len() == 1 + content_spans(call.content, call.raw_output).len()
            &&& spans[0] == "Tool: "@ + call.label + " ("@ + status_text(call.status) + ")"@
            &&& forall|i: int|
                0 <= i < content_spans(call.content, call.raw_output).len() ==> #[trigger] spans[i
                    + 1] == content_spans(call.content, call.raw_output)[i]
        }),
{
}

/// Every item that a tool call produced is shown, in order, unless it shows nothing.
pub proof fn law_items_are_shown_in_turn(
    content: Seq<ToolCallContentView>,
    item: ToolCallContentView,
    raw: Option<JsonTree>,
)
    ensures
        content_spans(Seq::empty(), raw).len() == 0,
        content_spans(content.push(item), raw) == if content_summary(item, raw).len() > 0 {
            content_spans(content, raw).push(content_summary(item, raw))
        } else {
            content_spans(content, raw)
        },
{
    assert(content.push(item).drop_last() =~= content);
}

/// A plan is shown as a list of all its items, in their order.
pub proof fn law_plans_are_shown(items: Seq<PlanEntryView>, hint: Seq<char>)
    ensures
        ({
            let spans = spans_of(AgentThreadEntryView::CompletedPlan(items), hint);
            &&& spans.len() == items.len() + 1
            &&& spans[0] == "Plan"@
            &&& forall|i: int|
                0 <= i < items.len() ==> #[trigger] spans[i + 1] == "• "@ + items[i].content
        }),
{
}

/// Calls in different states are labelled differently.
pub proof fn law_states_are_labelled_apart(a: ToolCallStatusView, b: ToolCallStatusView)
    ensures
        status_text(a) == status_text(b) ==> a == b || (a is WaitingForConfirmation
            && b is WaitingForConfirmation),
        status_text(a) == "done"@ <==> a is Completed,
        status_text(a) == "failed"@ <==> a is Failed,
        status_text(a) == "running"@ <==> a is InProgress,
        status_text(a) == "pending"@ <==> a is Pending,
        status_text(a) == "rejected"@ <==> a is Rejected,
        status_text(a) == "canceled"@ <==> a is Canceled,
        status_text(a) == "waiting for confirmation"@ <==> a is WaitingForConfirmation,
{
    reveal_strlit("pending");
    reveal_strlit("waiting for confirmation");
    reveal_strlit("running");
    reveal_strlit("done");
    reveal_strlit("failed");
    reveal_strlit("rejected");
    reveal_strlit("canceled");
    assert("pending"@[0] == 'p');
    assert("waiting for confirmation"@[0] == 'w');
    assert("running"@.len() == 7 && "running"@[0] == 'r');
    assert("done"@[0] == 'd');
    assert("failed"@[0] == 'f');
    assert("rejected"@.len() == 8 && "rejected"@[0] == 'r');
    assert("canceled"@[0] == 'c');
}

} // verus!
