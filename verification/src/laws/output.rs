//! What is shown of tool calls and of what they produced.
use crate::conversation_render::{assistant_spans, has_answer};
use crate::conversation_view::{
    assistant_parts, elapsed_of, offered, plan_parts, preview_of, shown_images, target_of, tone_of,
    LinkTarget,
};
use crate::clock::Timestamp;
use crate::json::{pretty_json, JsonTree};
use crate::permissions::buttons_of;
use crate::text::{
    decimal, has_prefix, joined, lines_of, prefix_within, parsed_unsigned, trimmed, trimmed_end,
    trimmed_start, utf8_len,
};
use crate::thread::{
    AssistantMessageView, ContentBlockView, PromptBlockView, PromptContentView, TerminalView,
    ToolCallContentView, ToolCallStatusView, ToolCallView,
};
use crate::tool_output::{
    content_summary, diff_text, fence_count, fenced_output, first_keyed_text, first_text,
    has_wide_fence, marked_count, on_one_line, picked_argument, raw_output_text, summarized,
    terminal_content, terminal_text,
};
use vstd::prelude::*;

verus! {

/// Plain output is put between fences of four backticks as it is, but for white space
/// at its end. Output that is blank or opens with a fence is not changed.
pub proof fn law_plain_output_is_fenced(text: Seq<char>)
    ensures
        trimmed_end(text).len() == 0 ==> fenced_output(text) == text,
        trimmed_end(text).len() > 0 && has_prefix(
            trimmed_start(lines_of(trimmed_end(text))[0]),
            "```"@,
        ) ==> fenced_output(text) == text,
        trimmed_end(text).len() > 0 && !has_prefix(
            trimmed_start(lines_of(trimmed_end(text))[0]),
            "```"@,
        ) ==> fenced_output(text) == "````\n"@ + trimmed_end(text) + "\n````"@,
{
}

/// How many of `rows` start with a fence is counted row by row.
proof fn lemma_fences(rows: Seq<Seq<char>>, row: Seq<char>)
    ensures
        fence_count(Seq::empty()) == 0,
        fence_count(rows.push(row)) == fence_count(rows) + (if has_prefix(row, "```"@) {
            1int
        } else {
            0
        }),
{
    assert(rows.push(row).drop_last() =~= rows);
}

/// Output of up to 15 lines is shown whole. Of longer output the first 15 lines are
/// shown, then a fence if they leave one open, and then how many lines are left out.
pub proof fn law_long_output_is_cut(text: Seq<char>)
    ensures
        ({
            let rows = lines_of(text);
            let shown = summarized(text);
            let head = rows.take(15);
            let open = fence_count(head) % 2 == 1;
            let wide = exists|i: int|
                0 <= i < 15 && has_prefix(trimmed_start(#[trigger] rows[i]), "````"@);
            &&& rows.len() <= 15 ==> shown == text
            &&& rows.len() > 15 && !open ==> shown == joined(head, "\n"@) + "\n\n_… (+"@ + decimal(
                (rows.len() - 15) as nat,
            ) + " more lines)_"@
            &&& rows.len() > 15 && open && wide ==> shown == joined(head, "\n"@) + "\n````"@
                + "\n\n_… (+"@ + decimal((rows.len() - 15) as nat) + " more lines)_"@
            &&& rows.len() > 15 && open && !wide ==> shown == joined(head, "\n"@) + "\n```"@
                + "\n\n_… (+"@ + decimal((rows.len() - 15) as nat) + " more lines)_"@
        }),
{
    reveal_strlit("");
    let rows = lines_of(text);
    if rows.len() > 15 {
        let head = rows.take(15);
        let start = joined(head, "\n"@);
        assert(start + ""@ =~= start);
        if has_wide_fence(head) {
            let i = choose|i: int|
                0 <= i < head.len() && has_prefix(trimmed_start(#[trigger] head[i]), "````"@);
            assert(rows[i] == head[i]);
        }
        if exists|i: int| 0 <= i < 15 && has_prefix(trimmed_start(#[trigger] rows[i]), "````"@) {
            let i = choose|i: int|
                0 <= i < 15 && has_prefix(trimmed_start(#[trigger] rows[i]), "````"@);
            assert(head[i] == rows[i]);
        }
    }
}

/// Lines are counted by what they start with, one by one.
pub proof fn law_marked_lines_are_counted(rows: Seq<Seq<char>>, row: Seq<char>, mark: char)
    ensures
        marked_count(Seq::empty(), mark) == 0,
        marked_count(rows.push(row), mark) == marked_count(rows, mark) + (if row.len() > 0 && row[0]
            == mark {
            1int
        } else {
            0
        }),
{
    assert(rows.push(row).drop_last() =~= rows);
}

/// A change to a file is shown under its path, with the number of lines that were
/// added and taken away, and with the change itself.
pub proof fn law_changes_are_shown(path: Option<Seq<char>>, unified: Seq<char>)
    ensures
        ({
            let name = if path is Some {
                path->0
            } else {
                "file"@
            };
            let title = "**Edited** `"@ + name + "`"@;
            &&& unified.len() == 0 ==> diff_text(path, unified) == title
            &&& unified.len() > 0 ==> diff_text(path, unified) == title + " · +"@ + decimal(
                marked_count(lines_of(unified), '+'),
            ) + " / −"@ + decimal(marked_count(lines_of(unified), '-')) + "\n```diff\n"@ + unified
                + "\n```"@
        }),
{
}

/// A terminal shows its output, or its screen where nothing was captured, between
/// fences; of output of more than 8192 bytes only the start, which it says.
pub proof fn law_terminals_show_their_output(terminal: TerminalView)
    ensures
        ({
            let content = if terminal.output is Some {
                terminal.output->0
            } else {
                terminal.screen
            };
            let shown = terminal_text(terminal_content(terminal));
            let body = trimmed_end(prefix_within(content, 8192));
            &&& body.len() == 0 ==> shown == "_(no output yet)_"@
            &&& body.len() > 0 && utf8_len(content) <= 8192 ==> shown == "````\n"@ + body
                + "\n````"@
            &&& body.len() > 0 && utf8_len(content) > 8192 ==> shown == "````\n"@ + body
                + "\n````"@ + "\n_(output truncated)_"@
        }),
{
}

/// Raw output that is a text stands for itself, a number or a truth value for how it is
/// written, anything else for its JSON. Nothing is shown where there is nothing to show.
pub proof fn law_raw_output_is_shown(raw: Option<JsonTree>)
    ensures
        raw is None ==> raw_output_text(raw) is None,
        raw == Some(JsonTree::Null) ==> raw_output_text(raw) is None,
        raw matches Some(JsonTree::Text(text)) ==> raw_output_text(raw) == if trimmed_end(
            text,
        ).len() > 0 {
            Some(text)
        } else {
            None
        },
        raw == Some(JsonTree::Bool(true)) ==> raw_output_text(raw) == Some("true"@),
        raw == Some(JsonTree::Bool(false)) ==> raw_output_text(raw) == Some("false"@),
        raw matches Some(JsonTree::Number(n)) ==> raw_output_text(raw) == Some(n),
        raw is Some && (raw->0 is Object || raw->0 is Array) ==> match pretty_json(raw->0) {
            None => raw_output_text(raw) is None,
            Some(pretty) => if trimmed(pretty).len() == 0 || trimmed(pretty) == "{}"@ || trimmed(
                pretty,
            ) == "[]"@ {
                raw_output_text(raw) is None
            } else {
                raw_output_text(raw) == Some("```json\n"@ + pretty + "\n```"@)
            },
        },
{
}

/// Each kind of output is shown in its own way and cut down alike. A terminal that has
/// nothing to show gives way to the raw output of the call, if that has.
pub proof fn law_output_is_shown_by_its_kind(
    content: ToolCallContentView,
    raw: Option<JsonTree>,
    markdown: Seq<char>,
)
    ensures
        content == ToolCallContentView::ContentBlock(ContentBlockView::Markdown { markdown })
            ==> content_summary(content, raw) == summarized(fenced_output(markdown)),
        content matches ToolCallContentView::Diff(diff) ==> content_summary(content, raw)
            == summarized(diff_text(diff.path, diff.unified)),
        content matches ToolCallContentView::Terminal(terminal) ==> {
            let shown = terminal_text(terminal_content(terminal));
            &&& !crate::text::contains_text(shown, "(no output yet)"@) ==> content_summary(
                content,
                raw,
            ) == summarized(shown)
            &&& crate::text::contains_text(shown, "(no output yet)"@) && raw_output_text(raw) is None
                ==> content_summary(content, raw) == summarized(shown)
            &&& crate::text::contains_text(shown, "(no output yet)"@) && raw_output_text(raw) is Some
                && raw->0 is Text ==> content_summary(content, raw) == summarized(
                fenced_output(raw_output_text(raw)->0),
            )
            &&& crate::text::contains_text(shown, "(no output yet)"@) && raw_output_text(raw) is Some
                && !(raw->0 is Text) ==> content_summary(content, raw) == summarized(
                raw_output_text(raw)->0,
            )
        },
{
}

/// Whether a field of an object is a text that is not empty.
pub open spec fn says(input: JsonTree, key: Seq<char>) -> bool {
    input.text_field(key) is Some && input.text_field(key)->0.len() > 0
}

/// The argument that is shown of a call is its command, or else its file, and so on
/// down to the text that is replaced; a call without any of these shows the first text
/// that it was given.
pub proof fn law_telling_argument_is_shown(input: JsonTree)
    requires
        input is Object,
    ensures
        says(input, "command"@) ==> picked_argument(input) == input.text_field("command"@),
        !says(input, "command"@) && says(input, "file_path"@) ==> picked_argument(input)
            == input.text_field("file_path"@),
        !says(input, "command"@) && !says(input, "file_path"@) && says(input, "path"@)
            ==> picked_argument(input) == input.text_field("path"@),
        !says(input, "command"@) && !says(input, "file_path"@) && !says(input, "path"@) && says(
            input,
            "pattern"@,
        ) ==> picked_argument(input) == input.text_field("pattern"@),
        !says(input, "command"@) && !says(input, "file_path"@) && !says(input, "path"@) && !says(
            input,
            "pattern"@,
        ) && says(input, "query"@) ==> picked_argument(input) == input.text_field("query"@),
        !says(input, "command"@) && !says(input, "file_path"@) && !says(input, "path"@) && !says(
            input,
            "pattern"@,
        ) && !says(input, "query"@) && says(input, "url"@) ==> picked_argument(input)
            == input.text_field("url"@),
        !says(input, "command"@) && !says(input, "file_path"@) && !says(input, "path"@) && !says(
            input,
            "pattern"@,
        ) && !says(input, "query"@) && !says(input, "url"@) && says(input, "old_string"@)
            ==> picked_argument(input) == input.text_field("old_string"@),
        !says(input, "command"@) && !says(input, "file_path"@) && !says(input, "path"@) && !says(
            input,
            "pattern"@,
        ) && !says(input, "query"@) && !says(input, "url"@) && !says(input, "old_string"@)
            ==> picked_argument(input) == first_text(input->Object_0),
{
    reveal_with_fuel(first_keyed_text, 8);
    let keys = crate::tool_output::preferred_keys();
    let k1 = keys.drop_first();
    let k2 = k1.drop_first();
    let k3 = k2.drop_first();
    let k4 = k3.drop_first();
    let k5 = k4.drop_first();
    let k6 = k5.drop_first();
    assert(k1[0] == "file_path"@);
    assert(k2[0] == "path"@);
    assert(k3[0] == "pattern"@);
    assert(k4[0] == "query"@);
    assert(k5[0] == "url"@);
    assert(k6[0] == "old_string"@);
    assert(k6.drop_first().len() == 0);
}

/// The first text of an object is that of the first field that holds one that is not
/// empty.
pub proof fn law_first_text_is_the_first(fields: Seq<(Seq<char>, JsonTree)>)
    ensures
        match first_text(fields) {
            Some(text) => text.len() > 0 && exists|i: int|
                #![trigger fields[i]]
                0 <= i < fields.len() && fields[i].1 == JsonTree::Text(text) && forall|j: int|
                    0 <= j < i ==> !((#[trigger] fields[j]).1 is Text) || fields[j].1->Text_0.len()
                        == 0,
            None => forall|i: int|
                0 <= i < fields.len() ==> !((#[trigger] fields[i]).1 is Text)
                    || fields[i].1->Text_0.len() == 0,
        },
    decreases fields.len(),
{
    if fields.len() > 0 {
        let rest = fields.drop_first();
        law_first_text_is_the_first(rest);
        if fields[0].1 is Text && fields[0].1->Text_0.len() > 0 {
            assert(fields[0].1 == JsonTree::Text(fields[0].1->Text_0));
        } else {
            match first_text(rest) {
                Some(text) => {
                    let i = choose|i: int|
                        #![trigger rest[i]]
                        0 <= i < rest.len() && rest[i].1 == JsonTree::Text(text) && forall|j: int|
                            0 <= j < i ==> !((#[trigger] rest[j]).1 is Text)
                                || rest[j].1->Text_0.len() == 0;
                    assert(fields[i + 1] == rest[i]);
                    assert forall|j: int| 0 <= j < i + 1 implies !((#[trigger] fields[j]).1 is Text)
                        || fields[j].1->Text_0.len() == 0 by {
                        if j > 0 {
                            assert(rest[j - 1] == fields[j]);
                        }
                    }
                },
                None => {
                    assert forall|i: int| 0 <= i < fields.len() implies !((
                    #[trigger] fields[i]).1 is Text) || fields[i].1->Text_0.len() == 0 by {
                        if i > 0 {
                            assert(rest[i - 1] == fields[i]);
                        }
                    }
                },
            }
        }
    }
}

/// The argument that is shown stands on one line: where a line was broken, a sign
/// stands instead, and nothing else is changed. At most 240 characters are shown.
pub proof fn law_argument_stands_on_one_line(call: ToolCallView, text: Seq<char>)
    ensures
        on_one_line(text).len() == text.len(),
        forall|i: int|
            0 <= i < text.len() ==> #[trigger] on_one_line(text)[i] == if text[i] == '\n' {
                '↵'
            } else {
                text[i]
            },
        call.raw_input is None ==> preview_of(call) is None,
        call.raw_input matches Some(tree) ==> {
            let picked = picked_argument(tree);
            &&& preview_of(call) is Some <==> picked is Some
            &&& picked matches Some(whole) ==> crate::laws::conversation::is_preview(
                preview_of(call)->0,
                on_one_line(whole),
                240,
            )
        },
{
}

/// The colour of a call says how it ended.
pub proof fn law_colour_says_how_a_call_ended(status: ToolCallStatusView)
    ensures
        tone_of(status) is Error <==> status is Failed,
        tone_of(status) is Success <==> status is Completed,
        tone_of(status) is Warning <==> status is Rejected || status is Canceled,
        tone_of(status) is Muted <==> status is Pending || status is InProgress
            || status is WaitingForConfirmation,
{
}

/// How long a call has been running is shown only while it is, and only where it is
/// known when it started; it is never negative, and it grows with time.
pub proof fn law_elapsed_time_is_that_of_running_calls(call: ToolCallView, now: Timestamp)
    ensures
        elapsed_of(call, now) is Some <==> call.status is InProgress && call.status_started_at is Some,
        elapsed_of(call, now) is Some && call.status_started_at->0 == now ==> elapsed_of(call, now)
            == Some(0u64),
{
}

/// Buttons are shown only while a call waits for an answer, and then all that are on
/// offer.
pub proof fn law_buttons_are_shown_while_a_call_waits(call: ToolCallView)
    ensures
        !(call.status is WaitingForConfirmation) ==> offered(call).len() == 0,
        call.status matches ToolCallStatusView::WaitingForConfirmation { options } ==> offered(call)
            == buttons_of(options),
{
}

/// What is drawn of an assistant message has one part for each text that is searched,
/// numbered alike.
pub proof fn law_parts_match_the_texts_that_are_searched(message: AssistantMessageView)
    ensures
        assistant_parts(message).len() == assistant_spans(message.chunks).len(),
        assistant_spans(message.chunks).len() <= usize::MAX ==> forall|i: int|
            0 <= i < assistant_parts(message).len() ==> (#[trigger] assistant_parts(
                message,
            )[i]).index == i,
        has_answer(message.chunks) && assistant_parts(message).len() > 0 ==> assistant_parts(
            message,
        )[0].fallback == assistant_spans(message.chunks)[0],
{
}

/// A plan has one part for its heading and one for each item, numbered in turn.
pub proof fn law_plan_parts_are_numbered(count: nat)
    requires
        count < usize::MAX,
    ensures
        plan_parts(count).len() == count + 1,
        plan_parts(count)[0].fallback == "Plan"@,
        forall|i: int| 0 <= i <= count ==> (#[trigger] plan_parts(count)[i]).index == i,
{
}

/// A link opens an image only if it names one by a number that the message has;
/// anything else opens as an address.
pub proof fn law_links_open_images_that_are_there(url: Seq<char>, image_count: nat)
    ensures
        target_of(url, image_count) matches LinkTarget::Image(n) ==> n < image_count && has_prefix(
            url,
            "spk-image://"@,
        ) && parsed_unsigned(url.skip("spk-image://"@.len() as int), usize::MAX as nat) == Some(
            n as nat,
        ),
        has_prefix(url, "spk-image://"@) && parsed_unsigned(
            url.skip("spk-image://"@.len() as int),
            usize::MAX as nat,
        ) is Some && parsed_unsigned(
            url.skip("spk-image://"@.len() as int),
            usize::MAX as nat,
        )->0 < image_count ==> target_of(url, image_count) == LinkTarget::Image(
            parsed_unsigned(url.skip("spk-image://"@.len() as int), usize::MAX as nat)->0 as usize,
        ),
{
}

/// The images of a message are those of its blocks that can be decoded and shown, in
/// their order.
pub proof fn law_images_are_shown_in_turn(
    blocks: Seq<PromptBlockView>,
    block: PromptBlockView,
    supported: Seq<Seq<char>>,
)
    ensures
        ({
            let before = shown_images(blocks, supported);
            let after = shown_images(blocks.push(block), supported);
            &&& shown_images(Seq::empty(), supported).len() == 0
            &&& !(block.content is Image) ==> after == before
            &&& block.content matches PromptContentView::Image { data, mime_type } ==> {
                let bytes = crate::images::base64_bytes(data);
                if bytes is Some && supported.contains(mime_type) {
                    &&& after.len() == before.len() + 1
                    &&& after.drop_last() == before
                    &&& after.last().mime_type == mime_type
                    &&& after.last().bytes == bytes->0
                } else {
                    after == before
                }
            }
        }),
{
    assert(blocks.push(block).drop_last() =~= blocks);
    let before = shown_images(blocks, supported);
    let after = shown_images(blocks.push(block), supported);
    if after != before {
        assert(after.drop_last() =~= before);
    }
}

} // verus!
