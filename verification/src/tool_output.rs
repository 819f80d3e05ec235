//! The output of tool calls as markdown.
use crate::json::{
    pretty_json, print_value_pretty, text_field, value_as_bool, value_as_number, value_as_str,
    value_field_values, value_is_null, value_tree, JsonTree,
};
use crate::text::{
    chars_of, clipped, contains, contains_text, cut_to_bytes, decimal, has_prefix, join, joined,
    lemma_split_on_single, lines, lines_of, prefix_within, print_u64, same_text, split_on,
    starts_with, trim, trim_end, trim_start, trimmed, trimmed_end, trimmed_start, truncate_preview,
    utf8_len, without_cr,
};
use crate::thread::{
    ContentBlock, ContentBlockView, Diff, Terminal, TerminalView, ToolCall, ToolCallContent,
    ToolCallContentView,
};
use vstd::prelude::*;
use vstd::string::*;

verus! {

/// How many lines of tool output are shown in a conversation.
pub const MAX_SUMMARY_LINES: usize = 15;

/// How many bytes of terminal output are shown in a conversation.
pub const MAX_TERMINAL_BYTES: usize = 8192;

/// How many characters of a tool call's argument are shown.
pub const MAX_ARG_PREVIEW: usize = 240;

/// `body` inside a fence of four backticks.
pub open spec fn fenced(body: Seq<char>) -> Seq<char> {
    "````\n"@ + body + "\n````"@
}

/// Plain tool output as markdown that keeps its lines. Text that is blank or
/// already opens with a fence stays as it is.
pub open spec fn fenced_output(text: Seq<char>) -> Seq<char> {
    let body = trimmed_end(text);
    if body.len() == 0 || has_prefix(trimmed_start(lines_of(body)[0]), "```"@) {
        text
    } else {
        fenced(body)
    }
}

/// `body` inside a fence of four backticks.
fn fence(body: &str) -> (r: String)
    ensures
        r@ == fenced(body@),
{
    let mut out = "````\n".to_owned();
    out.append(body);
    out.append("\n````");
    out
}

/// A text that is not empty has a line.
proof fn lemma_has_line(s: Seq<char>)
    requires
        s.len() > 0,
    ensures
        lines_of(s).len() > 0,
{
    crate::text::lemma_split_on_nonempty(s.drop_last(), '\n');
}

/// Wraps plain tool output in a fence, so that its line breaks are kept.
pub fn fence_plain_text(text: &str) -> (r: String)
    ensures
        r@ == fenced_output(text@),
{
    let body = trim_end(text);
    if body.is_empty() {
        return text.to_owned();
    }
    proof {
        lemma_has_line(body@);
    }
    let rows = lines(body);
    assert(rows@.len() == rows.deep_view().len());
    assert(rows.deep_view()[0] == rows@[0]@);
    if starts_with(trim_start(rows[0].as_str()), "```") {
        text.to_owned()
    } else {
        fence(body)
    }
}

/// How many of `rows` start with a fence.
pub open spec fn fence_count(rows: Seq<Seq<char>>) -> nat
    decreases rows.len(),
{
    if rows.len() == 0 {
        0
    } else {
        fence_count(rows.drop_last()) + if has_prefix(rows.last(), "```"@) {
            1nat
        } else {
            0
        }
    }
}

/// Whether one of `rows` starts, after white space, with a fence of four
/// backticks.
pub open spec fn has_wide_fence(rows: Seq<Seq<char>>) -> bool {
    exists|i: int| 0 <= i < rows.len() && has_prefix(trimmed_start(#[trigger] rows[i]), "````"@)
}

/// `text` cut down to the lines that are shown, with a note of how many more
/// there are. A fence that the shown lines leave open is closed.
pub open spec fn summarized(text: Seq<char>) -> Seq<char> {
    let rows = lines_of(text);
    if rows.len() <= MAX_SUMMARY_LINES {
        text
    } else {
        let head = rows.take(MAX_SUMMARY_LINES as int);
        let close = if fence_count(head) % 2 == 1 {
            if has_wide_fence(head) {
                "\n````"@
            } else {
                "\n```"@
            }
        } else {
            ""@
        };
        joined(head, "\n"@) + close + "\n\n_… (+"@ + decimal(
            (rows.len() - MAX_SUMMARY_LINES) as nat,
        ) + " more lines)_"@
    }
}

/// Cuts tool output down to the lines that are shown in a conversation.
pub fn truncate_tool_summary(text: &str) -> (r: String)
    ensures
        r@ == summarized(text@),
{
    let rows = lines(text);
    let ghost all = rows.deep_view();
    assert(rows@.len() == all.len());
    if rows.len() <= MAX_SUMMARY_LINES {
        return text.to_owned();
    }
    let remaining: usize = rows.len() - MAX_SUMMARY_LINES;
    let mut head: Vec<String> = Vec::new();
    let mut odd = false;
    let mut wide = false;
    let mut i: usize = 0;
    assert(all.take(0) =~= Seq::<Seq<char>>::empty());
    while i < MAX_SUMMARY_LINES
        invariant
            i <= MAX_SUMMARY_LINES < rows@.len(),
            all == rows.deep_view(),
            head.deep_view() =~= all.take(i as int),
            odd == (fence_count(all.take(i as int)) % 2 == 1),
            wide == has_wide_fence(all.take(i as int)),
        decreases MAX_SUMMARY_LINES - i,
    {
        let row = rows[i].as_str();
        assert(all[i as int] == row@);
        let ghost seen = all.take(i as int);
        let ghost next = all.take(i as int + 1);
        assert(next.drop_last() =~= seen);
        assert(next.last() == row@);
        if starts_with(row, "```") {
            odd = !odd;
        }
        let wide_here = starts_with(trim_start(row), "````");
        proof {
            if wide_here {
                assert(has_prefix(trimmed_start(next[i as int]), "````"@));
            }
            if has_wide_fence(seen) {
                let k = choose|k: int|
                    0 <= k < seen.len() && has_prefix(trimmed_start(#[trigger] seen[k]), "````"@);
                assert(next[k] == seen[k]);
            }
            if has_wide_fence(next) {
                let k = choose|k: int|
                    0 <= k < next.len() && has_prefix(trimmed_start(#[trigger] next[k]), "````"@);
                if k < i {
                    assert(seen[k] == next[k]);
                }
            }
        }
        wide = wide || wide_here;
        crate::duplicate::push_value(&mut head, row.to_owned());
        i += 1;
    }
    let mut out = join(&head, "\n");
    if odd {
        if wide {
            out.append("\n````");
        } else {
            out.append("\n```");
        }
    } else {
        out.append("");
    }
    out.append("\n\n_… (+");
    let count = print_u64(remaining as u64);
    out.append(count.as_str());
    out.append(" more lines)_");
    out
}

/// What a tool call's raw output prints as, where there is anything to print.
pub open spec fn raw_output_text(raw: Option<JsonTree>) -> Option<Seq<char>> {
    match raw {
        None => None,
        Some(JsonTree::Null) => None,
        Some(JsonTree::Text(text)) => if trimmed_end(text).len() == 0 {
            None
        } else {
            Some(text)
        },
        Some(JsonTree::Bool(b)) => Some(if b { "true"@ } else { "false"@ }),
        Some(JsonTree::Number(n)) => Some(n),
        Some(other) => match pretty_json(other) {
            Some(pretty) => if trimmed(pretty).len() == 0 || trimmed(pretty) == "{}"@ || trimmed(
                pretty,
            ) == "[]"@ {
                None
            } else {
                Some("```json\n"@ + pretty + "\n```"@)
            },
            None => None,
        },
    }
}

/// The markdown of a printed JSON object or array, unless it is empty.
pub fn json_block(pretty: &str) -> (r: Option<String>)
    ensures
        match r {
            Some(text) => {
                &&& trimmed(pretty@).len() > 0
                &&& trimmed(pretty@) != "{}"@
                &&& trimmed(pretty@) != "[]"@
                &&& text@ == "```json\n"@ + pretty@ + "\n```"@
            },
            None => trimmed(pretty@).len() == 0 || trimmed(pretty@) == "{}"@ || trimmed(pretty@)
                == "[]"@,
        },
{
    let bare = trim(pretty);
    if bare.is_empty() || same_text(bare, "{}") || same_text(bare, "[]") {
        return None;
    }
    let mut out = "```json\n".to_owned();
    out.append(pretty);
    out.append("\n```");
    Some(out)
}

/// Turns a tool call's raw output into something printable: text as it is,
/// objects and arrays as JSON. Nothing where there is nothing to show.
pub fn raw_output_fallback_markdown(raw: Option<&serde_json::Value>) -> (r: Option<String>)
    ensures
        r.deep_view() == raw_output_text(
            match raw {
                Some(value) => Some(value_tree(*value)),
                None => None,
            },
        ),
{
    let value = match raw {
        Some(value) => value,
        None => {
            return None;
        },
    };
    if value_is_null(value) {
        return None;
    }
    if let Some(text) = value_as_str(value) {
        let body = trim_end(text);
        if body.is_empty() {
            return None;
        }
        return Some(text.to_owned());
    }
    if let Some(b) = value_as_bool(value) {
        if b {
            return Some("true".to_owned());
        } else {
            return Some("false".to_owned());
        }
    }
    if let Some(number) = value_as_number(value) {
        return Some(number);
    }
    match print_value_pretty(value) {
        Some(pretty) => json_block(pretty.as_str()),
        None => None,
    }
}

/// How many of `rows` start with `mark`.
pub open spec fn marked_count(rows: Seq<Seq<char>>, mark: char) -> nat
    decreases rows.len(),
{
    if rows.len() == 0 {
        0
    } else {
        marked_count(rows.drop_last(), mark) + if rows.last().len() > 0 && rows.last()[0] == mark {
            1nat
        } else {
            0
        }
    }
}

/// How many of `rows` start with `mark`.
fn count_marked(rows: &Vec<String>, mark: char) -> (r: usize)
    ensures
        r == marked_count(rows.deep_view(), mark),
{
    let ghost all = rows.deep_view();
    let mut count: usize = 0;
    let mut i: usize = 0;
    assert(all.take(0) =~= Seq::<Seq<char>>::empty());
    while i < rows.len()
        invariant
            i <= rows@.len(),
            all == rows.deep_view(),
            count == marked_count(all.take(i as int), mark),
            count <= i,
        decreases rows@.len() - i,
    {
        assert(all[i as int] == rows@[i as int]@);
        assert(all.take(i as int + 1).drop_last() =~= all.take(i as int));
        let row = rows[i].as_str();
        if row.unicode_len() > 0 && row.get_char(0) == mark {
            count += 1;
        }
        i += 1;
    }
    assert(all.take(i as int) =~= all);
    count
}

/// The markdown of a change to a file.
pub open spec fn diff_text(path: Option<Seq<char>>, unified: Seq<char>) -> Seq<char> {
    let name = match path {
        Some(path) => path,
        None => "file"@,
    };
    let title = "**Edited** `"@ + name + "`"@;
    if unified.len() == 0 {
        title
    } else {
        title + " · +"@ + decimal(marked_count(lines_of(unified), '+')) + " / −"@ + decimal(
            marked_count(lines_of(unified), '-'),
        ) + "\n```diff\n"@ + unified + "\n```"@
    }
}

/// The markdown of a change to a file: its path, how many lines were added and
/// removed, and the diff.
pub fn diff_summary_markdown(diff: &Diff) -> (r: String)
    ensures
        r@ == diff_text(diff.path.deep_view(), diff.unified@),
{
    let mut out = "**Edited** `".to_owned();
    match &diff.path {
        Some(path) => out.append(path.as_str()),
        None => out.append("file"),
    }
    out.append("`");
    if diff.unified.as_str().is_empty() {
        return out;
    }
    let rows = lines(diff.unified.as_str());
    let added: usize = count_marked(&rows, '+');
    let removed: usize = count_marked(&rows, '-');
    out.append(" · +");
    let added_text = print_u64(added as u64);
    out.append(added_text.as_str());
    out.append(" / −");
    let removed_text = print_u64(removed as u64);
    out.append(removed_text.as_str());
    out.append("\n```diff\n");
    out.append(diff.unified.as_str());
    out.append("\n```");
    out
}

/// The markdown of what a terminal holds.
pub open spec fn terminal_text(content: Seq<char>) -> Seq<char> {
    let body = trimmed_end(prefix_within(content, MAX_TERMINAL_BYTES as nat));
    if body.len() == 0 {
        "_(no output yet)_"@
    } else if utf8_len(content) > MAX_TERMINAL_BYTES {
        fenced(body) + "\n_(output truncated)_"@
    } else {
        fenced(body)
    }
}

/// The text of a terminal: the captured output, or else what the screen shows.
pub open spec fn terminal_content(terminal: TerminalView) -> Seq<char> {
    match terminal.output {
        Some(output) => output,
        None => terminal.screen,
    }
}

/// The markdown of what a terminal holds.
pub fn terminal_output_markdown(terminal: &Terminal) -> (r: String)
    ensures
        r@ == terminal_text(terminal_content(terminal.deep_view())),
{
    let content = match &terminal.output {
        Some(output) => output.as_str(),
        None => terminal.screen.as_str(),
    };
    let (shown, was_truncated) = cut_to_bytes(content, MAX_TERMINAL_BYTES);
    let body = trim_end(shown);
    if body.is_empty() {
        return "_(no output yet)_".to_owned();
    }
    let mut out = fence(body);
    if was_truncated {
        out.append("\n_(output truncated)_");
    }
    out
}

/// The markdown of a tool call's raw output where it stands in for the output of a
/// terminal: text is fenced like other plain output.
pub open spec fn fallback_text(raw: Option<JsonTree>) -> Option<Seq<char>> {
    match raw_output_text(raw) {
        Some(text) => if raw matches Some(JsonTree::Text(_)) {
            Some(fenced_output(text))
        } else {
            Some(text)
        },
        None => None,
    }
}

/// The markdown of a tool call's raw output where it stands in for the output of a
/// terminal.
fn terminal_fallback(raw: Option<&serde_json::Value>) -> (r: Option<String>)
    ensures
        r.deep_view() == fallback_text(
            match raw {
                Some(value) => Some(value_tree(*value)),
                None => None,
            },
        ),
{
    let is_text = match raw {
        Some(value) => value_as_str(value).is_some(),
        None => false,
    };
    match raw_output_fallback_markdown(raw) {
        Some(text) => if is_text {
            Some(fence_plain_text(text.as_str()))
        } else {
            Some(text)
        },
        None => None,
    }
}

/// The markdown of one item of what a tool call produced, before it is cut down. A
/// terminal without output falls back to the call's raw output.
pub open spec fn content_text(content: ToolCallContentView, raw_output: Option<JsonTree>) -> Seq<
    char,
> {
    match content {
        ToolCallContentView::ContentBlock(block) => fenced_output(block.source()),
        ToolCallContentView::Diff(diff) => diff_text(diff.path, diff.unified),
        ToolCallContentView::Terminal(terminal) => {
            let primary = terminal_text(terminal_content(terminal));
            if contains_text(primary, "(no output yet)"@) {
                match fallback_text(raw_output) {
                    Some(text) => text,
                    None => primary,
                }
            } else {
                primary
            }
        },
    }
}

/// The markdown of one item of what a tool call produced. What went through this
/// before stays as it is.
pub open spec fn content_summary(
    content: ToolCallContentView,
    raw_output: Option<JsonTree>,
) -> Seq<char> {
    match content {
        ToolCallContentView::ContentBlock(ContentBlockView::Formatted { markdown }) => markdown,
        _ => summarized(content_text(content, raw_output)),
    }
}

/// The markdown of one item of what a tool call produced.
pub fn tool_call_content_summary(call: &ToolCall, content: &ToolCallContent) -> (r: String)
    ensures
        r@ == content_summary(content.deep_view(), call.deep_view().raw_output),
{
    if let ToolCallContent::ContentBlock(ContentBlock::Formatted { markdown }) = content {
        return markdown.clone();
    }
    let raw = match content {
        ToolCallContent::ContentBlock(block) => fence_plain_text(block.to_markdown()),
        ToolCallContent::Diff(diff) => diff_summary_markdown(diff),
        ToolCallContent::Terminal(terminal) => {
            let primary = terminal_output_markdown(terminal);
            if contains(primary.as_str(), "(no output yet)") {
                match terminal_fallback(call.raw_output.as_ref()) {
                    Some(text) => text,
                    None => primary,
                }
            } else {
                primary
            }
        },
    };
    truncate_tool_summary(raw.as_str())
}

/// A second pass over what a tool call produced changes nothing, whatever it was:
/// text, a change to a file or a terminal.
pub proof fn law_second_pass_is_idempotent(
    content: ToolCallContentView,
    raw_output: Option<JsonTree>,
)
    ensures
        ({
            let markdown = content_summary(content, raw_output);
            content_summary(
                ToolCallContentView::ContentBlock(ContentBlockView::Formatted { markdown }),
                raw_output,
            ) == markdown
        }),
{
}

/// The first line of text that starts with a whole line is that line.
proof fn lemma_first_line(head: Seq<char>, tail: Seq<char>)
    requires
        forall|i: int| 0 <= i < head.len() ==> head[i] != '\n',
    ensures
        split_on(head.push('\n') + tail, '\n').len() > 1,
        split_on(head.push('\n') + tail, '\n')[0] == head,
    decreases tail.len(),
{
    let s = head.push('\n') + tail;
    if tail.len() == 0 {
        assert(s =~= head.push('\n'));
        assert(s.drop_last() =~= head);
        lemma_split_on_single(head, '\n');
    } else {
        assert(s.drop_last() =~= head.push('\n') + tail.drop_last());
        lemma_first_line(head, tail.drop_last());
    }
}

/// Output inside a fence is not fenced again.
proof fn lemma_fenced_stays(body: Seq<char>)
    ensures
        fenced_output(fenced(body)) == fenced(body),
{
    reveal_strlit("````\n");
    reveal_strlit("\n````");
    reveal_strlit("```");
    let text = fenced(body);
    let head = seq!['`', '`', '`', '`'];
    let tail = body + "\n````"@;
    assert("````\n"@ =~= head.push('\n'));
    assert(text =~= head.push('\n') + tail);
    lemma_first_line(head, tail);
    assert(text.last() == '`');
    assert(trimmed_end(text) == text);
    let pieces = split_on(text, '\n');
    assert(pieces.drop_last()[0] == head);
    assert(without_cr(head) == head);
    assert(lines_of(text)[0] == head);
    assert(trimmed_start(head) == head);
    assert(head.take(3) =~= "```"@);
}

/// Fencing tool output a second time leaves it as it is.
pub proof fn law_fencing_is_idempotent(text: Seq<char>)
    ensures
        fenced_output(fenced_output(text)) == fenced_output(text),
{
    lemma_fenced_stays(trimmed_end(text));
}

/// The arguments that say most about a tool call, in order of preference.
pub open spec fn preferred_keys() -> Seq<Seq<char>> {
    seq![
        "command"@,
        "file_path"@,
        "path"@,
        "pattern"@,
        "query"@,
        "url"@,
        "old_string"@,
    ]
}

/// The first text that is not empty among the fields named by `keys`, in the
/// order of `keys`.
pub open spec fn first_keyed_text(input: JsonTree, keys: Seq<Seq<char>>) -> Option<Seq<char>>
    decreases keys.len(),
{
    if keys.len() == 0 {
        None
    } else {
        match input.text_field(keys[0]) {
            Some(text) => if text.len() > 0 {
                Some(text)
            } else {
                first_keyed_text(input, keys.drop_first())
            },
            None => first_keyed_text(input, keys.drop_first()),
        }
    }
}

/// The first text that is not empty among the values of `fields`.
pub open spec fn first_text(fields: Seq<(Seq<char>, JsonTree)>) -> Option<Seq<char>>
    decreases fields.len(),
{
    if fields.len() == 0 {
        None
    } else {
        match fields[0].1 {
            JsonTree::Text(text) => if text.len() > 0 {
                Some(text)
            } else {
                first_text(fields.drop_first())
            },
            _ => first_text(fields.drop_first()),
        }
    }
}

/// The argument of a tool call that is shown next to its name.
pub open spec fn picked_argument(input: JsonTree) -> Option<Seq<char>> {
    match input {
        JsonTree::Object(fields) => match first_keyed_text(input, preferred_keys()) {
            Some(text) => Some(text),
            None => first_text(fields),
        },
        _ => None,
    }
}

/// `text` on one line.
pub open spec fn on_one_line(text: Seq<char>) -> Seq<char> {
    text.map_values(|c: char| if c == '\n' { '↵' } else { c })
}

/// Puts `text` on one line.
fn single_line(text: &str) -> (r: String)
    ensures
        r@ == on_one_line(text@),
{
    let v = chars_of(text);
    let mut out = String::new();
    let mut i: usize = 0;
    while i < v.len()
        invariant
            i <= v@.len(),
            v@ == text@,
            out@ =~= on_one_line(text@).take(i as int),
        decreases v@.len() - i,
    {
        out.push(
            if v[i] == '\n' {
                '↵'
            } else {
                v[i]
            },
        );
        i += 1;
    }
    out
}

/// The first text that is not empty among the fields named by `keys`.
fn find_keyed_text<'a>(input: &'a serde_json::Value, keys: &Vec<&'static str>) -> (r: Option<
    &'a str,
>)
    ensures
        match r {
            Some(text) => first_keyed_text(value_tree(*input), keys.deep_view()) == Some(text@),
            None => first_keyed_text(value_tree(*input), keys.deep_view()) is None,
        },
{
    let ghost all = keys.deep_view();
    let ghost tree = value_tree(*input);
    let mut i: usize = 0;
    assert(all.skip(0) =~= all);
    while i < keys.len()
        invariant
            i <= keys@.len(),
            all == keys.deep_view(),
            tree == value_tree(*input),
            first_keyed_text(tree, all) == first_keyed_text(tree, all.skip(i as int)),
        decreases keys@.len() - i,
    {
        assert(all[i as int] == keys@[i as int]@);
        assert(all.skip(i as int).drop_first() =~= all.skip(i as int + 1));
        if let Some(text) = text_field(input, keys[i]) {
            if !text.is_empty() {
                return Some(text);
            }
        }
        i += 1;
    }
    None
}

/// The first text that is not empty among the values of an object.
fn find_text<'a>(values: &Vec<&'a serde_json::Value>, Ghost(fields): Ghost<
    Seq<(Seq<char>, JsonTree)>,
>) -> (r: Option<&'a str>)
    requires
        values@.len() == fields.len(),
        forall|i: int| 0 <= i < fields.len() ==> value_tree(*#[trigger] values@[i]) == fields[i].1,
    ensures
        match r {
            Some(text) => first_text(fields) == Some(text@),
            None => first_text(fields) is None,
        },
{
    let mut i: usize = 0;
    assert(fields.skip(0) =~= fields);
    while i < values.len()
        invariant
            i <= values@.len() == fields.len(),
            forall|k: int|
                0 <= k < fields.len() ==> value_tree(*#[trigger] values@[k]) == fields[k].1,
            first_text(fields) == first_text(fields.skip(i as int)),
        decreases values@.len() - i,
    {
        assert(fields.skip(i as int).drop_first() =~= fields.skip(i as int + 1));
        if let Some(text) = value_as_str(values[i]) {
            if !text.is_empty() {
                return Some(text);
            }
        }
        i += 1;
    }
    None
}

/// A one-line preview of the argument that says most about a tool call.
pub fn tool_call_arg_preview(raw_input: &serde_json::Value) -> (r: Option<String>)
    ensures
        r.deep_view() == (match picked_argument(value_tree(*raw_input)) {
            Some(text) => Some(clipped(on_one_line(text), MAX_ARG_PREVIEW as nat)),
            None => None,
        }),
{
    let values = match value_field_values(raw_input) {
        Some(values) => values,
        None => {
            return None;
        },
    };
    let keys: Vec<&'static str> = vec![
        "command",
        "file_path",
        "path",
        "pattern",
        "query",
        "url",
        "old_string",
    ];
    assert(keys.deep_view() =~= preferred_keys());
    let ghost fields = value_tree(*raw_input)->Object_0;
    let picked = match find_keyed_text(raw_input, &keys) {
        Some(text) => text,
        None => match find_text(&values, Ghost(fields)) {
            Some(text) => text,
            None => {
                return None;
            },
        },
    };
    let line = single_line(picked);
    Some(truncate_preview(line.as_str(), MAX_ARG_PREVIEW))
}

} // verus!
