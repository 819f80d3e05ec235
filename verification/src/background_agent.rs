//! Managed agents: agents that work in the background and leave a transcript
//! in a JSONL file.
use crate::clock::Timestamp;
use crate::duplicate::{push_value, Duplicate};
use crate::json::{
    array_field, clone_value, parse_value, parsed_json, text_field, trees_of, value_as_bool,
    value_as_str, value_field_values, value_get, value_tree, JsonTree,
};
use crate::pattern::{capture, first_group, pattern_groups, AGENT_ID_PATTERN, OUTPUT_FILE_PATTERN};
use crate::text::{
    cut_to_bytes, is_blank, lemma_blank_iff_trimmed_empty, same_text, split, split_on,
    str_from_utf8, take_chars, trim, trimmed, utf8_len,
};
use crate::thread::{
    AgentThreadEntry, AgentThreadEntryView, AssistantMessage, AssistantMessageChunk,
    AssistantMessageChunkView, AssistantMessageView, ContentBlock, ContentBlockView, PromptBlock,
    PromptBlockView, ToolCall, ToolCallContent, ToolCallContentView, ToolCallLocation,
    ToolCallStatus, ToolCallStatusView, ToolCallView, ToolKind, UserMessage, UserMessageView,
};
use vstd::prelude::*;
use vstd::slice::slice_subrange;
use vstd::string::*;
use vstd::utf8::{decode_utf8, encode_utf8_decode_utf8, valid_utf8};

verus! {

/// The longest transcript line, in bytes, that is looked at.
pub const JSONL_LINE_CAP: usize = 65536;

/// How much more than the longest line is read from the end of a transcript.
pub const JSONL_READ_SLACK: usize = 4096;

/// How many characters of a tool's argument an activity label shows.
pub const LABEL_ARG_BUDGET: usize = 30;

/// The id and the transcript path that a managed agent is announced with,
/// given what was found of each.
pub open spec fn announcement(id: Option<Seq<char>>, path: Option<Seq<char>>) -> Option<
    (Seq<char>, Seq<char>),
> {
    match (id, path) {
        (Some(id), Some(path)) => Some((id, path)),
        _ => None,
    }
}

/// Reads the announcement of a managed agent out of a tool call's raw output.
/// Nothing where the id or the path is missing or looks different.
pub fn parse_managed_agent_announcement(raw_output: &str) -> (r: Option<(String, String)>)
    ensures
        r.deep_view() == announcement(
            first_group(pattern_groups(AGENT_ID_PATTERN@, raw_output@)),
            first_group(pattern_groups(OUTPUT_FILE_PATTERN@, raw_output@)),
        ),
{
    let id = match capture(AGENT_ID_PATTERN, raw_output) {
        Some(id) => id,
        None => {
            return None;
        },
    };
    let path = match capture(OUTPUT_FILE_PATTERN, raw_output) {
        Some(path) => path,
        None => {
            return None;
        },
    };
    Some((id, path))
}

/// The id of a managed agent.
#[derive(Clone, Debug, PartialEq, Eq, Hash)]
pub struct BackgroundAgentId(String);

impl DeepView for BackgroundAgentId {
    type V = Seq<char>;

    closed spec fn deep_view(&self) -> Seq<char> {
        self.0@
    }
}

impl Duplicate for BackgroundAgentId {
    fn duplicate(&self) -> (r: Self) {
        BackgroundAgentId(self.0.clone())
    }
}

impl BackgroundAgentId {
    pub fn new(id: &str) -> (r: Self)
        ensures
            r.deep_view() == id@,
    {
        BackgroundAgentId(id.to_owned())
    }

    pub fn as_str(&self) -> (r: &str)
        ensures
            r@ == self.deep_view(),
    {
        self.0.as_str()
    }

    /// The first six characters, for display.
    pub fn short(&self) -> (r: String)
        ensures
            r@ == (if self.deep_view().len() <= 6 {
                self.deep_view()
            } else {
                self.deep_view().take(6)
            }),
    {
        take_chars(self.0.as_str(), 6).to_owned()
    }
}

/// What a managed agent was doing when its transcript was last looked at.
#[derive(Clone, Debug)]
pub struct BackgroundAgentSnapshot {
    pub mtime: Timestamp,
    pub activity_label: String,
    pub stop_reason: Option<String>,
}

/// A managed agent.
#[derive(Clone, Debug)]
pub struct BackgroundAgent {
    pub id: BackgroundAgentId,
    /// Where its transcript is.
    pub jsonl_path: String,
    pub registered_at: Timestamp,
    pub latest: Option<BackgroundAgentSnapshot>,
    /// How far the transcript has been read.
    pub last_offset: u64,
}

impl BackgroundAgent {
    /// Whether the agent can still be written to: it has not stopped yet.
    pub fn is_messageable(&self) -> (r: bool)
        ensures
            r == (self.latest matches Some(snapshot) ==> snapshot.stop_reason is None),
    {
        match &self.latest {
            Some(snapshot) => snapshot.stop_reason.is_none(),
            None => true,
        }
    }
}

/// The `type` of a JSON object, empty where it has none.
pub open spec fn type_of(tree: JsonTree) -> Seq<char> {
    match tree.text_field("type"@) {
        Some(text) => text,
        None => ""@,
    }
}

/// The `type` of a JSON object, empty where it has none.
fn read_type(value: &serde_json::Value) -> (r: &str)
    ensures
        r@ == type_of(value_tree(*value)),
{
    match text_field(value, "type") {
        Some(text) => text,
        None => "",
    }
}

/// The text of the first field of an object, where that is a text.
pub open spec fn first_field_text(tree: JsonTree) -> Option<Seq<char>> {
    match tree {
        JsonTree::Object(fields) => if fields.len() > 0 {
            match fields[0].1 {
                JsonTree::Text(text) => Some(text),
                _ => None,
            }
        } else {
            None
        },
        _ => None,
    }
}

/// What a tool-use block says the agent is doing: the tool's name and the
/// start of its first argument.
pub open spec fn tool_label(block: JsonTree) -> Seq<char> {
    let name = match block.text_field("name"@) {
        Some(name) => name,
        None => "?"@,
    };
    let argument = match block.field("input"@) {
        Some(input) => match first_field_text(input) {
            Some(text) => text,
            None => ""@,
        },
        None => ""@,
    };
    if argument.len() > LABEL_ARG_BUDGET {
        name + ": "@ + argument.take(LABEL_ARG_BUDGET as int) + "…"@
    } else if argument.len() == 0 {
        name
    } else {
        name + ": "@ + argument
    }
}

/// What the first tool-use block among `blocks` says the agent is doing.
pub open spec fn blocks_label(blocks: Seq<JsonTree>) -> Seq<char>
    decreases blocks.len(),
{
    if blocks.len() == 0 {
        "Generating…"@
    } else if type_of(blocks[0]) == "tool_use"@ {
        tool_label(blocks[0])
    } else {
        blocks_label(blocks.drop_first())
    }
}

/// What a transcript row says the agent is doing.
pub open spec fn row_label(row: Option<JsonTree>) -> Seq<char> {
    match row {
        Some(tree) => if type_of(tree) == "system"@ && tree.text_field("subtype"@) == Some(
            "init"@,
        ) {
            "Starting…"@
        } else if type_of(tree) == "assistant"@ {
            match message_blocks(tree) {
                Some(blocks) => blocks_label(blocks),
                None => "Generating…"@,
            }
        } else {
            "Generating…"@
        },
        None => "Generating…"@,
    }
}

/// Why a transcript row says the agent stopped, if it says so.
pub open spec fn row_stop_reason(row: Option<JsonTree>) -> Option<Seq<char>> {
    match row {
        Some(tree) => if type_of(tree) == "assistant"@ {
            match tree.field("message"@) {
                Some(message) => match message.text_field("stop_reason"@) {
                    Some(reason) => if reason.len() > 0 {
                        Some(reason)
                    } else {
                        None
                    },
                    None => None,
                },
                None => None,
            }
        } else {
            None
        },
        None => None,
    }
}

/// The content blocks of the message in a transcript row.
pub open spec fn message_blocks(tree: JsonTree) -> Option<Seq<JsonTree>> {
    match tree.field("message"@) {
        Some(message) => message.array_field("content"@),
        None => None,
    }
}

/// The content blocks of the message in a transcript row.
fn read_message_blocks(value: &serde_json::Value) -> (r: Option<&Vec<serde_json::Value>>)
    ensures
        match r {
            Some(blocks) => message_blocks(value_tree(*value)) == Some(trees_of(blocks@)),
            None => message_blocks(value_tree(*value)) is None,
        },
{
    match value_get(value, "message") {
        Some(message) => array_field(message, "content"),
        None => None,
    }
}

/// What a tool-use block says the agent is doing.
fn label_tool_use(block: &serde_json::Value) -> (r: String)
    ensures
        r@ == tool_label(value_tree(*block)),
{
    let name = match text_field(block, "name") {
        Some(name) => name,
        None => "?",
    };
    let argument = match value_get(block, "input") {
        Some(input) => match value_field_values(input) {
            Some(values) => if values.len() > 0 {
                match value_as_str(values[0]) {
                    Some(text) => text,
                    None => "",
                }
            } else {
                ""
            },
            None => "",
        },
        None => "",
    };
    let mut out = name.to_owned();
    if argument.unicode_len() > LABEL_ARG_BUDGET {
        out.append(": ");
        out.append(take_chars(argument, LABEL_ARG_BUDGET));
        out.append("…");
    } else if !argument.is_empty() {
        out.append(": ");
        out.append(argument);
    }
    out
}

/// What the first tool-use block of an assistant message says the agent is
/// doing.
pub fn derive_assistant_label(row: &serde_json::Value) -> (r: String)
    ensures
        r@ == (match message_blocks(value_tree(*row)) {
            Some(blocks) => blocks_label(blocks),
            None => "Generating…"@,
        }),
{
    let blocks = match read_message_blocks(row) {
        Some(blocks) => blocks,
        None => {
            return "Generating…".to_owned();
        },
    };
    let ghost all = trees_of(blocks@);
    let mut i: usize = 0;
    assert(all.skip(0) =~= all);
    while i < blocks.len()
        invariant
            i <= blocks@.len(),
            all == trees_of(blocks@),
            blocks_label(all) == blocks_label(all.skip(i as int)),
            message_blocks(value_tree(*row)) == Some(all),
        decreases blocks@.len() - i,
    {
        assert(all[i as int] == value_tree(blocks@[i as int]));
        assert(all.skip(i as int).drop_first() =~= all.skip(i as int + 1));
        if same_text(read_type(&blocks[i]), "tool_use") {
            return label_tool_use(&blocks[i]);
        }
        i += 1;
    }
    "Generating…".to_owned()
}

/// What a transcript row, as read, says about the agent. `mtime` is when it was
/// written.
pub fn snapshot_of_row(row: Option<&serde_json::Value>, mtime: Timestamp) -> (r:
    BackgroundAgentSnapshot)
    ensures
        r.mtime == mtime,
        r.activity_label@ == row_label(
            match row {
                Some(value) => Some(value_tree(*value)),
                None => None,
            },
        ),
        r.stop_reason.deep_view() == row_stop_reason(
            match row {
                Some(value) => Some(value_tree(*value)),
                None => None,
            },
        ),
{
    let value = match row {
        Some(value) => value,
        None => {
            return generating_snapshot(mtime);
        },
    };
    let kind = read_type(value);
    proof {
        reveal_strlit("system");
        reveal_strlit("assistant");
        assert("system"@.len() != "assistant"@.len());
    }
    if same_text(kind, "system") {
        let starting = match text_field(value, "subtype") {
            Some(subtype) => same_text(subtype, "init"),
            None => false,
        };
        if starting {
            BackgroundAgentSnapshot {
                mtime,
                activity_label: "Starting…".to_owned(),
                stop_reason: None,
            }
        } else {
            generating_snapshot(mtime)
        }
    } else if same_text(kind, "assistant") {
        let stop_reason = match value_get(value, "message") {
            Some(message) => match text_field(message, "stop_reason") {
                Some(reason) => if reason.is_empty() {
                    None
                } else {
                    Some(reason.to_owned())
                },
                None => None,
            },
            None => None,
        };
        BackgroundAgentSnapshot {
            mtime,
            activity_label: derive_assistant_label(value),
            stop_reason,
        }
    } else {
        generating_snapshot(mtime)
    }
}

/// The snapshot of an agent of which nothing is known but that it works.
pub fn generating_snapshot(mtime: Timestamp) -> (r: BackgroundAgentSnapshot)
    ensures
        r.mtime == mtime,
        r.activity_label@ == "Generating…"@,
        r.stop_reason is None,
{
    BackgroundAgentSnapshot {
        mtime,
        activity_label: "Generating…".to_owned(),
        stop_reason: None,
    }
}

/// What a transcript line says about the agent, stamped with the current time.
/// A line that is no JSON says only that the agent works.
pub fn parse_jsonl_snapshot(line: &str) -> (r: BackgroundAgentSnapshot)
    ensures
        r.activity_label@ == row_label(parsed_json(line@)),
        r.stop_reason.deep_view() == row_stop_reason(parsed_json(line@)),
{
    let now = Timestamp::now();
    match parse_value(line) {
        Some(value) => snapshot_of_row(Some(&value), now),
        None => snapshot_of_row(None, now),
    }
}

/// The end of a transcript.
#[derive(Clone, Debug)]
pub struct Tail {
    /// The last line that is not blank, unless it is too long.
    pub last_line: Option<String>,
    /// Where to read on the next time.
    pub new_offset: u64,
    pub mtime: Timestamp,
}

/// Where to start reading a file of `len` bytes that was read up to
/// `since_offset` before, to get at most its last `window` bytes. A file that
/// has shrunk is read from the start.
pub open spec fn read_start(len: nat, since_offset: nat, window: nat) -> nat {
    let since = if since_offset > len {
        0
    } else {
        since_offset
    };
    let tail = if len > window {
        (len - window) as nat
    } else {
        0
    };
    if since > tail {
        since
    } else {
        tail
    }
}

/// Where to start reading a file, so as to read only its end.
pub fn plan_read(len: u64, since_offset: u64, window: u64) -> (r: u64)
    ensures
        r == read_start(len as nat, since_offset as nat, window as nat),
        r <= len,
        len - r <= window,
{
    let since: u64 = if since_offset > len {
        0
    } else {
        since_offset
    };
    let tail: u64 = if len > window {
        len - window
    } else {
        0
    };
    if since > tail {
        since
    } else {
        tail
    }
}

/// The last of `pieces` that is not blank.
pub open spec fn last_written(pieces: Seq<Seq<char>>) -> Option<Seq<char>>
    decreases pieces.len(),
{
    if pieces.len() == 0 {
        None
    } else if !is_blank(pieces.last()) {
        Some(pieces.last())
    } else {
        last_written(pieces.drop_last())
    }
}

/// The last line of what was read that is not blank, unless it is too long.
pub open spec fn last_row(read: Seq<char>) -> Option<Seq<char>> {
    match last_written(split_on(read, '\n')) {
        Some(line) => if utf8_len(line) > JSONL_LINE_CAP {
            None
        } else {
            Some(line)
        },
        None => None,
    }
}

/// The last line of what was read that is not blank, unless it is too long.
pub fn last_line_of(read: &str) -> (r: Option<String>)
    ensures
        r.deep_view() == last_row(read@),
{
    let pieces = split(read, '\n');
    let ghost all = pieces.deep_view();
    let mut i: usize = pieces.len();
    assert(all.take(i as int) =~= all);
    while i > 0
        invariant
            i <= pieces@.len(),
            all == pieces.deep_view(),
            all == split_on(read@, '\n'),
            last_written(all) == last_written(all.take(i as int)),
        decreases i,
    {
        i -= 1;
        let piece = pieces[i].as_str();
        assert(all[i as int] == piece@);
        assert(all.take(i as int + 1).drop_last() =~= all.take(i as int));
        proof {
            lemma_blank_iff_trimmed_empty(piece@);
        }
        if !trim(piece).is_empty() {
            let (_cut, too_long) = cut_to_bytes(piece, JSONL_LINE_CAP);
            if too_long {
                return None;
            }
            return Some(piece.to_owned());
        }
    }
    None
}

/// The end of a transcript of `len` bytes, given what was read of it. Nothing
/// new was written where it was already read to its end.
pub fn tail_of(len: u64, since_offset: u64, read: &str, mtime: Timestamp) -> (r: Tail)
    ensures
        r.new_offset == len,
        r.mtime == mtime,
        r.last_line.deep_view() == (if since_offset == len || (since_offset > len && len == 0) {
            None
        } else {
            last_row(read@)
        }),
{
    let last_line = if since_offset == len || (since_offset > len && len == 0) {
        None
    } else {
        last_line_of(read)
    };
    Tail { last_line, new_offset: len, mtime }
}

/// How many bytes at the start of what was read belong to a character that starts
/// before it: none for a transcript that is read from its start.
pub open spec fn cut_bytes(start: nat, read: Seq<u8>, at: nat) -> nat
    decreases 3 - at,
{
    if start == 0 || at >= 3 || at >= read.len() || !(0x80 <= read[at as int] < 0xc0) {
        at
    } else {
        cut_bytes(start, read, at + 1)
    }
}

/// The text of the bytes that were read of a file from `start` on, from the first
/// whole character on. Nothing where they are no UTF-8.
pub open spec fn text_read(start: nat, read: Seq<u8>) -> Option<Seq<char>> {
    let whole = read.skip(cut_bytes(start, read, 0) as int);
    if valid_utf8(whole) {
        Some(decode_utf8(whole))
    } else {
        None
    }
}

/// The end of a transcript of `len` bytes, given the bytes that were read of it
/// from where [`plan_read`] says. Nothing where they are no UTF-8, but for a
/// character at the start of which only the end was read: that one is skipped.
pub fn tail_of_bytes(len: u64, since_offset: u64, read: &Vec<u8>, mtime: Timestamp) -> (r: Option<
    Tail,
>)
    ensures
        ({
            let start = read_start(
                len as nat,
                since_offset as nat,
                (JSONL_LINE_CAP + JSONL_READ_SLACK) as nat,
            );
            match text_read(start, read@) {
                Some(text) => {
                    &&& r matches Some(tail)
                    &&& tail.new_offset == len
                    &&& tail.mtime == mtime
                    &&& tail.last_line.deep_view() == (if since_offset == len || (since_offset > len
                        && len == 0) {
                        None
                    } else {
                        last_row(text)
                    })
                },
                None => r is None,
            }
        }),
{
    let start: u64 = plan_read(len, since_offset, (JSONL_LINE_CAP + JSONL_READ_SLACK) as u64);
    let mut at: usize = 0;
    while start != 0 && at < 3 && at < read.len() && 0x80 <= read[at] && read[at] < 0xc0
        invariant
            at <= 3,
            at <= read@.len(),
            cut_bytes(start as nat, read@, 0) == cut_bytes(start as nat, read@, at as nat),
        decreases 3 - at,
    {
        at += 1;
    }
    let whole = slice_subrange(read.as_slice(), at, read.len());
    assert(whole@ =~= read@.skip(at as int));
    match str_from_utf8(whole) {
        Some(text) => {
            proof {
                encode_utf8_decode_utf8(text@);
            }
            Some(tail_of(len, since_offset, text, mtime))
        },
        None => None,
    }
}

/// What came back from a tool.
#[derive(Clone, Debug)]
pub struct ToolResultInfo {
    pub is_error: bool,
    pub content_text: String,
}

/// What a [`ToolResultInfo`] stands for.
#[verifier::ext_equal]
pub struct ToolResultInfoView {
    pub is_error: bool,
    pub content_text: Seq<char>,
}

impl DeepView for ToolResultInfo {
    type V = ToolResultInfoView;

    open spec fn deep_view(&self) -> ToolResultInfoView {
        ToolResultInfoView {
            is_error: self.is_error,
            content_text: self.content_text.deep_view(),
        }
    }
}

/// The texts of the text blocks among `blocks`, one below the other; empty
/// texts at the start leave no line.
pub open spec fn text_blocks(blocks: Seq<JsonTree>) -> Seq<char>
    decreases blocks.len(),
{
    if blocks.len() == 0 {
        Seq::empty()
    } else {
        let before = text_blocks(blocks.drop_last());
        match blocks.last().text_field("text"@) {
            Some(text) => if type_of(blocks.last()) == "text"@ {
                if before.len() > 0 {
                    before + "\n"@ + text
                } else {
                    text
                }
            } else {
                before
            },
            None => before,
        }
    }
}

/// The text of a tool result.
pub open spec fn result_text(block: JsonTree) -> Seq<char> {
    match block.array_field("content"@) {
        Some(content) => text_blocks(content),
        None => Seq::empty(),
    }
}

/// The text of a tool result: its text blocks, one below the other.
pub fn tool_result_content_text(block: &serde_json::Value) -> (r: String)
    ensures
        r@ == result_text(value_tree(*block)),
{
    let mut out = String::new();
    let content = match array_field(block, "content") {
        Some(content) => content,
        None => {
            return out;
        },
    };
    let ghost all = trees_of(content@);
    let mut i: usize = 0;
    while i < content.len()
        invariant
            i <= content@.len(),
            all == trees_of(content@),
            out@ == text_blocks(all.take(i as int)),
        decreases content@.len() - i,
    {
        assert(all[i as int] == value_tree(content@[i as int]));
        assert(all.take(i as int + 1).drop_last() =~= all.take(i as int));
        if same_text(read_type(&content[i]), "text") {
            if let Some(text) = text_field(&content[i], "text") {
                if out.as_str().is_empty() {
                    out = text.to_owned();
                } else {
                    out.append("\n");
                    out.append(text);
                }
            }
        }
        i += 1;
    }
    assert(all.take(i as int) =~= all);
    out
}

/// The tool results among `blocks`, each under the id of the tool use that it
/// answers.
pub open spec fn block_results(blocks: Seq<JsonTree>) -> Seq<(Seq<char>, ToolResultInfoView)>
    decreases blocks.len(),
{
    if blocks.len() == 0 {
        Seq::empty()
    } else {
        let before = block_results(blocks.drop_last());
        let block = blocks.last();
        match block.text_field("tool_use_id"@) {
            Some(id) => if type_of(block) == "tool_result"@ {
                before.push(
                    (
                        id,
                        ToolResultInfoView {
                            is_error: block.field("is_error"@) == Some(JsonTree::Bool(true)),
                            content_text: result_text(block),
                        },
                    ),
                )
            } else {
                before
            },
            None => before,
        }
    }
}

/// The tool results in a transcript row.
pub open spec fn row_results(row: JsonTree) -> Seq<(Seq<char>, ToolResultInfoView)> {
    if row.text_field("type"@) == Some("user"@) {
        match message_blocks(row) {
            Some(blocks) => block_results(blocks),
            None => Seq::empty(),
        }
    } else {
        Seq::empty()
    }
}

/// The tool results in a transcript.
pub open spec fn all_results(rows: Seq<JsonTree>) -> Seq<(Seq<char>, ToolResultInfoView)>
    decreases rows.len(),
{
    if rows.len() == 0 {
        Seq::empty()
    } else {
        all_results(rows.drop_last()) + row_results(rows.last())
    }
}

/// The last result that answers the tool use `id`.
pub open spec fn result_for(
    results: Seq<(Seq<char>, ToolResultInfoView)>,
    id: Seq<char>,
) -> Option<ToolResultInfoView>
    decreases results.len(),
{
    if results.len() == 0 {
        None
    } else if results.last().0 == id {
        Some(results.last().1)
    } else {
        result_for(results.drop_last(), id)
    }
}

/// The rows of a transcript: its lines that are JSON.
pub open spec fn transcript_rows(lines: Seq<Seq<char>>) -> Seq<JsonTree>
    decreases lines.len(),
{
    if lines.len() == 0 {
        Seq::empty()
    } else {
        let before = transcript_rows(lines.drop_last());
        let line = trimmed(lines.last());
        if line.len() == 0 {
            before
        } else {
            match parsed_json(line) {
                Some(tree) => before.push(tree),
                None => before,
            }
        }
    }
}

/// Reads the rows of a transcript.
fn read_rows(lines: &Vec<String>) -> (r: Vec<serde_json::Value>)
    ensures
        trees_of(r@) == transcript_rows(lines.deep_view()),
{
    let ghost all = lines.deep_view();
    let mut out: Vec<serde_json::Value> = Vec::new();
    let mut i: usize = 0;
    assert(trees_of(out@) =~= transcript_rows(all.take(0)));
    while i < lines.len()
        invariant
            i <= lines@.len(),
            all == lines.deep_view(),
            trees_of(out@) == transcript_rows(all.take(i as int)),
        decreases lines@.len() - i,
    {
        assert(all[i as int] == lines@[i as int]@);
        assert(all.take(i as int + 1).drop_last() =~= all.take(i as int));
        let line = trim(lines[i].as_str());
        if !line.is_empty() {
            if let Some(value) = parse_value(line) {
                let ghost before = trees_of(out@);
                out.push(value);
                assert(trees_of(out@) =~= before.push(value_tree(value)));
            }
        }
        i += 1;
    }
    assert(all.take(i as int) =~= all);
    out
}

/// Adds the tool results among `blocks` to `results`.
fn collect_block_results(
    blocks: &Vec<serde_json::Value>,
    results: &mut Vec<(String, ToolResultInfo)>,
)
    ensures
        final(results).deep_view() == old(results).deep_view() + block_results(trees_of(blocks@)),
{
    let ghost all = trees_of(blocks@);
    let ghost start = results.deep_view();
    let mut i: usize = 0;
    assert(start + block_results(all.take(0)) =~= start);
    while i < blocks.len()
        invariant
            i <= blocks@.len(),
            all == trees_of(blocks@),
            start == old(results).deep_view(),
            results.deep_view() == start + block_results(all.take(i as int)),
        decreases blocks@.len() - i,
    {
        let block = &blocks[i];
        assert(all[i as int] == value_tree(*block));
        assert(all.take(i as int + 1).drop_last() =~= all.take(i as int));
        if same_text(read_type(block), "tool_result") {
            if let Some(id) = text_field(block, "tool_use_id") {
                let is_error = match value_get(block, "is_error") {
                    Some(flag) => match value_as_bool(flag) {
                        Some(b) => b,
                        None => false,
                    },
                    None => false,
                };
                let info = ToolResultInfo {
                    is_error,
                    content_text: tool_result_content_text(block),
                };
                let ghost before = block_results(all.take(i as int));
                push_value(results, (id.to_owned(), info));
                assert(results.deep_view() =~= start + before.push((id@, info.deep_view())));
            }
        }
        i += 1;
    }
    assert(all.take(i as int) =~= all);
}

/// Collects the tool results in a transcript.
fn collect_results(rows: &Vec<serde_json::Value>) -> (r: Vec<(String, ToolResultInfo)>)
    ensures
        r.deep_view() == all_results(trees_of(rows@)),
{
    let ghost all = trees_of(rows@);
    let mut out: Vec<(String, ToolResultInfo)> = Vec::new();
    let mut i: usize = 0;
    assert(out.deep_view() =~= all_results(all.take(0)));
    proof {
        reveal_strlit("user");
        reveal_strlit("");
        assert("user"@.len() != ""@.len());
    }
    while i < rows.len()
        invariant
            i <= rows@.len(),
            all == trees_of(rows@),
            out.deep_view() == all_results(all.take(i as int)),
            "user"@ != ""@,
        decreases rows@.len() - i,
    {
        let row = &rows[i];
        assert(all[i as int] == value_tree(*row));
        assert(all.take(i as int + 1).drop_last() =~= all.take(i as int));
        let ghost before = out.deep_view();
        assert(before + Seq::<(Seq<char>, ToolResultInfoView)>::empty() =~= before);
        if same_text(read_type(row), "user") {
            if let Some(blocks) = read_message_blocks(row) {
                collect_block_results(blocks, &mut out);
            }
        }
        i += 1;
    }
    assert(all.take(i as int) =~= all);
    out
}

/// The last result that answers the tool use `id`.
fn find_result<'a>(results: &'a [(String, ToolResultInfo)], id: &str) -> (r: Option<
    &'a ToolResultInfo,
>)
    ensures
        match r {
            Some(info) => result_for(results.deep_view(), id@) == Some(info.deep_view()),
            None => result_for(results.deep_view(), id@) is None,
        },
{
    let ghost all = results.deep_view();
    let mut i: usize = results.len();
    assert(all.take(i as int) =~= all);
    while i > 0
        invariant
            i <= results@.len(),
            all == results.deep_view(),
            result_for(all, id@) == result_for(all.take(i as int), id@),
        decreases i,
    {
        i -= 1;
        assert(all[i as int] == results@[i as int].deep_view());
        assert(all.take(i as int + 1).drop_last() =~= all.take(i as int));
        if same_text(results[i].0.as_str(), id) {
            return Some(&results[i].1);
        }
    }
    None
}

/// A user message that says `text`.
pub open spec fn plain_user_entry(text: Seq<char>) -> AgentThreadEntryView {
    AgentThreadEntryView::UserMessage(
        UserMessageView {
            id: None,
            content: ContentBlockView::Markdown { markdown: text },
            chunks: Seq::empty(),
        },
    )
}

/// An assistant message of one chunk that says `text`.
pub open spec fn plain_assistant_entry(text: Seq<char>, thought: bool) -> AgentThreadEntryView {
    let block = ContentBlockView::Markdown { markdown: text };
    AgentThreadEntryView::AssistantMessage(
        AssistantMessageView {
            chunks: seq![
                if thought {
                    AssistantMessageChunkView::Thought { block }
                } else {
                    AssistantMessageChunkView::Message { block }
                },
            ],
            subagent_id: None,
        },
    )
}

/// The user messages among `blocks`: its text blocks that are not empty.
pub open spec fn user_entries(blocks: Seq<JsonTree>) -> Seq<AgentThreadEntryView>
    decreases blocks.len(),
{
    if blocks.len() == 0 {
        Seq::empty()
    } else {
        let before = user_entries(blocks.drop_last());
        match blocks.last().text_field("text"@) {
            Some(text) => if type_of(blocks.last()) == "text"@ && text.len() > 0 {
                before.push(plain_user_entry(text))
            } else {
                before
            },
            None => before,
        }
    }
}

/// The tool call that a tool-use block with id `id` stands for.
pub open spec fn tool_entry(
    block: JsonTree,
    id: Seq<char>,
    results: Seq<(Seq<char>, ToolResultInfoView)>,
) -> AgentThreadEntryView {
    let name = match block.text_field("name"@) {
        Some(name) => name,
        None => "tool"@,
    };
    let result = result_for(results, id);
    AgentThreadEntryView::ToolCall(
        ToolCallView {
            id: "background:"@ + id,
            label: name,
            kind: ToolKind::Other,
            content: match result {
                Some(info) => if info.content_text.len() > 0 {
                    seq![
                        ToolCallContentView::ContentBlock(
                            ContentBlockView::Markdown { markdown: info.content_text },
                        ),
                    ]
                } else {
                    Seq::empty()
                },
                None => Seq::empty(),
            },
            status: match result {
                None => ToolCallStatusView::Pending,
                Some(info) => if info.is_error {
                    ToolCallStatusView::Failed
                } else {
                    ToolCallStatusView::Completed
                },
            },
            locations: Seq::empty(),
            raw_input: block.field("input"@),
            raw_input_markdown: None,
            raw_output: None,
            tool_name: Some(name),
            subagent_id: None,
            status_started_at: None,
        },
    )
}

/// Assistant text that has been read but not yet made into an entry, behind the
/// entries made so far.
#[verifier::ext_equal]
pub struct AssistantFlow {
    pub entries: Seq<AgentThreadEntryView>,
    pub pending: Seq<char>,
}

impl AssistantFlow {
    /// The entries, the pending text made into one if there is any.
    pub open spec fn flushed(self) -> Seq<AgentThreadEntryView> {
        if self.pending.len() == 0 {
            self.entries
        } else {
            self.entries.push(plain_assistant_entry(self.pending, false))
        }
    }
}

/// What the assistant blocks `blocks` say: successive texts run together, a
/// thought or a tool use stands on its own.
pub open spec fn assistant_flow(
    blocks: Seq<JsonTree>,
    results: Seq<(Seq<char>, ToolResultInfoView)>,
) -> AssistantFlow
    decreases blocks.len(),
{
    if blocks.len() == 0 {
        AssistantFlow { entries: Seq::empty(), pending: Seq::empty() }
    } else {
        let before = assistant_flow(blocks.drop_last(), results);
        let block = blocks.last();
        if type_of(block) == "text"@ {
            match block.text_field("text"@) {
                Some(text) => AssistantFlow {
                    entries: before.entries,
                    pending: before.pending + text,
                },
                None => before,
            }
        } else if type_of(block) == "thinking"@ {
            match block.text_field("thinking"@) {
                Some(thought) => AssistantFlow {
                    entries: before.flushed().push(plain_assistant_entry(thought, true)),
                    pending: Seq::empty(),
                },
                None => before,
            }
        } else if type_of(block) == "tool_use"@ {
            match block.text_field("id"@) {
                Some(id) => AssistantFlow {
                    entries: before.flushed().push(tool_entry(block, id, results)),
                    pending: Seq::empty(),
                },
                None => AssistantFlow { entries: before.flushed(), pending: Seq::empty() },
            }
        } else {
            before
        }
    }
}

/// The entries that a transcript row stands for.
pub open spec fn row_entries(
    row: JsonTree,
    results: Seq<(Seq<char>, ToolResultInfoView)>,
) -> Seq<AgentThreadEntryView> {
    match message_blocks(row) {
        Some(blocks) => if type_of(row) == "user"@ {
            user_entries(blocks)
        } else if type_of(row) == "assistant"@ {
            assistant_flow(blocks, results).flushed()
        } else {
            Seq::empty()
        },
        None => Seq::empty(),
    }
}

/// The entries that the rows of a transcript stand for. A tool use is answered by
/// a tool result in a later row.
pub open spec fn rows_entries(rows: Seq<JsonTree>) -> Seq<AgentThreadEntryView>
    decreases rows.len(),
{
    if rows.len() == 0 {
        Seq::empty()
    } else {
        row_entries(rows[0], all_results(rows.drop_first())) + rows_entries(rows.drop_first())
    }
}

/// Adds the user messages in a transcript row to `out`.
pub fn jsonl_user_to_entries(value: &serde_json::Value, out: &mut Vec<AgentThreadEntry>)
    ensures
        final(out).deep_view() == old(out).deep_view() + (match message_blocks(value_tree(*value)) {
            Some(blocks) => user_entries(blocks),
            None => Seq::empty(),
        }),
{
    let ghost start = out.deep_view();
    let blocks = match read_message_blocks(value) {
        Some(blocks) => blocks,
        None => {
            assert(start + Seq::<AgentThreadEntryView>::empty() =~= start);
            return;
        },
    };
    let ghost all = trees_of(blocks@);
    let mut i: usize = 0;
    assert(start + user_entries(all.take(0)) =~= start);
    while i < blocks.len()
        invariant
            i <= blocks@.len(),
            all == trees_of(blocks@),
            start == old(out).deep_view(),
            out.deep_view() == start + user_entries(all.take(i as int)),
            message_blocks(value_tree(*value)) == Some(all),
        decreases blocks@.len() - i,
    {
        let block = &blocks[i];
        assert(all[i as int] == value_tree(*block));
        assert(all.take(i as int + 1).drop_last() =~= all.take(i as int));
        if same_text(read_type(block), "text") {
            if let Some(text) = text_field(block, "text") {
                if !text.is_empty() {
                    let ghost before = user_entries(all.take(i as int));
                    let chunks: Vec<PromptBlock> = Vec::new();
                    assert(chunks.deep_view() =~= Seq::<PromptBlockView>::empty());
                    let message = UserMessage {
                        id: None,
                        content: ContentBlock::Markdown { markdown: text.to_owned() },
                        chunks,
                    };
                    push_value(out, AgentThreadEntry::UserMessage(message));
                    assert(out.deep_view() =~= start + before.push(plain_user_entry(text@)));
                }
            }
        }
        i += 1;
    }
    assert(all.take(i as int) =~= all);
}

/// Makes an assistant message of one chunk.
fn make_assistant_entry(text: String, thought: bool) -> (r: AgentThreadEntry)
    ensures
        r.deep_view() == plain_assistant_entry(text@, thought),
{
    let block = ContentBlock::Markdown { markdown: text };
    let mut chunks: Vec<AssistantMessageChunk> = Vec::new();
    push_value(
        &mut chunks,
        if thought {
            AssistantMessageChunk::Thought { block }
        } else {
            AssistantMessageChunk::Message { block }
        },
    );
    assert(chunks.deep_view() =~= plain_assistant_entry(text@, thought)->AssistantMessage_0.chunks);
    AgentThreadEntry::AssistantMessage(AssistantMessage { chunks, subagent_id: None })
}

/// Makes the pending assistant text into an entry, if there is any.
pub fn flush_pending_assistant_text(pending: &mut String, out: &mut Vec<AgentThreadEntry>)
    ensures
        final(pending)@.len() == 0,
        final(out).deep_view() == (AssistantFlow {
            entries: old(out).deep_view(),
            pending: old(pending)@,
        }).flushed(),
{
    if pending.as_str().is_empty() {
        return;
    }
    let text = pending.clone();
    *pending = String::new();
    push_value(out, make_assistant_entry(text, false));
}

/// Makes the tool call that a tool-use block stands for.
fn make_tool_entry(
    block: &serde_json::Value,
    id: &str,
    paired: &[(String, ToolResultInfo)],
) -> (r: AgentThreadEntry)
    ensures
        r.deep_view() == tool_entry(value_tree(*block), id@, paired.deep_view()),
{
    let name = match text_field(block, "name") {
        Some(name) => name,
        None => "tool",
    };
    let raw_input = match value_get(block, "input") {
        Some(input) => Some(clone_value(input)),
        None => None,
    };
    let mut content: Vec<ToolCallContent> = Vec::new();
    let status = match find_result(paired, id) {
        None => ToolCallStatus::Pending,
        Some(info) => {
            if !info.content_text.as_str().is_empty() {
                let block = ContentBlock::Markdown { markdown: info.content_text.clone() };
                push_value(&mut content, ToolCallContent::ContentBlock(block));
            }
            if info.is_error {
                ToolCallStatus::Failed
            } else {
                ToolCallStatus::Completed
            }
        },
    };
    let mut call_id = "background:".to_owned();
    call_id.append(id);
    let locations: Vec<ToolCallLocation> = Vec::new();
    let ghost expected = tool_entry(value_tree(*block), id@, paired.deep_view())->ToolCall_0;
    assert(content.deep_view() =~= expected.content);
    assert(locations.deep_view() =~= expected.locations);
    AgentThreadEntry::ToolCall(
        ToolCall {
            id: call_id,
            label: name.to_owned(),
            kind: ToolKind::Other,
            content,
            status,
            locations,
            raw_input,
            raw_input_markdown: None,
            raw_output: None,
            tool_name: Some(name.to_owned()),
            subagent_id: None,
            status_started_at: None,
        },
    )
}

/// The three kinds of assistant blocks have different names.
proof fn lemma_block_kinds()
    ensures
        "text"@ != "thinking"@,
        "text"@ != "tool_use"@,
        "thinking"@ != "tool_use"@,
{
    reveal_strlit("text");
    reveal_strlit("thinking");
    reveal_strlit("tool_use");
    assert("thinking"@[1] != "tool_use"@[1]);
}

/// Adds the entries that the assistant message in a transcript row stands for
/// to `out`. `paired` holds the tool results of the later rows.
pub fn jsonl_assistant_to_entries(
    value: &serde_json::Value,
    paired: &[(String, ToolResultInfo)],
    out: &mut Vec<AgentThreadEntry>,
)
    ensures
        final(out).deep_view() == old(out).deep_view() + (match message_blocks(value_tree(*value)) {
            Some(blocks) => assistant_flow(blocks, paired.deep_view()).flushed(),
            None => Seq::empty(),
        }),
{
    let ghost start = out.deep_view();
    let ghost results = paired.deep_view();
    let blocks = match read_message_blocks(value) {
        Some(blocks) => blocks,
        None => {
            assert(start + Seq::<AgentThreadEntryView>::empty() =~= start);
            return;
        },
    };
    let ghost all = trees_of(blocks@);
    let mut pending = String::new();
    let mut i: usize = 0;
    assert(start + assistant_flow(all.take(0), results).entries =~= start);
    while i < blocks.len()
        invariant
            i <= blocks@.len(),
            all == trees_of(blocks@),
            results == paired.deep_view(),
            start == old(out).deep_view(),
            out.deep_view() == start + assistant_flow(all.take(i as int), results).entries,
            pending@ == assistant_flow(all.take(i as int), results).pending,
            message_blocks(value_tree(*value)) == Some(all),
        decreases blocks@.len() - i,
    {
        let block = &blocks[i];
        assert(all[i as int] == value_tree(*block));
        assert(all.take(i as int + 1).drop_last() =~= all.take(i as int));
        let ghost before = assistant_flow(all.take(i as int), results);
        let kind = read_type(block);
        proof {
            lemma_block_kinds();
        }
        if same_text(kind, "text") {
            if let Some(text) = text_field(block, "text") {
                pending.append(text);
            }
        } else if same_text(kind, "thinking") {
            if let Some(thought) = text_field(block, "thinking") {
                flush_pending_assistant_text(&mut pending, out);
                assert(out.deep_view() =~= start + before.flushed());
                push_value(out, make_assistant_entry(thought.to_owned(), true));
                assert(out.deep_view() =~= start + before.flushed().push(
                    plain_assistant_entry(thought@, true),
                ));
                assert(pending@ =~= Seq::<char>::empty());
            }
        } else if same_text(kind, "tool_use") {
            flush_pending_assistant_text(&mut pending, out);
            assert(out.deep_view() =~= start + before.flushed());
            assert(pending@ =~= Seq::<char>::empty());
            if let Some(id) = text_field(block, "id") {
                push_value(out, make_tool_entry(block, id, paired));
                assert(out.deep_view() =~= start + before.flushed().push(
                    tool_entry(value_tree(*block), id@, results),
                ));
            }
        }
        i += 1;
    }
    assert(all.take(i as int) =~= all);
    let ghost flow = assistant_flow(all, results);
    flush_pending_assistant_text(&mut pending, out);
    assert(out.deep_view() =~= start + flow.flushed());
}

/// The results of a transcript are those of its rows up to one and those of the
/// rows behind it.
proof fn lemma_results_split(rows: Seq<JsonTree>, k: int)
    requires
        0 <= k <= rows.len(),
    ensures
        all_results(rows) == all_results(rows.take(k)) + all_results(rows.skip(k)),
    decreases rows.len(),
{
    if k == rows.len() {
        assert(rows.take(k) =~= rows);
        assert(rows.skip(k) =~= Seq::<JsonTree>::empty());
        assert(all_results(rows) + Seq::<(Seq<char>, ToolResultInfoView)>::empty() =~= all_results(
            rows,
        ));
    } else {
        lemma_results_split(rows.drop_last(), k);
        assert(rows.drop_last().take(k) =~= rows.take(k));
        assert(rows.drop_last().skip(k) =~= rows.skip(k).drop_last());
        assert(rows.skip(k).last() == rows.last());
        let before = all_results(rows.take(k));
        let between = all_results(rows.skip(k).drop_last());
        let own = row_results(rows.last());
        assert((before + between) + own =~= before + (between + own));
    }
}

/// The entries of a conversation that a transcript stands for. Texts of the
/// user and of the assistant become messages, tool uses become tool calls whose
/// outcome is that of the later tool result that answers them; what is no JSON is
/// skipped.
pub fn jsonl_to_entries(lines: &Vec<String>) -> (r: Vec<AgentThreadEntry>)
    ensures
        r.deep_view() == rows_entries(transcript_rows(lines.deep_view())),
{
    let rows = read_rows(lines);
    entries_of_rows(&rows)
}

/// How many tool results are in a transcript row.
fn count_results(row: &serde_json::Value) -> (r: usize)
    ensures
        r == row_results(value_tree(*row)).len(),
{
    proof {
        reveal_strlit("user");
        reveal_strlit("");
        assert("user"@.len() != ""@.len());
    }
    let mut results: Vec<(String, ToolResultInfo)> = Vec::new();
    let ghost none = results.deep_view();
    assert(none =~= Seq::<(Seq<char>, ToolResultInfoView)>::empty());
    if same_text(read_type(row), "user") {
        if let Some(blocks) = read_message_blocks(row) {
            collect_block_results(blocks, &mut results);
            assert(none + block_results(trees_of(blocks@)) =~= block_results(trees_of(blocks@)));
        }
    }
    assert(results@.len() == results.deep_view().len());
    results.len()
}

/// The entries that the rows of a transcript, as read, stand for.
pub fn entries_of_rows(rows: &Vec<serde_json::Value>) -> (r: Vec<AgentThreadEntry>)
    ensures
        r.deep_view() == rows_entries(trees_of(rows@)),
{
    let paired = collect_results(rows);
    let ghost all = trees_of(rows@);
    let ghost results = paired.deep_view();
    let mut out: Vec<AgentThreadEntry> = Vec::new();
    let total: usize = paired.len();
    assert(total == results.len());
    let mut seen: usize = 0;
    let mut i: usize = 0;
    assert(all.skip(0) =~= all);
    assert(out.deep_view() + rows_entries(all) =~= rows_entries(all));
    assert(all_results(all.take(0)) =~= Seq::<(Seq<char>, ToolResultInfoView)>::empty());
    proof {
        reveal_strlit("user");
        reveal_strlit("assistant");
        assert("user"@.len() != "assistant"@.len());
    }
    while i < rows.len()
        invariant
            i <= rows@.len(),
            all == trees_of(rows@),
            results == paired.deep_view(),
            results == all_results(all),
            total == results.len(),
            seen == all_results(all.take(i as int)).len(),
            rows_entries(all) == out.deep_view() + rows_entries(all.skip(i as int)),
            "user"@ != "assistant"@,
        decreases rows@.len() - i,
    {
        let row = &rows[i];
        assert(all[i as int] == value_tree(*row));
        assert(all.take(i as int + 1).drop_last() =~= all.take(i as int));
        assert(all.skip(i as int).drop_first() =~= all.skip(i as int + 1));
        let ghost before = out.deep_view();
        let ghost later = all_results(all.skip(i as int + 1));
        let ghost rest = rows_entries(all.skip(i as int + 1));
        proof {
            lemma_results_split(all, i as int + 1);
            assert(results.len() == paired@.len());
            assert(results.skip(all_results(all.take(i as int + 1)).len() as int) =~= later);
        }
        let own: usize = count_results(row);
        assert(all_results(all.take(i as int + 1)).len() == seen + own);
        seen = seen + own;
        let kind = read_type(row);
        assert(before + Seq::<AgentThreadEntryView>::empty() =~= before);
        if same_text(kind, "user") {
            jsonl_user_to_entries(row, &mut out);
        } else if same_text(kind, "assistant") {
            let answers = slice_subrange(paired.as_slice(), seen, total);
            assert(answers.deep_view() =~= later);
            jsonl_assistant_to_entries(row, answers, &mut out);
        }
        assert(out.deep_view() == before + row_entries(all[i as int], later));
        assert((before + row_entries(all[i as int], later)) + rest =~= before + (row_entries(
            all[i as int],
            later,
        ) + rest));
        i += 1;
    }
    assert(all.skip(i as int) =~= Seq::<JsonTree>::empty());
    assert(out.deep_view() + Seq::<AgentThreadEntryView>::empty() =~= out.deep_view());
    out
}

} // verus!
