//! Conversations kept across restarts.
//!
//! A live conversation is tied to a running agent. What is kept of it is the
//! data that drives its display, so that a restored conversation shows the same
//! text without an agent behind it. Tool calls that were still in flight are
//! left out.
use crate::conversation_render::{
    chunk_source, chunk_texts, content_spans, has_answer, is_thought, spans_of,
};
use crate::duplicate::{push_value, Duplicate};
use crate::json::{pretty_json, print_value_pretty, JsonTree};
use crate::text::{trim, trimmed};
use crate::thread::{
    clone_option_value, option_tree, AgentThreadEntry, AgentThreadEntryView, AssistantMessage,
    AssistantMessageChunk, AssistantMessageChunkView, AssistantMessageView, ContentBlock,
    ContentBlockView, PlanEntry, PlanEntryPriority, PlanEntryStatus, PlanEntryView, PromptBlock,
    PromptBlockView, ToolCall, ToolCallContent, ToolCallContentView, ToolCallLocation,
    ToolCallLocationView, ToolCallStatus, ToolCallStatusView, ToolCallView, ToolKind, UserMessage,
    UserMessageView,
};
use crate::tool_output::{content_summary, tool_call_content_summary};
use vstd::prelude::*;
use vstd::string::*;

verus! {

/// A user message as it is kept.
#[derive(Clone, Debug)]
pub struct PersistedUserMessage {
    pub id: Option<String>,
    /// Markdown source of the content.
    pub content_md: String,
    /// The blocks as the user submitted them.
    pub chunks: Vec<PromptBlock>,
}

/// What a [`PersistedUserMessage`] stands for.
#[verifier::ext_equal]
pub struct PersistedUserMessageView {
    pub id: Option<Seq<char>>,
    pub content_md: Seq<char>,
    pub chunks: Seq<PromptBlockView>,
}

impl DeepView for PersistedUserMessage {
    type V = PersistedUserMessageView;

    open spec fn deep_view(&self) -> PersistedUserMessageView {
        PersistedUserMessageView {
            id: self.id.deep_view(),
            content_md: self.content_md.deep_view(),
            chunks: self.chunks.deep_view(),
        }
    }
}

/// A piece of an assistant message as it is kept: markdown source.
#[derive(Clone, Debug)]
pub enum PersistedAssistantChunk {
    Message(String),
    Thought(String),
}

/// What a [`PersistedAssistantChunk`] stands for.
#[verifier::ext_equal]
pub enum PersistedAssistantChunkView {
    Message(Seq<char>),
    Thought(Seq<char>),
}

impl DeepView for PersistedAssistantChunk {
    type V = PersistedAssistantChunkView;

    open spec fn deep_view(&self) -> PersistedAssistantChunkView {
        match self {
            PersistedAssistantChunk::Message(value) => PersistedAssistantChunkView::Message(
                value.deep_view(),
            ),
            PersistedAssistantChunk::Thought(value) => PersistedAssistantChunkView::Thought(
                value.deep_view(),
            ),
        }
    }
}

/// An assistant message as it is kept.
#[derive(Clone, Debug)]
pub struct PersistedAssistantMessage {
    pub chunks: Vec<PersistedAssistantChunk>,
}

/// What a [`PersistedAssistantMessage`] stands for.
#[verifier::ext_equal]
pub struct PersistedAssistantMessageView {
    pub chunks: Seq<PersistedAssistantChunkView>,
}

impl DeepView for PersistedAssistantMessage {
    type V = PersistedAssistantMessageView;

    open spec fn deep_view(&self) -> PersistedAssistantMessageView {
        PersistedAssistantMessageView {
            chunks: self.chunks.deep_view(),
        }
    }
}

/// The states in which a tool call can end.
#[derive(Clone, Copy, Debug, PartialEq, Eq, Structural)]
pub enum TerminalToolCallStatus {
    Completed,
    Failed,
    Rejected,
    Canceled,
}

impl DeepView for TerminalToolCallStatus {
    type V = TerminalToolCallStatus;

    open spec fn deep_view(&self) -> TerminalToolCallStatus {
        *self
    }
}

/// One item of what a tool call produced, as formatted markdown.
#[derive(Clone, Debug)]
pub struct PersistedToolCallContent {
    pub markdown: String,
}

/// What a [`PersistedToolCallContent`] stands for.
#[verifier::ext_equal]
pub struct PersistedToolCallContentView {
    pub markdown: Seq<char>,
}

impl DeepView for PersistedToolCallContent {
    type V = PersistedToolCallContentView;

    open spec fn deep_view(&self) -> PersistedToolCallContentView {
        PersistedToolCallContentView {
            markdown: self.markdown.deep_view(),
        }
    }
}

/// A tool call as it is kept.
#[derive(Clone, Debug)]
pub struct PersistedToolCall {
    pub id: String,
    pub label_md: String,
    pub kind: ToolKind,
    pub status: TerminalToolCallStatus,
    pub content: Vec<PersistedToolCallContent>,
    pub raw_input: Option<serde_json::Value>,
    pub raw_output: Option<serde_json::Value>,
    pub tool_name: Option<String>,
    pub locations: Vec<ToolCallLocation>,
}

/// What a [`PersistedToolCall`] stands for.
#[verifier::ext_equal]
pub struct PersistedToolCallView {
    pub id: Seq<char>,
    pub label_md: Seq<char>,
    pub kind: ToolKind,
    pub status: TerminalToolCallStatus,
    pub content: Seq<PersistedToolCallContentView>,
    pub raw_input: Option<JsonTree>,
    pub raw_output: Option<JsonTree>,
    pub tool_name: Option<Seq<char>>,
    pub locations: Seq<ToolCallLocationView>,
}

impl DeepView for PersistedToolCall {
    type V = PersistedToolCallView;

    open spec fn deep_view(&self) -> PersistedToolCallView {
        PersistedToolCallView {
            id: self.id.deep_view(),
            label_md: self.label_md.deep_view(),
            kind: self.kind,
            status: self.status,
            content: self.content.deep_view(),
            raw_input: option_tree(self.raw_input),
            raw_output: option_tree(self.raw_output),
            tool_name: self.tool_name.deep_view(),
            locations: self.locations.deep_view(),
        }
    }
}

/// A plan item as it is kept.
#[derive(Clone, Debug)]
pub struct PersistedPlanEntry {
    pub content_md: String,
    pub priority: PlanEntryPriority,
    pub status: PlanEntryStatus,
}

/// What a [`PersistedPlanEntry`] stands for.
#[verifier::ext_equal]
pub struct PersistedPlanEntryView {
    pub content_md: Seq<char>,
    pub priority: PlanEntryPriority,
    pub status: PlanEntryStatus,
}

impl DeepView for PersistedPlanEntry {
    type V = PersistedPlanEntryView;

    open spec fn deep_view(&self) -> PersistedPlanEntryView {
        PersistedPlanEntryView {
            content_md: self.content_md.deep_view(),
            priority: self.priority,
            status: self.status,
        }
    }
}

/// An entry of a conversation as it is kept.
#[derive(Clone, Debug)]
pub enum PersistedEntryV2 {
    User(PersistedUserMessage),
    Assistant(PersistedAssistantMessage),
    Tool(PersistedToolCall),
    Plan(Vec<PersistedPlanEntry>),
}

/// What a [`PersistedEntryV2`] stands for.
#[verifier::ext_equal]
pub enum PersistedEntryV2View {
    User(PersistedUserMessageView),
    Assistant(PersistedAssistantMessageView),
    Tool(PersistedToolCallView),
    Plan(Seq<PersistedPlanEntryView>),
}

impl DeepView for PersistedEntryV2 {
    type V = PersistedEntryV2View;

    open spec fn deep_view(&self) -> PersistedEntryV2View {
        match self {
            PersistedEntryV2::User(value) => PersistedEntryV2View::User(value.deep_view()),
            PersistedEntryV2::Assistant(value) => PersistedEntryV2View::Assistant(
                value.deep_view(),
            ),
            PersistedEntryV2::Tool(value) => PersistedEntryV2View::Tool(value.deep_view()),
            PersistedEntryV2::Plan(value) => PersistedEntryV2View::Plan(value.deep_view()),
        }
    }
}

/// The end state of a tool call, if it has ended.
pub open spec fn terminal_status(status: ToolCallStatusView) -> Option<TerminalToolCallStatus> {
    match status {
        ToolCallStatusView::Completed => Some(TerminalToolCallStatus::Completed),
        ToolCallStatusView::Failed => Some(TerminalToolCallStatus::Failed),
        ToolCallStatusView::Rejected => Some(TerminalToolCallStatus::Rejected),
        ToolCallStatusView::Canceled => Some(TerminalToolCallStatus::Canceled),
        _ => None,
    }
}

/// The status of a tool call that ended in `status`.
pub open spec fn live_status(status: TerminalToolCallStatus) -> ToolCallStatusView {
    match status {
        TerminalToolCallStatus::Completed => ToolCallStatusView::Completed,
        TerminalToolCallStatus::Failed => ToolCallStatusView::Failed,
        TerminalToolCallStatus::Rejected => ToolCallStatusView::Rejected,
        TerminalToolCallStatus::Canceled => ToolCallStatusView::Canceled,
    }
}

/// A piece of an assistant message as it is kept.
pub open spec fn kept_chunk(chunk: AssistantMessageChunkView) -> PersistedAssistantChunkView {
    match chunk {
        AssistantMessageChunkView::Message { block } => PersistedAssistantChunkView::Message(
            block.source(),
        ),
        AssistantMessageChunkView::Thought { block } => PersistedAssistantChunkView::Thought(
            block.source(),
        ),
    }
}

/// The items of what a tool call produced, as they are kept.
pub open spec fn kept_content(
    content: Seq<ToolCallContentView>,
    raw_output: Option<JsonTree>,
) -> Seq<PersistedToolCallContentView> {
    content.map_values(
        |item: ToolCallContentView|
            PersistedToolCallContentView { markdown: content_summary(item, raw_output) },
    )
}

/// A plan item as it is kept.
pub open spec fn kept_plan_entry(entry: PlanEntryView) -> PersistedPlanEntryView {
    PersistedPlanEntryView {
        content_md: entry.content,
        priority: entry.priority,
        status: entry.status,
    }
}

/// What is kept of an entry; nothing of a tool call that has not ended.
pub open spec fn kept(entry: AgentThreadEntryView) -> Option<PersistedEntryV2View> {
    match entry {
        AgentThreadEntryView::UserMessage(message) => Some(
            PersistedEntryV2View::User(
                PersistedUserMessageView {
                    id: message.id,
                    content_md: message.content.source(),
                    chunks: message.chunks,
                },
            ),
        ),
        AgentThreadEntryView::AssistantMessage(message) => Some(
            PersistedEntryV2View::Assistant(
                PersistedAssistantMessageView {
                    chunks: message.chunks.map_values(
                        |chunk: AssistantMessageChunkView| kept_chunk(chunk),
                    ),
                },
            ),
        ),
        AgentThreadEntryView::ToolCall(call) => match terminal_status(call.status) {
            Some(status) => Some(
                PersistedEntryV2View::Tool(
                    PersistedToolCallView {
                        id: call.id,
                        label_md: call.label,
                        kind: call.kind,
                        status,
                        content: kept_content(call.content, call.raw_output),
                        raw_input: call.raw_input,
                        raw_output: call.raw_output,
                        tool_name: call.tool_name,
                        locations: call.locations,
                    },
                ),
            ),
            None => None,
        },
        AgentThreadEntryView::CompletedPlan(entries) => Some(
            PersistedEntryV2View::Plan(
                entries.map_values(|entry: PlanEntryView| kept_plan_entry(entry)),
            ),
        ),
    }
}

/// A block that renders to `markdown`.
pub open spec fn markdown_block(markdown: Seq<char>) -> ContentBlockView {
    ContentBlockView::Markdown { markdown }
}

/// A piece of an assistant message, restored.
pub open spec fn restored_chunk(chunk: PersistedAssistantChunkView) -> AssistantMessageChunkView {
    match chunk {
        PersistedAssistantChunkView::Message(md) => AssistantMessageChunkView::Message {
            block: markdown_block(md),
        },
        PersistedAssistantChunkView::Thought(md) => AssistantMessageChunkView::Thought {
            block: markdown_block(md),
        },
    }
}

/// The items of what a tool call produced, restored.
pub open spec fn restored_content(content: Seq<PersistedToolCallContentView>) -> Seq<
    ToolCallContentView,
> {
    content.map_values(
        |item: PersistedToolCallContentView|
            ToolCallContentView::ContentBlock(
                ContentBlockView::Formatted { markdown: item.markdown },
            ),
    )
}

/// A plan item, restored.
pub open spec fn restored_plan_entry(entry: PersistedPlanEntryView) -> PlanEntryView {
    PlanEntryView { content: entry.content_md, priority: entry.priority, status: entry.status }
}

/// The markdown of a tool call's printed input, unless it prints as nothing.
pub open spec fn input_block(pretty: Option<Seq<char>>) -> Option<Seq<char>> {
    match pretty {
        Some(pretty) => if trimmed(pretty).len() == 0 {
            None
        } else {
            Some("```json\n"@ + pretty + "\n```"@)
        },
        None => None,
    }
}

/// The markdown of a tool call's raw input.
pub open spec fn input_markdown(raw_input: Option<JsonTree>) -> Option<Seq<char>> {
    match raw_input {
        Some(tree) => input_block(pretty_json(tree)),
        None => None,
    }
}

/// The entry that a kept entry stands for.
pub open spec fn restored(entry: PersistedEntryV2View) -> AgentThreadEntryView {
    match entry {
        PersistedEntryV2View::User(message) => AgentThreadEntryView::UserMessage(
            UserMessageView {
                id: message.id,
                content: markdown_block(message.content_md),
                chunks: message.chunks,
            },
        ),
        PersistedEntryV2View::Assistant(message) => AgentThreadEntryView::AssistantMessage(
            AssistantMessageView {
                chunks: message.chunks.map_values(
                    |chunk: PersistedAssistantChunkView| restored_chunk(chunk),
                ),
                subagent_id: None,
            },
        ),
        PersistedEntryV2View::Tool(call) => AgentThreadEntryView::ToolCall(
            ToolCallView {
                id: call.id,
                label: call.label_md,
                kind: call.kind,
                content: restored_content(call.content),
                status: live_status(call.status),
                locations: Seq::empty(),
                raw_input: call.raw_input,
                raw_input_markdown: input_markdown(call.raw_input),
                raw_output: call.raw_output,
                tool_name: call.tool_name,
                subagent_id: None,
                status_started_at: None,
            },
        ),
        PersistedEntryV2View::Plan(entries) => AgentThreadEntryView::CompletedPlan(
            entries.map_values(|entry: PersistedPlanEntryView| restored_plan_entry(entry)),
        ),
    }
}

/// The end state of a tool call, if it has ended.
fn ended_status(status: &ToolCallStatus) -> (r: Option<TerminalToolCallStatus>)
    ensures
        r == terminal_status(status.deep_view()),
{
    match status {
        ToolCallStatus::Completed => Some(TerminalToolCallStatus::Completed),
        ToolCallStatus::Failed => Some(TerminalToolCallStatus::Failed),
        ToolCallStatus::Rejected => Some(TerminalToolCallStatus::Rejected),
        ToolCallStatus::Canceled => Some(TerminalToolCallStatus::Canceled),
        _ => None,
    }
}

/// What to keep of a live entry. Nothing of a tool call that is still in
/// flight.
pub fn to_persisted(entry: &AgentThreadEntry) -> (r: Option<PersistedEntryV2>)
    ensures
        r.deep_view() == kept(entry.deep_view()),
{
    match entry {
        AgentThreadEntry::UserMessage(message) => Some(
            PersistedEntryV2::User(
                PersistedUserMessage {
                    id: message.id.duplicate(),
                    content_md: message.content.to_markdown().to_owned(),
                    chunks: message.chunks.duplicate(),
                },
            ),
        ),
        AgentThreadEntry::AssistantMessage(message) => {
            let ghost all = message.chunks.deep_view();
            let mut chunks: Vec<PersistedAssistantChunk> = Vec::new();
            let mut i: usize = 0;
            while i < message.chunks.len()
                invariant
                    i <= message.chunks@.len(),
                    all == message.chunks.deep_view(),
                    chunks.deep_view() =~= all.take(i as int).map_values(
                        |chunk: AssistantMessageChunkView| kept_chunk(chunk),
                    ),
                decreases message.chunks@.len() - i,
            {
                assert(all[i as int] == message.chunks@[i as int].deep_view());
                let chunk = match &message.chunks[i] {
                    AssistantMessageChunk::Message { block } => PersistedAssistantChunk::Message(
                        block.to_markdown().to_owned(),
                    ),
                    AssistantMessageChunk::Thought { block } => PersistedAssistantChunk::Thought(
                        block.to_markdown().to_owned(),
                    ),
                };
                push_value(&mut chunks, chunk);
                i += 1;
            }
            assert(all.take(i as int) =~= all);
            Some(PersistedEntryV2::Assistant(PersistedAssistantMessage { chunks }))
        },
        AgentThreadEntry::ToolCall(call) => {
            let status = match ended_status(&call.status) {
                Some(status) => status,
                None => {
                    return None;
                },
            };
            let ghost all = call.content.deep_view();
            let ghost raw = call.deep_view().raw_output;
            let mut content: Vec<PersistedToolCallContent> = Vec::new();
            let mut i: usize = 0;
            while i < call.content.len()
                invariant
                    i <= call.content@.len(),
                    all == call.content.deep_view(),
                    raw == call.deep_view().raw_output,
                    content.deep_view() =~= kept_content(all.take(i as int), raw),
                decreases call.content@.len() - i,
            {
                assert(all[i as int] == call.content@[i as int].deep_view());
                let markdown = tool_call_content_summary(call, &call.content[i]);
                push_value(&mut content, PersistedToolCallContent { markdown });
                i += 1;
            }
            assert(all.take(i as int) =~= all);
            Some(
                PersistedEntryV2::Tool(
                    PersistedToolCall {
                        id: call.id.clone(),
                        label_md: call.label.clone(),
                        kind: call.kind,
                        status,
                        content,
                        raw_input: clone_option_value(&call.raw_input),
                        raw_output: clone_option_value(&call.raw_output),
                        tool_name: call.tool_name.duplicate(),
                        locations: call.locations.duplicate(),
                    },
                ),
            )
        },
        AgentThreadEntry::CompletedPlan(entries) => {
            let ghost all = entries.deep_view();
            let mut items: Vec<PersistedPlanEntry> = Vec::new();
            let mut i: usize = 0;
            while i < entries.len()
                invariant
                    i <= entries@.len(),
                    all == entries.deep_view(),
                    items.deep_view() =~= all.take(i as int).map_values(
                        |entry: PlanEntryView| kept_plan_entry(entry),
                    ),
                decreases entries@.len() - i,
            {
                assert(all[i as int] == entries@[i as int].deep_view());
                let item = PersistedPlanEntry {
                    content_md: entries[i].content.clone(),
                    priority: entries[i].priority,
                    status: entries[i].status,
                };
                push_value(&mut items, item);
                i += 1;
            }
            assert(all.take(i as int) =~= all);
            Some(PersistedEntryV2::Plan(items))
        },
    }
}

/// The markdown of a tool call's printed input, unless it prints as nothing.
pub fn format_input_block(pretty: Option<String>) -> (r: Option<String>)
    ensures
        r.deep_view() == input_block(pretty.deep_view()),
{
    match pretty {
        Some(pretty) => {
            if trim(pretty.as_str()).is_empty() {
                None
            } else {
                let mut out = "```json\n".to_owned();
                out.append(pretty.as_str());
                out.append("\n```");
                Some(out)
            }
        },
        None => None,
    }
}

/// The live entry that a kept entry stands for.
pub fn from_persisted(persisted: PersistedEntryV2) -> (r: AgentThreadEntry)
    ensures
        r.deep_view() == restored(persisted.deep_view()),
{
    match persisted {
        PersistedEntryV2::User(message) => AgentThreadEntry::UserMessage(
            UserMessage {
                id: message.id,
                content: ContentBlock::Markdown { markdown: message.content_md },
                chunks: message.chunks,
            },
        ),
        PersistedEntryV2::Assistant(message) => {
            let ghost all = message.chunks.deep_view();
            let mut chunks: Vec<AssistantMessageChunk> = Vec::new();
            let mut i: usize = 0;
            while i < message.chunks.len()
                invariant
                    i <= message.chunks@.len(),
                    all == message.chunks.deep_view(),
                    chunks.deep_view() =~= all.take(i as int).map_values(
                        |chunk: PersistedAssistantChunkView| restored_chunk(chunk),
                    ),
                decreases message.chunks@.len() - i,
            {
                assert(all[i as int] == message.chunks@[i as int].deep_view());
                let chunk = match &message.chunks[i] {
                    PersistedAssistantChunk::Message(md) => AssistantMessageChunk::Message {
                        block: ContentBlock::Markdown { markdown: md.clone() },
                    },
                    PersistedAssistantChunk::Thought(md) => AssistantMessageChunk::Thought {
                        block: ContentBlock::Markdown { markdown: md.clone() },
                    },
                };
                push_value(&mut chunks, chunk);
                i += 1;
            }
            assert(all.take(i as int) =~= all);
            AgentThreadEntry::AssistantMessage(AssistantMessage { chunks, subagent_id: None })
        },
        PersistedEntryV2::Tool(call) => {
            let status = match call.status {
                TerminalToolCallStatus::Completed => ToolCallStatus::Completed,
                TerminalToolCallStatus::Failed => ToolCallStatus::Failed,
                TerminalToolCallStatus::Rejected => ToolCallStatus::Rejected,
                TerminalToolCallStatus::Canceled => ToolCallStatus::Canceled,
            };
            let raw_input_markdown = match &call.raw_input {
                Some(input) => format_input_block(print_value_pretty(input)),
                None => None,
            };
            let ghost all = call.content.deep_view();
            let mut content: Vec<ToolCallContent> = Vec::new();
            let mut i: usize = 0;
            while i < call.content.len()
                invariant
                    i <= call.content@.len(),
                    all == call.content.deep_view(),
                    content.deep_view() =~= restored_content(all.take(i as int)),
                decreases call.content@.len() - i,
            {
                assert(all[i as int] == call.content@[i as int].deep_view());
                let block = ContentBlock::Formatted { markdown: call.content[i].markdown.clone() };
                push_value(&mut content, ToolCallContent::ContentBlock(block));
                i += 1;
            }
            assert(all.take(i as int) =~= all);
            AgentThreadEntry::ToolCall(
                ToolCall {
                    id: call.id,
                    label: call.label_md,
                    kind: call.kind,
                    content,
                    status,
                    locations: Vec::new(),
                    raw_input: call.raw_input,
                    raw_input_markdown,
                    raw_output: call.raw_output,
                    tool_name: call.tool_name,
                    subagent_id: None,
                    status_started_at: None,
                },
            )
        },
        PersistedEntryV2::Plan(items) => {
            let ghost all = items.deep_view();
            let mut entries: Vec<PlanEntry> = Vec::new();
            let mut i: usize = 0;
            while i < items.len()
                invariant
                    i <= items@.len(),
                    all == items.deep_view(),
                    entries.deep_view() =~= all.take(i as int).map_values(
                        |entry: PersistedPlanEntryView| restored_plan_entry(entry),
                    ),
                decreases items@.len() - i,
            {
                assert(all[i as int] == items@[i as int].deep_view());
                let entry = PlanEntry {
                    content: items[i].content_md.clone(),
                    priority: items[i].priority,
                    status: items[i].status,
                };
                push_value(&mut entries, entry);
                i += 1;
            }
            assert(all.take(i as int) =~= all);
            AgentThreadEntry::CompletedPlan(entries)
        },
    }
}

/// An entry is left out exactly when it is a tool call that has not ended.
pub proof fn law_only_in_flight_calls_are_dropped(entry: AgentThreadEntryView)
    ensures
        kept(entry) is None <==> (entry matches AgentThreadEntryView::ToolCall(call) && (
        call.status is Pending || call.status is WaitingForConfirmation
            || call.status is InProgress)),
{
}

/// A kept entry without the places that a tool call touched.
pub open spec fn without_locations(entry: PersistedEntryV2View) -> PersistedEntryV2View {
    match entry {
        PersistedEntryV2View::Tool(call) => PersistedEntryV2View::Tool(
            PersistedToolCallView { locations: Seq::empty(), ..call },
        ),
        other => other,
    }
}

/// What is kept of a restored entry is what it was restored from, but for the
/// places that a tool call touched.
pub proof fn law_kept_entry_survives_restore(entry: AgentThreadEntryView)
    requires
        kept(entry) is Some,
    ensures
        kept(restored(kept(entry)->0)) == Some(without_locations(kept(entry)->0)),
{
    let frozen = kept(entry)->0;
    match frozen {
        PersistedEntryV2View::User(message) => {},
        PersistedEntryV2View::Assistant(message) => {
            let back = restored(frozen)->AssistantMessage_0;
            assert(back.chunks.map_values(|chunk: AssistantMessageChunkView| kept_chunk(chunk))
                =~= message.chunks);
        },
        PersistedEntryV2View::Tool(call) => {
            let back = restored(frozen)->ToolCall_0;
            assert(terminal_status(back.status) == Some(call.status));
            assert(kept_content(back.content, back.raw_output) =~= call.content);
        },
        PersistedEntryV2View::Plan(entries) => {
            let back = restored(frozen)->CompletedPlan_0;
            assert(back.map_values(|item: PlanEntryView| kept_plan_entry(item)) =~= entries);
        },
    }
}

/// A restored entry shows the same text as the live entry did.
pub proof fn law_restored_entry_shows_the_same(entry: AgentThreadEntryView, hint: Seq<char>)
    requires
        kept(entry) is Some,
    ensures
        spans_of(restored(kept(entry)->0), hint) == spans_of(entry, hint),
{
    let back = restored(kept(entry)->0);
    match entry {
        AgentThreadEntryView::UserMessage(message) => {},
        AgentThreadEntryView::AssistantMessage(message) => {
            lemma_same_chunk_texts(message.chunks, back->AssistantMessage_0.chunks, true);
            lemma_same_chunk_texts(message.chunks, back->AssistantMessage_0.chunks, false);
            lemma_same_answers(message.chunks, back->AssistantMessage_0.chunks);
        },
        AgentThreadEntryView::ToolCall(call) => {
            lemma_same_content_spans(call.content, back->ToolCall_0.content, call.raw_output);
            assert(live_status(terminal_status(call.status)->0) == call.status);
        },
        AgentThreadEntryView::CompletedPlan(entries) => {
            assert(back->CompletedPlan_0 =~= entries);
        },
    }
}

/// Chunks of the same kinds and texts have the same texts.
proof fn lemma_same_chunk_texts(
    a: Seq<AssistantMessageChunkView>,
    b: Seq<AssistantMessageChunkView>,
    thoughts: bool,
)
    requires
        a.len() == b.len(),
        forall|i: int|
            0 <= i < a.len() ==> is_thought(#[trigger] a[i]) == is_thought(b[i]) && chunk_source(a[i])
                == chunk_source(b[i]),
    ensures
        chunk_texts(a, thoughts) == chunk_texts(b, thoughts),
    decreases a.len(),
{
    if a.len() > 0 {
        assert(is_thought(a[a.len() - 1]) == is_thought(b[b.len() - 1]));
        assert forall|i: int| 0 <= i < a.drop_last().len() implies is_thought(
            #[trigger] a.drop_last()[i],
        ) == is_thought(b.drop_last()[i]) && chunk_source(a.drop_last()[i]) == chunk_source(
            b.drop_last()[i],
        ) by {
            assert(is_thought(a[i]) == is_thought(b[i]));
        }
        lemma_same_chunk_texts(a.drop_last(), b.drop_last(), thoughts);
    }
}

/// Chunks of the same kinds hold an answer or not alike.
proof fn lemma_same_answers(a: Seq<AssistantMessageChunkView>, b: Seq<AssistantMessageChunkView>)
    requires
        a.len() == b.len(),
        forall|i: int| 0 <= i < a.len() ==> is_thought(#[trigger] a[i]) == is_thought(b[i]),
    ensures
        has_answer(a) == has_answer(b),
{
    if has_answer(a) {
        let i = choose|i: int| 0 <= i < a.len() && #[trigger] a[i] is Message;
        assert(is_thought(a[i]) == is_thought(b[i]));
        assert(b[i] is Message);
    }
    if has_answer(b) {
        let i = choose|i: int| 0 <= i < b.len() && #[trigger] b[i] is Message;
        assert(is_thought(a[i]) == is_thought(b[i]));
        assert(a[i] is Message);
    }
}

/// Items with the same summaries have the same spans.
proof fn lemma_same_content_spans(
    a: Seq<ToolCallContentView>,
    b: Seq<ToolCallContentView>,
    raw: Option<JsonTree>,
)
    requires
        a.len() == b.len(),
        forall|i: int|
            0 <= i < a.len() ==> content_summary(#[trigger] b[i], raw) == content_summary(a[i], raw),
    ensures
        content_spans(a, raw) == content_spans(b, raw),
    decreases a.len(),
{
    if a.len() > 0 {
        assert(content_summary(b[b.len() - 1], raw) == content_summary(a[a.len() - 1], raw));
        assert forall|i: int| 0 <= i < a.drop_last().len() implies content_summary(
            #[trigger] b.drop_last()[i],
            raw,
        ) == content_summary(a.drop_last()[i], raw) by {
            assert(content_summary(b[i], raw) == content_summary(a[i], raw));
        }
        lemma_same_content_spans(a.drop_last(), b.drop_last(), raw);
    }
}

} // verus!
