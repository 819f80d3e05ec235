//! The conversation of a session as plain data: what was said, which tools
//! were called and what the user was asked to allow.
use crate::clock::Timestamp;
use crate::duplicate::Duplicate;
use crate::json::{clone_value, value_tree, JsonTree};
use vstd::prelude::*;

verus! {

/// The tree of an optional JSON value.
pub open spec fn option_tree(value: Option<serde_json::Value>) -> Option<JsonTree> {
    match value {
        Some(value) => Some(value_tree(value)),
        None => None,
    }
}

/// A copy of an optional JSON value.
pub fn clone_option_value(value: &Option<serde_json::Value>) -> (r: Option<serde_json::Value>)
    ensures
        option_tree(r) == option_tree(*value),
{
    match value {
        Some(value) => Some(clone_value(value)),
        None => None,
    }
}

/// The payload of one block of a user prompt.
#[derive(Clone, Debug, PartialEq, Eq)]
pub enum PromptContent {
    /// Plain text.
    Text(String),
    /// An inline image: base64 data and its media type.
    Image { data: String, mime_type: String },
    /// Any other block, in its JSON form.
    Other(String),
}

/// What a [`PromptContent`] stands for.
#[verifier::ext_equal]
pub enum PromptContentView {
    Text(Seq<char>),
    Image { data: Seq<char>, mime_type: Seq<char> },
    Other(Seq<char>),
}

impl DeepView for PromptContent {
    type V = PromptContentView;

    open spec fn deep_view(&self) -> PromptContentView {
        match self {
            PromptContent::Text(value) => PromptContentView::Text(value.deep_view()),
            PromptContent::Image { data, mime_type } => PromptContentView::Image {
                data: data.deep_view(),
                mime_type: mime_type.deep_view(),
            },
            PromptContent::Other(value) => PromptContentView::Other(value.deep_view()),
        }
    }
}

impl Duplicate for PromptContent {
    fn duplicate(&self) -> (r: Self) {
        match self {
            PromptContent::Text(value) => PromptContent::Text(value.duplicate()),
            PromptContent::Image { data, mime_type } => PromptContent::Image {
                data: data.duplicate(),
                mime_type: mime_type.duplicate(),
            },
            PromptContent::Other(value) => PromptContent::Other(value.duplicate()),
        }
    }
}

/// One block of a user prompt.
#[derive(Clone, Debug, PartialEq, Eq)]
pub struct PromptBlock {
    pub content: PromptContent,
    /// The stamp of the client that sent the block, if it left one.
    pub client_send_id: Option<i64>,
    /// Whatever else came with a text or an image, in its JSON form. It is handed on
    /// as it is.
    pub extra: Option<String>,
}

/// What a [`PromptBlock`] stands for.
#[verifier::ext_equal]
pub struct PromptBlockView {
    pub content: PromptContentView,
    pub client_send_id: Option<i64>,
    pub extra: Option<Seq<char>>,
}

impl DeepView for PromptBlock {
    type V = PromptBlockView;

    open spec fn deep_view(&self) -> PromptBlockView {
        PromptBlockView {
            content: self.content.deep_view(),
            client_send_id: self.client_send_id,
            extra: self.extra.deep_view(),
        }
    }
}

impl Duplicate for PromptBlock {
    fn duplicate(&self) -> (r: Self) {
        PromptBlock {
            content: self.content.duplicate(),
            client_send_id: self.client_send_id,
            extra: self.extra.duplicate(),
        }
    }
}

/// A decoded image.
#[derive(Clone, Debug)]
pub struct ImageData {
    pub mime_type: String,
    pub bytes: Vec<u8>,
}

/// What a [`ImageData`] stands for.
#[verifier::ext_equal]
pub struct ImageDataView {
    pub mime_type: Seq<char>,
    pub bytes: Seq<u8>,
}

impl DeepView for ImageData {
    type V = ImageDataView;

    open spec fn deep_view(&self) -> ImageDataView {
        ImageDataView {
            mime_type: self.mime_type.deep_view(),
            bytes: self.bytes.deep_view(),
        }
    }
}

/// A rendered block of content. `markdown` is the markdown source it renders to.
#[derive(Clone, Debug)]
pub enum ContentBlock {
    Markdown { markdown: String },
    Image { markdown: String, image: ImageData },
    /// Tool output as it was formatted before, when it was kept.
    Formatted { markdown: String },
}

/// What a [`ContentBlock`] stands for.
#[verifier::ext_equal]
pub enum ContentBlockView {
    Markdown { markdown: Seq<char> },
    Image { markdown: Seq<char>, image: ImageDataView },
    Formatted { markdown: Seq<char> },
}

impl DeepView for ContentBlock {
    type V = ContentBlockView;

    open spec fn deep_view(&self) -> ContentBlockView {
        match self {
            ContentBlock::Markdown { markdown } => ContentBlockView::Markdown {
                markdown: markdown.deep_view(),
            },
            ContentBlock::Image { markdown, image } => ContentBlockView::Image {
                markdown: markdown.deep_view(),
                image: image.deep_view(),
            },
            ContentBlock::Formatted { markdown } => ContentBlockView::Formatted {
                markdown: markdown.deep_view(),
            },
        }
    }
}

impl ContentBlockView {
    /// The markdown source that the block renders to.
    pub open spec fn source(self) -> Seq<char> {
        match self {
            ContentBlockView::Markdown { markdown } => markdown,
            ContentBlockView::Image { markdown, .. } => markdown,
            ContentBlockView::Formatted { markdown } => markdown,
        }
    }
}

impl ContentBlock {
    /// The markdown source that the block renders to.
    pub fn to_markdown(&self) -> (r: &str)
        ensures
            r@ == self.deep_view().source(),
    {
        match self {
            ContentBlock::Markdown { markdown } => markdown.as_str(),
            ContentBlock::Image { markdown, .. } => markdown.as_str(),
            ContentBlock::Formatted { markdown } => markdown.as_str(),
        }
    }
}

/// What sort of work a tool does.
#[derive(Clone, Copy, Debug, PartialEq, Eq, Structural)]
pub enum ToolKind {
    Read,
    Edit,
    Delete,
    Move,
    Search,
    Execute,
    Think,
    Fetch,
    SwitchMode,
    Other,
}

impl DeepView for ToolKind {
    type V = ToolKind;

    open spec fn deep_view(&self) -> ToolKind {
        *self
    }
}

/// How much a plan item matters.
#[derive(Clone, Copy, Debug, PartialEq, Eq, Structural)]
pub enum PlanEntryPriority {
    High,
    Medium,
    Low,
}

impl DeepView for PlanEntryPriority {
    type V = PlanEntryPriority;

    open spec fn deep_view(&self) -> PlanEntryPriority {
        *self
    }
}

/// How far a plan item has come.
#[derive(Clone, Copy, Debug, PartialEq, Eq, Structural)]
pub enum PlanEntryStatus {
    Pending,
    InProgress,
    Completed,
}

impl DeepView for PlanEntryStatus {
    type V = PlanEntryStatus;

    open spec fn deep_view(&self) -> PlanEntryStatus {
        *self
    }
}

/// The flavour of an answer to a permission request. `Other` is one that this
/// version does not know.
#[derive(Clone, Copy, Debug, PartialEq, Eq, Structural)]
pub enum PermissionOptionKind {
    AllowOnce,
    AllowAlways,
    RejectOnce,
    RejectAlways,
    Other,
}

impl DeepView for PermissionOptionKind {
    type V = PermissionOptionKind;

    open spec fn deep_view(&self) -> PermissionOptionKind {
        *self
    }
}

/// A place in a file that a tool call touches.
#[derive(Clone, Debug)]
pub struct ToolCallLocation {
    pub path: String,
    pub line: Option<u32>,
}

/// What a [`ToolCallLocation`] stands for.
#[verifier::ext_equal]
pub struct ToolCallLocationView {
    pub path: Seq<char>,
    pub line: Option<u32>,
}

impl DeepView for ToolCallLocation {
    type V = ToolCallLocationView;

    open spec fn deep_view(&self) -> ToolCallLocationView {
        ToolCallLocationView {
            path: self.path.deep_view(),
            line: self.line,
        }
    }
}

impl Duplicate for ToolCallLocation {
    fn duplicate(&self) -> (r: Self) {
        ToolCallLocation {
            path: self.path.duplicate(),
            line: self.line,
        }
    }
}

/// One answer that the agent offers to a permission request.
#[derive(Clone, Debug)]
pub struct PermissionOption {
    pub option_id: String,
    pub name: String,
    pub kind: PermissionOptionKind,
}

/// What a [`PermissionOption`] stands for.
#[verifier::ext_equal]
pub struct PermissionOptionView {
    pub option_id: Seq<char>,
    pub name: Seq<char>,
    pub kind: PermissionOptionKind,
}

impl DeepView for PermissionOption {
    type V = PermissionOptionView;

    open spec fn deep_view(&self) -> PermissionOptionView {
        PermissionOptionView {
            option_id: self.option_id.deep_view(),
            name: self.name.deep_view(),
            kind: self.kind,
        }
    }
}

/// A pair of answers that apply to the same command patterns.
#[derive(Clone, Debug)]
pub struct PermissionOptionChoice {
    pub allow: PermissionOption,
    pub deny: PermissionOption,
    pub sub_patterns: Vec<String>,
}

/// What a [`PermissionOptionChoice`] stands for.
#[verifier::ext_equal]
pub struct PermissionOptionChoiceView {
    pub allow: PermissionOptionView,
    pub deny: PermissionOptionView,
    pub sub_patterns: Seq<Seq<char>>,
}

impl DeepView for PermissionOptionChoice {
    type V = PermissionOptionChoiceView;

    open spec fn deep_view(&self) -> PermissionOptionChoiceView {
        PermissionOptionChoiceView {
            allow: self.allow.deep_view(),
            deny: self.deny.deep_view(),
            sub_patterns: self.sub_patterns.deep_view(),
        }
    }
}

/// The answers that the agent offers, in one of three layouts.
#[derive(Clone, Debug)]
pub enum PermissionOptions {
    Flat(Vec<PermissionOption>),
    Dropdown(Vec<PermissionOptionChoice>),
    DropdownWithPatterns { choices: Vec<PermissionOptionChoice>, patterns: Vec<String> },
}

/// What a [`PermissionOptions`] stands for.
#[verifier::ext_equal]
pub enum PermissionOptionsView {
    Flat(Seq<PermissionOptionView>),
    Dropdown(Seq<PermissionOptionChoiceView>),
    DropdownWithPatterns { choices: Seq<PermissionOptionChoiceView>, patterns: Seq<Seq<char>> },
}

impl DeepView for PermissionOptions {
    type V = PermissionOptionsView;

    open spec fn deep_view(&self) -> PermissionOptionsView {
        match self {
            PermissionOptions::Flat(value) => PermissionOptionsView::Flat(value.deep_view()),
            PermissionOptions::Dropdown(value) => PermissionOptionsView::Dropdown(
                value.deep_view(),
            ),
            PermissionOptions::DropdownWithPatterns { choices, patterns } => PermissionOptionsView::DropdownWithPatterns {
                choices: choices.deep_view(),
                patterns: patterns.deep_view(),
            },
        }
    }
}

/// How far a tool call has come.
#[derive(Clone, Debug)]
pub enum ToolCallStatus {
    Pending,
    /// The agent waits for the user to pick one of `options`.
    WaitingForConfirmation { options: PermissionOptions },
    InProgress,
    Completed,
    Failed,
    Rejected,
    Canceled,
}

/// What a [`ToolCallStatus`] stands for.
#[verifier::ext_equal]
pub enum ToolCallStatusView {
    Pending,
    WaitingForConfirmation { options: PermissionOptionsView },
    InProgress,
    Completed,
    Failed,
    Rejected,
    Canceled,
}

impl DeepView for ToolCallStatus {
    type V = ToolCallStatusView;

    open spec fn deep_view(&self) -> ToolCallStatusView {
        match self {
            ToolCallStatus::Pending => ToolCallStatusView::Pending,
            ToolCallStatus::WaitingForConfirmation { options } => ToolCallStatusView::WaitingForConfirmation {
                options: options.deep_view(),
            },
            ToolCallStatus::InProgress => ToolCallStatusView::InProgress,
            ToolCallStatus::Completed => ToolCallStatusView::Completed,
            ToolCallStatus::Failed => ToolCallStatusView::Failed,
            ToolCallStatus::Rejected => ToolCallStatusView::Rejected,
            ToolCallStatus::Canceled => ToolCallStatusView::Canceled,
        }
    }
}

/// A change to a file: its path, if known, and the unified diff.
#[derive(Clone, Debug)]
pub struct Diff {
    pub path: Option<String>,
    pub unified: String,
}

/// What a [`Diff`] stands for.
#[verifier::ext_equal]
pub struct DiffView {
    pub path: Option<Seq<char>>,
    pub unified: Seq<char>,
}

impl DeepView for Diff {
    type V = DiffView;

    open spec fn deep_view(&self) -> DiffView {
        DiffView {
            path: self.path.deep_view(),
            unified: self.unified.deep_view(),
        }
    }
}

/// A terminal: the captured output of a finished command, and what the screen shows.
#[derive(Clone, Debug)]
pub struct Terminal {
    pub output: Option<String>,
    pub screen: String,
}

/// What a [`Terminal`] stands for.
#[verifier::ext_equal]
pub struct TerminalView {
    pub output: Option<Seq<char>>,
    pub screen: Seq<char>,
}

impl DeepView for Terminal {
    type V = TerminalView;

    open spec fn deep_view(&self) -> TerminalView {
        TerminalView {
            output: self.output.deep_view(),
            screen: self.screen.deep_view(),
        }
    }
}

/// One item of what a tool call produced.
#[derive(Clone, Debug)]
pub enum ToolCallContent {
    ContentBlock(ContentBlock),
    Diff(Diff),
    Terminal(Terminal),
}

/// What a [`ToolCallContent`] stands for.
#[verifier::ext_equal]
pub enum ToolCallContentView {
    ContentBlock(ContentBlockView),
    Diff(DiffView),
    Terminal(TerminalView),
}

impl DeepView for ToolCallContent {
    type V = ToolCallContentView;

    open spec fn deep_view(&self) -> ToolCallContentView {
        match self {
            ToolCallContent::ContentBlock(value) => ToolCallContentView::ContentBlock(
                value.deep_view(),
            ),
            ToolCallContent::Diff(value) => ToolCallContentView::Diff(value.deep_view()),
            ToolCallContent::Terminal(value) => ToolCallContentView::Terminal(value.deep_view()),
        }
    }
}

/// A message of the user.
#[derive(Clone, Debug)]
pub struct UserMessage {
    pub id: Option<String>,
    pub content: ContentBlock,
    /// The blocks as the user submitted them.
    pub chunks: Vec<PromptBlock>,
}

/// What a [`UserMessage`] stands for.
#[verifier::ext_equal]
pub struct UserMessageView {
    pub id: Option<Seq<char>>,
    pub content: ContentBlockView,
    pub chunks: Seq<PromptBlockView>,
}

impl DeepView for UserMessage {
    type V = UserMessageView;

    open spec fn deep_view(&self) -> UserMessageView {
        UserMessageView {
            id: self.id.deep_view(),
            content: self.content.deep_view(),
            chunks: self.chunks.deep_view(),
        }
    }
}

/// A piece of an assistant message.
#[derive(Clone, Debug)]
pub enum AssistantMessageChunk {
    Message { block: ContentBlock },
    Thought { block: ContentBlock },
}

/// What a [`AssistantMessageChunk`] stands for.
#[verifier::ext_equal]
pub enum AssistantMessageChunkView {
    Message { block: ContentBlockView },
    Thought { block: ContentBlockView },
}

impl DeepView for AssistantMessageChunk {
    type V = AssistantMessageChunkView;

    open spec fn deep_view(&self) -> AssistantMessageChunkView {
        match self {
            AssistantMessageChunk::Message { block } => AssistantMessageChunkView::Message {
                block: block.deep_view(),
            },
            AssistantMessageChunk::Thought { block } => AssistantMessageChunkView::Thought {
                block: block.deep_view(),
            },
        }
    }
}

/// A message of the assistant.
#[derive(Clone, Debug)]
pub struct AssistantMessage {
    pub chunks: Vec<AssistantMessageChunk>,
    /// The sub-agent that wrote it, if one did.
    pub subagent_id: Option<String>,
}

/// What a [`AssistantMessage`] stands for.
#[verifier::ext_equal]
pub struct AssistantMessageView {
    pub chunks: Seq<AssistantMessageChunkView>,
    pub subagent_id: Option<Seq<char>>,
}

impl DeepView for AssistantMessage {
    type V = AssistantMessageView;

    open spec fn deep_view(&self) -> AssistantMessageView {
        AssistantMessageView {
            chunks: self.chunks.deep_view(),
            subagent_id: self.subagent_id.deep_view(),
        }
    }
}

/// A tool call of the assistant.
#[derive(Clone, Debug)]
pub struct ToolCall {
    pub id: String,
    /// Markdown source of the title.
    pub label: String,
    pub kind: ToolKind,
    pub content: Vec<ToolCallContent>,
    pub status: ToolCallStatus,
    pub locations: Vec<ToolCallLocation>,
    pub raw_input: Option<serde_json::Value>,
    pub raw_input_markdown: Option<String>,
    pub raw_output: Option<serde_json::Value>,
    pub tool_name: Option<String>,
    /// The sub-agent that made it, if one did.
    pub subagent_id: Option<String>,
    /// When the call last went into progress.
    pub status_started_at: Option<Timestamp>,
}

/// What a [`ToolCall`] stands for.
#[verifier::ext_equal]
pub struct ToolCallView {
    pub id: Seq<char>,
    pub label: Seq<char>,
    pub kind: ToolKind,
    pub content: Seq<ToolCallContentView>,
    pub status: ToolCallStatusView,
    pub locations: Seq<ToolCallLocationView>,
    pub raw_input: Option<JsonTree>,
    pub raw_input_markdown: Option<Seq<char>>,
    pub raw_output: Option<JsonTree>,
    pub tool_name: Option<Seq<char>>,
    pub subagent_id: Option<Seq<char>>,
    pub status_started_at: Option<Timestamp>,
}

impl DeepView for ToolCall {
    type V = ToolCallView;

    open spec fn deep_view(&self) -> ToolCallView {
        ToolCallView {
            id: self.id.deep_view(),
            label: self.label.deep_view(),
            kind: self.kind,
            content: self.content.deep_view(),
            status: self.status.deep_view(),
            locations: self.locations.deep_view(),
            raw_input: option_tree(self.raw_input),
            raw_input_markdown: self.raw_input_markdown.deep_view(),
            raw_output: option_tree(self.raw_output),
            tool_name: self.tool_name.deep_view(),
            subagent_id: self.subagent_id.deep_view(),
            status_started_at: self.status_started_at,
        }
    }
}

/// One item of a plan.
#[derive(Clone, Debug)]
pub struct PlanEntry {
    /// Markdown source.
    pub content: String,
    pub priority: PlanEntryPriority,
    pub status: PlanEntryStatus,
}

/// What a [`PlanEntry`] stands for.
#[verifier::ext_equal]
pub struct PlanEntryView {
    pub content: Seq<char>,
    pub priority: PlanEntryPriority,
    pub status: PlanEntryStatus,
}

impl DeepView for PlanEntry {
    type V = PlanEntryView;

    open spec fn deep_view(&self) -> PlanEntryView {
        PlanEntryView {
            content: self.content.deep_view(),
            priority: self.priority,
            status: self.status,
        }
    }
}

/// One entry of a conversation.
#[derive(Clone, Debug)]
pub enum AgentThreadEntry {
    UserMessage(UserMessage),
    AssistantMessage(AssistantMessage),
    ToolCall(ToolCall),
    CompletedPlan(Vec<PlanEntry>),
}

/// What a [`AgentThreadEntry`] stands for.
#[verifier::ext_equal]
pub enum AgentThreadEntryView {
    UserMessage(UserMessageView),
    AssistantMessage(AssistantMessageView),
    ToolCall(ToolCallView),
    CompletedPlan(Seq<PlanEntryView>),
}

impl DeepView for AgentThreadEntry {
    type V = AgentThreadEntryView;

    open spec fn deep_view(&self) -> AgentThreadEntryView {
        match self {
            AgentThreadEntry::UserMessage(value) => AgentThreadEntryView::UserMessage(
                value.deep_view(),
            ),
            AgentThreadEntry::AssistantMessage(value) => AgentThreadEntryView::AssistantMessage(
                value.deep_view(),
            ),
            AgentThreadEntry::ToolCall(value) => AgentThreadEntryView::ToolCall(value.deep_view()),
            AgentThreadEntry::CompletedPlan(value) => AgentThreadEntryView::CompletedPlan(
                value.deep_view(),
            ),
        }
    }
}

impl AgentThreadEntryView {
    /// The sub-agent that the entry is attributed to.
    pub open spec fn subagent_id(self) -> Option<Seq<char>> {
        match self {
            AgentThreadEntryView::AssistantMessage(message) => message.subagent_id,
            AgentThreadEntryView::ToolCall(call) => call.subagent_id,
            _ => None,
        }
    }
}

impl AgentThreadEntry {
    /// The sub-agent that the entry is attributed to.
    pub fn subagent_id(&self) -> (r: Option<String>)
        ensures
            r.deep_view() == self.deep_view().subagent_id(),
    {
        match self {
            AgentThreadEntry::AssistantMessage(message) => message.subagent_id.duplicate(),
            AgentThreadEntry::ToolCall(call) => call.subagent_id.duplicate(),
            _ => None,
        }
    }
}

} // verus!
