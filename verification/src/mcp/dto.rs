//! The wire shapes: what clients send and what they get back.
use crate::thread::PromptBlock;
use vstd::prelude::*;

verus! {

/// The answer of a tool: a line of text and the structured result.
#[derive(Clone, Debug)]
pub struct ToolResponse<T> {
    pub text: String,
    pub result: T,
}

/// What a session is doing, with the wall-clock time in milliseconds at which it
/// started where that matters.
#[derive(Clone, Debug, PartialEq)]
pub enum SessionStateDto {
    Idle,
    Running { started_at_ms: i64 },
    Stopping { started_at_ms: i64 },
    AwaitingInput,
    Errored { message: String },
}

/// What a [`SessionStateDto`] stands for.
#[verifier::ext_equal]
pub enum SessionStateDtoView {
    Idle,
    Running { started_at_ms: i64 },
    Stopping { started_at_ms: i64 },
    AwaitingInput,
    Errored { message: Seq<char> },
}

impl DeepView for SessionStateDto {
    type V = SessionStateDtoView;

    open spec fn deep_view(&self) -> SessionStateDtoView {
        match self {
            SessionStateDto::Idle => SessionStateDtoView::Idle,
            SessionStateDto::Running { started_at_ms } => SessionStateDtoView::Running {
                started_at_ms: *started_at_ms,
            },
            SessionStateDto::Stopping { started_at_ms } => SessionStateDtoView::Stopping {
                started_at_ms: *started_at_ms,
            },
            SessionStateDto::AwaitingInput => SessionStateDtoView::AwaitingInput,
            SessionStateDto::Errored { message } => SessionStateDtoView::Errored {
                message: message.deep_view(),
            },
        }
    }
}

/// A sub-agent at work.
#[derive(Clone, Debug)]
pub struct SubagentDto {
    pub id: String,
    pub label: String,
    pub started_at_ms: i64,
}

/// What a [`SubagentDto`] stands for.
#[verifier::ext_equal]
pub struct SubagentDtoView {
    pub id: Seq<char>,
    pub label: Seq<char>,
    pub started_at_ms: i64,
}

impl DeepView for SubagentDto {
    type V = SubagentDtoView;

    open spec fn deep_view(&self) -> SubagentDtoView {
        SubagentDtoView {
            id: self.id.deep_view(),
            label: self.label.deep_view(),
            started_at_ms: self.started_at_ms,
        }
    }
}

/// What a client is told of a session.
#[derive(Clone, Debug)]
pub struct SessionSummary {
    pub id: String,
    pub solution_id: String,
    pub agent_id: String,
    pub title: String,
    pub state: SessionStateDto,
    pub created_at: i64,
    pub last_activity_at: i64,
    /// Tokens used so far, where known.
    pub total_tokens: Option<u64>,
    /// Size of the context window, where known.
    pub max_tokens: Option<u64>,
    pub parent_session_id: Option<String>,
    pub acp_session_id: String,
    /// The working directory, unless it is the root of the solution.
    pub cwd: Option<String>,
    pub active_subagents: Vec<SubagentDto>,
}

/// What a [`SessionSummary`] stands for.
#[verifier::ext_equal]
pub struct SessionSummaryView {
    pub id: Seq<char>,
    pub solution_id: Seq<char>,
    pub agent_id: Seq<char>,
    pub title: Seq<char>,
    pub state: SessionStateDtoView,
    pub created_at: i64,
    pub last_activity_at: i64,
    pub total_tokens: Option<u64>,
    pub max_tokens: Option<u64>,
    pub parent_session_id: Option<Seq<char>>,
    pub acp_session_id: Seq<char>,
    pub cwd: Option<Seq<char>>,
    pub active_subagents: Seq<SubagentDtoView>,
}

impl DeepView for SessionSummary {
    type V = SessionSummaryView;

    open spec fn deep_view(&self) -> SessionSummaryView {
        SessionSummaryView {
            id: self.id.deep_view(),
            solution_id: self.solution_id.deep_view(),
            agent_id: self.agent_id.deep_view(),
            title: self.title.deep_view(),
            state: self.state.deep_view(),
            created_at: self.created_at,
            last_activity_at: self.last_activity_at,
            total_tokens: self.total_tokens,
            max_tokens: self.max_tokens,
            parent_session_id: self.parent_session_id.deep_view(),
            acp_session_id: self.acp_session_id.deep_view(),
            cwd: self.cwd.deep_view(),
            active_subagents: self.active_subagents.deep_view(),
        }
    }
}

/// A background shell. The output is there only where it was asked for.
#[derive(Clone, Debug)]
pub struct BackgroundShellDto {
    pub id: String,
    pub command: String,
    pub state: String,
    pub mtime_ms: Option<i64>,
    pub output_tail: Option<String>,
}

/// What a [`BackgroundShellDto`] stands for.
#[verifier::ext_equal]
pub struct BackgroundShellDtoView {
    pub id: Seq<char>,
    pub command: Seq<char>,
    pub state: Seq<char>,
    pub mtime_ms: Option<i64>,
    pub output_tail: Option<Seq<char>>,
}

impl DeepView for BackgroundShellDto {
    type V = BackgroundShellDtoView;

    open spec fn deep_view(&self) -> BackgroundShellDtoView {
        BackgroundShellDtoView {
            id: self.id.deep_view(),
            command: self.command.deep_view(),
            state: self.state.deep_view(),
            mtime_ms: self.mtime_ms,
            output_tail: self.output_tail.deep_view(),
        }
    }
}

/// A managed agent.
#[derive(Clone, Debug)]
pub struct BackgroundAgentDto {
    pub id: String,
    pub label: String,
    pub mtime_ms: Option<i64>,
    pub stop_reason: Option<String>,
}

/// What a [`BackgroundAgentDto`] stands for.
#[verifier::ext_equal]
pub struct BackgroundAgentDtoView {
    pub id: Seq<char>,
    pub label: Seq<char>,
    pub mtime_ms: Option<i64>,
    pub stop_reason: Option<Seq<char>>,
}

impl DeepView for BackgroundAgentDto {
    type V = BackgroundAgentDtoView;

    open spec fn deep_view(&self) -> BackgroundAgentDtoView {
        BackgroundAgentDtoView {
            id: self.id.deep_view(),
            label: self.label.deep_view(),
            mtime_ms: self.mtime_ms,
            stop_reason: self.stop_reason.deep_view(),
        }
    }
}

/// An agent that sessions can be created with.
#[derive(Clone, Debug)]
pub struct AgentSummary {
    pub id: String,
    pub display_name: String,
}

/// What a [`AgentSummary`] stands for.
#[verifier::ext_equal]
pub struct AgentSummaryView {
    pub id: Seq<char>,
    pub display_name: Seq<char>,
}

impl DeepView for AgentSummary {
    type V = AgentSummaryView;

    open spec fn deep_view(&self) -> AgentSummaryView {
        AgentSummaryView {
            id: self.id.deep_view(),
            display_name: self.display_name.deep_view(),
        }
    }
}

/// Who an entry is from.
#[derive(Clone, Copy, Debug, PartialEq, Eq, Structural)]
pub enum EntryRoleDto {
    User,
    Assistant,
    ToolCall,
    Plan,
}

impl DeepView for EntryRoleDto {
    type V = EntryRoleDto;

    open spec fn deep_view(&self) -> EntryRoleDto {
        *self
    }
}

/// How far a tool call has come.
#[derive(Clone, Copy, Debug, PartialEq, Eq, Structural)]
pub enum ToolCallStatusDto {
    Pending,
    WaitingForConfirmation,
    Running,
    Done,
    Failed,
    Rejected,
    Canceled,
}

impl DeepView for ToolCallStatusDto {
    type V = ToolCallStatusDto;

    open spec fn deep_view(&self) -> ToolCallStatusDto {
        *self
    }
}

/// An image of an entry, numbered over the whole session.
#[derive(Clone, Debug)]
pub struct EntryImage {
    pub index: usize,
    pub mime_type: String,
    pub data_base64: String,
}

/// What a [`EntryImage`] stands for.
#[verifier::ext_equal]
pub struct EntryImageView {
    pub index: usize,
    pub mime_type: Seq<char>,
    pub data_base64: Seq<char>,
}

impl DeepView for EntryImage {
    type V = EntryImageView;

    open spec fn deep_view(&self) -> EntryImageView {
        EntryImageView {
            index: self.index,
            mime_type: self.mime_type.deep_view(),
            data_base64: self.data_base64.deep_view(),
        }
    }
}

/// An answer to a permission request.
#[derive(Clone, Debug)]
pub struct ToolCallAuthOption {
    pub option_id: String,
    pub label: String,
    pub kind: String,
    pub is_allow: bool,
}

/// What a [`ToolCallAuthOption`] stands for.
#[verifier::ext_equal]
pub struct ToolCallAuthOptionView {
    pub option_id: Seq<char>,
    pub label: Seq<char>,
    pub kind: Seq<char>,
    pub is_allow: bool,
}

impl DeepView for ToolCallAuthOption {
    type V = ToolCallAuthOptionView;

    open spec fn deep_view(&self) -> ToolCallAuthOptionView {
        ToolCallAuthOptionView {
            option_id: self.option_id.deep_view(),
            label: self.label.deep_view(),
            kind: self.kind.deep_view(),
            is_allow: self.is_allow,
        }
    }
}

/// What a client is told of a tool call.
#[derive(Clone, Debug)]
pub struct ToolCallSummary {
    pub tool_call_id: String,
    pub name: String,
    pub status: ToolCallStatusDto,
    pub args_preview: String,
    pub result_preview: String,
    pub tool_status_started_at_ms: Option<i64>,
    /// The answers on offer while the call waits for one.
    pub options: Vec<ToolCallAuthOption>,
}

/// What a [`ToolCallSummary`] stands for.
#[verifier::ext_equal]
pub struct ToolCallSummaryView {
    pub tool_call_id: Seq<char>,
    pub name: Seq<char>,
    pub status: ToolCallStatusDto,
    pub args_preview: Seq<char>,
    pub result_preview: Seq<char>,
    pub tool_status_started_at_ms: Option<i64>,
    pub options: Seq<ToolCallAuthOptionView>,
}

impl DeepView for ToolCallSummary {
    type V = ToolCallSummaryView;

    open spec fn deep_view(&self) -> ToolCallSummaryView {
        ToolCallSummaryView {
            tool_call_id: self.tool_call_id.deep_view(),
            name: self.name.deep_view(),
            status: self.status,
            args_preview: self.args_preview.deep_view(),
            result_preview: self.result_preview.deep_view(),
            tool_status_started_at_ms: self.tool_status_started_at_ms,
            options: self.options.deep_view(),
        }
    }
}

/// The items of a plan.
#[derive(Clone, Debug)]
pub struct PlanSummary {
    pub items: Vec<String>,
}

/// What a [`PlanSummary`] stands for.
#[verifier::ext_equal]
pub struct PlanSummaryView {
    pub items: Seq<Seq<char>>,
}

impl DeepView for PlanSummary {
    type V = PlanSummaryView;

    open spec fn deep_view(&self) -> PlanSummaryView {
        PlanSummaryView {
            items: self.items.deep_view(),
        }
    }
}

/// What a client is told of an entry.
#[derive(Clone, Debug)]
pub struct EntrySummary {
    pub role: EntryRoleDto,
    /// Position in the session.
    pub index: usize,
    pub preview: String,
    /// The whole text, where it was asked for.
    pub markdown: Option<String>,
    /// The images, where they were asked for.
    pub images: Option<Vec<EntryImage>>,
    pub tool_call: Option<ToolCallSummary>,
    pub plan: Option<PlanSummary>,
    pub client_send_id: Option<i64>,
    pub client_send_ids: Vec<i64>,
    pub created_ms: Option<i64>,
    pub subagent_id: Option<String>,
}

/// What a [`EntrySummary`] stands for.
#[verifier::ext_equal]
pub struct EntrySummaryView {
    pub role: EntryRoleDto,
    pub index: usize,
    pub preview: Seq<char>,
    pub markdown: Option<Seq<char>>,
    pub images: Option<Seq<EntryImageView>>,
    pub tool_call: Option<ToolCallSummaryView>,
    pub plan: Option<PlanSummaryView>,
    pub client_send_id: Option<i64>,
    pub client_send_ids: Seq<i64>,
    pub created_ms: Option<i64>,
    pub subagent_id: Option<Seq<char>>,
}

impl DeepView for EntrySummary {
    type V = EntrySummaryView;

    open spec fn deep_view(&self) -> EntrySummaryView {
        EntrySummaryView {
            role: self.role,
            index: self.index,
            preview: self.preview.deep_view(),
            markdown: self.markdown.deep_view(),
            images: self.images.deep_view(),
            tool_call: self.tool_call.deep_view(),
            plan: self.plan.deep_view(),
            client_send_id: self.client_send_id,
            client_send_ids: self.client_send_ids.deep_view(),
            created_ms: self.created_ms,
            subagent_id: self.subagent_id.deep_view(),
        }
    }
}

/// A message that waits until the agent is free.
#[derive(Clone, Debug)]
pub struct QueuedBundleSummary {
    pub csids: Vec<i64>,
    pub preview: String,
    pub image_count: u32,
}

/// What a [`QueuedBundleSummary`] stands for.
#[verifier::ext_equal]
pub struct QueuedBundleSummaryView {
    pub csids: Seq<i64>,
    pub preview: Seq<char>,
    pub image_count: u32,
}

impl DeepView for QueuedBundleSummary {
    type V = QueuedBundleSummaryView;

    open spec fn deep_view(&self) -> QueuedBundleSummaryView {
        QueuedBundleSummaryView {
            csids: self.csids.deep_view(),
            preview: self.preview.deep_view(),
            image_count: self.image_count,
        }
    }
}

/// A session with its conversation.
#[derive(Clone, Debug)]
pub struct GetSessionResult {
    pub id: String,
    pub solution_id: String,
    pub agent_id: String,
    pub title: String,
    pub state: SessionStateDto,
    pub created_at: i64,
    pub last_activity_at: i64,
    pub total_tokens: Option<u64>,
    pub max_tokens: Option<u64>,
    pub parent_session_id: Option<String>,
    pub cwd: Option<String>,
    pub entries: Vec<EntrySummary>,
    /// How many entries there are in all, whatever window was asked for.
    pub total_count: usize,
    pub pending_bundles: Vec<QueuedBundleSummary>,
    pub active_subagents: Vec<SubagentDto>,
}

/// What a [`GetSessionResult`] stands for.
#[verifier::ext_equal]
pub struct GetSessionResultView {
    pub id: Seq<char>,
    pub solution_id: Seq<char>,
    pub agent_id: Seq<char>,
    pub title: Seq<char>,
    pub state: SessionStateDtoView,
    pub created_at: i64,
    pub last_activity_at: i64,
    pub total_tokens: Option<u64>,
    pub max_tokens: Option<u64>,
    pub parent_session_id: Option<Seq<char>>,
    pub cwd: Option<Seq<char>>,
    pub entries: Seq<EntrySummaryView>,
    pub total_count: usize,
    pub pending_bundles: Seq<QueuedBundleSummaryView>,
    pub active_subagents: Seq<SubagentDtoView>,
}

impl DeepView for GetSessionResult {
    type V = GetSessionResultView;

    open spec fn deep_view(&self) -> GetSessionResultView {
        GetSessionResultView {
            id: self.id.deep_view(),
            solution_id: self.solution_id.deep_view(),
            agent_id: self.agent_id.deep_view(),
            title: self.title.deep_view(),
            state: self.state.deep_view(),
            created_at: self.created_at,
            last_activity_at: self.last_activity_at,
            total_tokens: self.total_tokens,
            max_tokens: self.max_tokens,
            parent_session_id: self.parent_session_id.deep_view(),
            cwd: self.cwd.deep_view(),
            entries: self.entries.deep_view(),
            total_count: self.total_count,
            pending_bundles: self.pending_bundles.deep_view(),
            active_subagents: self.active_subagents.deep_view(),
        }
    }
}

/// Asks for the sessions.
#[derive(Clone, Debug, Default)]
pub struct ListSessionsParams {
    pub solution_id: Option<String>,
    /// Only the children of this session.
    pub parent_session_id: Option<String>,
    /// Only sessions last active before this.
    pub before_last_activity_at_ms: Option<i64>,
    /// At most this many.
    pub count: Option<usize>,
}

/// The answer to [`ListSessionsParams`].
#[derive(Clone, Debug)]
pub struct ListSessionsResult {
    pub sessions: Vec<SessionSummary>,
    /// How many there are before the window is applied.
    pub total_count: usize,
}

/// Asks for the children of a session.
#[derive(Clone, Debug, Default)]
pub struct GetSessionChildrenParams {
    pub session_id: String,
}

/// The answer to [`GetSessionChildrenParams`].
#[derive(Clone, Debug)]
pub struct GetSessionChildrenResult {
    pub children: Vec<SessionSummary>,
}

/// Asks for the background shells of a session.
#[derive(Clone, Debug, Default)]
pub struct GetSessionBackgroundShellsParams {
    pub session_id: String,
    pub include_output: bool,
}

/// The answer to [`GetSessionBackgroundShellsParams`].
#[derive(Clone, Debug)]
pub struct GetSessionBackgroundShellsResult {
    pub background_shells: Vec<BackgroundShellDto>,
}

/// Asks for the managed agents of a session.
#[derive(Clone, Debug, Default)]
pub struct GetSessionBackgroundAgentsParams {
    pub session_id: String,
}

/// The answer to [`GetSessionBackgroundAgentsParams`].
#[derive(Clone, Debug)]
pub struct GetSessionBackgroundAgentsResult {
    pub background_agents: Vec<BackgroundAgentDto>,
}

/// Asks for the agents.
#[derive(Clone, Debug, Default)]
pub struct ListAgentsParams {}

/// The answer to [`ListAgentsParams`].
#[derive(Clone, Debug)]
pub struct ListAgentsResult {
    pub agents: Vec<AgentSummary>,
}

/// Asks for a session with its conversation.
#[derive(Clone, Debug, Default)]
pub struct GetSessionParams {
    pub session_id: String,
    pub include_full_content: bool,
    pub include_images: bool,
    pub before_index: Option<usize>,
    pub after_index: Option<usize>,
    /// Only the last so many entries.
    pub count: Option<usize>,
    /// Only the entries of this sub-agent, or of the main thread for `__main__`.
    pub subagent_filter: Option<String>,
}

/// Asks for one entry of a session.
#[derive(Clone, Debug, Default)]
pub struct GetSessionEntryParams {
    pub session_id: String,
    pub index: usize,
    pub include_images: bool,
}

/// The answer to [`GetSessionEntryParams`].
#[derive(Clone, Debug)]
pub struct GetSessionEntryResult {
    pub entry: EntrySummary,
}

/// Asks for a new session.
#[derive(Clone, Debug, Default)]
pub struct CreateSessionParams {
    pub solution_id: String,
    pub agent_id: String,
    pub initial_message: Option<String>,
    pub parent_session_id: Option<String>,
    pub title: Option<String>,
    pub cwd: Option<String>,
}

/// The answer to [`CreateSessionParams`].
#[derive(Clone, Debug)]
pub struct CreateSessionResult {
    pub session_id: String,
}

/// Sends a text to a session.
#[derive(Clone, Debug, Default)]
pub struct SendMessageParams {
    pub session_id: String,
    pub content: String,
}

/// The answer to [`SendMessageParams`].
#[derive(Clone, Debug, Default)]
pub struct SendMessageResult {
}

/// Sends blocks to a session.
#[derive(Clone, Debug, Default)]
pub struct SendMessageBlocksParams {
    pub session_id: String,
    pub blocks: Vec<PromptBlock>,
}

/// The answer to [`SendMessageBlocksParams`].
#[derive(Clone, Debug, Default)]
pub struct SendMessageBlocksResult {
}

/// Closes a session.
#[derive(Clone, Debug, Default)]
pub struct DeleteSessionParams {
    pub session_id: String,
}

/// The answer to [`DeleteSessionParams`].
#[derive(Clone, Debug, Default)]
pub struct DeleteSessionResult {
}

/// Cancels the turn of a session.
#[derive(Clone, Debug, Default)]
pub struct CancelTurnParams {
    pub session_id: String,
    /// Whether to send the waiting messages then.
    pub flush_pending: bool,
}

/// The answer to [`CancelTurnParams`].
#[derive(Clone, Debug, Default)]
pub struct CancelTurnResult {
}

/// Answers a permission request.
#[derive(Clone, Debug, Default)]
pub struct AuthorizeToolCallParams {
    pub session_id: String,
    pub tool_call_id: String,
    pub option_id: String,
}

/// The answer to [`AuthorizeToolCallParams`].
#[derive(Clone, Debug)]
pub struct AuthorizeToolCallResult {
    pub ok: bool,
}

/// Renames a session.
#[derive(Clone, Debug, Default)]
pub struct RenameSessionParams {
    pub session_id: String,
    pub title: String,
}

/// The answer to [`RenameSessionParams`].
#[derive(Clone, Debug, Default)]
pub struct RenameSessionResult {
}

/// Restarts the agent of a session.
#[derive(Clone, Debug, Default)]
pub struct RestartAgentParams {
    pub session_id: String,
}

/// The answer to [`RestartAgentParams`].
#[derive(Clone, Debug, Default)]
pub struct RestartAgentResult {
    pub session_id: String,
}

/// Clears the conversation of a session.
#[derive(Clone, Debug, Default)]
pub struct ResetContextParams {
    pub session_id: String,
}

/// The answer to [`ResetContextParams`].
#[derive(Clone, Debug, Default)]
pub struct ResetContextResult {
    pub session_id: String,
}

/// Continues a session from the handoff files of its agent.
#[derive(Clone, Debug, Default)]
pub struct CompactSessionParams {
    pub session_id: String,
    pub prompt_file: String,
}

/// The answer to [`CompactSessionParams`].
#[derive(Clone, Debug)]
pub struct CompactSessionResult {
    pub new_session_id: String,
    pub prompt_bytes: u64,
}

/// Asks the agent of a session to prepare a handoff.
#[derive(Clone, Debug, Default)]
pub struct StartCompactParams {
    pub session_id: String,
}

/// The answer to [`StartCompactParams`].
#[derive(Clone, Debug)]
pub struct StartCompactResult {
    pub queued: bool,
    /// Why it was not queued.
    pub message: Option<String>,
}

/// Asks for the transcript of a session.
#[derive(Clone, Debug, Default)]
pub struct ReadSessionHistoryParams {
    pub session_id: String,
    pub limit: Option<usize>,
    pub offset: Option<usize>,
}

/// The answer to [`ReadSessionHistoryParams`].
#[derive(Clone, Debug)]
pub struct ReadSessionHistoryResult {
    pub session_id: String,
    /// `live` or `archived`.
    pub source: String,
    pub title: String,
    pub total_entries: usize,
    pub returned_entries: usize,
    pub entries: Vec<String>,
}

/// Announces an upload.
#[derive(Clone, Debug, Default)]
pub struct UploadInitParams {
    pub session_id: String,
    pub mime: String,
    pub display_name: String,
    pub total_size: u64,
    pub sha256: Option<String>,
}

/// The answer to [`UploadInitParams`].
#[derive(Clone, Debug, Default)]
pub struct UploadInitResult {
    pub upload_id: u64,
}

/// Asks how far an upload has come.
#[derive(Clone, Debug, Default)]
pub struct UploadStatusParams {
    pub upload_id: u64,
}

/// The answer to [`UploadStatusParams`].
#[derive(Clone, Debug, Default)]
pub struct UploadStatusResult {
    pub received_bytes: u64,
    pub total_size: u64,
}

/// Completes an upload.
#[derive(Clone, Debug, Default)]
pub struct UploadFinishParams {
    pub upload_id: u64,
    pub sha256: Option<String>,
}

/// The answer to [`UploadFinishParams`].
#[derive(Clone, Debug, Default)]
pub struct UploadFinishResult {
    pub handle: String,
}

/// Gives an upload up.
#[derive(Clone, Debug, Default)]
pub struct UploadAbortParams {
    pub upload_id: u64,
}

/// The answer to [`UploadAbortParams`].
#[derive(Clone, Debug, Default)]
pub struct UploadAbortResult {
}

/// Forces a stuck session to rest.
#[derive(Clone, Debug, Default)]
pub struct ForceIdleParams {
    pub session_id: String,
}

/// The answer to [`ForceIdleParams`].
#[derive(Clone, Debug, Default)]
pub struct ForceIdleResult {
    pub previous_kind: String,
}

} // verus!
