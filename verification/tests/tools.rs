use solution_agent::adapter::{AdapterRegistry, SolutionAgentAdapter};
use solution_agent::background_agent::{
    BackgroundAgent, BackgroundAgentId, BackgroundAgentSnapshot,
};
use solution_agent::background_shell::{
    BackgroundShell, BackgroundShellId, BackgroundShellSnapshot, ShellRuntimeState,
};
use solution_agent::clock::{ClockReading, Timestamp};
use solution_agent::event_sources::build_active_subagents_changed_payload;
use solution_agent::mcp::conversation::{
    entries_fit, live_entries_fit, Archive, AuthorizeToolCallTool, GetSessionEntryTool,
    GetSessionTool, ReadSessionHistoryTool,
};
use solution_agent::mcp::dto::{
    AuthorizeToolCallParams, CancelTurnParams, CreateSessionParams, DeleteSessionParams,
    EntryRoleDto, ForceIdleParams, GetSessionBackgroundAgentsParams,
    GetSessionBackgroundShellsParams, GetSessionChildrenParams, GetSessionEntryParams,
    GetSessionParams, GetSessionResult, ListSessionsParams, ReadSessionHistoryParams,
    RenameSessionParams, ResetContextParams, RestartAgentParams, SendMessageBlocksParams,
    SendMessageParams, SessionStateDto, ToolCallStatusDto,
};
use solution_agent::mcp::lifecycle::{
    CancelTurnTool, CreateSessionTool, DeleteSessionTool, ForceIdleTool, RenameSessionTool,
    ResetContextTool, RestartAgentTool, SendMessageBlocksTool, SendMessageTool, StoreAction,
};
use solution_agent::mcp::registry::{register, ListAgentsTool};
use solution_agent::mcp::sessions::{
    GetSessionBackgroundAgentsTool, GetSessionBackgroundShellsTool, GetSessionChildrenTool,
    ListSessionsTool,
};
use solution_agent::mcp::wire::{role_name, state_value, status_name};
use solution_agent::model::{
    AcpThread, PendingBundle, QueueTarget, SessionState, SolutionSession, SolutionSessionId,
    SubagentTab, ThreadEntry, TokenUsage, NO_TIMESTAMP_MS,
};
use solution_agent::solution::Solution;
use solution_agent::thread::{
    AgentThreadEntry, AssistantMessage, AssistantMessageChunk, ContentBlock, PermissionOption,
    PermissionOptionKind, PermissionOptions, PlanEntry, PlanEntryPriority, PlanEntryStatus,
    PromptBlock, PromptContent, ToolCall, ToolCallStatus, ToolKind, UserMessage,
};

const HINT: &str = "(queued while you were busy)";

const IMAGE_B64: &str = "iVBORw0KGgoAAAANSUhEUgAAAAEAAAABCAQAAAC1HAwCAAAAC0lEQVR42mNgAAIAAAUAAen5lOEAAAAASUVORK5CYII=";

fn at(millis: i64) -> Timestamp {
    Timestamp::from_unix(millis / 1000, (millis % 1000) as u32 * 1_000_000).unwrap()
}

fn now() -> ClockReading {
    ClockReading { wall: at(1_700_000_100_000), monotonic_ns: 5_000_000_000 }
}

fn json(text: &str) -> serde_json::Value {
    serde_json::from_str(text).unwrap()
}

fn session() -> SolutionSession {
    let mut session = SolutionSession::new_idle(
        SolutionSessionId::new(),
        "sol-a".to_string(),
        "mock-agent".to_string(),
        "acp-1".to_string(),
    );
    session.set_acp_thread(Some(AcpThread { entries: Vec::new(), token_usage: None }));
    session
}

fn push(session: &mut SolutionSession, entry: AgentThreadEntry, markdown: &str) {
    let mut thread = session.acp_thread().expect("a live thread").clone();
    thread.entries.push(ThreadEntry { entry, markdown: markdown.to_string() });
    session.set_acp_thread(Some(thread));
}

fn text_block(text: &str) -> PromptBlock {
    PromptBlock { content: PromptContent::Text(text.to_string()), client_send_id: None, extra: None }
}

fn image_block(mime: &str, data: &str) -> PromptBlock {
    PromptBlock {
        content: PromptContent::Image { data: data.to_string(), mime_type: mime.to_string() },
        client_send_id: None,
        extra: None,
    }
}

fn user(chunks: Vec<PromptBlock>) -> AgentThreadEntry {
    AgentThreadEntry::UserMessage(UserMessage {
        id: None,
        content: ContentBlock::Markdown { markdown: String::new() },
        chunks,
    })
}

fn assistant(text: &str, subagent_id: Option<&str>) -> AgentThreadEntry {
    AgentThreadEntry::AssistantMessage(AssistantMessage {
        chunks: vec![AssistantMessageChunk::Message {
            block: ContentBlock::Markdown { markdown: text.to_string() },
        }],
        subagent_id: subagent_id.map(|id| id.to_string()),
    })
}

fn call(id: &str, status: ToolCallStatus, raw_input: Option<serde_json::Value>) -> ToolCall {
    ToolCall {
        id: id.to_string(),
        label: "Bash".to_string(),
        kind: ToolKind::Execute,
        content: Vec::new(),
        status,
        locations: Vec::new(),
        raw_input,
        raw_input_markdown: None,
        raw_output: None,
        tool_name: None,
        subagent_id: None,
        status_started_at: None,
    }
}

/// A session with a user message that holds an image, and an answer.
fn session_with_image() -> SolutionSession {
    let mut session = session();
    push(
        &mut session,
        user(vec![text_block("hello"), image_block("image/png", IMAGE_B64)]),
        "## User\n\nhello`Image`\n\n",
    );
    push(&mut session, assistant("world", None), "## Assistant\n\nworld\n\n");
    session
}

/// A session with `n` plain text entries, from the user and the agent in turn.
fn session_with_entries(n: usize) -> SolutionSession {
    let mut session = session();
    for i in 0..n {
        let text = format!("entry-{i}");
        let entry =
            if i % 2 == 0 { user(vec![text_block(&text)]) } else { assistant(&text, None) };
        push(&mut session, entry, &text);
    }
    session
}

fn try_get(
    sessions: &Vec<SolutionSession>,
    input: GetSessionParams,
) -> Result<GetSessionResult, String> {
    for session in sessions {
        assert!(entries_fit(session) && live_entries_fit(session));
    }
    GetSessionTool.run(&input, sessions, HINT, &now()).map(|response| response.result)
}

fn get(session: &SolutionSession, input: GetSessionParams) -> GetSessionResult {
    let input = GetSessionParams { session_id: session.id.as_str().to_string(), ..input };
    try_get(&vec![session.clone()], input).expect("get_session")
}

fn indices(result: &GetSessionResult) -> Vec<usize> {
    result.entries.iter().map(|entry| entry.index).collect()
}

#[test]
fn entry_role_and_status_dto_serialize_snake_case() {
    assert_eq!(role_name(EntryRoleDto::ToolCall), "tool_call");
    assert_eq!(
        status_name(ToolCallStatusDto::WaitingForConfirmation),
        "waiting_for_confirmation"
    );
    assert_eq!(status_name(ToolCallStatusDto::Running), "running");
}

#[test]
fn session_state_dto_serializes_structured() {
    let value = |state: &SessionState, running_ms: i64, stopping_ms: i64| {
        state_value(&SessionStateDto::from_state(state, running_ms, stopping_ms))
    };
    assert_eq!(value(&SessionState::Idle, 0, 0), json(r#"{"kind":"idle"}"#));
    assert_eq!(
        value(&SessionState::Stopping { started_at: 7 }, 0, 1779000),
        json(r#"{"kind":"stopping","started_at_ms":1779000}"#)
    );
    assert_eq!(
        value(&SessionState::AwaitingInput, 0, 0),
        json(r#"{"kind":"awaiting_input"}"#)
    );
    assert_eq!(
        value(&SessionState::Errored("boom".to_string()), 0, 0),
        json(r#"{"kind":"errored","message":"boom"}"#)
    );
    let running = SessionState::Running { started_at: 7, notified: false };
    assert_eq!(
        value(&running, 1779, 0),
        json(r#"{"kind":"running","started_at_ms":1779}"#)
    );
}

#[test]
fn list_agents_returns_empty_when_no_adapters_registered() {
    let adapters: AdapterRegistry<dyn SolutionAgentAdapter> = AdapterRegistry::new();
    let response = ListAgentsTool.run(&adapters);
    assert_eq!(response.result.agents.len(), 0);
    assert_eq!(response.text, "0 agent(s)");
}

#[test]
fn get_session_default_flags_omit_full_content() {
    let result = get(&session_with_image(), GetSessionParams::default());
    assert!(!result.entries.is_empty(), "expected entries");
    for entry in &result.entries {
        assert!(entry.markdown.is_none());
        assert!(entry.images.is_none());
        assert!(!entry.preview.is_empty(), "preview must always be populated");
    }
}

#[test]
fn get_session_full_content_populates_markdown() {
    let input = GetSessionParams { include_full_content: true, ..Default::default() };
    let result = get(&session_with_image(), input);
    for entry in &result.entries {
        let markdown = entry.markdown.as_ref().expect("markdown populated");
        assert!(markdown.len() >= entry.preview.trim_end_matches('…').len());
        assert!(entry.images.is_none(), "images stay None unless include_images=true");
    }
}

#[test]
fn get_session_include_images_inlines_base64() {
    let input = GetSessionParams {
        include_full_content: true,
        include_images: true,
        ..Default::default()
    };
    let result = get(&session_with_image(), input);
    let mut total_images = 0usize;
    let mut saw_expected = false;
    for entry in &result.entries {
        let images = entry.images.as_ref().expect("images list populated even if empty");
        total_images += images.len();
        for image in images {
            assert_eq!(image.mime_type, "image/png");
            if image.data_base64 == IMAGE_B64 {
                saw_expected = true;
            }
        }
    }
    assert!(total_images >= 1);
    assert!(saw_expected, "the seeded PNG payload should round-trip unchanged");
}

fn get_entry(session: &SolutionSession, index: usize) -> solution_agent::mcp::dto::EntrySummary {
    let input = GetSessionEntryParams {
        session_id: session.id.as_str().to_string(),
        index,
        include_images: false,
    };
    GetSessionEntryTool
        .run(&input, &vec![session.clone()])
        .expect("get_session_entry")
        .result
        .entry
}

#[test]
fn get_session_entry_happy_path_returns_full_markdown() {
    let entry = get_entry(&session_with_image(), 0);
    assert_eq!(entry.role, EntryRoleDto::User);
    assert_eq!(entry.index, 0);
    let markdown = entry.markdown.expect("markdown is always populated");
    assert!(markdown.contains("hello"));
}

#[test]
fn get_session_entry_out_of_range_errors() {
    let session = session_with_image();
    let input = GetSessionEntryParams {
        session_id: session.id.as_str().to_string(),
        index: 9_999,
        include_images: false,
    };
    let err = GetSessionEntryTool.run(&input, &vec![session]).expect_err("out of range");
    assert!(err.contains("entry_index_out_of_range"), "{err}");
}

#[test]
fn tool_call_entry_surfaces_status_and_args() {
    let mut session = session();
    let entry = call("call-1", ToolCallStatus::Pending, Some(json(r#"{ "cmd": "ls" }"#)));
    push(&mut session, AgentThreadEntry::ToolCall(entry), "**Tool Call: Bash**");
    let result = get(&session, GetSessionParams::default());
    let tool_entry = result
        .entries
        .iter()
        .find(|e| e.role == EntryRoleDto::ToolCall)
        .expect("tool_call entry");
    let tool = tool_entry.tool_call.as_ref().expect("tool_call summary populated");
    assert_eq!(tool.status, ToolCallStatusDto::Pending);
    assert!(tool.args_preview.contains("\"cmd\""), "got: {}", tool.args_preview);
    assert!(tool.tool_status_started_at_ms.is_none());
}

#[test]
fn tool_call_entry_surfaces_status_started_at_when_in_progress() {
    let before_ms = 1_700_000_000_000;
    let mut session = session();
    let mut entry = call("call-1", ToolCallStatus::InProgress, None);
    entry.status_started_at = Some(at(before_ms + 1));
    push(&mut session, AgentThreadEntry::ToolCall(entry), "**Tool Call: Bash**");
    let after_ms = before_ms + 2;
    let result = get(&session, GetSessionParams::default());
    let tool = result
        .entries
        .iter()
        .find(|e| e.role == EntryRoleDto::ToolCall)
        .and_then(|e| e.tool_call.as_ref())
        .expect("tool_call summary populated");
    assert_eq!(tool.status, ToolCallStatusDto::Running);
    let stamp = tool.tool_status_started_at_ms.expect("a started_at timestamp");
    assert!(stamp >= before_ms && stamp <= after_ms);
}

#[test]
fn plan_entry_surfaces_items() {
    let step = |content: &str| PlanEntry {
        content: content.to_string(),
        priority: PlanEntryPriority::Medium,
        status: PlanEntryStatus::Completed,
    };
    let mut session = session();
    push(
        &mut session,
        AgentThreadEntry::CompletedPlan(vec![step("step one"), step("step two")]),
        "## Plan",
    );
    let result = get(&session, GetSessionParams::default());
    let plan_entry =
        result.entries.iter().find(|e| e.role == EntryRoleDto::Plan).expect("plan entry");
    let plan = plan_entry.plan.as_ref().expect("plan summary populated for role=plan");
    assert_eq!(plan.items.len(), 2);
    assert!(plan.items[0].contains("step one"));
}

#[test]
fn get_session_no_pagination_returns_all_entries_with_total_count() {
    let result = get(&session_with_entries(5), GetSessionParams::default());
    assert_eq!(result.entries.len(), 5, "no pagination → all 5 entries");
    assert_eq!(result.total_count, 5);
    for (expected, entry) in result.entries.iter().enumerate() {
        assert_eq!(entry.index, expected);
    }
}

#[test]
fn get_session_count_returns_last_n_entries() {
    let input = GetSessionParams { count: Some(2), ..Default::default() };
    let result = get(&session_with_entries(5), input);
    assert_eq!(result.entries.len(), 2);
    assert_eq!(indices(&result), vec![3, 4]);
    assert_eq!(result.total_count, 5);
}

#[test]
fn get_session_before_index_drops_newer() {
    let input = GetSessionParams { before_index: Some(3), ..Default::default() };
    let result = get(&session_with_entries(5), input);
    assert_eq!(indices(&result), vec![0, 1, 2]);
    assert_eq!(result.total_count, 5);
}

#[test]
fn get_session_after_index_drops_older() {
    let input = GetSessionParams { after_index: Some(2), ..Default::default() };
    let result = get(&session_with_entries(5), input);
    assert_eq!(indices(&result), vec![3, 4]);
    assert_eq!(result.total_count, 5);
}

#[test]
fn get_session_before_and_after_index_select_slice() {
    let input = GetSessionParams {
        after_index: Some(2),
        before_index: Some(4),
        ..Default::default()
    };
    let result = get(&session_with_entries(5), input);
    assert_eq!(indices(&result), vec![3]);
    assert_eq!(result.total_count, 5);
}

#[test]
fn get_session_after_index_then_count_takes_last_within_filter() {
    let input = GetSessionParams { after_index: Some(2), count: Some(1), ..Default::default() };
    let result = get(&session_with_entries(5), input);
    assert_eq!(indices(&result), vec![4]);
    assert_eq!(result.total_count, 5);
}

#[test]
fn get_session_after_index_past_end_returns_empty() {
    let input = GetSessionParams { after_index: Some(99), ..Default::default() };
    let result = get(&session_with_entries(5), input);
    assert!(result.entries.is_empty(), "after_index past end → empty");
    assert_eq!(result.total_count, 5, "total_count still reflects the underlying thread");
}

#[test]
fn list_sessions_pagination_orders_desc_and_caps_to_count() {
    let mut first = session();
    let mut second = session();
    let mut third = session();
    first.last_activity_at = at(1_700_000_000_000);
    second.last_activity_at = at(1_700_000_001_000);
    third.last_activity_at = at(1_700_000_002_000);
    let third_id = third.id;
    let input = ListSessionsParams {
        solution_id: Some("sol-a".to_string()),
        parent_session_id: None,
        count: Some(1),
        before_last_activity_at_ms: None,
    };
    let response = ListSessionsTool
        .run(&input, &vec![first, second, third], &now())
        .expect("list_sessions");
    let sessions = &response.result.sessions;
    assert_eq!(sessions.len(), 1, "count=1 caps to one entry");
    assert_eq!(sessions[0].id, third_id.as_str());
    assert_eq!(response.result.total_count, 3);
}

#[test]
fn the_total_counts_the_solution_whatever_the_parent() {
    let parent = session();
    let child = child_of(&parent);
    let mut elsewhere = session();
    elsewhere.solution_id = "sol-b".to_string();
    let input = ListSessionsParams {
        solution_id: Some("sol-a".to_string()),
        parent_session_id: Some(parent.id.as_str().to_string()),
        count: None,
        before_last_activity_at_ms: None,
    };
    let child_id = child.id;
    let response = ListSessionsTool
        .run(&input, &vec![parent, child, elsewhere], &now())
        .expect("list_sessions");
    assert_eq!(response.result.sessions.len(), 1);
    assert_eq!(response.result.sessions[0].id, child_id.as_str());
    assert_eq!(response.result.total_count, 2);
    assert_eq!(response.text, "1 session(s)");
}

fn child_of(parent: &SolutionSession) -> SolutionSession {
    let mut child = session();
    child.parent_session_id = Some(parent.id);
    child
}

#[test]
fn create_session_with_parent_sets_parent_session_id_on_child() {
    let parent = session();
    let child = child_of(&parent);
    let result = get(&child, GetSessionParams::default());
    assert_eq!(result.parent_session_id.as_deref(), Some(parent.id.as_str()));
    let parent_result = get(&parent, GetSessionParams::default());
    assert!(parent_result.parent_session_id.is_none());

    let solution = Solution {
        id: "sol-a".to_string(),
        root: "/tmp/sol-a".to_string(),
        member_paths: Vec::new(),
        last_opened_at: None,
    };
    let input = CreateSessionParams {
        solution_id: "sol-a".to_string(),
        agent_id: "mock-agent".to_string(),
        initial_message: Some("go".to_string()),
        parent_session_id: Some(parent.id.as_str().to_string()),
        title: Some("Child".to_string()),
        cwd: None,
    };
    let parent_id = parent.id;
    let action = CreateSessionTool
        .run(&input, &vec![parent], &vec![solution], &vec![vec!["/tmp/sol-a".to_string()]])
        .expect("create_session");
    match action {
        StoreAction::Create(new) => {
            assert_eq!(new.parent_session_id, Some(parent_id));
            assert_eq!(new.solution_id, "sol-a");
            assert_eq!(new.agent_id, "mock-agent");
            assert_eq!(new.project, 0);
        }
        _ => panic!("expected a new session"),
    }
    match CreateSessionTool.rename(&input, &child.id) {
        Some(StoreAction::Rename { session_id, title }) => {
            assert_eq!(session_id, child.id);
            assert_eq!(title, "Child");
        }
        _ => panic!("expected a rename"),
    }
    match CreateSessionTool.first_message(&input, &child.id) {
        Some(StoreAction::SendMessage { session_id, content }) => {
            assert_eq!(session_id, child.id);
            assert_eq!(content, "go");
        }
        _ => panic!("expected a message"),
    }
    let response = CreateSessionTool.respond(&child.id);
    assert_eq!(response.text, child.id.as_str());
    assert_eq!(response.result.session_id, child.id.as_str());
}

#[test]
fn create_session_with_unknown_parent_errors_with_named_code() {
    let unknown_parent = "abcd1234";
    let input = CreateSessionParams {
        solution_id: "sol-a".to_string(),
        agent_id: "mock-agent".to_string(),
        initial_message: None,
        parent_session_id: Some(unknown_parent.to_string()),
        title: None,
        cwd: None,
    };
    let err = CreateSessionTool
        .run(&input, &vec![session()], &Vec::new(), &Vec::new())
        .err()
        .expect("expected unknown_parent_session error");
    assert!(err.contains("unknown_parent_session"), "{err}");
    assert!(err.contains(unknown_parent), "{err}");
}

#[test]
fn create_session_with_parent_in_different_solution_errors() {
    let parent = session();
    let input = CreateSessionParams {
        solution_id: "sol-OTHER-not-the-parents".to_string(),
        agent_id: "mock-agent".to_string(),
        initial_message: None,
        parent_session_id: Some(parent.id.as_str().to_string()),
        title: None,
        cwd: None,
    };
    let err = CreateSessionTool
        .run(&input, &vec![parent], &Vec::new(), &Vec::new())
        .err()
        .expect("expected parent_session_in_different_solution error");
    assert!(err.contains("parent_session_in_different_solution"), "{err}");
}

#[test]
fn a_session_is_created_in_a_visible_directory() {
    let create = |cwd: &str| {
        let solution = Solution {
            id: "sol-a".to_string(),
            root: "/tmp/sol-a".to_string(),
            member_paths: Vec::new(),
            last_opened_at: None,
        };
        let projects = vec![
            vec!["/tmp/other".to_string()],
            vec!["/tmp/sol-a/one".to_string(), "/tmp/sol-a/two".to_string()],
        ];
        let input = CreateSessionParams {
            solution_id: "sol-a".to_string(),
            agent_id: "mock-agent".to_string(),
            cwd: Some(cwd.to_string()),
            ..Default::default()
        };
        match CreateSessionTool.run(&input, &Vec::new(), &vec![solution], &projects) {
            Ok(StoreAction::Create(new)) => Ok((new.project, new.cwd)),
            Ok(_) => panic!("expected a new session"),
            Err(message) => Err(message),
        }
    };
    assert_eq!(create("/tmp/sol-a/two"), Ok((1, Some("/tmp/sol-a/two".to_string()))));
    assert_eq!(create("/tmp/sol-a/one/"), Ok((1, Some("/tmp/sol-a/one/".to_string()))));
    for cwd in ["/tmp/other", "/tmp/sol-a/one/src", "/tmp/sol-a", "/etc", ""] {
        assert_eq!(
            create(cwd),
            Err(format!("invalid_params: cwd is not a visible worktree of the solution: {cwd}"))
        );
    }
}

#[test]
fn get_session_children_returns_child_with_summary_fields() {
    let parent = session();
    let child = child_of(&parent);
    let parent_id = parent.id;
    let child_id = child.id;
    let input = GetSessionChildrenParams { session_id: parent_id.as_str().to_string() };
    let response = GetSessionChildrenTool
        .run(&input, &vec![parent, child], &now())
        .expect("get_session_children");
    let children = &response.result.children;
    assert_eq!(children.len(), 1, "exactly one child");
    assert_eq!(children[0].id, child_id.as_str());
    assert_eq!(children[0].parent_session_id.as_deref(), Some(parent_id.as_str()));
    assert_eq!(response.text, "1 child session(s)");
}

#[test]
fn get_session_children_returns_empty_list_for_leaf_session() {
    let leaf = session();
    let input = GetSessionChildrenParams { session_id: leaf.id.as_str().to_string() };
    let response = GetSessionChildrenTool
        .run(&input, &vec![leaf], &now())
        .expect("get_session_children on a leaf");
    assert!(response.result.children.is_empty(), "leaf session has no children");
}

/// Adds two background shells, the second of which has been read.
fn add_background_shells(session: &mut SolutionSession) -> i64 {
    let expected_ms = 1_700_000_000_123_i64;
    let first = BackgroundShell {
        id: BackgroundShellId::new("aaa111"),
        command: "sleep 60".to_string(),
        output_path: "/tmp/aaa111.output".to_string(),
        registered_at: at(0),
        latest: None,
        last_offset: 0,
        state: ShellRuntimeState::Running,
    };
    let second = BackgroundShell {
        id: BackgroundShellId::new("bbb222"),
        command: "cargo build".to_string(),
        output_path: "/tmp/bbb222.output".to_string(),
        registered_at: at(0),
        latest: Some(BackgroundShellSnapshot {
            mtime: at(expected_ms),
            output_tail: "compiling...\n".to_string(),
        }),
        last_offset: 13,
        state: ShellRuntimeState::Exited(Some(0)),
    };
    session.background_shell_order.push(first.id.clone());
    session.background_shell_order.push(second.id.clone());
    session.background_shells.push(second);
    session.background_shells.push(first);
    expected_ms
}

#[test]
fn get_session_background_shells_omits_output_by_default() {
    let mut session = session();
    let expected_ms = add_background_shells(&mut session);
    let input = GetSessionBackgroundShellsParams {
        session_id: session.id.as_str().to_string(),
        include_output: false,
    };
    let response = GetSessionBackgroundShellsTool
        .run(&input, &vec![session])
        .expect("get_session_background_shells");
    let shells = &response.result.background_shells;
    assert_eq!(shells.len(), 2, "both seeded shells returned");
    assert_eq!(shells[0].id, "aaa111");
    assert_eq!(shells[0].command, "sleep 60");
    assert_eq!(shells[0].state, "running");
    assert_eq!(shells[0].mtime_ms, None, "first shell has no snapshot");
    assert_eq!(shells[0].output_tail, None);
    assert_eq!(shells[1].id, "bbb222");
    assert_eq!(shells[1].state, "exited:0");
    assert_eq!(shells[1].mtime_ms, Some(expected_ms));
    assert_eq!(shells[1].output_tail, None);
    assert_eq!(response.text, "2 background shell(s)");
}

#[test]
fn get_session_background_shells_includes_output_when_requested() {
    let mut session = session();
    add_background_shells(&mut session);
    let input = GetSessionBackgroundShellsParams {
        session_id: session.id.as_str().to_string(),
        include_output: true,
    };
    let response = GetSessionBackgroundShellsTool
        .run(&input, &vec![session])
        .expect("get_session_background_shells include_output");
    let shells = &response.result.background_shells;
    assert_eq!(shells[0].output_tail, None);
    assert_eq!(shells[1].output_tail.as_deref(), Some("compiling...\n"));
}

#[test]
fn get_session_background_shells_unknown_session_errors() {
    let input = GetSessionBackgroundShellsParams {
        session_id: "abcd1234".to_string(),
        include_output: false,
    };
    let err = GetSessionBackgroundShellsTool
        .run(&input, &vec![session()])
        .expect_err("expected session_not_found error");
    assert!(err.contains("session_not_found"), "{err}");
}

/// Adds two background agents, the first of which has been read.
fn add_background_agents(session: &mut SolutionSession) -> i64 {
    let expected_ms = 1_700_000_000_123_i64;
    let first = BackgroundAgent {
        id: BackgroundAgentId::new("a30f92a688e431ed"),
        jsonl_path: "/tmp/a30f92a688e431ed.jsonl".to_string(),
        registered_at: at(0),
        latest: Some(BackgroundAgentSnapshot {
            mtime: at(expected_ms),
            activity_label: "Bash: cargo test".to_string(),
            stop_reason: Some("end_turn".to_string()),
        }),
        last_offset: 42,
    };
    let second = BackgroundAgent {
        id: BackgroundAgentId::new("b41a03b799f542fe"),
        jsonl_path: "/tmp/b41a03b799f542fe.jsonl".to_string(),
        registered_at: at(0),
        latest: None,
        last_offset: 0,
    };
    session.background_agent_order.push(first.id.clone());
    session.background_agent_order.push(second.id.clone());
    session.background_agents.push(second);
    session.background_agents.push(first);
    expected_ms
}

#[test]
fn get_session_background_agents_returns_ordered_agents() {
    let mut session = session();
    let expected_ms = add_background_agents(&mut session);
    let input =
        GetSessionBackgroundAgentsParams { session_id: session.id.as_str().to_string() };
    let response = GetSessionBackgroundAgentsTool
        .run(&input, &vec![session])
        .expect("get_session_background_agents");
    let agents = &response.result.background_agents;
    assert_eq!(agents.len(), 2, "both seeded agents returned");
    assert_eq!(agents[0].id, "a30f92a688e431ed");
    assert_eq!(agents[0].label, "Bash: cargo test");
    assert_eq!(agents[0].mtime_ms, Some(expected_ms));
    assert_eq!(agents[0].stop_reason.as_deref(), Some("end_turn"));
    assert_eq!(agents[1].id, "b41a03b799f542fe");
    assert_eq!(agents[1].label, "Generating…");
    assert_eq!(agents[1].mtime_ms, None, "no snapshot → no mtime_ms");
    assert_eq!(agents[1].stop_reason, None);
    assert_eq!(response.text, "2 background agent(s)");
}

#[test]
fn get_session_background_agents_unknown_session_errors() {
    let input = GetSessionBackgroundAgentsParams { session_id: "abcd1234".to_string() };
    let err = GetSessionBackgroundAgentsTool
        .run(&input, &vec![session()])
        .expect_err("expected session_not_found error");
    assert!(err.contains("session_not_found"), "{err}");
}

#[test]
fn list_sessions_filters_by_parent_session_id() {
    let parent = session();
    let child = child_of(&parent);
    let sibling = child_of(&parent);
    let expected: std::collections::HashSet<String> =
        [child.id.as_str().to_string(), sibling.id.as_str().to_string()].into_iter().collect();
    let parent_id = parent.id;
    let input = ListSessionsParams {
        solution_id: Some("sol-a".to_string()),
        parent_session_id: Some(parent_id.as_str().to_string()),
        before_last_activity_at_ms: None,
        count: None,
    };
    let response = ListSessionsTool
        .run(&input, &vec![parent, child, sibling], &now())
        .expect("list_sessions filtered by parent");
    let ids: std::collections::HashSet<String> =
        response.result.sessions.iter().map(|s| s.id.clone()).collect();
    assert_eq!(ids, expected, "exactly the two children are returned");
    assert!(!ids.contains(parent_id.as_str()), "parent itself is excluded");
}

fn summary_of(session: SolutionSession) -> solution_agent::mcp::dto::SessionSummary {
    let mut response = ListSessionsTool
        .run(&ListSessionsParams::default(), &vec![session], &now())
        .expect("list_sessions");
    response.result.sessions.remove(0)
}

fn with_usage(used_tokens: u64, max_tokens: u64) -> SolutionSession {
    let mut session = session();
    session.set_acp_thread(Some(AcpThread {
        entries: Vec::new(),
        token_usage: Some(TokenUsage { used_tokens, max_tokens }),
    }));
    session
}

#[test]
fn session_summary_total_tokens_populated_from_cached_value() {
    let mut session = session();
    session.cached_total_tokens = Some(42_000);
    let summary = summary_of(session);
    assert!(summary.total_tokens.is_some_and(|t| t >= 42_000));
}

#[test]
fn session_summary_max_tokens_from_live_thread() {
    let summary = summary_of(with_usage(5_000, 200_000));
    assert_eq!(summary.max_tokens, Some(200_000));
    assert_eq!(summary.total_tokens, Some(5_000));
}

#[test]
fn session_summary_max_tokens_falls_back_to_cached() {
    let mut session = session();
    session.cached_max_tokens = Some(180_000);
    let summary = summary_of(session);
    assert!(summary.max_tokens.is_some_and(|m| m >= 180_000));
}

#[test]
fn get_session_entries_carry_created_ms() {
    let mut session = session_with_entries(3);
    let fake_ms: i64 = 1_700_000_000_000;
    session.entry_created_ms = vec![fake_ms, NO_TIMESTAMP_MS, fake_ms + 1];
    let result = get(&session, GetSessionParams::default());
    assert_eq!(result.entries.len(), 3, "all 3 entries returned");
    assert!(result.entries[0].created_ms.is_some_and(|ms| ms > 0));
    assert!(result.entries[2].created_ms.is_some_and(|ms| ms > 0));
    assert!(result.entries[1].created_ms.is_none());
}

#[test]
fn get_session_entry_carries_created_ms() {
    let mut session = session_with_entries(2);
    session.entry_created_ms = vec![1_700_000_000_000, NO_TIMESTAMP_MS];
    assert!(get_entry(&session, 0).created_ms.is_some_and(|ms| ms > 0));
    assert!(get_entry(&session, 1).created_ms.is_none());
}

fn options() -> PermissionOptions {
    PermissionOptions::Flat(vec![
        PermissionOption {
            option_id: "opt-allow".to_string(),
            name: "Allow".to_string(),
            kind: PermissionOptionKind::AllowOnce,
        },
        PermissionOption {
            option_id: "opt-reject".to_string(),
            name: "Reject".to_string(),
            kind: PermissionOptionKind::RejectOnce,
        },
    ])
}

fn session_with_pending_authorization() -> (SolutionSession, String) {
    let mut session = session();
    let status = ToolCallStatus::WaitingForConfirmation { options: options() };
    push(
        &mut session,
        AgentThreadEntry::ToolCall(call("call-auth-1", status, None)),
        "**Tool Call: Bash**",
    );
    (session, "call-auth-1".to_string())
}

#[test]
fn get_session_surfaces_auth_options_while_waiting() {
    let (session, tool_call_id) = session_with_pending_authorization();
    let result = get(&session, GetSessionParams::default());
    let tool_call = result
        .entries
        .iter()
        .find_map(|entry| entry.tool_call.as_ref())
        .expect("a tool_call entry must be present");
    assert_eq!(tool_call.status, ToolCallStatusDto::WaitingForConfirmation);
    assert_eq!(tool_call.options.len(), 2, "both options must surface");
    assert_eq!(tool_call.options[0].kind, "allow_once");
    assert!(tool_call.options[0].is_allow);
    assert_eq!(tool_call.options[1].kind, "reject_once");
    assert!(!tool_call.options[1].is_allow);
    assert_eq!(tool_call.options[0].option_id, "opt-allow");
    assert_eq!(tool_call.tool_call_id, tool_call_id);
}

fn authorize(session: &SolutionSession, tool_call_id: &str, option_id: &str) -> AuthorizeToolCallParams {
    AuthorizeToolCallParams {
        session_id: session.id.as_str().to_string(),
        tool_call_id: tool_call_id.to_string(),
        option_id: option_id.to_string(),
    }
}

#[test]
fn authorize_tool_call_resolves_waiting_call() {
    let (session, tool_call_id) = session_with_pending_authorization();
    let input = authorize(&session, &tool_call_id, "opt-allow");
    let outcome = AuthorizeToolCallTool
        .run(&input, &vec![session.clone()])
        .expect("authorize_tool_call should succeed");
    assert_eq!(outcome.option_id, "opt-allow");
    assert_eq!(outcome.option_kind, PermissionOptionKind::AllowOnce);
    assert!(AuthorizeToolCallTool.respond().result.ok);

    let mut answered = session.clone();
    answered.set_acp_thread(Some(AcpThread { entries: Vec::new(), token_usage: None }));
    push(
        &mut answered,
        AgentThreadEntry::ToolCall(call("call-auth-1", ToolCallStatus::InProgress, None)),
        "**Tool Call: Bash**",
    );
    let err = AuthorizeToolCallTool
        .run(&input, &vec![answered])
        .err()
        .expect("second authorize must fail; call no longer waiting");
    assert!(err.contains("not_awaiting_confirmation"), "unexpected error: {err}");
}

#[test]
fn authorize_tool_call_rejects_unknown_option() {
    let (session, tool_call_id) = session_with_pending_authorization();
    let input = authorize(&session, &tool_call_id, "opt-does-not-exist");
    let err = AuthorizeToolCallTool
        .run(&input, &vec![session])
        .err()
        .expect("unknown option must error");
    assert!(err.contains("unknown_option"), "unexpected error: {err}");
}

#[test]
fn authorize_tool_call_unknown_tool_call_errors() {
    let session = session_with_image();
    let input = authorize(&session, "no-such-call", "opt-allow");
    let err = AuthorizeToolCallTool
        .run(&input, &vec![session])
        .err()
        .expect("missing tool call must error");
    assert!(err.contains("tool_call_not_found"), "unexpected error: {err}");
}

fn add_subagent_tabs(session: &mut SolutionSession, labels: &[(&str, &str)]) {
    for (id, label) in labels {
        session.active_subagents.push((
            id.to_string(),
            SubagentTab { label: label.to_string(), started_at: at(1_700_000_000_000) },
        ));
        session.active_subagent_order.push(id.to_string());
    }
}

#[test]
fn session_summary_lists_active_subagents_in_insertion_order() {
    let mut session = session_with_image();
    add_subagent_tabs(&mut session, &[("toolu_zzz", "First"), ("toolu_aaa", "Second")]);
    let result = get(&session, GetSessionParams::default());
    let active = &result.active_subagents;
    assert_eq!(active.len(), 2, "both seeded tabs surface on the wire");
    assert_eq!(active[0].id, "toolu_zzz");
    assert_eq!(active[0].label, "First");
    assert!(active[0].started_at_ms > 0);
    assert_eq!(active[1].id, "toolu_aaa");
    assert_eq!(active[1].label, "Second");
}

#[test]
fn session_summary_active_subagents_empty_when_no_tabs() {
    let result = get(&session_with_image(), GetSessionParams::default());
    assert!(result.active_subagents.is_empty(), "no seeded tabs → empty active_subagents");
}

#[test]
fn session_summary_exposes_session_cwd() {
    let mut session = session();
    session.cwd = "/tmp/sol-a".to_string();
    let result = get(&session, GetSessionParams::default());
    assert_eq!(result.cwd.as_deref(), Some("/tmp/sol-a"));
    assert_eq!(summary_of(session).cwd.as_deref(), Some("/tmp/sol-a"));
}

#[test]
fn entry_summary_carries_subagent_id_when_meta_present() {
    let mut session = session();
    push(&mut session, assistant("subagent says hi", Some("toolu_parent_xyz")), "hi");
    let result = get(&session, GetSessionParams::default());
    let answer = result
        .entries
        .iter()
        .find(|e| matches!(e.role, EntryRoleDto::Assistant))
        .expect("assistant entry should be present");
    assert_eq!(answer.subagent_id.as_deref(), Some("toolu_parent_xyz"));
}

fn mixed_subagent_session() -> SolutionSession {
    let mut session = session();
    push(&mut session, user(vec![text_block("u0")]), "u0");
    push(&mut session, assistant("a1-main", None), "a1-main");
    push(&mut session, assistant("s2-sub", Some("sub1")), "s2-sub");
    push(&mut session, user(vec![text_block("u3")]), "u3");
    session
}

fn get_filtered(session: &SolutionSession, filter: &str) -> (Vec<Option<String>>, usize) {
    let input =
        GetSessionParams { subagent_filter: Some(filter.to_string()), ..Default::default() };
    let result = get(session, input);
    let ids = result.entries.iter().map(|e| e.subagent_id.clone()).collect();
    (ids, result.total_count)
}

#[test]
fn get_session_subagent_filter_main_keeps_only_parent_entries() {
    let mut session = mixed_subagent_session();
    add_subagent_tabs(&mut session, &[("sub1", "Sub One")]);
    let (main_ids, main_total) = get_filtered(&session, "__main__");
    assert!(main_ids.iter().all(|id| id.is_none()), "got {main_ids:?}");
    assert_eq!(main_ids.len(), 3, "u0 / a1-main / u3 are the Main entries");
    assert_eq!(main_total, 3, "total_count reflects the FILTERED Main set");
    let (sub_ids, sub_total) = get_filtered(&session, "sub1");
    assert_eq!(sub_ids, vec![Some("sub1".to_string())]);
    assert_eq!(sub_total, 1);
}

#[test]
fn get_session_subagent_filter_main_bypass_when_no_active_subagents() {
    let session = mixed_subagent_session();
    let (ids, total) = get_filtered(&session, "__main__");
    assert_eq!(ids.len(), 4, "bypass returns all 4 entries");
    assert_eq!(total, 4);
    assert!(ids.iter().any(|id| id.as_deref() == Some("sub1")), "got {ids:?}");
}

#[test]
fn a_subagent_filter_is_not_widened_when_no_subagent_is_active() {
    let mut session = mixed_subagent_session();
    push(&mut session, assistant("s4-sub", Some("sub9")), "s4-sub");
    let (ids, total) = get_filtered(&session, "sub9");
    assert_eq!(ids, vec![Some("sub9".to_string())]);
    assert_eq!(total, 1);
    let (ids, total) = get_filtered(&session, "unknown");
    assert!(ids.is_empty());
    assert_eq!(total, 0);
}

#[test]
fn entry_summary_subagent_id_absent_for_parent_entries() {
    let result = get(&session_with_image(), GetSessionParams::default());
    for entry in &result.entries {
        assert!(entry.subagent_id.is_none());
    }
}

#[test]
fn build_active_subagents_changed_payload_shape() {
    let mut session = session_with_image();
    add_subagent_tabs(&mut session, &[("toolu_one", "Alpha")]);
    let id = session.id;
    let payload = build_active_subagents_changed_payload(&id, &vec![session]);
    let obj = payload.as_object().expect("object");
    assert_eq!(obj.get("session_id").and_then(|v| v.as_str()), Some(id.as_str()));
    let arr = obj
        .get("active_subagents")
        .and_then(|v| v.as_array())
        .expect("active_subagents array");
    assert_eq!(arr.len(), 1, "one seeded tab → one descriptor");
    let entry = arr[0].as_object().expect("dto object");
    assert_eq!(entry.get("id").and_then(|v| v.as_str()), Some("toolu_one"));
    assert_eq!(entry.get("label").and_then(|v| v.as_str()), Some("Alpha"));
    let started_at =
        entry.get("started_at_ms").and_then(|v| v.as_i64()).expect("started_at_ms");
    assert!(started_at > 0, "started_at_ms must be positive");
}

#[test]
fn set_acp_thread_emits_thread_replaced_and_notifies() {
    let mut session = session();
    let event = session.set_acp_thread(None);
    assert_eq!(event, solution_agent::model::SolutionSessionEvent::ThreadReplaced);
    assert!(session.is_cold());
}

#[test]
fn unknown_sessions_are_reported() {
    let input = GetSessionParams { session_id: "abcd1234".to_string(), ..Default::default() };
    let err = try_get(&vec![session()], input).expect_err("unknown session");
    assert!(err.contains("abcd1234"), "{err}");
    let input = GetSessionParams { session_id: "Not An Id".to_string(), ..Default::default() };
    let err = try_get(&vec![session()], input).expect_err("no id");
    assert!(err.contains("\"Not An Id\""), "{err}");
    let input = GetSessionParams::default();
    assert!(try_get(&vec![session()], input).is_err());
}

#[test]
fn a_uuid_names_the_session_it_starts_with() {
    let id = SolutionSessionId::parse("6E524C79-5089-4a74-9419-bd18e9119e0b").unwrap();
    assert_eq!(id.as_str(), "6e524c79");
    let same = SolutionSessionId::parse("6e524c79").unwrap();
    assert!(id.same(&same));
    assert_eq!(
        SolutionSessionId::parse("6e524c7").unwrap_err(),
        "invalid session id: \"6e524c7\""
    );
}

#[test]
fn waiting_messages_are_summarised() {
    let mut session = session();
    session.pending_messages.push(PendingBundle {
        target: QueueTarget::Main,
        blocks: vec![
            PromptBlock {
                content: PromptContent::Text("later".to_string()),
                client_send_id: Some(7),
                extra: None,
            },
            image_block("image/png", IMAGE_B64),
        ],
    });
    let result = get(&session, GetSessionParams::default());
    assert_eq!(result.pending_bundles.len(), 1);
    assert_eq!(result.pending_bundles[0].csids, vec![7]);
    assert_eq!(result.pending_bundles[0].image_count, 1);
    assert!(result.pending_bundles[0].preview.contains("later"));
}

#[test]
fn running_sessions_say_since_when() {
    let mut session = session();
    session.state = SessionState::Running { started_at: 3_000_000_000, notified: false };
    assert_eq!(
        summary_of(session).state,
        SessionStateDto::Running { started_at_ms: 1_700_000_098_000 }
    );
}

#[test]
fn pages_put_together_are_the_whole() {
    let session = session_with_entries(5);
    let older = get(&session, GetSessionParams { before_index: Some(2), ..Default::default() });
    let newer = get(&session, GetSessionParams { after_index: Some(1), ..Default::default() });
    let mut all = indices(&older);
    all.extend(indices(&newer));
    assert_eq!(all, indices(&get(&session, GetSessionParams::default())));
}

#[test]
fn history_is_read_from_the_running_session_or_the_archive() {
    let session = session_with_entries(5);
    let input = ReadSessionHistoryParams {
        session_id: session.id.as_str().to_string(),
        limit: Some(2),
        offset: Some(1),
    };
    let response = ReadSessionHistoryTool
        .run(&input, &vec![session])
        .expect("read_session_history")
        .expect("the session is running");
    assert_eq!(response.result.source, "live");
    assert_eq!(response.result.total_entries, 5);
    assert_eq!(response.result.returned_entries, 2);
    assert_eq!(response.result.entries, vec!["entry-1".to_string(), "entry-2".to_string()]);

    let gone = ReadSessionHistoryTool.run(&input, &Vec::new()).expect("read_session_history");
    assert!(gone.is_none(), "the archive has to be asked");
    let archive = Archive::Found {
        title: "Old".to_string(),
        entries: vec!["first".to_string()],
    };
    let first = ReadSessionHistoryParams { limit: None, offset: None, ..input };
    let response = ReadSessionHistoryTool.run_archived(&first, archive).expect("archived");
    assert_eq!(response.result.title, "Old");
    assert_eq!(response.result.total_entries, 1);
    assert!(response.result.entries[0].contains("first"));
    assert!(ReadSessionHistoryTool.run_archived(&first, Archive::Missing).is_err());
    assert!(ReadSessionHistoryTool.run_archived(&first, Archive::Unreadable).is_err());
}

#[test]
fn requests_become_actions_of_the_store() {
    let id = SolutionSessionId::new();
    let text = || id.as_str().to_string();
    let send = SendMessageParams { session_id: text(), content: "hi".to_string() };
    assert!(matches!(
        SendMessageTool.run(&send),
        Ok(StoreAction::SendMessage { session_id, content }) if session_id == id && content == "hi"
    ));
    assert_eq!(SendMessageTool.respond().text, "queued");
    let blocks =
        SendMessageBlocksParams { session_id: text(), blocks: vec![text_block("hi")] };
    let target = SendMessageBlocksTool.run(&blocks).expect("send_message_blocks");
    assert!(matches!(
        SendMessageBlocksTool.send(target, blocks.blocks),
        StoreAction::SendBlocks { session_id, blocks } if session_id == id && blocks.len() == 1
    ));
    let empty = SendMessageBlocksParams { session_id: text(), blocks: Vec::new() };
    assert!(SendMessageBlocksTool.run(&empty).is_err());
    assert!(matches!(
        DeleteSessionTool.run(&DeleteSessionParams { session_id: text() }),
        Ok(StoreAction::Close { session_id }) if session_id == id
    ));
    let cancel = CancelTurnTool
        .run(&CancelTurnParams { session_id: text(), flush_pending: true })
        .unwrap_or_else(|err| panic!("{err}"));
    assert!(matches!(&cancel, StoreAction::InterruptAndFlush { session_id } if *session_id == id));
    assert!(matches!(
        CancelTurnTool.after_failure(&cancel),
        Some(StoreAction::CancelTurn { session_id }) if session_id == id
    ));
    assert!(matches!(
        CancelTurnTool.run(&CancelTurnParams { session_id: text(), flush_pending: false }),
        Ok(StoreAction::CancelTurn { session_id }) if session_id == id
    ));
    let rename = RenameSessionParams { session_id: text(), title: "New".to_string() };
    assert!(matches!(
        RenameSessionTool.run(&rename),
        Ok(StoreAction::Rename { session_id, title }) if session_id == id && title == "New"
    ));
    let unnamed = RenameSessionParams { session_id: text(), title: String::new() };
    assert_eq!(
        RenameSessionTool.run(&unnamed).err().as_deref(),
        Some("invalid_params: title is required")
    );
    assert!(matches!(
        RestartAgentTool.run(&RestartAgentParams { session_id: text() }),
        Ok(StoreAction::Restart { session_id }) if session_id == id
    ));
    assert!(matches!(
        ResetContextTool.run(&ResetContextParams { session_id: text() }),
        Ok(StoreAction::ResetContext { session_id }) if session_id == id
    ));
}

#[test]
fn a_stuck_session_is_made_idle() {
    let mut stuck = session();
    stuck.state = SessionState::Errored("boom".to_string());
    let id = stuck.id;
    let mut sessions = vec![session(), stuck];
    let input = ForceIdleParams { session_id: id.as_str().to_string() };
    let response = ForceIdleTool.run(&input, &mut sessions).expect("force_idle");
    assert_eq!(response.result.previous_kind, "errored");
    assert!(matches!(sessions[1].state, SessionState::Idle));
    assert_eq!(sessions.len(), 2);
    let input = ForceIdleParams { session_id: "abcd1234".to_string() };
    assert!(ForceIdleTool.run(&input, &mut sessions).is_err());
}

#[test]
fn every_tool_is_offered_once() {
    let mut offered: Vec<&'static str> = Vec::new();
    register(&mut offered);
    let distinct: std::collections::HashSet<&str> = offered.iter().copied().collect();
    assert_eq!(distinct.len(), offered.len());
    assert!(offered.contains(&"solution_agent.get_session"));
}
