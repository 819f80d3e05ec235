use solution_agent::adapter::{AdapterRegistry, IconName, SolutionAgentAdapter};
use solution_agent::agent_settings::{
    queue_timeout, EphemeralPoolContent, SettingsContent, SolutionAgentContent,
    SolutionAgentSettings,
};
use solution_agent::claude_adapter::ClaudeAcpAdapter;
use solution_agent::clock::{ClockReading, Timestamp};
use solution_agent::compact::{
    cannot_create, compact_gate, compact_queued, start_compact_for_session, CompactGate,
    CompactStep, CompactTemplate,
};
use solution_agent::conversation_render::is_compaction_prompt_text;
use solution_agent::mcp::compaction::{
    validate_handoff_files, CompactSessionTool, FileFacts, HandoffFiles, PromptFacts,
    StartCompactTool, COMPACT_PROMPT_MAX_BYTES,
};
use solution_agent::mcp::dto::{
    CompactSessionParams, StartCompactParams, UploadInitParams, UploadStatusParams,
};
use solution_agent::mcp::lifecycle::StoreAction;
use solution_agent::mcp::uploads::{
    UploadAbortTool, UploadFinishTool, UploadInitTool, UploadStatusTool, HANDLE_SCHEME,
};
use solution_agent::message_generator::{
    clean_commit_message, commit_message_prompt, drive_turn, ephemeral_session, strip_preamble,
    Acquisition, TurnEnd, TurnWatch,
};
use solution_agent::metrics_emitter::MetricsEmitter;
use solution_agent::model::{
    AcpThread, AgentServerId, SessionState, SolutionSession, SolutionSessionId, ThreadEntry,
    TokenUsage,
};
use solution_agent::path::{file_name, is_absolute, is_under, join_path, parent_of, path_components};
use solution_agent::solution::{pick_active_solution, project_for_solution, Solution};
use solution_agent::thread::{
    AgentThreadEntry, AssistantMessage, AssistantMessageChunk, ContentBlock,
};
use std::sync::Arc;
use std::time::Duration;

struct StubAdapter(&'static str);

impl SolutionAgentAdapter for StubAdapter {
    fn agent_id(&self) -> AgentServerId {
        self.0.to_string()
    }

    fn display_name(&self) -> String {
        self.0.to_string()
    }

    fn icon(&self) -> IconName {
        IconName::Sparkle
    }

    fn build_initial_system_prompt(&self, _: &Solution) -> String {
        String::new()
    }
}

#[test]
fn registry_dedupes_and_preserves_first_insert_order() {
    let mut reg: AdapterRegistry<dyn SolutionAgentAdapter> = AdapterRegistry::new();
    reg.register(Arc::new(StubAdapter("a")));
    reg.register(Arc::new(StubAdapter("b")));
    reg.register(Arc::new(StubAdapter("a")));
    assert_eq!(reg.supported_ids(), &["a".to_string(), "b".to_string()]);
    assert!(reg.get(&"a".to_string()).is_some());
    assert!(reg.get(&"c".to_string()).is_none());
}

#[test]
fn defaults_match_plan() {
    let s = SolutionAgentSettings::default();
    assert_eq!(s.ephemeral.max_concurrent, 3);
    assert_eq!(s.ephemeral.queue_timeout, Duration::from_secs(30));
    assert_eq!(s.ephemeral.idle_ttl, Duration::from_secs(60));
}

#[test]
fn settings_override_the_defaults_one_by_one() {
    let content = SettingsContent {
        solution_agent: Some(SolutionAgentContent {
            ephemeral: Some(EphemeralPoolContent {
                max_concurrent: None,
                queue_timeout_seconds: Some(5),
                idle_ttl_seconds: None,
            }),
        }),
    };
    let s = SolutionAgentSettings::from_settings(&content);
    assert_eq!(s.ephemeral.max_concurrent, 3);
    assert_eq!(s.ephemeral.queue_timeout, Duration::from_secs(5));
    assert_eq!(s.ephemeral.idle_ttl, Duration::from_secs(60));
    assert_eq!(queue_timeout(Some(&s)), Duration::from_secs(5));
    assert_eq!(queue_timeout(None), Duration::from_secs(30));
    let none = SolutionAgentSettings::from_settings(&SettingsContent { solution_agent: None });
    assert_eq!(none.ephemeral.queue_timeout, Duration::from_secs(30));
}

fn solution(members: Vec<&str>) -> Solution {
    Solution {
        id: "sol-x".to_string(),
        root: "/tmp/sol-x".to_string(),
        member_paths: members.into_iter().map(|m| format!("/tmp/sol-x/{m}")).collect(),
        last_opened_at: Timestamp::from_unix(1_700_000_000, 0),
    }
}

fn adapter() -> ClaudeAcpAdapter {
    ClaudeAcpAdapter {
        agent_id: "acp-agent".to_string(),
        display_name: "Agent".to_string(),
        guidance_file: "GUIDANCE.md".to_string(),
    }
}

#[test]
fn prompt_lists_members_and_includes_root_path() {
    let sol = solution(vec!["ecos-records", "ecos-app"]);
    let prompt = adapter().build_initial_system_prompt(&sol);
    assert!(prompt.contains("Solution root: /tmp/sol-x"));
    assert!(prompt.contains("- ecos-records"));
    assert!(prompt.contains("- ecos-app"));
    assert!(prompt.contains("GUIDANCE.md"));
    assert!(prompt.contains("Stay inside the solution"));
}

#[test]
fn prompt_handles_empty_solution() {
    let sol = solution(vec![]);
    let prompt = adapter().build_initial_system_prompt(&sol);
    assert!(prompt.contains("(none yet — solution is empty)"));
}

#[test]
fn the_agent_is_what_it_is_configured_to_be() {
    let agent = adapter();
    assert_eq!(agent.agent_id(), "acp-agent");
    assert_eq!(SolutionAgentAdapter::display_name(&agent), "Agent");
    assert_eq!(agent.icon(), IconName::AiClaude);
    assert!(agent.supports_resume());
    assert!(!StubAdapter("a").supports_resume());
}

#[test]
fn emit_if_ready_throttles_repeat_calls_for_same_session() {
    let mut emitter = MetricsEmitter::new();
    let sid = SolutionSessionId::new();
    let time_of = |emitter: &MetricsEmitter| {
        emitter.last_emit.iter().find(|(id, _)| *id == sid).map(|(_, time)| *time)
    };
    assert!(emitter.emit_if_ready(&sid, 1_000_000_000));
    let first_time = time_of(&emitter).expect("noted");
    assert!(!emitter.emit_if_ready(&sid, 1_000_000_001));
    let second_time = time_of(&emitter).expect("noted");
    assert_eq!(first_time, second_time, "throttle within window");
    assert!(!emitter.emit_if_ready(&sid, 2_999_999_999));
    assert!(emitter.emit_if_ready(&sid, 3_000_000_000));
}

#[test]
fn emit_if_ready_allows_different_sessions() {
    let mut emitter = MetricsEmitter::new();
    let sid_a = SolutionSessionId::new();
    let sid_b = SolutionSessionId::new();
    emitter.emit_if_ready(&sid_a, 7);
    emitter.emit_if_ready(&sid_b, 7);
    assert!(emitter.last_emit.iter().any(|(id, _)| *id == sid_a));
    assert!(emitter.last_emit.iter().any(|(id, _)| *id == sid_b));
}

#[test]
fn strip_preamble_removes_here_is_lead() {
    let raw = "Here is a commit message:\n\nfix: handle empty diff";
    assert_eq!(strip_preamble(raw), "fix: handle empty diff");
}

#[test]
fn strip_preamble_removes_apostrophe_variant() {
    let raw = "Here's the commit message:\nfeat: add ephemeral pool";
    assert_eq!(strip_preamble(raw), "feat: add ephemeral pool");
}

#[test]
fn strip_preamble_removes_code_fences() {
    let raw = "```\nfeat: add tests\n```";
    assert_eq!(strip_preamble(raw), "feat: add tests");
}

#[test]
fn strip_preamble_removes_lang_tagged_fence() {
    let raw = "```text\nfix: panic on close\n```";
    assert_eq!(strip_preamble(raw), "fix: panic on close");
}

#[test]
fn strip_preamble_passes_through_clean_message() {
    let raw = "fix: thing\n\n- detail";
    assert_eq!(strip_preamble(raw), "fix: thing\n\n- detail");
}

#[test]
fn strip_preamble_handles_blank_input() {
    assert_eq!(strip_preamble(""), "");
    assert_eq!(strip_preamble("   \n\n"), "");
}

#[test]
fn commit_messages_are_tight_and_bare_ones_kept() {
    assert_eq!(clean_commit_message("  fix: x \n"), "fix: x");
    assert_eq!(clean_commit_message("fix: x"), "fix: x");
    assert!(commit_message_prompt("+added line").contains("+added line"));
}

fn answered(text: &str) -> AcpThread {
    AcpThread {
        entries: vec![ThreadEntry {
            entry: AgentThreadEntry::AssistantMessage(AssistantMessage {
                chunks: vec![AssistantMessageChunk::Message {
                    block: ContentBlock::Markdown { markdown: text.to_string() },
                }],
                subagent_id: None,
            }),
            markdown: String::new(),
        }],
        token_usage: None,
    }
}

#[test]
fn run_ephemeral_task_returns_assistant_text() {
    let id = SolutionSessionId::new();
    let host = ephemeral_session(Acquisition::Acquired(id), true).expect("a session");
    let mut watch = TurnWatch::new(host);
    let running = SessionState::Running { started_at: 1, notified: false };
    watch.state_changed(&host, Some(&running));
    assert!(watch.end.is_none());
    watch.state_changed(&SolutionSessionId::new(), Some(&SessionState::Idle));
    watch.state_changed(&host, Some(&SessionState::Idle));
    let reply = "Here is a commit message:\n\nfix: handle empty diff";
    let text = drive_turn(true, watch.end, Some(&answered(reply))).expect("a reply");
    assert_eq!(clean_commit_message(&text), "fix: handle empty diff");
}

#[test]
fn failed_turns_are_reported() {
    assert_eq!(drive_turn(false, None, None).unwrap_err(), "send_message failed");
    assert!(drive_turn(true, None, None).is_err());
    let failed = Some(TurnEnd::Failed("boom".to_string()));
    assert_eq!(drive_turn(true, failed, None).unwrap_err(), "agent errored: boom");
    assert!(drive_turn(true, Some(TurnEnd::Settled), None).is_err());
    let blank = answered("  ");
    assert_eq!(
        drive_turn(true, Some(TurnEnd::Settled), Some(&blank)).unwrap_err(),
        "agent produced no assistant message text"
    );
    assert!(ephemeral_session(Acquisition::Failed, true).is_err());
    assert!(ephemeral_session(Acquisition::TimedOut, true).is_err());
    let gone = Acquisition::Acquired(SolutionSessionId::new());
    assert!(ephemeral_session(gone, false).is_err());
}

fn session_of(solution_id: &str) -> SolutionSession {
    SolutionSession::new_idle(
        SolutionSessionId::new(),
        solution_id.to_string(),
        "mock-agent".to_string(),
        "acp-1".to_string(),
    )
}

fn session_using(used_tokens: u64, max_tokens: u64) -> SolutionSession {
    let mut session = session_of("sol-x");
    session.set_acp_thread(Some(AcpThread {
        entries: Vec::new(),
        token_usage: Some(TokenUsage { used_tokens, max_tokens }),
    }));
    session
}

fn template() -> CompactTemplate {
    let text = "# Compact this session and prepare a clean handoff\n\n\
        {{session_id}} of {{solution_id}} ({{agent_id}}) since {{started_at_iso}}\n\
        {{tokens_used}}/{{tokens_max}} -> {{compact_dir}}continue.md for {{session_id}}\n";
    CompactTemplate::new(text).expect("a template")
}

fn compact_step(
    id: &SolutionSessionId,
    session: SolutionSession,
    share: &str,
) -> Result<CompactStep, String> {
    let solutions = vec![solution(vec![])];
    start_compact_for_session(&template(), id, &vec![session], &solutions, "Idle", share)
}

#[test]
fn start_compact_declines_below_threshold() {
    let session = session_using(1_000, 1_000_000);
    let input = StartCompactParams { session_id: session.id.as_str().to_string() };
    let id = StartCompactTool.run(&input).expect("start_compact dispatches");
    let step = compact_step(&id, session, "0.1").unwrap_or_else(|err| panic!("{err}"));
    let CompactStep::Decline(outcome) = step else {
        panic!("expected the request to be declined");
    };
    let result = StartCompactTool.respond(&id, outcome).result;
    assert!(!result.queued, "expected queued=false");
    let msg = result.message.unwrap_or_default();
    assert!(msg.contains("short") || msg.contains("%"), "got {msg:?}");
}

#[test]
fn start_compact_queues_prompt_when_idle() {
    let session = session_using(250_000, 1_000_000);
    let id = session.id;
    let step = compact_step(&id, session, "25.0").unwrap_or_else(|err| panic!("{err}"));
    let CompactStep::Send(prompt) = step else {
        panic!("expected the prompt to be sent");
    };
    assert!(is_compaction_prompt_text(&prompt.text));
    let result = StartCompactTool.respond(&id, compact_queued()).result;
    assert!(result.queued);
    assert!(result.message.is_none());
}

#[test]
fn cold_compact_queues_prompt_and_kicks_resume() {
    let mut session = session_of("sol-x");
    session.cached_total_tokens = Some(120_000);
    session.created_at = Timestamp::from_unix(1_700_000_000, 0).unwrap();
    let id = session.id;
    let prompt = solution_agent::compact::render_compact_prompt_inner(
        &template(),
        &session,
        &vec![solution(vec![])],
    )
    .unwrap_or_else(|err| panic!("{err}"));
    assert!(!prompt.text.contains("{{compact_dir}}"));
    assert!(prompt.text.contains(id.as_str()));
    assert!(prompt.text.contains("2023-11-14T22:13:20+00:00"));
    assert!(prompt.text.contains("120000"));
    assert!(prompt.text.contains(&prompt.dir));
    assert_eq!(
        prompt.text,
        format!(
            "# Compact this session and prepare a clean handoff\n\n\
             {id} of sol-x ({agent}) since 2023-11-14T22:13:20+00:00\n\
             120000/1000000 -> {dir}/continue.md for {id}\n",
            id = id.as_str(),
            agent = session.agent_id,
            dir = prompt.dir,
        )
    );
}

#[test]
fn cold_session_above_gate_queues_compact_via_mcp() {
    let mut session = session_of("sol-x");
    session.cached_total_tokens = Some(500_000);
    let id = session.id;
    let step = compact_step(&id, session, "50.0");
    assert!(matches!(step, Ok(CompactStep::Send(_))));
}

#[test]
fn compacting_needs_a_use_and_some_room() {
    assert_eq!(compact_gate(&session_using(199_999, 1_000_000)), CompactGate::TooShort);
    assert_eq!(compact_gate(&session_using(200_000, 1_000_000)), CompactGate::Open);
    assert_eq!(compact_gate(&session_using(970_000, 1_000_000)), CompactGate::Open);
    assert_eq!(
        compact_gate(&session_using(970_001, 1_000_000)),
        CompactGate::TooFull { remaining: 29_999 }
    );
    let mut busy = session_using(500_000, 1_000_000);
    busy.state = SessionState::AwaitingInput;
    assert_eq!(compact_gate(&busy), CompactGate::Busy);
    let id = busy.id;
    assert!(start_compact_for_session(&template(), &id, &Vec::new(), &Vec::new(), "", "").is_err());
    let idle = session_using(500_000, 1_000_000);
    let id = idle.id;
    assert!(start_compact_for_session(&template(), &id, &vec![idle], &Vec::new(), "", "").is_err());
    assert_eq!(
        cannot_create("/x", "denied"),
        "Compact failed: cannot create /x: denied"
    );
}

const WRITTEN: Option<FileFacts> = Some(FileFacts { is_file: true, len: 10 });

fn handoff(scope: &str) -> HandoffFiles {
    HandoffFiles {
        state_json: WRITTEN,
        state_text: Some(format!("{{\"scope\": \"{scope}\"}}")),
        state_md: WRITTEN,
        decisions_md: WRITTEN,
        continue_md: WRITTEN,
        next_md: WRITTEN,
    }
}

#[test]
fn a_handover_has_to_be_complete() {
    assert!(validate_handoff_files("/d", &handoff("planned")).is_ok());
    let mut files = handoff("planned");
    files.next_md = None;
    files.state_md = Some(FileFacts { is_file: true, len: 0 });
    assert_eq!(
        validate_handoff_files("/d", &files).unwrap_err(),
        "compact_incomplete (scope=planned): the agent did not write the full bundle. \
         Missing: next.md. Empty: state.md. Expected under /d"
    );
    let mut files = handoff("exploratory");
    files.next_md = None;
    assert!(validate_handoff_files("/d", &files).is_ok());
    files.state_text = Some("not json".to_string());
    assert!(validate_handoff_files("/d", &files).is_err());
    files.state_text = None;
    assert!(validate_handoff_files("/d", &files).is_err());
    files.state_json = None;
    assert!(validate_handoff_files("/d", &files).is_err());
}

fn facts() -> PromptFacts {
    PromptFacts {
        prompt_path: Some("/tmp/sol-x/.agents/c/continue.md".to_string()),
        agents_dir: Some("/tmp/sol-x/.agents".to_string()),
        file: WRITTEN,
        text: Some("go on".to_string()),
        handoff: handoff("planned"),
    }
}

#[test]
fn a_session_goes_on_in_an_empty_context() {
    let session = session_of("sol-x");
    let id = session.id;
    let sessions = vec![session];
    let solutions = vec![solution(vec![])];
    let input = CompactSessionParams {
        session_id: id.as_str().to_string(),
        prompt_file: ".agents/c/continue.md".to_string(),
    };
    let try_with = |facts: PromptFacts| {
        CompactSessionTool.run(&input, &sessions, &solutions, &facts).map(|_| ())
    };
    let rotation = CompactSessionTool
        .run(&input, &sessions, &solutions, &facts())
        .unwrap_or_else(|err| panic!("{err}"));
    assert_eq!(rotation.prompt_bytes, 10);
    assert!(matches!(
        CompactSessionTool.feed(rotation),
        StoreAction::SendMessage { session_id, content } if session_id == id && content == "go on"
    ));
    let response = CompactSessionTool.respond(&id, 2, 10);
    assert_eq!(response.result.prompt_bytes, 10);
    assert!(try_with(PromptFacts { prompt_path: None, ..facts() }).is_err());
    assert!(try_with(PromptFacts { agents_dir: None, ..facts() }).is_err());
    let outside = Some("/tmp/sol-x/continue.md".to_string());
    assert!(try_with(PromptFacts { prompt_path: outside, ..facts() }).is_err());
    assert!(try_with(PromptFacts { file: None, ..facts() }).is_err());
    let dir = Some(FileFacts { is_file: false, len: 10 });
    assert!(try_with(PromptFacts { file: dir, ..facts() }).is_err());
    let large = Some(FileFacts { is_file: true, len: COMPACT_PROMPT_MAX_BYTES + 1 });
    assert!(try_with(PromptFacts { file: large, ..facts() }).is_err());
    assert!(try_with(PromptFacts { text: Some(" \n".to_string()), ..facts() }).is_err());
    assert!(try_with(PromptFacts { text: None, ..facts() }).is_err());
    let mut handoff = handoff("planned");
    handoff.next_md = None;
    assert_eq!(
        try_with(PromptFacts { handoff, ..facts() }),
        Err("compact_incomplete (scope=planned): the agent did not write the full bundle. \
             Missing: next.md. Expected under /tmp/sol-x/.agents/c"
            .to_string())
    );
    let nowhere = CompactSessionParams { prompt_file: String::new(), ..input.clone() };
    assert!(CompactSessionTool.run(&nowhere, &sessions, &solutions, &facts()).is_err());
}

fn init_params(session_id: &str, total_size: u64) -> UploadInitParams {
    UploadInitParams {
        session_id: session_id.to_string(),
        mime: "image/png".to_string(),
        display_name: "pic.png".to_string(),
        total_size,
        sha256: None,
    }
}

#[test]
fn upload_init_returns_id_and_status_round_trips() {
    let session = session_of("sol-x");
    let input = init_params(session.id.as_str(), 4);
    UploadInitTool.run(&input, &vec![session]).expect("upload_init");
    let init = UploadInitTool.respond(Some(Ok(1))).expect("upload_init");
    let upload_id = init.result.upload_id;
    assert!(upload_id > 0);
    let status = UploadStatusTool
        .run(&UploadStatusParams { upload_id }, Some(Some((0, 4))))
        .expect("upload_status");
    assert_eq!(status.result.received_bytes, 0);
    assert_eq!(status.result.total_size, 4);
    assert!(UploadStatusTool.run(&UploadStatusParams { upload_id }, Some(None)).is_err());
    assert!(UploadStatusTool.run(&UploadStatusParams { upload_id }, None).is_err());
}

#[test]
fn upload_init_rejects_unknown_session() {
    let sessions = vec![session_of("sol-x")];
    assert!(UploadInitTool.run(&init_params("nonexistent-session-id", 1), &sessions).is_err());
    let known = sessions[0].id.as_str().to_string();
    assert!(UploadInitTool.run(&init_params(&known, 0), &sessions).is_err());
    assert!(UploadInitTool.respond(None).is_err());
    assert!(UploadInitTool.respond(Some(Err("full".to_string()))).is_err());
}

#[test]
fn upload_finish_after_chunk_returns_handle_and_abort_cleans() {
    let finish = UploadFinishTool.respond(Some(Ok(12))).expect("upload_finish");
    assert!(finish.result.handle.starts_with(HANDLE_SCHEME));
    assert_eq!(finish.result.handle, "spk-upload://12");
    assert_eq!(UploadAbortTool.respond(Some(Ok(()))).expect("upload_abort").text, "aborted");
    assert!(UploadAbortTool.respond(None).is_err());
}

#[test]
fn paths_are_put_together_and_compared() {
    assert!(is_absolute("/a"));
    assert!(!is_absolute("a"));
    assert_eq!(join_path("/a", "b"), "/a/b");
    assert_eq!(join_path("/a/", "b"), "/a/b");
    assert_eq!(join_path("/a", "/b"), "/b");
    assert_eq!(path_components("/a//b/./c"), vec!["/", "a", "b", "c"]);
    assert!(is_under("/a/b", "/a"));
    assert!(is_under("/a", "/a"));
    assert!(!is_under("/ab", "/a"));
    assert_eq!(file_name("/a/b/").as_deref(), Some("b"));
    assert_eq!(file_name("/"), None);
}

#[test]
fn a_task_is_hosted_by_the_solution_at_hand() {
    let opened = |secs: i64| Solution {
        last_opened_at: Timestamp::from_unix(secs, 0),
        ..solution(vec![])
    };
    let never = Solution { last_opened_at: None, ..solution(vec![]) };
    let all = vec![never.clone(), opened(5), opened(9), opened(9), opened(7)];
    assert_eq!(pick_active_solution(Some(1), Some(&all)), Ok(1));
    assert_eq!(pick_active_solution(None, Some(&all)), Ok(3));
    assert_eq!(pick_active_solution(None, Some(&vec![never])), Ok(0));
    assert!(pick_active_solution(None, Some(&Vec::new())).is_err());
    assert!(pick_active_solution(None, None).is_err());
    let projects = vec![
        vec!["/elsewhere".to_string()],
        vec!["/tmp/sol-x/member".to_string()],
    ];
    assert_eq!(project_for_solution("sol-x", &vec![solution(vec![])], &projects), Some(1));
    assert_eq!(project_for_solution("sol-y", &vec![solution(vec![])], &projects), None);
}

#[test]
fn instants_are_kept_within_the_calendar() {
    assert!(Timestamp::from_unix(-8_334_601_228_801, 0).is_none());
    assert!(Timestamp::from_unix(8_210_266_876_800, 0).is_none());
    assert!(Timestamp::from_unix(59, 1_500_000_000).is_some());
    assert!(Timestamp::from_unix(58, 1_500_000_000).is_none());
    let reading = ClockReading {
        wall: Timestamp::from_unix(100, 0).unwrap(),
        monotonic_ns: 2_000_000_001,
    };
    assert_eq!(reading.wall_millis_at(1_000_000_000), 98_999);
    assert_eq!(reading.wall_millis_at(3_000_000_000), 100_000);
}

#[test]
fn drawn_bytes_make_an_id() {
    let id = SolutionSessionId::from_drawn(&vec![252, 0, 25, 26, 35, 36, 71, 251, 255, 1]);
    assert_eq!(id.expect("eight characters").as_str(), "az09a99b");
    let id = SolutionSessionId::from_drawn(&vec![0, 1, 2, 3, 4, 5, 6, 7, 8, 9]);
    assert_eq!(id.expect("eight characters").as_str(), "abcdefgh");
    assert!(SolutionSessionId::from_drawn(&vec![0, 1, 2, 3, 4, 5, 6, 255]).is_none());
    assert!(SolutionSessionId::from_drawn(&Vec::new()).is_none());
}

#[test]
fn a_path_is_in_the_directory_before_its_last_name() {
    for path in [
        "/a/b", "/a", "/", "", "a", "a/b", ".", "./a", "./.", "a/.", "..", "/..", "../a", "/a/b/",
        "/a//b", "/a/./b", "//a", "//", "/.", "/./", "/a/..", "é/b.c", "/a/b.", "/a/.b", "a/./",
    ] {
        let std_parent = std::path::Path::new(path)
            .parent()
            .map(|dir| dir.to_str().expect("UTF-8").to_string());
        assert_eq!(parent_of(path), std_parent, "{path:?}");
        if let Some(dir) = parent_of(path) {
            let mut parts = path_components(path);
            parts.pop();
            assert_eq!(path_components(&dir), parts, "{path:?}");
        }
    }
    assert_eq!(parent_of("/tmp/x/.agents/c/continue.md").as_deref(), Some("/tmp/x/.agents/c"));
}
