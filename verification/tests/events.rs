use solution_agent::background_agent::{
    BackgroundAgent, BackgroundAgentId, BackgroundAgentSnapshot,
};
use solution_agent::background_shell::{
    BackgroundShell, BackgroundShellId, BackgroundShellSnapshot, ShellRuntimeState,
};
use solution_agent::clock::Timestamp;
use solution_agent::event_sources::{
    build_background_agents_changed_payload, build_background_shells_changed_payload,
    build_message_appended_payload, build_queue_changed_payload, notification_for,
    EventSourceCoordinator, NotifyKind, SolutionAgentStoreEvent,
};
use solution_agent::model::{
    AcpThread, PendingBundle, QueueTarget, SessionState, SolutionSession, SolutionSessionId,
    ThreadEntry, NO_TIMESTAMP_MS,
};
use solution_agent::thread::{
    AgentThreadEntry, ContentBlock, PromptBlock, PromptContent, UserMessage,
};

const HINT: &str = "(queued while you were busy)";

fn at(millis: i64) -> Timestamp {
    Timestamp::from_unix(millis / 1000, (millis % 1000) as u32 * 1_000_000).unwrap()
}

fn stamped_text(text: &str, csid: i64) -> PromptBlock {
    PromptBlock {
        content: PromptContent::Text(text.to_string()),
        client_send_id: Some(csid),
        extra: None,
    }
}

fn image_block() -> PromptBlock {
    PromptBlock {
        content: PromptContent::Image {
            data: "AAAA".to_string(),
            mime_type: "image/png".to_string(),
        },
        client_send_id: None,
        extra: None,
    }
}

fn session() -> SolutionSession {
    SolutionSession::new_idle(
        SolutionSessionId::new(),
        "sol-a".to_string(),
        "mock-agent".to_string(),
        "acp-1".to_string(),
    )
}

fn session_with_user_text(text: &str) -> SolutionSession {
    let mut session = session();
    let block =
        PromptBlock { content: PromptContent::Text(text.to_string()), client_send_id: None, extra: None };
    session.set_acp_thread(Some(AcpThread {
        entries: vec![ThreadEntry {
            entry: AgentThreadEntry::UserMessage(UserMessage {
                id: None,
                content: ContentBlock::Markdown { markdown: text.to_string() },
                chunks: vec![block],
            }),
            markdown: format!("## User\n\n{text}\n\n"),
        }],
        token_usage: None,
    }));
    session.entry_created_ms.push(1_700_000_000_000);
    session
}

#[test]
fn install_is_idempotent() {
    let mut coordinator = EventSourceCoordinator::new();
    assert!(coordinator.install(true));
    assert!(!coordinator.install(true));
    assert!(coordinator.installed);
}

#[test]
fn install_without_store_global_is_a_no_op() {
    let mut coordinator = EventSourceCoordinator::new();
    assert!(!coordinator.install(false));
    assert!(!coordinator.installed);
}

#[test]
fn store_event_does_not_panic() {
    let event = SolutionAgentStoreEvent::SessionCreated {
        id: SolutionSessionId::new(),
        parent_session_id: None,
    };
    let notification = notification_for(&event, &Vec::new(), HINT).expect("a notification");
    assert!(notification.payload.get("parent_session_id").unwrap().is_null());
}

#[test]
fn message_appended_payload_carries_index_role_and_preview() {
    let session = session_with_user_text("hi");
    let id = session.id;
    let payload = build_message_appended_payload(&id, 0, &vec![session]);
    let obj = payload.as_object().expect("object");
    assert_eq!(obj.get("session_id").and_then(|v| v.as_str()), Some(id.as_str()));
    assert_eq!(obj.get("entry_index").and_then(|v| v.as_u64()), Some(0));
    assert_eq!(obj.get("role").and_then(|v| v.as_str()), Some("user"));
    let preview = obj.get("preview").and_then(|v| v.as_str()).expect("preview");
    assert!(preview.contains("hi"), "preview should contain 'hi': {preview}");
}

#[test]
fn message_appended_payload_falls_back_when_thread_missing() {
    let payload = build_message_appended_payload(&SolutionSessionId::new(), 7, &Vec::new());
    let obj = payload.as_object().expect("object");
    assert_eq!(obj.get("entry_index").and_then(|v| v.as_u64()), Some(7));
    assert!(obj.get("role").is_none());
    assert!(obj.get("preview").is_none());
}

#[test]
fn queue_changed_payload_summarises_mixed_bundle() {
    let mut session = session();
    let id = session.id;
    session.pending_messages.push(PendingBundle {
        target: QueueTarget::Main,
        blocks: vec![
            stamped_text("hello world", 111),
            image_block(),
            stamped_text("more", 222),
            image_block(),
        ],
    });
    let payload = build_queue_changed_payload(&id, &vec![session], HINT);
    let obj = payload.as_object().expect("object");
    assert_eq!(obj.get("session_id").and_then(|v| v.as_str()), Some(id.as_str()));
    let bundles = obj.get("bundles").and_then(|v| v.as_array()).expect("bundles");
    assert_eq!(bundles.len(), 1, "one seeded bundle → one descriptor");
    let bundle = bundles[0].as_object().expect("bundle object");
    let csids: Vec<i64> = bundle
        .get("csids")
        .and_then(|v| v.as_array())
        .expect("csids")
        .iter()
        .filter_map(|v| v.as_i64())
        .collect();
    assert_eq!(csids, vec![111, 222], "csids in first-seen order, deduped");
    let preview = bundle.get("preview").and_then(|v| v.as_str()).expect("preview");
    assert!(preview.contains("hello world") && preview.contains("more"));
    assert_eq!(bundle.get("image_count").and_then(|v| v.as_u64()), Some(2));
}

#[test]
fn queue_changed_payload_empty_queue_emits_empty_bundles() {
    let session = session();
    let id = session.id;
    let payload = build_queue_changed_payload(&id, &vec![session], HINT);
    let bundles = payload.get("bundles").and_then(|v| v.as_array()).expect("bundles");
    assert!(bundles.is_empty(), "empty queue must emit an empty bundles array");
}

#[test]
fn background_shells_changed_payload_is_lite_and_ordered() {
    let mut session = session();
    let id = session.id;
    let shell = BackgroundShell {
        id: BackgroundShellId::new("zzz999"),
        command: "tail -f log".to_string(),
        output_path: "/tmp/zzz999.output".to_string(),
        registered_at: at(0),
        latest: Some(BackgroundShellSnapshot {
            mtime: at(1_700_000_000_000),
            output_tail: "heavy tail that must NOT ship\n".to_string(),
        }),
        last_offset: 30,
        state: ShellRuntimeState::Running,
    };
    session.background_shell_order.push(shell.id.clone());
    session.background_shells.push(shell);
    let payload = build_background_shells_changed_payload(&id, &vec![session]);
    let obj = payload.as_object().expect("object");
    assert_eq!(obj.get("session_id").and_then(|v| v.as_str()), Some(id.as_str()));
    let shells =
        obj.get("background_shells").and_then(|v| v.as_array()).expect("background_shells");
    assert_eq!(shells.len(), 1);
    let shell = shells[0].as_object().expect("shell object");
    assert_eq!(shell.get("id").and_then(|v| v.as_str()), Some("zzz999"));
    assert_eq!(shell.get("state").and_then(|v| v.as_str()), Some("running"));
    assert!(shell.get("mtime_ms").and_then(|v| v.as_i64()).is_some());
    assert!(shell.get("output_tail").is_none());
}

#[test]
fn background_shells_changed_payload_empty_when_session_gone() {
    let payload = build_background_shells_changed_payload(&SolutionSessionId::new(), &Vec::new());
    let shells = payload
        .get("background_shells")
        .and_then(|v| v.as_array())
        .expect("background_shells");
    assert!(shells.is_empty());
}

#[test]
fn background_agents_changed_payload_is_ordered() {
    let mut session = session();
    let id = session.id;
    let first = BackgroundAgent {
        id: BackgroundAgentId::new("a30f92a688e431ed"),
        jsonl_path: "/tmp/a30f92a688e431ed.jsonl".to_string(),
        registered_at: at(0),
        latest: Some(BackgroundAgentSnapshot {
            mtime: at(1_700_000_000_000),
            activity_label: "Bash: cargo build".to_string(),
            stop_reason: None,
        }),
        last_offset: 30,
    };
    let second = BackgroundAgent {
        id: BackgroundAgentId::new("b41a03b799f542fe"),
        jsonl_path: "/tmp/b41a03b799f542fe.jsonl".to_string(),
        registered_at: at(0),
        latest: None,
        last_offset: 0,
    };
    session.background_agent_order.push(first.id.clone());
    session.background_agent_order.push(second.id.clone());
    session.background_agents.push(first);
    session.background_agents.push(second);
    let payload = build_background_agents_changed_payload(&id, &vec![session]);
    let obj = payload.as_object().expect("object");
    assert_eq!(obj.get("session_id").and_then(|v| v.as_str()), Some(id.as_str()));
    let agents =
        obj.get("background_agents").and_then(|v| v.as_array()).expect("background_agents");
    assert_eq!(agents.len(), 2);
    let first = agents[0].as_object().expect("agent object");
    assert_eq!(first.get("id").and_then(|v| v.as_str()), Some("a30f92a688e431ed"));
    assert_eq!(first.get("label").and_then(|v| v.as_str()), Some("Bash: cargo build"));
    assert!(first.get("mtime_ms").and_then(|v| v.as_i64()).is_some());
    let second = agents[1].as_object().expect("agent object");
    assert_eq!(second.get("id").and_then(|v| v.as_str()), Some("b41a03b799f542fe"));
    assert_eq!(second.get("label").and_then(|v| v.as_str()), Some("Generating…"));
    assert!(second.get("mtime_ms").is_none());
}

#[test]
fn background_agents_changed_payload_empty_when_session_gone() {
    let payload = build_background_agents_changed_payload(&SolutionSessionId::new(), &Vec::new());
    let agents = payload
        .get("background_agents")
        .and_then(|v| v.as_array())
        .expect("background_agents");
    assert!(agents.is_empty());
}

#[test]
fn message_appended_payload_includes_created_ms() {
    let mut session = session_with_user_text("hello");
    let id = session.id;
    let sessions = vec![session.clone()];
    let payload = build_message_appended_payload(&id, 0, &sessions);
    let created = payload.get("created_ms").and_then(|v| v.as_i64());
    assert!(created.is_some_and(|ms| ms > 0), "got: {created:?}");

    let payload = build_message_appended_payload(&id, 99, &sessions);
    assert!(payload.get("created_ms").is_none(), "missing stamp must not emit created_ms key");

    session.entry_created_ms[0] = NO_TIMESTAMP_MS;
    let payload = build_message_appended_payload(&id, 0, &vec![session]);
    assert!(payload.get("created_ms").is_none(), "the absent stamp must not be shown");
}

#[test]
fn every_event_is_announced_or_kept_quiet() {
    let mut changed = session();
    changed.state = SessionState::Errored("boom".to_string());
    changed.title = "New title".to_string();
    let id = changed.id;
    let sessions = vec![changed];
    let tell = |event: SolutionAgentStoreEvent| notification_for(&event, &sessions, HINT);
    let closed = tell(SolutionAgentStoreEvent::SessionClosed(id)).expect("a notification");
    assert_eq!(closed.payload.get("session_id").unwrap().as_str(), Some(id.as_str()));
    let reset =
        tell(SolutionAgentStoreEvent::SessionContextReset { id, context_count: 3 }).unwrap();
    assert_eq!(reset.payload.get("context_count").unwrap().as_u64(), Some(3));
    let told =
        tell(SolutionAgentStoreEvent::SessionNotified(id, NotifyKind::AwaitingInput)).unwrap();
    assert_eq!(told.payload.get("kind").unwrap().as_str(), Some("awaiting_input"));
    let kinds: Vec<&str> = [
        SolutionAgentStoreEvent::SessionStateChanged(id),
        SolutionAgentStoreEvent::SessionTitleChanged(id),
        SolutionAgentStoreEvent::SessionMessageAppended(id, 0),
        SolutionAgentStoreEvent::SessionQueueChanged(id),
        SolutionAgentStoreEvent::SessionSubagentsChanged(id),
        SolutionAgentStoreEvent::SessionBackgroundAgentsChanged(id),
        SolutionAgentStoreEvent::SessionBackgroundShellsChanged(id),
    ]
    .into_iter()
    .filter_map(tell)
    .map(|notification| notification.kind)
    .collect();
    let distinct: std::collections::HashSet<&str> = kinds.iter().copied().collect();
    assert_eq!(distinct.len(), kinds.len());
    assert!(!kinds.is_empty());
}
