use solution_agent::clock::{ClockReading, Timestamp};
use solution_agent::event_sources::build_queue_changed_payload;
use solution_agent::mcp::conversation::{
    build_pending_bundle_summaries, GetSessionEntryTool, GetSessionTool, ReadSessionHistoryTool,
};
use solution_agent::mcp::dto::{GetSessionEntryParams, GetSessionParams, ReadSessionHistoryParams};
use solution_agent::mcp::entries::csids_from_blocks;
use solution_agent::message_generator::clean_commit_message;
use solution_agent::metrics_emitter::METRICS_CHANGED;
use solution_agent::model::{
    pick_id_byte, AcpThread, PendingBundle, QueueTarget, SessionState, SolutionSession,
    SolutionSessionId, ThreadEntry,
};
use solution_agent::search::find_all;
use solution_agent::text::truncate_preview;
use solution_agent::thread::{
    AgentThreadEntry, ContentBlock, PromptBlock, PromptContent, UserMessage,
};
use solution_agent::tool_output::truncate_tool_summary;

const HINT: &str = "(queued while you were busy)";

fn block(text: &str, client_send_id: Option<i64>) -> PromptBlock {
    PromptBlock { content: PromptContent::Text(text.to_string()), client_send_id, extra: None }
}

fn session_with_entries(n: usize) -> SolutionSession {
    let mut session = SolutionSession::new_idle(
        SolutionSessionId::new(),
        "sol-a".to_string(),
        "mock-agent".to_string(),
        "acp-1".to_string(),
    );
    let entries = (0..n)
        .map(|i| ThreadEntry {
            entry: AgentThreadEntry::UserMessage(UserMessage {
                id: None,
                content: ContentBlock::Markdown { markdown: format!("entry-{i}") },
                chunks: vec![block(&format!("entry-{i}"), Some(i as i64))],
            }),
            markdown: format!("entry-{i}"),
        })
        .collect();
    session.set_acp_thread(Some(AcpThread { entries, token_usage: None }));
    session
}

#[test]
fn every_id_character_is_equally_likely() {
    let mut counts = [0usize; 256];
    let mut refused = 0;
    for x in 0..=255u8 {
        match pick_id_byte(x) {
            Some(byte) => counts[byte as usize] += 1,
            None => refused += 1,
        }
    }
    for byte in (b'a'..=b'z').chain(b'0'..=b'9') {
        assert_eq!(counts[byte as usize], 7);
    }
    assert_eq!(refused, 4);
}

#[test]
fn ids_are_read_back() {
    for _ in 0..50 {
        let id = SolutionSessionId::new();
        let text = id.as_str().to_string();
        assert_eq!(text.len(), 8);
        assert!(text.bytes().all(|b| b.is_ascii_lowercase() || b.is_ascii_digit()));
        assert_eq!(SolutionSessionId::parse(&text).unwrap(), id);
    }
}

#[test]
fn a_preview_starts_as_the_text_does() {
    assert_eq!(truncate_preview("hello", 10), "hello");
    assert_eq!(truncate_preview("hello", 5), "hello");
    let cut = truncate_preview("héllo wörld", 4);
    assert!(cut.starts_with("héll"));
    assert!(cut.ends_with('…'));
}

#[test]
fn matches_come_in_order_and_apart() {
    let found = find_all("Aa aA aaa", "aa");
    for pair in found.windows(2) {
        assert!(pair[0].end <= pair[1].start);
    }
    assert_eq!(found, vec![0..2, 3..5, 6..8]);
}

#[test]
fn short_output_is_shown_whole() {
    let short = "one\ntwo\nthree";
    assert_eq!(truncate_tool_summary(short), short);
}

#[test]
fn send_ids_come_once() {
    let blocks = vec![
        block("a", Some(5)),
        block("b", Some(3)),
        block("c", None),
        block("d", Some(5)),
    ];
    assert_eq!(csids_from_blocks(&blocks), vec![5, 3]);
}

#[test]
fn a_single_entry_is_told_as_in_the_whole() {
    let session = session_with_entries(4);
    let now = ClockReading { wall: Timestamp::from_unix(0, 0).unwrap(), monotonic_ns: 0 };
    let sessions = vec![session];
    let id = sessions[0].id.as_str().to_string();
    let whole = GetSessionParams {
        session_id: id.clone(),
        include_full_content: true,
        ..Default::default()
    };
    let whole = GetSessionTool.run(&whole, &sessions, HINT, &now).expect("get_session").result;
    for index in 0..4 {
        let input =
            GetSessionEntryParams { session_id: id.clone(), index, include_images: false };
        let single = GetSessionEntryTool.run(&input, &sessions).expect("entry").result.entry;
        assert_eq!(single.index, whole.entries[index].index);
        assert_eq!(single.preview, whole.entries[index].preview);
        assert_eq!(single.markdown, whole.entries[index].markdown);
        assert_eq!(single.client_send_id, whole.entries[index].client_send_id);
    }
}

#[test]
fn a_page_of_history_is_bounded() {
    let session = session_with_entries(1_200);
    let input = ReadSessionHistoryParams {
        session_id: session.id.as_str().to_string(),
        limit: Some(usize::MAX),
        offset: Some(usize::MAX),
    };
    let sessions = vec![session];
    let past = ReadSessionHistoryTool.run(&input, &sessions).unwrap().unwrap().result;
    assert_eq!(past.total_entries, 1_200);
    assert_eq!(past.returned_entries, 0);
    let input = ReadSessionHistoryParams { offset: None, ..input };
    let page = ReadSessionHistoryTool.run(&input, &sessions).unwrap().unwrap().result;
    assert_eq!(page.returned_entries, page.entries.len());
    assert_eq!(page.returned_entries, 500);
    let input = ReadSessionHistoryParams { limit: None, ..input };
    let usual = ReadSessionHistoryTool.run(&input, &sessions).unwrap().unwrap().result;
    assert_eq!(usual.returned_entries, 100);
}

#[test]
fn the_queue_is_told_alike() {
    let mut session = session_with_entries(0);
    session.pending_messages.push(PendingBundle {
        target: QueueTarget::Subagent("sub1".to_string()),
        blocks: vec![block("first", Some(1)), block("second", Some(2))],
    });
    let summaries = build_pending_bundle_summaries(&session, HINT);
    let id = session.id;
    let payload = build_queue_changed_payload(&id, &vec![session], HINT);
    let bundle = &payload["bundles"][0];
    assert_eq!(summaries.len(), 1);
    assert_eq!(bundle["preview"].as_str(), Some(summaries[0].preview.as_str()));
    assert_eq!(bundle["image_count"].as_u64(), Some(summaries[0].image_count as u64));
    assert_eq!(bundle["csids"][1].as_i64(), Some(summaries[0].csids[1]));
}

#[test]
fn states_have_labels_and_some_end_a_turn() {
    let running = SessionState::Running { started_at: 0, notified: false };
    assert_eq!(running.short_label(), "Running");
    assert!(!running.is_terminal_for_notification());
    assert_eq!(SessionState::AwaitingInput.short_label(), "Awaiting input");
    assert!(SessionState::AwaitingInput.is_terminal_for_notification());
    assert!(SessionState::Errored("x".to_string()).is_terminal_for_notification());
    assert_eq!(METRICS_CHANGED, "workspace.session_metrics_changed");
}

#[test]
fn every_occurrence_meets_a_match() {
    let text = "aaaaa bAAb aa";
    let lower = text.to_lowercase();
    let found = find_all(text, "aa");
    for at in 0..lower.len() {
        if lower[at..].starts_with("aa") {
            assert!(found.iter().any(|range| range.start <= at && at < range.end), "{at}");
        }
    }
    for range in found {
        assert!(text[range].eq_ignore_ascii_case("aa"));
    }
}

#[test]
fn a_commit_message_is_a_piece_of_the_reply() {
    for raw in [
        "Here is a commit message:\n\n```text\nfix: x\n\nbody\n```\n",
        "  feat: y\n",
        "```\nfix: z",
        "Here's the commit message",
        "",
    ] {
        assert!(raw.contains(&clean_commit_message(raw)), "{raw:?}");
    }
    assert_eq!(
        clean_commit_message("Here is a commit message:\n\n```text\nfix: x\n\nbody\n```\n"),
        "fix: x\n\nbody"
    );
}
