use solution_agent::clock::Timestamp;
use solution_agent::cold_persistence::{from_persisted, to_persisted};
use solution_agent::conversation_render::entry_text_spans;
use solution_agent::conversation_view::{
    entry_menu, link_target, render_assistant_message, render_entry, render_message_time,
    render_plan, render_span, render_tool_call, render_user_message, EntryBody, LinkTarget,
    MenuItem, ShownSpan, SpanShape, Tone,
};
use solution_agent::images::decode_image_local;
use solution_agent::tool_output::tool_call_content_summary;
use solution_agent::thread::{
    AgentThreadEntry, AssistantMessage, AssistantMessageChunk, ContentBlock, Diff, ImageData,
    PermissionOption, PermissionOptionKind, PermissionOptions, PlanEntry, PlanEntryPriority,
    PlanEntryStatus, PromptBlock, PromptContent, Terminal, ToolCall, ToolCallContent,
    ToolCallLocation, ToolCallStatus, ToolKind, UserMessage,
};

const HINT: &str = "(queued while you were busy)";

fn at(secs: i64, millis: u32) -> Timestamp {
    Timestamp::from_unix(secs, millis * 1_000_000).unwrap()
}

fn json(text: &str) -> serde_json::Value {
    serde_json::from_str(text).unwrap()
}

fn markdown(text: &str) -> ContentBlock {
    ContentBlock::Markdown { markdown: text.to_string() }
}

fn call(status: ToolCallStatus) -> ToolCall {
    ToolCall {
        id: "call-1".to_string(),
        label: "Run".to_string(),
        kind: ToolKind::Execute,
        content: vec![ToolCallContent::ContentBlock(markdown("one\ntwo"))],
        status,
        locations: Vec::new(),
        raw_input: Some(json(r#"{"command": "ls"}"#)),
        raw_input_markdown: None,
        raw_output: None,
        tool_name: Some("Bash".to_string()),
        subagent_id: None,
        status_started_at: None,
    }
}

fn user() -> UserMessage {
    UserMessage {
        id: Some("m1".to_string()),
        content: markdown("see [image #1]"),
        chunks: vec![
            PromptBlock {
                content: PromptContent::Text("see [image #1]".to_string()),
                client_send_id: None,
                extra: None,
            },
            PromptBlock {
                content: PromptContent::Image {
                    data: "AQID".to_string(),
                    mime_type: "image/png".to_string(),
                },
                client_send_id: None,
                extra: None,
            },
        ],
    }
}

fn answer(thoughts: &[&str], said: &[&str]) -> AssistantMessage {
    let mut chunks: Vec<AssistantMessageChunk> = Vec::new();
    for text in thoughts {
        chunks.push(AssistantMessageChunk::Thought { block: markdown(text) });
    }
    for text in said {
        chunks.push(AssistantMessageChunk::Message { block: markdown(text) });
    }
    AssistantMessage { chunks, subagent_id: None }
}

#[test]
fn links_open_images_or_addresses() {
    assert!(matches!(link_target("spk-image://1", 2), LinkTarget::Image(1)));
    assert!(matches!(link_target("spk-image://2", 2), LinkTarget::Address));
    assert!(matches!(link_target("https://example.com", 2), LinkTarget::Address));
}

#[test]
fn parts_are_drawn_as_far_as_they_can_be() {
    let span = ShownSpan { index: 0, fallback: "x".to_string() };
    let empty = ShownSpan { index: 0, fallback: String::new() };
    assert!(matches!(render_span(&span, true), SpanShape::Formatted));
    assert!(matches!(render_span(&span, false), SpanShape::Plain));
    assert!(matches!(render_span(&empty, false), SpanShape::Nothing));
}

#[test]
fn only_real_times_are_shown() {
    let shown = render_message_time(Some(1_700_000_000_250)).expect("a time");
    assert_eq!(shown.timestamp_millis(), 1_700_000_000_250);
    assert!(render_message_time(Some(0)).is_none());
    assert!(render_message_time(Some(-1)).is_none());
    assert!(render_message_time(None).is_none());
}

#[test]
fn user_messages_show_their_images() {
    let supported = vec!["image/png".to_string()];
    let row = render_user_message(&user(), None, HINT, &supported);
    assert_eq!(row.span.fallback, "see [image #1](spk-image://0)");
    assert_eq!(row.images.len(), 1);
    assert_eq!(row.images[0].bytes, vec![1, 2, 3]);
    let none = render_user_message(&user(), None, HINT, &Vec::new());
    assert!(none.images.is_empty());
}

#[test]
fn thoughts_give_way_to_the_answer() {
    let thinking = render_assistant_message(&answer(&["hm"], &[]), None);
    assert!(thinking.thinking);
    assert!(thinking.copied.is_none());
    let answered = render_assistant_message(&answer(&["hm"], &["yes"]), None);
    assert!(!answered.thinking);
    assert_eq!(answered.copied.as_deref(), Some("yes"));
}

#[test]
fn running_calls_show_how_long() {
    let mut running = call(ToolCallStatus::InProgress);
    running.status_started_at = Some(at(100, 500));
    let row = render_tool_call(&running, &at(103, 400));
    assert_eq!(row.elapsed_secs, Some(2));
    assert_eq!(row.title.fallback, "Run");
    assert_eq!(row.arg_preview.as_deref(), Some("ls"));
    assert!(row.buttons.is_empty());
    let done = render_tool_call(&call(ToolCallStatus::Completed), &at(103, 0));
    assert_eq!(done.elapsed_secs, None);
    assert!(matches!(done.tone, Tone::Success));
    let failed = render_tool_call(&call(ToolCallStatus::Failed), &at(103, 0));
    assert!(matches!(failed.tone, Tone::Error));
}

#[test]
fn waiting_calls_offer_buttons() {
    let options = PermissionOptions::Flat(vec![
        PermissionOption {
            option_id: "a".to_string(),
            name: "Allow".to_string(),
            kind: PermissionOptionKind::AllowOnce,
        },
        PermissionOption {
            option_id: "r".to_string(),
            name: "Reject".to_string(),
            kind: PermissionOptionKind::RejectOnce,
        },
    ]);
    let waiting = call(ToolCallStatus::WaitingForConfirmation { options });
    let row = render_tool_call(&waiting, &at(0, 0));
    assert_eq!(row.buttons.len(), 2);
    assert!(row.buttons[0].filled);
    assert!(!row.buttons[1].filled);
    assert!(matches!(row.tone, Tone::Muted));
    let rejected = render_tool_call(&call(ToolCallStatus::Rejected), &at(0, 0));
    assert!(matches!(rejected.tone, Tone::Warning));
}

#[test]
fn rewinding_is_offered_where_there_is_a_target() {
    assert_eq!(entry_menu(None).len(), 2);
    let menu = entry_menu(Some("m1".to_string()));
    assert!(matches!(&menu[0], MenuItem::Rewind(id) if id == "m1"));
    assert_eq!(menu.len(), 4);
}

fn plan() -> Vec<PlanEntry> {
    vec![PlanEntry {
        content: "step".to_string(),
        priority: PlanEntryPriority::Medium,
        status: PlanEntryStatus::Pending,
    }]
}

fn parts(body: &EntryBody) -> usize {
    match body {
        EntryBody::User(_) => 1,
        EntryBody::Assistant(row) => row.spans.len(),
        EntryBody::ToolCall(row) => 1 + row.outputs.len(),
        EntryBody::Plan(spans) => spans.len(),
    }
}

#[test]
fn entries_are_drawn_in_as_many_parts_as_they_are_searched() {
    let entries = vec![
        AgentThreadEntry::UserMessage(user()),
        AgentThreadEntry::AssistantMessage(answer(&["a", "b"], &[])),
        AgentThreadEntry::AssistantMessage(answer(&["a"], &["b", "c"])),
        AgentThreadEntry::ToolCall(call(ToolCallStatus::Completed)),
        AgentThreadEntry::CompletedPlan(plan()),
    ];
    for entry in &entries {
        let row = render_entry(entry, None, None, None, HINT, &Vec::new(), &at(0, 0));
        assert_eq!(parts(&row.body), entry_text_spans(entry, HINT).len());
    }
    assert_eq!(render_plan(&plan()).len(), 2);
}

#[test]
fn images_are_decoded_where_they_can_be_shown() {
    let image = decode_image_local("AQID", "image/png", true).expect("an image");
    assert_eq!(image.bytes, vec![1, 2, 3]);
    assert!(decode_image_local("AQID", "image/png", false).is_none());
    assert!(decode_image_local("not base64!", "image/png", true).is_none());
}

#[test]
fn kept_entries_come_back() {
    let message = AgentThreadEntry::UserMessage(user());
    let kept = to_persisted(&message).expect("kept");
    let AgentThreadEntry::UserMessage(back) = from_persisted(kept) else {
        panic!("expected a user message");
    };
    assert_eq!(back.id.as_deref(), Some("m1"));
    assert_eq!(back.content.to_markdown(), "see [image #1]");
    assert_eq!(back.chunks.len(), 2);

    let kept = to_persisted(&AgentThreadEntry::CompletedPlan(plan())).expect("kept");
    assert!(matches!(from_persisted(kept), AgentThreadEntry::CompletedPlan(p) if p.len() == 1));
}

#[test]
fn finished_calls_are_kept_and_others_dropped() {
    assert!(to_persisted(&AgentThreadEntry::ToolCall(call(ToolCallStatus::Pending))).is_none());
    assert!(to_persisted(&AgentThreadEntry::ToolCall(call(ToolCallStatus::InProgress))).is_none());
    let done = AgentThreadEntry::ToolCall(call(ToolCallStatus::Completed));
    let kept = to_persisted(&done).expect("kept");
    let back = from_persisted(kept);
    assert_eq!(entry_text_spans(&back, HINT), entry_text_spans(&done, HINT));
    let again = from_persisted(to_persisted(&back).expect("kept again"));
    assert_eq!(entry_text_spans(&again, HINT), entry_text_spans(&back, HINT));
    let AgentThreadEntry::ToolCall(back) = back else {
        panic!("expected a tool call");
    };
    assert_eq!(back.raw_input, Some(json(r#"{"command": "ls"}"#)));
    assert_eq!(
        back.raw_input_markdown.as_deref(),
        Some("```json\n{\n  \"command\": \"ls\"\n}\n```")
    );
}

#[test]
fn images_of_tool_calls_have_a_source() {
    let block = ContentBlock::Image {
        markdown: "`Image`".to_string(),
        image: ImageData { mime_type: "image/png".to_string(), bytes: vec![1, 2, 3] },
    };
    assert_eq!(block.to_markdown(), "`Image`");
}

#[test]
fn a_second_pass_leaves_tool_output_alone() {
    let twenty: String = (1..21).map(|i| format!("row {i}\n")).collect();
    let fenced = format!("```\n{twenty}```");
    let diff = Diff { path: Some("a.rs".to_string()), unified: twenty.clone() };
    let short_diff = Diff { path: None, unified: String::new() };
    let full = Terminal { output: Some(twenty.clone()), screen: String::new() };
    let huge = Terminal { output: Some("x".repeat(9000)), screen: String::new() };
    let empty = Terminal { output: None, screen: String::new() };
    let mut done = call(ToolCallStatus::Completed);
    done.content = vec![
        ToolCallContent::ContentBlock(markdown(&twenty)),
        ToolCallContent::ContentBlock(markdown(&fenced)),
        ToolCallContent::ContentBlock(markdown(&"\n".repeat(20))),
        ToolCallContent::ContentBlock(markdown("")),
        ToolCallContent::Diff(diff),
        ToolCallContent::Diff(short_diff),
        ToolCallContent::Terminal(full),
        ToolCallContent::Terminal(huge),
        ToolCallContent::Terminal(empty),
    ];
    for raw in ["null", "\"said\"", "42", "true", "{\"a\":1}"] {
        done.raw_output = Some(json(raw));
        let live = AgentThreadEntry::ToolCall(done.clone());
        let back = from_persisted(to_persisted(&live).expect("kept"));
        assert_eq!(entry_text_spans(&live, HINT), entry_text_spans(&back, HINT));
        let AgentThreadEntry::ToolCall(restored) = back else {
            panic!("a tool call");
        };
        for (item, again) in done.content.iter().zip(restored.content.iter()) {
            assert_eq!(
                tool_call_content_summary(&done, item),
                tool_call_content_summary(&restored, again)
            );
        }
    }
    let first = tool_call_content_summary(&done, &done.content[0]);
    assert!(first.ends_with("row 14\n````\n\n_… (+7 more lines)_"));
}

#[test]
fn plain_output_is_fenced_whatever_it_says() {
    let done = call(ToolCallStatus::Completed);
    for text in ["**Edited** `a.rs`", "_(no output yet)_", "_… (+7 more lines)_", "42"] {
        let live = ToolCallContent::ContentBlock(markdown(text));
        assert_eq!(tool_call_content_summary(&done, &live), format!("````\n{text}\n````"));
        let kept =
            ToolCallContent::ContentBlock(ContentBlock::Formatted { markdown: text.to_string() });
        assert_eq!(tool_call_content_summary(&done, &kept), text);
    }
    let mut rows: String = (1..17).map(|i| format!("row {i}\n")).collect();
    rows.push_str("_… (+7 more lines)_");
    let live = ToolCallContent::ContentBlock(markdown(&rows));
    let summary = tool_call_content_summary(&done, &live);
    assert!(summary.starts_with("````\nrow 1\n"));
    assert!(summary.ends_with("row 14\n````\n\n_… (+4 more lines)_"));
}

#[test]
fn a_terminal_without_output_shows_the_raw_output() {
    let mut done = call(ToolCallStatus::Completed);
    let empty = ToolCallContent::Terminal(Terminal { output: None, screen: String::new() });
    assert_eq!(tool_call_content_summary(&done, &empty), "_(no output yet)_");
    done.raw_output = Some(json("\"a\\nb\\n\""));
    assert_eq!(tool_call_content_summary(&done, &empty), "````\na\nb\n````");
    done.raw_output = Some(json("42"));
    assert_eq!(tool_call_content_summary(&done, &empty), "42");
    done.raw_output = Some(json("true"));
    assert_eq!(tool_call_content_summary(&done, &empty), "true");
    done.raw_output = Some(json("{\"a\":1}"));
    assert_eq!(tool_call_content_summary(&done, &empty), "```json\n{\n  \"a\": 1\n}\n```");
}

#[test]
fn a_restored_call_has_no_locations() {
    let mut done = call(ToolCallStatus::Failed);
    done.locations = vec![ToolCallLocation { path: "src/lib.rs".to_string(), line: Some(3) }];
    done.raw_output = Some(json("[1]"));
    done.status_started_at = Some(at(5, 0));
    let AgentThreadEntry::ToolCall(back) =
        from_persisted(to_persisted(&AgentThreadEntry::ToolCall(done)).expect("kept"))
    else {
        panic!("a tool call");
    };
    assert!(back.locations.is_empty());
    assert_eq!(back.id, "call-1");
    assert_eq!(back.label, "Run");
    assert!(matches!(back.kind, ToolKind::Execute));
    assert!(matches!(back.status, ToolCallStatus::Failed));
    assert_eq!(back.raw_input, Some(json(r#"{"command": "ls"}"#)));
    assert_eq!(back.raw_output, Some(json("[1]")));
    assert_eq!(back.tool_name.as_deref(), Some("Bash"));
    assert!(back.status_started_at.is_none());
}

#[test]
fn what_else_came_with_a_block_is_kept() {
    let mut message = user();
    message.chunks[0].extra = Some("{\"text\":\"\"}".to_string());
    let AgentThreadEntry::UserMessage(back) =
        from_persisted(to_persisted(&AgentThreadEntry::UserMessage(message)).expect("kept"))
    else {
        panic!("a user message");
    };
    assert_eq!(back.chunks[0].extra.as_deref(), Some("{\"text\":\"\"}"));
    assert!(back.chunks[1].extra.is_none());
}
