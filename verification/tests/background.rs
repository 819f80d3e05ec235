use solution_agent::background_agent::{
    jsonl_to_entries, parse_jsonl_snapshot, parse_managed_agent_announcement, plan_read, tail_of,
    tail_of_bytes, BackgroundAgent, BackgroundAgentId, BackgroundAgentSnapshot, Tail,
    JSONL_LINE_CAP, JSONL_READ_SLACK,
};
use solution_agent::background_shell::{
    notification_from, output_read_start, output_tail_of, parse_bash_bg_launch,
    parse_kill_shell_input, parse_task_notification, BackgroundShell, BackgroundShellId,
    ShellRuntimeState, OUTPUT_TAIL_CAP,
};
use solution_agent::clock::Timestamp;
use solution_agent::thread::{
    AgentThreadEntry, AssistantMessageChunk, ContentBlock, ToolCallContent, ToolCallStatus,
};

fn at(secs: i64) -> Timestamp {
    Timestamp::from_unix(secs, 0).unwrap()
}

fn json(text: &str) -> serde_json::Value {
    serde_json::from_str(text).unwrap()
}

fn lines(rows: &[&str]) -> Vec<String> {
    rows.iter().map(|row| row.to_string()).collect()
}

#[test]
fn background_agent_id_short_returns_first_six_chars() {
    let id = BackgroundAgentId::new("a30f92a688e431edc");
    assert_eq!(id.short(), "a30f92");
}

#[test]
fn background_agent_id_short_handles_id_shorter_than_six() {
    let id = BackgroundAgentId::new("abc");
    assert_eq!(id.short(), "abc");
}

#[test]
fn parse_managed_agent_announcement_happy_path() {
    let raw = "Async agent launched successfully.\n\
               agentId: a30f92a688e431edc (internal ID)\n\
               output_file: /tmp/agent-1000/x/abc/tasks/a30f92a688e431edc.output";
    let parsed = parse_managed_agent_announcement(raw);
    assert!(parsed.is_some());
    let (id, path) = parsed.unwrap();
    assert_eq!(id, "a30f92a688e431edc");
    assert_eq!(path, "/tmp/agent-1000/x/abc/tasks/a30f92a688e431edc.output");
}

#[test]
fn parse_managed_agent_announcement_missing_agent_id_returns_none() {
    let raw = "output_file: /tmp/x/y.output";
    assert!(parse_managed_agent_announcement(raw).is_none());
}

#[test]
fn parse_managed_agent_announcement_missing_output_file_returns_none() {
    let raw = "agentId: a30f92a688e431edc";
    assert!(parse_managed_agent_announcement(raw).is_none());
}

#[test]
fn parse_managed_agent_announcement_ignores_surrounding_text() {
    let raw = "Random words.\n\
               Do not duplicate this agent's work.\n\
               agentId:    a30f92a688e431edc\n\
               More noise. \n\
               output_file:    /tmp/x/foo.output\n\
               Trailing line.";
    let parsed = parse_managed_agent_announcement(raw);
    assert!(parsed.is_some());
    let (id, path) = parsed.unwrap();
    assert_eq!(id, "a30f92a688e431edc");
    assert_eq!(path, "/tmp/x/foo.output");
}

#[test]
fn parse_managed_agent_announcement_rejects_non_hex_id() {
    let raw = "agentId: NOT-HEX-ID\noutput_file: /tmp/x.output";
    assert!(parse_managed_agent_announcement(raw).is_none());
}

#[test]
fn parse_managed_agent_announcement_rejects_short_id() {
    let raw = "agentId: abcd\noutput_file: /tmp/x.output";
    assert!(parse_managed_agent_announcement(raw).is_none());
}

#[test]
fn parse_managed_agent_announcement_rejects_fifteen_char_hex_id() {
    let raw = "agentId: a30f92a688e431e\noutput_file: /tmp/x.output";
    assert!(parse_managed_agent_announcement(raw).is_none());
}

#[test]
fn parse_managed_agent_announcement_accepts_sixteen_char_hex_id() {
    let raw = "agentId: a30f92a688e431ed\noutput_file: /tmp/x.output";
    let parsed = parse_managed_agent_announcement(raw);
    assert!(parsed.is_some());
    let (id, path) = parsed.unwrap();
    assert_eq!(id, "a30f92a688e431ed");
    assert_eq!(path, "/tmp/x.output");
}

#[test]
fn parse_managed_agent_announcement_requires_dot_output_suffix() {
    let raw = "agentId: a30f92a688e431edc\noutput_file: /tmp/x.jsonl";
    assert!(parse_managed_agent_announcement(raw).is_none());
}

#[test]
fn parse_jsonl_snapshot_tool_use() {
    let line = r#"{"type":"assistant","message":{"role":"assistant","content":[{"type":"tool_use","name":"Bash","input":{"command":"cargo test --release"}}]}}"#;
    let snap = parse_jsonl_snapshot(line);
    assert_eq!(snap.activity_label, "Bash: cargo test --release");
    assert!(snap.stop_reason.is_none());
}

#[test]
fn parse_jsonl_snapshot_tool_use_truncates_long_args() {
    let long = "x".repeat(200);
    let line = format!(
        r#"{{"type":"assistant","message":{{"role":"assistant","content":[{{"type":"tool_use","name":"Bash","input":{{"command":"{long}"}}}}]}}}}"#
    );
    let snap = parse_jsonl_snapshot(&line);
    let label = snap.activity_label.as_str();
    assert!(label.starts_with("Bash: "));
    assert!(label.ends_with('…'), "expected ellipsis, got: {label:?}");
    assert!(label.len() <= 40, "label too long: {} chars", label.len());
}

#[test]
fn parse_jsonl_snapshot_assistant_text_without_stop_reason() {
    let line = r#"{"type":"assistant","message":{"role":"assistant","content":[{"type":"text","text":"Sure, let me…"}]}}"#;
    let snap = parse_jsonl_snapshot(line);
    assert_eq!(snap.activity_label, "Generating…");
    assert!(snap.stop_reason.is_none());
}

#[test]
fn parse_jsonl_snapshot_terminal_stop_reason_end_turn() {
    let line = r#"{"type":"assistant","message":{"role":"assistant","content":[{"type":"text","text":"Done."}],"stop_reason":"end_turn"}}"#;
    let snap = parse_jsonl_snapshot(line);
    assert_eq!(snap.stop_reason.as_deref(), Some("end_turn"));
}

#[test]
fn parse_jsonl_snapshot_system_init() {
    let line = r#"{"type":"system","subtype":"init","cwd":"/x","tools":[]}"#;
    let snap = parse_jsonl_snapshot(line);
    assert_eq!(snap.activity_label, "Starting…");
    assert!(snap.stop_reason.is_none());
}

#[test]
fn parse_jsonl_snapshot_malformed_returns_unknown() {
    let snap = parse_jsonl_snapshot("not json at all");
    assert_eq!(snap.activity_label, "Generating…");
    assert!(snap.stop_reason.is_none());
}

#[test]
fn jsonl_to_entries_basic_round() {
    let rows = lines(&[
        r#"{"type":"system","subtype":"init"}"#,
        r#"{"type":"user","message":{"role":"user","content":[{"type":"text","text":"hello"}]}}"#,
        r#"{"type":"assistant","message":{"role":"assistant","content":[{"type":"text","text":"world"}]}}"#,
    ]);
    let entries = jsonl_to_entries(&rows);
    assert_eq!(entries.len(), 2, "system row should be skipped");
    let roles: Vec<_> = entries
        .iter()
        .map(|e| match e {
            AgentThreadEntry::UserMessage(_) => "user",
            AgentThreadEntry::AssistantMessage(_) => "assistant",
            AgentThreadEntry::ToolCall(_) => "tool_call",
            AgentThreadEntry::CompletedPlan(_) => "plan",
        })
        .collect();
    assert_eq!(roles, vec!["user", "assistant"]);
}

#[test]
fn jsonl_to_entries_skips_malformed_rows() {
    let rows = lines(&[
        "not json",
        r#"{"type":"assistant","message":{"role":"assistant","content":[{"type":"text","text":"only valid"}]}}"#,
    ]);
    assert_eq!(jsonl_to_entries(&rows).len(), 1);
}

#[test]
fn jsonl_to_entries_renders_thinking_as_thought_chunk() {
    let rows = lines(&[
        r#"{"type":"assistant","message":{"role":"assistant","content":[{"type":"thinking","thinking":"weighing the trade-offs"},{"type":"text","text":"answer"}]}}"#,
    ]);
    let entries = jsonl_to_entries(&rows);
    assert_eq!(entries.len(), 2, "thinking + text = two AssistantMessages");
    let AgentThreadEntry::AssistantMessage(thought) = &entries[0] else {
        panic!("expected an assistant message first");
    };
    assert!(matches!(thought.chunks[0], AssistantMessageChunk::Thought { .. }));
    let AgentThreadEntry::AssistantMessage(text) = &entries[1] else {
        panic!("expected an assistant message second");
    };
    assert!(matches!(text.chunks[0], AssistantMessageChunk::Message { .. }));
}

#[test]
fn jsonl_to_entries_lifts_tool_result_text_into_content() {
    let rows = lines(&[
        r#"{"type":"assistant","message":{"role":"assistant","content":[{"type":"tool_use","id":"toolu_2","name":"Bash","input":{"command":"ls"}}]}}"#,
        r#"{"type":"user","message":{"role":"user","content":[{"type":"tool_result","tool_use_id":"toolu_2","content":[{"type":"text","text":"src/\ntarget/"}]}]}}"#,
    ]);
    let entries = jsonl_to_entries(&rows);
    let AgentThreadEntry::ToolCall(call) = &entries[0] else {
        panic!("expected a tool call");
    };
    assert_eq!(call.content.len(), 1, "result text should land as one ContentBlock");
    assert!(matches!(
        call.content[0],
        ToolCallContent::ContentBlock(ContentBlock::Markdown { .. })
    ));
}

#[test]
fn jsonl_to_entries_tool_result_is_error_lands_failed() {
    let rows = lines(&[
        r#"{"type":"assistant","message":{"role":"assistant","content":[{"type":"tool_use","id":"toolu_3","name":"Bash","input":{"command":"bad"}}]}}"#,
        r#"{"type":"user","message":{"role":"user","content":[{"type":"tool_result","tool_use_id":"toolu_3","is_error":true,"content":[{"type":"text","text":"command not found"}]}]}}"#,
    ]);
    let entries = jsonl_to_entries(&rows);
    let AgentThreadEntry::ToolCall(call) = &entries[0] else {
        panic!("expected a tool call");
    };
    assert!(matches!(call.status, ToolCallStatus::Failed));
    assert_eq!(call.content.len(), 1, "error text still lifted into content");
}

#[test]
fn jsonl_to_entries_unpaired_tool_use_has_empty_content() {
    let rows = lines(&[
        r#"{"type":"assistant","message":{"role":"assistant","content":[{"type":"tool_use","id":"toolu_4","name":"Bash","input":{"command":"ls"}}]}}"#,
    ]);
    let entries = jsonl_to_entries(&rows);
    let AgentThreadEntry::ToolCall(call) = &entries[0] else {
        panic!("expected a tool call");
    };
    assert!(matches!(call.status, ToolCallStatus::Pending));
    assert!(call.content.is_empty(), "unpaired tool_use should have no content");
}

#[test]
fn jsonl_to_entries_pairs_tool_use_with_tool_result() {
    let rows = lines(&[
        r#"{"type":"assistant","message":{"role":"assistant","content":[{"type":"tool_use","id":"toolu_1","name":"Bash","input":{"command":"ls"}}]}}"#,
        r#"{"type":"user","message":{"role":"user","content":[{"type":"tool_result","tool_use_id":"toolu_1","content":[{"type":"text","text":"foo bar"}]}]}}"#,
    ]);
    let entries = jsonl_to_entries(&rows);
    let calls = entries.iter().filter(|e| matches!(e, AgentThreadEntry::ToolCall(_))).count();
    assert_eq!(calls, 1);
    let AgentThreadEntry::ToolCall(call) = &entries[0] else {
        panic!("expected a tool call");
    };
    assert!(matches!(call.status, ToolCallStatus::Completed));
}

/// What reading the end of a transcript that holds `text` gives.
fn read_transcript(text: &str, since_offset: u64) -> solution_agent::background_agent::Tail {
    let len = text.len() as u64;
    let window = (JSONL_LINE_CAP + JSONL_READ_SLACK) as u64;
    let start = plan_read(len, since_offset, window) as usize;
    tail_of(len, since_offset, &text[start..], at(0))
}

#[test]
fn tail_jsonl_reads_last_nonempty_line() {
    let text = "{\"type\":\"system\",\"subtype\":\"init\"}\n{\"type\":\"assistant\",\"message\":{\"role\":\"assistant\",\"content\":[{\"type\":\"text\",\"text\":\"hi\"}]}}\n\n";
    let tail = read_transcript(text, 0);
    let last = tail.last_line.unwrap();
    assert!(last.contains(r#""type":"assistant""#));
    assert!(tail.new_offset > 0);
}

#[test]
fn tail_jsonl_caps_oversize_last_line() {
    let mut huge = "x".repeat(80 * 1024);
    huge.push('\n');
    let tail = read_transcript(&huge, 0);
    assert!(tail.last_line.is_none(), "oversize line should be dropped");
}

#[test]
fn tail_jsonl_resumes_from_offset_skipping_old_lines() {
    let row = |text: &str| {
        format!(
            r#"{{"type":"assistant","message":{{"role":"assistant","content":[{{"type":"text","text":"{text}"}}]}}}}"#
        ) + "\n"
    };
    let mut text = row("old");
    let first = read_transcript(&text, 0);
    assert!(first.last_line.as_deref().is_some_and(|s| s.contains("\"old\"")));
    let second = read_transcript(&text, first.new_offset);
    assert!(second.last_line.is_none(), "no new bytes, no new line");
    assert_eq!(second.new_offset, first.new_offset);
    text.push_str(&row("new"));
    let third = read_transcript(&text, second.new_offset);
    let line = third.last_line.expect("appended line should surface");
    assert!(line.contains("\"new\""));
    assert!(!line.contains("\"old\""));
}

#[test]
fn tail_jsonl_resets_offset_when_file_shrinks() {
    let row = |text: &str| {
        format!(
            r#"{{"type":"assistant","message":{{"role":"assistant","content":[{{"type":"text","text":"{text}"}}]}}}}"#
        ) + "\n"
    };
    let original = read_transcript(&row("original padded line"), 0);
    let after = read_transcript(&row("fresh"), original.new_offset);
    let line = after.last_line.expect("a shrunk file is read from its start");
    assert!(line.contains("\"fresh\""));
}

#[test]
fn background_shell_id_short_returns_whole_id_when_short() {
    let id = BackgroundShellId::new("bvb4ful1z");
    assert_eq!(id.short(), "bvb4ful1z");
}

#[test]
fn background_shell_id_short_caps_at_nine_chars() {
    let id = BackgroundShellId::new("abcdefghij_toolong");
    assert_eq!(id.short(), "abcdefghi");
}

#[test]
fn background_shell_id_short_handles_id_shorter_than_nine() {
    let id = BackgroundShellId::new("abc");
    assert_eq!(id.short(), "abc");
}

#[test]
fn background_shell_clone_round_trip_ids_equal() {
    let shell = BackgroundShell {
        id: BackgroundShellId::new("bvb4ful1z"),
        command: "cargo build --bin spk-editor".to_string(),
        output_path: "/tmp/agent-1000/tasks/bvb4ful1z.output".to_string(),
        registered_at: at(0),
        latest: None,
        last_offset: 0,
        state: ShellRuntimeState::Running,
    };
    let cloned = shell.clone();
    assert_eq!(shell.id, cloned.id);
}

const REAL_ANNOUNCEMENT: &str = "Command running in background with ID: bvb4ful1z. Output is being written to: /tmp/agent-1000/-home-spk--spk-spk-editor-dev-solutions-alphasol/6e524c79-5089-4a74-9419-bd18e9119e0b/tasks/bvb4ful1z.output. You will be notified when it completes. To check interim output, use Read on that file path.";

#[test]
fn parse_bash_bg_launch_happy_path() {
    let result = parse_bash_bg_launch(REAL_ANNOUNCEMENT).unwrap();
    assert_eq!(result.0.as_str(), "bvb4ful1z");
    assert_eq!(
        result.1,
        "/tmp/agent-1000/-home-spk--spk-spk-editor-dev-solutions-alphasol/6e524c79-5089-4a74-9419-bd18e9119e0b/tasks/bvb4ful1z.output"
    );
}

#[test]
fn parse_bash_bg_launch_trailing_dot_not_captured() {
    let result = parse_bash_bg_launch(REAL_ANNOUNCEMENT).unwrap();
    assert!(!result.1.ends_with('.'));
}

#[test]
fn parse_bash_bg_launch_missing_id_returns_none() {
    let text = "Output is being written to: /tmp/agent-1000/tasks/abc123.output. You will be notified when it completes.";
    assert!(parse_bash_bg_launch(text).is_none());
}

#[test]
fn parse_bash_bg_launch_missing_path_returns_none() {
    let text = "Command running in background with ID: foo123. No output path here.";
    assert!(parse_bash_bg_launch(text).is_none());
}

#[test]
fn parse_bash_bg_launch_non_output_extension_returns_none() {
    let text = "Command running in background with ID: foo123. Output is being written to: /tmp/x.txt. You will be notified.";
    assert!(parse_bash_bg_launch(text).is_none());
}

#[test]
fn parse_bash_bg_launch_garbage_returns_none() {
    assert!(parse_bash_bg_launch("").is_none());
    assert!(parse_bash_bg_launch("completely unrelated text").is_none());
}

#[test]
fn parse_bash_bg_launch_different_valid_id() {
    let text = "Command running in background with ID: abc123xyz. Output is being written to: /tmp/agent-1000/tasks/abc123xyz.output. You will be notified.";
    let result = parse_bash_bg_launch(text).unwrap();
    assert_eq!(result.0.as_str(), "abc123xyz");
    assert_eq!(result.1, "/tmp/agent-1000/tasks/abc123xyz.output");
}

const REAL_NOTIFICATION: &str = r#"<task-notification>
<task-id>bvb4ful1z</task-id>
<tool-use-id>toolu_01AqJufkNFAd7Aef3ojZ8d5J</tool-use-id>
<output-file>/tmp/agent-1000/.../tasks/bvb4ful1z.output</output-file>
<status>completed</status>
<summary>Background command "Sleep for 60 seconds in background" completed (exit code 0)</summary>
</task-notification>"#;

#[test]
fn parse_task_notification_exit_code_zero() {
    let result = parse_task_notification(REAL_NOTIFICATION).unwrap();
    assert_eq!(result.id.as_str(), "bvb4ful1z");
    assert_eq!(result.status, ShellRuntimeState::Exited(Some(0)));
}

#[test]
fn parse_task_notification_exit_code_137() {
    let text = r#"<task-notification>
<task-id>abc123def</task-id>
<status>completed</status>
<summary>Command failed (exit code 137)</summary>
</task-notification>"#;
    let result = parse_task_notification(text).unwrap();
    assert_eq!(result.id.as_str(), "abc123def");
    assert_eq!(result.status, ShellRuntimeState::Exited(Some(137)));
}

#[test]
fn parse_task_notification_completed_no_exit_code() {
    let text = r#"<task-notification>
<task-id>xyz789</task-id>
<status>completed</status>
<summary>Background command finished</summary>
</task-notification>"#;
    let result = parse_task_notification(text).unwrap();
    assert_eq!(result.id.as_str(), "xyz789");
    assert_eq!(result.status, ShellRuntimeState::Exited(None));
}

#[test]
fn parse_task_notification_no_block_returns_none() {
    let text = "Just some regular text without any task notification block";
    assert!(parse_task_notification(text).is_none());
}

#[test]
fn parse_task_notification_negative_exit_code() {
    let text = r#"<task-notification>
<task-id>neg99x</task-id>
<status>completed</status>
<summary>Killed (exit code -1)</summary>
</task-notification>"#;
    let result = parse_task_notification(text).unwrap();
    assert_eq!(result.status, ShellRuntimeState::Exited(Some(-1)));
}

#[test]
fn shell_runtime_state_to_state_text_round_trip() {
    assert_eq!(ShellRuntimeState::Running.to_state_text(), "running");
    assert_eq!(ShellRuntimeState::Exited(Some(0)).to_state_text(), "exited:0");
    assert_eq!(ShellRuntimeState::Exited(Some(137)).to_state_text(), "exited:137");
    assert_eq!(ShellRuntimeState::Exited(Some(-1)).to_state_text(), "exited:-1");
    assert_eq!(ShellRuntimeState::Exited(None).to_state_text(), "exited");
    assert_eq!(ShellRuntimeState::Killed.to_state_text(), "killed");
}

#[test]
fn parse_kill_shell_input_shell_id_key() {
    let input = json(r#"{"shell_id": "bvb4ful1z"}"#);
    let result = parse_kill_shell_input(&input).unwrap();
    assert_eq!(result.as_str(), "bvb4ful1z");
}

#[test]
fn parse_kill_shell_input_bash_id_key() {
    let input = json(r#"{"bash_id": "abc"}"#);
    let result = parse_kill_shell_input(&input).unwrap();
    assert_eq!(result.as_str(), "abc");
}

#[test]
fn parse_kill_shell_input_empty_object_returns_none() {
    let input = json("{}");
    assert!(parse_kill_shell_input(&input).is_none());
}

#[test]
fn parse_kill_shell_input_empty_string_returns_none() {
    let input = json(r#"{"shell_id": ""}"#);
    assert!(parse_kill_shell_input(&input).is_none());
}

/// What reading the end of an output file that holds `bytes` gives.
fn read_output(
    bytes: &[u8],
    since_offset: u64,
) -> solution_agent::background_shell::OutputTail {
    let len = bytes.len() as u64;
    let start = output_read_start(len, since_offset) as usize;
    output_tail_of(len, &bytes[start..].to_vec(), at(0))
}

#[test]
fn tail_output_short_file_fully_read() {
    let result = read_output(b"hello world\n", 0);
    assert_eq!(result.text, "hello world\n");
    assert_eq!(result.new_offset, 12);
}

#[test]
fn tail_output_large_file_returns_only_trailing_cap() {
    let prefix_size = 1000usize;
    let cap = OUTPUT_TAIL_CAP;
    let mut content = vec![b'A'; prefix_size];
    content.extend(vec![b'B'; cap]);
    let result = read_output(&content, 0);
    assert_eq!(result.text.len(), cap);
    assert!(result.text.chars().all(|c| c == 'B'));
    assert_eq!(result.new_offset, (prefix_size + cap) as u64);
}

#[test]
fn tail_output_incremental_read_only_new_bytes() {
    let first = read_output(b"first line\n", 0);
    assert_eq!(first.text, "first line\n");
    let second = read_output(b"first line\nsecond line\n", first.new_offset);
    assert_eq!(second.text, "second line\n");
}

#[test]
fn tail_output_truncated_file_resets_offset() {
    let first = read_output(b"original content\n", 0);
    let result = read_output(b"new\n", first.new_offset);
    assert_eq!(result.text, "new\n");
    assert_eq!(result.new_offset, 4);
}

#[test]
fn output_that_is_not_text_is_shown_as_far_as_it_is() {
    let result = read_output(&[b'o', b'k', 0xff, b'!'], 0);
    assert_eq!(result.text, "ok\u{fffd}!");
}

#[test]
fn notification_needs_a_task_id() {
    let completed = || Some("completed".to_string());
    assert!(notification_from(None, completed(), Some("0".to_string())).is_none());
    let found = notification_from(Some("abc".to_string()), completed(), None).unwrap();
    assert_eq!(found.status, ShellRuntimeState::Exited(None));
}

#[test]
fn only_a_completed_shell_reports_its_exit_code() {
    let code = |status: Option<&str>, digits: &str| {
        notification_from(
            Some("abc".to_string()),
            status.map(|status| status.to_string()),
            Some(digits.to_string()),
        )
        .unwrap()
        .status
    };
    assert_eq!(code(Some("completed"), "7"), ShellRuntimeState::Exited(Some(7)));
    assert_eq!(code(Some("failed"), "1"), ShellRuntimeState::Exited(None));
    assert_eq!(code(Some(""), "1"), ShellRuntimeState::Exited(None));
    assert_eq!(code(None, "1"), ShellRuntimeState::Exited(Some(1)));
    assert_eq!(code(Some("completed"), "99999999999"), ShellRuntimeState::Exited(None));

    let text = "<task-notification><task-id>t1</task-id><status>failed</status>\
        <summary>(exit code 1)</summary></task-notification>";
    let notice = parse_task_notification(text).unwrap();
    assert_eq!(notice.id.as_str(), "t1");
    assert_eq!(notice.status, ShellRuntimeState::Exited(None));
    let text = "<task-notification><task-id>t1</task-id><status>\ntimed\nout </status>\
        <summary>(exit code 1)</summary></task-notification>";
    assert_eq!(parse_task_notification(text).unwrap().status, ShellRuntimeState::Exited(None));
    let text = "<task-notification><task-id>t1</task-id><status> completed\n</status>\
        <summary>(exit code 1)</summary></task-notification>";
    assert_eq!(parse_task_notification(text).unwrap().status, ShellRuntimeState::Exited(Some(1)));
}

#[test]
fn the_exit_code_ends_the_summary() {
    let code = |rest: &str| {
        let text = format!("<task-notification><task-id>t1</task-id>{rest}</task-notification>");
        parse_task_notification(&text).unwrap().status
    };
    assert_eq!(
        code("<summary>Command \"echo (exit code 5)\" completed (exit code 0)</summary>"),
        ShellRuntimeState::Exited(Some(0))
    );
    assert_eq!(
        code("<summary>Command\ncompleted (exit code 3)\n</summary>"),
        ShellRuntimeState::Exited(Some(3))
    );
    assert_eq!(
        code("<summary>\"echo (exit code 5)\" completed</summary>"),
        ShellRuntimeState::Exited(None)
    );
    assert_eq!(code("(exit code 5)"), ShellRuntimeState::Exited(None));
}

#[test]
fn the_second_key_names_the_shell_where_the_first_does_not() {
    for first in ["\"\"", "null", "7", "[\"x\"]"] {
        let input = json(&format!("{{\"shell_id\":{first},\"bash_id\":\"abc\"}}"));
        assert_eq!(parse_kill_shell_input(&input).unwrap().as_str(), "abc");
    }
    let input = json(r#"{"shell_id": "one", "bash_id": "two"}"#);
    assert_eq!(parse_kill_shell_input(&input).unwrap().as_str(), "one");
    let input = json(r#"{"shell_id": "", "bash_id": ""}"#);
    assert!(parse_kill_shell_input(&input).is_none());
}

#[test]
fn stopped_agents_cannot_be_written_to() {
    let mut agent = BackgroundAgent {
        id: BackgroundAgentId::new("a30f92a688e431ed"),
        jsonl_path: "/tmp/x.jsonl".to_string(),
        registered_at: at(0),
        latest: None,
        last_offset: 0,
    };
    assert!(agent.is_messageable());
    agent.latest = Some(BackgroundAgentSnapshot {
        mtime: at(1),
        activity_label: "Done".to_string(),
        stop_reason: Some("end_turn".to_string()),
    });
    assert!(!agent.is_messageable());
}

fn tail_of_file(file: &[u8], since_offset: u64) -> Option<Tail> {
    let len = file.len() as u64;
    let start = plan_read(len, since_offset, (JSONL_LINE_CAP + JSONL_READ_SLACK) as u64);
    tail_of_bytes(len, since_offset, &file[start as usize..].to_vec(), at(0))
}

#[test]
fn a_window_that_starts_inside_a_character_is_read_from_the_next_one() {
    let file = format!("{}\nok", "é".repeat(40_000)).into_bytes();
    assert_eq!(file.len(), 80_003);
    let tail = tail_of_file(&file, 0).expect("UTF-8");
    assert_eq!(tail.last_line.as_deref(), Some("ok"));
    assert_eq!(tail.new_offset, 80_003);

    for lead in 0..4 {
        let file = format!("{}{}\nok", "x".repeat(lead), "😀".repeat(20_000)).into_bytes();
        let tail = tail_of_file(&file, 0).expect("UTF-8");
        assert_eq!(tail.last_line.as_deref(), Some("ok"));
    }
}

#[test]
fn a_transcript_that_is_no_text_is_refused() {
    assert!(tail_of_file(&[0x80, b'o', b'k'], 0).is_none());
    assert!(tail_of_file(b"a\n\xffok", 0).is_none());
    assert!(tail_of_file(b"a\n\x80\x80\x80\x80ok", 2).is_none());
    let tail = tail_of_file("a\né\n".as_bytes(), 3).expect("UTF-8");
    assert!(tail.last_line.is_none());
    let tail = tail_of_file("a\né\n".as_bytes(), 2).expect("UTF-8");
    assert_eq!(tail.last_line.as_deref(), Some("é"));
    let tail = tail_of_file(b"a\n", 2).expect("UTF-8");
    assert!(tail.last_line.is_none());
    assert_eq!(tail.new_offset, 2);
}

#[test]
fn only_a_later_result_answers_a_tool_use() {
    let result = r#"{"type":"user","message":{"content":[{"type":"tool_result","tool_use_id":"t1","content":[{"type":"text","text":"out"}]}]}}"#;
    let failed = r#"{"type":"user","message":{"content":[{"type":"tool_result","tool_use_id":"t1","is_error":true}]}}"#;
    let tool_use = r#"{"type":"assistant","message":{"content":[{"type":"tool_use","id":"t1","name":"Bash"}]}}"#;
    let status_of = |rows: &[&str]| {
        let entries = jsonl_to_entries(&lines(rows));
        assert_eq!(entries.len(), 1);
        match &entries[0] {
            AgentThreadEntry::ToolCall(call) => (call.status.clone(), call.content.len()),
            _ => panic!("a tool call"),
        }
    };
    assert!(matches!(status_of(&[tool_use, result]), (ToolCallStatus::Completed, 1)));
    assert!(matches!(status_of(&[result, tool_use]), (ToolCallStatus::Pending, 0)));
    assert!(matches!(status_of(&[result, tool_use, failed]), (ToolCallStatus::Failed, 0)));
    assert!(matches!(status_of(&[tool_use, failed, result]), (ToolCallStatus::Completed, 1)));
}
