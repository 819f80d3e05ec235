use solution_agent::compact::CompactTemplate;
use solution_agent::conversation_render::{
    clean_assistant_message_text, clean_user_message_text, compute_rewind_table, entry_text_spans,
    is_compaction_prompt_text, pending_blocks_preview, strip_injected_meta, COMPACT_PROMPT_HEADING,
};
use solution_agent::permissions::{permission_buttons, pick_reject_button, SelectedPermissionParams};
use solution_agent::search::{find_all, matches_for_span, FindMatch};
use solution_agent::thread::{
    AgentThreadEntry, AssistantMessage, AssistantMessageChunk, ContentBlock, PermissionOption,
    PermissionOptionChoice, PermissionOptionKind, PermissionOptions, PlanEntry, PlanEntryPriority,
    PlanEntryStatus, PromptBlock, PromptContent, UserMessage,
};
use solution_agent::tool_output::{
    diff_summary_markdown, fence_plain_text, raw_output_fallback_markdown, terminal_output_markdown,
    tool_call_arg_preview, truncate_tool_summary,
};
use solution_agent::thread::{Diff, Terminal};
use std::ops::Range;

const QUEUE_HINT_LINE: &str = "(queued while you were busy)";

fn id(label: &str) -> String {
    label.to_string()
}

fn json(text: &str) -> serde_json::Value {
    serde_json::from_str(text).unwrap()
}

fn clean(text: &str) -> String {
    clean_user_message_text(text, QUEUE_HINT_LINE)
}

fn strip(text: &str) -> String {
    strip_injected_meta(text, QUEUE_HINT_LINE)
}

#[test]
fn detects_compaction_prompt_by_heading() {
    let prompt = format!(
        "{}\n\nThe user has triggered the Compact Context action…",
        COMPACT_PROMPT_HEADING
    );
    assert!(is_compaction_prompt_text(&prompt));
    assert!(is_compaction_prompt_text(&format!("\n  {}", COMPACT_PROMPT_HEADING)));
    assert!(!is_compaction_prompt_text("# Compact the build, please"));
    assert!(!is_compaction_prompt_text("compact this session"));
    assert!(!is_compaction_prompt_text(""));
}

#[test]
fn compaction_template_starts_with_heading() {
    let text = "# Compact this session and prepare a clean handoff\n\n`{{session_id}}`\n";
    let template = CompactTemplate::new(text).expect("a template");
    assert!(template.as_str().trim_start().starts_with(COMPACT_PROMPT_HEADING));
    assert_eq!(template.as_str(), text);
    assert!(CompactTemplate::new(&format!("\n {text}")).is_some());
    assert!(CompactTemplate::new("# Compact the build").is_none());
    assert!(CompactTemplate::new("").is_none());
}

#[test]
fn tool_call_arg_preview_prefers_command_for_bash() {
    let input = json(
        r#"{"description": "Run build", "command": "cargo build --release", "timeout": 600}"#,
    );
    assert_eq!(tool_call_arg_preview(&input), Some("cargo build --release".to_string()));
}

#[test]
fn tool_call_arg_preview_prefers_file_path_for_read() {
    let input = json(r#"{ "file_path": "/etc/hosts", "offset": 0 }"#);
    assert_eq!(tool_call_arg_preview(&input), Some("/etc/hosts".to_string()));
}

#[test]
fn tool_call_arg_preview_falls_back_to_first_string_value() {
    let input = json(r#"{ "unknown_field": "some text", "n": 42 }"#);
    assert_eq!(tool_call_arg_preview(&input), Some("some text".to_string()));
}

#[test]
fn tool_call_arg_preview_collapses_newlines() {
    let input = json(r#"{ "command": "echo a\necho b" }"#);
    assert_eq!(tool_call_arg_preview(&input).as_deref(), Some("echo a↵echo b"));
}

#[test]
fn tool_call_arg_preview_truncates_with_ellipsis() {
    let long = "x".repeat(400);
    let input = json(&format!(r#"{{ "command": "{long}" }}"#));
    let preview = tool_call_arg_preview(&input).unwrap();
    assert!(preview.ends_with('…'));
    assert!(preview.chars().count() <= 241);
}

#[test]
fn tool_call_arg_preview_none_for_empty_input() {
    assert!(tool_call_arg_preview(&json("{}")).is_none());
    assert!(tool_call_arg_preview(&json("null")).is_none());
    assert!(tool_call_arg_preview(&json(r#"{ "command": "" }"#)).is_none());
}

#[test]
fn user_message_single_newline_becomes_hard_break() {
    assert_eq!(clean("first line\nsecond line"), "first line  \nsecond line");
}

#[test]
fn user_message_blank_line_becomes_paragraph_break() {
    assert_eq!(clean("para 1\n\npara 2"), "para 1\n\npara 2");
}

#[test]
fn user_message_multiple_blank_lines_collapse_to_one_paragraph_break() {
    assert_eq!(clean("para 1\n\n\n\npara 2"), "para 1\n\npara 2");
}

#[test]
fn user_message_mixed_blocks_preserve_structure() {
    assert_eq!(
        clean("intro\nline 2\n\nnext para\nstill next"),
        "intro  \nline 2\n\nnext para  \nstill next"
    );
}

#[test]
fn image_placeholder_links_use_per_message_ordinal_not_label() {
    assert_eq!(
        clean("look at [image #5] and then [image #7]"),
        "look at [image #5](spk-image://0) and then [image #7](spk-image://1)"
    );
}

#[test]
fn image_placeholder_link_starts_at_ordinal_zero_in_each_message() {
    assert_eq!(clean("only [image #99]"), "only [image #99](spk-image://0)");
}

#[test]
fn desktop_image_message_does_not_double_render_placeholder_and_literal() {
    assert_eq!(
        clean("Restart the runner now\n\n[image #6]\n\n`Image`"),
        "Restart the runner now\n\n[image #6](spk-image://0)"
    );
}

#[test]
fn mobile_image_literal_still_links_when_no_placeholder() {
    assert_eq!(clean("see this\n\n`Image`"), "see this\n\n[image #1](spk-image://0)");
}

#[test]
fn the_number_of_an_image_is_kept_as_written() {
    assert_eq!(
        clean("a [image #007] [image #12]"),
        "a [image #007](spk-image://0) [image #12](spk-image://1)"
    );
}

#[test]
fn empty_entries_produce_empty_table() {
    assert_eq!(compute_rewind_table(&[]), Vec::<Option<String>>::new());
}

#[test]
fn user_message_itself_is_never_its_own_target() {
    let table = compute_rewind_table(&[Some(id("A"))]);
    assert_eq!(table, vec![None]);
}

#[test]
fn assistant_after_last_user_has_no_target() {
    let table = compute_rewind_table(&[Some(id("A")), None, None]);
    assert_eq!(table, vec![None, None, None]);
}

#[test]
fn entries_between_two_user_messages_target_the_later_one() {
    let table = compute_rewind_table(&[Some(id("A")), None, None, Some(id("B")), None]);
    assert_eq!(table, vec![None, Some(id("B")), Some(id("B")), None, None]);
}

#[test]
fn user_message_without_id_inherits_next_users_target() {
    let table = compute_rewind_table(&[Some(id("A")), None, None, None, Some(id("B"))]);
    assert_eq!(table, vec![None, Some(id("B")), Some(id("B")), Some(id("B")), None]);
}

#[test]
fn many_users_chain_rewind_targets() {
    let table = compute_rewind_table(&[Some(id("A")), None, Some(id("B")), None, Some(id("C"))]);
    assert_eq!(table, vec![None, Some(id("B")), None, Some(id("C")), None]);
}

#[test]
fn strip_injected_meta_removes_leading_timestamp() {
    assert_eq!(strip("[10:39:12] actual user text"), "actual user text");
}

#[test]
fn strip_injected_meta_removes_each_segment_timestamp() {
    assert_eq!(strip("[10:39:12] first\n\n[10:39:30] second"), "first\n\nsecond");
}

#[test]
fn strip_injected_meta_removes_leading_hint_line() {
    let s = format!("{}\n\n[10:39:12] text", QUEUE_HINT_LINE);
    assert_eq!(strip(&s), "text");
}

#[test]
fn strip_injected_meta_passes_through_plain_text() {
    assert_eq!(strip("hi there"), "hi there");
}

#[test]
fn strip_injected_meta_passes_through_non_timestamp_bracket() {
    assert_eq!(strip("[not-a-timestamp] text"), "[not-a-timestamp] text");
}

fn collect(text: &str, query: &str) -> Vec<Range<usize>> {
    find_all(text, &query.to_lowercase())
}

#[test]
fn find_all_basic() {
    assert_eq!(collect("hello world", "hello"), vec![0..5]);
    assert_eq!(collect("hello hello hello", "hello"), vec![0..5, 6..11, 12..17]);
}

#[test]
fn find_all_case_insensitive() {
    assert_eq!(collect("Hello World", "hello"), vec![0..5]);
    assert_eq!(collect("HELLO HeLLo hello", "Hello"), vec![0..5, 6..11, 12..17]);
}

#[test]
fn find_all_no_match() {
    assert_eq!(collect("abc", "xyz"), Vec::<Range<usize>>::new());
}

#[test]
fn find_all_empty_query() {
    assert_eq!(collect("anything", ""), Vec::<Range<usize>>::new());
}

#[test]
fn find_all_overlapping_advances_by_query_len() {
    assert_eq!(collect("aaaa", "aa"), vec![0..2, 2..4]);
}

#[test]
fn find_all_counts_bytes() {
    assert_eq!(collect("дом и дом", "дом"), vec![0..6, 10..16]);
}

fn opt(id: &str, name: &str, kind: PermissionOptionKind) -> PermissionOption {
    PermissionOption { option_id: id.to_string(), name: name.to_string(), kind }
}

#[test]
fn permission_buttons_flat_preserves_order_and_kind() {
    let options = PermissionOptions::Flat(vec![
        opt("allow", "Allow", PermissionOptionKind::AllowOnce),
        opt("reject", "Reject", PermissionOptionKind::RejectOnce),
    ]);
    let buttons = permission_buttons(&options);
    assert_eq!(buttons.len(), 2);
    assert_eq!(buttons[0].label, "Allow");
    assert!(buttons[0].is_allow());
    assert!(buttons[0].patterns.is_empty());
    assert_eq!(buttons[1].label, "Reject");
    assert!(!buttons[1].is_allow());
    let outcome = buttons[1].outcome();
    assert_eq!(outcome.option_id, buttons[1].option_id);
    assert_eq!(outcome.option_kind, PermissionOptionKind::RejectOnce);
    assert!(outcome.params.is_none());
}

#[test]
fn permission_buttons_dropdown_emits_allow_and_deny_per_choice_with_patterns() {
    let choice = PermissionOptionChoice {
        allow: opt("a", "Always allow", PermissionOptionKind::AllowAlways),
        deny: opt("d", "Always deny", PermissionOptionKind::RejectAlways),
        sub_patterns: vec!["^cargo build".to_string()],
    };
    let buttons = permission_buttons(&PermissionOptions::Dropdown(vec![choice]));
    assert_eq!(buttons.len(), 2);
    assert!(buttons[0].is_allow());
    assert!(!buttons[1].is_allow());
    assert_eq!(buttons[0].patterns, vec!["^cargo build".to_string()]);
    let outcome = buttons[0].outcome();
    match outcome.params {
        Some(SelectedPermissionParams::Terminal { patterns }) => {
            assert_eq!(patterns, vec!["^cargo build".to_string()]);
        }
        other => panic!("expected terminal params, got {other:?}"),
    }
}

#[test]
fn pick_reject_button_none_when_only_allow_options() {
    let options = PermissionOptions::Flat(vec![
        opt("allow-once", "Allow once", PermissionOptionKind::AllowOnce),
        opt("allow-always", "Allow always", PermissionOptionKind::AllowAlways),
    ]);
    assert!(pick_reject_button(&options).is_none());
}

#[test]
fn pick_reject_button_prefers_reject_once() {
    let options = PermissionOptions::Flat(vec![
        opt("allow", "Allow", PermissionOptionKind::AllowOnce),
        opt("reject-always", "Reject always", PermissionOptionKind::RejectAlways),
        opt("reject-once", "Reject once", PermissionOptionKind::RejectOnce),
    ]);
    let button = pick_reject_button(&options).expect("a reject button must be picked");
    assert_eq!(button.kind, PermissionOptionKind::RejectOnce);
    assert_eq!(button.option_id, "reject-once");
}

#[test]
fn matches_for_span_filters_and_finds_selected() {
    let matches = vec![
        FindMatch { entry_idx: 0, span_idx: 0, range: 0..5 },
        FindMatch { entry_idx: 0, span_idx: 1, range: 0..3 },
        FindMatch { entry_idx: 1, span_idx: 0, range: 5..8 },
        FindMatch { entry_idx: 0, span_idx: 0, range: 10..15 },
    ];
    let (ranges, sel) = matches_for_span(&matches, Some(3), 0, 0);
    assert_eq!(ranges, vec![0..5, 10..15]);
    assert_eq!(sel, Some(1));

    let (ranges, sel) = matches_for_span(&matches, Some(3), 1, 0);
    assert_eq!(ranges, vec![5..8]);
    assert_eq!(sel, None);

    let (ranges, sel) = matches_for_span(&matches, Some(2), 1, 0);
    assert_eq!(ranges, vec![5..8]);
    assert_eq!(sel, Some(0));
}

#[test]
fn assistant_images_are_numbered_from_the_base() {
    assert_eq!(
        clean_assistant_message_text("a `Image` b `Image`", 4),
        "a [image #1](spk-image://4) b [image #2](spk-image://5)"
    );
}

fn text_block(text: &str) -> PromptBlock {
    PromptBlock { content: PromptContent::Text(text.to_string()), client_send_id: None, extra: None }
}

fn image_block() -> PromptBlock {
    PromptBlock {
        content: PromptContent::Image {
            data: "AAAA".to_string(),
            mime_type: "image/png".to_string(),
        },
        client_send_id: None,
        extra: None,
    }
}

#[test]
fn queued_preview_holds_the_texts() {
    let blocks = vec![text_block("hello world"), image_block(), text_block("more")];
    let preview = pending_blocks_preview(&blocks, QUEUE_HINT_LINE);
    assert!(preview.contains("hello world"));
    assert!(preview.contains("more"));
}

fn markdown(text: &str) -> ContentBlock {
    ContentBlock::Markdown { markdown: text.to_string() }
}

#[test]
fn spans_of_each_sort_of_entry() {
    let user = AgentThreadEntry::UserMessage(UserMessage {
        id: None,
        content: markdown("hi"),
        chunks: vec![text_block("hi")],
    });
    assert_eq!(entry_text_spans(&user, QUEUE_HINT_LINE), vec!["hi".to_string()]);
    let answer = AgentThreadEntry::AssistantMessage(AssistantMessage {
        chunks: vec![
            AssistantMessageChunk::Thought { block: markdown("hm") },
            AssistantMessageChunk::Message { block: markdown("one") },
            AssistantMessageChunk::Message { block: markdown("two") },
        ],
        subagent_id: None,
    });
    assert_eq!(entry_text_spans(&answer, QUEUE_HINT_LINE), vec!["one\n\ntwo".to_string()]);
    let thoughts = AgentThreadEntry::AssistantMessage(AssistantMessage {
        chunks: vec![AssistantMessageChunk::Thought { block: markdown("hm") }],
        subagent_id: None,
    });
    assert_eq!(entry_text_spans(&thoughts, QUEUE_HINT_LINE), vec!["thinking: hm".to_string()]);
    let plan = AgentThreadEntry::CompletedPlan(vec![PlanEntry {
        content: "step".to_string(),
        priority: PlanEntryPriority::Medium,
        status: PlanEntryStatus::Pending,
    }]);
    assert_eq!(
        entry_text_spans(&plan, QUEUE_HINT_LINE),
        vec!["Plan".to_string(), "• step".to_string()]
    );
}

#[test]
fn fenced_text_is_left_alone() {
    let fenced = fence_plain_text("plain");
    assert!(fenced.contains("plain"));
    assert_eq!(fence_plain_text(&fenced), fenced);
}

#[test]
fn long_output_is_cut() {
    let long: String = (0..40).map(|i| format!("line {i}\n")).collect();
    let cut = truncate_tool_summary(&long);
    assert!(cut.contains("line 0"));
    assert!(!cut.contains("line 39"));
    assert!(cut.ends_with("line 14\n\n_… (+25 more lines)_"));
    let fifteen = "x\n".repeat(15);
    assert_eq!(truncate_tool_summary(&fifteen), fifteen);
}

#[test]
fn text_that_ends_with_a_note_is_cut_like_any_other() {
    let mut text: String = (0..17).map(|i| format!("{i}\n")).collect();
    text.push_str("_… (+7 more lines)_");
    assert!(truncate_tool_summary(&text).ends_with("\n14\n\n_… (+3 more lines)_"));
}

#[test]
fn raw_output_is_shown_as_text_or_json() {
    assert!(raw_output_fallback_markdown(None).is_none());
    let text = raw_output_fallback_markdown(Some(&json("\"done\""))).unwrap();
    assert_eq!(text, "done");
    let fenced = raw_output_fallback_markdown(Some(&json("\"```x\\n \""))).unwrap();
    assert_eq!(fenced, "```x\n ");
    assert!(raw_output_fallback_markdown(Some(&json("\" \\n\""))).is_none());
    assert!(raw_output_fallback_markdown(Some(&json("null"))).is_none());
    assert!(raw_output_fallback_markdown(Some(&json("{}"))).is_none());
    assert!(raw_output_fallback_markdown(Some(&json("[]"))).is_none());
    assert_eq!(raw_output_fallback_markdown(Some(&json("true"))).unwrap(), "true");
    assert_eq!(raw_output_fallback_markdown(Some(&json("4.5"))).unwrap(), "4.5");
    let object = raw_output_fallback_markdown(Some(&json(r#"{"a":1}"#))).unwrap();
    assert!(object.contains("\"a\": 1"));
}

#[test]
fn diffs_and_terminals_are_shown() {
    let diff = Diff { path: Some("src/x.rs".to_string()), unified: "+new".to_string() };
    let shown = diff_summary_markdown(&diff);
    assert!(shown.contains("src/x.rs"));
    assert!(shown.contains("+new"));
    let terminal = Terminal { output: Some("built".to_string()), screen: String::new() };
    assert!(terminal_output_markdown(&terminal).contains("built"));
}
