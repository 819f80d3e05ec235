use solution_agent::clock::Timestamp;
use solution_agent::db::{
    added_columns, apply_idempotent_add_column, column_exists, decode_row, encode_metadata,
    is_worth_a_warning, BackgroundAgentRow, BackgroundShellRow, SessionRow, SolutionAgentDb,
};
use solution_agent::model::{SolutionSessionId, SolutionSessionMetadata};

fn at(millis: i64) -> Timestamp {
    Timestamp::from_unix(millis / 1000, (millis % 1000) as u32 * 1_000_000).unwrap()
}

fn make_meta(seq: u32, sol: &str) -> SolutionSessionMetadata {
    SolutionSessionMetadata {
        id: SolutionSessionId::new(),
        solution_id: sol.to_string(),
        agent_id: "mock-agent".to_string(),
        acp_session_id: format!("acp-{seq}"),
        title: format!("session {seq}"),
        created_at: at(1_700_000_000_000 + seq as i64 * 1000),
        last_activity_at: at(1_700_000_000_000 + seq as i64 * 1000),
        preview: None,
        total_tokens: None,
        context_count: 1,
        cwd: String::new(),
        parent_session_id: None,
    }
}

#[test]
fn save_then_list_returns_inserted_rows() {
    let mut db = SolutionAgentDb::open();
    db.save_metadata(&make_meta(1, "sol-a"));
    db.save_metadata(&make_meta(2, "sol-a"));
    db.save_metadata(&make_meta(3, "sol-b"));
    assert_eq!(db.list_for_solution("sol-a").unwrap().len(), 2);
    assert_eq!(db.list_for_solution("sol-b").unwrap().len(), 1);
    assert_eq!(db.list_for_solution("sol-c").unwrap().len(), 0);
}

#[test]
fn cwd_roundtrips_through_save_and_list() {
    let mut db = SolutionAgentDb::open();
    let mut with_cwd = make_meta(1, "sol-a");
    with_cwd.cwd = "/tmp/sol-a/member-x".to_string();
    let without_cwd = make_meta(2, "sol-a");
    db.save_metadata(&with_cwd);
    db.save_metadata(&without_cwd);
    let listed = db.list_for_solution("sol-a").unwrap();
    let by_id = |id| listed.iter().find(|m| m.id == id).expect("row present");
    assert_eq!(by_id(with_cwd.id).cwd, with_cwd.cwd);
    assert_eq!(by_id(without_cwd.id).cwd, "");
}

#[test]
fn save_blob_then_load_roundtrips() {
    let mut db = SolutionAgentDb::open();
    let meta = make_meta(1, "sol-a");
    db.save_metadata(&meta);
    let blob = b"\x01\x02\x03 example payload".to_vec();
    db.save_blob(&meta.id, blob.clone());
    assert_eq!(db.load_blob(&meta.id), Some(blob));
}

#[test]
fn delete_removes_row() {
    let mut db = SolutionAgentDb::open();
    let meta = make_meta(1, "sol-a");
    db.save_metadata(&meta);
    db.delete(&meta.id);
    assert!(db.list_for_solution(&meta.solution_id).unwrap().is_empty());
}

#[test]
fn tab_order_roundtrips_per_solution() {
    let mut db = SolutionAgentDb::open();
    let m1 = make_meta(1, "sol-a");
    let m2 = make_meta(2, "sol-a");
    let m3 = make_meta(3, "sol-a");
    let other = make_meta(4, "sol-b");
    for m in [&m1, &m2, &m3, &other] {
        db.save_metadata(m);
    }
    db.update_tab_orders("sol-a", &vec![m2.id, m3.id, m1.id]);
    db.update_tab_orders("sol-b", &vec![other.id]);
    assert_eq!(db.list_open_tabs("sol-a").unwrap(), vec![m2.id, m3.id, m1.id]);
    assert_eq!(db.list_open_tabs("sol-b").unwrap(), vec![other.id]);
}

#[test]
fn update_tab_orders_clears_omitted_sessions() {
    let mut db = SolutionAgentDb::open();
    let m1 = make_meta(1, "sol-a");
    let m2 = make_meta(2, "sol-a");
    let m3 = make_meta(3, "sol-a");
    for m in [&m1, &m2, &m3] {
        db.save_metadata(m);
    }
    db.update_tab_orders("sol-a", &vec![m1.id, m2.id, m3.id]);
    assert_eq!(db.list_open_tabs("sol-a").unwrap(), vec![m1.id, m2.id, m3.id]);
    db.update_tab_orders("sol-a", &vec![m2.id]);
    assert_eq!(db.list_open_tabs("sol-a").unwrap(), vec![m2.id]);
}

fn agent_row() -> BackgroundAgentRow {
    BackgroundAgentRow {
        solution_session_id: "ses-1".to_string(),
        agent_id: "a30f92a688e431edc".to_string(),
        jsonl_path: "/tmp/x.jsonl".to_string(),
        registered_at_ms: 1_700_000_000_000,
        last_seen_label: None,
        last_mtime_ms: None,
        stop_reason: None,
    }
}

#[test]
fn background_agent_round_trip() {
    let mut db = SolutionAgentDb::open();
    let row = BackgroundAgentRow {
        last_seen_label: Some("Bash: ls".to_string()),
        last_mtime_ms: Some(1_700_000_001_000),
        ..agent_row()
    };
    db.save_background_agent(row.clone());
    let loaded = db.load_background_agents("ses-1");
    assert_eq!(loaded.len(), 1);
    assert_eq!(loaded[0], row);
}

#[test]
fn background_agent_delete() {
    let mut db = SolutionAgentDb::open();
    db.save_background_agent(agent_row());
    db.delete_background_agent("ses-1", "a30f92a688e431edc");
    assert!(db.load_background_agents("ses-1").is_empty());
}

#[test]
fn background_shell_round_trip() {
    let mut db = SolutionAgentDb::open();
    let row = BackgroundShellRow {
        solution_session_id: "ses-1".to_string(),
        shell_id: "bvb4ful1z".to_string(),
        command: "npm run watch".to_string(),
        output_path: "/tmp/bvb4ful1z.output".to_string(),
        registered_at_ms: 1_700_000_000_000,
        last_tail: Some("Watching for changes...".to_string()),
        last_mtime_ms: Some(1_700_000_001_000),
        state_text: "running".to_string(),
    };
    db.save_background_shell(row.clone());
    let loaded = db.load_background_shells("ses-1");
    assert_eq!(loaded.len(), 1);
    assert_eq!(loaded[0], row);

    let row_no_opts = BackgroundShellRow {
        solution_session_id: "ses-1".to_string(),
        shell_id: "xyz123".to_string(),
        command: "sleep 60".to_string(),
        output_path: "/tmp/xyz123.output".to_string(),
        registered_at_ms: 1_700_000_002_000,
        last_tail: None,
        last_mtime_ms: None,
        state_text: "exited:0".to_string(),
    };
    db.save_background_shell(row_no_opts.clone());
    let loaded = db.load_background_shells("ses-1");
    assert_eq!(loaded.len(), 2);
    let found = loaded.iter().find(|r| r.shell_id == "xyz123").unwrap();
    assert_eq!(found, &row_no_opts);
}

fn shell_row(session: &str, shell: &str) -> BackgroundShellRow {
    BackgroundShellRow {
        solution_session_id: session.to_string(),
        shell_id: shell.to_string(),
        command: "echo hi".to_string(),
        output_path: format!("/tmp/{shell}.output"),
        registered_at_ms: 1_700_000_000_000,
        last_tail: None,
        last_mtime_ms: None,
        state_text: "killed".to_string(),
    }
}

#[test]
fn background_shell_delete_by_id() {
    let mut db = SolutionAgentDb::open();
    db.save_background_shell(BackgroundShellRow {
        command: "npm run watch".to_string(),
        state_text: "running".to_string(),
        ..shell_row("ses-1", "bvb4ful1z")
    });
    db.delete_background_shell("ses-1", "bvb4ful1z");
    assert!(db.load_background_shells("ses-1").is_empty());
}

#[test]
fn background_shell_delete_for_session_only_removes_that_session() {
    let mut db = SolutionAgentDb::open();
    db.save_background_shell(shell_row("ses-1", "shell-a"));
    db.save_background_shell(shell_row("ses-1", "shell-b"));
    db.save_background_shell(shell_row("ses-2", "shell-c"));
    db.delete_background_shells_for_session("ses-1");
    assert!(db.load_background_shells("ses-1").is_empty());
    let ses2 = db.load_background_shells("ses-2");
    assert_eq!(ses2.len(), 1);
    assert_eq!(ses2[0].shell_id, "shell-c");
}

#[test]
fn delete_for_solution_cascades() {
    let mut db = SolutionAgentDb::open();
    db.save_metadata(&make_meta(1, "sol-a"));
    db.save_metadata(&make_meta(2, "sol-a"));
    db.save_metadata(&make_meta(3, "sol-b"));
    db.delete_for_solution("sol-a");
    assert!(db.list_for_solution("sol-a").unwrap().is_empty());
    assert_eq!(db.list_for_solution("sol-b").unwrap().len(), 1);
}

#[test]
fn metadata_comes_back_as_it_was() {
    let mut db = SolutionAgentDb::open();
    let parent = SolutionSessionId::new();
    let mut meta = make_meta(7, "sol-a");
    meta.preview = Some("first prompt".to_string());
    meta.total_tokens = Some(42_000);
    meta.context_count = 3;
    meta.parent_session_id = Some(parent);
    db.save_metadata(&meta);
    let listed = db.list_for_solution("sol-a").unwrap();
    assert_eq!(listed.len(), 1);
    let back = &listed[0];
    assert_eq!(back.id, meta.id);
    assert_eq!(back.acp_session_id, "acp-7");
    assert_eq!(back.title, "session 7");
    assert_eq!(back.created_at.timestamp_millis(), 1_700_000_007_000);
    assert_eq!(back.preview.as_deref(), Some("first prompt"));
    assert_eq!(back.total_tokens, Some(42_000));
    assert_eq!(back.context_count, 3);
    assert_eq!(back.parent_session_id, Some(parent));
}

#[test]
fn remembering_a_session_again_keeps_its_conversation() {
    let mut db = SolutionAgentDb::open();
    let mut meta = make_meta(1, "sol-a");
    db.save_metadata(&meta);
    db.save_blob(&meta.id, vec![1, 2, 3]);
    db.update_tab_orders("sol-a", &vec![meta.id]);
    meta.title = "renamed".to_string();
    db.save_metadata(&meta);
    assert_eq!(db.load_blob(&meta.id), Some(vec![1, 2, 3]));
    assert_eq!(db.list_open_tabs("sol-a").unwrap(), vec![meta.id]);
    assert_eq!(db.list_for_solution("sol-a").unwrap()[0].title, "renamed");
}

#[test]
fn closing_a_session_keeps_its_conversation() {
    let mut db = SolutionAgentDb::open();
    let meta = make_meta(1, "sol-a");
    let open = make_meta(2, "sol-a");
    db.save_metadata(&meta);
    db.save_metadata(&open);
    db.save_blob(&meta.id, vec![9]);
    db.mark_closed(&meta.id, Some(at(1_700_000_000_500)));
    assert_eq!(db.load_blob(&meta.id), Some(vec![9]));
    assert_eq!(db.closed_at(&meta.id).unwrap().timestamp_millis(), 1_700_000_000_500);
    assert_eq!(db.list_open_session_ids("sol-a").unwrap(), vec![open.id]);
    assert_eq!(db.list_closed_session_ids("sol-a").unwrap(), vec![meta.id]);
    db.mark_closed(&meta.id, None);
    assert!(db.closed_at(&meta.id).is_none());
    assert!(db.list_closed_session_ids("sol-a").unwrap().is_empty());
}

#[test]
fn the_newest_session_comes_first() {
    let mut db = SolutionAgentDb::open();
    db.save_metadata(&make_meta(1, "sol-a"));
    db.save_metadata(&make_meta(3, "sol-a"));
    db.save_metadata(&make_meta(2, "sol-a"));
    let titles: Vec<String> =
        db.list_for_solution("sol-a").unwrap().into_iter().map(|m| m.title).collect();
    assert_eq!(titles, vec!["session 3", "session 2", "session 1"]);
}

#[test]
fn columns_are_added_once() {
    let names: Vec<String> = vec!["id".to_string(), "title".to_string()];
    assert!(column_exists(&names, "title"));
    assert!(!column_exists(&names, "cwd"));
    assert!(apply_idempotent_add_column(&names, "title TEXT").is_none());
    let statement = apply_idempotent_add_column(&names, "cwd TEXT").unwrap();
    assert!(statement.contains("ADD COLUMN cwd TEXT"), "{statement}");
    assert!(!added_columns().is_empty());
    assert!(!is_worth_a_warning("duplicate column name: cwd"));
    assert!(is_worth_a_warning("disk I/O error"));
}

fn row() -> SessionRow {
    SessionRow {
        id: "abcd1234".to_string(),
        solution_id: "sol-a".to_string(),
        agent_id: "mock-agent".to_string(),
        acp_session_id: "acp-1".to_string(),
        title: "t".to_string(),
        created_at: 1_700_000_000_001,
        last_activity_at: 1_700_000_000_002,
        preview: None,
        total_tokens: None,
        context_count: 0,
        cwd: None,
        parent_session_id: None,
        blob: None,
        closed_at: None,
        tab_order: None,
    }
}

#[test]
fn rows_are_decoded_or_refused() {
    let meta = decode_row(&row()).unwrap();
    assert_eq!(meta.id.as_str(), "abcd1234");
    assert_eq!(meta.created_at.timestamp_millis(), 1_700_000_000_001);
    assert_eq!(meta.context_count, 1, "a row that was never counted is the first context");
    assert!(decode_row(&SessionRow { id: "!".to_string(), ..row() }).is_err());
    assert!(decode_row(&SessionRow { created_at: i64::MAX, ..row() }).is_err());
    assert!(decode_row(&SessionRow { last_activity_at: i64::MIN, ..row() }).is_err());
}

#[test]
fn the_first_and_last_instant_can_be_stored() {
    let first = SessionRow { created_at: -8_334_601_228_800_000, ..row() };
    assert_eq!(
        decode_row(&first).unwrap().created_at.timestamp_millis(),
        -8_334_601_228_800_000
    );
    assert!(decode_row(&SessionRow { created_at: -8_334_601_228_800_001, ..row() }).is_err());
    let last = SessionRow { created_at: 8_210_266_876_799_999, ..row() };
    assert_eq!(
        decode_row(&last).unwrap().created_at.timestamp_millis(),
        8_210_266_876_799_999
    );
    assert!(decode_row(&SessionRow { created_at: 8_210_266_876_800_000, ..row() }).is_err());
}

#[test]
fn opening_leaves_no_column_missing() {
    let db = SolutionAgentDb::open();
    assert_eq!(
        db.columns,
        vec![
            "id",
            "solution_id",
            "agent_id",
            "acp_session_id",
            "title",
            "created_at",
            "last_activity_at",
            "acp_thread_blob",
            "preview",
            "total_tokens",
            "closed_at",
            "context_count",
            "cwd",
            "tab_order",
            "parent_session_id",
        ]
    );
    assert!(db.sessions.is_empty());
}

#[test]
fn columns_that_are_there_are_not_added_again() {
    let mut db = SolutionAgentDb::open();
    assert!(db.add_missing_columns().is_empty());
    let meta = make_meta(1, "sol-a");
    db.save_metadata(&meta);
    db.columns.retain(|name| name != "cwd" && name != "tab_order");
    assert_eq!(
        db.add_missing_columns(),
        vec![
            "ALTER TABLE solution_sessions ADD COLUMN cwd TEXT",
            "ALTER TABLE solution_sessions ADD COLUMN tab_order INTEGER",
        ]
    );
    assert_eq!(db.columns.len(), 15);
    assert_eq!(db.list_for_solution("sol-a").unwrap()[0].id, meta.id);
}

#[test]
fn rows_that_are_there_twice_are_noticed() {
    let mut db = SolutionAgentDb::open();
    assert!(db.session_keys_differ());
    assert!(db.background_keys_differ());
    let meta = make_meta(1, "sol-a");
    db.save_metadata(&meta);
    db.save_metadata(&make_meta(2, "sol-a"));
    db.save_background_agent(agent_row());
    assert!(db.session_keys_differ());
    assert!(db.background_keys_differ());
    db.sessions.push(encode_metadata(&meta));
    assert!(!db.session_keys_differ());
    let other = BackgroundAgentRow { solution_session_id: "ses-2".to_string(), ..agent_row() };
    db.background_agents.push(other);
    assert!(db.background_keys_differ());
    db.background_agents.push(agent_row());
    assert!(!db.background_keys_differ());
}
