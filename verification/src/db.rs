//! The tables in which sessions are remembered.
use crate::background_rows::background_wf;
use crate::clock::{is_instant, Timestamp, FIRST_SECOND, LAST_SECOND};
use crate::duplicate::{push_value, Duplicate};
use crate::mcp::requests::parse_named_session;
use crate::model::{
    invalid_id_message, is_session_id, parsed_session_id, SolutionSessionId,
    SolutionSessionMetadata, SolutionSessionMetadataView,
};
use crate::ordering::{
    insert_sorted, law_sorting_orders_and_keeps, sorted_by, Placed,
};
use crate::text::{
    ascii_lowered, char_is_space, contains, contains_text, is_blank, is_space,
    lemma_blank_iff_trimmed_empty, print_i64, same_text,
    signed_decimal, to_ascii_lower, trim_start, trimmed_start,
};
use vstd::prelude::*;
use vstd::string::*;

verus! {

/// A remembered session.
#[derive(Clone, Debug)]
pub struct SessionRow {
    pub id: String,
    pub solution_id: String,
    pub agent_id: String,
    pub acp_session_id: String,
    pub title: String,
    /// In milliseconds since the epoch.
    pub created_at: i64,
    /// In milliseconds since the epoch.
    pub last_activity_at: i64,
    pub preview: Option<String>,
    pub total_tokens: Option<i64>,
    pub context_count: i64,
    pub cwd: Option<String>,
    pub parent_session_id: Option<String>,
    /// The conversation.
    pub blob: Option<Vec<u8>>,
    /// When the user closed it, in milliseconds since the epoch.
    pub closed_at: Option<i64>,
    /// Its place among the open tabs.
    pub tab_order: Option<i64>,
}

/// What a [`SessionRow`] stands for.
#[verifier::ext_equal]
pub struct SessionRowView {
    pub id: Seq<char>,
    pub solution_id: Seq<char>,
    pub agent_id: Seq<char>,
    pub acp_session_id: Seq<char>,
    pub title: Seq<char>,
    pub created_at: i64,
    pub last_activity_at: i64,
    pub preview: Option<Seq<char>>,
    pub total_tokens: Option<i64>,
    pub context_count: i64,
    pub cwd: Option<Seq<char>>,
    pub parent_session_id: Option<Seq<char>>,
    pub blob: Option<Seq<u8>>,
    pub closed_at: Option<i64>,
    pub tab_order: Option<i64>,
}

impl DeepView for SessionRow {
    type V = SessionRowView;

    open spec fn deep_view(&self) -> SessionRowView {
        SessionRowView {
            id: self.id.deep_view(),
            solution_id: self.solution_id.deep_view(),
            agent_id: self.agent_id.deep_view(),
            acp_session_id: self.acp_session_id.deep_view(),
            title: self.title.deep_view(),
            created_at: self.created_at,
            last_activity_at: self.last_activity_at,
            preview: self.preview.deep_view(),
            total_tokens: self.total_tokens,
            context_count: self.context_count,
            cwd: self.cwd.deep_view(),
            parent_session_id: self.parent_session_id.deep_view(),
            blob: self.blob.deep_view(),
            closed_at: self.closed_at,
            tab_order: self.tab_order,
        }
    }
}

impl Duplicate for SessionRow {
    fn duplicate(&self) -> (r: Self) {
        SessionRow {
            id: self.id.duplicate(),
            solution_id: self.solution_id.duplicate(),
            agent_id: self.agent_id.duplicate(),
            acp_session_id: self.acp_session_id.duplicate(),
            title: self.title.duplicate(),
            created_at: self.created_at,
            last_activity_at: self.last_activity_at,
            preview: self.preview.duplicate(),
            total_tokens: self.total_tokens,
            context_count: self.context_count,
            cwd: self.cwd.duplicate(),
            parent_session_id: self.parent_session_id.duplicate(),
            blob: self.blob.duplicate(),
            closed_at: self.closed_at,
            tab_order: self.tab_order,
        }
    }
}

/// A remembered managed agent.
#[derive(Clone, Debug, PartialEq, Eq)]
pub struct BackgroundAgentRow {
    pub solution_session_id: String,
    pub agent_id: String,
    pub jsonl_path: String,
    pub registered_at_ms: i64,
    pub last_seen_label: Option<String>,
    pub last_mtime_ms: Option<i64>,
    pub stop_reason: Option<String>,
}

/// What a [`BackgroundAgentRow`] stands for.
#[verifier::ext_equal]
pub struct BackgroundAgentRowView {
    pub solution_session_id: Seq<char>,
    pub agent_id: Seq<char>,
    pub jsonl_path: Seq<char>,
    pub registered_at_ms: i64,
    pub last_seen_label: Option<Seq<char>>,
    pub last_mtime_ms: Option<i64>,
    pub stop_reason: Option<Seq<char>>,
}

impl DeepView for BackgroundAgentRow {
    type V = BackgroundAgentRowView;

    open spec fn deep_view(&self) -> BackgroundAgentRowView {
        BackgroundAgentRowView {
            solution_session_id: self.solution_session_id.deep_view(),
            agent_id: self.agent_id.deep_view(),
            jsonl_path: self.jsonl_path.deep_view(),
            registered_at_ms: self.registered_at_ms,
            last_seen_label: self.last_seen_label.deep_view(),
            last_mtime_ms: self.last_mtime_ms,
            stop_reason: self.stop_reason.deep_view(),
        }
    }
}

impl Duplicate for BackgroundAgentRow {
    fn duplicate(&self) -> (r: Self) {
        BackgroundAgentRow {
            solution_session_id: self.solution_session_id.duplicate(),
            agent_id: self.agent_id.duplicate(),
            jsonl_path: self.jsonl_path.duplicate(),
            registered_at_ms: self.registered_at_ms,
            last_seen_label: self.last_seen_label.duplicate(),
            last_mtime_ms: self.last_mtime_ms,
            stop_reason: self.stop_reason.duplicate(),
        }
    }
}

/// A remembered background shell.
#[derive(Clone, Debug, PartialEq, Eq)]
pub struct BackgroundShellRow {
    pub solution_session_id: String,
    pub shell_id: String,
    pub command: String,
    pub output_path: String,
    pub registered_at_ms: i64,
    pub last_tail: Option<String>,
    pub last_mtime_ms: Option<i64>,
    /// The state as text: `running`, `exited:N` or `killed`.
    pub state_text: String,
}

/// What a [`BackgroundShellRow`] stands for.
#[verifier::ext_equal]
pub struct BackgroundShellRowView {
    pub solution_session_id: Seq<char>,
    pub shell_id: Seq<char>,
    pub command: Seq<char>,
    pub output_path: Seq<char>,
    pub registered_at_ms: i64,
    pub last_tail: Option<Seq<char>>,
    pub last_mtime_ms: Option<i64>,
    pub state_text: Seq<char>,
}

impl DeepView for BackgroundShellRow {
    type V = BackgroundShellRowView;

    open spec fn deep_view(&self) -> BackgroundShellRowView {
        BackgroundShellRowView {
            solution_session_id: self.solution_session_id.deep_view(),
            shell_id: self.shell_id.deep_view(),
            command: self.command.deep_view(),
            output_path: self.output_path.deep_view(),
            registered_at_ms: self.registered_at_ms,
            last_tail: self.last_tail.deep_view(),
            last_mtime_ms: self.last_mtime_ms,
            state_text: self.state_text.deep_view(),
        }
    }
}

impl Duplicate for BackgroundShellRow {
    fn duplicate(&self) -> (r: Self) {
        BackgroundShellRow {
            solution_session_id: self.solution_session_id.duplicate(),
            shell_id: self.shell_id.duplicate(),
            command: self.command.duplicate(),
            output_path: self.output_path.duplicate(),
            registered_at_ms: self.registered_at_ms,
            last_tail: self.last_tail.duplicate(),
            last_mtime_ms: self.last_mtime_ms,
            state_text: self.state_text.duplicate(),
        }
    }
}

/// The columns that the table of sessions is created with.
pub open spec fn first_column_names() -> Seq<Seq<char>> {
    seq![
        "id"@,
        "solution_id"@,
        "agent_id"@,
        "acp_session_id"@,
        "title"@,
        "created_at"@,
        "last_activity_at"@,
        "acp_thread_blob"@,
    ]
}

/// The columns that the table of sessions is created with.
fn first_columns() -> (r: Vec<String>)
    ensures
        r.deep_view() == first_column_names(),
{
    let mut columns: Vec<String> = Vec::new();
    columns.push("id".to_owned());
    columns.push("solution_id".to_owned());
    columns.push("agent_id".to_owned());
    columns.push("acp_session_id".to_owned());
    columns.push("title".to_owned());
    columns.push("created_at".to_owned());
    columns.push("last_activity_at".to_owned());
    columns.push("acp_thread_blob".to_owned());
    assert(columns.deep_view() =~= first_column_names());
    columns
}

/// The columns that were added to the table of sessions in the course of time.
pub open spec fn added_definitions() -> Seq<Seq<char>> {
    seq![
        "preview TEXT"@,
        "total_tokens INTEGER"@,
        "closed_at INTEGER"@,
        "context_count INTEGER NOT NULL DEFAULT 1"@,
        "cwd TEXT"@,
        "tab_order INTEGER"@,
        "parent_session_id TEXT"@,
    ]
}

/// The columns that were added to the table of sessions in the course of time.
pub fn added_columns() -> (r: Vec<&'static str>)
    ensures
        r.deep_view() == added_definitions(),
{
    let mut columns: Vec<&'static str> = Vec::new();
    columns.push("preview TEXT");
    columns.push("total_tokens INTEGER");
    columns.push("closed_at INTEGER");
    columns.push("context_count INTEGER NOT NULL DEFAULT 1");
    columns.push("cwd TEXT");
    columns.push("tab_order INTEGER");
    columns.push("parent_session_id TEXT");
    assert(columns.deep_view() =~= added_definitions());
    columns
}

/// The first word of a text without white space at its start.
pub open spec fn leading_word(s: Seq<char>) -> Seq<char>
    decreases s.len(),
{
    if s.len() == 0 || is_space(s[0]) {
        Seq::empty()
    } else {
        seq![s[0]] + leading_word(s.drop_first())
    }
}

/// The name of the column that a definition defines: its first word.
pub open spec fn column_name_of(definition: Seq<char>) -> Seq<char> {
    if is_blank(definition) {
        definition
    } else {
        leading_word(trimmed_start(definition))
    }
}

/// The first word is a beginning that ends before the first white space.
proof fn lemma_leading_word(s: Seq<char>, n: int)
    requires
        0 <= n <= s.len(),
        forall|i: int| 0 <= i < n ==> !is_space(#[trigger] s[i]),
        n < s.len() ==> is_space(s[n]),
    ensures
        leading_word(s) == s.take(n),
    decreases n,
{
    if n > 0 {
        let rest = s.drop_first();
        assert forall|i: int| 0 <= i < n - 1 implies !is_space(#[trigger] rest[i]) by {
            assert(rest[i] == s[i + 1]);
        }
        lemma_leading_word(rest, n - 1);
        assert(s.take(n) =~= seq![s[0]] + rest.take(n - 1));
    } else {
        assert(s.take(0) =~= Seq::empty());
    }
}

/// The name of the column that a definition defines.
pub fn column_name(definition: &str) -> (r: &str)
    ensures
        r@ == column_name_of(definition@),
{
    let start = trim_start(definition);
    proof {
        lemma_blank_iff_trimmed_empty(definition@);
    }
    if start.is_empty() {
        return definition;
    }
    let n: usize = start.unicode_len();
    let mut i: usize = 0;
    while i < n && !char_is_space(start.get_char(i))
        invariant
            i <= n == start@.len(),
            forall|k: int| 0 <= k < i ==> !is_space(#[trigger] start@[k]),
        decreases n - i,
    {
        i += 1;
    }
    proof {
        lemma_leading_word(start@, i as int);
    }
    assert(start@.subrange(0, i as int) == start@.take(i as int));
    start.substring_char(0, i)
}

/// Whether one of the names is the given one, but for upper and lower case.
pub open spec fn names_column(names: Seq<Seq<char>>, column: Seq<char>) -> bool {
    exists|i: int|
        0 <= i < names.len() && ascii_lowered(#[trigger] names[i]) == ascii_lowered(column)
}

/// Whether a table with the given columns has the column. Case does not matter.
pub fn column_exists(names: &Vec<String>, column: &str) -> (r: bool)
    ensures
        r == names_column(names.deep_view(), column@),
{
    let ghost all = names.deep_view();
    let wanted = to_ascii_lower(column);
    let mut i: usize = 0;
    while i < names.len()
        invariant
            i <= names@.len(),
            all == names.deep_view(),
            wanted@ == ascii_lowered(column@),
            forall|k: int| 0 <= k < i ==> ascii_lowered(#[trigger] all[k]) != wanted@,
        decreases names@.len() - i,
    {
        assert(all[i as int] == names@[i as int]@);
        let name = to_ascii_lower(names[i].as_str());
        if same_text(name.as_str(), wanted.as_str()) {
            return true;
        }
        i += 1;
    }
    false
}

/// The statement that adds a column to the table of sessions.
pub open spec fn add_statement(definition: Seq<char>) -> Seq<char> {
    "ALTER TABLE solution_sessions ADD COLUMN "@ + definition
}

/// The statement that adds a column to the table of sessions, unless it is there
/// already.
pub fn apply_idempotent_add_column(names: &Vec<String>, column_def: &str) -> (r: Option<String>)
    ensures
        if names_column(names.deep_view(), column_name_of(column_def@)) {
            r is None
        } else {
            r is Some && r->Some_0@ == add_statement(column_def@)
        },
{
    if column_exists(names, column_name(column_def)) {
        return None;
    }
    let mut ddl = "ALTER TABLE solution_sessions ADD COLUMN ".to_owned();
    ddl.append(column_def);
    Some(ddl)
}

/// The names of the columns after those that are missing were added, in order.
pub open spec fn with_columns(names: Seq<Seq<char>>, definitions: Seq<Seq<char>>) -> Seq<Seq<char>>
    decreases definitions.len(),
{
    if definitions.len() == 0 {
        names
    } else {
        let before = with_columns(names, definitions.drop_last());
        let name = column_name_of(definitions.last());
        if names_column(before, name) {
            before
        } else {
            before.push(name)
        }
    }
}

/// The statements that add the columns that are missing, in order.
pub open spec fn missing_statements(
    names: Seq<Seq<char>>,
    definitions: Seq<Seq<char>>,
) -> Seq<Seq<char>>
    decreases definitions.len(),
{
    if definitions.len() == 0 {
        Seq::empty()
    } else {
        let before = missing_statements(names, definitions.drop_last());
        let here = with_columns(names, definitions.drop_last());
        if names_column(here, column_name_of(definitions.last())) {
            before
        } else {
            before.push(add_statement(definitions.last()))
        }
    }
}

/// Once the missing columns were added, none is missing, and the columns that
/// were there before still come first.
pub proof fn law_no_column_is_missing(names: Seq<Seq<char>>, definitions: Seq<Seq<char>>)
    ensures
        names.is_prefix_of(with_columns(names, definitions)),
        forall|i: int|
            0 <= i < definitions.len() ==> names_column(
                with_columns(names, definitions),
                column_name_of(#[trigger] definitions[i]),
            ),
    decreases definitions.len(),
{
    if definitions.len() > 0 {
        law_no_column_is_missing(names, definitions.drop_last());
        let before = with_columns(names, definitions.drop_last());
        let after = with_columns(names, definitions);
        let name = column_name_of(definitions.last());
        if !names_column(before, name) {
            assert(after == before.push(name));
            assert(after[before.len() as int] == name);
        }
        assert forall|k: int| 0 <= k < before.len() implies after[k] == before[k] by {}
        assert forall|i: int| 0 <= i < definitions.len() implies names_column(
            after,
            column_name_of(#[trigger] definitions[i]),
        ) by {
            if i < definitions.len() - 1 {
                assert(definitions.drop_last()[i] == definitions[i]);
                let k = choose|k: int|
                    0 <= k < before.len() && ascii_lowered(#[trigger] before[k]) == ascii_lowered(
                        column_name_of(definitions[i]),
                    );
                assert(after[k] == before[k]);
            }
        }
    }
}

/// Columns that are all there are not added again, and nothing is run.
pub proof fn law_columns_are_added_once(names: Seq<Seq<char>>, definitions: Seq<Seq<char>>)
    requires
        forall|i: int|
            0 <= i < definitions.len() ==> names_column(
                names,
                column_name_of(#[trigger] definitions[i]),
            ),
    ensures
        with_columns(names, definitions) == names,
        missing_statements(names, definitions) == Seq::<Seq<char>>::empty(),
    decreases definitions.len(),
{
    if definitions.len() > 0 {
        assert forall|i: int| 0 <= i < definitions.drop_last().len() implies names_column(
            names,
            column_name_of(#[trigger] definitions.drop_last()[i]),
        ) by {
            assert(definitions.drop_last()[i] == definitions[i]);
        }
        law_columns_are_added_once(names, definitions.drop_last());
        assert(names_column(names, column_name_of(definitions[definitions.len() - 1])));
    }
}

/// Whether the failure to add a column has to be reported: not where it is there
/// already.
pub fn is_worth_a_warning(failure: &str) -> (r: bool)
    ensures
        r == !contains_text(failure@, "duplicate column name"@),
{
    !contains(failure, "duplicate column name")
}

/// The row that remembers a session anew.
pub open spec fn row_of(meta: SolutionSessionMetadataView) -> SessionRowView {
    SessionRowView {
        id: meta.id,
        solution_id: meta.solution_id,
        agent_id: meta.agent_id,
        acp_session_id: meta.acp_session_id,
        title: meta.title,
        created_at: meta.created_at.millis() as i64,
        last_activity_at: meta.last_activity_at.millis() as i64,
        preview: meta.preview,
        total_tokens: match meta.total_tokens {
            Some(n) => Some(n as i64),
            None => None,
        },
        context_count: meta.context_count as i64,
        cwd: if meta.cwd.len() == 0 {
            None
        } else {
            Some(meta.cwd)
        },
        parent_session_id: meta.parent_session_id,
        blob: None,
        closed_at: None,
        tab_order: None,
    }
}

/// The row that remembers a session anew.
pub fn encode_metadata(meta: &SolutionSessionMetadata) -> (r: SessionRow)
    ensures
        r.deep_view() == row_of(meta.deep_view()),
{
    let cwd = if meta.cwd.as_str().is_empty() {
        None
    } else {
        Some(meta.cwd.clone())
    };
    let parent_session_id = match &meta.parent_session_id {
        Some(id) => Some(id.as_str().to_owned()),
        None => None,
    };
    let total_tokens: Option<i64> = match meta.total_tokens {
        Some(n) => Some(
            #[verifier::truncate]
            (n as i64),
        ),
        None => None,
    };
    SessionRow {
        id: meta.id.as_str().to_owned(),
        solution_id: meta.solution_id.clone(),
        agent_id: meta.agent_id.clone(),
        acp_session_id: meta.acp_session_id.clone(),
        title: meta.title.clone(),
        created_at: meta.created_at.timestamp_millis(),
        last_activity_at: meta.last_activity_at.timestamp_millis(),
        preview: meta.preview.duplicate(),
        total_tokens,
        context_count: meta.context_count as i64,
        cwd,
        parent_session_id,
        blob: None,
        closed_at: None,
        tab_order: None,
    }
}

/// The new value, or the old one where there is no new one.
pub open spec fn updated<T>(new: Option<T>, old_value: Option<T>) -> Option<T> {
    match new {
        Some(_) => new,
        None => old_value,
    }
}

/// A row that is remembered anew: what the new one does not know is kept, and so
/// are the conversation, the tab and whether it was closed.
pub open spec fn merged(row: SessionRowView, new: SessionRowView) -> SessionRowView {
    SessionRowView {
        preview: updated(new.preview, row.preview),
        total_tokens: updated(new.total_tokens, row.total_tokens),
        cwd: updated(new.cwd, row.cwd),
        parent_session_id: updated(new.parent_session_id, row.parent_session_id),
        blob: row.blob,
        closed_at: row.closed_at,
        tab_order: row.tab_order,
        ..new
    }
}

/// The new value, or the old one where there is no new one.
fn coalesce<T>(new: Option<T>, old_value: Option<T>) -> (r: Option<T>)
    ensures
        r == updated(new, old_value),
{
    match new {
        Some(value) => Some(value),
        None => old_value,
    }
}

/// A row that is remembered anew.
fn merge_rows(row: SessionRow, new: SessionRow) -> (r: SessionRow)
    ensures
        r.deep_view() == merged(row.deep_view(), new.deep_view()),
{
    SessionRow {
        preview: coalesce(new.preview, row.preview),
        total_tokens: coalesce(new.total_tokens, row.total_tokens),
        cwd: coalesce(new.cwd, row.cwd),
        parent_session_id: coalesce(new.parent_session_id, row.parent_session_id),
        blob: row.blob,
        closed_at: row.closed_at,
        tab_order: row.tab_order,
        id: new.id,
        solution_id: new.solution_id,
        agent_id: new.agent_id,
        acp_session_id: new.acp_session_id,
        title: new.title,
        created_at: new.created_at,
        last_activity_at: new.last_activity_at,
        context_count: new.context_count,
    }
}

/// Whether a number of milliseconds since the epoch is an instant.
pub open spec fn is_instant_ms(millis: i64) -> bool {
    FIRST_SECOND * 1000 <= millis <= LAST_SECOND * 1000 + 999
}

/// Whether `t` is the instant so many milliseconds after the epoch.
pub open spec fn is_at_ms(t: Timestamp, millis: i64) -> bool {
    t.seconds() == millis as int / 1000 && t.subsec_nanos() == (millis as int % 1000) * 1_000_000
}

/// What is wrong with a row, if anything.
pub open spec fn row_fault(row: SessionRowView) -> Option<Seq<char>> {
    if parsed_session_id(row.id) is None {
        Some("invalid SolutionSessionId in db: "@ + invalid_id_message(row.id))
    } else if !is_instant_ms(row.created_at) {
        Some("invalid created_at timestamp: "@ + signed_decimal(row.created_at as int))
    } else if !is_instant_ms(row.last_activity_at) {
        Some("invalid last_activity_at timestamp: "@ + signed_decimal(row.last_activity_at as int))
    } else {
        match row.parent_session_id {
            Some(raw) => if parsed_session_id(raw) is None {
                Some("invalid parent_session_id in db: "@ + invalid_id_message(raw))
            } else {
                None
            },
            None => None,
        }
    }
}

/// Whether `meta` is what a row remembers.
pub open spec fn is_remembered(meta: SolutionSessionMetadataView, row: SessionRowView) -> bool {
    &&& parsed_session_id(row.id) == Some(meta.id)
    &&& meta.solution_id == row.solution_id
    &&& meta.agent_id == row.agent_id
    &&& meta.acp_session_id == row.acp_session_id
    &&& meta.title == row.title
    &&& is_at_ms(meta.created_at, row.created_at)
    &&& is_at_ms(meta.last_activity_at, row.last_activity_at)
    &&& meta.preview == row.preview
    &&& meta.total_tokens == match row.total_tokens {
        Some(n) => Some(n as u64),
        None => None,
    }
    &&& meta.context_count == if row.context_count > 1 {
        row.context_count as u32
    } else {
        1
    }
    &&& meta.cwd == match row.cwd {
        Some(dir) => dir,
        None => Seq::empty(),
    }
    &&& match row.parent_session_id {
        Some(raw) => meta.parent_session_id == parsed_session_id(raw),
        None => meta.parent_session_id is None,
    }
}

/// A message about a number.
fn say_number(before: &str, number: i64) -> (r: String)
    ensures
        r@ == before@ + signed_decimal(number as int),
{
    let mut message = before.to_owned();
    let text = print_i64(number);
    message.append(text.as_str());
    message
}

/// What a row remembers, or what is wrong with it.
pub fn decode_row(row: &SessionRow) -> (r: Result<SolutionSessionMetadata, String>)
    ensures
        match row_fault(row.deep_view()) {
            Some(message) => r is Err && r->Err_0@ == message,
            None => r is Ok && is_remembered(r->Ok_0.deep_view(), row.deep_view()),
        },
{
    let id = match parse_named_session(row.id.as_str(), "invalid SolutionSessionId in db: ") {
        Ok(id) => id,
        Err(message) => {
            return Err(message);
        },
    };
    let created_at = match Timestamp::from_timestamp_millis(row.created_at) {
        Some(t) => t,
        None => {
            return Err(say_number("invalid created_at timestamp: ", row.created_at));
        },
    };
    let last_activity_at = match Timestamp::from_timestamp_millis(row.last_activity_at) {
        Some(t) => t,
        None => {
            return Err(say_number("invalid last_activity_at timestamp: ", row.last_activity_at));
        },
    };
    let parent_session_id = match &row.parent_session_id {
        Some(raw) => match parse_named_session(
            raw.as_str(),
            "invalid parent_session_id in db: ",
        ) {
            Ok(parent) => Some(parent),
            Err(message) => {
                return Err(message);
            },
        },
        None => None,
    };
    let total_tokens: Option<u64> = match row.total_tokens {
        Some(n) => Some(
            #[verifier::truncate]
            (n as u64),
        ),
        None => None,
    };
    let context_count: u32 = if row.context_count > 1 {
        #[verifier::truncate]
        (row.context_count as u32)
    } else {
        1
    };
    let cwd = match &row.cwd {
        Some(dir) => dir.clone(),
        None => String::new(),
    };
    Ok(
        SolutionSessionMetadata {
            id,
            solution_id: row.solution_id.clone(),
            agent_id: row.agent_id.clone(),
            acp_session_id: row.acp_session_id.clone(),
            title: row.title.clone(),
            created_at,
            last_activity_at,
            preview: row.preview.duplicate(),
            total_tokens,
            context_count,
            cwd,
            parent_session_id,
        },
    )
}

/// What is remembered of a session is what was to be remembered, but for
/// fractions of a millisecond. Contexts are counted from one.
pub proof fn law_metadata_survives(
    meta: SolutionSessionMetadataView,
    read: SolutionSessionMetadataView,
)
    requires
        is_session_id(meta.id),
        meta.parent_session_id matches Some(id) ==> is_session_id(id),
        is_instant(meta.created_at.seconds(), meta.created_at.subsec_nanos()),
        is_instant(meta.last_activity_at.seconds(), meta.last_activity_at.subsec_nanos()),
        meta.created_at.millis() <= LAST_SECOND * 1000 + 999,
        meta.last_activity_at.millis() <= LAST_SECOND * 1000 + 999,
        meta.context_count >= 1,
    ensures
        row_fault(row_of(meta)) is None,
        is_remembered(read, row_of(meta)) ==> {
            &&& read.created_at.millis() == meta.created_at.millis()
            &&& read.last_activity_at.millis() == meta.last_activity_at.millis()
            &&& read == (SolutionSessionMetadataView {
                created_at: read.created_at,
                last_activity_at: read.last_activity_at,
                ..meta
            })
        },
{
    assert(parsed_session_id(meta.id) == Some(meta.id));
    if let Some(id) = meta.parent_session_id {
        assert(parsed_session_id(id) == Some(id));
    }
    if is_remembered(read, row_of(meta)) {
        if let Some(n) = meta.total_tokens {
            assert((n as i64) as u64 == n) by (bit_vector);
        }
        let c = meta.context_count;
        assert((c as i64) as u32 == c) by (bit_vector);
        assert(read.cwd =~= meta.cwd);
        assert(read =~= (SolutionSessionMetadataView {
            created_at: read.created_at,
            last_activity_at: read.last_activity_at,
            ..meta
        }));
    }
}

/// Which rows of the table of sessions are meant.
#[derive(Clone, Copy, Debug, PartialEq, Eq, Structural)]
pub enum RowKind {
    /// Those of a solution.
    Of,
    /// Those of a solution that have a tab and were not closed.
    OpenTabsOf,
    /// Those of a solution that were not closed.
    OpenOf,
    /// Those of a solution that were closed.
    ClosedOf,
    /// Those of all other solutions.
    NotOf,
    /// Those with another id.
    OtherThan,
}

impl RowKind {
    /// Whether a row is meant, given the solution or the id.
    pub open spec fn accepts(self, row: SessionRowView, key: Seq<char>) -> bool {
        match self {
            RowKind::Of => row.solution_id == key,
            RowKind::OpenTabsOf => row.solution_id == key && row.tab_order is Some && row.closed_at
                is None,
            RowKind::OpenOf => row.solution_id == key && row.closed_at is None,
            RowKind::ClosedOf => row.solution_id == key && row.closed_at is Some,
            RowKind::NotOf => row.solution_id != key,
            RowKind::OtherThan => row.id != key,
        }
    }

    /// Whether a row is meant.
    fn accepts_row(&self, row: &SessionRow, key: &str) -> (r: bool)
        ensures
            r == self.accepts(row.deep_view(), key@),
    {
        match self {
            RowKind::Of => same_text(row.solution_id.as_str(), key),
            RowKind::OpenTabsOf => same_text(row.solution_id.as_str(), key)
                && row.tab_order.is_some() && row.closed_at.is_none(),
            RowKind::OpenOf => same_text(row.solution_id.as_str(), key) && row.closed_at.is_none(),
            RowKind::ClosedOf => same_text(row.solution_id.as_str(), key)
                && row.closed_at.is_some(),
            RowKind::NotOf => !same_text(row.solution_id.as_str(), key),
            RowKind::OtherThan => !same_text(row.id.as_str(), key),
        }
    }
}

/// The rows that are meant, in the order of the table.
pub open spec fn rows_where(rows: Seq<SessionRowView>, kind: RowKind, key: Seq<char>) -> Seq<
    SessionRowView,
>
    decreases rows.len(),
{
    if rows.len() == 0 {
        Seq::empty()
    } else {
        let before = rows_where(rows.drop_last(), kind, key);
        if kind.accepts(rows.last(), key) {
            before.push(rows.last())
        } else {
            before
        }
    }
}

/// The rows that are meant.
fn select_rows(rows: &Vec<SessionRow>, kind: RowKind, key: &str) -> (r: Vec<SessionRow>)
    ensures
        r.deep_view() == rows_where(rows.deep_view(), kind, key@),
{
    let ghost all = rows.deep_view();
    let mut out: Vec<SessionRow> = Vec::new();
    let mut i: usize = 0;
    assert(out.deep_view() =~= rows_where(all.take(0), kind, key@));
    while i < rows.len()
        invariant
            i <= rows@.len(),
            all == rows.deep_view(),
            out.deep_view() == rows_where(all.take(i as int), kind, key@),
        decreases rows@.len() - i,
    {
        assert(all[i as int] == rows@[i as int].deep_view());
        assert(all.take(i as int + 1).drop_last() =~= all.take(i as int));
        if kind.accepts_row(&rows[i], key) {
            push_value(&mut out, rows[i].duplicate());
        }
        i += 1;
    }
    assert(all.take(i as int) =~= all);
    out
}

/// The order in which rows are listed.
#[derive(Clone, Copy, Debug, PartialEq, Eq, Structural)]
pub enum RowOrder {
    /// The one that was active last comes first.
    LatestActivityFirst,
    /// By their tabs.
    ByTab,
}

impl Placed<RowOrder> for SessionRow {
    open spec fn place(value: SessionRowView, order: RowOrder) -> int {
        match order {
            RowOrder::LatestActivityFirst => -(value.last_activity_at as int),
            RowOrder::ByTab => match value.tab_order {
                Some(n) => n as int,
                None => -1,
            },
        }
    }

    fn is_behind(&self, other: &Self, order: &RowOrder) -> (r: bool) {
        match order {
            RowOrder::LatestActivityFirst => self.last_activity_at < other.last_activity_at,
            RowOrder::ByTab => {
                let mine: i64 = match self.tab_order {
                    Some(n) => n,
                    None => -1,
                };
                let its: i64 = match other.tab_order {
                    Some(n) => n,
                    None => -1,
                };
                mine > its
            },
        }
    }
}

/// The rows that are meant, in the given order.
pub open spec fn listed(
    rows: Seq<SessionRowView>,
    kind: RowKind,
    key: Seq<char>,
    order: RowOrder,
) -> Seq<SessionRowView> {
    sorted_by::<RowOrder, SessionRow>(rows_where(rows, kind, key), order)
}

/// The rows that are meant, in the given order.
fn list_rows(rows: &Vec<SessionRow>, kind: RowKind, key: &str, order: RowOrder) -> (r: Vec<
    SessionRow,
>)
    ensures
        r.deep_view() == listed(rows.deep_view(), kind, key@, order),
{
    let selected = select_rows(rows, kind, key);
    let ghost all = selected.deep_view();
    let mut out: Vec<SessionRow> = Vec::new();
    let mut i: usize = 0;
    assert(out.deep_view() =~= sorted_by::<RowOrder, SessionRow>(all.take(0), order));
    while i < selected.len()
        invariant
            i <= selected@.len(),
            all == selected.deep_view(),
            out.deep_view() == sorted_by::<RowOrder, SessionRow>(all.take(i as int), order),
        decreases selected@.len() - i,
    {
        assert(all[i as int] == selected@[i as int].deep_view());
        assert(all.take(i as int + 1).drop_last() =~= all.take(i as int));
        insert_sorted(&mut out, selected[i].duplicate(), &order);
        i += 1;
    }
    assert(all.take(i as int) =~= all);
    out
}

/// What is wrong with the first row with which anything is.
pub open spec fn first_fault(rows: Seq<SessionRowView>) -> Option<Seq<char>>
    decreases rows.len(),
{
    if rows.len() == 0 {
        None
    } else {
        match first_fault(rows.drop_last()) {
            Some(message) => Some(message),
            None => row_fault(rows.last()),
        }
    }
}

/// Where nothing is wrong with the rows before, what is wrong with a row is what
/// is wrong first.
proof fn lemma_first_fault(rows: Seq<SessionRowView>, k: int)
    requires
        0 <= k < rows.len(),
        first_fault(rows.take(k)) is None,
        row_fault(rows[k]) is Some,
    ensures
        first_fault(rows) == row_fault(rows[k]),
    decreases rows.len(),
{
    if k == rows.len() - 1 {
        assert(rows.drop_last() =~= rows.take(k));
    } else {
        assert(rows.drop_last().take(k) =~= rows.take(k));
        lemma_first_fault(rows.drop_last(), k);
    }
}

/// What is wrong with the first id that is none.
pub open spec fn first_bad_id(rows: Seq<SessionRowView>, prefix: Seq<char>) -> Option<Seq<char>>
    decreases rows.len(),
{
    if rows.len() == 0 {
        None
    } else {
        match first_bad_id(rows.drop_last(), prefix) {
            Some(message) => Some(message),
            None => if parsed_session_id(rows.last().id) is None {
                Some(prefix + invalid_id_message(rows.last().id))
            } else {
                None
            },
        }
    }
}

/// Where the ids before are ids, the first that is none is the first of all.
proof fn lemma_first_bad_id(rows: Seq<SessionRowView>, prefix: Seq<char>, k: int)
    requires
        0 <= k < rows.len(),
        first_bad_id(rows.take(k), prefix) is None,
        parsed_session_id(rows[k].id) is None,
    ensures
        first_bad_id(rows, prefix) == Some(prefix + invalid_id_message(rows[k].id)),
    decreases rows.len(),
{
    if k == rows.len() - 1 {
        assert(rows.drop_last() =~= rows.take(k));
    } else {
        assert(rows.drop_last().take(k) =~= rows.take(k));
        lemma_first_bad_id(rows.drop_last(), prefix, k);
    }
}

/// Whether `ids` are the ids of the rows.
pub open spec fn are_ids_of(ids: Seq<Seq<char>>, rows: Seq<SessionRowView>) -> bool {
    &&& ids.len() == rows.len()
    &&& forall|i: int| 0 <= i < rows.len() ==> parsed_session_id(rows[i].id) == Some(#[trigger] ids[i])
}

/// The ids of the rows, or what is wrong with the first that is none.
fn parse_ids(rows: &Vec<SessionRow>, prefix: &str) -> (r: Result<Vec<SolutionSessionId>, String>)
    ensures
        match first_bad_id(rows.deep_view(), prefix@) {
            Some(message) => r is Err && r->Err_0@ == message,
            None => r is Ok && are_ids_of(r->Ok_0.deep_view(), rows.deep_view()),
        },
{
    let ghost all = rows.deep_view();
    let mut out: Vec<SolutionSessionId> = Vec::new();
    let mut i: usize = 0;
    while i < rows.len()
        invariant
            i <= rows@.len(),
            all == rows.deep_view(),
            first_bad_id(all.take(i as int), prefix@) is None,
            out@.len() == i,
            forall|k: int|
                0 <= k < i ==> parsed_session_id(all[k].id) == Some((#[trigger] out@[k])@),
        decreases rows@.len() - i,
    {
        assert(all[i as int] == rows@[i as int].deep_view());
        assert(all.take(i as int + 1).drop_last() =~= all.take(i as int));
        match parse_named_session(rows[i].id.as_str(), prefix) {
            Ok(id) => {
                out.push(id);
            },
            Err(message) => {
                proof {
                    lemma_first_bad_id(all, prefix@, i as int);
                }
                return Err(message);
            },
        }
        i += 1;
    }
    assert(all.take(i as int) =~= all);
    assert(out.deep_view().len() == out@.len());
    assert(forall|k: int| 0 <= k < out@.len() ==> #[trigger] out.deep_view()[k] == out@[k]@);
    Ok(out)
}

/// The tables in which sessions are remembered.
pub struct SolutionAgentDb {
    /// The names of the columns of the table of sessions.
    pub columns: Vec<String>,
    pub sessions: Vec<SessionRow>,
    pub background_agents: Vec<BackgroundAgentRow>,
    pub background_shells: Vec<BackgroundShellRow>,
}

/// No two rows have the same id.
pub open spec fn ids_are_keys(rows: Seq<SessionRowView>) -> bool {
    forall|i: int, j: int|
        0 <= i < j < rows.len() ==> (#[trigger] rows[i]).id != (#[trigger] rows[j]).id
}

/// Whether a row has the given id.
pub open spec fn has_row(rows: Seq<SessionRowView>, id: Seq<char>) -> bool {
    exists|i: int| 0 <= i < rows.len() && (#[trigger] rows[i]).id == id
}

/// A change of the row of a session.
#[verifier::ext_equal]
pub enum RowChange {
    Merge(SessionRowView),
    SetBlob(Seq<u8>),
    SetClosed(Option<i64>),
}

impl RowChange {
    /// The row after the change.
    pub open spec fn applied(self, row: SessionRowView) -> SessionRowView {
        match self {
            RowChange::Merge(new) => merged(row, new),
            RowChange::SetBlob(blob) => SessionRowView { blob: Some(blob), ..row },
            RowChange::SetClosed(closed_at) => SessionRowView { closed_at, ..row },
        }
    }
}

/// The rows after a change of the row with the given id.
pub open spec fn changed(rows: Seq<SessionRowView>, id: Seq<char>, change: RowChange) -> Seq<
    SessionRowView,
> {
    Seq::new(
        rows.len(),
        |i: int|
            if rows[i].id == id {
                change.applied(rows[i])
            } else {
                rows[i]
            },
    )
}

/// The rows after a session was remembered.
pub open spec fn remembered(rows: Seq<SessionRowView>, new: SessionRowView) -> Seq<SessionRowView> {
    if has_row(rows, new.id) {
        changed(rows, new.id, RowChange::Merge(new))
    } else {
        rows.push(new)
    }
}

/// The last place of an id among those given.
pub open spec fn last_place(ids: Seq<Seq<char>>, id: Seq<char>) -> Option<int>
    decreases ids.len(),
{
    if ids.len() == 0 {
        None
    } else if ids.last() == id {
        Some(ids.len() - 1)
    } else {
        last_place(ids.drop_last(), id)
    }
}

/// A row whose place among the open tabs is the one that it is given there, if
/// it is of the solution.
pub open spec fn retabbed(row: SessionRowView, solution: Seq<char>, ids: Seq<Seq<char>>) ->
    SessionRowView {
    if row.solution_id == solution {
        SessionRowView {
            tab_order: match last_place(ids, row.id) {
                Some(n) => Some(n as i64),
                None => None,
            },
            ..row
        }
    } else {
        row
    }
}

/// The rows after the open tabs of a solution were put in order.
pub open spec fn all_retabbed(
    rows: Seq<SessionRowView>,
    solution: Seq<char>,
    ids: Seq<Seq<char>>,
) -> Seq<SessionRowView> {
    Seq::new(rows.len(), |i: int| retabbed(rows[i], solution, ids))
}

/// The last place of an id among those given.
fn find_last_place(ids: &Vec<SolutionSessionId>, id: &str) -> (r: Option<usize>)
    ensures
        match r {
            Some(i) => i < ids@.len() && last_place(ids.deep_view(), id@) == Some(i as int),
            None => last_place(ids.deep_view(), id@) is None,
        },
{
    let ghost all = ids.deep_view();
    let mut found: Option<usize> = None;
    let mut i: usize = 0;
    while i < ids.len()
        invariant
            i <= ids@.len(),
            all == ids.deep_view(),
            match found {
                Some(k) => k < i && last_place(all.take(i as int), id@) == Some(k as int),
                None => last_place(all.take(i as int), id@) is None,
            },
        decreases ids@.len() - i,
    {
        assert(all[i as int] == ids@[i as int]@);
        assert(all.take(i as int + 1).drop_last() =~= all.take(i as int));
        if same_text(ids[i].as_str(), id) {
            found = Some(i);
        }
        i += 1;
    }
    assert(all.take(i as int) =~= all);
    found
}

impl SolutionAgentDb {
    /// The rows of the table of sessions.
    pub open spec fn rows(self) -> Seq<SessionRowView> {
        self.sessions.deep_view()
    }

    /// Every session is remembered once.
    pub open spec fn wf(self) -> bool {
        ids_are_keys(self.rows())
    }

    /// Whether the columns and the other tables are the same.
    pub open spec fn same_background(self, other: Self) -> bool {
        &&& self.columns == other.columns
        &&& self.background_agents == other.background_agents
        &&& self.background_shells == other.background_shells
    }

    /// Adds the columns that are missing in the table of sessions, and returns
    /// the statements that do so. No row is changed.
    pub fn add_missing_columns(&mut self) -> (r: Vec<String>)
        ensures
            final(self).columns.deep_view() == with_columns(
                old(self).columns.deep_view(),
                added_definitions(),
            ),
            r.deep_view() == missing_statements(
                old(self).columns.deep_view(),
                added_definitions(),
            ),
            final(self).sessions == old(self).sessions,
            final(self).background_agents == old(self).background_agents,
            final(self).background_shells == old(self).background_shells,
    {
        let ghost names = self.columns.deep_view();
        let ghost all = added_definitions();
        let definitions = added_columns();
        let mut statements: Vec<String> = Vec::new();
        let mut i: usize = 0;
        assert(statements.deep_view() =~= Seq::<Seq<char>>::empty());
        while i < definitions.len()
            invariant
                i <= definitions@.len(),
                all == definitions.deep_view(),
                self.columns.deep_view() == with_columns(names, all.take(i as int)),
                statements.deep_view() == missing_statements(names, all.take(i as int)),
                self.sessions == old(self).sessions,
                self.background_agents == old(self).background_agents,
                self.background_shells == old(self).background_shells,
            decreases definitions@.len() - i,
        {
            assert(all[i as int] == definitions@[i as int]@);
            assert(all.take(i as int + 1).drop_last() =~= all.take(i as int));
            if let Some(statement) = apply_idempotent_add_column(&self.columns, definitions[i]) {
                push_value(&mut statements, statement);
                push_value(&mut self.columns, column_name(definitions[i]).to_owned());
            }
            i += 1;
        }
        assert(all.take(i as int) =~= all);
        statements
    }

    /// Empty tables. The table of sessions is created with its first columns, and
    /// those of later times are added to it.
    pub fn open() -> (r: Self)
        ensures
            r.wf(),
            background_wf(r),
            r.columns.deep_view() == with_columns(first_column_names(), added_definitions()),
            r.rows() == Seq::<SessionRowView>::empty(),
            r.background_agents@.len() == 0,
            r.background_shells@.len() == 0,
    {
        let mut r = SolutionAgentDb {
            columns: first_columns(),
            sessions: Vec::new(),
            background_agents: Vec::new(),
            background_shells: Vec::new(),
        };
        r.add_missing_columns();
        assert(r.rows() =~= Seq::<SessionRowView>::empty());
        r
    }

    /// Whether no session is remembered twice, as has to be tested of tables that
    /// come from elsewhere.
    pub fn session_keys_differ(&self) -> (r: bool)
        ensures
            r == self.wf(),
    {
        let ghost all = self.rows();
        let mut j: usize = 0;
        while j < self.sessions.len()
            invariant
                j <= self.sessions@.len(),
                all == self.rows(),
                forall|a: int, b: int|
                    0 <= a < b < j ==> (#[trigger] all[a]).id != (#[trigger] all[b]).id,
            decreases self.sessions@.len() - j,
        {
            assert(all[j as int] == self.sessions@[j as int].deep_view());
            let mut i: usize = 0;
            while i < j
                invariant
                    i <= j < self.sessions@.len(),
                    all == self.rows(),
                    all[j as int] == self.sessions@[j as int].deep_view(),
                    forall|a: int| 0 <= a < i ==> (#[trigger] all[a]).id != all[j as int].id,
                decreases j - i,
            {
                assert(all[i as int] == self.sessions@[i as int].deep_view());
                if same_text(self.sessions[i].id.as_str(), self.sessions[j].id.as_str()) {
                    assert(all[i as int].id == all[j as int].id);
                    return false;
                }
                i += 1;
            }
            j += 1;
        }
        true
    }

    /// The place of the row of a session.
    fn position(&self, id: &str) -> (r: Option<usize>)
        ensures
            match r {
                Some(i) => i < self.sessions@.len() && self.rows()[i as int].id == id@,
                None => !has_row(self.rows(), id@),
            },
    {
        let ghost all = self.rows();
        let mut i: usize = 0;
        while i < self.sessions.len()
            invariant
                i <= self.sessions@.len(),
                all == self.rows(),
                forall|k: int| 0 <= k < i ==> (#[trigger] all[k]).id != id@,
            decreases self.sessions@.len() - i,
        {
            assert(all[i as int] == self.sessions@[i as int].deep_view());
            if same_text(self.sessions[i].id.as_str(), id) {
                return Some(i);
            }
            i += 1;
        }
        None
    }

    /// Remembers a session. What is known of it already and not given is kept.
    pub fn save_metadata(&mut self, meta: &SolutionSessionMetadata)
        requires
            old(self).wf(),
        ensures
            final(self).wf(),
            final(self).rows() == remembered(old(self).rows(), row_of(meta.deep_view())),
            final(self).same_background(*old(self)),
    {
        let ghost rows = self.rows();
        let new = encode_metadata(meta);
        let ghost new_row = new.deep_view();
        match self.position(new.id.as_str()) {
            Some(i) => {
                assert(has_row(rows, new_row.id));
                assert(rows[i as int] == self.sessions@[i as int].deep_view());
                let row = self.sessions[i].duplicate();
                self.sessions.set(i, merge_rows(row, new));
                assert(self.rows() =~= changed(rows, new_row.id, RowChange::Merge(new_row)));
                assert(forall|k: int|
                    0 <= k < rows.len() ==> (#[trigger] self.rows()[k]).id == rows[k].id);
            },
            None => {
                push_value(&mut self.sessions, new);
                assert forall|a: int, b: int| 0 <= a < b < self.rows().len() implies (
                #[trigger] self.rows()[a]).id != (#[trigger] self.rows()[b]).id by {
                    assert(self.rows()[a] == rows[a]);
                }
            },
        }
    }

    /// Lists what is remembered of the sessions of a solution, the one that was
    /// active last first.
    pub fn list_for_solution(&self, solution_id: &str) -> (r: Result<
        Vec<SolutionSessionMetadata>,
        String,
    >)
        ensures
            ({
                let rows = listed(
                    self.rows(),
                    RowKind::Of,
                    solution_id@,
                    RowOrder::LatestActivityFirst,
                );
                match first_fault(rows) {
                    Some(message) => r is Err && r->Err_0@ == message,
                    None => {
                        &&& r is Ok
                        &&& r->Ok_0@.len() == rows.len()
                        &&& forall|i: int|
                            0 <= i < rows.len() ==> is_remembered(
                                (#[trigger] r->Ok_0@[i]).deep_view(),
                                rows[i],
                            )
                    },
                }
            }),
    {
        let rows = list_rows(
            &self.sessions,
            RowKind::Of,
            solution_id,
            RowOrder::LatestActivityFirst,
        );
        let ghost all = rows.deep_view();
        let mut out: Vec<SolutionSessionMetadata> = Vec::new();
        let mut i: usize = 0;
        while i < rows.len()
            invariant
                i <= rows@.len(),
                all == rows.deep_view(),
                all == listed(
                    self.rows(),
                    RowKind::Of,
                    solution_id@,
                    RowOrder::LatestActivityFirst,
                ),
                first_fault(all.take(i as int)) is None,
                out@.len() == i,
                forall|k: int|
                    0 <= k < i ==> is_remembered((#[trigger] out@[k]).deep_view(), all[k]),
            decreases rows@.len() - i,
        {
            assert(all[i as int] == rows@[i as int].deep_view());
            assert(all.take(i as int + 1).drop_last() =~= all.take(i as int));
            match decode_row(&rows[i]) {
                Ok(meta) => {
                    out.push(meta);
                },
                Err(message) => {
                    proof {
                        lemma_first_fault(all, i as int);
                    }
                    return Err(message);
                },
            }
            i += 1;
        }
        assert(all.take(i as int) =~= all);
        assert(all.len() == rows@.len());
        Ok(out)
    }

    /// Remembers the conversation of a session.
    pub fn save_blob(&mut self, id: &SolutionSessionId, blob: Vec<u8>)
        requires
            old(self).wf(),
        ensures
            final(self).wf(),
            final(self).rows() == changed(old(self).rows(), id@, RowChange::SetBlob(blob@)),
            final(self).same_background(*old(self)),
    {
        let ghost rows = self.rows();
        if let Some(i) = self.position(id.as_str()) {
            assert(rows[i as int] == self.sessions@[i as int].deep_view());
            let mut row = self.sessions[i].duplicate();
            assert(blob.deep_view() =~= blob@);
            row.blob = Some(blob);
            self.sessions.set(i, row);
        }
        assert(self.rows() =~= changed(rows, id@, RowChange::SetBlob(blob@)));
        assert(forall|k: int|
            0 <= k < rows.len() ==> (#[trigger] self.rows()[k]).id == rows[k].id);
    }

    /// The conversation of a session, if it is remembered.
    pub fn load_blob(&self, id: &SolutionSessionId) -> (r: Option<Vec<u8>>)
        requires
            self.wf(),
        ensures
            r.deep_view() == blob_of(self.rows(), id@),
    {
        let ghost rows = self.rows();
        match self.position(id.as_str()) {
            Some(i) => {
                assert(rows[i as int] == self.sessions@[i as int].deep_view());
                proof {
                    lemma_field_of(rows, i as int);
                }
                self.sessions[i].blob.duplicate()
            },
            None => {
                proof {
                    lemma_no_row(rows, id@);
                }
                None
            },
        }
    }

    /// Notes that a session was closed, or that it is open again.
    pub fn mark_closed(&mut self, id: &SolutionSessionId, closed_at: Option<Timestamp>)
        requires
            old(self).wf(),
        ensures
            final(self).wf(),
            final(self).rows() == changed(
                old(self).rows(),
                id@,
                RowChange::SetClosed(
                    match closed_at {
                        Some(t) => Some(t.millis() as i64),
                        None => None,
                    },
                ),
            ),
            final(self).same_background(*old(self)),
    {
        let ghost rows = self.rows();
        let closed_ms: Option<i64> = match closed_at {
            Some(t) => Some(t.timestamp_millis()),
            None => None,
        };
        if let Some(i) = self.position(id.as_str()) {
            assert(rows[i as int] == self.sessions@[i as int].deep_view());
            let mut row = self.sessions[i].duplicate();
            row.closed_at = closed_ms;
            self.sessions.set(i, row);
        }
        assert(self.rows() =~= changed(rows, id@, RowChange::SetClosed(closed_ms)));
        assert(forall|k: int|
            0 <= k < rows.len() ==> (#[trigger] self.rows()[k]).id == rows[k].id);
    }

    /// When a session was closed, if it was.
    pub fn closed_at(&self, id: &SolutionSessionId) -> (r: Option<Timestamp>)
        requires
            self.wf(),
        ensures
            match closed_ms_of(self.rows(), id@) {
                Some(ms) => if is_instant_ms(ms) {
                    r is Some && is_at_ms(r->Some_0, ms)
                } else {
                    r is None
                },
                None => r is None,
            },
    {
        let ghost rows = self.rows();
        match self.position(id.as_str()) {
            Some(i) => {
                assert(rows[i as int] == self.sessions@[i as int].deep_view());
                proof {
                    lemma_field_of(rows, i as int);
                }
                match self.sessions[i].closed_at {
                    Some(ms) => Timestamp::from_timestamp_millis(ms),
                    None => None,
                }
            },
            None => {
                proof {
                    lemma_no_row(rows, id@);
                }
                None
            },
        }
    }

    /// Forgets a session.
    pub fn delete(&mut self, id: &SolutionSessionId)
        requires
            old(self).wf(),
        ensures
            final(self).wf(),
            final(self).rows() == rows_where(old(self).rows(), RowKind::OtherThan, id@),
            final(self).same_background(*old(self)),
    {
        proof {
            lemma_selection_keeps_keys(self.rows(), RowKind::OtherThan, id@);
        }
        self.sessions = select_rows(&self.sessions, RowKind::OtherThan, id.as_str());
    }

    /// Forgets the sessions of a solution.
    pub fn delete_for_solution(&mut self, solution_id: &str)
        requires
            old(self).wf(),
        ensures
            final(self).wf(),
            final(self).rows() == rows_where(old(self).rows(), RowKind::NotOf, solution_id@),
            final(self).same_background(*old(self)),
    {
        proof {
            lemma_selection_keeps_keys(self.rows(), RowKind::NotOf, solution_id@);
        }
        self.sessions = select_rows(&self.sessions, RowKind::NotOf, solution_id);
    }

    /// Puts the open tabs of a solution in order. All its other sessions have
    /// none.
    pub fn update_tab_orders(&mut self, solution_id: &str, ordered_ids: &Vec<SolutionSessionId>)
        requires
            old(self).wf(),
        ensures
            final(self).wf(),
            final(self).rows() == all_retabbed(
                old(self).rows(),
                solution_id@,
                ordered_ids.deep_view(),
            ),
            final(self).same_background(*old(self)),
    {
        let ghost rows = self.rows();
        let ghost ids = ordered_ids.deep_view();
        let mut i: usize = 0;
        while i < self.sessions.len()
            invariant
                i <= self.sessions@.len() == rows.len(),
                ids == ordered_ids.deep_view(),
                self.same_background(*old(self)),
                forall|k: int|
                    0 <= k < i ==> (#[trigger] self.rows()[k]) == retabbed(
                        rows[k],
                        solution_id@,
                        ids,
                    ),
                forall|k: int| i <= k < rows.len() ==> (#[trigger] self.rows()[k]) == rows[k],
            decreases rows.len() - i,
        {
            let ghost before = self.rows();
            assert(before[i as int] == rows[i as int]);
            assert(before[i as int] == self.sessions@[i as int].deep_view());
            if same_text(self.sessions[i].solution_id.as_str(), solution_id) {
                let mut row = self.sessions[i].duplicate();
                let tab_order: Option<i64> = match find_last_place(ordered_ids, row.id.as_str()) {
                    Some(n) => Some(
                        #[verifier::truncate]
                        (n as i64),
                    ),
                    None => None,
                };
                row.tab_order = tab_order;
                self.sessions.set(i, row);
                assert(self.rows() =~= before.update(i as int, row.deep_view()));
            }
            i += 1;
        }
        assert(self.rows() =~= all_retabbed(rows, solution_id@, ids));
        assert(forall|k: int|
            0 <= k < rows.len() ==> (#[trigger] self.rows()[k]).id == rows[k].id);
    }

    /// The sessions of a solution that have a tab and were not closed, in the
    /// order of their tabs.
    pub fn list_open_tabs(&self, solution_id: &str) -> (r: Result<Vec<SolutionSessionId>, String>)
        ensures
            ({
                let rows = listed(self.rows(), RowKind::OpenTabsOf, solution_id@, RowOrder::ByTab);
                match first_bad_id(rows, "invalid SolutionSessionId in tab_order row: "@) {
                    Some(message) => r is Err && r->Err_0@ == message,
                    None => r is Ok && are_ids_of(r->Ok_0.deep_view(), rows),
                }
            }),
    {
        let rows = list_rows(&self.sessions, RowKind::OpenTabsOf, solution_id, RowOrder::ByTab);
        parse_ids(&rows, "invalid SolutionSessionId in tab_order row: ")
    }

    /// The sessions of a solution that were not closed.
    pub fn list_open_session_ids(&self, solution_id: &str) -> (r: Result<
        Vec<SolutionSessionId>,
        String,
    >)
        ensures
            ({
                let rows = rows_where(self.rows(), RowKind::OpenOf, solution_id@);
                match first_bad_id(rows, "invalid SolutionSessionId in open-session row: "@) {
                    Some(message) => r is Err && r->Err_0@ == message,
                    None => r is Ok && are_ids_of(r->Ok_0.deep_view(), rows),
                }
            }),
    {
        let rows = select_rows(&self.sessions, RowKind::OpenOf, solution_id);
        parse_ids(&rows, "invalid SolutionSessionId in open-session row: ")
    }

    /// The sessions of a solution that were closed.
    pub fn list_closed_session_ids(&self, solution_id: &str) -> (r: Result<
        Vec<SolutionSessionId>,
        String,
    >)
        ensures
            ({
                let rows = rows_where(self.rows(), RowKind::ClosedOf, solution_id@);
                match first_bad_id(rows, "invalid SolutionSessionId in closed-session row: "@) {
                    Some(message) => r is Err && r->Err_0@ == message,
                    None => r is Ok && are_ids_of(r->Ok_0.deep_view(), rows),
                }
            }),
    {
        let rows = select_rows(&self.sessions, RowKind::ClosedOf, solution_id);
        parse_ids(&rows, "invalid SolutionSessionId in closed-session row: ")
    }
}

/// The row of a session.
pub open spec fn find_row(rows: Seq<SessionRowView>, id: Seq<char>) -> Option<SessionRowView>
    decreases rows.len(),
{
    if rows.len() == 0 {
        None
    } else if rows.last().id == id {
        Some(rows.last())
    } else {
        find_row(rows.drop_last(), id)
    }
}

/// The conversation of a session, if it is remembered.
pub open spec fn blob_of(rows: Seq<SessionRowView>, id: Seq<char>) -> Option<Seq<u8>> {
    match find_row(rows, id) {
        Some(row) => row.blob,
        None => None,
    }
}

/// When a session was closed, if it was.
pub open spec fn closed_ms_of(rows: Seq<SessionRowView>, id: Seq<char>) -> Option<i64> {
    match find_row(rows, id) {
        Some(row) => row.closed_at,
        None => None,
    }
}

/// The row with an id is the one that is found by it.
proof fn lemma_field_of(rows: Seq<SessionRowView>, i: int)
    requires
        ids_are_keys(rows),
        0 <= i < rows.len(),
    ensures
        find_row(rows, rows[i].id) == Some(rows[i]),
    decreases rows.len(),
{
    if i < rows.len() - 1 {
        assert(rows[i].id != rows[rows.len() - 1].id);
        assert(rows.drop_last()[i] == rows[i]);
        lemma_field_of(rows.drop_last(), i);
    }
}

/// Where a row has the id, one is found by it.
proof fn lemma_row_is_found(rows: Seq<SessionRowView>, id: Seq<char>)
    requires
        ids_are_keys(rows),
        has_row(rows, id),
    ensures
        find_row(rows, id) is Some,
{
    let i = choose|i: int| 0 <= i < rows.len() && (#[trigger] rows[i]).id == id;
    lemma_field_of(rows, i);
}

/// Where no row has the id, none is found by it.
proof fn lemma_no_row(rows: Seq<SessionRowView>, id: Seq<char>)
    requires
        !has_row(rows, id),
    ensures
        find_row(rows, id) is None,
    decreases rows.len(),
{
    if rows.len() > 0 {
        assert(rows[rows.len() - 1].id != id);
        assert forall|i: int| 0 <= i < rows.len() - 1 implies (#[trigger] rows.drop_last()[i]).id
            != id by {
            assert(rows.drop_last()[i] == rows[i]);
        }
        lemma_no_row(rows.drop_last(), id);
    }
}

/// The selected rows are rows of the table that are meant, and all of them.
proof fn lemma_rows_where(rows: Seq<SessionRowView>, kind: RowKind, key: Seq<char>)
    ensures
        forall|i: int|
            0 <= i < rows_where(rows, kind, key).len() ==> kind.accepts(
                #[trigger] rows_where(rows, kind, key)[i],
                key,
            ) && rows.contains(rows_where(rows, kind, key)[i]),
        forall|i: int|
            0 <= i < rows.len() && kind.accepts(#[trigger] rows[i], key) ==> rows_where(
                rows,
                kind,
                key,
            ).contains(rows[i]),
    decreases rows.len(),
{
    if rows.len() > 0 {
        let rest = rows.drop_last();
        lemma_rows_where(rest, kind, key);
        let before = rows_where(rest, kind, key);
        let all = rows_where(rows, kind, key);
        assert forall|i: int| 0 <= i < all.len() implies kind.accepts(#[trigger] all[i], key)
            && rows.contains(all[i]) by {
            if i < before.len() {
                assert(all[i] == before[i]);
                let k = choose|k: int| 0 <= k < rest.len() && rest[k] == before[i];
                assert(rows[k] == all[i]);
            } else {
                assert(all[i] == rows[rows.len() - 1]);
            }
        }
        assert forall|i: int| 0 <= i < rows.len() && kind.accepts(
            #[trigger] rows[i],
            key,
        ) implies all.contains(rows[i]) by {
            if i < rest.len() {
                assert(rest[i] == rows[i]);
                assert(before.contains(rest[i]));
                let k = choose|k: int| 0 <= k < before.len() && before[k] == rest[i];
                assert(all[k] == rows[i]);
            } else {
                assert(all[all.len() - 1] == rows[i]);
            }
        }
    }
}

/// A selection of rows has no id twice.
proof fn lemma_selection_keeps_keys(rows: Seq<SessionRowView>, kind: RowKind, key: Seq<char>)
    requires
        ids_are_keys(rows),
    ensures
        ids_are_keys(rows_where(rows, kind, key)),
    decreases rows.len(),
{
    if rows.len() > 0 {
        let rest = rows.drop_last();
        assert forall|i: int, j: int| 0 <= i < j < rest.len() implies (#[trigger] rest[i]).id != (
        #[trigger] rest[j]).id by {
            assert(rows[i].id != rows[j].id);
        }
        lemma_selection_keeps_keys(rest, kind, key);
        lemma_rows_where(rest, kind, key);
        let before = rows_where(rest, kind, key);
        let all = rows_where(rows, kind, key);
        assert forall|i: int, j: int| 0 <= i < j < all.len() implies (#[trigger] all[i]).id != (
        #[trigger] all[j]).id by {
            assert(all[i] == before[i]);
            if j < before.len() {
                assert(all[j] == before[j]);
            } else {
                let k = choose|k: int| 0 <= k < rest.len() && rest[k] == before[i];
                assert(rows[k].id != rows[rows.len() - 1].id);
            }
        }
    }
}

/// What is read of a conversation is what was written, and writing one leaves
/// all others alone.
pub proof fn law_blob_round_trip(
    rows: Seq<SessionRowView>,
    id: Seq<char>,
    blob: Seq<u8>,
    other: Seq<char>,
)
    requires
        ids_are_keys(rows),
        other != id,
    ensures
        has_row(rows, id) ==> blob_of(changed(rows, id, RowChange::SetBlob(blob)), id) == Some(
            blob,
        ),
        blob_of(changed(rows, id, RowChange::SetBlob(blob)), other) == blob_of(rows, other),
{
    lemma_change_is_local(rows, id, RowChange::SetBlob(blob), other);
    if has_row(rows, id) {
        lemma_row_is_found(rows, id);
    }
}

/// A session that is marked as closed reads as closed then, one that is marked as
/// open does not, and its conversation stays.
pub proof fn law_closing_keeps_the_conversation(
    rows: Seq<SessionRowView>,
    id: Seq<char>,
    closed_at: Option<i64>,
)
    requires
        ids_are_keys(rows),
        has_row(rows, id),
    ensures
        closed_ms_of(changed(rows, id, RowChange::SetClosed(closed_at)), id) == closed_at,
        blob_of(changed(rows, id, RowChange::SetClosed(closed_at)), id) == blob_of(rows, id),
{
    assert(id.push('x').len() != id.len());
    lemma_change_is_local(rows, id, RowChange::SetClosed(closed_at), id.push('x'));
    lemma_row_is_found(rows, id);
}

/// A change of a row shows in that row and in no other.
proof fn lemma_change_is_local(
    rows: Seq<SessionRowView>,
    id: Seq<char>,
    change: RowChange,
    other: Seq<char>,
)
    requires
        ids_are_keys(rows),
        other != id,
        change matches RowChange::Merge(new) ==> new.id == id,
    ensures
        find_row(changed(rows, id, change), id) == match find_row(rows, id) {
            Some(row) => Some(change.applied(row)),
            None => None,
        },
        find_row(changed(rows, id, change), other) == find_row(rows, other),
    decreases rows.len(),
{
    if rows.len() > 0 {
        let rest = rows.drop_last();
        assert forall|i: int, j: int| 0 <= i < j < rest.len() implies (#[trigger] rest[i]).id != (
        #[trigger] rest[j]).id by {
            assert(rows[i].id != rows[j].id);
        }
        lemma_change_is_local(rest, id, change, other);
        let all = changed(rows, id, change);
        assert(all.drop_last() =~= changed(rest, id, change));
    }
}

/// Remembering a session without its preview, tokens, directory or parent keeps
/// those that are known, and never touches its conversation, its tab or whether
/// it was closed.
pub proof fn law_remembering_keeps_what_is_known(
    rows: Seq<SessionRowView>,
    new: SessionRowView,
    other: Seq<char>,
)
    requires
        ids_are_keys(rows),
        has_row(rows, new.id),
        other != new.id,
    ensures
        ({
            let before = find_row(rows, new.id)->Some_0;
            &&& find_row(remembered(rows, new), new.id) matches Some(after)
            &&& after.blob == before.blob
            &&& after.closed_at == before.closed_at
            &&& after.tab_order == before.tab_order
            &&& new.preview is None ==> after.preview == before.preview
            &&& new.total_tokens is None ==> after.total_tokens == before.total_tokens
            &&& new.cwd is None ==> after.cwd == before.cwd
            &&& new.parent_session_id is None ==> after.parent_session_id
                == before.parent_session_id
            &&& after.title == new.title
            &&& after.last_activity_at == new.last_activity_at
        }),
        find_row(remembered(rows, new), other) == find_row(rows, other),
{
    lemma_change_is_local(rows, new.id, RowChange::Merge(new), other);
    lemma_row_is_found(rows, new.id);
}

/// A forgotten session is gone, and no other is.
pub proof fn law_deleting_forgets_one(rows: Seq<SessionRowView>, id: Seq<char>, other: Seq<char>)
    requires
        other != id,
    ensures
        find_row(rows_where(rows, RowKind::OtherThan, id), id) is None,
        find_row(rows_where(rows, RowKind::OtherThan, id), other) == find_row(rows, other),
    decreases rows.len(),
{
    if rows.len() > 0 {
        law_deleting_forgets_one(rows.drop_last(), id, other);
        let before = rows_where(rows.drop_last(), RowKind::OtherThan, id);
        assert(before.push(rows.last()).drop_last() =~= before);
    }
}

/// The sessions of a deleted solution are gone, and those of others stay.
pub proof fn law_deleting_a_solution(rows: Seq<SessionRowView>, solution: Seq<char>, other: Seq<
    char,
>)
    requires
        other != solution,
    ensures
        rows_where(rows_where(rows, RowKind::NotOf, solution), RowKind::Of, solution).len() == 0,
        rows_where(rows_where(rows, RowKind::NotOf, solution), RowKind::Of, other) == rows_where(
            rows,
            RowKind::Of,
            other,
        ),
    decreases rows.len(),
{
    if rows.len() > 0 {
        law_deleting_a_solution(rows.drop_last(), solution, other);
        let before = rows_where(rows.drop_last(), RowKind::NotOf, solution);
        assert(before.push(rows.last()).drop_last() =~= before);
    }
}

/// Every session of a solution that is open or closed is in just one of the two
/// lists.
pub proof fn law_open_or_closed(rows: Seq<SessionRowView>, solution: Seq<char>)
    ensures
        rows_where(rows, RowKind::OpenOf, solution).len() + rows_where(
            rows,
            RowKind::ClosedOf,
            solution,
        ).len() == rows_where(rows, RowKind::Of, solution).len(),
    decreases rows.len(),
{
    if rows.len() > 0 {
        law_open_or_closed(rows.drop_last(), solution);
    }
}

/// An id that is there once has the place at which it stands.
proof fn lemma_last_place(ids: Seq<Seq<char>>, k: int)
    requires
        0 <= k < ids.len(),
        ids.no_duplicates(),
    ensures
        last_place(ids, ids[k]) == Some(k),
    decreases ids.len(),
{
    if k < ids.len() - 1 {
        assert(ids[k] != ids[ids.len() - 1]);
        assert(ids.drop_last()[k] == ids[k]);
        assert(ids.drop_last().no_duplicates());
        lemma_last_place(ids.drop_last(), k);
    }
}

/// The place of an id is one at which it stands.
proof fn lemma_last_place_holds(ids: Seq<Seq<char>>, id: Seq<char>)
    ensures
        last_place(ids, id) matches Some(k) ==> 0 <= k < ids.len() && ids[k] == id,
    decreases ids.len(),
{
    if ids.len() > 0 && ids.last() != id {
        lemma_last_place_holds(ids.drop_last(), id);
    }
}

/// Numbers that grow, start at zero or later and leave none out are the numbers
/// of their places.
proof fn lemma_gapless(tabs: Seq<int>, n: int, i: int)
    requires
        forall|a: int, b: int| 0 <= a < b < tabs.len() ==> #[trigger] tabs[a] < #[trigger] tabs[b],
        forall|a: int| 0 <= a < tabs.len() ==> 0 <= #[trigger] tabs[a] < n,
        forall|v: int| 0 <= v < n ==> #[trigger] tabs.contains(v),
        0 <= i < tabs.len(),
    ensures
        tabs[i] == i,
    decreases i,
{
    if i > 0 {
        lemma_gapless(tabs, n, i - 1);
        assert(tabs[i - 1] < tabs[i]);
    }
    if tabs[i] > i {
        assert(tabs.contains(i));
        let j = choose|j: int| 0 <= j < tabs.len() && tabs[j] == i;
        if j < i {
            lemma_gapless(tabs, n, j);
        } else if j > i {
            assert(tabs[i] < tabs[j]);
        }
    }
}

/// The tabs of a solution come back in the order in which they were put, and no
/// others with them: where the ids differ and each is that of a session of the
/// solution that was not closed.
pub proof fn law_tabs_come_back(
    rows: Seq<SessionRowView>,
    solution: Seq<char>,
    ids: Seq<Seq<char>>,
)
    requires
        ids_are_keys(rows),
        ids.no_duplicates(),
        ids.len() <= i64::MAX,
        forall|k: int|
            0 <= k < ids.len() ==> exists|i: int|
                0 <= i < rows.len() && (#[trigger] rows[i]).id == #[trigger] ids[k]
                    && rows[i].solution_id == solution && rows[i].closed_at is None,
    ensures
        ({
            let tabs = listed(
                all_retabbed(rows, solution, ids),
                RowKind::OpenTabsOf,
                solution,
                RowOrder::ByTab,
            );
            &&& tabs.len() == ids.len()
            &&& forall|k: int| 0 <= k < ids.len() ==> (#[trigger] tabs[k]).id == ids[k]
        }),
{
    let after = all_retabbed(rows, solution, ids);
    let chosen = rows_where(after, RowKind::OpenTabsOf, solution);
    let tabs = listed(after, RowKind::OpenTabsOf, solution, RowOrder::ByTab);
    assert forall|i: int, j: int| 0 <= i < j < after.len() implies (#[trigger] after[i]).id != (
    #[trigger] after[j]).id by {
        assert(rows[i].id != rows[j].id);
    }
    lemma_selection_keeps_keys(after, RowKind::OpenTabsOf, solution);
    lemma_rows_where(after, RowKind::OpenTabsOf, solution);
    law_sorting_orders_and_keeps::<RowOrder, SessionRow>(chosen, RowOrder::ByTab);
    broadcast use vstd::seq_lib::group_to_multiset_ensures;

    assert(chosen.no_duplicates()) by {
        assert forall|i: int, j: int| 0 <= i < chosen.len() && 0 <= j < chosen.len() && i
            != j implies chosen[i] != chosen[j] by {
            if i < j {
                assert(chosen[i].id != chosen[j].id);
            } else {
                assert(chosen[j].id != chosen[i].id);
            }
        }
    }
    chosen.lemma_multiset_has_no_duplicates();
    assert(tabs.to_multiset() == chosen.to_multiset());
    tabs.lemma_multiset_has_no_duplicates_conv();
    // Every tab is one of the chosen rows, and carries its place.
    assert forall|i: int| 0 <= i < tabs.len() implies {
        let row = #[trigger] tabs[i];
        &&& row.tab_order matches Some(t)
        &&& 0 <= t < ids.len()
        &&& row.id == ids[t as int]
    } by {
        let row = tabs[i];
        assert(tabs.contains(row));
        assert(tabs.to_multiset().count(row) > 0);
        assert(chosen.contains(row));
        let c = choose|c: int| 0 <= c < chosen.len() && chosen[c] == row;
        assert(after.contains(chosen[c]));
        let k = choose|k: int| 0 <= k < after.len() && after[k] == row;
        assert(RowKind::OpenTabsOf.accepts(chosen[c], solution));
        lemma_last_place_holds(ids, rows[k].id);
    }
    let places = Seq::new(tabs.len(), |i: int| tabs[i].tab_order->Some_0 as int);
    assert forall|a: int, b: int| 0 <= a < b < places.len() implies #[trigger] places[a]
        < #[trigger] places[b] by {
        assert(SessionRow::place(tabs[a], RowOrder::ByTab) <= SessionRow::place(
            tabs[b],
            RowOrder::ByTab,
        ));
        if places[a] == places[b] {
            assert(tabs[a].id == tabs[b].id);
            assert(tabs.contains(tabs[a]) && tabs.contains(tabs[b]));
            assert(tabs.to_multiset().count(tabs[a]) > 0 && tabs.to_multiset().count(tabs[b]) > 0);
            assert(chosen.contains(tabs[a]) && chosen.contains(tabs[b]));
            let x = choose|x: int| 0 <= x < chosen.len() && chosen[x] == tabs[a];
            let y = choose|y: int| 0 <= y < chosen.len() && chosen[y] == tabs[b];
            if x < y {
                assert(chosen[x].id != chosen[y].id);
            } else if y < x {
                assert(chosen[y].id != chosen[x].id);
            }
            assert(tabs[a] == tabs[b]);
        }
    }
    assert forall|v: int| 0 <= v < ids.len() implies #[trigger] places.contains(v) by {
        let i = choose|i: int|
            0 <= i < rows.len() && (#[trigger] rows[i]).id == ids[v] && rows[i].solution_id
                == solution && rows[i].closed_at is None;
        lemma_last_place(ids, v);
        assert(after[i].tab_order == Some(v as i64));
        assert(RowKind::OpenTabsOf.accepts(after[i], solution));
        assert(chosen.contains(after[i]));
        assert(chosen.to_multiset().count(after[i]) > 0);
        assert(tabs.contains(after[i]));
        let k = choose|k: int| 0 <= k < tabs.len() && tabs[k] == after[i];
        assert(places[k] == v);
    }
    assert forall|k: int| 0 <= k < tabs.len() implies places[k] == k by {
        lemma_gapless(places, ids.len() as int, k);
    }
    if tabs.len() < ids.len() {
        assert(places.contains(tabs.len() as int));
        let k = choose|k: int| 0 <= k < places.len() && places[k] == tabs.len();
        assert(places[k] == k);
    }
    if tabs.len() > ids.len() {
        assert(places[ids.len() as int] == ids.len());
    }
    assert forall|k: int| 0 <= k < ids.len() implies (#[trigger] tabs[k]).id == ids[k] by {
        assert(places[k] == k);
    }
}

} // verus!
