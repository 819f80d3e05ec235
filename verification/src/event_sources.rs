//! What clients are told when something happens to a session.
use crate::json::{
    array_value, fields_of, has_distinct_keys, null_value, number_value, object_value, push_field,
    push_item, signed_value, text_value, trees_of, value_tree, JsonTree,
};
use crate::conversation_render::{
    count_image_blocks, image_block_count, pending_blocks_preview, queued_preview,
};
use crate::mcp::conversation::{bundle_summary, created_ms_at, stamp_of};
use crate::mcp::dto::{
    BackgroundAgentDto, BackgroundAgentDtoView, BackgroundShellDto, BackgroundShellDtoView,
    SubagentDto, SubagentDtoView,
};
use crate::mcp::entries::{csids_from_blocks, entry_role, entry_send_ids, role_of, send_ids};
use crate::mcp::requests::{find_session, position_of_session};
use crate::mcp::wire::{role_name, role_text};
use crate::mcp::sessions::{
    agents_of, build_active_subagents_vec, build_background_agents_vec,
    build_background_shells_vec, shells_of, subagents_of,
};
use crate::model::{
    PendingBundle, PendingBundleView, SolutionSession, SolutionSessionId, ThreadEntry,
    ThreadEntryView,
};
use crate::text::{clipped, decimal, signed_decimal, truncate_preview};
use crate::thread::AgentThreadEntry;
use vstd::prelude::*;
use vstd::string::*;

verus! {

/// How many characters of an entry are shown when it is appended.
pub const APPENDED_PREVIEW_MAX_CHARS: usize = 200;

/// Why the user was notified.
#[derive(Clone, Copy, Debug, PartialEq, Eq, Structural)]
pub enum NotifyKind {
    Completed,
    AwaitingInput,
    Errored,
}

/// What happened to a session.
#[derive(Clone, Copy, Debug)]
pub enum SolutionAgentStoreEvent {
    SessionCreated { id: SolutionSessionId, parent_session_id: Option<SolutionSessionId> },
    SessionClosed(SolutionSessionId),
    SessionStateChanged(SolutionSessionId),
    SessionTitleChanged(SolutionSessionId),
    /// An entry was appended, at the given position.
    SessionMessageAppended(SolutionSessionId, usize),
    SessionQueueChanged(SolutionSessionId),
    SessionSubagentsChanged(SolutionSessionId),
    SessionContextReset { id: SolutionSessionId, context_count: u32 },
    SessionNotified(SolutionSessionId, NotifyKind),
    TabsChanged,
    SessionBackgroundAgentsChanged(SolutionSessionId),
    SessionBackgroundShellsChanged(SolutionSessionId),
}

/// A message to the clients.
pub struct Notification {
    pub kind: &'static str,
    pub payload: serde_json::Value,
}

/// The field that names the session.
pub open spec fn session_field(id: Seq<char>) -> (Seq<char>, JsonTree) {
    ("session_id"@, JsonTree::Text(id))
}

/// A payload that names the session alone.
pub open spec fn session_payload(id: Seq<char>) -> JsonTree {
    JsonTree::Object(seq![session_field(id)])
}

/// A text, or null.
pub open spec fn text_or_null(text: Option<Seq<char>>) -> JsonTree {
    match text {
        Some(s) => JsonTree::Text(s),
        None => JsonTree::Null,
    }
}

/// A payload that names the session and has another field.
pub open spec fn session_and(id: Seq<char>, key: Seq<char>, value: JsonTree) -> JsonTree {
    JsonTree::Object(seq![session_field(id), (key, value)])
}

/// Starts a payload with the session.
fn start_payload(session_id: &SolutionSessionId) -> (r: Vec<(String, serde_json::Value)>)
    ensures
        fields_of(r@) == seq![session_field(session_id@)],
{
    let mut fields: Vec<(String, serde_json::Value)> = Vec::new();
    assert(fields_of(fields@) =~= Seq::<(Seq<char>, JsonTree)>::empty());
    push_field(&mut fields, "session_id", text_value(session_id.as_str().to_owned()));
    assert(fields_of(fields@) =~= seq![session_field(session_id@)]);
    fields
}

/// A payload that names the session alone.
fn name_session(session_id: &SolutionSessionId) -> (r: serde_json::Value)
    ensures
        value_tree(r) == session_payload(session_id@),
{
    object_value(start_payload(session_id))
}

/// A payload that names the session and has another field.
fn name_session_and(session_id: &SolutionSessionId, key: &str, value: serde_json::Value) -> (r:
    serde_json::Value)
    requires
        key@ != "session_id"@,
    ensures
        value_tree(r) == session_and(session_id@, key@, value_tree(value)),
{
    let mut fields = start_payload(session_id);
    let ghost tree = value_tree(value);
    push_field(&mut fields, key, value);
    assert(fields_of(fields@) =~= seq![session_field(session_id@), (key@, tree)]);
    object_value(fields)
}

/// The fields of an appended entry.
pub open spec fn entry_fields(entry: ThreadEntryView, created_ms: Option<i64>) -> Seq<
    (Seq<char>, JsonTree),
> {
    let ids = entry_send_ids(entry.entry);
    let base = seq![
        ("role"@, JsonTree::Text(role_text(role_of(entry.entry)))),
        (
            "preview"@,
            JsonTree::Text(clipped(entry.markdown, APPENDED_PREVIEW_MAX_CHARS as nat)),
        ),
    ];
    let with_ids = if ids.len() > 0 {
        base + seq![
            ("client_send_id"@, JsonTree::Number(signed_decimal(ids[0] as int))),
            ("client_send_ids"@, id_list(ids)),
        ]
    } else {
        base
    };
    match created_ms {
        Some(ms) => with_ids.push(("created_ms"@, JsonTree::Number(signed_decimal(ms as int)))),
        None => with_ids,
    }
}

/// A list of ids.
pub open spec fn id_list(ids: Seq<i64>) -> JsonTree {
    JsonTree::Array(ids.map_values(|id: i64| JsonTree::Number(signed_decimal(id as int))))
}

/// The appended entry of a session, with the time at which it was made, where
/// both are still there.
pub open spec fn appended_entry(
    sessions: Seq<SolutionSession>,
    id: Seq<char>,
    entry_index: int,
) -> Option<(ThreadEntryView, Option<i64>)> {
    match find_session(sessions, id) {
        None => None,
        Some(i) => match sessions[i].thread() {
            None => None,
            Some(thread) => if entry_index < thread.entries@.len() {
                Some(
                    (
                        thread.entries@[entry_index].deep_view(),
                        stamp_of(sessions[i].entry_created_ms@, entry_index),
                    ),
                )
            } else {
                None
            },
        },
    }
}

/// What clients are told of an appended entry. Of one that is gone they are told
/// its position alone.
pub open spec fn message_appended_tree(
    id: Seq<char>,
    entry_index: nat,
    found: Option<(ThreadEntryView, Option<i64>)>,
) -> JsonTree {
    let base = seq![
        session_field(id),
        ("entry_index"@, JsonTree::Number(decimal(entry_index))),
    ];
    match found {
        Some((entry, created_ms)) => JsonTree::Object(base + entry_fields(entry, created_ms)),
        None => JsonTree::Object(base),
    }
}

/// A list of ids.
fn list_ids(ids: &Vec<i64>) -> (r: serde_json::Value)
    ensures
        value_tree(r) == id_list(ids@),
{
    let ghost want = ids@.map_values(|id: i64| JsonTree::Number(signed_decimal(id as int)));
    let mut items: Vec<serde_json::Value> = Vec::new();
    let mut i: usize = 0;
    assert(trees_of(items@) =~= want.take(0));
    while i < ids.len()
        invariant
            i <= ids@.len(),
            want == ids@.map_values(|id: i64| JsonTree::Number(signed_decimal(id as int))),
            trees_of(items@) == want.take(i as int),
        decreases ids@.len() - i,
    {
        push_item(&mut items, signed_value(ids[i]));
        i += 1;
        assert(want.take(i as int) =~= want.take(i - 1).push(want[i - 1]));
    }
    assert(want.take(i as int) =~= want);
    array_value(items)
}

/// The place of a key among those of an appended entry.
spec fn key_rank(key: Seq<char>) -> int {
    if key.len() == 10 {
        if key[0] == 's' {
            0
        } else {
            6
        }
    } else if key.len() == 11 {
        1
    } else if key.len() == 4 {
        2
    } else if key.len() == 7 {
        3
    } else if key.len() == 14 {
        4
    } else {
        5
    }
}

/// The two keys that are always there differ.
proof fn lemma_base_keys(id: Seq<char>, entry_index: nat)
    ensures
        has_distinct_keys(
            seq![
                session_field(id),
                ("entry_index"@, JsonTree::Number(decimal(entry_index))),
            ],
        ),
{
    reveal_strlit("session_id");
    reveal_strlit("entry_index");
    assert("session_id"@.len() != "entry_index"@.len());
}

/// The keys of an appended entry differ.
proof fn lemma_message_keys(
    id: Seq<char>,
    entry_index: nat,
    entry: ThreadEntryView,
    created_ms: Option<i64>,
)
    ensures
        has_distinct_keys(
            seq![
                session_field(id),
                ("entry_index"@, JsonTree::Number(decimal(entry_index))),
            ] + entry_fields(entry, created_ms),
        ),
{
    reveal_strlit("session_id");
    reveal_strlit("entry_index");
    reveal_strlit("role");
    reveal_strlit("preview");
    reveal_strlit("client_send_id");
    reveal_strlit("client_send_ids");
    reveal_strlit("created_ms");
    assert(key_rank("session_id"@) == 0);
    assert(key_rank("created_ms"@) == 6);
    let ids = entry_send_ids(entry.entry);
    let all = seq![
        session_field(id),
        ("entry_index"@, JsonTree::Number(decimal(entry_index))),
    ] + entry_fields(entry, created_ms);
    assert(all[0].0 == "session_id"@);
    assert(all[1].0 == "entry_index"@);
    assert(all[2].0 == "role"@);
    assert(all[3].0 == "preview"@);
    if ids.len() > 0 {
        assert(all[4].0 == "client_send_id"@);
        assert(all[5].0 == "client_send_ids"@);
    }
    assert forall|i: int, j: int| 0 <= i < j < all.len() implies (#[trigger] all[i]).0 != (
    #[trigger] all[j]).0 by {
        assert(key_rank(all[i].0) < key_rank(all[j].0));
    }
}

/// What clients are told of an appended entry.
pub fn build_message_appended_payload(
    session_id: &SolutionSessionId,
    entry_index: usize,
    sessions: &Vec<SolutionSession>,
) -> (r: serde_json::Value)
    ensures
        value_tree(r) == message_appended_tree(
            session_id@,
            entry_index as nat,
            appended_entry(sessions@, session_id@, entry_index as int),
        ),
{
    let mut fields = start_payload(session_id);
    push_field(&mut fields, "entry_index", number_value(entry_index as u64));
    let ghost base = seq![
        session_field(session_id@),
        ("entry_index"@, JsonTree::Number(decimal(entry_index as nat))),
    ];
    assert(fields_of(fields@) =~= base);
    let mut found: Option<(&ThreadEntry, Option<i64>)> = None;
    if let Some(i) = position_of_session(sessions, session_id) {
        if let Some(thread) = sessions[i].acp_thread() {
            if entry_index < thread.entries.len() {
                found = Some(
                    (
                        &thread.entries[entry_index],
                        created_ms_at(&sessions[i].entry_created_ms, entry_index),
                    ),
                );
            }
        }
    }
    match found {
        Some((entry, created_ms)) => {
            let ghost shown = entry.deep_view();
            proof {
                lemma_message_keys(session_id@, entry_index as nat, shown, created_ms);
            }
            let role = role_name(entry_role(&entry.entry));
            push_field(&mut fields, "role", text_value(role.to_owned()));
            let preview = truncate_preview(entry.markdown.as_str(), APPENDED_PREVIEW_MAX_CHARS);
            push_field(&mut fields, "preview", text_value(preview));
            let ids = match &entry.entry {
                AgentThreadEntry::UserMessage(message) => csids_from_blocks(&message.chunks),
                _ => Vec::new(),
            };
            assert(ids@ =~= entry_send_ids(shown.entry));
            if ids.len() > 0 {
                push_field(&mut fields, "client_send_id", signed_value(ids[0]));
                push_field(&mut fields, "client_send_ids", list_ids(&ids));
            }
            if let Some(ms) = created_ms {
                push_field(&mut fields, "created_ms", signed_value(ms));
            }
            assert(fields_of(fields@) =~= base + entry_fields(shown, created_ms));
        },
        None => {
            proof {
                lemma_base_keys(session_id@, entry_index as nat);
            }
        },
    }
    object_value(fields)
}

/// What clients are told of a message that waits.
pub open spec fn bundle_tree(bundle: PendingBundleView, hint: Seq<char>) -> JsonTree {
    JsonTree::Object(
        seq![
            ("csids"@, id_list(send_ids(bundle.blocks))),
            ("preview"@, JsonTree::Text(queued_preview(bundle.blocks, hint))),
            ("image_count"@, JsonTree::Number(decimal(image_block_count(bundle.blocks)))),
        ],
    )
}

/// What clients are told of the messages that wait.
pub open spec fn bundle_trees(bundles: Seq<PendingBundleView>, hint: Seq<char>) -> Seq<JsonTree> {
    bundles.map_values(|bundle: PendingBundleView| bundle_tree(bundle, hint))
}

/// What clients are told of a message that waits.
fn bundle_value(bundle: &PendingBundle, hint: &str) -> (r: serde_json::Value)
    ensures
        value_tree(r) == bundle_tree(bundle.deep_view(), hint@),
{
    let mut fields: Vec<(String, serde_json::Value)> = Vec::new();
    assert(fields_of(fields@) =~= Seq::<(Seq<char>, JsonTree)>::empty());
    let csids = csids_from_blocks(&bundle.blocks);
    push_field(&mut fields, "csids", list_ids(&csids));
    let preview = pending_blocks_preview(&bundle.blocks, hint);
    push_field(&mut fields, "preview", text_value(preview));
    let image_count: usize = count_image_blocks(&bundle.blocks);
    push_field(&mut fields, "image_count", number_value(image_count as u64));
    proof {
        reveal_strlit("csids");
        reveal_strlit("preview");
        reveal_strlit("image_count");
        let all = fields_of(fields@);
        assert(all[0].0.len() == 5);
        assert(all[1].0.len() == 7);
        assert(all[2].0.len() == 11);
        assert(all =~= bundle_tree(bundle.deep_view(), hint@)->Object_0);
    }
    object_value(fields)
}

/// The messages of a session that wait; none where the session is gone.
pub open spec fn waiting_bundles(sessions: Seq<SolutionSession>, id: Seq<char>) -> Seq<
    PendingBundleView,
> {
    match find_session(sessions, id) {
        Some(i) => sessions[i].pending_messages.deep_view(),
        None => Seq::empty(),
    }
}

/// What clients are told of the messages of a session that wait. `bundles` is
/// there even where none waits.
pub open spec fn queue_changed_tree(
    id: Seq<char>,
    bundles: Seq<PendingBundleView>,
    hint: Seq<char>,
) -> JsonTree {
    session_and(id, "bundles"@, JsonTree::Array(bundle_trees(bundles, hint)))
}

/// What clients are told of the messages of a session that wait. `hint` is the
/// line that the queue may put in front of a message.
pub fn build_queue_changed_payload(
    session_id: &SolutionSessionId,
    sessions: &Vec<SolutionSession>,
    hint: &str,
) -> (r: serde_json::Value)
    ensures
        value_tree(r) == queue_changed_tree(
            session_id@,
            waiting_bundles(sessions@, session_id@),
            hint@,
        ),
{
    let mut items: Vec<serde_json::Value> = Vec::new();
    let ghost want = bundle_trees(waiting_bundles(sessions@, session_id@), hint@);
    if let Some(s) = position_of_session(sessions, session_id) {
        let bundles = &sessions[s].pending_messages;
        let ghost all = bundles.deep_view();
        let mut i: usize = 0;
        assert(trees_of(items@) =~= want.take(0));
        while i < bundles.len()
            invariant
                i <= bundles@.len(),
                all == bundles.deep_view(),
                want == bundle_trees(all, hint@),
                trees_of(items@) == want.take(i as int),
            decreases bundles@.len() - i,
        {
            assert(all[i as int] == bundles@[i as int].deep_view());
            push_item(&mut items, bundle_value(&bundles[i], hint));
            i += 1;
            assert(want.take(i as int) =~= want.take(i - 1).push(want[i - 1]));
        }
        assert(want.take(i as int) =~= want);
    } else {
        assert(trees_of(items@) =~= want);
    }
    proof {
        reveal_strlit("session_id");
        reveal_strlit("bundles");
        assert("bundles"@.len() != "session_id"@.len());
    }
    name_session_and(session_id, "bundles", array_value(items))
}

/// What clients are told when a message is queued is what they read when they
/// ask for the session.
pub proof fn law_queue_agrees_with_the_session(bundle: PendingBundleView, hint: Seq<char>)
    requires
        image_block_count(bundle.blocks) <= u32::MAX,
    ensures
        ({
            let summary = bundle_summary(bundle, hint);
            bundle_tree(bundle, hint) == JsonTree::Object(
                seq![
                    ("csids"@, id_list(summary.csids)),
                    ("preview"@, JsonTree::Text(summary.preview)),
                    ("image_count"@, JsonTree::Number(decimal(summary.image_count as nat))),
                ],
            )
        }),
{
}

/// What clients are told of a sub-agent.
pub open spec fn subagent_tree(subagent: SubagentDtoView) -> JsonTree {
    JsonTree::Object(
        seq![
            ("id"@, JsonTree::Text(subagent.id)),
            ("label"@, JsonTree::Text(subagent.label)),
            ("started_at_ms"@, JsonTree::Number(signed_decimal(subagent.started_at_ms as int))),
        ],
    )
}

/// What clients are told of a sub-agent.
fn subagent_value(subagent: &SubagentDto) -> (r: serde_json::Value)
    ensures
        value_tree(r) == subagent_tree(subagent.deep_view()),
{
    let mut fields: Vec<(String, serde_json::Value)> = Vec::new();
    assert(fields_of(fields@) =~= Seq::<(Seq<char>, JsonTree)>::empty());
    push_field(&mut fields, "id", text_value(subagent.id.clone()));
    push_field(&mut fields, "label", text_value(subagent.label.clone()));
    push_field(&mut fields, "started_at_ms", signed_value(subagent.started_at_ms));
    proof {
        reveal_strlit("id");
        reveal_strlit("label");
        reveal_strlit("started_at_ms");
        let all = fields_of(fields@);
        assert(all[0].0.len() == 2);
        assert(all[1].0.len() == 5);
        assert(all[2].0.len() == 13);
        assert(all =~= subagent_tree(subagent.deep_view())->Object_0);
    }
    object_value(fields)
}

/// The sub-agents of a session; none where the session is gone.
pub open spec fn present_subagents(sessions: Seq<SolutionSession>, id: Seq<char>) -> Seq<
    SubagentDtoView,
> {
    match find_session(sessions, id) {
        Some(i) => subagents_of(sessions[i].active_subagent_order@, sessions[i].active_subagents@),
        None => Seq::empty(),
    }
}

/// What clients are told of the sub-agents of a session.
pub open spec fn subagents_changed_tree(id: Seq<char>, subagents: Seq<SubagentDtoView>) -> JsonTree {
    session_and(
        id,
        "active_subagents"@,
        JsonTree::Array(subagents.map_values(|subagent: SubagentDtoView| subagent_tree(subagent))),
    )
}

/// What clients are told of the sub-agents of a session.
pub fn build_active_subagents_changed_payload(
    session_id: &SolutionSessionId,
    sessions: &Vec<SolutionSession>,
) -> (r: serde_json::Value)
    ensures
        value_tree(r) == subagents_changed_tree(
            session_id@,
            present_subagents(sessions@, session_id@),
        ),
{
    let subagents = match position_of_session(sessions, session_id) {
        Some(i) => build_active_subagents_vec(&sessions[i]),
        None => Vec::new(),
    };
    let ghost all = subagents.deep_view();
    assert(all =~= present_subagents(sessions@, session_id@));
    let ghost want = all.map_values(|subagent: SubagentDtoView| subagent_tree(subagent));
    let mut items: Vec<serde_json::Value> = Vec::new();
    let mut i: usize = 0;
    assert(trees_of(items@) =~= want.take(0));
    while i < subagents.len()
        invariant
            i <= subagents@.len(),
            all == subagents.deep_view(),
            want == all.map_values(|subagent: SubagentDtoView| subagent_tree(subagent)),
            trees_of(items@) == want.take(i as int),
        decreases subagents@.len() - i,
    {
        assert(all[i as int] == subagents@[i as int].deep_view());
        push_item(&mut items, subagent_value(&subagents[i]));
        i += 1;
        assert(want.take(i as int) =~= want.take(i - 1).push(want[i - 1]));
    }
    assert(want.take(i as int) =~= want);
    proof {
        reveal_strlit("session_id");
        reveal_strlit("active_subagents");
        assert("active_subagents"@.len() != "session_id"@.len());
    }
    name_session_and(session_id, "active_subagents", array_value(items))
}

/// A field with a time, where there is one.
pub open spec fn time_field(mtime_ms: Option<i64>) -> Seq<(Seq<char>, JsonTree)> {
    match mtime_ms {
        Some(ms) => seq![("mtime_ms"@, JsonTree::Number(signed_decimal(ms as int)))],
        None => Seq::empty(),
    }
}

/// A field with a text, where there is one.
pub open spec fn optional_text_field(key: Seq<char>, text: Option<Seq<char>>) -> Seq<
    (Seq<char>, JsonTree),
> {
    match text {
        Some(s) => seq![(key, JsonTree::Text(s))],
        None => Seq::empty(),
    }
}

/// What clients are told of a background shell.
pub open spec fn shell_tree(shell: BackgroundShellDtoView) -> JsonTree {
    JsonTree::Object(
        seq![
            ("id"@, JsonTree::Text(shell.id)),
            ("command"@, JsonTree::Text(shell.command)),
            ("state"@, JsonTree::Text(shell.state)),
        ] + time_field(shell.mtime_ms) + optional_text_field("output_tail"@, shell.output_tail),
    )
}

/// What clients are told of a background shell.
pub fn shell_value(shell: &BackgroundShellDto) -> (r: serde_json::Value)
    ensures
        value_tree(r) == shell_tree(shell.deep_view()),
{
    let mut fields: Vec<(String, serde_json::Value)> = Vec::new();
    assert(fields_of(fields@) =~= Seq::<(Seq<char>, JsonTree)>::empty());
    push_field(&mut fields, "id", text_value(shell.id.clone()));
    push_field(&mut fields, "command", text_value(shell.command.clone()));
    push_field(&mut fields, "state", text_value(shell.state.clone()));
    if let Some(ms) = shell.mtime_ms {
        push_field(&mut fields, "mtime_ms", signed_value(ms));
    }
    if let Some(tail) = &shell.output_tail {
        push_field(&mut fields, "output_tail", text_value(tail.clone()));
    }
    proof {
        reveal_strlit("id");
        reveal_strlit("command");
        reveal_strlit("state");
        reveal_strlit("mtime_ms");
        reveal_strlit("output_tail");
        let all = fields_of(fields@);
        assert(all =~= shell_tree(shell.deep_view())->Object_0);
        assert(all[0].0.len() == 2 && all[1].0.len() == 7 && all[2].0.len() == 5);
        assert(all.len() > 3 ==> all[3].0.len() == 8 || all[3].0.len() == 11);
        assert(all.len() > 4 ==> all[3].0.len() == 8 && all[4].0.len() == 11);
        assert forall|i: int, j: int| 0 <= i < j < all.len() implies (#[trigger] all[i]).0 != (
        #[trigger] all[j]).0 by {
            assert(all[i].0.len() != all[j].0.len());
        }
    }
    object_value(fields)
}

/// What clients are told of a managed agent.
pub open spec fn agent_tree(agent: BackgroundAgentDtoView) -> JsonTree {
    JsonTree::Object(
        seq![
            ("id"@, JsonTree::Text(agent.id)),
            ("label"@, JsonTree::Text(agent.label)),
        ] + time_field(agent.mtime_ms) + optional_text_field("stop_reason"@, agent.stop_reason),
    )
}

/// What clients are told of a managed agent.
pub fn agent_value(agent: &BackgroundAgentDto) -> (r: serde_json::Value)
    ensures
        value_tree(r) == agent_tree(agent.deep_view()),
{
    let mut fields: Vec<(String, serde_json::Value)> = Vec::new();
    assert(fields_of(fields@) =~= Seq::<(Seq<char>, JsonTree)>::empty());
    push_field(&mut fields, "id", text_value(agent.id.clone()));
    push_field(&mut fields, "label", text_value(agent.label.clone()));
    if let Some(ms) = agent.mtime_ms {
        push_field(&mut fields, "mtime_ms", signed_value(ms));
    }
    if let Some(reason) = &agent.stop_reason {
        push_field(&mut fields, "stop_reason", text_value(reason.clone()));
    }
    proof {
        reveal_strlit("id");
        reveal_strlit("label");
        reveal_strlit("mtime_ms");
        reveal_strlit("stop_reason");
        let all = fields_of(fields@);
        assert(all =~= agent_tree(agent.deep_view())->Object_0);
        assert(all[0].0.len() == 2 && all[1].0.len() == 5);
        assert(all.len() > 2 ==> all[2].0.len() == 8 || all[2].0.len() == 11);
        assert(all.len() > 3 ==> all[2].0.len() == 8 && all[3].0.len() == 11);
        assert forall|i: int, j: int| 0 <= i < j < all.len() implies (#[trigger] all[i]).0 != (
        #[trigger] all[j]).0 by {
            assert(all[i].0.len() != all[j].0.len());
        }
    }
    object_value(fields)
}

/// The background shells of a session, without their output; none where the
/// session is gone.
pub open spec fn present_shells(sessions: Seq<SolutionSession>, id: Seq<char>) -> Seq<
    BackgroundShellDtoView,
> {
    match find_session(sessions, id) {
        Some(i) => shells_of(
            sessions[i].background_shell_order@,
            sessions[i].background_shells@,
            false,
        ),
        None => Seq::empty(),
    }
}

/// What clients are told of the background shells of a session.
pub open spec fn shells_changed_tree(id: Seq<char>, shells: Seq<BackgroundShellDtoView>) -> JsonTree {
    session_and(
        id,
        "background_shells"@,
        JsonTree::Array(shells.map_values(|shell: BackgroundShellDtoView| shell_tree(shell))),
    )
}

/// What clients are told of the background shells of a session. The output is
/// not sent along.
pub fn build_background_shells_changed_payload(
    session_id: &SolutionSessionId,
    sessions: &Vec<SolutionSession>,
) -> (r: serde_json::Value)
    ensures
        value_tree(r) == shells_changed_tree(session_id@, present_shells(sessions@, session_id@)),
{
    let shells = match position_of_session(sessions, session_id) {
        Some(i) => build_background_shells_vec(&sessions[i], false),
        None => Vec::new(),
    };
    let ghost all = shells.deep_view();
    assert(all =~= present_shells(sessions@, session_id@));
    let ghost want = all.map_values(|shell: BackgroundShellDtoView| shell_tree(shell));
    let mut items: Vec<serde_json::Value> = Vec::new();
    let mut i: usize = 0;
    assert(trees_of(items@) =~= want.take(0));
    while i < shells.len()
        invariant
            i <= shells@.len(),
            all == shells.deep_view(),
            want == all.map_values(|shell: BackgroundShellDtoView| shell_tree(shell)),
            trees_of(items@) == want.take(i as int),
        decreases shells@.len() - i,
    {
        assert(all[i as int] == shells@[i as int].deep_view());
        push_item(&mut items, shell_value(&shells[i]));
        i += 1;
        assert(want.take(i as int) =~= want.take(i - 1).push(want[i - 1]));
    }
    assert(want.take(i as int) =~= want);
    proof {
        reveal_strlit("session_id");
        reveal_strlit("background_shells");
        assert("background_shells"@.len() != "session_id"@.len());
    }
    name_session_and(session_id, "background_shells", array_value(items))
}

/// The managed agents of a session; none where the session is gone.
pub open spec fn present_agents(sessions: Seq<SolutionSession>, id: Seq<char>) -> Seq<
    BackgroundAgentDtoView,
> {
    match find_session(sessions, id) {
        Some(i) => agents_of(sessions[i].background_agent_order@, sessions[i].background_agents@),
        None => Seq::empty(),
    }
}

/// What clients are told of the managed agents of a session.
pub open spec fn agents_changed_tree(id: Seq<char>, agents: Seq<BackgroundAgentDtoView>) -> JsonTree {
    session_and(
        id,
        "background_agents"@,
        JsonTree::Array(agents.map_values(|agent: BackgroundAgentDtoView| agent_tree(agent))),
    )
}

/// What clients are told of the managed agents of a session.
pub fn build_background_agents_changed_payload(
    session_id: &SolutionSessionId,
    sessions: &Vec<SolutionSession>,
) -> (r: serde_json::Value)
    ensures
        value_tree(r) == agents_changed_tree(session_id@, present_agents(sessions@, session_id@)),
{
    let agents = match position_of_session(sessions, session_id) {
        Some(i) => build_background_agents_vec(&sessions[i]),
        None => Vec::new(),
    };
    let ghost all = agents.deep_view();
    assert(all =~= present_agents(sessions@, session_id@));
    let ghost want = all.map_values(|agent: BackgroundAgentDtoView| agent_tree(agent));
    let mut items: Vec<serde_json::Value> = Vec::new();
    let mut i: usize = 0;
    assert(trees_of(items@) =~= want.take(0));
    while i < agents.len()
        invariant
            i <= agents@.len(),
            all == agents.deep_view(),
            want == all.map_values(|agent: BackgroundAgentDtoView| agent_tree(agent)),
            trees_of(items@) == want.take(i as int),
        decreases agents@.len() - i,
    {
        assert(all[i as int] == agents@[i as int].deep_view());
        push_item(&mut items, agent_value(&agents[i]));
        i += 1;
        assert(want.take(i as int) =~= want.take(i - 1).push(want[i - 1]));
    }
    assert(want.take(i as int) =~= want);
    proof {
        reveal_strlit("session_id");
        reveal_strlit("background_agents");
        assert("background_agents"@.len() != "session_id"@.len());
    }
    name_session_and(session_id, "background_agents", array_value(items))
}

/// The name of a reason on the wire.
pub open spec fn notify_text(kind: NotifyKind) -> Seq<char> {
    match kind {
        NotifyKind::Completed => "completed"@,
        NotifyKind::AwaitingInput => "awaiting_input"@,
        NotifyKind::Errored => "errored"@,
    }
}

/// The name of a reason on the wire.
pub fn notify_name(kind: NotifyKind) -> (r: &'static str)
    ensures
        r@ == notify_text(kind),
{
    match kind {
        NotifyKind::Completed => "completed",
        NotifyKind::AwaitingInput => "awaiting_input",
        NotifyKind::Errored => "errored",
    }
}

/// What clients are told of an event: the kind of the message and what it holds.
/// They are told nothing of tabs.
pub open spec fn notification_of(
    event: SolutionAgentStoreEvent,
    sessions: Seq<SolutionSession>,
    hint: Seq<char>,
) -> Option<(Seq<char>, JsonTree)> {
    match event {
        SolutionAgentStoreEvent::SessionCreated { id, parent_session_id } => Some(
            (
                "agent_session_created"@,
                session_and(
                    id@,
                    "parent_session_id"@,
                    text_or_null(parent_session_id.deep_view()),
                ),
            ),
        ),
        SolutionAgentStoreEvent::SessionClosed(id) => Some(
            ("agent_session_closed"@, session_payload(id@)),
        ),
        SolutionAgentStoreEvent::SessionStateChanged(id) => Some(
            ("agent_session_state_changed"@, session_payload(id@)),
        ),
        SolutionAgentStoreEvent::SessionTitleChanged(id) => Some(
            ("agent_session_title_changed"@, session_payload(id@)),
        ),
        SolutionAgentStoreEvent::SessionMessageAppended(id, entry_index) => Some(
            (
                "agent_session_message_appended"@,
                message_appended_tree(
                    id@,
                    entry_index as nat,
                    appended_entry(sessions, id@, entry_index as int),
                ),
            ),
        ),
        SolutionAgentStoreEvent::SessionQueueChanged(id) => Some(
            (
                "agent_session_queue_changed"@,
                queue_changed_tree(id@, waiting_bundles(sessions, id@), hint),
            ),
        ),
        SolutionAgentStoreEvent::SessionSubagentsChanged(id) => Some(
            (
                "agent_session_active_subagents_changed"@,
                subagents_changed_tree(id@, present_subagents(sessions, id@)),
            ),
        ),
        SolutionAgentStoreEvent::SessionContextReset { id, context_count } => Some(
            (
                "agent_session_context_reset"@,
                session_and(
                    id@,
                    "context_count"@,
                    JsonTree::Number(decimal(context_count as nat)),
                ),
            ),
        ),
        SolutionAgentStoreEvent::SessionNotified(id, kind) => Some(
            (
                "agent_session_notification_sent"@,
                session_and(id@, "kind"@, JsonTree::Text(notify_text(kind))),
            ),
        ),
        SolutionAgentStoreEvent::TabsChanged => None,
        SolutionAgentStoreEvent::SessionBackgroundAgentsChanged(id) => Some(
            (
                "agent_session_background_agents_changed"@,
                agents_changed_tree(id@, present_agents(sessions, id@)),
            ),
        ),
        SolutionAgentStoreEvent::SessionBackgroundShellsChanged(id) => Some(
            (
                "agent_session_background_shells_changed"@,
                shells_changed_tree(id@, present_shells(sessions, id@)),
            ),
        ),
    }
}

/// What clients are told of an event, if anything.
pub fn notification_for(
    event: &SolutionAgentStoreEvent,
    sessions: &Vec<SolutionSession>,
    hint: &str,
) -> (r: Option<Notification>)
    ensures
        match notification_of(*event, sessions@, hint@) {
            Some((kind, tree)) => r is Some && r->Some_0.kind@ == kind && value_tree(
                r->Some_0.payload,
            ) == tree,
            None => r is None,
        },
{
    proof {
        reveal_strlit("session_id");
        reveal_strlit("parent_session_id");
        reveal_strlit("context_count");
        reveal_strlit("kind");
        assert("parent_session_id"@.len() != "session_id"@.len());
        assert("context_count"@.len() != "session_id"@.len());
        assert("kind"@.len() != "session_id"@.len());
    }
    let (kind, payload) = match event {
        SolutionAgentStoreEvent::SessionCreated { id, parent_session_id } => {
            let parent = match parent_session_id {
                Some(parent) => text_value(parent.as_str().to_owned()),
                None => null_value(),
            };
            ("agent_session_created", name_session_and(id, "parent_session_id", parent))
        },
        SolutionAgentStoreEvent::SessionClosed(id) => ("agent_session_closed", name_session(id)),
        SolutionAgentStoreEvent::SessionStateChanged(id) => (
            "agent_session_state_changed",
            name_session(id),
        ),
        SolutionAgentStoreEvent::SessionTitleChanged(id) => (
            "agent_session_title_changed",
            name_session(id),
        ),
        SolutionAgentStoreEvent::SessionMessageAppended(id, entry_index) => (
            "agent_session_message_appended",
            build_message_appended_payload(id, *entry_index, sessions),
        ),
        SolutionAgentStoreEvent::SessionQueueChanged(id) => (
            "agent_session_queue_changed",
            build_queue_changed_payload(id, sessions, hint),
        ),
        SolutionAgentStoreEvent::SessionSubagentsChanged(id) => (
            "agent_session_active_subagents_changed",
            build_active_subagents_changed_payload(id, sessions),
        ),
        SolutionAgentStoreEvent::SessionContextReset { id, context_count } => (
            "agent_session_context_reset",
            name_session_and(id, "context_count", number_value(*context_count as u64)),
        ),
        SolutionAgentStoreEvent::SessionNotified(id, kind) => (
            "agent_session_notification_sent",
            name_session_and(id, "kind", text_value(notify_name(*kind).to_owned())),
        ),
        SolutionAgentStoreEvent::TabsChanged => {
            return None;
        },
        SolutionAgentStoreEvent::SessionBackgroundAgentsChanged(id) => (
            "agent_session_background_agents_changed",
            build_background_agents_changed_payload(id, sessions),
        ),
        SolutionAgentStoreEvent::SessionBackgroundShellsChanged(id) => (
            "agent_session_background_shells_changed",
            build_background_shells_changed_payload(id, sessions),
        ),
    };
    Some(Notification { kind, payload })
}

/// Whether the clients are told of events.
pub struct EventSourceCoordinator {
    pub installed: bool,
}

impl EventSourceCoordinator {
    pub fn new() -> (r: Self)
        ensures
            !r.installed,
    {
        EventSourceCoordinator { installed: false }
    }

    /// Whether to subscribe to the events now: once, and not before there is a
    /// store of sessions.
    pub fn install(&mut self, has_store: bool) -> (r: bool)
        ensures
            r == (!old(self).installed && has_store),
            final(self).installed == (old(self).installed || has_store),
    {
        if self.installed || !has_store {
            return false;
        }
        self.installed = true;
        true
    }
}

} // verus!
