//! What clients are told unasked.
use crate::event_sources::{
    agent_tree, agents_changed_tree, appended_entry, bundle_tree, id_list, message_appended_tree,
    notification_of, notify_text, present_agents, present_shells, present_subagents,
    queue_changed_tree, shell_tree, shells_changed_tree, subagent_tree, subagents_changed_tree,
    waiting_bundles, NotifyKind, SolutionAgentStoreEvent,
};
use crate::json::JsonTree;
use crate::laws::conversation::is_preview;
use crate::mcp::conversation::stamp_of;
use crate::mcp::dto::{
    BackgroundAgentDtoView, BackgroundShellDtoView, EntryRoleDto, SessionStateDtoView,
    SubagentDtoView, ToolCallStatusDto,
};
use crate::mcp::entries::{entry_send_ids, send_ids};
use crate::mcp::requests::find_session;
use crate::mcp::wire::{role_text, state_fields, wire_status_text};
use crate::metrics_emitter::is_due;
use crate::model::{PendingBundleView, SolutionSession, ThreadEntryView};
use crate::text::{decimal, signed_decimal};
use vstd::prelude::*;

verus! {

/// The keys of what is told differ.
proof fn lemma_keys()
    ensures
        "session_id"@.len() == 10 && "session_id"@[0] == 's',
        "entry_index"@.len() == 11,
        "role"@.len() == 4,
        "preview"@.len() == 7 && "preview"@[0] == 'p',
        "client_send_id"@.len() == 14,
        "client_send_ids"@.len() == 15,
        "created_ms"@.len() == 10 && "created_ms"@[0] == 'c',
        "bundles"@.len() == 7 && "bundles"@[0] == 'b',
        "csids"@.len() == 5,
        "image_count"@.len() == 11,
        "active_subagents"@.len() == 16,
        "background_shells"@.len() == 17,
        "background_agents"@.len() == 17,
        "id"@.len() == 2,
        "label"@.len() == 5,
        "started_at_ms"@.len() == 13,
        "command"@.len() == 7 && "command"@[0] == 'c',
        "state"@.len() == 5 && "state"@[0] == 's',
        "mtime_ms"@.len() == 8,
        "output_tail"@.len() == 11,
        "stop_reason"@.len() == 11,
        "parent_session_id"@.len() == 17,
        "context_count"@.len() == 13,
        "kind"@.len() == 4,
{
    reveal_strlit("session_id");
    reveal_strlit("entry_index");
    reveal_strlit("role");
    reveal_strlit("preview");
    reveal_strlit("client_send_id");
    reveal_strlit("client_send_ids");
    reveal_strlit("created_ms");
    reveal_strlit("bundles");
    reveal_strlit("csids");
    reveal_strlit("image_count");
    reveal_strlit("active_subagents");
    reveal_strlit("background_shells");
    reveal_strlit("background_agents");
    reveal_strlit("id");
    reveal_strlit("label");
    reveal_strlit("started_at_ms");
    reveal_strlit("command");
    reveal_strlit("state");
    reveal_strlit("mtime_ms");
    reveal_strlit("output_tail");
    reveal_strlit("stop_reason");
    reveal_strlit("parent_session_id");
    reveal_strlit("context_count");
    reveal_strlit("kind");
}

/// What stands under a key is found there, if the key stands nowhere before.
proof fn lemma_field(fields: Seq<(Seq<char>, JsonTree)>, k: int)
    requires
        0 <= k < fields.len(),
        forall|i: int| 0 <= i < k ==> (#[trigger] fields[i]).0 != fields[k].0,
    ensures
        JsonTree::Object(fields).field(fields[k].0) == Some(fields[k].1),
    decreases k,
{
    if k > 0 {
        let rest = fields.drop_first();
        assert forall|i: int| 0 <= i < k - 1 implies (#[trigger] rest[i]).0 != rest[k - 1].0 by {
            assert(rest[i] == fields[i + 1]);
        }
        lemma_field(rest, k - 1);
        assert(fields[0].0 != fields[k].0);
    }
}

/// A key that stands nowhere is not found.
proof fn lemma_no_field(fields: Seq<(Seq<char>, JsonTree)>, key: Seq<char>)
    requires
        forall|i: int| 0 <= i < fields.len() ==> (#[trigger] fields[i]).0 != key,
    ensures
        JsonTree::Object(fields).field(key) is None,
    decreases fields.len(),
{
    if fields.len() > 0 {
        let rest = fields.drop_first();
        assert forall|i: int| 0 <= i < rest.len() implies (#[trigger] rest[i]).0 != key by {
            assert(rest[i] == fields[i + 1]);
        }
        lemma_no_field(rest, key);
    }
}

/// A list of stamps is told number by number.
pub proof fn law_stamps_are_listed(ids: Seq<i64>)
    ensures
        id_list(ids) matches JsonTree::Array(items) && items.len() == ids.len() && forall|i: int|
            0 <= i < ids.len() ==> #[trigger] items[i] == JsonTree::Number(
                signed_decimal(ids[i] as int),
            ),
{
}

/// Clients that are told of a new entry are told its session and number and, where it is
/// still there, who it is from, how it starts, who sent it and when it was made.
pub proof fn law_new_entries_are_told(
    id: Seq<char>,
    index: nat,
    found: Option<(ThreadEntryView, Option<i64>)>,
)
    ensures
        ({
            let told = message_appended_tree(id, index, found);
            &&& told.field("session_id"@) == Some(JsonTree::Text(id))
            &&& told.field("entry_index"@) == Some(JsonTree::Number(decimal(index)))
            &&& found is None ==> told.field("role"@) is None && told.field("preview"@) is None
                && told.field("created_ms"@) is None && told.field("client_send_ids"@) is None
            &&& found matches Some((entry, created_ms)) ==> {
                let ids = entry_send_ids(entry.entry);
                &&& entry.entry is UserMessage ==> told.text_field("role"@) == Some("user"@)
                &&& entry.entry is AssistantMessage ==> told.text_field("role"@) == Some(
                    "assistant"@,
                )
                &&& entry.entry is ToolCall ==> told.text_field("role"@) == Some("tool_call"@)
                &&& entry.entry is CompletedPlan ==> told.text_field("role"@) == Some("plan"@)
                &&& told.text_field("preview"@) is Some
                &&& is_preview(told.text_field("preview"@)->0, entry.markdown, 200)
                &&& ids.len() == 0 ==> told.field("client_send_id"@) is None && told.field(
                    "client_send_ids"@,
                ) is None
                &&& ids.len() > 0 ==> told.field("client_send_id"@) == Some(
                    JsonTree::Number(signed_decimal(ids[0] as int)),
                ) && told.field("client_send_ids"@) == Some(id_list(ids))
                &&& created_ms is None ==> told.field("created_ms"@) is None
                &&& created_ms matches Some(ms) ==> told.field("created_ms"@) == Some(
                    JsonTree::Number(signed_decimal(ms as int)),
                )
            }
        }),
{
    lemma_keys();
    let told = message_appended_tree(id, index, found);
    let fields = told->Object_0;
    assert(fields[0] == ("session_id"@, JsonTree::Text(id)));
    assert(fields[1] == ("entry_index"@, JsonTree::Number(decimal(index))));
    lemma_field(fields, 0);
    lemma_field(fields, 1);
    match found {
        None => {
            lemma_no_field(fields, "role"@);
            lemma_no_field(fields, "preview"@);
            lemma_no_field(fields, "created_ms"@);
            lemma_no_field(fields, "client_send_ids"@);
        },
        Some((entry, created_ms)) => {
            let ids = entry_send_ids(entry.entry);
            assert(fields[2].0 == "role"@);
            assert(fields[3].0 == "preview"@);
            lemma_field(fields, 2);
            lemma_field(fields, 3);
            if ids.len() > 0 {
                assert(fields[4].0 == "client_send_id"@);
                assert(fields[5].0 == "client_send_ids"@);
                lemma_field(fields, 4);
                lemma_field(fields, 5);
                if created_ms is Some {
                    assert(fields[6].0 == "created_ms"@);
                    lemma_field(fields, 6);
                } else {
                    lemma_no_field(fields, "created_ms"@);
                }
            } else {
                if created_ms is Some {
                    assert(fields[4].0 == "created_ms"@);
                    lemma_field(fields, 4);
                } else {
                    lemma_no_field(fields, "created_ms"@);
                }
                lemma_no_field(fields, "client_send_id"@);
                lemma_no_field(fields, "client_send_ids"@);
            }
        },
    }
}

/// The entry that is told is that of the running agent of the session, with its stamp.
/// There is none where the session, its agent or the entry is gone.
pub proof fn law_new_entry_is_that_of_the_session(
    sessions: Seq<SolutionSession>,
    id: Seq<char>,
    index: int,
)
    requires
        0 <= index,
    ensures
        find_session(sessions, id) is None ==> appended_entry(sessions, id, index) is None,
        find_session(sessions, id) matches Some(i) ==> {
            let thread = sessions[i].thread();
            &&& thread is None ==> appended_entry(sessions, id, index) is None
            &&& thread is Some && index >= thread->0.entries@.len() ==> appended_entry(
                sessions,
                id,
                index,
            ) is None
            &&& thread is Some && index < thread->0.entries@.len() ==> appended_entry(
                sessions,
                id,
                index,
            ) == Some(
                (
                    thread->0.entries@[index].deep_view(),
                    stamp_of(sessions[i].entry_created_ms@, index),
                ),
            )
        },
{
}

/// Clients are told all messages that wait, in their order, each with its stamps, its
/// preview and its number of images; none where the session is gone.
pub proof fn law_waiting_messages_are_told(
    sessions: Seq<SolutionSession>,
    id: Seq<char>,
    hint: Seq<char>,
)
    ensures
        ({
            let bundles = waiting_bundles(sessions, id);
            let told = queue_changed_tree(id, bundles, hint);
            &&& told.field("session_id"@) == Some(JsonTree::Text(id))
            &&& told.array_field("bundles"@) is Some
            &&& told.array_field("bundles"@)->0.len() == bundles.len()
            &&& forall|i: int|
                0 <= i < bundles.len() ==> #[trigger] told.array_field("bundles"@)->0[i]
                    == bundle_tree(bundles[i], hint)
            &&& find_session(sessions, id) is None ==> bundles.len() == 0
            &&& find_session(sessions, id) matches Some(k) ==> bundles
                == sessions[k].pending_messages.deep_view()
        }),
{
    lemma_keys();
    let told = queue_changed_tree(id, waiting_bundles(sessions, id), hint);
    let fields = told->Object_0;
    lemma_field(fields, 0);
    lemma_field(fields, 1);
}

/// A message that waits is told by its stamps and its images.
pub proof fn law_waiting_message_is_told(bundle: PendingBundleView, hint: Seq<char>)
    ensures
        ({
            let told = bundle_tree(bundle, hint);
            &&& told.field("csids"@) == Some(id_list(send_ids(bundle.blocks)))
            &&& told.field("image_count"@) == Some(
                JsonTree::Number(
                    decimal(crate::conversation_render::image_block_count(bundle.blocks)),
                ),
            )
            &&& told.text_field("preview"@) is Some
        }),
{
    lemma_keys();
    let fields = bundle_tree(bundle, hint)->Object_0;
    lemma_field(fields, 0);
    lemma_field(fields, 1);
    lemma_field(fields, 2);
}

/// A sub-agent is told by its id, its label and when it was started.
pub proof fn law_subagent_is_told(subagent: SubagentDtoView)
    ensures
        subagent_tree(subagent).field("id"@) == Some(JsonTree::Text(subagent.id)),
        subagent_tree(subagent).field("label"@) == Some(JsonTree::Text(subagent.label)),
        subagent_tree(subagent).field("started_at_ms"@) == Some(
            JsonTree::Number(signed_decimal(subagent.started_at_ms as int)),
        ),
{
    lemma_keys();
    let fields = subagent_tree(subagent)->Object_0;
    lemma_field(fields, 0);
    lemma_field(fields, 1);
    lemma_field(fields, 2);
}

/// A shell is told by its id, command and state, and by the time and the output that
/// are known of it.
pub proof fn law_shell_is_told(shell: BackgroundShellDtoView)
    ensures
        ({
            let told = shell_tree(shell);
            &&& told.field("id"@) == Some(JsonTree::Text(shell.id))
            &&& told.field("command"@) == Some(JsonTree::Text(shell.command))
            &&& told.field("state"@) == Some(JsonTree::Text(shell.state))
            &&& shell.mtime_ms is None ==> told.field("mtime_ms"@) is None
            &&& shell.mtime_ms matches Some(ms) ==> told.field("mtime_ms"@) == Some(
                JsonTree::Number(signed_decimal(ms as int)),
            )
            &&& shell.output_tail is None ==> told.field("output_tail"@) is None
            &&& shell.output_tail matches Some(text) ==> told.field("output_tail"@) == Some(
                JsonTree::Text(text),
            )
        }),
{
    lemma_keys();
    let fields = shell_tree(shell)->Object_0;
    lemma_field(fields, 0);
    lemma_field(fields, 1);
    lemma_field(fields, 2);
    if shell.mtime_ms is Some {
        assert(fields[3].0 == "mtime_ms"@);
        lemma_field(fields, 3);
        if shell.output_tail is Some {
            assert(fields[4].0 == "output_tail"@);
            lemma_field(fields, 4);
        } else {
            lemma_no_field(fields, "output_tail"@);
        }
    } else {
        lemma_no_field(fields, "mtime_ms"@);
        if shell.output_tail is Some {
            assert(fields[3].0 == "output_tail"@);
            lemma_field(fields, 3);
        } else {
            lemma_no_field(fields, "output_tail"@);
        }
    }
}

/// A managed agent is told by its id and label, and by the time and the reason for
/// stopping that are known of it.
pub proof fn law_agent_is_told(agent: BackgroundAgentDtoView)
    ensures
        ({
            let told = agent_tree(agent);
            &&& told.field("id"@) == Some(JsonTree::Text(agent.id))
            &&& told.field("label"@) == Some(JsonTree::Text(agent.label))
            &&& agent.mtime_ms is None ==> told.field("mtime_ms"@) is None
            &&& agent.mtime_ms matches Some(ms) ==> told.field("mtime_ms"@) == Some(
                JsonTree::Number(signed_decimal(ms as int)),
            )
            &&& agent.stop_reason is None ==> told.field("stop_reason"@) is None
            &&& agent.stop_reason matches Some(text) ==> told.field("stop_reason"@) == Some(
                JsonTree::Text(text),
            )
        }),
{
    lemma_keys();
    let fields = agent_tree(agent)->Object_0;
    lemma_field(fields, 0);
    lemma_field(fields, 1);
    if agent.mtime_ms is Some {
        assert(fields[2].0 == "mtime_ms"@);
        lemma_field(fields, 2);
        if agent.stop_reason is Some {
            assert(fields[3].0 == "stop_reason"@);
            lemma_field(fields, 3);
        } else {
            lemma_no_field(fields, "stop_reason"@);
        }
    } else {
        lemma_no_field(fields, "mtime_ms"@);
        if agent.stop_reason is Some {
            assert(fields[2].0 == "stop_reason"@);
            lemma_field(fields, 2);
        } else {
            lemma_no_field(fields, "stop_reason"@);
        }
    }
}

/// What is told of sub-agents, shells and managed agents is told of all that the session
/// has, in their order, and the shells are told without their output. Nothing is told of
/// a session that is gone but that it has none.
pub proof fn law_what_runs_beside_is_told(sessions: Seq<SolutionSession>, id: Seq<char>)
    ensures
        ({
            let subagents = present_subagents(sessions, id);
            let told = subagents_changed_tree(id, subagents);
            &&& told.field("session_id"@) == Some(JsonTree::Text(id))
            &&& told.array_field("active_subagents"@) is Some
            &&& told.array_field("active_subagents"@)->0.len() == subagents.len()
            &&& forall|i: int|
                0 <= i < subagents.len() ==> #[trigger] told.array_field("active_subagents"@)->0[i]
                    == subagent_tree(subagents[i])
            &&& find_session(sessions, id) is None ==> subagents.len() == 0
            &&& find_session(sessions, id) matches Some(k) ==> subagents
                == crate::mcp::sessions::subagents_of(
                sessions[k].active_subagent_order@,
                sessions[k].active_subagents@,
            )
        }),
        ({
            let shells = present_shells(sessions, id);
            let told = shells_changed_tree(id, shells);
            &&& told.field("session_id"@) == Some(JsonTree::Text(id))
            &&& told.array_field("background_shells"@) is Some
            &&& told.array_field("background_shells"@)->0.len() == shells.len()
            &&& forall|i: int|
                0 <= i < shells.len() ==> #[trigger] told.array_field("background_shells"@)->0[i]
                    == shell_tree(shells[i])
            &&& find_session(sessions, id) is None ==> shells.len() == 0
            &&& find_session(sessions, id) matches Some(k) ==> shells
                == crate::mcp::sessions::shells_of(
                sessions[k].background_shell_order@,
                sessions[k].background_shells@,
                false,
            )
        }),
        ({
            let agents = present_agents(sessions, id);
            let told = agents_changed_tree(id, agents);
            &&& told.field("session_id"@) == Some(JsonTree::Text(id))
            &&& told.array_field("background_agents"@) is Some
            &&& told.array_field("background_agents"@)->0.len() == agents.len()
            &&& forall|i: int|
                0 <= i < agents.len() ==> #[trigger] told.array_field("background_agents"@)->0[i]
                    == agent_tree(agents[i])
            &&& find_session(sessions, id) is None ==> agents.len() == 0
            &&& find_session(sessions, id) matches Some(k) ==> agents
                == crate::mcp::sessions::agents_of(
                sessions[k].background_agent_order@,
                sessions[k].background_agents@,
            )
        }),
{
    lemma_keys();
    let a = subagents_changed_tree(id, present_subagents(sessions, id))->Object_0;
    lemma_field(a, 0);
    lemma_field(a, 1);
    let b = shells_changed_tree(id, present_shells(sessions, id))->Object_0;
    lemma_field(b, 0);
    lemma_field(b, 1);
    let c = agents_changed_tree(id, present_agents(sessions, id))->Object_0;
    lemma_field(c, 0);
    lemma_field(c, 1);
}

/// Every event but a change of the tabs is told, under its own name and with what
/// belongs to it.
pub proof fn law_events_are_told_by_name(
    event: SolutionAgentStoreEvent,
    sessions: Seq<SolutionSession>,
    hint: Seq<char>,
)
    ensures
        ({
            let told = notification_of(event, sessions, hint);
            let (name, tree) = told->0;
            &&& told is None <==> event is TabsChanged
            &&& event matches SolutionAgentStoreEvent::SessionCreated { id, parent_session_id } ==> {
                &&& name == "agent_session_created"@
                &&& tree.field("session_id"@) == Some(JsonTree::Text(id@))
                &&& parent_session_id is None ==> tree.field("parent_session_id"@) == Some(
                    JsonTree::Null,
                )
                &&& parent_session_id matches Some(parent) ==> tree.field(
                    "parent_session_id"@,
                ) == Some(JsonTree::Text(parent@))
            }
            &&& event matches SolutionAgentStoreEvent::SessionClosed(id) ==> name
                == "agent_session_closed"@ && tree.field("session_id"@) == Some(
                JsonTree::Text(id@),
            )
            &&& event matches SolutionAgentStoreEvent::SessionStateChanged(id) ==> name
                == "agent_session_state_changed"@ && tree.field("session_id"@) == Some(
                JsonTree::Text(id@),
            )
            &&& event matches SolutionAgentStoreEvent::SessionTitleChanged(id) ==> name
                == "agent_session_title_changed"@ && tree.field("session_id"@) == Some(
                JsonTree::Text(id@),
            )
            &&& event matches SolutionAgentStoreEvent::SessionMessageAppended(id, index)
                ==> name == "agent_session_message_appended"@ && tree
                == message_appended_tree(
                id@,
                index as nat,
                appended_entry(sessions, id@, index as int),
            )
            &&& event matches SolutionAgentStoreEvent::SessionQueueChanged(id) ==> name
                == "agent_session_queue_changed"@ && tree == queue_changed_tree(
                id@,
                waiting_bundles(sessions, id@),
                hint,
            )
            &&& event matches SolutionAgentStoreEvent::SessionSubagentsChanged(id) ==> name
                == "agent_session_active_subagents_changed"@ && tree == subagents_changed_tree(
                id@,
                present_subagents(sessions, id@),
            )
            &&& event matches SolutionAgentStoreEvent::SessionContextReset { id, context_count }
                ==> name == "agent_session_context_reset"@ && tree.field("session_id"@)
                == Some(JsonTree::Text(id@)) && tree.field("context_count"@) == Some(
                JsonTree::Number(decimal(context_count as nat)),
            )
            &&& event matches SolutionAgentStoreEvent::SessionNotified(id, kind) ==> name
                == "agent_session_notification_sent"@ && tree.field("session_id"@) == Some(
                JsonTree::Text(id@),
            ) && tree.field("kind"@) == Some(JsonTree::Text(notify_text(kind)))
            &&& event matches SolutionAgentStoreEvent::SessionBackgroundAgentsChanged(id)
                ==> name == "agent_session_background_agents_changed"@ && tree
                == agents_changed_tree(id@, present_agents(sessions, id@))
            &&& event matches SolutionAgentStoreEvent::SessionBackgroundShellsChanged(id)
                ==> name == "agent_session_background_shells_changed"@ && tree
                == shells_changed_tree(id@, present_shells(sessions, id@))
        }),
{
    lemma_keys();
    if let Some((_, tree)) = notification_of(event, sessions, hint) {
        let fields = tree->Object_0;
        if !(event is SessionMessageAppended) {
            lemma_field(fields, 0);
            if fields.len() > 1 {
                assert(fields[1].0 != fields[0].0);
                lemma_field(fields, 1);
            }
        }
    }
}

/// What a session reports is told by different words.
pub proof fn law_reports_are_told_apart(kind: NotifyKind)
    ensures
        kind is Completed ==> notify_text(kind) == "completed"@,
        kind is AwaitingInput ==> notify_text(kind) == "awaiting_input"@,
        kind is Errored ==> notify_text(kind) == "errored"@,
{
}

/// The words for roles and states of calls are those of the kinds.
pub proof fn law_words_of_the_wire(role: EntryRoleDto, status: ToolCallStatusDto)
    ensures
        role is User ==> role_text(role) == "user"@,
        role is Assistant ==> role_text(role) == "assistant"@,
        role is ToolCall ==> role_text(role) == "tool_call"@,
        role is Plan ==> role_text(role) == "plan"@,
        status is Pending ==> wire_status_text(status) == "pending"@,
        status is WaitingForConfirmation ==> wire_status_text(status)
            == "waiting_for_confirmation"@,
        status is Running ==> wire_status_text(status) == "running"@,
        status is Done ==> wire_status_text(status) == "done"@,
        status is Failed ==> wire_status_text(status) == "failed"@,
        status is Rejected ==> wire_status_text(status) == "rejected"@,
        status is Canceled ==> wire_status_text(status) == "canceled"@,
{
}

/// A state is told by its kind, a turn with its start and a failure with its message.
pub proof fn law_states_are_told(state: SessionStateDtoView)
    ensures
        ({
            let told = JsonTree::Object(state_fields(state));
            &&& state is Idle ==> told.field("kind"@) == Some(JsonTree::Text("idle"@))
            &&& state is Running ==> told.field("kind"@) == Some(JsonTree::Text("running"@))
            &&& state is Stopping ==> told.field("kind"@) == Some(JsonTree::Text("stopping"@))
            &&& state is AwaitingInput ==> told.field("kind"@) == Some(
                JsonTree::Text("awaiting_input"@),
            )
            &&& state is Errored ==> told.field("kind"@) == Some(JsonTree::Text("errored"@))
            &&& state matches SessionStateDtoView::Running { started_at_ms } ==> told.field(
                "started_at_ms"@,
            ) == Some(JsonTree::Number(signed_decimal(started_at_ms as int)))
            &&& state matches SessionStateDtoView::Stopping { started_at_ms } ==> told.field(
                "started_at_ms"@,
            ) == Some(JsonTree::Number(signed_decimal(started_at_ms as int)))
            &&& state matches SessionStateDtoView::Errored { message } ==> told.field("message"@)
                == Some(JsonTree::Text(message))
        }),
{
    lemma_keys();
    reveal_strlit("message");
    let fields = state_fields(state);
    lemma_field(fields, 0);
    if fields.len() > 1 {
        assert(fields[1].0 != fields[0].0) by {
            assert("message"@.len() == 7);
        }
        lemma_field(fields, 1);
    }
}

/// The first figures of a session are always told, and further ones exactly if two
/// seconds have passed since it was last told.
pub proof fn law_figures_are_told_every_two_seconds(last: u64, now: u64)
    ensures
        is_due(None, now),
        is_due(Some(last), now) <==> now - last >= 2_000_000_000,
{
}

} // verus!
