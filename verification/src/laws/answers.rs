//! Answers to permission requests, and what an agent beside the session is doing.
use crate::background_agent::{
    blocks_label, message_blocks, row_label, row_stop_reason, tool_label, type_of,
};
use crate::json::JsonTree;
use crate::mcp::conversation::{
    authorization_outcome, authorization_params, call_of, open_transcript,
};
use crate::mcp::dto::AuthorizeToolCallParams;
use crate::mcp::requests::{find_session, requested_session};
use crate::mcp::sessions::wanted_parent;
use crate::model::{debug_text, uuid_value, SolutionSession, ThreadEntryView};
use crate::laws::requests::is_short_id;
use crate::permissions::{buttons_of, first_button, PermissionButtonView};
use crate::thread::ToolCallStatusView;
use vstd::prelude::*;

verus! {

/// Whether an entry is the tool call with the given id.
pub open spec fn is_call(entry: ThreadEntryView, id: Seq<char>) -> bool {
    entry.entry is ToolCall && entry.entry->ToolCall_0.id == id
}

/// The call that is found is the first one with the id. None is found exactly where no
/// entry is such a call.
pub proof fn law_calls_are_found_by_id(entries: Seq<ThreadEntryView>, id: Seq<char>)
    ensures
        match call_of(entries, id) {
            Some(call) => exists|i: int|
                0 <= i < entries.len() && #[trigger] is_call(entries[i], id)
                    && entries[i].entry->ToolCall_0 == call && forall|k: int|
                    0 <= k < i ==> !#[trigger] is_call(entries[k], id),
            None => forall|k: int| 0 <= k < entries.len() ==> !#[trigger] is_call(entries[k], id),
        },
    decreases entries.len(),
{
    if entries.len() > 0 {
        let rest = entries.drop_first();
        law_calls_are_found_by_id(rest, id);
        if is_call(entries[0], id) {
            assert(call_of(entries, id) == Some(entries[0].entry->ToolCall_0));
        } else {
            assert(call_of(entries, id) == call_of(rest, id));
            match call_of(rest, id) {
                Some(call) => {
                    let i = choose|i: int|
                        0 <= i < rest.len() && #[trigger] is_call(rest[i], id)
                            && rest[i].entry->ToolCall_0 == call && forall|k: int|
                            0 <= k < i ==> !#[trigger] is_call(rest[k], id);
                    assert forall|k: int| 0 <= k < i + 1 implies !#[trigger] is_call(
                        entries[k],
                        id,
                    ) by {
                        if k > 0 {
                            assert(!is_call(rest[k - 1], id));
                        }
                    }
                    assert(is_call(entries[i + 1], id));
                },
                None => {
                    assert forall|k: int| 0 <= k < entries.len() implies !#[trigger] is_call(
                        entries[k],
                        id,
                    ) by {
                        if k > 0 {
                            assert(!is_call(rest[k - 1], id));
                        }
                    }
                },
            }
        }
    }
}

/// The button that an option id picks is the first one with the id.
proof fn lemma_picked(buttons: Seq<PermissionButtonView>, option_id: Seq<char>)
    ensures
        match crate::mcp::conversation::button_with(buttons, option_id) {
            Some(button) => exists|i: int|
                0 <= i < buttons.len() && #[trigger] buttons[i] == button && button.option_id
                    == option_id && forall|k: int|
                    0 <= k < i ==> (#[trigger] buttons[k]).option_id != option_id,
            None => forall|k: int|
                0 <= k < buttons.len() ==> (#[trigger] buttons[k]).option_id != option_id,
        },
    decreases buttons.len(),
{
    if buttons.len() > 0 && buttons[0].option_id != option_id {
        let rest = buttons.drop_first();
        lemma_picked(rest, option_id);
        match crate::mcp::conversation::button_with(rest, option_id) {
            Some(button) => {
                let i = choose|i: int|
                    0 <= i < rest.len() && #[trigger] rest[i] == button && button.option_id
                        == option_id && forall|k: int|
                        0 <= k < i ==> (#[trigger] rest[k]).option_id != option_id;
                assert forall|k: int| 0 <= k < i + 1 implies (#[trigger] buttons[k]).option_id
                    != option_id by {
                    if k > 0 {
                        assert(rest[k - 1] == buttons[k]);
                    }
                }
                assert(buttons[i + 1] == button);
            },
            None => {
                assert forall|k: int| 0 <= k < buttons.len() implies (
                #[trigger] buttons[k]).option_id != option_id by {
                    if k > 0 {
                        assert(rest[k - 1] == buttons[k]);
                    }
                }
            },
        }
    }
}

/// An answer is that of the first button with the option id, on a call that waits. It is
/// refused, with the reason, exactly where there is no such call, the call does not
/// wait, or no button has the id.
pub proof fn law_answers_are_those_on_offer(
    entries: Seq<ThreadEntryView>,
    tool_call_id: Seq<char>,
    option_id: Seq<char>,
)
    ensures
        ({
            let answer = authorization_outcome(entries, tool_call_id, option_id);
            match call_of(entries, tool_call_id) {
                None => answer is Err && answer->Err_0 == "tool_call_not_found: "@ + tool_call_id,
                Some(call) => {
                    &&& !(call.status is WaitingForConfirmation) ==> answer is Err && answer->Err_0
                        == "not_awaiting_confirmation: "@ + tool_call_id
                    &&& call.status matches ToolCallStatusView::WaitingForConfirmation { options }
                        ==> {
                        let buttons = buttons_of(options);
                        match answer {
                            Ok(outcome) => exists|i: int|
                                0 <= i < buttons.len() && (#[trigger] buttons[i]).option_id
                                    == option_id && outcome == buttons[i].outcome() && forall|k: int|
                                    0 <= k < i ==> (#[trigger] buttons[k]).option_id != option_id,
                            Err(message) => message == "unknown_option: "@ + option_id && forall|
                                k: int,
                            |
                                0 <= k < buttons.len() ==> (#[trigger] buttons[k]).option_id
                                    != option_id,
                        }
                    }
                },
            }
        }),
{
    if let Some(call) = call_of(entries, tool_call_id) {
        if let ToolCallStatusView::WaitingForConfirmation { options } = call.status {
            lemma_picked(buttons_of(options), option_id);
        }
    }
}

/// The first button of a kind is of the kind, and none before it is.
pub proof fn law_first_button_is_the_first(
    buttons: Seq<PermissionButtonView>,
    pred: spec_fn(PermissionButtonView) -> bool,
)
    ensures
        match first_button(buttons, pred) {
            Some(button) => exists|i: int|
                0 <= i < buttons.len() && #[trigger] buttons[i] == button && pred(button)
                    && forall|k: int| 0 <= k < i ==> !pred(#[trigger] buttons[k]),
            None => forall|k: int| 0 <= k < buttons.len() ==> !pred(#[trigger] buttons[k]),
        },
    decreases buttons.len(),
{
    if buttons.len() > 0 && !pred(buttons[0]) {
        let rest = buttons.drop_first();
        law_first_button_is_the_first(rest, pred);
        match first_button(rest, pred) {
            Some(button) => {
                let i = choose|i: int|
                    0 <= i < rest.len() && #[trigger] rest[i] == button && pred(button)
                        && forall|k: int| 0 <= k < i ==> !pred(#[trigger] rest[k]);
                assert forall|k: int| 0 <= k < i + 1 implies !pred(#[trigger] buttons[k]) by {
                    if k > 0 {
                        assert(rest[k - 1] == buttons[k]);
                    }
                }
                assert(buttons[i + 1] == button);
            },
            None => {
                assert forall|k: int| 0 <= k < buttons.len() implies !pred(
                    #[trigger] buttons[k],
                ) by {
                    if k > 0 {
                        assert(rest[k - 1] == buttons[k]);
                    }
                }
            },
        }
    }
}

/// An answer names a session, a call and an option. What is missing first is told.
pub proof fn law_answers_name_all_three(input: AuthorizeToolCallParams)
    ensures
        ({
            let r = authorization_params(input);
            &&& input.session_id@.len() == 0 ==> r == Err::<Seq<char>, Seq<char>>(
                "invalid_params: session_id is required"@,
            )
            &&& input.session_id@.len() > 0 && input.tool_call_id@.len() == 0 ==> r == Err::<
                Seq<char>,
                Seq<char>,
            >("invalid_params: tool_call_id is required"@)
            &&& input.session_id@.len() > 0 && input.tool_call_id@.len() > 0
                && input.option_id@.len() == 0 ==> r == Err::<Seq<char>, Seq<char>>(
                "invalid_params: option_id is required"@,
            )
            &&& input.session_id@.len() > 0 && input.tool_call_id@.len() > 0
                && input.option_id@.len() > 0 ==> r == requested_session(input.session_id@)
        }),
{
    reveal_strlit("invalid_params: session_id is required");
    reveal_strlit("invalid_params: tool_call_id is required");
    reveal_strlit("invalid_params: option_id is required");
    reveal_strlit("invalid_params: ");
    reveal_strlit("session_id");
    reveal_strlit("tool_call_id");
    reveal_strlit("option_id");
    reveal_strlit(" is required");
    assert("invalid_params: "@ + "session_id"@ + " is required"@
        =~= "invalid_params: session_id is required"@);
    assert("invalid_params: "@ + "tool_call_id"@ + " is required"@
        =~= "invalid_params: tool_call_id is required"@);
    assert("invalid_params: "@ + "option_id"@ + " is required"@
        =~= "invalid_params: option_id is required"@);
}

/// A transcript is open exactly where the session is there and its agent runs.
pub proof fn law_open_transcripts_have_an_agent(sessions: Seq<SolutionSession>, id: Seq<char>)
    ensures
        open_transcript(sessions, id) is Some <==> find_session(sessions, id) is Some
            && sessions[find_session(sessions, id)->0].thread() is Some,
        open_transcript(sessions, id) is Some ==> open_transcript(sessions, id) == find_session(
            sessions,
            id,
        ),
{
}

/// No parent is wanted where none is named, and one that is named must be an id.
pub proof fn law_wanted_parent_is_the_one_named(text: Seq<char>)
    ensures
        wanted_parent(None) == Ok::<Option<Seq<char>>, Seq<char>>(None),
        is_short_id(text) ==> wanted_parent(Some(text)) == Ok::<Option<Seq<char>>, Seq<char>>(
            Some(text),
        ),
        !is_short_id(text) && uuid_value(text) is None ==> wanted_parent(Some(text)) == Err::<
            Option<Seq<char>>,
            Seq<char>,
        >("bad parent_session_id: invalid session id: "@ + debug_text(text)),
        !is_short_id(text) && uuid_value(text) is Some ==> wanted_parent(Some(text)) is Ok
            && wanted_parent(Some(text))->Ok_0 is Some,
{
    reveal_strlit("bad parent_session_id: invalid session id: ");
    reveal_strlit("bad parent_session_id: ");
    reveal_strlit("invalid session id: ");
    assert("bad parent_session_id: "@ + ("invalid session id: "@ + debug_text(text))
        =~= "bad parent_session_id: invalid session id: "@ + debug_text(text));
    assert(crate::model::is_session_id(text) == is_short_id(text)) by {
        if is_short_id(text) {
            assert forall|i: int| 0 <= i < text.len() implies crate::model::is_id_char(
                #[trigger] text[i],
            ) by {}
        }
        if crate::model::is_session_id(text) {
            assert forall|i: int| 0 <= i < 8 implies ('a' <= #[trigger] text[i] <= 'z' || '0'
                <= text[i] <= '9') by {
                assert(crate::model::is_id_char(text[i]));
            }
        }
    }
}

/// Of several blocks, the first that uses a tool says what the agent is doing. Where no
/// tool is used the agent is writing.
pub proof fn law_first_tool_says_what_is_done(blocks: Seq<JsonTree>)
    ensures
        (forall|k: int| 0 <= k < blocks.len() ==> type_of(#[trigger] blocks[k]) != "tool_use"@)
            ==> blocks_label(blocks) == "Generating…"@,
        forall|i: int|
            0 <= i < blocks.len() && type_of(#[trigger] blocks[i]) == "tool_use"@ && (forall|k: int|
                0 <= k < i ==> type_of(#[trigger] blocks[k]) != "tool_use"@) ==> blocks_label(
                blocks,
            ) == tool_label(blocks[i]),
    decreases blocks.len(),
{
    if blocks.len() > 0 && type_of(blocks[0]) != "tool_use"@ {
        let rest = blocks.drop_first();
        law_first_tool_says_what_is_done(rest);
        if forall|k: int| 0 <= k < blocks.len() ==> type_of(#[trigger] blocks[k]) != "tool_use"@ {
            assert forall|k: int| 0 <= k < rest.len() implies type_of(#[trigger] rest[k])
                != "tool_use"@ by {
                assert(rest[k] == blocks[k + 1]);
            }
        }
        assert forall|i: int|
            0 <= i < blocks.len() && type_of(#[trigger] blocks[i]) == "tool_use"@ && (forall|k: int|
                0 <= k < i ==> type_of(#[trigger] blocks[k]) != "tool_use"@) implies blocks_label(
            blocks,
        ) == tool_label(blocks[i]) by {
            assert(rest[i - 1] == blocks[i]);
            assert forall|k: int| 0 <= k < i - 1 implies type_of(#[trigger] rest[k])
                != "tool_use"@ by {
                assert(rest[k] == blocks[k + 1]);
            }
        }
    }
}

/// A row says that the agent starts, what its message does, or that it is writing.
pub proof fn law_rows_say_what_the_agent_does(row: JsonTree)
    ensures
        row_label(None) == "Generating…"@,
        row.text_field("type"@) == Some("system"@) && row.text_field("subtype"@) == Some("init"@)
            ==> row_label(Some(row)) == "Starting…"@,
        row.text_field("type"@) == Some("assistant"@) && message_blocks(row) is Some ==> row_label(
            Some(row),
        ) == blocks_label(message_blocks(row)->0),
        row.text_field("type"@) == Some("assistant"@) && message_blocks(row) is None ==> row_label(
            Some(row),
        ) == "Generating…"@,
        row.text_field("type"@) == Some("user"@) ==> row_label(Some(row)) == "Generating…"@,
{
    reveal_strlit("assistant");
    reveal_strlit("system");
    reveal_strlit("user");
    assert("assistant"@.len() == 9 && "system"@.len() == 6 && "user"@.len() == 4);
}

/// An agent has stopped exactly if its last row is one of its messages and gives a
/// reason, which is then told.
pub proof fn law_agents_stop_for_a_reason(row: JsonTree, reason: Seq<char>)
    ensures
        row_stop_reason(None) is None,
        row.text_field("type"@) != Some("assistant"@) ==> row_stop_reason(Some(row)) is None,
        row_stop_reason(Some(row)) == Some(reason) <==> reason.len() > 0 && row.text_field("type"@)
            == Some("assistant"@) && row.field("message"@) is Some && row.field(
            "message"@,
        )->0.text_field("stop_reason"@) == Some(reason),
{
    reveal_strlit("assistant");
    assert("assistant"@.len() == 9);
    reveal_strlit("");
}

} // verus!
