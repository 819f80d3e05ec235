//! The names and values by which results are told to clients.
use super::dto::{EntryRoleDto, SessionStateDto, SessionStateDtoView, ToolCallStatusDto};
use crate::json::{
    fields_of, object_value, push_field, signed_value, text_value, value_tree, JsonTree,
};
use crate::text::signed_decimal;
use vstd::prelude::*;
use vstd::string::*;

verus! {

/// The name of a role on the wire.
pub open spec fn role_text(role: EntryRoleDto) -> Seq<char> {
    match role {
        EntryRoleDto::User => "user"@,
        EntryRoleDto::Assistant => "assistant"@,
        EntryRoleDto::ToolCall => "tool_call"@,
        EntryRoleDto::Plan => "plan"@,
    }
}

/// The name of a role on the wire.
pub fn role_name(role: EntryRoleDto) -> (r: &'static str)
    ensures
        r@ == role_text(role),
{
    match role {
        EntryRoleDto::User => "user",
        EntryRoleDto::Assistant => "assistant",
        EntryRoleDto::ToolCall => "tool_call",
        EntryRoleDto::Plan => "plan",
    }
}

/// The name of a status on the wire.
pub open spec fn wire_status_text(status: ToolCallStatusDto) -> Seq<char> {
    match status {
        ToolCallStatusDto::Pending => "pending"@,
        ToolCallStatusDto::WaitingForConfirmation => "waiting_for_confirmation"@,
        ToolCallStatusDto::Running => "running"@,
        ToolCallStatusDto::Done => "done"@,
        ToolCallStatusDto::Failed => "failed"@,
        ToolCallStatusDto::Rejected => "rejected"@,
        ToolCallStatusDto::Canceled => "canceled"@,
    }
}

/// The name of a status on the wire.
pub fn status_name(status: ToolCallStatusDto) -> (r: &'static str)
    ensures
        r@ == wire_status_text(status),
{
    match status {
        ToolCallStatusDto::Pending => "pending",
        ToolCallStatusDto::WaitingForConfirmation => "waiting_for_confirmation",
        ToolCallStatusDto::Running => "running",
        ToolCallStatusDto::Done => "done",
        ToolCallStatusDto::Failed => "failed",
        ToolCallStatusDto::Rejected => "rejected",
        ToolCallStatusDto::Canceled => "canceled",
    }
}

/// The fields of a state: its kind, and since when or why where that matters.
pub open spec fn state_fields(state: SessionStateDtoView) -> Seq<(Seq<char>, JsonTree)> {
    match state {
        SessionStateDtoView::Idle => seq![("kind"@, JsonTree::Text("idle"@))],
        SessionStateDtoView::Running { started_at_ms } => seq![
            ("kind"@, JsonTree::Text("running"@)),
            ("started_at_ms"@, JsonTree::Number(signed_decimal(started_at_ms as int))),
        ],
        SessionStateDtoView::Stopping { started_at_ms } => seq![
            ("kind"@, JsonTree::Text("stopping"@)),
            ("started_at_ms"@, JsonTree::Number(signed_decimal(started_at_ms as int))),
        ],
        SessionStateDtoView::AwaitingInput => seq![("kind"@, JsonTree::Text("awaiting_input"@))],
        SessionStateDtoView::Errored { message } => seq![
            ("kind"@, JsonTree::Text("errored"@)),
            ("message"@, JsonTree::Text(message)),
        ],
    }
}

/// A state on the wire.
pub fn state_value(state: &SessionStateDto) -> (r: serde_json::Value)
    ensures
        value_tree(r) == JsonTree::Object(state_fields(state.deep_view())),
{
    let mut fields: Vec<(String, serde_json::Value)> = Vec::new();
    assert(fields_of(fields@) =~= Seq::<(Seq<char>, JsonTree)>::empty());
    let kind = match state {
        SessionStateDto::Idle => "idle",
        SessionStateDto::Running { .. } => "running",
        SessionStateDto::Stopping { .. } => "stopping",
        SessionStateDto::AwaitingInput => "awaiting_input",
        SessionStateDto::Errored { .. } => "errored",
    };
    push_field(&mut fields, "kind", text_value(kind.to_owned()));
    match state {
        SessionStateDto::Running { started_at_ms } => {
            push_field(&mut fields, "started_at_ms", signed_value(*started_at_ms));
        },
        SessionStateDto::Stopping { started_at_ms } => {
            push_field(&mut fields, "started_at_ms", signed_value(*started_at_ms));
        },
        SessionStateDto::Errored { message } => {
            push_field(&mut fields, "message", text_value(message.clone()));
        },
        _ => {},
    }
    proof {
        reveal_strlit("kind");
        reveal_strlit("started_at_ms");
        reveal_strlit("message");
        assert("kind"@.len() != "started_at_ms"@.len());
        assert("kind"@.len() != "message"@.len());
        assert(fields_of(fields@) =~= state_fields(state.deep_view()));
    }
    object_value(fields)
}

} // verus!
