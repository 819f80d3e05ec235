//! What is kept of a conversation across a restart.
use crate::cold_persistence::{kept, restored};
use crate::json::pretty_json;
use crate::text::{is_blank, lemma_blank_iff_trimmed_empty};
use crate::thread::AgentThreadEntryView;
use crate::tool_output::content_summary;
use vstd::prelude::*;

verus! {

/// A message of the user comes back with its id, its text and all its blocks.
pub proof fn law_user_messages_come_back(entry: AgentThreadEntryView)
    requires
        entry is UserMessage,
    ensures
        kept(entry) is Some,
        ({
            let was = entry->UserMessage_0;
            let is = restored(kept(entry)->0)->UserMessage_0;
            &&& restored(kept(entry)->0) is UserMessage
            &&& is.id == was.id
            &&& is.content.source() == was.content.source()
            &&& is.chunks == was.chunks
        }),
{
}

/// A message of the assistant comes back with all its chunks, in their order: what was
/// said is said and what was thought is thought.
pub proof fn law_assistant_messages_come_back(entry: AgentThreadEntryView)
    requires
        entry is AssistantMessage,
    ensures
        kept(entry) is Some,
        ({
            let was = entry->AssistantMessage_0.chunks;
            let is = restored(kept(entry)->0)->AssistantMessage_0.chunks;
            &&& restored(kept(entry)->0) is AssistantMessage
            &&& is.len() == was.len()
            &&& forall|i: int|
                0 <= i < was.len() ==> {
                    &&& (#[trigger] is[i]) is Thought <==> was[i] is Thought
                    &&& crate::laws::rendering::chunk_source_of(is[i])
                        == crate::laws::rendering::chunk_source_of(was[i])
                }
        }),
{
}

/// A tool call that has ended comes back as it was: with its id, title, kind and
/// outcome, what went into it and what came out, and what was shown of that. Only the
/// places that it touched and the time at which it started are forgotten.
pub proof fn law_ended_calls_come_back(entry: AgentThreadEntryView)
    requires
        entry is ToolCall,
        kept(entry) is Some,
    ensures
        ({
            let was = entry->ToolCall_0;
            let is = restored(kept(entry)->0)->ToolCall_0;
            &&& restored(kept(entry)->0) is ToolCall
            &&& is.id == was.id
            &&& is.label == was.label
            &&& is.kind == was.kind
            &&& is.status == was.status
            &&& is.raw_input == was.raw_input
            &&& is.raw_output == was.raw_output
            &&& is.tool_name == was.tool_name
            &&& is.locations.len() == 0
            &&& is.status_started_at is None
            &&& is.content.len() == was.content.len()
            &&& forall|i: int|
                0 <= i < was.content.len() ==> content_summary(#[trigger] is.content[i], is.raw_output)
                    == content_summary(was.content[i], was.raw_output)
        }),
{
}

/// The input of a call comes back as a block of JSON, unless there is none to show.
pub proof fn law_inputs_come_back_as_blocks(entry: AgentThreadEntryView, pretty: Seq<char>)
    requires
        entry is ToolCall,
        kept(entry) is Some,
    ensures
        ({
            let was = entry->ToolCall_0;
            let shown = restored(kept(entry)->0)->ToolCall_0.raw_input_markdown;
            &&& was.raw_input is None ==> shown is None
            &&& was.raw_input is Some && pretty_json(was.raw_input->0) is None ==> shown is None
            &&& was.raw_input is Some && pretty_json(was.raw_input->0) == Some(pretty) && is_blank(
                pretty,
            ) ==> shown is None
            &&& was.raw_input is Some && pretty_json(was.raw_input->0) == Some(pretty) && !is_blank(
                pretty,
            ) ==> shown == Some("```json\n"@ + pretty + "\n```"@)
        }),
{
    lemma_blank_iff_trimmed_empty(pretty);
}

/// A call is kept exactly if it has ended.
pub proof fn law_ended_calls_are_kept(entry: AgentThreadEntryView)
    requires
        entry is ToolCall,
    ensures
        ({
            let status = entry->ToolCall_0.status;
            kept(entry) is Some <==> status is Completed || status is Failed || status is Rejected
                || status is Canceled
        }),
{
}

/// A plan comes back with all its items, in their order and as far as they had come.
pub proof fn law_plans_come_back(entry: AgentThreadEntryView)
    requires
        entry is CompletedPlan,
    ensures
        kept(entry) is Some,
        ({
            let was = entry->CompletedPlan_0;
            let is = restored(kept(entry)->0)->CompletedPlan_0;
            &&& restored(kept(entry)->0) is CompletedPlan
            &&& is.len() == was.len()
            &&& forall|i: int|
                0 <= i < was.len() ==> (#[trigger] is[i]).content == was[i].content
                    && is[i].priority == was[i].priority && is[i].status == was[i].status
        }),
{
}

/// What is kept of a call is what it is, and of each item what was shown.
pub proof fn law_calls_are_kept_as_they_are(entry: AgentThreadEntryView)
    requires
        entry is ToolCall,
        kept(entry) is Some,
    ensures
        ({
            let was = entry->ToolCall_0;
            let is = kept(entry)->0->Tool_0;
            &&& kept(entry)->0 is Tool
            &&& is.id == was.id
            &&& is.label_md == was.label
            &&& is.status is Completed <==> was.status is Completed
            &&& is.status is Failed <==> was.status is Failed
            &&& is.status is Rejected <==> was.status is Rejected
            &&& is.status is Canceled <==> was.status is Canceled
            &&& is.raw_input == was.raw_input
            &&& is.raw_output == was.raw_output
            &&& is.locations == was.locations
            &&& forall|i: int|
                0 <= i < was.content.len() ==> (#[trigger] is.content[i]).markdown
                    == content_summary(was.content[i], was.raw_output)
        }),
{
}

} // verus!
