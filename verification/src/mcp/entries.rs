//! What a client is told of the entries of a conversation.
use super::dto::{
    EntryImage, EntryImageView, EntryRoleDto, EntrySummary, EntrySummaryView, PlanSummary,
    PlanSummaryView, ToolCallAuthOption, ToolCallAuthOptionView, ToolCallStatusDto,
    ToolCallSummary, ToolCallSummaryView,
};
use crate::conversation_render::{
    clean_assistant_message_text, literal_count, with_linked_literals,
};
use crate::duplicate::push_value;
use crate::images::{base64_text, encode_base64};
use crate::json::{compact_json, print_value, JsonTree};
use crate::model::{ThreadEntry, ThreadEntryView};
use crate::permissions::{buttons_of, is_allow_kind, permission_buttons, PermissionButtonView};
use crate::text::{clipped, truncate_preview};
use crate::thread::{
    option_tree, AgentThreadEntry, AgentThreadEntryView, AssistantMessageChunk,
    AssistantMessageChunkView, ContentBlock, ContentBlockView, PermissionOptionKind, PlanEntry,
    PlanEntryView, PromptBlock, PromptBlockView, PromptContent, PromptContentView, ToolCall,
    ToolCallContent, ToolCallContentView, ToolCallStatus, ToolCallStatusView, ToolCallView,
};
use vstd::prelude::*;
use vstd::string::*;

verus! {

/// How many characters of an entry a preview shows.
pub const ENTRY_PREVIEW_MAX_CHARS: usize = 200;

/// How many characters of a tool call's arguments or result a preview shows.
pub const FIELD_PREVIEW_MAX_CHARS: usize = 500;

/// Who an entry is from.
pub open spec fn role_of(entry: AgentThreadEntryView) -> EntryRoleDto {
    match entry {
        AgentThreadEntryView::UserMessage(_) => EntryRoleDto::User,
        AgentThreadEntryView::AssistantMessage(_) => EntryRoleDto::Assistant,
        AgentThreadEntryView::ToolCall(_) => EntryRoleDto::ToolCall,
        AgentThreadEntryView::CompletedPlan(_) => EntryRoleDto::Plan,
    }
}

/// Who an entry is from.
pub fn entry_role(entry: &AgentThreadEntry) -> (r: EntryRoleDto)
    ensures
        r == role_of(entry.deep_view()),
{
    match entry {
        AgentThreadEntry::UserMessage(_) => EntryRoleDto::User,
        AgentThreadEntry::AssistantMessage(_) => EntryRoleDto::Assistant,
        AgentThreadEntry::ToolCall(_) => EntryRoleDto::ToolCall,
        AgentThreadEntry::CompletedPlan(_) => EntryRoleDto::Plan,
    }
}

/// The status of a tool call on the wire.
pub open spec fn wire_status(status: ToolCallStatusView) -> ToolCallStatusDto {
    match status {
        ToolCallStatusView::Pending => ToolCallStatusDto::Pending,
        ToolCallStatusView::WaitingForConfirmation { .. } => {
            ToolCallStatusDto::WaitingForConfirmation
        },
        ToolCallStatusView::InProgress => ToolCallStatusDto::Running,
        ToolCallStatusView::Completed => ToolCallStatusDto::Done,
        ToolCallStatusView::Failed => ToolCallStatusDto::Failed,
        ToolCallStatusView::Rejected => ToolCallStatusDto::Rejected,
        ToolCallStatusView::Canceled => ToolCallStatusDto::Canceled,
    }
}

/// The status of a tool call on the wire.
pub fn tool_call_status_dto(status: &ToolCallStatus) -> (r: ToolCallStatusDto)
    ensures
        r == wire_status(status.deep_view()),
{
    match status {
        ToolCallStatus::Pending => ToolCallStatusDto::Pending,
        ToolCallStatus::WaitingForConfirmation { .. } => ToolCallStatusDto::WaitingForConfirmation,
        ToolCallStatus::InProgress => ToolCallStatusDto::Running,
        ToolCallStatus::Completed => ToolCallStatusDto::Done,
        ToolCallStatus::Failed => ToolCallStatusDto::Failed,
        ToolCallStatus::Rejected => ToolCallStatusDto::Rejected,
        ToolCallStatus::Canceled => ToolCallStatusDto::Canceled,
    }
}

/// How the kind of an answer is spelt on the wire. A kind that is not known is
/// passed off as a rejection.
pub open spec fn kind_text(kind: PermissionOptionKind) -> Seq<char> {
    match kind {
        PermissionOptionKind::AllowOnce => "allow_once"@,
        PermissionOptionKind::AllowAlways => "allow_always"@,
        PermissionOptionKind::RejectOnce => "reject_once"@,
        PermissionOptionKind::RejectAlways => "reject_always"@,
        PermissionOptionKind::Other => "reject_once"@,
    }
}

/// How the kind of an answer is spelt on the wire.
pub fn permission_kind_str(kind: PermissionOptionKind) -> (r: &'static str)
    ensures
        r@ == kind_text(kind),
{
    match kind {
        PermissionOptionKind::AllowOnce => "allow_once",
        PermissionOptionKind::AllowAlways => "allow_always",
        PermissionOptionKind::RejectOnce => "reject_once",
        PermissionOptionKind::RejectAlways => "reject_always",
        PermissionOptionKind::Other => "reject_once",
    }
}

/// The images among the blocks of a prompt: media type and base64 data.
pub open spec fn prompt_images(blocks: Seq<PromptBlockView>) -> Seq<(Seq<char>, Seq<char>)>
    decreases blocks.len(),
{
    if blocks.len() == 0 {
        Seq::empty()
    } else {
        let before = prompt_images(blocks.drop_last());
        match blocks.last().content {
            PromptContentView::Image { data, mime_type } => before.push((mime_type, data)),
            _ => before,
        }
    }
}

/// `before` and the image of `block`, if it is one.
pub open spec fn with_block_image(
    before: Seq<(Seq<char>, Seq<char>)>,
    block: ContentBlockView,
) -> Seq<(Seq<char>, Seq<char>)> {
    match block {
        ContentBlockView::Image { image, .. } => before.push(
            (image.mime_type, base64_text(image.bytes)),
        ),
        _ => before,
    }
}

/// The block of a chunk.
pub open spec fn chunk_block(chunk: AssistantMessageChunkView) -> ContentBlockView {
    match chunk {
        AssistantMessageChunkView::Message { block } => block,
        AssistantMessageChunkView::Thought { block } => block,
    }
}

/// The images of an assistant message.
pub open spec fn chunk_images(chunks: Seq<AssistantMessageChunkView>) -> Seq<(Seq<char>, Seq<char>)>
    decreases chunks.len(),
{
    if chunks.len() == 0 {
        Seq::empty()
    } else {
        with_block_image(chunk_images(chunks.drop_last()), chunk_block(chunks.last()))
    }
}

/// The images of what a tool call produced.
pub open spec fn content_images(content: Seq<ToolCallContentView>) -> Seq<(Seq<char>, Seq<char>)>
    decreases content.len(),
{
    if content.len() == 0 {
        Seq::empty()
    } else {
        match content.last() {
            ToolCallContentView::ContentBlock(block) => with_block_image(
                content_images(content.drop_last()),
                block,
            ),
            _ => content_images(content.drop_last()),
        }
    }
}

/// The images of an entry: media type and base64 data, in order.
pub open spec fn entry_images(entry: AgentThreadEntryView) -> Seq<(Seq<char>, Seq<char>)> {
    match entry {
        AgentThreadEntryView::UserMessage(message) => prompt_images(message.chunks),
        AgentThreadEntryView::AssistantMessage(message) => chunk_images(message.chunks),
        AgentThreadEntryView::ToolCall(call) => content_images(call.content),
        AgentThreadEntryView::CompletedPlan(_) => Seq::empty(),
    }
}

/// How many images an entry holds.
pub open spec fn image_count(entry: AgentThreadEntryView) -> nat {
    entry_images(entry).len()
}

/// Images with the numbers from `base` on.
pub open spec fn numbered(images: Seq<(Seq<char>, Seq<char>)>, base: nat) -> Seq<EntryImageView> {
    Seq::new(
        images.len(),
        |k: int|
            EntryImageView {
                index: (base + k) as usize,
                mime_type: images[k].0,
                data_base64: images[k].1,
            },
    )
}

/// Counts the images of an entry.
pub fn count_images_in_entry(entry: &AgentThreadEntry) -> (r: usize)
    ensures
        r == image_count(entry.deep_view()),
{
    match entry {
        AgentThreadEntry::UserMessage(message) => {
            let ghost all = message.chunks.deep_view();
            let mut count: usize = 0;
            let mut i: usize = 0;
            while i < message.chunks.len()
                invariant
                    i <= message.chunks@.len(),
                    all == message.chunks.deep_view(),
                    count <= i,
                    count == prompt_images(all.take(i as int)).len(),
                decreases message.chunks@.len() - i,
            {
                assert(all[i as int] == message.chunks@[i as int].deep_view());
                assert(all.take(i as int + 1).drop_last() =~= all.take(i as int));
                if let PromptContent::Image { .. } = &message.chunks[i].content {
                    count += 1;
                }
                i += 1;
            }
            assert(all.take(i as int) =~= all);
            count
        },
        AgentThreadEntry::AssistantMessage(message) => {
            let ghost all = message.chunks.deep_view();
            let mut count: usize = 0;
            let mut i: usize = 0;
            while i < message.chunks.len()
                invariant
                    i <= message.chunks@.len(),
                    all == message.chunks.deep_view(),
                    count <= i,
                    count == chunk_images(all.take(i as int)).len(),
                decreases message.chunks@.len() - i,
            {
                assert(all[i as int] == message.chunks@[i as int].deep_view());
                assert(all.take(i as int + 1).drop_last() =~= all.take(i as int));
                let block = match &message.chunks[i] {
                    AssistantMessageChunk::Message { block } => block,
                    AssistantMessageChunk::Thought { block } => block,
                };
                if let ContentBlock::Image { .. } = block {
                    count += 1;
                }
                i += 1;
            }
            assert(all.take(i as int) =~= all);
            count
        },
        AgentThreadEntry::ToolCall(call) => {
            let ghost all = call.content.deep_view();
            let mut count: usize = 0;
            let mut i: usize = 0;
            while i < call.content.len()
                invariant
                    i <= call.content@.len(),
                    all == call.content.deep_view(),
                    count <= i,
                    count == content_images(all.take(i as int)).len(),
                decreases call.content@.len() - i,
            {
                assert(all[i as int] == call.content@[i as int].deep_view());
                assert(all.take(i as int + 1).drop_last() =~= all.take(i as int));
                if let ToolCallContent::ContentBlock(block) = &call.content[i] {
                    if let ContentBlock::Image { .. } = block {
                        count += 1;
                    }
                }
                i += 1;
            }
            assert(all.take(i as int) =~= all);
            count
        },
        AgentThreadEntry::CompletedPlan(_) => 0,
    }
}

/// Adds an image with the number that is next.
fn push_image(out: &mut Vec<EntryImage>, base: usize, mime_type: String, data_base64: String, Ghost(
    images,
): Ghost<Seq<(Seq<char>, Seq<char>)>>)
    requires
        old(out).deep_view() == numbered(images, base as nat),
        base + images.len() <= usize::MAX,
    ensures
        final(out).deep_view() == numbered(images.push((mime_type@, data_base64@)), base as nat),
{
    assert(out@.len() == out.deep_view().len());
    let index: usize = base + out.len();
    push_value(out, EntryImage { index, mime_type, data_base64 });
    assert(out.deep_view() =~= numbered(images.push((mime_type@, data_base64@)), base as nat));
}

/// There are no more images among the first items than among all.
proof fn lemma_prompt_images_grow(blocks: Seq<PromptBlockView>, i: int)
    requires
        0 <= i <= blocks.len(),
    ensures
        prompt_images(blocks.take(i)).len() <= prompt_images(blocks).len(),
    decreases blocks.len(),
{
    if i == blocks.len() {
        assert(blocks.take(i) =~= blocks);
    } else {
        assert(blocks.drop_last().take(i) =~= blocks.take(i));
        lemma_prompt_images_grow(blocks.drop_last(), i);
    }
}

/// There are no more images among the first items than among all.
proof fn lemma_chunk_images_grow(chunks: Seq<AssistantMessageChunkView>, i: int)
    requires
        0 <= i <= chunks.len(),
    ensures
        chunk_images(chunks.take(i)).len() <= chunk_images(chunks).len(),
    decreases chunks.len(),
{
    if i == chunks.len() {
        assert(chunks.take(i) =~= chunks);
    } else {
        assert(chunks.drop_last().take(i) =~= chunks.take(i));
        lemma_chunk_images_grow(chunks.drop_last(), i);
    }
}

/// There are no more images among the first items than among all.
proof fn lemma_content_images_grow(content: Seq<ToolCallContentView>, i: int)
    requires
        0 <= i <= content.len(),
    ensures
        content_images(content.take(i)).len() <= content_images(content).len(),
    decreases content.len(),
{
    if i == content.len() {
        assert(content.take(i) =~= content);
    } else {
        assert(content.drop_last().take(i) =~= content.take(i));
        lemma_content_images_grow(content.drop_last(), i);
    }
}

/// The images of an entry, numbered from the cursor on, which is moved past
/// them.
pub fn extract_images_for_entry(entry: &AgentThreadEntry, image_cursor: &mut usize) -> (r: Vec<
    EntryImage,
>)
    requires
        *old(image_cursor) + image_count(entry.deep_view()) <= usize::MAX,
    ensures
        r.deep_view() == numbered(entry_images(entry.deep_view()), *old(image_cursor) as nat),
        *final(image_cursor) == *old(image_cursor) + image_count(entry.deep_view()),
{
    let base: usize = *image_cursor;
    let mut out: Vec<EntryImage> = Vec::new();
    assert(out.deep_view() =~= numbered(Seq::empty(), base as nat));
    match entry {
        AgentThreadEntry::UserMessage(message) => {
            let ghost all = message.chunks.deep_view();
            let mut i: usize = 0;
            assert(all.take(0) =~= Seq::<PromptBlockView>::empty());
            while i < message.chunks.len()
                invariant
                    i <= message.chunks@.len(),
                    all == message.chunks.deep_view(),
                    base + prompt_images(all).len() <= usize::MAX,
                    out.deep_view() == numbered(prompt_images(all.take(i as int)), base as nat),
                decreases message.chunks@.len() - i,
            {
                assert(all[i as int] == message.chunks@[i as int].deep_view());
                assert(all.take(i as int + 1).drop_last() =~= all.take(i as int));
                proof {
                    lemma_prompt_images_grow(all, i as int);
                    lemma_prompt_images_grow(all, i as int + 1);
                }
                if let PromptContent::Image { data, mime_type } = &message.chunks[i].content {
                    push_image(
                        &mut out,
                        base,
                        mime_type.clone(),
                        data.clone(),
                        Ghost(prompt_images(all.take(i as int))),
                    );
                }
                i += 1;
            }
            assert(all.take(i as int) =~= all);
        },
        AgentThreadEntry::AssistantMessage(message) => {
            let ghost all = message.chunks.deep_view();
            let mut i: usize = 0;
            assert(all.take(0) =~= Seq::<AssistantMessageChunkView>::empty());
            while i < message.chunks.len()
                invariant
                    i <= message.chunks@.len(),
                    all == message.chunks.deep_view(),
                    base + chunk_images(all).len() <= usize::MAX,
                    out.deep_view() == numbered(chunk_images(all.take(i as int)), base as nat),
                decreases message.chunks@.len() - i,
            {
                assert(all[i as int] == message.chunks@[i as int].deep_view());
                assert(all.take(i as int + 1).drop_last() =~= all.take(i as int));
                proof {
                    lemma_chunk_images_grow(all, i as int);
                    lemma_chunk_images_grow(all, i as int + 1);
                }
                let block = match &message.chunks[i] {
                    AssistantMessageChunk::Message { block } => block,
                    AssistantMessageChunk::Thought { block } => block,
                };
                if let ContentBlock::Image { image, .. } = block {
                    assert(image.bytes.deep_view() =~= image.bytes@);
                    push_image(
                        &mut out,
                        base,
                        image.mime_type.clone(),
                        encode_base64(&image.bytes),
                        Ghost(chunk_images(all.take(i as int))),
                    );
                }
                i += 1;
            }
            assert(all.take(i as int) =~= all);
        },
        AgentThreadEntry::ToolCall(call) => {
            let ghost all = call.content.deep_view();
            let mut i: usize = 0;
            assert(all.take(0) =~= Seq::<ToolCallContentView>::empty());
            while i < call.content.len()
                invariant
                    i <= call.content@.len(),
                    all == call.content.deep_view(),
                    base + content_images(all).len() <= usize::MAX,
                    out.deep_view() == numbered(content_images(all.take(i as int)), base as nat),
                decreases call.content@.len() - i,
            {
                assert(all[i as int] == call.content@[i as int].deep_view());
                assert(all.take(i as int + 1).drop_last() =~= all.take(i as int));
                proof {
                    lemma_content_images_grow(all, i as int);
                    lemma_content_images_grow(all, i as int + 1);
                }
                if let ToolCallContent::ContentBlock(block) = &call.content[i] {
                    if let ContentBlock::Image { image, .. } = block {
                        assert(image.bytes.deep_view() =~= image.bytes@);
                        push_image(
                            &mut out,
                            base,
                            image.mime_type.clone(),
                            encode_base64(&image.bytes),
                            Ghost(content_images(all.take(i as int))),
                        );
                    }
                }
                i += 1;
            }
            assert(all.take(i as int) =~= all);
        },
        AgentThreadEntry::CompletedPlan(_) => {},
    }
    assert(out@.len() == out.deep_view().len());
    *image_cursor = base + out.len();
    out
}

/// The start of the JSON of a value; empty where there is none.
pub open spec fn json_preview(tree: Option<JsonTree>) -> Seq<char> {
    match tree {
        Some(tree) => match compact_json(tree) {
            Some(text) => clipped(text, FIELD_PREVIEW_MAX_CHARS as nat),
            None => Seq::empty(),
        },
        None => Seq::empty(),
    }
}

/// The start of a printed JSON value; empty where there is none.
pub fn preview_printed(printed: Option<String>) -> (r: String)
    ensures
        r@ == (match printed {
            Some(text) => clipped(text@, FIELD_PREVIEW_MAX_CHARS as nat),
            None => Seq::empty(),
        }),
{
    match printed {
        Some(text) => truncate_preview(text.as_str(), FIELD_PREVIEW_MAX_CHARS),
        None => String::new(),
    }
}

/// The start of the JSON of a value; empty where there is none.
fn preview_json(value: &Option<serde_json::Value>) -> (r: String)
    ensures
        r@ == json_preview(option_tree(*value)),
{
    match value {
        Some(value) => preview_printed(print_value(value)),
        None => String::new(),
    }
}

/// The answer on the wire that a button stands for.
pub open spec fn auth_option(button: PermissionButtonView) -> ToolCallAuthOptionView {
    ToolCallAuthOptionView {
        option_id: button.option_id,
        label: button.label,
        kind: kind_text(button.kind),
        is_allow: is_allow_kind(button.kind),
    }
}

/// The answers on offer while a call waits for one.
pub open spec fn auth_options(status: ToolCallStatusView) -> Seq<ToolCallAuthOptionView> {
    match status {
        ToolCallStatusView::WaitingForConfirmation { options } => buttons_of(options).map_values(
            |button: PermissionButtonView| auth_option(button),
        ),
        _ => Seq::empty(),
    }
}

/// What a client is told of a tool call.
pub open spec fn call_summary(call: ToolCallView) -> ToolCallSummaryView {
    ToolCallSummaryView {
        tool_call_id: call.id,
        name: match call.tool_name {
            Some(name) => name,
            None => call.label,
        },
        status: wire_status(call.status),
        args_preview: json_preview(call.raw_input),
        result_preview: json_preview(call.raw_output),
        tool_status_started_at_ms: match call.status_started_at {
            Some(started) => Some(started.millis() as i64),
            None => None,
        },
        options: auth_options(call.status),
    }
}

/// The answers on offer while a call waits for one.
fn offer_options(status: &ToolCallStatus) -> (r: Vec<ToolCallAuthOption>)
    ensures
        r.deep_view() == auth_options(status.deep_view()),
{
    let mut out: Vec<ToolCallAuthOption> = Vec::new();
    match status {
        ToolCallStatus::WaitingForConfirmation { options } => {
            let buttons = permission_buttons(options);
            let ghost all = buttons.deep_view();
            let ghost offered = all.map_values(|button: PermissionButtonView| auth_option(button));
            let mut i: usize = 0;
            while i < buttons.len()
                invariant
                    i <= buttons@.len(),
                    all == buttons.deep_view(),
                    offered == all.map_values(|button: PermissionButtonView| auth_option(button)),
                    out.deep_view() =~= offered.take(i as int),
                decreases buttons@.len() - i,
            {
                let button = &buttons[i];
                assert(all[i as int] == button.deep_view());
                let option = ToolCallAuthOption {
                    option_id: button.option_id.clone(),
                    label: button.label.clone(),
                    kind: permission_kind_str(button.kind).to_owned(),
                    is_allow: button.is_allow(),
                };
                push_value(&mut out, option);
                i += 1;
            }
            assert(out.deep_view() =~= auth_options(status.deep_view()));
            out
        },
        _ => {
            assert(out.deep_view() =~= auth_options(status.deep_view()));
            out
        },
    }
}

/// What a client is told of a tool call.
pub fn tool_call_summary(call: &ToolCall) -> (r: ToolCallSummary)
    ensures
        r.deep_view() == call_summary(call.deep_view()),
{
    let name = match &call.tool_name {
        Some(name) => name.clone(),
        None => call.label.clone(),
    };
    let tool_status_started_at_ms: Option<i64> = match &call.status_started_at {
        Some(started) => Some(started.timestamp_millis()),
        None => None,
    };
    ToolCallSummary {
        tool_call_id: call.id.clone(),
        name,
        status: tool_call_status_dto(&call.status),
        args_preview: preview_json(&call.raw_input),
        result_preview: preview_json(&call.raw_output),
        tool_status_started_at_ms,
        options: offer_options(&call.status),
    }
}

/// The stamps that the senders of `blocks` left, each once, in the order in
/// which they first occur.
pub open spec fn send_ids(blocks: Seq<PromptBlockView>) -> Seq<i64>
    decreases blocks.len(),
{
    if blocks.len() == 0 {
        Seq::empty()
    } else {
        let before = send_ids(blocks.drop_last());
        match blocks.last().client_send_id {
            Some(id) => if before.contains(id) {
                before
            } else {
                before.push(id)
            },
            None => before,
        }
    }
}

/// No stamp is listed twice, and those listed are those that occur.
pub proof fn law_send_ids_are_distinct(blocks: Seq<PromptBlockView>)
    ensures
        send_ids(blocks).no_duplicates(),
        forall|id: i64| #[trigger]
            send_ids(blocks).contains(id) <==> exists|i: int|
                0 <= i < blocks.len() && (#[trigger] blocks[i]).client_send_id == Some(id),
    decreases blocks.len(),
{
    if blocks.len() > 0 {
        let rest = blocks.drop_last();
        let before = send_ids(rest);
        let after = send_ids(blocks);
        law_send_ids_are_distinct(rest);
        assert forall|id: i64| #[trigger]
            after.contains(id) <==> exists|i: int|
                0 <= i < blocks.len() && (#[trigger] blocks[i]).client_send_id == Some(id) by {
            if after.contains(id) {
                let k = choose|k: int| 0 <= k < after.len() && after[k] == id;
                if k < before.len() {
                    assert(before[k] == id);
                    assert(before.contains(id));
                    let i = choose|i: int|
                        0 <= i < rest.len() && (#[trigger] rest[i]).client_send_id == Some(id);
                    assert(blocks[i] == rest[i]);
                } else {
                    assert(blocks[blocks.len() - 1].client_send_id == Some(id));
                }
            }
            if exists|i: int|
                0 <= i < blocks.len() && (#[trigger] blocks[i]).client_send_id == Some(id) {
                let i = choose|i: int|
                    0 <= i < blocks.len() && (#[trigger] blocks[i]).client_send_id == Some(id);
                if i < rest.len() {
                    assert(rest[i] == blocks[i]);
                    assert(before.contains(id));
                    let k = choose|k: int| 0 <= k < before.len() && before[k] == id;
                    assert(after[k] == id);
                } else if !before.contains(id) {
                    assert(after[after.len() - 1] == id);
                }
            }
        }
    }
}

/// The stamps that the senders of `blocks` left, each once, in the order in
/// which they first occur.
pub fn csids_from_blocks(blocks: &Vec<PromptBlock>) -> (r: Vec<i64>)
    ensures
        r@ == send_ids(blocks.deep_view()),
        r.deep_view() == send_ids(blocks.deep_view()),
{
    let ghost all = blocks.deep_view();
    let mut out: Vec<i64> = Vec::new();
    let mut i: usize = 0;
    assert(out@ =~= send_ids(all.take(0)));
    while i < blocks.len()
        invariant
            i <= blocks@.len(),
            all == blocks.deep_view(),
            out@ == send_ids(all.take(i as int)),
        decreases blocks@.len() - i,
    {
        assert(all[i as int] == blocks@[i as int].deep_view());
        assert(all.take(i as int + 1).drop_last() =~= all.take(i as int));
        if let Some(id) = blocks[i].client_send_id {
            let mut k: usize = 0;
            let mut known = false;
            while k < out.len() && !known
                invariant
                    k <= out@.len(),
                    known ==> out@.contains(id),
                    !known ==> forall|j: int| 0 <= j < k ==> out@[j] != id,
                decreases out@.len() - k + if known { 0int } else { 1 },
            {
                if out[k] == id {
                    known = true;
                } else {
                    k += 1;
                }
            }
            if !known {
                out.push(id);
            }
        }
        i += 1;
    }
    assert(all.take(i as int) =~= all);
    assert(out.deep_view() =~= out@);
    out
}

/// The stamps of a user message; none for any other entry.
pub open spec fn entry_send_ids(entry: AgentThreadEntryView) -> Seq<i64> {
    match entry {
        AgentThreadEntryView::UserMessage(message) => send_ids(message.chunks),
        _ => Seq::empty(),
    }
}

/// The text of an entry that a client is shown: its markdown, with the images
/// of an assistant message linked from number `base` on.
pub open spec fn shown_markdown(entry: ThreadEntryView, base: nat) -> Seq<char> {
    match entry.entry {
        AgentThreadEntryView::AssistantMessage(_) => with_linked_literals(entry.markdown, base),
        _ => entry.markdown,
    }
}

/// What a client is told of an entry. `base` is the number of its first image.
pub open spec fn entry_summary(
    entry: ThreadEntryView,
    index: nat,
    created_ms: Option<i64>,
    include_full_content: bool,
    include_images: bool,
    base: nat,
) -> EntrySummaryView {
    EntrySummaryView {
        role: role_of(entry.entry),
        index: index as usize,
        preview: clipped(shown_markdown(entry, base), ENTRY_PREVIEW_MAX_CHARS as nat),
        markdown: if include_full_content {
            Some(shown_markdown(entry, base))
        } else {
            None
        },
        images: if include_images {
            Some(numbered(entry_images(entry.entry), base))
        } else {
            None
        },
        tool_call: match entry.entry {
            AgentThreadEntryView::ToolCall(call) => Some(call_summary(call)),
            _ => None,
        },
        plan: match entry.entry {
            AgentThreadEntryView::CompletedPlan(entries) => Some(
                PlanSummaryView { items: entries.map_values(|item: PlanEntryView| item.content) },
            ),
            _ => None,
        },
        client_send_id: if entry_send_ids(entry.entry).len() > 0 {
            Some(entry_send_ids(entry.entry)[0])
        } else {
            None
        },
        client_send_ids: entry_send_ids(entry.entry),
        created_ms,
        subagent_id: entry.entry.subagent_id(),
    }
}

/// Whether the numbers of the images of an entry fit, from `base` on.
pub open spec fn numbers_fit(entry: ThreadEntryView, base: nat) -> bool {
    &&& base + image_count(entry.entry) <= usize::MAX
    &&& entry.entry is AssistantMessage ==> base + literal_count(entry.markdown) <= usize::MAX
}

/// The items of a plan.
fn plan_items(entries: &Vec<PlanEntry>) -> (r: PlanSummary)
    ensures
        r.deep_view().items == entries.deep_view().map_values(|item: PlanEntryView| item.content),
{
    let ghost all = entries.deep_view();
    let ghost texts = all.map_values(|item: PlanEntryView| item.content);
    let mut items: Vec<String> = Vec::new();
    let mut i: usize = 0;
    while i < entries.len()
        invariant
            i <= entries@.len(),
            all == entries.deep_view(),
            texts == all.map_values(|item: PlanEntryView| item.content),
            items.deep_view() =~= texts.take(i as int),
        decreases entries@.len() - i,
    {
        assert(all[i as int] == entries@[i as int].deep_view());
        push_value(&mut items, entries[i].content.clone());
        i += 1;
    }
    PlanSummary { items }
}

/// What a client is told of an entry. The cursor counts the images of the
/// session up to this entry and is moved past those of the entry, whether or
/// not they were asked for.
pub fn summarize_entry(
    entry: &ThreadEntry,
    index: usize,
    created_ms: Option<i64>,
    include_full_content: bool,
    include_images: bool,
    image_cursor: &mut usize,
) -> (r: EntrySummary)
    requires
        numbers_fit(entry.deep_view(), *old(image_cursor) as nat),
    ensures
        r.deep_view() == entry_summary(
            entry.deep_view(),
            index as nat,
            created_ms,
            include_full_content,
            include_images,
            *old(image_cursor) as nat,
        ),
        *final(image_cursor) == *old(image_cursor) + image_count(entry.deep_view().entry),
{
    let base: usize = *image_cursor;
    let shown = match &entry.entry {
        AgentThreadEntry::AssistantMessage(_) => clean_assistant_message_text(
            entry.markdown.as_str(),
            base,
        ),
        _ => entry.markdown.clone(),
    };
    let preview = truncate_preview(shown.as_str(), ENTRY_PREVIEW_MAX_CHARS);
    let markdown = if include_full_content {
        Some(shown)
    } else {
        None
    };
    let images = if include_images {
        Some(extract_images_for_entry(&entry.entry, image_cursor))
    } else {
        *image_cursor = base + count_images_in_entry(&entry.entry);
        None
    };
    let tool_call = match &entry.entry {
        AgentThreadEntry::ToolCall(call) => Some(tool_call_summary(call)),
        _ => None,
    };
    let plan = match &entry.entry {
        AgentThreadEntry::CompletedPlan(entries) => Some(plan_items(entries)),
        _ => None,
    };
    let client_send_ids: Vec<i64> = match &entry.entry {
        AgentThreadEntry::UserMessage(message) => csids_from_blocks(&message.chunks),
        _ => Vec::new(),
    };
    assert(client_send_ids.deep_view() =~= entry_send_ids(entry.deep_view().entry));
    assert(client_send_ids@ =~= entry_send_ids(entry.deep_view().entry));
    let client_send_id: Option<i64> = if client_send_ids.len() > 0 {
        Some(client_send_ids[0])
    } else {
        None
    };
    EntrySummary {
        role: entry_role(&entry.entry),
        index,
        preview,
        markdown,
        images,
        tool_call,
        plan,
        client_send_id,
        client_send_ids,
        created_ms,
        subagent_id: entry.entry.subagent_id(),
    }
}

} // verus!
