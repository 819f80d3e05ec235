//! What a client is told of a conversation.
use crate::clock::ClockReading;
use crate::json::compact_json;
use crate::mcp::conversation::{
    filtered_count, history_page, image_base, is_history, is_selected, query_of, selected,
    session_entries, session_result, stamp_of, summary_at, EntryQuery,
};
use crate::mcp::dto::{
    GetSessionParams, ReadSessionHistoryParams, ReadSessionHistoryResult, ToolResponse,
};
use crate::mcp::entries::{
    call_summary, chunk_images, content_images, entry_images, entry_send_ids, entry_summary,
    kind_text, prompt_images, send_ids, wire_status,
};
use crate::mcp::sessions::summary_of;
use crate::model::{SolutionSession, ThreadEntryView};
use crate::permissions::{buttons_of, is_allow_kind, lemma_first_button, reject_button, PermissionButtonView};
use crate::text::decimal;
use crate::thread::{
    AgentThreadEntryView, AssistantMessageChunkView, ContentBlockView, PermissionOptionChoiceView,
    PermissionOptionKind, PermissionOptionView, PermissionOptionsView, PromptBlockView,
    PromptContentView, ToolCallContentView, ToolCallStatusView, ToolCallView,
};
use vstd::prelude::*;

verus! {

/// The status that a client is told determines the status of the call: two calls in
/// different states are never told alike.
pub proof fn law_status_is_told_apart(a: ToolCallStatusView, b: ToolCallStatusView)
    ensures
        wire_status(a) == wire_status(b) ==> a == b || (a is WaitingForConfirmation
            && b is WaitingForConfirmation),
        wire_status(a) is Pending <==> a is Pending,
        wire_status(a) is WaitingForConfirmation <==> a is WaitingForConfirmation,
        wire_status(a) is Running <==> a is InProgress,
        wire_status(a) is Done <==> a is Completed,
        wire_status(a) is Failed <==> a is Failed,
        wire_status(a) is Rejected <==> a is Rejected,
        wire_status(a) is Canceled <==> a is Canceled,
{
}

/// A preview is the text itself where that is short enough, and otherwise as much of
/// its start as may be shown with an ellipsis behind.
pub open spec fn is_preview(preview: Seq<char>, text: Seq<char>, most: int) -> bool {
    if text.len() <= most {
        preview == text
    } else {
        preview.len() == most + 1 && preview.last() == '…' && forall|i: int|
            0 <= i < most ==> #[trigger] preview[i] == text[i]
    }
}

/// A tool call is told under its own id, with its own name and status, the start of
/// what went in and came out, and the time at which it went into progress. Answers are
/// on offer only while it waits for one.
pub proof fn law_call_is_told(call: ToolCallView)
    ensures
        ({
            let told = call_summary(call);
            &&& told.tool_call_id == call.id
            &&& told.name == if call.tool_name is Some {
                call.tool_name->0
            } else {
                call.label
            }
            &&& told.status is Done <==> call.status is Completed
            &&& told.status is Failed <==> call.status is Failed
            &&& told.status is Running <==> call.status is InProgress
            &&& told.status is Pending <==> call.status is Pending
            &&& told.status is Rejected <==> call.status is Rejected
            &&& told.status is Canceled <==> call.status is Canceled
            &&& call.raw_input is None ==> told.args_preview.len() == 0
            &&& call.raw_output is None ==> told.result_preview.len() == 0
            &&& call.raw_input matches Some(tree) ==> compact_json(tree) matches Some(text)
                ==> is_preview(told.args_preview, text, 500)
            &&& call.raw_output matches Some(tree) ==> compact_json(tree) matches Some(text)
                ==> is_preview(told.result_preview, text, 500)
            &&& told.tool_status_started_at_ms is Some <==> call.status_started_at is Some
            &&& call.status_started_at matches Some(at) ==> told.tool_status_started_at_ms == Some(
                at.millis() as i64,
            )
            &&& !(call.status is WaitingForConfirmation) ==> told.options.len() == 0
            &&& call.status matches ToolCallStatusView::WaitingForConfirmation { options } ==> {
                let buttons = buttons_of(options);
                &&& told.options.len() == buttons.len()
                &&& forall|i: int|
                    0 <= i < buttons.len() ==> {
                        let option = #[trigger] told.options[i];
                        &&& option.option_id == buttons[i].option_id
                        &&& option.label == buttons[i].label
                        &&& option.is_allow <==> buttons[i].kind is AllowOnce
                            || buttons[i].kind is AllowAlways
                    }
            }
        }),
{
}

/// The kinds of answers are spelt differently, and a kind that is not known is never
/// passed off as one that allows.
pub proof fn law_kinds_are_spelt_apart(a: PermissionOptionKind, b: PermissionOptionKind)
    ensures
        kind_text(a) == kind_text(b) && !(a is Other) && !(b is Other) ==> a == b,
        kind_text(a) == "allow_once"@ <==> a is AllowOnce,
        kind_text(a) == "allow_always"@ <==> a is AllowAlways,
        kind_text(PermissionOptionKind::RejectAlways) == "reject_always"@,
        is_allow_kind(a) <==> a is AllowOnce || a is AllowAlways,
{
    reveal_strlit("allow_once");
    reveal_strlit("allow_always");
    reveal_strlit("reject_once");
    reveal_strlit("reject_always");
    assert("allow_once"@.len() == 10);
    assert("allow_always"@.len() == 12);
    assert("reject_once"@.len() == 11);
    assert("reject_always"@.len() == 13);
}

/// A flat list of options gives one button for each, in their order and without
/// patterns.
pub proof fn law_flat_options_are_buttons(options: Seq<PermissionOptionView>)
    ensures
        ({
            let buttons = buttons_of(PermissionOptionsView::Flat(options));
            &&& buttons.len() == options.len()
            &&& forall|i: int|
                0 <= i < options.len() ==> {
                    let button = #[trigger] buttons[i];
                    &&& button.option_id == options[i].option_id
                    &&& button.label == options[i].name
                    &&& button.kind == options[i].kind
                    &&& button.patterns.len() == 0
                }
        }),
{
}

/// A choice gives two buttons, first the one that allows and then the one that
/// denies, both with the patterns of the choice.
pub proof fn law_choices_are_pairs_of_buttons(
    choices: Seq<PermissionOptionChoiceView>,
    patterns: Seq<Seq<char>>,
)
    ensures
        ({
            let buttons = buttons_of(PermissionOptionsView::Dropdown(choices));
            &&& buttons == buttons_of(
                PermissionOptionsView::DropdownWithPatterns { choices, patterns },
            )
            &&& buttons.len() == 2 * choices.len()
            &&& forall|i: int|
                #![trigger choices[i]]
                0 <= i < choices.len() ==> {
                    &&& buttons[2 * i].option_id == choices[i].allow.option_id
                    &&& buttons[2 * i].label == choices[i].allow.name
                    &&& buttons[2 * i].kind == choices[i].allow.kind
                    &&& buttons[2 * i].patterns == choices[i].sub_patterns
                    &&& buttons[2 * i + 1].option_id == choices[i].deny.option_id
                    &&& buttons[2 * i + 1].label == choices[i].deny.name
                    &&& buttons[2 * i + 1].kind == choices[i].deny.kind
                    &&& buttons[2 * i + 1].patterns == choices[i].sub_patterns
                }
        }),
{
}

/// Where something is on offer that turns a request down for once, that is picked.
pub proof fn law_reject_once_comes_first(buttons: Seq<PermissionButtonView>)
    requires
        exists|i: int| 0 <= i < buttons.len() && (#[trigger] buttons[i]).kind is RejectOnce,
    ensures
        reject_button(buttons) is Some && reject_button(buttons)->0.kind is RejectOnce,
{
    let once = |button: PermissionButtonView| button.kind == PermissionOptionKind::RejectOnce;
    lemma_first_button(buttons, once);
    let i = choose|i: int| 0 <= i < buttons.len() && (#[trigger] buttons[i]).kind is RejectOnce;
    assert(once(buttons[i]));
}

/// An answer carries the option that was picked, its kind and, where there are any,
/// its patterns.
pub proof fn law_answer_is_that_of_the_button(button: PermissionButtonView)
    ensures
        button.outcome().option_id == button.option_id,
        button.outcome().option_kind == button.kind,
        button.outcome().params is None <==> button.patterns.len() == 0,
        button.outcome().params matches Some(params) ==> params->patterns == button.patterns,
{
}

/// The role that a client is told says what kind of entry it is.
pub proof fn law_entry_is_told(
    entry: ThreadEntryView,
    index: nat,
    created_ms: Option<i64>,
    full: bool,
    with_images: bool,
    base: nat,
)
    requires
        index <= usize::MAX,
    ensures
        ({
            let told = entry_summary(entry, index, created_ms, full, with_images, base);
            let ids = entry_send_ids(entry.entry);
            &&& told.role is User <==> entry.entry is UserMessage
            &&& told.role is Assistant <==> entry.entry is AssistantMessage
            &&& told.role is ToolCall <==> entry.entry is ToolCall
            &&& told.role is Plan <==> entry.entry is CompletedPlan
            &&& told.index == index
            &&& told.created_ms == created_ms
            &&& told.markdown is Some <==> full
            &&& !(entry.entry is AssistantMessage) ==> is_preview(told.preview, entry.markdown, 200)
            &&& !(entry.entry is AssistantMessage) && full ==> told.markdown == Some(entry.markdown)
            &&& full ==> is_preview(told.preview, told.markdown->0, 200)
            &&& told.images is Some <==> with_images
            &&& told.tool_call is Some <==> entry.entry is ToolCall
            &&& entry.entry matches AgentThreadEntryView::ToolCall(call)
                ==> told.tool_call->0.tool_call_id == call.id && (told.tool_call->0.status is Failed
                <==> call.status is Failed) && (told.tool_call->0.status is Done
                <==> call.status is Completed)
            &&& told.plan is Some <==> entry.entry is CompletedPlan
            &&& entry.entry matches AgentThreadEntryView::CompletedPlan(items) ==> {
                &&& told.plan->0.items.len() == items.len()
                &&& forall|i: int|
                    0 <= i < items.len() ==> #[trigger] told.plan->0.items[i] == items[i].content
            }
            &&& told.client_send_ids == ids
            &&& told.client_send_id is Some <==> ids.len() > 0
            &&& ids.len() > 0 ==> told.client_send_id == Some(ids[0])
            &&& !(entry.entry is UserMessage) ==> ids.len() == 0
            &&& entry.entry matches AgentThreadEntryView::UserMessage(message) ==> ids == send_ids(
                message.chunks,
            ) && told.subagent_id is None
            &&& entry.entry matches AgentThreadEntryView::AssistantMessage(message)
                ==> told.subagent_id == message.subagent_id
            &&& entry.entry matches AgentThreadEntryView::ToolCall(call) ==> told.subagent_id
                == call.subagent_id
        }),
{
}

/// The images of an entry are numbered one after the other, in their order and each
/// with its own type and data.
pub proof fn law_images_are_numbered(
    entry: ThreadEntryView,
    index: nat,
    created_ms: Option<i64>,
    full: bool,
    base: nat,
)
    requires
        base + entry_images(entry.entry).len() <= usize::MAX,
    ensures
        ({
            let images = entry_summary(entry, index, created_ms, full, true, base).images->0;
            &&& images.len() == entry_images(entry.entry).len()
            &&& forall|i: int|
                0 <= i < images.len() ==> {
                    &&& (#[trigger] images[i]).index == base + i
                    &&& images[i].mime_type == entry_images(entry.entry)[i].0
                    &&& images[i].data_base64 == entry_images(entry.entry)[i].1
                }
        }),
{
}

/// The images of the entries of a session are numbered without gaps: those of an entry
/// start where those of the entry before it end, and the first is number 0.
pub proof fn law_images_are_numbered_without_gaps(entries: Seq<ThreadEntryView>, k: int)
    requires
        0 <= k < entries.len(),
    ensures
        image_base(entries, 0) == 0,
        image_base(entries, k + 1) == image_base(entries, k) + entry_images(
            entries[k].entry,
        ).len(),
{
}

/// The images of a prompt are its image blocks, in their order, as they came.
pub proof fn law_prompt_images_are_its_image_blocks(
    blocks: Seq<PromptBlockView>,
    block: PromptBlockView,
)
    ensures
        prompt_images(Seq::empty()).len() == 0,
        block.content matches PromptContentView::Image { data, mime_type } ==> prompt_images(
            blocks.push(block),
        ) == prompt_images(blocks).push((mime_type, data)),
        !(block.content is Image) ==> prompt_images(blocks.push(block)) == prompt_images(blocks),
{
    assert(blocks.push(block).drop_last() =~= blocks);
}

/// The images of an assistant message are its image blocks, said or thought, in their
/// order, with the bytes written out in base64.
pub proof fn law_chunk_images_are_its_image_blocks(
    chunks: Seq<AssistantMessageChunkView>,
    block: ContentBlockView,
    thought: bool,
)
    ensures
        ({
            let chunk = if thought {
                AssistantMessageChunkView::Thought { block }
            } else {
                AssistantMessageChunkView::Message { block }
            };
            let more = chunk_images(chunks.push(chunk));
            &&& chunk_images(Seq::empty()).len() == 0
            &&& block matches ContentBlockView::Image { image, .. } ==> more == chunk_images(
                chunks,
            ).push((image.mime_type, crate::images::base64_text(image.bytes)))
            &&& !(block is Image) ==> more == chunk_images(chunks)
        }),
{
    let chunk = if thought {
        AssistantMessageChunkView::Thought { block }
    } else {
        AssistantMessageChunkView::Message { block }
    };
    assert(chunks.push(chunk).drop_last() =~= chunks);
}

/// The images of a tool call are the image blocks that it produced, in their order.
pub proof fn law_content_images_are_its_image_blocks(
    content: Seq<ToolCallContentView>,
    item: ToolCallContentView,
)
    ensures
        content_images(Seq::empty()).len() == 0,
        item matches ToolCallContentView::ContentBlock(ContentBlockView::Image { image, .. })
            ==> content_images(content.push(item)) == content_images(content).push(
            (image.mime_type, crate::images::base64_text(image.bytes)),
        ),
        !(item matches ToolCallContentView::ContentBlock(ContentBlockView::Image { .. }))
            ==> content_images(content.push(item)) == content_images(content),
{
    assert(content.push(item).drop_last() =~= content);
}

/// A session shows what was left from before a restart, and behind it what its
/// running agent has said since.
pub proof fn law_conversation_is_what_is_left_and_what_is_new(session: SolutionSession)
    ensures
        ({
            let all = session_entries(session);
            let cold = session.cold_entries.deep_view();
            &&& forall|i: int| 0 <= i < cold.len() ==> #[trigger] all[i] == cold[i]
            &&& session.thread() is None ==> all.len() == cold.len()
            &&& session.thread() matches Some(thread) ==> {
                let live = thread.entries.deep_view();
                &&& all.len() == cold.len() + live.len()
                &&& forall|i: int| 0 <= i < live.len() ==> #[trigger] all[cold.len() + i] == live[i]
            }
        }),
{
}

/// Whether an entry belongs to the thread that a client asks for. The main thread has
/// the entries of no sub-agent, and all entries while no sub-agent is at work.
pub open spec fn is_of_thread(
    entry: AgentThreadEntryView,
    filter: Option<Seq<char>>,
    active: bool,
) -> bool {
    ||| filter is None
    ||| filter->0 == "__main__"@ && (!active || entry.subagent_id() is None)
    ||| filter->0 != "__main__"@ && entry.subagent_id() is Some && entry.subagent_id()->0
        == filter->0
}

/// Whether entry `k` of a session is one that a request asks for.
pub open spec fn is_requested(input: GetSessionParams, session: SolutionSession, k: int) -> bool {
    let all = session_entries(session);
    &&& 0 <= k < all.len()
    &&& is_of_thread(
        all[k].entry,
        input.subagent_filter.deep_view(),
        session.active_subagents@.len() > 0,
    )
    &&& input.after_index is None || k > input.after_index->0
    &&& input.before_index is None || k < input.before_index->0
}

/// What is selected is what is requested, in order.
proof fn lemma_selected(input: GetSessionParams, session: SolutionSession, k: int)
    requires
        0 <= k <= session_entries(session).len() <= usize::MAX,
    ensures
        ({
            let all = session_entries(session);
            let shown = selected(
                all,
                session.entry_created_ms@,
                query_of(input, session),
                k,
            );
            &&& forall|i: int|
                0 <= i < shown.len() ==> {
                    &&& is_requested(input, session, (#[trigger] shown[i]).index as int)
                    &&& shown[i].index < k
                    &&& shown[i] == summary_at(
                        all,
                        session.entry_created_ms@,
                        query_of(input, session),
                        shown[i].index as int,
                    )
                }
            &&& forall|i: int, j: int|
                0 <= i < j < shown.len() ==> (#[trigger] shown[i]).index < (#[trigger] shown[j]).index
            &&& forall|n: int|
                0 <= n < k && #[trigger] is_requested(input, session, n) ==> exists|i: int|
                    0 <= i < shown.len() && (#[trigger] shown[i]).index == n
        }),
    decreases k,
{
    let all = session_entries(session);
    let query = query_of(input, session);
    let stamps = session.entry_created_ms@;
    if k > 0 {
        lemma_selected(input, session, k - 1);
        let before = selected(all, stamps, query, k - 1);
        let shown = selected(all, stamps, query, k);
        assert(is_selected(all, query, k - 1) == is_requested(input, session, k - 1));
        assert forall|n: int| 0 <= n < k && #[trigger] is_requested(input, session, n) implies exists|
            i: int,
        |
            0 <= i < shown.len() && (#[trigger] shown[i]).index == n by {
            if n < k - 1 {
                let i = choose|i: int| 0 <= i < before.len() && (#[trigger] before[i]).index == n;
                assert(shown[i] == before[i]);
            } else {
                assert(shown[shown.len() - 1].index == n);
            }
        }
    }
}

/// A client that asks for a session gets its entries of the thread and between the
/// bounds that it asks for, oldest first, each under its number in the session. None
/// of these is left out, unless there are more than it wants: it then gets that many,
/// and only older ones are left out.
pub proof fn law_session_shows_what_was_asked_for(
    input: GetSessionParams,
    session: SolutionSession,
    hint: Seq<char>,
    now: ClockReading,
)
    requires
        session_entries(session).len() <= usize::MAX,
    ensures
        ({
            let shown = session_result(input, session, hint, now).entries;
            let all = session_entries(session);
            &&& forall|i: int|
                0 <= i < shown.len() ==> {
                    let k = (#[trigger] shown[i]).index as int;
                    &&& is_requested(input, session, k)
                    &&& shown[i] == entry_summary(
                        all[k],
                        k as nat,
                        stamp_of(session.entry_created_ms@, k),
                        input.include_full_content,
                        input.include_images,
                        image_base(all, k),
                    )
                }
            &&& forall|i: int, j: int|
                0 <= i < j < shown.len() ==> (#[trigger] shown[i]).index < (#[trigger] shown[j]).index
            &&& forall|n: int| #[trigger]
                is_requested(input, session, n) ==> {
                    ||| exists|i: int| 0 <= i < shown.len() && (#[trigger] shown[i]).index == n
                    ||| input.count is Some && shown.len() == input.count->0 && forall|i: int|
                        0 <= i < shown.len() ==> n < (#[trigger] shown[i]).index
                }
            &&& input.count is Some ==> shown.len() <= input.count->0
        }),
{
    let all = session_entries(session);
    let query = query_of(input, session);
    let whole = selected(all, session.entry_created_ms@, query, all.len() as int);
    let shown = session_result(input, session, hint, now).entries;
    lemma_selected(input, session, all.len() as int);
    let skipped = whole.len() - shown.len();
    assert forall|i: int| 0 <= i < shown.len() implies #[trigger] shown[i] == whole[i + skipped] by {}
    assert forall|i: int, j: int| 0 <= i < j < shown.len() implies (#[trigger] shown[i]).index < (
    #[trigger] shown[j]).index by {
        assert(whole[i + skipped].index < whole[j + skipped].index);
    }
    assert forall|n: int| #[trigger] is_requested(input, session, n) implies {
        ||| exists|i: int| 0 <= i < shown.len() && (#[trigger] shown[i]).index == n
        ||| input.count is Some && shown.len() == input.count->0 && forall|i: int|
            0 <= i < shown.len() ==> n < (#[trigger] shown[i]).index
    } by {
        let at = choose|at: int| 0 <= at < whole.len() && (#[trigger] whole[at]).index == n;
        if at >= skipped {
            assert(shown[at - skipped].index == n);
        } else {
            assert forall|i: int| 0 <= i < shown.len() implies n < (#[trigger] shown[i]).index by {
                assert(whole[at].index < whole[i + skipped].index);
            }
        }
    }
}

/// The total is the number of entries of the thread that is asked for, whatever the
/// bounds: it is as many as are shown where there are none.
pub proof fn law_total_is_that_of_the_thread(
    input: GetSessionParams,
    whole: GetSessionParams,
    session: SolutionSession,
    hint: Seq<char>,
    now: ClockReading,
)
    requires
        session_entries(session).len() <= usize::MAX,
        whole.subagent_filter.deep_view() == input.subagent_filter.deep_view(),
        whole.after_index is None,
        whole.before_index is None,
        whole.count is None,
    ensures
        session_result(input, session, hint, now).total_count == session_result(
            whole,
            session,
            hint,
            now,
        ).entries.len(),
        input.subagent_filter is None ==> session_result(input, session, hint, now).total_count
            == session_entries(session).len(),
{
    let all = session_entries(session);
    let n = all.len() as int;
    crate::mcp::conversation::law_total_ignores_the_window(
        all,
        query_of(input, session),
        query_of(whole, session),
        n,
    );
    crate::mcp::conversation::law_total_counts_the_selection(
        all,
        session.entry_created_ms@,
        query_of(whole, session),
        n,
    );
    lemma_count_bound(all, query_of(input, session), n);
}

/// There are no more entries of a thread than there are entries.
proof fn lemma_count_bound(entries: Seq<ThreadEntryView>, query: EntryQuery, k: int)
    requires
        0 <= k,
    ensures
        filtered_count(entries, query, k) <= k,
        query.filter is None ==> filtered_count(entries, query, k) == k,
    decreases k,
{
    if k > 0 {
        lemma_count_bound(entries, query, k - 1);
    }
}

/// A session is told with all that a list tells of it, and with the messages that
/// wait, one for one.
pub proof fn law_session_is_told(
    input: GetSessionParams,
    session: SolutionSession,
    hint: Seq<char>,
    now: ClockReading,
)
    ensures
        ({
            let told = session_result(input, session, hint, now);
            let listed = summary_of(session, now);
            &&& told.id == session.id@
            &&& told.solution_id == session.solution_id@
            &&& told.agent_id == session.agent_id@
            &&& told.title == session.title@
            &&& told.state == listed.state
            &&& told.created_at == session.created_at.millis() as i64
            &&& told.last_activity_at == session.last_activity_at.millis() as i64
            &&& told.total_tokens == listed.total_tokens
            &&& told.max_tokens == listed.max_tokens
            &&& told.parent_session_id == session.parent_session_id.deep_view()
            &&& told.cwd == listed.cwd
            &&& told.active_subagents == listed.active_subagents
            &&& told.pending_bundles.len() == session.pending_messages@.len()
            &&& forall|i: int|
                0 <= i < told.pending_bundles.len() ==> (#[trigger] told.pending_bundles[i]).csids
                    == send_ids(session.pending_messages.deep_view()[i].blocks)
        }),
{
}

/// Only a positive stamp is a time, and it is that of the entry with the same number.
pub proof fn law_stamps_are_positive(stamps: Seq<i64>, index: int)
    requires
        0 <= index,
    ensures
        stamp_of(stamps, index) is Some <==> index < stamps.len() && stamps[index] > 0,
        stamp_of(stamps, index) is Some ==> stamp_of(stamps, index) == Some(stamps[index]),
{
}

/// Where a page of a transcript starts.
pub open spec fn page_start(offset: Option<usize>) -> int {
    if offset is Some {
        offset->0 as int
    } else {
        0
    }
}

/// How many entries a page may hold.
pub open spec fn page_size(limit: Option<usize>) -> int {
    if limit is None {
        100
    } else if limit->0 <= 500 {
        limit->0 as int
    } else {
        500
    }
}

/// A page is as long as it can be: it ends where it is full or the transcript ends.
/// Its entries are those of the transcript from the offset on.
pub proof fn law_pages_are_full(
    entries: Seq<Seq<char>>,
    offset: Option<usize>,
    limit: Option<usize>,
)
    ensures
        ({
            let page = history_page(entries, offset, limit);
            let left = if page_start(offset) < entries.len() {
                entries.len() - page_start(offset)
            } else {
                0
            };
            &&& page.len() == if left < page_size(limit) {
                left
            } else {
                page_size(limit)
            }
            &&& forall|i: int|
                0 <= i < page.len() ==> #[trigger] page[i] == entries[page_start(offset) + i]
        }),
{
}

/// The pages of the given size up to the `count`-th, one after the other.
pub open spec fn pages(entries: Seq<Seq<char>>, size: usize, count: nat) -> Seq<Seq<char>>
    decreases count,
{
    if count == 0 {
        Seq::empty()
    } else {
        pages(entries, size, (count - 1) as nat) + history_page(
            entries,
            Some(((count - 1) * size) as usize),
            Some(size),
        )
    }
}

/// The pages put together are the whole transcript.
pub proof fn law_pages_make_up_the_transcript(entries: Seq<Seq<char>>, size: usize, count: nat)
    requires
        0 < size <= 500,
        count * size <= usize::MAX,
    ensures
        count * size <= entries.len() ==> pages(entries, size, count) == entries.take(
            (count * size) as int,
        ),
        count * size >= entries.len() ==> pages(entries, size, count) == entries,
    decreases count,
{
    if count == 0 {
        assert(entries.take(0) =~= Seq::<Seq<char>>::empty());
        assert(count * size == 0) by (nonlinear_arith)
            requires
                count == 0,
        ;
        if entries.len() == 0 {
            assert(entries =~= Seq::<Seq<char>>::empty());
        }
    } else {
        let less = (count - 1) as nat;
        assert(count * size == less * size + size) by (nonlinear_arith)
            requires
                count == less + 1,
        ;
        assert(0 <= less * size) by (nonlinear_arith);
        law_pages_make_up_the_transcript(entries, size, less);
        let start = less * size;
        let page = history_page(entries, Some(start as usize), Some(size));
        law_pages_are_full(entries, Some(start as usize), Some(size));
        let before = pages(entries, size, less);
        if start >= entries.len() {
            assert(page =~= Seq::<Seq<char>>::empty());
            assert(before + page =~= entries);
        } else {
            assert(before == entries.take(start as int));
            if start + size <= entries.len() {
                assert(before + page =~= entries.take(start + size));
                if start + size == entries.len() {
                    assert(entries.take(start + size) =~= entries);
                }
            } else {
                assert(before + page =~= entries);
            }
        }
    }
}

/// The answer to a request for a transcript names the session and the source, counts
/// all entries there are and those that are returned, and says so.
pub proof fn law_history_counts_its_entries(
    r: ToolResponse<ReadSessionHistoryResult>,
    id: Seq<char>,
    source: Seq<char>,
    title: Seq<char>,
    entries: Seq<Seq<char>>,
    input: ReadSessionHistoryParams,
)
    requires
        is_history(r, id, source, title, entries, input),
    ensures
        r.result.session_id@ == id,
        r.result.source@ == source,
        r.result.title@ == title,
        r.result.total_entries == entries.len(),
        r.result.returned_entries == r.result.entries@.len(),
        forall|i: int|
            0 <= i < r.result.entries@.len() ==> (#[trigger] r.result.entries@[i])@ == entries[i
                + page_start(input.offset)],
        r.text@ == decimal(r.result.returned_entries as nat) + "/"@ + decimal(
            r.result.total_entries as nat,
        ) + " entries ("@ + source + ")"@,
{
    law_pages_are_full(entries, input.offset, input.limit);
    let page = history_page(entries, input.offset, input.limit);
    assert(r.result.entries@.len() == page.len());
    assert forall|i: int| 0 <= i < r.result.entries@.len() implies (
    #[trigger] r.result.entries@[i])@ == entries[i + page_start(input.offset)] by {
        assert(r.result.entries.deep_view()[i] == r.result.entries@[i]@);
        assert(page[i] == entries[page_start(input.offset) + i]);
    }
}

} // verus!
