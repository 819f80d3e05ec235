//! What a client is told of the conversation of a session.
use super::dto::{
    AuthorizeToolCallParams, AuthorizeToolCallResult, EntrySummary, EntrySummaryView,
    GetSessionEntryParams, GetSessionEntryResult, GetSessionParams, GetSessionResult,
    GetSessionResultView, QueuedBundleSummary, QueuedBundleSummaryView, ReadSessionHistoryParams,
    ReadSessionHistoryResult, ToolResponse,
};
use super::entries::{
    count_images_in_entry, csids_from_blocks, entry_summary, image_count, numbers_fit, send_ids,
    summarize_entry,
};
use super::requests::{
    find_session, lemma_named_session_may_be_named, may_name, missing_param,
    parse_requested_session, position_of_session, requested_session, require_param, say_of_session,
};
use super::sessions::{session_summary, summary_of};
use crate::clock::ClockReading;
use crate::conversation_render::{
    count_image_blocks, count_image_literals, image_block_count, pending_blocks_preview,
    queued_preview,
};
use crate::duplicate::push_value;
use crate::model::{
    PendingBundleView, SolutionSession, SolutionSessionId, ThreadEntry, ThreadEntryView,
};
use crate::permissions::{
    buttons_of, permission_buttons, PermissionButtonView, SelectedPermissionOutcome,
    SelectedPermissionOutcomeView,
};
use crate::text::{decimal, print_u64, same_text};
use crate::thread::{
    AgentThreadEntry, AgentThreadEntryView, ToolCall, ToolCallStatus, ToolCallStatusView,
    ToolCallView,
};
use vstd::prelude::*;
use vstd::string::*;

verus! {

/// Names the main thread where the entries of one sub-agent can be asked for.
pub const MAIN_THREAD_FILTER: &'static str = "__main__";

/// The most entries of a transcript that are returned at once.
pub const HISTORY_HARD_LIMIT: usize = 500;

/// How many entries of a transcript are returned where no number is given.
pub const HISTORY_DEFAULT_LIMIT: usize = 100;

/// The entries of a session: those from before a restart, then those of the
/// running agent.
pub open spec fn session_entries(session: SolutionSession) -> Seq<ThreadEntryView> {
    session.cold_entries.deep_view() + live_entries(session)
}

/// The entries of the running agent.
pub open spec fn live_entries(session: SolutionSession) -> Seq<ThreadEntryView> {
    match session.thread() {
        Some(thread) => thread.entries.deep_view(),
        None => Seq::empty(),
    }
}

/// Whether an entry belongs to the thread that was asked for: a sub-agent has
/// the entries that carry its id; the main thread has those that carry none, and
/// while no sub-agent is at work it has every entry.
pub open spec fn passes_filter(
    entry: AgentThreadEntryView,
    filter: Option<Seq<char>>,
    no_subagents: bool,
) -> bool {
    match filter {
        None => true,
        Some(wanted) => if wanted == MAIN_THREAD_FILTER@ {
            no_subagents || entry.subagent_id() is None
        } else {
            entry.subagent_id() == Some(wanted)
        },
    }
}

/// Whether `index` lies strictly between the bounds.
pub open spec fn in_window(index: int, after: Option<usize>, before: Option<usize>) -> bool {
    &&& after matches Some(a) ==> index > a
    &&& before matches Some(b) ==> index < b
}

/// How many images the first `k` entries hold: the number of the first image of
/// entry `k`.
pub open spec fn image_base(entries: Seq<ThreadEntryView>, k: int) -> nat
    decreases k,
{
    if k <= 0 {
        0
    } else {
        image_base(entries, k - 1) + image_count(entries[k - 1].entry)
    }
}

/// Whether the images of the entries can be numbered from `base` on.
pub open spec fn numbers_fit_from(entries: Seq<ThreadEntryView>, base: nat) -> bool {
    forall|k: int|
        0 <= k < entries.len() ==> numbers_fit(
            #[trigger] entries[k],
            base + image_base(entries, k),
        )
}

/// Whether the entries and their images can be numbered.
pub open spec fn can_be_numbered(entries: Seq<ThreadEntryView>) -> bool {
    &&& entries.len() <= usize::MAX
    &&& numbers_fit_from(entries, 0)
}

/// When entry `index` was made, where that was recorded.
pub open spec fn stamp_of(stamps: Seq<i64>, index: int) -> Option<i64> {
    if 0 <= index < stamps.len() && stamps[index] > 0 {
        Some(stamps[index])
    } else {
        None
    }
}

/// Which entries of a session are asked for and how much of them.
#[verifier::ext_equal]
pub struct EntryQuery {
    pub filter: Option<Seq<char>>,
    pub no_subagents: bool,
    pub after: Option<usize>,
    pub before: Option<usize>,
    pub include_full_content: bool,
    pub include_images: bool,
}

/// Whether entry `k` is one of those asked for.
pub open spec fn is_selected(entries: Seq<ThreadEntryView>, query: EntryQuery, k: int) -> bool {
    passes_filter(entries[k].entry, query.filter, query.no_subagents) && in_window(
        k,
        query.after,
        query.before,
    )
}

/// The summary of entry `k`.
pub open spec fn summary_at(
    entries: Seq<ThreadEntryView>,
    stamps: Seq<i64>,
    query: EntryQuery,
    k: int,
) -> EntrySummaryView {
    entry_summary(
        entries[k],
        k as nat,
        stamp_of(stamps, k),
        query.include_full_content,
        query.include_images,
        image_base(entries, k),
    )
}

/// The summaries of those of the first `k` entries that are asked for.
pub open spec fn selected(
    entries: Seq<ThreadEntryView>,
    stamps: Seq<i64>,
    query: EntryQuery,
    k: int,
) -> Seq<EntrySummaryView>
    decreases k,
{
    if k <= 0 {
        Seq::empty()
    } else {
        let before = selected(entries, stamps, query, k - 1);
        if is_selected(entries, query, k - 1) {
            before.push(summary_at(entries, stamps, query, k - 1))
        } else {
            before
        }
    }
}

/// How many of the first `k` entries belong to the sub-agent asked for.
pub open spec fn filtered_count(entries: Seq<ThreadEntryView>, query: EntryQuery, k: int) -> nat
    decreases k,
{
    if k <= 0 {
        0
    } else {
        filtered_count(entries, query, k - 1) + if passes_filter(
            entries[k - 1].entry,
            query.filter,
            query.no_subagents,
        ) {
            1nat
        } else {
            0
        }
    }
}

/// The last `count` of `items`.
pub open spec fn last_n(items: Seq<EntrySummaryView>, count: Option<usize>) -> Seq<
    EntrySummaryView,
> {
    match count {
        Some(n) => if items.len() > n {
            items.skip(items.len() - n)
        } else {
            items
        },
        None => items,
    }
}

/// The query of a request.
pub open spec fn query_of(input: GetSessionParams, session: SolutionSession) -> EntryQuery {
    EntryQuery {
        filter: input.subagent_filter.deep_view(),
        no_subagents: session.active_subagents@.len() == 0,
        after: input.after_index,
        before: input.before_index,
        include_full_content: input.include_full_content,
        include_images: input.include_images,
    }
}

/// Entry `i` of a session.
fn entry_at(session: &SolutionSession, i: usize) -> (r: &ThreadEntry)
    requires
        i < session_entries(*session).len(),
    ensures
        r.deep_view() == session_entries(*session)[i as int],
{
    let cold: usize = session.cold_entries.len();
    assert(session.cold_entries.deep_view().len() == cold);
    if i < cold {
        &session.cold_entries[i]
    } else {
        let thread = session.acp_thread().unwrap();
        &thread.entries[i - cold]
    }
}

/// What follows on `base` once the images of the entries are numbered from it
/// on, where the numbers do not run out.
fn next_number(entries: &Vec<ThreadEntry>, base: usize) -> (r: Option<usize>)
    ensures
        r is Some <==> numbers_fit_from(entries.deep_view(), base as nat),
        r matches Some(next) ==> next == base + image_base(
            entries.deep_view(),
            entries@.len() as int,
        ),
{
    let ghost all = entries.deep_view();
    let mut next: usize = base;
    let mut i: usize = 0;
    while i < entries.len()
        invariant
            i <= entries@.len(),
            all == entries.deep_view(),
            next == base + image_base(all, i as int),
            forall|k: int|
                0 <= k < i ==> numbers_fit(#[trigger] all[k], base as nat + image_base(all, k)),
        decreases entries@.len() - i,
    {
        let entry = &entries[i];
        assert(all[i as int] == entry.deep_view());
        let images: usize = count_images_in_entry(&entry.entry);
        if images > usize::MAX - next {
            return None;
        }
        if let AgentThreadEntry::AssistantMessage(_) = &entry.entry {
            if count_image_literals(entry.markdown.as_str()) > usize::MAX - next {
                return None;
            }
        }
        next = next + images;
        i += 1;
    }
    Some(next)
}

/// Whether the live entries of a session and their images can be numbered.
pub fn live_entries_fit(session: &SolutionSession) -> (r: bool)
    ensures
        r == can_be_numbered(live_entries(*session)),
{
    match session.acp_thread() {
        Some(thread) => {
            let n: usize = thread.entries.len();
            assert(thread.entries.deep_view().len() == n);
            next_number(&thread.entries, 0).is_some()
        },
        None => true,
    }
}

/// The images before an entry of a sequence made of two.
proof fn lemma_image_base_splits(a: Seq<ThreadEntryView>, b: Seq<ThreadEntryView>, k: int)
    requires
        0 <= k <= a.len() + b.len(),
    ensures
        k <= a.len() ==> image_base(a + b, k) == image_base(a, k),
        k >= a.len() ==> image_base(a + b, k) == image_base(a, a.len() as int) + image_base(
            b,
            k - a.len(),
        ),
    decreases k,
{
    if k > 0 {
        lemma_image_base_splits(a, b, k - 1);
        if k <= a.len() {
            assert((a + b)[k - 1] == a[k - 1]);
        } else {
            assert((a + b)[k - 1] == b[k - 1 - a.len()]);
        }
    }
}

/// A sequence made of two can be numbered if the first can be and the second
/// can be from there on.
proof fn lemma_numbers_fit_splits(a: Seq<ThreadEntryView>, b: Seq<ThreadEntryView>)
    ensures
        numbers_fit_from(a + b, 0) <==> numbers_fit_from(a, 0) && numbers_fit_from(
            b,
            image_base(a, a.len() as int),
        ),
{
    let all = a + b;
    let rest = image_base(a, a.len() as int);
    if numbers_fit_from(all, 0) {
        assert forall|k: int| 0 <= k < a.len() implies numbers_fit(
            #[trigger] a[k],
            0 + image_base(a, k),
        ) by {
            lemma_image_base_splits(a, b, k);
            assert(all[k] == a[k]);
        }
        assert forall|k: int| 0 <= k < b.len() implies numbers_fit(
            #[trigger] b[k],
            rest + image_base(b, k),
        ) by {
            lemma_image_base_splits(a, b, a.len() + k);
            assert(all[a.len() + k] == b[k]);
        }
    }
    if numbers_fit_from(a, 0) && numbers_fit_from(b, rest) {
        assert forall|k: int| 0 <= k < all.len() implies numbers_fit(
            #[trigger] all[k],
            0 + image_base(all, k),
        ) by {
            lemma_image_base_splits(a, b, k);
            if k < a.len() {
                assert(all[k] == a[k]);
            } else {
                assert(all[k] == b[k - a.len()]);
            }
        }
    }
}

/// Whether the entries of a session and their images can be numbered.
pub fn entries_fit(session: &SolutionSession) -> (r: bool)
    ensures
        r == can_be_numbered(session_entries(*session)),
{
    let ghost cold = session.cold_entries.deep_view();
    let ghost live = live_entries(*session);
    proof {
        lemma_numbers_fit_splits(cold, live);
    }
    let cold_len: usize = session.cold_entries.len();
    let next: usize = match next_number(&session.cold_entries, 0) {
        Some(next) => next,
        None => {
            return false;
        },
    };
    match session.acp_thread() {
        Some(thread) => {
            assert(live == thread.entries.deep_view());
            if thread.entries.len() > usize::MAX - cold_len {
                return false;
            }
            next_number(&thread.entries, next).is_some()
        },
        None => true,
    }
}

/// How many entries a session has.
fn count_entries(session: &SolutionSession) -> (r: usize)
    requires
        session_entries(*session).len() <= usize::MAX,
    ensures
        r == session_entries(*session).len(),
{
    let cold: usize = session.cold_entries.len();
    assert(session.cold_entries.deep_view().len() == cold);
    match session.acp_thread() {
        Some(thread) => {
            assert(thread.entries.deep_view().len() == thread.entries@.len());
            cold + thread.entries.len()
        },
        None => cold,
    }
}

/// When entry `index` was made, where that was recorded.
pub fn created_ms_at(stamps: &Vec<i64>, index: usize) -> (r: Option<i64>)
    ensures
        r == stamp_of(stamps@, index as int),
{
    if index < stamps.len() && stamps[index] > 0 {
        Some(stamps[index])
    } else {
        None
    }
}

/// Whether an entry belongs to the thread that was asked for.
fn belongs(entry: &AgentThreadEntry, filter: &Option<String>, no_subagents: bool) -> (r: bool)
    ensures
        r == passes_filter(entry.deep_view(), filter.deep_view(), no_subagents),
{
    match filter {
        None => true,
        Some(wanted) => {
            let main_thread = same_text(wanted.as_str(), MAIN_THREAD_FILTER);
            match entry.subagent_id() {
                Some(id) => if main_thread {
                    no_subagents
                } else {
                    same_text(id.as_str(), wanted.as_str())
                },
                None => main_thread,
            }
        },
    }
}

/// The summaries of the entries that are asked for, and how many entries belong
/// to the sub-agent asked for. Every entry is walked, so that the numbers of
/// the images do not depend on the window.
fn select_entries(input: &GetSessionParams, session: &SolutionSession) -> (r: (
    Vec<EntrySummary>,
    usize,
))
    requires
        can_be_numbered(session_entries(*session)),
    ensures
        ({
            let entries = session_entries(*session);
            let query = query_of(*input, *session);
            &&& r.0.deep_view() == last_n(
                selected(entries, session.entry_created_ms@, query, entries.len() as int),
                input.count,
            )
            &&& r.1 == filtered_count(entries, query, entries.len() as int)
        }),
{
    let ghost entries = session_entries(*session);
    let ghost stamps = session.entry_created_ms@;
    let ghost query = query_of(*input, *session);
    let no_subagents = session.active_subagents.len() == 0;
    let n: usize = count_entries(session);
    let mut image_cursor: usize = 0;
    let mut kept: Vec<EntrySummary> = Vec::new();
    let mut filtered_total: usize = 0;
    let mut index: usize = 0;
    assert(kept.deep_view() =~= selected(entries, stamps, query, 0));
    while index < n
        invariant
            index <= n == entries.len(),
            entries == session_entries(*session),
            stamps == session.entry_created_ms@,
            query == query_of(*input, *session),
            no_subagents == query.no_subagents,
            can_be_numbered(entries),
            image_cursor == image_base(entries, index as int),
            filtered_total <= index,
            filtered_total == filtered_count(entries, query, index as int),
            kept.deep_view() == selected(entries, stamps, query, index as int),
        decreases n - index,
    {
        let entry = entry_at(session, index);
        assert(numbers_fit(entries[index as int], image_base(entries, index as int)));
        let passes = belongs(&entry.entry, &input.subagent_filter, no_subagents);
        if passes {
            filtered_total += 1;
        }
        let above = match input.after_index {
            Some(a) => index > a,
            None => true,
        };
        let below = match input.before_index {
            Some(b) => index < b,
            None => true,
        };
        if passes && above && below {
            let created_ms = created_ms_at(&session.entry_created_ms, index);
            let summary = summarize_entry(
                entry,
                index,
                created_ms,
                input.include_full_content,
                input.include_images,
                &mut image_cursor,
            );
            push_value(&mut kept, summary);
        } else {
            image_cursor = image_cursor + count_images_in_entry(&entry.entry);
        }
        index += 1;
    }
    if let Some(count) = input.count {
        let ghost all = kept.deep_view();
        assert(all.len() == kept@.len());
        if kept.len() > count {
            let from: usize = kept.len() - count;
            kept = kept.split_off(from);
            assert(kept.deep_view() =~= all.skip(from as int));
        }
    }
    (kept, filtered_total)
}

/// What a client is told of a message that waits.
pub open spec fn bundle_summary(
    bundle: PendingBundleView,
    hint: Seq<char>,
) -> QueuedBundleSummaryView {
    QueuedBundleSummaryView {
        csids: send_ids(bundle.blocks),
        preview: queued_preview(bundle.blocks, hint),
        image_count: image_block_count(bundle.blocks) as u32,
    }
}

/// What a client is told of the messages that wait.
pub open spec fn bundle_summaries(bundles: Seq<PendingBundleView>, hint: Seq<char>) -> Seq<
    QueuedBundleSummaryView,
> {
    bundles.map_values(|bundle: PendingBundleView| bundle_summary(bundle, hint))
}

/// What a client is told of the messages that wait.
pub fn build_pending_bundle_summaries(session: &SolutionSession, hint: &str) -> (r: Vec<
    QueuedBundleSummary,
>)
    ensures
        r.deep_view() == bundle_summaries(session.pending_messages.deep_view(), hint@),
{
    let ghost all = session.pending_messages.deep_view();
    let mut out: Vec<QueuedBundleSummary> = Vec::new();
    let mut i: usize = 0;
    while i < session.pending_messages.len()
        invariant
            i <= session.pending_messages@.len(),
            all == session.pending_messages.deep_view(),
            out.deep_view() =~= bundle_summaries(all.take(i as int), hint@),
        decreases session.pending_messages@.len() - i,
    {
        let bundle = &session.pending_messages[i];
        assert(all[i as int] == bundle.deep_view());
        let image_count: u32 = #[verifier::truncate]
        (count_image_blocks(&bundle.blocks) as u32);
        let summary = QueuedBundleSummary {
            csids: csids_from_blocks(&bundle.blocks),
            preview: pending_blocks_preview(&bundle.blocks, hint),
            image_count,
        };
        push_value(&mut out, summary);
        i += 1;
    }
    assert(all.take(i as int) =~= all);
    out
}

/// A session with the part of its conversation that was asked for.
pub open spec fn session_result(
    input: GetSessionParams,
    session: SolutionSession,
    hint: Seq<char>,
    now: ClockReading,
) -> GetSessionResultView {
    let entries = session_entries(session);
    let query = query_of(input, session);
    let summary = summary_of(session, now);
    GetSessionResultView {
        id: summary.id,
        solution_id: summary.solution_id,
        agent_id: summary.agent_id,
        title: summary.title,
        state: summary.state,
        created_at: summary.created_at,
        last_activity_at: summary.last_activity_at,
        total_tokens: summary.total_tokens,
        max_tokens: summary.max_tokens,
        parent_session_id: summary.parent_session_id,
        cwd: summary.cwd,
        entries: last_n(
            selected(entries, session.entry_created_ms@, query, entries.len() as int),
            input.count,
        ),
        total_count: filtered_count(entries, query, entries.len() as int) as usize,
        pending_bundles: bundle_summaries(session.pending_messages.deep_view(), hint),
        active_subagents: summary.active_subagents,
    }
}

/// Gives a session with its conversation.
#[derive(Clone)]
pub struct GetSessionTool;

impl GetSessionTool {
    pub const NAME: &'static str = "solution_agent.get_session";

    /// A session with the part of its conversation that was asked for. `hint` is
    /// the line that the queue may put in front of a message.
    pub fn run(
        &self,
        input: &GetSessionParams,
        sessions: &Vec<SolutionSession>,
        hint: &str,
        now: &ClockReading,
    ) -> (r: Result<ToolResponse<GetSessionResult>, String>)
        requires
            forall|i: int|
                0 <= i < sessions@.len() && may_name(input.session_id@, #[trigger] sessions@[i])
                    ==> can_be_numbered(session_entries(sessions@[i])),
        ensures
            match requested_session(input.session_id@) {
                Ok(id) => match find_session(sessions@, id) {
                    Some(i) => {
                        &&& r is Ok
                        &&& r->Ok_0.result.deep_view() == session_result(
                            *input,
                            sessions@[i],
                            hint@,
                            *now,
                        )
                        &&& r->Ok_0.text@ == sessions@[i].title@
                    },
                    None => r is Err && r->Err_0@ == "session_not_found: "@ + id,
                },
                Err(message) => r is Err && r->Err_0@ == message,
            },
    {
        let session_id = match parse_requested_session(input.session_id.as_str()) {
            Ok(id) => id,
            Err(message) => {
                return Err(message);
            },
        };
        proof {
            lemma_named_session_may_be_named(input.session_id@, sessions@, session_id@);
        }
        let session = match position_of_session(sessions, &session_id) {
            Some(i) => &sessions[i],
            None => {
                return Err(say_of_session("session_not_found: ", &session_id));
            },
        };
        let (entries, total_count) = select_entries(input, session);
        let summary = session_summary(session, now);
        let pending_bundles = build_pending_bundle_summaries(session, hint);
        let text = summary.title.clone();
        Ok(
            ToolResponse {
                text,
                result: GetSessionResult {
                    id: summary.id,
                    solution_id: summary.solution_id,
                    agent_id: summary.agent_id,
                    title: summary.title,
                    state: summary.state,
                    created_at: summary.created_at,
                    last_activity_at: summary.last_activity_at,
                    total_tokens: summary.total_tokens,
                    max_tokens: summary.max_tokens,
                    parent_session_id: summary.parent_session_id,
                    cwd: summary.cwd,
                    entries,
                    total_count,
                    pending_bundles,
                    active_subagents: summary.active_subagents,
                },
            },
        )
    }
}

/// A selection names every entry by its position and describes it in a way that
/// depends on neither bound, so answers to different windows can be put
/// together.
pub proof fn law_windows_agree(
    entries: Seq<ThreadEntryView>,
    stamps: Seq<i64>,
    query: EntryQuery,
    k: int,
)
    requires
        0 <= k <= entries.len() <= usize::MAX,
    ensures
        forall|i: int|
            0 <= i < selected(entries, stamps, query, k).len() ==> {
                let item = #[trigger] selected(entries, stamps, query, k)[i];
                &&& (item.index as int) < k
                &&& is_selected(entries, query, item.index as int)
                &&& item == summary_at(entries, stamps, query, item.index as int)
            },
        forall|i: int, j: int|
            0 <= i < j < selected(entries, stamps, query, k).len() ==> (#[trigger] selected(
                entries,
                stamps,
                query,
                k,
            )[i]).index < (#[trigger] selected(entries, stamps, query, k)[j]).index,
        forall|m: int|
            0 <= m < k && #[trigger] is_selected(entries, query, m) ==> selected(
                entries,
                stamps,
                query,
                k,
            ).contains(summary_at(entries, stamps, query, m)),
    decreases k,
{
    if k > 0 {
        law_windows_agree(entries, stamps, query, k - 1);
        let before = selected(entries, stamps, query, k - 1);
        let all = selected(entries, stamps, query, k);
        assert forall|i: int| 0 <= i < all.len() implies {
            let item = #[trigger] all[i];
            &&& (item.index as int) < k
            &&& is_selected(entries, query, item.index as int)
            &&& item == summary_at(entries, stamps, query, item.index as int)
        } by {
            if i < before.len() {
                assert(all[i] == before[i]);
            }
        }
        assert forall|i: int, j: int| 0 <= i < j < all.len() implies (#[trigger] all[i]).index < (
        #[trigger] all[j]).index by {
            assert(all[i] == before[i]);
            if j < before.len() {
                assert(all[j] == before[j]);
            }
        }
        assert forall|m: int| 0 <= m < k && #[trigger] is_selected(
            entries,
            query,
            m,
        ) implies all.contains(summary_at(entries, stamps, query, m)) by {
            if m < k - 1 {
                assert(before.contains(summary_at(entries, stamps, query, m)));
                let j = choose|j: int|
                    0 <= j < before.len() && before[j] == summary_at(entries, stamps, query, m);
                assert(all[j] == before[j]);
            } else {
                assert(all[all.len() - 1] == summary_at(entries, stamps, query, m));
            }
        }
    }
}

/// What lies before position `split` and what lies from there on make up the
/// whole selection.
pub proof fn law_pages_make_up_the_whole(
    entries: Seq<ThreadEntryView>,
    stamps: Seq<i64>,
    query: EntryQuery,
    split: usize,
)
    requires
        query.after is None,
        query.before is None,
        0 < split <= entries.len(),
    ensures
        selected(
            entries,
            stamps,
            (EntryQuery { before: Some(split), ..query }),
            entries.len() as int,
        ) + selected(
            entries,
            stamps,
            (EntryQuery { after: Some((split - 1) as usize), ..query }),
            entries.len() as int,
        ) == selected(entries, stamps, query, entries.len() as int),
{
    let older = EntryQuery { before: Some(split), ..query };
    let newer = EntryQuery { after: Some((split - 1) as usize), ..query };
    lemma_pages(entries, stamps, query, split, entries.len() as int);
}

/// The two pages over the first `k` entries.
proof fn lemma_pages(
    entries: Seq<ThreadEntryView>,
    stamps: Seq<i64>,
    query: EntryQuery,
    split: usize,
    k: int,
)
    requires
        query.after is None,
        query.before is None,
        0 < split <= entries.len(),
        0 <= k <= entries.len(),
    ensures
        selected(entries, stamps, (EntryQuery { before: Some(split), ..query }), k) + selected(
            entries,
            stamps,
            (EntryQuery { after: Some((split - 1) as usize), ..query }),
            k,
        ) == selected(entries, stamps, query, k),
        k <= split ==> selected(
            entries,
            stamps,
            (EntryQuery { after: Some((split - 1) as usize), ..query }),
            k,
        ).len() == 0,
    decreases k,
{
    let older = EntryQuery { before: Some(split), ..query };
    let newer = EntryQuery { after: Some((split - 1) as usize), ..query };
    if k > 0 {
        lemma_pages(entries, stamps, query, split, k - 1);
        let item = summary_at(entries, stamps, query, k - 1);
        assert(summary_at(entries, stamps, older, k - 1) == item);
        assert(summary_at(entries, stamps, newer, k - 1) == item);
    }
    assert(selected(entries, stamps, older, k) + selected(entries, stamps, newer, k) =~= selected(
        entries,
        stamps,
        query,
        k,
    ));
}

/// The total depends on the sub-agent asked for alone, not on the window.
pub proof fn law_total_ignores_the_window(
    entries: Seq<ThreadEntryView>,
    a: EntryQuery,
    b: EntryQuery,
    k: int,
)
    requires
        a.filter == b.filter,
        a.no_subagents == b.no_subagents,
    ensures
        filtered_count(entries, a, k) == filtered_count(entries, b, k),
    decreases k,
{
    if k > 0 {
        law_total_ignores_the_window(entries, a, b, k - 1);
    }
}

/// Without a window, as many summaries are selected as the total says.
pub proof fn law_total_counts_the_selection(
    entries: Seq<ThreadEntryView>,
    stamps: Seq<i64>,
    query: EntryQuery,
    k: int,
)
    requires
        query.after is None,
        query.before is None,
    ensures
        selected(entries, stamps, query, k).len() == filtered_count(entries, query, k),
    decreases k,
{
    if k > 0 {
        law_total_counts_the_selection(entries, stamps, query, k - 1);
    }
}

/// Gives one entry of a session.
#[derive(Clone)]
pub struct GetSessionEntryTool;

impl GetSessionEntryTool {
    pub const NAME: &'static str = "solution_agent.get_session_entry";

    /// One entry of a session of which the agent is running, whole.
    pub fn run(&self, input: &GetSessionEntryParams, sessions: &Vec<SolutionSession>) -> (r:
        Result<ToolResponse<GetSessionEntryResult>, String>)
        requires
            forall|i: int|
                0 <= i < sessions@.len() && may_name(input.session_id@, #[trigger] sessions@[i])
                    ==> can_be_numbered(live_entries(sessions@[i])),
        ensures
            match requested_session(input.session_id@) {
                Ok(id) => match find_session(sessions@, id) {
                    Some(i) => {
                        let session = sessions@[i];
                        let entries = live_entries(session);
                        if session.thread() is None {
                            r is Err && r->Err_0@ == "session_has_no_thread: "@ + id
                        } else if input.index >= entries.len() {
                            &&& r is Err
                            &&& r->Err_0@ == "entry_index_out_of_range: "@ + decimal(
                                input.index as nat,
                            ) + " (session has "@ + decimal(entries.len()) + " entries)"@
                        } else {
                            &&& r is Ok
                            &&& r->Ok_0.result.entry.deep_view() == entry_summary(
                                entries[input.index as int],
                                input.index as nat,
                                stamp_of(session.entry_created_ms@, input.index as int),
                                true,
                                input.include_images,
                                image_base(entries, input.index as int),
                            )
                            &&& r->Ok_0.text@ == "entry #"@ + decimal(input.index as nat)
                        }
                    },
                    None => r is Err && r->Err_0@ == "session_not_found: "@ + id,
                },
                Err(message) => r is Err && r->Err_0@ == message,
            },
    {
        let session_id = match parse_requested_session(input.session_id.as_str()) {
            Ok(id) => id,
            Err(message) => {
                return Err(message);
            },
        };
        proof {
            lemma_named_session_may_be_named(input.session_id@, sessions@, session_id@);
        }
        let session = match position_of_session(sessions, &session_id) {
            Some(i) => &sessions[i],
            None => {
                return Err(say_of_session("session_not_found: ", &session_id));
            },
        };
        let thread = match session.acp_thread() {
            Some(thread) => thread,
            None => {
                return Err(say_of_session("session_has_no_thread: ", &session_id));
            },
        };
        let ghost entries = live_entries(*session);
        let len: usize = thread.entries.len();
        assert(len == entries.len());
        if input.index >= len {
            let mut message = "entry_index_out_of_range: ".to_owned();
            let index_text = print_u64(input.index as u64);
            message.append(index_text.as_str());
            message.append(" (session has ");
            let len_text = print_u64(len as u64);
            message.append(len_text.as_str());
            message.append(" entries)");
            return Err(message);
        }
        let mut image_cursor: usize = 0;
        let mut i: usize = 0;
        while i < input.index
            invariant
                i <= input.index < entries.len(),
                entries == thread.entries.deep_view(),
                can_be_numbered(entries),
                image_cursor == image_base(entries, i as int),
            decreases input.index - i,
        {
            assert(entries[i as int] == thread.entries@[i as int].deep_view());
            assert(numbers_fit(entries[i as int], image_base(entries, i as int)));
            image_cursor = image_cursor + count_images_in_entry(&thread.entries[i].entry);
            i += 1;
        }
        assert(entries[i as int] == thread.entries@[i as int].deep_view());
        assert(numbers_fit(entries[i as int], image_base(entries, i as int)));
        let created_ms = created_ms_at(&session.entry_created_ms, input.index);
        let entry = summarize_entry(
            &thread.entries[input.index],
            input.index,
            created_ms,
            true,
            input.include_images,
            &mut image_cursor,
        );
        let mut text = "entry #".to_owned();
        let index_text = print_u64(input.index as u64);
        text.append(index_text.as_str());
        Ok(ToolResponse { text, result: GetSessionEntryResult { entry } })
    }
}

/// Where nothing is left from before a restart, asking for one entry gives the
/// same summary as asking for the whole conversation.
pub proof fn law_single_entry_agrees(session: SolutionSession, query: EntryQuery, index: int)
    requires
        session.cold_entries@.len() == 0,
        0 <= index < live_entries(session).len(),
        query.include_full_content,
    ensures
        summary_at(session_entries(session), session.entry_created_ms@, query, index)
            == entry_summary(
            live_entries(session)[index],
            index as nat,
            stamp_of(session.entry_created_ms@, index),
            true,
            query.include_images,
            image_base(live_entries(session), index),
        ),
{
    assert(session_entries(session) =~= live_entries(session));
}

/// The page of a transcript that was asked for.
pub open spec fn history_page(
    entries: Seq<Seq<char>>,
    offset: Option<usize>,
    limit: Option<usize>,
) -> Seq<Seq<char>> {
    let from = match offset {
        Some(n) => n as int,
        None => 0,
    };
    let asked = match limit {
        Some(n) => n as int,
        None => HISTORY_DEFAULT_LIMIT as int,
    };
    let most = if asked > HISTORY_HARD_LIMIT {
        HISTORY_HARD_LIMIT as int
    } else {
        asked
    };
    if from >= entries.len() {
        Seq::empty()
    } else if from + most >= entries.len() {
        entries.skip(from)
    } else {
        entries.subrange(from, from + most)
    }
}

/// A page never holds more than the most that is returned at once, and all its
/// entries are entries of the transcript, in order.
pub proof fn law_history_pages_are_bounded(
    entries: Seq<Seq<char>>,
    offset: Option<usize>,
    limit: Option<usize>,
)
    ensures
        history_page(entries, offset, limit).len() <= HISTORY_HARD_LIMIT,
        limit matches Some(n) ==> history_page(entries, offset, limit).len() <= n,
        forall|i: int|
            0 <= i < history_page(entries, offset, limit).len() ==> #[trigger] history_page(
                entries,
                offset,
                limit,
            )[i] == entries[i + (match offset {
                Some(n) => n as int,
                None => 0,
            })],
{
}

/// The page of a transcript that was asked for.
fn cut_page(entries: &Vec<String>, offset: Option<usize>, limit: Option<usize>) -> (r: Vec<String>)
    ensures
        r.deep_view() == history_page(entries.deep_view(), offset, limit),
{
    let ghost all = entries.deep_view();
    let from: usize = match offset {
        Some(n) => n,
        None => 0,
    };
    let asked: usize = match limit {
        Some(n) => n,
        None => HISTORY_DEFAULT_LIMIT,
    };
    let most: usize = if asked > HISTORY_HARD_LIMIT {
        HISTORY_HARD_LIMIT
    } else {
        asked
    };
    let mut out: Vec<String> = Vec::new();
    let mut i: usize = 0;
    while i < most && from < entries.len() && i < entries.len() - from
        invariant
            i <= most,
            all == entries.deep_view(),
            from < all.len() ==> i <= all.len() - from,
            from >= all.len() ==> i == 0,
            out@.len() == i,
            forall|k: int| 0 <= k < i ==> (#[trigger] out@[k])@ == all[from + k],
        decreases most - i,
    {
        assert(all[from + i] == entries@[from + i]@);
        out.push(entries[from + i].clone());
        i += 1;
    }
    assert(out.deep_view() =~= history_page(all, offset, limit));
    out
}

/// What was kept of a closed session.
#[derive(Clone, Debug)]
pub enum Archive {
    /// Its title and the markdown of its entries.
    Found { title: String, entries: Vec<String> },
    /// Something that cannot be read.
    Unreadable,
    /// Nothing.
    Missing,
}

/// The answer that gives a page of a transcript.
fn history_response(
    session_id: &SolutionSessionId,
    source: &str,
    title: String,
    entries: &Vec<String>,
    input: &ReadSessionHistoryParams,
) -> (r: ToolResponse<ReadSessionHistoryResult>)
    ensures
        is_history(r, session_id@, source@, title@, entries.deep_view(), *input),
{
    assert(entries@.len() == entries.deep_view().len());
    let page = cut_page(entries, input.offset, input.limit);
    assert(page@.len() == page.deep_view().len());
    let total_entries: usize = entries.len();
    let returned_entries: usize = page.len();
    let mut text = print_u64(returned_entries as u64);
    text.append("/");
    let total_text = print_u64(total_entries as u64);
    text.append(total_text.as_str());
    text.append(" entries (");
    text.append(source);
    text.append(")");
    ToolResponse {
        text,
        result: ReadSessionHistoryResult {
            session_id: session_id.as_str().to_owned(),
            source: source.to_owned(),
            title,
            total_entries,
            returned_entries,
            entries: page,
        },
    }
}

/// Whether `r` gives the page asked for of the given transcript.
pub open spec fn is_history(
    r: ToolResponse<ReadSessionHistoryResult>,
    id: Seq<char>,
    source: Seq<char>,
    title: Seq<char>,
    entries: Seq<Seq<char>>,
    input: ReadSessionHistoryParams,
) -> bool {
    let page = history_page(entries, input.offset, input.limit);
    &&& r.result.session_id@ == id
    &&& r.result.source@ == source
    &&& r.result.title@ == title
    &&& r.result.total_entries == entries.len()
    &&& r.result.returned_entries == page.len()
    &&& r.result.entries.deep_view() == page
    &&& r.text@ == decimal(page.len()) + "/"@ + decimal(entries.len()) + " entries ("@ + source
        + ")"@
}

/// The markdown of the entries of an open session, if it has a running agent.
pub fn live_transcript(session: &SolutionSession) -> (r: Option<Vec<String>>)
    ensures
        match r {
            Some(entries) => session.thread() is Some && entries.deep_view() == live_entries(
                *session,
            ).map_values(|entry: ThreadEntryView| entry.markdown),
            None => session.thread() is None,
        },
{
    let thread = match session.acp_thread() {
        Some(thread) => thread,
        None => {
            return None;
        },
    };
    let ghost all = thread.entries.deep_view();
    let ghost texts = all.map_values(|entry: ThreadEntryView| entry.markdown);
    let mut out: Vec<String> = Vec::new();
    let mut i: usize = 0;
    while i < thread.entries.len()
        invariant
            i <= thread.entries@.len(),
            all == thread.entries.deep_view(),
            texts == all.map_values(|entry: ThreadEntryView| entry.markdown),
            out.deep_view() =~= texts.take(i as int),
        decreases thread.entries@.len() - i,
    {
        assert(all[i as int] == thread.entries@[i as int].deep_view());
        push_value(&mut out, thread.entries[i].markdown.clone());
        i += 1;
    }
    assert(texts.take(i as int) =~= texts);
    Some(out)
}

/// Gives the transcript of a session.
#[derive(Clone)]
pub struct ReadSessionHistoryTool;

impl ReadSessionHistoryTool {
    pub const NAME: &'static str = "solution_agent.read_session_history";

    /// A page of the transcript of a session that is open and has a running
    /// agent. For any other session there is none, and what was kept of it has
    /// to be looked up.
    pub fn run(&self, input: &ReadSessionHistoryParams, sessions: &Vec<SolutionSession>) -> (r:
        Result<Option<ToolResponse<ReadSessionHistoryResult>>, String>)
        ensures
            match requested_session(input.session_id@) {
                Ok(id) => match open_transcript(sessions@, id) {
                    Some(i) => r is Ok && r->Ok_0 is Some && is_history(
                        r->Ok_0->Some_0,
                        id,
                        "live"@,
                        sessions@[i].title@,
                        live_entries(sessions@[i]).map_values(
                            |entry: ThreadEntryView| entry.markdown,
                        ),
                        *input,
                    ),
                    None => r is Ok && r->Ok_0 is None,
                },
                Err(message) => r is Err && r->Err_0@ == message,
            },
    {
        let session_id = match parse_requested_session(input.session_id.as_str()) {
            Ok(id) => id,
            Err(message) => {
                return Err(message);
            },
        };
        let session = match position_of_session(sessions, &session_id) {
            Some(i) => &sessions[i],
            None => {
                return Ok(None);
            },
        };
        match live_transcript(session) {
            Some(entries) => Ok(
                Some(history_response(&session_id, "live", session.title.clone(), &entries, input)),
            ),
            None => Ok(None),
        }
    }

    /// A page of the transcript of a session, given what was kept of it.
    pub fn run_archived(&self, input: &ReadSessionHistoryParams, kept: Archive) -> (r: Result<
        ToolResponse<ReadSessionHistoryResult>,
        String,
    >)
        ensures
            match requested_session(input.session_id@) {
                Ok(id) => match kept {
                    Archive::Found { title, entries } => r is Ok && is_history(
                        r->Ok_0,
                        id,
                        "archived"@,
                        title@,
                        entries.deep_view(),
                        *input,
                    ),
                    Archive::Unreadable => r is Err && r->Err_0@
                        == "decoding archived session "@ + id,
                    Archive::Missing => r is Err && r->Err_0@ == "session_not_found: "@ + id
                        + " is neither open nor archived in the database"@,
                },
                Err(message) => r is Err && r->Err_0@ == message,
            },
    {
        let session_id = match parse_requested_session(input.session_id.as_str()) {
            Ok(id) => id,
            Err(message) => {
                return Err(message);
            },
        };
        match kept {
            Archive::Found { title, entries } => Ok(
                history_response(&session_id, "archived", title, &entries, input),
            ),
            Archive::Unreadable => Err(say_of_session("decoding archived session ", &session_id)),
            Archive::Missing => {
                let mut message = say_of_session("session_not_found: ", &session_id);
                message.append(" is neither open nor archived in the database");
                Err(message)
            },
        }
    }
}

/// The position of the session with the given id, where it has a running agent.
pub open spec fn open_transcript(sessions: Seq<SolutionSession>, id: Seq<char>) -> Option<int> {
    match find_session(sessions, id) {
        Some(i) => if sessions[i].thread() is Some {
            Some(i)
        } else {
            None
        },
        None => None,
    }
}

/// The first tool call with the given id.
pub open spec fn call_of(entries: Seq<ThreadEntryView>, id: Seq<char>) -> Option<ToolCallView>
    decreases entries.len(),
{
    if entries.len() == 0 {
        None
    } else {
        match entries[0].entry {
            AgentThreadEntryView::ToolCall(call) => if call.id == id {
                Some(call)
            } else {
                call_of(entries.drop_first(), id)
            },
            _ => call_of(entries.drop_first(), id),
        }
    }
}

/// The first tool call with the given id.
fn find_call<'a>(entries: &'a Vec<ThreadEntry>, id: &str) -> (r: Option<&'a ToolCall>)
    ensures
        match r {
            Some(call) => call_of(entries.deep_view(), id@) == Some(call.deep_view()),
            None => call_of(entries.deep_view(), id@) is None,
        },
{
    let ghost all = entries.deep_view();
    let mut i: usize = 0;
    assert(all.skip(0) =~= all);
    while i < entries.len()
        invariant
            i <= entries@.len(),
            all == entries.deep_view(),
            call_of(all, id@) == call_of(all.skip(i as int), id@),
        decreases entries@.len() - i,
    {
        assert(all[i as int] == entries@[i as int].deep_view());
        assert(all.skip(i as int).drop_first() =~= all.skip(i as int + 1));
        if let AgentThreadEntry::ToolCall(call) = &entries[i].entry {
            if same_text(call.id.as_str(), id) {
                return Some(call);
            }
        }
        i += 1;
    }
    None
}

/// The first button with the given option id.
pub open spec fn button_with(buttons: Seq<PermissionButtonView>, option_id: Seq<char>) -> Option<
    PermissionButtonView,
>
    decreases buttons.len(),
{
    if buttons.len() == 0 {
        None
    } else if buttons[0].option_id == option_id {
        Some(buttons[0])
    } else {
        button_with(buttons.drop_first(), option_id)
    }
}

/// The answer that an option id stands for, or what is wrong.
pub open spec fn authorization_outcome(
    entries: Seq<ThreadEntryView>,
    tool_call_id: Seq<char>,
    option_id: Seq<char>,
) -> Result<SelectedPermissionOutcomeView, Seq<char>> {
    match call_of(entries, tool_call_id) {
        None => Err("tool_call_not_found: "@ + tool_call_id),
        Some(call) => match call.status {
            ToolCallStatusView::WaitingForConfirmation { options } => match button_with(
                buttons_of(options),
                option_id,
            ) {
                Some(button) => Ok(button.outcome()),
                None => Err("unknown_option: "@ + option_id),
            },
            _ => Err("not_awaiting_confirmation: "@ + tool_call_id),
        },
    }
}

/// A prefix and a text behind it.
fn say_of(prefix: &str, text: &str) -> (r: String)
    ensures
        r@ == prefix@ + text@,
{
    let mut message = prefix.to_owned();
    message.append(text);
    message
}

/// The answer that an option id stands for: the answer is rebuilt from what the
/// agent offers, so nothing can be answered that was not offered.
pub fn resolve_authorization_outcome(
    entries: &Vec<ThreadEntry>,
    tool_call_id: &str,
    option_id: &str,
) -> (r: Result<SelectedPermissionOutcome, String>)
    ensures
        match r {
            Ok(outcome) => authorization_outcome(entries.deep_view(), tool_call_id@, option_id@)
                == Ok::<SelectedPermissionOutcomeView, Seq<char>>(outcome.deep_view()),
            Err(message) => authorization_outcome(entries.deep_view(), tool_call_id@, option_id@)
                == Err::<SelectedPermissionOutcomeView, Seq<char>>(message@),
        },
{
    let call = match find_call(entries, tool_call_id) {
        Some(call) => call,
        None => {
            return Err(say_of("tool_call_not_found: ", tool_call_id));
        },
    };
    match &call.status {
        ToolCallStatus::WaitingForConfirmation { options } => {
            let buttons = permission_buttons(options);
            let ghost all = buttons.deep_view();
            let mut i: usize = 0;
            assert(all.skip(0) =~= all);
            while i < buttons.len()
                invariant
                    i <= buttons@.len(),
                    all == buttons.deep_view(),
                    button_with(all, option_id@) == button_with(all.skip(i as int), option_id@),
                    call_of(entries.deep_view(), tool_call_id@) matches Some(found)
                        && found.status matches ToolCallStatusView::WaitingForConfirmation {
                        options: offered,
                    } && buttons_of(offered) == all,
                decreases buttons@.len() - i,
            {
                assert(all[i as int] == buttons@[i as int].deep_view());
                assert(all.skip(i as int).drop_first() =~= all.skip(i as int + 1));
                if same_text(buttons[i].option_id.as_str(), option_id) {
                    return Ok(buttons[i].outcome());
                }
                i += 1;
            }
            Err(say_of("unknown_option: ", option_id))
        },
        _ => Err(say_of("not_awaiting_confirmation: ", tool_call_id)),
    }
}

/// An answer is given only to a call that waits for one, and only one that was
/// offered.
pub proof fn law_only_offered_answers(
    entries: Seq<ThreadEntryView>,
    tool_call_id: Seq<char>,
    option_id: Seq<char>,
)
    ensures
        authorization_outcome(entries, tool_call_id, option_id) matches Ok(outcome) ==> {
            &&& call_of(entries, tool_call_id) matches Some(call)
            &&& call.status matches ToolCallStatusView::WaitingForConfirmation { options }
            &&& exists|i: int|
                0 <= i < buttons_of(options).len() && (#[trigger] buttons_of(options)[i]).option_id
                    == option_id && buttons_of(options)[i].outcome() == outcome
        },
{
    if let Some(call) = call_of(entries, tool_call_id) {
        if let ToolCallStatusView::WaitingForConfirmation { options } = call.status {
            lemma_button_with(buttons_of(options), option_id);
        }
    }
}

/// What is found is one of the buttons and has the id.
proof fn lemma_button_with(buttons: Seq<PermissionButtonView>, option_id: Seq<char>)
    ensures
        button_with(buttons, option_id) matches Some(button) ==> button.option_id == option_id
            && exists|i: int| 0 <= i < buttons.len() && #[trigger] buttons[i] == button,
    decreases buttons.len(),
{
    if buttons.len() > 0 && buttons[0].option_id != option_id {
        let rest = buttons.drop_first();
        lemma_button_with(rest, option_id);
        if let Some(button) = button_with(rest, option_id) {
            let i = choose|i: int| 0 <= i < rest.len() && #[trigger] rest[i] == button;
            assert(buttons[i + 1] == button);
        }
    }
}

/// What is wrong with an answer to a permission request, before the session is
/// looked at.
pub open spec fn authorization_params(input: AuthorizeToolCallParams) -> Result<
    Seq<char>,
    Seq<char>,
> {
    if input.session_id@.len() == 0 {
        Err(missing_param("session_id"@))
    } else if input.tool_call_id@.len() == 0 {
        Err(missing_param("tool_call_id"@))
    } else if input.option_id@.len() == 0 {
        Err(missing_param("option_id"@))
    } else {
        requested_session(input.session_id@)
    }
}

/// Answers a permission request.
#[derive(Clone)]
pub struct AuthorizeToolCallTool;

impl AuthorizeToolCallTool {
    pub const NAME: &'static str = "solution_agent.authorize_tool_call";

    /// The answer to hand to the agent for an answer to a permission request.
    pub fn run(&self, input: &AuthorizeToolCallParams, sessions: &Vec<SolutionSession>) -> (r:
        Result<SelectedPermissionOutcome, String>)
        ensures
            match authorization_params(*input) {
                Ok(id) => match find_session(sessions@, id) {
                    Some(i) => match sessions@[i].thread() {
                        Some(thread) => match authorization_outcome(
                            thread.entries.deep_view(),
                            input.tool_call_id@,
                            input.option_id@,
                        ) {
                            Ok(outcome) => r is Ok && r->Ok_0.deep_view() == outcome,
                            Err(message) => r is Err && r->Err_0@ == message,
                        },
                        None => r is Err && r->Err_0@ == "session_has_no_thread: "@ + id,
                    },
                    None => r is Err && r->Err_0@ == "session_not_found: "@ + id,
                },
                Err(message) => r is Err && r->Err_0@ == message,
            },
    {
        if let Err(message) = require_param(input.session_id.as_str(), "session_id") {
            return Err(message);
        }
        if let Err(message) = require_param(input.tool_call_id.as_str(), "tool_call_id") {
            return Err(message);
        }
        if let Err(message) = require_param(input.option_id.as_str(), "option_id") {
            return Err(message);
        }
        let session_id = match parse_requested_session(input.session_id.as_str()) {
            Ok(id) => id,
            Err(message) => {
                return Err(message);
            },
        };
        match position_of_session(sessions, &session_id) {
            Some(i) => match sessions[i].acp_thread() {
                Some(thread) => resolve_authorization_outcome(
                    &thread.entries,
                    input.tool_call_id.as_str(),
                    input.option_id.as_str(),
                ),
                None => Err(say_of_session("session_has_no_thread: ", &session_id)),
            },
            None => Err(say_of_session("session_not_found: ", &session_id)),
        }
    }

    /// The answer once the agent has it.
    pub fn respond(&self) -> (r: ToolResponse<AuthorizeToolCallResult>)
        ensures
            r.text@ == "authorized"@,
            r.result.ok,
    {
        ToolResponse { text: "authorized".to_owned(), result: AuthorizeToolCallResult { ok: true } }
    }
}

} // verus!
