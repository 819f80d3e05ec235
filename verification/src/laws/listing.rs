//! What the lists of sessions hold.
use crate::clock::ClockReading;
use crate::mcp::dto::{SessionStateDtoView, SessionSummary, SessionSummaryView};
use crate::mcp::sessions::{
    active_before, children_of, in_order, is_wanted, listing, solution_count, subagents_of,
    summary_of, tab_of, wanted_summaries, SessionOrder,
};
use crate::model::{SessionState, SolutionSession, SubagentTab};
use crate::ordering::law_sorting_orders_and_keeps;
use vstd::prelude::*;

verus! {

/// Whether a session is in the solution, has the parent and was active before the
/// time that a listing asks for.
pub open spec fn is_asked_for(
    session: SolutionSession,
    solution: Option<Seq<char>>,
    parent: Option<Seq<char>>,
    before: Option<i64>,
) -> bool {
    &&& solution is None || session.solution_id@ == solution->0
    &&& parent is None || (session.parent_session_id is Some && session.parent_session_id->0@
        == parent->0)
    &&& before is None || (session.last_activity_at.millis() as i64) < before->0
}

/// Whether `x` is the summary of a session that was asked for.
pub open spec fn tells_of_one(
    x: SessionSummaryView,
    sessions: Seq<SolutionSession>,
    solution: Option<Seq<char>>,
    parent: Option<Seq<char>>,
    before: Option<i64>,
    now: ClockReading,
) -> bool {
    exists|k: int|
        0 <= k < sessions.len() && is_asked_for(#[trigger] sessions[k], solution, parent, before)
            && x == summary_of(sessions[k], now)
}

/// Every summary is that of a session that was asked for, and every such session
/// has its summary.
proof fn lemma_wanted(
    sessions: Seq<SolutionSession>,
    solution: Option<Seq<char>>,
    parent: Option<Seq<char>>,
    now: ClockReading,
)
    ensures
        forall|x: SessionSummaryView| #[trigger]
            wanted_summaries(sessions, solution, parent, now).contains(x) <==> exists|k: int|
                0 <= k < sessions.len() && is_asked_for(
                    #[trigger] sessions[k],
                    solution,
                    parent,
                    None,
                ) && x == summary_of(sessions[k], now),
    decreases sessions.len(),
{
    let all = wanted_summaries(sessions, solution, parent, now);
    if sessions.len() == 0 {
        assert forall|x: SessionSummaryView| !(#[trigger] all.contains(x)) by {}
    } else {
        let rest = sessions.drop_last();
        let before = wanted_summaries(rest, solution, parent, now);
        lemma_wanted(rest, solution, parent, now);
        let last = sessions.last();
        assert(is_wanted(last, solution, parent) == is_asked_for(last, solution, parent, None));
        assert forall|x: SessionSummaryView| #[trigger] all.contains(x) implies exists|k: int|
            0 <= k < sessions.len() && is_asked_for(#[trigger] sessions[k], solution, parent, None)
                && x == summary_of(sessions[k], now) by {
            if before.contains(x) {
                let k = choose|k: int|
                    0 <= k < rest.len() && is_asked_for(#[trigger] rest[k], solution, parent, None)
                        && x == summary_of(rest[k], now);
                assert(sessions[k] == rest[k]);
            } else {
                let i = choose|i: int| 0 <= i < all.len() && all[i] == x;
                if i < before.len() {
                    assert(before[i] == x);
                }
                assert(sessions[sessions.len() - 1] == last);
            }
        }
        assert forall|x: SessionSummaryView|
            (exists|k: int|
                0 <= k < sessions.len() && is_asked_for(
                    #[trigger] sessions[k],
                    solution,
                    parent,
                    None,
                ) && x == summary_of(sessions[k], now)) implies #[trigger] all.contains(x) by {
            let k = choose|k: int|
                0 <= k < sessions.len() && is_asked_for(
                    #[trigger] sessions[k],
                    solution,
                    parent,
                    None,
                ) && x == summary_of(sessions[k], now);
            if k < rest.len() {
                assert(rest[k] == sessions[k]);
                assert(before.contains(x));
                let i = choose|i: int| 0 <= i < before.len() && before[i] == x;
                assert(all[i] == x);
            } else {
                assert(all[all.len() - 1] == x);
            }
        }
    }
}

/// Cutting off at a time keeps what is older, and its order.
proof fn lemma_older(items: Seq<SessionSummaryView>, before: Option<i64>)
    ensures
        forall|x: SessionSummaryView| #[trigger]
            active_before(items, before).contains(x) <==> items.contains(x) && (before is None
                || x.last_activity_at < before->0),
        (forall|i: int, j: int|
            0 <= i < j < items.len() ==> (#[trigger] items[i]).last_activity_at >= (
            #[trigger] items[j]).last_activity_at) ==> forall|i: int, j: int|
            0 <= i < j < active_before(items, before).len() ==> (#[trigger] active_before(
                items,
                before,
            )[i]).last_activity_at >= (#[trigger] active_before(items, before)[j]).last_activity_at,
        active_before(items, before).len() <= items.len(),
    decreases items.len(),
{
    reveal(Seq::filter);
    let all = active_before(items, before);
    if before is Some && items.len() > 0 {
        let rest = items.drop_last();
        lemma_older(rest, before);
        let kept = active_before(rest, before);
        let last = items.last();
        assert(all == if last.last_activity_at < before->0 {
            kept.push(last)
        } else {
            kept
        });
        assert forall|x: SessionSummaryView| #[trigger] all.contains(x) <==> items.contains(x)
            && x.last_activity_at < before->0 by {
            if all.contains(x) {
                let i = choose|i: int| 0 <= i < all.len() && all[i] == x;
                if i < kept.len() {
                    assert(kept.contains(kept[i]));
                    let k = choose|k: int| 0 <= k < rest.len() && rest[k] == x;
                    assert(items[k] == x);
                } else {
                    assert(items[items.len() - 1] == x);
                }
            }
            if items.contains(x) && x.last_activity_at < before->0 {
                let k = choose|k: int| 0 <= k < items.len() && items[k] == x;
                if k < rest.len() {
                    assert(rest[k] == x);
                    assert(kept.contains(x));
                    let i = choose|i: int| 0 <= i < kept.len() && kept[i] == x;
                    assert(all[i] == x);
                } else {
                    assert(all[all.len() - 1] == x);
                }
            }
        }
        if forall|i: int, j: int|
            0 <= i < j < items.len() ==> (#[trigger] items[i]).last_activity_at >= (
            #[trigger] items[j]).last_activity_at {
            assert forall|i: int, j: int| 0 <= i < j < rest.len() implies (
            #[trigger] rest[i]).last_activity_at >= (#[trigger] rest[j]).last_activity_at by {
                assert(items[i].last_activity_at >= items[j].last_activity_at);
            }
            assert forall|i: int, j: int| 0 <= i < j < all.len() implies (
            #[trigger] all[i]).last_activity_at >= (#[trigger] all[j]).last_activity_at by {
                if j < kept.len() {
                    assert(kept[i].last_activity_at >= kept[j].last_activity_at);
                } else {
                    assert(kept.contains(kept[i]));
                    let k = choose|k: int| 0 <= k < rest.len() && rest[k] == kept[i];
                    assert(items[k].last_activity_at >= items[items.len() - 1].last_activity_at);
                }
            }
        }
    }
}

/// A list sorted by activity, newest first.
proof fn lemma_sorted(items: Seq<SessionSummaryView>, order: SessionOrder)
    ensures
        in_order(items, order).len() == items.len(),
        forall|x: SessionSummaryView| #[trigger]
            in_order(items, order).contains(x) <==> items.contains(x),
        forall|i: int, j: int|
            0 <= i < j < items.len() ==> match order {
                SessionOrder::LatestActivityFirst => (#[trigger] in_order(
                    items,
                    order,
                )[i]).last_activity_at >= (#[trigger] in_order(items, order)[j]).last_activity_at,
                SessionOrder::OldestFirst => in_order(items, order)[i].created_at <= in_order(
                    items,
                    order,
                )[j].created_at,
            },
{
    broadcast use vstd::seq_lib::group_to_multiset_ensures;

    law_sorting_orders_and_keeps::<SessionOrder, SessionSummary>(items, order);
    let sorted = in_order(items, order);
    assert forall|x: SessionSummaryView| #[trigger] sorted.contains(x) <==> items.contains(x) by {
        assert(sorted.contains(x) <==> sorted.to_multiset().count(x) > 0);
        assert(items.contains(x) <==> items.to_multiset().count(x) > 0);
    }
}

/// A listing holds summaries of sessions that were asked for and were active before
/// the given time, the one that was active last first. It holds the summary of every
/// such session, unless it is as long as it may be; what is left out then is not
/// newer than anything in it.
pub proof fn law_listing_holds_what_was_asked_for(
    sessions: Seq<SolutionSession>,
    solution: Option<Seq<char>>,
    parent: Option<Seq<char>>,
    before: Option<i64>,
    count: Option<usize>,
    now: ClockReading,
)
    ensures
        ({
            let shown = listing(sessions, solution, parent, before, count, now);
            &&& forall|i: int|
                0 <= i < shown.len() ==> tells_of_one(
                    #[trigger] shown[i],
                    sessions,
                    solution,
                    parent,
                    before,
                    now,
                )
            &&& forall|k: int|
                0 <= k < sessions.len() && is_asked_for(
                    #[trigger] sessions[k],
                    solution,
                    parent,
                    before,
                ) ==> {
                    ||| shown.contains(summary_of(sessions[k], now))
                    ||| count is Some && shown.len() == count->0 && forall|i: int|
                        0 <= i < shown.len() ==> (#[trigger] shown[i]).last_activity_at
                            >= sessions[k].last_activity_at.millis() as i64
                }
            &&& forall|i: int, j: int|
                0 <= i < j < shown.len() ==> (#[trigger] shown[i]).last_activity_at >= (
                #[trigger] shown[j]).last_activity_at
            &&& count is Some ==> shown.len() <= count->0
        }),
{
    let wanted = wanted_summaries(sessions, solution, parent, now);
    let sorted = in_order(wanted, SessionOrder::LatestActivityFirst);
    let older = active_before(sorted, before);
    let shown = listing(sessions, solution, parent, before, count, now);
    lemma_wanted(sessions, solution, parent, now);
    lemma_sorted(wanted, SessionOrder::LatestActivityFirst);
    lemma_older(sorted, before);
    assert forall|i: int| 0 <= i < shown.len() implies tells_of_one(
        #[trigger] shown[i],
        sessions,
        solution,
        parent,
        before,
        now,
    ) by {
        assert(older[i] == shown[i]);
        assert(older.contains(shown[i]));
        assert(wanted.contains(shown[i]));
        let k = choose|k: int|
            0 <= k < sessions.len() && is_asked_for(#[trigger] sessions[k], solution, parent, None)
                && shown[i] == summary_of(sessions[k], now);
        assert(is_asked_for(sessions[k], solution, parent, before));
    }
    assert forall|k: int|
        0 <= k < sessions.len() && is_asked_for(
            #[trigger] sessions[k],
            solution,
            parent,
            before,
        ) implies {
        ||| shown.contains(summary_of(sessions[k], now))
        ||| count is Some && shown.len() == count->0 && forall|i: int|
            0 <= i < shown.len() ==> (#[trigger] shown[i]).last_activity_at
                >= sessions[k].last_activity_at.millis() as i64
    } by {
        let x = summary_of(sessions[k], now);
        assert(is_asked_for(sessions[k], solution, parent, None));
        assert(wanted.contains(x));
        assert(older.contains(x));
        let at = choose|at: int| 0 <= at < older.len() && older[at] == x;
        if at < shown.len() {
            assert(shown[at] == x);
        } else {
            assert forall|i: int| 0 <= i < shown.len() implies (#[trigger] shown[i]).last_activity_at
                >= sessions[k].last_activity_at.millis() as i64 by {
                assert(older[i].last_activity_at >= older[at].last_activity_at);
            }
        }
    }
    assert forall|i: int, j: int| 0 <= i < j < shown.len() implies (
    #[trigger] shown[i]).last_activity_at >= (#[trigger] shown[j]).last_activity_at by {
        assert(older[i].last_activity_at >= older[j].last_activity_at);
    }
}

/// Asking again for what is older than the last session of a page gives only
/// sessions that are older than all of that page.
pub proof fn law_next_page_is_older(
    sessions: Seq<SolutionSession>,
    solution: Option<Seq<char>>,
    parent: Option<Seq<char>>,
    before: Option<i64>,
    count: Option<usize>,
    now: ClockReading,
    i: int,
    j: int,
)
    requires
        ({
            let page = listing(sessions, solution, parent, before, count, now);
            &&& 0 <= i < page.len()
            &&& 0 <= j < listing(
                sessions,
                solution,
                parent,
                Some(page.last().last_activity_at),
                count,
                now,
            ).len()
        }),
    ensures
        ({
            let page = listing(sessions, solution, parent, before, count, now);
            listing(
                sessions,
                solution,
                parent,
                Some(page.last().last_activity_at),
                count,
                now,
            )[j].last_activity_at < page[i].last_activity_at
        }),
{
    let page = listing(sessions, solution, parent, before, count, now);
    let bound = page.last().last_activity_at;
    law_listing_holds_what_was_asked_for(sessions, solution, parent, before, count, now);
    law_listing_holds_what_was_asked_for(sessions, solution, parent, Some(bound), count, now);
    let next = listing(sessions, solution, parent, Some(bound), count, now);
    assert(tells_of_one(next[j], sessions, solution, parent, Some(bound), now));
    assert(next[j].last_activity_at < bound);
    if i < page.len() - 1 {
        assert(page[i].last_activity_at >= page[page.len() - 1].last_activity_at);
    }
}

/// The total is the number of sessions that are listed where nothing but the
/// solution is asked for, and it does not depend on anything else.
pub proof fn law_total_is_the_whole_list(
    sessions: Seq<SolutionSession>,
    solution: Option<Seq<char>>,
    now: ClockReading,
)
    ensures
        solution_count(sessions, solution) == listing(
            sessions,
            solution,
            None,
            None,
            None,
            now,
        ).len(),
        solution_count(sessions, solution) <= sessions.len(),
        solution is None ==> solution_count(sessions, solution) == sessions.len(),
    decreases sessions.len(),
{
    lemma_sorted(wanted_summaries(sessions, solution, None, now), SessionOrder::LatestActivityFirst);
    if sessions.len() > 0 {
        let rest = sessions.drop_last();
        law_total_is_the_whole_list(rest, solution, now);
        lemma_sorted(wanted_summaries(rest, solution, None, now), SessionOrder::LatestActivityFirst);
    }
}

/// The children of a session are the sessions that name it as their parent, the one
/// that was created first first.
pub proof fn law_children_name_their_parent(
    sessions: Seq<SolutionSession>,
    id: Seq<char>,
    now: ClockReading,
)
    ensures
        ({
            let children = children_of(sessions, id, now);
            &&& forall|x: SessionSummaryView| #[trigger]
                children.contains(x) <==> exists|k: int|
                    0 <= k < sessions.len() && (#[trigger] sessions[k]).parent_session_id is Some
                        && sessions[k].parent_session_id->0@ == id && x == summary_of(
                        sessions[k],
                        now,
                    )
            &&& forall|i: int, j: int|
                0 <= i < j < children.len() ==> (#[trigger] children[i]).created_at <= (
                #[trigger] children[j]).created_at
        }),
{
    let wanted = wanted_summaries(sessions, None, Some(id), now);
    lemma_wanted(sessions, None, Some(id), now);
    lemma_sorted(wanted, SessionOrder::OldestFirst);
    let children = children_of(sessions, id, now);
    assert forall|x: SessionSummaryView| #[trigger] children.contains(x) <==> exists|k: int|
        0 <= k < sessions.len() && (#[trigger] sessions[k]).parent_session_id is Some
            && sessions[k].parent_session_id->0@ == id && x == summary_of(sessions[k], now) by {
        assert(children.contains(x) <==> wanted.contains(x));
        if wanted.contains(x) {
            let k = choose|k: int|
                0 <= k < sessions.len() && is_asked_for(
                    #[trigger] sessions[k],
                    None,
                    Some(id),
                    None,
                ) && x == summary_of(sessions[k], now);
            assert(sessions[k].parent_session_id->0@ == id);
        }
        if exists|k: int|
            0 <= k < sessions.len() && (#[trigger] sessions[k]).parent_session_id is Some
                && sessions[k].parent_session_id->0@ == id && x == summary_of(sessions[k], now) {
            let k = choose|k: int|
                0 <= k < sessions.len() && (#[trigger] sessions[k]).parent_session_id is Some
                    && sessions[k].parent_session_id->0@ == id && x == summary_of(sessions[k], now);
            assert(is_asked_for(sessions[k], None, Some(id), None));
        }
    }
}

/// A summary says of a session what the session is: who it is, to whom it belongs,
/// when it was at work and what it has used.
pub proof fn law_summary_tells_the_session(session: SolutionSession, now: ClockReading)
    ensures
        ({
            let told = summary_of(session, now);
            let usage = if session.thread() is Some {
                session.thread()->0.token_usage
            } else {
                None
            };
            &&& told.id == session.id@
            &&& told.solution_id == session.solution_id@
            &&& told.agent_id == session.agent_id@
            &&& told.title == session.title@
            &&& told.acp_session_id == session.acp_session_id@
            &&& told.created_at == session.created_at.millis() as i64
            &&& told.last_activity_at == session.last_activity_at.millis() as i64
            &&& told.parent_session_id is Some <==> session.parent_session_id is Some
            &&& session.parent_session_id matches Some(parent) ==> told.parent_session_id == Some(
                parent@,
            )
            &&& told.cwd is None <==> session.cwd@.len() == 0
            &&& told.cwd is Some ==> told.cwd == Some(session.cwd@)
            &&& told.total_tokens == if usage is Some {
                Some(usage->0.used_tokens)
            } else {
                session.cached_total_tokens
            }
            &&& told.max_tokens == if usage is Some && usage->0.max_tokens != 0 {
                Some(usage->0.max_tokens)
            } else {
                session.cached_max_tokens
            }
        }),
{
}

/// The state that a client is told determines what the session is doing: no two
/// states are told alike, and a failure is told with its own message.
pub proof fn law_state_is_told_apart(a: SolutionSession, b: SolutionSession, now: ClockReading)
    ensures
        summary_of(a, now).state is Idle <==> a.state is Idle,
        summary_of(a, now).state is Running <==> a.state is Running,
        summary_of(a, now).state is Stopping <==> a.state is Stopping,
        summary_of(a, now).state is AwaitingInput <==> a.state is AwaitingInput,
        summary_of(a, now).state is Errored <==> a.state is Errored,
        a.state matches SessionState::Errored(message) ==> summary_of(a, now).state
            == (SessionStateDtoView::Errored { message: message@ }),
        summary_of(a, now).state == summary_of(b, now).state ==> (a.state is Idle <==> b.state is Idle)
            && (a.state is Running <==> b.state is Running) && (a.state is Stopping
            <==> b.state is Stopping) && (a.state is Errored <==> b.state is Errored),
{
}

/// A turn that started at the moment that the clocks are read is told to have
/// started then; one that started a whole second earlier, a second before.
pub proof fn law_running_since(session: SolutionSession, now: ClockReading)
    ensures
        session.state matches SessionState::Running { started_at, .. } ==> {
            let told = summary_of(session, now).state->Running_started_at_ms;
            &&& started_at >= now.monotonic_ns ==> told == now.wall.millis() as i64
            &&& started_at + 1_000_000_000 == now.monotonic_ns ==> told == (now.wall.millis()
                - 1000) as i64
        },
        session.state matches SessionState::Stopping { started_at } ==> {
            let told = summary_of(session, now).state->Stopping_started_at_ms;
            &&& started_at >= now.monotonic_ns ==> told == now.wall.millis() as i64
            &&& started_at + 1_000_000_000 == now.monotonic_ns ==> told == (now.wall.millis()
                - 1000) as i64
        },
{
}

/// A sub-agent that is looked up is the first with the id.
proof fn lemma_tab(tabs: Seq<(String, SubagentTab)>, id: Seq<char>)
    ensures
        match tab_of(tabs, id) {
            Some(tab) => exists|i: int|
                0 <= i < tabs.len() && (#[trigger] tabs[i]).0@ == id && tabs[i].1 == tab,
            None => forall|i: int| 0 <= i < tabs.len() ==> (#[trigger] tabs[i]).0@ != id,
        },
    decreases tabs.len(),
{
    if tabs.len() > 0 && tabs[0].0@ != id {
        let rest = tabs.drop_first();
        lemma_tab(rest, id);
        if let Some(tab) = tab_of(rest, id) {
            let i = choose|i: int|
                0 <= i < rest.len() && (#[trigger] rest[i]).0@ == id && rest[i].1 == tab;
            assert(tabs[i + 1] == rest[i]);
        } else {
            assert forall|i: int| 0 <= i < tabs.len() implies (#[trigger] tabs[i]).0@ != id by {
                if i > 0 {
                    assert(rest[i - 1] == tabs[i]);
                }
            }
        }
    } else if tabs.len() > 0 {
        assert(tabs[0].1 == tab_of(tabs, id)->0);
    }
}

/// Where every id in the order has its sub-agent, the client is told of as many
/// sub-agents, in that order, each under its id with its own label and start.
pub proof fn law_subagents_are_told_in_order(order: Seq<String>, tabs: Seq<(String, SubagentTab)>)
    requires
        forall|i: int|
            0 <= i < order.len() ==> exists|k: int|
                0 <= k < tabs.len() && (#[trigger] tabs[k]).0@ == (#[trigger] order[i])@,
    ensures
        subagents_of(order, tabs).len() == order.len(),
        forall|i: int|
            0 <= i < order.len() ==> {
                let told = #[trigger] subagents_of(order, tabs)[i];
                &&& told.id == order[i]@
                &&& exists|k: int|
                    0 <= k < tabs.len() && (#[trigger] tabs[k]).0@ == order[i]@ && told.label
                        == tabs[k].1.label@ && told.started_at_ms
                        == tabs[k].1.started_at.millis() as i64
            },
    decreases order.len(),
{
    if order.len() > 0 {
        let rest = order.drop_last();
        assert forall|i: int| 0 <= i < rest.len() implies exists|k: int|
            0 <= k < tabs.len() && (#[trigger] tabs[k]).0@ == (#[trigger] rest[i])@ by {
            assert(order[i] == rest[i]);
        }
        law_subagents_are_told_in_order(rest, tabs);
        let last = order[order.len() - 1];
        lemma_tab(tabs, last@);
        let k = choose|k: int| 0 <= k < tabs.len() && (#[trigger] tabs[k]).0@ == last@;
        assert(tab_of(tabs, last@) is Some);
        assert forall|i: int| 0 <= i < order.len() implies {
            let told = #[trigger] subagents_of(order, tabs)[i];
            &&& told.id == order[i]@
            &&& exists|k: int|
                0 <= k < tabs.len() && (#[trigger] tabs[k]).0@ == order[i]@ && told.label
                    == tabs[k].1.label@ && told.started_at_ms
                    == tabs[k].1.started_at.millis() as i64
        } by {
            if i < rest.len() {
                assert(subagents_of(order, tabs)[i] == subagents_of(rest, tabs)[i]);
                assert(rest[i] == order[i]);
            }
        }
    }
}

} // verus!
