//! What is remembered of sessions.
use crate::background_rows::BackgroundRow;
use crate::db::{
    all_retabbed, blob_of, changed, closed_ms_of, find_row, has_row, is_instant_ms, is_remembered,
    listed, merged, remembered, row_fault, row_of, rows_where, BackgroundAgentRow,
    BackgroundAgentRowView, BackgroundShellRow, BackgroundShellRowView, RowChange, RowKind,
    RowOrder, SessionRow, SessionRowView,
};
use crate::model::{parsed_session_id, SolutionSessionMetadataView};
use crate::ordering::law_sorting_orders_and_keeps;
use vstd::prelude::*;

verus! {

/// The rows that are picked are those that fit, in their order.
proof fn lemma_picked(rows: Seq<SessionRowView>, kind: RowKind, key: Seq<char>)
    ensures
        forall|x: SessionRowView| #[trigger]
            rows_where(rows, kind, key).contains(x) <==> rows.contains(x) && kind.accepts(x, key),
        rows_where(rows, kind, key).len() <= rows.len(),
    decreases rows.len(),
{
    let picked = rows_where(rows, kind, key);
    if rows.len() > 0 {
        let rest = rows.drop_last();
        lemma_picked(rest, kind, key);
        let before = rows_where(rest, kind, key);
        assert forall|x: SessionRowView| #[trigger] picked.contains(x) <==> rows.contains(x)
            && kind.accepts(x, key) by {
            if picked.contains(x) {
                let i = choose|i: int| 0 <= i < picked.len() && picked[i] == x;
                if i < before.len() {
                    assert(before.contains(before[i]));
                    let k = choose|k: int| 0 <= k < rest.len() && rest[k] == x;
                    assert(rows[k] == x);
                } else {
                    assert(rows[rows.len() - 1] == x);
                }
            }
            if rows.contains(x) && kind.accepts(x, key) {
                let k = choose|k: int| 0 <= k < rows.len() && rows[k] == x;
                if k < rest.len() {
                    assert(rest[k] == x);
                    assert(before.contains(x));
                    let i = choose|i: int| 0 <= i < before.len() && before[i] == x;
                    assert(picked[i] == x);
                } else {
                    assert(picked[picked.len() - 1] == x);
                }
            }
        }
    }
}

/// Which sessions a question is about: those of a solution, those of it that are open
/// or closed, those of it that are open in a tab, those of other solutions, and all
/// sessions but one.
pub proof fn law_questions_pick_the_right_rows(
    rows: Seq<SessionRowView>,
    key: Seq<char>,
    x: SessionRowView,
)
    ensures
        rows_where(rows, RowKind::Of, key).contains(x) <==> rows.contains(x) && x.solution_id == key,
        rows_where(rows, RowKind::OpenOf, key).contains(x) <==> rows.contains(x) && x.solution_id
            == key && x.closed_at is None,
        rows_where(rows, RowKind::ClosedOf, key).contains(x) <==> rows.contains(x) && x.solution_id
            == key && x.closed_at is Some,
        rows_where(rows, RowKind::OpenTabsOf, key).contains(x) <==> rows.contains(x)
            && x.solution_id == key && x.closed_at is None && x.tab_order is Some,
        rows_where(rows, RowKind::NotOf, key).contains(x) <==> rows.contains(x) && x.solution_id
            != key,
        rows_where(rows, RowKind::OtherThan, key).contains(x) <==> rows.contains(x) && x.id != key,
{
    lemma_picked(rows, RowKind::Of, key);
    lemma_picked(rows, RowKind::OpenOf, key);
    lemma_picked(rows, RowKind::ClosedOf, key);
    lemma_picked(rows, RowKind::OpenTabsOf, key);
    lemma_picked(rows, RowKind::NotOf, key);
    lemma_picked(rows, RowKind::OtherThan, key);
}

/// The sessions of a solution are listed with the one that was active last first, and
/// all of them are; the open tabs are listed by their places.
pub proof fn law_lists_are_in_order(rows: Seq<SessionRowView>, solution: Seq<char>)
    ensures
        ({
            let all = listed(rows, RowKind::Of, solution, RowOrder::LatestActivityFirst);
            &&& forall|x: SessionRowView| #[trigger]
                all.contains(x) <==> rows.contains(x) && x.solution_id == solution
            &&& forall|i: int, j: int|
                0 <= i < j < all.len() ==> (#[trigger] all[i]).last_activity_at >= (
                #[trigger] all[j]).last_activity_at
        }),
        ({
            let tabs = listed(rows, RowKind::OpenTabsOf, solution, RowOrder::ByTab);
            &&& forall|x: SessionRowView| #[trigger]
                tabs.contains(x) <==> rows.contains(x) && x.solution_id == solution && x.closed_at is None
                    && x.tab_order is Some
            &&& forall|i: int, j: int|
                0 <= i < j < tabs.len() ==> (#[trigger] tabs[i]).tab_order->0 <= (
                #[trigger] tabs[j]).tab_order->0
        }),
{
    broadcast use vstd::seq_lib::group_to_multiset_ensures;

    let of = rows_where(rows, RowKind::Of, solution);
    let all = listed(rows, RowKind::Of, solution, RowOrder::LatestActivityFirst);
    lemma_picked(rows, RowKind::Of, solution);
    law_sorting_orders_and_keeps::<RowOrder, SessionRow>(of, RowOrder::LatestActivityFirst);
    assert forall|x: SessionRowView| #[trigger] all.contains(x) <==> rows.contains(x)
        && x.solution_id == solution by {
        assert(all.contains(x) <==> all.to_multiset().count(x) > 0);
        assert(of.contains(x) <==> of.to_multiset().count(x) > 0);
    }
    let open = rows_where(rows, RowKind::OpenTabsOf, solution);
    let tabs = listed(rows, RowKind::OpenTabsOf, solution, RowOrder::ByTab);
    lemma_picked(rows, RowKind::OpenTabsOf, solution);
    law_sorting_orders_and_keeps::<RowOrder, SessionRow>(open, RowOrder::ByTab);
    assert forall|x: SessionRowView| #[trigger] tabs.contains(x) <==> rows.contains(x)
        && x.solution_id == solution && x.closed_at is None && x.tab_order is Some by {
        assert(tabs.contains(x) <==> tabs.to_multiset().count(x) > 0);
        assert(open.contains(x) <==> open.to_multiset().count(x) > 0);
    }
    assert forall|i: int, j: int| 0 <= i < j < tabs.len() implies (
    #[trigger] tabs[i]).tab_order->0 <= (#[trigger] tabs[j]).tab_order->0 by {
        assert(tabs.contains(tabs[i]));
        assert(tabs.contains(tabs[j]));
    }
}

/// A session that is remembered for the first time is found as it was given; what else
/// is remembered stays.
pub proof fn law_new_session_is_found(rows: Seq<SessionRowView>, new: SessionRowView, i: int)
    requires
        !has_row(rows, new.id),
        0 <= i < rows.len(),
    ensures
        find_row(remembered(rows, new), new.id) == Some(new),
        remembered(rows, new).len() == rows.len() + 1,
        remembered(rows, new)[i] == rows[i],
{
}

/// What is new about a session takes the place of what was known; what is not given
/// anew is kept, and so are its conversation, its tab and whether it is closed.
pub proof fn law_what_is_new_takes_its_place(row: SessionRowView, new: SessionRowView)
    ensures
        ({
            let after = merged(row, new);
            &&& after.id == new.id
            &&& after.solution_id == new.solution_id
            &&& after.agent_id == new.agent_id
            &&& after.acp_session_id == new.acp_session_id
            &&& after.title == new.title
            &&& after.created_at == new.created_at
            &&& after.last_activity_at == new.last_activity_at
            &&& after.context_count == new.context_count
            &&& after.preview == if new.preview is Some {
                new.preview
            } else {
                row.preview
            }
            &&& after.total_tokens == if new.total_tokens is Some {
                new.total_tokens
            } else {
                row.total_tokens
            }
            &&& after.cwd == if new.cwd is Some {
                new.cwd
            } else {
                row.cwd
            }
            &&& after.parent_session_id == if new.parent_session_id is Some {
                new.parent_session_id
            } else {
                row.parent_session_id
            }
            &&& after.blob == row.blob
            &&& after.closed_at == row.closed_at
            &&& after.tab_order == row.tab_order
        }),
{
}

/// A row says of a session what the session is.
pub proof fn law_rows_say_what_the_session_is(meta: SolutionSessionMetadataView)
    ensures
        ({
            let row = row_of(meta);
            &&& row.id == meta.id
            &&& row.solution_id == meta.solution_id
            &&& row.agent_id == meta.agent_id
            &&& row.acp_session_id == meta.acp_session_id
            &&& row.title == meta.title
            &&& row.created_at == meta.created_at.millis() as i64
            &&& row.last_activity_at == meta.last_activity_at.millis() as i64
            &&& row.preview == meta.preview
            &&& row.context_count == meta.context_count
            &&& row.cwd is None <==> meta.cwd.len() == 0
            &&& row.cwd is Some ==> row.cwd == Some(meta.cwd)
            &&& row.parent_session_id == meta.parent_session_id
            &&& row.total_tokens is Some <==> meta.total_tokens is Some
            &&& meta.total_tokens matches Some(n) ==> row.total_tokens == Some(n as i64)
            &&& row.blob is None && row.closed_at is None && row.tab_order is None
        }),
{
}

/// What is read back of a row says what the row says.
pub proof fn law_sessions_are_read_back(meta: SolutionSessionMetadataView, row: SessionRowView)
    requires
        is_remembered(meta, row),
    ensures
        meta.solution_id == row.solution_id,
        meta.agent_id == row.agent_id,
        meta.acp_session_id == row.acp_session_id,
        meta.title == row.title,
        meta.preview == row.preview,
        parsed_session_id(row.id) == Some(meta.id),
        meta.created_at.seconds() * 1000 <= row.created_at < meta.created_at.seconds() * 1000 + 1000,
        meta.created_at.millis() == row.created_at,
        meta.last_activity_at.millis() == row.last_activity_at,
        row.cwd matches Some(dir) ==> meta.cwd == dir,
        row.cwd is None ==> meta.cwd.len() == 0,
        row.context_count < 1 ==> meta.context_count == 1,
        1 <= row.context_count <= u32::MAX ==> meta.context_count == row.context_count,
        row.parent_session_id is None ==> meta.parent_session_id is None,
        row.parent_session_id matches Some(raw) ==> meta.parent_session_id == parsed_session_id(raw),
        row.total_tokens is Some <==> meta.total_tokens is Some,
{
}

/// A row can be read exactly if its ids are ids and its times are times.
pub proof fn law_faulty_rows_are_known(row: SessionRowView)
    ensures
        row_fault(row) is None <==> parsed_session_id(row.id) is Some && is_instant_ms(
            row.created_at,
        ) && is_instant_ms(row.last_activity_at) && (row.parent_session_id is None
            || parsed_session_id(row.parent_session_id->0) is Some),
        parsed_session_id(row.id) is Some && !is_instant_ms(row.created_at) ==> row_fault(row)
            == Some(
            "invalid created_at timestamp: "@ + crate::text::signed_decimal(row.created_at as int),
        ),
        parsed_session_id(row.id) is Some && is_instant_ms(row.created_at) && !is_instant_ms(
            row.last_activity_at,
        ) ==> row_fault(row) == Some(
            "invalid last_activity_at timestamp: "@ + crate::text::signed_decimal(
                row.last_activity_at as int,
            ),
        ),
        is_instant_ms(row.created_at) <==> -8_334_601_228_800_000 <= row.created_at
            <= 8_210_266_876_799_999,
{
}

/// Ordering the tabs of a solution gives each session that is named the place at which
/// it is named last, and takes the tab from every other session of the solution. The
/// sessions of other solutions, and all else about these, stay as they are.
pub proof fn law_tabs_are_ordered(
    rows: Seq<SessionRowView>,
    solution: Seq<char>,
    ids: Seq<Seq<char>>,
    i: int,
)
    requires
        0 <= i < rows.len(),
        ids.len() <= i64::MAX,
    ensures
        ({
            let before = rows[i];
            let after = all_retabbed(rows, solution, ids)[i];
            &&& all_retabbed(rows, solution, ids).len() == rows.len()
            &&& before.solution_id != solution ==> after == before
            &&& after == (SessionRowView { tab_order: after.tab_order, ..before })
            &&& before.solution_id == solution && !ids.contains(before.id) ==> after.tab_order is None
            &&& before.solution_id == solution && ids.contains(before.id) ==> {
                &&& after.tab_order is Some
                &&& 0 <= after.tab_order->0 < ids.len()
                &&& ids[after.tab_order->0 as int] == before.id
            }
        }),
{
    lemma_place(ids, rows[i].id);
}

/// The last place of an id is one at which it stands.
proof fn lemma_place(ids: Seq<Seq<char>>, id: Seq<char>)
    ensures
        match crate::db::last_place(ids, id) {
            Some(k) => 0 <= k < ids.len() && ids[k] == id,
            None => !ids.contains(id),
        },
    decreases ids.len(),
{
    if ids.len() > 0 {
        let rest = ids.drop_last();
        lemma_place(rest, id);
        if ids.last() != id && crate::db::last_place(rest, id) is None {
            assert forall|k: int| 0 <= k < ids.len() implies ids[k] != id by {
                if k < rest.len() {
                    assert(rest[k] == ids[k]);
                    assert(!rest.contains(id));
                }
            }
        }
    }
}

/// A change to one session leaves the number of sessions and all other sessions as they
/// are, and changes nothing else about the session.
pub proof fn law_changes_are_local(
    rows: Seq<SessionRowView>,
    id: Seq<char>,
    blob: Seq<u8>,
    closed_at: Option<i64>,
    i: int,
)
    requires
        0 <= i < rows.len(),
    ensures
        ({
            let saved = changed(rows, id, RowChange::SetBlob(blob));
            let marked = changed(rows, id, RowChange::SetClosed(closed_at));
            &&& saved.len() == rows.len()
            &&& marked.len() == rows.len()
            &&& rows[i].id != id ==> saved[i] == rows[i] && marked[i] == rows[i]
            &&& rows[i].id == id ==> saved[i] == (SessionRowView { blob: Some(blob), ..rows[i] })
            &&& rows[i].id == id ==> marked[i] == (SessionRowView { closed_at, ..rows[i] })
        }),
{
}

/// A row that is found has the id that was looked for and is one of the rows.
pub proof fn law_rows_are_found_by_id(rows: Seq<SessionRowView>, id: Seq<char>)
    ensures
        match find_row(rows, id) {
            Some(row) => row.id == id && rows.contains(row),
            None => !has_row(rows, id),
        },
        blob_of(rows, id) is Some ==> find_row(rows, id) is Some && find_row(rows, id)->0.blob
            == blob_of(rows, id),
        closed_ms_of(rows, id) is Some ==> find_row(rows, id) is Some && find_row(
            rows,
            id,
        )->0.closed_at == closed_ms_of(rows, id),
    decreases rows.len(),
{
    if rows.len() > 0 {
        let rest = rows.drop_last();
        law_rows_are_found_by_id(rest, id);
        if rows.last().id == id {
            assert(rows[rows.len() - 1] == rows.last());
        } else {
            match find_row(rest, id) {
                Some(row) => {
                    let k = choose|k: int| 0 <= k < rest.len() && rest[k] == row;
                    assert(rows[k] == row);
                },
                None => {
                    assert forall|k: int| 0 <= k < rows.len() implies (#[trigger] rows[k]).id
                        != id by {
                        if k < rest.len() {
                            assert(rest[k] == rows[k]);
                        }
                    }
                },
            }
        }
    }
}

/// What is new about a managed agent takes the place of what was known; when it was
/// registered is kept.
pub proof fn law_agents_are_updated(row: BackgroundAgentRowView, new: BackgroundAgentRowView)
    ensures
        ({
            let after = <BackgroundAgentRow as BackgroundRow>::merged(row, new);
            &&& after.solution_session_id == row.solution_session_id
            &&& after.agent_id == row.agent_id
            &&& after.registered_at_ms == row.registered_at_ms
            &&& after.jsonl_path == new.jsonl_path
            &&& after.last_seen_label == new.last_seen_label
            &&& after.last_mtime_ms == new.last_mtime_ms
            &&& after.stop_reason == new.stop_reason
        }),
{
}

/// What is new about a background shell takes the place of what was known; when it was
/// registered is kept.
pub proof fn law_shells_are_updated(row: BackgroundShellRowView, new: BackgroundShellRowView)
    ensures
        ({
            let after = <BackgroundShellRow as BackgroundRow>::merged(row, new);
            &&& after.solution_session_id == row.solution_session_id
            &&& after.shell_id == row.shell_id
            &&& after.registered_at_ms == row.registered_at_ms
            &&& after.command == new.command
            &&& after.output_path == new.output_path
            &&& after.last_tail == new.last_tail
            &&& after.last_mtime_ms == new.last_mtime_ms
            &&& after.state_text == new.state_text
        }),
{
}

} // verus!
