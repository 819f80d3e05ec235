//! The tables in which managed agents and background shells are remembered.
use crate::db::{
    BackgroundAgentRow, BackgroundAgentRowView, BackgroundShellRow, BackgroundShellRowView,
    SolutionAgentDb,
};
use crate::duplicate::{push_value, Duplicate};
use crate::text::same_text;
use vstd::prelude::*;
use vstd::string::*;

verus! {

/// A row that belongs to a session and has an id there.
pub trait BackgroundRow: Duplicate {
    /// The session that a row belongs to.
    spec fn session_of(row: <Self as DeepView>::V) -> Seq<char>;

    /// The id that it has there.
    spec fn item_of(row: <Self as DeepView>::V) -> Seq<char>;

    /// A row that is remembered anew.
    spec fn merged(row: <Self as DeepView>::V, new: <Self as DeepView>::V) -> <Self as DeepView>::V;

    /// A row that is remembered anew is of the same session and has the same id.
    proof fn merging_keeps_the_key(row: <Self as DeepView>::V, new: <Self as DeepView>::V)
        ensures
            Self::session_of(Self::merged(row, new)) == Self::session_of(row),
            Self::item_of(Self::merged(row, new)) == Self::item_of(row),
    ;

    fn session(&self) -> (r: &str)
        ensures
            r@ == Self::session_of(self.deep_view()),
    ;

    fn item(&self) -> (r: &str)
        ensures
            r@ == Self::item_of(self.deep_view()),
    ;

    fn merge(&self, new: &Self) -> (r: Self)
        ensures
            r.deep_view() == Self::merged(self.deep_view(), new.deep_view()),
    ;
}

impl BackgroundRow for BackgroundAgentRow {
    open spec fn session_of(row: BackgroundAgentRowView) -> Seq<char> {
        row.solution_session_id
    }

    open spec fn item_of(row: BackgroundAgentRowView) -> Seq<char> {
        row.agent_id
    }

    /// Everything is new but the time at which it was registered.
    open spec fn merged(
        row: BackgroundAgentRowView,
        new: BackgroundAgentRowView,
    ) -> BackgroundAgentRowView {
        BackgroundAgentRowView {
            jsonl_path: new.jsonl_path,
            last_seen_label: new.last_seen_label,
            last_mtime_ms: new.last_mtime_ms,
            stop_reason: new.stop_reason,
            ..row
        }
    }

    proof fn merging_keeps_the_key(row: BackgroundAgentRowView, new: BackgroundAgentRowView) {
    }

    fn session(&self) -> (r: &str) {
        self.solution_session_id.as_str()
    }

    fn item(&self) -> (r: &str) {
        self.agent_id.as_str()
    }

    fn merge(&self, new: &Self) -> (r: Self) {
        BackgroundAgentRow {
            solution_session_id: self.solution_session_id.clone(),
            agent_id: self.agent_id.clone(),
            jsonl_path: new.jsonl_path.clone(),
            registered_at_ms: self.registered_at_ms,
            last_seen_label: new.last_seen_label.duplicate(),
            last_mtime_ms: new.last_mtime_ms,
            stop_reason: new.stop_reason.duplicate(),
        }
    }
}

impl BackgroundRow for BackgroundShellRow {
    open spec fn session_of(row: BackgroundShellRowView) -> Seq<char> {
        row.solution_session_id
    }

    open spec fn item_of(row: BackgroundShellRowView) -> Seq<char> {
        row.shell_id
    }

    /// Everything is new but the time at which it was registered.
    open spec fn merged(
        row: BackgroundShellRowView,
        new: BackgroundShellRowView,
    ) -> BackgroundShellRowView {
        BackgroundShellRowView {
            command: new.command,
            output_path: new.output_path,
            last_tail: new.last_tail,
            last_mtime_ms: new.last_mtime_ms,
            state_text: new.state_text,
            ..row
        }
    }

    proof fn merging_keeps_the_key(row: BackgroundShellRowView, new: BackgroundShellRowView) {
    }

    fn session(&self) -> (r: &str) {
        self.solution_session_id.as_str()
    }

    fn item(&self) -> (r: &str) {
        self.shell_id.as_str()
    }

    fn merge(&self, new: &Self) -> (r: Self) {
        BackgroundShellRow {
            solution_session_id: self.solution_session_id.clone(),
            shell_id: self.shell_id.clone(),
            command: new.command.clone(),
            output_path: new.output_path.clone(),
            registered_at_ms: self.registered_at_ms,
            last_tail: new.last_tail.duplicate(),
            last_mtime_ms: new.last_mtime_ms,
            state_text: new.state_text.clone(),
        }
    }
}

/// Whether a row is that of an item of a session.
pub open spec fn is_keyed<T: BackgroundRow>(
    row: <T as DeepView>::V,
    session: Seq<char>,
    item: Seq<char>,
) -> bool {
    T::session_of(row) == session && T::item_of(row) == item
}

/// No two rows are of the same item.
pub open spec fn items_are_keys<T: BackgroundRow>(rows: Seq<<T as DeepView>::V>) -> bool {
    forall|i: int, j: int|
        0 <= i < j < rows.len() ==> !is_keyed::<T>(
            #[trigger] rows[j],
            T::session_of(#[trigger] rows[i]),
            T::item_of(rows[i]),
        )
}

/// Whether there is a row of an item.
pub open spec fn has_item<T: BackgroundRow>(
    rows: Seq<<T as DeepView>::V>,
    session: Seq<char>,
    item: Seq<char>,
) -> bool {
    exists|i: int| 0 <= i < rows.len() && is_keyed::<T>(#[trigger] rows[i], session, item)
}

/// The rows after one was remembered.
pub open spec fn with_item<T: BackgroundRow>(
    rows: Seq<<T as DeepView>::V>,
    new: <T as DeepView>::V,
) -> Seq<<T as DeepView>::V> {
    if has_item::<T>(rows, T::session_of(new), T::item_of(new)) {
        Seq::new(
            rows.len(),
            |i: int|
                if is_keyed::<T>(rows[i], T::session_of(new), T::item_of(new)) {
                    T::merged(rows[i], new)
                } else {
                    rows[i]
                },
        )
    } else {
        rows.push(new)
    }
}

/// The rows of a session: all but those of the session where `other`.
pub open spec fn of_session<T: BackgroundRow>(
    rows: Seq<<T as DeepView>::V>,
    session: Seq<char>,
    other: bool,
) -> Seq<<T as DeepView>::V>
    decreases rows.len(),
{
    if rows.len() == 0 {
        Seq::empty()
    } else {
        let before = of_session::<T>(rows.drop_last(), session, other);
        if (T::session_of(rows.last()) == session) != other {
            before.push(rows.last())
        } else {
            before
        }
    }
}

/// All rows but that of an item.
pub open spec fn without_item<T: BackgroundRow>(
    rows: Seq<<T as DeepView>::V>,
    session: Seq<char>,
    item: Seq<char>,
) -> Seq<<T as DeepView>::V>
    decreases rows.len(),
{
    if rows.len() == 0 {
        Seq::empty()
    } else {
        let before = without_item::<T>(rows.drop_last(), session, item);
        if is_keyed::<T>(rows.last(), session, item) {
            before
        } else {
            before.push(rows.last())
        }
    }
}

/// Whether no two rows are of the same item.
fn items_differ<T: BackgroundRow>(rows: &Vec<T>) -> (r: bool)
    ensures
        r == items_are_keys::<T>(rows.deep_view()),
{
    let ghost all = rows.deep_view();
    let mut j: usize = 0;
    while j < rows.len()
        invariant
            j <= rows@.len(),
            all == rows.deep_view(),
            forall|a: int, b: int|
                0 <= a < b < j ==> !is_keyed::<T>(
                    #[trigger] all[b],
                    T::session_of(#[trigger] all[a]),
                    T::item_of(all[a]),
                ),
        decreases rows@.len() - j,
    {
        assert(all[j as int] == rows@[j as int].deep_view());
        let mut i: usize = 0;
        while i < j
            invariant
                i <= j < rows@.len(),
                all == rows.deep_view(),
                all[j as int] == rows@[j as int].deep_view(),
                forall|a: int|
                    0 <= a < i ==> !is_keyed::<T>(
                        all[j as int],
                        T::session_of(#[trigger] all[a]),
                        T::item_of(all[a]),
                    ),
            decreases j - i,
        {
            assert(all[i as int] == rows@[i as int].deep_view());
            if same_text(rows[i].session(), rows[j].session()) && same_text(
                rows[i].item(),
                rows[j].item(),
            ) {
                assert(is_keyed::<T>(
                    all[j as int],
                    T::session_of(all[i as int]),
                    T::item_of(all[i as int]),
                ));
                return false;
            }
            i += 1;
        }
        j += 1;
    }
    true
}

/// Remembers a row.
fn save_row<T: BackgroundRow>(rows: &mut Vec<T>, new: T)
    requires
        items_are_keys::<T>(old(rows).deep_view()),
    ensures
        items_are_keys::<T>(final(rows).deep_view()),
        final(rows).deep_view() == with_item::<T>(old(rows).deep_view(), new.deep_view()),
{
    let ghost all = rows.deep_view();
    let ghost new_row = new.deep_view();
    let ghost session = T::session_of(new_row);
    let ghost item = T::item_of(new_row);
    let mut i: usize = 0;
    while i < rows.len()
        invariant
            i <= rows@.len(),
            all == rows.deep_view(),
            all == old(rows).deep_view(),
            items_are_keys::<T>(all),
            new_row == new.deep_view(),
            session == T::session_of(new_row),
            item == T::item_of(new_row),
            forall|k: int| 0 <= k < i ==> !is_keyed::<T>(#[trigger] all[k], session, item),
        decreases rows@.len() - i,
    {
        assert(all[i as int] == rows@[i as int].deep_view());
        if same_text(rows[i].session(), new.session()) && same_text(rows[i].item(), new.item()) {
            let row = rows[i].merge(&new);
            rows.set(i, row);
            assert(has_item::<T>(all, session, item));
            assert(rows.deep_view() =~= with_item::<T>(all, new_row)) by {
                assert forall|k: int| 0 <= k < all.len() implies rows.deep_view()[k]
                    == with_item::<T>(all, new_row)[k] by {
                    if k > i {
                        assert(!is_keyed::<T>(
                            all[k],
                            T::session_of(all[i as int]),
                            T::item_of(all[i as int]),
                        ));
                    }
                }
            }
            proof {
                let after = rows.deep_view();
                T::merging_keeps_the_key(all[i as int], new_row);
                assert forall|a: int, b: int| 0 <= a < b < after.len() implies !is_keyed::<T>(
                    #[trigger] after[b],
                    T::session_of(#[trigger] after[a]),
                    T::item_of(after[a]),
                ) by {
                    assert(!is_keyed::<T>(all[b], T::session_of(all[a]), T::item_of(all[a])));
                }
            }
            return ;
        }
        i += 1;
    }
    proof {
        lemma_push_keeps_keys::<T>(all, new_row);
    }
    push_value(rows, new);
}

/// The rows of a session, or all others.
fn rows_of_session<T: BackgroundRow>(rows: &Vec<T>, session: &str, other: bool) -> (r: Vec<T>)
    ensures
        r.deep_view() == of_session::<T>(rows.deep_view(), session@, other),
{
    let ghost all = rows.deep_view();
    let mut out: Vec<T> = Vec::new();
    let mut i: usize = 0;
    assert(out.deep_view() =~= of_session::<T>(all.take(0), session@, other));
    while i < rows.len()
        invariant
            i <= rows@.len(),
            all == rows.deep_view(),
            out.deep_view() == of_session::<T>(all.take(i as int), session@, other),
        decreases rows@.len() - i,
    {
        assert(all[i as int] == rows@[i as int].deep_view());
        assert(all.take(i as int + 1).drop_last() =~= all.take(i as int));
        if same_text(rows[i].session(), session) != other {
            push_value(&mut out, rows[i].duplicate());
        }
        i += 1;
    }
    assert(all.take(i as int) =~= all);
    out
}

/// All rows but that of an item.
fn drop_item<T: BackgroundRow>(rows: &Vec<T>, session: &str, item: &str) -> (r: Vec<T>)
    ensures
        r.deep_view() == without_item::<T>(rows.deep_view(), session@, item@),
{
    let ghost all = rows.deep_view();
    let mut out: Vec<T> = Vec::new();
    let mut i: usize = 0;
    assert(out.deep_view() =~= without_item::<T>(all.take(0), session@, item@));
    while i < rows.len()
        invariant
            i <= rows@.len(),
            all == rows.deep_view(),
            out.deep_view() == without_item::<T>(all.take(i as int), session@, item@),
        decreases rows@.len() - i,
    {
        assert(all[i as int] == rows@[i as int].deep_view());
        assert(all.take(i as int + 1).drop_last() =~= all.take(i as int));
        if !(same_text(rows[i].session(), session) && same_text(rows[i].item(), item)) {
            push_value(&mut out, rows[i].duplicate());
        }
        i += 1;
    }
    assert(all.take(i as int) =~= all);
    out
}

/// Rows among which no two are of the same item, with one more that is of none
/// of their items.
proof fn lemma_push_keeps_keys<T: BackgroundRow>(
    rows: Seq<<T as DeepView>::V>,
    new: <T as DeepView>::V,
)
    requires
        items_are_keys::<T>(rows),
        !has_item::<T>(rows, T::session_of(new), T::item_of(new)),
    ensures
        items_are_keys::<T>(rows.push(new)),
{
    let after = rows.push(new);
    assert forall|a: int, b: int| 0 <= a < b < after.len() implies !is_keyed::<T>(
        #[trigger] after[b],
        T::session_of(#[trigger] after[a]),
        T::item_of(after[a]),
    ) by {
        assert(after[a] == rows[a]);
        if b < rows.len() {
            assert(after[b] == rows[b]);
        } else {
            assert(!is_keyed::<T>(rows[a], T::session_of(new), T::item_of(new)));
        }
    }
}

/// A part of the rows has no item twice and no item that is not in all of them.
proof fn lemma_parts_keep_keys<T: BackgroundRow>(
    rows: Seq<<T as DeepView>::V>,
    session: Seq<char>,
    item: Seq<char>,
    other: bool,
)
    requires
        items_are_keys::<T>(rows),
    ensures
        items_are_keys::<T>(without_item::<T>(rows, session, item)),
        items_are_keys::<T>(of_session::<T>(rows, session, other)),
        forall|s: Seq<char>, k: Seq<char>|
            has_item::<T>(without_item::<T>(rows, session, item), s, k) ==> #[trigger] has_item::<
                T,
            >(rows, s, k),
        forall|s: Seq<char>, k: Seq<char>|
            has_item::<T>(of_session::<T>(rows, session, other), s, k) ==> #[trigger] has_item::<
                T,
            >(rows, s, k),
    decreases rows.len(),
{
    if rows.len() > 0 {
        let rest = rows.drop_last();
        let last = rows.last();
        assert forall|a: int, b: int| 0 <= a < b < rest.len() implies !is_keyed::<T>(
            #[trigger] rest[b],
            T::session_of(#[trigger] rest[a]),
            T::item_of(rest[a]),
        ) by {
            assert(!is_keyed::<T>(rows[b], T::session_of(rows[a]), T::item_of(rows[a])));
        }
        lemma_parts_keep_keys::<T>(rest, session, item, other);
        assert(!has_item::<T>(rest, T::session_of(last), T::item_of(last))) by {
            assert forall|i: int| 0 <= i < rest.len() implies !is_keyed::<T>(
                #[trigger] rest[i],
                T::session_of(last),
                T::item_of(last),
            ) by {
                assert(!is_keyed::<T>(
                    rows[rows.len() - 1],
                    T::session_of(rows[i]),
                    T::item_of(rows[i]),
                ));
            }
        }
        let one = without_item::<T>(rest, session, item);
        let two = of_session::<T>(rest, session, other);
        lemma_push_keeps_keys::<T>(one, last);
        lemma_push_keeps_keys::<T>(two, last);
        assert forall|s: Seq<char>, k: Seq<char>|
            has_item::<T>(one, s, k) || has_item::<T>(two, s, k) || is_keyed::<T>(
                last,
                s,
                k,
            ) implies #[trigger] has_item::<T>(rows, s, k) by {
            if is_keyed::<T>(last, s, k) {
                assert(is_keyed::<T>(rows[rows.len() - 1], s, k));
            } else {
                assert(has_item::<T>(rest, s, k));
                let i = choose|i: int|
                    0 <= i < rest.len() && is_keyed::<T>(#[trigger] rest[i], s, k);
                assert(is_keyed::<T>(rows[i], s, k));
            }
        }
        assert forall|s: Seq<char>, k: Seq<char>|
            has_item::<T>(without_item::<T>(rows, session, item), s, k) implies #[trigger] has_item::<
            T,
        >(rows, s, k) by {
            let after = without_item::<T>(rows, session, item);
            let i = choose|i: int| 0 <= i < after.len() && is_keyed::<T>(#[trigger] after[i], s, k);
            if i < one.len() {
                assert(is_keyed::<T>(one[i], s, k));
            } else {
                assert(is_keyed::<T>(last, s, k));
            }
        }
        assert forall|s: Seq<char>, k: Seq<char>|
            has_item::<T>(of_session::<T>(rows, session, other), s, k) implies #[trigger] has_item::<
            T,
        >(rows, s, k) by {
            let after = of_session::<T>(rows, session, other);
            let i = choose|i: int| 0 <= i < after.len() && is_keyed::<T>(#[trigger] after[i], s, k);
            if i < two.len() {
                assert(is_keyed::<T>(two[i], s, k));
            } else {
                assert(is_keyed::<T>(last, s, k));
            }
        }
    }
}

/// Whether no row is in either table twice.
pub open spec fn background_wf(db: SolutionAgentDb) -> bool {
    &&& items_are_keys::<BackgroundAgentRow>(db.background_agents.deep_view())
    &&& items_are_keys::<BackgroundShellRow>(db.background_shells.deep_view())
}

impl SolutionAgentDb {
    /// Whether no managed agent and no background shell is remembered twice, as has
    /// to be tested of tables that come from elsewhere.
    pub fn background_keys_differ(&self) -> (r: bool)
        ensures
            r == background_wf(*self),
    {
        items_differ(&self.background_agents) && items_differ(&self.background_shells)
    }

    /// Remembers a managed agent.
    pub fn save_background_agent(&mut self, row: BackgroundAgentRow)
        requires
            background_wf(*old(self)),
        ensures
            background_wf(*final(self)),
            final(self).background_agents.deep_view() == with_item::<BackgroundAgentRow>(
                old(self).background_agents.deep_view(),
                row.deep_view(),
            ),
            final(self).background_shells == old(self).background_shells,
            final(self).sessions == old(self).sessions,
            final(self).columns == old(self).columns,
    {
        save_row(&mut self.background_agents, row);
    }

    /// The managed agents of a session.
    pub fn load_background_agents(&self, solution_session_id: &str) -> (r: Vec<BackgroundAgentRow>)
        ensures
            r.deep_view() == of_session::<BackgroundAgentRow>(
                self.background_agents.deep_view(),
                solution_session_id@,
                false,
            ),
    {
        rows_of_session(&self.background_agents, solution_session_id, false)
    }

    /// Forgets a managed agent.
    pub fn delete_background_agent(&mut self, solution_session_id: &str, agent_id: &str)
        requires
            background_wf(*old(self)),
        ensures
            background_wf(*final(self)),
            final(self).background_agents.deep_view() == without_item::<BackgroundAgentRow>(
                old(self).background_agents.deep_view(),
                solution_session_id@,
                agent_id@,
            ),
            final(self).background_shells == old(self).background_shells,
            final(self).sessions == old(self).sessions,
            final(self).columns == old(self).columns,
    {
        proof {
            lemma_parts_keep_keys::<BackgroundAgentRow>(
                self.background_agents.deep_view(),
                solution_session_id@,
                agent_id@,
                false,
            );
        }
        self.background_agents = drop_item(&self.background_agents, solution_session_id, agent_id);
    }

    /// Remembers a background shell.
    pub fn save_background_shell(&mut self, row: BackgroundShellRow)
        requires
            background_wf(*old(self)),
        ensures
            background_wf(*final(self)),
            final(self).background_shells.deep_view() == with_item::<BackgroundShellRow>(
                old(self).background_shells.deep_view(),
                row.deep_view(),
            ),
            final(self).background_agents == old(self).background_agents,
            final(self).sessions == old(self).sessions,
            final(self).columns == old(self).columns,
    {
        save_row(&mut self.background_shells, row);
    }

    /// The background shells of a session.
    pub fn load_background_shells(&self, solution_session_id: &str) -> (r: Vec<BackgroundShellRow>)
        ensures
            r.deep_view() == of_session::<BackgroundShellRow>(
                self.background_shells.deep_view(),
                solution_session_id@,
                false,
            ),
    {
        rows_of_session(&self.background_shells, solution_session_id, false)
    }

    /// Forgets a background shell.
    pub fn delete_background_shell(&mut self, solution_session_id: &str, shell_id: &str)
        requires
            background_wf(*old(self)),
        ensures
            background_wf(*final(self)),
            final(self).background_shells.deep_view() == without_item::<BackgroundShellRow>(
                old(self).background_shells.deep_view(),
                solution_session_id@,
                shell_id@,
            ),
            final(self).background_agents == old(self).background_agents,
            final(self).sessions == old(self).sessions,
            final(self).columns == old(self).columns,
    {
        proof {
            lemma_parts_keep_keys::<BackgroundShellRow>(
                self.background_shells.deep_view(),
                solution_session_id@,
                shell_id@,
                false,
            );
        }
        self.background_shells = drop_item(&self.background_shells, solution_session_id, shell_id);
    }

    /// Forgets the background shells of a session.
    pub fn delete_background_shells_for_session(&mut self, solution_session_id: &str)
        requires
            background_wf(*old(self)),
        ensures
            background_wf(*final(self)),
            final(self).background_shells.deep_view() == of_session::<BackgroundShellRow>(
                old(self).background_shells.deep_view(),
                solution_session_id@,
                true,
            ),
            final(self).background_agents == old(self).background_agents,
            final(self).sessions == old(self).sessions,
            final(self).columns == old(self).columns,
    {
        proof {
            lemma_parts_keep_keys::<BackgroundShellRow>(
                self.background_shells.deep_view(),
                solution_session_id@,
                solution_session_id@,
                true,
            );
        }
        self.background_shells = rows_of_session(
            &self.background_shells,
            solution_session_id,
            true,
        );
    }
}

/// A row that is remembered for the first time comes back as it was, behind those
/// that were remembered before.
pub proof fn law_new_item_comes_back<T: BackgroundRow>(
    rows: Seq<<T as DeepView>::V>,
    new: <T as DeepView>::V,
)
    requires
        !has_item::<T>(rows, T::session_of(new), T::item_of(new)),
    ensures
        of_session::<T>(with_item::<T>(rows, new), T::session_of(new), false) == of_session::<T>(
            rows,
            T::session_of(new),
            false,
        ).push(new),
{
    assert(rows.push(new).drop_last() =~= rows);
}

/// A forgotten item does not come back.
pub proof fn law_deleted_item_is_gone<T: BackgroundRow>(
    rows: Seq<<T as DeepView>::V>,
    session: Seq<char>,
    item: Seq<char>,
)
    ensures
        !has_item::<T>(without_item::<T>(rows, session, item), session, item),
    decreases rows.len(),
{
    if rows.len() > 0 {
        law_deleted_item_is_gone::<T>(rows.drop_last(), session, item);
        let before = without_item::<T>(rows.drop_last(), session, item);
        let after = without_item::<T>(rows, session, item);
        assert forall|i: int| 0 <= i < after.len() implies !is_keyed::<T>(
            #[trigger] after[i],
            session,
            item,
        ) by {
            if i < before.len() {
                assert(after[i] == before[i]);
            }
        }
    }
}

/// Forgetting the rows of one session leaves those of every other alone.
pub proof fn law_other_sessions_stay<T: BackgroundRow>(
    rows: Seq<<T as DeepView>::V>,
    session: Seq<char>,
    other: Seq<char>,
)
    requires
        other != session,
    ensures
        of_session::<T>(of_session::<T>(rows, session, true), session, false).len() == 0,
        of_session::<T>(of_session::<T>(rows, session, true), other, false) == of_session::<T>(
            rows,
            other,
            false,
        ),
    decreases rows.len(),
{
    if rows.len() > 0 {
        law_other_sessions_stay::<T>(rows.drop_last(), session, other);
        let before = of_session::<T>(rows.drop_last(), session, true);
        assert(before.push(rows.last()).drop_last() =~= before);
    }
}

} // verus!
