//! What a client is told of sessions.
use super::dto::{
    BackgroundAgentDto, BackgroundAgentDtoView, BackgroundShellDto, BackgroundShellDtoView,
    GetSessionBackgroundAgentsParams, GetSessionBackgroundAgentsResult,
    GetSessionBackgroundShellsParams, GetSessionBackgroundShellsResult, GetSessionChildrenParams,
    GetSessionChildrenResult, ListSessionsParams, ListSessionsResult, SessionStateDto,
    SessionStateDtoView, SessionSummary, SessionSummaryView, SubagentDto, SubagentDtoView,
    ToolResponse,
};
use super::requests::{
    find_session, named_session, parse_named_session, parse_requested_session, position_of_session,
    requested_session, say_of_session,
};
use crate::background_agent::{BackgroundAgent, BackgroundAgentId};
use crate::background_shell::{state_text, BackgroundShell, BackgroundShellId};
use crate::clock::{ClockReading, Timestamp};
use crate::duplicate::{push_value, Duplicate};
use crate::model::{SessionState, SolutionSession, SolutionSessionId, SubagentTab};
use crate::ordering::{insert_sorted, sorted_by, Placed};
use crate::text::{decimal, print_u64, same_text};
use vstd::prelude::*;
use vstd::string::*;

verus! {

/// What a session is doing, on the wire.
pub open spec fn state_on_wire(
    state: SessionState,
    running_started_at_ms: int,
    stopping_started_at_ms: int,
) -> SessionStateDtoView {
    match state {
        SessionState::Idle => SessionStateDtoView::Idle,
        SessionState::Running { .. } => SessionStateDtoView::Running {
            started_at_ms: running_started_at_ms as i64,
        },
        SessionState::Stopping { .. } => SessionStateDtoView::Stopping {
            started_at_ms: stopping_started_at_ms as i64,
        },
        SessionState::AwaitingInput => SessionStateDtoView::AwaitingInput,
        SessionState::Errored(message) => SessionStateDtoView::Errored { message: message@ },
    }
}

impl SessionStateDto {
    /// What a session is doing, on the wire, given the wall-clock times at which
    /// it started to.
    pub fn from_state(
        state: &SessionState,
        running_started_at_ms: i64,
        stopping_started_at_ms: i64,
    ) -> (r: SessionStateDto)
        ensures
            r.deep_view() == state_on_wire(
                *state,
                running_started_at_ms as int,
                stopping_started_at_ms as int,
            ),
    {
        match state {
            SessionState::Idle => SessionStateDto::Idle,
            SessionState::Running { .. } => SessionStateDto::Running {
                started_at_ms: running_started_at_ms,
            },
            SessionState::Stopping { .. } => SessionStateDto::Stopping {
                started_at_ms: stopping_started_at_ms,
            },
            SessionState::AwaitingInput => SessionStateDto::AwaitingInput,
            SessionState::Errored(message) => SessionStateDto::Errored { message: message.clone() },
        }
    }
}

/// What a session is doing, on the wire, as of `now`.
pub open spec fn session_state(state: SessionState, now: ClockReading) -> SessionStateDtoView {
    match state {
        SessionState::Running { started_at, .. } => SessionStateDtoView::Running {
            started_at_ms: now.wall_ms_at(started_at) as i64,
        },
        SessionState::Stopping { started_at } => SessionStateDtoView::Stopping {
            started_at_ms: now.wall_ms_at(started_at) as i64,
        },
        _ => state_on_wire(state, 0, 0),
    }
}

/// The sub-agent with the given id.
pub open spec fn tab_of(tabs: Seq<(String, SubagentTab)>, id: Seq<char>) -> Option<SubagentTab>
    decreases tabs.len(),
{
    if tabs.len() == 0 {
        None
    } else if tabs[0].0@ == id {
        Some(tabs[0].1)
    } else {
        tab_of(tabs.drop_first(), id)
    }
}

/// The sub-agent with the given id.
fn find_tab<'a>(tabs: &'a Vec<(String, SubagentTab)>, id: &str) -> (r: Option<&'a SubagentTab>)
    ensures
        match r {
            Some(tab) => tab_of(tabs@, id@) == Some(*tab),
            None => tab_of(tabs@, id@) is None,
        },
{
    let mut i: usize = 0;
    assert(tabs@.skip(0) =~= tabs@);
    while i < tabs.len()
        invariant
            i <= tabs@.len(),
            tab_of(tabs@, id@) == tab_of(tabs@.skip(i as int), id@),
        decreases tabs@.len() - i,
    {
        assert(tabs@.skip(i as int).drop_first() =~= tabs@.skip(i as int + 1));
        if same_text(tabs[i].0.as_str(), id) {
            return Some(&tabs[i].1);
        }
        i += 1;
    }
    None
}

/// The sub-agents at work, in the order in which they started. An id without a
/// sub-agent is skipped.
pub open spec fn subagents_of(
    order: Seq<String>,
    tabs: Seq<(String, SubagentTab)>,
) -> Seq<SubagentDtoView>
    decreases order.len(),
{
    if order.len() == 0 {
        Seq::empty()
    } else {
        let before = subagents_of(order.drop_last(), tabs);
        match tab_of(tabs, order.last()@) {
            Some(tab) => before.push(
                SubagentDtoView {
                    id: order.last()@,
                    label: tab.label@,
                    started_at_ms: tab.started_at.millis() as i64,
                },
            ),
            None => before,
        }
    }
}

/// The sub-agents at work, in the order in which they started.
pub fn build_active_subagents_vec(session: &SolutionSession) -> (r: Vec<SubagentDto>)
    ensures
        r.deep_view() == subagents_of(session.active_subagent_order@, session.active_subagents@),
{
    let order = &session.active_subagent_order;
    let mut out: Vec<SubagentDto> = Vec::new();
    let mut i: usize = 0;
    assert(out.deep_view() =~= subagents_of(order@.take(0), session.active_subagents@));
    while i < order.len()
        invariant
            i <= order@.len(),
            *order == session.active_subagent_order,
            out.deep_view() == subagents_of(order@.take(i as int), session.active_subagents@),
        decreases order@.len() - i,
    {
        assert(order@.take(i as int + 1).drop_last() =~= order@.take(i as int));
        if let Some(tab) = find_tab(&session.active_subagents, order[i].as_str()) {
            let dto = SubagentDto {
                id: order[i].clone(),
                label: tab.label.clone(),
                started_at_ms: tab.started_at.timestamp_millis(),
            };
            push_value(&mut out, dto);
        }
        i += 1;
    }
    assert(order@.take(i as int) =~= order@);
    out
}

/// The tokens that a session has used: what the running agent reports, or else
/// what was last known.
pub open spec fn tokens_used(session: SolutionSession) -> Option<u64> {
    match session.thread() {
        Some(thread) => match thread.token_usage {
            Some(usage) => Some(usage.used_tokens),
            None => session.cached_total_tokens,
        },
        None => session.cached_total_tokens,
    }
}

/// The size of a session's context window: what the running agent reports, if
/// it does, or else what was last known.
pub open spec fn tokens_max(session: SolutionSession) -> Option<u64> {
    match session.thread() {
        Some(thread) => match thread.token_usage {
            Some(usage) => if usage.max_tokens > 0 {
                Some(usage.max_tokens)
            } else {
                session.cached_max_tokens
            },
            None => session.cached_max_tokens,
        },
        None => session.cached_max_tokens,
    }
}

/// The tokens that a session has used.
pub fn read_tokens_used(session: &SolutionSession) -> (r: Option<u64>)
    ensures
        r == tokens_used(*session),
{
    if let Some(thread) = session.acp_thread() {
        if let Some(usage) = thread.token_usage {
            return Some(usage.used_tokens);
        }
    }
    session.cached_total_tokens
}

/// The size of a session's context window.
pub fn read_tokens_max(session: &SolutionSession) -> (r: Option<u64>)
    ensures
        r == tokens_max(*session),
{
    if let Some(thread) = session.acp_thread() {
        if let Some(usage) = thread.token_usage {
            if usage.max_tokens > 0 {
                return Some(usage.max_tokens);
            }
        }
    }
    session.cached_max_tokens
}

/// What a client is told of a session as of `now`.
pub open spec fn summary_of(session: SolutionSession, now: ClockReading) -> SessionSummaryView {
    SessionSummaryView {
        id: session.id@,
        solution_id: session.solution_id@,
        agent_id: session.agent_id@,
        title: session.title@,
        state: session_state(session.state, now),
        created_at: session.created_at.millis() as i64,
        last_activity_at: session.last_activity_at.millis() as i64,
        total_tokens: tokens_used(session),
        max_tokens: tokens_max(session),
        parent_session_id: session.parent_session_id.deep_view(),
        acp_session_id: session.acp_session_id@,
        cwd: if session.cwd@.len() == 0 {
            None
        } else {
            Some(session.cwd@)
        },
        active_subagents: subagents_of(session.active_subagent_order@, session.active_subagents@),
    }
}

/// The id of a session as a string.
fn id_string(id: &SolutionSessionId) -> (r: String)
    ensures
        r@ == id@,
{
    id.as_str().to_owned()
}

/// What a client is told of a session as of `now`.
pub fn session_summary(session: &SolutionSession, now: &ClockReading) -> (r: SessionSummary)
    ensures
        r.deep_view() == summary_of(*session, *now),
{
    let running_started_at_ms: i64 = match &session.state {
        SessionState::Running { started_at, .. } => now.wall_millis_at(*started_at),
        _ => 0,
    };
    let stopping_started_at_ms: i64 = match &session.state {
        SessionState::Stopping { started_at } => now.wall_millis_at(*started_at),
        _ => 0,
    };
    let parent_session_id = match &session.parent_session_id {
        Some(parent) => Some(id_string(parent)),
        None => None,
    };
    let cwd = if session.cwd.as_str().is_empty() {
        None
    } else {
        Some(session.cwd.clone())
    };
    SessionSummary {
        id: id_string(&session.id),
        solution_id: session.solution_id.clone(),
        agent_id: session.agent_id.clone(),
        title: session.title.clone(),
        state: SessionStateDto::from_state(
            &session.state,
            running_started_at_ms,
            stopping_started_at_ms,
        ),
        created_at: session.created_at.timestamp_millis(),
        last_activity_at: session.last_activity_at.timestamp_millis(),
        total_tokens: read_tokens_used(session),
        max_tokens: read_tokens_max(session),
        parent_session_id,
        acp_session_id: session.acp_session_id.clone(),
        cwd,
        active_subagents: build_active_subagents_vec(session),
    }
}

/// The order in which sessions are listed.
#[derive(Clone, Copy, Debug, PartialEq, Eq, Structural)]
pub enum SessionOrder {
    /// The one that was active last comes first.
    LatestActivityFirst,
    /// The one that was created first comes first.
    OldestFirst,
}

impl Placed<SessionOrder> for SessionSummary {
    open spec fn place(value: SessionSummaryView, order: SessionOrder) -> int {
        match order {
            SessionOrder::LatestActivityFirst => -(value.last_activity_at as int),
            SessionOrder::OldestFirst => value.created_at as int,
        }
    }

    fn is_behind(&self, other: &Self, order: &SessionOrder) -> (r: bool) {
        match order {
            SessionOrder::LatestActivityFirst => self.last_activity_at < other.last_activity_at,
            SessionOrder::OldestFirst => self.created_at > other.created_at,
        }
    }
}

/// `items` in the given order.
pub open spec fn in_order(items: Seq<SessionSummaryView>, order: SessionOrder) -> Seq<
    SessionSummaryView,
> {
    sorted_by::<SessionOrder, SessionSummary>(items, order)
}

/// Whether a session belongs to the solution and has the parent that were asked
/// for.
pub open spec fn is_wanted(
    session: SolutionSession,
    solution: Option<Seq<char>>,
    parent: Option<Seq<char>>,
) -> bool {
    &&& solution matches Some(want) ==> session.solution_id@ == want
    &&& parent matches Some(want) ==> session.parent_session_id.deep_view() == Some(want)
}

/// The summaries of the sessions that were asked for.
pub open spec fn wanted_summaries(
    sessions: Seq<SolutionSession>,
    solution: Option<Seq<char>>,
    parent: Option<Seq<char>>,
    now: ClockReading,
) -> Seq<SessionSummaryView>
    decreases sessions.len(),
{
    if sessions.len() == 0 {
        Seq::empty()
    } else {
        let before = wanted_summaries(sessions.drop_last(), solution, parent, now);
        if is_wanted(sessions.last(), solution, parent) {
            before.push(summary_of(sessions.last(), now))
        } else {
            before
        }
    }
}

/// How many sessions belong to the solution that was asked for, whatever their
/// parent.
pub open spec fn solution_count(sessions: Seq<SolutionSession>, solution: Option<Seq<char>>) -> nat
    decreases sessions.len(),
{
    if sessions.len() == 0 {
        0
    } else {
        solution_count(sessions.drop_last(), solution) + if is_wanted(
            sessions.last(),
            solution,
            None,
        ) {
            1nat
        } else {
            0
        }
    }
}

/// Whether a session belongs to the solution that was asked for.
fn in_solution(session: &SolutionSession, solution: &Option<String>) -> (r: bool)
    ensures
        r == is_wanted(*session, solution.deep_view(), None),
{
    match solution {
        Some(want) => same_text(session.solution_id.as_str(), want.as_str()),
        None => true,
    }
}

/// How many sessions belong to the solution that was asked for.
fn count_in_solution(sessions: &Vec<SolutionSession>, solution: &Option<String>) -> (r: usize)
    ensures
        r == solution_count(sessions@, solution.deep_view()),
{
    let ghost want = solution.deep_view();
    let mut count: usize = 0;
    let mut i: usize = 0;
    while i < sessions.len()
        invariant
            count <= i <= sessions@.len(),
            want == solution.deep_view(),
            count == solution_count(sessions@.take(i as int), want),
        decreases sessions@.len() - i,
    {
        assert(sessions@.take(i as int + 1).drop_last() =~= sessions@.take(i as int));
        if in_solution(&sessions[i], solution) {
            count += 1;
        }
        i += 1;
    }
    assert(sessions@.take(i as int) =~= sessions@);
    count
}

/// The summaries of the sessions that were asked for, in order.
fn collect_sorted(
    sessions: &Vec<SolutionSession>,
    solution: &Option<String>,
    parent: &Option<SolutionSessionId>,
    now: &ClockReading,
    order: SessionOrder,
) -> (r: Vec<SessionSummary>)
    ensures
        r.deep_view() == in_order(
            wanted_summaries(sessions@, solution.deep_view(), parent.deep_view(), *now),
            order,
        ),
{
    let ghost want_solution = solution.deep_view();
    let ghost want_parent = parent.deep_view();
    let mut out: Vec<SessionSummary> = Vec::new();
    let mut i: usize = 0;
    assert(out.deep_view() =~= in_order(
        wanted_summaries(sessions@.take(0), want_solution, want_parent, *now),
        order,
    ));
    while i < sessions.len()
        invariant
            i <= sessions@.len(),
            want_solution == solution.deep_view(),
            want_parent == parent.deep_view(),
            out.deep_view() == in_order(
                wanted_summaries(sessions@.take(i as int), want_solution, want_parent, *now),
                order,
            ),
        decreases sessions@.len() - i,
    {
        let session = &sessions[i];
        assert(sessions@.take(i as int + 1).drop_last() =~= sessions@.take(i as int));
        let right_solution = in_solution(session, solution);
        let right_parent = match parent {
            Some(want) => match &session.parent_session_id {
                Some(have) => have.same(want),
                None => false,
            },
            None => true,
        };
        if right_solution && right_parent {
            let ghost before = wanted_summaries(
                sessions@.take(i as int),
                want_solution,
                want_parent,
                *now,
            );
            let summary = session_summary(session, now);
            assert(before.push(summary.deep_view()).drop_last() =~= before);
            insert_sorted(&mut out, summary, &order);
        }
        i += 1;
    }
    assert(sessions@.take(i as int) =~= sessions@);
    out
}

/// The sessions that were last active before the given time.
pub open spec fn active_before(items: Seq<SessionSummaryView>, before: Option<i64>) -> Seq<
    SessionSummaryView,
> {
    match before {
        Some(bound) => items.filter(|s: SessionSummaryView| s.last_activity_at < bound),
        None => items,
    }
}

/// The first `count` of `items`.
pub open spec fn first_n(items: Seq<SessionSummaryView>, count: Option<usize>) -> Seq<
    SessionSummaryView,
> {
    match count {
        Some(n) => if items.len() > n {
            items.take(n as int)
        } else {
            items
        },
        None => items,
    }
}

/// What a client is shown that asks for a list of sessions.
pub open spec fn listing(
    sessions: Seq<SolutionSession>,
    solution: Option<Seq<char>>,
    parent: Option<Seq<char>>,
    before: Option<i64>,
    count: Option<usize>,
    now: ClockReading,
) -> Seq<SessionSummaryView> {
    let listed = in_order(
        wanted_summaries(sessions, solution, parent, now),
        SessionOrder::LatestActivityFirst,
    );
    first_n(active_before(listed, before), count)
}

/// What a client is shown that asks for the children of a session.
pub open spec fn children_of(
    sessions: Seq<SolutionSession>,
    id: Seq<char>,
    now: ClockReading,
) -> Seq<SessionSummaryView> {
    in_order(wanted_summaries(sessions, None, Some(id), now), SessionOrder::OldestFirst)
}

/// The sessions of `listed` that lie in the window that was asked for.
fn cut_window(listed: Vec<SessionSummary>, before: Option<i64>, count: Option<usize>) -> (r: Vec<
    SessionSummary,
>)
    ensures
        r.deep_view() == first_n(active_before(listed.deep_view(), before), count),
{
    let ghost all = listed.deep_view();
    let mut kept: Vec<SessionSummary> = Vec::new();
    let mut listed = listed;
    if let Some(bound) = before {
        let ghost pred = |s: SessionSummaryView| s.last_activity_at < bound;
        let ghost n = all.len();
        proof {
            reveal(Seq::filter);
        }
        assert(all.take(0).filter(pred) =~= Seq::<SessionSummaryView>::empty());
        let mut rest: Vec<SessionSummary> = Vec::new();
        while listed.len() > 0
            invariant
                listed@.len() + rest@.len() == n,
                all.len() == n,
                forall|i: int|
                    0 <= i < listed@.len() ==> (#[trigger] listed@[i]).deep_view() == all[i],
                forall|i: int|
                    0 <= i < rest@.len() ==> (#[trigger] rest@[i]).deep_view() == all[n - 1 - i],
            decreases listed@.len(),
        {
            let ghost last = listed@.len() - 1;
            assert(listed@[last].deep_view() == all[last]);
            let item = listed.pop().unwrap();
            rest.push(item);
        }
        while rest.len() > 0
            invariant
                rest@.len() <= n,
                all.len() == n,
                pred == (|s: SessionSummaryView| s.last_activity_at < bound),
                forall|i: int|
                    0 <= i < rest@.len() ==> (#[trigger] rest@[i]).deep_view() == all[n - 1 - i],
                kept.deep_view() == all.take(n - rest@.len()).filter(pred),
            decreases rest@.len(),
        {
            let ghost done = n - rest@.len();
            let ghost last = rest@.len() - 1;
            assert(rest@[last].deep_view() == all[done]);
            let item = rest.pop().unwrap();
            assert(all.take(done + 1).drop_last() =~= all.take(done));
            proof {
                reveal(Seq::filter);
            }
            if item.last_activity_at < bound {
                push_value(&mut kept, item);
            }
        }
        assert(all.take(n as int) =~= all);
    } else {
        kept = listed;
    }
    if let Some(n) = count {
        let ghost full = kept.deep_view();
        if kept.len() > n {
            kept.truncate(n);
            assert(kept.deep_view() =~= full.take(n as int));
        }
    }
    kept
}

/// A number followed by a word.
fn say_count(count: usize, what: &str) -> (r: String)
    ensures
        r@ == decimal(count as nat) + what@,
{
    let mut text = print_u64(count as u64);
    text.append(what);
    text
}

/// The parent that a listing asks for, or what is wrong with it.
pub open spec fn wanted_parent(text: Option<Seq<char>>) -> Result<Option<Seq<char>>, Seq<char>> {
    match text {
        Some(text) => match named_session(text, "bad parent_session_id: "@) {
            Ok(id) => Ok(Some(id)),
            Err(message) => Err(message),
        },
        None => Ok(None),
    }
}

/// Lists the sessions.
#[derive(Clone)]
pub struct ListSessionsTool;

impl ListSessionsTool {
    pub const NAME: &'static str = "solution_agent.list_sessions";

    /// Lists the sessions, the one that was active last first. `sessions` are all
    /// the sessions there are. The total counts those of the solution, whatever their
    /// parent and the window.
    pub fn run(
        &self,
        input: &ListSessionsParams,
        sessions: &Vec<SolutionSession>,
        now: &ClockReading,
    ) -> (r: Result<ToolResponse<ListSessionsResult>, String>)
        ensures
            match wanted_parent(input.parent_session_id.deep_view()) {
                Ok(parent) => {
                    let shown = listing(
                        sessions@,
                        input.solution_id.deep_view(),
                        parent,
                        input.before_last_activity_at_ms,
                        input.count,
                        *now,
                    );
                    &&& r is Ok
                    &&& r->Ok_0.result.sessions.deep_view() == shown
                    &&& r->Ok_0.result.total_count == solution_count(
                        sessions@,
                        input.solution_id.deep_view(),
                    )
                    &&& r->Ok_0.text@ == decimal(shown.len()) + " session(s)"@
                },
                Err(message) => r is Err && r->Err_0@ == message,
            },
    {
        let parent = match &input.parent_session_id {
            Some(text) => match parse_named_session(text.as_str(), "bad parent_session_id: ") {
                Ok(id) => Some(id),
                Err(message) => {
                    return Err(message);
                },
            },
            None => None,
        };
        let listed = collect_sorted(
            sessions,
            &input.solution_id,
            &parent,
            now,
            SessionOrder::LatestActivityFirst,
        );
        let total_count: usize = count_in_solution(sessions, &input.solution_id);
        let shown = cut_window(listed, input.before_last_activity_at_ms, input.count);
        assert(shown@.len() == shown.deep_view().len());
        let text = say_count(shown.len(), " session(s)");
        Ok(ToolResponse { text, result: ListSessionsResult { sessions: shown, total_count } })
    }
}

/// Lists the children of a session.
#[derive(Clone)]
pub struct GetSessionChildrenTool;

impl GetSessionChildrenTool {
    pub const NAME: &'static str = "solution_agent.get_session_children";

    /// Lists the children of a session, the one that was created first first.
    pub fn run(
        &self,
        input: &GetSessionChildrenParams,
        sessions: &Vec<SolutionSession>,
        now: &ClockReading,
    ) -> (r: Result<ToolResponse<GetSessionChildrenResult>, String>)
        ensures
            match requested_session(input.session_id@) {
                Ok(id) => if find_session(sessions@, id) is None {
                    r is Err && r->Err_0@ == "unknown_parent_session: "@ + id
                } else {
                    let children = children_of(sessions@, id, *now);
                    &&& r is Ok
                    &&& r->Ok_0.result.children.deep_view() == children
                    &&& r->Ok_0.text@ == decimal(children.len()) + " child session(s)"@
                },
                Err(message) => r is Err && r->Err_0@ == message,
            },
    {
        let parent_id = match parse_requested_session(input.session_id.as_str()) {
            Ok(id) => id,
            Err(message) => {
                return Err(message);
            },
        };
        if position_of_session(sessions, &parent_id).is_none() {
            return Err(say_of_session("unknown_parent_session: ", &parent_id));
        }
        let no_solution: Option<String> = None;
        let children = collect_sorted(
            sessions,
            &no_solution,
            &Some(parent_id),
            now,
            SessionOrder::OldestFirst,
        );
        assert(children@.len() == children.deep_view().len());
        let text = say_count(children.len(), " child session(s)");
        Ok(ToolResponse { text, result: GetSessionChildrenResult { children } })
    }
}

/// The milliseconds of a modification time, unless it lies before the epoch.
pub open spec fn mtime_on_wire(mtime: Timestamp) -> Option<i64> {
    if mtime.seconds() < 0 {
        None
    } else {
        Some(mtime.millis() as i64)
    }
}

/// The milliseconds of a modification time, unless it lies before the epoch.
fn mtime_millis(mtime: &Timestamp) -> (r: Option<i64>)
    ensures
        r == mtime_on_wire(*mtime),
{
    if mtime.is_before_epoch() {
        None
    } else {
        Some(mtime.timestamp_millis())
    }
}

/// What a client is told of a background shell.
pub open spec fn shell_dto(shell: BackgroundShell, include_output: bool) -> BackgroundShellDtoView {
    BackgroundShellDtoView {
        id: shell.id.deep_view(),
        command: shell.command@,
        state: state_text(shell.state),
        mtime_ms: match shell.latest {
            Some(snapshot) => mtime_on_wire(snapshot.mtime),
            None => None,
        },
        output_tail: match shell.latest {
            Some(snapshot) => if include_output {
                Some(snapshot.output_tail@)
            } else {
                None
            },
            None => None,
        },
    }
}

/// What a client is told of a background shell. The output is there only where
/// it was asked for.
pub fn background_shell_dto(shell: &BackgroundShell, include_output: bool) -> (r:
    BackgroundShellDto)
    ensures
        r.deep_view() == shell_dto(*shell, include_output),
{
    let mtime_ms: Option<i64> = match &shell.latest {
        Some(snapshot) => mtime_millis(&snapshot.mtime),
        None => None,
    };
    let output_tail = match &shell.latest {
        Some(snapshot) => if include_output {
            Some(snapshot.output_tail.clone())
        } else {
            None
        },
        None => None,
    };
    BackgroundShellDto {
        id: shell.id.as_str().to_owned(),
        command: shell.command.clone(),
        state: shell.state.to_state_text(),
        mtime_ms,
        output_tail,
    }
}

/// The background shell with the given id.
pub open spec fn shell_of(shells: Seq<BackgroundShell>, id: Seq<char>) -> Option<BackgroundShell>
    decreases shells.len(),
{
    if shells.len() == 0 {
        None
    } else if shells[0].id.deep_view() == id {
        Some(shells[0])
    } else {
        shell_of(shells.drop_first(), id)
    }
}

/// The background shell with the given id.
fn find_shell<'a>(shells: &'a Vec<BackgroundShell>, id: &str) -> (r: Option<&'a BackgroundShell>)
    ensures
        match r {
            Some(shell) => shell_of(shells@, id@) == Some(*shell),
            None => shell_of(shells@, id@) is None,
        },
{
    let mut i: usize = 0;
    assert(shells@.skip(0) =~= shells@);
    while i < shells.len()
        invariant
            i <= shells@.len(),
            shell_of(shells@, id@) == shell_of(shells@.skip(i as int), id@),
        decreases shells@.len() - i,
    {
        assert(shells@.skip(i as int).drop_first() =~= shells@.skip(i as int + 1));
        if same_text(shells[i].id.as_str(), id) {
            return Some(&shells[i]);
        }
        i += 1;
    }
    None
}

/// The background shells of a session in the order in which they were started.
/// An id without a shell is skipped.
pub open spec fn shells_of(
    order: Seq<BackgroundShellId>,
    shells: Seq<BackgroundShell>,
    include_output: bool,
) -> Seq<BackgroundShellDtoView>
    decreases order.len(),
{
    if order.len() == 0 {
        Seq::empty()
    } else {
        let before = shells_of(order.drop_last(), shells, include_output);
        match shell_of(shells, order.last().deep_view()) {
            Some(shell) => before.push(shell_dto(shell, include_output)),
            None => before,
        }
    }
}

/// The background shells of a session in the order in which they were started.
pub fn build_background_shells_vec(session: &SolutionSession, include_output: bool) -> (r: Vec<
    BackgroundShellDto,
>)
    ensures
        r.deep_view() == shells_of(
            session.background_shell_order@,
            session.background_shells@,
            include_output,
        ),
{
    let order = &session.background_shell_order;
    let ghost shells = session.background_shells@;
    let mut out: Vec<BackgroundShellDto> = Vec::new();
    let mut i: usize = 0;
    assert(out.deep_view() =~= shells_of(order@.take(0), shells, include_output));
    while i < order.len()
        invariant
            i <= order@.len(),
            *order == session.background_shell_order,
            shells == session.background_shells@,
            out.deep_view() == shells_of(order@.take(i as int), shells, include_output),
        decreases order@.len() - i,
    {
        assert(order@.take(i as int + 1).drop_last() =~= order@.take(i as int));
        if let Some(shell) = find_shell(&session.background_shells, order[i].as_str()) {
            push_value(&mut out, background_shell_dto(shell, include_output));
        }
        i += 1;
    }
    assert(order@.take(i as int) =~= order@);
    out
}

/// Lists the background shells of a session.
#[derive(Clone)]
pub struct GetSessionBackgroundShellsTool;

impl GetSessionBackgroundShellsTool {
    pub const NAME: &'static str = "solution_agent.get_session_background_shells";

    /// Lists the background shells of a session.
    pub fn run(
        &self,
        input: &GetSessionBackgroundShellsParams,
        sessions: &Vec<SolutionSession>,
    ) -> (r: Result<ToolResponse<GetSessionBackgroundShellsResult>, String>)
        ensures
            match requested_session(input.session_id@) {
                Ok(id) => match find_session(sessions@, id) {
                    Some(i) => {
                        let shells = shells_of(
                            sessions@[i].background_shell_order@,
                            sessions@[i].background_shells@,
                            input.include_output,
                        );
                        &&& r is Ok
                        &&& r->Ok_0.result.background_shells.deep_view() == shells
                        &&& r->Ok_0.text@ == decimal(shells.len()) + " background shell(s)"@
                    },
                    None => r is Err && r->Err_0@ == "session_not_found: "@ + id,
                },
                Err(message) => r is Err && r->Err_0@ == message,
            },
    {
        let session_id = match parse_requested_session(input.session_id.as_str()) {
            Ok(id) => id,
            Err(message) => {
                return Err(message);
            },
        };
        match position_of_session(sessions, &session_id) {
            Some(i) => {
                let background_shells = build_background_shells_vec(&sessions[i], input.include_output);
                assert(background_shells@.len() == background_shells.deep_view().len());
                let text = say_count(background_shells.len(), " background shell(s)");
                Ok(ToolResponse { text, result: GetSessionBackgroundShellsResult { background_shells } })
            },
            None => Err(say_of_session("session_not_found: ", &session_id)),
        }
    }
}

/// What a client is told of a managed agent.
pub open spec fn agent_dto(agent: BackgroundAgent) -> BackgroundAgentDtoView {
    BackgroundAgentDtoView {
        id: agent.id.deep_view(),
        label: match agent.latest {
            Some(snapshot) => snapshot.activity_label@,
            None => "Generating…"@,
        },
        mtime_ms: match agent.latest {
            Some(snapshot) => mtime_on_wire(snapshot.mtime),
            None => None,
        },
        stop_reason: match agent.latest {
            Some(snapshot) => snapshot.stop_reason.deep_view(),
            None => None,
        },
    }
}

/// What a client is told of a managed agent.
pub fn background_agent_dto(agent: &BackgroundAgent) -> (r: BackgroundAgentDto)
    ensures
        r.deep_view() == agent_dto(*agent),
{
    match &agent.latest {
        Some(snapshot) => BackgroundAgentDto {
            id: agent.id.as_str().to_owned(),
            label: snapshot.activity_label.clone(),
            mtime_ms: mtime_millis(&snapshot.mtime),
            stop_reason: snapshot.stop_reason.duplicate(),
        },
        None => BackgroundAgentDto {
            id: agent.id.as_str().to_owned(),
            label: "Generating…".to_owned(),
            mtime_ms: None,
            stop_reason: None,
        },
    }
}

/// The managed agent with the given id.
pub open spec fn agent_of(agents: Seq<BackgroundAgent>, id: Seq<char>) -> Option<BackgroundAgent>
    decreases agents.len(),
{
    if agents.len() == 0 {
        None
    } else if agents[0].id.deep_view() == id {
        Some(agents[0])
    } else {
        agent_of(agents.drop_first(), id)
    }
}

/// The managed agent with the given id.
fn find_agent<'a>(agents: &'a Vec<BackgroundAgent>, id: &str) -> (r: Option<&'a BackgroundAgent>)
    ensures
        match r {
            Some(agent) => agent_of(agents@, id@) == Some(*agent),
            None => agent_of(agents@, id@) is None,
        },
{
    let mut i: usize = 0;
    assert(agents@.skip(0) =~= agents@);
    while i < agents.len()
        invariant
            i <= agents@.len(),
            agent_of(agents@, id@) == agent_of(agents@.skip(i as int), id@),
        decreases agents@.len() - i,
    {
        assert(agents@.skip(i as int).drop_first() =~= agents@.skip(i as int + 1));
        if same_text(agents[i].id.as_str(), id) {
            return Some(&agents[i]);
        }
        i += 1;
    }
    None
}

/// The managed agents of a session in the order in which they were announced.
/// An id without an agent is skipped.
pub open spec fn agents_of(
    order: Seq<BackgroundAgentId>,
    agents: Seq<BackgroundAgent>,
) -> Seq<BackgroundAgentDtoView>
    decreases order.len(),
{
    if order.len() == 0 {
        Seq::empty()
    } else {
        let before = agents_of(order.drop_last(), agents);
        match agent_of(agents, order.last().deep_view()) {
            Some(agent) => before.push(agent_dto(agent)),
            None => before,
        }
    }
}

/// The managed agents of a session in the order in which they were announced.
pub fn build_background_agents_vec(session: &SolutionSession) -> (r: Vec<BackgroundAgentDto>)
    ensures
        r.deep_view() == agents_of(session.background_agent_order@, session.background_agents@),
{
    let order = &session.background_agent_order;
    let ghost agents = session.background_agents@;
    let mut out: Vec<BackgroundAgentDto> = Vec::new();
    let mut i: usize = 0;
    assert(out.deep_view() =~= agents_of(order@.take(0), agents));
    while i < order.len()
        invariant
            i <= order@.len(),
            *order == session.background_agent_order,
            agents == session.background_agents@,
            out.deep_view() == agents_of(order@.take(i as int), agents),
        decreases order@.len() - i,
    {
        assert(order@.take(i as int + 1).drop_last() =~= order@.take(i as int));
        if let Some(agent) = find_agent(&session.background_agents, order[i].as_str()) {
            push_value(&mut out, background_agent_dto(agent));
        }
        i += 1;
    }
    assert(order@.take(i as int) =~= order@);
    out
}

/// Lists the managed agents of a session.
#[derive(Clone)]
pub struct GetSessionBackgroundAgentsTool;

impl GetSessionBackgroundAgentsTool {
    pub const NAME: &'static str = "solution_agent.get_session_background_agents";

    /// Lists the managed agents of a session.
    pub fn run(
        &self,
        input: &GetSessionBackgroundAgentsParams,
        sessions: &Vec<SolutionSession>,
    ) -> (r: Result<ToolResponse<GetSessionBackgroundAgentsResult>, String>)
        ensures
            match requested_session(input.session_id@) {
                Ok(id) => match find_session(sessions@, id) {
                    Some(i) => {
                        let agents = agents_of(
                            sessions@[i].background_agent_order@,
                            sessions@[i].background_agents@,
                        );
                        &&& r is Ok
                        &&& r->Ok_0.result.background_agents.deep_view() == agents
                        &&& r->Ok_0.text@ == decimal(agents.len()) + " background agent(s)"@
                    },
                    None => r is Err && r->Err_0@ == "session_not_found: "@ + id,
                },
                Err(message) => r is Err && r->Err_0@ == message,
            },
    {
        let session_id = match parse_requested_session(input.session_id.as_str()) {
            Ok(id) => id,
            Err(message) => {
                return Err(message);
            },
        };
        match position_of_session(sessions, &session_id) {
            Some(i) => {
                let background_agents = build_background_agents_vec(&sessions[i]);
                assert(background_agents@.len() == background_agents.deep_view().len());
                let text = say_count(background_agents.len(), " background agent(s)");
                Ok(ToolResponse { text, result: GetSessionBackgroundAgentsResult { background_agents } })
            },
            None => Err(say_of_session("session_not_found: ", &session_id)),
        }
    }
}

} // verus!
