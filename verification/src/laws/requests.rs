//! What a request names and what is wrong with one.
use crate::agent_settings::{pool_settings, seconds_long, SettingsContent};
use crate::claude_adapter::{member_label, member_lines};
use crate::mcp::dto::{CreateSessionParams, UploadInitParams};
use crate::mcp::lifecycle::{create_fault, is_among, requested_parent, state_kind};
use crate::mcp::requests::{find_session, named_session, requested_session};
use crate::mcp::uploads::upload_fault;
use crate::metrics_emitter::last_sent;
use crate::model::{
    debug_text, id_of_drawn, is_session_id, picked_id_chars, state_label, uuid_value, SessionState,
    SolutionSession, SolutionSessionId,
};
use crate::path::{components, lies_under};
use crate::solution::{active_project, find_solution, first_backing, Solution};
use vstd::prelude::*;

verus! {

/// The session that is found has the id, and none before it has. None is found exactly
/// where none has it.
pub proof fn law_sessions_are_found_by_id(sessions: Seq<SolutionSession>, id: Seq<char>)
    ensures
        match find_session(sessions, id) {
            Some(i) => {
                &&& 0 <= i < sessions.len()
                &&& sessions[i].id@ == id
                &&& forall|k: int| 0 <= k < i ==> (#[trigger] sessions[k]).id@ != id
            },
            None => forall|k: int| 0 <= k < sessions.len() ==> (#[trigger] sessions[k]).id@ != id,
        },
    decreases sessions.len(),
{
    if sessions.len() > 0 {
        let before = sessions.drop_last();
        law_sessions_are_found_by_id(before, id);
        assert forall|k: int| 0 <= k < before.len() implies #[trigger] sessions[k]
            == before[k] by {}
    }
}

/// The solution that is found has the id, and none before it has. None is found exactly
/// where none has it.
pub proof fn law_solutions_are_found_by_id(solutions: Seq<Solution>, id: Seq<char>)
    ensures
        match find_solution(solutions, id) {
            Some(i) => {
                &&& 0 <= i < solutions.len()
                &&& solutions[i].id@ == id
                &&& forall|k: int| 0 <= k < i ==> (#[trigger] solutions[k]).id@ != id
            },
            None => forall|k: int|
                0 <= k < solutions.len() ==> (#[trigger] solutions[k]).id@ != id,
        },
    decreases solutions.len(),
{
    if solutions.len() > 0 {
        let before = solutions.drop_last();
        law_solutions_are_found_by_id(before, id);
        assert forall|k: int| 0 <= k < before.len() implies #[trigger] solutions[k]
            == before[k] by {}
    }
}

/// Whether one of the worktrees of a project lies under a directory.
pub open spec fn has_worktree_under(worktrees: Seq<Seq<char>>, root: Seq<char>) -> bool {
    exists|k: int|
        0 <= k < worktrees.len() && {
            let parts = components(#[trigger] worktrees[k]);
            &&& components(root).len() <= parts.len()
            &&& parts.take(components(root).len() as int) == components(root)
        }
}

/// The search for a project finds the first one that has a worktree under the root.
proof fn lemma_first_backing(projects: Seq<Seq<Seq<char>>>, root: Seq<char>, from: int)
    requires
        0 <= from,
    ensures
        match first_backing(projects, root, from) {
            Some(i) => {
                &&& from <= i < projects.len()
                &&& has_worktree_under(projects[i], root)
                &&& forall|k: int|
                    from <= k < i ==> !has_worktree_under(#[trigger] projects[k], root)
            },
            None => forall|k: int|
                from <= k < projects.len() ==> !has_worktree_under(#[trigger] projects[k], root),
        },
    decreases projects.len() - from,
{
    if from < projects.len() {
        let worktrees = projects[from];
        if has_worktree_under(worktrees, root) {
            let k = choose|k: int|
                0 <= k < worktrees.len() && {
                    let parts = components(#[trigger] worktrees[k]);
                    &&& components(root).len() <= parts.len()
                    &&& parts.take(components(root).len() as int) == components(root)
                };
            assert(lies_under(worktrees[k], root));
        }
        lemma_first_backing(projects, root, from + 1);
    }
}

/// The project of a solution is the first one with a worktree under the root of the
/// solution. There is none exactly where the solution is not known or no project has
/// such a worktree.
pub proof fn law_project_backs_its_solution(
    id: Seq<char>,
    solutions: Seq<Solution>,
    projects: Seq<Seq<Seq<char>>>,
)
    ensures
        find_solution(solutions, id) is None ==> active_project(id, solutions, projects) is None,
        find_solution(solutions, id) matches Some(s) ==> match active_project(
            id,
            solutions,
            projects,
        ) {
            Some(i) => {
                &&& 0 <= i < projects.len()
                &&& has_worktree_under(projects[i], solutions[s].root@)
                &&& forall|k: int|
                    0 <= k < i ==> !has_worktree_under(#[trigger] projects[k], solutions[s].root@)
            },
            None => forall|k: int|
                0 <= k < projects.len() ==> !has_worktree_under(
                    #[trigger] projects[k],
                    solutions[s].root@,
                ),
        },
{
    if let Some(s) = find_solution(solutions, id) {
        lemma_first_backing(projects, solutions[s].root@, 0);
    }
}

/// Whether two paths have the same components.
pub open spec fn same_components(a: Seq<char>, b: Seq<char>) -> bool {
    components(a) == components(b)
}

/// A directory is among others exactly if one of them has the same components.
pub proof fn law_directories_are_told_by_components(dir: Seq<char>, dirs: Seq<Seq<char>>)
    ensures
        is_among(dir, dirs) <==> exists|k: int|
            0 <= k < dirs.len() && #[trigger] same_components(dirs[k], dir),
{
    let own = components(dir);
    if is_among(dir, dirs) {
        let k = choose|k: int|
            0 <= k < dirs.len() && lies_under(dir, #[trigger] dirs[k]) && lies_under(dirs[k], dir);
        let other = components(dirs[k]);
        assert(own.take(other.len() as int) =~= own);
        assert(same_components(dirs[k], dir));
    }
    if exists|k: int| 0 <= k < dirs.len() && #[trigger] same_components(dirs[k], dir) {
        let k = choose|k: int| 0 <= k < dirs.len() && #[trigger] same_components(dirs[k], dir);
        assert(own.take(own.len() as int) =~= own);
        assert(lies_under(dir, dirs[k]) && lies_under(dirs[k], dir));
    }
}

/// Eight characters, each a small letter or a digit.
pub open spec fn is_short_id(text: Seq<char>) -> bool {
    &&& text.len() == 8
    &&& forall|i: int|
        0 <= i < 8 ==> ('a' <= #[trigger] text[i] <= 'z' || '0' <= text[i] <= '9')
}

/// A request names a session by its id or by the UUID that starts with it. An empty
/// name is missing, and any other name is quoted.
pub proof fn law_requests_name_a_session(text: Seq<char>)
    ensures
        text.len() == 0 ==> requested_session(text) == Err::<Seq<char>, Seq<char>>(
            "invalid_params: session_id is required"@,
        ),
        is_short_id(text) ==> requested_session(text) == Ok::<Seq<char>, Seq<char>>(text),
        text.len() > 0 && !is_short_id(text) && uuid_value(text) is None ==> requested_session(text)
            == Err::<Seq<char>, Seq<char>>(
            "bad session id: invalid session id: "@ + debug_text(text),
        ),
        text.len() > 0 && !is_short_id(text) && uuid_value(text) is Some ==> {
            &&& requested_session(text) matches Ok(id)
            &&& is_short_id(id)
            &&& hex_value(id) == uuid_value(text)->0 as nat
                / 79_228_162_514_264_337_593_543_950_336
        },
{
    reveal_strlit("invalid_params: session_id is required");
    reveal_strlit("invalid_params: ");
    reveal_strlit("session_id");
    reveal_strlit(" is required");
    reveal_strlit("bad session id: invalid session id: ");
    reveal_strlit("bad session id: ");
    reveal_strlit("invalid session id: ");
    assert("invalid_params: "@ + "session_id"@ + " is required"@
        =~= "invalid_params: session_id is required"@);
    assert("bad session id: "@ + ("invalid session id: "@ + debug_text(text))
        =~= "bad session id: invalid session id: "@ + debug_text(text));
    assert(is_session_id(text) == is_short_id(text)) by {
        if is_short_id(text) {
            assert forall|i: int| 0 <= i < text.len() implies crate::model::is_id_char(
                #[trigger] text[i],
            ) by {}
        }
        if is_session_id(text) {
            assert forall|i: int| 0 <= i < 8 implies ('a' <= #[trigger] text[i] <= 'z' || '0'
                <= text[i] <= '9') by {
                assert(crate::model::is_id_char(text[i]));
            }
        }
    }
    if let Some(value) = uuid_value(text) {
        lemma_uuid_prefix(value);
    }
}

/// The number that a hexadecimal digit stands for.
pub open spec fn hex_digit_value(c: char) -> nat {
    if '0' <= c <= '9' {
        (c as nat - 48) as nat
    } else {
        (c as nat - 87) as nat
    }
}

/// The number that hexadecimal digits stand for.
pub open spec fn hex_value(text: Seq<char>) -> nat
    decreases text.len(),
{
    if text.len() == 0 {
        0
    } else {
        16 * hex_value(text.drop_last()) + hex_digit_value(text.last())
    }
}

/// 16 to the given power.
spec fn power_of_sixteen(k: nat) -> nat
    decreases k,
{
    if k == 0 {
        1
    } else {
        16 * power_of_sixteen((k - 1) as nat)
    }
}

/// What hexadecimal digits stand for.
proof fn lemma_hex_digits(n: nat, len: nat)
    ensures
        crate::model::hex_digits(n, len).len() == len,
        forall|i: int|
            0 <= i < len ==> ('a' <= #[trigger] crate::model::hex_digits(n, len)[i] <= 'z' || '0'
                <= crate::model::hex_digits(n, len)[i] <= '9'),
        n < power_of_sixteen(len) ==> hex_value(crate::model::hex_digits(n, len)) == n,
    decreases len,
{
    let digits = crate::model::hex_digits(n, len);
    if len > 0 {
        let before = crate::model::hex_digits(n / 16, (len - 1) as nat);
        lemma_hex_digits(n / 16, (len - 1) as nat);
        assert(digits.drop_last() =~= before);
        assert forall|i: int| 0 <= i < len implies ('a' <= #[trigger] digits[i] <= 'z' || '0'
            <= digits[i] <= '9') by {
            if i < len - 1 {
                assert(digits[i] == before[i]);
            }
        }
        assert(hex_digit_value(crate::model::hex_digit(n % 16)) == n % 16);
    }
}

/// The first digits are those of the number without its last digits.
proof fn lemma_first_hex_digits(n: nat, len: nat, dropped: nat)
    ensures
        crate::model::hex_digits(n, len + dropped).take(len as int) == crate::model::hex_digits(
            n / power_of_sixteen(dropped),
            len,
        ),
    decreases dropped,
{
    let all = crate::model::hex_digits(n, len + dropped);
    lemma_hex_digits(n, len + dropped);
    if dropped == 0 {
        assert(all.take(len as int) =~= all);
        assert(n / 1 == n);
        assert(power_of_sixteen(0) == 1);
    } else {
        let d = (dropped - 1) as nat;
        let p = power_of_sixteen(d);
        lemma_power_is_positive(d);
        lemma_first_hex_digits(n / 16, len, d);
        let before = crate::model::hex_digits(n / 16, len + d);
        lemma_hex_digits(n / 16, len + d);
        assert((len + dropped - 1) as nat == len + d);
        assert(all.take(len as int) =~= before.take(len as int));
        vstd::arithmetic::div_mod::lemma_div_denominator(n as int, 16, p as int);
        assert(16 * p == power_of_sixteen(dropped));
        assert((n / 16) / p == n / power_of_sixteen(dropped));
    }
}

/// A power is positive.
proof fn lemma_power_is_positive(k: nat)
    ensures
        power_of_sixteen(k) > 0,
    decreases k,
{
    if k > 0 {
        lemma_power_is_positive((k - 1) as nat);
    }
}

/// The first eight digits of a UUID are its upper 32 bits.
proof fn lemma_uuid_prefix(value: u128)
    ensures
        is_short_id(crate::model::uuid_prefix(value)),
        hex_value(crate::model::uuid_prefix(value)) == value as nat
            / 79_228_162_514_264_337_593_543_950_336,
{
    reveal_with_fuel(power_of_sixteen, 25);
    assert(power_of_sixteen(8) == 4_294_967_296);
    assert(power_of_sixteen(24) == 79_228_162_514_264_337_593_543_950_336);
    let upper = value as nat / 79_228_162_514_264_337_593_543_950_336;
    assert(upper < 4_294_967_296);
    lemma_first_hex_digits(value as nat, 8, 24);
    lemma_hex_digits(upper, 8);
    let id = crate::model::uuid_prefix(value);
    assert(id == crate::model::hex_digits(upper, 8));
    assert forall|i: int| 0 <= i < 8 implies ('a' <= #[trigger] id[i] <= 'z' || '0' <= id[i]
        <= '9') by {
        assert(id[i] == crate::model::hex_digits(upper, 8)[i]);
    }
}

/// Each byte that is drawn picks one of the 36 characters, evenly, but for the last
/// four bytes, which pick none.
pub proof fn law_drawn_bytes_pick_characters(drawn: Seq<u8>, x: u8)
    ensures
        picked_id_chars(Seq::empty()) == Seq::<char>::empty(),
        x >= 252 ==> picked_id_chars(drawn.push(x)) == picked_id_chars(drawn),
        x < 252 ==> picked_id_chars(drawn.push(x)) == picked_id_chars(drawn).push(
            "abcdefghijklmnopqrstuvwxyz0123456789"@[x as int % 36],
        ),
{
    reveal_strlit("abcdefghijklmnopqrstuvwxyz0123456789");
    assert(drawn.push(x).drop_last() =~= drawn);
}

/// The id is made of the first eight characters that are picked, and there is one as
/// soon as eight are.
pub proof fn law_first_eight_make_the_id(drawn: Seq<u8>)
    ensures
        id_of_drawn(drawn) is Some <==> picked_id_chars(drawn).len() >= 8,
        id_of_drawn(drawn) matches Some(id) ==> id.len() == 8 && forall|i: int|
            0 <= i < 8 ==> #[trigger] id[i] == picked_id_chars(drawn)[i],
{
}

/// A new session has a parent exactly if one is asked for, which must be a session of
/// the same solution.
pub proof fn law_parent_is_the_one_asked_for(
    input: CreateSessionParams,
    sessions: Seq<SolutionSession>,
)
    ensures
        ({
            let parent = requested_parent(input, sessions);
            &&& input.parent_session_id is None ==> parent == Ok::<
                Option<Seq<char>>,
                Seq<char>,
            >(None)
            &&& input.parent_session_id matches Some(raw) ==> {
                &&& !is_short_id(raw@) && uuid_value(raw@) is None ==> parent == Err::<
                    Option<Seq<char>>,
                    Seq<char>,
                >("bad parent_session_id: invalid session id: "@ + debug_text(raw@))
                &&& named_session(raw@, "bad parent_session_id: "@) matches Ok(id) ==> match find_session(
                    sessions,
                    id,
                ) {
                    None => parent == Err::<Option<Seq<char>>, Seq<char>>(
                        "unknown_parent_session: "@ + raw@,
                    ),
                    Some(i) => {
                        &&& sessions[i].solution_id@ == input.solution_id@ ==> parent == Ok::<
                            Option<Seq<char>>,
                            Seq<char>,
                        >(Some(sessions[i].id@))
                        &&& sessions[i].solution_id@ != input.solution_id@ ==> parent == Err::<
                            Option<Seq<char>>,
                            Seq<char>,
                        >(
                            "parent_session_in_different_solution: "@ + sessions[i].solution_id@
                                + " != "@ + input.solution_id@,
                        )
                    },
                }
                &&& is_short_id(raw@) ==> named_session(raw@, "bad parent_session_id: "@)
                    == Ok::<Seq<char>, Seq<char>>(raw@)
            }
        }),
{
    if let Some(raw) = input.parent_session_id {
        let text = raw@;
        reveal_strlit("bad parent_session_id: invalid session id: ");
        reveal_strlit("bad parent_session_id: ");
        reveal_strlit("invalid session id: ");
        assert("bad parent_session_id: "@ + ("invalid session id: "@ + debug_text(text))
            =~= "bad parent_session_id: invalid session id: "@ + debug_text(text));
        assert(is_session_id(text) == is_short_id(text)) by {
            if is_short_id(text) {
                assert forall|i: int| 0 <= i < text.len() implies crate::model::is_id_char(
                    #[trigger] text[i],
                ) by {}
            }
            if is_session_id(text) {
                assert forall|i: int| 0 <= i < 8 implies ('a' <= #[trigger] text[i] <= 'z' || '0'
                    <= text[i] <= '9') by {
                    assert(crate::model::is_id_char(text[i]));
                }
            }
        }
        if let Ok(id) = named_session(text, "bad parent_session_id: "@) {
            law_sessions_are_found_by_id(sessions, id);
        }
    }
}

/// A session can be made exactly if the solution and the agent are named and nothing is
/// wrong with the parent. What is missing first is told.
pub proof fn law_new_session_needs_solution_and_agent(
    input: CreateSessionParams,
    sessions: Seq<SolutionSession>,
)
    ensures
        create_fault(input, sessions) is None <==> input.solution_id@.len() > 0
            && input.agent_id@.len() > 0 && requested_parent(input, sessions) is Ok,
        input.solution_id@.len() == 0 ==> create_fault(input, sessions) == Some(
            "invalid_params: solution_id is required"@,
        ),
        input.solution_id@.len() > 0 && input.agent_id@.len() == 0 ==> create_fault(input, sessions)
            == Some("invalid_params: agent_id is required"@),
        input.solution_id@.len() > 0 && input.agent_id@.len() > 0 ==> (requested_parent(
            input,
            sessions,
        ) matches Err(message) ==> create_fault(input, sessions) == Some(message)),
{
    reveal_strlit("invalid_params: solution_id is required");
    reveal_strlit("invalid_params: agent_id is required");
    reveal_strlit("invalid_params: ");
    reveal_strlit("solution_id");
    reveal_strlit("agent_id");
    reveal_strlit(" is required");
    assert("invalid_params: "@ + "solution_id"@ + " is required"@
        =~= "invalid_params: solution_id is required"@);
    assert("invalid_params: "@ + "agent_id"@ + " is required"@
        =~= "invalid_params: agent_id is required"@);
}

/// A file can be sent exactly if it is for a session that is there, has a type and a name
/// and is not empty. What is wrong first is told.
pub proof fn law_uploads_are_for_a_session(
    input: UploadInitParams,
    sessions: Seq<SolutionSession>,
)
    ensures
        upload_fault(input, sessions) is None <==> {
            &&& input.mime@.len() > 0
            &&& input.display_name@.len() > 0
            &&& input.total_size > 0
            &&& requested_session(input.session_id@) is Ok
            &&& exists|k: int|
                0 <= k < sessions.len() && (#[trigger] sessions[k]).id@ == requested_session(
                    input.session_id@,
                )->Ok_0
        },
        input.session_id@.len() == 0 ==> upload_fault(input, sessions) == Some(
            "invalid_params: session_id is required"@,
        ),
        input.session_id@.len() > 0 && input.mime@.len() == 0 ==> upload_fault(input, sessions)
            == Some("invalid_params: mime is required"@),
        input.session_id@.len() > 0 && input.mime@.len() > 0 && input.display_name@.len() == 0
            ==> upload_fault(input, sessions) == Some("invalid_params: display_name is required"@),
        input.session_id@.len() > 0 && input.mime@.len() > 0 && input.display_name@.len() > 0
            && input.total_size == 0 ==> upload_fault(input, sessions) == Some(
            "invalid_params: total_size must be > 0"@,
        ),
        input.session_id@.len() > 0 && input.mime@.len() > 0 && input.display_name@.len() > 0
            && input.total_size > 0 ==> match requested_session(input.session_id@) {
            Err(message) => upload_fault(input, sessions) == Some(message),
            Ok(id) => find_session(sessions, id) is None ==> upload_fault(input, sessions) == Some(
                "unknown_session: "@ + input.session_id@,
            ),
        },
{
    reveal_strlit("invalid_params: session_id is required");
    reveal_strlit("invalid_params: mime is required");
    reveal_strlit("invalid_params: display_name is required");
    reveal_strlit("invalid_params: ");
    reveal_strlit("session_id");
    reveal_strlit("mime");
    reveal_strlit("display_name");
    reveal_strlit(" is required");
    assert("invalid_params: "@ + "session_id"@ + " is required"@
        =~= "invalid_params: session_id is required"@);
    assert("invalid_params: "@ + "mime"@ + " is required"@ =~= "invalid_params: mime is required"@);
    assert("invalid_params: "@ + "display_name"@ + " is required"@
        =~= "invalid_params: display_name is required"@);
    if let Ok(id) = requested_session(input.session_id@) {
        law_sessions_are_found_by_id(sessions, id);
    }
}

/// A state has the same word for clients and a label for users.
pub proof fn law_states_have_names(state: SessionState)
    ensures
        state is Idle ==> state_kind(state) == "idle"@ && state_label(state) == "Idle"@,
        state is Running ==> state_kind(state) == "running"@ && state_label(state) == "Running"@,
        state is Stopping ==> state_kind(state) == "stopping"@ && state_label(state)
            == "Stopping"@,
        state is AwaitingInput ==> state_kind(state) == "awaiting_input"@ && state_label(state)
            == "Awaiting input"@,
        state is Errored ==> state_kind(state) == "errored"@ && state_label(state) == "Error"@,
{
}

/// What is set takes the place of the default, each by itself: three tasks at once, half
/// a minute in the queue and a minute without work.
pub proof fn law_settings_take_the_place_of_defaults(content: SettingsContent)
    ensures
        ({
            let pool = pool_settings(content);
            let set = match content.solution_agent {
                Some(agent) => agent.ephemeral,
                None => None,
            };
            &&& set is None ==> pool.max_concurrent == 3 && pool.queue_timeout == seconds_long(30)
                && pool.idle_ttl == seconds_long(60)
            &&& set matches Some(own) ==> {
                &&& own.max_concurrent is None ==> pool.max_concurrent == 3
                &&& own.max_concurrent matches Some(n) ==> pool.max_concurrent == n
                &&& own.queue_timeout_seconds is None ==> pool.queue_timeout == seconds_long(30)
                &&& own.queue_timeout_seconds matches Some(n) ==> pool.queue_timeout
                    == seconds_long(n as u64)
                &&& own.idle_ttl_seconds is None ==> pool.idle_ttl == seconds_long(60)
                &&& own.idle_ttl_seconds matches Some(n) ==> pool.idle_ttl == seconds_long(
                    n as u64,
                )
            }
        }),
{
}

/// What was sent last is remembered for each session by itself.
pub proof fn law_last_figures_are_remembered(
    log: Seq<(SolutionSessionId, u64)>,
    session: SolutionSessionId,
    at: u64,
    id: Seq<char>,
)
    ensures
        last_sent(Seq::empty(), id) is None,
        last_sent(log.push((session, at)), session@) == Some(at),
        id != session@ ==> last_sent(log.push((session, at)), id) == last_sent(log, id),
{
    assert(log.push((session, at)).drop_last() =~= log);
}

/// Every member of a solution has a line of its own, in their order, that names it.
pub proof fn law_members_are_listed(paths: Seq<Seq<char>>, path: Seq<char>)
    ensures
        member_lines(Seq::empty()) == Seq::<char>::empty(),
        member_lines(paths.push(path)) == member_lines(paths) + seq![' ', ' ', '-', ' ']
            + member_label(path) + seq!['\n'],
{
    reveal_strlit("  - ");
    reveal_strlit("\n");
    assert(paths.push(path).drop_last() =~= paths);
    assert("  - "@ =~= seq![' ', ' ', '-', ' ']);
    assert("\n"@ =~= seq!['\n']);
}

} // verus!
