//! What holds when a session is compacted.
use crate::compact::{
    compact_prompt, decline_reason, gate_of, handoff_dir, label_of, laid_out,
    law_every_place_is_filled, place_values, places, starts_no_place, used_of, window_of,
    CompactGate, TemplatePart,
};
use crate::clock::rfc3339_text;
use crate::mcp::compaction::{
    compact_text, handoff_fault, located, names_in_state, prompt_fault, required_files, scope_of,
    state_of_file, state_tree, FileFacts, FileState, HandoffFiles, PromptFacts, PromptRequestView,
};
use crate::mcp::dto::CompactSessionParams;
use crate::mcp::requests::{find_session, requested_session};
use crate::model::{is_session_id, SolutionSession};
use crate::path::{
    absolute, components, joined_path, lies_under, naming_pieces, parent_path,
};
use crate::solution::{find_solution, Solution};
use crate::text::{
    decimal, is_blank, lemma_decimal_injective, lemma_split_on_last, lemma_split_on_nonempty,
    lemma_split_on_single, split_on,
};
use crate::json::JsonTree;
use crate::mcp::compaction::{measured, placed, read_text};
use vstd::prelude::*;

verus! {

/// Whether a text is the name of something in a directory.
pub open spec fn is_name(name: Seq<char>) -> bool {
    &&& name.len() > 0
    &&& name != "."@
    &&& forall|i: int| 0 <= i < name.len() ==> #[trigger] name[i] != '/'
}

/// A name that is joined to a path becomes its last component.
pub proof fn law_joining_adds_a_component(base: Seq<char>, name: Seq<char>)
    requires
        is_name(name),
    ensures
        components(joined_path(base, name)) == components(base).push(name),
{
    reveal_strlit("/");
    reveal_strlit(".");
    let none = Seq::<char>::empty();
    let whole = joined_path(base, name);
    assert(!absolute(name)) by {
        assert(name[0] != '/');
    }
    lemma_split_on_single(none, '/');
    lemma_split_on_single(name, '/');
    assert(seq![none].drop_last() =~= Seq::<Seq<char>>::empty());
    assert(seq![name].drop_last() =~= Seq::<Seq<char>>::empty());
    assert(naming_pieces(seq![none].drop_last()) =~= Seq::<Seq<char>>::empty());
    assert(naming_pieces(seq![none]) =~= Seq::<Seq<char>>::empty());
    assert(naming_pieces(seq![name]) =~= seq![name]);
    if base.len() == 0 {
        assert(base =~= none);
        assert(whole =~= name);
        assert(components(none) =~= Seq::<Seq<char>>::empty());
        assert(components(name) =~= seq![name]);
        assert(Seq::<Seq<char>>::empty().push(name) =~= seq![name]);
    } else {
        let head = if base.last() == '/' {
            base.drop_last()
        } else {
            base
        };
        assert(whole =~= head.push('/') + name);
        lemma_split_on_last(head, '/', name);
        lemma_split_on_nonempty(head, '/');
        let pieces = split_on(head, '/');
        assert(pieces.push(name).drop_last() =~= pieces);
        assert(naming_pieces(pieces.push(name)) == naming_pieces(pieces).push(name));
        if base.last() == '/' {
            assert(base =~= head.push('/') + none);
            lemma_split_on_last(head, '/', none);
            assert(pieces.push(none).drop_last() =~= pieces);
            assert(naming_pieces(pieces.push(none)) == naming_pieces(pieces));
        }
        assert(components(whole) =~= components(base).push(name));
    }
}

/// A printed number of one digit is short, any other is longer and starts with no 0.
proof fn lemma_decimal_start(n: nat)
    ensures
        decimal(n).len() > 0,
        n < 10 <==> decimal(n).len() == 1,
        n > 0 ==> decimal(n)[0] != '0',
        forall|i: int| 0 <= i < decimal(n).len() ==> #[trigger] decimal(n)[i] != '/',
    decreases n,
{
    if n >= 10 {
        lemma_decimal_start(n / 10);
    }
}

/// Different contexts have different names, and each is the name of a directory.
pub proof fn law_contexts_have_different_names(a: nat, b: nat)
    ensures
        label_of(a) == label_of(b) ==> a == b,
        is_name(label_of(a)),
        label_of(a).len() >= 3,
        label_of(a)[0] == 'c',
{
    reveal_strlit("c0");
    reveal_strlit("c");
    reveal_strlit(".");
    lemma_decimal_start(a);
    lemma_decimal_start(b);
    lemma_decimal_injective(a, b);
    let x = label_of(a);
    let y = label_of(b);
    assert forall|i: int| 0 <= i < x.len() implies #[trigger] x[i] != '/' by {
        let start: int = if a < 10 {
            2
        } else {
            1
        };
        if i >= start {
            assert(x[i] == decimal(a)[i - start]);
        }
    }
    if x == y {
        if a < 10 && b < 10 {
            assert(x.skip(2) =~= decimal(a));
            assert(y.skip(2) =~= decimal(b));
        } else if a >= 10 && b >= 10 {
            assert(x.skip(1) =~= decimal(a));
            assert(y.skip(1) =~= decimal(b));
        } else if a < 10 {
            assert(x[1] == '0');
            assert(y[1] == decimal(b)[0]);
        } else {
            assert(y[1] == '0');
            assert(x[1] == decimal(a)[0]);
        }
    }
}

/// The handoff of a context goes into a directory of its own: below the root of the
/// solution, `.agents`, then the id of the session, then the name of the context.
pub proof fn law_handoff_lies_under_its_session(root: Seq<char>, id: Seq<char>, context: nat)
    requires
        is_session_id(id),
    ensures
        components(handoff_dir(root, id, context)) == components(root) + seq![
            ".agents"@,
            id,
            label_of(context),
        ],
        lies_under(handoff_dir(root, id, context), joined_path(joined_path(root, ".agents"@), id)),
{
    reveal_strlit(".agents");
    reveal_strlit(".");
    let agents = joined_path(root, ".agents"@);
    let own = joined_path(agents, id);
    assert(is_name(".agents"@));
    assert forall|i: int| 0 <= i < id.len() implies #[trigger] id[i] != '/' by {}
    assert(is_name(id));
    law_joining_adds_a_component(root, ".agents"@);
    law_joining_adds_a_component(agents, id);
    law_contexts_have_different_names(context, context);
    law_joining_adds_a_component(own, label_of(context));
    let all = components(handoff_dir(root, id, context));
    assert(all =~= components(root) + seq![".agents"@, id, label_of(context)]);
    assert(all.take(components(own).len() as int) =~= components(own));
}

/// No two sessions of a solution share a handoff directory, nor do two contexts of one
/// session.
pub proof fn law_handoffs_are_kept_apart(
    root: Seq<char>,
    a: Seq<char>,
    b: Seq<char>,
    context_a: nat,
    context_b: nat,
)
    requires
        is_session_id(a),
        is_session_id(b),
        handoff_dir(root, a, context_a) == handoff_dir(root, b, context_b),
    ensures
        a == b,
        context_a == context_b,
{
    law_handoff_lies_under_its_session(root, a, context_a);
    law_handoff_lies_under_its_session(root, b, context_b);
    law_contexts_have_different_names(context_a, context_b);
    let n = components(root).len() as int;
    let x = components(root) + seq![".agents"@, a, label_of(context_a)];
    let y = components(root) + seq![".agents"@, b, label_of(context_b)];
    assert(x[n + 1] == y[n + 1]);
    assert(x[n + 2] == y[n + 2]);
}

/// Where a template holds one place, the prompt holds what belongs there, between what
/// stood around the place.
proof fn lemma_one_place(
    before: Seq<char>,
    i: int,
    after: Seq<char>,
    session: SolutionSession,
    dir: Seq<char>,
)
    requires
        0 <= i < places().len(),
        starts_no_place(before),
        starts_no_place(after),
        forall|k: int|
            0 <= k < places().len() ==> starts_no_place(#[trigger] place_values(session, dir)[k]),
    ensures
        compact_prompt(before + places()[i] + after, session, dir) == before + place_values(
            session,
            dir,
        )[i] + after,
{
    let values = place_values(session, dir);
    let parts = seq![TemplatePart::Text(before), TemplatePart::Place(i), TemplatePart::Text(after)];
    law_every_place_is_filled(parts, session, dir);
    reveal_with_fuel(laid_out, 4);
    let two = parts.drop_first();
    let one = two.drop_first();
    assert(one.drop_first().len() == 0);
    assert(two[0] == parts[1]);
    assert(one[0] == parts[2]);
    let none = Seq::<char>::empty();
    assert(after + none =~= after);
    assert(laid_out(parts, values, 0) =~= before + places()[i] + after);
    assert(laid_out(parts, values, places().len() as int) =~= before + values[i] + after);
}

/// The prompt tells the agent the id of its session, the directory for its files, its
/// solution and agent, when the session was started, and how much of how large a window
/// is in use, each where the template says so.
pub proof fn law_prompt_tells_the_session(
    before: Seq<char>,
    after: Seq<char>,
    session: SolutionSession,
    dir: Seq<char>,
)
    requires
        starts_no_place(before),
        starts_no_place(after),
        forall|k: int|
            0 <= k < places().len() ==> starts_no_place(#[trigger] place_values(session, dir)[k]),
    ensures
        compact_prompt(before + "{{session_id}}"@ + after, session, dir) == before + session.id@
            + after,
        compact_prompt(before + "{{compact_dir}}"@ + after, session, dir) == before + (if dir.len()
            > 0 && dir.last() == '/' {
            dir
        } else {
            dir.push('/')
        }) + after,
        compact_prompt(before + "{{solution_id}}"@ + after, session, dir) == before
            + session.solution_id@ + after,
        compact_prompt(before + "{{agent_id}}"@ + after, session, dir) == before + session.agent_id@
            + after,
        compact_prompt(before + "{{started_at_iso}}"@ + after, session, dir) == before
            + rfc3339_text(session.created_at.seconds(), session.created_at.subsec_nanos()) + after,
        compact_prompt(before + "{{tokens_used}}"@ + after, session, dir) == before + decimal(
            used_of(session) as nat,
        ) + after,
        compact_prompt(before + "{{tokens_max}}"@ + after, session, dir) == before + decimal(
            window_of(session) as nat,
        ) + after,
{
    reveal_strlit("/");
    assert(dir + "/"@ =~= dir.push('/'));
    lemma_one_place(before, 0, after, session, dir);
    lemma_one_place(before, 1, after, session, dir);
    lemma_one_place(before, 2, after, session, dir);
    lemma_one_place(before, 3, after, session, dir);
    lemma_one_place(before, 4, after, session, dir);
    lemma_one_place(before, 5, after, session, dir);
    lemma_one_place(before, 6, after, session, dir);
}

/// What is in use and how large the window is comes from the running agent where it
/// reports it, and else from what was last known of the session.
pub proof fn law_usage_is_what_is_known(session: SolutionSession)
    ensures
        ({
            let usage = if session.thread() is Some {
                session.thread()->0.token_usage
            } else {
                None
            };
            &&& usage is Some ==> used_of(session) == usage->0.used_tokens
            &&& usage is None && session.cached_total_tokens is Some ==> used_of(session)
                == session.cached_total_tokens->0
            &&& usage is None && session.cached_total_tokens is None ==> used_of(session) == 0
            &&& usage is Some && usage->0.max_tokens > 0 ==> window_of(session)
                == usage->0.max_tokens
            &&& (usage is None || usage->0.max_tokens == 0) && session.cached_max_tokens is Some
                ==> window_of(session) == session.cached_max_tokens->0
            &&& (usage is None || usage->0.max_tokens == 0) && session.cached_max_tokens is None
                ==> window_of(session) == 1_000_000
        }),
{
}

/// A session that works is never compacted; one that is idle is, if a fifth of its
/// window is in use and 30000 tokens are free. What is said otherwise is which of the
/// two is wanting, first the use, and how much is free.
pub proof fn law_gate_says_what_is_wanting(idle: bool, used: u64, window: u64)
    ensures
        ({
            let gate = gate_of(idle, used, window);
            let free = if used < window {
                window - used
            } else {
                0
            };
            &&& gate is Busy <==> !idle
            &&& gate is TooShort <==> idle && (window == 0 || 5 * used < window)
            &&& gate is TooFull <==> idle && window > 0 && 5 * used >= window && free < 30_000
            &&& gate matches CompactGate::TooFull { remaining } ==> remaining == free
            &&& gate is Open <==> idle && window > 0 && 5 * used >= window && free >= 30_000
        }),
{
}

/// A session is declined exactly where it may not be compacted, and what is said of it
/// names what is wanting.
pub proof fn law_declining_gives_the_reason(gate: CompactGate, state: Seq<char>, share: Seq<char>)
    ensures
        decline_reason(gate, state, share) is None <==> gate is Open,
        gate is Busy ==> decline_reason(gate, state, share) == Some(
            "session is busy ("@ + state + "); wait for the current turn to finish"@,
        ),
        gate is TooShort ==> decline_reason(gate, state, share) == Some(
            "conversation is short ("@ + share + "%); compact later"@,
        ),
        gate matches CompactGate::TooFull { remaining } ==> decline_reason(gate, state, share)
            == Some(
            "only "@ + decimal(remaining as nat)
                + " tokens of headroom left — start a fresh session manually"@,
        ),
{
}

/// A request to continue is looked up in the session that it names: the file that is
/// meant is the one named, as seen from the root of the solution of that session.
pub proof fn law_request_is_that_of_the_session(
    input: CompactSessionParams,
    sessions: Seq<SolutionSession>,
    solutions: Seq<Solution>,
)
    ensures
        located(input, sessions, solutions) matches Ok(request) ==> {
            let i = find_session(sessions, request.session_id)->0;
            &&& requested_session(input.session_id@) == Ok::<Seq<char>, Seq<char>>(
                request.session_id,
            )
            &&& find_session(sessions, request.session_id) is Some
            &&& find_solution(solutions, sessions[i].solution_id@) is Some
            &&& request.root == solutions[find_solution(
                solutions,
                sessions[i].solution_id@,
            )->0].root@
            &&& absolute(input.prompt_file@) ==> request.prompt_path == input.prompt_file@
            &&& request.agents_dir == joined_path(request.root, ".agents"@)
            &&& input.prompt_file@.len() > 0
        },
        input.session_id@.len() == 0 || input.prompt_file@.len() == 0 ==> located(
            input,
            sessions,
            solutions,
        ) is Err,
        input.session_id@.len() > 0 && input.prompt_file@.len() > 0 ==> match requested_session(
            input.session_id@,
        ) {
            Err(message) => located(input, sessions, solutions) == Err::<
                PromptRequestView,
                Seq<char>,
            >(message),
            Ok(id) => match find_session(sessions, id) {
                None => located(input, sessions, solutions) == Err::<PromptRequestView, Seq<char>>(
                    "unknown session "@ + id,
                ),
                Some(i) => located(input, sessions, solutions) is Ok <==> find_solution(
                    solutions,
                    sessions[i].solution_id@,
                ) is Some,
            },
        },
        !absolute(input.prompt_file@) ==> (located(input, sessions, solutions) matches Ok(request)
            ==> request.prompt_path == joined_path(request.root, input.prompt_file@)),
{
}

/// Whether a file is there and holds something.
pub open spec fn holds_something(file: Option<FileFacts>) -> bool {
    file is Some && file->0.is_file && file->0.len > 0
}

/// Whether every file that the scope of a handoff asks for holds something.
pub open spec fn is_complete(files: HandoffFiles, tree: JsonTree) -> bool {
    &&& holds_something(files.state_md)
    &&& holds_something(files.decisions_md)
    &&& holds_something(files.continue_md)
    &&& tree.text_field("scope"@) == Some("exploratory"@) || holds_something(files.next_md)
}

/// A handoff is in order exactly where the agent wrote down what it is about, as JSON,
/// and all files that go with it hold something. Only an exploratory one goes without
/// the next steps.
pub proof fn law_handoff_is_in_order(files: HandoffFiles, tree: Option<JsonTree>, dir: Seq<char>)
    ensures
        handoff_fault(files, tree, dir) is None <==> holds_something(files.state_json)
            && files.state_text is Some && tree is Some && is_complete(files, tree->0),
{
    if let Some(tree) = tree {
        reveal_strlit("planned");
        reveal_strlit("exploratory");
        assert("planned"@.len() != "exploratory"@.len());
        let scope = scope_of(tree);
        let required = required_files(files, scope);
        reveal_with_fuel(names_in_state, 5);
        if scope != "exploratory"@ {
            assert(required.drop_last().last() == required[2]);
            assert(required.drop_last().drop_last().last() == required[1]);
            assert(required.drop_last().drop_last().drop_last().last() == required[0]);
        } else {
            assert(required.drop_last().last() == required[1]);
            assert(required.drop_last().drop_last().last() == required[0]);
        }
    }
}

/// The names in a state are those of the files that are in it.
proof fn lemma_names(required: Seq<(Seq<char>, FileState)>, state: FileState)
    ensures
        forall|name: Seq<char>| #[trigger]
            names_in_state(required, state).contains(name) <==> exists|i: int|
                0 <= i < required.len() && #[trigger] required[i] == (name, state),
    decreases required.len(),
{
    let names = names_in_state(required, state);
    if required.len() > 0 {
        let rest = required.drop_last();
        lemma_names(rest, state);
        let before = names_in_state(rest, state);
        assert forall|name: Seq<char>| #[trigger] names.contains(name) <==> exists|i: int|
            0 <= i < required.len() && #[trigger] required[i] == (name, state) by {
            if names.contains(name) {
                let k = choose|k: int| 0 <= k < names.len() && names[k] == name;
                if k < before.len() {
                    assert(before.contains(before[k]));
                    let i = choose|i: int|
                        0 <= i < rest.len() && #[trigger] rest[i] == (name, state);
                    assert(required[i] == (name, state));
                } else {
                    assert(required[required.len() - 1] == (name, state));
                }
            }
            if exists|i: int| 0 <= i < required.len() && #[trigger] required[i] == (name, state) {
                let i = choose|i: int|
                    0 <= i < required.len() && #[trigger] required[i] == (name, state);
                if i < rest.len() {
                    assert(rest[i] == (name, state));
                    assert(before.contains(name));
                    let k = choose|k: int| 0 <= k < before.len() && before[k] == name;
                    assert(names[k] == name);
                } else {
                    assert(names[names.len() - 1] == name);
                }
            }
        }
    }
}

/// All files that are wanting are named at once: a name is among those that are
/// missing or empty exactly if the file is required and is so.
pub proof fn law_wanting_files_are_named(files: HandoffFiles, scope: Seq<char>, name: Seq<char>)
    ensures
        ({
            let required = required_files(files, scope);
            let missing = names_in_state(required, FileState::Missing);
            let empty = names_in_state(required, FileState::Empty);
            &&& missing.contains("state.md"@) || empty.contains("state.md"@) <==> !holds_something(
                files.state_md,
            )
            &&& missing.contains("decisions.md"@) || empty.contains("decisions.md"@)
                <==> !holds_something(files.decisions_md)
            &&& missing.contains("continue.md"@) || empty.contains("continue.md"@)
                <==> !holds_something(files.continue_md)
            &&& missing.contains("next.md"@) || empty.contains("next.md"@) <==> scope
                != "exploratory"@ && !holds_something(files.next_md)
        }),
{
    reveal_strlit("state.md");
    reveal_strlit("decisions.md");
    reveal_strlit("continue.md");
    reveal_strlit("next.md");
    assert("state.md"@.len() == 8);
    assert("decisions.md"@.len() == 12);
    assert("continue.md"@.len() == 11);
    assert("next.md"@.len() == 7);
    let required = required_files(files, scope);
    lemma_names(required, FileState::Missing);
    lemma_names(required, FileState::Empty);
    assert(required[0] == ("state.md"@, state_of_file(files.state_md)));
    assert(required[1] == ("decisions.md"@, state_of_file(files.decisions_md)));
    assert(required[2] == ("continue.md"@, state_of_file(files.continue_md)));
    if scope != "exploratory"@ {
        assert(required[3] == ("next.md"@, state_of_file(files.next_md)));
    }
}

/// A session goes on from a file exactly where the file is there, lies where handoffs
/// lie, is a regular file of at most 262144 bytes that is not blank, and the handoff in
/// the directory that it is in is in order.
pub proof fn law_session_goes_on_from_a_good_file(request: PromptRequestView, facts: PromptFacts)
    ensures
        prompt_fault(request, facts) is None <==> {
            &&& facts.prompt_path is Some
            &&& facts.agents_dir is Some
            &&& lies_under(facts.prompt_path->0@, facts.agents_dir->0@)
            &&& facts.file is Some && facts.file->0.is_file && 0 < facts.file->0.len <= 262_144
            &&& facts.text is Some && !is_blank(facts.text->0@)
            &&& components(facts.prompt_path->0@).len() > 0 && components(facts.prompt_path->0@)
                != seq!["/"@]
            &&& holds_something(facts.handoff.state_json)
            &&& facts.handoff.state_text is Some
            &&& state_tree(facts.handoff) is Some
            &&& is_complete(facts.handoff, state_tree(facts.handoff)->0)
        },
{
    if facts.prompt_path is Some {
        let path = facts.prompt_path->0@;
        crate::path::law_parent_drops_the_last_component(path);
        if let Some(dir) = parent_path(path) {
            law_handoff_is_in_order(facts.handoff, state_tree(facts.handoff), dir);
        }
    }
}

/// What is wrong with the file to go on from is told: it is not there, it lies elsewhere,
/// it is no file, it is empty or too large, or it holds nothing but white space.
pub proof fn law_faults_of_a_file_are_told(
    request: PromptRequestView,
    path: Seq<char>,
    dir: Seq<char>,
    file: FileFacts,
    text: Seq<char>,
)
    ensures
        placed(request, None, Some(dir)) == Err::<Seq<char>, Seq<char>>(
            "prompt file not found: "@ + request.prompt_path,
        ),
        lies_under(path, dir) ==> placed(request, Some(path), Some(dir)) == Ok::<
            Seq<char>,
            Seq<char>,
        >(path),
        !lies_under(path, dir) ==> placed(request, Some(path), Some(dir)) == Err::<
            Seq<char>,
            Seq<char>,
        >("invalid_params: prompt_file must live under "@ + request.root + "/.agents/"@),
        measured(path, None) == Err::<u64, Seq<char>>("stat "@ + path),
        !file.is_file ==> measured(path, Some(file)) == Err::<u64, Seq<char>>(
            "invalid_params: prompt_file is not a regular file: "@ + path,
        ),
        file.is_file && file.len == 0 ==> measured(path, Some(file)) == Err::<u64, Seq<char>>(
            "invalid_params: prompt_file is empty: "@ + path,
        ),
        file.is_file && file.len > 262_144 ==> measured(path, Some(file)) == Err::<u64, Seq<char>>(
            "invalid_params: prompt_file is "@ + decimal(file.len as nat) + " bytes, max is "@
                + decimal(262_144),
        ),
        file.is_file && 0 < file.len <= 262_144 ==> measured(path, Some(file)) == Ok::<
            u64,
            Seq<char>,
        >(file.len),
        read_text(path, None) == Err::<Seq<char>, Seq<char>>("read "@ + path),
        is_blank(text) ==> read_text(path, Some(text)) == Err::<Seq<char>, Seq<char>>(
            "invalid_params: prompt_file contains only whitespace"@,
        ),
        !is_blank(text) ==> read_text(path, Some(text)) == Ok::<Seq<char>, Seq<char>>(text),
{
}

/// A client is told that its request is queued, or else why it is not.
pub proof fn law_outcome_is_told(id: Seq<char>, reason: Seq<char>)
    ensures
        compact_text(id, true, None) == "compact queued for "@ + id,
        compact_text(id, false, Some(reason)) == reason,
        compact_text(id, false, None) == "compact declined"@,
{
}

} // verus!
