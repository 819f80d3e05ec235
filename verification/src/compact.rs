//! Compacting: the agent of a session writes down what it knows and goes on with
//! an empty context.
use crate::clock::rfc3339_text;
use crate::conversation_render::{is_compaction_prompt_text, COMPACT_PROMPT_HEADING};
use crate::mcp::requests::{find_session, position_of_session, say_of_session};
use crate::mcp::sessions::{read_tokens_max, read_tokens_used, tokens_max, tokens_used};
use crate::model::{debug_text, format_debug, SessionState, SolutionSession, SolutionSessionId};
use crate::path::{join_path, joined_path};
use crate::solution::{find_solution, position_of_solution, Solution};
use crate::text::{
    decimal, has_prefix, is_space, lemma_trimmed_start_shape, print_u64, replace, replaced,
    trimmed_start,
};
use vstd::prelude::*;
use vstd::string::*;

verus! {

/// How large a context window is taken to be where that is not known.
pub const DEFAULT_CONTEXT_WINDOW: u64 = 1_000_000;

/// The smallest part of the context window, in per cent, that has to be in use
/// for compacting to be worth the while.
pub const COMPACT_BUTTON_MIN_PERCENT: u64 = 20;

/// How many tokens have to be free so that the agent can write everything down.
pub const COMPACT_HEADROOM_MIN_TOKENS: u64 = 30_000;

/// Whether `text` begins, after white space, with the heading by which a
/// conversation tells the prompt apart.
pub open spec fn has_heading(text: Seq<char>) -> bool {
    has_prefix(trimmed_start(text), COMPACT_PROMPT_HEADING@)
}

/// What the agent is told to do, before anything is filled in. The places in double
/// braces are filled in for a session. It begins with the heading.
#[derive(Debug)]
pub struct CompactTemplate {
    text: String,
}

impl View for CompactTemplate {
    type V = Seq<char>;

    closed spec fn view(&self) -> Seq<char> {
        self.text@
    }
}

impl CompactTemplate {
    #[verifier::type_invariant]
    spec fn begins_with_heading(self) -> bool {
        has_heading(self.text@)
    }

    /// The template with the given text, where that begins with the heading.
    pub fn new(text: &str) -> (r: Option<Self>)
        ensures
            r is Some <==> has_heading(text@),
            r matches Some(template) ==> template@ == text@,
    {
        if is_compaction_prompt_text(text) {
            Some(CompactTemplate { text: text.to_owned() })
        } else {
            None
        }
    }

    pub fn as_str(&self) -> (r: &str)
        ensures
            r@ == self@,
            has_heading(r@),
    {
        proof {
            use_type_invariant(self);
        }
        self.text.as_str()
    }
}

/// Whether the prompt was sent and, if not, why.
#[derive(Clone, Debug)]
pub struct StartCompactOutcome {
    pub queued: bool,
    pub reason: Option<String>,
}

/// How many tokens a session uses.
pub open spec fn used_of(session: SolutionSession) -> u64 {
    match tokens_used(session) {
        Some(n) => n,
        None => 0,
    }
}

/// How large the context window of a session is.
pub open spec fn window_of(session: SolutionSession) -> u64 {
    match tokens_max(session) {
        Some(n) => n,
        None => DEFAULT_CONTEXT_WINDOW,
    }
}

/// Whether a session can be compacted.
#[derive(Clone, Copy, Debug, PartialEq, Eq, Structural)]
pub enum CompactGate {
    /// No: the agent is at work.
    Busy,
    /// No: there is too little to write down.
    TooShort,
    /// No: there is no room to write it down.
    TooFull { remaining: u64 },
    /// Yes.
    Open,
}

/// Whether a session can be compacted that uses `used` of `window` tokens.
pub open spec fn gate_of(idle: bool, used: u64, window: u64) -> CompactGate {
    if !idle {
        CompactGate::Busy
    } else if window == 0 || used * 100 < window * COMPACT_BUTTON_MIN_PERCENT {
        CompactGate::TooShort
    } else if window - used < COMPACT_HEADROOM_MIN_TOKENS {
        CompactGate::TooFull {
            remaining: if window > used {
                (window - used) as u64
            } else {
                0
            },
        }
    } else {
        CompactGate::Open
    }
}

/// Whether a session can be compacted.
pub fn compact_gate(session: &SolutionSession) -> (r: CompactGate)
    ensures
        r == gate_of(session.state is Idle, used_of(*session), window_of(*session)),
{
    match session.state {
        SessionState::Idle => {},
        _ => {
            return CompactGate::Busy;
        },
    }
    let used: u64 = count_used(session);
    let window: u64 = count_window(session);
    let percent: u128 = COMPACT_BUTTON_MIN_PERCENT as u128;
    assert(window * percent <= u64::MAX * 20) by (nonlinear_arith)
        requires
            percent == 20,
            window <= u64::MAX,
    ;
    if window == 0 || used as u128 * 100 < window as u128 * percent {
        return CompactGate::TooShort;
    }
    let remaining: u64 = if window > used {
        window - used
    } else {
        0
    };
    if remaining < COMPACT_HEADROOM_MIN_TOKENS {
        return CompactGate::TooFull { remaining };
    }
    CompactGate::Open
}

/// How many tokens a session uses.
pub fn count_used(session: &SolutionSession) -> (r: u64)
    ensures
        r == used_of(*session),
{
    match read_tokens_used(session) {
        Some(n) => n,
        None => 0,
    }
}

/// How large the context window of a session is.
pub fn count_window(session: &SolutionSession) -> (r: u64)
    ensures
        r == window_of(*session),
{
    match read_tokens_max(session) {
        Some(n) => n,
        None => DEFAULT_CONTEXT_WINDOW,
    }
}

/// A session that can be compacted is idle, uses a fifth of its window at least
/// and has room for the handoff; the more it uses the sooner it is too full.
pub proof fn law_open_gate(idle: bool, used: u64, window: u64)
    ensures
        gate_of(idle, used, window) is Open <==> idle && window > 0 && 5 * used >= window && used
            + COMPACT_HEADROOM_MIN_TOKENS <= window,
{
}

/// The name of a context: `c` and its number with two digits at least.
pub open spec fn label_of(context_count: nat) -> Seq<char> {
    if context_count < 10 {
        "c0"@ + decimal(context_count)
    } else {
        "c"@ + decimal(context_count)
    }
}

/// The name of a context.
pub fn context_label(context_count: u32) -> (r: String)
    ensures
        r@ == label_of(context_count as nat),
{
    let mut label = if context_count < 10 {
        "c0".to_owned()
    } else {
        "c".to_owned()
    };
    let number = print_u64(context_count as u64);
    label.append(number.as_str());
    label
}

/// Where the files of a context go.
pub open spec fn handoff_dir(root: Seq<char>, id: Seq<char>, context_count: nat) -> Seq<char> {
    joined_path(joined_path(joined_path(root, ".agents"@), id), label_of(context_count))
}

/// `dir` with a separator at its end.
pub open spec fn with_separator(dir: Seq<char>) -> Seq<char> {
    if dir.len() > 0 && dir.last() == '/' {
        dir
    } else {
        dir + "/"@
    }
}

/// What the agent is told to do, filled in for a session.
pub open spec fn compact_prompt(
    template: Seq<char>,
    session: SolutionSession,
    dir: Seq<char>,
) -> Seq<char> {
    let with_id = replaced(template, "{{session_id}}"@, session.id@);
    let with_dir = replaced(with_id, "{{compact_dir}}"@, with_separator(dir));
    let with_solution = replaced(with_dir, "{{solution_id}}"@, session.solution_id@);
    let with_agent = replaced(with_solution, "{{agent_id}}"@, session.agent_id@);
    let with_start = replaced(
        with_agent,
        "{{started_at_iso}}"@,
        rfc3339_text(session.created_at.seconds(), session.created_at.subsec_nanos()),
    );
    let with_used = replaced(with_start, "{{tokens_used}}"@, decimal(used_of(session) as nat));
    replaced(with_used, "{{tokens_max}}"@, decimal(window_of(session) as nat))
}

/// The prompt for a session and the directory that has to be there for it.
pub struct CompactPrompt {
    pub dir: String,
    pub text: String,
}

/// Fills the template in for a session. The directory is created before the text
/// is sent.
pub fn render_compact_prompt_inner(
    template: &CompactTemplate,
    session: &SolutionSession,
    solutions: &Vec<Solution>,
) -> (r: Result<CompactPrompt, String>)
    ensures
        match find_solution(solutions@, session.solution_id@) {
            Some(i) => {
                let dir = handoff_dir(
                    solutions@[i].root@,
                    session.id@,
                    session.context_count as nat,
                );
                &&& r is Ok
                &&& r->Ok_0.dir@ == dir
                &&& r->Ok_0.text@ == compact_prompt(template@, *session, dir)
                &&& has_heading(r->Ok_0.text@)
            },
            None => r is Err && r->Err_0@ == "Compact failed: solution "@ + debug_text(
                session.solution_id@,
            ) + " not registered"@,
        },
{
    let root = match position_of_solution(solutions, session.solution_id.as_str()) {
        Some(i) => &solutions[i].root,
        None => {
            let mut message = "Compact failed: solution ".to_owned();
            let quoted = format_debug(session.solution_id.as_str());
            message.append(quoted.as_str());
            message.append(" not registered");
            return Err(message);
        },
    };
    let label = context_label(session.context_count);
    let agents_dir = join_path(root.as_str(), ".agents");
    let session_dir = join_path(agents_dir.as_str(), session.id.as_str());
    let dir = join_path(session_dir.as_str(), label.as_str());
    let mut dir_text = dir.clone();
    let n: usize = dir.as_str().unicode_len();
    if n == 0 || dir.as_str().get_char(n - 1) != '/' {
        dir_text.append("/");
    }
    let with_id = replace(template.as_str(), "{{session_id}}", session.id.as_str());
    let with_dir = replace(with_id.as_str(), "{{compact_dir}}", dir_text.as_str());
    let with_solution = replace(
        with_dir.as_str(),
        "{{solution_id}}",
        session.solution_id.as_str(),
    );
    let with_agent = replace(with_solution.as_str(), "{{agent_id}}", session.agent_id.as_str());
    let started_at = session.created_at.to_rfc3339();
    let with_start = replace(with_agent.as_str(), "{{started_at_iso}}", started_at.as_str());
    let used = print_u64(count_used(session));
    let with_used = replace(with_start.as_str(), "{{tokens_used}}", used.as_str());
    let window = print_u64(count_window(session));
    let text = replace(with_used.as_str(), "{{tokens_max}}", window.as_str());
    proof {
        law_prompt_is_recognised(template@, *session, dir@);
    }
    Ok(CompactPrompt { dir, text })
}

/// What is said where the directory cannot be created.
pub fn cannot_create(dir: &str, reason: &str) -> (r: String)
    ensures
        r@ == "Compact failed: cannot create "@ + dir@ + ": "@ + reason@,
{
    let mut message = "Compact failed: cannot create ".to_owned();
    message.append(dir);
    message.append(": ");
    message.append(reason);
    message
}

/// Why a session is not compacted. `state` is what the session is doing and
/// `share` how much of its window is in use, as they are shown to the user.
pub open spec fn decline_reason(gate: CompactGate, state: Seq<char>, share: Seq<char>) -> Option<
    Seq<char>,
> {
    match gate {
        CompactGate::Busy => Some(
            "session is busy ("@ + state + "); wait for the current turn to finish"@,
        ),
        CompactGate::TooShort => Some(
            "conversation is short ("@ + share + "%); compact later"@,
        ),
        CompactGate::TooFull { remaining } => Some(
            "only "@ + decimal(remaining as nat)
                + " tokens of headroom left — start a fresh session manually"@,
        ),
        CompactGate::Open => None,
    }
}

/// Why a session is not compacted.
fn say_declined(gate: CompactGate, state: &str, share: &str) -> (r: Option<String>)
    ensures
        r.deep_view() == decline_reason(gate, state@, share@),
{
    match gate {
        CompactGate::Busy => {
            let mut reason = "session is busy (".to_owned();
            reason.append(state);
            reason.append("); wait for the current turn to finish");
            Some(reason)
        },
        CompactGate::TooShort => {
            let mut reason = "conversation is short (".to_owned();
            reason.append(share);
            reason.append("%); compact later");
            Some(reason)
        },
        CompactGate::TooFull { remaining } => {
            let mut reason = "only ".to_owned();
            let number = print_u64(remaining);
            reason.append(number.as_str());
            reason.append(" tokens of headroom left — start a fresh session manually");
            Some(reason)
        },
        CompactGate::Open => None,
    }
}

/// What to do about a request to compact a session.
pub enum CompactStep {
    /// Nothing, for a reason that the client is told.
    Decline(StartCompactOutcome),
    /// Create the directory and send the prompt.
    Send(CompactPrompt),
}

/// What to do about a request to compact a session: `compact_gate` decides
/// whether it is taken up, and where it is, the prompt is filled in.
pub fn start_compact_for_session(
    template: &CompactTemplate,
    session_id: &SolutionSessionId,
    sessions: &Vec<SolutionSession>,
    solutions: &Vec<Solution>,
    state: &str,
    share: &str,
) -> (r: Result<CompactStep, String>)
    ensures
        match find_session(sessions@, session_id@) {
            None => r is Err && r->Err_0@ == "unknown session "@ + session_id@,
            Some(i) => {
                let session = sessions@[i];
                let gate = gate_of(session.state is Idle, used_of(session), window_of(session));
                match decline_reason(gate, state@, share@) {
                    Some(reason) => {
                        &&& r matches Ok(CompactStep::Decline(outcome))
                        &&& !outcome.queued
                        &&& outcome.reason.deep_view() == Some(reason)
                    },
                    None => match find_solution(solutions@, session.solution_id@) {
                        Some(s) => {
                            let dir = handoff_dir(
                                solutions@[s].root@,
                                session.id@,
                                session.context_count as nat,
                            );
                            &&& r matches Ok(CompactStep::Send(prompt))
                            &&& prompt.dir@ == dir
                            &&& prompt.text@ == compact_prompt(template@, session, dir)
                        },
                        None => r is Err && r->Err_0@ == "Compact failed: solution "@ + debug_text(
                            session.solution_id@,
                        ) + " not registered"@,
                    },
                }
            },
        },
{
    let session = match position_of_session(sessions, session_id) {
        Some(i) => &sessions[i],
        None => {
            return Err(say_of_session("unknown session ", session_id));
        },
    };
    if let Some(reason) = say_declined(compact_gate(session), state, share) {
        return Ok(
            CompactStep::Decline(StartCompactOutcome { queued: false, reason: Some(reason) }),
        );
    }
    match render_compact_prompt_inner(template, session, solutions) {
        Ok(prompt) => Ok(CompactStep::Send(prompt)),
        Err(message) => Err(message),
    }
}

/// What is said once the prompt was sent.
pub fn compact_queued() -> (r: StartCompactOutcome)
    ensures
        r.queued,
        r.reason is None,
{
    StartCompactOutcome { queued: true, reason: None }
}

/// Filling in a place leaves a beginning alone in which no place starts.
proof fn lemma_replacing_keeps_start(
    s: Seq<char>,
    start: Seq<char>,
    place: Seq<char>,
    value: Seq<char>,
)
    requires
        has_prefix(s, start),
        place.len() > 0,
        forall|i: int| 0 <= i < start.len() ==> #[trigger] start[i] != place[0],
    ensures
        has_prefix(replaced(s, place, value), start),
    decreases start.len(),
{
    if start.len() > 0 && s.len() >= place.len() {
        assert(s.take(start.len() as int)[0] == s[0]);
        if has_prefix(s, place) {
            assert(s.take(place.len() as int)[0] == s[0]);
        }
        let rest = s.drop_first();
        let tail = start.drop_first();
        assert(rest.take(tail.len() as int) =~= tail) by {
            assert(forall|i: int|
                0 <= i < tail.len() ==> rest[i] == s.take(start.len() as int)[i + 1]);
        }
        assert forall|i: int| 0 <= i < tail.len() implies #[trigger] tail[i] != place[0] by {
            assert(tail[i] == start[i + 1]);
        }
        lemma_replacing_keeps_start(rest, tail, place, value);
        let out = replaced(rest, place, value);
        assert(replaced(s, place, value) =~= seq![s[0]] + out);
        assert((seq![s[0]] + out).take(start.len() as int) =~= start) by {
            assert forall|i: int| 0 <= i < start.len() implies (seq![s[0]] + out)[i] == start[i] by {
                if i > 0 {
                    assert(out.take(tail.len() as int)[i - 1] == tail[i - 1]);
                }
            }
        }
    } else if start.len() == 0 {
        assert(replaced(s, place, value).take(0) =~= start);
    }
}

/// A text that starts with white space and a heading has that heading.
proof fn lemma_heading_after_space(text: Seq<char>, space: int)
    requires
        0 <= space,
        space + COMPACT_PROMPT_HEADING@.len() <= text.len(),
        forall|i: int| 0 <= i < space ==> is_space(#[trigger] text[i]),
        text.subrange(space, space + COMPACT_PROMPT_HEADING@.len()) == COMPACT_PROMPT_HEADING@,
    ensures
        has_heading(text),
    decreases space,
{
    let heading = COMPACT_PROMPT_HEADING@;
    if space == 0 {
        reveal_strlit("# Compact this session and prepare a clean handoff");
        assert(text.take(heading.len() as int) =~= heading);
        assert(text.take(heading.len() as int)[0] == '#');
        assert(!is_space(text[0]));
    } else {
        let rest = text.drop_first();
        assert(is_space(text[0]));
        assert forall|i: int| 0 <= i < space - 1 implies is_space(#[trigger] rest[i]) by {
            assert(rest[i] == text[i + 1]);
        }
        assert(rest.subrange(space - 1, space - 1 + heading.len()) =~= heading);
        lemma_heading_after_space(rest, space - 1);
    }
}

/// A conversation shows the prompt folded, whatever session it is for: it still
/// begins with the heading of the template, by which it is told apart.
pub proof fn law_prompt_is_recognised(
    template: Seq<char>,
    session: SolutionSession,
    dir: Seq<char>,
)
    requires
        has_heading(template),
    ensures
        has_heading(compact_prompt(template, session, dir)),
{
    let heading = COMPACT_PROMPT_HEADING@;
    reveal_strlit("# Compact this session and prepare a clean handoff");
    reveal_strlit("{{session_id}}");
    reveal_strlit("{{compact_dir}}");
    reveal_strlit("{{solution_id}}");
    reveal_strlit("{{agent_id}}");
    reveal_strlit("{{started_at_iso}}");
    reveal_strlit("{{tokens_used}}");
    reveal_strlit("{{tokens_max}}");
    assert(forall|i: int| 0 <= i < heading.len() ==> #[trigger] heading[i] != '{');
    lemma_trimmed_start_shape(template);
    let body = trimmed_start(template);
    let space = template.len() - body.len();
    let start = template.take(space + heading.len());
    assert(body.take(heading.len() as int) == heading);
    assert forall|i: int| 0 <= i < start.len() implies #[trigger] start[i] != '{' by {
        if i < space {
            assert(is_space(template[i]));
        } else {
            assert(start[i] == body.take(heading.len() as int)[i - space]);
        }
    }
    assert(template.take(start.len() as int) =~= start);
    let a = replaced(template, "{{session_id}}"@, session.id@);
    lemma_replacing_keeps_start(template, start, "{{session_id}}"@, session.id@);
    let b = replaced(a, "{{compact_dir}}"@, with_separator(dir));
    lemma_replacing_keeps_start(a, start, "{{compact_dir}}"@, with_separator(dir));
    let c = replaced(b, "{{solution_id}}"@, session.solution_id@);
    lemma_replacing_keeps_start(b, start, "{{solution_id}}"@, session.solution_id@);
    let d = replaced(c, "{{agent_id}}"@, session.agent_id@);
    lemma_replacing_keeps_start(c, start, "{{agent_id}}"@, session.agent_id@);
    let started = rfc3339_text(session.created_at.seconds(), session.created_at.subsec_nanos());
    let e = replaced(d, "{{started_at_iso}}"@, started);
    lemma_replacing_keeps_start(d, start, "{{started_at_iso}}"@, started);
    let used = decimal(used_of(session) as nat);
    let f = replaced(e, "{{tokens_used}}"@, used);
    lemma_replacing_keeps_start(e, start, "{{tokens_used}}"@, used);
    let window = decimal(window_of(session) as nat);
    lemma_replacing_keeps_start(f, start, "{{tokens_max}}"@, window);
    let prompt = compact_prompt(template, session, dir);
    assert(prompt.take(start.len() as int) == start);
    assert forall|i: int| 0 <= i < space implies is_space(#[trigger] prompt[i]) by {
        assert(prompt[i] == start[i]);
        assert(is_space(template[i]));
    }
    assert(prompt.subrange(space, space + heading.len()) =~= heading) by {
        assert forall|i: int| 0 <= i < heading.len() implies prompt[space + i] == heading[i] by {
            assert(prompt[space + i] == start[space + i]);
            assert(body.take(heading.len() as int)[i] == heading[i]);
        }
    }
    lemma_heading_after_space(prompt, space);
}

/// The places of a template, in the order in which they are filled in.
pub open spec fn places() -> Seq<Seq<char>> {
    seq![
        "{{session_id}}"@,
        "{{compact_dir}}"@,
        "{{solution_id}}"@,
        "{{agent_id}}"@,
        "{{started_at_iso}}"@,
        "{{tokens_used}}"@,
        "{{tokens_max}}"@,
    ]
}

/// What is filled into the places for a session.
pub open spec fn place_values(session: SolutionSession, dir: Seq<char>) -> Seq<Seq<char>> {
    seq![
        session.id@,
        with_separator(dir),
        session.solution_id@,
        session.agent_id@,
        rfc3339_text(session.created_at.seconds(), session.created_at.subsec_nanos()),
        decimal(used_of(session) as nat),
        decimal(window_of(session) as nat),
    ]
}

/// A part of a template: a text, or one of the places by its number.
pub enum TemplatePart {
    Text(Seq<char>),
    Place(int),
}

/// The parts one after the other, where the first `k` places are filled in.
pub open spec fn laid_out(parts: Seq<TemplatePart>, values: Seq<Seq<char>>, k: int) -> Seq<char>
    decreases parts.len(),
{
    if parts.len() == 0 {
        Seq::empty()
    } else {
        let part = match parts[0] {
            TemplatePart::Text(text) => text,
            TemplatePart::Place(i) => if i < k {
                values[i]
            } else {
                places()[i]
            },
        };
        part + laid_out(parts.drop_first(), values, k)
    }
}

/// Whether no place starts in a text: wherever it holds a brace, something else
/// than a brace follows.
pub open spec fn starts_no_place(text: Seq<char>) -> bool {
    forall|i: int|
        0 <= i < text.len() && #[trigger] text[i] == '{' ==> i + 1 < text.len() && text[i + 1] != '{'
}

/// Whether every part is a text in which no place starts, or a place.
pub open spec fn are_parts(parts: Seq<TemplatePart>) -> bool {
    forall|n: int|
        0 <= n < parts.len() ==> match #[trigger] parts[n] {
            TemplatePart::Text(text) => starts_no_place(text),
            TemplatePart::Place(i) => 0 <= i < places().len(),
        }
}

/// Filling in a place leaves a text alone in which none starts.
proof fn lemma_text_is_kept(text: Seq<char>, rest: Seq<char>, place: Seq<char>, value: Seq<char>)
    requires
        starts_no_place(text),
        place.len() > 1,
        place[0] == '{',
        place[1] == '{',
    ensures
        replaced(text + rest, place, value) == text + replaced(rest, place, value),
    decreases text.len(),
{
    let s = text + rest;
    if text.len() == 0 {
        assert(s =~= rest);
        assert(text + replaced(rest, place, value) =~= replaced(rest, place, value));
    } else {
        let tail = text.drop_first();
        assert forall|i: int| 0 <= i < tail.len() && #[trigger] tail[i] == '{' implies i + 1
            < tail.len() && tail[i + 1] != '{' by {
            assert(text[i + 1] == '{');
        }
        lemma_text_is_kept(tail, rest, place, value);
        assert(s.drop_first() =~= tail + rest);
        if has_prefix(s, place) {
            assert(s.take(place.len() as int)[0] == text[0]);
            assert(s.take(place.len() as int)[1] == text[1]);
        }
        assert(seq![s[0]] + (tail + replaced(rest, place, value)) =~= text + replaced(
            rest,
            place,
            value,
        ));
        if s.len() < place.len() {
            assert(s =~= text + rest);
        }
    }
}

/// The places are told apart by their first characters, and none starts inside
/// another.
proof fn lemma_places(i: int, k: int)
    requires
        0 <= i < places().len(),
        0 <= k < places().len(),
    ensures
        places()[i].len() > 9,
        places()[i][0] == '{',
        places()[i][1] == '{',
        starts_no_place(places()[i].drop_first()),
        i != k ==> places()[i][2] != places()[k][2] || places()[i][3] != places()[k][3]
            || places()[i][9] != places()[k][9],
{
    reveal_strlit("{{session_id}}");
    reveal_strlit("{{compact_dir}}");
    reveal_strlit("{{solution_id}}");
    reveal_strlit("{{agent_id}}");
    reveal_strlit("{{started_at_iso}}");
    reveal_strlit("{{tokens_used}}");
    reveal_strlit("{{tokens_max}}");
}

/// Filling in one place fills it in wherever it stands, and nothing else.
proof fn lemma_place_is_filled(parts: Seq<TemplatePart>, values: Seq<Seq<char>>, k: int)
    requires
        are_parts(parts),
        0 <= k < places().len(),
        values.len() == places().len(),
        forall|i: int| 0 <= i < values.len() ==> starts_no_place(#[trigger] values[i]),
    ensures
        replaced(laid_out(parts, values, k), places()[k], values[k]) == laid_out(
            parts,
            values,
            k + 1,
        ),
    decreases parts.len(),
{
    let place = places()[k];
    let value = values[k];
    lemma_places(k, k);
    if parts.len() > 0 {
        let tail = parts.drop_first();
        assert forall|n: int| 0 <= n < tail.len() implies match #[trigger] tail[n] {
            TemplatePart::Text(text) => starts_no_place(text),
            TemplatePart::Place(i) => 0 <= i < places().len(),
        } by {
            assert(tail[n] == parts[n + 1]);
        }
        lemma_place_is_filled(tail, values, k);
        let rest = laid_out(tail, values, k);
        match parts[0] {
            TemplatePart::Text(text) => {
                lemma_text_is_kept(text, rest, place, value);
            },
            TemplatePart::Place(i) => {
                if i < k {
                    lemma_text_is_kept(values[i], rest, place, value);
                } else if i == k {
                    let s = place + rest;
                    assert(s.take(place.len() as int) =~= place);
                    assert(s.skip(place.len() as int) =~= rest);
                } else {
                    let other = places()[i];
                    lemma_places(i, k);
                    let s = other + rest;
                    let inside = other.drop_first();
                    assert(s.drop_first() =~= inside + rest);
                    lemma_text_is_kept(inside, rest, place, value);
                    if has_prefix(s, place) {
                        let start = s.take(place.len() as int);
                        assert(start[2] == other[2]);
                        assert(start[3] == other[3]);
                        assert(start[9] == other[9]);
                    }
                    assert(seq![s[0]] + (inside + replaced(rest, place, value)) =~= other
                        + replaced(rest, place, value));
                }
            },
        }
    }
}

/// In the prompt every place of the template holds its value, and all else is as the
/// template has it. This is so unless a value, or a text between the places, looks
/// like the start of a place itself.
pub proof fn law_every_place_is_filled(
    parts: Seq<TemplatePart>,
    session: SolutionSession,
    dir: Seq<char>,
)
    requires
        are_parts(parts),
        forall|i: int|
            0 <= i < places().len() ==> starts_no_place(#[trigger] place_values(session, dir)[i]),
    ensures
        compact_prompt(laid_out(parts, place_values(session, dir), 0), session, dir) == laid_out(
            parts,
            place_values(session, dir),
            places().len() as int,
        ),
{
    let values = place_values(session, dir);
    lemma_place_is_filled(parts, values, 0);
    lemma_place_is_filled(parts, values, 1);
    lemma_place_is_filled(parts, values, 2);
    lemma_place_is_filled(parts, values, 3);
    lemma_place_is_filled(parts, values, 4);
    lemma_place_is_filled(parts, values, 5);
    lemma_place_is_filled(parts, values, 6);
}

} // verus!
