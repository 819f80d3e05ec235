//! The tools by which a session is continued in an empty context.
use super::dto::{
    CompactSessionParams, CompactSessionResult, StartCompactParams, StartCompactResult,
    ToolResponse,
};
use super::lifecycle::StoreAction;
use super::requests::{
    find_session, missing_param, parse_requested_session, position_of_session, requested_session,
    require_param, say_of_session,
};
use crate::compact::{context_label, label_of, StartCompactOutcome};
use crate::duplicate::push_value;
use crate::json::{parse_value, parsed_json, text_field, value_tree, JsonTree};
use crate::model::{debug_text, format_debug, SolutionSession, SolutionSessionId};
use crate::path::{is_under, join_path, joined_path, lies_under, parent_of, parent_path};
use crate::solution::{find_solution, position_of_solution, Solution};
use crate::text::{
    decimal, is_blank, join, joined, lemma_blank_iff_trimmed_empty, print_u64, same_text, trim,
};
use vstd::prelude::*;
use vstd::string::*;

verus! {

/// The most bytes that the first message of the next context may have.
pub const COMPACT_PROMPT_MAX_BYTES: u64 = 262_144;

/// What is known of a file that is there.
#[derive(Clone, Copy, Debug)]
pub struct FileFacts {
    pub is_file: bool,
    pub len: u64,
}

/// Where the first message of the next context is to be found.
pub struct PromptRequest {
    pub session_id: SolutionSessionId,
    pub root: String,
    /// The file that was named.
    pub prompt_path: String,
    /// The directory in which it has to be.
    pub agents_dir: String,
}

/// The value of a [`PromptRequest`].
#[verifier::ext_equal]
pub ghost struct PromptRequestView {
    pub session_id: Seq<char>,
    pub root: Seq<char>,
    pub prompt_path: Seq<char>,
    pub agents_dir: Seq<char>,
}

impl View for PromptRequest {
    type V = PromptRequestView;

    open spec fn view(&self) -> PromptRequestView {
        PromptRequestView {
            session_id: self.session_id@,
            root: self.root@,
            prompt_path: self.prompt_path@,
            agents_dir: self.agents_dir@,
        }
    }
}

/// What was found of the files that a request names.
pub struct PromptFacts {
    /// The real path of the file, if it is there.
    pub prompt_path: Option<String>,
    /// The real path of the directory in which it has to be, if it is there.
    pub agents_dir: Option<String>,
    pub file: Option<FileFacts>,
    /// What the file holds, where it can be read.
    pub text: Option<String>,
    /// The other handoff files in the directory that the file is in.
    pub handoff: HandoffFiles,
}

/// A session that is to go on in an empty context.
pub struct Rotation {
    pub session_id: SolutionSessionId,
    pub prompt_bytes: u64,
    /// The first message of that context.
    pub prompt: String,
}

/// The file that a request names, or what is wrong with the request.
pub open spec fn located(
    input: CompactSessionParams,
    sessions: Seq<SolutionSession>,
    solutions: Seq<Solution>,
) -> Result<PromptRequestView, Seq<char>> {
    if input.session_id@.len() == 0 {
        Err(missing_param("session_id"@))
    } else if input.prompt_file@.len() == 0 {
        Err(missing_param("prompt_file"@))
    } else {
        match requested_session(input.session_id@) {
            Err(message) => Err(message),
            Ok(id) => match find_session(sessions, id) {
                None => Err("unknown session "@ + id),
                Some(i) => match find_solution(solutions, sessions[i].solution_id@) {
                    None => Err(
                        about_path(
                            "solution SolutionId("@,
                            debug_text(sessions[i].solution_id@),
                            ") not found in store"@,
                        ),
                    ),
                    Some(s) => Ok(
                        PromptRequestView {
                            session_id: id,
                            root: solutions[s].root@,
                            prompt_path: joined_path(solutions[s].root@, input.prompt_file@),
                            agents_dir: joined_path(solutions[s].root@, ".agents"@),
                        },
                    ),
                },
            },
        }
    }
}

/// The real path of the file, or what is wrong with it.
pub open spec fn placed(
    request: PromptRequestView,
    prompt_path: Option<Seq<char>>,
    agents_dir: Option<Seq<char>>,
) -> Result<Seq<char>, Seq<char>> {
    match prompt_path {
        None => Err("prompt file not found: "@ + request.prompt_path),
        Some(path) => match agents_dir {
            None => Err(
                about_path(
                    ""@,
                    request.root,
                    "/.agents not found — agent must create handoff files before calling compact_session"@,
                ),
            ),
            Some(dir) => if lies_under(path, dir) {
                Ok(path)
            } else {
                Err(
                    about_path(
                        "invalid_params: prompt_file must live under "@,
                        request.root,
                        "/.agents/"@,
                    ),
                )
            },
        },
    }
}

/// The size of the file, or what is wrong with it.
pub open spec fn measured(path: Seq<char>, file: Option<FileFacts>) -> Result<u64, Seq<char>> {
    match file {
        None => Err("stat "@ + path),
        Some(facts) => if !facts.is_file {
            Err("invalid_params: prompt_file is not a regular file: "@ + path)
        } else if facts.len == 0 {
            Err("invalid_params: prompt_file is empty: "@ + path)
        } else if facts.len > COMPACT_PROMPT_MAX_BYTES {
            Err(
                about_path(
                    "invalid_params: prompt_file is "@,
                    decimal(facts.len as nat),
                    " bytes, max is "@,
                ) + decimal(COMPACT_PROMPT_MAX_BYTES as nat),
            )
        } else {
            Ok(facts.len)
        },
    }
}

/// What the file holds, or what is wrong with it.
pub open spec fn read_text(path: Seq<char>, text: Option<Seq<char>>) -> Result<
    Seq<char>,
    Seq<char>,
> {
    match text {
        None => Err("read "@ + path),
        Some(content) => if is_blank(content) {
            Err("invalid_params: prompt_file contains only whitespace"@)
        } else {
            Ok(content)
        },
    }
}

/// What is wrong with the files that a request names, if anything: the first
/// thing that is.
pub open spec fn prompt_fault(request: PromptRequestView, facts: PromptFacts) -> Option<Seq<char>> {
    match placed(request, facts.prompt_path.deep_view(), facts.agents_dir.deep_view()) {
        Err(message) => Some(message),
        Ok(path) => match measured(path, facts.file) {
            Err(message) => Some(message),
            Ok(_) => match read_text(path, facts.text.deep_view()) {
                Err(message) => Some(message),
                Ok(_) => match parent_path(path) {
                    None => Some("prompt_file has no parent directory"@),
                    Some(dir) => handoff_fault(facts.handoff, state_tree(facts.handoff), dir),
                },
            },
        },
    }
}

/// Continues a session from the handoff files of its agent.
#[derive(Clone)]
pub struct CompactSessionTool;

/// A message about a path.
pub open spec fn about_path(before: Seq<char>, path: Seq<char>, after: Seq<char>) -> Seq<char> {
    before + path + after
}

/// A message about a path.
fn say_about_path(before: &str, path: &str, after: &str) -> (r: String)
    ensures
        r@ == about_path(before@, path@, after@),
{
    let mut message = before.to_owned();
    message.append(path);
    message.append(after);
    message
}

impl CompactSessionTool {
    pub const NAME: &'static str = "solution_agent.compact_session";

    /// The file that a request names, as seen from the root of the solution.
    pub fn locate(
        &self,
        input: &CompactSessionParams,
        sessions: &Vec<SolutionSession>,
        solutions: &Vec<Solution>,
    ) -> (r: Result<PromptRequest, String>)
        ensures
            match located(*input, sessions@, solutions@) {
                Ok(request) => r is Ok && r->Ok_0@ == request,
                Err(message) => r is Err && r->Err_0@ == message,
            },
    {
        if let Err(message) = require_param(input.session_id.as_str(), "session_id") {
            return Err(message);
        }
        if let Err(message) = require_param(input.prompt_file.as_str(), "prompt_file") {
            return Err(message);
        }
        let session_id = match parse_requested_session(input.session_id.as_str()) {
            Ok(id) => id,
            Err(message) => {
                return Err(message);
            },
        };
        let session = match position_of_session(sessions, &session_id) {
            Some(i) => &sessions[i],
            None => {
                return Err(say_of_session("unknown session ", &session_id));
            },
        };
        let root = match position_of_solution(solutions, session.solution_id.as_str()) {
            Some(i) => &solutions[i].root,
            None => {
                let quoted = format_debug(session.solution_id.as_str());
                return Err(
                    say_about_path("solution SolutionId(", quoted.as_str(), ") not found in store"),
                );
            },
        };
        Ok(
            PromptRequest {
                session_id,
                root: root.clone(),
                prompt_path: join_path(root.as_str(), input.prompt_file.as_str()),
                agents_dir: join_path(root.as_str(), ".agents"),
            },
        )
    }

    /// The real path of the file, given the real paths of the file and of the
    /// directory in which it has to be, as far as they are there.
    pub fn place<'a>(
        &self,
        request: &PromptRequest,
        prompt_path: &'a Option<String>,
        agents_dir: &Option<String>,
    ) -> (r: Result<&'a str, String>)
        ensures
            match placed(request@, prompt_path.deep_view(), agents_dir.deep_view()) {
                Ok(path) => r is Ok && r->Ok_0@ == path,
                Err(message) => r is Err && r->Err_0@ == message,
            },
    {
        let path = match prompt_path {
            Some(path) => path,
            None => {
                let mut message = "prompt file not found: ".to_owned();
                message.append(request.prompt_path.as_str());
                return Err(message);
            },
        };
        let dir = match agents_dir {
            Some(dir) => dir,
            None => {
                return Err(
                    say_about_path(
                        "",
                        request.root.as_str(),
                        "/.agents not found — agent must create handoff files before calling compact_session",
                    ),
                );
            },
        };
        if !is_under(path.as_str(), dir.as_str()) {
            return Err(
                say_about_path(
                    "invalid_params: prompt_file must live under ",
                    request.root.as_str(),
                    "/.agents/",
                ),
            );
        }
        Ok(path.as_str())
    }

    /// How large the file is, given what is known of it.
    pub fn measure(&self, path: &str, file: Option<FileFacts>) -> (r: Result<u64, String>)
        ensures
            match measured(path@, file) {
                Ok(size) => r == Ok::<u64, String>(size),
                Err(message) => r is Err && r->Err_0@ == message,
            },
    {
        let facts = match file {
            Some(facts) => facts,
            None => {
                let mut message = "stat ".to_owned();
                message.append(path);
                return Err(message);
            },
        };
        if !facts.is_file {
            let mut message = "invalid_params: prompt_file is not a regular file: ".to_owned();
            message.append(path);
            return Err(message);
        }
        if facts.len == 0 {
            let mut message = "invalid_params: prompt_file is empty: ".to_owned();
            message.append(path);
            return Err(message);
        }
        if facts.len > COMPACT_PROMPT_MAX_BYTES {
            let size = print_u64(facts.len);
            let limit = print_u64(COMPACT_PROMPT_MAX_BYTES);
            let mut message = say_about_path(
                "invalid_params: prompt_file is ",
                size.as_str(),
                " bytes, max is ",
            );
            message.append(limit.as_str());
            return Err(message);
        }
        Ok(facts.len)
    }

    /// The first message of the next context, given what the file holds.
    pub fn read<'a>(&self, path: &str, text: &'a Option<String>) -> (r: Result<&'a str, String>)
        ensures
            match read_text(path@, text.deep_view()) {
                Ok(content) => r is Ok && r->Ok_0@ == content,
                Err(message) => r is Err && r->Err_0@ == message,
            },
    {
        match text {
            Some(content) => {
                proof {
                    lemma_blank_iff_trimmed_empty(content@);
                }
                if trim(content.as_str()).is_empty() {
                    Err("invalid_params: prompt_file contains only whitespace".to_owned())
                } else {
                    Ok(content.as_str())
                }
            },
            None => {
                let mut message = "read ".to_owned();
                message.append(path);
                Err(message)
            },
        }
    }

    /// The session that is to go on in an empty context. It does only where the
    /// file that the request names can serve as its first message and the agent
    /// wrote all its handoff files next to it.
    pub fn run(
        &self,
        input: &CompactSessionParams,
        sessions: &Vec<SolutionSession>,
        solutions: &Vec<Solution>,
        facts: &PromptFacts,
    ) -> (r: Result<Rotation, String>)
        ensures
            match located(*input, sessions@, solutions@) {
                Err(message) => r is Err && r->Err_0@ == message,
                Ok(request) => match prompt_fault(request, *facts) {
                    Some(message) => r is Err && r->Err_0@ == message,
                    None => {
                        &&& r is Ok
                        &&& r->Ok_0.session_id@ == request.session_id
                        &&& facts.file matches Some(file) && r->Ok_0.prompt_bytes == file.len
                        &&& facts.text.deep_view() == Some(r->Ok_0.prompt@)
                    },
                },
            },
    {
        let request = match self.locate(input, sessions, solutions) {
            Ok(request) => request,
            Err(message) => {
                return Err(message);
            },
        };
        let path = match self.place(&request, &facts.prompt_path, &facts.agents_dir) {
            Ok(path) => path,
            Err(message) => {
                return Err(message);
            },
        };
        let prompt_bytes: u64 = match self.measure(path, facts.file) {
            Ok(size) => size,
            Err(message) => {
                return Err(message);
            },
        };
        let prompt = match self.read(path, &facts.text) {
            Ok(text) => text.to_owned(),
            Err(message) => {
                return Err(message);
            },
        };
        let compact_dir = match parent_of(path) {
            Some(dir) => dir,
            None => {
                return Err("prompt_file has no parent directory".to_owned());
            },
        };
        if let Err(message) = validate_handoff_files(compact_dir.as_str(), &facts.handoff) {
            return Err(message);
        }
        Ok(Rotation { session_id: request.session_id, prompt_bytes, prompt })
    }

    /// What is to be done once the session has an empty context: send it the
    /// first message.
    pub fn feed(&self, rotation: Rotation) -> (r: StoreAction)
        ensures
            r == (StoreAction::SendMessage {
                session_id: rotation.session_id,
                content: rotation.prompt,
            }),
    {
        StoreAction::SendMessage { session_id: rotation.session_id, content: rotation.prompt }
    }

    /// The answer once that is done, given the number of the new context.
    pub fn respond(&self, session_id: &SolutionSessionId, context_count: u32, prompt_bytes: u64)
        -> (r: ToolResponse<CompactSessionResult>)
        ensures
            r.text@ == "rotated "@ + session_id@ + " into context "@ + label_of(
                context_count as nat,
            ) + " ("@ + decimal(prompt_bytes as nat) + " bytes)"@,
            r.result.new_session_id@ == session_id@,
            r.result.prompt_bytes == prompt_bytes,
    {
        let mut text = say_of_session("rotated ", session_id);
        text.append(" into context ");
        let label = context_label(context_count);
        text.append(label.as_str());
        text.append(" (");
        let size = print_u64(prompt_bytes);
        text.append(size.as_str());
        text.append(" bytes)");
        ToolResponse {
            text,
            result: CompactSessionResult {
                new_session_id: session_id.as_str().to_owned(),
                prompt_bytes,
            },
        }
    }
}

/// What is known of the handoff files in a directory.
#[derive(Clone, Debug)]
pub struct HandoffFiles {
    pub state_json: Option<FileFacts>,
    /// What `session-state.json` holds, where it can be read.
    pub state_text: Option<String>,
    pub state_md: Option<FileFacts>,
    pub decisions_md: Option<FileFacts>,
    pub continue_md: Option<FileFacts>,
    pub next_md: Option<FileFacts>,
}

/// How far a handoff file has come.
#[derive(Clone, Copy, Debug, PartialEq, Eq, Structural)]
pub enum FileState {
    Written,
    Empty,
    Missing,
}

/// How far a handoff file has come.
pub open spec fn state_of_file(file: Option<FileFacts>) -> FileState {
    match file {
        Some(facts) => if !facts.is_file {
            FileState::Missing
        } else if facts.len > 0 {
            FileState::Written
        } else {
            FileState::Empty
        },
        None => FileState::Missing,
    }
}

/// The scope that the agent wrote down; `planned` where it wrote none.
pub open spec fn scope_of(tree: JsonTree) -> Seq<char> {
    match tree.text_field("scope"@) {
        Some(scope) => scope,
        None => "planned"@,
    }
}

/// The files that have to be there for a scope, with what is known of them.
pub open spec fn required_files(files: HandoffFiles, scope: Seq<char>) -> Seq<
    (Seq<char>, FileState),
> {
    let always = seq![
        ("state.md"@, state_of_file(files.state_md)),
        ("decisions.md"@, state_of_file(files.decisions_md)),
        ("continue.md"@, state_of_file(files.continue_md)),
    ];
    if scope == "exploratory"@ {
        always
    } else {
        always.push(("next.md"@, state_of_file(files.next_md)))
    }
}

/// The names of the files in the given state.
pub open spec fn names_in_state(
    required: Seq<(Seq<char>, FileState)>,
    state: FileState,
) -> Seq<Seq<char>>
    decreases required.len(),
{
    if required.len() == 0 {
        Seq::empty()
    } else {
        let before = names_in_state(required.drop_last(), state);
        if required.last().1 == state {
            before.push(required.last().0)
        } else {
            before
        }
    }
}

/// What is said of files that are missing or empty; nothing where none is.
pub open spec fn incomplete_message(
    required: Seq<(Seq<char>, FileState)>,
    scope: Seq<char>,
    dir: Seq<char>,
) -> Option<Seq<char>> {
    let missing = names_in_state(required, FileState::Missing);
    let empty = names_in_state(required, FileState::Empty);
    if missing.len() == 0 && empty.len() == 0 {
        None
    } else {
        Some(
            "compact_incomplete (scope="@ + scope
                + "): the agent did not write the full bundle"@ + (if missing.len() > 0 {
                ". Missing: "@ + joined(missing, ", "@)
            } else {
                Seq::empty()
            }) + (if empty.len() > 0 {
                ". Empty: "@ + joined(empty, ", "@)
            } else {
                Seq::empty()
            }) + ". Expected under "@ + dir,
        )
    }
}

/// What is wrong with the handoff files in `dir`, if anything. `tree` is what
/// `session-state.json` reads as.
pub open spec fn handoff_fault(
    files: HandoffFiles,
    tree: Option<JsonTree>,
    dir: Seq<char>,
) -> Option<Seq<char>> {
    if files.state_json is None {
        Some("compact_incomplete: session-state.json is missing in "@ + dir)
    } else if !(files.state_json->Some_0.is_file && files.state_json->Some_0.len > 0) {
        Some("compact_incomplete: session-state.json is empty"@)
    } else if files.state_text is None {
        Some("compact_incomplete: cannot read "@ + joined_path(dir, "session-state.json"@))
    } else {
        match tree {
            None => Some("compact_incomplete: session-state.json is not valid JSON"@),
            Some(tree) => incomplete_message(
                required_files(files, scope_of(tree)),
                scope_of(tree),
                dir,
            ),
        }
    }
}

/// What `session-state.json` reads as.
pub open spec fn state_tree(files: HandoffFiles) -> Option<JsonTree> {
    match files.state_text {
        Some(text) => parsed_json(text@),
        None => None,
    }
}

/// How far a handoff file has come.
fn look_at(file: &Option<FileFacts>) -> (r: FileState)
    ensures
        r == state_of_file(*file),
{
    match file {
        Some(facts) => {
            if !facts.is_file {
                FileState::Missing
            } else if facts.len > 0 {
                FileState::Written
            } else {
                FileState::Empty
            }
        },
        None => FileState::Missing,
    }
}

/// The required files that are not as they should be.
struct Shortfall {
    missing: Vec<String>,
    empty: Vec<String>,
}

impl Shortfall {
    /// Whether this is what the given files come to.
    spec fn is_of(self, required: Seq<(Seq<char>, FileState)>) -> bool {
        &&& self.missing.deep_view() == names_in_state(required, FileState::Missing)
        &&& self.empty.deep_view() == names_in_state(required, FileState::Empty)
    }

    /// Takes a required file into account.
    fn note(&mut self, name: &str, state: FileState, Ghost(required): Ghost<
        Seq<(Seq<char>, FileState)>,
    >)
        requires
            old(self).is_of(required),
        ensures
            final(self).is_of(required.push((name@, state))),
    {
        assert(required.push((name@, state)).drop_last() =~= required);
        match state {
            FileState::Written => {},
            FileState::Empty => {
                push_value(&mut self.empty, name.to_owned());
            },
            FileState::Missing => {
                push_value(&mut self.missing, name.to_owned());
            },
        }
    }

    /// What is said of it.
    fn describe(&self, scope: &str, compact_dir: &str, Ghost(required): Ghost<
        Seq<(Seq<char>, FileState)>,
    >) -> (r: Result<(), String>)
        requires
            self.is_of(required),
        ensures
            match incomplete_message(required, scope@, compact_dir@) {
                Some(message) => r is Err && r->Err_0@ == message,
                None => r is Ok,
            },
    {
        assert(self.missing@.len() == self.missing.deep_view().len());
        assert(self.empty@.len() == self.empty.deep_view().len());
        if self.missing.len() == 0 && self.empty.len() == 0 {
            return Ok(());
        }
        let mut missing_part = String::new();
        if self.missing.len() > 0 {
            missing_part = ". Missing: ".to_owned();
            let names = join(&self.missing, ", ");
            missing_part.append(names.as_str());
        }
        let mut empty_part = String::new();
        if self.empty.len() > 0 {
            empty_part = ". Empty: ".to_owned();
            let names = join(&self.empty, ", ");
            empty_part.append(names.as_str());
        }
        let mut message = "compact_incomplete (scope=".to_owned();
        message.append(scope);
        message.append("): the agent did not write the full bundle");
        message.append(missing_part.as_str());
        message.append(empty_part.as_str());
        message.append(". Expected under ");
        message.append(compact_dir);
        Err(message)
    }
}

/// Checks the files that a scope asks for. All that are missing or empty are
/// named at once.
pub fn check_scope_files(files: &HandoffFiles, scope: &str, compact_dir: &str) -> (r: Result<
    (),
    String,
>)
    ensures
        match incomplete_message(required_files(*files, scope@), scope@, compact_dir@) {
            Some(message) => r is Err && r->Err_0@ == message,
            None => r is Ok,
        },
{
    let ghost none = Seq::<(Seq<char>, FileState)>::empty();
    let mut shortfall = Shortfall { missing: Vec::new(), empty: Vec::new() };
    assert(shortfall.missing.deep_view() =~= Seq::<Seq<char>>::empty());
    assert(shortfall.empty.deep_view() =~= Seq::<Seq<char>>::empty());
    shortfall.note("state.md", look_at(&files.state_md), Ghost(none));
    let ghost one = none.push(("state.md"@, state_of_file(files.state_md)));
    shortfall.note("decisions.md", look_at(&files.decisions_md), Ghost(one));
    let ghost two = one.push(("decisions.md"@, state_of_file(files.decisions_md)));
    shortfall.note("continue.md", look_at(&files.continue_md), Ghost(two));
    let ghost three = two.push(("continue.md"@, state_of_file(files.continue_md)));
    if same_text(scope, "exploratory") {
        assert(three =~= required_files(*files, scope@));
        shortfall.describe(scope, compact_dir, Ghost(three))
    } else {
        shortfall.note("next.md", look_at(&files.next_md), Ghost(three));
        let ghost four = three.push(("next.md"@, state_of_file(files.next_md)));
        assert(four =~= required_files(*files, scope@));
        shortfall.describe(scope, compact_dir, Ghost(four))
    }
}

/// The scope that the agent wrote down; `planned` where it wrote none.
pub fn handoff_scope(state_json: &serde_json::Value) -> (r: String)
    ensures
        r@ == scope_of(value_tree(*state_json)),
{
    match text_field(state_json, "scope") {
        Some(scope) => scope.to_owned(),
        None => "planned".to_owned(),
    }
}

/// Checks that the agent wrote all its handoff files into `compact_dir`.
pub fn validate_handoff_files(compact_dir: &str, files: &HandoffFiles) -> (r: Result<(), String>)
    ensures
        match handoff_fault(*files, state_tree(*files), compact_dir@) {
            Some(message) => r is Err && r->Err_0@ == message,
            None => r is Ok,
        },
{
    let facts = match &files.state_json {
        Some(facts) => facts,
        None => {
            let mut message = "compact_incomplete: session-state.json is missing in ".to_owned();
            message.append(compact_dir);
            return Err(message);
        },
    };
    if !(facts.is_file && facts.len > 0) {
        return Err("compact_incomplete: session-state.json is empty".to_owned());
    }
    let state_text = match &files.state_text {
        Some(text) => text,
        None => {
            let mut message = "compact_incomplete: cannot read ".to_owned();
            let path = join_path(compact_dir, "session-state.json");
            message.append(path.as_str());
            return Err(message);
        },
    };
    let state_json = match parse_value(state_text.as_str()) {
        Some(value) => value,
        None => {
            return Err("compact_incomplete: session-state.json is not valid JSON".to_owned());
        },
    };
    let scope = handoff_scope(&state_json);
    check_scope_files(files, scope.as_str(), compact_dir)
}

/// Only a directory in which every file that its scope asks for is there and
/// holds something is handed over.
pub proof fn law_handover_is_complete(files: HandoffFiles, tree: JsonTree, dir: Seq<char>)
    requires
        handoff_fault(files, Some(tree), dir) is None,
    ensures
        state_of_file(files.state_json) is Written,
        state_of_file(files.state_md) is Written,
        state_of_file(files.decisions_md) is Written,
        state_of_file(files.continue_md) is Written,
        scope_of(tree) != "exploratory"@ ==> state_of_file(files.next_md) is Written,
{
    let required = required_files(files, scope_of(tree));
    reveal_with_fuel(names_in_state, 5);
    assert(names_in_state(required, FileState::Missing).len() == 0);
    assert(names_in_state(required, FileState::Empty).len() == 0);
    if scope_of(tree) != "exploratory"@ {
        assert(required.drop_last().last() == required[2]);
        assert(required.drop_last().drop_last().last() == required[1]);
        assert(required.drop_last().drop_last().drop_last().last() == required[0]);
    } else {
        assert(required.drop_last().last() == required[1]);
        assert(required.drop_last().drop_last().last() == required[0]);
    }
}

/// Asks the agent of a session to prepare a handoff.
#[derive(Clone)]
pub struct StartCompactTool;

/// What a client is told of an attempt to compact.
pub open spec fn compact_text(
    id: Seq<char>,
    queued: bool,
    reason: Option<Seq<char>>,
) -> Seq<char> {
    if queued {
        "compact queued for "@ + id
    } else {
        match reason {
            Some(text) => text,
            None => "compact declined"@,
        }
    }
}

impl StartCompactTool {
    pub const NAME: &'static str = "solution_agent.start_compact";

    /// The session to compact.
    pub fn run(&self, input: &StartCompactParams) -> (r: Result<SolutionSessionId, String>)
        ensures
            match requested_session(input.session_id@) {
                Ok(id) => r is Ok && r->Ok_0@ == id,
                Err(message) => r is Err && r->Err_0@ == message,
            },
    {
        parse_requested_session(input.session_id.as_str())
    }

    /// The answer, given what came of it.
    pub fn respond(&self, session_id: &SolutionSessionId, outcome: StartCompactOutcome) -> (r:
        ToolResponse<StartCompactResult>)
        ensures
            r.text@ == compact_text(session_id@, outcome.queued, outcome.reason.deep_view()),
            r.result.queued == outcome.queued,
            r.result.message == outcome.reason,
    {
        let text = if outcome.queued {
            say_of_session("compact queued for ", session_id)
        } else {
            match &outcome.reason {
                Some(reason) => reason.clone(),
                None => "compact declined".to_owned(),
            }
        };
        ToolResponse {
            text,
            result: StartCompactResult { queued: outcome.queued, message: outcome.reason },
        }
    }
}

} // verus!
