//! The tools that change sessions. Each checks the request and says what the
//! store of sessions is to do; what came of it makes the answer.
use super::dto::{
    CancelTurnParams, CancelTurnResult, CreateSessionParams, CreateSessionResult,
    DeleteSessionParams, DeleteSessionResult, ForceIdleParams, ForceIdleResult, RenameSessionParams,
    RenameSessionResult, ResetContextParams, ResetContextResult, RestartAgentParams,
    RestartAgentResult, SendMessageBlocksParams, SendMessageBlocksResult, SendMessageParams,
    SendMessageResult, ToolResponse,
};
use super::requests::{
    find_session, missing_param, named_session, parse_named_session, parse_requested_session,
    position_of_session, requested_session, require_param, say_of_session,
};
use crate::model::{SessionState, SolutionSession, SolutionSessionId};
use crate::path::{is_under, lies_under};
use crate::solution::{active_project, project_for_solution, Solution};
use crate::text::{same_text, trim, trimmed};
use crate::thread::PromptBlock;
use vstd::prelude::*;
use vstd::string::*;

verus! {

/// A session to create.
pub struct NewSession {
    pub solution_id: String,
    pub agent_id: String,
    /// The open project to create it in, by position.
    pub project: usize,
    /// One of the visible directories of the project; the first where none is given.
    pub cwd: Option<String>,
    pub parent_session_id: Option<SolutionSessionId>,
}

/// Whether `dir` is one of the directories.
pub open spec fn is_among(dir: Seq<char>, dirs: Seq<Seq<char>>) -> bool {
    exists|k: int|
        0 <= k < dirs.len() && lies_under(dir, #[trigger] dirs[k]) && lies_under(dirs[k], dir)
}

/// Whether `dir` is one of the directories.
fn names_one_of(dir: &str, dirs: &Vec<String>) -> (r: bool)
    ensures
        r == is_among(dir@, dirs.deep_view()),
{
    let ghost all = dirs.deep_view();
    let mut i: usize = 0;
    while i < dirs.len()
        invariant
            i <= dirs@.len(),
            all == dirs.deep_view(),
            forall|k: int|
                0 <= k < i ==> !(lies_under(dir@, #[trigger] all[k]) && lies_under(all[k], dir@)),
        decreases dirs@.len() - i,
    {
        assert(all[i as int] == dirs@[i as int]@);
        if is_under(dir, dirs[i].as_str()) && is_under(dirs[i].as_str(), dir) {
            return true;
        }
        i += 1;
    }
    false
}

/// What is said of a working directory that is not in the project.
pub open spec fn foreign_cwd(cwd: Seq<char>) -> Seq<char> {
    "invalid_params: cwd is not a visible worktree of the solution: "@ + cwd
}

/// What the store of sessions is to do.
pub enum StoreAction {
    Create(NewSession),
    Rename { session_id: SolutionSessionId, title: String },
    SendMessage { session_id: SolutionSessionId, content: String },
    SendBlocks { session_id: SolutionSessionId, blocks: Vec<PromptBlock> },
    Close { session_id: SolutionSessionId },
    /// Cancel the turn and send the messages that wait.
    InterruptAndFlush { session_id: SolutionSessionId },
    CancelTurn { session_id: SolutionSessionId },
    Restart { session_id: SolutionSessionId },
    ResetContext { session_id: SolutionSessionId },
}

/// Creates a session.
#[derive(Clone)]
pub struct CreateSessionTool;

/// The parent of a session to create, or what is wrong with it: it has to be
/// there and to belong to the same solution.
pub open spec fn requested_parent(
    input: CreateSessionParams,
    sessions: Seq<SolutionSession>,
) -> Result<Option<Seq<char>>, Seq<char>> {
    match input.parent_session_id {
        None => Ok(None),
        Some(raw) => match named_session(raw@, "bad parent_session_id: "@) {
            Err(message) => Err(message),
            Ok(id) => match find_session(sessions, id) {
                None => Err("unknown_parent_session: "@ + raw@),
                Some(i) => if sessions[i].solution_id@ != input.solution_id@ {
                    Err(
                        "parent_session_in_different_solution: "@ + sessions[i].solution_id@
                            + " != "@ + input.solution_id@,
                    )
                } else {
                    Ok(Some(id))
                },
            },
        },
    }
}

/// The parent of a session to create, or what is wrong with it.
fn check_parent(input: &CreateSessionParams, sessions: &Vec<SolutionSession>) -> (r: Result<
    Option<SolutionSessionId>,
    String,
>)
    ensures
        match requested_parent(*input, sessions@) {
            Ok(parent) => r is Ok && r->Ok_0.deep_view() == parent,
            Err(message) => r is Err && r->Err_0@ == message,
        },
{
    let raw = match &input.parent_session_id {
        Some(raw) => raw,
        None => {
            return Ok(None);
        },
    };
    let parsed = match parse_named_session(raw.as_str(), "bad parent_session_id: ") {
        Ok(id) => id,
        Err(message) => {
            return Err(message);
        },
    };
    let parent = match position_of_session(sessions, &parsed) {
        Some(i) => &sessions[i],
        None => {
            let mut message = "unknown_parent_session: ".to_owned();
            message.append(raw.as_str());
            return Err(message);
        },
    };
    if !same_text(parent.solution_id.as_str(), input.solution_id.as_str()) {
        let mut message = "parent_session_in_different_solution: ".to_owned();
        message.append(parent.solution_id.as_str());
        message.append(" != ");
        message.append(input.solution_id.as_str());
        return Err(message);
    }
    Ok(Some(parsed))
}

/// What is wrong with a request to create a session, if anything, before a
/// project is looked for.
pub open spec fn create_fault(
    input: CreateSessionParams,
    sessions: Seq<SolutionSession>,
) -> Option<Seq<char>> {
    if input.solution_id@.len() == 0 {
        Some(missing_param("solution_id"@))
    } else if input.agent_id@.len() == 0 {
        Some(missing_param("agent_id"@))
    } else {
        match requested_parent(input, sessions) {
            Err(message) => Some(message),
            Ok(_) => None,
        }
    }
}

impl CreateSessionTool {
    pub const NAME: &'static str = "solution_agent.create_session";

    /// The session to create, in the first open project of the solution.
    /// `projects` holds the visible directories of each open project.
    pub fn run(
        &self,
        input: &CreateSessionParams,
        sessions: &Vec<SolutionSession>,
        solutions: &Vec<Solution>,
        projects: &Vec<Vec<String>>,
    ) -> (r: Result<StoreAction, String>)
        ensures
            match create_fault(*input, sessions@) {
                Some(message) => r is Err && r->Err_0@ == message,
                None => match active_project(
                    input.solution_id@,
                    solutions@,
                    projects.deep_view(),
                ) {
                    Some(project) => if input.cwd matches Some(cwd) && !is_among(
                        cwd@,
                        projects.deep_view()[project],
                    ) {
                        r is Err && r->Err_0@ == foreign_cwd(input.cwd->Some_0@)
                    } else {
                        &&& r matches Ok(StoreAction::Create(new))
                        &&& new.solution_id@ == input.solution_id@
                        &&& new.agent_id@ == input.agent_id@
                        &&& new.cwd.deep_view() == input.cwd.deep_view()
                        &&& new.parent_session_id.deep_view() == requested_parent(
                            *input,
                            sessions@,
                        )->Ok_0
                        &&& new.project == project
                    },
                    None => r is Err && r->Err_0@
                        == "no_active_workspace_for_solution: open Solution "@
                        + input.solution_id@ + " via solutions.open before creating a session"@,
                },
            },
    {
        if let Err(message) = require_param(input.solution_id.as_str(), "solution_id") {
            return Err(message);
        }
        if let Err(message) = require_param(input.agent_id.as_str(), "agent_id") {
            return Err(message);
        }
        let parent_session_id = match check_parent(input, sessions) {
            Ok(parent) => parent,
            Err(message) => {
                return Err(message);
            },
        };
        let project = match project_for_solution(input.solution_id.as_str(), solutions, projects) {
            Some(project) => project,
            None => {
                let mut message = "no_active_workspace_for_solution: open Solution ".to_owned();
                message.append(input.solution_id.as_str());
                message.append(" via solutions.open before creating a session");
                return Err(message);
            },
        };
        let cwd = match &input.cwd {
            Some(dir) => {
                assert(projects.deep_view()[project as int] == projects@[project as int].deep_view());
                if !names_one_of(dir.as_str(), &projects[project]) {
                    let mut message =
                        "invalid_params: cwd is not a visible worktree of the solution: ".to_owned();
                    message.append(dir.as_str());
                    return Err(message);
                }
                Some(dir.clone())
            },
            None => None,
        };
        Ok(
            StoreAction::Create(
                NewSession {
                    solution_id: input.solution_id.clone(),
                    agent_id: input.agent_id.clone(),
                    project,
                    cwd,
                    parent_session_id,
                },
            ),
        )
    }

    /// What is to be done once the session is there: give it the title that was
    /// asked for, unless that is blank.
    pub fn rename(&self, input: &CreateSessionParams, created: &SolutionSessionId) -> (r: Option<
        StoreAction,
    >)
        ensures
            match input.title {
                Some(title) => if trimmed(title@).len() > 0 {
                    &&& r matches Some(StoreAction::Rename { session_id, title: new_title })
                    &&& session_id == *created
                    &&& new_title@ == trimmed(title@)
                } else {
                    r is None
                },
                None => r is None,
            },
    {
        match &input.title {
            Some(raw) => {
                let title = trim(raw.as_str());
                if title.is_empty() {
                    None
                } else {
                    Some(StoreAction::Rename { session_id: *created, title: title.to_owned() })
                }
            },
            None => None,
        }
    }

    /// What is to be done after that: send the first message, if there is one.
    pub fn first_message(&self, input: &CreateSessionParams, created: &SolutionSessionId) -> (r:
        Option<StoreAction>)
        ensures
            match input.initial_message {
                Some(message) => {
                    &&& r matches Some(StoreAction::SendMessage { session_id, content })
                    &&& session_id == *created
                    &&& content@ == message@
                },
                None => r is None,
            },
    {
        match &input.initial_message {
            Some(message) => Some(
                StoreAction::SendMessage { session_id: *created, content: message.clone() },
            ),
            None => None,
        }
    }

    /// The answer once all that is done.
    pub fn respond(&self, created: &SolutionSessionId) -> (r: ToolResponse<CreateSessionResult>)
        ensures
            r.text@ == created@,
            r.result.session_id@ == created@,
    {
        ToolResponse {
            text: created.as_str().to_owned(),
            result: CreateSessionResult { session_id: created.as_str().to_owned() },
        }
    }
}

/// A new session never has a parent in another solution.
pub proof fn law_parents_share_the_solution(
    input: CreateSessionParams,
    sessions: Seq<SolutionSession>,
)
    ensures
        requested_parent(input, sessions) matches Ok(Some(id)) ==> {
            &&& find_session(sessions, id) matches Some(i)
            &&& sessions[i].solution_id@ == input.solution_id@
        },
{
}

/// Sends a text to a session.
#[derive(Clone)]
pub struct SendMessageTool;

impl SendMessageTool {
    pub const NAME: &'static str = "solution_agent.send_message";

    /// The text to send.
    pub fn run(&self, input: &SendMessageParams) -> (r: Result<StoreAction, String>)
        ensures
            match requested_session(input.session_id@) {
                Ok(id) => {
                    &&& r matches Ok(StoreAction::SendMessage { session_id, content })
                    &&& session_id@ == id
                    &&& content@ == input.content@
                },
                Err(message) => r is Err && r->Err_0@ == message,
            },
    {
        match parse_requested_session(input.session_id.as_str()) {
            Ok(session_id) => Ok(
                StoreAction::SendMessage { session_id, content: input.content.clone() },
            ),
            Err(message) => Err(message),
        }
    }

    /// The answer once it is queued.
    pub fn respond(&self) -> (r: ToolResponse<SendMessageResult>)
        ensures
            r.text@ == "queued"@,
    {
        ToolResponse { text: "queued".to_owned(), result: SendMessageResult {  } }
    }
}

/// Sends blocks to a session.
#[derive(Clone)]
pub struct SendMessageBlocksTool;

impl SendMessageBlocksTool {
    pub const NAME: &'static str = "solution_agent.send_message_blocks";

    /// The session to send the blocks to.
    pub fn run(&self, input: &SendMessageBlocksParams) -> (r: Result<SolutionSessionId, String>)
        ensures
            if input.session_id@.len() == 0 {
                r is Err && r->Err_0@ == missing_param("session_id"@)
            } else if input.blocks@.len() == 0 {
                r is Err && r->Err_0@ == "invalid_params: blocks must contain at least one item"@
            } else {
                match requested_session(input.session_id@) {
                    Ok(id) => r is Ok && r->Ok_0@ == id,
                    Err(message) => r is Err && r->Err_0@ == message,
                }
            },
    {
        if let Err(message) = require_param(input.session_id.as_str(), "session_id") {
            return Err(message);
        }
        if input.blocks.len() == 0 {
            return Err("invalid_params: blocks must contain at least one item".to_owned());
        }
        parse_requested_session(input.session_id.as_str())
    }

    /// What is to be done once the uploads that the blocks name are put in their
    /// place.
    pub fn send(&self, session_id: SolutionSessionId, resolved: Vec<PromptBlock>) -> (r:
        StoreAction)
        ensures
            r == (StoreAction::SendBlocks { session_id, blocks: resolved }),
    {
        StoreAction::SendBlocks { session_id, blocks: resolved }
    }

    /// The answer once they are queued.
    pub fn respond(&self) -> (r: ToolResponse<SendMessageBlocksResult>)
        ensures
            r.text@ == "queued"@,
    {
        ToolResponse { text: "queued".to_owned(), result: SendMessageBlocksResult {  } }
    }
}

/// Closes a session.
#[derive(Clone)]
pub struct DeleteSessionTool;

impl DeleteSessionTool {
    pub const NAME: &'static str = "solution_agent.delete_session";

    /// The session to close.
    pub fn run(&self, input: &DeleteSessionParams) -> (r: Result<StoreAction, String>)
        ensures
            match requested_session(input.session_id@) {
                Ok(id) => r matches Ok(StoreAction::Close { session_id }) && session_id@ == id,
                Err(message) => r is Err && r->Err_0@ == message,
            },
    {
        match parse_requested_session(input.session_id.as_str()) {
            Ok(session_id) => Ok(StoreAction::Close { session_id }),
            Err(message) => Err(message),
        }
    }

    /// The answer once it is closed.
    pub fn respond(&self) -> (r: ToolResponse<DeleteSessionResult>)
        ensures
            r.text@ == "closed"@,
    {
        ToolResponse { text: "closed".to_owned(), result: DeleteSessionResult {  } }
    }
}

/// Cancels the turn of a session.
#[derive(Clone)]
pub struct CancelTurnTool;

impl CancelTurnTool {
    pub const NAME: &'static str = "solution_agent.cancel_turn";

    /// The turn to cancel, with the messages that wait sent afterwards if that
    /// was asked for.
    pub fn run(&self, input: &CancelTurnParams) -> (r: Result<StoreAction, String>)
        ensures
            match requested_session(input.session_id@) {
                Ok(id) => if input.flush_pending {
                    r matches Ok(StoreAction::InterruptAndFlush { session_id }) && session_id@ == id
                } else {
                    r matches Ok(StoreAction::CancelTurn { session_id }) && session_id@ == id
                },
                Err(message) => r is Err && r->Err_0@ == message,
            },
    {
        match parse_requested_session(input.session_id.as_str()) {
            Ok(session_id) => if input.flush_pending {
                Ok(StoreAction::InterruptAndFlush { session_id })
            } else {
                Ok(StoreAction::CancelTurn { session_id })
            },
            Err(message) => Err(message),
        }
    }

    /// What is to be done where an action failed: a turn is cancelled all the
    /// same where there was nothing to send.
    pub fn after_failure(&self, failed: &StoreAction) -> (r: Option<StoreAction>)
        ensures
            match failed {
                StoreAction::InterruptAndFlush { session_id: id } => {
                    r == Some(StoreAction::CancelTurn { session_id: *id })
                },
                _ => r is None,
            },
    {
        match failed {
            StoreAction::InterruptAndFlush { session_id } => Some(
                StoreAction::CancelTurn { session_id: *session_id },
            ),
            _ => None,
        }
    }

    /// The answer once the turn is cancelled.
    pub fn respond(&self) -> (r: ToolResponse<CancelTurnResult>)
        ensures
            r.text@ == "cancelled"@,
    {
        ToolResponse { text: "cancelled".to_owned(), result: CancelTurnResult {  } }
    }
}

/// Renames a session.
#[derive(Clone)]
pub struct RenameSessionTool;

impl RenameSessionTool {
    pub const NAME: &'static str = "solution_agent.rename_session";

    /// The session to rename and its title.
    pub fn run(&self, input: &RenameSessionParams) -> (r: Result<StoreAction, String>)
        ensures
            if input.session_id@.len() == 0 {
                r is Err && r->Err_0@ == missing_param("session_id"@)
            } else if input.title@.len() == 0 {
                r is Err && r->Err_0@ == missing_param("title"@)
            } else {
                match requested_session(input.session_id@) {
                    Ok(id) => {
                        &&& r matches Ok(StoreAction::Rename { session_id, title })
                        &&& session_id@ == id
                        &&& title@ == input.title@
                    },
                    Err(message) => r is Err && r->Err_0@ == message,
                }
            },
    {
        if let Err(message) = require_param(input.session_id.as_str(), "session_id") {
            return Err(message);
        }
        if let Err(message) = require_param(input.title.as_str(), "title") {
            return Err(message);
        }
        match parse_requested_session(input.session_id.as_str()) {
            Ok(session_id) => Ok(StoreAction::Rename { session_id, title: input.title.clone() }),
            Err(message) => Err(message),
        }
    }

    /// The answer once it is renamed.
    pub fn respond(&self) -> (r: ToolResponse<RenameSessionResult>)
        ensures
            r.text@ == "renamed"@,
    {
        ToolResponse { text: "renamed".to_owned(), result: RenameSessionResult {  } }
    }
}

/// Restarts the agent of a session.
#[derive(Clone)]
pub struct RestartAgentTool;

impl RestartAgentTool {
    pub const NAME: &'static str = "solution_agent.restart_agent";

    /// The session to restart the agent of.
    pub fn run(&self, input: &RestartAgentParams) -> (r: Result<StoreAction, String>)
        ensures
            match requested_session(input.session_id@) {
                Ok(id) => r matches Ok(StoreAction::Restart { session_id }) && session_id@ == id,
                Err(message) => r is Err && r->Err_0@ == message,
            },
    {
        match parse_requested_session(input.session_id.as_str()) {
            Ok(session_id) => Ok(StoreAction::Restart { session_id }),
            Err(message) => Err(message),
        }
    }

    /// The answer, given the session that took its place.
    pub fn respond(&self, restarted: &SolutionSessionId) -> (r: ToolResponse<RestartAgentResult>)
        ensures
            r.text@ == restarted@,
            r.result.session_id@ == restarted@,
    {
        ToolResponse {
            text: restarted.as_str().to_owned(),
            result: RestartAgentResult { session_id: restarted.as_str().to_owned() },
        }
    }
}

/// Clears the conversation of a session.
#[derive(Clone)]
pub struct ResetContextTool;

impl ResetContextTool {
    pub const NAME: &'static str = "solution_agent.reset_context";

    /// The session to clear.
    pub fn run(&self, input: &ResetContextParams) -> (r: Result<StoreAction, String>)
        ensures
            match requested_session(input.session_id@) {
                Ok(id) => r matches Ok(StoreAction::ResetContext { session_id }) && session_id@
                    == id,
                Err(message) => r is Err && r->Err_0@ == message,
            },
    {
        match parse_requested_session(input.session_id.as_str()) {
            Ok(session_id) => Ok(StoreAction::ResetContext { session_id }),
            Err(message) => Err(message),
        }
    }

    /// The answer, given the session.
    pub fn respond(&self, cleared: &SolutionSessionId) -> (r: ToolResponse<ResetContextResult>)
        ensures
            r.text@ == cleared@,
            r.result.session_id@ == cleared@,
    {
        ToolResponse {
            text: cleared.as_str().to_owned(),
            result: ResetContextResult { session_id: cleared.as_str().to_owned() },
        }
    }
}

/// Forces a stuck session to rest.
#[derive(Clone)]
pub struct ForceIdleTool;

/// What a state is called on the wire.
pub open spec fn state_kind(state: SessionState) -> Seq<char> {
    match state {
        SessionState::Idle => "idle"@,
        SessionState::Running { .. } => "running"@,
        SessionState::Stopping { .. } => "stopping"@,
        SessionState::AwaitingInput => "awaiting_input"@,
        SessionState::Errored(_) => "errored"@,
    }
}

/// What a state is called on the wire.
pub fn state_kind_str(state: &SessionState) -> (r: &'static str)
    ensures
        r@ == state_kind(*state),
{
    match state {
        SessionState::Idle => "idle",
        SessionState::Running { .. } => "running",
        SessionState::Stopping { .. } => "stopping",
        SessionState::AwaitingInput => "awaiting_input",
        SessionState::Errored(_) => "errored",
    }
}

impl ForceIdleTool {
    pub const NAME: &'static str = "solution_agent.force_idle";

    /// Sets the state of a session to idle, whatever it was, and leaves
    /// everything else alone.
    pub fn run(&self, input: &ForceIdleParams, sessions: &mut Vec<SolutionSession>) -> (r: Result<
        ToolResponse<ForceIdleResult>,
        String,
    >)
        ensures
            match requested_session(input.session_id@) {
                Ok(id) => match find_session(old(sessions)@, id) {
                    Some(i) => {
                        let before = old(sessions)@[i];
                        &&& r is Ok
                        &&& r->Ok_0.result.previous_kind@ == state_kind(before.state)
                        &&& r->Ok_0.text@ == "forced Idle (was "@ + state_kind(before.state) + ")"@
                        &&& final(sessions)@ == old(sessions)@.update(
                            i,
                            (SolutionSession { state: SessionState::Idle, ..before }),
                        )
                    },
                    None => {
                        &&& r is Err
                        &&& r->Err_0@ == "unknown session "@ + id
                        &&& final(sessions)@ == old(sessions)@
                    },
                },
                Err(message) => {
                    &&& r is Err
                    &&& r->Err_0@ == message
                    &&& final(sessions)@ == old(sessions)@
                },
            },
    {
        let session_id = match parse_requested_session(input.session_id.as_str()) {
            Ok(id) => id,
            Err(message) => {
                return Err(message);
            },
        };
        let i = match position_of_session(sessions, &session_id) {
            Some(i) => i,
            None => {
                return Err(say_of_session("unknown session ", &session_id));
            },
        };
        let kind = state_kind_str(&sessions[i].state);
        let mut text = "forced Idle (was ".to_owned();
        text.append(kind);
        text.append(")");
        sessions[i].state = SessionState::Idle;
        Ok(ToolResponse { text, result: ForceIdleResult { previous_kind: kind.to_owned() } })
    }
}

} // verus!
