//! An agent server that speaks the Agent Client Protocol and is told of a
//! solution when a session starts.
use crate::adapter::{IconName, SolutionAgentAdapter};
use crate::model::AgentServerId;
use crate::path::{file_name, file_name_of};
use crate::solution::Solution;
use vstd::prelude::*;
use vstd::string::*;

verus! {

/// How the prompt starts.
pub const PROMPT_INTRODUCTION: &'static str =
    "You are working inside a Solution — a multi-project workspace.\n\n";

/// What stands in front of the members.
pub const PROMPT_MEMBERS: &'static str =
    "Member projects (subdirectories you can navigate freely):\n";

/// What is said of a solution without members.
pub const PROMPT_NO_MEMBERS: &'static str = "  (none yet — solution is empty)\n";

/// What stands in front of the name of the file that holds guidance.
pub const PROMPT_GUIDANCE_FILE: &'static str = "\nEach member may contain its own ";

/// What to do with such a file.
pub const PROMPT_GUIDANCE: &'static str =
    " with project-specific guidance — \
     read them on demand when working in that subdirectory.\n\n";

/// Where to run commands.
pub const PROMPT_COMMANDS: &'static str =
    "Build / test / git commands must be run from within a member subdirectory \
     (the solution root has no .git, no Cargo.toml, etc.).\n";

/// What not to touch.
pub const PROMPT_SCOPE: &'static str =
    "Stay inside the solution. All file edits, git operations, and shell \
     commands that mutate source code must be confined to the solution \
     root and its member subdirectories. Paths outside it — including \
     other clones of the same repository on disk (~/IdeaProjects, \
     ~/projects, etc.), system directories, and unrelated home folders \
     — are read-only by default; read them when context demands. \
     Editing, committing, or deleting anything out there is allowed \
     only after you name the exact path and the exact change and the \
     user gives an explicit per-action go-ahead. A generic \"do \
     whatever you need\" or blanket up-front permission does not \
     count — confirm each out-of-scope action.\n";

/// What a member is called: the name of its directory.
pub open spec fn member_label(path: Seq<char>) -> Seq<char> {
    match file_name_of(path) {
        Some(name) => name,
        None => path,
    }
}

/// A line for each member.
pub open spec fn member_lines(paths: Seq<Seq<char>>) -> Seq<char>
    decreases paths.len(),
{
    if paths.len() == 0 {
        Seq::empty()
    } else {
        member_lines(paths.drop_last()) + "  - "@ + member_label(paths.last()) + "\n"@
    }
}

/// What the agent is told of a solution, where members keep their guidance in
/// files of the name `guidance`.
pub open spec fn system_prompt(
    guidance: Seq<char>,
    root: Seq<char>,
    members: Seq<Seq<char>>,
) -> Seq<char> {
    PROMPT_INTRODUCTION@ + "Solution root: "@ + root + "\n"@ + PROMPT_MEMBERS@ + (
    if members.len() == 0 {
        PROMPT_NO_MEMBERS@
    } else {
        member_lines(members)
    }) + PROMPT_GUIDANCE_FILE@ + guidance + PROMPT_GUIDANCE@ + PROMPT_COMMANDS@ + PROMPT_SCOPE@
}

/// A line for each member.
fn list_members(paths: &Vec<String>) -> (r: String)
    ensures
        r@ == member_lines(paths.deep_view()),
{
    let ghost all = paths.deep_view();
    let mut out = String::new();
    let mut i: usize = 0;
    while i < paths.len()
        invariant
            i <= paths@.len(),
            all == paths.deep_view(),
            out@ == member_lines(all.take(i as int)),
        decreases paths@.len() - i,
    {
        assert(all[i as int] == paths@[i as int]@);
        assert(all.take(i as int + 1).drop_last() =~= all.take(i as int));
        let label = match file_name(paths[i].as_str()) {
            Some(name) => name,
            None => paths[i].clone(),
        };
        out.append("  - ");
        out.append(label.as_str());
        out.append("\n");
        i += 1;
    }
    assert(all.take(i as int) =~= all);
    out
}

/// An agent server, as it is configured.
pub struct ClaudeAcpAdapter {
    /// The id it is registered under.
    pub agent_id: AgentServerId,
    /// What it is called.
    pub display_name: String,
    /// The name of the file in which a member keeps its guidance.
    pub guidance_file: String,
}

impl SolutionAgentAdapter for ClaudeAcpAdapter {
    fn agent_id(&self) -> (r: AgentServerId)
        ensures
            r@ == self.agent_id@,
    {
        self.agent_id.clone()
    }

    fn display_name(&self) -> (r: String)
        ensures
            r@ == self.display_name@,
    {
        self.display_name.clone()
    }

    fn icon(&self) -> (r: IconName)
        ensures
            r == IconName::AiClaude,
    {
        IconName::AiClaude
    }

    fn supports_resume(&self) -> (r: bool)
        ensures
            r,
    {
        true
    }

    /// What the agent is told of a solution: where it is, which members it has
    /// and what to keep to.
    fn build_initial_system_prompt(&self, solution: &Solution) -> (r: String)
        ensures
            r@ == system_prompt(
                self.guidance_file@,
                solution.root@,
                solution.member_paths.deep_view(),
            ),
    {
        assert(solution.member_paths.deep_view().len() == solution.member_paths@.len());
        let mut buf = PROMPT_INTRODUCTION.to_owned();
        buf.append("Solution root: ");
        buf.append(solution.root.as_str());
        buf.append("\n");
        buf.append(PROMPT_MEMBERS);
        if solution.member_paths.len() == 0 {
            buf.append(PROMPT_NO_MEMBERS);
        } else {
            let lines = list_members(&solution.member_paths);
            buf.append(lines.as_str());
        }
        buf.append(PROMPT_GUIDANCE_FILE);
        buf.append(self.guidance_file.as_str());
        buf.append(PROMPT_GUIDANCE);
        buf.append(PROMPT_COMMANDS);
        buf.append(PROMPT_SCOPE);
        buf
    }
}

} // verus!
