//! The tools there are.
use super::compaction::{CompactSessionTool, StartCompactTool};
use super::conversation::{
    AuthorizeToolCallTool, GetSessionEntryTool, GetSessionTool, ReadSessionHistoryTool,
};
use super::dto::{AgentSummary, ListAgentsResult, ToolResponse};
use super::lifecycle::{
    CancelTurnTool, CreateSessionTool, DeleteSessionTool, ForceIdleTool, RenameSessionTool,
    ResetContextTool, RestartAgentTool, SendMessageBlocksTool, SendMessageTool,
};
use super::sessions::{
    GetSessionBackgroundAgentsTool, GetSessionBackgroundShellsTool, GetSessionChildrenTool,
    ListSessionsTool,
};
use super::uploads::{UploadAbortTool, UploadFinishTool, UploadInitTool, UploadStatusTool};
use crate::adapter::{is_called, AdapterRegistry, SolutionAgentAdapter};
use crate::text::{decimal, print_u64};
use vstd::prelude::*;
use vstd::string::*;

verus! {

/// Lists the agents.
#[derive(Clone)]
pub struct ListAgentsTool;

impl ListAgentsTool {
    pub const NAME: &'static str = "solution_agent.list_agents";

    /// Lists the registered agents, in the order in which they were registered.
    pub fn run<A: SolutionAgentAdapter + ?Sized>(&self, adapters: &AdapterRegistry<A>) -> (r:
        ToolResponse<ListAgentsResult>)
        requires
            adapters.wf(),
        ensures
            r.result.agents@.len() == adapters.ids().len(),
            forall|i: int|
                0 <= i < adapters.ids().len() ==> {
                    &&& (#[trigger] r.result.agents@[i]).id@ == adapters.ids()[i]
                    &&& is_called(&*adapters.at(i), r.result.agents@[i].display_name@)
                },
            r.text@ == decimal(adapters.ids().len()) + " agent(s)"@,
    {
        let ids = adapters.supported_ids();
        let ghost all = adapters.ids();
        assert(all.len() == ids@.len());
        let mut agents: Vec<AgentSummary> = Vec::new();
        let mut i: usize = 0;
        while i < ids.len()
            invariant
                i <= ids@.len(),
                all == adapters.ids(),
                all == ids.deep_view(),
                adapters.wf(),
                agents@.len() == i,
                forall|k: int|
                    0 <= k < i ==> {
                        &&& (#[trigger] agents@[k]).id@ == all[k]
                        &&& is_called(&*adapters.at(k), agents@[k].display_name@)
                    },
            decreases ids@.len() - i,
        {
            assert(all[i as int] == ids@[i as int]@);
            assert(adapters.is_at(ids@[i as int]@, i as int));
            match adapters.get(&ids[i]) {
                Some(adapter) => {
                    proof {
                        let k = choose|k: int|
                            #[trigger] adapters.is_at(ids@[i as int]@, k) && adapter
                                == adapters.at(k);
                        if k < i {
                            crate::adapter::law_ids_are_distinct(*adapters, k, i as int);
                        }
                        if k > i {
                            crate::adapter::law_ids_are_distinct(*adapters, i as int, k);
                        }
                    }
                    let display_name = adapter.display_name();
                    assert(call_ensures(A::display_name, (&*adapter,), display_name));
                    agents.push(AgentSummary { id: ids[i].clone(), display_name });
                },
                None => {
                    assert(all.contains(all[i as int]));
                },
            }
            i += 1;
        }
        let mut text = print_u64(agents.len() as u64);
        text.append(" agent(s)");
        ToolResponse { text, result: ListAgentsResult { agents } }
    }
}

/// The names of the tools, in the order in which they are offered.
pub open spec fn tool_names() -> Seq<Seq<char>> {
    seq![
        ListSessionsTool::NAME@,
        ListAgentsTool::NAME@,
        GetSessionTool::NAME@,
        GetSessionEntryTool::NAME@,
        CreateSessionTool::NAME@,
        SendMessageTool::NAME@,
        SendMessageBlocksTool::NAME@,
        DeleteSessionTool::NAME@,
        CancelTurnTool::NAME@,
        AuthorizeToolCallTool::NAME@,
        RenameSessionTool::NAME@,
        RestartAgentTool::NAME@,
        ResetContextTool::NAME@,
        CompactSessionTool::NAME@,
        StartCompactTool::NAME@,
        ReadSessionHistoryTool::NAME@,
        GetSessionChildrenTool::NAME@,
        GetSessionBackgroundShellsTool::NAME@,
        GetSessionBackgroundAgentsTool::NAME@,
        UploadInitTool::NAME@,
        UploadStatusTool::NAME@,
        UploadFinishTool::NAME@,
        UploadAbortTool::NAME@,
        ForceIdleTool::NAME@,
    ]
}

/// Adds the names of the tools to those that are offered already.
pub fn register(offered: &mut Vec<&'static str>)
    ensures
        final(offered).deep_view() == old(offered).deep_view() + tool_names(),
{
    let ghost before = offered.deep_view();
    let ghost kept = offered@;
    offered.push(ListSessionsTool::NAME);
    offered.push(ListAgentsTool::NAME);
    offered.push(GetSessionTool::NAME);
    offered.push(GetSessionEntryTool::NAME);
    offered.push(CreateSessionTool::NAME);
    offered.push(SendMessageTool::NAME);
    offered.push(SendMessageBlocksTool::NAME);
    offered.push(DeleteSessionTool::NAME);
    offered.push(CancelTurnTool::NAME);
    offered.push(AuthorizeToolCallTool::NAME);
    offered.push(RenameSessionTool::NAME);
    offered.push(RestartAgentTool::NAME);
    offered.push(ResetContextTool::NAME);
    offered.push(CompactSessionTool::NAME);
    offered.push(StartCompactTool::NAME);
    offered.push(ReadSessionHistoryTool::NAME);
    offered.push(GetSessionChildrenTool::NAME);
    offered.push(GetSessionBackgroundShellsTool::NAME);
    offered.push(GetSessionBackgroundAgentsTool::NAME);
    offered.push(UploadInitTool::NAME);
    offered.push(UploadStatusTool::NAME);
    offered.push(UploadFinishTool::NAME);
    offered.push(UploadAbortTool::NAME);
    offered.push(ForceIdleTool::NAME);
    proof {
        let n = before.len();
        assert(offered@.len() == n + 24);
        assert forall|i: int| 0 <= i < offered@.len() implies offered.deep_view()[i] == (before
            + tool_names())[i] by {
            if i < n {
                assert(offered@[i] == kept[i]);
            } else {
                let k = i - n;
                assert(offered@[i]@ == tool_names()[k]);
            }
        }
        assert(offered.deep_view() =~= before + tool_names());
    }
}

/// The place of a tool among those that are offered, told from its name.
spec fn place_of(name: Seq<char>) -> int {
    if name[15] == 'l' {
        if name[20] == 's' {
            0
        } else {
            1
        }
    } else if name[15] == 'g' {
        if name.len() == 26 {
            2
        } else if name.len() == 32 {
            3
        } else if name.len() == 35 {
            16
        } else if name[38] == 's' {
            17
        } else {
            18
        }
    } else if name[15] == 'c' {
        if name[16] == 'r' {
            4
        } else if name[16] == 'a' {
            8
        } else {
            13
        }
    } else if name[15] == 's' {
        if name.len() == 27 {
            5
        } else if name.len() == 34 {
            6
        } else {
            14
        }
    } else if name[15] == 'd' {
        7
    } else if name[15] == 'a' {
        9
    } else if name[15] == 'r' {
        if name[17] == 'n' {
            10
        } else if name[17] == 'a' {
            15
        } else if name[18] == 't' {
            11
        } else {
            12
        }
    } else if name[15] == 'u' {
        if name[22] == 'i' {
            19
        } else if name[22] == 's' {
            20
        } else if name[22] == 'f' {
            21
        } else {
            22
        }
    } else {
        23
    }
}

/// Every tool can be told from every other by its name.
pub proof fn law_tool_names_are_distinct(i: int, j: int)
    requires
        0 <= i < tool_names().len(),
        0 <= j < tool_names().len(),
        tool_names()[i] == tool_names()[j],
    ensures
        i == j,
{
    let names = tool_names();
    reveal_strlit("solution_agent.list_sessions");
    reveal_strlit("solution_agent.list_agents");
    reveal_strlit("solution_agent.get_session");
    reveal_strlit("solution_agent.get_session_entry");
    reveal_strlit("solution_agent.create_session");
    reveal_strlit("solution_agent.send_message");
    reveal_strlit("solution_agent.send_message_blocks");
    reveal_strlit("solution_agent.delete_session");
    reveal_strlit("solution_agent.cancel_turn");
    reveal_strlit("solution_agent.authorize_tool_call");
    reveal_strlit("solution_agent.rename_session");
    reveal_strlit("solution_agent.restart_agent");
    reveal_strlit("solution_agent.reset_context");
    reveal_strlit("solution_agent.compact_session");
    reveal_strlit("solution_agent.start_compact");
    reveal_strlit("solution_agent.read_session_history");
    reveal_strlit("solution_agent.get_session_children");
    reveal_strlit("solution_agent.get_session_background_shells");
    reveal_strlit("solution_agent.get_session_background_agents");
    reveal_strlit("solution_agent.upload_init");
    reveal_strlit("solution_agent.upload_status");
    reveal_strlit("solution_agent.upload_finish");
    reveal_strlit("solution_agent.upload_abort");
    reveal_strlit("solution_agent.force_idle");
    assert(place_of(names[0]) == 0);
    assert(place_of(names[1]) == 1);
    assert(place_of(names[2]) == 2);
    assert(place_of(names[3]) == 3);
    assert(place_of(names[4]) == 4);
    assert(place_of(names[5]) == 5);
    assert(place_of(names[6]) == 6);
    assert(place_of(names[7]) == 7);
    assert(place_of(names[8]) == 8);
    assert(place_of(names[9]) == 9);
    assert(place_of(names[10]) == 10);
    assert(place_of(names[11]) == 11);
    assert(place_of(names[12]) == 12);
    assert(place_of(names[13]) == 13);
    assert(place_of(names[14]) == 14);
    assert(place_of(names[15]) == 15);
    assert(place_of(names[16]) == 16);
    assert(place_of(names[17]) == 17);
    assert(place_of(names[18]) == 18);
    assert(place_of(names[19]) == 19);
    assert(place_of(names[20]) == 20);
    assert(place_of(names[21]) == 21);
    assert(place_of(names[22]) == 22);
    assert(place_of(names[23]) == 23);
}

} // verus!
