//! What runs beside a conversation.
use crate::background_agent::{
    announcement, cut_bytes, last_row, last_written, read_start, text_read, tool_label,
};
use crate::background_shell::{
    is_exit, kill_target, launch, reported_code, state_text, BackgroundShell, BackgroundShellId,
    ShellRuntimeState,
};
use crate::background_agent::{BackgroundAgent, BackgroundAgentId};
use crate::json::JsonTree;
use crate::mcp::sessions::{agent_dto, agent_of, agents_of, shell_dto, shell_of, shells_of};
use crate::text::{is_blank, parsed_signed, signed_decimal, split_on, utf8_len};
use vstd::prelude::*;
use vstd::utf8::{decode_utf8, valid_utf8};

verus! {

/// A file is read from where it was read to before, and never more of it than the
/// window: what is left out lies in front. A file that has shrunk is read anew.
pub proof fn law_reading_goes_on_where_it_ended(len: nat, since: nat, window: nat)
    ensures
        ({
            let start = read_start(len, since, window);
            &&& start <= len
            &&& len - start <= window
            &&& since <= len ==> start >= since
            &&& since <= len && len - since <= window ==> start == since
            &&& since > len && len <= window ==> start == 0
            &&& since > len && len > window ==> len - start == window
            &&& since <= len && len - since > window ==> len - start == window
        }),
{
}

/// The last of the pieces that is not blank.
proof fn lemma_last_written(pieces: Seq<Seq<char>>)
    ensures
        match last_written(pieces) {
            Some(line) => exists|i: int|
                #![trigger pieces[i]]
                0 <= i < pieces.len() && pieces[i] == line && !is_blank(line) && forall|j: int|
                    i < j < pieces.len() ==> is_blank(#[trigger] pieces[j]),
            None => forall|i: int| 0 <= i < pieces.len() ==> is_blank(#[trigger] pieces[i]),
        },
    decreases pieces.len(),
{
    if pieces.len() > 0 {
        let rest = pieces.drop_last();
        lemma_last_written(rest);
        if !is_blank(pieces.last()) {
            assert(pieces[pieces.len() - 1] == pieces.last());
        } else {
            match last_written(rest) {
                Some(line) => {
                    let i = choose|i: int|
                        #![trigger rest[i]]
                        0 <= i < rest.len() && rest[i] == line && !is_blank(line) && forall|j: int|
                            i < j < rest.len() ==> is_blank(#[trigger] rest[j]);
                    assert(pieces[i] == line);
                    assert forall|j: int| i < j < pieces.len() implies is_blank(
                        #[trigger] pieces[j],
                    ) by {
                        if j < rest.len() {
                            assert(rest[j] == pieces[j]);
                        }
                    }
                },
                None => {
                    assert forall|i: int| 0 <= i < pieces.len() implies is_blank(
                        #[trigger] pieces[i],
                    ) by {
                        if i < rest.len() {
                            assert(rest[i] == pieces[i]);
                        }
                    }
                },
            }
        }
    }
}

/// The line that counts is the last one that is not blank, unless it has more than
/// 65536 bytes.
pub proof fn law_last_line_counts(read: Seq<char>)
    ensures
        ({
            let lines = split_on(read, '\n');
            &&& forall|i: int|
                #![trigger lines[i]]
                0 <= i < lines.len() && !is_blank(lines[i]) && (forall|j: int|
                    i < j < lines.len() ==> is_blank(#[trigger] lines[j])) ==> last_row(read)
                    == if utf8_len(lines[i]) <= 65536 {
                    Some(lines[i])
                } else {
                    None
                }
            &&& (forall|i: int| 0 <= i < lines.len() ==> is_blank(#[trigger] lines[i]))
                ==> last_row(read) is None
        }),
{
    let lines = split_on(read, '\n');
    lemma_last_written(lines);
    if let Some(line) = last_written(lines) {
        let at = choose|i: int|
            #![trigger lines[i]]
            0 <= i < lines.len() && lines[i] == line && !is_blank(line) && forall|j: int|
                i < j < lines.len() ==> is_blank(#[trigger] lines[j]);
        assert forall|i: int|
            #![trigger lines[i]]
            0 <= i < lines.len() && !is_blank(lines[i]) && (forall|j: int|
                i < j < lines.len() ==> is_blank(#[trigger] lines[j])) implies i == at by {
            if i < at {
                assert(is_blank(lines[at]));
            }
            if at < i {
                assert(is_blank(lines[i]));
            }
        }
    }
}

/// What was read is the text that its bytes encode. Only where reading started inside
/// the file, and only bytes that continue a character, up to three, are passed over.
pub proof fn law_only_a_cut_character_is_passed_over(start: nat, read: Seq<u8>)
    ensures
        ({
            let skipped = cut_bytes(start, read, 0);
            &&& skipped <= 3 && skipped <= read.len()
            &&& forall|i: int| 0 <= i < skipped ==> 0x80 <= #[trigger] read[i] < 0xc0
            &&& start == 0 ==> skipped == 0
            &&& start > 0 && skipped < 3 && skipped < read.len() ==> !(0x80 <= read[skipped as int]
                < 0xc0)
            &&& text_read(start, read) is Some <==> valid_utf8(read.skip(skipped as int))
            &&& text_read(start, read) is Some ==> text_read(start, read) == Some(
                decode_utf8(read.skip(skipped as int)),
            )
            &&& start == 0 && valid_utf8(read) ==> text_read(start, read) == Some(decode_utf8(read))
        }),
{
    lemma_cut(start, read, 0);
    assert(read.skip(0) =~= read);
}

/// From a place on, what is passed over are bytes that continue a character.
proof fn lemma_cut(start: nat, read: Seq<u8>, at: nat)
    requires
        at <= 3,
        at <= read.len(),
    ensures
        at <= cut_bytes(start, read, at) <= 3,
        cut_bytes(start, read, at) <= read.len(),
        forall|i: int| at <= i < cut_bytes(start, read, at) ==> 0x80 <= #[trigger] read[i] < 0xc0,
        start == 0 ==> cut_bytes(start, read, at) == at,
        ({
            let end = cut_bytes(start, read, at);
            start > 0 && end < 3 && end < read.len() ==> !(0x80 <= read[end as int] < 0xc0)
        }),
    decreases 3 - at,
{
    if start != 0 && at < 3 && at < read.len() && 0x80 <= read[at as int] < 0xc0 {
        lemma_cut(start, read, at + 1);
    }
}

/// An announcement is taken up only where both the id and the path are there, and then
/// with these.
pub proof fn law_announcements_need_both(id: Option<Seq<char>>, path: Option<Seq<char>>)
    ensures
        announcement(id, path) is Some <==> id is Some && path is Some,
        announcement(id, path) is Some ==> announcement(id, path) == Some((id->0, path->0)),
        launch(id, path) is Some <==> id is Some && path is Some,
        launch(id, path) is Some ==> launch(id, path) == Some((id->0, path->0)),
{
}

/// What a tool use is shown as names the tool and as much as 30 characters of what it
/// was first given.
pub proof fn law_activity_names_the_tool(block: JsonTree, name: Seq<char>)
    requires
        block.text_field("name"@) == Some(name),
    ensures
        ({
            let argument = match block.field("input"@) {
                Some(input) => crate::background_agent::first_field_text(input),
                None => None,
            };
            &&& argument is None ==> tool_label(block) == name
            &&& argument matches Some(text) ==> {
                &&& text.len() == 0 ==> tool_label(block) == name
                &&& 0 < text.len() <= 30 ==> tool_label(block) == name + ": "@ + text
                &&& text.len() > 30 ==> tool_label(block) == name + ": "@ + text.take(30) + "…"@
            }
        }),
{
    reveal_strlit("");
}

/// The argument that says most of a tool use is that of its first field, if it is a
/// text.
pub proof fn law_first_field_tells(
    fields: Seq<(Seq<char>, JsonTree)>,
    key: Seq<char>,
    value: JsonTree,
    rest: Seq<(Seq<char>, JsonTree)>,
)
    ensures
        fields.len() == 0 ==> crate::background_agent::first_field_text(JsonTree::Object(fields)) is None,
        ({
            let told = crate::background_agent::first_field_text(
                JsonTree::Object(seq![(key, value)] + rest),
            );
            &&& value matches JsonTree::Text(text) ==> told == Some(text)
            &&& !(value is Text) ==> told is None
        }),
        !(value is Object) ==> crate::background_agent::first_field_text(value) is None,
{
}

/// The code that a shell exited with is known only if the shell completed, or nothing
/// is said of how it ended, and a number stands there that is a code.
pub proof fn law_exit_code_is_that_of_a_completed_shell(
    status: Option<Seq<char>>,
    digits: Option<Seq<char>>,
)
    ensures
        status matches Some(name) ==> name != "completed"@ ==> reported_code(status, digits) is None,
        digits is None ==> reported_code(status, digits) is None,
        (status is None || status->0 == "completed"@) && digits is Some ==> reported_code(
            status,
            digits,
        ) == parsed_signed(digits->0, -0x8000_0000, 0x7fff_ffff),
{
}

/// A shell that ended is told with its code where that is known.
pub proof fn law_ended_shells_are_told(state: ShellRuntimeState, code: int)
    ensures
        is_exit(state, None) <==> state == ShellRuntimeState::Exited(None),
        is_exit(state, Some(code)) ==> state is Exited && state->Exited_0 is Some
            && state->Exited_0->0 == code,
        state is Running <==> state_text(state) == "running"@,
        state is Killed <==> state_text(state) == "killed"@,
        state == ShellRuntimeState::Exited(None) ==> state_text(state) == "exited"@,
        state matches ShellRuntimeState::Exited(Some(n)) ==> state_text(state) == "exited:"@
            + signed_decimal(n as int),
{
    reveal_strlit("running");
    reveal_strlit("killed");
    reveal_strlit("exited");
    reveal_strlit("exited:");
    assert("running"@[0] == 'r');
    assert("killed"@[0] == 'k');
    assert("exited"@[0] == 'e');
    assert("exited:"@[0] == 'e');
    if let ShellRuntimeState::Exited(Some(n)) = state {
        assert(state_text(state)[0] == 'e');
    }
}

/// A request to kill names the shell under `shell_id` or, where nothing stands there,
/// under `bash_id`. It names none where neither holds a text that is not empty.
pub proof fn law_kill_requests_name_a_shell(input: JsonTree)
    ensures
        ({
            let first = input.text_field("shell_id"@);
            let second = input.text_field("bash_id"@);
            &&& first is Some && first->0.len() > 0 ==> kill_target(input) == first
            &&& (first is None || first->0.len() == 0) && second is Some && second->0.len() > 0
                ==> kill_target(input) == second
            &&& (first is None || first->0.len() == 0) && (second is None || second->0.len() == 0)
                ==> kill_target(input) is None
        }),
{
}

/// A shell is told with its id, command and state, and with when its output was last
/// seen; its output is told only to those who ask for it.
pub proof fn law_shells_are_told(shell: BackgroundShell, with_output: bool)
    ensures
        ({
            let told = shell_dto(shell, with_output);
            &&& told.id == shell.id.deep_view()
            &&& told.command == shell.command@
            &&& told.state == state_text(shell.state)
            &&& shell.latest is None ==> told.mtime_ms is None && told.output_tail is None
            &&& !with_output ==> told.output_tail is None
            &&& shell.latest matches Some(seen) ==> {
                &&& with_output ==> told.output_tail == Some(seen.output_tail@)
                &&& seen.mtime.seconds() < 0 ==> told.mtime_ms is None
                &&& seen.mtime.seconds() >= 0 ==> told.mtime_ms == Some(seen.mtime.millis() as i64)
            }
        }),
{
}

/// A managed agent is told with its id, what it is doing, when it was last seen, and why
/// it stopped if it did.
pub proof fn law_agents_are_told(agent: BackgroundAgent)
    ensures
        ({
            let told = agent_dto(agent);
            &&& told.id == agent.id.deep_view()
            &&& agent.latest is None ==> told.label == "Generating…"@ && told.mtime_ms is None
                && told.stop_reason is None
            &&& agent.latest matches Some(seen) ==> {
                &&& told.label == seen.activity_label@
                &&& told.stop_reason is Some <==> seen.stop_reason is Some
                &&& seen.stop_reason matches Some(reason) ==> told.stop_reason == Some(reason@)
                &&& seen.mtime.seconds() < 0 ==> told.mtime_ms is None
                &&& seen.mtime.seconds() >= 0 ==> told.mtime_ms == Some(seen.mtime.millis() as i64)
            }
        }),
{
}

/// A shell that is looked up is one with the id.
proof fn lemma_shell(shells: Seq<BackgroundShell>, id: Seq<char>)
    ensures
        match shell_of(shells, id) {
            Some(shell) => shells.contains(shell) && shell.id.deep_view() == id,
            None => forall|i: int|
                0 <= i < shells.len() ==> (#[trigger] shells[i]).id.deep_view() != id,
        },
    decreases shells.len(),
{
    if shells.len() > 0 {
        let rest = shells.drop_first();
        lemma_shell(rest, id);
        if shells[0].id.deep_view() == id {
            assert(shells.contains(shells[0]));
        } else {
            match shell_of(rest, id) {
                Some(shell) => {
                    let k = choose|k: int| 0 <= k < rest.len() && rest[k] == shell;
                    assert(shells[k + 1] == shell);
                },
                None => {
                    assert forall|i: int| 0 <= i < shells.len() implies (
                    #[trigger] shells[i]).id.deep_view() != id by {
                        if i > 0 {
                            assert(rest[i - 1] == shells[i]);
                        }
                    }
                },
            }
        }
    }
}

/// An agent that is looked up is one with the id.
proof fn lemma_agent(agents: Seq<BackgroundAgent>, id: Seq<char>)
    ensures
        match agent_of(agents, id) {
            Some(agent) => agents.contains(agent) && agent.id.deep_view() == id,
            None => forall|i: int|
                0 <= i < agents.len() ==> (#[trigger] agents[i]).id.deep_view() != id,
        },
    decreases agents.len(),
{
    if agents.len() > 0 {
        let rest = agents.drop_first();
        lemma_agent(rest, id);
        if agents[0].id.deep_view() == id {
            assert(agents.contains(agents[0]));
        } else {
            match agent_of(rest, id) {
                Some(agent) => {
                    let k = choose|k: int| 0 <= k < rest.len() && rest[k] == agent;
                    assert(agents[k + 1] == agent);
                },
                None => {
                    assert forall|i: int| 0 <= i < agents.len() implies (
                    #[trigger] agents[i]).id.deep_view() != id by {
                        if i > 0 {
                            assert(rest[i - 1] == agents[i]);
                        }
                    }
                },
            }
        }
    }
}

/// The shells of a session are told in the order in which they were started, one for
/// each that is there under its id.
pub proof fn law_shells_are_told_in_order(
    order: Seq<BackgroundShellId>,
    id: BackgroundShellId,
    shells: Seq<BackgroundShell>,
    with_output: bool,
)
    ensures
        ({
            let before = shells_of(order, shells, with_output);
            let after = shells_of(order.push(id), shells, with_output);
            &&& shells_of(Seq::empty(), shells, with_output).len() == 0
            &&& (forall|i: int|
                0 <= i < shells.len() ==> (#[trigger] shells[i]).id.deep_view() != id.deep_view())
                ==> after == before
            &&& (exists|i: int|
                0 <= i < shells.len() && (#[trigger] shells[i]).id.deep_view() == id.deep_view())
                ==> after.len() == before.len() + 1 && after.drop_last() == before
                && after.last().id == id.deep_view()
        }),
{
    assert(order.push(id).drop_last() =~= order);
    lemma_shell(shells, id.deep_view());
    let before = shells_of(order, shells, with_output);
    let after = shells_of(order.push(id), shells, with_output);
    if after != before {
        assert(after.drop_last() =~= before);
    }
}

/// The managed agents of a session are told in the order in which they were announced,
/// one for each that is there under its id.
pub proof fn law_agents_are_told_in_order(
    order: Seq<BackgroundAgentId>,
    id: BackgroundAgentId,
    agents: Seq<BackgroundAgent>,
)
    ensures
        ({
            let before = agents_of(order, agents);
            let after = agents_of(order.push(id), agents);
            &&& agents_of(Seq::empty(), agents).len() == 0
            &&& (forall|i: int|
                0 <= i < agents.len() ==> (#[trigger] agents[i]).id.deep_view() != id.deep_view())
                ==> after == before
            &&& (exists|i: int|
                0 <= i < agents.len() && (#[trigger] agents[i]).id.deep_view() == id.deep_view())
                ==> after.len() == before.len() + 1 && after.drop_last() == before
                && after.last().id == id.deep_view()
        }),
{
    assert(order.push(id).drop_last() =~= order);
    lemma_agent(agents, id.deep_view());
    let before = agents_of(order, agents);
    let after = agents_of(order.push(id), agents);
    if after != before {
        assert(after.drop_last() =~= before);
    }
}

} // verus!
