//! What becomes of the transcript of a managed agent.
use crate::background_agent::{
    all_results, assistant_flow, block_results, message_blocks, result_for, row_entries, row_label,
    row_stop_reason, rows_entries, text_blocks, tool_entry, transcript_rows, type_of, user_entries,
    AssistantFlow, ToolResultInfoView,
};
use crate::json::{parsed_json, JsonTree};
use crate::text::{joined, trimmed};
use crate::thread::{
    AgentThreadEntryView, AssistantMessageChunkView, ContentBlockView, ToolCallContentView,
};
use vstd::prelude::*;

verus! {

/// What is told in a transcript, piece by piece: each character that the assistant
/// says, each thought, each tool use and each message of the user.
#[verifier::ext_equal]
pub enum Told {
    Said(Seq<char>),
    Thought(Seq<char>),
    ToolUse(Seq<char>),
    User(Seq<char>),
}

/// The characters of a text, one by one.
pub open spec fn spelled(text: Seq<char>) -> Seq<Told>
    decreases text.len(),
{
    if text.len() == 0 {
        Seq::empty()
    } else {
        spelled(text.drop_last()).push(Told::Said(seq![text.last()]))
    }
}

/// Texts that are put together are spelled one after the other.
proof fn lemma_spelled(a: Seq<char>, b: Seq<char>)
    ensures
        spelled(a).len() == a.len(),
        spelled(a + b) == spelled(a) + spelled(b),
        spelled(Seq::empty()) == Seq::<Told>::empty(),
    decreases a.len() + b.len(),
{
    if b.len() == 0 {
        assert(a + b =~= a);
        assert(spelled(a) + spelled(b) =~= spelled(a));
        if a.len() > 0 {
            lemma_spelled(a.drop_last(), b);
        }
    } else {
        assert((a + b).drop_last() =~= a + b.drop_last());
        lemma_spelled(a, b.drop_last());
        assert(spelled(a) + spelled(b) =~= (spelled(a) + spelled(b.drop_last())).push(
            Told::Said(seq![b.last()]),
        ));
    }
}

/// What a chunk of an assistant message tells.
pub open spec fn told_by_chunk(chunk: AssistantMessageChunkView) -> Seq<Told> {
    match chunk {
        AssistantMessageChunkView::Message { block } => spelled(block.source()),
        AssistantMessageChunkView::Thought { block } => seq![Told::Thought(block.source())],
    }
}

/// What the chunks of an assistant message tell.
pub open spec fn told_by_chunks(chunks: Seq<AssistantMessageChunkView>) -> Seq<Told>
    decreases chunks.len(),
{
    if chunks.len() == 0 {
        Seq::empty()
    } else {
        told_by_chunks(chunks.drop_last()) + told_by_chunk(chunks.last())
    }
}

/// What an entry of a conversation tells.
pub open spec fn told_by_entry(entry: AgentThreadEntryView) -> Seq<Told> {
    match entry {
        AgentThreadEntryView::UserMessage(message) => seq![Told::User(message.content.source())],
        AgentThreadEntryView::AssistantMessage(message) => told_by_chunks(message.chunks),
        AgentThreadEntryView::ToolCall(call) => seq![Told::ToolUse(call.id)],
        AgentThreadEntryView::CompletedPlan(_) => Seq::empty(),
    }
}

/// What the entries of a conversation tell, in their order.
pub open spec fn told_by(entries: Seq<AgentThreadEntryView>) -> Seq<Told>
    decreases entries.len(),
{
    if entries.len() == 0 {
        Seq::empty()
    } else {
        told_by(entries.drop_last()) + told_by_entry(entries.last())
    }
}

/// What a block of an assistant message tells.
pub open spec fn told_in_block(block: JsonTree) -> Seq<Told> {
    if type_of(block) == "text"@ && block.text_field("text"@) is Some {
        spelled(block.text_field("text"@)->0)
    } else if type_of(block) == "thinking"@ && block.text_field("thinking"@) is Some {
        seq![Told::Thought(block.text_field("thinking"@)->0)]
    } else if type_of(block) == "tool_use"@ && block.text_field("id"@) is Some {
        seq![Told::ToolUse("background:"@ + block.text_field("id"@)->0)]
    } else {
        Seq::empty()
    }
}

/// What the blocks of an assistant message tell, in their order.
pub open spec fn told_in(blocks: Seq<JsonTree>) -> Seq<Told>
    decreases blocks.len(),
{
    if blocks.len() == 0 {
        Seq::empty()
    } else {
        told_in(blocks.drop_last()) + told_in_block(blocks.last())
    }
}

/// What the blocks of a user message tell: those that are texts and not empty.
pub open spec fn told_by_user(blocks: Seq<JsonTree>) -> Seq<Told>
    decreases blocks.len(),
{
    if blocks.len() == 0 {
        Seq::empty()
    } else {
        let before = told_by_user(blocks.drop_last());
        let text = blocks.last().text_field("text"@);
        if type_of(blocks.last()) == "text"@ && text is Some && text->0.len() > 0 {
            before.push(Told::User(text->0))
        } else {
            before
        }
    }
}

/// What the rows of a transcript tell, in their order.
pub open spec fn told_in_rows(rows: Seq<JsonTree>) -> Seq<Told>
    decreases rows.len(),
{
    if rows.len() == 0 {
        Seq::empty()
    } else {
        let row = rows[0];
        let here = match message_blocks(row) {
            None => Seq::empty(),
            Some(blocks) => if type_of(row) == "assistant"@ {
                told_in(blocks)
            } else if type_of(row) == "user"@ {
                told_by_user(blocks)
            } else {
                Seq::empty()
            },
        };
        here + told_in_rows(rows.drop_first())
    }
}

/// Entries one after the other tell what they tell one after the other.
proof fn lemma_told_by_sum(a: Seq<AgentThreadEntryView>, b: Seq<AgentThreadEntryView>)
    ensures
        told_by(a + b) == told_by(a) + told_by(b),
    decreases b.len(),
{
    if b.len() == 0 {
        assert(a + b =~= a);
        assert(told_by(a) + told_by(b) =~= told_by(a));
    } else {
        assert((a + b).drop_last() =~= a + b.drop_last());
        lemma_told_by_sum(a, b.drop_last());
        assert((told_by(a) + told_by(b.drop_last())) + told_by_entry(b.last()) =~= told_by(a) + (
        told_by(b.drop_last()) + told_by_entry(b.last())));
    }
}

/// One more entry tells its own part behind the others.
proof fn lemma_told_by_push(entries: Seq<AgentThreadEntryView>, entry: AgentThreadEntryView)
    ensures
        told_by(entries.push(entry)) == told_by(entries) + told_by_entry(entry),
{
    assert(entries.push(entry).drop_last() =~= entries);
}

/// A single chunk tells all that its message tells.
proof fn lemma_single_chunk(chunk: AssistantMessageChunkView)
    ensures
        told_by_chunks(seq![chunk]) == told_by_chunk(chunk),
{
    let chunks = seq![chunk];
    assert(chunks.drop_last() =~= Seq::<AssistantMessageChunkView>::empty());
    assert(told_by_chunks(chunks.drop_last()) =~= Seq::<Told>::empty());
    assert(chunks.last() == chunk);
    assert(Seq::<Told>::empty() + told_by_chunk(chunk) =~= told_by_chunk(chunk));
}

/// The names of the kinds of blocks differ.
proof fn lemma_kinds()
    ensures
        "text"@ != "thinking"@,
        "text"@ != "tool_use"@,
        "thinking"@ != "tool_use"@,
        "user"@ != "assistant"@,
{
    reveal_strlit("text");
    reveal_strlit("thinking");
    reveal_strlit("tool_use");
    reveal_strlit("user");
    reveal_strlit("assistant");
    assert("thinking"@[1] != "tool_use"@[1]);
    assert("user"@.len() != "assistant"@.len());
}

/// What is flushed tells what was told and what was pending.
proof fn lemma_flushed(flow: AssistantFlow)
    ensures
        told_by(flow.flushed()) == told_by(flow.entries) + spelled(flow.pending),
{
    lemma_spelled(flow.pending, Seq::empty());
    if flow.pending.len() == 0 {
        assert(told_by(flow.entries) + spelled(flow.pending) =~= told_by(flow.entries));
    } else {
        let chunk = AssistantMessageChunkView::Message {
            block: ContentBlockView::Markdown { markdown: flow.pending },
        };
        lemma_single_chunk(chunk);
        lemma_told_by_push(flow.entries, flow.flushed().last());
        assert(flow.flushed() =~= flow.entries.push(flow.flushed().last()));
    }
}

/// What the blocks tell has been told or is pending.
proof fn lemma_flow(blocks: Seq<JsonTree>, results: Seq<(Seq<char>, ToolResultInfoView)>)
    ensures
        ({
            let flow = assistant_flow(blocks, results);
            told_by(flow.entries) + spelled(flow.pending) == told_in(blocks)
        }),
    decreases blocks.len(),
{
    lemma_kinds();
    let flow = assistant_flow(blocks, results);
    lemma_spelled(flow.pending, Seq::empty());
    if blocks.len() == 0 {
        assert(told_by(flow.entries) =~= Seq::<Told>::empty());
        assert(told_by(flow.entries) + spelled(flow.pending) =~= told_in(blocks));
    } else {
        let before = assistant_flow(blocks.drop_last(), results);
        let block = blocks.last();
        lemma_flow(blocks.drop_last(), results);
        lemma_flushed(before);
        let done = told_by(before.entries) + spelled(before.pending);
        assert(done == told_in(blocks.drop_last()));
        assert(done + Seq::<Told>::empty() =~= done);
        if type_of(block) == "text"@ {
            if let Some(text) = block.text_field("text"@) {
                lemma_spelled(before.pending, text);
                assert(told_by(flow.entries) + spelled(flow.pending) =~= done + spelled(text));
            }
        } else if type_of(block) == "thinking"@ {
            if let Some(thought) = block.text_field("thinking"@) {
                let chunk = AssistantMessageChunkView::Thought {
                    block: ContentBlockView::Markdown { markdown: thought },
                };
                lemma_single_chunk(chunk);
                lemma_told_by_push(before.flushed(), flow.entries.last());
                assert(flow.entries =~= before.flushed().push(flow.entries.last()));
                assert(told_by(flow.entries) + spelled(flow.pending) =~= told_by(flow.entries));
            }
        } else if type_of(block) == "tool_use"@ {
            assert(told_by(flow.entries) + spelled(flow.pending) =~= told_by(flow.entries));
            if let Some(id) = block.text_field("id"@) {
                lemma_told_by_push(before.flushed(), tool_entry(block, id, results));
            }
        }
    }
}

/// Nothing that the assistant says, thinks or does is lost or comes in another
/// order: its entries tell, character by character, what its blocks tell.
pub proof fn law_assistant_loses_nothing(
    blocks: Seq<JsonTree>,
    results: Seq<(Seq<char>, ToolResultInfoView)>,
)
    ensures
        told_by(assistant_flow(blocks, results).flushed()) == told_in(blocks),
{
    lemma_flow(blocks, results);
    lemma_flushed(assistant_flow(blocks, results));
}

/// Whether an entry is something that the assistant says.
pub open spec fn is_said(entry: AgentThreadEntryView) -> bool {
    entry matches AgentThreadEntryView::AssistantMessage(message) && message.chunks.len() == 1
        && message.chunks[0] is Message
}

/// Whether an entry is a text that is not empty, a thought or a tool call.
pub open spec fn is_single(entry: AgentThreadEntryView) -> bool {
    match entry {
        AgentThreadEntryView::AssistantMessage(message) => message.chunks.len() == 1
            && message.subagent_id is None && (message.chunks[0] matches
            AssistantMessageChunkView::Message { block } ==> block.source().len() > 0),
        AgentThreadEntryView::ToolCall(_) => true,
        _ => false,
    }
}

/// Whether no two entries next to each other are both something that the assistant
/// says.
pub open spec fn texts_stand_apart(entries: Seq<AgentThreadEntryView>) -> bool {
    forall|i: int, j: int|
        0 <= i && j == i + 1 && j < entries.len() ==> !(is_said(#[trigger] entries[i]) && is_said(
            #[trigger] entries[j],
        ))
}

/// Every entry of an assistant message is a single text that is not empty, a single
/// thought or a tool call, and texts that follow one another are one entry.
pub proof fn law_assistant_texts_run_together(
    blocks: Seq<JsonTree>,
    results: Seq<(Seq<char>, ToolResultInfoView)>,
)
    requires
        forall|i: int|
            0 <= i < blocks.len() && type_of(#[trigger] blocks[i]) == "tool_use"@
                ==> blocks[i].text_field("id"@) is Some,
    ensures
        ({
            let entries = assistant_flow(blocks, results).flushed();
            &&& forall|i: int| 0 <= i < entries.len() ==> is_single(#[trigger] entries[i])
            &&& texts_stand_apart(entries)
        }),
{
    lemma_settled(blocks, results);
}

/// What has been told so far does not end with something that the assistant says.
proof fn lemma_settled(blocks: Seq<JsonTree>, results: Seq<(Seq<char>, ToolResultInfoView)>)
    requires
        forall|i: int|
            0 <= i < blocks.len() && type_of(#[trigger] blocks[i]) == "tool_use"@
                ==> blocks[i].text_field("id"@) is Some,
    ensures
        ({
            let entries = assistant_flow(blocks, results).entries;
            &&& forall|i: int| 0 <= i < entries.len() ==> is_single(#[trigger] entries[i])
            &&& texts_stand_apart(entries)
            &&& entries.len() > 0 ==> !is_said(entries.last())
        }),
    decreases blocks.len(),
{
    if blocks.len() > 0 {
        let rest = blocks.drop_last();
        assert forall|i: int|
            0 <= i < rest.len() && type_of(#[trigger] rest[i]) == "tool_use"@ implies rest[i].text_field(
            "id"@,
        ) is Some by {
            assert(rest[i] == blocks[i]);
        }
        lemma_settled(rest, results);
        assert(blocks[blocks.len() - 1] == blocks.last());
    }
}

/// The entries of a user message are its texts that are not empty, in their order.
proof fn lemma_user(blocks: Seq<JsonTree>)
    ensures
        told_by(user_entries(blocks)) == told_by_user(blocks),
    decreases blocks.len(),
{
    if blocks.len() > 0 {
        let before = user_entries(blocks.drop_last());
        lemma_user(blocks.drop_last());
        let all = user_entries(blocks);
        if all != before {
            lemma_told_by_push(before, all.last());
            assert(all =~= before.push(all.last()));
            assert(told_by(before) + told_by_entry(all.last()) =~= told_by(before).push(
                told_by_entry(all.last())[0],
            ));
        }
    }
}

/// Nothing in a transcript is lost or comes in another order: what its entries tell
/// is what its rows tell, row by row and block by block.
pub proof fn law_transcript_loses_nothing(rows: Seq<JsonTree>)
    ensures
        told_by(rows_entries(rows)) == told_in_rows(rows),
    decreases rows.len(),
{
    lemma_kinds();
    if rows.len() > 0 {
        let rest = rows.drop_first();
        let results = all_results(rest);
        law_transcript_loses_nothing(rest);
        lemma_told_by_sum(row_entries(rows[0], results), rows_entries(rest));
        if let Some(blocks) = message_blocks(rows[0]) {
            law_assistant_loses_nothing(blocks, results);
            lemma_user(blocks);
        }
    }
}

/// The lines of a transcript are read one by one: lines that are put together give
/// the rows of both, a line that is no JSON gives none, and any other line its row.
pub proof fn law_lines_are_read_one_by_one(a: Seq<Seq<char>>, line: Seq<char>)
    ensures
        transcript_rows(a.push(line)) == transcript_rows(a) + (if trimmed(line).len() > 0
            && parsed_json(trimmed(line)) is Some {
            seq![parsed_json(trimmed(line))->0]
        } else {
            Seq::empty()
        }),
        transcript_rows(Seq::empty()) == Seq::<JsonTree>::empty(),
{
    assert(a.push(line).drop_last() =~= a);
    let before = transcript_rows(a);
    assert(before + Seq::<JsonTree>::empty() =~= before);
    if trimmed(line).len() > 0 && parsed_json(trimmed(line)) is Some {
        let row = parsed_json(trimmed(line))->0;
        assert(before + seq![row] =~= before.push(row));
    }
}

/// The result that answers a tool use is the last one with its id.
proof fn lemma_result(results: Seq<(Seq<char>, ToolResultInfoView)>, id: Seq<char>)
    ensures
        match result_for(results, id) {
            None => forall|i: int| 0 <= i < results.len() ==> (#[trigger] results[i]).0 != id,
            Some(info) => exists|i: int|
                #![trigger results[i]]
                0 <= i < results.len() && results[i] == (id, info) && forall|j: int|
                    i < j < results.len() ==> (#[trigger] results[j]).0 != id,
        },
    decreases results.len(),
{
    if results.len() > 0 {
        let rest = results.drop_last();
        lemma_result(rest, id);
        if results.last().0 == id {
            assert(results[results.len() - 1] == (id, results.last().1));
        } else {
            match result_for(rest, id) {
                Some(info) => {
                    let i = choose|i: int|
                        #![trigger rest[i]]
                        0 <= i < rest.len() && rest[i] == (id, info) && forall|j: int|
                            i < j < rest.len() ==> (#[trigger] rest[j]).0 != id;
                    assert(results[i] == (id, info));
                    assert forall|j: int| i < j < results.len() implies (#[trigger] results[j]).0
                        != id by {
                        if j < rest.len() {
                            assert(rest[j] == results[j]);
                        }
                    }
                },
                None => {
                    assert forall|i: int| 0 <= i < results.len() implies (#[trigger] results[i]).0
                        != id by {
                        if i < rest.len() {
                            assert(rest[i] == results[i]);
                        }
                    }
                },
            }
        }
    }
}

/// A tool use that no result answers is still pending and shows nothing; any other
/// has failed or completed as the last result with its id says, and shows the text of
/// that result. It goes by the name that it was called by.
pub proof fn law_tool_use_has_its_outcome(
    block: JsonTree,
    id: Seq<char>,
    results: Seq<(Seq<char>, ToolResultInfoView)>,
)
    ensures
        ({
            let call = tool_entry(block, id, results)->ToolCall_0;
            let name = block.text_field("name"@);
            &&& tool_entry(block, id, results) is ToolCall
            &&& call.status is Pending <==> forall|i: int|
                0 <= i < results.len() ==> (#[trigger] results[i]).0 != id
            &&& call.status is Pending ==> call.content.len() == 0
            &&& call.status is Pending || call.status is Failed || call.status is Completed
            &&& forall|i: int|
                0 <= i < results.len() && (#[trigger] results[i]).0 == id && (forall|j: int|
                    i < j < results.len() ==> (#[trigger] results[j]).0 != id) ==> {
                    let text = results[i].1.content_text;
                    &&& call.status is Failed <==> results[i].1.is_error
                    &&& call.content.len() == if text.len() > 0 {
                        1int
                    } else {
                        0
                    }
                    &&& text.len() > 0 ==> call.content[0] == ToolCallContentView::ContentBlock(
                        ContentBlockView::Markdown { markdown: text },
                    )
                }
            &&& call.label == if name is Some {
                name->0
            } else {
                "tool"@
            }
            &&& call.tool_name == Some(call.label)
            &&& call.raw_input == block.field("input"@)
            &&& call.raw_output is None
            &&& call.locations.len() == 0
        }),
{
    lemma_result(results, id);
    match result_for(results, id) {
        Some(info) => {
            let at = choose|i: int|
                #![trigger results[i]]
                0 <= i < results.len() && results[i] == (id, info) && forall|j: int|
                    i < j < results.len() ==> (#[trigger] results[j]).0 != id;
            assert forall|i: int|
                0 <= i < results.len() && (#[trigger] results[i]).0 == id && (forall|j: int|
                    i < j < results.len() ==> (#[trigger] results[j]).0 != id) implies i == at by {
                if i < at {
                    assert(results[at].0 != id);
                }
                if at < i {
                    assert(results[i].0 != id);
                }
            }
        },
        None => {},
    }
}

/// The results of an answer by the user are its blocks of that kind that name a tool
/// use, in their order; whether each reports a failure is what its block says.
pub proof fn law_results_are_read_block_by_block(a: Seq<JsonTree>, block: JsonTree)
    ensures
        ({
            let more = block_results(a.push(block));
            let id = block.text_field("tool_use_id"@);
            if type_of(block) == "tool_result"@ && id is Some {
                &&& more.len() == block_results(a).len() + 1
                &&& more.drop_last() == block_results(a)
                &&& more.last().0 == id->0
                &&& more.last().1.is_error <==> block.field("is_error"@) == Some(
                    JsonTree::Bool(true),
                )
                &&& block.array_field("content"@) is None ==> more.last().1.content_text.len() == 0
                &&& block.array_field("content"@) matches Some(content)
                    ==> more.last().1.content_text == text_blocks(content)
            } else {
                more == block_results(a)
            }
        }),
        block_results(Seq::empty()) == Seq::<(Seq<char>, ToolResultInfoView)>::empty(),
{
    assert(a.push(block).drop_last() =~= a);
    let before = block_results(a);
    let more = block_results(a.push(block));
    if type_of(block) == "tool_result"@ && block.text_field("tool_use_id"@) is Some {
        assert(more.drop_last() =~= before);
    }
}

/// Only the rows of the user carry results, and each carries those of its blocks.
pub proof fn law_results_are_those_of_the_user(a: Seq<JsonTree>, row: JsonTree)
    ensures
        all_results(a.push(row)) == all_results(a) + (if row.text_field("type"@) == Some("user"@)
            && message_blocks(row) is Some {
            block_results(message_blocks(row)->0)
        } else {
            Seq::empty()
        }),
{
    assert(a.push(row).drop_last() =~= a);
}

/// The texts of the blocks that are texts.
pub open spec fn texts_of(blocks: Seq<JsonTree>) -> Seq<Seq<char>>
    decreases blocks.len(),
{
    if blocks.len() == 0 {
        Seq::empty()
    } else {
        let before = texts_of(blocks.drop_last());
        let text = blocks.last().text_field("text"@);
        if type_of(blocks.last()) == "text"@ && text is Some {
            before.push(text->0)
        } else {
            before
        }
    }
}

/// The text of a result is its texts, one below the other, where none is empty.
pub proof fn law_result_text_is_joined(blocks: Seq<JsonTree>)
    requires
        forall|i: int|
            0 <= i < texts_of(blocks).len() ==> (#[trigger] texts_of(blocks)[i]).len() > 0,
    ensures
        text_blocks(blocks) == joined(texts_of(blocks), "\n"@),
        text_blocks(blocks).len() == 0 <==> texts_of(blocks).len() == 0,
    decreases blocks.len(),
{
    if blocks.len() > 0 {
        let rest = blocks.drop_last();
        let before = texts_of(rest);
        let all = texts_of(blocks);
        assert forall|i: int| 0 <= i < before.len() implies (#[trigger] before[i]).len() > 0 by {
            assert(all[i] == before[i]);
        }
        law_result_text_is_joined(rest);
        if all != before {
            assert(all.drop_last() =~= before);
            assert(all[all.len() - 1].len() > 0);
        }
    }
}

/// What a managed agent is said to do depends on the kind of its last row: it starts
/// with the row that opens the transcript, and it stops only with a row of its own
/// that gives a reason.
pub proof fn law_snapshot_follows_the_row(tree: JsonTree)
    ensures
        row_label(None) == "Generating…"@,
        row_stop_reason(None) is None,
        tree.text_field("type"@) == Some("system"@) && tree.text_field("subtype"@) == Some("init"@)
            ==> row_label(Some(tree)) == "Starting…"@,
        tree.text_field("type"@) != Some("assistant"@) ==> row_stop_reason(Some(tree)) is None,
        row_stop_reason(Some(tree)) matches Some(reason) ==> reason.len() > 0 && tree.field(
            "message"@,
        ) is Some && tree.field("message"@)->0.text_field("stop_reason"@) == Some(reason),
        tree.text_field("type"@) == Some("assistant"@) && tree.field("message"@) is Some
            && tree.field("message"@)->0.text_field("stop_reason"@) is Some && tree.field(
            "message"@,
        )->0.text_field("stop_reason"@)->0.len() > 0 ==> row_stop_reason(Some(tree)) == tree.field(
            "message"@,
        )->0.text_field("stop_reason"@),
{
    reveal_strlit("system");
    reveal_strlit("assistant");
    reveal_strlit("");
    assert("system"@.len() != "assistant"@.len());
    assert("assistant"@.len() != ""@.len());
}

} // verus!
