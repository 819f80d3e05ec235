//! What comes back of a task that an agent does on the side.
use crate::mcp::entries::send_ids;
use crate::message_generator::{
    assistant_text, cleaned, ends_turn, has_preamble, said_in, without_fence, without_preamble,
};
use crate::model::{SessionState, ThreadEntryView};
use crate::text::{
    after_first, ascii_lowered, before_last, find_from, find_last, has_prefix, is_space,
    lemma_find_from, lemma_trimmed_of_tight, occurs_at, trimmed_end, trimmed_start,
};
use crate::thread::{
    AgentThreadEntryView, AssistantMessageChunkView, ContentBlockView, PromptBlockView,
};
use vstd::prelude::*;

verus! {

/// What an agent says is added on a line of its own, after all that was said before.
/// Nothing is added by a block without text or by a thought.
pub proof fn law_said_is_added_line_by_line(
    out: Seq<char>,
    chunks: Seq<AssistantMessageChunkView>,
    block: ContentBlockView,
)
    ensures
        said_in(out, Seq::empty()) == out,
        said_in(out, chunks.push(AssistantMessageChunkView::Thought { block })) == said_in(
            out,
            chunks,
        ),
        ({
            let before = said_in(out, chunks);
            let after = said_in(out, chunks.push(AssistantMessageChunkView::Message { block }));
            let text = block.source();
            &&& text.len() == 0 ==> after == before
            &&& before.len() == 0 ==> after == text
            &&& before.len() > 0 && text.len() > 0 ==> {
                &&& after.len() == before.len() + 1 + text.len()
                &&& after.take(before.len() as int) == before
                &&& after[before.len() as int] == '\n'
                &&& after.skip(before.len() as int + 1) == text
            }
        }),
{
    reveal_strlit("\n");
    let before = said_in(out, chunks);
    let thought = chunks.push(AssistantMessageChunkView::Thought { block });
    let message = chunks.push(AssistantMessageChunkView::Message { block });
    assert(thought.drop_last() =~= chunks);
    assert(message.drop_last() =~= chunks);
    let text = block.source();
    let after = said_in(out, message);
    if before.len() > 0 && text.len() > 0 {
        assert(after =~= before + "\n"@ + text);
        assert(after.take(before.len() as int) =~= before);
        assert(after.skip(before.len() as int + 1) =~= text);
    }
    if text.len() == 0 && before.len() == 0 {
        assert(text =~= before);
    }
}

/// The text of an agent is what it says in its messages, in their order. Neither the
/// user nor a tool adds to it.
pub proof fn law_text_is_that_of_the_agent(entries: Seq<ThreadEntryView>, entry: ThreadEntryView)
    ensures
        assistant_text(Seq::empty()) == Seq::<char>::empty(),
        !(entry.entry is AssistantMessage) ==> assistant_text(entries.push(entry))
            == assistant_text(entries),
        entry.entry matches AgentThreadEntryView::AssistantMessage(message) ==> assistant_text(
            entries.push(entry),
        ) == said_in(assistant_text(entries), message.chunks),
{
    assert(entries.push(entry).drop_last() =~= entries);
}

/// A turn goes on exactly while the agent runs or is being stopped. Nothing is known
/// of the turn of a session without a state.
pub proof fn law_turns_end_when_nothing_runs(state: SessionState)
    ensures
        !ends_turn(None),
        ends_turn(Some(state)) <==> !(state is Running) && !(state is Stopping),
{
}

/// Whether a text starts, in any case of its letters, with what announces a message.
pub open spec fn announces(text: Seq<char>, opening: Seq<char>, article: Seq<char>) -> bool {
    has_prefix(ascii_lowered(text), opening + article + "commit message"@)
}

/// A reply is announced exactly if it starts, after white space and in any case, with
/// one of two openings, one of four articles and the words for a message.
pub proof fn law_announcements_are_known(s: Seq<char>)
    ensures
        ({
            let text = trimmed_start(s);
            has_preamble(s) <==> {
                ||| announces(text, "here is "@, "a "@)
                ||| announces(text, "here is "@, "the "@)
                ||| announces(text, "here is "@, "a suggested "@)
                ||| announces(text, "here is "@, "a possible "@)
                ||| announces(text, "here's "@, "a "@)
                ||| announces(text, "here's "@, "the "@)
                ||| announces(text, "here's "@, "a suggested "@)
                ||| announces(text, "here's "@, "a possible "@)
            }
        }),
{
    reveal_strlit("here is ");
    reveal_strlit("here's ");
    reveal_strlit("a ");
    reveal_strlit("the ");
    reveal_strlit("a suggested ");
    reveal_strlit("a possible ");
    reveal_strlit("commit message");
    reveal_strlit("here is a commit message");
    reveal_strlit("here's a commit message");
    reveal_strlit("here is the commit message");
    reveal_strlit("here's the commit message");
    reveal_strlit("here is a suggested commit message");
    reveal_strlit("here's a suggested commit message");
    reveal_strlit("here is a possible commit message");
    reveal_strlit("here's a possible commit message");
    assert("here is "@ + "a "@ + "commit message"@ =~= "here is a commit message"@);
    assert("here's "@ + "a "@ + "commit message"@ =~= "here's a commit message"@);
    assert("here is "@ + "the "@ + "commit message"@ =~= "here is the commit message"@);
    assert("here's "@ + "the "@ + "commit message"@ =~= "here's the commit message"@);
    assert("here is "@ + "a suggested "@ + "commit message"@
        =~= "here is a suggested commit message"@);
    assert("here's "@ + "a suggested "@ + "commit message"@
        =~= "here's a suggested commit message"@);
    assert("here is "@ + "a possible "@ + "commit message"@
        =~= "here is a possible commit message"@);
    assert("here's "@ + "a possible "@ + "commit message"@
        =~= "here's a possible commit message"@);
}

/// Whether a text neither starts nor ends with white space and holds something.
pub open spec fn is_tight(text: Seq<char>) -> bool {
    text.len() > 0 && !is_space(text[0]) && !is_space(text.last())
}

/// What follows the first line is found behind its end.
proof fn lemma_after_line(line: Seq<char>, rest: Seq<char>)
    requires
        !line.contains('\n'),
    ensures
        after_first(line + seq!['\n'] + rest, "\n"@) == Some(rest),
{
    reveal_strlit("\n");
    let s = line + seq!['\n'] + rest;
    let at = line.len() as int;
    lemma_find_from(s, "\n"@, 0);
    assert(s.subrange(at, at + 1) =~= "\n"@);
    assert(occurs_at(s, "\n"@, at));
    let found = find_from(s, "\n"@, 0)->0;
    assert(find_from(s, "\n"@, 0) is Some);
    if found < at {
        assert(s.subrange(found, found + 1)[0] == s[found]);
        assert(line[found] == '\n');
        assert(false);
    }
    assert(found == at);
    assert(s.skip(at + 1) =~= rest);
}

/// An announcement is dropped with its line, and the message below it is kept as it is.
pub proof fn law_announcement_is_dropped(line: Seq<char>, message: Seq<char>)
    requires
        !line.contains('\n'),
        line.len() > 0,
        !is_space(line[0]),
        has_preamble(line + seq!['\n'] + message),
        is_tight(message),
    ensures
        without_preamble(line + seq!['\n'] + message) == message,
        !has_prefix(message, "```"@) ==> cleaned(line + seq!['\n'] + message) == message,
{
    let reply = line + seq!['\n'] + message;
    assert(reply[0] == line[0]);
    assert(reply.last() == message.last());
    lemma_trimmed_of_tight(reply);
    lemma_after_line(line, message);
    lemma_trimmed_of_tight(message);
}

/// What stands before the last fence ends there.
proof fn lemma_before_fence(inside: Seq<char>, upto: int)
    requires
        inside.len() <= upto <= inside.len() + 3,
    ensures
        find_last(inside + "```"@, "```"@, upto) == Some(inside.len() as int),
    decreases upto,
{
    reveal_strlit("```");
    let s = inside + "```"@;
    let at = inside.len() as int;
    assert(s.subrange(at, at + 3) =~= "```"@);
    assert(occurs_at(s, "```"@, at));
    if upto > at {
        assert(!occurs_at(s, "```"@, upto));
        lemma_before_fence(inside, upto - 1);
    }
}

/// A fence around a message is dropped with what stands on its first line, and the
/// message in it is kept as it is.
pub proof fn law_fence_is_dropped(language: Seq<char>, message: Seq<char>)
    requires
        !language.contains('\n'),
        is_tight(message),
    ensures
        ({
            let reply = seq!['`', '`', '`'] + language + seq!['\n'] + message + seq![
                '\n',
                '`',
                '`',
                '`',
            ];
            &&& without_fence(reply) == message
            &&& cleaned(reply) == message
        }),
{
    reveal_strlit("```");
    let reply = seq!['`', '`', '`'] + language + seq!['\n'] + message + seq!['\n', '`', '`', '`'];
    let line = seq!['`', '`', '`'] + language;
    let inside = message + seq!['\n'];
    let rest = inside + "```"@;
    assert(reply =~= line + seq!['\n'] + rest);
    assert(reply[0] == '`');
    assert(reply.last() == '`');
    lemma_trimmed_of_tight(reply);
    assert(reply.take(3) =~= "```"@);
    assert forall|i: int| 0 <= i < line.len() implies line[i] != '\n' by {
        if i >= 3 {
            assert(line[i] == language[i - 3]);
            assert(language.contains(language[i - 3]));
        }
    }
    assert(!line.contains('\n'));
    lemma_after_line(line, rest);
    assert(rest.last() == '`');
    assert(rest[0] == message[0]);
    lemma_trimmed_of_tight(rest);
    lemma_before_fence(inside, rest.len() as int);
    assert(rest.take(inside.len() as int) =~= inside);
    assert(before_last(rest, "```"@) == Some(inside));
    assert(inside.drop_last() =~= message);
    lemma_trimmed_of_tight(message);
    reveal_with_fuel(trimmed_end, 2);
    assert(trimmed_end(inside) == message);
    assert(without_fence(reply) == message);
    assert(!has_preamble(reply)) by {
        law_announcements_are_known(reply);
        let low = ascii_lowered(trimmed_start(reply));
        assert(low[0] == '`');
        lemma_no_announcement(trimmed_start(reply), "here is "@, "a "@);
        lemma_no_announcement(trimmed_start(reply), "here is "@, "the "@);
        lemma_no_announcement(trimmed_start(reply), "here is "@, "a suggested "@);
        lemma_no_announcement(trimmed_start(reply), "here is "@, "a possible "@);
        lemma_no_announcement(trimmed_start(reply), "here's "@, "a "@);
        lemma_no_announcement(trimmed_start(reply), "here's "@, "the "@);
        lemma_no_announcement(trimmed_start(reply), "here's "@, "a suggested "@);
        lemma_no_announcement(trimmed_start(reply), "here's "@, "a possible "@);
    }
}

/// A text that starts with a fence announces nothing.
proof fn lemma_no_announcement(text: Seq<char>, opening: Seq<char>, article: Seq<char>)
    requires
        text.len() > 0,
        text[0] == '`',
        opening == "here is "@ || opening == "here's "@,
    ensures
        !announces(text, opening, article),
{
    reveal_strlit("here is ");
    reveal_strlit("here's ");
    let low = ascii_lowered(text);
    let start = opening + article + "commit message"@;
    assert(low[0] == '`');
    assert(start[0] == 'h');
    if has_prefix(low, start) {
        assert(low.take(start.len() as int)[0] == start[0]);
    }
}

/// The stamps of a message are those of its blocks, each once, where it comes first.
pub proof fn law_stamps_come_once_and_in_turn(blocks: Seq<PromptBlockView>, block: PromptBlockView)
    ensures
        send_ids(Seq::empty()) == Seq::<i64>::empty(),
        block.client_send_id is None ==> send_ids(blocks.push(block)) == send_ids(blocks),
        block.client_send_id matches Some(id) ==> {
            &&& send_ids(blocks).contains(id) ==> send_ids(blocks.push(block)) == send_ids(blocks)
            &&& !send_ids(blocks).contains(id) ==> send_ids(blocks.push(block)) == send_ids(
                blocks,
            ).push(id)
        },
{
    assert(blocks.push(block).drop_last() =~= blocks);
}

} // verus!
