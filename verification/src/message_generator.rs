//! Tasks that an agent answers with a single text, such as writing a commit
//! message.
use crate::model::{AcpThread, SessionState, SolutionSessionId, ThreadEntryView};
use crate::text::{
    after_first, ascii_lowered, before_last, contains_text, find_last, has_prefix, is_blank,
    lemma_blank_iff_trimmed_empty, lemma_find_from, lemma_trimmed_end_shape, lemma_trimmed_is_tight,
    lemma_trimmed_of_tight, lemma_trimmed_start_shape, occurs_at, starts_with, text_after,
    text_before_last, to_ascii_lower, trim, trim_end, trim_start, trimmed, trimmed_end,
    trimmed_start,
};
use crate::thread::{
    AgentThreadEntry, AgentThreadEntryView, AssistantMessageChunk, AssistantMessageChunkView,
};
use vstd::prelude::*;
use vstd::string::*;

verus! {

/// What the agent is asked to do with a diff.
pub const COMMIT_MESSAGE_PROMPT: &'static str =
    "Generate a commit message for the following diff. Return only the message, \
     no preamble or explanation. Follow conventional commits style if the project \
     uses it (detect from recent history).";

/// The prompt that asks for a commit message for `diff`.
pub fn commit_message_prompt(diff: &str) -> (r: String)
    ensures
        r@ == COMMIT_MESSAGE_PROMPT@ + "\n\n```diff\n"@ + diff@ + "\n```"@,
{
    let mut prompt = COMMIT_MESSAGE_PROMPT.to_owned();
    prompt.append("\n\n```diff\n");
    prompt.append(diff);
    prompt.append("\n```");
    prompt
}

/// Whether a line in lower case opens with words that announce a commit
/// message.
pub open spec fn is_preamble(line: Seq<char>) -> bool {
    ||| has_prefix(line, "here is a commit message"@)
    ||| has_prefix(line, "here's a commit message"@)
    ||| has_prefix(line, "here is the commit message"@)
    ||| has_prefix(line, "here's the commit message"@)
    ||| has_prefix(line, "here is a suggested commit message"@)
    ||| has_prefix(line, "here's a suggested commit message"@)
    ||| has_prefix(line, "here is a possible commit message"@)
    ||| has_prefix(line, "here's a possible commit message"@)
}

/// Whether a text opens with words that announce a commit message.
pub open spec fn has_preamble(s: Seq<char>) -> bool {
    is_preamble(ascii_lowered(trimmed_start(s)))
}

/// A text without its first line where that announces a commit message.
pub open spec fn without_preamble(s: Seq<char>) -> Seq<char> {
    if has_preamble(s) {
        match after_first(s, "\n"@) {
            Some(rest) => trimmed_start(rest),
            None => Seq::empty(),
        }
    } else {
        s
    }
}

/// Drops the first line of a text where it announces a commit message.
pub fn strip_preamble_line(s: &str) -> (r: &str)
    ensures
        r@ == without_preamble(s@),
{
    let lowered = to_ascii_lower(trim_start(s));
    let lower = lowered.as_str();
    let announced = starts_with(lower, "here is a commit message") || starts_with(
        lower,
        "here's a commit message",
    ) || starts_with(lower, "here is the commit message") || starts_with(
        lower,
        "here's the commit message",
    ) || starts_with(lower, "here is a suggested commit message") || starts_with(
        lower,
        "here's a suggested commit message",
    ) || starts_with(lower, "here is a possible commit message") || starts_with(
        lower,
        "here's a possible commit message",
    );
    if !announced {
        return s;
    }
    match text_after(s, "\n") {
        Some(rest) => trim_start(rest),
        None => {
            assert(s@.subrange(0, 0) =~= Seq::empty());
            s.substring_char(0, 0)
        },
    }
}

/// A text without the code fence around it. A fence that is not closed loses
/// its first line alone.
pub open spec fn without_fence(s: Seq<char>) -> Seq<char> {
    if has_prefix(trimmed(s), "```"@) {
        match after_first(trimmed(s), "\n"@) {
            Some(rest) => match before_last(trimmed_end(rest), "```"@) {
                Some(inside) => trimmed_end(inside),
                None => rest,
            },
            None => s,
        }
    } else {
        s
    }
}

/// Drops the code fence around a text.
pub fn strip_code_fence(s: &str) -> (r: &str)
    ensures
        r@ == without_fence(s@),
{
    let inner = trim(s);
    if !starts_with(inner, "```") {
        return s;
    }
    let after_open = match text_after(inner, "\n") {
        Some(rest) => rest,
        None => {
            return s;
        },
    };
    match text_before_last(trim_end(after_open), "```") {
        Some(before) => trim_end(before),
        None => after_open,
    }
}

/// A reply without what agents put around a message.
pub open spec fn cleaned(raw: Seq<char>) -> Seq<char> {
    trimmed(without_fence(without_preamble(trimmed(raw))))
}

/// Drops the announcement, the code fence and the white space that agents put
/// around a message.
pub fn strip_preamble(raw: &str) -> (r: String)
    ensures
        r@ == cleaned(raw@),
{
    let after_preamble = strip_preamble_line(trim(raw));
    let after_fences = strip_code_fence(after_preamble);
    trim(after_fences).to_owned()
}

/// The message in a reply: without the announcement, the code fence and the
/// white space that agents put around it.
pub fn clean_commit_message(raw: &str) -> (r: String)
    ensures
        r@ == cleaned(raw@),
{
    strip_preamble(raw)
}

/// A message has no white space around it.
pub proof fn law_message_is_tight(raw: Seq<char>)
    ensures
        trimmed(cleaned(raw)) == cleaned(raw),
{
    let inner = without_fence(without_preamble(trimmed(raw)));
    lemma_trimmed_is_tight(inner);
    lemma_trimmed_of_tight(trimmed(inner));
}

/// A piece of a piece is a piece.
proof fn lemma_piece_of_piece(whole: Seq<char>, part: Seq<char>, piece: Seq<char>)
    requires
        contains_text(whole, part),
        contains_text(part, piece),
    ensures
        contains_text(whole, piece),
{
    let a = choose|a: int| occurs_at(whole, part, a);
    let b = choose|b: int| occurs_at(part, piece, b);
    let found = whole.subrange(a + b, a + b + piece.len());
    assert forall|i: int| 0 <= i < piece.len() implies found[i] == #[trigger] piece[i] by {
        assert(whole.subrange(a, a + part.len())[b + i] == part[b + i]);
        assert(part.subrange(b, b + piece.len())[i] == piece[i]);
    }
    assert(found =~= piece);
    assert(occurs_at(whole, piece, a + b));
}

/// What trimming leaves is a piece of the text.
proof fn lemma_trimming_leaves_piece(s: Seq<char>)
    ensures
        contains_text(s, trimmed_start(s)),
        contains_text(s, trimmed_end(s)),
        contains_text(s, trimmed(s)),
{
    lemma_trimmed_start_shape(s);
    let start = trimmed_start(s);
    let k = s.len() - start.len();
    assert(s.subrange(k, k + start.len()) =~= start);
    assert(occurs_at(s, start, k));
    lemma_trimmed_end_shape(s);
    assert(s.subrange(0, trimmed_end(s).len() as int) =~= trimmed_end(s));
    assert(occurs_at(s, trimmed_end(s), 0));
    lemma_trimmed_end_shape(start);
    assert(start.subrange(0, trimmed_end(start).len() as int) =~= trimmed_end(start));
    assert(occurs_at(start, trimmed_end(start), 0));
    lemma_piece_of_piece(s, start, trimmed(s));
}

/// What stands behind the first occurrence of `needle` is a piece of the text.
proof fn lemma_rest_is_piece(s: Seq<char>, needle: Seq<char>)
    ensures
        after_first(s, needle) matches Some(rest) ==> contains_text(s, rest),
{
    lemma_find_from(s, needle, 0);
    if let Some(rest) = after_first(s, needle) {
        let k = s.len() - rest.len();
        assert(s.subrange(k, k + rest.len()) =~= rest);
        assert(occurs_at(s, rest, k));
    }
}

/// What is found last stands there.
proof fn lemma_find_last(s: Seq<char>, needle: Seq<char>, upto: int)
    ensures
        find_last(s, needle, upto) matches Some(at) ==> occurs_at(s, needle, at),
    decreases upto + 1,
{
    if upto >= 0 && !occurs_at(s, needle, upto) {
        lemma_find_last(s, needle, upto - 1);
    }
}

/// What stands before the last occurrence of `needle` is a piece of the text.
proof fn lemma_start_is_piece(s: Seq<char>, needle: Seq<char>)
    ensures
        before_last(s, needle) matches Some(start) ==> contains_text(s, start),
{
    lemma_find_last(s, needle, s.len() as int);
    if let Some(start) = before_last(s, needle) {
        assert(s.subrange(0, start.len() as int) =~= start);
        assert(occurs_at(s, start, 0));
    }
}

/// The message is a piece of the reply: nothing in it was changed.
pub proof fn law_message_is_piece_of_reply(raw: Seq<char>)
    ensures
        contains_text(raw, cleaned(raw)),
{
    let bare = trimmed(raw);
    lemma_trimming_leaves_piece(raw);
    let body = without_preamble(bare);
    assert(contains_text(bare, body)) by {
        assert(bare.subrange(0, bare.len() as int) =~= bare);
        assert(occurs_at(bare, bare, 0));
        assert(occurs_at(bare, Seq::empty(), 0)) by {
            assert(bare.subrange(0, 0) =~= Seq::<char>::empty());
        }
        lemma_rest_is_piece(bare, "\n"@);
        if let Some(rest) = after_first(bare, "\n"@) {
            lemma_trimming_leaves_piece(rest);
            lemma_piece_of_piece(bare, rest, trimmed_start(rest));
        }
    }
    lemma_piece_of_piece(raw, bare, body);
    let inner = without_fence(body);
    assert(contains_text(body, inner)) by {
        assert(body.subrange(0, body.len() as int) =~= body);
        assert(occurs_at(body, body, 0));
        lemma_trimming_leaves_piece(body);
        lemma_rest_is_piece(trimmed(body), "\n"@);
        if let Some(rest) = after_first(trimmed(body), "\n"@) {
            lemma_piece_of_piece(body, trimmed(body), rest);
            lemma_trimming_leaves_piece(rest);
            lemma_piece_of_piece(body, rest, trimmed_end(rest));
            lemma_start_is_piece(trimmed_end(rest), "```"@);
            if let Some(inside) = before_last(trimmed_end(rest), "```"@) {
                lemma_piece_of_piece(body, trimmed_end(rest), inside);
                lemma_trimming_leaves_piece(inside);
                lemma_piece_of_piece(body, inside, trimmed_end(inside));
            }
        }
    }
    lemma_piece_of_piece(raw, body, inner);
    lemma_trimming_leaves_piece(inner);
    lemma_piece_of_piece(raw, inner, trimmed(inner));
}

/// A reply that is neither announced nor fenced is the message as it is, but for
/// the white space around it.
pub proof fn law_bare_message_is_kept(raw: Seq<char>)
    requires
        !has_preamble(trimmed(raw)),
        !has_prefix(trimmed(raw), "```"@),
    ensures
        cleaned(raw) == trimmed(raw),
{
    lemma_trimmed_is_tight(raw);
    lemma_trimmed_of_tight(trimmed(raw));
}

/// How the turn of a task ended.
#[derive(Clone, Debug)]
pub enum TurnEnd {
    /// The agent is done or waits for the user.
    Settled,
    /// The agent failed, for the given reason.
    Failed(String),
}

/// Waits for the end of the turn of one session.
pub struct TurnWatch {
    pub session_id: SolutionSessionId,
    /// How the turn ended, once it has.
    pub end: Option<TurnEnd>,
}

/// Whether a session that is in the given state has ended its turn.
pub open spec fn ends_turn(state: Option<SessionState>) -> bool {
    match state {
        Some(SessionState::Idle) => true,
        Some(SessionState::AwaitingInput) => true,
        Some(SessionState::Errored(_)) => true,
        _ => false,
    }
}

impl TurnWatch {
    /// Starts to wait for the given session.
    pub fn new(session_id: SolutionSessionId) -> (r: Self)
        ensures
            r.session_id == session_id,
            r.end is None,
    {
        TurnWatch { session_id, end: None }
    }

    /// Takes note that a session changed its state. The first state at rest of
    /// the session that is waited for ends the turn; nothing changes that.
    pub fn state_changed(&mut self, changed: &SolutionSessionId, state: Option<&SessionState>)
        ensures
            final(self).session_id == old(self).session_id,
            if old(self).end is None && changed@ == old(self).session_id@ && ends_turn(
                match state {
                    Some(s) => Some(*s),
                    None => None,
                },
            ) {
                match state {
                    Some(SessionState::Errored(reason)) => final(self).end matches Some(
                        TurnEnd::Failed(message),
                    ) && message@ == reason@,
                    _ => final(self).end == Some(TurnEnd::Settled),
                }
            } else {
                final(self).end == old(self).end
            },
    {
        if self.end.is_some() || !self.session_id.same(changed) {
            return;
        }
        match state {
            Some(SessionState::Idle) => {
                self.end = Some(TurnEnd::Settled);
            },
            Some(SessionState::AwaitingInput) => {
                self.end = Some(TurnEnd::Settled);
            },
            Some(SessionState::Errored(reason)) => {
                self.end = Some(TurnEnd::Failed(reason.clone()));
            },
            _ => {},
        }
    }
}

/// `text`, on a line of its own behind `out`. Nothing is added for an empty one.
pub open spec fn with_line(out: Seq<char>, text: Seq<char>) -> Seq<char> {
    if text.len() == 0 {
        out
    } else if out.len() == 0 {
        text
    } else {
        out + "\n"@ + text
    }
}

/// `out` followed by what the agent says in the chunks, without its thoughts.
pub open spec fn said_in(out: Seq<char>, chunks: Seq<AssistantMessageChunkView>) -> Seq<char>
    decreases chunks.len(),
{
    if chunks.len() == 0 {
        out
    } else {
        let before = said_in(out, chunks.drop_last());
        match chunks.last() {
            AssistantMessageChunkView::Message { block } => with_line(before, block.source()),
            AssistantMessageChunkView::Thought { .. } => before,
        }
    }
}

/// What the agent says in a conversation.
pub open spec fn assistant_text(entries: Seq<ThreadEntryView>) -> Seq<char>
    decreases entries.len(),
{
    if entries.len() == 0 {
        Seq::empty()
    } else {
        let before = assistant_text(entries.drop_last());
        match entries.last().entry {
            AgentThreadEntryView::AssistantMessage(message) => said_in(before, message.chunks),
            _ => before,
        }
    }
}

/// Adds what the agent says in the chunks to `out`.
fn append_said(out: &mut String, chunks: &Vec<AssistantMessageChunk>)
    ensures
        final(out)@ == said_in(old(out)@, chunks.deep_view()),
{
    let ghost all = chunks.deep_view();
    let ghost start = out@;
    let mut i: usize = 0;
    while i < chunks.len()
        invariant
            i <= chunks@.len(),
            all == chunks.deep_view(),
            out@ == said_in(start, all.take(i as int)),
        decreases chunks@.len() - i,
    {
        assert(all[i as int] == chunks@[i as int].deep_view());
        assert(all.take(i as int + 1).drop_last() =~= all.take(i as int));
        if let AssistantMessageChunk::Message { block } = &chunks[i] {
            let text = block.to_markdown();
            if !text.is_empty() {
                if !out.as_str().is_empty() {
                    out.append("\n");
                    out.append(text);
                } else {
                    let ghost before = out@;
                    out.append(text);
                    assert(before + text@ =~= text@);
                }
            }
        }
        i += 1;
    }
    assert(all.take(i as int) =~= all);
}

/// What the agent says in a conversation.
pub fn collect_assistant_text(thread: &AcpThread) -> (r: String)
    ensures
        r@ == assistant_text(thread.entries.deep_view()),
{
    let ghost all = thread.entries.deep_view();
    let mut out = String::new();
    let mut i: usize = 0;
    while i < thread.entries.len()
        invariant
            i <= thread.entries@.len(),
            all == thread.entries.deep_view(),
            out@ == assistant_text(all.take(i as int)),
        decreases thread.entries@.len() - i,
    {
        assert(all[i as int] == thread.entries@[i as int].deep_view());
        assert(all.take(i as int + 1).drop_last() =~= all.take(i as int));
        if let AgentThreadEntry::AssistantMessage(message) = &thread.entries[i].entry {
            append_said(&mut out, &message.chunks);
        }
        i += 1;
    }
    assert(all.take(i as int) =~= all);
    out
}

/// The reply of the agent, once the turn is over: what it said, unless the
/// prompt was not sent, the turn never ended or failed, or nothing was said.
pub fn drive_turn(
    sent: bool,
    end: Option<TurnEnd>,
    thread: Option<&AcpThread>,
) -> (r: Result<String, String>)
    ensures
        if !sent {
            r is Err && r->Err_0@ == "send_message failed"@
        } else {
            match end {
                None => r is Err && r->Err_0@
                    == "session-state oneshot dropped before turn completed"@,
                Some(TurnEnd::Failed(reason)) => r is Err && r->Err_0@ == "agent errored: "@
                    + reason@,
                Some(TurnEnd::Settled) => match thread {
                    None => r is Err && r->Err_0@
                        == "ephemeral session has no AcpThread after turn"@,
                    Some(thread) => {
                        let text = assistant_text(thread.entries.deep_view());
                        if is_blank(text) {
                            r is Err && r->Err_0@ == "agent produced no assistant message text"@
                        } else {
                            r is Ok && r->Ok_0@ == text
                        }
                    },
                },
            }
        },
{
    if !sent {
        return Err("send_message failed".to_owned());
    }
    match end {
        None => {
            return Err("session-state oneshot dropped before turn completed".to_owned());
        },
        Some(TurnEnd::Failed(reason)) => {
            let mut message = "agent errored: ".to_owned();
            message.append(reason.as_str());
            return Err(message);
        },
        Some(TurnEnd::Settled) => {},
    }
    let thread = match thread {
        Some(thread) => thread,
        None => {
            return Err("ephemeral session has no AcpThread after turn".to_owned());
        },
    };
    let out = collect_assistant_text(thread);
    proof {
        lemma_blank_iff_trimmed_empty(out@);
    }
    if trim(out.as_str()).is_empty() {
        Err("agent produced no assistant message text".to_owned())
    } else {
        Ok(out)
    }
}

/// What became of the request for a session to run a task in.
pub enum Acquisition {
    /// There is a session.
    Acquired(SolutionSessionId),
    /// None could be created.
    Failed,
    /// None was created in time.
    TimedOut,
}

/// The session to run a task in. `is_open` says whether it is still there.
pub fn ephemeral_session(acquired: Acquisition, is_open: bool) -> (r: Result<
    SolutionSessionId,
    String,
>)
    ensures
        match acquired {
            Acquisition::Acquired(id) => if is_open {
                r == Ok::<SolutionSessionId, String>(id)
            } else {
                r is Err && r->Err_0@ == "ephemeral session vanished after create_session"@
            },
            Acquisition::Failed => r is Err && r->Err_0@ == "create_session failed"@,
            Acquisition::TimedOut => r is Err && r->Err_0@
                == "acquiring ephemeral solution_agent session"@,
        },
{
    match acquired {
        Acquisition::Acquired(id) => {
            if is_open {
                Ok(id)
            } else {
                Err("ephemeral session vanished after create_session".to_owned())
            }
        },
        Acquisition::Failed => Err("create_session failed".to_owned()),
        Acquisition::TimedOut => Err("acquiring ephemeral solution_agent session".to_owned()),
    }
}

} // verus!
