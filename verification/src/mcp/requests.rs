//! What is checked of a request before anything is done.
use crate::model::{
    invalid_id_message, is_session_id, parsed_session_id, SolutionSession, SolutionSessionId,
};
use vstd::prelude::*;
use vstd::string::*;

verus! {

/// The message that a parameter is missing.
pub open spec fn missing_param(name: Seq<char>) -> Seq<char> {
    "invalid_params: "@ + name + " is required"@
}

/// The message that a parameter is missing.
fn say_missing(name: &str) -> (r: String)
    ensures
        r@ == missing_param(name@),
{
    let mut message = "invalid_params: ".to_owned();
    message.append(name);
    message.append(" is required");
    message
}

/// Checks that a text parameter is there.
pub fn require_param(value: &str, name: &str) -> (r: Result<(), String>)
    ensures
        match r {
            Ok(_) => value@.len() > 0,
            Err(message) => value@.len() == 0 && message@ == missing_param(name@),
        },
{
    if value.is_empty() {
        Err(say_missing(name))
    } else {
        Ok(())
    }
}

/// What a client is told of a session id that is none.
pub open spec fn bad_id_message(prefix: Seq<char>, text: Seq<char>) -> Seq<char> {
    prefix + invalid_id_message(text)
}

/// The session that a request names, or what is wrong with the name.
pub open spec fn requested_session(text: Seq<char>) -> Result<Seq<char>, Seq<char>> {
    if text.len() == 0 {
        Err(missing_param("session_id"@))
    } else {
        named_session(text, "bad session id: "@)
    }
}

/// The session that a text names, or what is wrong with the name, after
/// `prefix`.
pub open spec fn named_session(text: Seq<char>, prefix: Seq<char>) -> Result<Seq<char>, Seq<char>> {
    match parsed_session_id(text) {
        Some(id) => Ok(id),
        None => Err(bad_id_message(prefix, text)),
    }
}

/// Whether a text may name a session: one with another id than the text is ruled
/// out where the text is an id itself.
pub open spec fn may_name(text: Seq<char>, session: SolutionSession) -> bool {
    is_session_id(text) ==> session.id@ == text
}

/// The session that a text names is one that it may name.
pub proof fn lemma_named_session_may_be_named(
    text: Seq<char>,
    sessions: Seq<SolutionSession>,
    id: Seq<char>,
)
    requires
        requested_session(text) == Ok::<Seq<char>, Seq<char>>(id),
    ensures
        find_session(sessions, id) matches Some(i) ==> 0 <= i < sessions.len() && may_name(
            text,
            sessions[i],
        ),
    decreases sessions.len(),
{
    if sessions.len() > 0 {
        lemma_named_session_may_be_named(text, sessions.drop_last(), id);
    }
}

/// Whether an outcome is the given one.
pub open spec fn is_outcome(
    r: Result<SolutionSessionId, String>,
    expected: Result<Seq<char>, Seq<char>>,
) -> bool {
    match r {
        Ok(id) => expected == Ok::<Seq<char>, Seq<char>>(id@),
        Err(message) => expected == Err::<Seq<char>, Seq<char>>(message@),
    }
}

/// The session that a text names, or what is wrong with the name, after
/// `prefix`.
pub fn parse_named_session(text: &str, prefix: &str) -> (r: Result<SolutionSessionId, String>)
    ensures
        is_outcome(r, named_session(text@, prefix@)),
{
    match SolutionSessionId::parse(text) {
        Ok(id) => Ok(id),
        Err(reason) => {
            let mut message = prefix.to_owned();
            message.append(reason.as_str());
            Err(message)
        },
    }
}

/// The session that a request names, or what is wrong with the name.
pub fn parse_requested_session(text: &str) -> (r: Result<SolutionSessionId, String>)
    ensures
        is_outcome(r, requested_session(text@)),
{
    if text.is_empty() {
        return Err(say_missing("session_id"));
    }
    parse_named_session(text, "bad session id: ")
}

/// The position of the session with the given id.
pub open spec fn find_session(sessions: Seq<SolutionSession>, id: Seq<char>) -> Option<int>
    decreases sessions.len(),
{
    if sessions.len() == 0 {
        None
    } else {
        match find_session(sessions.drop_last(), id) {
            Some(i) => Some(i),
            None => if sessions.last().id@ == id {
                Some(sessions.len() - 1)
            } else {
                None
            },
        }
    }
}

/// The position of the session with the given id.
pub fn position_of_session(sessions: &Vec<SolutionSession>, id: &SolutionSessionId) -> (r: Option<
    usize,
>)
    ensures
        match r {
            Some(i) => find_session(sessions@, id@) == Some(i as int) && i < sessions@.len()
                && sessions@[i as int].id@ == id@,
            None => find_session(sessions@, id@) is None,
        },
{
    let mut i: usize = 0;
    assert(find_session(sessions@.take(0), id@) is None);
    while i < sessions.len()
        invariant
            i <= sessions@.len(),
            find_session(sessions@.take(i as int), id@) is None,
        decreases sessions@.len() - i,
    {
        assert(sessions@.take(i as int + 1).drop_last() =~= sessions@.take(i as int));
        if sessions[i].id.same(id) {
            proof {
                lemma_find_session_prefix(sessions@, id@, i as int + 1);
            }
            return Some(i);
        }
        i += 1;
    }
    assert(sessions@.take(i as int) =~= sessions@);
    None
}

/// What is found among the first sessions is found among all.
proof fn lemma_find_session_prefix(sessions: Seq<SolutionSession>, id: Seq<char>, k: int)
    requires
        0 <= k <= sessions.len(),
        find_session(sessions.take(k), id) is Some,
    ensures
        find_session(sessions, id) == find_session(sessions.take(k), id),
    decreases sessions.len(),
{
    if k == sessions.len() {
        assert(sessions.take(k) =~= sessions);
    } else {
        assert(sessions.drop_last().take(k) =~= sessions.take(k));
        lemma_find_session_prefix(sessions.drop_last(), id, k);
    }
}

/// A message made of a prefix and the id of a session.
pub fn say_of_session(prefix: &str, id: &SolutionSessionId) -> (r: String)
    ensures
        r@ == prefix@ + id@,
{
    let mut message = prefix.to_owned();
    message.append(id.as_str());
    message
}

} // verus!
