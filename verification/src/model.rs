//! Sessions: their ids, their states and what is remembered of them.
use crate::background_agent::{BackgroundAgent, BackgroundAgentId};
use crate::background_shell::{BackgroundShell, BackgroundShellId};
use crate::clock::Timestamp;
use crate::duplicate::Duplicate;
use crate::text::{chars_of, str_from_utf8};
use crate::thread::{
    AgentThreadEntry, AgentThreadEntryView, PromptBlock, PromptBlockView,
};
use vstd::prelude::*;
use vstd::string::*;
use vstd::utf8::{
    encode_utf8, encode_utf8_decode_utf8, encode_utf8_valid_utf8, is_ascii_chars,
    is_ascii_chars_encode_utf8,
};

verus! {

/// How many characters a session id has.
pub const SHORT_ID_LEN: usize = 8;

/// Whether `c` may stand in a session id: a lower-case ASCII letter or a digit.
pub open spec fn is_id_char(c: char) -> bool {
    ('a' <= c && c <= 'z') || ('0' <= c && c <= '9')
}

/// Whether `s` is a session id.
pub open spec fn is_session_id(s: Seq<char>) -> bool {
    s.len() == SHORT_ID_LEN && forall|i: int| 0 <= i < s.len() ==> is_id_char(#[trigger] s[i])
}

/// The id of a session: eight lower-case ASCII letters and digits.
#[derive(Clone, Copy, Debug, PartialEq, Eq, Hash)]
pub struct SolutionSessionId {
    bytes: [u8; 8],
}

impl SolutionSessionId {
    #[verifier::type_invariant]
    spec fn wf(self) -> bool {
        is_session_id(self@)
    }

    /// Whether the two ids are the same.
    pub fn same(&self, other: &SolutionSessionId) -> (r: bool)
        ensures
            r == (self@ == other@),
    {
        let mut i: usize = 0;
        while i < 8
            invariant
                i <= 8,
                forall|k: int| 0 <= k < i ==> self.bytes@[k] == other.bytes@[k],
            decreases 8 - i,
        {
            if self.bytes[i] != other.bytes[i] {
                assert(self@[i as int] != other@[i as int]);
                return false;
            }
            i += 1;
        }
        assert(self@ =~= other@);
        true
    }

    /// The id as text.
    pub fn as_str(&self) -> (r: &str)
        ensures
            r@ == self@,
            is_session_id(r@),
    {
        proof {
            use_type_invariant(self);
            let chars = self@;
            assert(is_ascii_chars(chars));
            is_ascii_chars_encode_utf8(chars);
            assert(encode_utf8(chars) =~= self.bytes@);
            encode_utf8_valid_utf8(chars);
            encode_utf8_decode_utf8(chars);
        }
        let text = match str_from_utf8(&self.bytes) {
            Some(text) => text,
            None => "",
        };
        proof {
            encode_utf8_decode_utf8(text@);
        }
        text
    }
}

impl DeepView for SolutionSessionId {
    type V = Seq<char>;

    open spec fn deep_view(&self) -> Seq<char> {
        self@
    }
}

impl Duplicate for SolutionSessionId {
    fn duplicate(&self) -> (r: Self) {
        *self
    }
}

impl View for SolutionSessionId {
    type V = Seq<char>;

    closed spec fn view(&self) -> Seq<char> {
        Seq::new(8, |i: int| self.bytes@[i] as char)
    }
}

/// The `k`-th character that may stand in a session id.
pub open spec fn id_char(k: int) -> char {
    if k < 26 {
        (k + 97) as char
    } else {
        (k - 26 + 48) as char
    }
}

/// The id character that a random byte picks. Bytes from 252 on pick none, so
/// that every character is picked by equally many bytes.
pub open spec fn picked_id_char(x: u8) -> Option<char> {
    if x < 252 {
        Some(id_char(x as int % 36))
    } else {
        None
    }
}

/// The `j`-th byte that picks the `k`-th id character.
pub open spec fn picking_byte(k: int, j: int) -> int {
    k + 36 * j
}

/// Every id character is picked by exactly seven bytes.
pub proof fn law_id_chars_are_picked_evenly(k: int)
    requires
        0 <= k < 36,
    ensures
        is_id_char(id_char(k)),
        forall|x: u8| #[trigger]
            picked_id_char(x) == Some(id_char(k)) <==> exists|j: int|
                0 <= j < 7 && x == #[trigger] picking_byte(k, j),
{
    assert forall|x: u8| #[trigger]
        picked_id_char(x) == Some(id_char(k)) <==> exists|j: int|
            0 <= j < 7 && x == #[trigger] picking_byte(k, j) by {
        let j = x as int / 36;
        if picked_id_char(x) == Some(id_char(k)) {
            assert(x == picking_byte(k, j));
        }
    }
}

/// The id character that a random byte picks.
pub fn pick_id_byte(x: u8) -> (r: Option<u8>)
    ensures
        match r {
            Some(b) => picked_id_char(x) == Some(b as char) && is_id_char(b as char),
            None => picked_id_char(x) is None,
        },
{
    if x >= 252 {
        return None;
    }
    let k: u8 = x % 36;
    if k < 26 {
        Some(k + 97)
    } else {
        Some(k - 26 + 48)
    }
}

/// `rand::rng().fill_bytes`: one random byte. Nothing is known of which.
#[verifier::external_body]
fn random_byte() -> (r: u8)
{
    let mut buf = [0u8; 1];
    rand::RngCore::fill_bytes(&mut rand::rng(), &mut buf);
    buf[0]
}

/// The id characters that random bytes pick, in turn.
pub open spec fn picked_id_chars(drawn: Seq<u8>) -> Seq<char>
    decreases drawn.len(),
{
    if drawn.len() == 0 {
        Seq::empty()
    } else {
        let before = picked_id_chars(drawn.drop_last());
        match picked_id_char(drawn.last()) {
            Some(c) => before.push(c),
            None => before,
        }
    }
}

/// The id that random bytes make: the first eight characters that they pick.
/// Nothing where they pick fewer.
pub open spec fn id_of_drawn(drawn: Seq<u8>) -> Option<Seq<char>> {
    let picked = picked_id_chars(drawn);
    if picked.len() < 8 {
        None
    } else {
        Some(picked.take(8))
    }
}

/// More bytes pick further characters behind those picked before.
proof fn lemma_picked_grows(drawn: Seq<u8>, k: int)
    requires
        0 <= k <= drawn.len(),
    ensures
        picked_id_chars(drawn.take(k)).len() <= picked_id_chars(drawn).len(),
        picked_id_chars(drawn).take(picked_id_chars(drawn.take(k)).len() as int)
            == picked_id_chars(drawn.take(k)),
    decreases drawn.len() - k,
{
    let picked = picked_id_chars(drawn);
    let before = picked_id_chars(drawn.take(k));
    if k == drawn.len() {
        assert(drawn.take(k) =~= drawn);
        assert(picked.take(before.len() as int) =~= before);
    } else {
        lemma_picked_grows(drawn, k + 1);
        assert(drawn.take(k + 1).drop_last() =~= drawn.take(k));
        let next = picked_id_chars(drawn.take(k + 1));
        assert(next.take(before.len() as int) =~= before);
        assert(picked.take(before.len() as int) =~= next.take(before.len() as int));
    }
}

/// Draws random bytes until one picks an id character.
fn draw_picking_byte() -> (r: u8)
    ensures
        picked_id_char(r) is Some,
{
    let mut attempts: u64 = u64::MAX;
    while attempts > 0
        decreases attempts,
    {
        let x: u8 = random_byte();
        if pick_id_byte(x).is_some() {
            return x;
        }
        attempts -= 1;
    }
    0
}

/// The lower-case hexadecimal digit of `d`, for `d < 16`.
pub open spec fn hex_digit(d: nat) -> char {
    if d < 10 {
        (d + 48) as char
    } else {
        (d + 87) as char
    }
}

/// The last `len` hexadecimal digits of `n`.
pub open spec fn hex_digits(n: nat, len: nat) -> Seq<char>
    decreases len,
{
    if len == 0 {
        Seq::empty()
    } else {
        hex_digits(n / 16, (len - 1) as nat).push(hex_digit(n % 16))
    }
}

/// The first eight of the 32 hexadecimal digits of a UUID.
pub open spec fn uuid_prefix(value: u128) -> Seq<char> {
    hex_digits(value as nat, 32).take(8)
}

/// There are as many digits as asked for.
proof fn lemma_hex_digits_len(n: nat, len: nat)
    ensures
        hex_digits(n, len).len() == len,
    decreases len,
{
    if len > 0 {
        lemma_hex_digits_len(n / 16, (len - 1) as nat);
    }
}

/// The value of a text as a UUID, where it reads as one.
pub uninterp spec fn uuid_value(text: Seq<char>) -> Option<u128>;

/// `uuid::Uuid::parse_str`: whether the text reads as a UUID, and which, depend
/// on the text alone.
#[verifier::external_body]
fn parse_uuid(text: &str) -> (r: Option<u128>)
    ensures
        r == uuid_value(text@),
{
    uuid::Uuid::parse_str(text).ok().map(|uuid| uuid.as_u128())
}

/// A text as it is shown in a message to a developer: quoted and escaped.
pub uninterp spec fn debug_text(text: Seq<char>) -> Seq<char>;

/// `format!("{:?}", text)`: the quoted form depends on the text alone.
#[verifier::external_body]
pub(crate) fn format_debug(text: &str) -> (r: String)
    ensures
        r@ == debug_text(text@),
{
    format!("{:?}", text)
}

/// The id that a text stands for, given the UUID that it reads as: the text
/// itself where it is an id, or else the start of the UUID.
pub open spec fn session_id_of(text: Seq<char>, uuid: Option<u128>) -> Option<Seq<char>> {
    if is_session_id(text) {
        Some(text)
    } else {
        match uuid {
            Some(value) => Some(uuid_prefix(value)),
            None => None,
        }
    }
}

/// The id that a text stands for.
pub open spec fn parsed_session_id(text: Seq<char>) -> Option<Seq<char>> {
    session_id_of(text, uuid_value(text))
}

/// What is said of a text that stands for no id.
pub open spec fn invalid_id_message(text: Seq<char>) -> Seq<char> {
    "invalid session id: "@ + debug_text(text)
}

impl SolutionSessionId {
    /// A fresh random id.
    pub fn new() -> (r: Self)
        ensures
            is_session_id(r@),
    {
        let mut drawn: Vec<u8> = Vec::new();
        while drawn.len() < 8
            invariant
                drawn@.len() <= 8,
                picked_id_chars(drawn@).len() == drawn@.len(),
            decreases 8 - drawn@.len(),
        {
            let x: u8 = draw_picking_byte();
            let ghost before = drawn@;
            drawn.push(x);
            assert(drawn@.drop_last() =~= before);
        }
        match SolutionSessionId::from_drawn(&drawn) {
            Some(id) => id,
            None => SolutionSessionId { bytes: [97; 8] },
        }
    }

    /// The id that random bytes make: the first eight characters that they pick.
    pub fn from_drawn(drawn: &Vec<u8>) -> (r: Option<Self>)
        ensures
            r.deep_view() == id_of_drawn(drawn@),
            r matches Some(id) ==> is_session_id(id@),
    {
        let mut bytes: [u8; 8] = [97; 8];
        let mut n: usize = 0;
        let mut i: usize = 0;
        while i < drawn.len() && n < 8
            invariant
                i <= drawn@.len(),
                n <= 8,
                n == picked_id_chars(drawn@.take(i as int)).len(),
                forall|k: int| 0 <= k < 8 ==> is_id_char(#[trigger] bytes@[k] as char),
                forall|k: int|
                    0 <= k < n ==> #[trigger] bytes@[k] as char == picked_id_chars(
                        drawn@.take(i as int),
                    )[k],
            decreases drawn@.len() - i,
        {
            assert(drawn@.take(i as int + 1).drop_last() =~= drawn@.take(i as int));
            if let Some(b) = pick_id_byte(drawn[i]) {
                bytes[n] = b;
                n += 1;
            }
            i += 1;
        }
        proof {
            lemma_picked_grows(drawn@, i as int);
            assert(drawn@.take(drawn@.len() as int) =~= drawn@);
        }
        if n < 8 {
            return None;
        }
        let id = SolutionSessionId { bytes };
        assert(id@ =~= picked_id_chars(drawn@).take(8));
        Some(id)
    }

    /// The id that `v` spells, where it spells one.
    fn from_chars(v: &Vec<char>) -> (r: Option<Self>)
        ensures
            r is Some <==> is_session_id(v@),
            r matches Some(id) ==> id@ == v@,
    {
        if v.len() != 8 {
            return None;
        }
        let mut bytes: [u8; 8] = [97; 8];
        let mut i: usize = 0;
        while i < 8
            invariant
                i <= 8 == v@.len(),
                forall|k: int| 0 <= k < 8 ==> is_id_char(#[trigger] bytes@[k] as char),
                forall|k: int| 0 <= k < i ==> bytes@[k] as char == v@[k],
            decreases 8 - i,
        {
            let c = v[i];
            if !(('a' <= c && c <= 'z') || ('0' <= c && c <= '9')) {
                assert(!is_id_char(v@[i as int]));
                return None;
            }
            bytes[i] = c as u8;
            i += 1;
        }
        let id = SolutionSessionId { bytes };
        assert(id@ =~= v@);
        Some(id)
    }

    /// The id made of the first eight hexadecimal digits of a UUID.
    fn from_uuid(value: u128) -> (r: Self)
        ensures
            r@ == uuid_prefix(value),
    {
        let mut n: u128 = value;
        let mut left: u8 = 32;
        proof {
            lemma_hex_digits_len(value as nat, 32);
        }
        while left > 8
            invariant
                8 <= left <= 32,
                hex_digits(value as nat, 32).take(8) == hex_digits(n as nat, left as nat).take(8),
            decreases left,
        {
            proof {
                lemma_hex_digits_len(n as nat / 16, (left - 1) as nat);
                assert(hex_digits(n as nat, left as nat).take(8) =~= hex_digits(
                    n as nat / 16,
                    (left - 1) as nat,
                ).take(8));
            }
            n = n / 16;
            left -= 1;
        }
        let mut bytes: [u8; 8] = [48; 8];
        let mut i: usize = 8;
        let ghost digits = hex_digits(n as nat, 8);
        proof {
            lemma_hex_digits_len(n as nat, 8);
            assert(digits.take(8) =~= digits);
        }
        while i > 0
            invariant
                i <= 8,
                digits.len() == 8,
                digits.take(i as int) == hex_digits(n as nat, i as nat),
                forall|k: int| 0 <= k < 8 ==> is_id_char(#[trigger] bytes@[k] as char),
                forall|k: int| i <= k < 8 ==> bytes@[k] as char == digits[k],
            decreases i,
        {
            i -= 1;
            let d: u8 = (n % 16) as u8;
            proof {
                lemma_hex_digits_len(n as nat, (i + 1) as nat);
                lemma_hex_digits_len(n as nat / 16, i as nat);
                assert(digits.take(i as int + 1)[i as int] == digits[i as int]);
                assert(digits.take(i as int) =~= hex_digits(n as nat / 16, i as nat));
            }
            bytes[i] = if d < 10 {
                d + 48
            } else {
                d + 87
            };
            n = n / 16;
        }
        let id = SolutionSessionId { bytes };
        assert(id@ =~= digits);
        id
    }

    /// The id that a text stands for, given the UUID that it reads as.
    pub fn from_text(text: &str, uuid: Option<u128>) -> (r: Option<Self>)
        ensures
            r.deep_view() == session_id_of(text@, uuid),
    {
        let v = chars_of(text);
        match SolutionSessionId::from_chars(&v) {
            Some(id) => Some(id),
            None => match uuid {
                Some(value) => Some(SolutionSessionId::from_uuid(value)),
                None => None,
            },
        }
    }

    /// The id that a text stands for: the text itself where it is an id, or
    /// else the start of the UUID that it reads as.
    pub fn parse(s: &str) -> (r: Result<Self, String>)
        ensures
            match r {
                Ok(id) => parsed_session_id(s@) == Some(id@),
                Err(message) => parsed_session_id(s@) is None && message@ == invalid_id_message(s@),
            },
    {
        match SolutionSessionId::from_text(s, parse_uuid(s)) {
            Some(id) => Ok(id),
            None => {
                let mut message = "invalid session id: ".to_owned();
                let quoted = format_debug(s);
                message.append(quoted.as_str());
                Err(message)
            },
        }
    }
}

/// Reading back the text of an id gives the same id, whatever it reads as
/// besides.
pub proof fn law_id_round_trip(id: Seq<char>)
    requires
        is_session_id(id),
    ensures
        parsed_session_id(id) == Some(id),
{
}

/// A hexadecimal digit may stand in an id.
proof fn lemma_hex_digits_are_id_chars(n: nat, len: nat)
    ensures
        hex_digits(n, len).len() == len,
        forall|i: int| 0 <= i < len ==> is_id_char(#[trigger] hex_digits(n, len)[i]),
    decreases len,
{
    if len > 0 {
        lemma_hex_digits_are_id_chars(n / 16, (len - 1) as nat);
        let before = hex_digits(n / 16, (len - 1) as nat);
        assert forall|i: int| 0 <= i < len implies is_id_char(#[trigger] hex_digits(n, len)[i]) by {
            if i < len - 1 {
                assert(hex_digits(n, len)[i] == before[i]);
            }
        }
    }
}

/// Whatever a text stands for is an id.
pub proof fn law_parsed_ids_are_ids(text: Seq<char>)
    ensures
        parsed_session_id(text) matches Some(id) ==> is_session_id(id),
{
    match uuid_value(text) {
        Some(value) => {
            lemma_hex_digits_are_id_chars(value as nat, 32);
        },
        None => {},
    }
}

/// The id of a registered agent server.
pub type AgentServerId = String;

/// How many context windows a session has used up, counting from 1.
pub type SessionContextCount = u32;

/// Stands in for the creation time of an entry of which none was recorded.
pub const NO_TIMESTAMP_MS: i64 = -1;

/// What a session is doing. An instant is a reading of the monotonic clock, in
/// nanoseconds.
#[derive(Clone, Debug)]
pub enum SessionState {
    Idle,
    Running { started_at: u64, notified: bool },
    Stopping { started_at: u64 },
    AwaitingInput,
    Errored(String),
}

/// The short label of a state.
pub open spec fn state_label(state: SessionState) -> Seq<char> {
    match state {
        SessionState::Idle => "Idle"@,
        SessionState::Running { .. } => "Running"@,
        SessionState::Stopping { .. } => "Stopping"@,
        SessionState::AwaitingInput => "Awaiting input"@,
        SessionState::Errored(_) => "Error"@,
    }
}

impl SessionState {
    /// Whether the user may be notified that the session came to rest.
    pub fn is_terminal_for_notification(&self) -> (r: bool)
        ensures
            r == (self is Idle || self is AwaitingInput || self is Errored),
    {
        match self {
            SessionState::Idle => true,
            SessionState::AwaitingInput => true,
            SessionState::Errored(_) => true,
            _ => false,
        }
    }

    /// The short label that the user sees.
    pub fn short_label(&self) -> (r: &'static str)
        ensures
            r@ == state_label(*self),
    {
        match self {
            SessionState::Idle => "Idle",
            SessionState::Running { .. } => "Running",
            SessionState::Stopping { .. } => "Stopping",
            SessionState::AwaitingInput => "Awaiting input",
            SessionState::Errored(_) => "Error",
        }
    }
}

/// Who an archived entry is from.
#[derive(Clone, Copy, Debug, PartialEq, Eq, Structural)]
pub enum PersistedRole {
    User,
    Assistant,
    /// A tool call and its result.
    Tool,
    /// A plan that the agent made.
    Plan,
    /// An entry of which this was not recorded.
    Archived,
}

impl DeepView for PersistedRole {
    type V = PersistedRole;

    open spec fn deep_view(&self) -> PersistedRole {
        *self
    }
}

/// An archived entry: who it is from and its markdown.
#[derive(Clone, Debug)]
pub struct PersistedEntry {
    pub role: PersistedRole,
    pub markdown: String,
}

/// What a [`PersistedEntry`] stands for.
#[verifier::ext_equal]
pub struct PersistedEntryView {
    pub role: PersistedRole,
    pub markdown: Seq<char>,
}

impl DeepView for PersistedEntry {
    type V = PersistedEntryView;

    open spec fn deep_view(&self) -> PersistedEntryView {
        PersistedEntryView {
            role: self.role,
            markdown: self.markdown.deep_view(),
        }
    }
}

/// Whom a queued message is for.
#[derive(Clone, Debug)]
pub enum QueueTarget {
    /// The agent of the session itself.
    Main,
    /// One of its sub-agents.
    Subagent(String),
}

/// What a [`QueueTarget`] stands for.
#[verifier::ext_equal]
pub enum QueueTargetView {
    Main,
    Subagent(Seq<char>),
}

impl DeepView for QueueTarget {
    type V = QueueTargetView;

    open spec fn deep_view(&self) -> QueueTargetView {
        match self {
            QueueTarget::Main => QueueTargetView::Main,
            QueueTarget::Subagent(value) => QueueTargetView::Subagent(value.deep_view()),
        }
    }
}

/// A message that waits until the agent is free.
#[derive(Clone, Debug)]
pub struct PendingBundle {
    pub target: QueueTarget,
    pub blocks: Vec<PromptBlock>,
}

/// What a [`PendingBundle`] stands for.
#[verifier::ext_equal]
pub struct PendingBundleView {
    pub target: QueueTargetView,
    pub blocks: Seq<PromptBlockView>,
}

impl DeepView for PendingBundle {
    type V = PendingBundleView;

    open spec fn deep_view(&self) -> PendingBundleView {
        PendingBundleView {
            target: self.target.deep_view(),
            blocks: self.blocks.deep_view(),
        }
    }
}

/// A sub-agent that is at work.
#[derive(Clone, Debug)]
pub struct SubagentTab {
    pub label: String,
    pub started_at: Timestamp,
}

/// What a [`SubagentTab`] stands for.
#[verifier::ext_equal]
pub struct SubagentTabView {
    pub label: Seq<char>,
    pub started_at: Timestamp,
}

impl DeepView for SubagentTab {
    type V = SubagentTabView;

    open spec fn deep_view(&self) -> SubagentTabView {
        SubagentTabView {
            label: self.label.deep_view(),
            started_at: self.started_at,
        }
    }
}

/// An entry of a conversation together with the markdown that it renders to.
#[derive(Clone, Debug)]
pub struct ThreadEntry {
    pub entry: AgentThreadEntry,
    pub markdown: String,
}

/// What a [`ThreadEntry`] stands for.
#[verifier::ext_equal]
pub struct ThreadEntryView {
    pub entry: AgentThreadEntryView,
    pub markdown: Seq<char>,
}

impl DeepView for ThreadEntry {
    type V = ThreadEntryView;

    open spec fn deep_view(&self) -> ThreadEntryView {
        ThreadEntryView {
            entry: self.entry.deep_view(),
            markdown: self.markdown.deep_view(),
        }
    }
}

/// What the agent reports of its context window.
#[derive(Clone, Copy, Debug, PartialEq, Eq, Structural)]
pub struct TokenUsage {
    pub used_tokens: u64,
    /// The size of the window; zero where the agent has not said.
    pub max_tokens: u64,
}

/// The conversation with a running agent.
#[derive(Clone, Debug)]
pub struct AcpThread {
    pub entries: Vec<ThreadEntry>,
    pub token_usage: Option<TokenUsage>,
}

/// An event of a session.
#[derive(Clone, Copy, Debug, PartialEq, Eq, Structural)]
pub enum SolutionSessionEvent {
    /// The conversation was replaced: whatever hangs on the old one is to be
    /// attached to the new one.
    ThreadReplaced,
}

/// The place of a session's conversation. Only the session itself can fill it.
#[derive(Clone, Debug)]
pub struct ThreadSlot {
    thread: Option<AcpThread>,
}

impl ThreadSlot {
    /// The conversation in this place.
    pub closed spec fn holds(self) -> Option<AcpThread> {
        self.thread
    }
}

/// A session of an agent, scoped to a solution.
#[derive(Clone, Debug)]
pub struct SolutionSession {
    pub id: SolutionSessionId,
    pub solution_id: String,
    pub agent_id: AgentServerId,
    pub acp_session_id: String,
    /// The conversation, if there is one; replaced only through
    /// [`SolutionSession::set_acp_thread`].
    pub slot: ThreadSlot,
    pub title: String,
    pub created_at: Timestamp,
    pub last_activity_at: Timestamp,
    pub state: SessionState,
    /// The working directory; empty stands for the root of the solution.
    pub cwd: String,
    pub context_count: SessionContextCount,
    /// Messages that wait until the agent is free, oldest first.
    pub pending_messages: Vec<PendingBundle>,
    /// Whether cancelling the turn sends the waiting messages.
    pub flush_after_cancel: bool,
    /// The conversation from before a restart.
    pub cold_entries: Vec<ThreadEntry>,
    /// When each entry was made, in milliseconds since the epoch.
    pub entry_created_ms: Vec<i64>,
    pub last_turn_duration_ms: Option<u64>,
    pub cached_total_tokens: Option<u64>,
    pub cached_max_tokens: Option<u64>,
    pub parent_session_id: Option<SolutionSessionId>,
    /// The sub-agents at work, by id.
    pub active_subagents: Vec<(String, SubagentTab)>,
    /// The ids of the sub-agents, in the order in which they started.
    pub active_subagent_order: Vec<String>,
    pub background_shells: Vec<BackgroundShell>,
    pub background_shell_order: Vec<BackgroundShellId>,
    pub background_agents: Vec<BackgroundAgent>,
    pub background_agent_order: Vec<BackgroundAgentId>,
}

impl SolutionSession {
    /// The conversation with the running agent, if there is one.
    pub open spec fn thread(self) -> Option<AcpThread> {
        self.slot.holds()
    }

    /// A fresh session that is idle and has no conversation yet, created now.
    pub fn new_idle(
        id: SolutionSessionId,
        solution_id: String,
        agent_id: AgentServerId,
        acp_session_id: String,
    ) -> (r: Self)
        ensures
            r.id == id,
            r.solution_id == solution_id,
            r.agent_id == agent_id,
            r.acp_session_id == acp_session_id,
            r.thread() is None,
            r.title@.len() == 0,
            r.state == SessionState::Idle,
            r.cwd@.len() == 0,
            r.context_count == 1,
            r.pending_messages@.len() == 0,
            !r.flush_after_cancel,
            r.cold_entries@.len() == 0,
            r.entry_created_ms@.len() == 0,
            r.last_turn_duration_ms is None,
            r.cached_total_tokens is None,
            r.cached_max_tokens is None,
            r.parent_session_id is None,
            r.active_subagents@.len() == 0,
            r.active_subagent_order@.len() == 0,
            r.background_shells@.len() == 0,
            r.background_shell_order@.len() == 0,
            r.background_agents@.len() == 0,
            r.background_agent_order@.len() == 0,
    {
        SolutionSession {
            id,
            solution_id,
            agent_id,
            acp_session_id,
            slot: ThreadSlot { thread: None },
            title: String::new(),
            created_at: Timestamp::now(),
            last_activity_at: Timestamp::now(),
            state: SessionState::Idle,
            cwd: String::new(),
            context_count: 1,
            pending_messages: Vec::new(),
            flush_after_cancel: false,
            cold_entries: Vec::new(),
            entry_created_ms: Vec::new(),
            last_turn_duration_ms: None,
            cached_total_tokens: None,
            cached_max_tokens: None,
            parent_session_id: None,
            active_subagents: Vec::new(),
            active_subagent_order: Vec::new(),
            background_shells: Vec::new(),
            background_shell_order: Vec::new(),
            background_agents: Vec::new(),
            background_agent_order: Vec::new(),
        }
    }

    /// Whether no agent runs behind the session, so that only the conversation
    /// from before the restart can be shown.
    pub fn is_cold(&self) -> (r: bool)
        ensures
            r == (self.thread() is None),
    {
        self.slot.thread.is_none()
    }

    /// The conversation with the running agent, if there is one.
    pub fn acp_thread(&self) -> (r: Option<&AcpThread>)
        ensures
            match r {
                Some(thread) => self.thread() == Some(*thread),
                None => self.thread() is None,
            },
    {
        self.slot.thread.as_ref()
    }

    /// Replaces the conversation and nothing else, and returns the event that
    /// tells of it.
    pub fn set_acp_thread(&mut self, thread: Option<AcpThread>) -> (event: SolutionSessionEvent)
        ensures
            event == SolutionSessionEvent::ThreadReplaced,
            final(self).thread() == thread,
            final(self).same_but_thread(*old(self)),
    {
        self.slot = ThreadSlot { thread };
        SolutionSessionEvent::ThreadReplaced
    }

    /// Whether the two sessions agree on everything but the conversation.
    pub open spec fn same_but_thread(self, other: Self) -> bool {
        &&& self.id == other.id
        &&& self.solution_id == other.solution_id
        &&& self.agent_id == other.agent_id
        &&& self.acp_session_id == other.acp_session_id
        &&& self.title == other.title
        &&& self.created_at == other.created_at
        &&& self.last_activity_at == other.last_activity_at
        &&& self.state == other.state
        &&& self.cwd == other.cwd
        &&& self.context_count == other.context_count
        &&& self.pending_messages == other.pending_messages
        &&& self.flush_after_cancel == other.flush_after_cancel
        &&& self.cold_entries == other.cold_entries
        &&& self.entry_created_ms == other.entry_created_ms
        &&& self.last_turn_duration_ms == other.last_turn_duration_ms
        &&& self.cached_total_tokens == other.cached_total_tokens
        &&& self.cached_max_tokens == other.cached_max_tokens
        &&& self.parent_session_id == other.parent_session_id
        &&& self.active_subagents == other.active_subagents
        &&& self.active_subagent_order == other.active_subagent_order
        &&& self.background_shells == other.background_shells
        &&& self.background_shell_order == other.background_shell_order
        &&& self.background_agents == other.background_agents
        &&& self.background_agent_order == other.background_agent_order
    }
}

/// What is remembered of a session without its conversation.
#[derive(Clone, Debug)]
pub struct SolutionSessionMetadata {
    pub id: SolutionSessionId,
    pub solution_id: String,
    pub agent_id: AgentServerId,
    pub acp_session_id: String,
    pub title: String,
    pub created_at: Timestamp,
    pub last_activity_at: Timestamp,
    /// The start of the first prompt.
    pub preview: Option<String>,
    pub total_tokens: Option<u64>,
    pub context_count: SessionContextCount,
    /// The working directory; empty stands for the root of the solution.
    pub cwd: String,
    pub parent_session_id: Option<SolutionSessionId>,
}

/// What a [`SolutionSessionMetadata`] stands for.
#[verifier::ext_equal]
pub struct SolutionSessionMetadataView {
    pub id: Seq<char>,
    pub solution_id: Seq<char>,
    pub agent_id: Seq<char>,
    pub acp_session_id: Seq<char>,
    pub title: Seq<char>,
    pub created_at: Timestamp,
    pub last_activity_at: Timestamp,
    pub preview: Option<Seq<char>>,
    pub total_tokens: Option<u64>,
    pub context_count: u32,
    pub cwd: Seq<char>,
    pub parent_session_id: Option<Seq<char>>,
}

impl DeepView for SolutionSessionMetadata {
    type V = SolutionSessionMetadataView;

    open spec fn deep_view(&self) -> SolutionSessionMetadataView {
        SolutionSessionMetadataView {
            id: self.id@,
            solution_id: self.solution_id@,
            agent_id: self.agent_id@,
            acp_session_id: self.acp_session_id@,
            title: self.title@,
            created_at: self.created_at,
            last_activity_at: self.last_activity_at,
            preview: self.preview.deep_view(),
            total_tokens: self.total_tokens,
            context_count: self.context_count,
            cwd: self.cwd@,
            parent_session_id: self.parent_session_id.deep_view(),
        }
    }
}

} // verus!
