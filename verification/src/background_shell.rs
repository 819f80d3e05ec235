//! Background shells: commands that keep running beside a conversation and
//! write their output to a file.
use crate::background_agent::{plan_read, read_start};
use crate::clock::Timestamp;
use crate::duplicate::Duplicate;
use crate::json::{value_as_str, value_get, value_tree, JsonTree};
use crate::pattern::{
    capture, first_group, pattern_groups, EXIT_CODE_PATTERN, SHELL_ID_PATTERN,
    SHELL_OUTPUT_PATH_PATTERN, STATUS_PATTERN, TASK_ID_PATTERN,
};
use crate::text::{
    contains, contains_text, lemma_signed_decimal_injective, parse_i32, parsed_signed, print_i64,
    same_text, signed_decimal, take_chars,
};
use vstd::prelude::*;
use vstd::string::*;
use vstd::utf8::{decode_utf8, valid_utf8};

verus! {

/// How much of the end of an output file is kept, in bytes.
pub const OUTPUT_TAIL_CAP: usize = 65536;

/// The status of a shell that ran to its end.
pub const COMPLETED_STATUS: &'static str = "completed";

/// The id of a background shell: a short random token.
#[derive(Clone, Debug, PartialEq, Eq, Hash)]
pub struct BackgroundShellId(String);

impl DeepView for BackgroundShellId {
    type V = Seq<char>;

    closed spec fn deep_view(&self) -> Seq<char> {
        self.0@
    }
}

impl Duplicate for BackgroundShellId {
    fn duplicate(&self) -> (r: Self) {
        BackgroundShellId(self.0.clone())
    }
}

impl BackgroundShellId {
    pub fn new(id: &str) -> (r: Self)
        ensures
            r.deep_view() == id@,
    {
        BackgroundShellId(id.to_owned())
    }

    pub fn as_str(&self) -> (r: &str)
        ensures
            r@ == self.deep_view(),
    {
        self.0.as_str()
    }

    /// The first nine characters, for display.
    pub fn short(&self) -> (r: String)
        ensures
            r@ == (if self.deep_view().len() <= 9 {
                self.deep_view()
            } else {
                self.deep_view().take(9)
            }),
    {
        take_chars(self.0.as_str(), 9).to_owned()
    }
}

/// Whether a background shell runs, and how it ended.
#[derive(Clone, Copy, Debug, PartialEq, Eq, Structural)]
pub enum ShellRuntimeState {
    Running,
    /// The process ended; its exit code, where it is known.
    Exited(Option<i32>),
    Killed,
}

/// How a state is written in the database.
pub open spec fn state_text(state: ShellRuntimeState) -> Seq<char> {
    match state {
        ShellRuntimeState::Running => "running"@,
        ShellRuntimeState::Exited(Some(code)) => "exited:"@ + signed_decimal(code as int),
        ShellRuntimeState::Exited(None) => "exited"@,
        ShellRuntimeState::Killed => "killed"@,
    }
}

impl ShellRuntimeState {
    /// How the state is written in the database: `running`, `exited:N`,
    /// `exited` where the code is unknown, or `killed`.
    pub fn to_state_text(&self) -> (r: String)
        ensures
            r@ == state_text(*self),
    {
        match self {
            ShellRuntimeState::Running => "running".to_owned(),
            ShellRuntimeState::Exited(Some(code)) => {
                let mut out = "exited:".to_owned();
                let digits = print_i64(*code as i64);
                out.append(digits.as_str());
                out
            },
            ShellRuntimeState::Exited(None) => "exited".to_owned(),
            ShellRuntimeState::Killed => "killed".to_owned(),
        }
    }
}

/// Different states are written differently.
pub proof fn law_state_text_is_injective(a: ShellRuntimeState, b: ShellRuntimeState)
    requires
        state_text(a) == state_text(b),
    ensures
        a == b,
{
    reveal_strlit("running");
    reveal_strlit("exited:");
    reveal_strlit("exited");
    reveal_strlit("killed");
    assert("running"@[0] == 'r' && "killed"@[0] == 'k' && "exited"@[0] == 'e');
    assert("exited:"@[0] == 'e' && "exited:"@.len() == 7 && "exited"@.len() == 6);
    assert(state_text(a)[0] == state_text(b)[0]);
    assert(state_text(a).len() == state_text(b).len());
    match (a, b) {
        (ShellRuntimeState::Exited(Some(x)), ShellRuntimeState::Exited(Some(y))) => {
            lemma_signed_decimal_injective(x as int, y as int);
            assert(state_text(a).skip(7) =~= signed_decimal(x as int));
            assert(state_text(b).skip(7) =~= signed_decimal(y as int));
        },
        (ShellRuntimeState::Exited(Some(x)), ShellRuntimeState::Exited(None)) => {
            lemma_signed_decimal_injective(x as int, x as int);
        },
        (ShellRuntimeState::Exited(None), ShellRuntimeState::Exited(Some(y))) => {
            lemma_signed_decimal_injective(y as int, y as int);
        },
        _ => {},
    }
}

/// The end of a background shell's output when it was last looked at.
#[derive(Clone, Debug)]
pub struct BackgroundShellSnapshot {
    pub mtime: Timestamp,
    pub output_tail: String,
}

/// A background shell.
#[derive(Clone, Debug)]
pub struct BackgroundShell {
    pub id: BackgroundShellId,
    /// The command line that it runs.
    pub command: String,
    /// Where its output goes.
    pub output_path: String,
    pub registered_at: Timestamp,
    pub latest: Option<BackgroundShellSnapshot>,
    /// How long the output file was when it was last read.
    pub last_offset: u64,
    pub state: ShellRuntimeState,
}

/// The two parts of a launch announcement, where both are there.
pub open spec fn launch(id: Option<Seq<char>>, path: Option<Seq<char>>) -> Option<
    (Seq<char>, Seq<char>),
> {
    match (id, path) {
        (Some(id), Some(path)) => Some((id, path)),
        _ => None,
    }
}

/// Reads the launch announcement of a background shell out of a tool call's raw
/// output. Nothing where the id or the output path is missing.
pub fn parse_bash_bg_launch(raw_output: &str) -> (r: Option<(BackgroundShellId, String)>)
    ensures
        r.deep_view() == launch(
            first_group(pattern_groups(SHELL_ID_PATTERN@, raw_output@)),
            first_group(pattern_groups(SHELL_OUTPUT_PATH_PATTERN@, raw_output@)),
        ),
{
    let id = match capture(SHELL_ID_PATTERN, raw_output) {
        Some(id) => id,
        None => {
            return None;
        },
    };
    let path = match capture(SHELL_OUTPUT_PATH_PATTERN, raw_output) {
        Some(path) => path,
        None => {
            return None;
        },
    };
    Some((BackgroundShellId::new(id.as_str()), path))
}

/// The notice that a background shell has ended.
#[derive(Clone, Debug, PartialEq, Eq)]
pub struct TaskNotification {
    pub id: BackgroundShellId,
    pub status: ShellRuntimeState,
}

/// The exit code that a notice spells, where it spells one that fits.
pub open spec fn exit_code(digits: Option<Seq<char>>) -> Option<int> {
    match digits {
        Some(digits) => parsed_signed(digits, i32::MIN as int, i32::MAX as int),
        None => None,
    }
}

/// The end state that goes with an exit code.
pub open spec fn is_exit(state: ShellRuntimeState, code: Option<int>) -> bool {
    match code {
        Some(code) => state matches ShellRuntimeState::Exited(Some(n)) && n == code,
        None => state == ShellRuntimeState::Exited(None),
    }
}

/// The exit code that a notice reports. Where the notice names a status, only the
/// code of a shell that has completed counts.
pub open spec fn reported_code(
    status: Option<Seq<char>>,
    exit_digits: Option<Seq<char>>,
) -> Option<int> {
    if status matches Some(name) && name != COMPLETED_STATUS@ {
        None
    } else {
        exit_code(exit_digits)
    }
}

/// The notice with the given task id, status and exit code, as they were found in
/// the text.
pub fn notification_from(
    task_id: Option<String>,
    status: Option<String>,
    exit_digits: Option<String>,
) -> (r: Option<TaskNotification>)
    ensures
        r is Some <==> task_id is Some,
        r matches Some(notice) ==> notice.id.deep_view() == task_id->0@ && is_exit(
            notice.status,
            reported_code(status.deep_view(), exit_digits.deep_view()),
        ),
{
    match task_id {
        Some(id) => {
            let completed = match status {
                Some(status) => same_text(status.as_str(), COMPLETED_STATUS),
                None => true,
            };
            let code = match exit_digits {
                Some(digits) => if completed {
                    parse_i32(digits.as_str())
                } else {
                    None
                },
                None => None,
            };
            Some(
                TaskNotification {
                    id: BackgroundShellId::new(id.as_str()),
                    status: ShellRuntimeState::Exited(code),
                },
            )
        },
        None => None,
    }
}

/// Reads the notice that a background shell has ended. Nothing where the notice
/// or its task id is missing.
pub fn parse_task_notification(text: &str) -> (r: Option<TaskNotification>)
    ensures
        r is Some <==> contains_text(text@, "<task-notification>"@) && first_group(
            pattern_groups(TASK_ID_PATTERN@, text@),
        ) is Some,
        r matches Some(notice) ==> {
            &&& notice.id.deep_view() == first_group(pattern_groups(TASK_ID_PATTERN@, text@))->0
            &&& is_exit(
                notice.status,
                reported_code(
                    first_group(pattern_groups(STATUS_PATTERN@, text@)),
                    first_group(pattern_groups(EXIT_CODE_PATTERN@, text@)),
                ),
            )
        },
{
    if !contains(text, "<task-notification>") {
        return None;
    }
    notification_from(
        capture(TASK_ID_PATTERN, text),
        capture(STATUS_PATTERN, text),
        capture(EXIT_CODE_PATTERN, text),
    )
}

/// What a key of a request holds, where that is a text that is not empty.
pub open spec fn filled_text(input: JsonTree, key: Seq<char>) -> Option<Seq<char>> {
    match input.field(key) {
        Some(JsonTree::Text(text)) => if text.len() > 0 {
            Some(text)
        } else {
            None
        },
        _ => None,
    }
}

/// The shell that a kill request names: what the first of `shell_id` and
/// `bash_id` holds whose value is a text that is not empty.
pub open spec fn kill_target(input: JsonTree) -> Option<Seq<char>> {
    match filled_text(input, "shell_id"@) {
        Some(text) => Some(text),
        None => filled_text(input, "bash_id"@),
    }
}

/// What a key of a request holds, where that is a text that is not empty.
fn named_shell(raw_input: &serde_json::Value, key: &str) -> (r: Option<BackgroundShellId>)
    ensures
        r.deep_view() == filled_text(value_tree(*raw_input), key@),
{
    match value_get(raw_input, key) {
        Some(value) => match value_as_str(value) {
            Some(text) => if text.is_empty() {
                None
            } else {
                Some(BackgroundShellId::new(text))
            },
            None => None,
        },
        None => None,
    }
}

/// The shell that a kill request names.
pub fn parse_kill_shell_input(raw_input: &serde_json::Value) -> (r: Option<BackgroundShellId>)
    ensures
        r.deep_view() == kill_target(value_tree(*raw_input)),
{
    match named_shell(raw_input, "shell_id") {
        Some(id) => Some(id),
        None => named_shell(raw_input, "bash_id"),
    }
}

/// The text that bytes decode to, with a replacement character for whatever is
/// no UTF-8.
pub uninterp spec fn lossy_text(bytes: Seq<u8>) -> Seq<char>;

/// `String::from_utf8_lossy`: bytes that are UTF-8 decode to their text; of
/// others, the result depends on the bytes alone.
#[verifier::external_body]
pub(crate) fn decode_lossy(bytes: &Vec<u8>) -> (r: String)
    ensures
        r@ == lossy_text(bytes@),
        valid_utf8(bytes@) ==> r@ == decode_utf8(bytes@),
{
    String::from_utf8_lossy(bytes).into_owned()
}

/// The end of an output file.
#[derive(Clone, Debug)]
pub struct OutputTail {
    pub text: String,
    /// How long the file is.
    pub new_offset: u64,
    pub mtime: Timestamp,
}

/// Where to start reading an output file of `len` bytes, so as to read only its
/// end.
pub fn output_read_start(len: u64, since_offset: u64) -> (r: u64)
    ensures
        r == read_start(len as nat, since_offset as nat, OUTPUT_TAIL_CAP as nat),
        r <= len,
        len - r <= OUTPUT_TAIL_CAP,
{
    plan_read(len, since_offset, OUTPUT_TAIL_CAP as u64)
}

/// The end of an output file of `len` bytes, given the bytes that were read.
pub fn output_tail_of(len: u64, bytes: &Vec<u8>, mtime: Timestamp) -> (r: OutputTail)
    ensures
        r.text@ == lossy_text(bytes@),
        valid_utf8(bytes@) ==> r.text@ == decode_utf8(bytes@),
        r.new_offset == len,
        r.mtime == mtime,
{
    OutputTail { text: decode_lossy(bytes), new_offset: len, mtime }
}

} // verus!
