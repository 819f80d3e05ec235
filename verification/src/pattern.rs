//! The regular expressions of the crate and the calls into `regex`.
use vstd::prelude::*;

verus! {

/// The id in the announcement of a managed agent.
pub const AGENT_ID_PATTERN: &'static str = "agentId:\\s+([0-9a-f]{16,32})\\b";

/// The transcript path in the announcement of a managed agent.
pub const OUTPUT_FILE_PATTERN: &'static str = "output_file:\\s+(\\S+\\.output)\\b";

/// The id in the announcement of a background shell.
pub const SHELL_ID_PATTERN: &'static str = "\\bID:\\s+(\\w+)\\b";

/// The output path in the announcement of a background shell.
pub const SHELL_OUTPUT_PATH_PATTERN: &'static str = "written to:\\s+(\\S+\\.output)\\b";

/// The task id in a task notification.
pub const TASK_ID_PATTERN: &'static str = "<task-id>\\s*([^<\\s]+)\\s*</task-id>";

/// The status in a task notification.
pub const STATUS_PATTERN: &'static str = "(?s)<status>\\s*(.*?)\\s*</status>";

/// The exit code at the end of the summary of a task notification.
pub const EXIT_CODE_PATTERN: &'static str =
    "(?s)<summary>.*?\\(exit code (-?\\d+)\\)\\s*</summary>";

/// A numbered image placeholder in a user message.
pub const IMAGE_PLACEHOLDER_PATTERN: &'static str = "\\[image #(\\d+)\\]";

/// Whether `pattern` is one of the patterns above, all of which compile.
pub open spec fn is_known_pattern(pattern: Seq<char>) -> bool {
    ||| pattern == AGENT_ID_PATTERN@
    ||| pattern == OUTPUT_FILE_PATTERN@
    ||| pattern == SHELL_ID_PATTERN@
    ||| pattern == SHELL_OUTPUT_PATH_PATTERN@
    ||| pattern == TASK_ID_PATTERN@
    ||| pattern == STATUS_PATTERN@
    ||| pattern == EXIT_CODE_PATTERN@
    ||| pattern == IMAGE_PLACEHOLDER_PATTERN@
}

/// What the first group took in, match by match, over the successive
/// non-overlapping matches of `pattern` in `text`.
pub uninterp spec fn pattern_groups(pattern: Seq<char>, text: Seq<char>) -> Seq<Option<Seq<char>>>;

/// What stands before, between and after the successive non-overlapping
/// matches of `pattern` in `text`.
pub uninterp spec fn pattern_gaps(pattern: Seq<char>, text: Seq<char>) -> Seq<Seq<char>>;

/// `Regex::captures_iter`: the first group of every match, in order.
#[verifier::external_body]
pub(crate) fn find_groups(pattern: &str, text: &str) -> (r: Vec<Option<String>>)
    requires
        is_known_pattern(pattern@),
    ensures
        r.deep_view() == pattern_groups(pattern@, text@),
{
    let regex = regex::Regex::new(pattern).expect("pattern compiles");
    regex
        .captures_iter(text)
        .map(|captures| captures.get(1).map(|group| group.as_str().to_string()))
        .collect()
}

/// `Regex::split`: the text around the matches, one piece more than there are
/// matches.
#[verifier::external_body]
pub(crate) fn find_gaps(pattern: &str, text: &str) -> (r: Vec<String>)
    requires
        is_known_pattern(pattern@),
    ensures
        r.deep_view() == pattern_gaps(pattern@, text@),
        r@.len() == pattern_groups(pattern@, text@).len() + 1,
{
    let regex = regex::Regex::new(pattern).expect("pattern compiles");
    regex.split(text).map(|piece| piece.to_string()).collect()
}

/// What the first group took in, in the first match, if both are there.
pub open spec fn first_group(groups: Seq<Option<Seq<char>>>) -> Option<Seq<char>> {
    if groups.len() == 0 {
        None
    } else {
        groups[0]
    }
}

/// What the first group of `pattern` took in, in the first match in `text`.
pub(crate) fn capture(pattern: &str, text: &str) -> (r: Option<String>)
    requires
        is_known_pattern(pattern@),
    ensures
        r.deep_view() == first_group(pattern_groups(pattern@, text@)),
{
    let mut groups = find_groups(pattern, text);
    let ghost all = groups.deep_view();
    if groups.len() == 0 {
        None
    } else {
        assert(all[0] == groups@[0].deep_view());
        groups.swap_remove(0)
    }
}

} // verus!
