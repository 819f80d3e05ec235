//! What a conversation looks like on the screen: the parts of each entry, in
//! order, with all that has to be known to draw them.
use crate::clock::{toward_zero, Timestamp, LAST_SECOND};
use crate::conversation_render::{
    chunk_texts, clean_user_message_text, collect_chunk_texts, contains_answer, content_spans,
    has_answer, shown_user_text, spans_of, tool_call_spans,
};
use crate::duplicate::{push_value, Duplicate};
use crate::images::{base64_bytes, decode_image_local};
use crate::json::JsonTree;
use crate::permissions::{
    buttons_of, is_allow_kind, permission_buttons, status_text, tool_call_status_text,
    PermissionButton, PermissionButtonView,
};
use crate::text::{
    clipped, has_prefix, join, joined, parse_usize, parsed_unsigned, same_text, strip_prefix,
};
use crate::thread::{
    AgentThreadEntry, AgentThreadEntryView, AssistantMessage, AssistantMessageView, ImageData,
    ImageDataView, PlanEntry, PromptBlock, PromptBlockView, PromptContent, PromptContentView,
    ToolCall, ToolCallContentView, ToolCallStatus, ToolCallStatusView, ToolCallView, UserMessage,
};
use crate::tool_output::{
    on_one_line, picked_argument, tool_call_arg_preview, MAX_ARG_PREVIEW,
};
use vstd::prelude::*;
use vstd::string::*;

verus! {

/// The address of an image of a message starts like this.
pub const IMAGE_SCHEME: &'static str = "spk-image://";

/// What a click on a link opens.
#[derive(Clone, Copy, Debug, PartialEq, Eq, Structural)]
pub enum LinkTarget {
    /// An image of the message.
    Image(usize),
    /// The address itself.
    Address,
}

/// What a click on a link opens, in a message with so many images.
pub open spec fn target_of(url: Seq<char>, image_count: nat) -> LinkTarget {
    if has_prefix(url, IMAGE_SCHEME@) {
        match parsed_unsigned(url.skip(IMAGE_SCHEME@.len() as int), usize::MAX as nat) {
            Some(n) => if n < image_count {
                LinkTarget::Image(n as usize)
            } else {
                LinkTarget::Address
            },
            None => LinkTarget::Address,
        }
    } else {
        LinkTarget::Address
    }
}

/// What a click on a link opens, in a message with so many images.
pub fn link_target(url: &str, image_count: usize) -> (r: LinkTarget)
    ensures
        r == target_of(url@, image_count as nat),
{
    match strip_prefix(url, IMAGE_SCHEME) {
        Some(number) => match parse_usize(number) {
            Some(n) => if n < image_count {
                LinkTarget::Image(n)
            } else {
                LinkTarget::Address
            },
            None => LinkTarget::Address,
        },
        None => LinkTarget::Address,
    }
}

/// A part of an entry: where its formatted text is found among those of the
/// entry, and the text to show until it is there.
#[derive(Clone, Debug)]
pub struct ShownSpan {
    pub index: usize,
    pub fallback: String,
}

/// What a [`ShownSpan`] stands for.
#[verifier::ext_equal]
pub struct ShownSpanView {
    pub index: usize,
    pub fallback: Seq<char>,
}

impl DeepView for ShownSpan {
    type V = ShownSpanView;

    open spec fn deep_view(&self) -> ShownSpanView {
        ShownSpanView { index: self.index, fallback: self.fallback.deep_view() }
    }
}

/// How a part of an entry is drawn.
#[derive(Clone, Copy, Debug, PartialEq, Eq, Structural)]
pub enum SpanShape {
    /// By its formatted text.
    Formatted,
    /// As plain text.
    Plain,
    /// Not at all.
    Nothing,
}

/// How a part of an entry is drawn, given whether its formatted text is there.
pub fn render_span(span: &ShownSpan, is_formatted: bool) -> (r: SpanShape)
    ensures
        r == if is_formatted {
            SpanShape::Formatted
        } else if span.fallback@.len() > 0 {
            SpanShape::Plain
        } else {
            SpanShape::Nothing
        },
{
    if is_formatted {
        SpanShape::Formatted
    } else if span.fallback.as_str().is_empty() {
        SpanShape::Nothing
    } else {
        SpanShape::Plain
    }
}

/// The parts of an entry, numbered from `first` on.
pub open spec fn numbered_spans(texts: Seq<Seq<char>>, first: int) -> Seq<ShownSpanView> {
    Seq::new(
        texts.len(),
        |i: int| ShownSpanView { index: (first + i) as usize, fallback: texts[i] },
    )
}

/// The parts of an entry, numbered from `first` on.
fn number_spans(texts: &Vec<String>, first: usize) -> (r: Vec<ShownSpan>)
    requires
        first + texts@.len() <= usize::MAX,
    ensures
        r.deep_view() == numbered_spans(texts.deep_view(), first as int),
{
    let ghost all = texts.deep_view();
    let ghost want = numbered_spans(all, first as int);
    let mut out: Vec<ShownSpan> = Vec::new();
    let mut i: usize = 0;
    assert(out.deep_view() =~= want.take(0));
    while i < texts.len()
        invariant
            i <= texts@.len(),
            first + texts@.len() <= usize::MAX,
            all == texts.deep_view(),
            want == numbered_spans(all, first as int),
            out.deep_view() == want.take(i as int),
        decreases texts@.len() - i,
    {
        assert(all[i as int] == texts@[i as int]@);
        push_value(&mut out, ShownSpan { index: first + i, fallback: texts[i].clone() });
        i += 1;
        assert(want.take(i as int) =~= want.take(i - 1).push(want[i - 1]));
    }
    assert(want.take(i as int) =~= want);
    out
}

/// Whether `time` is the one to show next to a message that was made at
/// `created_ms`: none where that was not recorded.
pub open spec fn is_shown_time(time: Option<Timestamp>, created_ms: Option<i64>) -> bool {
    match created_ms {
        Some(ms) => if 0 < ms <= LAST_SECOND * 1000 + 999 {
            time matches Some(t) && t.millis() == ms
        } else {
            time is None
        },
        None => time is None,
    }
}

/// The time to show next to a message, if any.
pub fn render_message_time(created_ms: Option<i64>) -> (r: Option<Timestamp>)
    ensures
        is_shown_time(r, created_ms),
{
    match created_ms {
        Some(ms) => {
            if ms > 0 {
                Timestamp::from_timestamp_millis(ms)
            } else {
                None
            }
        },
        None => None,
    }
}

/// Whether a media type is one of those that can be shown.
pub open spec fn can_be_shown(mime_type: Seq<char>, supported: Seq<Seq<char>>) -> bool {
    exists|i: int| 0 <= i < supported.len() && #[trigger] supported[i] == mime_type
}

/// The images among `blocks` that can be decoded and shown.
pub open spec fn shown_images(blocks: Seq<PromptBlockView>, supported: Seq<Seq<char>>) -> Seq<
    ImageDataView,
>
    decreases blocks.len(),
{
    if blocks.len() == 0 {
        Seq::empty()
    } else {
        let before = shown_images(blocks.drop_last(), supported);
        match blocks.last().content {
            PromptContentView::Image { data, mime_type } => match base64_bytes(data) {
                Some(bytes) => if can_be_shown(mime_type, supported) {
                    before.push(ImageDataView { mime_type, bytes })
                } else {
                    before
                },
                None => before,
            },
            _ => before,
        }
    }
}

/// Whether a media type is one of those that can be shown.
fn is_supported(mime_type: &str, supported: &Vec<String>) -> (r: bool)
    ensures
        r == can_be_shown(mime_type@, supported.deep_view()),
{
    let ghost all = supported.deep_view();
    let mut i: usize = 0;
    while i < supported.len()
        invariant
            i <= supported@.len(),
            all == supported.deep_view(),
            forall|k: int| 0 <= k < i ==> #[trigger] all[k] != mime_type@,
        decreases supported@.len() - i,
    {
        assert(all[i as int] == supported@[i as int]@);
        if same_text(supported[i].as_str(), mime_type) {
            return true;
        }
        i += 1;
    }
    false
}

/// The images among `blocks` that can be decoded and shown.
fn collect_images(blocks: &Vec<PromptBlock>, supported: &Vec<String>) -> (r: Vec<ImageData>)
    ensures
        r.deep_view() == shown_images(blocks.deep_view(), supported.deep_view()),
{
    let ghost all = blocks.deep_view();
    let mut out: Vec<ImageData> = Vec::new();
    let mut i: usize = 0;
    assert(out.deep_view() =~= shown_images(all.take(0), supported.deep_view()));
    while i < blocks.len()
        invariant
            i <= blocks@.len(),
            all == blocks.deep_view(),
            out.deep_view() == shown_images(all.take(i as int), supported.deep_view()),
        decreases blocks@.len() - i,
    {
        assert(all[i as int] == blocks@[i as int].deep_view());
        assert(all.take(i as int + 1).drop_last() =~= all.take(i as int));
        if let PromptContent::Image { data, mime_type } = &blocks[i].content {
            let shown = is_supported(mime_type.as_str(), supported);
            if let Some(image) = decode_image_local(data.as_str(), mime_type.as_str(), shown) {
                push_value(&mut out, image);
            }
        }
        i += 1;
    }
    assert(all.take(i as int) =~= all);
    out
}

/// How a user message is drawn.
pub struct UserRow {
    pub span: ShownSpan,
    /// What the copy button copies.
    pub copied: String,
    /// The images that its links open.
    pub images: Vec<ImageData>,
    pub time: Option<Timestamp>,
}

/// How a user message is drawn. `hint` is the line that the queue may put in
/// front of it, `supported` the media types of images that can be shown.
pub fn render_user_message(
    message: &UserMessage,
    created_ms: Option<i64>,
    hint: &str,
    supported: &Vec<String>,
) -> (r: UserRow)
    ensures
        r.span.index == 0,
        r.span.fallback@ == shown_user_text(message.deep_view().content.source(), hint@),
        r.copied@ == r.span.fallback@,
        r.images.deep_view() == shown_images(message.deep_view().chunks, supported.deep_view()),
        is_shown_time(r.time, created_ms),
{
    let text = clean_user_message_text(message.content.to_markdown(), hint);
    UserRow {
        copied: text.clone(),
        span: ShownSpan { index: 0, fallback: text },
        images: collect_images(&message.chunks, supported),
        time: render_message_time(created_ms),
    }
}

/// How an assistant message is drawn.
pub struct AssistantRow {
    /// Whether its parts are thoughts.
    pub thinking: bool,
    pub spans: Vec<ShownSpan>,
    /// What the copy button copies, if there is one.
    pub copied: Option<String>,
    pub time: Option<Timestamp>,
}

/// What an assistant message says as one text, if it says anything.
pub open spec fn answer_text(message: AssistantMessageView) -> Option<Seq<char>> {
    let texts = chunk_texts(message.chunks, false);
    if has_answer(message.chunks) && texts.len() > 0 {
        Some(joined(texts, "\n\n"@))
    } else {
        None
    }
}

/// The parts of an assistant message: what it says, as one part, or else each of
/// its thoughts.
pub open spec fn assistant_parts(message: AssistantMessageView) -> Seq<ShownSpanView> {
    if has_answer(message.chunks) {
        match answer_text(message) {
            Some(text) => seq![ShownSpanView { index: 0, fallback: text }],
            None => Seq::empty(),
        }
    } else {
        numbered_spans(chunk_texts(message.chunks, true), 0)
    }
}

/// How an assistant message is drawn. Thoughts are shown as long as there is no
/// answer, and are never copied.
pub fn render_assistant_message(message: &AssistantMessage, created_ms: Option<i64>) -> (r:
    AssistantRow)
    ensures
        r.thinking == !has_answer(message.deep_view().chunks),
        r.spans.deep_view() == assistant_parts(message.deep_view()),
        r.copied.deep_view() == answer_text(message.deep_view()),
        is_shown_time(r.time, created_ms),
{
    let time = render_message_time(created_ms);
    if contains_answer(&message.chunks) {
        let texts = collect_chunk_texts(&message.chunks, false);
        assert(texts.deep_view().len() == texts@.len());
        let mut spans: Vec<ShownSpan> = Vec::new();
        assert(spans.deep_view() =~= Seq::<ShownSpanView>::empty());
        let mut copied: Option<String> = None;
        if texts.len() > 0 {
            let combined = join(&texts, "\n\n");
            push_value(&mut spans, ShownSpan { index: 0, fallback: combined.clone() });
            copied = Some(combined);
        }
        assert(spans.deep_view() =~= assistant_parts(message.deep_view()));
        AssistantRow { thinking: false, spans, copied, time }
    } else {
        let texts = collect_chunk_texts(&message.chunks, true);
        let n: usize = texts.len();
        let spans = number_spans(&texts, 0);
        AssistantRow { thinking: true, spans, copied: None, time }
    }
}

/// The colour of a status.
#[derive(Clone, Copy, Debug, PartialEq, Eq, Structural)]
pub enum Tone {
    Error,
    Warning,
    Success,
    Muted,
}

/// The colour of a status.
pub open spec fn tone_of(status: ToolCallStatusView) -> Tone {
    match status {
        ToolCallStatusView::Failed => Tone::Error,
        ToolCallStatusView::Rejected => Tone::Warning,
        ToolCallStatusView::Canceled => Tone::Warning,
        ToolCallStatusView::Completed => Tone::Success,
        _ => Tone::Muted,
    }
}

/// A button that answers a permission request.
pub struct AuthButton {
    pub button: PermissionButton,
    /// Whether it stands out: it does if it lets the call go ahead.
    pub filled: bool,
}

/// How a tool call is drawn.
pub struct ToolCallRow {
    pub title: ShownSpan,
    pub status: &'static str,
    pub tone: Tone,
    /// For how many seconds the call has been running, while it is.
    pub elapsed_secs: Option<u64>,
    pub arg_preview: Option<String>,
    pub outputs: Vec<ShownSpan>,
    pub buttons: Vec<AuthButton>,
}

/// For how many whole seconds a call has been running at `now`.
pub open spec fn elapsed_of(call: ToolCallView, now: Timestamp) -> Option<u64> {
    match (call.status, call.status_started_at) {
        (ToolCallStatusView::InProgress, Some(started)) => {
            let since = toward_zero(now.nanos_after(started));
            Some(
                if since > 0 {
                    since as u64
                } else {
                    0
                },
            )
        },
        _ => None,
    }
}

/// The one-line preview of the argument that says most about a call.
pub open spec fn preview_of(call: ToolCallView) -> Option<Seq<char>> {
    match call.raw_input {
        Some(tree) => match picked_argument(tree) {
            Some(text) => Some(clipped(on_one_line(text), MAX_ARG_PREVIEW as nat)),
            None => None,
        },
        None => None,
    }
}

/// The answers to a permission request that are on offer.
pub open spec fn offered(call: ToolCallView) -> Seq<PermissionButtonView> {
    match call.status {
        ToolCallStatusView::WaitingForConfirmation { options } => buttons_of(options),
        _ => Seq::empty(),
    }
}

/// The colour of a status.
fn status_tone(status: &ToolCallStatus) -> (r: Tone)
    ensures
        r == tone_of(status.deep_view()),
{
    match status {
        ToolCallStatus::Failed => Tone::Error,
        ToolCallStatus::Rejected => Tone::Warning,
        ToolCallStatus::Canceled => Tone::Warning,
        ToolCallStatus::Completed => Tone::Success,
        _ => Tone::Muted,
    }
}

/// The buttons that answer a permission request.
fn auth_buttons(call: &ToolCall) -> (r: Vec<AuthButton>)
    ensures
        r@.len() == offered(call.deep_view()).len(),
        forall|i: int|
            0 <= i < r@.len() ==> {
                &&& (#[trigger] r@[i]).button.deep_view() == offered(call.deep_view())[i]
                &&& r@[i].filled == is_allow_kind(r@[i].button.kind)
            },
{
    let mut out: Vec<AuthButton> = Vec::new();
    if let ToolCallStatus::WaitingForConfirmation { options } = &call.status {
        let buttons = permission_buttons(options);
        let ghost all = buttons.deep_view();
        assert(all == offered(call.deep_view()));
        assert(all.len() == buttons@.len());
        let mut i: usize = 0;
        while i < buttons.len()
            invariant
                i <= buttons@.len(),
                all == buttons.deep_view(),
                out@.len() == i,
                forall|k: int|
                    0 <= k < i ==> {
                        &&& (#[trigger] out@[k]).button.deep_view() == all[k]
                        &&& out@[k].filled == is_allow_kind(out@[k].button.kind)
                    },
            decreases buttons@.len() - i,
        {
            assert(all[i as int] == buttons@[i as int].deep_view());
            let button = buttons[i].duplicate();
            let filled = button.is_allow();
            out.push(AuthButton { button, filled });
            i += 1;
        }
    }
    out
}

/// There are no more summaries than there is content.
proof fn lemma_content_spans_len(
    content: Seq<ToolCallContentView>,
    raw_output: Option<JsonTree>,
)
    ensures
        content_spans(content, raw_output).len() <= content.len(),
    decreases content.len(),
{
    if content.len() > 0 {
        lemma_content_spans_len(content.drop_last(), raw_output);
    }
}

/// How a tool call is drawn at `now`.
pub fn render_tool_call(call: &ToolCall, now: &Timestamp) -> (r: ToolCallRow)
    requires
        call.content@.len() < usize::MAX,
    ensures
        r.title.index == 0,
        r.title.fallback@ == call.label@,
        r.status@ == status_text(call.deep_view().status),
        r.tone == tone_of(call.deep_view().status),
        r.elapsed_secs == elapsed_of(call.deep_view(), *now),
        r.arg_preview.deep_view() == preview_of(call.deep_view()),
        r.outputs.deep_view() == numbered_spans(
            content_spans(call.deep_view().content, call.deep_view().raw_output),
            1,
        ),
        r.buttons@.len() == offered(call.deep_view()).len(),
        forall|i: int|
            0 <= i < r.buttons@.len() ==> {
                &&& (#[trigger] r.buttons@[i]).button.deep_view() == offered(call.deep_view())[i]
                &&& r.buttons@[i].filled == is_allow_kind(r.buttons@[i].button.kind)
            },
{
    let elapsed_secs: Option<u64> = match (&call.status, call.status_started_at) {
        (ToolCallStatus::InProgress, Some(started)) => {
            let since: i64 = now.seconds_since(&started);
            Some(
                if since > 0 {
                    since as u64
                } else {
                    0
                },
            )
        },
        _ => None,
    };
    let arg_preview = match &call.raw_input {
        Some(input) => tool_call_arg_preview(input),
        None => None,
    };
    let outputs = tool_call_spans(call);
    proof {
        lemma_content_spans_len(call.deep_view().content, call.deep_view().raw_output);
    }
    assert(outputs.deep_view().len() == outputs@.len());
    ToolCallRow {
        title: ShownSpan { index: 0, fallback: call.label.clone() },
        status: tool_call_status_text(&call.status),
        tone: status_tone(&call.status),
        elapsed_secs,
        arg_preview,
        outputs: number_spans(&outputs, 1),
        buttons: auth_buttons(call),
    }
}

/// The parts of a plan: its title and a part for each item, whose text is that
/// of the formatted part.
pub open spec fn plan_parts(count: nat) -> Seq<ShownSpanView> {
    Seq::new(
        count + 1,
        |i: int|
            ShownSpanView {
                index: i as usize,
                fallback: if i == 0 {
                    "Plan"@
                } else {
                    Seq::empty()
                },
            },
    )
}

/// How a plan is drawn.
pub fn render_plan(entries: &Vec<PlanEntry>) -> (r: Vec<ShownSpan>)
    requires
        entries@.len() < usize::MAX,
    ensures
        r.deep_view() == plan_parts(entries@.len()),
{
    let ghost want = plan_parts(entries@.len());
    let mut out: Vec<ShownSpan> = Vec::new();
    assert(out.deep_view() =~= want.take(0));
    push_value(&mut out, ShownSpan { index: 0, fallback: "Plan".to_owned() });
    assert(want.take(1) =~= want.take(0).push(want[0]));
    let mut i: usize = 0;
    while i < entries.len()
        invariant
            i <= entries@.len() < usize::MAX,
            want == plan_parts(entries@.len()),
            out.deep_view() == want.take(i + 1),
        decreases entries@.len() - i,
    {
        let span = ShownSpan { index: i + 1, fallback: String::new() };
        assert(span.deep_view() =~= want[i + 1]);
        push_value(&mut out, span);
        i += 1;
        assert(want.take(i + 1) =~= want.take(i as int).push(want[i as int]));
    }
    assert(want.take(i + 1) =~= want);
    out
}

/// What the menu of an entry offers.
#[derive(Clone, Debug)]
pub enum MenuItem {
    /// Rewind the conversation to the user message with the given id.
    Rewind(String),
    Separator,
    Copy,
    CopyAsMarkdown,
}

/// How the parts of an entry are drawn.
pub enum EntryBody {
    User(UserRow),
    Assistant(AssistantRow),
    ToolCall(ToolCallRow),
    Plan(Vec<ShownSpan>),
}

/// How an entry is drawn.
pub struct EntryRow {
    /// The date that stands above the entry, where a new day starts with it.
    pub date_separator: Option<String>,
    pub body: EntryBody,
    pub menu: Vec<MenuItem>,
}

impl EntryBody {
    /// The parts, in order.
    pub open spec fn parts(self) -> Seq<ShownSpanView> {
        match self {
            EntryBody::User(row) => seq![row.span.deep_view()],
            EntryBody::Assistant(row) => row.spans.deep_view(),
            EntryBody::ToolCall(row) => seq![row.title.deep_view()] + row.outputs.deep_view(),
            EntryBody::Plan(spans) => spans.deep_view(),
        }
    }
}

/// The menu of an entry: rewinding is offered where there is something to rewind
/// to.
pub fn entry_menu(rewind_target: Option<String>) -> (r: Vec<MenuItem>)
    ensures
        match rewind_target {
            Some(id) => r@ == seq![
                MenuItem::Rewind(id),
                MenuItem::Separator,
                MenuItem::Copy,
                MenuItem::CopyAsMarkdown,
            ],
            None => r@ == seq![MenuItem::Copy, MenuItem::CopyAsMarkdown],
        },
{
    let mut menu: Vec<MenuItem> = Vec::new();
    if let Some(id) = rewind_target {
        menu.push(MenuItem::Rewind(id));
        menu.push(MenuItem::Separator);
    }
    menu.push(MenuItem::Copy);
    menu.push(MenuItem::CopyAsMarkdown);
    assert(match rewind_target {
        Some(id) => menu@ =~= seq![
            MenuItem::Rewind(id),
            MenuItem::Separator,
            MenuItem::Copy,
            MenuItem::CopyAsMarkdown,
        ],
        None => menu@ =~= seq![MenuItem::Copy, MenuItem::CopyAsMarkdown],
    });
    menu
}

/// Whether the parts of an entry can be numbered.
pub open spec fn can_be_drawn(entry: AgentThreadEntry) -> bool {
    match entry {
        AgentThreadEntry::ToolCall(call) => call.content@.len() < usize::MAX,
        AgentThreadEntry::CompletedPlan(entries) => entries@.len() < usize::MAX,
        _ => true,
    }
}

/// How an entry is drawn. Its parts are as many as the texts that
/// `entry_text_spans` gives for it and are numbered alike, so that what is found
/// in a text is marked in the part that shows it.
pub fn render_entry(
    entry: &AgentThreadEntry,
    created_ms: Option<i64>,
    date_separator: Option<String>,
    rewind_target: Option<String>,
    hint: &str,
    supported: &Vec<String>,
    now: &Timestamp,
) -> (r: EntryRow)
    requires
        can_be_drawn(*entry),
    ensures
        r.date_separator == date_separator,
        match rewind_target {
            Some(id) => r.menu@ == seq![
                MenuItem::Rewind(id),
                MenuItem::Separator,
                MenuItem::Copy,
                MenuItem::CopyAsMarkdown,
            ],
            None => r.menu@ == seq![MenuItem::Copy, MenuItem::CopyAsMarkdown],
        },
        r.body.parts().len() == spans_of(entry.deep_view(), hint@).len(),
        forall|i: int|
            0 <= i < r.body.parts().len() ==> (#[trigger] r.body.parts()[i]).index == i,
        match entry.deep_view() {
            AgentThreadEntryView::UserMessage(message) => {
                &&& r.body matches EntryBody::User(row)
                &&& row.span.fallback@ == shown_user_text(message.content.source(), hint@)
                &&& row.copied@ == row.span.fallback@
                &&& row.images.deep_view() == shown_images(message.chunks, supported.deep_view())
                &&& is_shown_time(row.time, created_ms)
            },
            AgentThreadEntryView::AssistantMessage(message) => {
                &&& r.body matches EntryBody::Assistant(row)
                &&& row.thinking == !has_answer(message.chunks)
                &&& row.spans.deep_view() == assistant_parts(message)
                &&& row.copied.deep_view() == answer_text(message)
                &&& is_shown_time(row.time, created_ms)
            },
            AgentThreadEntryView::ToolCall(call) => {
                &&& r.body matches EntryBody::ToolCall(row)
                &&& row.title.fallback@ == call.label
                &&& row.status@ == status_text(call.status)
                &&& row.tone == tone_of(call.status)
                &&& row.elapsed_secs == elapsed_of(call, *now)
                &&& row.arg_preview.deep_view() == preview_of(call)
                &&& row.outputs.deep_view() == numbered_spans(
                    content_spans(call.content, call.raw_output),
                    1,
                )
                &&& row.buttons@.len() == offered(call).len()
                &&& forall|i: int|
                    0 <= i < row.buttons@.len() ==> {
                        &&& (#[trigger] row.buttons@[i]).button.deep_view() == offered(call)[i]
                        &&& row.buttons@[i].filled == is_allow_kind(row.buttons@[i].button.kind)
                    }
            },
            AgentThreadEntryView::CompletedPlan(entries) => {
                &&& r.body matches EntryBody::Plan(spans)
                &&& spans.deep_view() == plan_parts(entries.len())
            },
        },
{
    let body = match entry {
        AgentThreadEntry::UserMessage(message) => EntryBody::User(
            render_user_message(message, created_ms, hint, supported),
        ),
        AgentThreadEntry::AssistantMessage(message) => {
            let row = render_assistant_message(message, created_ms);
            let count: usize = row.spans.len();
            assert(row.spans.deep_view().len() == count);
            EntryBody::Assistant(row)
        },
        AgentThreadEntry::ToolCall(call) => {
            proof {
                lemma_content_spans_len(call.deep_view().content, call.deep_view().raw_output);
            }
            EntryBody::ToolCall(render_tool_call(call, now))
        },
        AgentThreadEntry::CompletedPlan(entries) => {
            assert(entries.deep_view().len() == entries@.len());
            EntryBody::Plan(render_plan(entries))
        },
    };
    EntryRow { date_separator, body, menu: entry_menu(rewind_target) }
}

} // verus!
