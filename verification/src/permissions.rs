//! Tool calls that wait for the user: the answers on offer and what is sent
//! back.
use crate::duplicate::{push_value, Duplicate};
use crate::thread::{
    PermissionOption, PermissionOptionChoice, PermissionOptionChoiceView, PermissionOptionKind,
    PermissionOptionView, PermissionOptions, PermissionOptionsView, ToolCallStatus,
    ToolCallStatusView,
};
use vstd::prelude::*;

verus! {

/// The human label of a tool call's status.
pub open spec fn status_text(status: ToolCallStatusView) -> Seq<char> {
    match status {
        ToolCallStatusView::Pending => "pending"@,
        ToolCallStatusView::WaitingForConfirmation { .. } => "waiting for confirmation"@,
        ToolCallStatusView::InProgress => "running"@,
        ToolCallStatusView::Completed => "done"@,
        ToolCallStatusView::Failed => "failed"@,
        ToolCallStatusView::Rejected => "rejected"@,
        ToolCallStatusView::Canceled => "canceled"@,
    }
}

/// The human label of a tool call's status.
pub fn tool_call_status_text(status: &ToolCallStatus) -> (r: &'static str)
    ensures
        r@ == status_text(status.deep_view()),
{
    match status {
        ToolCallStatus::Pending => "pending",
        ToolCallStatus::WaitingForConfirmation { .. } => "waiting for confirmation",
        ToolCallStatus::InProgress => "running",
        ToolCallStatus::Completed => "done",
        ToolCallStatus::Failed => "failed",
        ToolCallStatus::Rejected => "rejected",
        ToolCallStatus::Canceled => "canceled",
    }
}

/// One answer to a permission request, as a button: everything needed to draw
/// it and to rebuild the answer when it is clicked.
#[derive(Clone, Debug, PartialEq)]
pub struct PermissionButton {
    pub option_id: String,
    pub label: String,
    pub kind: PermissionOptionKind,
    /// Command patterns that go with the answer.
    pub patterns: Vec<String>,
}

/// What a [`PermissionButton`] stands for.
#[verifier::ext_equal]
pub struct PermissionButtonView {
    pub option_id: Seq<char>,
    pub label: Seq<char>,
    pub kind: PermissionOptionKind,
    pub patterns: Seq<Seq<char>>,
}

impl DeepView for PermissionButton {
    type V = PermissionButtonView;

    open spec fn deep_view(&self) -> PermissionButtonView {
        PermissionButtonView {
            option_id: self.option_id.deep_view(),
            label: self.label.deep_view(),
            kind: self.kind,
            patterns: self.patterns.deep_view(),
        }
    }
}

impl Duplicate for PermissionButton {
    fn duplicate(&self) -> (r: Self) {
        PermissionButton {
            option_id: self.option_id.duplicate(),
            label: self.label.duplicate(),
            kind: self.kind,
            patterns: self.patterns.duplicate(),
        }
    }
}

/// What goes with an answer.
#[derive(Clone, Debug)]
pub enum SelectedPermissionParams {
    Terminal { patterns: Vec<String> },
}

/// What a [`SelectedPermissionParams`] stands for.
#[verifier::ext_equal]
pub enum SelectedPermissionParamsView {
    Terminal { patterns: Seq<Seq<char>> },
}

impl DeepView for SelectedPermissionParams {
    type V = SelectedPermissionParamsView;

    open spec fn deep_view(&self) -> SelectedPermissionParamsView {
        match self {
            SelectedPermissionParams::Terminal { patterns } => SelectedPermissionParamsView::Terminal {
                patterns: patterns.deep_view(),
            },
        }
    }
}

/// The answer to a permission request.
#[derive(Clone, Debug)]
pub struct SelectedPermissionOutcome {
    pub option_id: String,
    pub option_kind: PermissionOptionKind,
    pub params: Option<SelectedPermissionParams>,
}

/// What a [`SelectedPermissionOutcome`] stands for.
#[verifier::ext_equal]
pub struct SelectedPermissionOutcomeView {
    pub option_id: Seq<char>,
    pub option_kind: PermissionOptionKind,
    pub params: Option<SelectedPermissionParamsView>,
}

impl DeepView for SelectedPermissionOutcome {
    type V = SelectedPermissionOutcomeView;

    open spec fn deep_view(&self) -> SelectedPermissionOutcomeView {
        SelectedPermissionOutcomeView {
            option_id: self.option_id.deep_view(),
            option_kind: self.option_kind,
            params: self.params.deep_view(),
        }
    }
}

/// Whether an answer of this kind lets the tool call go ahead.
pub open spec fn is_allow_kind(kind: PermissionOptionKind) -> bool {
    kind == PermissionOptionKind::AllowOnce || kind == PermissionOptionKind::AllowAlways
}

impl PermissionButtonView {
    /// The answer that the button stands for.
    pub open spec fn outcome(self) -> SelectedPermissionOutcomeView {
        SelectedPermissionOutcomeView {
            option_id: self.option_id,
            option_kind: self.kind,
            params: if self.patterns.len() == 0 {
                None
            } else {
                Some(SelectedPermissionParamsView::Terminal { patterns: self.patterns })
            },
        }
    }
}

impl PermissionButton {
    /// Whether the answer lets the tool call go ahead.
    pub fn is_allow(&self) -> (r: bool)
        ensures
            r == is_allow_kind(self.kind),
    {
        self.kind == PermissionOptionKind::AllowOnce || self.kind
            == PermissionOptionKind::AllowAlways
    }

    /// The answer to send back.
    pub fn outcome(&self) -> (r: SelectedPermissionOutcome)
        ensures
            r.deep_view() == self.deep_view().outcome(),
    {
        let params = if self.patterns.len() == 0 {
            None
        } else {
            Some(SelectedPermissionParams::Terminal { patterns: self.patterns.duplicate() })
        };
        SelectedPermissionOutcome {
            option_id: self.option_id.clone(),
            option_kind: self.kind,
            params,
        }
    }
}

/// The button of one option.
pub open spec fn button_of(
    option: PermissionOptionView,
    patterns: Seq<Seq<char>>,
) -> PermissionButtonView {
    PermissionButtonView {
        option_id: option.option_id,
        label: option.name,
        kind: option.kind,
        patterns,
    }
}

/// The buttons of a list of choices: the allowing answer, then the denying
/// one, of each choice in turn.
pub open spec fn choice_buttons(choices: Seq<PermissionOptionChoiceView>) -> Seq<
    PermissionButtonView,
> {
    Seq::new(
        2 * choices.len(),
        |i: int|
            if i % 2 == 0 {
                button_of(choices[i / 2].allow, choices[i / 2].sub_patterns)
            } else {
                button_of(choices[i / 2].deny, choices[i / 2].sub_patterns)
            },
    )
}

/// The buttons of a permission request, in display order.
pub open spec fn buttons_of(options: PermissionOptionsView) -> Seq<PermissionButtonView> {
    match options {
        PermissionOptionsView::Flat(options) => options.map_values(
            |option: PermissionOptionView| button_of(option, Seq::empty()),
        ),
        PermissionOptionsView::Dropdown(choices) => choice_buttons(choices),
        PermissionOptionsView::DropdownWithPatterns { choices, .. } => choice_buttons(choices),
    }
}

/// The button of one option.
fn button_from(option: &PermissionOption, patterns: Vec<String>) -> (r: PermissionButton)
    ensures
        r.deep_view() == button_of(option.deep_view(), patterns.deep_view()),
{
    PermissionButton {
        option_id: option.option_id.clone(),
        label: option.name.clone(),
        kind: option.kind,
        patterns,
    }
}

/// The buttons of a list of choices.
fn buttons_from_choices(choices: &Vec<PermissionOptionChoice>) -> (r: Vec<PermissionButton>)
    ensures
        r.deep_view() == choice_buttons(choices.deep_view()),
{
    let mut out: Vec<PermissionButton> = Vec::new();
    let ghost all = choices.deep_view();
    let mut i: usize = 0;
    while i < choices.len()
        invariant
            i <= choices@.len(),
            all == choices.deep_view(),
            out.deep_view() =~= choice_buttons(all.take(i as int)),
        decreases choices@.len() - i,
    {
        let choice = &choices[i];
        assert(all[i as int] == choice.deep_view());
        push_value(&mut out, button_from(&choice.allow, choice.sub_patterns.duplicate()));
        push_value(&mut out, button_from(&choice.deny, choice.sub_patterns.duplicate()));
        i += 1;
    }
    assert(all.take(i as int) =~= all);
    out
}

/// Flattens a permission request into the buttons to show, in display order.
/// A dropdown choice becomes its allowing and its denying answer, both of which
/// carry the choice's patterns.
pub fn permission_buttons(options: &PermissionOptions) -> (r: Vec<PermissionButton>)
    ensures
        r.deep_view() == buttons_of(options.deep_view()),
{
    match options {
        PermissionOptions::Flat(options) => {
            let mut out: Vec<PermissionButton> = Vec::new();
            let ghost all = options.deep_view();
            let ghost buttons = all.map_values(
                |option: PermissionOptionView| button_of(option, Seq::empty()),
            );
            let mut i: usize = 0;
            while i < options.len()
                invariant
                    i <= options@.len(),
                    all == options.deep_view(),
                    buttons == all.map_values(
                        |option: PermissionOptionView| button_of(option, Seq::empty()),
                    ),
                    out.deep_view() =~= buttons.take(i as int),
                decreases options@.len() - i,
            {
                assert(all[i as int] == options@[i as int].deep_view());
                let patterns: Vec<String> = Vec::new();
                assert(patterns.deep_view() =~= Seq::<Seq<char>>::empty());
                push_value(&mut out, button_from(&options[i], patterns));
                i += 1;
            }
            out
        },
        PermissionOptions::Dropdown(choices) => buttons_from_choices(choices),
        PermissionOptions::DropdownWithPatterns { choices, .. } => buttons_from_choices(choices),
    }
}

/// The first of `buttons` that `pred` holds of.
pub open spec fn first_button(
    buttons: Seq<PermissionButtonView>,
    pred: spec_fn(PermissionButtonView) -> bool,
) -> Option<PermissionButtonView>
    decreases buttons.len(),
{
    if buttons.len() == 0 {
        None
    } else if pred(buttons[0]) {
        Some(buttons[0])
    } else {
        first_button(buttons.drop_first(), pred)
    }
}

/// The button that turns a request down: the first that rejects it once, or
/// else the first that does not allow it.
pub open spec fn reject_button(buttons: Seq<PermissionButtonView>) -> Option<PermissionButtonView> {
    match first_button(
        buttons,
        |button: PermissionButtonView| button.kind == PermissionOptionKind::RejectOnce,
    ) {
        Some(button) => Some(button),
        None => first_button(buttons, |button: PermissionButtonView| !is_allow_kind(button.kind)),
    }
}

/// What is found is one of the buttons and fits; where nothing is found, none fits.
pub proof fn lemma_first_button(
    buttons: Seq<PermissionButtonView>,
    pred: spec_fn(PermissionButtonView) -> bool,
)
    ensures
        match first_button(buttons, pred) {
            Some(button) => buttons.contains(button) && pred(button),
            None => forall|i: int| 0 <= i < buttons.len() ==> !pred(#[trigger] buttons[i]),
        },
    decreases buttons.len(),
{
    if buttons.len() > 0 && !pred(buttons[0]) {
        let rest = buttons.drop_first();
        lemma_first_button(rest, pred);
        match first_button(rest, pred) {
            Some(button) => {
                let k = choose|k: int| 0 <= k < rest.len() && rest[k] == button;
                assert(buttons[k + 1] == button);
            },
            None => {
                assert forall|i: int| 0 <= i < buttons.len() implies !pred(#[trigger] buttons[i]) by {
                    if i > 0 {
                        assert(rest[i - 1] == buttons[i]);
                    }
                }
            },
        }
    }
}

/// Turning a request down never allows it: the button picked is one of those
/// on offer and is not an allowing one, and none is picked only where every
/// button allows the request.
pub proof fn law_reject_never_allows(buttons: Seq<PermissionButtonView>)
    ensures
        match reject_button(buttons) {
            Some(button) => buttons.contains(button) && !is_allow_kind(button.kind),
            None => forall|i: int|
                0 <= i < buttons.len() ==> is_allow_kind((#[trigger] buttons[i]).kind),
        },
{
    let once = |button: PermissionButtonView| button.kind == PermissionOptionKind::RejectOnce;
    let other = |button: PermissionButtonView| !is_allow_kind(button.kind);
    lemma_first_button(buttons, once);
    lemma_first_button(buttons, other);
    if reject_button(buttons) is None {
        assert forall|i: int| 0 <= i < buttons.len() implies is_allow_kind(
            (#[trigger] buttons[i]).kind,
        ) by {
            assert(!other(buttons[i]));
        }
    }
}

/// Picks the button that turns a pending request down. There is none where
/// only allowing answers are on offer.
pub fn pick_reject_button(options: &PermissionOptions) -> (r: Option<PermissionButton>)
    ensures
        r.deep_view() == reject_button(buttons_of(options.deep_view())),
{
    let buttons = permission_buttons(options);
    let ghost all = buttons.deep_view();
    let ghost once = |button: PermissionButtonView| button.kind == PermissionOptionKind::RejectOnce;
    let ghost other = |button: PermissionButtonView| !is_allow_kind(button.kind);
    assert(all.skip(0) =~= all);
    let mut i: usize = 0;
    while i < buttons.len()
        invariant
            i <= buttons@.len(),
            all == buttons.deep_view(),
            once == (|button: PermissionButtonView|
                button.kind == PermissionOptionKind::RejectOnce),
            first_button(all, once) == first_button(all.skip(i as int), once),
            all == buttons_of(options.deep_view()),
        decreases buttons@.len() - i,
    {
        assert(all[i as int] == buttons@[i as int].deep_view());
        if buttons[i].kind == PermissionOptionKind::RejectOnce {
            return Some(buttons[i].duplicate());
        }
        assert(all.skip(i as int).drop_first() =~= all.skip(i as int + 1));
        i += 1;
    }
    i = 0;
    while i < buttons.len()
        invariant
            i <= buttons@.len(),
            all == buttons.deep_view(),
            other == (|button: PermissionButtonView| !is_allow_kind(button.kind)),
            first_button(
                all,
                |button: PermissionButtonView| button.kind == PermissionOptionKind::RejectOnce,
            ) is None,
            first_button(all, other) == first_button(all.skip(i as int), other),
            all == buttons_of(options.deep_view()),
        decreases buttons@.len() - i,
    {
        assert(all[i as int] == buttons@[i as int].deep_view());
        if !buttons[i].is_allow() {
            return Some(buttons[i].duplicate());
        }
        assert(all.skip(i as int).drop_first() =~= all.skip(i as int + 1));
        i += 1;
    }
    None
}

} // verus!
