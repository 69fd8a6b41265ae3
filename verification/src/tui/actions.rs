//! What the terminal is asked to do.

use vstd::prelude::*;
use crate::text;

verus! {

/// How a login is done.
#[derive(Clone, Copy, Debug, PartialEq, Eq, Structural)]
pub enum AccountLoginMethod {
    Browser,
    DeviceCode,
}

/// Why another account is turned to.
#[derive(Clone, Copy, Debug, PartialEq, Eq, Structural)]
pub enum AuthProfileSwitchTrigger {
    ManualNext,
    RateLimit,
}

/// What happens next, apart from what is shown.
#[derive(Clone, Copy, Debug, PartialEq, Eq, Structural)]
pub enum AppEvent {
    StartAccountLogin { method: AccountLoginMethod },
    CancelAccountLogin,
    ListAccountSessions,
    ActivateNextAuthProfile { trigger: AuthProfileSwitchTrigger },
}

/// How a line looks.
#[derive(Clone, Copy, Debug, PartialEq, Eq, Structural)]
pub enum LineStyle {
    Plain,
    Bold,
    Dim,
    /// An address: cyan and underlined.
    Link,
    /// A code: cyan and bold.
    Code,
}

/// A line and how it looks.
#[derive(Debug, PartialEq, Eq)]
pub struct StyledLine {
    pub text: String,
    pub style: LineStyle,
}

/// A thing to select, and what is done when it is selected.
#[derive(Debug, PartialEq, Eq)]
pub struct SelectionItem {
    pub name: String,
    pub description: String,
    pub event: AppEvent,
}

/// Things to select from.
#[derive(Debug, PartialEq, Eq)]
pub struct SelectionView {
    pub title: String,
    pub subtitle: String,
    pub items: Vec<SelectionItem>,
}

/// What the terminal is asked to do.
#[derive(Debug, PartialEq, Eq)]
pub enum UiAction {
    Info { message: String, hint: Option<String> },
    Error(String),
    Warning(String),
    Lines(Vec<StyledLine>),
    OpenUrl(String),
    Select(SelectionView),
    DeferInput,
    Redraw,
    Send(AppEvent),
    Submit(String),
    SendNextQueuedInput,
    ClearTokenUsage,
    ClearRateLimits,
}

/// The view of a line.
#[verifier::ext_equal]
pub struct LineView {
    pub text: Seq<char>,
    pub style: LineStyle,
}

/// The view of a thing to select.
#[verifier::ext_equal]
pub struct ItemView {
    pub name: Seq<char>,
    pub description: Seq<char>,
    pub event: AppEvent,
}

/// The view of what the terminal is asked to do.
#[verifier::ext_equal]
pub enum ActionView {
    Info { message: Seq<char>, hint: Option<Seq<char>> },
    Error(Seq<char>),
    Warning(Seq<char>),
    Lines(Seq<LineView>),
    OpenUrl(Seq<char>),
    Select { title: Seq<char>, subtitle: Seq<char>, items: Seq<ItemView> },
    DeferInput,
    Redraw,
    Send(AppEvent),
    Submit(Seq<char>),
    SendNextQueuedInput,
    ClearTokenUsage,
    ClearRateLimits,
}

impl View for StyledLine {
    type V = LineView;

    open spec fn view(&self) -> LineView {
        LineView { text: self.text@, style: self.style }
    }
}

impl View for SelectionItem {
    type V = ItemView;

    open spec fn view(&self) -> ItemView {
        ItemView { name: self.name@, description: self.description@, event: self.event }
    }
}

impl View for UiAction {
    type V = ActionView;

    open spec fn view(&self) -> ActionView {
        match self {
            UiAction::Info { message, hint } => ActionView::Info {
                message: message@,
                hint: text::opt_view(*hint),
            },
            UiAction::Error(message) => ActionView::Error(message@),
            UiAction::Warning(message) => ActionView::Warning(message@),
            UiAction::Lines(lines) => ActionView::Lines(
                lines@.map_values(|line: StyledLine| line@),
            ),
            UiAction::OpenUrl(url) => ActionView::OpenUrl(url@),
            UiAction::Select(view) => ActionView::Select {
                title: view.title@,
                subtitle: view.subtitle@,
                items: view.items@.map_values(|item: SelectionItem| item@),
            },
            UiAction::DeferInput => ActionView::DeferInput,
            UiAction::Redraw => ActionView::Redraw,
            UiAction::Send(event) => ActionView::Send(*event),
            UiAction::Submit(message) => ActionView::Submit(message@),
            UiAction::SendNextQueuedInput => ActionView::SendNextQueuedInput,
            UiAction::ClearTokenUsage => ActionView::ClearTokenUsage,
            UiAction::ClearRateLimits => ActionView::ClearRateLimits,
        }
    }
}

/// The views of what the terminal is asked to do.
pub open spec fn action_views(actions: Seq<UiAction>) -> Seq<ActionView> {
    actions.map_values(|action: UiAction| action@)
}

/// A message without a hint.
pub open spec fn info(message: Seq<char>) -> ActionView {
    ActionView::Info { message, hint: None }
}

/// A message without a hint.
pub fn info_message(message: &str) -> (res: UiAction)
    ensures
        res@ == info(message@),
{
    UiAction::Info { message: message.to_string(), hint: None }
}

/// A line and how it looks.
pub open spec fn styled(text: Seq<char>, style: LineStyle) -> LineView {
    LineView { text, style }
}

/// A line and how it looks.
pub fn styled_line(text: &str, style: LineStyle) -> (res: StyledLine)
    ensures
        res@ == styled(text@, style),
{
    StyledLine { text: text.to_string(), style }
}

} // verus!
