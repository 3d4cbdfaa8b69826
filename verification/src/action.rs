//! Actions that a chord can be bound to, and the three decisions the legend
//! takes on the first action of a binding: its label, whether it belongs in the
//! legend of the current mode, and its rank there.

use vstd::prelude::*;
use vstd::string::*;
use crate::mode::{Direction, Mode, Resize, base_or_normal, effective_base};
use crate::text::{decimal_digits, decimal_string};

verus! {

/// What a chord does. The variants are those that the legend tells apart;
/// every other action of the host is an `Other`, which carries the host's own
/// rendering of it.
#[derive(Clone, Debug, PartialEq, Eq)]
pub enum Action {
    Quit,
    SwitchToMode(Mode),
    Resize(Resize),
    MoveFocus(Direction),
    NewPane(Option<Direction>),
    CloseFocus,
    NewTab,
    GoToTab(u32),
    GoToNextTab,
    GoToPreviousTab,
    CloseTab,
    ToggleFloatingPanes,
    TogglePaneFrames,
    ToggleFocusFullscreen,
    PaneNameInput,
    TabNameInput,
    UndoRenamePane,
    UndoRenameTab,
    Run,
    Write(Vec<u8>),
    Other(String),
}

/// The header under which a band of ranks is shown.
#[derive(Clone, Copy, Debug, PartialEq, Eq, Structural)]
pub enum Category {
    PaneActions,
    TabActions,
    ResizeActions,
    MoveActions,
    Actions,
    Navigation,
    Toggles,
    Shared,
}

/// Rank of opening a pane or a tab.
pub const RANK_CREATE: u8 = 10;

/// Rank of closing a pane or a tab.
pub const RANK_CLOSE: u8 = 11;

/// Rank of moving the focus.
pub const RANK_FOCUS: u8 = 12;

/// Rank of resizing.
pub const RANK_RESIZE: u8 = 13;

/// Rank of an action of the current mode that has no band of its own.
pub const RANK_MODE_DEFAULT: u8 = 15;

/// Rank of moving between tabs.
pub const RANK_NAVIGATION: u8 = 20;

/// Rank of the visual toggles.
pub const RANK_TOGGLE: u8 = 30;

/// Rank of renaming.
pub const RANK_RENAME: u8 = 35;

/// Rank of the return to the base mode.
pub const RANK_BACK: u8 = 50;

/// Rank of quitting.
pub const RANK_QUIT: u8 = 51;

/// Rank of an action that the legend does not show.
pub const RANK_HIDDEN: u8 = 100;

/// Rank of a binding without any action.
pub const RANK_EMPTY: u8 = 255;

impl Category {
    /// The text of the header.
    pub open spec fn spec_label(self) -> Seq<char> {
        match self {
            Category::PaneActions => "PANE ACTIONS"@,
            Category::TabActions => "TAB ACTIONS"@,
            Category::ResizeActions => "RESIZE ACTIONS"@,
            Category::MoveActions => "MOVE ACTIONS"@,
            Category::Actions => "ACTIONS"@,
            Category::Navigation => "NAVIGATION"@,
            Category::Toggles => "TOGGLES"@,
            Category::Shared => "SHARED"@,
        }
    }

    /// The text of the header.
    pub fn label(self) -> (s: &'static str)
        ensures
            s@ == self.spec_label(),
    {
        match self {
            Category::PaneActions => "PANE ACTIONS",
            Category::TabActions => "TAB ACTIONS",
            Category::ResizeActions => "RESIZE ACTIONS",
            Category::MoveActions => "MOVE ACTIONS",
            Category::Actions => "ACTIONS",
            Category::Navigation => "NAVIGATION",
            Category::Toggles => "TOGGLES",
            Category::Shared => "SHARED",
        }
    }
}

/// The label of one action while `base` is the base mode. A switch to the base
/// mode reads as the way back, and a write of a single line feed as Enter.
pub open spec fn action_label(action: Action, base: Mode) -> Seq<char> {
    match action {
        Action::Quit => "Quit Zellij"@,
        Action::SwitchToMode(m) => if m == base {
            "← Back to Normal"@
        } else {
            "→ "@ + m.spec_name() + " mode"@
        },
        Action::Resize(r) => "Resize "@ + r.spec_name(),
        Action::MoveFocus(d) => "Focus "@ + d.spec_name(),
        Action::NewPane(Some(d)) => "New pane "@ + d.spec_name(),
        Action::NewPane(None) => "New pane"@,
        Action::CloseFocus => "Close pane"@,
        Action::NewTab => "New tab"@,
        Action::GoToTab(n) => "Tab "@ + decimal_digits(n as nat),
        Action::GoToNextTab => "Next tab"@,
        Action::GoToPreviousTab => "Prev tab"@,
        Action::CloseTab => "Close tab"@,
        Action::ToggleFloatingPanes => "Toggle floating"@,
        Action::TogglePaneFrames => "Toggle frames"@,
        Action::ToggleFocusFullscreen => "Fullscreen"@,
        Action::PaneNameInput => "Rename pane"@,
        Action::TabNameInput => "Rename tab"@,
        Action::UndoRenamePane => "Undo rename"@,
        Action::UndoRenameTab => "Undo rename"@,
        Action::Run => "Run"@,
        Action::Write(bytes) => if bytes@.len() == 1 && bytes@[0] == 10 {
            "Enter"@
        } else {
            "Write"@
        },
        Action::Other(text) => text@,
    }
}

/// The label of a binding: that of its first action, `Unknown` where it has
/// none.
pub open spec fn binding_label(actions: Seq<Action>, base_mode: Option<Mode>) -> Seq<char> {
    if actions.len() == 0 {
        "Unknown"@
    } else {
        action_label(actions[0], effective_base(base_mode))
    }
}

/// True when the action belongs to what `mode` is for. In `Scroll` and
/// `Session` every action does.
pub open spec fn is_mode_specific(mode: Mode, action: Action) -> bool {
    match mode {
        Mode::Pane => action is NewPane || action is CloseFocus || action is MoveFocus
            || action is Resize || action is ToggleFocusFullscreen
            || action is ToggleFloatingPanes || action is TogglePaneFrames
            || action is PaneNameInput,
        Mode::Tab => action is NewTab || action is CloseTab || action is GoToTab
            || action is GoToNextTab || action is GoToPreviousTab || action is TabNameInput
            || action is UndoRenameTab,
        Mode::Resize => action is Resize,
        Mode::Move => action is MoveFocus,
        Mode::Scroll => true,
        Mode::Session => true,
        _ => false,
    }
}

/// True of the two actions that every legend shows: the switch to the base
/// mode, and quitting.
pub open spec fn is_shared(base_mode: Option<Mode>, action: Action) -> bool {
    match action {
        Action::SwitchToMode(m) => m == effective_base(base_mode),
        Action::Quit => true,
        _ => false,
    }
}

/// True when the legend of `mode` shows the binding: its first action belongs
/// to the mode or is shared.
pub open spec fn is_shown(mode: Mode, base_mode: Option<Mode>, actions: Seq<Action>) -> bool {
    actions.len() > 0 && (is_mode_specific(mode, actions[0]) || is_shared(base_mode, actions[0]))
}

/// The rank of an action of the current mode, by what it does.
pub open spec fn mode_rank(action: Action) -> u8 {
    match action {
        Action::NewPane(_) | Action::NewTab => RANK_CREATE,
        Action::CloseFocus | Action::CloseTab => RANK_CLOSE,
        Action::MoveFocus(_) => RANK_FOCUS,
        Action::Resize(_) => RANK_RESIZE,
        Action::GoToNextTab | Action::GoToPreviousTab | Action::GoToTab(_) => RANK_NAVIGATION,
        Action::ToggleFocusFullscreen | Action::ToggleFloatingPanes | Action::TogglePaneFrames =>
            RANK_TOGGLE,
        Action::PaneNameInput | Action::TabNameInput => RANK_RENAME,
        _ => RANK_MODE_DEFAULT,
    }
}

/// The rank of a binding in the legend of `mode`; smaller comes first. Actions
/// of the mode come before the way back, the way back before quitting, and
/// what the legend does not show after them all.
pub open spec fn rank(mode: Mode, base_mode: Option<Mode>, actions: Seq<Action>) -> u8 {
    if actions.len() == 0 {
        RANK_EMPTY
    } else if is_mode_specific(mode, actions[0]) {
        mode_rank(actions[0])
    } else if actions[0] matches Action::SwitchToMode(m) && m == effective_base(base_mode) {
        RANK_BACK
    } else if actions[0] is Quit {
        RANK_QUIT
    } else {
        RANK_HIDDEN
    }
}

/// The header of a rank in the legend of `mode`, if the rank lies in a band
/// that has one.
pub open spec fn category_of(mode: Mode, priority: u8) -> Option<Category> {
    if 10 <= priority <= 19 {
        Some(
            match mode {
                Mode::Pane => Category::PaneActions,
                Mode::Tab => Category::TabActions,
                Mode::Resize => Category::ResizeActions,
                Mode::Move => Category::MoveActions,
                _ => Category::Actions,
            },
        )
    } else if 20 <= priority <= 29 {
        Some(Category::Navigation)
    } else if 30 <= priority <= 39 {
        Some(Category::Toggles)
    } else if 50 <= priority <= 59 {
        Some(Category::Shared)
    } else {
        None
    }
}

/// Writes the label of a binding.
pub fn format_action(actions: &[Action], base_mode: Option<Mode>) -> (label: String)
    ensures
        label@ == binding_label(actions@, base_mode),
{
    if actions.len() == 0 {
        return String::from_str("Unknown");
    }
    match &actions[0] {
        Action::Quit => String::from_str("Quit Zellij"),
        Action::SwitchToMode(mode) => {
            if *mode == base_or_normal(base_mode) {
                String::from_str("← Back to Normal")
            } else {
                let mut label = String::from_str("→ ");
                label.append(mode.name());
                label.append(" mode");
                label
            }
        },
        Action::Resize(resize) => {
            let mut label = String::from_str("Resize ");
            label.append(resize.name());
            label
        },
        Action::MoveFocus(direction) => {
            let mut label = String::from_str("Focus ");
            label.append(direction.name());
            label
        },
        Action::NewPane(direction) => match direction {
            Some(d) => {
                let mut label = String::from_str("New pane ");
                label.append(d.name());
                label
            },
            None => String::from_str("New pane"),
        },
        Action::CloseFocus => String::from_str("Close pane"),
        Action::NewTab => String::from_str("New tab"),
        Action::GoToTab(n) => {
            let mut label = String::from_str("Tab ");
            let digits = decimal_string(*n as u64);
            label.append(digits.as_str());
            label
        },
        Action::GoToNextTab => String::from_str("Next tab"),
        Action::GoToPreviousTab => String::from_str("Prev tab"),
        Action::CloseTab => String::from_str("Close tab"),
        Action::ToggleFloatingPanes => String::from_str("Toggle floating"),
        Action::TogglePaneFrames => String::from_str("Toggle frames"),
        Action::ToggleFocusFullscreen => String::from_str("Fullscreen"),
        Action::PaneNameInput => String::from_str("Rename pane"),
        Action::TabNameInput => String::from_str("Rename tab"),
        Action::UndoRenamePane => String::from_str("Undo rename"),
        Action::UndoRenameTab => String::from_str("Undo rename"),
        Action::Run => String::from_str("Run"),
        Action::Write(bytes) => {
            if bytes.len() == 1 && bytes[0] == 10 {
                String::from_str("Enter")
            } else {
                String::from_str("Write")
            }
        },
        Action::Other(text) => text.clone(),
    }
}

/// Tells whether the action belongs to what `mode` is for.
pub fn is_mode_specific_action(mode: Mode, action: &Action) -> (r: bool)
    ensures
        r == is_mode_specific(mode, *action),
{
    match mode {
        Mode::Pane => match action {
            Action::NewPane(_)
            | Action::CloseFocus
            | Action::MoveFocus(_)
            | Action::Resize(_)
            | Action::ToggleFocusFullscreen
            | Action::ToggleFloatingPanes
            | Action::TogglePaneFrames
            | Action::PaneNameInput => true,
            _ => false,
        },
        Mode::Tab => match action {
            Action::NewTab
            | Action::CloseTab
            | Action::GoToTab(_)
            | Action::GoToNextTab
            | Action::GoToPreviousTab
            | Action::TabNameInput
            | Action::UndoRenameTab => true,
            _ => false,
        },
        Mode::Resize => match action {
            Action::Resize(_) => true,
            _ => false,
        },
        Mode::Move => match action {
            Action::MoveFocus(_) => true,
            _ => false,
        },
        Mode::Scroll => true,
        Mode::Session => true,
        _ => false,
    }
}

/// Tells whether the action is one that every legend shows.
pub fn is_shared_action(base_mode: Option<Mode>, action: &Action) -> (r: bool)
    ensures
        r == is_shared(base_mode, *action),
{
    match action {
        Action::SwitchToMode(mode) => *mode == base_or_normal(base_mode),
        Action::Quit => true,
        _ => false,
    }
}

/// Tells whether the legend of `mode` shows the binding.
pub fn should_show_action(mode: Mode, base_mode: Option<Mode>, actions: &[Action]) -> (r: bool)
    ensures
        r == is_shown(mode, base_mode, actions@),
{
    if actions.len() == 0 {
        return false;
    }
    let action = &actions[0];
    is_mode_specific_action(mode, action) || is_shared_action(base_mode, action)
}

/// The rank of a binding in the legend of `mode`.
pub fn action_priority(mode: Mode, base_mode: Option<Mode>, actions: &[Action]) -> (p: u8)
    ensures
        p == rank(mode, base_mode, actions@),
{
    if actions.len() == 0 {
        return RANK_EMPTY;
    }
    let action = &actions[0];
    if is_mode_specific_action(mode, action) {
        return match action {
            Action::NewPane(_) | Action::NewTab => RANK_CREATE,
            Action::CloseFocus | Action::CloseTab => RANK_CLOSE,
            Action::MoveFocus(_) => RANK_FOCUS,
            Action::Resize(_) => RANK_RESIZE,
            Action::GoToNextTab | Action::GoToPreviousTab | Action::GoToTab(_) => RANK_NAVIGATION,
            Action::ToggleFocusFullscreen
            | Action::ToggleFloatingPanes
            | Action::TogglePaneFrames => RANK_TOGGLE,
            Action::PaneNameInput | Action::TabNameInput => RANK_RENAME,
            _ => RANK_MODE_DEFAULT,
        };
    }
    match action {
        Action::SwitchToMode(m) => if *m == base_or_normal(base_mode) {
            RANK_BACK
        } else {
            RANK_HIDDEN
        },
        Action::Quit => RANK_QUIT,
        _ => RANK_HIDDEN,
    }
}

/// The header of a rank in the legend of `mode`.
pub fn priority_category(mode: Mode, priority: u8) -> (c: Option<Category>)
    ensures
        c == category_of(mode, priority),
{
    if 10 <= priority && priority <= 19 {
        Some(
            match mode {
                Mode::Pane => Category::PaneActions,
                Mode::Tab => Category::TabActions,
                Mode::Resize => Category::ResizeActions,
                Mode::Move => Category::MoveActions,
                _ => Category::Actions,
            },
        )
    } else if 20 <= priority && priority <= 29 {
        Some(Category::Navigation)
    } else if 30 <= priority && priority <= 39 {
        Some(Category::Toggles)
    } else if 50 <= priority && priority <= 59 {
        Some(Category::Shared)
    } else {
        None
    }
}

/// A switch of mode reads as the way back exactly when it leads to the base
/// mode; every other switch names the mode it leads to.
pub proof fn lemma_way_back_label(base_mode: Option<Mode>, to: Mode)
    ensures
        action_label(Action::SwitchToMode(to), effective_base(base_mode)) == "← Back to Normal"@
            <==> to == effective_base(base_mode),
        to != effective_base(base_mode) ==> action_label(
            Action::SwitchToMode(to),
            effective_base(base_mode),
        ) == "→ "@ + to.spec_name() + " mode"@,
{
    reveal_strlit("← Back to Normal");
    reveal_strlit("→ ");
    let forward = "→ "@ + to.spec_name() + " mode"@;
    assert(forward[0] == '→');
    assert("← Back to Normal"@[0] == '←');
}

/// True when two actions say the same: they are the same kind of action with
/// the same content.
pub open spec fn same_action(a: Action, b: Action) -> bool {
    match (a, b) {
        (Action::Write(p), Action::Write(q)) => p@ == q@,
        (Action::Other(s), Action::Other(t)) => s@ == t@,
        _ => a == b,
    }
}

/// True when two lists of actions say the same, action by action.
pub open spec fn same_actions(a: Seq<Action>, b: Seq<Action>) -> bool {
    &&& a.len() == b.len()
    &&& forall|i: int| 0 <= i < a.len() ==> same_action(#[trigger] a[i], b[i])
}

/// Lists of actions that say the same get the same label and the same rank,
/// and are shown in the same modes.
pub proof fn lemma_same_actions(mode: Mode, base_mode: Option<Mode>, a: Seq<Action>, b: Seq<Action>)
    requires
        same_actions(a, b),
    ensures
        binding_label(a, base_mode) == binding_label(b, base_mode),
        is_shown(mode, base_mode, a) == is_shown(mode, base_mode, b),
        rank(mode, base_mode, a) == rank(mode, base_mode, b),
{
    if a.len() > 0 {
        assert(same_action(a[0], b[0]));
    }
}

/// An action that belongs to the current mode ranks strictly before one that
/// the legend shows only because it is shared.
pub proof fn lemma_mode_actions_before_shared(
    mode: Mode,
    base_mode: Option<Mode>,
    own: Seq<Action>,
    shared: Seq<Action>,
)
    requires
        own.len() > 0,
        shared.len() > 0,
        is_mode_specific(mode, own[0]),
        !is_mode_specific(mode, shared[0]),
        is_shared(base_mode, shared[0]),
    ensures
        rank(mode, base_mode, own) < rank(mode, base_mode, shared),
        rank(mode, base_mode, own) <= RANK_RENAME,
        rank(mode, base_mode, shared) == RANK_BACK || rank(mode, base_mode, shared) == RANK_QUIT,
{
}

/// Every binding that the legend shows has a rank below that of the hidden
/// ones, and a rank that has a header.
pub proof fn lemma_shown_rank_has_category(
    mode: Mode,
    base_mode: Option<Mode>,
    actions: Seq<Action>,
)
    requires
        is_shown(mode, base_mode, actions),
    ensures
        rank(mode, base_mode, actions) < RANK_HIDDEN,
        category_of(mode, rank(mode, base_mode, actions)) is Some,
{
}

} // verus!
