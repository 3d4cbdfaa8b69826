//! The host's vocabulary: input modes, directions and resize operations, each
//! with the name under which the host shows it.

use vstd::prelude::*;

verus! {

/// An input mode of the host.
#[derive(Clone, Copy, Debug, PartialEq, Eq, Structural)]
pub enum Mode {
    Normal,
    Locked,
    Resize,
    Pane,
    Tab,
    Scroll,
    EnterSearch,
    Search,
    RenameTab,
    RenamePane,
    Session,
    Move,
    Prompt,
    Tmux,
}

/// A direction on the screen.
#[derive(Clone, Copy, Debug, PartialEq, Eq, Structural)]
pub enum Direction {
    Left,
    Right,
    Up,
    Down,
}

/// What a resize does to the focused pane.
#[derive(Clone, Copy, Debug, PartialEq, Eq, Structural)]
pub enum Resize {
    Increase,
    Decrease,
}

impl Mode {
    /// The name of the mode, as the host writes it.
    pub open spec fn spec_name(self) -> Seq<char> {
        match self {
            Mode::Normal => "Normal"@,
            Mode::Locked => "Locked"@,
            Mode::Resize => "Resize"@,
            Mode::Pane => "Pane"@,
            Mode::Tab => "Tab"@,
            Mode::Scroll => "Scroll"@,
            Mode::EnterSearch => "EnterSearch"@,
            Mode::Search => "Search"@,
            Mode::RenameTab => "RenameTab"@,
            Mode::RenamePane => "RenamePane"@,
            Mode::Session => "Session"@,
            Mode::Move => "Move"@,
            Mode::Prompt => "Prompt"@,
            Mode::Tmux => "Tmux"@,
        }
    }

    /// The name of the mode, as the host writes it.
    pub fn name(self) -> (s: &'static str)
        ensures
            s@ == self.spec_name(),
    {
        match self {
            Mode::Normal => "Normal",
            Mode::Locked => "Locked",
            Mode::Resize => "Resize",
            Mode::Pane => "Pane",
            Mode::Tab => "Tab",
            Mode::Scroll => "Scroll",
            Mode::EnterSearch => "EnterSearch",
            Mode::Search => "Search",
            Mode::RenameTab => "RenameTab",
            Mode::RenamePane => "RenamePane",
            Mode::Session => "Session",
            Mode::Move => "Move",
            Mode::Prompt => "Prompt",
            Mode::Tmux => "Tmux",
        }
    }
}

impl Direction {
    /// The name of the direction, as the host writes it.
    pub open spec fn spec_name(self) -> Seq<char> {
        match self {
            Direction::Left => "Left"@,
            Direction::Right => "Right"@,
            Direction::Up => "Up"@,
            Direction::Down => "Down"@,
        }
    }

    /// The name of the direction, as the host writes it.
    pub fn name(self) -> (s: &'static str)
        ensures
            s@ == self.spec_name(),
    {
        match self {
            Direction::Left => "Left",
            Direction::Right => "Right",
            Direction::Up => "Up",
            Direction::Down => "Down",
        }
    }
}

impl Resize {
    /// The name of the operation, as the host writes it.
    pub open spec fn spec_name(self) -> Seq<char> {
        match self {
            Resize::Increase => "Increase"@,
            Resize::Decrease => "Decrease"@,
        }
    }

    /// The name of the operation, as the host writes it.
    pub fn name(self) -> (s: &'static str)
        ensures
            s@ == self.spec_name(),
    {
        match self {
            Resize::Increase => "Increase",
            Resize::Decrease => "Decrease",
        }
    }
}

/// The mode that counts as the mode at rest: the one the host designates, or
/// `Normal` where it designates none.
pub open spec fn effective_base(base: Option<Mode>) -> Mode {
    match base {
        Some(m) => m,
        None => Mode::Normal,
    }
}

/// The mode at rest: the one the host designates, or `Normal`.
pub fn base_or_normal(base: Option<Mode>) -> (m: Mode)
    ensures
        m == effective_base(base),
{
    match base {
        Some(m) => m,
        None => Mode::Normal,
    }
}

} // verus!
