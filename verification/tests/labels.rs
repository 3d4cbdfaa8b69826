use zj_which_key::action::{format_action, Action};
use zj_which_key::keys::{format_key, BareKey, KeyChord};
use zj_which_key::mode::{Direction, Mode, Resize};

fn chord(key: BareKey, ctrl: bool, alt: bool, shift: bool) -> KeyChord {
    KeyChord { key, ctrl, alt, shift }
}

fn plain(key: BareKey) -> KeyChord {
    chord(key, false, false, false)
}

fn label(action: Action) -> String {
    format_action(&[action], None)
}

#[test]
fn key_label_of_a_plain_character() {
    assert_eq!(format_key(&plain(BareKey::Char('n'))), "n");
    assert_eq!(format_key(&plain(BareKey::Char('?'))), "?");
    assert_eq!(format_key(&plain(BareKey::Char('é'))), "é");
}

#[test]
fn key_label_writes_modifiers_in_the_order_ctrl_alt_shift() {
    assert_eq!(format_key(&chord(BareKey::Char('g'), true, false, false)), "Ctrl+g");
    assert_eq!(format_key(&chord(BareKey::Char('g'), false, true, false)), "Alt+g");
    assert_eq!(format_key(&chord(BareKey::Char('g'), false, false, true)), "Shift+g");
    assert_eq!(format_key(&chord(BareKey::Char('g'), true, true, false)), "Ctrl+Alt+g");
    assert_eq!(format_key(&chord(BareKey::Char('g'), true, false, true)), "Ctrl+Shift+g");
    assert_eq!(format_key(&chord(BareKey::Char('g'), false, true, true)), "Alt+Shift+g");
    assert_eq!(
        format_key(&chord(BareKey::Backspace, true, true, true)),
        "Ctrl+Alt+Shift+Backspace"
    );
}

#[test]
fn key_label_of_named_keys() {
    assert_eq!(format_key(&plain(BareKey::Enter)), "Enter");
    assert_eq!(format_key(&plain(BareKey::Esc)), "Esc");
    assert_eq!(format_key(&plain(BareKey::Tab)), "Tab");
    assert_eq!(format_key(&plain(BareKey::Backspace)), "Backspace");
    assert_eq!(format_key(&plain(BareKey::Delete)), "Del");
    assert_eq!(format_key(&plain(BareKey::Insert)), "Ins");
    assert_eq!(format_key(&plain(BareKey::Home)), "Home");
    assert_eq!(format_key(&plain(BareKey::End)), "End");
    assert_eq!(format_key(&plain(BareKey::PageUp)), "PgUp");
    assert_eq!(format_key(&plain(BareKey::PageDown)), "PgDn");
}

#[test]
fn key_label_of_arrows() {
    assert_eq!(format_key(&plain(BareKey::Up)), "↑");
    assert_eq!(format_key(&plain(BareKey::Down)), "↓");
    assert_eq!(format_key(&plain(BareKey::Left)), "←");
    assert_eq!(format_key(&plain(BareKey::Right)), "→");
    assert_eq!(format_key(&chord(BareKey::Left, false, true, false)), "Alt+←");
}

#[test]
fn key_label_of_function_keys() {
    assert_eq!(format_key(&plain(BareKey::F(1))), "F1");
    assert_eq!(format_key(&plain(BareKey::F(12))), "F12");
    assert_eq!(format_key(&plain(BareKey::F(0))), "F0");
    assert_eq!(format_key(&plain(BareKey::F(255))), "F255");
}

#[test]
fn key_label_of_keys_without_a_symbol() {
    assert_eq!(format_key(&plain(BareKey::CapsLock)), "?");
    assert_eq!(format_key(&plain(BareKey::ScrollLock)), "?");
    assert_eq!(format_key(&plain(BareKey::NumLock)), "?");
    assert_eq!(format_key(&plain(BareKey::PrintScreen)), "?");
    assert_eq!(format_key(&plain(BareKey::Pause)), "?");
    assert_eq!(format_key(&chord(BareKey::Menu, true, false, false)), "Ctrl+?");
}

#[test]
fn action_label_of_no_action() {
    assert_eq!(format_action(&[], None), "Unknown");
    assert_eq!(format_action(&[], Some(Mode::Locked)), "Unknown");
}

#[test]
fn action_label_reads_the_first_action_only() {
    let actions = [Action::NewTab, Action::SwitchToMode(Mode::Normal)];
    assert_eq!(format_action(&actions, None), "New tab");
    let actions = [Action::SwitchToMode(Mode::Normal), Action::NewTab];
    assert_eq!(format_action(&actions, None), "← Back to Normal");
}

#[test]
fn switch_to_base_mode_reads_as_the_way_back() {
    let actions = [Action::SwitchToMode(Mode::Normal)];
    assert_eq!(format_action(&actions, Some(Mode::Normal)), "← Back to Normal");
    assert_ne!(format_action(&actions, Some(Mode::Normal)), "→ Normal mode");
    assert_eq!(format_action(&actions, None), "← Back to Normal");
}

#[test]
fn switch_to_a_designated_base_mode_reads_as_the_way_back() {
    let actions = [Action::SwitchToMode(Mode::Locked)];
    assert_eq!(format_action(&actions, Some(Mode::Locked)), "← Back to Normal");
    assert_eq!(format_action(&actions, None), "→ Locked mode");
    let actions = [Action::SwitchToMode(Mode::Normal)];
    assert_eq!(format_action(&actions, Some(Mode::Locked)), "→ Normal mode");
}

#[test]
fn switch_to_another_mode_names_the_mode() {
    assert_eq!(label(Action::SwitchToMode(Mode::Locked)), "→ Locked mode");
    assert_eq!(label(Action::SwitchToMode(Mode::Resize)), "→ Resize mode");
    assert_eq!(label(Action::SwitchToMode(Mode::Pane)), "→ Pane mode");
    assert_eq!(label(Action::SwitchToMode(Mode::Tab)), "→ Tab mode");
    assert_eq!(label(Action::SwitchToMode(Mode::Scroll)), "→ Scroll mode");
    assert_eq!(label(Action::SwitchToMode(Mode::EnterSearch)), "→ EnterSearch mode");
    assert_eq!(label(Action::SwitchToMode(Mode::Search)), "→ Search mode");
    assert_eq!(label(Action::SwitchToMode(Mode::RenameTab)), "→ RenameTab mode");
    assert_eq!(label(Action::SwitchToMode(Mode::RenamePane)), "→ RenamePane mode");
    assert_eq!(label(Action::SwitchToMode(Mode::Session)), "→ Session mode");
    assert_eq!(label(Action::SwitchToMode(Mode::Move)), "→ Move mode");
    assert_eq!(label(Action::SwitchToMode(Mode::Prompt)), "→ Prompt mode");
    assert_eq!(label(Action::SwitchToMode(Mode::Tmux)), "→ Tmux mode");
}

#[test]
fn action_labels_with_a_direction() {
    assert_eq!(label(Action::Resize(Resize::Increase)), "Resize Increase");
    assert_eq!(label(Action::Resize(Resize::Decrease)), "Resize Decrease");
    assert_eq!(label(Action::MoveFocus(Direction::Left)), "Focus Left");
    assert_eq!(label(Action::MoveFocus(Direction::Right)), "Focus Right");
    assert_eq!(label(Action::MoveFocus(Direction::Up)), "Focus Up");
    assert_eq!(label(Action::MoveFocus(Direction::Down)), "Focus Down");
    assert_eq!(label(Action::NewPane(Some(Direction::Down))), "New pane Down");
    assert_eq!(label(Action::NewPane(Some(Direction::Right))), "New pane Right");
    assert_eq!(label(Action::NewPane(None)), "New pane");
}

#[test]
fn action_labels_of_the_fixed_table() {
    assert_eq!(label(Action::Quit), "Quit Zellij");
    assert_eq!(label(Action::CloseFocus), "Close pane");
    assert_eq!(label(Action::NewTab), "New tab");
    assert_eq!(label(Action::GoToNextTab), "Next tab");
    assert_eq!(label(Action::GoToPreviousTab), "Prev tab");
    assert_eq!(label(Action::CloseTab), "Close tab");
    assert_eq!(label(Action::ToggleFloatingPanes), "Toggle floating");
    assert_eq!(label(Action::TogglePaneFrames), "Toggle frames");
    assert_eq!(label(Action::ToggleFocusFullscreen), "Fullscreen");
    assert_eq!(label(Action::PaneNameInput), "Rename pane");
    assert_eq!(label(Action::TabNameInput), "Rename tab");
    assert_eq!(label(Action::UndoRenamePane), "Undo rename");
    assert_eq!(label(Action::UndoRenameTab), "Undo rename");
    assert_eq!(label(Action::Run), "Run");
}

#[test]
fn action_label_of_a_tab_number() {
    assert_eq!(label(Action::GoToTab(1)), "Tab 1");
    assert_eq!(label(Action::GoToTab(0)), "Tab 0");
    assert_eq!(label(Action::GoToTab(10)), "Tab 10");
    assert_eq!(label(Action::GoToTab(4294967295)), "Tab 4294967295");
}

#[test]
fn write_of_a_single_line_feed_reads_as_enter() {
    assert_eq!(label(Action::Write(vec![10])), "Enter");
    assert_eq!(label(Action::Write(vec![13])), "Write");
    assert_eq!(label(Action::Write(vec![10, 10])), "Write");
    assert_eq!(label(Action::Write(vec![])), "Write");
    assert_eq!(label(Action::Write(vec![2, 10])), "Write");
}

#[test]
fn action_label_of_another_action_is_the_hosts_rendering() {
    assert_eq!(label(Action::Other(String::from("ScrollUp"))), "ScrollUp");
    assert_eq!(label(Action::Other(String::from("Search(Down)"))), "Search(Down)");
    assert_eq!(label(Action::Other(String::new())), "");
}

#[test]
fn names_of_modes_directions_and_resizes() {
    assert_eq!(Mode::Normal.name(), "Normal");
    assert_eq!(Mode::EnterSearch.name(), "EnterSearch");
    assert_eq!(Mode::Tmux.name(), "Tmux");
    assert_eq!(Direction::Up.name(), "Up");
    assert_eq!(Resize::Decrease.name(), "Decrease");
}
