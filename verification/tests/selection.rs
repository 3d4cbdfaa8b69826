use zj_which_key::action::{Action, Category};
use zj_which_key::keys::{BareKey, KeyChord};
use zj_which_key::mode::{Direction, Mode, Resize};
use zj_which_key::selection::{
    contains_action, dedup_entries, entry_at_most, get_keybindings, insert_entry, rank_binding,
    Binding, ModeInfo, RankedEntry,
};

fn key(c: char) -> KeyChord {
    KeyChord { key: BareKey::Char(c), ctrl: false, alt: false, shift: false }
}

fn ctrl(c: char) -> KeyChord {
    KeyChord { key: BareKey::Char(c), ctrl: true, alt: false, shift: false }
}

fn bind(chord: KeyChord, action: Action) -> Binding {
    Binding { chord, actions: vec![action] }
}

fn info(mode: Mode, base_mode: Option<Mode>, keybinds: Vec<Binding>) -> ModeInfo {
    ModeInfo { mode, base_mode, keybinds }
}

fn line(priority: u8, key: &str, action: &str, category: Option<Category>) -> RankedEntry {
    RankedEntry { priority, key: String::from(key), action: String::from(action), category }
}

fn summary(legend: &Vec<RankedEntry>) -> Vec<(u8, String, String)> {
    legend.iter().map(|l| (l.priority, l.key.clone(), l.action.clone())).collect()
}

fn row(priority: u8, key: &str, action: &str) -> (u8, String, String) {
    (priority, String::from(key), String::from(action))
}

fn pane_table() -> Vec<Binding> {
    vec![
        bind(ctrl('q'), Action::Quit),
        bind(key('x'), Action::CloseFocus),
        bind(key('t'), Action::NewTab),
        bind(
            KeyChord { key: BareKey::Esc, ctrl: false, alt: false, shift: false },
            Action::SwitchToMode(Mode::Normal),
        ),
        bind(key('r'), Action::SwitchToMode(Mode::Resize)),
        bind(key('f'), Action::ToggleFocusFullscreen),
        bind(key('n'), Action::NewPane(None)),
        bind(key('d'), Action::NewPane(Some(Direction::Down))),
        bind(key('h'), Action::MoveFocus(Direction::Left)),
        bind(key('c'), Action::PaneNameInput),
        bind(key('+'), Action::Resize(Resize::Increase)),
        bind(key('w'), Action::ToggleFloatingPanes),
        Binding { chord: key('e'), actions: vec![] },
    ]
}

fn is_sorted(legend: &Vec<RankedEntry>) -> bool {
    legend.windows(2).all(|w| (w[0].priority, &w[0].key) <= (w[1].priority, &w[1].key))
}

fn has_distinct_actions(legend: &Vec<RankedEntry>) -> bool {
    for i in 0..legend.len() {
        for j in (i + 1)..legend.len() {
            if legend[i].action == legend[j].action {
                return false;
            }
        }
    }
    true
}

#[test]
fn legend_of_pane_mode() {
    let legend = get_keybindings(&info(Mode::Pane, None, pane_table()));
    assert_eq!(
        summary(&legend),
        vec![
            row(10, "d", "New pane Down"),
            row(10, "n", "New pane"),
            row(11, "x", "Close pane"),
            row(12, "h", "Focus Left"),
            row(13, "+", "Resize Increase"),
            row(30, "f", "Fullscreen"),
            row(30, "w", "Toggle floating"),
            row(35, "c", "Rename pane"),
            row(50, "Esc", "← Back to Normal"),
            row(51, "Ctrl+q", "Quit Zellij"),
        ]
    );
    let categories: Vec<Option<Category>> = legend.iter().map(|l| l.category).collect();
    assert_eq!(
        categories,
        vec![
            Some(Category::PaneActions),
            Some(Category::PaneActions),
            Some(Category::PaneActions),
            Some(Category::PaneActions),
            Some(Category::PaneActions),
            Some(Category::Toggles),
            Some(Category::Toggles),
            Some(Category::Toggles),
            Some(Category::Shared),
            Some(Category::Shared),
        ]
    );
}

#[test]
fn legend_is_sorted_and_has_one_line_per_action() {
    let modes = vec![
        Mode::Normal,
        Mode::Locked,
        Mode::Resize,
        Mode::Pane,
        Mode::Tab,
        Mode::Scroll,
        Mode::Session,
        Mode::Move,
    ];
    let mut table = pane_table();
    table.push(bind(key('N'), Action::NewPane(None)));
    table.push(bind(key('a'), Action::NewPane(None)));
    table.push(bind(ctrl('c'), Action::Quit));
    table.push(bind(key('1'), Action::GoToTab(1)));
    table.push(bind(key('2'), Action::GoToTab(1)));
    for mode in modes {
        let legend = get_keybindings(&info(mode, None, table.clone()));
        assert!(is_sorted(&legend));
        assert!(has_distinct_actions(&legend));
        assert!(legend.len() <= table.len());
        for l in &legend {
            assert!(l.priority < 100);
            assert!(l.category.is_some());
        }
    }
}

#[test]
fn legend_is_the_same_on_the_same_input() {
    let first = get_keybindings(&info(Mode::Pane, None, pane_table()));
    let second = get_keybindings(&info(Mode::Pane, None, pane_table()));
    assert_eq!(first, second);
    let scroll = get_keybindings(&info(Mode::Scroll, Some(Mode::Locked), pane_table()));
    let again = get_keybindings(&info(Mode::Scroll, Some(Mode::Locked), pane_table()));
    assert_eq!(scroll, again);
}

#[test]
fn new_pane_ranks_before_the_way_back() {
    let table = vec![
        bind(key('b'), Action::SwitchToMode(Mode::Normal)),
        bind(key('n'), Action::NewPane(None)),
    ];
    let legend = get_keybindings(&info(Mode::Pane, Some(Mode::Normal), table));
    assert_eq!(
        summary(&legend),
        vec![row(10, "n", "New pane"), row(50, "b", "← Back to Normal")]
    );
    assert!(legend[0].priority < legend[1].priority);
}

#[test]
fn new_pane_ranks_before_the_way_back_whatever_the_keys() {
    let table = vec![
        bind(key('a'), Action::SwitchToMode(Mode::Normal)),
        bind(key('z'), Action::NewPane(None)),
    ];
    let legend = get_keybindings(&info(Mode::Pane, None, table));
    assert_eq!(
        summary(&legend),
        vec![row(10, "z", "New pane"), row(50, "a", "← Back to Normal")]
    );
}

#[test]
fn the_way_back_has_its_own_label_in_the_legend() {
    let table = vec![bind(key('b'), Action::SwitchToMode(Mode::Normal))];
    let legend = get_keybindings(&info(Mode::Tab, Some(Mode::Normal), table));
    assert_eq!(legend.len(), 1);
    assert_eq!(legend[0].action, "← Back to Normal");
    assert_eq!(legend[0].category, Some(Category::Shared));
}

#[test]
fn of_two_chords_with_one_effect_the_first_key_stays() {
    let table = vec![
        bind(key('n'), Action::NewPane(None)),
        bind(ctrl('n'), Action::NewPane(None)),
        bind(key('a'), Action::NewPane(None)),
    ];
    let legend = get_keybindings(&info(Mode::Pane, None, table));
    assert_eq!(summary(&legend), vec![row(10, "Ctrl+n", "New pane")]);
}

#[test]
fn of_two_chords_with_one_label_the_lower_rank_stays() {
    let table = vec![
        bind(key('a'), Action::UndoRenameTab),
        bind(key('z'), Action::Other(String::from("Undo rename"))),
        bind(key('b'), Action::NewPane(None)),
    ];
    let legend = get_keybindings(&info(Mode::Scroll, None, table));
    assert_eq!(summary(&legend), vec![row(10, "b", "New pane"), row(15, "a", "Undo rename")]);
}

#[test]
fn keys_sort_by_code_point() {
    let table = vec![
        bind(key('b'), Action::GoToTab(2)),
        bind(key('B'), Action::GoToTab(3)),
        bind(key('a'), Action::GoToTab(1)),
        bind(ctrl('a'), Action::GoToTab(4)),
        bind(KeyChord { key: BareKey::Up, ctrl: false, alt: false, shift: false }, Action::GoToTab(5)),
        bind(key('1'), Action::GoToTab(6)),
        bind(KeyChord { key: BareKey::F(1), ctrl: false, alt: false, shift: false }, Action::GoToTab(7)),
    ];
    let legend = get_keybindings(&info(Mode::Tab, None, table));
    let keys: Vec<&str> = legend.iter().map(|l| l.key.as_str()).collect();
    assert_eq!(keys, vec!["1", "B", "Ctrl+a", "F1", "a", "b", "↑"]);
}

#[test]
fn a_key_sorts_before_a_longer_key_that_starts_with_it() {
    let table = vec![
        bind(KeyChord { key: BareKey::F(12), ctrl: false, alt: false, shift: false }, Action::GoToTab(2)),
        bind(KeyChord { key: BareKey::F(1), ctrl: false, alt: false, shift: false }, Action::GoToTab(1)),
    ];
    let legend = get_keybindings(&info(Mode::Tab, None, table));
    let keys: Vec<&str> = legend.iter().map(|l| l.key.as_str()).collect();
    assert_eq!(keys, vec!["F1", "F12"]);
}

#[test]
fn lines_with_the_same_rank_and_key_keep_the_order_of_the_table() {
    let table = vec![
        bind(KeyChord { key: BareKey::Pause, ctrl: false, alt: false, shift: false }, Action::GoToTab(2)),
        bind(KeyChord { key: BareKey::Menu, ctrl: false, alt: false, shift: false }, Action::GoToTab(1)),
        bind(key('?'), Action::GoToTab(3)),
    ];
    let legend = get_keybindings(&info(Mode::Tab, None, table));
    assert_eq!(
        summary(&legend),
        vec![row(20, "?", "Tab 2"), row(20, "?", "Tab 1"), row(20, "?", "Tab 3")]
    );
}

#[test]
fn an_empty_table_gives_an_empty_legend() {
    assert!(get_keybindings(&info(Mode::Pane, None, vec![])).is_empty());
    assert!(get_keybindings(&ModeInfo::new()).is_empty());
}

#[test]
fn a_table_without_a_shown_binding_gives_an_empty_legend() {
    let table = vec![
        bind(key('t'), Action::NewTab),
        bind(key('r'), Action::SwitchToMode(Mode::Resize)),
        bind(key('s'), Action::Other(String::from("ScrollUp"))),
        Binding { chord: key('e'), actions: vec![] },
    ];
    assert!(get_keybindings(&info(Mode::Pane, None, table.clone())).is_empty());
    assert!(get_keybindings(&info(Mode::Normal, None, table.clone())).is_empty());
    assert_eq!(get_keybindings(&info(Mode::Tab, None, table)).len(), 1);
}

#[test]
fn in_the_base_mode_only_shared_actions_show() {
    let legend = get_keybindings(&info(Mode::Normal, None, pane_table()));
    assert_eq!(
        summary(&legend),
        vec![row(50, "Esc", "← Back to Normal"), row(51, "Ctrl+q", "Quit Zellij")]
    );
}

#[test]
fn scroll_mode_shows_every_binding_with_an_action() {
    let table = vec![
        bind(key('j'), Action::Other(String::from("ScrollDown"))),
        bind(key('k'), Action::Other(String::from("ScrollUp"))),
        bind(key('s'), Action::SwitchToMode(Mode::EnterSearch)),
        bind(ctrl('c'), Action::SwitchToMode(Mode::Normal)),
        bind(ctrl('q'), Action::Quit),
        Binding { chord: key('e'), actions: vec![] },
    ];
    let legend = get_keybindings(&info(Mode::Scroll, None, table));
    assert_eq!(
        summary(&legend),
        vec![
            row(15, "Ctrl+c", "← Back to Normal"),
            row(15, "Ctrl+q", "Quit Zellij"),
            row(15, "j", "ScrollDown"),
            row(15, "k", "ScrollUp"),
            row(15, "s", "→ EnterSearch mode"),
        ]
    );
    assert!(legend.iter().all(|l| l.category == Some(Category::Actions)));
}

#[test]
fn the_line_of_a_binding() {
    let binding = bind(ctrl('n'), Action::NewPane(Some(Direction::Right)));
    assert_eq!(
        rank_binding(Mode::Pane, None, &binding),
        line(10, "Ctrl+n", "New pane Right", Some(Category::PaneActions))
    );
    assert_eq!(
        rank_binding(Mode::Tab, None, &binding),
        line(100, "Ctrl+n", "New pane Right", None)
    );
    let empty = Binding { chord: key('e'), actions: vec![] };
    assert_eq!(rank_binding(Mode::Pane, None, &empty), line(255, "e", "Unknown", None));
}

#[test]
fn the_order_of_lines() {
    let a = line(10, "z", "x", None);
    let b = line(11, "a", "x", None);
    let c = line(11, "ab", "y", None);
    assert!(entry_at_most(&a, &b));
    assert!(!entry_at_most(&b, &a));
    assert!(entry_at_most(&b, &c));
    assert!(!entry_at_most(&c, &b));
    assert!(entry_at_most(&a, &a));
    assert!(entry_at_most(&c, &c));
}

#[test]
fn a_line_goes_in_behind_its_equals() {
    let mut lines = vec![line(10, "a", "1", None), line(10, "b", "2", None), line(20, "a", "3", None)];
    insert_entry(&mut lines, line(10, "b", "4", None));
    insert_entry(&mut lines, line(5, "z", "5", None));
    insert_entry(&mut lines, line(30, "a", "6", None));
    insert_entry(&mut lines, line(10, "aa", "7", None));
    let actions: Vec<&str> = lines.iter().map(|l| l.action.as_str()).collect();
    assert_eq!(actions, vec!["5", "1", "7", "2", "4", "3", "6"]);
}

#[test]
fn dedup_keeps_the_first_line_of_every_action() {
    let lines = vec![
        line(10, "a", "one", None),
        line(10, "b", "two", None),
        line(11, "c", "one", None),
        line(12, "d", "three", None),
        line(13, "e", "two", None),
        line(14, "f", "one", None),
    ];
    let kept = dedup_entries(&lines);
    let keys: Vec<&str> = kept.iter().map(|l| l.key.as_str()).collect();
    assert_eq!(keys, vec!["a", "b", "d"]);
    assert_eq!(dedup_entries(&kept), kept);
    assert!(contains_action(&kept, &String::from("three")));
    assert!(!contains_action(&kept, &String::from("four")));
    assert!(dedup_entries(&vec![]).is_empty());
}

#[test]
fn base_mode_is_the_designated_one_or_normal() {
    assert!(info(Mode::Normal, None, vec![]).is_base_mode());
    assert!(!info(Mode::Pane, None, vec![]).is_base_mode());
    assert!(info(Mode::Locked, Some(Mode::Locked), vec![]).is_base_mode());
    assert!(!info(Mode::Normal, Some(Mode::Locked), vec![]).is_base_mode());
    assert!(info(Mode::Normal, Some(Mode::Normal), vec![]).is_base_mode());
}

#[test]
fn the_order_of_the_table_makes_no_difference_where_the_keys_differ() {
    let table = pane_table();
    let expected = get_keybindings(&info(Mode::Pane, None, table.clone()));
    let mut reversed = table.clone();
    reversed.reverse();
    assert_eq!(get_keybindings(&info(Mode::Pane, None, reversed)), expected);
    let mut rotated = table.clone();
    rotated.rotate_left(5);
    assert_eq!(get_keybindings(&info(Mode::Pane, None, rotated)), expected);
}
