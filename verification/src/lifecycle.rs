//! The life of the two instances. The controller watches the mode of the host
//! and asks for an overlay when the host leaves its base mode; the overlay
//! renders the legend and ends itself when the host returns there. Neither
//! waits for the other: the controller only keeps its own belief of whether an
//! overlay exists.
//!
//! Every function here decides and nothing else. What it asks of the host
//! comes back as a value, and whoever runs the instance carries it out.

use vstd::prelude::*;
use vstd::string::*;
use crate::config::{Settings, config_view, parse_config, settings_of};
use crate::keys::KeyChord;
use crate::mode::Mode;
use crate::placement::{Placement, calculate_coordinates, overlay_placement};
use crate::action::is_shown;
use crate::render::{footer_text, header_text, legend_text, lemma_empty_legend_text, render_legend};
use crate::selection::{ModeInfo, get_keybindings, lemma_selection_of_nothing_shown, selection};
use crate::text::{decimal_digits, decimal_string};

verus! {

/// What one instance knows.
///
/// An instance is not ready before the host has granted its permissions
/// (`permissions_granted`); if the host never does, it stays that way, and
/// then a controller asks for no overlay and an overlay shows no legend. A
/// ready controller is idle while the host is in its base mode and active
/// while it is not; `overlay_visible` is its belief that an overlay exists,
/// which nothing checks against the overlay itself.
#[derive(Clone, Debug, PartialEq, Eq)]
pub struct State {
    pub mode_info: ModeInfo,
    pub auto_show: bool,
    pub hide_in_base_mode: bool,
    pub max_lines: usize,
    pub permissions_granted: bool,
    pub own_plugin_id: Option<u32>,
    pub rows: usize,
    pub cols: usize,
    pub display_area_rows: usize,
    pub display_area_cols: usize,
    /// True of the instance that renders the legend; set when the instance
    /// boots and never changed after.
    pub is_overlay: bool,
    /// The controller's belief that an overlay exists.
    pub overlay_visible: bool,
}

/// What the host reports of one tab.
#[derive(Clone, Copy, Debug, PartialEq, Eq, Structural)]
pub struct TabInfo {
    pub active: bool,
    pub display_area_rows: usize,
    pub display_area_columns: usize,
}

/// What the host tells an instance.
#[derive(Clone, Debug, PartialEq, Eq)]
pub enum Event {
    /// The host has granted the permissions that the instance asked for.
    PermissionGranted,
    /// The host has refused them.
    PermissionDenied,
    /// The mode of the host, reported on every change.
    ModeUpdate(ModeInfo),
    /// The tabs of the host.
    TabUpdate(Vec<TabInfo>),
    /// A chord pressed while the instance has the focus.
    Key(KeyChord),
    /// Anything else.
    Other,
}

/// The request for a new overlay: what the overlay boots with, where it
/// floats, and the mode after which it is titled.
#[derive(Clone, Copy, Debug, PartialEq, Eq, Structural)]
pub struct SpawnRequest {
    pub max_lines: usize,
    pub hide_in_base_mode: bool,
    pub placement: Placement,
    pub mode: Mode,
}

/// What an instance asks of the host.
#[derive(Clone, Copy, Debug, PartialEq, Eq, Structural)]
pub enum Command {
    /// Nothing.
    Nothing,
    /// Make the pane of the instance one that cannot take the focus.
    SetUnselectable,
    /// End the instance.
    CloseSelf,
    /// Start an overlay.
    Spawn(SpawnRequest),
}

/// The answer of an instance to an event.
#[derive(Clone, Copy, Debug, PartialEq, Eq, Structural)]
pub struct Reaction {
    /// Whether the instance is to be rendered anew.
    pub render: bool,
    pub command: Command,
}

/// A permission that an instance asks of the host.
#[derive(Clone, Copy, Debug, PartialEq, Eq, Structural)]
pub enum Permission {
    ReadApplicationState,
    ChangeApplicationState,
    MessageAndLaunchOtherPlugins,
}

/// A kind of event that an instance subscribes to.
#[derive(Clone, Copy, Debug, PartialEq, Eq, Structural)]
pub enum EventKind {
    ModeUpdate,
    TabUpdate,
    Key,
    PermissionRequestResult,
}

/// What an instance asks of the host when it boots.
#[derive(Clone, Debug, PartialEq, Eq)]
pub struct LoadPlan {
    pub permissions: Vec<Permission>,
    pub subscriptions: Vec<EventKind>,
}

// ---------------------------------------------------------------------------
// The request for an overlay
// ---------------------------------------------------------------------------

/// The name of the message that carries the request.
pub const SPAWN_MESSAGE: &'static str = "spawn_overlay";

/// The address of the plugin that the request starts: the plugin itself.
pub const OWN_URL: &'static str = "zellij:OWN_URL";

/// `true` or `false`, written out.
pub open spec fn flag_text(on: bool) -> Seq<char> {
    if on {
        "true"@
    } else {
        "false"@
    }
}

impl SpawnRequest {
    /// The configuration that the overlay boots with: that it is the overlay,
    /// and the two settings it inherits.
    pub open spec fn spec_config(self) -> Seq<(Seq<char>, Seq<char>)> {
        seq![
            ("is_overlay"@, "true"@),
            ("max_lines"@, decimal_digits(self.max_lines as nat)),
            ("hide_in_base_mode"@, flag_text(self.hide_in_base_mode)),
        ]
    }

    /// The title of the overlay's pane: the name of the mode and the word
    /// `Mode`.
    pub open spec fn spec_title(self) -> Seq<char> {
        self.mode.spec_name() + " Mode"@
    }

    /// The configuration that the overlay boots with.
    pub fn config(&self) -> (entries: Vec<(String, String)>)
        ensures
            config_view(entries@) == self.spec_config(),
    {
        let mut entries: Vec<(String, String)> = Vec::new();
        entries.push((String::from_str("is_overlay"), String::from_str("true")));
        entries.push((String::from_str("max_lines"), decimal_string(self.max_lines as u64)));
        entries.push(
            (
                String::from_str("hide_in_base_mode"),
                String::from_str(
                    if self.hide_in_base_mode {
                        "true"
                    } else {
                        "false"
                    },
                ),
            ),
        );
        assert(config_view(entries@) =~= self.spec_config());
        entries
    }

    /// The title of the overlay's pane.
    pub fn title(&self) -> (title: String)
        ensures
            title@ == self.spec_title(),
    {
        let mut title = String::from_str(self.mode.name());
        title.append(" Mode");
        title
    }
}

/// An overlay that boots with the configuration of a request is an overlay,
/// has the two settings of the request, and shows itself on a change of mode.
pub proof fn lemma_request_hands_settings_over(request: SpawnRequest)
    ensures
        settings_of(request.spec_config()) == (Settings {
            is_overlay: true,
            auto_show: true,
            hide_in_base_mode: request.hide_in_base_mode,
            max_lines: request.max_lines,
        }),
{
    let config = request.spec_config();
    let two = seq![
        ("is_overlay"@, "true"@),
        ("max_lines"@, decimal_digits(request.max_lines as nat)),
    ];
    let one = seq![("is_overlay"@, "true"@)];
    assert(config.drop_last() =~= two);
    assert(two.drop_last() =~= one);
    assert(one.drop_last() =~= Seq::<(Seq<char>, Seq<char>)>::empty());
    reveal_strlit("is_overlay");
    reveal_strlit("max_lines");
    reveal_strlit("hide_in_base_mode");
    reveal_strlit("auto_show_on_mode_change");
    reveal_strlit("true");
    reveal_strlit("false");
    assert("is_overlay"@ != "max_lines"@) by {
        assert("is_overlay"@[0] != "max_lines"@[0]);
    }
    assert("is_overlay"@ != "hide_in_base_mode"@) by {
        assert("is_overlay"@[0] != "hide_in_base_mode"@[0]);
    }
    assert("max_lines"@ != "hide_in_base_mode"@) by {
        assert("max_lines"@[0] != "hide_in_base_mode"@[0]);
    }
    assert("auto_show_on_mode_change"@ != "is_overlay"@) by {
        assert("auto_show_on_mode_change"@[0] != "is_overlay"@[0]);
    }
    assert("auto_show_on_mode_change"@ != "max_lines"@) by {
        assert("auto_show_on_mode_change"@[0] != "max_lines"@[0]);
    }
    assert("auto_show_on_mode_change"@ != "hide_in_base_mode"@) by {
        assert("auto_show_on_mode_change"@[0] != "hide_in_base_mode"@[0]);
    }
    assert("true"@ != "false"@) by {
        assert("true"@[0] != "false"@[0]);
    }
    crate::text::lemma_parse_decimal(request.max_lines);
    reveal_with_fuel(crate::config::config_value, 4);
}

// ---------------------------------------------------------------------------
// What the instances do
// ---------------------------------------------------------------------------

/// The request that a controller in state `s` makes for an overlay.
pub open spec fn spawn_request(s: State) -> SpawnRequest {
    SpawnRequest {
        max_lines: s.max_lines,
        hide_in_base_mode: s.hide_in_base_mode,
        placement: overlay_placement(s.display_area_rows, s.display_area_cols),
        mode: s.mode_info.mode,
    }
}

/// Showing the overlay: a controller that believes in none asks for one and
/// believes in it from then on; one that believes in one does nothing.
pub open spec fn spawned(s: State) -> (State, Command) {
    if s.overlay_visible {
        (s, Command::Nothing)
    } else {
        (State { overlay_visible: true, ..s }, Command::Spawn(spawn_request(s)))
    }
}

/// Hiding the overlay: the controller stops believing in one. It asks nothing
/// of the host, since the overlay ends itself.
pub open spec fn closed(s: State) -> State {
    State { overlay_visible: false, ..s }
}

/// Showing the overlay where the controller believes in none, hiding it where
/// it believes in one.
pub open spec fn toggled(s: State) -> (State, Command) {
    if s.overlay_visible {
        (closed(s), Command::Nothing)
    } else {
        spawned(s)
    }
}

/// The first tab that is active, if any is.
pub open spec fn first_active(tabs: Seq<TabInfo>) -> Option<TabInfo>
    decreases tabs.len(),
{
    if tabs.len() == 0 {
        None
    } else if tabs[0].active {
        Some(tabs[0])
    } else {
        first_active(tabs.drop_first())
    }
}

/// The state with the size of the display area as the active tab has it;
/// unchanged where no tab is active.
pub open spec fn with_display_area(s: State, tabs: Seq<TabInfo>) -> State {
    match first_active(tabs) {
        Some(tab) => State {
            display_area_rows: tab.display_area_rows,
            display_area_cols: tab.display_area_columns,
            ..s
        },
        None => s,
    }
}

/// What a controller does on a report of the host's mode. It takes the report
/// in. When the host has left its base mode with this report, a controller
/// that is ready and shows the overlay by itself shows it. When the host has
/// returned to its base mode with this report and hiding is switched on, the
/// controller hides the overlay.
pub open spec fn controller_on_mode(s: State, info: ModeInfo) -> (State, Command) {
    let taken = State { mode_info: info, ..s };
    let was_base = s.mode_info.in_base_mode();
    let is_base = info.in_base_mode();
    if was_base && !is_base && s.permissions_granted && s.auto_show {
        spawned(taken)
    } else if !was_base && is_base && s.hide_in_base_mode {
        (closed(taken), Command::Nothing)
    } else {
        (taken, Command::Nothing)
    }
}

/// What a controller does on an event. It never renders.
pub open spec fn controller_step(s: State, event: Event) -> (State, Reaction) {
    match event {
        Event::PermissionGranted => (
            State { permissions_granted: true, ..s },
            Reaction { render: false, command: Command::Nothing },
        ),
        Event::ModeUpdate(info) => (
            controller_on_mode(s, info).0,
            Reaction { render: false, command: controller_on_mode(s, info).1 },
        ),
        Event::TabUpdate(tabs) => (
            with_display_area(s, tabs@),
            Reaction { render: false, command: Command::Nothing },
        ),
        Event::Key(chord) => if s.permissions_granted && chord.spec_is_toggle() {
            (toggled(s).0, Reaction { render: false, command: toggled(s).1 })
        } else {
            (s, Reaction { render: false, command: Command::Nothing })
        },
        _ => (s, Reaction { render: false, command: Command::Nothing }),
    }
}

/// True when a report of the host's mode ends an overlay in state `s`: hiding
/// is switched on, and with this report the host has returned to its base
/// mode. A report that finds the host in its base mode still does not.
pub open spec fn overlay_closes(s: State, info: ModeInfo) -> bool {
    s.hide_in_base_mode && !s.mode_info.in_base_mode() && info.in_base_mode()
}

/// What an overlay does on an event. It takes every report of the host's mode
/// in, and ends itself or is rendered anew; the chord that hides the legend
/// ends it at once.
pub open spec fn overlay_step(s: State, event: Event) -> (State, Reaction) {
    match event {
        Event::PermissionGranted => (
            State { permissions_granted: true, ..s },
            Reaction { render: false, command: Command::SetUnselectable },
        ),
        Event::ModeUpdate(info) => (
            State { mode_info: info, ..s },
            if overlay_closes(s, info) {
                Reaction { render: false, command: Command::CloseSelf }
            } else {
                Reaction { render: true, command: Command::Nothing }
            },
        ),
        Event::Key(chord) => (
            s,
            Reaction {
                render: false,
                command: if chord.spec_is_toggle() {
                    Command::CloseSelf
                } else {
                    Command::Nothing
                },
            },
        ),
        _ => (s, Reaction { render: false, command: Command::Nothing }),
    }
}

/// What an instance does on an event, by its role.
pub open spec fn step(s: State, event: Event) -> (State, Reaction) {
    if s.is_overlay {
        overlay_step(s, event)
    } else {
        controller_step(s, event)
    }
}

/// The permissions that an instance asks for when it boots: an overlay only
/// reads, a controller also changes the host's state and starts plugins.
pub open spec fn wanted_permissions(is_overlay: bool) -> Seq<Permission> {
    if is_overlay {
        seq![Permission::ReadApplicationState]
    } else {
        seq![
            Permission::ReadApplicationState,
            Permission::ChangeApplicationState,
            Permission::MessageAndLaunchOtherPlugins,
        ]
    }
}

/// The kinds of event that an instance subscribes to when it boots.
pub open spec fn wanted_events(is_overlay: bool) -> Seq<EventKind> {
    if is_overlay {
        seq![EventKind::ModeUpdate, EventKind::Key]
    } else {
        seq![
            EventKind::ModeUpdate,
            EventKind::TabUpdate,
            EventKind::Key,
            EventKind::PermissionRequestResult,
        ]
    }
}

/// The state with the settings of a configuration.
pub open spec fn with_settings(s: State, settings: Settings) -> State {
    State {
        is_overlay: settings.is_overlay,
        auto_show: settings.auto_show,
        hide_in_base_mode: settings.hide_in_base_mode,
        max_lines: settings.max_lines,
        ..s
    }
}

/// The state of an instance that has just booted with the given configuration
/// and identity: not ready, and without belief in an overlay.
pub open spec fn loaded(s: State, settings: Settings, plugin_id: u32) -> State {
    State {
        own_plugin_id: Some(plugin_id),
        permissions_granted: false,
        overlay_visible: false,
        ..with_settings(s, settings)
    }
}

impl Default for State {
    /// The state of an instance before it boots.
    fn default() -> (s: State)
        ensures
            s.mode_info.mode == Mode::Normal,
            s.mode_info.base_mode is None,
            s.mode_info.keybinds@.len() == 0,
            !s.auto_show,
            !s.hide_in_base_mode,
            s.max_lines == 0,
            !s.permissions_granted,
            s.own_plugin_id is None,
            s.rows == 0,
            s.cols == 0,
            s.display_area_rows == 0,
            s.display_area_cols == 0,
            !s.is_overlay,
            !s.overlay_visible,
    {
        State {
            mode_info: ModeInfo::new(),
            auto_show: false,
            hide_in_base_mode: false,
            max_lines: 0,
            permissions_granted: false,
            own_plugin_id: None,
            rows: 0,
            cols: 0,
            display_area_rows: 0,
            display_area_cols: 0,
            is_overlay: false,
            overlay_visible: false,
        }
    }
}

impl State {
    /// Shows the overlay: where the controller believes in none, returns the
    /// request for one and believes in it from now on.
    pub fn spawn_overlay(&mut self) -> (command: Command)
        ensures
            *final(self) == spawned(*old(self)).0,
            command == spawned(*old(self)).1,
    {
        if self.overlay_visible {
            return Command::Nothing;
        }
        let request = SpawnRequest {
            max_lines: self.max_lines,
            hide_in_base_mode: self.hide_in_base_mode,
            placement: self.calculate_coordinates(),
            mode: self.mode_info.mode,
        };
        self.overlay_visible = true;
        Command::Spawn(request)
    }

    /// Hides the overlay: the controller stops believing in one. This is also
    /// what a controller does when it learns by any other way that its overlay
    /// is gone.
    pub fn close_overlay(&mut self)
        ensures
            *final(self) == closed(*old(self)),
    {
        self.overlay_visible = false;
    }

    /// Shows the overlay where the controller believes in none, hides it where
    /// it believes in one.
    pub fn toggle_overlay(&mut self) -> (command: Command)
        ensures
            *final(self) == toggled(*old(self)).0,
            command == toggled(*old(self)).1,
    {
        if self.overlay_visible {
            self.close_overlay();
            Command::Nothing
        } else {
            self.spawn_overlay()
        }
    }

    /// The placement of the legend in the display area that the host has
    /// reported last.
    pub fn calculate_coordinates(&self) -> (placement: Placement)
        ensures
            placement == overlay_placement(self.display_area_rows, self.display_area_cols),
    {
        calculate_coordinates(self.display_area_rows, self.display_area_cols)
    }

    /// Tells whether the host is in its base mode.
    pub fn is_base_mode(&self) -> (r: bool)
        ensures
            r == self.mode_info.in_base_mode(),
    {
        self.mode_info.is_base_mode()
    }

    /// Takes the settings of a configuration.
    pub fn parse_config(&mut self, config: &Vec<(String, String)>)
        ensures
            *final(self) == with_settings(*old(self), settings_of(config_view(config@))),
    {
        let settings = parse_config(config);
        self.is_overlay = settings.is_overlay;
        self.auto_show = settings.auto_show;
        self.hide_in_base_mode = settings.hide_in_base_mode;
        self.max_lines = settings.max_lines;
    }

    /// Boots the instance with its configuration and the identity that the
    /// host has given it, and returns what it asks of the host by its role.
    pub fn load(&mut self, config: &Vec<(String, String)>, plugin_id: u32) -> (plan: LoadPlan)
        ensures
            *final(self) == loaded(*old(self), settings_of(config_view(config@)), plugin_id),
            plan.permissions@ == wanted_permissions(final(self).is_overlay),
            plan.subscriptions@ == wanted_events(final(self).is_overlay),
    {
        self.parse_config(config);
        self.own_plugin_id = Some(plugin_id);
        let mut permissions: Vec<Permission> = Vec::new();
        let mut subscriptions: Vec<EventKind> = Vec::new();
        if self.is_overlay {
            permissions.push(Permission::ReadApplicationState);
            subscriptions.push(EventKind::ModeUpdate);
            subscriptions.push(EventKind::Key);
        } else {
            permissions.push(Permission::ReadApplicationState);
            permissions.push(Permission::ChangeApplicationState);
            permissions.push(Permission::MessageAndLaunchOtherPlugins);
            subscriptions.push(EventKind::ModeUpdate);
            subscriptions.push(EventKind::TabUpdate);
            subscriptions.push(EventKind::Key);
            subscriptions.push(EventKind::PermissionRequestResult);
        }
        self.permissions_granted = false;
        self.overlay_visible = false;
        assert(permissions@ =~= wanted_permissions(self.is_overlay));
        assert(subscriptions@ =~= wanted_events(self.is_overlay));
        LoadPlan { permissions, subscriptions }
    }

    /// Takes the size of the display area from the first active tab.
    pub fn note_tabs(&mut self, tabs: &Vec<TabInfo>)
        ensures
            *final(self) == with_display_area(*old(self), tabs@),
    {
        let mut i: usize = 0;
        assert(tabs@.skip(0) =~= tabs@);
        while i < tabs.len()
            invariant
                i <= tabs.len(),
                *self == *old(self),
                first_active(tabs@) == first_active(tabs@.skip(i as int)),
            decreases tabs.len() - i,
        {
            assert(tabs@.skip(i as int)[0] == tabs@[i as int]);
            if tabs[i].active {
                self.display_area_rows = tabs[i].display_area_rows;
                self.display_area_cols = tabs[i].display_area_columns;
                return ;
            }
            assert(tabs@.skip(i as int).drop_first() =~= tabs@.skip(i + 1));
            i = i + 1;
        }
    }

    /// Answers an event of the host: the next state, and what the instance
    /// asks of the host in return.
    pub fn update(&mut self, event: Event) -> (reaction: Reaction)
        ensures
            *final(self) == step(*old(self), event).0,
            reaction == step(*old(self), event).1,
    {
        let nothing = Reaction { render: false, command: Command::Nothing };
        if self.is_overlay {
            match event {
                Event::PermissionGranted => {
                    self.permissions_granted = true;
                    Reaction { render: false, command: Command::SetUnselectable }
                },
                Event::ModeUpdate(mode_info) => {
                    let was_base_mode = self.is_base_mode();
                    self.mode_info = mode_info;
                    let is_base_mode = self.is_base_mode();
                    if self.hide_in_base_mode && !was_base_mode && is_base_mode {
                        return Reaction { render: false, command: Command::CloseSelf };
                    }
                    Reaction { render: true, command: Command::Nothing }
                },
                Event::Key(key) => {
                    if key.is_toggle() {
                        Reaction { render: false, command: Command::CloseSelf }
                    } else {
                        nothing
                    }
                },
                _ => nothing,
            }
        } else {
            match event {
                Event::PermissionGranted => {
                    self.permissions_granted = true;
                    nothing
                },
                Event::ModeUpdate(mode_info) => {
                    let was_base_mode = self.is_base_mode();
                    self.mode_info = mode_info;
                    let is_base_mode = self.is_base_mode();
                    let mut command = Command::Nothing;
                    if was_base_mode && !is_base_mode {
                        if self.permissions_granted && self.auto_show {
                            command = self.spawn_overlay();
                        }
                    } else if !was_base_mode && is_base_mode && self.hide_in_base_mode {
                        self.close_overlay();
                    }
                    Reaction { render: false, command }
                },
                Event::TabUpdate(tabs) => {
                    self.note_tabs(&tabs);
                    nothing
                },
                Event::Key(key) => {
                    let mut command = Command::Nothing;
                    if self.permissions_granted && key.is_toggle() {
                        command = self.toggle_overlay();
                    }
                    Reaction { render: false, command }
                },
                _ => nothing,
            }
        }
    }

    /// Takes the size of the region that the host gives the instance, and
    /// returns what the instance shows there: the legend of the mode that the
    /// host is in for an overlay that is ready, nothing for an overlay that is
    /// not, and nothing for a controller.
    pub fn render(&mut self, rows: usize, cols: usize) -> (text: String)
        ensures
            *final(self) == (State { rows, cols, ..*old(self) }),
            text@ == shown_text(*old(self), cols),
    {
        self.rows = rows;
        self.cols = cols;
        if !self.is_overlay || !self.permissions_granted {
            return String::new();
        }
        let keybindings = get_keybindings(&self.mode_info);
        render_legend(self.mode_info.mode, &keybindings, cols)
    }
}

/// What an instance in state `s` shows in a region `cols` cells wide: the
/// legend for an overlay whose permissions the host has granted, and nothing
/// for every other instance.
pub open spec fn shown_text(s: State, cols: usize) -> Seq<char> {
    if s.is_overlay && s.permissions_granted {
        legend_text(
            s.mode_info.mode,
            selection(s.mode_info.mode, s.mode_info.base_mode, s.mode_info.keybinds@),
            cols,
        )
    } else {
        Seq::empty()
    }
}

// ---------------------------------------------------------------------------
// What holds of every instance
// ---------------------------------------------------------------------------

/// No event changes the role of an instance.
pub proof fn lemma_role_is_fixed(s: State, event: Event)
    ensures
        step(s, event).0.is_overlay == s.is_overlay,
{
}

/// A controller is never rendered anew, and the only thing it ever asks of the
/// host is an overlay.
pub proof fn lemma_controller_only_spawns(s: State, event: Event)
    requires
        !s.is_overlay,
    ensures
        !step(s, event).1.render,
        step(s, event).1.command is Nothing || step(s, event).1.command is Spawn,
{
}

/// A controller asks for an overlay exactly when its belief goes from none to
/// one: it never asks for a second overlay while it believes in one.
pub proof fn lemma_spawn_exactly_when_shown(s: State, event: Event)
    requires
        !s.is_overlay,
    ensures
        step(s, event).1.command is Spawn <==> !s.overlay_visible && step(
            s,
            event,
        ).0.overlay_visible,
{
}

/// A controller that is not ready stays inert: whatever the host reports
/// short of granting the permissions, it asks for nothing, stays as unready as
/// it was, and does not come to believe in an overlay.
pub proof fn lemma_unready_controller_is_inert(s: State, event: Event)
    requires
        !s.is_overlay,
        !s.permissions_granted,
        !(event is PermissionGranted),
    ensures
        step(s, event).1 == (Reaction { render: false, command: Command::Nothing }),
        !step(s, event).0.permissions_granted,
        step(s, event).0.overlay_visible ==> s.overlay_visible,
{
}

/// A controller believes in an overlay only once it is ready: this holds when
/// it has booted, and no event undoes it.
pub proof fn lemma_belief_needs_readiness(
    s: State,
    settings: Settings,
    plugin_id: u32,
    event: Event,
)
    ensures
        !loaded(s, settings, plugin_id).overlay_visible,
        !s.is_overlay && (s.overlay_visible ==> s.permissions_granted) ==> (step(
            s,
            event,
        ).0.overlay_visible ==> step(s, event).0.permissions_granted),
{
}

/// A refusal of the permissions changes nothing in either role.
pub proof fn lemma_denial_changes_nothing(s: State)
    ensures
        step(s, Event::PermissionDenied).0 == s,
        step(s, Event::PermissionDenied).1 == (Reaction {
            render: false,
            command: Command::Nothing,
        }),
{
}

/// Toggling twice, starting without belief in an overlay: the first toggle
/// asks for an overlay and leaves the belief in one, the second asks for
/// nothing and leaves the belief in none, and the state as it was before the
/// two.
pub proof fn lemma_toggle_twice(s: State)
    requires
        !s.overlay_visible,
    ensures
        toggled(s).1 == Command::Spawn(spawn_request(s)),
        toggled(s).0.overlay_visible,
        toggled(toggled(s).0).1 == Command::Nothing,
        !toggled(toggled(s).0).0.overlay_visible,
        toggled(toggled(s).0).0 == s,
{
}

/// On a ready controller the chord that shows and hides the legend toggles,
/// and on a controller that is not ready it does nothing.
pub proof fn lemma_toggle_chord(s: State, chord: KeyChord)
    requires
        !s.is_overlay,
        chord.spec_is_toggle(),
    ensures
        s.permissions_granted ==> step(s, Event::Key(chord)).0 == toggled(s).0 && step(
            s,
            Event::Key(chord),
        ).1.command == toggled(s).1,
        !s.permissions_granted ==> step(s, Event::Key(chord)).0 == s && step(
            s,
            Event::Key(chord),
        ).1.command == Command::Nothing,
{
}

/// An overlay that hides in the base mode ends itself on the report with which
/// the host returns to its base mode, and on no later report that finds the
/// host still there: those render it anew.
pub proof fn lemma_overlay_closes_on_return_only(s: State, first: ModeInfo, second: ModeInfo)
    requires
        s.is_overlay,
        s.hide_in_base_mode,
        first.in_base_mode(),
        second.in_base_mode(),
    ensures
        step(s, Event::ModeUpdate(first)).1.command is CloseSelf <==> !s.mode_info.in_base_mode(),
        step(step(s, Event::ModeUpdate(first)).0, Event::ModeUpdate(second)).1 == (Reaction {
            render: true,
            command: Command::Nothing,
        }),
{
}

/// An overlay ends itself on a report of the host's mode exactly when hiding
/// is switched on and the host has returned to its base mode with the report;
/// on every other report it is rendered anew.
pub proof fn lemma_overlay_on_mode(s: State, info: ModeInfo)
    requires
        s.is_overlay,
    ensures
        step(s, Event::ModeUpdate(info)).0.mode_info == info,
        step(s, Event::ModeUpdate(info)).1.command is CloseSelf <==> s.hide_in_base_mode
            && !s.mode_info.in_base_mode() && info.in_base_mode(),
        step(s, Event::ModeUpdate(info)).1.render <==> !(step(
            s,
            Event::ModeUpdate(info),
        ).1.command is CloseSelf),
{
}

/// An instance that is not ready shows nothing, whatever its role and
/// whatever the host has reported of its mode.
pub proof fn lemma_unready_instance_shows_nothing(s: State, cols: usize)
    requires
        !s.permissions_granted,
    ensures
        shown_text(s, cols) == Seq::<char>::empty(),
{
}

/// An overlay that is not ready stays so on every event short of the grant of
/// its permissions, so that it goes on showing nothing.
pub proof fn lemma_unready_overlay_stays_unready(s: State, event: Event, cols: usize)
    requires
        s.is_overlay,
        !s.permissions_granted,
        !(event is PermissionGranted),
    ensures
        !step(s, event).0.permissions_granted,
        shown_text(step(s, event).0, cols) == Seq::<char>::empty(),
{
}

/// A ready overlay whose mode shows none of the bindings still shows a whole
/// text: the header and the footer, and nothing between them.
pub proof fn lemma_nothing_shown_renders_frame(s: State, cols: usize)
    requires
        s.is_overlay,
        s.permissions_granted,
        forall|i: int|
            0 <= i < s.mode_info.keybinds@.len() ==> !is_shown(
                s.mode_info.mode,
                s.mode_info.base_mode,
                (#[trigger] s.mode_info.keybinds@[i]).actions@,
            ),
    ensures
        shown_text(s, cols) == header_text(s.mode_info.mode) + footer_text(),
{
    let legend = selection(s.mode_info.mode, s.mode_info.base_mode, s.mode_info.keybinds@);
    lemma_selection_of_nothing_shown(
        s.mode_info.mode,
        s.mode_info.base_mode,
        s.mode_info.keybinds@,
    );
    lemma_empty_legend_text(s.mode_info.mode, legend, cols);
}

} // verus!
