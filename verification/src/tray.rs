//! The tray icon: which icon and tool-tip it shows, what its menu holds, and
//! what a click on a menu item does.

use vstd::prelude::*;

use crate::text;

verus! {

/// The project's page.
pub const REPO_URL: &'static str = "https://github.com/cortexuvula/lindiction";

/// The text of the "About" notification.
pub const ABOUT_BODY: &'static str =
    "Push-to-talk voice dictation for Linux.\nMIT licensed.\nhttps://github.com/cortexuvula/lindiction";

/// Visual states that the tray icon can display.
#[derive(Debug, Clone, Copy, PartialEq, Eq, Structural)]
pub enum TrayEvent {
    Idle,
    Recording,
    Processing,
    Paused,
}

impl TrayEvent {
    /// The icon of this state.
    pub open spec fn icon(self) -> Seq<char> {
        match self {
            TrayEvent::Idle => "audio-input-microphone"@,
            TrayEvent::Recording => "media-record"@,
            TrayEvent::Processing => "view-refresh"@,
            TrayEvent::Paused => "media-playback-pause"@,
        }
    }

    /// The tool-tip of this state.
    pub open spec fn tip(self) -> Seq<char> {
        match self {
            TrayEvent::Idle => "Lindiction — idle"@,
            TrayEvent::Recording => "Lindiction — recording"@,
            TrayEvent::Processing => "Lindiction — transcribing"@,
            TrayEvent::Paused => "Lindiction — paused"@,
        }
    }

    /// Freedesktop theme-icon name for this state.
    pub fn icon_name(self) -> (r: &'static str)
        ensures
            r@ == self.icon(),
    {
        match self {
            TrayEvent::Idle => "audio-input-microphone",
            TrayEvent::Recording => "media-record",
            TrayEvent::Processing => "view-refresh",
            TrayEvent::Paused => "media-playback-pause",
        }
    }

    /// Short human-readable tool-tip shown on hover. Distinct per state, so
    /// that the states can be told apart without relying on color alone.
    pub fn tooltip(self) -> (r: &'static str)
        ensures
            r@ == self.tip(),
    {
        match self {
            TrayEvent::Idle => "Lindiction — idle",
            TrayEvent::Recording => "Lindiction — recording",
            TrayEvent::Processing => "Lindiction — transcribing",
            TrayEvent::Paused => "Lindiction — paused",
        }
    }
}

/// Commands that the tray menu sends to the session.
#[derive(Debug, Clone, Copy, PartialEq, Eq, Structural)]
pub enum ControlCmd {
    /// Flip the paused state. The session owns the state; the tray mirrors it
    /// for its checkbox.
    TogglePause,
    /// Ask GitHub for a newer release now.
    CheckForUpdates,
    /// Install the release that was found.
    InstallUpdate,
    /// Graceful shutdown, then replace the process by a fresh one.
    Restart,
    /// Graceful shutdown.
    Quit,
}

/// What a click on a menu item asks for.
#[derive(Debug, Clone, Copy, PartialEq, Eq, Structural)]
pub enum MenuAction {
    InstallUpdate,
    TogglePause,
    OpenConfig,
    ToggleAutostart,
    CheckForUpdates,
    About,
    Help,
    Restart,
    Quit,
}

/// One line of the menu.
#[derive(Debug, PartialEq, Eq)]
pub enum MenuItem {
    Standard { label: String, action: MenuAction },
    Checkmark { label: String, checked: bool, action: MenuAction },
    Separator,
}

/// One line of the menu, by what it shows.
#[verifier::ext_equal]
pub enum MenuLine {
    Standard(Seq<char>, MenuAction),
    Checkmark(Seq<char>, bool, MenuAction),
    Separator,
}

impl View for MenuItem {
    type V = MenuLine;

    open spec fn view(&self) -> MenuLine {
        match *self {
            MenuItem::Standard { label, action } => MenuLine::Standard(label@, action),
            MenuItem::Checkmark { label, checked, action } => MenuLine::Checkmark(
                label@,
                checked,
                action,
            ),
            MenuItem::Separator => MenuLine::Separator,
        }
    }
}

/// The lines of a menu.
pub open spec fn lines(items: Seq<MenuItem>) -> Seq<MenuLine> {
    items.map_values(|i: MenuItem| i@)
}

/// What the tray shows.
///
/// `paused` is only a mirror for the checkbox: the session owns the state. If
/// the command could not be sent the mirror stays as it was, so that the
/// checkbox never lies.
#[derive(Debug)]
pub struct LindictionTray {
    pub state: TrayEvent,
    pub autostart_enabled: bool,
    pub autostart_supported: bool,
    pub paused: bool,
    /// Whether the menu offers to check for updates.
    pub updates_enabled: bool,
    /// The version that can be installed, if one is known.
    pub update_available: Option<String>,
}

impl LindictionTray {
    /// The icon: the state's own, but for an idle daemon with an update at
    /// hand.
    pub open spec fn shown_icon(self) -> Seq<char> {
        if self.state is Idle && self.update_available is Some {
            "software-update-available"@
        } else {
            self.state.icon()
        }
    }

    /// The menu's first part: the update, if there is one.
    pub open spec fn update_lines(self) -> Seq<MenuLine> {
        match self.update_available {
            Some(v) => seq![
                MenuLine::Standard("Update to v"@ + v@ + "…"@, MenuAction::InstallUpdate),
            ],
            None => Seq::empty(),
        }
    }

    /// The auto-start checkbox, where `systemctl --user` is usable.
    pub open spec fn autostart_lines(self) -> Seq<MenuLine> {
        if self.autostart_supported {
            seq![
                MenuLine::Checkmark(
                    "Auto-start on login"@,
                    self.autostart_enabled,
                    MenuAction::ToggleAutostart,
                ),
            ]
        } else {
            Seq::empty()
        }
    }

    /// The update check, unless updates are switched off.
    pub open spec fn check_lines(self) -> Seq<MenuLine> {
        if self.updates_enabled {
            seq![MenuLine::Standard("Check for updates…"@, MenuAction::CheckForUpdates)]
        } else {
            Seq::empty()
        }
    }

    /// The whole menu.
    pub open spec fn menu_lines(self) -> Seq<MenuLine> {
        self.update_lines() + seq![
            MenuLine::Checkmark("Pause"@, self.paused, MenuAction::TogglePause),
            MenuLine::Standard("Open config…"@, MenuAction::OpenConfig),
        ] + self.autostart_lines() + self.check_lines() + seq![
            MenuLine::Separator,
            MenuLine::Standard("About Lindiction"@, MenuAction::About),
            MenuLine::Standard("Help"@, MenuAction::Help),
            MenuLine::Separator,
            MenuLine::Standard("Restart"@, MenuAction::Restart),
            MenuLine::Standard("Quit"@, MenuAction::Quit),
        ]
    }

    /// The tray of a fresh daemon: idle, never paused, no update known. The
    /// auto-start state counts only where auto-start is supported.
    pub fn new(updates_enabled: bool, autostart_supported: bool, autostart_enabled: bool) -> (r:
        Self)
        ensures
            r.state is Idle,
            !r.paused,
            r.update_available is None,
            r.updates_enabled == updates_enabled,
            r.autostart_supported == autostart_supported,
            r.autostart_enabled == (autostart_supported && autostart_enabled),
    {
        LindictionTray {
            state: TrayEvent::Idle,
            autostart_enabled: autostart_supported && autostart_enabled,
            autostart_supported,
            paused: false,
            updates_enabled,
            update_available: None,
        }
    }

    /// The icon to show.
    pub fn icon_name(&self) -> (r: &'static str)
        ensures
            r@ == self.shown_icon(),
    {
        match (self.state, &self.update_available) {
            (TrayEvent::Idle, Some(_)) => "software-update-available",
            (state, _) => state.icon_name(),
        }
    }

    /// The menu: the update on top, then the frequent items, the information,
    /// and the two lifecycle actions at the bottom.
    pub fn menu(&self) -> (r: Vec<MenuItem>)
        ensures
            lines(r@) == self.menu_lines(),
    {
        let mut items: Vec<MenuItem> = Vec::new();
        match &self.update_available {
            Some(v) => {
                items.push(
                    MenuItem::Standard {
                        label: text::concat3("Update to v", v.as_str(), "…"),
                        action: MenuAction::InstallUpdate,
                    },
                );
            },
            None => {},
        }
        assert(lines(items@) =~= self.update_lines());
        items.push(
            MenuItem::Checkmark {
                label: "Pause".to_owned(),
                checked: self.paused,
                action: MenuAction::TogglePause,
            },
        );
        items.push(
            MenuItem::Standard { label: "Open config…".to_owned(), action: MenuAction::OpenConfig },
        );
        let ghost top = self.update_lines() + seq![
            MenuLine::Checkmark("Pause"@, self.paused, MenuAction::TogglePause),
            MenuLine::Standard("Open config…"@, MenuAction::OpenConfig),
        ];
        assert(lines(items@) =~= top);
        if self.autostart_supported {
            items.push(
                MenuItem::Checkmark {
                    label: "Auto-start on login".to_owned(),
                    checked: self.autostart_enabled,
                    action: MenuAction::ToggleAutostart,
                },
            );
        }
        assert(lines(items@) =~= top + self.autostart_lines());
        if self.updates_enabled {
            items.push(
                MenuItem::Standard {
                    label: "Check for updates…".to_owned(),
                    action: MenuAction::CheckForUpdates,
                },
            );
        }
        assert(lines(items@) =~= top + self.autostart_lines() + self.check_lines());
        items.push(MenuItem::Separator);
        items.push(
            MenuItem::Standard { label: "About Lindiction".to_owned(), action: MenuAction::About },
        );
        items.push(MenuItem::Standard { label: "Help".to_owned(), action: MenuAction::Help });
        items.push(MenuItem::Separator);
        items.push(MenuItem::Standard { label: "Restart".to_owned(), action: MenuAction::Restart });
        items.push(MenuItem::Standard { label: "Quit".to_owned(), action: MenuAction::Quit });
        assert(lines(items@) =~= self.menu_lines());
        items
    }

    /// Handle a click on the pause checkbox, where `sent` says whether the
    /// session took the command. The checkbox flips only then.
    pub fn toggle_pause(&mut self, sent: bool)
        ensures
            *final(self) == (LindictionTray {
                paused: if sent {
                    !old(self).paused
                } else {
                    old(self).paused
                },
                ..*old(self)
            }),
    {
        if sent {
            self.paused = !self.paused;
        }
    }

    /// What a click on the auto-start checkbox asks for.
    pub fn autostart_wanted(&self) -> (r: bool)
        ensures
            r == !self.autostart_enabled,
    {
        !self.autostart_enabled
    }

    /// Take note of how switching auto-start to `desired` ended. On success
    /// the checkbox follows; on failure it stays, and the warning to show is
    /// returned.
    pub fn toggle_autostart(&mut self, desired: bool, result: Result<(), String>) -> (r: Option<
        String,
    >)
        ensures
            match result {
                Ok(_) => r is None && *final(self) == (LindictionTray {
                    autostart_enabled: desired,
                    ..*old(self)
                }),
                Err(e) => *final(self) == *old(self) && (r matches Some(w) && w@ == "Could not "@
                    + (if desired {
                    "enable"@
                } else {
                    "disable"@
                }) + " auto-start: "@ + e@),
            },
    {
        match result {
            Ok(_) => {
                self.autostart_enabled = desired;
                None
            },
            Err(e) => {
                let mut out: String = "Could not ".to_owned();
                if desired {
                    out.append("enable");
                } else {
                    out.append("disable");
                }
                out.append(" auto-start: ");
                out.append(e.as_str());
                Some(out)
            },
        }
    }
}

/// The command that a menu action sends to the session, for those that send
/// one.
pub fn command_for(action: MenuAction) -> (r: Option<ControlCmd>)
    ensures
        r == match action {
            MenuAction::InstallUpdate => Some(ControlCmd::InstallUpdate),
            MenuAction::TogglePause => Some(ControlCmd::TogglePause),
            MenuAction::CheckForUpdates => Some(ControlCmd::CheckForUpdates),
            MenuAction::Restart => Some(ControlCmd::Restart),
            MenuAction::Quit => Some(ControlCmd::Quit),
            _ => None,
        },
{
    match action {
        MenuAction::InstallUpdate => Some(ControlCmd::InstallUpdate),
        MenuAction::TogglePause => Some(ControlCmd::TogglePause),
        MenuAction::CheckForUpdates => Some(ControlCmd::CheckForUpdates),
        MenuAction::Restart => Some(ControlCmd::Restart),
        MenuAction::Quit => Some(ControlCmd::Quit),
        MenuAction::OpenConfig => None,
        MenuAction::ToggleAutostart => None,
        MenuAction::About => None,
        MenuAction::Help => None,
    }
}

/// The title of the "About" notification.
pub fn about_summary(version: &str) -> (r: String)
    ensures
        r@ == "Lindiction v"@ + version@,
{
    text::concat2("Lindiction v", version)
}

// ---------------------------------------------------------------------------
// Laws
// ---------------------------------------------------------------------------

/// No two states share an icon: they are told apart at a glance.
pub proof fn icons_are_distinct(a: TrayEvent, b: TrayEvent)
    requires
        a.icon() == b.icon(),
    ensures
        a == b,
{
    reveal_strlit("audio-input-microphone");
    reveal_strlit("media-record");
    reveal_strlit("view-refresh");
    reveal_strlit("media-playback-pause");
    assert("audio-input-microphone"@.len() == 22);
    assert("media-record"@.len() == 12);
    assert("view-refresh"@.len() == 12);
    assert("media-playback-pause"@.len() == 20);
    assert("media-record"@[0] != "view-refresh"@[0]);
}

/// No two states share a tool-tip.
pub proof fn tooltips_are_distinct(a: TrayEvent, b: TrayEvent)
    requires
        a.tip() == b.tip(),
    ensures
        a == b,
{
    reveal_strlit("Lindiction — idle");
    reveal_strlit("Lindiction — recording");
    reveal_strlit("Lindiction — transcribing");
    reveal_strlit("Lindiction — paused");
    assert("Lindiction — idle"@.len() == 17);
    assert("Lindiction — recording"@.len() == 22);
    assert("Lindiction — transcribing"@.len() == 25);
    assert("Lindiction — paused"@.len() == 19);
}

/// The update badge shows exactly when the daemon is idle and an update is
/// known; a state in progress keeps its own icon.
pub proof fn badge_only_when_idle(tray: LindictionTray)
    ensures
        tray.shown_icon() == "software-update-available"@ <==> tray.state is Idle
            && tray.update_available is Some,
        !(tray.state is Idle) ==> tray.shown_icon() == tray.state.icon(),
{
    reveal_strlit("software-update-available");
    reveal_strlit("audio-input-microphone");
    reveal_strlit("media-record");
    reveal_strlit("view-refresh");
    reveal_strlit("media-playback-pause");
    assert(tray.state.icon().len() < "software-update-available"@.len());
}

/// The menu always ends with Restart and Quit; it starts with the update
/// exactly when one is known, and with the pause checkbox otherwise.
pub proof fn menu_ends_with_quit(tray: LindictionTray)
    ensures
        ({
            let m = tray.menu_lines();
            &&& m.len() >= 8
            &&& m.last() == MenuLine::Standard("Quit"@, MenuAction::Quit)
            &&& m[m.len() - 2] == MenuLine::Standard("Restart"@, MenuAction::Restart)
            &&& (tray.update_available is Some) == (m[0] matches MenuLine::Standard(
                _,
                MenuAction::InstallUpdate,
            ))
            &&& tray.update_available is None ==> m[0] == MenuLine::Checkmark(
                "Pause"@,
                tray.paused,
                MenuAction::TogglePause,
            )
        }),
{
}

/// What each state shows.
pub proof fn states_show_themselves()
    ensures
        TrayEvent::Idle.icon() == "audio-input-microphone"@,
        TrayEvent::Recording.icon() == "media-record"@,
        TrayEvent::Processing.icon() == "view-refresh"@,
        TrayEvent::Paused.icon() == "media-playback-pause"@,
        TrayEvent::Idle.tip() == "Lindiction — idle"@,
        TrayEvent::Recording.tip() == "Lindiction — recording"@,
        TrayEvent::Processing.tip() == "Lindiction — transcribing"@,
        TrayEvent::Paused.tip() == "Lindiction — paused"@,
{
}

/// What a line of the menu does, if anything.
pub open spec fn action_of(line: MenuLine) -> Option<MenuAction> {
    match line {
        MenuLine::Standard(_, action) => Some(action),
        MenuLine::Checkmark(_, _, action) => Some(action),
        MenuLine::Separator => None,
    }
}

/// Whether the menu offers an action: installing an update where one is known, the
/// check for one unless updates are switched off, auto-start where it is supported,
/// and everything else always.
pub open spec fn is_offered(tray: LindictionTray, action: MenuAction) -> bool {
    match action {
        MenuAction::InstallUpdate => tray.update_available is Some,
        MenuAction::CheckForUpdates => tray.updates_enabled,
        MenuAction::ToggleAutostart => tray.autostart_supported,
        _ => true,
    }
}

/// Every action that is offered stands in the menu on exactly one line, and no other
/// action does; the lines stand in the order of their actions.
pub proof fn the_menu_offers_each_action_once(
    tray: LindictionTray,
    action: MenuAction,
    i: int,
    j: int,
)
    ensures
        is_offered(tray, action) <==> exists|k: int|
            0 <= k < tray.menu_lines().len() && action_of(#[trigger] tray.menu_lines()[k]) == Some(
                action,
            ),
        0 <= i < tray.menu_lines().len() && 0 <= j < tray.menu_lines().len() && action_of(
            tray.menu_lines()[i],
        ) == Some(action) && action_of(tray.menu_lines()[j]) == Some(action) ==> i == j,
        0 <= i < j < tray.menu_lines().len() && action_of(tray.menu_lines()[i]) is Some
            && action_of(tray.menu_lines()[j]) is Some ==> place(
            action_of(tray.menu_lines()[i])->0,
        ) < place(action_of(tray.menu_lines()[j])->0),
{
    let m = tray.menu_lines();
    let u: int = tray.update_lines().len() as int;
    let a: int = u + 2 + tray.autostart_lines().len();
    let c: int = a + tray.check_lines().len();
    assert(m.len() == c + 6);
    assert(m[u] == MenuLine::Checkmark("Pause"@, tray.paused, MenuAction::TogglePause));
    assert(m[u + 1] == MenuLine::Standard("Open config…"@, MenuAction::OpenConfig));
    assert(m[c] == MenuLine::Separator);
    assert(m[c + 1] == MenuLine::Standard("About Lindiction"@, MenuAction::About));
    assert(m[c + 2] == MenuLine::Standard("Help"@, MenuAction::Help));
    assert(m[c + 3] == MenuLine::Separator);
    assert(m[c + 4] == MenuLine::Standard("Restart"@, MenuAction::Restart));
    assert(m[c + 5] == MenuLine::Standard("Quit"@, MenuAction::Quit));
    if tray.update_available is Some {
        assert(action_of(m[0]) == Some(MenuAction::InstallUpdate));
    }
    if tray.autostart_supported {
        assert(action_of(m[u + 2]) == Some(MenuAction::ToggleAutostart));
    }
    if tray.updates_enabled {
        assert(action_of(m[a]) == Some(MenuAction::CheckForUpdates));
    }
}

/// The place of an action in the menu.
pub open spec fn place(action: MenuAction) -> int {
    match action {
        MenuAction::InstallUpdate => 0,
        MenuAction::TogglePause => 1,
        MenuAction::OpenConfig => 2,
        MenuAction::ToggleAutostart => 3,
        MenuAction::CheckForUpdates => 4,
        MenuAction::About => 5,
        MenuAction::Help => 6,
        MenuAction::Restart => 7,
        MenuAction::Quit => 8,
    }
}

/// Each line is labelled by what it does, and the checkboxes show the state.
pub proof fn lines_say_what_they_do(tray: LindictionTray, i: int)
    requires
        0 <= i < tray.menu_lines().len(),
    ensures
        match action_of(tray.menu_lines()[i]) {
            None => tray.menu_lines()[i] == MenuLine::Separator,
            Some(action) => tray.menu_lines()[i] == match action {
                MenuAction::InstallUpdate => MenuLine::Standard(
                    "Update to v"@ + tray.update_available->0@ + "…"@,
                    action,
                ),
                MenuAction::TogglePause => MenuLine::Checkmark("Pause"@, tray.paused, action),
                MenuAction::OpenConfig => MenuLine::Standard("Open config…"@, action),
                MenuAction::ToggleAutostart => MenuLine::Checkmark(
                    "Auto-start on login"@,
                    tray.autostart_enabled,
                    action,
                ),
                MenuAction::CheckForUpdates => MenuLine::Standard("Check for updates…"@, action),
                MenuAction::About => MenuLine::Standard("About Lindiction"@, action),
                MenuAction::Help => MenuLine::Standard("Help"@, action),
                MenuAction::Restart => MenuLine::Standard("Restart"@, action),
                MenuAction::Quit => MenuLine::Standard("Quit"@, action),
            },
        },
{
}

/// Items and lines say the same.
pub proof fn items_are_lines(label: String, checked: bool, action: MenuAction)
    ensures
        (MenuItem::Standard { label, action })@ == MenuLine::Standard(label@, action),
        (MenuItem::Checkmark { label, checked, action })@ == MenuLine::Checkmark(
            label@,
            checked,
            action,
        ),
        (MenuItem::Separator)@ == MenuLine::Separator,
{
}

/// A click sends the command of its own name, where it sends one at all.
pub proof fn clicks_send_their_command(action: MenuAction, r: Option<ControlCmd>)
    requires
        call_ensures(command_for, (action,), r),
    ensures
        r == Some(ControlCmd::InstallUpdate) <==> action == MenuAction::InstallUpdate,
        r == Some(ControlCmd::TogglePause) <==> action == MenuAction::TogglePause,
        r == Some(ControlCmd::CheckForUpdates) <==> action == MenuAction::CheckForUpdates,
        r == Some(ControlCmd::Restart) <==> action == MenuAction::Restart,
        r == Some(ControlCmd::Quit) <==> action == MenuAction::Quit,
{
}

/// A fresh tray shows an idle daemon, offers no update, and asks for the opposite of
/// what auto-start is.
pub proof fn trays_start_idle(
    updates: bool,
    supported: bool,
    enabled: bool,
    r: LindictionTray,
    wanted: bool,
)
    requires
        call_ensures(LindictionTray::new, (updates, supported, enabled), r),
        call_ensures(LindictionTray::autostart_wanted, (&r,), wanted),
    ensures
        r.shown_icon() == "audio-input-microphone"@,
        !is_offered(r, MenuAction::InstallUpdate),
        is_offered(r, MenuAction::CheckForUpdates) <==> updates,
        is_offered(r, MenuAction::ToggleAutostart) <==> supported,
        !r.paused,
        supported ==> wanted == !enabled,
        !supported ==> wanted,
{
}

/// A click on the pause checkbox flips it exactly where the session took the command;
/// nothing else of the tray changes, and two clicks change nothing.
pub proof fn pausing_flips_the_checkbox(tray: &mut LindictionTray, sent: bool)
    requires
        call_ensures(LindictionTray::toggle_pause, (tray, sent), ()),
    ensures
        final(tray).paused != old(tray).paused <==> sent,
        final(tray).state == old(tray).state,
        final(tray).autostart_enabled == old(tray).autostart_enabled,
        final(tray).autostart_supported == old(tray).autostart_supported,
        final(tray).updates_enabled == old(tray).updates_enabled,
        final(tray).update_available == old(tray).update_available,
{
}

/// The auto-start checkbox shows what was asked for exactly where that was done; else
/// it stays, and the warning says what could not be done and why.
pub proof fn autostart_follows_what_was_done(
    tray: &mut LindictionTray,
    desired: bool,
    result: Result<(), String>,
    r: Option<String>,
)
    requires
        call_ensures(LindictionTray::toggle_autostart, (tray, desired, result), r),
    ensures
        result is Ok ==> final(tray).autostart_enabled == desired && r is None,
        result is Err ==> final(tray).autostart_enabled == old(tray).autostart_enabled,
        desired ==> (result matches Err(why) ==> (r matches Some(w) && w@
            == "Could not enable auto-start: "@ + why@)),
        !desired ==> (result matches Err(why) ==> (r matches Some(w) && w@
            == "Could not disable auto-start: "@ + why@)),
        final(tray).paused == old(tray).paused,
        final(tray).state == old(tray).state,
        final(tray).updates_enabled == old(tray).updates_enabled,
        final(tray).update_available == old(tray).update_available,
        final(tray).autostart_supported == old(tray).autostart_supported,
{
    reveal_strlit("Could not ");
    reveal_strlit("enable");
    reveal_strlit("disable");
    reveal_strlit(" auto-start: ");
    reveal_strlit("Could not enable auto-start: ");
    reveal_strlit("Could not disable auto-start: ");
    assert("Could not "@ + "enable"@ + " auto-start: "@ =~= "Could not enable auto-start: "@);
    assert("Could not "@ + "disable"@ + " auto-start: "@ =~= "Could not disable auto-start: "@);
}

/// The version stands in the title as it is.
pub proof fn the_title_names_the_version(version: &str, r: String)
    requires
        call_ensures(about_summary, (version,), r),
    ensures
        r@ == "Lindiction v"@ + version@,
{
}

/// What the tray shows of itself, from end to end.
pub proof fn trays_show_their_state(
    tray: LindictionTray,
    icon: &'static str,
    items: Vec<MenuItem>,
    state: TrayEvent,
    own: &'static str,
    tip: &'static str,
)
    requires
        call_ensures(LindictionTray::icon_name, (&tray,), icon),
        call_ensures(LindictionTray::menu, (&tray,), items),
        call_ensures(TrayEvent::icon_name, (state,), own),
        call_ensures(TrayEvent::tooltip, (state,), tip),
    ensures
        icon@ == "software-update-available"@ <==> tray.state is Idle && tray.update_available
            is Some,
        icon@ != "software-update-available"@ ==> icon@ == tray.state.icon(),
        own@ == match state {
            TrayEvent::Idle => "audio-input-microphone"@,
            TrayEvent::Recording => "media-record"@,
            TrayEvent::Processing => "view-refresh"@,
            TrayEvent::Paused => "media-playback-pause"@,
        },
        tip@ == match state {
            TrayEvent::Idle => "Lindiction — idle"@,
            TrayEvent::Recording => "Lindiction — recording"@,
            TrayEvent::Processing => "Lindiction — transcribing"@,
            TrayEvent::Paused => "Lindiction — paused"@,
        },
        items@.len() >= 8,
        items@[items@.len() - 1]@ == MenuLine::Standard("Quit"@, MenuAction::Quit),
        items@[items@.len() - 2]@ == MenuLine::Standard("Restart"@, MenuAction::Restart),
        items@.len() == 8 + (if tray.update_available is Some {
            1int
        } else {
            0
        }) + (if tray.autostart_supported {
            1int
        } else {
            0
        }) + (if tray.updates_enabled {
            1int
        } else {
            0
        }),
{
    badge_only_when_idle(tray);
    menu_ends_with_quit(tray);
    let shown = lines(items@);
    assert(shown.len() == items@.len());
    assert(shown[items@.len() - 1] == items@[items@.len() - 1]@);
    assert(shown[items@.len() - 2] == items@[items@.len() - 2]@);
}

} // verus!
