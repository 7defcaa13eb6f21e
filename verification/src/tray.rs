//! The tray icon: its menu and what each menu entry does.

use vstd::prelude::*;

verus! {

/// What the application does when a tray menu entry is chosen.
#[derive(Clone, Copy, Debug, PartialEq, Eq, Structural)]
pub enum TrayAction {
    /// Leave the application with exit code 0.
    Quit,
    /// Reload the live-chat page, if its window is open.
    ReloadLivechat,
    /// Open (or focus) the configuration window and close the live-chat window.
    OpenConfig,
    /// Turn launching at start-up on (`true`) or off (`false`).
    SetAutostart(bool),
    /// An entry this menu does not know: report it and do nothing.
    Unhandled,
}

/// The action for the menu entry `id`.
pub open spec fn tray_action_of(id: Seq<char>, autostart_enabled: bool) -> TrayAction {
    if id == "quit"@ {
        TrayAction::Quit
    } else if id == "reload"@ {
        TrayAction::ReloadLivechat
    } else if id == "config"@ {
        TrayAction::OpenConfig
    } else if id == "autostart"@ {
        TrayAction::SetAutostart(!autostart_enabled)
    } else {
        TrayAction::Unhandled
    }
}

/// Each entry id of the menu has its own action and only the exact id selects
/// it; choosing the start-up entry always flips the current setting, so choosing
/// it twice restores it; every other id is unhandled.
pub proof fn lemma_tray_action_exact(id: Seq<char>, enabled: bool)
    ensures
        (tray_action_of(id, enabled) == TrayAction::Quit) <==> id == "quit"@,
        (tray_action_of(id, enabled) == TrayAction::ReloadLivechat) <==> id == "reload"@,
        (tray_action_of(id, enabled) == TrayAction::OpenConfig) <==> id == "config"@,
        (tray_action_of(id, enabled) is SetAutostart) <==> id == "autostart"@,
        id == "autostart"@ ==> tray_action_of(id, enabled) == TrayAction::SetAutostart(!enabled)
            && tray_action_of(id, !enabled) == TrayAction::SetAutostart(enabled),
        (tray_action_of(id, enabled) == TrayAction::Unhandled) <==> (id != "quit"@ && id
            != "reload"@ && id != "config"@ && id != "autostart"@),
{
    reveal_strlit("quit");
    reveal_strlit("reload");
    reveal_strlit("config");
    reveal_strlit("autostart");
    assert("quit"@ != "reload"@ && "quit"@ != "config"@ && "quit"@ != "autostart"@) by {
        assert("quit"@.len() != "reload"@.len());
        assert("quit"@.len() != "autostart"@.len());
        assert("quit"@[0] != "config"@[0]);
    }
    assert("reload"@ != "config"@ && "reload"@ != "autostart"@ && "config"@ != "autostart"@) by {
        assert("reload"@[0] != "config"@[0]);
        assert("reload"@.len() != "autostart"@.len());
        assert("config"@.len() != "autostart"@.len());
    }
}

/// The action for the menu entry `id`, given whether launching at start-up is
/// currently enabled.
pub fn tray_action(id: &str, autostart_enabled: bool) -> (action: TrayAction)
    ensures
        action == tray_action_of(id@, autostart_enabled),
{
    let id = String::from_str(id);
    if id == String::from_str("quit") {
        TrayAction::Quit
    } else if id == String::from_str("reload") {
        TrayAction::ReloadLivechat
    } else if id == String::from_str("config") {
        TrayAction::OpenConfig
    } else if id == String::from_str("autostart") {
        TrayAction::SetAutostart(!autostart_enabled)
    } else {
        TrayAction::Unhandled
    }
}

/// One entry of the tray menu.
pub enum MenuEntry {
    /// A plain entry.
    Item { id: String, label: String },
    /// An entry with a check mark.
    Check { id: String, label: String, checked: bool },
    /// A separator line.
    Separator,
}

/// The mathematical value of a [`MenuEntry`].
pub ghost enum MenuEntryView {
    Item { id: Seq<char>, label: Seq<char> },
    Check { id: Seq<char>, label: Seq<char>, checked: bool },
    Separator,
}

impl View for MenuEntry {
    type V = MenuEntryView;

    open spec fn view(&self) -> MenuEntryView {
        match self {
            MenuEntry::Item { id, label } => MenuEntryView::Item { id: id@, label: label@ },
            MenuEntry::Check { id, label, checked } => MenuEntryView::Check {
                id: id@,
                label: label@,
                checked: *checked,
            },
            MenuEntry::Separator => MenuEntryView::Separator,
        }
    }
}

/// The tray menu, top to bottom.
pub open spec fn tray_menu_of(autostart_enabled: bool) -> Seq<MenuEntryView> {
    seq![
        MenuEntryView::Check {
            id: "autostart"@,
            label: "Launch on Start Up"@,
            checked: autostart_enabled,
        },
        MenuEntryView::Item { id: "config"@, label: "Open Config"@ },
        MenuEntryView::Item { id: "reload"@, label: "Reload"@ },
        MenuEntryView::Separator,
        MenuEntryView::Item { id: "quit"@, label: "Quit"@ },
    ]
}

/// The menu always holds the same five entries in the same order: the start-up
/// check box, "Open Config", "Reload", a separator and "Quit"; only the check
/// mark follows whether launching at start-up is enabled.
pub proof fn lemma_tray_menu_shape(enabled: bool)
    ensures
        tray_menu_of(enabled).len() == 5,
        tray_menu_of(enabled)[0] == (MenuEntryView::Check {
            id: "autostart"@,
            label: "Launch on Start Up"@,
            checked: enabled,
        }),
        tray_menu_of(enabled)[1] == (MenuEntryView::Item { id: "config"@, label: "Open Config"@ }),
        tray_menu_of(enabled)[2] == (MenuEntryView::Item { id: "reload"@, label: "Reload"@ }),
        tray_menu_of(enabled)[3] == MenuEntryView::Separator,
        tray_menu_of(enabled)[4] == (MenuEntryView::Item { id: "quit"@, label: "Quit"@ }),
        forall|i: int| 1 <= i < 5 ==> tray_menu_of(enabled)[i] == tray_menu_of(!enabled)[i],
{
}

fn item(id: &str, label: &str) -> (e: MenuEntry)
    ensures
        e@ == (MenuEntryView::Item { id: id@, label: label@ }),
{
    MenuEntry::Item { id: String::from_str(id), label: String::from_str(label) }
}

/// The tray menu, with the start-up entry checked when launching at start-up is enabled.
pub fn tray_menu(autostart_enabled: bool) -> (menu: Vec<MenuEntry>)
    ensures
        menu@.map_values(|e: MenuEntry| e@) == tray_menu_of(autostart_enabled),
{
    let mut menu: Vec<MenuEntry> = Vec::new();
    menu.push(
        MenuEntry::Check {
            id: String::from_str("autostart"),
            label: String::from_str("Launch on Start Up"),
            checked: autostart_enabled,
        },
    );
    menu.push(item("config", "Open Config"));
    menu.push(item("reload", "Reload"));
    menu.push(MenuEntry::Separator);
    menu.push(item("quit", "Quit"));
    assert(menu@.map_values(|e: MenuEntry| e@) =~= tray_menu_of(autostart_enabled));
    menu
}

/// The tooltip of the tray icon.
pub fn tray_tooltip() -> (t: String)
    ensures
        t@ == "Transparent Overlay"@,
{
    String::from_str("Transparent Overlay")
}

} // verus!
