//! What the native menu bar and the tray menu do when an item is chosen.

use vstd::prelude::*;
use vstd::string::*;
use crate::shell_bridge::Platform;
use crate::text::{is_literal, opt_chars, owned};

verus! {

/// What a menu bar item does.
#[derive(Debug, Clone, Copy, PartialEq, Eq, Structural)]
pub enum MenuAction {
    /// Quit through the app's own shutdown, so child processes are reaped and
    /// window preferences written.
    Quit,
    /// Ask the page to reload.
    Reload,
    /// Toggle the developer tools.
    ToggleDevTools,
    /// Ask the page to go back.
    Back,
    /// Ask the page to go forward.
    Forward,
    /// Reset the zoom.
    ActualSize,
    ZoomIn,
    ZoomOut,
}

/// The action behind each menu item id.
pub open spec fn menu_action_named(id: Seq<char>) -> Option<MenuAction> {
    if id == "quit"@ {
        Some(MenuAction::Quit)
    } else if id == "reload"@ {
        Some(MenuAction::Reload)
    } else if id == "devtools"@ {
        Some(MenuAction::ToggleDevTools)
    } else if id == "nav-back"@ {
        Some(MenuAction::Back)
    } else if id == "nav-forward"@ {
        Some(MenuAction::Forward)
    } else if id == "actual-size"@ {
        Some(MenuAction::ActualSize)
    } else if id == "zoom-in"@ {
        Some(MenuAction::ZoomIn)
    } else if id == "zoom-out"@ {
        Some(MenuAction::ZoomOut)
    } else {
        None
    }
}

/// The action for a menu event, or `None` for an item this shell does not handle.
pub fn menu_action(event_id: &str) -> (a: Option<MenuAction>)
    ensures
        a == menu_action_named(event_id@),
{
    if is_literal(event_id, "quit") {
        Some(MenuAction::Quit)
    } else if is_literal(event_id, "reload") {
        Some(MenuAction::Reload)
    } else if is_literal(event_id, "devtools") {
        Some(MenuAction::ToggleDevTools)
    } else if is_literal(event_id, "nav-back") {
        Some(MenuAction::Back)
    } else if is_literal(event_id, "nav-forward") {
        Some(MenuAction::Forward)
    } else if is_literal(event_id, "actual-size") {
        Some(MenuAction::ActualSize)
    } else if is_literal(event_id, "zoom-in") {
        Some(MenuAction::ZoomIn)
    } else if is_literal(event_id, "zoom-out") {
        Some(MenuAction::ZoomOut)
    } else {
        None
    }
}

/// What a tray menu item does.
#[derive(Debug, Clone, Copy, PartialEq, Eq, Structural)]
pub enum TrayAction {
    /// Hide the main window.
    Hide,
    /// Show and focus the main window.
    Show,
    /// Quit through the app's own shutdown.
    Quit,
}

/// The tray action each item id names, given whether the main window shows:
/// the show/hide item toggles; anything unknown does nothing.
pub open spec fn tray_action_named(event_id: Seq<char>, window_visible: bool) -> Option<TrayAction> {
    if event_id == "tray-show-hide"@ {
        Some(
            if window_visible {
                TrayAction::Hide
            } else {
                TrayAction::Show
            },
        )
    } else if event_id == "tray-quit"@ {
        Some(TrayAction::Quit)
    } else {
        None
    }
}

/// The tray action for an item id and the main window's visibility.
pub fn tray_action(event_id: &str, window_visible: bool) -> (a: Option<TrayAction>)
    ensures
        a == tray_action_named(event_id@, window_visible),
{
    if is_literal(event_id, "tray-show-hide") {
        if window_visible {
            Some(TrayAction::Hide)
        } else {
            Some(TrayAction::Show)
        }
    } else if is_literal(event_id, "tray-quit") {
        Some(TrayAction::Quit)
    } else {
        None
    }
}


/// A menu entry the platform provides itself.
#[derive(Debug, Clone, Copy, PartialEq, Eq, Structural)]
pub enum StandardItem {
    About,
    Services,
    Hide,
    HideOthers,
    ShowAll,
    CloseWindow,
    Undo,
    Redo,
    Cut,
    Copy,
    Paste,
    SelectAll,
    Fullscreen,
    Minimize,
    Maximize,
}

/// One entry of a menu.
#[derive(Debug, Clone)]
pub enum MenuEntry {
    /// An item of the app's own, reported back by its id when chosen.
    Item { id: String, label: String, accelerator: Option<String> },
    /// An item the platform implements.
    Standard(StandardItem),
    Separator,
}

/// A menu entry as values.
pub enum EntryView {
    Item { id: Seq<char>, label: Seq<char>, accelerator: Option<Seq<char>> },
    Standard(StandardItem),
    Separator,
}

impl View for MenuEntry {
    type V = EntryView;

    open spec fn view(&self) -> EntryView {
        match self {
            MenuEntry::Item { id, label, accelerator } => EntryView::Item {
                id: id@,
                label: label@,
                accelerator: opt_chars(*accelerator),
            },
            MenuEntry::Standard(s) => EntryView::Standard(*s),
            MenuEntry::Separator => EntryView::Separator,
        }
    }
}

/// A titled submenu of the menu bar.
#[derive(Debug, Clone)]
pub struct Submenu {
    pub title: String,
    pub entries: Vec<MenuEntry>,
}

/// A submenu as values.
pub struct SubmenuView {
    pub title: Seq<char>,
    pub entries: Seq<EntryView>,
}

impl View for Submenu {
    type V = SubmenuView;

    open spec fn view(&self) -> SubmenuView {
        SubmenuView { title: self.title@, entries: self.entries@.map_values(|e: MenuEntry| e@) }
    }
}

/// The menu entries as values.
pub open spec fn entry_views(v: Seq<MenuEntry>) -> Seq<EntryView> {
    v.map_values(|e: MenuEntry| e@)
}

/// The submenus as values.
pub open spec fn submenu_views(v: Seq<Submenu>) -> Seq<SubmenuView> {
    v.map_values(|s: Submenu| s@)
}

/// An item of the app's own, as a value.
pub open spec fn item_view(id: Seq<char>, label: Seq<char>, accelerator: Seq<char>) -> EntryView {
    EntryView::Item { id, label, accelerator: Some(accelerator) }
}

/// The Quit item. It is the app's own item rather than the platform's, so
/// quitting goes through the app's shutdown, which reaps child processes.
pub open spec fn quit_item() -> EntryView {
    item_view("quit"@, "Quit"@, "CmdOrCtrl+Q"@)
}

/// The application submenu macOS shows first: About, Services, the Hide
/// entries, and Quit.
pub open spec fn app_submenu() -> SubmenuView {
    SubmenuView {
        title: "Turbo Desktop"@,
        entries: seq![
            EntryView::Standard(StandardItem::About),
            EntryView::Separator,
            EntryView::Standard(StandardItem::Services),
            EntryView::Separator,
            EntryView::Standard(StandardItem::Hide),
            EntryView::Standard(StandardItem::HideOthers),
            EntryView::Standard(StandardItem::ShowAll),
            EntryView::Separator,
            quit_item(),
        ],
    }
}

/// The File menu: Close Window, and on Windows and Linux, which have no
/// application menu, Quit as well.
pub open spec fn file_submenu(platform: Platform) -> SubmenuView {
    SubmenuView {
        title: "File"@,
        entries: if platform == Platform::MacOs {
            seq![EntryView::Standard(StandardItem::CloseWindow)]
        } else {
            seq![
                EntryView::Standard(StandardItem::CloseWindow),
                EntryView::Separator,
                quit_item(),
            ]
        },
    }
}

/// The Edit, View, Navigate and Window menus, the same on every platform.
pub open spec fn shared_submenus() -> Seq<SubmenuView> {
    seq![
        SubmenuView {
            title: "Edit"@,
            entries: seq![
                EntryView::Standard(StandardItem::Undo),
                EntryView::Standard(StandardItem::Redo),
                EntryView::Separator,
                EntryView::Standard(StandardItem::Cut),
                EntryView::Standard(StandardItem::Copy),
                EntryView::Standard(StandardItem::Paste),
                EntryView::Standard(StandardItem::SelectAll),
            ],
        },
        SubmenuView {
            title: "View"@,
            entries: seq![
                item_view("reload"@, "Reload"@, "CmdOrCtrl+R"@),
                item_view("devtools"@, "Developer Tools"@, "CmdOrCtrl+Alt+I"@),
                EntryView::Separator,
                item_view("actual-size"@, "Actual Size"@, "CmdOrCtrl+0"@),
                item_view("zoom-in"@, "Zoom In"@, "CmdOrCtrl+="@),
                item_view("zoom-out"@, "Zoom Out"@, "CmdOrCtrl+-"@),
                EntryView::Separator,
                EntryView::Standard(StandardItem::Fullscreen),
            ],
        },
        SubmenuView {
            title: "Navigate"@,
            entries: seq![
                item_view("nav-back"@, "Back"@, "CmdOrCtrl+["@),
                item_view("nav-forward"@, "Forward"@, "CmdOrCtrl+]"@),
            ],
        },
        SubmenuView {
            title: "Window"@,
            entries: seq![
                EntryView::Standard(StandardItem::Minimize),
                EntryView::Standard(StandardItem::Maximize),
                EntryView::Separator,
                EntryView::Standard(StandardItem::CloseWindow),
            ],
        },
    ]
}

/// The menu bar. macOS gets the full standard structure, with an application
/// menu (About, Services, Hide, Quit); Windows and Linux get a simpler one,
/// with Quit under File.
pub open spec fn menu_bar(platform: Platform) -> Seq<SubmenuView> {
    if platform == Platform::MacOs {
        seq![app_submenu(), file_submenu(platform)] + shared_submenus()
    } else {
        seq![file_submenu(platform)] + shared_submenus()
    }
}

fn item(id: &str, label: &str, accelerator: &str) -> (e: MenuEntry)
    ensures
        e@ == item_view(id@, label@, accelerator@),
{
    MenuEntry::Item { id: owned(id), label: owned(label), accelerator: Some(owned(accelerator)) }
}

fn standard(s: StandardItem) -> (e: MenuEntry)
    ensures
        e@ == EntryView::Standard(s),
{
    MenuEntry::Standard(s)
}

fn separator() -> (e: MenuEntry)
    ensures
        e@ == EntryView::Separator,
{
    MenuEntry::Separator
}

fn submenu(title: &str, entries: Vec<MenuEntry>) -> (s: Submenu)
    ensures
        s.title@ == title@,
        entry_views(s.entries@) == entry_views(entries@),
{
    Submenu { title: owned(title), entries }
}

/// The native menu bar's layout for `platform`.
///
/// Bridge components can add items of their own at run time through the
/// "menu-item" component; those are not part of this layout.
pub fn build_menu(platform: Platform) -> (bar: Vec<Submenu>)
    ensures
        submenu_views(bar@) == menu_bar(platform),
{
    let mac = platform == Platform::MacOs;
    let mut bar: Vec<Submenu> = Vec::new();
    if mac {
        let app_entries: Vec<MenuEntry> = vec![
            standard(StandardItem::About),
            separator(),
            standard(StandardItem::Services),
            separator(),
            standard(StandardItem::Hide),
            standard(StandardItem::HideOthers),
            standard(StandardItem::ShowAll),
            separator(),
            item("quit", "Quit", "CmdOrCtrl+Q"),
        ];
        assert(entry_views(app_entries@) =~= app_submenu().entries);
        bar.push(submenu("Turbo Desktop", app_entries));
    }
    let file_entries: Vec<MenuEntry> = if mac {
        vec![standard(StandardItem::CloseWindow)]
    } else {
        vec![standard(StandardItem::CloseWindow), separator(), item("quit", "Quit", "CmdOrCtrl+Q")]
    };
    assert(entry_views(file_entries@) =~= file_submenu(platform).entries);
    bar.push(submenu("File", file_entries));
    let ghost lead = submenu_views(bar@);
    assert(lead =~= if mac {
        seq![app_submenu(), file_submenu(platform)]
    } else {
        seq![file_submenu(platform)]
    });

    let edit_entries: Vec<MenuEntry> = vec![
        standard(StandardItem::Undo),
        standard(StandardItem::Redo),
        separator(),
        standard(StandardItem::Cut),
        standard(StandardItem::Copy),
        standard(StandardItem::Paste),
        standard(StandardItem::SelectAll),
    ];
    assert(entry_views(edit_entries@) =~= shared_submenus()[0].entries);
    let edit_menu = submenu("Edit", edit_entries);

    let view_entries: Vec<MenuEntry> = vec![
        item("reload", "Reload", "CmdOrCtrl+R"),
        item("devtools", "Developer Tools", "CmdOrCtrl+Alt+I"),
        separator(),
        item("actual-size", "Actual Size", "CmdOrCtrl+0"),
        item("zoom-in", "Zoom In", "CmdOrCtrl+="),
        item("zoom-out", "Zoom Out", "CmdOrCtrl+-"),
        separator(),
        standard(StandardItem::Fullscreen),
    ];
    assert(entry_views(view_entries@) =~= shared_submenus()[1].entries);
    let view_menu = submenu("View", view_entries);

    let navigate_entries: Vec<MenuEntry> = vec![
        item("nav-back", "Back", "CmdOrCtrl+["),
        item("nav-forward", "Forward", "CmdOrCtrl+]"),
    ];
    assert(entry_views(navigate_entries@) =~= shared_submenus()[2].entries);
    let navigate_menu = submenu("Navigate", navigate_entries);

    let window_entries: Vec<MenuEntry> = vec![
        standard(StandardItem::Minimize),
        standard(StandardItem::Maximize),
        separator(),
        standard(StandardItem::CloseWindow),
    ];
    assert(entry_views(window_entries@) =~= shared_submenus()[3].entries);
    let window_menu = submenu("Window", window_entries);

    bar.push(edit_menu);
    bar.push(view_menu);
    bar.push(navigate_menu);
    bar.push(window_menu);
    assert(submenu_views(bar@) =~= lead + shared_submenus());
    bar
}

/// What the shell does for a menu action.
#[derive(Debug, Clone, PartialEq, Eq)]
pub enum MenuEffect {
    /// Quit through the app's own shutdown, so the exit handler runs.
    Exit,
    /// Ask the main page to move (`reload`, `back` or `forward`) through the
    /// injected script, the one path every page move shares.
    Navigate(String),
    /// Run this script in the main window.
    Eval(String),
}

/// A menu effect as a value.
pub enum EffectView {
    Exit,
    Navigate(Seq<char>),
    Eval(Seq<char>),
}

impl View for MenuEffect {
    type V = EffectView;

    open spec fn view(&self) -> EffectView {
        match self {
            MenuEffect::Exit => EffectView::Exit,
            MenuEffect::Navigate(a) => EffectView::Navigate(a@),
            MenuEffect::Eval(s) => EffectView::Eval(s@),
        }
    }
}

/// What each menu action does.
pub open spec fn effect_of(action: MenuAction) -> EffectView {
    match action {
        MenuAction::Quit => EffectView::Exit,
        MenuAction::Reload => EffectView::Navigate("reload"@),
        MenuAction::Back => EffectView::Navigate("back"@),
        MenuAction::Forward => EffectView::Navigate("forward"@),
        MenuAction::ToggleDevTools => EffectView::Eval("window.__TURBO_DESKTOP__.toggleDevTools()"@),
        MenuAction::ActualSize => EffectView::Eval("document.body.style.zoom = '100%'"@),
        MenuAction::ZoomIn => EffectView::Eval(
            "document.body.style.zoom = (parseFloat(document.body.style.zoom || 1) + 0.1) * 100 + '%'"@,
        ),
        MenuAction::ZoomOut => EffectView::Eval(
            "document.body.style.zoom = (parseFloat(document.body.style.zoom || 1) - 0.1) * 100 + '%'"@,
        ),
    }
}

/// What the shell does when a menu item with this action is chosen.
pub fn menu_effect(action: MenuAction) -> (e: MenuEffect)
    ensures
        e@ == effect_of(action),
{
    match action {
        MenuAction::Quit => MenuEffect::Exit,
        MenuAction::Reload => MenuEffect::Navigate(owned("reload")),
        MenuAction::Back => MenuEffect::Navigate(owned("back")),
        MenuAction::Forward => MenuEffect::Navigate(owned("forward")),
        MenuAction::ToggleDevTools => MenuEffect::Eval(
            owned("window.__TURBO_DESKTOP__.toggleDevTools()"),
        ),
        MenuAction::ActualSize => MenuEffect::Eval(owned("document.body.style.zoom = '100%'")),
        MenuAction::ZoomIn => MenuEffect::Eval(
            owned(
                "document.body.style.zoom = (parseFloat(document.body.style.zoom || 1) + 0.1) * 100 + '%'",
            ),
        ),
        MenuAction::ZoomOut => MenuEffect::Eval(
            owned(
                "document.body.style.zoom = (parseFloat(document.body.style.zoom || 1) - 0.1) * 100 + '%'",
            ),
        ),
    }
}

/// The tray icon's tooltip.
pub const TRAY_TOOLTIP: &'static str = "Turbo Desktop";

/// The tray menu: Show/Hide, then Quit.
pub open spec fn tray_menu_entries() -> Seq<EntryView> {
    seq![
        EntryView::Item { id: "tray-show-hide"@, label: "Show/Hide"@, accelerator: None },
        EntryView::Separator,
        EntryView::Item { id: "tray-quit"@, label: "Quit"@, accelerator: None },
    ]
}

/// The tray icon's context menu.
pub fn build_tray_menu() -> (entries: Vec<MenuEntry>)
    ensures
        entry_views(entries@) == tray_menu_entries(),
{
    let entries: Vec<MenuEntry> = vec![
        MenuEntry::Item { id: owned("tray-show-hide"), label: owned("Show/Hide"), accelerator: None },
        MenuEntry::Separator,
        MenuEntry::Item { id: owned("tray-quit"), label: owned("Quit"), accelerator: None },
    ];
    assert(entry_views(entries@) =~= tray_menu_entries());
    entries
}

/// Every item of the app's own in the menu bar is one the menu handler acts on:
/// choosing it is never silently dropped.
pub proof fn law_every_menu_item_is_handled(platform: Platform, i: int, j: int)
    requires
        0 <= i < menu_bar(platform).len(),
        0 <= j < menu_bar(platform)[i].entries.len(),
    ensures
        menu_bar(platform)[i].entries[j] matches EntryView::Item { id, .. } ==> menu_action_named(
            id,
        ) is Some,
{
}

/// Every item of the tray menu is one the tray handler acts on, whether or not
/// the window is showing.
pub proof fn law_every_tray_item_is_handled(j: int, window_visible: bool)
    requires
        0 <= j < tray_menu_entries().len(),
    ensures
        tray_menu_entries()[j] matches EntryView::Item { id, .. } ==> tray_action_named(
            id,
            window_visible,
        ) is Some,
{
}

/// Quit is always in the menu bar: in the application menu on macOS, and under
/// File on Windows and Linux, which have no application menu.
pub proof fn law_quit_is_always_in_the_menu_bar(platform: Platform)
    ensures
        platform == Platform::MacOs ==> menu_bar(platform)[0].title == "Turbo Desktop"@
            && menu_bar(platform)[0].entries.last() == quit_item(),
        platform != Platform::MacOs ==> menu_bar(platform)[0].title == "File"@
            && menu_bar(platform)[0].entries.last() == quit_item(),
{
}

/// The keyboard shortcut each action of the menu bar is bound to: the
/// browser's conventions, `[` for back and `]` for forward.
pub open spec fn action_shortcut(action: MenuAction) -> Seq<char> {
    match action {
        MenuAction::Quit => "CmdOrCtrl+Q"@,
        MenuAction::Reload => "CmdOrCtrl+R"@,
        MenuAction::ToggleDevTools => "CmdOrCtrl+Alt+I"@,
        MenuAction::Back => "CmdOrCtrl+["@,
        MenuAction::Forward => "CmdOrCtrl+]"@,
        MenuAction::ActualSize => "CmdOrCtrl+0"@,
        MenuAction::ZoomIn => "CmdOrCtrl+="@,
        MenuAction::ZoomOut => "CmdOrCtrl+-"@,
    }
}

/// The entry, if it is an item of the app's own, carries the shortcut of the
/// action it triggers.
pub open spec fn carries_its_shortcut(e: EntryView) -> bool {
    e matches EntryView::Item { id, accelerator, .. } ==> (menu_action_named(id) is Some
        && accelerator == Some(action_shortcut(menu_action_named(id).unwrap())))
}

proof fn lemma_item_carries_shortcut_quit()
    ensures
        carries_its_shortcut(item_view("quit"@, "Quit"@, "CmdOrCtrl+Q"@)),
{
    reveal_strlit("quit");
}

proof fn lemma_item_carries_shortcut_reload()
    ensures
        carries_its_shortcut(item_view("reload"@, "Reload"@, "CmdOrCtrl+R"@)),
{
    reveal_strlit("reload");
    reveal_strlit("quit");
    assert("reload"@.len() != "quit"@.len());
}

proof fn lemma_item_carries_shortcut_devtools()
    ensures
        carries_its_shortcut(item_view("devtools"@, "Developer Tools"@, "CmdOrCtrl+Alt+I"@)),
{
    reveal_strlit("devtools");
    reveal_strlit("quit");
    assert("devtools"@.len() != "quit"@.len());
    reveal_strlit("reload");
    assert("devtools"@.len() != "reload"@.len());
}

proof fn lemma_item_carries_shortcut_nav_back()
    ensures
        carries_its_shortcut(item_view("nav-back"@, "Back"@, "CmdOrCtrl+["@)),
{
    reveal_strlit("nav-back");
    reveal_strlit("quit");
    assert("nav-back"@.len() != "quit"@.len());
    reveal_strlit("reload");
    assert("nav-back"@.len() != "reload"@.len());
    reveal_strlit("devtools");
    assert("nav-back"@[0] != "devtools"@[0]);
}

proof fn lemma_item_carries_shortcut_nav_forward()
    ensures
        carries_its_shortcut(item_view("nav-forward"@, "Forward"@, "CmdOrCtrl+]"@)),
{
    reveal_strlit("nav-forward");
    reveal_strlit("quit");
    assert("nav-forward"@.len() != "quit"@.len());
    reveal_strlit("reload");
    assert("nav-forward"@.len() != "reload"@.len());
    reveal_strlit("devtools");
    assert("nav-forward"@.len() != "devtools"@.len());
    reveal_strlit("nav-back");
    assert("nav-forward"@.len() != "nav-back"@.len());
}

proof fn lemma_item_carries_shortcut_actual_size()
    ensures
        carries_its_shortcut(item_view("actual-size"@, "Actual Size"@, "CmdOrCtrl+0"@)),
{
    reveal_strlit("actual-size");
    reveal_strlit("quit");
    assert("actual-size"@.len() != "quit"@.len());
    reveal_strlit("reload");
    assert("actual-size"@.len() != "reload"@.len());
    reveal_strlit("devtools");
    assert("actual-size"@.len() != "devtools"@.len());
    reveal_strlit("nav-back");
    assert("actual-size"@.len() != "nav-back"@.len());
    reveal_strlit("nav-forward");
    assert("actual-size"@[0] != "nav-forward"@[0]);
}

proof fn lemma_item_carries_shortcut_zoom_in()
    ensures
        carries_its_shortcut(item_view("zoom-in"@, "Zoom In"@, "CmdOrCtrl+="@)),
{
    reveal_strlit("zoom-in");
    reveal_strlit("quit");
    assert("zoom-in"@.len() != "quit"@.len());
    reveal_strlit("reload");
    assert("zoom-in"@.len() != "reload"@.len());
    reveal_strlit("devtools");
    assert("zoom-in"@.len() != "devtools"@.len());
    reveal_strlit("nav-back");
    assert("zoom-in"@.len() != "nav-back"@.len());
    reveal_strlit("nav-forward");
    assert("zoom-in"@.len() != "nav-forward"@.len());
    reveal_strlit("actual-size");
    assert("zoom-in"@.len() != "actual-size"@.len());
}

proof fn lemma_item_carries_shortcut_zoom_out()
    ensures
        carries_its_shortcut(item_view("zoom-out"@, "Zoom Out"@, "CmdOrCtrl+-"@)),
{
    reveal_strlit("zoom-out");
    reveal_strlit("quit");
    assert("zoom-out"@.len() != "quit"@.len());
    reveal_strlit("reload");
    assert("zoom-out"@.len() != "reload"@.len());
    reveal_strlit("devtools");
    assert("zoom-out"@[0] != "devtools"@[0]);
    reveal_strlit("nav-back");
    assert("zoom-out"@[0] != "nav-back"@[0]);
    reveal_strlit("nav-forward");
    assert("zoom-out"@.len() != "nav-forward"@.len());
    reveal_strlit("actual-size");
    assert("zoom-out"@.len() != "actual-size"@.len());
    reveal_strlit("zoom-in");
    assert("zoom-out"@.len() != "zoom-in"@.len());
}

proof fn lemma_items_carry_shortcuts()
    ensures
        carries_its_shortcut(quit_item()),
        carries_its_shortcut(item_view("reload"@, "Reload"@, "CmdOrCtrl+R"@)),
        carries_its_shortcut(item_view("devtools"@, "Developer Tools"@, "CmdOrCtrl+Alt+I"@)),
        carries_its_shortcut(item_view("nav-back"@, "Back"@, "CmdOrCtrl+["@)),
        carries_its_shortcut(item_view("nav-forward"@, "Forward"@, "CmdOrCtrl+]"@)),
        carries_its_shortcut(item_view("actual-size"@, "Actual Size"@, "CmdOrCtrl+0"@)),
        carries_its_shortcut(item_view("zoom-in"@, "Zoom In"@, "CmdOrCtrl+="@)),
        carries_its_shortcut(item_view("zoom-out"@, "Zoom Out"@, "CmdOrCtrl+-"@)),
{
    lemma_item_carries_shortcut_quit();
    lemma_item_carries_shortcut_reload();
    lemma_item_carries_shortcut_devtools();
    lemma_item_carries_shortcut_nav_back();
    lemma_item_carries_shortcut_nav_forward();
    lemma_item_carries_shortcut_actual_size();
    lemma_item_carries_shortcut_zoom_in();
    lemma_item_carries_shortcut_zoom_out();
}

proof fn lemma_submenu_items_carry_shortcuts(sv: SubmenuView)
    requires
        sv == app_submenu() || sv == file_submenu(Platform::MacOs) || sv == file_submenu(
            Platform::Linux,
        ) || sv == shared_submenus()[0] || sv == shared_submenus()[1]
            || sv == shared_submenus()[2] || sv == shared_submenus()[3],
    ensures
        forall|j: int| 0 <= j < sv.entries.len() ==> carries_its_shortcut(#[trigger] sv.entries[j]),
{
    lemma_items_carry_shortcuts();
    assert forall|j: int| 0 <= j < sv.entries.len() implies carries_its_shortcut(
        #[trigger] sv.entries[j],
    ) by {
        if j == 0 {
        } else if j == 1 {
        } else if j == 2 {
        } else if j == 3 {
        } else if j == 4 {
        } else if j == 5 {
        } else if j == 6 {
        } else if j == 7 {
        } else {
        }
    }
}

/// Every item of the app's own in the menu bar, on every platform, carries the
/// shortcut of the action it triggers: pressing the shortcut does what choosing
/// the item does (Back is `CmdOrCtrl+[` and Forward is `CmdOrCtrl+]`, never
/// the other way round).
pub proof fn law_each_item_carries_its_actions_shortcut(platform: Platform, i: int, j: int)
    requires
        0 <= i < menu_bar(platform).len(),
        0 <= j < menu_bar(platform)[i].entries.len(),
    ensures
        menu_bar(platform)[i].entries[j] matches EntryView::Item { id, accelerator, .. } ==> (
        menu_action_named(id) is Some && accelerator == Some(
            action_shortcut(menu_action_named(id).unwrap()),
        )),
{
    let bar = menu_bar(platform);
    let sv = bar[i];
    if platform == Platform::MacOs {
        if i >= 2 {
            assert(sv == shared_submenus()[i - 2]);
        }
    } else {
        if i >= 1 {
            assert(sv == shared_submenus()[i - 1]);
        } else {
            assert(file_submenu(platform) == file_submenu(Platform::Linux));
        }
    }
    lemma_submenu_items_carry_shortcuts(sv);
    assert(carries_its_shortcut(sv.entries[j]));
}

/// No two actions share a shortcut, so a shortcut never does something other
/// than what its item says.
pub proof fn law_shortcuts_are_distinct(a: MenuAction, b: MenuAction)
    ensures
        action_shortcut(a) == action_shortcut(b) ==> a == b,
{
    reveal_strlit("CmdOrCtrl+Q");
    reveal_strlit("CmdOrCtrl+R");
    reveal_strlit("CmdOrCtrl+Alt+I");
    reveal_strlit("CmdOrCtrl+[");
    reveal_strlit("CmdOrCtrl+]");
    reveal_strlit("CmdOrCtrl+0");
    reveal_strlit("CmdOrCtrl+=");
    reveal_strlit("CmdOrCtrl+-");
    if action_shortcut(a) == action_shortcut(b) && a != b {
        assert(action_shortcut(a)[10] != action_shortcut(b)[10] || action_shortcut(a).len()
            != action_shortcut(b).len());
    }
}

} // verus!
