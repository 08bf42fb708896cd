use turbo_desktop::bridge::{
    component_for, file_picker_mode, menu_item_action, registers_shortcut, BridgeComponent,
    FilePickerMode, MenuItemAction,
};
use turbo_desktop::fs_bridge::{filesystem_action, removal_for, FilesystemAction, Removal};
use turbo_desktop::menu::{menu_action, tray_action, MenuAction, TrayAction};
use turbo_desktop::updater_bridge::{updater_action, UpdaterAction};

#[test]
fn messages_are_routed_by_component() {
    assert_eq!(component_for("notification"), BridgeComponent::Notification);
    assert_eq!(component_for("menu-item"), BridgeComponent::MenuItem);
    assert_eq!(component_for("file-picker"), BridgeComponent::FilePicker);
    assert_eq!(component_for("badge"), BridgeComponent::Badge);
    assert_eq!(component_for("shortcut"), BridgeComponent::Shortcut);
    assert_eq!(component_for("shell"), BridgeComponent::Shell);
    assert_eq!(component_for("filesystem"), BridgeComponent::Filesystem);
    assert_eq!(component_for("sudo"), BridgeComponent::Sudo);
    assert_eq!(component_for("updater"), BridgeComponent::Updater);
    assert_eq!(component_for("my-widget"), BridgeComponent::Custom);
    assert_eq!(component_for("Shell"), BridgeComponent::Custom);
}

#[test]
fn component_events_name_their_actions() {
    assert_eq!(menu_item_action("connect"), Some(MenuItemAction::Register));
    assert_eq!(menu_item_action("disconnect"), Some(MenuItemAction::Unregister));
    assert_eq!(menu_item_action("click"), None);

    assert_eq!(file_picker_mode("open-folder"), Some(FilePickerMode::Folder));
    assert_eq!(file_picker_mode("open_folder"), Some(FilePickerMode::Folder));
    assert_eq!(file_picker_mode("open"), Some(FilePickerMode::File));
    assert_eq!(file_picker_mode("open-file"), Some(FilePickerMode::File));
    assert_eq!(file_picker_mode("open_file"), Some(FilePickerMode::File));
    assert_eq!(file_picker_mode("save"), Some(FilePickerMode::Save));
    assert_eq!(file_picker_mode("delete"), None);

    assert!(registers_shortcut("register"));
    assert!(!registers_shortcut("unregister"));

    assert_eq!(updater_action("check"), Some(UpdaterAction::Check));
    assert_eq!(
        updater_action("download-and-install"),
        Some(UpdaterAction::DownloadAndInstall)
    );
    assert_eq!(updater_action("install"), None);
}

#[test]
fn filesystem_events_and_removals() {
    assert_eq!(filesystem_action("read"), Some(FilesystemAction::Read));
    assert_eq!(filesystem_action("write"), Some(FilesystemAction::Write));
    assert_eq!(filesystem_action("exists"), Some(FilesystemAction::Exists));
    assert_eq!(filesystem_action("list"), Some(FilesystemAction::List));
    assert_eq!(filesystem_action("mkdir"), Some(FilesystemAction::Mkdir));
    assert_eq!(filesystem_action("remove"), Some(FilesystemAction::Remove));
    assert_eq!(filesystem_action("chmod"), None);

    assert_eq!(removal_for(true, true), Removal::DirectoryTree);
    assert_eq!(removal_for(true, false), Removal::EmptyDirectory);
    assert_eq!(removal_for(false, true), Removal::File);
    assert_eq!(removal_for(false, false), Removal::File);
}

#[test]
fn menu_items_and_the_tray() {
    assert_eq!(menu_action("quit"), Some(MenuAction::Quit));
    assert_eq!(menu_action("reload"), Some(MenuAction::Reload));
    assert_eq!(menu_action("devtools"), Some(MenuAction::ToggleDevTools));
    assert_eq!(menu_action("nav-back"), Some(MenuAction::Back));
    assert_eq!(menu_action("nav-forward"), Some(MenuAction::Forward));
    assert_eq!(menu_action("actual-size"), Some(MenuAction::ActualSize));
    assert_eq!(menu_action("zoom-in"), Some(MenuAction::ZoomIn));
    assert_eq!(menu_action("zoom-out"), Some(MenuAction::ZoomOut));
    assert_eq!(menu_action("about"), None);

    assert_eq!(tray_action("tray-show-hide", true), Some(TrayAction::Hide));
    assert_eq!(tray_action("tray-show-hide", false), Some(TrayAction::Show));
    assert_eq!(tray_action("tray-quit", true), Some(TrayAction::Quit));
    assert_eq!(tray_action("tray-other", true), None);
}

use turbo_desktop::menu::{
    build_menu, build_tray_menu, menu_effect, MenuEffect, MenuEntry, StandardItem, TRAY_TOOLTIP,
};
use turbo_desktop::shell_bridge::Platform;

fn item_ids(entries: &[MenuEntry]) -> Vec<String> {
    entries
        .iter()
        .filter_map(|e| match e {
            MenuEntry::Item { id, .. } => Some(id.clone()),
            _ => None,
        })
        .collect()
}

#[test]
fn the_menu_bar_has_the_standard_menus() {
    // Windows and Linux get a simpler menu: no application menu, Quit under File.
    for platform in [Platform::Linux, Platform::Windows] {
        let bar = build_menu(platform);
        let titles: Vec<&str> = bar.iter().map(|s| s.title.as_str()).collect();
        assert_eq!(titles, vec!["File", "Edit", "View", "Navigate", "Window"]);
        assert!(matches!(bar[0].entries[0], MenuEntry::Standard(StandardItem::CloseWindow)));
        assert!(matches!(bar[0].entries[1], MenuEntry::Separator));
        match &bar[0].entries[2] {
            MenuEntry::Item { id, label, accelerator } => {
                assert_eq!(id, "quit");
                assert_eq!(label, "Quit");
                assert_eq!(accelerator.as_deref(), Some("CmdOrCtrl+Q"));
            }
            other => panic!("expected the quit item, got {other:?}"),
        }
    }

    // macOS gets the full standard structure, Quit in the application menu.
    let mac = build_menu(Platform::MacOs);
    let titles: Vec<&str> = mac.iter().map(|s| s.title.as_str()).collect();
    assert_eq!(titles, vec!["Turbo Desktop", "File", "Edit", "View", "Navigate", "Window"]);
    assert!(matches!(mac[0].entries[0], MenuEntry::Standard(StandardItem::About)));
    assert_eq!(item_ids(&mac[0].entries), vec!["quit"]);
    assert!(item_ids(&mac[1].entries).is_empty());
    assert_eq!(
        item_ids(&mac[3].entries),
        vec!["reload", "devtools", "actual-size", "zoom-in", "zoom-out"]
    );
    assert_eq!(item_ids(&mac[4].entries), vec!["nav-back", "nav-forward"]);
}

#[test]
fn every_menu_item_is_handled() {
    for platform in [Platform::MacOs, Platform::Linux, Platform::Windows] {
        for submenu in build_menu(platform) {
            for id in item_ids(&submenu.entries) {
                assert!(menu_action(&id).is_some(), "{id} is not handled");
            }
        }
    }
    for id in item_ids(&build_tray_menu()) {
        assert!(tray_action(&id, true).is_some(), "{id} is not handled");
    }
    assert_eq!(TRAY_TOOLTIP, "Turbo Desktop");
}

#[test]
fn menu_actions_move_the_page_or_run_a_script() {
    assert_eq!(menu_effect(MenuAction::Quit), MenuEffect::Exit);
    assert_eq!(menu_effect(MenuAction::Reload), MenuEffect::Navigate("reload".into()));
    assert_eq!(menu_effect(MenuAction::Back), MenuEffect::Navigate("back".into()));
    assert_eq!(menu_effect(MenuAction::Forward), MenuEffect::Navigate("forward".into()));
    assert_eq!(
        menu_effect(MenuAction::ActualSize),
        MenuEffect::Eval("document.body.style.zoom = '100%'".into())
    );
    assert_eq!(
        menu_effect(MenuAction::ToggleDevTools),
        MenuEffect::Eval("window.__TURBO_DESKTOP__.toggleDevTools()".into())
    );
    match menu_effect(MenuAction::ZoomIn) {
        MenuEffect::Eval(script) => assert!(script.contains("+ 0.1")),
        other => panic!("expected a script, got {other:?}"),
    }
    match menu_effect(MenuAction::ZoomOut) {
        MenuEffect::Eval(script) => assert!(script.contains("- 0.1")),
        other => panic!("expected a script, got {other:?}"),
    }
}
