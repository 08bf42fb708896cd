//! Bridge dispatch: which native handler answers a message from a web component.
//!
//! This is the desktop equivalent of Strada (Hotwire Native's bridge). A
//! Stimulus controller sends `{ component, event, data }`; the shell routes it
//! by component, and each component by event.

use vstd::prelude::*;
use crate::text::is_literal;

verus! {

/// The component a bridge message is addressed to.
#[derive(Debug, Clone, Copy, PartialEq, Eq, Structural)]
pub enum BridgeComponent {
    Notification,
    MenuItem,
    FilePicker,
    Badge,
    Shortcut,
    Shell,
    Filesystem,
    Sudo,
    Updater,
    /// Not built in: forwarded to the app as an event, which lets apps define
    /// their own components.
    Custom,
}

/// The component named `name`.
pub open spec fn component_named(name: Seq<char>) -> BridgeComponent {
    if name == "notification"@ {
        BridgeComponent::Notification
    } else if name == "menu-item"@ {
        BridgeComponent::MenuItem
    } else if name == "file-picker"@ {
        BridgeComponent::FilePicker
    } else if name == "badge"@ {
        BridgeComponent::Badge
    } else if name == "shortcut"@ {
        BridgeComponent::Shortcut
    } else if name == "shell"@ {
        BridgeComponent::Shell
    } else if name == "filesystem"@ {
        BridgeComponent::Filesystem
    } else if name == "sudo"@ {
        BridgeComponent::Sudo
    } else if name == "updater"@ {
        BridgeComponent::Updater
    } else {
        BridgeComponent::Custom
    }
}

/// Route a bridge message by its component name.
pub fn component_for(name: &str) -> (c: BridgeComponent)
    ensures
        c == component_named(name@),
{
    if is_literal(name, "notification") {
        BridgeComponent::Notification
    } else if is_literal(name, "menu-item") {
        BridgeComponent::MenuItem
    } else if is_literal(name, "file-picker") {
        BridgeComponent::FilePicker
    } else if is_literal(name, "badge") {
        BridgeComponent::Badge
    } else if is_literal(name, "shortcut") {
        BridgeComponent::Shortcut
    } else if is_literal(name, "shell") {
        BridgeComponent::Shell
    } else if is_literal(name, "filesystem") {
        BridgeComponent::Filesystem
    } else if is_literal(name, "sudo") {
        BridgeComponent::Sudo
    } else if is_literal(name, "updater") {
        BridgeComponent::Updater
    } else {
        BridgeComponent::Custom
    }
}

/// What the menu-item component does for an event.
#[derive(Debug, Clone, Copy, PartialEq, Eq, Structural)]
pub enum MenuItemAction {
    Register,
    Unregister,
}

/// `connect` registers a menu item and `disconnect` unregisters it.
pub open spec fn menu_item_action_named(event: Seq<char>) -> Option<MenuItemAction> {
    if event == "connect"@ {
        Some(MenuItemAction::Register)
    } else if event == "disconnect"@ {
        Some(MenuItemAction::Unregister)
    } else {
        None
    }
}

/// The menu-item action for `event`, or `None` for an unknown event.
pub fn menu_item_action(event: &str) -> (a: Option<MenuItemAction>)
    ensures
        a == menu_item_action_named(event@),
{
    if is_literal(event, "connect") {
        Some(MenuItemAction::Register)
    } else if is_literal(event, "disconnect") {
        Some(MenuItemAction::Unregister)
    } else {
        None
    }
}

/// Which dialog the file-picker component opens.
#[derive(Debug, Clone, Copy, PartialEq, Eq, Structural)]
pub enum FilePickerMode {
    Folder,
    File,
    Save,
}

/// The dialog for an event: both spellings of `open-folder` pick a folder,
/// `open` and both spellings of `open-file` pick a file, and `save` picks where
/// to save.
pub open spec fn file_picker_mode_named(event: Seq<char>) -> Option<FilePickerMode> {
    if event == "open-folder"@ || event == "open_folder"@ {
        Some(FilePickerMode::Folder)
    } else if event == "open"@ || event == "open-file"@ || event == "open_file"@ {
        Some(FilePickerMode::File)
    } else if event == "save"@ {
        Some(FilePickerMode::Save)
    } else {
        None
    }
}

/// The dialog for `event`, or `None` for an unknown event.
pub fn file_picker_mode(event: &str) -> (m: Option<FilePickerMode>)
    ensures
        m == file_picker_mode_named(event@),
{
    if is_literal(event, "open-folder") || is_literal(event, "open_folder") {
        Some(FilePickerMode::Folder)
    } else if is_literal(event, "open") || is_literal(event, "open-file") || is_literal(
        event,
        "open_file",
    ) {
        Some(FilePickerMode::File)
    } else if is_literal(event, "save") {
        Some(FilePickerMode::Save)
    } else {
        None
    }
}

/// Whether the shortcut component registers a shortcut for `event` (only
/// `register` does; anything else is an unknown event).
pub fn registers_shortcut(event: &str) -> (b: bool)
    ensures
        b == (event@ == "register"@),
{
    is_literal(event, "register")
}

} // verus!
