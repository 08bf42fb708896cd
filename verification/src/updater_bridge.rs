//! The updater component's events.

use vstd::prelude::*;
use crate::text::is_literal;

verus! {

/// What the updater component does for an event.
#[derive(Debug, Clone, Copy, PartialEq, Eq, Structural)]
pub enum UpdaterAction {
    /// Check whether an update is available.
    Check,
    /// Download and install the available update.
    DownloadAndInstall,
}

/// The updater action each event names.
pub open spec fn updater_action_named(event: Seq<char>) -> Option<UpdaterAction> {
    if event == "check"@ {
        Some(UpdaterAction::Check)
    } else if event == "download-and-install"@ {
        Some(UpdaterAction::DownloadAndInstall)
    } else {
        None
    }
}

/// The updater action for `event`, or `None` for an unknown event.
pub fn updater_action(event: &str) -> (a: Option<UpdaterAction>)
    ensures
        a == updater_action_named(event@),
{
    if is_literal(event, "check") {
        Some(UpdaterAction::Check)
    } else if is_literal(event, "download-and-install") {
        Some(UpdaterAction::DownloadAndInstall)
    } else {
        None
    }
}

} // verus!
