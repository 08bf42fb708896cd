//! The filesystem component's operations. Every path it is handed is scoped by
//! [`crate::security::resolve_in_scope`] before any of them runs.

use vstd::prelude::*;
use vstd::string::*;
use crate::paths::path_rooted;
use crate::security::{path_is_denied, resolve_in_scope, scoping_answers};
use crate::text::{is_err_with, is_literal, opt_chars, owned, strings_of};

verus! {

/// What the filesystem component does for an event.
#[derive(Debug, Clone, Copy, PartialEq, Eq, Structural)]
pub enum FilesystemAction {
    Read,
    Write,
    Exists,
    List,
    Mkdir,
    Remove,
}

/// The filesystem action each event names.
pub open spec fn filesystem_action_named(event: Seq<char>) -> Option<FilesystemAction> {
    if event == "read"@ {
        Some(FilesystemAction::Read)
    } else if event == "write"@ {
        Some(FilesystemAction::Write)
    } else if event == "exists"@ {
        Some(FilesystemAction::Exists)
    } else if event == "list"@ {
        Some(FilesystemAction::List)
    } else if event == "mkdir"@ {
        Some(FilesystemAction::Mkdir)
    } else if event == "remove"@ {
        Some(FilesystemAction::Remove)
    } else {
        None
    }
}

/// The filesystem action for `event`, or `None` for an unknown event.
pub fn filesystem_action(event: &str) -> (a: Option<FilesystemAction>)
    ensures
        a == filesystem_action_named(event@),
{
    if is_literal(event, "read") {
        Some(FilesystemAction::Read)
    } else if is_literal(event, "write") {
        Some(FilesystemAction::Write)
    } else if is_literal(event, "exists") {
        Some(FilesystemAction::Exists)
    } else if is_literal(event, "list") {
        Some(FilesystemAction::List)
    } else if is_literal(event, "mkdir") {
        Some(FilesystemAction::Mkdir)
    } else if is_literal(event, "remove") {
        Some(FilesystemAction::Remove)
    } else {
        None
    }
}

/// How a path is removed.
#[derive(Debug, Clone, Copy, PartialEq, Eq, Structural)]
pub enum Removal {
    /// A directory and everything in it.
    DirectoryTree,
    /// An empty directory.
    EmptyDirectory,
    /// A file.
    File,
}

/// A directory is removed with its contents only when the request says
/// `recursive`; otherwise it must be empty. Anything else is removed as a file.
pub fn removal_for(is_dir: bool, recursive: bool) -> (r: Removal)
    ensures
        r == if is_dir && recursive {
            Removal::DirectoryTree
        } else if is_dir {
            Removal::EmptyDirectory
        } else {
            Removal::File
        },
{
    if is_dir && recursive {
        Removal::DirectoryTree
    } else if is_dir {
        Removal::EmptyDirectory
    } else {
        Removal::File
    }
}

/// Message for a filesystem request that names no path.
pub open spec fn missing_path_message(event: Seq<char>) -> Seq<char> {
    "Missing 'path' in filesystem "@ + event
}

/// The path a filesystem request for `event` may touch: its `path` field, if it
/// has one, resolved inside the allowed roots (see
/// [`crate::security::resolve_in_scope`]).
pub fn scoped_path(
    raw: Option<&str>,
    event: &str,
    roots: &Vec<String>,
    home: &Option<String>,
) -> (r: Result<String, String>)
    ensures
        raw is None ==> is_err_with(r, missing_path_message(event@)),
        raw matches Some(p) ==> scoping_answers(p@, strings_of(roots@), opt_chars(*home), r),
        r matches Ok(q) ==> path_rooted(q@) && !path_is_denied(q@),
{
    match raw {
        None => {
            let mut m = owned("Missing 'path' in filesystem ");
            m.append(event);
            Err(m)
        },
        Some(p) => resolve_in_scope(p, roots, home),
    }
}

} // verus!
