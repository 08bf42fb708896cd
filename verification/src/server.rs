//! Starting the app server, so the desktop app is something you can just open.
//!
//! The reachability probe decides whether a server is wanted, the process
//! manager owns the child and reaps it on quit, and the connection monitor moves
//! the window off the waiting page once the server answers. This decides whether
//! to start one, and where it runs.

use vstd::prelude::*;
use crate::paths::{join_path, path_join, path_rooted};
use crate::security::{canonical_path, file_system_answered};
use crate::text::{chars_of, opt_chars, owned, trim, trim_chars};
use crate::window::ServerConfig;

verus! {

/// Process manager id for the server, so it is distinguishable from anything
/// the web layer spawns through the shell bridge.
pub const SERVER_PROCESS_ID: &'static str = "turbo-desktop:app-server";

/// Whether to start a server, and why not when we won't.
#[derive(Debug, Clone, Copy, PartialEq, Eq, Structural)]
pub enum Decision {
    Start,
    /// Something is already listening — very likely a server the developer is
    /// running themselves, which we must not duplicate or later kill.
    AlreadyRunning,
    /// No command configured, so the app expects a server it does not own.
    NotConfigured,
}

/// The configuration names a command that is not blank.
pub open spec fn has_command(command: Option<Seq<char>>) -> bool {
    command is Some && trim(command.unwrap()).len() > 0
}

/// Whether to start the server, given whether something already answers.
pub open spec fn server_decision(command: Option<Seq<char>>, reachable: bool) -> Decision {
    if !has_command(command) {
        Decision::NotConfigured
    } else if reachable {
        Decision::AlreadyRunning
    } else {
        Decision::Start
    }
}

/// Decide whether to start the configured server.
pub fn decide(config: &ServerConfig, reachable: bool) -> (d: Decision)
    ensures
        d == server_decision(opt_chars(config.command), reachable),
{
    let blank = match &config.command {
        Some(c) => trim_chars(&chars_of(c.as_str())).len() == 0,
        None => true,
    };
    if blank {
        return Decision::NotConfigured;
    }
    if reachable {
        return Decision::AlreadyRunning;
    }
    Decision::Start
}

/// The directory the server command runs in, before symlinks are resolved: the
/// configured directory (default `..`) joined onto the directory the config was
/// read from. The scaffold puts the config in `desktop/` and the Rails app one
/// level up, so `..` is the usual answer.
pub open spec fn server_directory(directory: Option<Seq<char>>, config_dir: Option<Seq<char>>) -> Option<
    Seq<char>,
> {
    match config_dir {
        None => None,
        Some(base) => Some(
            path_join(
                base,
                match directory {
                    Some(d) => d,
                    None => ".."@,
                },
            ),
        ),
    }
}

/// The directory the server command runs in, before the file system resolves it.
pub fn candidate_directory(config: &ServerConfig, config_dir: Option<&str>) -> (r: Option<String>)
    ensures
        opt_chars(r) == server_directory(
            opt_chars(config.directory),
            match config_dir {
                Some(d) => Some(d@),
                None => None,
            },
        ),
{
    let base = match config_dir {
        Some(b) => b,
        None => return None,
    };
    match &config.directory {
        Some(d) => Some(join_path(base, d.as_str())),
        None => Some(join_path(base, "..")),
    }
}

/// An optional string slice, as a value.
pub open spec fn str_view(s: Option<&str>) -> Option<Seq<char>> {
    match s {
        Some(b) => Some(b@),
        None => None,
    }
}

/// The directory the server runs in when resolving `joined` gave `resolved`:
/// the resolved path when there is one, else `joined` itself.
pub open spec fn settled(joined: Seq<char>, resolved: Option<Seq<char>>) -> Seq<char> {
    match resolved {
        Some(p) => p,
        None => joined,
    }
}

/// The directory the server runs in, given what resolving `joined` on the file
/// system gave: the resolved path when there is one, else `joined` itself, so a
/// directory that does not exist yet is reported by the spawn rather than here.
pub fn settle_directory(joined: String, resolved: Option<String>) -> (r: String)
    ensures
        r@ == match opt_chars(resolved) {
            Some(p) => p,
            None => joined@,
        },
{
    match resolved {
        Some(p) => p,
        None => joined,
    }
}

/// Where the command runs, resolved against the directory the config was read from.
///
/// The joined path is canonicalized when it exists; when it does not exist yet
/// the lexical path is kept, so the failure is reported by the spawn rather
/// than swallowed here. Which of the two it is depends on the file system, but
/// a canonical answer is always an absolute path, and the directory is absolute
/// whenever the config directory is.
pub fn working_directory(config: &ServerConfig, config_dir: Option<&str>) -> (r: Option<String>)
    ensures
        r is Some <==> config_dir is Some,
        r matches Some(d) ==> d@ == server_directory(
            opt_chars(config.directory),
            match config_dir {
                Some(b) => Some(b@),
                None => None,
            },
        ).unwrap() || path_rooted(d@),
        config_dir matches Some(b) && path_rooted(b@) ==> (r matches Some(d) && path_rooted(d@)),
        r matches Some(d) ==> exists|answer: Option<Seq<char>>|
            file_system_answered(
                server_directory(opt_chars(config.directory), str_view(config_dir)).unwrap(),
                answer,
            ) && d@ == #[trigger] settled(
                server_directory(opt_chars(config.directory), str_view(config_dir)).unwrap(),
                answer,
            ),
{
    let joined = match candidate_directory(config, config_dir) {
        Some(j) => j,
        None => return None,
    };
    proof {
        match config_dir {
            Some(b) => {
                if path_rooted(b@) {
                    crate::paths::lemma_join_keeps_rooted(b@, match opt_chars(config.directory) {
                        Some(d) => d,
                        None => ".."@,
                    });
                }
            },
            None => {},
        }
    }
    let asked = joined.as_str();
    let resolved = canonical_path(asked);
    let ghost given = resolved;
    assert(call_ensures(canonical_path, (asked,), given));
    let ghost joined_view = joined@;
    let d = settle_directory(joined, resolved);
    assert(file_system_answered(joined_view, opt_chars(given)));
    assert(d@ == settled(joined_view, opt_chars(given)));
    assert(joined_view == server_directory(opt_chars(config.directory), str_view(config_dir)).unwrap());
    Some(d)
}

/// A server that already answers is never started again: it is likely one the
/// developer runs by hand, which the app must neither duplicate nor later kill.
pub proof fn law_a_running_server_is_left_alone(command: Option<Seq<char>>)
    ensures
        server_decision(command, true) != Decision::Start,
{
}

} // verus!
