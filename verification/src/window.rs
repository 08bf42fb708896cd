//! The app configuration's policy sections, and where the configuration file is
//! looked for.

use vstd::prelude::*;
use vstd::string::*;
use crate::paths::{join_path, parent_path, path_join, path_parent};
use crate::text::{copy_opt, is_err_with, join, opt_chars, owned, strings_of};

verus! {

/// Name of the configuration file, in the project during development and in the
/// bundle's resource directory once the app ships.
pub const CONFIG_FILENAME: &'static str = "turbo-desktop.config.json";

/// Filesystem bridge policy.
///
/// Defaults to the app data directory only; an app that needs wider access
/// names the roots it needs.
#[derive(Debug, Clone)]
pub struct FilesystemConfig {
    /// Absolute paths (or `~/...`) the bridge may read and write under.
    pub allowed_roots: Vec<String>,
}

impl Default for FilesystemConfig {
    fn default() -> (r: Self)
        ensures
            r.allowed_roots@.len() == 0,
    {
        FilesystemConfig { allowed_roots: Vec::new() }
    }
}

/// Sudo bridge policy. Disabled unless the app opts in and lists commands.
#[derive(Debug, Clone)]
pub struct SudoConfig {
    pub enabled: bool,
    /// Commands that may be run as administrator. Matched whole, or as a
    /// prefix up to a word boundary (`"brew install"` allows `brew install ruby`).
    pub allowed_commands: Vec<String>,
    /// Show a dialog naming the command before the system password prompt.
    pub confirm: bool,
}

impl Default for SudoConfig {
    fn default() -> (r: Self)
        ensures
            !r.enabled,
            r.allowed_commands@.len() == 0,
            r.confirm,
    {
        SudoConfig { enabled: false, allowed_commands: Vec::new(), confirm: true }
    }
}

/// How the app server is started, when the shell is asked to start it.
#[derive(Debug, Clone)]
pub struct ServerConfig {
    /// Command line that starts the server; none means the app expects a server
    /// it does not own.
    pub command: Option<String>,
    /// Where the command runs, relative to the directory the config was read from.
    pub directory: Option<String>,
}

impl Default for ServerConfig {
    fn default() -> (r: Self)
        ensures
            r.command is None,
            r.directory is None,
    {
        ServerConfig { command: None, directory: None }
    }
}

/// Which hosts other than the app's own are opened inside the app.
#[derive(Debug, Clone)]
pub struct NavigationConfig {
    /// Hosts matched exactly; a listed host renders in the app but is not trusted.
    pub internal_hosts: Vec<String>,
}

impl Default for NavigationConfig {
    fn default() -> (r: Self)
        ensures
            r.internal_hosts@.len() == 0,
    {
        NavigationConfig { internal_hosts: Vec::new() }
    }
}

/// The name an app gets when its config does not give one.
pub fn default_app_name() -> (r: String)
    ensures
        r@ == "Turbo Desktop"@,
{
    owned("Turbo Desktop")
}

/// Default for the flags that are on unless a config turns them off.
pub fn default_true() -> (b: bool)
    ensures
        b,
{
    true
}

/// Where to look for the configuration, and how strict to be about finding it.
///
/// The file carries the app's trust boundary — `server_url` decides which origin
/// may call the bridge, and the filesystem and sudo policies live beside it — so a
/// shipped app reads it from inside its own bundle and refuses to start without
/// it. Development builds are looser: they read the project you are running from,
/// and tolerate its absence so a fresh clone still starts.
#[derive(Debug, Clone)]
pub struct ConfigLookup {
    pub working_dir: Option<String>,
    pub resource_dir: Option<String>,
    pub development: bool,
}

/// The candidate configuration paths, most specific first: in development the
/// working directory and its parent, then the resource directory.
pub open spec fn lookup_paths(
    working_dir: Option<Seq<char>>,
    resource_dir: Option<Seq<char>>,
    development: bool,
) -> Seq<Seq<char>> {
    let near: Seq<Seq<char>> = if development && working_dir is Some {
        let dir = working_dir.unwrap();
        let here = seq![path_join(dir, CONFIG_FILENAME@)];
        match path_parent(dir) {
            Some(parent) => here.push(path_join(parent, CONFIG_FILENAME@)),
            None => here,
        }
    } else {
        Seq::empty()
    };
    match resource_dir {
        Some(dir) => near.push(path_join(dir, CONFIG_FILENAME@)),
        None => near,
    }
}

impl ConfigLookup {
    /// Candidate paths, most specific first.
    pub fn search_paths(&self) -> (paths: Vec<String>)
        ensures
            strings_of(paths@) == lookup_paths(
                opt_chars(self.working_dir),
                opt_chars(self.resource_dir),
                self.development,
            ),
    {
        let mut paths: Vec<String> = Vec::new();
        if self.development {
            if let Some(dir) = &self.working_dir {
                // The project root, and one level up for `cargo tauri dev`, which
                // runs with src-tauri as the working directory.
                paths.push(join_path(dir.as_str(), CONFIG_FILENAME));
                if let Some(parent) = parent_path(dir.as_str()) {
                    paths.push(join_path(parent.as_str(), CONFIG_FILENAME));
                }
            }
        }
        let ghost near = strings_of(paths@);
        if let Some(dir) = &self.resource_dir {
            paths.push(join_path(dir.as_str(), CONFIG_FILENAME));
        }
        assert(strings_of(paths@) =~= lookup_paths(
            opt_chars(self.working_dir),
            opt_chars(self.resource_dir),
            self.development,
        ));
        paths
    }
}

/// Where the configuration comes from.
#[derive(Debug, Clone, Copy, PartialEq, Eq, Structural)]
pub enum ConfigSource {
    /// The file at this position in [`ConfigLookup::search_paths`].
    File(usize),
    /// No file was found and a development build starts on defaults.
    Defaults,
}

/// The refusal when a packaged app finds no configuration.
pub open spec fn missing_config_message(paths: Seq<Seq<char>>) -> Seq<char> {
    "No turbo-desktop.config.json found. Looked in: "@ + join(paths, ", "@)
        + ". A packaged app must ship this file in its resource directory — add it to bundle.resources in tauri.conf.json."@
}

/// The position of the first `true` in `readable`, if any.
pub open spec fn first_readable(readable: Seq<bool>) -> Option<int>
    decreases readable.len(),
{
    if readable.len() == 0 {
        None
    } else {
        match first_readable(readable.drop_last()) {
            Some(i) => Some(i),
            None => if readable.last() {
                Some(readable.len() - 1)
            } else {
                None
            },
        }
    }
}

/// The strings of `parts` joined by `sep`.
pub fn join_strings(parts: &Vec<String>, sep: &str) -> (r: String)
    ensures
        r@ == join(strings_of(parts@), sep@),
{
    let ghost all = strings_of(parts@);
    let mut r = String::new();
    let mut i: usize = 0;
    assert(all.take(0) =~= Seq::<Seq<char>>::empty());
    while i < parts.len()
        invariant
            i <= parts.len(),
            all == strings_of(parts@),
            r@ == join(all.take(i as int), sep@),
        decreases parts.len() - i,
    {
        assert(all.take(i + 1).drop_last() =~= all.take(i as int));
        assert(all.take(i + 1).last() == parts@[i as int]@);
        if i > 0 {
            r.append(sep);
        } else {
            assert(all.take(1).len() == 1);
            assert(r@ =~= Seq::<char>::empty());
        }
        r.append(parts[i].as_str());
        i = i + 1;
        assert(r@ =~= join(all.take(i as int), sep@));
    }
    assert(all.take(parts.len() as int) =~= all);
    r
}

impl ConfigLookup {
    /// Decide where the configuration comes from, given which search paths
    /// could be read (`readable[i]` for the `i`-th of [`Self::search_paths`]).
    ///
    /// The first readable path wins. With none, a development build falls back
    /// to defaults, and a packaged app refuses to start: falling back there
    /// would silently widen or move the app's trust boundary.
    pub fn source(&self, readable: &Vec<bool>) -> (r: Result<ConfigSource, String>)
        requires
            readable@.len() == lookup_paths(
                opt_chars(self.working_dir),
                opt_chars(self.resource_dir),
                self.development,
            ).len(),
        ensures
            first_readable(readable@) matches Some(i) ==> r == Ok::<ConfigSource, String>(
                ConfigSource::File(i as usize),
            ),
            first_readable(readable@) is None && self.development ==> r == Ok::<
                ConfigSource,
                String,
            >(ConfigSource::Defaults),
            first_readable(readable@) is None && !self.development ==> is_err_with(
                r,
                missing_config_message(
                    lookup_paths(
                        opt_chars(self.working_dir),
                        opt_chars(self.resource_dir),
                        self.development,
                    ),
                ),
            ),
    {
        let mut i: usize = 0;
        assert(readable@.take(0) =~= Seq::<bool>::empty());
        while i < readable.len()
            invariant
                i <= readable.len(),
                first_readable(readable@.take(i as int)) is None,
            decreases readable.len() - i,
        {
            assert(readable@.take(i + 1).drop_last() =~= readable@.take(i as int));
            assert(readable@.take(i + 1).last() == readable@[i as int]);
            if readable[i] {
                proof {
                    lemma_first_readable_extends(readable@, i as int);
                }
                return Ok(ConfigSource::File(i));
            }
            i = i + 1;
        }
        assert(readable@.take(readable.len() as int) =~= readable@);
        if self.development {
            return Ok(ConfigSource::Defaults);
        }
        let paths = self.search_paths();
        let mut m = owned("No turbo-desktop.config.json found. Looked in: ");
        let listed = join_strings(&paths, ", ");
        m.append(listed.as_str());
        m.append(
            ". A packaged app must ship this file in its resource directory — add it to bundle.resources in tauri.conf.json.",
        );
        Err(m)
    }
}

proof fn lemma_first_readable_extends(readable: Seq<bool>, i: int)
    requires
        0 <= i < readable.len(),
        readable[i],
        first_readable(readable.take(i)) is None,
    ensures
        first_readable(readable) == Some(i),
    decreases readable.len(),
{
    if i < readable.len() - 1 {
        assert(readable.drop_last().take(i) =~= readable.take(i));
        lemma_first_readable_extends(readable.drop_last(), i);
    } else {
        assert(readable.drop_last() =~= readable.take(i));
    }
}

/// The refusal when a configuration file exists but does not parse. This is
/// always fatal: falling back would hide a typo in the security policy.
pub fn invalid_config_message(path: &str, error: &str) -> (r: String)
    ensures
        r@ == path@ + " is not valid JSON for this app: "@ + error@,
{
    let mut r = owned(path);
    r.append(" is not valid JSON for this app: ");
    r.append(error);
    r
}

/// The operating system's name as the user agent writes it.
pub open spec fn os_label(os: Seq<char>) -> Seq<char> {
    if os == "macos"@ {
        "macOS"@
    } else if os == "windows"@ {
        "Windows"@
    } else if os == "linux"@ {
        "Linux"@
    } else {
        os
    }
}

/// The user agent an app gets when its config does not give one, for a shell
/// of this version on this operating system and architecture. It carries the
/// "Turbo Desktop" token the Rails gem detects the shell by.
pub fn default_user_agent(version: &str, os: &str, arch: &str) -> (r: String)
    ensures
        r@ == "Turbo Desktop/"@ + version@ + " ("@ + os_label(os@) + "; "@ + arch@ + ")"@,
{
    let os_s = owned(os);
    let label = if os_s == owned("macos") {
        owned("macOS")
    } else if os_s == owned("windows") {
        owned("Windows")
    } else if os_s == owned("linux") {
        owned("Linux")
    } else {
        os_s
    };
    let mut r = owned("Turbo Desktop/");
    r.append(version);
    r.append(" (");
    r.append(label.as_str());
    r.append("; ");
    r.append(arch);
    r.append(")");
    r
}

/// The path configuration URL: the configured one, or
/// `{server_url}/turbo-desktop/path-configuration.json`.
pub fn path_config_url(server_url: &str, path_configuration_url: &Option<String>) -> (r: String)
    ensures
        r@ == match opt_chars(*path_configuration_url) {
            Some(u) => u,
            None => server_url@ + "/turbo-desktop/path-configuration.json"@,
        },
{
    match path_configuration_url {
        Some(u) => u.clone(),
        None => {
            let mut r = owned(server_url);
            r.append("/turbo-desktop/path-configuration.json");
            r
        },
    }
}

/// A packaged app never reads a configuration from its working directory: the
/// only place it looks is its bundle's resource directory.
pub proof fn law_release_builds_only_read_the_bundle(
    working_dir: Option<Seq<char>>,
    resource_dir: Option<Seq<char>>,
)
    ensures
        lookup_paths(working_dir, resource_dir, false) == match resource_dir {
            Some(dir) => seq![path_join(dir, CONFIG_FILENAME@)],
            None => Seq::<Seq<char>>::empty(),
        },
{
    assert(lookup_paths(working_dir, resource_dir, false) =~= match resource_dir {
        Some(dir) => seq![path_join(dir, CONFIG_FILENAME@)],
        None => Seq::<Seq<char>>::empty(),
    });
}

/// During development the project being run from comes first: its
/// configuration is the first path searched, ahead of the bundle's, so it wins
/// whenever it can be read.
pub proof fn law_the_project_config_wins_during_development(
    working_dir: Seq<char>,
    resource_dir: Option<Seq<char>>,
)
    ensures
        lookup_paths(Some(working_dir), resource_dir, true).len() > 0,
        lookup_paths(Some(working_dir), resource_dir, true)[0] == path_join(
            working_dir,
            CONFIG_FILENAME@,
        ),
{
}

} // verus!
