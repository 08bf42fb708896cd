# turbo_desktop

The decision-making core of Turbo Desktop, a Tauri shell that wraps a Rails app
in a native desktop window, written in Verus and proved against its contracts.

`src/` is the verified library:

- `window` — the configuration's policy sections, where the configuration file
  is looked for, and when a missing file is fatal.
- `security` — the bridge's trust boundary: which origin may call it, which paths
  the filesystem component may touch, which commands may run as administrator,
  and which links leave the app.
- `config` — path configuration: rules compiled once, the last match wins.
- `navigation` — how each proposed visit is presented.
- `connection` — the hysteresis that turns probe results into offline/online
  announcements.
- `deep_link` — links and files handed to the app from outside.
- `process_manager` — bookkeeping for the child processes the shell starts.
- `shell_bridge`, `sudo_bridge`, `server` — the command lines the shell builds,
  how elevation is asked for, and whether to start the app server.
- `menu`, `bridge`, `fs_bridge`, `updater_bridge` — the menu layouts and which
  handler answers each bridge event.
- `address`, `paths`, `text`, `clock` — URLs (through the `url` crate), paths,
  strings and the wall clock.

Each public function states what it returns in `ensures`; the `law_*` proof
functions state the properties that span several calls.

`app/` is the Tauri program around the library: windows, dialogs, processes,
files and the network. It holds no rule of its own beyond what the library
decides.
