use turbo_desktop::window::{
    default_app_name, default_true, default_user_agent, invalid_config_message, join_strings,
    path_config_url, ConfigLookup, ConfigSource, FilesystemConfig, NavigationConfig, ServerConfig,
    SudoConfig, CONFIG_FILENAME,
};

fn config_in(dir: &str) -> String {
    format!("{dir}/{CONFIG_FILENAME}")
}

#[test]
fn a_release_build_only_looks_in_the_bundle() {
    let lookup = ConfigLookup {
        working_dir: Some("/some/cwd".to_string()),
        resource_dir: Some("/app/Resources".to_string()),
        development: false,
    };

    assert_eq!(
        lookup.search_paths(),
        vec![config_in("/app/Resources")],
        "a packaged app must not read a config from its working directory"
    );
}

#[test]
fn a_development_build_also_looks_beside_and_above_the_working_directory() {
    let lookup = ConfigLookup {
        working_dir: Some("/project/src-tauri".to_string()),
        resource_dir: Some("/app/Resources".to_string()),
        development: true,
    };

    assert_eq!(
        lookup.search_paths(),
        vec![
            config_in("/project/src-tauri"),
            config_in("/project"),
            config_in("/app/Resources"),
        ]
    );
}

#[test]
fn a_release_build_refuses_to_start_without_a_config() {
    let lookup = ConfigLookup {
        working_dir: Some("/tmp/cwd".to_string()),
        resource_dir: Some("/tmp/cwd/empty".to_string()),
        development: false,
    };

    let err = lookup
        .source(&vec![false])
        .expect_err("a packaged app should refuse to start with no config");
    assert!(err.contains("No turbo-desktop.config.json"), "got: {err}");
    assert!(err.contains("/tmp/cwd/empty/turbo-desktop.config.json"), "got: {err}");
}

#[test]
fn a_development_build_falls_back_to_defaults() {
    let lookup = ConfigLookup {
        working_dir: Some("/tmp/dev/empty".to_string()),
        resource_dir: None,
        development: true,
    };

    assert_eq!(lookup.source(&vec![false, false]), Ok(ConfigSource::Defaults));
}

#[test]
fn the_bundled_config_is_used_when_present() {
    let lookup = ConfigLookup {
        working_dir: None,
        resource_dir: Some("/app/Resources".to_string()),
        development: false,
    };

    assert_eq!(lookup.source(&vec![true]), Ok(ConfigSource::File(0)));
    assert_eq!(lookup.search_paths()[0], config_in("/app/Resources"));
}

#[test]
fn the_working_directory_wins_during_development() {
    let lookup = ConfigLookup {
        working_dir: Some("/dev/project".to_string()),
        resource_dir: Some("/dev/resources".to_string()),
        development: true,
    };

    assert_eq!(
        lookup.source(&vec![true, false, true]),
        Ok(ConfigSource::File(0)),
        "the project you are running from should win in development"
    );
    assert_eq!(lookup.source(&vec![false, false, true]), Ok(ConfigSource::File(2)));
}

#[test]
fn a_malformed_config_is_fatal_even_in_development() {
    let message = invalid_config_message("/p/turbo-desktop.config.json", "expected value");
    assert!(message.contains("not valid JSON"), "got: {message}");
    assert_eq!(
        message,
        "/p/turbo-desktop.config.json is not valid JSON for this app: expected value"
    );
}

#[test]
fn the_security_policy_defaults_closed_when_a_config_omits_it() {
    let sudo = SudoConfig::default();
    let filesystem = FilesystemConfig::default();

    assert!(!sudo.enabled);
    assert!(sudo.confirm);
    assert!(sudo.allowed_commands.is_empty());
    assert!(filesystem.allowed_roots.is_empty());
}

#[test]
fn the_other_sections_default_to_nothing() {
    let server = ServerConfig::default();
    assert_eq!(server.command, None);
    assert_eq!(server.directory, None);
    assert!(NavigationConfig::default().internal_hosts.is_empty());
    assert_eq!(default_app_name(), "Turbo Desktop");
    assert!(default_true());
}

#[test]
fn the_user_agent_names_the_shell_and_the_platform() {
    assert_eq!(
        default_user_agent("0.3.1", "macos", "aarch64"),
        "Turbo Desktop/0.3.1 (macOS; aarch64)"
    );
    assert_eq!(
        default_user_agent("0.3.1", "windows", "x86_64"),
        "Turbo Desktop/0.3.1 (Windows; x86_64)"
    );
    assert_eq!(
        default_user_agent("1.0.0", "freebsd", "x86_64"),
        "Turbo Desktop/1.0.0 (freebsd; x86_64)"
    );
}

#[test]
fn the_path_configuration_lives_on_the_server_unless_configured() {
    assert_eq!(
        path_config_url("https://app.example.com", &None),
        "https://app.example.com/turbo-desktop/path-configuration.json"
    );
    assert_eq!(
        path_config_url(
            "https://app.example.com",
            &Some("https://cdn.example.com/paths.json".to_string())
        ),
        "https://cdn.example.com/paths.json"
    );
}

#[test]
fn joined_strings_are_separated_once() {
    let parts = vec!["a".to_string(), "b".to_string(), "c".to_string()];
    assert_eq!(join_strings(&parts, ", "), "a, b, c");
    assert_eq!(join_strings(&Vec::new(), ", "), "");
}
