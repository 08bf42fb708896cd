use turbo_desktop::server::{candidate_directory, decide, working_directory, Decision};
use turbo_desktop::window::ServerConfig;

fn configured() -> ServerConfig {
    ServerConfig {
        command: Some("bin/rails server".into()),
        directory: None,
    }
}

#[test]
fn nothing_to_start_without_a_command() {
    assert_eq!(
        decide(&ServerConfig::default(), false),
        Decision::NotConfigured
    );
    assert_eq!(
        decide(
            &ServerConfig {
                command: Some("   ".into()),
                directory: None
            },
            false
        ),
        Decision::NotConfigured
    );
}

#[test]
fn starts_when_nothing_is_listening() {
    assert_eq!(decide(&configured(), false), Decision::Start);
}

#[test]
fn leaves_a_server_someone_else_is_running_alone() {
    // Starting a second one would fail on the port, and quitting the app
    // would kill a server the developer started by hand.
    assert_eq!(decide(&configured(), true), Decision::AlreadyRunning);
}

#[test]
fn an_unconfigured_server_is_not_started_even_when_nothing_answers() {
    assert_eq!(
        decide(&ServerConfig::default(), true),
        Decision::NotConfigured
    );
}

#[test]
fn the_rails_app_is_a_level_above_the_config_by_default() {
    assert_eq!(
        candidate_directory(&configured(), Some("/project/desktop")),
        Some("/project/desktop/..".to_string())
    );
}

#[test]
fn an_explicit_directory_wins() {
    let config = ServerConfig {
        command: Some("bin/rails server".into()),
        directory: Some("api".into()),
    };
    assert_eq!(
        candidate_directory(&config, Some("/project")),
        Some("/project/api".to_string())
    );
}

#[test]
fn an_absolute_directory_replaces_the_config_directory() {
    let config = ServerConfig {
        command: Some("bin/rails server".into()),
        directory: Some("/srv/app".into()),
    };
    assert_eq!(
        candidate_directory(&config, Some("/project")),
        Some("/srv/app".to_string())
    );
}

#[test]
fn a_missing_directory_is_left_for_the_spawn_to_report() {
    let config = ServerConfig {
        command: Some("bin/rails server".into()),
        directory: Some("nope".into()),
    };
    let dir = "/turbo-desktop-server-missing-directory";

    assert_eq!(
        working_directory(&config, Some(dir)),
        Some(format!("{dir}/nope"))
    );
}

#[test]
fn without_a_config_directory_there_is_no_working_directory() {
    assert_eq!(working_directory(&configured(), None), None);
    assert_eq!(candidate_directory(&configured(), None), None);
}

use turbo_desktop::server::settle_directory;

#[test]
fn a_resolved_directory_replaces_the_joined_one() {
    assert_eq!(
        settle_directory("/p/desktop/..".into(), Some("/p".into())),
        "/p"
    );
    assert_eq!(settle_directory("/p/nope".into(), None), "/p/nope");
}

#[test]
fn an_existing_working_directory_is_resolved_to_an_absolute_path() {
    let config = ServerConfig { command: Some("bin/rails server".into()), directory: Some("lib/..".into()) };
    assert_eq!(working_directory(&config, Some("/usr")), Some("/usr".to_string()));
}
