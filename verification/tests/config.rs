use turbo_desktop::config::{
    PathConfiguration, PathConfigurationStore, PathProperties, PathRule, PathSettings,
    Presentation,
};

fn rule(patterns: &[&str], presentation: Presentation) -> PathRule {
    let mut properties = PathProperties::new();
    properties.presentation = presentation;
    PathRule {
        patterns: patterns.iter().map(|p| p.to_string()).collect(),
        properties,
    }
}

fn configuration(rules: Vec<PathRule>) -> PathConfiguration {
    PathConfiguration { settings: PathSettings::default(), rules }
}

fn store_with(rules: Vec<PathRule>) -> PathConfigurationStore {
    let mut store = PathConfigurationStore::new();
    store.set(configuration(rules));
    store
}

#[test]
fn defaults_when_nothing_is_configured() {
    let store = PathConfigurationStore::new();
    assert_eq!(
        store.properties_for_path("/anything").presentation,
        Presentation::Default
    );
}

#[test]
fn matches_a_rule_by_pattern() {
    let store = store_with(vec![rule(&["/new$"], Presentation::Modal)]);

    assert_eq!(
        store.properties_for_path("/posts/new").presentation,
        Presentation::Modal
    );
    assert_eq!(
        store.properties_for_path("/posts").presentation,
        Presentation::Default
    );
}

#[test]
fn the_last_matching_rule_wins() {
    let store = store_with(vec![
        rule(&["/settings"], Presentation::Modal),
        rule(&["/settings"], Presentation::Native),
    ]);

    assert_eq!(
        store.properties_for_path("/settings").presentation,
        Presentation::Native
    );
    assert_eq!(store.matching_rule("/settings"), Some(1));
}

#[test]
fn an_invalid_pattern_does_not_disable_the_rest_of_the_rule() {
    let mut store = PathConfigurationStore::new();
    let rejected = store.set(configuration(vec![rule(
        &["[unclosed", "/new$"],
        Presentation::Modal,
    )]));

    assert_eq!(rejected, vec!["[unclosed".to_string()]);
    assert_eq!(
        store.properties_for_path("/posts/new").presentation,
        Presentation::Modal
    );
}

#[test]
fn replacing_the_configuration_replaces_the_compiled_patterns() {
    let mut store = store_with(vec![rule(&["/new$"], Presentation::Modal)]);
    assert_eq!(
        store.properties_for_path("/posts/new").presentation,
        Presentation::Modal
    );

    store.set(configuration(vec![rule(&["/edit$"], Presentation::Native)]));

    assert_eq!(
        store.properties_for_path("/posts/new").presentation,
        Presentation::Default
    );
    assert_eq!(
        store.properties_for_path("/posts/edit").presentation,
        Presentation::Native
    );
}

#[test]
fn a_path_no_rule_matches_has_no_matching_rule() {
    let store = store_with(vec![rule(&["^/admin"], Presentation::NewWindow)]);
    assert_eq!(store.matching_rule("/posts"), None);
    assert_eq!(store.matching_rule("/admin/users"), Some(0));
}

#[test]
fn a_matched_rule_hands_back_its_title_and_refresh_setting() {
    let mut matched = rule(&["/profile"], Presentation::Replace);
    matched.properties.title = Some("Profile".to_string());
    matched.properties.pull_to_refresh_enabled = Some(true);
    let store = store_with(vec![matched]);

    let properties = store.properties_for_path("/profile");
    assert_eq!(properties.presentation, Presentation::Replace);
    assert_eq!(properties.title.as_deref(), Some("Profile"));
    assert_eq!(properties.pull_to_refresh_enabled, Some(true));

    let fallback = store.properties_for_path("/elsewhere");
    assert_eq!(fallback.title, None);
    assert_eq!(fallback.pull_to_refresh_enabled, None);
}

#[test]
fn a_rule_with_only_invalid_patterns_matches_nothing() {
    let mut store = PathConfigurationStore::new();
    let rejected = store.set(configuration(vec![rule(&["(", "["], Presentation::Modal)]));
    assert_eq!(rejected.len(), 2);
    assert_eq!(store.matching_rule("("), None);
}
