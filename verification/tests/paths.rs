use turbo_desktop::paths::{join_path, lexical_normalize, parent_path, within};

fn chars(s: &str) -> Vec<char> {
    s.chars().collect()
}

#[test]
fn dot_and_dot_dot_are_resolved_lexically() {
    assert_eq!(lexical_normalize("/a/b/../c/./d"), "/a/c/d");
    assert_eq!(lexical_normalize("/a//b/"), "/a/b");
    assert_eq!(lexical_normalize("/../etc"), "/etc");
    assert_eq!(lexical_normalize("a/../../b"), "b");
    assert_eq!(lexical_normalize("/"), "/");
}

#[test]
fn joining_follows_the_standard_library() {
    assert_eq!(join_path("/project", "api"), "/project/api");
    assert_eq!(join_path("/project/", "api"), "/project/api");
    assert_eq!(join_path("/project", "/srv"), "/srv");
    assert_eq!(join_path("/project/desktop", ".."), "/project/desktop/..");
}

#[test]
fn parents_drop_the_last_component() {
    assert_eq!(parent_path("/project/src-tauri"), Some("/project".to_string()));
    assert_eq!(parent_path("/project"), Some("/".to_string()));
    assert_eq!(parent_path("/"), None);
}

#[test]
fn containment_goes_by_whole_components() {
    assert!(within(&chars("/home/me/notes"), &chars("/home/me")));
    assert!(within(&chars("/home/me"), &chars("/home/me")));
    assert!(!within(&chars("/home/meow"), &chars("/home/me")));
    assert!(!within(&chars("/home"), &chars("/home/me")));
    assert!(!within(&chars("home/me"), &chars("/home/me")));
}
