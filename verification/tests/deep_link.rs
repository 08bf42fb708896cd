use turbo_desktop::address::WebUrl;
use turbo_desktop::deep_link::{link_path, paths_from_args, resolve, PendingOpenedFiles};

fn link(s: &str) -> WebUrl {
    WebUrl::parse(s).expect("test link should parse")
}

#[test]
fn the_first_segment_is_part_of_the_path() {
    // A custom scheme parses that segment as the host, which it is not.
    let target = resolve("https://app.example.com", &link("myapp://orders/123")).unwrap();

    assert_eq!(target.as_str(), "https://app.example.com/orders/123");
}

#[test]
fn a_single_segment_link_still_resolves() {
    let target = resolve("https://app.example.com", &link("myapp://settings")).unwrap();

    assert_eq!(target.as_str(), "https://app.example.com/settings");
}

#[test]
fn queries_and_fragments_survive() {
    let target = resolve(
        "https://app.example.com",
        &link("myapp://search?q=hello#results"),
    )
    .unwrap();

    assert_eq!(target.query().as_deref(), Some("q=hello"));
    assert_eq!(target.fragment().as_deref(), Some("results"));
}

#[test]
fn a_link_with_no_path_is_refused() {
    assert!(resolve("https://app.example.com", &link("myapp://")).is_err());
}

#[test]
fn a_link_cannot_send_the_app_somewhere_else() {
    // Deep links arrive from outside, so a link naming another host must not
    // be able to point the app at it.
    let err = resolve(
        "https://app.example.com",
        &link("myapp:https://evil.example.com/steal"),
    )
    .expect_err("an absolute URL to another origin must be refused");

    assert!(err.contains("outside the app"), "unexpected error: {err}");
}

#[test]
fn traversal_cannot_climb_out_of_the_server() {
    let target = resolve("https://app.example.com/", &link("myapp://../../etc/passwd"));

    // Either refused, or normalised back onto the app's own origin.
    if let Ok(url) = target {
        assert_eq!(url.host_str().as_deref(), Some("app.example.com"));
    }
}

#[test]
fn an_unparseable_server_url_is_reported() {
    let err = resolve("not a url", &link("myapp://orders/1")).expect_err("must be refused");
    assert!(err.starts_with("Invalid server URL: "), "unexpected error: {err}");
}

#[test]
fn the_link_path_joins_host_and_path() {
    assert_eq!(link_path(&link("myapp://orders/123")), "/orders/123");
    assert_eq!(link_path(&link("myapp:/orders/123")), "/orders/123");
}

#[test]
fn only_existing_non_flag_arguments_are_opened_files() {
    let existing = "/tmp".to_string();
    let args = vec![
        "/usr/bin/app".to_string(),
        "--flag".to_string(),
        existing.clone(),
        "/nonexistent/other.txt".to_string(),
    ];

    assert_eq!(paths_from_args(&args), vec![existing]);
}

#[test]
fn draining_returns_the_queue_in_order_and_empties_it() {
    let mut queue = PendingOpenedFiles::new();
    queue.extend(vec!["/a.txt".to_string()]);
    queue.extend(vec!["/b.txt".to_string(), "/c.txt".to_string()]);

    assert_eq!(queue.drain(), vec!["/a.txt", "/b.txt", "/c.txt"]);
    assert!(queue.drain().is_empty());
}

use turbo_desktop::deep_link::{file_candidates, keep_existing};

#[test]
fn the_program_and_flags_are_never_file_candidates() {
    let args = vec![
        "/usr/bin/app".to_string(),
        "--flag".to_string(),
        "/a.txt".to_string(),
        "-v".to_string(),
        "b.txt".to_string(),
    ];
    assert_eq!(file_candidates(&args), vec!["/a.txt", "b.txt"]);
    assert!(file_candidates(&vec!["/usr/bin/app".to_string()]).is_empty());
    assert!(file_candidates(&Vec::new()).is_empty());
}

#[test]
fn only_candidates_that_exist_are_kept() {
    let candidates = vec!["/a.txt".to_string(), "/b.txt".to_string(), "/c.txt".to_string()];
    assert_eq!(keep_existing(&candidates, &vec![true, false, true]), vec!["/a.txt", "/c.txt"]);
    assert!(keep_existing(&candidates, &vec![false, false, false]).is_empty());
}
