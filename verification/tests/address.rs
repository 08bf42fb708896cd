use turbo_desktop::address::WebUrl;

#[test]
fn a_url_reports_its_parts() {
    let url = WebUrl::parse("https://app.example.com/posts/1?page=2#top").unwrap();
    assert_eq!(url.scheme(), "https");
    assert_eq!(url.host_str(), Some("app.example.com".to_string()));
    assert_eq!(url.port_or_known_default(), Some(443));
    assert_eq!(url.path(), "/posts/1");
    assert_eq!(url.query(), Some("page=2".to_string()));
    assert_eq!(url.fragment(), Some("top".to_string()));
}

#[test]
fn an_invalid_url_is_refused() {
    assert!(WebUrl::parse("not a url").is_err());
    assert!(WebUrl::parse("").is_err());
}

#[test]
fn joining_resolves_against_the_base() {
    let base = WebUrl::parse("https://app.example.com/posts/1").unwrap();
    assert_eq!(base.join("/orders/2").unwrap().as_str(), "https://app.example.com/orders/2");
    assert_eq!(base.join("edit").unwrap().as_str(), "https://app.example.com/posts/edit");
}

#[test]
fn query_and_fragment_can_be_replaced() {
    let mut url = WebUrl::parse("https://app.example.com/a?x=1#f").unwrap();
    url.set_query(Some("y=2"));
    url.set_fragment(None);
    assert_eq!(url.as_str(), "https://app.example.com/a?y=2");
    url.set_query(None);
    assert_eq!(url.as_str(), "https://app.example.com/a");
}

#[test]
fn origins_compare_scheme_host_and_port() {
    let a = WebUrl::parse("https://app.example.com/x").unwrap();
    let b = WebUrl::parse("https://app.example.com:443/y").unwrap();
    let c = WebUrl::parse("http://app.example.com/x").unwrap();
    assert!(a.same_origin_as(&b));
    assert!(!a.same_origin_as(&c));
}
