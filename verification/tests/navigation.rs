use turbo_desktop::config::Presentation;
use turbo_desktop::navigation::{
    external_destination, plan_visit, same_origin_url, to_lower_hex, uuid_simple, VisitPlan,
};

const SERVER: &str = "https://app.example.com";

fn answered(plan: &VisitPlan) -> (String, String) {
    let r = match plan {
        VisitPlan::Respond(r) => r,
        VisitPlan::OpenExternally { response, .. } => response,
        VisitPlan::OpenWindow { response, .. } => response,
        VisitPlan::EmitNative(r) => r,
    };
    (r.action.clone(), r.presentation.clone())
}

#[test]
fn visits_on_the_app_origin_are_accepted() {
    let url = same_origin_url(SERVER, "https://app.example.com/posts/1").unwrap();
    assert_eq!(url.as_str(), "https://app.example.com/posts/1");
}

#[test]
fn visits_elsewhere_are_refused() {
    assert_eq!(
        same_origin_url(SERVER, "https://evil.example.com/").unwrap_err(),
        "Refused: 'https://evil.example.com/' is not on the configured app origin"
    );
    let err = same_origin_url(SERVER, "not a url").unwrap_err();
    assert!(err.starts_with("Invalid visit proposal URL 'not a url': "), "got: {err}");
}

#[test]
fn only_unlisted_hosts_leave_the_app() {
    let hosts = vec!["docs.example.com".to_string()];
    assert!(external_destination(SERVER, &hosts, "https://app.example.com/x").is_none());
    assert!(external_destination(SERVER, &hosts, "https://docs.example.com/guide").is_none());
    let out = external_destination(SERVER, &hosts, "https://github.com/rails").unwrap();
    assert_eq!(out.as_str(), "https://github.com/rails");
    assert!(external_destination(SERVER, &hosts, "::nonsense").is_none());
}

fn plan(presentation: Presentation, title: Option<&str>, raw: &str) -> Result<VisitPlan, String> {
    let hosts = vec!["docs.example.com".to_string()];
    plan_visit(SERVER, &hosts, presentation, title.map(String::from), raw)
}

#[test]
fn each_presentation_answers_the_web_layer() {
    let page = "https://app.example.com/posts";

    let p = plan(Presentation::Default, None, page).unwrap();
    assert!(matches!(p, VisitPlan::Respond(_)));
    assert_eq!(answered(&p), ("advance".into(), "default".into()));

    let p = plan(Presentation::Replace, None, page).unwrap();
    assert_eq!(answered(&p), ("replace".into(), "replace".into()));

    let p = plan(Presentation::Nothing, None, page).unwrap();
    assert_eq!(answered(&p), ("none".into(), "none".into()));

    let p = plan(Presentation::Native, None, page).unwrap();
    assert!(matches!(p, VisitPlan::EmitNative(_)));
    assert_eq!(answered(&p), ("none".into(), "native".into()));
}

#[test]
fn modals_and_new_windows_open_windows_of_their_own() {
    match plan(Presentation::Modal, Some("Edit"), "https://app.example.com/posts/1/edit").unwrap() {
        VisitPlan::OpenWindow { url, label, title, width, height, response } => {
            assert_eq!(url.as_str(), "https://app.example.com/posts/1/edit");
            assert!(label.starts_with("modal-"));
            assert_eq!(title, "Edit");
            assert_eq!((width, height), (800, 600));
            assert_eq!(response.action, "none");
            assert_eq!(response.presentation, "modal");
        }
        other => panic!("expected a window, got {other:?}"),
    }
    match plan(Presentation::Modal, None, "https://app.example.com/x").unwrap() {
        VisitPlan::OpenWindow { title, .. } => assert_eq!(title, ""),
        other => panic!("expected a window, got {other:?}"),
    }
    match plan(Presentation::NewWindow, None, "https://app.example.com/reports").unwrap() {
        VisitPlan::OpenWindow { label, title, width, height, response, .. } => {
            assert!(label.starts_with("window-"));
            assert_eq!(title, "Turbo Desktop");
            assert_eq!((width, height), (1200, 800));
            assert_eq!(response.presentation, "new_window");
        }
        other => panic!("expected a window, got {other:?}"),
    }
}

#[test]
fn a_window_is_never_opened_off_the_app_origin() {
    // Listed hosts render in the app, but a window carrying the bridge is
    // only ever opened on the app's own origin.
    assert_eq!(
        plan(Presentation::Modal, None, "https://docs.example.com/guide").unwrap_err(),
        "Refused: 'https://docs.example.com/guide' is not on the configured app origin"
    );
    let err = plan(Presentation::NewWindow, None, "::nonsense").unwrap_err();
    assert!(err.starts_with("Invalid visit proposal URL '::nonsense': "), "got: {err}");
    // Presentations that open no window do not need a URL at all.
    assert!(plan(Presentation::Default, None, "::nonsense").is_ok());
}

#[test]
fn an_external_destination_overrides_the_presentation() {
    match plan(Presentation::Modal, None, "https://github.com/").unwrap() {
        VisitPlan::OpenExternally { url, response } => {
            assert_eq!(url.as_str(), "https://github.com/");
            assert_eq!(response.action, "none");
            assert_eq!(response.presentation, "external");
        }
        other => panic!("expected the system browser, got {other:?}"),
    }
}

#[test]
fn hex_is_lower_case_without_padding() {
    assert_eq!(to_lower_hex(0), "0");
    assert_eq!(to_lower_hex(255), "ff");
    assert_eq!(to_lower_hex(4096), "1000");
    assert_eq!(to_lower_hex(u32::MAX), format!("{:x}", u32::MAX));
    let id = uuid_simple();
    assert!(!id.is_empty() && id.chars().all(|c| c.is_ascii_hexdigit()));
}
