//! Visit proposals: how the shell presents each destination the web layer
//! proposes to visit.

use vstd::prelude::*;
use vstd::string::*;
use crate::address::{parsed_url, url_parse_error, WebUrl};
use crate::clock::{clock_now, since_epoch, subsec_nanos};
use crate::config::Presentation;
use crate::security::{destination_for, is_trusted_origin, link_destination, trusted_origin, LinkDestination};
use crate::text::{is_err_with, opt_chars, owned, push_char, strings_of};

verus! {

/// Represents a navigation proposal from the JavaScript side.
/// When Turbo initiates a visit, the injected script sends this to the shell
/// so it can decide how to present the destination.
#[derive(Debug, Clone)]
pub struct VisitProposal {
    /// The full URL being navigated to
    pub url: String,
    /// The URL path component (e.g., "/posts/1/edit")
    pub path: String,
    /// Turbo visit action: "advance", "replace", or "restore"
    pub action: String,
}

/// Response sent back to the web layer telling it how to proceed.
#[derive(Debug, Clone)]
pub struct VisitResponse {
    pub action: String,
    pub presentation: String,
}

/// What the shell does with a visit.
#[derive(Debug)]
pub enum VisitPlan {
    /// Answer the web layer; nothing else to do.
    Respond(VisitResponse),
    /// Hand the URL to the system browser, then answer.
    OpenExternally { url: WebUrl, response: VisitResponse },
    /// Open the URL in a window of its own, inject the bridge into it, then answer.
    OpenWindow {
        url: WebUrl,
        label: String,
        title: String,
        width: u32,
        height: u32,
        response: VisitResponse,
    },
    /// Tell the native side a native screen was requested, then answer.
    EmitNative(VisitResponse),
}

/// The (action, presentation) pair the web layer is answered with.
pub open spec fn response_for(presentation: Presentation) -> (Seq<char>, Seq<char>) {
    match presentation {
        Presentation::Default => ("advance"@, "default"@),
        Presentation::Replace => ("replace"@, "replace"@),
        Presentation::Modal => ("none"@, "modal"@),
        Presentation::NewWindow => ("none"@, "new_window"@),
        Presentation::Native => ("none"@, "native"@),
        Presentation::Nothing => ("none"@, "none"@),
    }
}

fn response(action: &str, presentation: &str) -> (r: VisitResponse)
    ensures
        r.action@ == action@,
        r.presentation@ == presentation@,
{
    VisitResponse { action: owned(action), presentation: owned(presentation) }
}

/// Lower-case hexadecimal digits of `n`, without leading zeros.
pub open spec fn lower_hex(n: nat) -> Seq<char>
    decreases n,
{
    if n < 16 {
        seq![hex_digit(n)]
    } else {
        lower_hex(n / 16) + seq![hex_digit(n % 16)]
    }
}

/// The lower-case hexadecimal digits, in order.
pub open spec fn hex_digits() -> Seq<char> {
    seq!['0', '1', '2', '3', '4', '5', '6', '7', '8', '9', 'a', 'b', 'c', 'd', 'e', 'f']
}

/// The lower-case hexadecimal digit for `d` (below 16).
pub open spec fn hex_digit(d: nat) -> char {
    hex_digits()[d as int]
}

fn hex_digit_exec(d: u32) -> (c: char)
    requires
        d < 16,
    ensures
        c == hex_digit(d as nat),
{
    let digits: Vec<char> = vec![
        '0', '1', '2', '3', '4', '5', '6', '7', '8', '9', 'a', 'b', 'c', 'd', 'e', 'f',
    ];
    assert(digits@ =~= hex_digits());
    digits[d as usize]
}

/// `n` in lower-case hexadecimal, as `format!("{:x}", n)` writes it.
pub fn to_lower_hex(n: u32) -> (r: String)
    ensures
        r@ == lower_hex(n as nat),
    decreases n,
{
    if n < 16 {
        let mut r = String::new();
        push_char(&mut r, hex_digit_exec(n));
        assert(r@ =~= lower_hex(n as nat));
        r
    } else {
        let mut r = to_lower_hex(n / 16);
        push_char(&mut r, hex_digit_exec(n % 16));
        r
    }
}

/// The sub-second part of the current time, in nanoseconds; zero for a clock
/// set before the Unix epoch.
fn subsec_nanos_now() -> (n: u32)
    ensures
        n < 1_000_000_000,
{
    match since_epoch(&clock_now()) {
        Some(d) => subsec_nanos(&d),
        None => 0,
    }
}

/// Simple unique ID generator: the current sub-second nanoseconds in hexadecimal.
pub fn uuid_simple() -> (r: String)
    ensures
        exists|n: u32| n < 1_000_000_000 && r@ == lower_hex(n as nat),
{
    to_lower_hex(subsec_nanos_now())
}

/// Message for a proposed URL that does not parse.
pub open spec fn invalid_proposal_message(raw: Seq<char>) -> Seq<char> {
    "Invalid visit proposal URL '"@ + raw + "': "@ + url_parse_error(raw)
}

/// Message for a proposed URL on another origin.
pub open spec fn off_origin_message(raw: Seq<char>) -> Seq<char> {
    "Refused: '"@ + raw + "' is not on the configured app origin"@
}

/// Parse a proposed URL and confirm it stays on the app origin.
///
/// A proposal names the URL a new window will open, and the bridge is injected
/// into that window — so a proposal pointing at someone else's site would hand
/// them a window carrying the bridge.
pub fn same_origin_url(server_url: &str, raw: &str) -> (r: Result<WebUrl, String>)
    ensures
        parsed_url(raw@) is None ==> is_err_with(r, invalid_proposal_message(raw@)),
        parsed_url(raw@) is Some && trusted_origin(server_url@, parsed_url(raw@).unwrap()) ==> (r matches Ok(v)
            && v@ == parsed_url(raw@).unwrap()),
        parsed_url(raw@) is Some && !trusted_origin(server_url@, parsed_url(raw@).unwrap())
            ==> is_err_with(r, off_origin_message(raw@)),
{
    let url = match WebUrl::parse(raw) {
        Ok(u) => u,
        Err(e) => {
            let mut m = owned("Invalid visit proposal URL '");
            m.append(raw);
            m.append("': ");
            m.append(e.as_str());
            return Err(m);
        },
    };
    if is_trusted_origin(server_url, &url) {
        Ok(url)
    } else {
        Err(crate::security::concat3("Refused: '", raw, "' is not on the configured app origin"))
    }
}

/// The proposal leaves the app: its URL parses and its destination is the
/// system browser.
pub open spec fn leaves_the_app(
    server_url: Seq<char>,
    internal_hosts: Seq<Seq<char>>,
    raw: Seq<char>,
) -> bool {
    parsed_url(raw) is Some && link_destination(server_url, internal_hosts, parsed_url(raw).unwrap())
        == LinkDestination::SystemBrowser
}

/// The URL to hand to the system, when a proposal points somewhere other than
/// the app. A rule can name any path, including one that points off-origin;
/// opening a window on someone else's site and injecting the bridge into it
/// would be wrong, so those go to the browser like any other external link.
pub fn external_destination(server_url: &str, internal_hosts: &Vec<String>, raw: &str) -> (r:
    Option<WebUrl>)
    ensures
        r is Some <==> leaves_the_app(server_url@, strings_of(internal_hosts@), raw@),
        r matches Some(u) ==> u@ == parsed_url(raw@).unwrap(),
{
    let url = match WebUrl::parse(raw) {
        Ok(u) => u,
        Err(_) => return None,
    };
    match destination_for(server_url, internal_hosts, &url) {
        LinkDestination::App => None,
        LinkDestination::SystemBrowser => Some(url),
    }
}

/// The answer is (`action`, `presentation`).
pub open spec fn answers(r: VisitResponse, answer: (Seq<char>, Seq<char>)) -> bool {
    r.action@ == answer.0 && r.presentation@ == answer.1
}

/// `label` is `prefix` followed by a fresh identifier from [`uuid_simple`].
pub open spec fn fresh_label(label: Seq<char>, prefix: Seq<char>) -> bool {
    exists|n: u32| n < 1_000_000_000 && label == prefix + lower_hex(n as nat)
}

/// The window a presentation opens: its label prefix, default title, width and
/// height. Other presentations open none.
pub open spec fn window_for(presentation: Presentation) -> Option<(Seq<char>, Seq<char>, u32, u32)> {
    match presentation {
        Presentation::Modal => Some(("modal-"@, ""@, 800u32, 600u32)),
        Presentation::NewWindow => Some(("window-"@, "Turbo Desktop"@, 1200u32, 800u32)),
        _ => None,
    }
}

/// What [`plan_visit`] answers for a visit to `raw`.
///
/// A URL that leaves the app is handed to the system. Otherwise a presentation
/// that opens a window needs a URL on the app's own origin, because the bridge
/// is injected into that window; the others only answer the web layer.
pub open spec fn plan_follows(
    r: Result<VisitPlan, String>,
    server_url: Seq<char>,
    internal_hosts: Seq<Seq<char>>,
    presentation: Presentation,
    title: Option<Seq<char>>,
    raw: Seq<char>,
) -> bool {
    if leaves_the_app(server_url, internal_hosts, raw) {
        &&& r matches Ok(VisitPlan::OpenExternally { url, response })
        &&& url@ == parsed_url(raw).unwrap()
        &&& answers(response, ("none"@, "external"@))
    } else {
        match window_for(presentation) {
            Some((prefix, default_title, w, h)) => if parsed_url(raw) is None {
                is_err_with(r, invalid_proposal_message(raw))
            } else if !trusted_origin(server_url, parsed_url(raw).unwrap()) {
                is_err_with(r, off_origin_message(raw))
            } else {
                &&& r matches Ok(
                    VisitPlan::OpenWindow { url, label, title: t, width, height, response },
                )
                &&& url@ == parsed_url(raw).unwrap()
                &&& width == w && height == h
                &&& t@ == match title {
                    Some(s) => s,
                    None => default_title,
                }
                &&& fresh_label(label@, prefix)
                &&& answers(response, response_for(presentation))
            },
            None => if presentation == Presentation::Native {
                &&& r matches Ok(VisitPlan::EmitNative(response))
                &&& answers(response, response_for(presentation))
            } else {
                &&& r matches Ok(VisitPlan::Respond(response))
                &&& answers(response, response_for(presentation))
            },
        }
    }
}

fn open_window(
    url: WebUrl,
    prefix: &str,
    title: Option<String>,
    default_title: &str,
    width: u32,
    height: u32,
    answer: &str,
) -> (p: VisitPlan)
    ensures
        p matches VisitPlan::OpenWindow { url: u, label, title: t, width: pw, height: ph, response }
            && u@ == url@ && pw == width && ph == height && fresh_label(label@, prefix@) && t@
            == match opt_chars(title) {
            Some(s) => s,
            None => default_title@,
        } && answers(response, ("none"@, answer@)),
{
    let mut label = owned(prefix);
    let id = uuid_simple();
    label.append(id.as_str());
    let t = match title {
        Some(s) => s,
        None => owned(default_title),
    };
    VisitPlan::OpenWindow { url, label, title: t, width, height, response: response("none", answer) }
}

/// Decide how to present a visit to `raw`, given the presentation its path
/// configuration names and the rule's title.
///
/// Somewhere else entirely is handed to the system and the web layer drops it.
/// Otherwise: `default` lets Turbo Drive navigate; `replace` replaces the page;
/// `modal` opens a window titled by the rule (or untitled), 800×600 unless the
/// rule gives a size of its own; `new_window` opens one titled by the rule (or
/// "Turbo Desktop"), 1200×800 unless the rule sizes it; `native` asks for a
/// native screen; `none` does nothing. A rule's own size is a floating-point
/// value of the configuration file, applied by whoever opens the window; the
/// plan carries the presentation's default. A window only opens on the app's
/// own origin (see [`same_origin_url`]).
pub fn plan_visit(
    server_url: &str,
    internal_hosts: &Vec<String>,
    presentation: Presentation,
    title: Option<String>,
    raw: &str,
) -> (r: Result<VisitPlan, String>)
    ensures
        plan_follows(r, server_url@, strings_of(internal_hosts@), presentation, opt_chars(title), raw@),
{
    if let Some(url) = external_destination(server_url, internal_hosts, raw) {
        return Ok(VisitPlan::OpenExternally { url, response: response("none", "external") });
    }
    match presentation {
        Presentation::Default => Ok(VisitPlan::Respond(response("advance", "default"))),
        Presentation::Replace => Ok(VisitPlan::Respond(response("replace", "replace"))),
        Presentation::Modal => {
            let url = same_origin_url(server_url, raw)?;
            Ok(open_window(url, "modal-", title, "", 800, 600, "modal"))
        },
        Presentation::NewWindow => {
            let url = same_origin_url(server_url, raw)?;
            Ok(open_window(url, "window-", title, "Turbo Desktop", 1200, 800, "new_window"))
        },
        Presentation::Native => Ok(VisitPlan::EmitNative(response("none", "native"))),
        Presentation::Nothing => Ok(VisitPlan::Respond(response("none", "none"))),
    }
}

/// A window the shell opens, and injects the bridge into, is always on the
/// app's own origin: a rule can name any path, but never hands another site a
/// window carrying the app's API.
pub proof fn law_windows_open_only_on_the_app_origin(
    r: Result<VisitPlan, String>,
    server_url: Seq<char>,
    internal_hosts: Seq<Seq<char>>,
    presentation: Presentation,
    title: Option<Seq<char>>,
    raw: Seq<char>,
)
    requires
        plan_follows(r, server_url, internal_hosts, presentation, title, raw),
    ensures
        r matches Ok(VisitPlan::OpenWindow { url, .. }) ==> trusted_origin(server_url, url@),
{
}

/// A rule's title names the window it opens: whenever a visit opens a window
/// (a modal or a new window), the window is titled by the rule when the rule
/// gives a title, and carries the presentation's default title only when it
/// gives none; and it is opened at the presentation's size.
pub proof fn law_a_rule_title_names_its_window(
    r: Result<VisitPlan, String>,
    server_url: Seq<char>,
    internal_hosts: Seq<Seq<char>>,
    presentation: Presentation,
    title: Option<Seq<char>>,
    raw: Seq<char>,
)
    requires
        plan_follows(r, server_url, internal_hosts, presentation, title, raw),
    ensures
        r matches Ok(VisitPlan::OpenWindow { title: t, width, height, .. }) ==> {
            &&& (presentation == Presentation::Modal || presentation == Presentation::NewWindow)
            &&& title matches Some(s) ==> t@ == s
            &&& title is None && presentation == Presentation::NewWindow ==> t@ == "Turbo Desktop"@
            &&& title is None && presentation == Presentation::Modal ==> t@ == ""@
            &&& presentation == Presentation::NewWindow ==> width == 1200 && height == 800
            &&& presentation == Presentation::Modal ==> width == 800 && height == 600
        },
{
}

/// A visit to the app's own origin is never handed to the system browser.
pub proof fn law_own_origin_visits_stay_in_the_app(
    r: Result<VisitPlan, String>,
    server_url: Seq<char>,
    internal_hosts: Seq<Seq<char>>,
    presentation: Presentation,
    title: Option<Seq<char>>,
    raw: Seq<char>,
)
    requires
        plan_follows(r, server_url, internal_hosts, presentation, title, raw),
        parsed_url(raw) is Some,
        trusted_origin(server_url, parsed_url(raw).unwrap()),
    ensures
        !(r matches Ok(VisitPlan::OpenExternally { .. })),
{
    crate::security::law_own_origin_stays_in_the_app(server_url, internal_hosts, parsed_url(raw).unwrap());
}

} // verus!
