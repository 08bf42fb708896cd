//! Opening the app at a particular page from outside it.
//!
//! A link like `your-app://orders/123` — from an email, a calendar entry, or
//! another application — becomes a visit to the matching page on your server.

use vstd::prelude::*;
use vstd::string::*;
use crate::address::{
    joined_url, parsed_url, same_origin, url_fragment, url_host, url_join_error,
    url_parse_error, url_path, url_query, url_with_fragment, url_with_query, WebUrl,
};
use crate::security::is_trusted_origin;
use crate::text::{chars_of, has_prefix, owned, strings_of};

verus! {

/// The path a deep link names: a custom scheme puts the first segment in the
/// host, so `app://orders/123` has host "orders" and path "/123"; the two are
/// stitched back together.
pub open spec fn deep_link_path(link: Seq<char>) -> Seq<char> {
    match url_host(link) {
        Some(h) => seq!['/'] + h + url_path(link),
        None => url_path(link),
    }
}

/// What a deep link resolves to against the configured server: the page on the
/// server, or the reason it is refused.
pub open spec fn deep_link_outcome(server_url: Seq<char>, link: Seq<char>) -> Result<
    Seq<char>,
    Seq<char>,
> {
    match parsed_url(server_url) {
        None => Err("Invalid server URL: "@ + url_parse_error(server_url)),
        Some(server) => {
            let path = deep_link_path(link);
            if path.len() == 0 || path == seq!['/'] {
                Err("Deep link has no path"@)
            } else {
                match joined_url(server, path) {
                    None => Err(
                        "Could not resolve '"@ + link + "': "@ + url_join_error(server, path),
                    ),
                    Some(joined) => {
                        let target = url_with_fragment(
                            url_with_query(joined, url_query(link)),
                            url_fragment(link),
                        );
                        if same_origin(server, target) {
                            Ok(target)
                        } else {
                            Err("Refused: '"@ + link + "' resolves outside the app"@)
                        }
                    },
                }
            }
        },
    }
}

/// The path of the page a deep link refers to.
pub fn link_path(link: &WebUrl) -> (p: String)
    ensures
        p@ == deep_link_path(link@),
{
    let mut path = String::new();
    match link.host_str() {
        Some(h) => {
            path.append("/");
            path.append(h.as_str());
        },
        None => {},
    }
    let rest = link.path();
    path.append(rest.as_str());
    proof {
        reveal_strlit("/");
    }
    assert(path@ =~= deep_link_path(link@));
    path
}

/// Turn a deep link into the page on the app server it refers to.
///
/// Everything after the scheme is treated as a path, so `your-app://orders/123`
/// and `your-app:/orders/123` both mean `/orders/123`. The result is resolved
/// against the configured server and rejected if it lands anywhere else — a
/// link arrives from outside the app, so it is not trusted to say where to go.
/// The link's query and fragment are carried over to the page: the page has a
/// query exactly when the link has one, and a fragment exactly when the link
/// has one (the text is re-encoded for the server's scheme, so a `'` in the
/// query of a custom-scheme link arrives as `%27` on an `http` page).
pub fn resolve(server_url: &str, link: &WebUrl) -> (r: Result<WebUrl, String>)
    ensures
        match r {
            Ok(t) => deep_link_outcome(server_url@, link@) == Ok::<Seq<char>, Seq<char>>(t@),
            Err(e) => deep_link_outcome(server_url@, link@) == Err::<Seq<char>, Seq<char>>(e@),
        },
        r matches Ok(t) ==> (url_query(t@) is Some <==> url_query(link@) is Some) && (url_fragment(
            t@,
        ) is Some <==> url_fragment(link@) is Some),
{
    let server = match WebUrl::parse(server_url) {
        Ok(s) => s,
        Err(e) => {
            let mut m = owned("Invalid server URL: ");
            m.append(e.as_str());
            return Err(m);
        },
    };
    let path = link_path(link);
    let pc = chars_of(path.as_str());
    if pc.len() == 0 || (pc.len() == 1 && pc[0] == '/') {
        proof {
            if pc.len() == 1 && pc[0] == '/' {
                assert(pc@ =~= seq!['/']);
            }
        }
        return Err(owned("Deep link has no path"));
    }
    assert(path@ != seq!['/']) by {
        if path@ == seq!['/'] {
            assert(pc@.len() == 1);
        }
    }
    let mut target = match server.join(path.as_str()) {
        Ok(t) => t,
        Err(e) => {
            let mut m = owned("Could not resolve '");
            m.append(link.as_str());
            m.append("': ");
            m.append(e.as_str());
            return Err(m);
        },
    };
    let q = link.query();
    match &q {
        Some(v) => target.set_query(Some(v.as_str())),
        None => target.set_query(None),
    }
    let f = link.fragment();
    match &f {
        Some(v) => target.set_fragment(Some(v.as_str())),
        None => target.set_fragment(None),
    }
    if is_trusted_origin(server_url, &target) {
        Ok(target)
    } else {
        let mut m = owned("Refused: '");
        m.append(link.as_str());
        m.append("' resolves outside the app");
        Err(m)
    }
}

/// A deep link only ever opens a page on the configured server's own origin:
/// whatever the link says, an accepted target shares scheme, host and port with
/// the server.
pub proof fn law_deep_links_stay_on_the_server(server_url: Seq<char>, link: Seq<char>)
    ensures
        deep_link_outcome(server_url, link) is Ok ==> parsed_url(server_url) is Some
            && same_origin(
            parsed_url(server_url).unwrap(),
            deep_link_outcome(server_url, link)->Ok_0,
        ),
{
}

/// Whether a file exists at `path`.
///
/// Calls `std::path::Path::exists`; the answer depends on the file system at
/// the time of the call, so nothing is claimed about it.
#[verifier::external_body]
fn path_exists(path: &str) -> (b: bool) {
    std::path::Path::new(path).exists()
}

/// The launch arguments that may name files: all but the program itself, and
/// none that looks like a flag.
pub open spec fn file_arguments(args: Seq<Seq<char>>) -> Seq<Seq<char>> {
    args.subrange(if args.len() == 0 { 0 } else { 1 }, args.len() as int).filter(not_a_flag())
}

/// An argument that does not start with `-`.
pub open spec fn not_a_flag() -> spec_fn(Seq<char>) -> bool {
    |a: Seq<char>| !has_prefix(a, seq!['-'])
}

/// The elements of `s` whose flag in `keep` is set, in order.
pub open spec fn select(s: Seq<Seq<char>>, keep: Seq<bool>) -> Seq<Seq<char>>
    decreases s.len(),
{
    if s.len() == 0 || keep.len() == 0 {
        Seq::empty()
    } else if keep.last() {
        select(s.drop_last(), keep.drop_last()).push(s.last())
    } else {
        select(s.drop_last(), keep.drop_last())
    }
}

/// The launch arguments that may name files: all but the program itself, and
/// none that starts with `-`, in order.
pub fn file_candidates(args: &Vec<String>) -> (r: Vec<String>)
    ensures
        strings_of(r@) == file_arguments(strings_of(args@)),
{
    let ghost all = strings_of(args@);
    let ghost pred = not_a_flag();
    let mut r: Vec<String> = Vec::new();
    assert(Seq::<Seq<char>>::empty().filter(pred) =~= Seq::<Seq<char>>::empty()) by {
        reveal(Seq::filter);
    }
    if args.len() == 0 {
        assert(all.subrange(0, 0) =~= Seq::<Seq<char>>::empty());
        assert(strings_of(r@) =~= file_arguments(all));
        return r;
    }
    let mut i: usize = 1;
    assert(all.subrange(1, 1) =~= Seq::<Seq<char>>::empty());
    while i < args.len()
        invariant
            1 <= i <= args.len(),
            all == strings_of(args@),
            pred == not_a_flag(),
            strings_of(r@) == all.subrange(1, i as int).filter(pred),
        decreases args.len() - i,
    {
        let arg = chars_of(args[i].as_str());
        assert(all[i as int] == args@[i as int]@);
        let ghost before = all.subrange(1, i as int);
        assert(all.subrange(1, i + 1) =~= before.push(all[i as int]));
        assert(before.push(all[i as int]).filter(pred) == if pred(all[i as int]) {
            before.filter(pred).push(all[i as int])
        } else {
            before.filter(pred)
        }) by {
            before.lemma_filter_push(all[i as int], pred);
        }
        let flag = arg.len() > 0 && arg[0] == '-';
        proof {
            if flag {
                assert(arg@.subrange(0, 1) =~= seq!['-']);
            } else if has_prefix(arg@, seq!['-']) {
                assert(arg@.subrange(0, 1)[0] == '-');
            }
        }
        if !flag {
            let ghost old_r = strings_of(r@);
            r.push(args[i].clone());
            assert(strings_of(r@) =~= old_r.push(all[i as int]));
        }
        i = i + 1;
    }
    assert(all.subrange(1, args.len() as int) == all.subrange(1, all.len() as int));
    r
}

/// The candidates whose flag in `exists` is set, in order: the files among
/// them that exist, given what the file system said of each.
pub fn keep_existing(candidates: &Vec<String>, exists: &Vec<bool>) -> (r: Vec<String>)
    requires
        candidates.len() == exists.len(),
    ensures
        strings_of(r@) == select(strings_of(candidates@), exists@),
{
    let ghost all = strings_of(candidates@);
    let mut r: Vec<String> = Vec::new();
    let mut i: usize = 0;
    assert(all.take(0) =~= Seq::<Seq<char>>::empty());
    while i < candidates.len()
        invariant
            i <= candidates.len(),
            candidates.len() == exists.len(),
            all == strings_of(candidates@),
            strings_of(r@) == select(all.take(i as int), exists@.take(i as int)),
        decreases candidates.len() - i,
    {
        let ghost old_r = strings_of(r@);
        assert(all.take(i + 1).drop_last() =~= all.take(i as int));
        assert(exists@.take(i + 1).drop_last() =~= exists@.take(i as int));
        assert(all.take(i + 1).last() == candidates@[i as int]@);
        if exists[i] {
            r.push(candidates[i].clone());
            assert(strings_of(r@) =~= old_r.push(candidates@[i as int]@));
        }
        i = i + 1;
    }
    assert(all.take(candidates.len() as int) =~= all);
    assert(exists@.take(candidates.len() as int) =~= exists@);
    r
}

/// The paths the OS launched the app with, on platforms where an associated
/// file arrives as a plain argument (Windows and Linux; macOS uses an event).
///
/// Of the arguments after the program name, those that are not flags are kept
/// when a file exists there: each candidate (see [`file_candidates`]) is asked
/// about once, and the answers decide (see [`keep_existing`]). Which exist is up
/// to the file system, so the contract says the result is those candidates, in
/// order, less any that do not.
pub fn paths_from_args(args: &Vec<String>) -> (r: Vec<String>)
    ensures
        exists|keep: Seq<bool>|
            keep.len() == file_arguments(strings_of(args@)).len() && strings_of(r@) == select(
                file_arguments(strings_of(args@)),
                keep,
            ),
{
    let candidates = file_candidates(args);
    let mut exists: Vec<bool> = Vec::new();
    let mut i: usize = 0;
    while i < candidates.len()
        invariant
            i <= candidates.len(),
            exists.len() == i,
        decreases candidates.len() - i,
    {
        exists.push(path_exists(candidates[i].as_str()));
        i = i + 1;
    }
    let r = keep_existing(&candidates, &exists);
    assert(exists@.len() == file_arguments(strings_of(args@)).len());
    r
}

/// Files the OS asked the app to open, waiting for the page to collect them.
///
/// A file association launch usually happens before the page has loaded, so a
/// pushed event would land in an empty webview. The paths queue here instead,
/// and the page drains the queue through the bridge.
#[derive(Debug, Default)]
pub struct PendingOpenedFiles {
    paths: Vec<String>,
}

impl View for PendingOpenedFiles {
    type V = Seq<Seq<char>>;

    /// The queued paths, oldest first.
    closed spec fn view(&self) -> Seq<Seq<char>> {
        strings_of(self.paths@)
    }
}

impl PendingOpenedFiles {
    /// An empty queue.
    pub fn new() -> (q: Self)
        ensures
            q@ == Seq::<Seq<char>>::empty(),
    {
        let q = PendingOpenedFiles { paths: Vec::new() };
        assert(q@ =~= Seq::<Seq<char>>::empty());
        q
    }

    /// Queue more paths behind the ones already waiting.
    pub fn extend(&mut self, opened: Vec<String>)
        ensures
            final(self)@ == old(self)@ + strings_of(opened@),
    {
        let ghost start = self@;
        let mut i: usize = 0;
        while i < opened.len()
            invariant
                i <= opened.len(),
                self@ == start + strings_of(opened@).take(i as int),
            decreases opened.len() - i,
        {
            let ghost before = self@;
            self.paths.push(opened[i].clone());
            assert(self@ =~= before.push(opened@[i as int]@));
            assert(strings_of(opened@).take(i + 1) =~= strings_of(opened@).take(i as int).push(
                opened@[i as int]@,
            ));
            i = i + 1;
            assert(self@ =~= start + strings_of(opened@).take(i as int));
        }
        assert(strings_of(opened@).take(opened.len() as int) =~= strings_of(opened@));
    }

    /// Collect (and thereby clear) the queued paths.
    pub fn drain(&mut self) -> (r: Vec<String>)
        ensures
            strings_of(r@) == old(self)@,
            final(self)@ == Seq::<Seq<char>>::empty(),
    {
        let mut r: Vec<String> = Vec::new();
        std::mem::swap(&mut r, &mut self.paths);
        assert(self@ =~= Seq::<Seq<char>>::empty());
        r
    }
}

} // verus!
