//! Trust boundary for the native bridge.
//!
//! Everything the web layer can reach — shell, filesystem, sudo — funnels through
//! the bridge, and these checks are the enforcement point: which paths the
//! filesystem component may touch, and which commands may be run with
//! administrator privileges.

use vstd::prelude::*;
use vstd::string::*;
use crate::paths::{
    join_path, lexical_normalize, normalized_path, path_components, path_join, path_rooted, render_path,
    path_within, render, seqs_of, split_components, within,
};
use crate::text::{
    all_white_space, char_in, chars_equal, chars_of, copy_opt, has_prefix, is_err_with, is_literal, is_white_space,
    opt_chars, owned, push_all, starts_with_chars, strings_of, trim, trim_chars,
};
use crate::window::{FilesystemConfig, SudoConfig};
use crate::address::{parsed_url, same_origin, url_host, url_scheme, WebUrl};

verus! {

/// Path components that are never reachable through the filesystem bridge, even
/// when they sit inside an allowed root.
pub open spec fn denied_components() -> Seq<Seq<char>> {
    seq![
        ".ssh"@,
        ".aws"@,
        ".gnupg"@,
        ".docker"@,
        ".netrc"@,
        "master.key"@,
        "credentials.yml.enc"@,
    ]
}

/// Some component of the path is a protected name.
pub open spec fn path_is_denied(p: Seq<char>) -> bool {
    exists|i: int|
        0 <= i < path_components(p).len() && denied_components().contains(
            #[trigger] path_components(p)[i],
        )
}

fn denied_names() -> (v: Vec<Vec<char>>)
    ensures
        seqs_of(v@) == denied_components(),
{
    let mut v: Vec<Vec<char>> = Vec::new();
    v.push(chars_of(".ssh"));
    v.push(chars_of(".aws"));
    v.push(chars_of(".gnupg"));
    v.push(chars_of(".docker"));
    v.push(chars_of(".netrc"));
    v.push(chars_of("master.key"));
    v.push(chars_of("credentials.yml.enc"));
    assert(seqs_of(v@) =~= denied_components());
    v
}

fn is_denied_name(c: &Vec<char>, names: &Vec<Vec<char>>) -> (b: bool)
    requires
        seqs_of(names@) == denied_components(),
    ensures
        b == denied_components().contains(c@),
{
    let mut i: usize = 0;
    while i < names.len()
        invariant
            i <= names.len(),
            seqs_of(names@) == denied_components(),
            forall|j: int| 0 <= j < i ==> denied_components()[j] != c@,
        decreases names.len() - i,
    {
        assert(seqs_of(names@)[i as int] == names@[i as int]@);
        if chars_equal(&names[i], c) {
            assert(denied_components()[i as int] == c@);
            return true;
        }
        i = i + 1;
    }
    false
}

/// Whether some component of `path` is a protected name.
pub fn is_denied(path: &str) -> (b: bool)
    ensures
        b == path_is_denied(path@),
{
    let s = chars_of(path);
    let cs = split_components(&s);
    let names = denied_names();
    let ghost pc = seqs_of(cs@);
    let mut i: usize = 0;
    while i < cs.len()
        invariant
            i <= cs.len(),
            pc == seqs_of(cs@),
            pc == path_components(path@),
            seqs_of(names@) == denied_components(),
            forall|j: int| 0 <= j < i ==> !denied_components().contains(#[trigger] pc[j]),
        decreases cs.len() - i,
    {
        assert(pc[i as int] == cs@[i as int]@);
        if is_denied_name(&cs[i], &names) {
            return true;
        }
        i = i + 1;
    }
    false
}

/// The home directory is known and not empty.
pub open spec fn usable_home(home: Option<Seq<char>>) -> bool {
    home is Some && home.unwrap().len() > 0
}

/// A leading `~` replaced by the home directory, as `expand_tilde` does it.
pub open spec fn tilde_expansion(path: Seq<char>, home: Option<Seq<char>>) -> Option<Seq<char>> {
    if path == seq!['~'] {
        if usable_home(home) {
            home
        } else {
            None
        }
    } else if has_prefix(path, seq!['~', '/']) {
        if usable_home(home) {
            Some(path_join(home.unwrap(), path.subrange(2, path.len() as int)))
        } else {
            None
        }
    } else {
        Some(path)
    }
}

/// Expand a leading `~` to the user's home directory.
///
/// `home` is the home directory the environment names (`HOME`, or
/// `USERPROFILE` on Windows); an empty one counts as none.
pub fn expand_tilde(path: &str, home: &Option<String>) -> (r: Option<String>)
    ensures
        opt_chars(r) == tilde_expansion(path@, opt_chars(*home)),
{
    let p = chars_of(path);
    let home_ok = match home {
        Some(h) => h.unicode_len() > 0,
        None => false,
    };
    if p.len() == 1 && p[0] == '~' {
        assert(p@ =~= seq!['~']);
        if home_ok {
            return copy_opt(home);
        } else {
            return None;
        }
    }
    assert(p@ != seq!['~']);
    let tilde_slash = p.len() >= 2 && p[0] == '~' && p[1] == '/';
    proof {
        if tilde_slash {
            assert(p@.subrange(0, 2) =~= seq!['~', '/']);
        } else if has_prefix(p@, seq!['~', '/']) {
            assert(p@.subrange(0, 2)[0] == '~');
            assert(p@.subrange(0, 2)[1] == '/');
        }
    }
    if tilde_slash {
        match home {
            Some(h) => {
                if home_ok {
                    let rest = path.substring_char(2, p.len());
                    Some(join_path(h.as_str(), rest))
                } else {
                    None
                }
            },
            None => None,
        }
    } else {
        Some(owned(path))
    }
}

/// The canonical form of `path`, resolving symlinks, when it exists.
///
/// Calls `std::path::Path::canonicalize`. What it returns depends on the file
/// system at the time of the call, so nothing is claimed about the result here;
/// its form differs between platforms (a `\\?\` prefix on Windows), which is
/// why [`canonical_path`] checks it.
#[verifier::external_body]
fn canonicalize(path: &str) -> (r: Option<String>) {
    std::path::Path::new(path).canonicalize().ok().map(|p| p.to_string_lossy().into_owned())
}

/// The canonical form of `path` as the file system resolves it, kept only when
/// it begins at the root: an answer in any other form counts as no answer, so
/// nothing resolved here is ever a relative path.
pub fn canonical_path(path: &str) -> (r: Option<String>)
    ensures
        r matches Some(c) ==> path_rooted(c@),
{
    match canonicalize(path) {
        Some(found) => {
            let fc = chars_of(found.as_str());
            if fc.len() > 0 && fc[0] == '/' {
                Some(found)
            } else {
                None
            }
        },
        None => None,
    }
}

/// Every answer that is there begins at the root.
pub open spec fn answers_rooted(answers: Seq<Option<Seq<char>>>) -> bool {
    forall|k: int|
        0 <= k < answers.len() && (#[trigger] answers[k]) is Some ==> path_rooted(
            answers[k].unwrap(),
        )
}

/// Every list of answers holds only answers that begin at the root.
pub open spec fn all_answers_rooted(ra: Seq<Seq<Option<Seq<char>>>>) -> bool {
    forall|i: int| 0 <= i < ra.len() ==> answers_rooted(#[trigger] ra[i])
}

/// `c` with the components of `tail` joined on, one after another.
pub open spec fn rebuilt(c: Seq<char>, tail: Seq<Seq<char>>) -> Seq<char>
    decreases tail.len(),
{
    if tail.len() == 0 {
        c
    } else {
        path_join(rebuilt(c, tail.drop_last()), tail.last())
    }
}

/// The path handed to the file system to resolve the ancestor of `p` made of
/// its first `k` components.
pub open spec fn prefix_candidate(p: Seq<char>, k: int) -> Seq<char> {
    render_path(path_rooted(p), path_components(p).subrange(0, k))
}

/// Optional strings, as values.
pub open spec fn answer_views(a: Seq<Option<String>>) -> Seq<Option<Seq<char>>> {
    a.map_values(|o: Option<String>| opt_chars(o))
}

/// The deepest position at `k` or above it that has an answer.
pub open spec fn deepest_answer(answers: Seq<Option<Seq<char>>>, k: int) -> Option<int>
    decreases k + 1,
{
    if k < 0 {
        None
    } else if answers[k] is Some {
        Some(k)
    } else {
        deepest_answer(answers, k - 1)
    }
}

/// The path `p` resolves to, given the file system's answers for its
/// ancestors: `answers[k]` is the canonical form of [`prefix_candidate`]`(p, k)`,
/// or `None` where that ancestor could not be resolved (or was not asked
/// about). The deepest resolved ancestor wins, and the components below it are
/// joined back on; with no resolved ancestor, `p` normalised lexically stands.
pub open spec fn rebuilt_from_answers(p: Seq<char>, answers: Seq<Option<Seq<char>>>) -> Seq<char> {
    let cs = path_components(p);
    match deepest_answer(answers, cs.len() as int) {
        Some(k) => rebuilt(answers[k].unwrap(), cs.subrange(k, cs.len() as int)),
        None => normalized_path(p),
    }
}

/// The path `path` resolves to, given what the file system answered for each
/// of its ancestors (see [`rebuilt_from_answers`]): one answer per ancestor,
/// from the root (no components) to the path itself (all of them).
pub fn rebuild_from_answers(path: &str, answers: &Vec<Option<String>>) -> (r: String)
    requires
        answers.len() == path_components(path@).len() + 1,
    ensures
        r@ == rebuilt_from_answers(path@, answer_views(answers@)),
{
    let s = chars_of(path);
    let cs = split_components(&s);
    let ghost comps = seqs_of(cs@);
    let ghost av = answer_views(answers@);
    assert(comps == path_components(path@));
    let n = cs.len();
    let mut k: usize = n;
    loop
        invariant
            k <= n,
            n == cs.len(),
            comps == seqs_of(cs@),
            comps == path_components(path@),
            answers.len() == n + 1,
            av == answer_views(answers@),
            deepest_answer(av, n as int) == deepest_answer(av, k as int),
        decreases k,
    {
        assert(av[k as int] == opt_chars(answers@[k as int]));
        match &answers[k] {
            Some(found) => {
                let ghost base = found@;
                let mut out = found.clone();
                let mut t: usize = k;
                assert(comps.subrange(k as int, k as int) =~= Seq::<Seq<char>>::empty());
                while t < n
                    invariant
                        k <= t <= n,
                        n == cs.len(),
                        comps == seqs_of(cs@),
                        out@ == rebuilt(base, comps.subrange(k as int, t as int)),
                    decreases n - t,
                {
                    let part = crate::text::string_from(&cs[t]);
                    assert(part@ == comps[t as int]);
                    assert(comps.subrange(k as int, t + 1).drop_last() =~= comps.subrange(
                        k as int,
                        t as int,
                    ));
                    out = join_path(out.as_str(), part.as_str());
                    t = t + 1;
                }
                return out;
            },
            None => {
                if k == 0 {
                    assert(deepest_answer(av, -1) is None);
                    return lexical_normalize(path);
                }
                k = k - 1;
            },
        }
    }
}

/// Components joined onto a path that begins at the root leave it beginning at
/// the root.
proof fn lemma_rebuilt_rooted(c: Seq<char>, tail: Seq<Seq<char>>)
    requires
        path_rooted(c),
    ensures
        path_rooted(rebuilt(c, tail)),
    decreases tail.len(),
{
    if tail.len() > 0 {
        lemma_rebuilt_rooted(c, tail.drop_last());
        crate::paths::lemma_join_keeps_rooted(rebuilt(c, tail.drop_last()), tail.last());
    }
}

/// A path that begins at the root, resolved from answers that all begin at
/// the root, begins at the root.
proof fn lemma_rooted_answers_rebuild_rooted(p: Seq<char>, answers: Seq<Option<Seq<char>>>)
    requires
        answers.len() == path_components(p).len() + 1,
        answers_rooted(answers),
        path_rooted(p),
    ensures
        path_rooted(rebuilt_from_answers(p, answers)),
{
    let cs = path_components(p);
    lemma_deepest_answer(answers, cs.len() as int);
    match deepest_answer(answers, cs.len() as int) {
        Some(k) => {
            assert(answers[k] is Some);
            lemma_rebuilt_rooted(answers[k].unwrap(), cs.subrange(k, cs.len() as int));
        },
        None => {
            crate::paths::lemma_normalized_path_parts(p);
        },
    }
}

/// `answer` is what the file system gave back, through [`canonical_path`], when
/// asked to resolve `candidate`.
pub open spec fn file_system_answered(candidate: Seq<char>, answer: Option<Seq<char>>) -> bool {
    exists|asked: &str, given: Option<String>|
        asked@ == candidate && #[trigger] call_ensures(canonical_path, (asked,), given) && opt_chars(
            given,
        ) == answer
}

/// The answers for the ancestors of `p` were gathered from the path itself
/// upwards, stopping at the first one the file system resolved: every position
/// from the deepest resolved one (from the root, when none resolved) up to the
/// path itself holds what the file system answered for that ancestor. So each
/// ancestor below the path and above the one that decides was asked about and
/// could not be resolved.
pub open spec fn asked_from_the_path_upwards(p: Seq<char>, answers: Seq<Option<Seq<char>>>) -> bool {
    let n = path_components(p).len() as int;
    let lowest = match deepest_answer(answers, n) {
        Some(d) => d,
        None => 0,
    };
    forall|k: int|
        lowest <= k <= n ==> file_system_answered(prefix_candidate(p, k), #[trigger] answers[k])
}

proof fn lemma_deepest_skips_none(answers: Seq<Option<Seq<char>>>, n: int, k: int)
    requires
        -1 <= k <= n < answers.len(),
        forall|j: int| k < j <= n ==> (#[trigger] answers[j]) is None,
    ensures
        deepest_answer(answers, n) == deepest_answer(answers, k),
    decreases n - k,
{
    if n > k {
        lemma_deepest_skips_none(answers, n - 1, k);
    }
}

/// Canonicalize the deepest ancestor that exists, then re-append the rest.
///
/// Plain canonicalization fails for paths that do not exist yet, which is the
/// normal case for `write` and `mkdir`. Resolving the existing prefix still
/// defeats symlinks that would otherwise escape an allowed root. The ancestors
/// are asked about from the path itself upwards, and the first one the file
/// system resolves decides (see [`rebuilt_from_answers`]); when none resolves,
/// the lexically normalised path is used. What each answer is depends on the
/// file system.
fn canonicalize_existing_prefix(path: &str) -> (r: String)
    ensures
        exists|answers: Seq<Option<Seq<char>>>|
            answers.len() == path_components(path@).len() + 1 && answers_rooted(answers)
                && asked_from_the_path_upwards(path@, answers) && r@
                == #[trigger] rebuilt_from_answers(path@, answers),
        path_rooted(path@) ==> path_rooted(r@),
{
    let s = chars_of(path);
    let rooted = s.len() > 0 && s[0] == '/';
    let cs = split_components(&s);
    let ghost comps = seqs_of(cs@);
    assert(comps == path_components(path@));
    let n = cs.len();
    let mut answers: Vec<Option<String>> = Vec::new();
    answers.push(None);
    let mut i: usize = 0;
    while i < n
        invariant
            i <= n,
            answers.len() == i + 1,
            forall|j: int| 0 <= j < answers.len() ==> (#[trigger] answers@[j]) is None,
        decreases n - i,
    {
        answers.push(None);
        i = i + 1;
    }
    let mut k: usize = n;
    loop
        invariant
            k <= n,
            n == cs.len(),
            comps == seqs_of(cs@),
            comps == path_components(path@),
            rooted == path_rooted(path@),
            answers.len() == n + 1,
            answers_rooted(answer_views(answers@)),
            forall|j: int|
                k < j <= n ==> (#[trigger] answer_views(answers@)[j]) is None
                    && file_system_answered(prefix_candidate(path@, j), answer_views(answers@)[j]),
        ensures
            answers.len() == n + 1,
            answers_rooted(answer_views(answers@)),
            asked_from_the_path_upwards(path@, answer_views(answers@)),
        decreases k,
    {
        let mut prefix: Vec<Vec<char>> = Vec::new();
        let mut j: usize = 0;
        assert(comps.subrange(0, 0) =~= Seq::<Seq<char>>::empty());
        while j < k
            invariant
                j <= k <= n,
                n == cs.len(),
                comps == seqs_of(cs@),
                seqs_of(prefix@) == comps.subrange(0, j as int),
            decreases k - j,
        {
            let ghost before = seqs_of(prefix@);
            prefix.push(crate::paths::copy_chars(&cs[j]));
            assert(seqs_of(prefix@) =~= before.push(comps[j as int]));
            assert(comps.subrange(0, j + 1) =~= comps.subrange(0, j as int).push(comps[j as int]));
            j = j + 1;
        }
        let candidate = crate::text::string_from(&render(rooted, &prefix));
        assert(candidate@ == prefix_candidate(path@, k as int));
        let asked = candidate.as_str();
        let answer = canonical_path(asked);
        let ghost given = answer;
        assert(call_ensures(canonical_path, (asked,), given));
        assert(file_system_answered(prefix_candidate(path@, k as int), opt_chars(given)));
        let resolved = answer.is_some();
        let ghost before = answer_views(answers@);
        answers.set(k, answer);
        assert(answer_views(answers@) =~= before.update(k as int, opt_chars(given)));
        if resolved || k == 0 {
            proof {
                let av = answer_views(answers@);
                lemma_deepest_skips_none(av, n as int, k as int);
                if !resolved {
                    assert(deepest_answer(av, -1) is None);
                }
                assert forall|j: int|
                    (match deepest_answer(av, n as int) {
                        Some(d) => d,
                        None => 0,
                    }) <= j <= n implies file_system_answered(
                    prefix_candidate(path@, j),
                    #[trigger] av[j],
                ) by {
                    if j == k {
                    }
                }
            }
            break;
        }
        k = k - 1;
    }
    let r = rebuild_from_answers(path, &answers);
    assert(answer_views(answers@).len() == path_components(path@).len() + 1);
    proof {
        if rooted {
            lemma_rooted_answers_rebuild_rooted(path@, answer_views(answers@));
        }
    }
    r
}

/// A path resolves through the deepest of its ancestors that the file system
/// could resolve: when the answers were gathered from the path upwards, the
/// ancestor of the first `k` components resolved to `c`, and no deeper one (the
/// path itself included) did, then the file system was asked about every deeper
/// ancestor and could not resolve it, `c` is its answer for that ancestor, and
/// the path resolves to `c` with the remaining components joined back on — not
/// to the path as written, even though the path itself does not exist.
pub proof fn law_the_deepest_resolved_ancestor_decides(
    p: Seq<char>,
    answers: Seq<Option<Seq<char>>>,
    k: int,
    c: Seq<char>,
)
    requires
        answers.len() == path_components(p).len() + 1,
        asked_from_the_path_upwards(p, answers),
        0 <= k <= path_components(p).len(),
        answers[k] == Some(c),
        forall|j: int| k < j <= path_components(p).len() ==> (#[trigger] answers[j]) is None,
    ensures
        file_system_answered(prefix_candidate(p, k), Some(c)),
        forall|j: int|
            k < j <= path_components(p).len() ==> file_system_answered(
                #[trigger] prefix_candidate(p, j),
                None,
            ),
        rebuilt_from_answers(p, answers) == rebuilt(
            c,
            path_components(p).subrange(k, path_components(p).len() as int),
        ),
{
    let n = path_components(p).len() as int;
    lemma_deepest_skips_none(answers, n, k);
    assert forall|j: int| k < j <= n implies file_system_answered(
        #[trigger] prefix_candidate(p, j),
        None,
    ) by {
        assert(answers[j] is None);
        assert(file_system_answered(prefix_candidate(p, j), answers[j]));
    }
}

/// Message for a path that is empty or only white space.
pub open spec fn empty_path_message() -> Seq<char> {
    "Filesystem path is empty"@
}

/// Message when the filesystem bridge has nowhere it may go.
pub open spec fn no_roots_message() -> Seq<char> {
    "Filesystem bridge has no allowed roots configured"@
}

/// Message when `~` cannot be expanded.
pub open spec fn no_home_message() -> Seq<char> {
    "Could not expand '~': no home directory found"@
}

/// Message for a path that is neither absolute nor starts with `~`.
pub open spec fn relative_path_message(raw: Seq<char>) -> Seq<char> {
    "Filesystem path must be absolute or start with '~': "@ + raw
}

/// Message for a path with a protected component.
pub open spec fn protected_message(raw: Seq<char>) -> Seq<char> {
    "Refused: '"@ + raw + "' touches a protected location"@
}

/// Message for a path outside every allowed root.
pub open spec fn outside_roots_message(raw: Seq<char>) -> Seq<char> {
    "Refused: '"@ + raw + "' is outside the allowed filesystem roots"@
}

/// `p` is one of the roots or lies underneath one.
pub open spec fn in_some_root(p: Seq<char>, roots: Seq<Seq<char>>) -> bool {
    exists|i: int| 0 <= i < roots.len() && path_within(p, #[trigger] roots[i])
}

/// `a`, then `b`, then `c`, as one string.
pub fn concat3(a: &str, b: &str, c: &str) -> (r: String)
    ensures
        r@ == a@ + b@ + c@,
{
    let mut r = owned(a);
    r.append(b);
    r.append(c);
    r
}

/// The answer for a path that resolved to `q`, checked against roots that
/// resolved to `rr`: refused when `q` has a protected component; `q` itself
/// when it is one of the roots or lies underneath one; refused otherwise.
pub open spec fn scope_verdict(
    raw: Seq<char>,
    q: Seq<char>,
    rr: Seq<Seq<char>>,
    r: Result<String, String>,
) -> bool {
    if path_is_denied(q) {
        is_err_with(r, protected_message(raw))
    } else if in_some_root(q, rr) {
        r matches Ok(p) && p@ == q
    } else {
        is_err_with(r, outside_roots_message(raw))
    }
}

/// The last step of scoping a path: refuse protected locations, then accept it
/// only if it is one of the (already resolved) roots or lies underneath one.
pub fn check_in_scope(raw: &str, resolved: &str, roots: &Vec<String>) -> (r: Result<
    String,
    String,
>)
    ensures
        scope_verdict(raw@, resolved@, strings_of(roots@), r),
{
    if is_denied(resolved) {
        let m = concat3("Refused: '", raw, "' touches a protected location");
        return Err(m);
    }
    let p = chars_of(resolved);
    let mut i: usize = 0;
    while i < roots.len()
        invariant
            i <= roots.len(),
            p@ == resolved@,
            !path_is_denied(resolved@),
            forall|j: int| 0 <= j < i ==> !path_within(resolved@, #[trigger] strings_of(roots@)[j]),
        decreases roots.len() - i,
    {
        let root = chars_of(roots[i].as_str());
        assert(strings_of(roots@)[i as int] == roots@[i as int]@);
        if within(&p, &root) {
            return Ok(owned(resolved));
        }
        i = i + 1;
    }
    Err(concat3("Refused: '", raw, "' is outside the allowed filesystem roots"))
}

/// There is one list of answers for each root, one answer per ancestor of the
/// normalised root.
pub open spec fn root_answers_fit(roots: Seq<Seq<char>>, ra: Seq<Seq<Option<Seq<char>>>>) -> bool {
    &&& ra.len() == roots.len()
    &&& forall|i: int|
        0 <= i < roots.len() ==> (#[trigger] ra[i]).len() == path_components(
            normalized_path(roots[i]),
        ).len() + 1
}

/// The answers for each root were gathered as [`asked_from_the_path_upwards`]
/// says, for the normalised root.
pub open spec fn roots_asked_upwards(roots: Seq<Seq<char>>, ra: Seq<Seq<Option<Seq<char>>>>) -> bool {
    forall|i: int|
        0 <= i < roots.len() ==> asked_from_the_path_upwards(
            normalized_path(roots[i]),
            #[trigger] ra[i],
        )
}

/// Each root, normalised and resolved with its answers (see
/// [`rebuilt_from_answers`]).
pub open spec fn roots_resolved_with(
    roots: Seq<Seq<char>>,
    ra: Seq<Seq<Option<Seq<char>>>>,
) -> Seq<Seq<char>> {
    Seq::new(roots.len(), |i: int| rebuilt_from_answers(normalized_path(roots[i]), ra[i]))
}

/// What scoping `raw` against `roots` answers. An empty path, an empty root
/// list, a `~` with no home and a relative path are refused, in that order,
/// each with its own message. Otherwise the expanded path and the roots are
/// normalised and resolved from what the file system answers for their
/// ancestors (see [`rebuilt_from_answers`]; every answer begins at the root,
/// and the answers were gathered from each path upwards, see
/// [`asked_from_the_path_upwards`]), and the resolved path is checked against
/// the resolved roots (see [`scope_verdict`]).
pub open spec fn scoping_answers(
    raw: Seq<char>,
    roots: Seq<Seq<char>>,
    home: Option<Seq<char>>,
    r: Result<String, String>,
) -> bool {
    if trim(raw).len() == 0 {
        is_err_with(r, empty_path_message())
    } else if roots.len() == 0 {
        is_err_with(r, no_roots_message())
    } else {
        match tilde_expansion(raw, home) {
            None => is_err_with(r, no_home_message()),
            Some(x) => if !path_rooted(x) {
                is_err_with(r, relative_path_message(raw))
            } else {
                exists|qa: Seq<Option<Seq<char>>>, ra: Seq<Seq<Option<Seq<char>>>>|
                    qa.len() == path_components(normalized_path(x)).len() + 1 && answers_rooted(qa)
                        && asked_from_the_path_upwards(normalized_path(x), qa) && root_answers_fit(
                        roots,
                        ra,
                    ) && all_answers_rooted(ra) && roots_asked_upwards(roots, ra)
                        && #[trigger] scope_verdict(
                        raw,
                        rebuilt_from_answers(normalized_path(x), qa),
                        roots_resolved_with(roots, ra),
                        r,
                    )
            },
        }
    }
}

/// Resolve a bridge-supplied path and confirm it stays inside an allowed root.
///
/// `home` is the home directory used for a leading `~`. The path and each root
/// are normalised lexically, and then resolved against the file system: the
/// deepest existing ancestor is canonicalized, so `..` and symlinks cannot walk
/// out of a root. Returns the resolved absolute path, or an error describing why
/// it was refused.
pub fn resolve_in_scope(raw: &str, roots: &Vec<String>, home: &Option<String>) -> (r: Result<
    String,
    String,
>)
    ensures
        scoping_answers(raw@, strings_of(roots@), opt_chars(*home), r),
        r matches Ok(p) ==> path_rooted(p@) && !path_is_denied(p@),
{
    let raw_chars = chars_of(raw);
    let trimmed = trim_chars(&raw_chars);
    if trimmed.len() == 0 {
        return Err(owned("Filesystem path is empty"));
    }
    if roots.len() == 0 {
        return Err(owned("Filesystem bridge has no allowed roots configured"));
    }
    let expanded = match expand_tilde(raw, home) {
        Some(x) => x,
        None => return Err(owned("Could not expand '~': no home directory found")),
    };
    let ex = chars_of(expanded.as_str());
    if !(ex.len() > 0 && ex[0] == '/') {
        let mut m = owned("Filesystem path must be absolute or start with '~': ");
        m.append(raw);
        return Err(m);
    }
    let normal = lexical_normalize(expanded.as_str());
    let resolved = canonicalize_existing_prefix(normal.as_str());
    let ghost qa = choose|a: Seq<Option<Seq<char>>>|
        a.len() == path_components(normal@).len() + 1 && answers_rooted(a)
            && asked_from_the_path_upwards(normal@, a) && resolved@ == #[trigger] rebuilt_from_answers(
            normal@,
            a,
        );
    let ghost all = strings_of(roots@);
    let ghost mut ra: Seq<Seq<Option<Seq<char>>>> = Seq::empty();
    let mut rr: Vec<String> = Vec::new();
    let mut i: usize = 0;
    while i < roots.len()
        invariant
            i <= roots.len(),
            all == strings_of(roots@),
            rr@.len() == i,
            ra.len() == i,
            forall|j: int|
                0 <= j < i ==> (#[trigger] ra[j]).len() == path_components(
                    normalized_path(all[j]),
                ).len() + 1 && answers_rooted(ra[j]) && asked_from_the_path_upwards(
                    normalized_path(all[j]),
                    ra[j],
                ) && strings_of(rr@)[j] == rebuilt_from_answers(normalized_path(all[j]), ra[j]),
        decreases roots.len() - i,
    {
        let root_normal = lexical_normalize(roots[i].as_str());
        let root = canonicalize_existing_prefix(root_normal.as_str());
        assert(all[i as int] == roots@[i as int]@);
        proof {
            let a = choose|a: Seq<Option<Seq<char>>>|
                a.len() == path_components(root_normal@).len() + 1 && answers_rooted(a)
                    && asked_from_the_path_upwards(root_normal@, a) && root@
                    == #[trigger] rebuilt_from_answers(root_normal@, a);
            ra = ra.push(a);
        }
        let ghost before = strings_of(rr@);
        rr.push(root);
        assert(strings_of(rr@) =~= before.push(rr@[i as int]@));
        i = i + 1;
    }
    let r = check_in_scope(raw, resolved.as_str(), &rr);
    assert(strings_of(rr@) =~= roots_resolved_with(all, ra));
    assert(root_answers_fit(all, ra));
    assert(all_answers_rooted(ra));
    assert(roots_asked_upwards(all, ra));
    assert(scope_verdict(
        raw@,
        rebuilt_from_answers(normalized_path(expanded@), qa),
        roots_resolved_with(all, ra),
        r,
    ));
    proof {
        law_scoped_paths_stay_inside_a_root(raw@, all, opt_chars(*home), r);
    }
    r
}

/// The roots one entry of the configuration contributes: its expansion, when
/// that is an absolute path.
pub open spec fn configured_root(root: Seq<char>, home: Option<Seq<char>>) -> Seq<Seq<char>> {
    match tilde_expansion(root, home) {
        Some(x) => if path_rooted(x) {
            seq![x]
        } else {
            Seq::empty()
        },
        None => Seq::empty(),
    }
}

/// The expanded, absolute entries of `roots`, in order.
pub open spec fn configured_roots(roots: Seq<Seq<char>>, home: Option<Seq<char>>) -> Seq<
    Seq<char>,
>
    decreases roots.len(),
{
    if roots.len() == 0 {
        Seq::empty()
    } else {
        configured_roots(roots.drop_last(), home) + configured_root(roots.last(), home)
    }
}

/// Allowed filesystem roots for the current configuration.
///
/// An empty `allowed_roots` means "app data directory only" — the bridge is
/// closed by default and the app opts into wider access explicitly. Otherwise
/// each configured root is expanded (see [`expand_tilde`]) and kept when absolute.
pub fn allowed_roots(
    app_data_dir: Option<String>,
    config: &FilesystemConfig,
    home: &Option<String>,
) -> (r: Vec<String>)
    ensures
        config.allowed_roots@.len() == 0 ==> strings_of(r@) == match opt_chars(app_data_dir) {
            Some(d) => seq![d],
            None => Seq::<Seq<char>>::empty(),
        },
        config.allowed_roots@.len() != 0 ==> strings_of(r@) == configured_roots(
            strings_of(config.allowed_roots@),
            opt_chars(*home),
        ),
{
    let mut out: Vec<String> = Vec::new();
    if config.allowed_roots.len() == 0 {
        match app_data_dir {
            Some(d) => {
                out.push(d);
            },
            None => {},
        }
        assert(strings_of(out@) =~= match opt_chars(app_data_dir) {
            Some(d) => seq![d],
            None => Seq::<Seq<char>>::empty(),
        });
        return out;
    }
    let ghost all = strings_of(config.allowed_roots@);
    let mut i: usize = 0;
    assert(all.take(0) =~= Seq::<Seq<char>>::empty());
    assert(strings_of(out@) =~= configured_roots(all.take(0), opt_chars(*home)));
    while i < config.allowed_roots.len()
        invariant
            i <= config.allowed_roots.len(),
            all == strings_of(config.allowed_roots@),
            strings_of(out@) == configured_roots(all.take(i as int), opt_chars(*home)),
        decreases config.allowed_roots.len() - i,
    {
        let ghost before = strings_of(out@);
        assert(all.take(i + 1).drop_last() =~= all.take(i as int));
        assert(all.take(i + 1).last() == config.allowed_roots@[i as int]@);
        match expand_tilde(config.allowed_roots[i].as_str(), home) {
            Some(x) => {
                let xc = chars_of(x.as_str());
                if xc.len() > 0 && xc[0] == '/' {
                    out.push(x);
                    assert(strings_of(out@) =~= before + configured_root(
                        all.take(i + 1).last(),
                        opt_chars(*home),
                    ));
                } else {
                    assert(strings_of(out@) =~= before + configured_root(
                        all.take(i + 1).last(),
                        opt_chars(*home),
                    ));
                }
            },
            None => {
                assert(strings_of(out@) =~= before + configured_root(
                    all.take(i + 1).last(),
                    opt_chars(*home),
                ));
            },
        }
        i = i + 1;
    }
    assert(all.take(config.allowed_roots.len() as int) =~= all);
    out
}

/// Characters that let a single allowlisted command turn into several commands.
pub open spec fn is_shell_metachar(c: char) -> bool {
    c == ';' || c == '&' || c == '|' || c == '`' || c == '$' || c == '<' || c == '>' || c == '('
        || c == ')' || c == '\\' || c == '"' || c == '\'' || c == '\n' || c == '\r'
}

/// The first shell metacharacter in `s`, if any.
pub open spec fn first_metachar(s: Seq<char>) -> Option<char>
    decreases s.len(),
{
    if s.len() == 0 {
        None
    } else if is_shell_metachar(s[0]) {
        Some(s[0])
    } else {
        first_metachar(s.drop_first())
    }
}

/// The allowlist entry admits `command`: the trimmed entry is not empty, and the
/// command is that entry, or that entry followed by a space and arguments.
pub open spec fn entry_admits(entry: Seq<char>, command: Seq<char>) -> bool {
    let e = trim(entry);
    e.len() > 0 && (command == e || has_prefix(command, e + seq![' ']))
}

/// Some entry of the allowlist admits `command`.
pub open spec fn allowlist_admits(entries: Seq<Seq<char>>, command: Seq<char>) -> bool {
    exists|i: int| 0 <= i < entries.len() && entry_admits(#[trigger] entries[i], command)
}

/// Message when the sudo bridge is off.
pub open spec fn sudo_disabled_message() -> Seq<char> {
    "The sudo bridge is disabled. Enable it in turbo-desktop.config.json with \"sudo\": { \"enabled\": true, \"allowed_commands\": [...] }"@
}

/// Message for an empty command.
pub open spec fn sudo_empty_message() -> Seq<char> {
    "Sudo command is empty"@
}

/// Message for a command holding the metacharacter `c`.
pub open spec fn metachar_message(c: char) -> Seq<char> {
    "Refused: sudo command contains the shell metacharacter '"@ + seq![c] + "'"@
}

/// Message when sudo is on but names no commands.
pub open spec fn no_allowlist_message() -> Seq<char> {
    "Refused: no allowed_commands are configured for the sudo bridge"@
}

/// Message for a command the allowlist does not admit.
pub open spec fn not_allowlisted_message(command: Seq<char>) -> Seq<char> {
    "Refused: '"@ + command + "' is not in the sudo allowlist"@
}

/// Why a command may not run with administrator privileges, or `None` when it
/// may. The checks run in this order; the command is judged after trimming.
pub open spec fn sudo_refusal(enabled: bool, allowed: Seq<Seq<char>>, command: Seq<char>) -> Option<
    Seq<char>,
> {
    let cmd = trim(command);
    if !enabled {
        Some(sudo_disabled_message())
    } else if cmd.len() == 0 {
        Some(sudo_empty_message())
    } else if first_metachar(cmd) is Some {
        Some(metachar_message(first_metachar(cmd).unwrap()))
    } else if allowed.len() == 0 {
        Some(no_allowlist_message())
    } else if allowlist_admits(allowed, cmd) {
        None
    } else {
        Some(not_allowlisted_message(cmd))
    }
}

fn metachars() -> (v: Vec<char>)
    ensures
        forall|c: char| v@.contains(c) <==> is_shell_metachar(c),
{
    let v: Vec<char> = vec![';', '&', '|', '`', '$', '<', '>', '(', ')', '\\', '"', '\'', '\n', '\r'];
    assert forall|c: char| v@.contains(c) <==> is_shell_metachar(c) by {
        if is_shell_metachar(c) {
            if c == ';' { assert(v@[0] == c); }
            else if c == '&' { assert(v@[1] == c); }
            else if c == '|' { assert(v@[2] == c); }
            else if c == '`' { assert(v@[3] == c); }
            else if c == '$' { assert(v@[4] == c); }
            else if c == '<' { assert(v@[5] == c); }
            else if c == '>' { assert(v@[6] == c); }
            else if c == '(' { assert(v@[7] == c); }
            else if c == ')' { assert(v@[8] == c); }
            else if c == '\\' { assert(v@[9] == c); }
            else if c == '"' { assert(v@[10] == c); }
            else if c == '\'' { assert(v@[11] == c); }
            else if c == '\n' { assert(v@[12] == c); }
            else { assert(v@[13] == c); }
        }
    }
    v
}

fn find_metachar(s: &Vec<char>) -> (r: Option<char>)
    ensures
        r == first_metachar(s@),
{
    let meta = metachars();
    let n = s.len();
    let mut i: usize = 0;
    assert(s@.subrange(0, n as int) =~= s@);
    while i < n
        invariant
            n == s@.len(),
            i <= n,
            forall|c: char| meta@.contains(c) <==> is_shell_metachar(c),
            first_metachar(s@.subrange(i as int, n as int)) == first_metachar(s@),
        decreases n - i,
    {
        assert(s@.subrange(i as int, n as int).drop_first() =~= s@.subrange(i + 1, n as int));
        assert(s@.subrange(i as int, n as int)[0] == s@[i as int]);
        if char_in(s[i], &meta) {
            return Some(s[i]);
        }
        i = i + 1;
    }
    None
}

fn entry_admits_exec(entry: &str, command: &Vec<char>) -> (b: bool)
    ensures
        b == entry_admits(entry@, command@),
{
    let e = trim_chars(&chars_of(entry));
    if e.len() == 0 {
        return false;
    }
    if chars_equal(command, &e) {
        return true;
    }
    let mut with_space = crate::paths::copy_chars(&e);
    with_space.push(' ');
    assert(with_space@ =~= e@ + seq![' ']);
    starts_with_chars(command, &with_space)
}

/// Decide whether a command may run with administrator privileges.
///
/// Sudo is off unless the app turns it on and names the commands it needs.
/// Metacharacters are refused outright so an allowlisted prefix cannot be
/// extended into a second command.
pub fn authorize_sudo_command(config: &SudoConfig, command: &str) -> (r: Result<(), String>)
    ensures
        r is Ok <==> sudo_refusal(
            config.enabled,
            strings_of(config.allowed_commands@),
            command@,
        ) is None,
        r matches Err(e) ==> sudo_refusal(
            config.enabled,
            strings_of(config.allowed_commands@),
            command@,
        ) == Some(e@),
{
    if !config.enabled {
        return Err(owned(
            "The sudo bridge is disabled. Enable it in turbo-desktop.config.json with \"sudo\": { \"enabled\": true, \"allowed_commands\": [...] }",
        ));
    }
    let cmd = trim_chars(&chars_of(command));
    if cmd.len() == 0 {
        return Err(owned("Sudo command is empty"));
    }
    if let Some(found) = find_metachar(&cmd) {
        let mut m = owned("Refused: sudo command contains the shell metacharacter '");
        crate::text::push_char(&mut m, found);
        m.append("'");
        return Err(m);
    }
    if config.allowed_commands.len() == 0 {
        return Err(owned("Refused: no allowed_commands are configured for the sudo bridge"));
    }
    let ghost entries = strings_of(config.allowed_commands@);
    let mut i: usize = 0;
    while i < config.allowed_commands.len()
        invariant
            i <= config.allowed_commands.len(),
            entries == strings_of(config.allowed_commands@),
            config.enabled,
            cmd@ == trim(command@),
            cmd@.len() > 0,
            first_metachar(cmd@) is None,
            config.allowed_commands@.len() > 0,
            forall|j: int| 0 <= j < i ==> !entry_admits(#[trigger] entries[j], cmd@),
        decreases config.allowed_commands.len() - i,
    {
        assert(entries[i as int] == config.allowed_commands@[i as int]@);
        if entry_admits_exec(config.allowed_commands[i].as_str(), &cmd) {
            assert(entry_admits(entries[i as int], cmd@));
            return Ok(());
        }
        i = i + 1;
    }
    let mut m = owned("Refused: '");
    push_all(&mut m, &cmd);
    m.append("' is not in the sudo allowlist");
    Err(m)
}

/// `candidate` shares scheme, host and port with the configured server.
pub open spec fn trusted_origin(server_url: Seq<char>, candidate: Seq<char>) -> bool {
    parsed_url(server_url) is Some && same_origin(parsed_url(server_url).unwrap(), candidate)
}

/// True when `candidate` shares scheme, host and port with the configured server.
///
/// The webview loads a remote app, so the page origin — not the window label — is
/// what identifies trusted callers. A server URL that does not parse trusts nothing.
pub fn is_trusted_origin(server_url: &str, candidate: &WebUrl) -> (b: bool)
    ensures
        b == trusted_origin(server_url@, candidate@),
{
    match WebUrl::parse(server_url) {
        Ok(server) => server.same_origin_as(candidate),
        Err(_) => false,
    }
}

/// The page was served from the app's own bundle: Tauri's `tauri://localhost`,
/// or `http(s)://tauri.localhost` where the platform needs a web scheme. The
/// bundled error page is the only such page, and it may ask for a retry.
pub open spec fn bundled_origin(url: Seq<char>) -> bool {
    url_scheme(url) == "tauri"@ || url_host(url) == Some("tauri.localhost"@)
}

/// Whether `url` is a page of the app's own bundle.
pub fn is_bundled_app_origin(url: &WebUrl) -> (b: bool)
    ensures
        b == bundled_origin(url@),
{
    let scheme = url.scheme();
    if is_literal(scheme.as_str(), "tauri") {
        return true;
    }
    match url.host_str() {
        Some(h) => is_literal(h.as_str(), "tauri.localhost"),
        None => false,
    }
}

/// A caller the bridge answers: a page on the app's own origin, or (for the
/// commands the error page uses) a page of the app's bundle.
pub open spec fn trusted_caller(server_url: Seq<char>, page: Seq<char>, bundle_allowed: bool) -> bool {
    trusted_origin(server_url, page) || (bundle_allowed && bundled_origin(page))
}

/// Refuse a bridge call from any page but the app's own (or, where
/// `bundle_allowed`, its bundled pages). The page's origin, not the window it
/// sits in, identifies the caller, since the webview loads a remote app.
pub fn ensure_trusted_caller(server_url: &str, page: &WebUrl, bundle_allowed: bool) -> (r: Result<
    (),
    String,
>)
    ensures
        r is Ok <==> trusted_caller(server_url@, page@, bundle_allowed),
        r is Err ==> is_err_with(r, untrusted_caller_message(page@)),
{
    if is_trusted_origin(server_url, page) || (bundle_allowed && is_bundled_app_origin(page)) {
        Ok(())
    } else {
        Err(concat3("Refused: bridge call from untrusted origin '", page.as_str(), "'"))
    }
}

/// Message for a bridge call from a page the app does not trust.
pub open spec fn untrusted_caller_message(page: Seq<char>) -> Seq<char> {
    "Refused: bridge call from untrusted origin '"@ + page + "'"@
}

/// Where a link is opened.
#[derive(Debug, Clone, Copy, PartialEq, Eq, Structural)]
pub enum LinkDestination {
    /// Inside the app's own window.
    App,
    /// Handed to the operating system: the browser, or whichever app owns the scheme.
    SystemBrowser,
}

/// The host is one of the listed hosts, matched exactly.
pub open spec fn host_listed(host: Option<Seq<char>>, hosts: Seq<Seq<char>>) -> bool {
    host is Some && hosts.contains(host.unwrap())
}

/// Where a link goes: the app's own origin and the explicitly internal hosts stay
/// in the app; everything else leaves it.
pub open spec fn link_destination(
    server_url: Seq<char>,
    internal_hosts: Seq<Seq<char>>,
    url: Seq<char>,
) -> LinkDestination {
    if trusted_origin(server_url, url) || host_listed(url_host(url), internal_hosts) {
        LinkDestination::App
    } else {
        LinkDestination::SystemBrowser
    }
}

/// Decide whether a link opens inside the app or outside it.
///
/// Links to anywhere other than the app go to the system, the same way Hotwire
/// Native treats off-origin links. Hosts listed as internal (an OAuth provider,
/// say) render inside the app; matching is exact, so `example.com` admits
/// neither `evil-example.com` nor `sub.example.com`. Being internal is not the
/// same as being trusted: [`is_trusted_origin`] still answers only the app's origin.
pub fn destination_for(server_url: &str, internal_hosts: &Vec<String>, url: &WebUrl) -> (d:
    LinkDestination)
    ensures
        d == link_destination(server_url@, strings_of(internal_hosts@), url@),
{
    if is_trusted_origin(server_url, url) {
        return LinkDestination::App;
    }
    let host = url.host_str();
    match host {
        Some(h) => {
            let mut i: usize = 0;
            while i < internal_hosts.len()
                invariant
                    i <= internal_hosts.len(),
                    url_host(url@) == Some(h@),
                    !trusted_origin(server_url@, url@),
                    forall|j: int| 0 <= j < i ==> strings_of(internal_hosts@)[j] != h@,
                decreases internal_hosts.len() - i,
            {
                assert(strings_of(internal_hosts@)[i as int] == internal_hosts@[i as int]@);
                if internal_hosts[i] == h {
                    assert(strings_of(internal_hosts@).contains(h@));
                    return LinkDestination::App;
                }
                i = i + 1;
            }
            LinkDestination::SystemBrowser
        },
        None => LinkDestination::SystemBrowser,
    }
}

/// Pages on the app's origin are always opened inside it.
pub proof fn law_own_origin_stays_in_the_app(
    server_url: Seq<char>,
    internal_hosts: Seq<Seq<char>>,
    url: Seq<char>,
)
    requires
        trusted_origin(server_url, url),
    ensures
        link_destination(server_url, internal_hosts, url) == LinkDestination::App,
{
}

/// A host that is neither the app's nor listed — a look-alike such as
/// `evil-example.com` for a listed `example.com` included — leaves the app.
pub proof fn law_unlisted_hosts_leave_the_app(
    server_url: Seq<char>,
    internal_hosts: Seq<Seq<char>>,
    url: Seq<char>,
)
    requires
        !trusted_origin(server_url, url),
        !host_listed(url_host(url), internal_hosts),
    ensures
        link_destination(server_url, internal_hosts, url) == LinkDestination::SystemBrowser,
{
}

proof fn lemma_first_metachar(s: Seq<char>)
    ensures
        first_metachar(s) is Some <==> exists|i: int| 0 <= i < s.len() && is_shell_metachar(
            #[trigger] s[i],
        ),
    decreases s.len(),
{
    if s.len() > 0 {
        lemma_first_metachar(s.drop_first());
        if exists|i: int| 0 <= i < s.len() && is_shell_metachar(#[trigger] s[i]) {
            let i = choose|i: int| 0 <= i < s.len() && is_shell_metachar(#[trigger] s[i]);
            if i > 0 {
                assert(s.drop_first()[i - 1] == s[i]);
            }
        }
        if exists|i: int| 0 <= i < s.drop_first().len() && is_shell_metachar(
            #[trigger] s.drop_first()[i],
        ) {
            let i = choose|i: int|
                0 <= i < s.drop_first().len() && is_shell_metachar(#[trigger] s.drop_first()[i]);
            assert(s[i + 1] == s.drop_first()[i]);
        }
    }
}

/// A command that holds a shell metacharacter (`;`, `&&`, `|`, backticks,
/// `$(...)`, ...) is never run with administrator privileges, whatever the
/// allowlist says, so an allowed prefix cannot be extended into a second command.
pub proof fn law_metacharacters_are_always_refused(
    enabled: bool,
    allowed: Seq<Seq<char>>,
    command: Seq<char>,
    i: int,
)
    requires
        0 <= i < trim(command).len(),
        is_shell_metachar(trim(command)[i]),
    ensures
        sudo_refusal(enabled, allowed, command) is Some,
{
    lemma_first_metachar(trim(command));
}

/// Sudo is closed by default: a command runs with administrator privileges
/// only when the bridge is enabled and some allowlist entry admits the trimmed
/// command, whole or as a prefix ending at a space.
pub proof fn law_sudo_runs_only_what_is_enabled_and_listed(
    enabled: bool,
    allowed: Seq<Seq<char>>,
    command: Seq<char>,
)
    requires
        sudo_refusal(enabled, allowed, command) is None,
    ensures
        enabled,
        allowlist_admits(allowed, trim(command)),
        first_metachar(trim(command)) is None,
{
}

/// Rendering in the app is not the same as being trusted: a page on a listed
/// internal host stays in the app, but the bridge still refuses it.
pub proof fn law_internal_hosts_are_not_trusted(
    server_url: Seq<char>,
    internal_hosts: Seq<Seq<char>>,
    url: Seq<char>,
)
    requires
        host_listed(url_host(url), internal_hosts),
        !trusted_origin(server_url, url),
        !bundled_origin(url),
    ensures
        link_destination(server_url, internal_hosts, url) == LinkDestination::App,
        !trusted_caller(server_url, url, false),
        !trusted_caller(server_url, url, true),
{
}

/// Every path the filesystem bridge is handed back is safe to touch: it is
/// never a protected location, and, with the path and the roots resolved from
/// what the file system answered for their ancestors, it is the path resolved
/// and it is one of the resolved roots or lies underneath one — so `..` (gone
/// after normalising) and symlinks (resolved on both sides) cannot walk out of
/// a root. It is an absolute path, and so is every root it was checked against
/// that was configured as one.
pub proof fn law_scoped_paths_stay_inside_a_root(
    raw: Seq<char>,
    roots: Seq<Seq<char>>,
    home: Option<Seq<char>>,
    r: Result<String, String>,
)
    requires
        scoping_answers(raw, roots, home, r),
    ensures
        r matches Ok(p) ==> {
            &&& tilde_expansion(raw, home) is Some
            &&& !path_is_denied(p@)
            &&& path_rooted(p@)
            &&& exists|qa: Seq<Option<Seq<char>>>, ra: Seq<Seq<Option<Seq<char>>>>|
                #![trigger rebuilt_from_answers(normalized_path(tilde_expansion(raw, home).unwrap()), qa), roots_resolved_with(roots, ra)]
                root_answers_fit(roots, ra) && p@ == rebuilt_from_answers(
                    normalized_path(tilde_expansion(raw, home).unwrap()),
                    qa,
                ) && in_some_root(p@, roots_resolved_with(roots, ra)) && (forall|i: int|
                    0 <= i < roots.len() && path_rooted(#[trigger] roots[i]) ==> path_rooted(
                        roots_resolved_with(roots, ra)[i],
                    ))
        },
{
    if r is Ok && trim(raw).len() != 0 && roots.len() != 0 {
        let x = tilde_expansion(raw, home).unwrap();
        let (qa, ra) = choose|qa: Seq<Option<Seq<char>>>, ra: Seq<Seq<Option<Seq<char>>>>|
            qa.len() == path_components(normalized_path(x)).len() + 1 && answers_rooted(qa)
                && asked_from_the_path_upwards(normalized_path(x), qa) && root_answers_fit(
                roots,
                ra,
            ) && all_answers_rooted(ra) && roots_asked_upwards(roots, ra)
                && #[trigger] scope_verdict(
                raw,
                rebuilt_from_answers(normalized_path(x), qa),
                roots_resolved_with(roots, ra),
                r,
            );
        assert(root_answers_fit(roots, ra));
        let q = rebuilt_from_answers(normalized_path(x), qa);
        let rr = roots_resolved_with(roots, ra);
        assert(in_some_root(q, rr));
        crate::paths::lemma_normalized_path_parts(x);
        lemma_rooted_answers_rebuild_rooted(normalized_path(x), qa);
        assert forall|i: int|
            0 <= i < roots.len() && path_rooted(#[trigger] roots[i]) implies path_rooted(
            rr[i],
        ) by {
            assert(answers_rooted(ra[i]));
            assert(ra[i].len() == path_components(normalized_path(roots[i])).len() + 1);
            crate::paths::lemma_normalized_path_parts(roots[i]);
            lemma_rooted_answers_rebuild_rooted(normalized_path(roots[i]), ra[i]);
        }
    }
}

/// Whether a command may run as administrator depends on it only through its
/// trimmed form: white space added around it changes neither the verdict nor
/// the message.
pub proof fn law_sudo_ignores_surrounding_white_space(
    enabled: bool,
    allowed: Seq<Seq<char>>,
    w1: Seq<char>,
    command: Seq<char>,
    w2: Seq<char>,
)
    requires
        all_white_space(w1),
        all_white_space(w2),
    ensures
        sudo_refusal(enabled, allowed, w1 + command + w2) == sudo_refusal(enabled, allowed, command),
{
    crate::text::lemma_trim_ignores_surrounding_white_space(w1, command, w2);
}

/// The file system answers each ancestor of `p` it resolves with that
/// ancestor as written: nothing on the way is a symbolic link, and the path is
/// already in its canonical form.
pub open spec fn answered_as_written(p: Seq<char>, answers: Seq<Option<Seq<char>>>) -> bool {
    forall|k: int|
        0 <= k < answers.len() && (#[trigger] answers[k]) is Some ==> answers[k].unwrap()
            == prefix_candidate(p, k)
}

proof fn lemma_deepest_answer(answers: Seq<Option<Seq<char>>>, k: int)
    requires
        k < answers.len(),
    ensures
        deepest_answer(answers, k) matches Some(j) ==> 0 <= j <= k && answers[j] is Some,
    decreases k + 1,
{
    if k >= 0 && answers[k] is None {
        lemma_deepest_answer(answers, k - 1);
    }
}

proof fn lemma_rebuilt_as_written(x: Seq<char>, answers: Seq<Option<Seq<char>>>)
    requires
        answers.len() == path_components(normalized_path(x)).len() + 1,
        answered_as_written(normalized_path(x), answers),
    ensures
        rebuilt_from_answers(normalized_path(x), answers) == normalized_path(x),
{
    let np = normalized_path(x);
    let pc = path_components(np);
    crate::paths::lemma_normalized_path_parts(x);
    crate::paths::lemma_path_components_proper(np);
    lemma_deepest_answer(answers, pc.len() as int);
    match deepest_answer(answers, pc.len() as int) {
        Some(k) => {
            assert(answers[k].unwrap() == prefix_candidate(np, k));
            crate::paths::lemma_rebuilt_from_prefix(path_rooted(np), pc, k, pc.len() as int);
            assert(pc.subrange(0, pc.len() as int) =~= pc);
            crate::paths::lemma_path_components_proper(x);
            crate::paths::lemma_normalize_proper(path_components(x));
        },
        None => {},
    }
}

/// When nothing on the way is a symbolic link, the scope is decided on the
/// paths as written: whatever the file system was asked, the verdict is the one
/// for the normalised path against the normalised roots. So `..` cannot climb
/// out of a root — a path that normalises to somewhere outside every root is
/// refused — and a protected component is refused wherever it sits.
pub proof fn law_without_symlinks_the_written_paths_decide(
    raw: Seq<char>,
    x: Seq<char>,
    roots: Seq<Seq<char>>,
    qa: Seq<Option<Seq<char>>>,
    ra: Seq<Seq<Option<Seq<char>>>>,
    r: Result<String, String>,
)
    requires
        qa.len() == path_components(normalized_path(x)).len() + 1,
        answered_as_written(normalized_path(x), qa),
        root_answers_fit(roots, ra),
        forall|i: int|
            0 <= i < roots.len() ==> answered_as_written(normalized_path(roots[i]), #[trigger] ra[i]),
        scope_verdict(raw, rebuilt_from_answers(normalized_path(x), qa), roots_resolved_with(roots, ra), r),
    ensures
        scope_verdict(
            raw,
            normalized_path(x),
            roots.map_values(|root: Seq<char>| normalized_path(root)),
            r,
        ),
{
    lemma_rebuilt_as_written(x, qa);
    assert forall|i: int| 0 <= i < roots.len() implies roots_resolved_with(roots, ra)[i]
        == roots.map_values(|root: Seq<char>| normalized_path(root))[i] by {
        assert(ra[i].len() == path_components(normalized_path(roots[i])).len() + 1);
        assert(answered_as_written(normalized_path(roots[i]), ra[i]));
        lemma_rebuilt_as_written(roots[i], ra[i]);
    }
    assert(roots_resolved_with(roots, ra) =~= roots.map_values(|root: Seq<char>| normalized_path(root)));
}

} // verus!
