//! The library's model of a file-system path.
//!
//! Paths are `/`-separated strings. As `std::path::Path` reads them, a path is
//! rooted when it begins with `/`, and its components are the segments between
//! separators, with empty segments and `.` dropped; `..` is kept as a component.

use vstd::prelude::*;
use crate::text::{chars_of, chars_equal, join, push_all, push_char, string_from};

verus! {

/// The path begins at the root directory.
pub open spec fn path_rooted(s: Seq<char>) -> bool {
    s.len() > 0 && s[0] == '/'
}

/// `cur` added to `acc` as a component, unless it is empty or `.`.
pub open spec fn flush_segment(acc: Seq<Seq<char>>, cur: Seq<char>) -> Seq<Seq<char>> {
    if cur.len() == 0 || cur == seq!['.'] {
        acc
    } else {
        acc.push(cur)
    }
}

/// Components of `s`, reading left to right with `acc` already collected and
/// `cur` the segment in progress.
pub open spec fn scan_components(s: Seq<char>, acc: Seq<Seq<char>>, cur: Seq<char>) -> Seq<
    Seq<char>,
>
    decreases s.len(),
{
    if s.len() == 0 {
        flush_segment(acc, cur)
    } else if s[0] == '/' {
        scan_components(s.drop_first(), flush_segment(acc, cur), Seq::empty())
    } else {
        scan_components(s.drop_first(), acc, cur.push(s[0]))
    }
}

/// The components of the path `s`.
pub open spec fn path_components(s: Seq<char>) -> Seq<Seq<char>> {
    scan_components(s, Seq::empty(), Seq::empty())
}

/// The path with these components, rooted or not.
pub open spec fn render_path(rooted: bool, cs: Seq<Seq<char>>) -> Seq<char> {
    if rooted {
        seq!['/'] + join(cs, seq!['/'])
    } else {
        join(cs, seq!['/'])
    }
}

/// Components with `..` resolved against the ones before it; a `..` with
/// nothing left to remove is dropped.
pub open spec fn normalize_components(cs: Seq<Seq<char>>) -> Seq<Seq<char>>
    decreases cs.len(),
{
    if cs.len() == 0 {
        Seq::empty()
    } else {
        let prev = normalize_components(cs.drop_last());
        if cs.last() == seq!['.', '.'] {
            if prev.len() > 0 {
                prev.drop_last()
            } else {
                prev
            }
        } else {
            prev.push(cs.last())
        }
    }
}

/// `s` with `.` and `..` resolved without consulting the file system.
pub open spec fn normalized_path(s: Seq<char>) -> Seq<char> {
    render_path(path_rooted(s), normalize_components(path_components(s)))
}

/// `rel` appended to `base` as `PathBuf::join` does it: a rooted `rel`
/// replaces `base`, otherwise a separator is added when `base` lacks one.
pub open spec fn path_join(base: Seq<char>, rel: Seq<char>) -> Seq<char> {
    if path_rooted(rel) {
        rel
    } else if base.len() > 0 && base.last() != '/' {
        base + seq!['/'] + rel
    } else {
        base + rel
    }
}

/// The path without its last component, or `None` when it has none.
pub open spec fn path_parent(s: Seq<char>) -> Option<Seq<char>> {
    let cs = path_components(s);
    if cs.len() == 0 {
        None
    } else {
        Some(render_path(path_rooted(s), cs.drop_last()))
    }
}

/// Component-wise prefix: `p` is `root` or lies underneath it, as
/// `Path::starts_with` decides (equal paths included).
pub open spec fn path_within(p: Seq<char>, root: Seq<char>) -> bool {
    let pc = path_components(p);
    let rc = path_components(root);
    &&& path_rooted(p) == path_rooted(root)
    &&& rc.len() <= pc.len()
    &&& pc.subrange(0, rc.len() as int) == rc
}

/// The character sequences held by a vector of character vectors.
pub open spec fn seqs_of(v: Seq<Vec<char>>) -> Seq<Seq<char>> {
    v.map_values(|c: Vec<char>| c@)
}

/// A copy of the characters in `v`.
pub fn copy_chars(v: &Vec<char>) -> (r: Vec<char>)
    ensures
        r@ == v@,
{
    let mut r: Vec<char> = Vec::new();
    let mut i: usize = 0;
    while i < v.len()
        invariant
            i <= v.len(),
            r@ == v@.subrange(0, i as int),
        decreases v.len() - i,
    {
        r.push(v[i]);
        i = i + 1;
        assert(r@ =~= v@.subrange(0, i as int));
    }
    assert(r@ =~= v@);
    r
}

fn is_dot(v: &Vec<char>) -> (b: bool)
    ensures
        b == (v@ == seq!['.']),
{
    let r = v.len() == 1 && v[0] == '.';
    proof {
        if v@ == seq!['.'] {
            assert(v@.len() == 1);
        }
        if r {
            assert(v@ =~= seq!['.']);
        }
    }
    r
}

/// Whether `v` is the component `..`.
pub fn is_dot_dot(v: &Vec<char>) -> (b: bool)
    ensures
        b == (v@ == seq!['.', '.']),
{
    let r = v.len() == 2 && v[0] == '.' && v[1] == '.';
    proof {
        if v@ == seq!['.', '.'] {
            assert(v@.len() == 2);
        }
        if r {
            assert(v@ =~= seq!['.', '.']);
        }
    }
    r
}

fn flush_exec(acc: &mut Vec<Vec<char>>, cur: &Vec<char>)
    ensures
        seqs_of(final(acc)@) == flush_segment(seqs_of(old(acc)@), cur@),
{
    if cur.len() != 0 && !is_dot(cur) {
        let ghost before = seqs_of(acc@);
        acc.push(copy_chars(cur));
        assert(seqs_of(acc@) =~= before.push(cur@));
    }
}

/// The components of the path `s`.
pub fn split_components(s: &Vec<char>) -> (cs: Vec<Vec<char>>)
    ensures
        seqs_of(cs@) == path_components(s@),
{
    let n = s.len();
    let mut acc: Vec<Vec<char>> = Vec::new();
    let mut cur: Vec<char> = Vec::new();
    let mut i: usize = 0;
    assert(s@.subrange(0, n as int) =~= s@);
    assert(seqs_of(acc@) =~= Seq::<Seq<char>>::empty());
    while i < n
        invariant
            n == s@.len(),
            i <= n,
            scan_components(s@.subrange(i as int, n as int), seqs_of(acc@), cur@)
                == path_components(s@),
        decreases n - i,
    {
        let ghost rest = s@.subrange(i as int, n as int);
        assert(rest.drop_first() =~= s@.subrange(i + 1, n as int));
        if s[i] == '/' {
            flush_exec(&mut acc, &cur);
            cur = Vec::new();
            assert(cur@ =~= Seq::<char>::empty());
        } else {
            cur.push(s[i]);
        }
        i = i + 1;
    }
    flush_exec(&mut acc, &cur);
    acc
}

proof fn lemma_join_step(cs: Seq<Seq<char>>, k: int, sep: Seq<char>)
    requires
        0 <= k < cs.len(),
    ensures
        join(cs.take(k + 1), sep) == if k == 0 {
            cs[0]
        } else {
            join(cs.take(k), sep) + sep + cs[k]
        },
{
    assert(cs.take(k + 1).drop_last() =~= cs.take(k));
    assert(cs.take(k + 1).last() == cs[k]);
    if k == 0 {
        assert(cs.take(1).len() == 1);
    }
}

/// The text of the path with these components.
pub fn render(rooted: bool, cs: &Vec<Vec<char>>) -> (out: Vec<char>)
    ensures
        out@ == render_path(rooted, seqs_of(cs@)),
{
    let mut out: Vec<char> = Vec::new();
    if rooted {
        out.push('/');
    }
    let ghost lead: Seq<char> = if rooted {
        seq!['/']
    } else {
        Seq::empty()
    };
    assert(out@ =~= lead);
    let ghost dv = seqs_of(cs@);
    assert(dv.take(0) =~= Seq::<Seq<char>>::empty());
    assert(out@ =~= lead + join(dv.take(0), seq!['/']));
    let mut k: usize = 0;
    while k < cs.len()
        invariant
            k <= cs.len(),
            dv == seqs_of(cs@),
            out@ == lead + join(dv.take(k as int), seq!['/']),
        decreases cs.len() - k,
    {
        proof {
            lemma_join_step(dv, k as int, seq!['/']);
        }
        if k > 0 {
            out.push('/');
        }
        let ghost before = out@;
        let mut j: usize = 0;
        let comp = &cs[k];
        assert(comp@ == dv[k as int]);
        while j < comp.len()
            invariant
                j <= comp.len(),
                out@ == before + comp@.subrange(0, j as int),
            decreases comp.len() - j,
        {
            out.push(comp[j]);
            j = j + 1;
            assert(out@ =~= before + comp@.subrange(0, j as int));
        }
        assert(comp@.subrange(0, comp.len() as int) =~= comp@);
        k = k + 1;
        assert(out@ =~= lead + join(dv.take(k as int), seq!['/']));
    }
    assert(dv.take(cs.len() as int) =~= dv);
    out
}

/// Components with `..` resolved against the ones before it.
pub fn normalize(cs: &Vec<Vec<char>>) -> (out: Vec<Vec<char>>)
    ensures
        seqs_of(out@) == normalize_components(seqs_of(cs@)),
{
    let ghost dv = seqs_of(cs@);
    let mut out: Vec<Vec<char>> = Vec::new();
    let mut k: usize = 0;
    assert(dv.take(0) =~= Seq::<Seq<char>>::empty());
    assert(seqs_of(out@) =~= normalize_components(dv.take(0)));
    while k < cs.len()
        invariant
            k <= cs.len(),
            dv == seqs_of(cs@),
            seqs_of(out@) == normalize_components(dv.take(k as int)),
        decreases cs.len() - k,
    {
        let ghost prev = seqs_of(out@);
        assert(dv.take(k + 1).drop_last() =~= dv.take(k as int));
        assert(dv.take(k + 1).last() == dv[k as int]);
        assert(cs@[k as int]@ == dv[k as int]);
        if is_dot_dot(&cs[k]) {
            if out.len() > 0 {
                out.pop();
                assert(seqs_of(out@) =~= prev.drop_last());
            }
        } else {
            out.push(copy_chars(&cs[k]));
            assert(seqs_of(out@) =~= prev.push(dv[k as int]));
        }
        k = k + 1;
    }
    assert(dv.take(cs.len() as int) =~= dv);
    out
}

/// `s` with `.` and `..` resolved without consulting the file system.
pub fn lexical_normalize(path: &str) -> (r: String)
    ensures
        r@ == normalized_path(path@),
{
    let s = chars_of(path);
    let rooted = s.len() > 0 && s[0] == '/';
    let cs = split_components(&s);
    let n = normalize(&cs);
    string_from(&render(rooted, &n))
}

/// `rel` appended to `base` as `PathBuf::join` does it.
pub fn join_path(base: &str, rel: &str) -> (r: String)
    ensures
        r@ == path_join(base@, rel@),
{
    let b = chars_of(base);
    let r = chars_of(rel);
    if r.len() > 0 && r[0] == '/' {
        return string_from(&r);
    }
    let mut out = string_from(&b);
    if b.len() > 0 && b[b.len() - 1] != '/' {
        push_char(&mut out, '/');
    }
    push_all(&mut out, &r);
    out
}

/// The path without its last component, or `None` when it has none.
pub fn parent_path(path: &str) -> (r: Option<String>)
    ensures
        r matches Some(p) ==> path_parent(path@) == Some(p@),
        r is None ==> path_parent(path@) is None,
{
    let s = chars_of(path);
    let rooted = s.len() > 0 && s[0] == '/';
    let mut cs = split_components(&s);
    if cs.len() == 0 {
        return None;
    }
    let ghost full = seqs_of(cs@);
    cs.pop();
    assert(seqs_of(cs@) =~= full.drop_last());
    Some(string_from(&render(rooted, &cs)))
}

/// Whether `p` is `root` or lies underneath it, component by component.
pub fn within(p: &Vec<char>, root: &Vec<char>) -> (b: bool)
    ensures
        b == path_within(p@, root@),
{
    let p_rooted = p.len() > 0 && p[0] == '/';
    let r_rooted = root.len() > 0 && root[0] == '/';
    if p_rooted != r_rooted {
        return false;
    }
    let pc = split_components(p);
    let rc = split_components(root);
    if rc.len() > pc.len() {
        return false;
    }
    let ghost pd = seqs_of(pc@);
    let ghost rd = seqs_of(rc@);
    let mut i: usize = 0;
    while i < rc.len()
        invariant
            i <= rc.len() <= pc.len(),
            pd == seqs_of(pc@),
            rd == seqs_of(rc@),
            pd == path_components(p@),
            rd == path_components(root@),
            path_rooted(p@) == path_rooted(root@),
            forall|j: int| 0 <= j < i ==> pd[j] == rd[j],
        decreases rc.len() - i,
    {
        assert(pd[i as int] == pc@[i as int]@);
        assert(rd[i as int] == rc@[i as int]@);
        if !chars_equal(&pc[i], &rc[i]) {
            assert(pd.subrange(0, rd.len() as int)[i as int] != rd[i as int]);
            assert(pd.subrange(0, rd.len() as int) != rd);
            assert(!path_within(p@, root@));
            return false;
        }
        i = i + 1;
    }
    assert(pd.subrange(0, rd.len() as int) =~= rd);
    true
}

/// Lexical normalisation leaves no `..` behind: every `..` either removes the
/// component before it or, at the root, is dropped, so a normalised path cannot
/// climb above where it starts.
pub proof fn law_normalized_paths_have_no_parent_steps(cs: Seq<Seq<char>>)
    ensures
        forall|i: int|
            0 <= i < normalize_components(cs).len() ==> #[trigger] normalize_components(cs)[i]
                != seq!['.', '.'],
    decreases cs.len(),
{
    if cs.len() > 0 {
        law_normalized_paths_have_no_parent_steps(cs.drop_last());
        let prev = normalize_components(cs.drop_last());
        if cs.last() == seq!['.', '.'] {
            if prev.len() > 0 {
                assert forall|i: int| 0 <= i < prev.drop_last().len() implies #[trigger] prev.drop_last()[i]
                    != seq!['.', '.'] by {
                    assert(prev.drop_last()[i] == prev[i]);
                }
            }
        } else {
            assert forall|i: int| 0 <= i < prev.push(cs.last()).len() implies #[trigger] prev.push(
                cs.last(),
            )[i] != seq!['.', '.'] by {
                if i < prev.len() {
                    assert(prev.push(cs.last())[i] == prev[i]);
                }
            }
        }
    }
}

/// A component as `Path` yields one: not empty, not `.`, and free of `/`.
pub open spec fn proper_component(c: Seq<char>) -> bool {
    c.len() > 0 && c != seq!['.'] && !c.contains('/')
}

/// Every component is a proper one.
pub open spec fn proper_components(cs: Seq<Seq<char>>) -> bool {
    forall|i: int| 0 <= i < cs.len() ==> proper_component(#[trigger] cs[i])
}

proof fn lemma_scan_proper(s: Seq<char>, acc: Seq<Seq<char>>, cur: Seq<char>)
    requires
        proper_components(acc),
        !cur.contains('/'),
    ensures
        proper_components(scan_components(s, acc, cur)),
    decreases s.len(),
{
    let flushed = flush_segment(acc, cur);
    assert(proper_components(flushed)) by {
        if !(cur.len() == 0 || cur == seq!['.']) {
            assert forall|i: int| 0 <= i < flushed.len() implies proper_component(
                #[trigger] flushed[i],
            ) by {
                if i < acc.len() {
                    assert(flushed[i] == acc[i]);
                }
            }
        }
    }
    if s.len() > 0 {
        if s[0] == '/' {
            assert(!Seq::<char>::empty().contains('/'));
            lemma_scan_proper(s.drop_first(), flushed, Seq::empty());
        } else {
            assert(!cur.push(s[0]).contains('/')) by {
                if cur.push(s[0]).contains('/') {
                    let i = choose|i: int| 0 <= i < cur.push(s[0]).len() && cur.push(s[0])[i] == '/';
                    if i < cur.len() {
                        assert(cur[i] == '/');
                    }
                }
            }
            lemma_scan_proper(s.drop_first(), acc, cur.push(s[0]));
        }
    }
}

/// The components of any path are proper.
pub proof fn lemma_path_components_proper(s: Seq<char>)
    ensures
        proper_components(path_components(s)),
{
    lemma_scan_proper(s, Seq::empty(), Seq::empty());
}

/// Normalising keeps components proper.
pub proof fn lemma_normalize_proper(cs: Seq<Seq<char>>)
    requires
        proper_components(cs),
    ensures
        proper_components(normalize_components(cs)),
    decreases cs.len(),
{
    if cs.len() > 0 {
        assert(proper_components(cs.drop_last())) by {
            assert forall|i: int| 0 <= i < cs.drop_last().len() implies proper_component(
                #[trigger] cs.drop_last()[i],
            ) by {
                assert(cs.drop_last()[i] == cs[i]);
            }
        }
        lemma_normalize_proper(cs.drop_last());
        let prev = normalize_components(cs.drop_last());
        if cs.last() == seq!['.', '.'] {
            if prev.len() > 0 {
                assert forall|i: int| 0 <= i < prev.drop_last().len() implies proper_component(
                    #[trigger] prev.drop_last()[i],
                ) by {
                    assert(prev.drop_last()[i] == prev[i]);
                }
            }
        } else {
            assert(proper_component(cs[cs.len() - 1]));
            assert forall|i: int| 0 <= i < prev.push(cs.last()).len() implies proper_component(
                #[trigger] prev.push(cs.last())[i],
            ) by {
                if i < prev.len() {
                    assert(prev.push(cs.last())[i] == prev[i]);
                }
            }
        }
    }
}

/// Components without `..` are already normal.
pub proof fn lemma_normalize_identity(cs: Seq<Seq<char>>)
    requires
        forall|i: int| 0 <= i < cs.len() ==> #[trigger] cs[i] != seq!['.', '.'],
    ensures
        normalize_components(cs) == cs,
    decreases cs.len(),
{
    if cs.len() > 0 {
        assert(cs[cs.len() - 1] != seq!['.', '.']);
        lemma_normalize_identity(cs.drop_last());
        assert(cs.drop_last().push(cs.last()) =~= cs);
    }
}

proof fn lemma_join_front(cs: Seq<Seq<char>>, sep: Seq<char>)
    requires
        cs.len() >= 2,
    ensures
        join(cs, sep) == cs[0] + sep + join(cs.drop_first(), sep),
    decreases cs.len(),
{
    if cs.len() == 2 {
        assert(cs.drop_last().len() == 1);
        assert(cs.drop_first().len() == 1);
        assert(cs.drop_first()[0] == cs[1]);
        assert(join(cs.drop_last(), sep) == cs[0]);
        assert(join(cs.drop_first(), sep) == cs[1]);
        assert(join(cs, sep) == join(cs.drop_last(), sep) + sep + cs.last());
    } else {
        assert(join(cs, sep) == join(cs.drop_last(), sep) + sep + cs.last());
        assert(cs.drop_first().len() >= 2);
        assert(join(cs.drop_first(), sep) == join(cs.drop_first().drop_last(), sep) + sep
            + cs.drop_first().last());
        lemma_join_front(cs.drop_last(), sep);
        assert(cs.drop_last().drop_first() =~= cs.drop_first().drop_last());
        assert(cs.drop_first().last() == cs.last());
        assert(cs.drop_last()[0] == cs[0]);
        let a = cs[0];
        let m = join(cs.drop_first().drop_last(), sep);
        assert(a + sep + m + sep + cs.last() =~= a + sep + (m + sep + cs.last()));
    }
}

proof fn lemma_scan_word(c: Seq<char>, t: Seq<char>, acc: Seq<Seq<char>>, cur: Seq<char>)
    requires
        !c.contains('/'),
    ensures
        scan_components(c + t, acc, cur) == scan_components(t, acc, cur + c),
    decreases c.len(),
{
    if c.len() == 0 {
        assert(c + t =~= t);
        assert(cur + c =~= cur);
    } else {
        assert((c + t)[0] == c[0]);
        assert(c[0] != '/');
        assert((c + t).drop_first() =~= c.drop_first() + t);
        assert(!c.drop_first().contains('/')) by {
            if c.drop_first().contains('/') {
                let i = choose|i: int| 0 <= i < c.drop_first().len() && c.drop_first()[i] == '/';
                assert(c[i + 1] == '/');
            }
        }
        lemma_scan_word(c.drop_first(), t, acc, cur.push(c[0]));
        assert(cur.push(c[0]) + c.drop_first() =~= cur + c);
    }
}

proof fn lemma_scan_joined(cs: Seq<Seq<char>>, acc: Seq<Seq<char>>)
    requires
        cs.len() > 0,
        proper_components(cs),
    ensures
        scan_components(join(cs, seq!['/']), acc, Seq::empty()) == acc + cs,
    decreases cs.len(),
{
    let e = Seq::<char>::empty();
    assert(proper_component(cs[0]));
    if cs.len() == 1 {
        lemma_scan_word(cs[0], e, acc, e);
        assert(cs[0] + e =~= cs[0]);
        assert(e + cs[0] =~= cs[0]);
        assert(acc.push(cs[0]) =~= acc + cs);
    } else {
        lemma_join_front(cs, seq!['/']);
        let rest = join(cs.drop_first(), seq!['/']);
        assert(cs[0] + seq!['/'] + rest =~= cs[0] + (seq!['/'] + rest));
        lemma_scan_word(cs[0], seq!['/'] + rest, acc, e);
        assert(e + cs[0] =~= cs[0]);
        assert((seq!['/'] + rest)[0] == '/');
        assert((seq!['/'] + rest).drop_first() =~= rest);
        assert(proper_components(cs.drop_first())) by {
            assert forall|i: int| 0 <= i < cs.drop_first().len() implies proper_component(
                #[trigger] cs.drop_first()[i],
            ) by {
                assert(cs.drop_first()[i] == cs[i + 1]);
            }
        }
        lemma_scan_joined(cs.drop_first(), acc.push(cs[0]));
        assert(acc.push(cs[0]) + cs.drop_first() =~= acc + cs);
    }
}

/// Reading back a path written from proper components gives those components.
pub proof fn lemma_components_of_render(rooted: bool, cs: Seq<Seq<char>>)
    requires
        proper_components(cs),
    ensures
        path_components(render_path(rooted, cs)) == cs,
        path_rooted(render_path(rooted, cs)) == rooted,
{
    let e = Seq::<char>::empty();
    let ee = Seq::<Seq<char>>::empty();
    assert(flush_segment(ee, e) == ee);
    if cs.len() == 0 {
        if rooted {
            assert(render_path(rooted, cs) =~= seq!['/']);
            assert(seq!['/'].drop_first() =~= e);
            assert(scan_components(seq!['/'], ee, e) == scan_components(e, ee, e));
        } else {
            assert(render_path(rooted, cs) =~= e);
        }
        assert(cs =~= ee);
    } else {
        let j = join(cs, seq!['/']);
        lemma_scan_joined(cs, ee);
        assert(ee + cs =~= cs);
        assert(proper_component(cs[0]));
        assert(j.len() > 0 && j[0] == cs[0][0]) by {
            if cs.len() == 1 {
            } else {
                lemma_join_front(cs, seq!['/']);
            }
        }
        assert(cs[0][0] != '/') by {
            if cs[0][0] == '/' {
                assert(cs[0].contains('/'));
            }
        }
        if rooted {
            assert((seq!['/'] + j).drop_first() =~= j);
            assert((seq!['/'] + j)[0] == '/');
            assert(scan_components(seq!['/'] + j, ee, e) == scan_components(j, ee, e));
        }
    }
}

/// Joining a proper component onto a path written from proper components
/// writes the longer path.
proof fn lemma_join_render(rooted: bool, ds: Seq<Seq<char>>, c: Seq<char>)
    requires
        proper_components(ds),
        proper_component(c),
    ensures
        path_join(render_path(rooted, ds), c) == render_path(rooted, ds.push(c)),
{
    let sep = seq!['/'];
    assert(c[0] != '/') by {
        if c[0] == '/' {
            assert(c.contains('/'));
        }
    }
    assert(ds.push(c).drop_last() =~= ds);
    assert(ds.push(c).last() == c);
    if ds.len() == 0 {
        assert(join(ds.push(c), sep) == c);
        assert(sep + Seq::<char>::empty() =~= sep);
        assert(Seq::<char>::empty() + c =~= c);
    } else {
        let j = join(ds, sep);
        let last = ds.last();
        assert(proper_component(ds[ds.len() - 1]));
        assert(j.len() > 0 && j.last() == last.last()) by {
            if ds.len() == 1 {
            } else {
                assert(j == join(ds.drop_last(), sep) + sep + last);
            }
        }
        assert(last.last() != '/') by {
            if last.last() == '/' {
                assert(last.contains('/'));
            }
        }
        if rooted {
            assert((sep + j).last() == j.last());
            assert(sep + j + sep + c =~= sep + (j + sep + c));
        }
    }
}

/// Rebuilding a path from its own prefix (written as a path) and the
/// components below it gives the whole path back.
pub proof fn lemma_rebuilt_from_prefix(rooted: bool, cs: Seq<Seq<char>>, k: int, m: int)
    requires
        proper_components(cs),
        0 <= k <= m <= cs.len(),
    ensures
        crate::security::rebuilt(render_path(rooted, cs.subrange(0, k)), cs.subrange(k, m))
            == render_path(rooted, cs.subrange(0, m)),
    decreases m - k,
{
    if m == k {
        assert(cs.subrange(k, m).len() == 0);
    } else {
        lemma_rebuilt_from_prefix(rooted, cs, k, m - 1);
        assert(cs.subrange(k, m).drop_last() =~= cs.subrange(k, m - 1));
        assert(cs.subrange(k, m).last() == cs[m - 1]);
        assert(proper_components(cs.subrange(0, m - 1))) by {
            assert forall|i: int| 0 <= i < cs.subrange(0, m - 1).len() implies proper_component(
                #[trigger] cs.subrange(0, m - 1)[i],
            ) by {
                assert(cs.subrange(0, m - 1)[i] == cs[i]);
            }
        }
        assert(proper_component(cs[m - 1]));
        lemma_join_render(rooted, cs.subrange(0, m - 1), cs[m - 1]);
        assert(cs.subrange(0, m - 1).push(cs[m - 1]) =~= cs.subrange(0, m));
    }
}

/// Joining onto a path that begins at the root gives a path that begins at the
/// root.
pub proof fn lemma_join_keeps_rooted(base: Seq<char>, rel: Seq<char>)
    requires
        path_rooted(base),
    ensures
        path_rooted(path_join(base, rel)),
{
    if !path_rooted(rel) {
        if base.last() != '/' {
            assert((base + seq!['/'] + rel)[0] == base[0]);
        } else {
            assert((base + rel)[0] == base[0]);
        }
    }
}

/// A normalised path reads back as its normalised components, and it is rooted
/// exactly when the path it came from is.
pub proof fn lemma_normalized_path_parts(s: Seq<char>)
    ensures
        path_components(normalized_path(s)) == normalize_components(path_components(s)),
        path_rooted(normalized_path(s)) == path_rooted(s),
        normalized_path(normalized_path(s)) == normalized_path(s),
{
    lemma_path_components_proper(s);
    lemma_normalize_proper(path_components(s));
    let ncs = normalize_components(path_components(s));
    lemma_components_of_render(path_rooted(s), ncs);
    law_normalized_paths_have_no_parent_steps(path_components(s));
    lemma_normalize_identity(ncs);
}

} // verus!
