//! Character-level helpers shared by the modules that inspect or build strings.

use vstd::prelude::*;
use vstd::string::*;

verus! {

/// `c` is a Unicode `White_Space` character, which is what `char::is_whitespace`
/// (and therefore `str::trim`) tests for.
pub open spec fn is_white_space(c: char) -> bool {
    let u = c as u32;
    ||| 0x09 <= u <= 0x0d
    ||| u == 0x20
    ||| u == 0x85
    ||| u == 0xa0
    ||| u == 0x1680
    ||| 0x2000 <= u <= 0x200a
    ||| u == 0x2028
    ||| u == 0x2029
    ||| u == 0x202f
    ||| u == 0x205f
    ||| u == 0x3000
}

/// `s` without its leading white space.
pub open spec fn trim_start(s: Seq<char>) -> Seq<char>
    decreases s.len(),
{
    if s.len() > 0 && is_white_space(s[0]) {
        trim_start(s.drop_first())
    } else {
        s
    }
}

/// `s` without its trailing white space.
pub open spec fn trim_end(s: Seq<char>) -> Seq<char>
    decreases s.len(),
{
    if s.len() > 0 && is_white_space(s.last()) {
        trim_end(s.drop_last())
    } else {
        s
    }
}

/// `s` without white space at either end, as `str::trim` returns it.
pub open spec fn trim(s: Seq<char>) -> Seq<char> {
    trim_end(trim_start(s))
}

/// `s` begins with `prefix`.
pub open spec fn has_prefix(s: Seq<char>, prefix: Seq<char>) -> bool {
    prefix.len() <= s.len() && s.subrange(0, prefix.len() as int) == prefix
}

/// `needle` occurs somewhere in `s`.
pub open spec fn has_infix(s: Seq<char>, needle: Seq<char>) -> bool {
    exists|i: int|
        0 <= i && i + needle.len() <= s.len() && #[trigger] s.subrange(i, i + needle.len()) == needle
}

/// The elements of `parts`, with `sep` between each pair.
pub open spec fn join(parts: Seq<Seq<char>>, sep: Seq<char>) -> Seq<char>
    decreases parts.len(),
{
    if parts.len() == 0 {
        Seq::empty()
    } else if parts.len() == 1 {
        parts[0]
    } else {
        join(parts.drop_last(), sep) + sep + parts.last()
    }
}

/// `r` is an error carrying the message `m`.
pub open spec fn is_err_with<T>(r: Result<T, String>, m: Seq<char>) -> bool {
    r matches Err(e) && e@ == m
}

/// The character sequences of a sequence of strings.
pub open spec fn strings_of(v: Seq<String>) -> Seq<Seq<char>> {
    v.map_values(|s: String| s@)
}

/// The character sequence of an optional string.
pub open spec fn opt_chars(o: Option<String>) -> Option<Seq<char>> {
    match o {
        Some(s) => Some(s@),
        None => None,
    }
}

/// A copy of an optional string.
pub fn copy_opt(o: &Option<String>) -> (r: Option<String>)
    ensures
        opt_chars(r) == opt_chars(*o),
{
    match o {
        Some(s) => Some(s.clone()),
        None => None,
    }
}

/// Appends one character to a string.
///
/// Calls `String::push`, which vstd does not specify; the contract claims that
/// the character lands at the end and nothing else changes.
#[verifier::external_body]
pub(crate) fn push_char(s: &mut String, c: char)
    ensures
        final(s)@ == old(s)@.push(c),
{
    s.push(c);
}

/// The characters of `s`, one per element.
pub fn chars_of(s: &str) -> (v: Vec<char>)
    ensures
        v@ == s@,
{
    let n = s.unicode_len();
    let mut v: Vec<char> = Vec::new();
    let mut i: usize = 0;
    while i < n
        invariant
            n == s@.len(),
            i <= n,
            v@ == s@.subrange(0, i as int),
        decreases n - i,
    {
        let c = s.get_char(i);
        v.push(c);
        i = i + 1;
        assert(v@ =~= s@.subrange(0, i as int));
    }
    assert(v@ =~= s@);
    v
}

/// Appends every character of `chars` to `out`.
pub fn push_all(out: &mut String, chars: &Vec<char>)
    ensures
        final(out)@ == old(out)@ + chars@,
{
    let ghost start = out@;
    let mut i: usize = 0;
    while i < chars.len()
        invariant
            i <= chars.len(),
            out@ == start + chars@.subrange(0, i as int),
        decreases chars.len() - i,
    {
        push_char(out, chars[i]);
        i = i + 1;
        assert(out@ =~= start + chars@.subrange(0, i as int));
    }
    assert(chars@.subrange(0, chars.len() as int) =~= chars@);
}

/// A string made of `chars`.
pub fn string_from(chars: &Vec<char>) -> (s: String)
    ensures
        s@ == chars@,
{
    let mut s = String::new();
    push_all(&mut s, chars);
    assert(s@ =~= chars@);
    s
}

/// A copy of `s` as an owned string.
pub fn owned(s: &str) -> (r: String)
    ensures
        r@ == s@,
{
    String::from_str(s)
}

/// Whether `s` is exactly `lit`.
pub fn is_literal(s: &str, lit: &str) -> (b: bool)
    ensures
        b == (s@ == lit@),
{
    owned(s) == owned(lit)
}

/// Whether `c` is white space in the sense of `char::is_whitespace`.
pub fn is_whitespace_char(c: char) -> (b: bool)
    ensures
        b == is_white_space(c),
{
    let u = c as u32;
    (0x09 <= u && u <= 0x0d) || u == 0x20 || u == 0x85 || u == 0xa0 || u == 0x1680 || (0x2000
        <= u && u <= 0x200a) || u == 0x2028 || u == 0x2029 || u == 0x202f || u == 0x205f || u
        == 0x3000
}

proof fn lemma_trim_start_skip(s: Seq<char>, i: int)
    requires
        0 <= i <= s.len(),
        forall|j: int| 0 <= j < i ==> is_white_space(#[trigger] s[j]),
    ensures
        trim_start(s) == trim_start(s.subrange(i, s.len() as int)),
    decreases i,
{
    if i > 0 {
        assert(s.drop_first().subrange(i - 1, s.drop_first().len() as int) =~= s.subrange(
            i,
            s.len() as int,
        ));
        lemma_trim_start_skip(s.drop_first(), i - 1);
    } else {
        assert(s.subrange(0, s.len() as int) =~= s);
    }
}

proof fn lemma_trim_end_cut(s: Seq<char>, k: int)
    requires
        0 <= k <= s.len(),
        forall|j: int| k <= j < s.len() ==> is_white_space(#[trigger] s[j]),
    ensures
        trim_end(s) == trim_end(s.subrange(0, k)),
    decreases s.len() - k,
{
    if k < s.len() {
        assert(s.drop_last().subrange(0, k) =~= s.subrange(0, k));
        lemma_trim_end_cut(s.drop_last(), k);
    } else {
        assert(s.subrange(0, k) =~= s);
    }
}

/// Every character of `w` is white space.
pub open spec fn all_white_space(w: Seq<char>) -> bool {
    forall|i: int| 0 <= i < w.len() ==> is_white_space(#[trigger] w[i])
}

proof fn lemma_trim_start_skips_white_space(w: Seq<char>, s: Seq<char>)
    requires
        all_white_space(w),
    ensures
        trim_start(w + s) == trim_start(s),
    decreases w.len(),
{
    if w.len() > 0 {
        assert((w + s)[0] == w[0]);
        assert((w + s).drop_first() =~= w.drop_first() + s);
        assert(all_white_space(w.drop_first())) by {
            assert forall|i: int| 0 <= i < w.drop_first().len() implies is_white_space(
                #[trigger] w.drop_first()[i],
            ) by {
                assert(w.drop_first()[i] == w[i + 1]);
            }
        }
        lemma_trim_start_skips_white_space(w.drop_first(), s);
    } else {
        assert(w + s =~= s);
    }
}

proof fn lemma_trim_end_skips_white_space(s: Seq<char>, w: Seq<char>)
    requires
        all_white_space(w),
    ensures
        trim_end(s + w) == trim_end(s),
    decreases w.len(),
{
    if w.len() > 0 {
        assert((s + w).last() == w.last());
        assert((s + w).drop_last() =~= s + w.drop_last());
        assert(is_white_space(w[w.len() - 1]));
        assert(all_white_space(w.drop_last())) by {
            assert forall|i: int| 0 <= i < w.drop_last().len() implies is_white_space(
                #[trigger] w.drop_last()[i],
            ) by {
                assert(w.drop_last()[i] == w[i]);
            }
        }
        lemma_trim_end_skips_white_space(s, w.drop_last());
    } else {
        assert(s + w =~= s);
    }
}

proof fn lemma_trim_start_keeps_tail(s: Seq<char>, t: Seq<char>)
    requires
        !all_white_space(s),
    ensures
        trim_start(s + t) == trim_start(s) + t,
    decreases s.len(),
{
    assert(s.len() > 0);
    assert((s + t)[0] == s[0]);
    if is_white_space(s[0]) {
        assert((s + t).drop_first() =~= s.drop_first() + t);
        assert(!all_white_space(s.drop_first())) by {
            let i = choose|i: int| 0 <= i < s.len() && !is_white_space(#[trigger] s[i]);
            assert(i > 0);
            assert(s.drop_first()[i - 1] == s[i]);
        }
        lemma_trim_start_keeps_tail(s.drop_first(), t);
    }
}

/// Trimming ignores any white space added around a string: `w1 + s + w2`
/// trims to what `s` trims to.
pub proof fn lemma_trim_ignores_surrounding_white_space(w1: Seq<char>, s: Seq<char>, w2: Seq<char>)
    requires
        all_white_space(w1),
        all_white_space(w2),
    ensures
        trim(w1 + s + w2) == trim(s),
{
    assert(w1 + s + w2 =~= w1 + (s + w2));
    lemma_trim_start_skips_white_space(w1, s + w2);
    if all_white_space(s) {
        assert(all_white_space(s + w2)) by {
            assert forall|i: int| 0 <= i < (s + w2).len() implies is_white_space(
                #[trigger] (s + w2)[i],
            ) by {
                if i < s.len() {
                    assert((s + w2)[i] == s[i]);
                } else {
                    assert((s + w2)[i] == w2[i - s.len()]);
                }
            }
        }
        let e = Seq::<char>::empty();
        lemma_trim_start_skips_white_space(s + w2, e);
        lemma_trim_start_skips_white_space(s, e);
        assert(s + w2 + e =~= s + w2);
        assert(s + e =~= s);
        assert(trim_start(e) == e);
        assert(trim_end(e) == e);
    } else {
        lemma_trim_start_keeps_tail(s, w2);
        lemma_trim_end_skips_white_space(trim_start(s), w2);
    }
}

/// `s` with white space removed from both ends, as `str::trim` does it.
pub fn trim_chars(s: &Vec<char>) -> (t: Vec<char>)
    ensures
        t@ == trim(s@),
{
    let n = s.len();
    let mut start: usize = 0;
    while start < n && is_whitespace_char(s[start])
        invariant
            n == s@.len(),
            start <= n,
            forall|j: int| 0 <= j < start ==> is_white_space(#[trigger] s@[j]),
        decreases n - start,
    {
        start = start + 1;
    }
    proof {
        lemma_trim_start_skip(s@, start as int);
    }
    let ghost rest = s@.subrange(start as int, n as int);
    assert(rest.len() == 0 || !is_white_space(rest[0]));
    assert(trim_start(s@) == rest);
    let mut end: usize = n;
    while end > start && is_whitespace_char(s[end - 1])
        invariant
            n == s@.len(),
            start <= end <= n,
            rest == s@.subrange(start as int, n as int),
            forall|j: int| end <= j < n ==> is_white_space(#[trigger] s@[j]),
        decreases end - start,
    {
        end = end - 1;
    }
    proof {
        assert forall|j: int| (end - start) <= j < rest.len() implies is_white_space(
            #[trigger] rest[j],
        ) by {
            assert(rest[j] == s@[j + start]);
        }
        lemma_trim_end_cut(rest, (end - start) as int);
        assert(rest.subrange(0, (end - start) as int) =~= s@.subrange(start as int, end as int));
    }
    let mut t: Vec<char> = Vec::new();
    let mut i: usize = start;
    while i < end
        invariant
            start <= i <= end <= n,
            n == s@.len(),
            t@ == s@.subrange(start as int, i as int),
        decreases end - i,
    {
        t.push(s[i]);
        i = i + 1;
        assert(t@ =~= s@.subrange(start as int, i as int));
    }
    t
}

/// `s` without its trailing white space, as `str::trim_end` returns it.
pub fn trim_end_string(s: &str) -> (t: String)
    ensures
        t@ == trim_end(s@),
{
    let c = chars_of(s);
    let n = c.len();
    let mut end: usize = n;
    while end > 0 && is_whitespace_char(c[end - 1])
        invariant
            n == c@.len(),
            end <= n,
            forall|j: int| end <= j < n ==> is_white_space(#[trigger] c@[j]),
        decreases end,
    {
        end = end - 1;
    }
    proof {
        lemma_trim_end_cut(c@, end as int);
    }
    let ghost kept = c@.subrange(0, end as int);
    assert(kept.len() == 0 || !is_white_space(kept.last()));
    assert(trim_end(kept) == kept);
    let mut t: Vec<char> = Vec::new();
    let mut i: usize = 0;
    while i < end
        invariant
            i <= end <= n,
            n == c@.len(),
            t@ == c@.subrange(0, i as int),
        decreases end - i,
    {
        t.push(c[i]);
        i = i + 1;
        assert(t@ =~= c@.subrange(0, i as int));
    }
    string_from(&t)
}

/// Whether `s` begins with `prefix`.
pub fn starts_with_chars(s: &Vec<char>, prefix: &Vec<char>) -> (b: bool)
    ensures
        b == has_prefix(s@, prefix@),
{
    if prefix.len() > s.len() {
        return false;
    }
    let mut i: usize = 0;
    while i < prefix.len()
        invariant
            prefix.len() <= s.len(),
            i <= prefix.len(),
            forall|j: int| 0 <= j < i ==> s@[j] == prefix@[j],
        decreases prefix.len() - i,
    {
        if s[i] != prefix[i] {
            assert(s@.subrange(0, prefix.len() as int)[i as int] != prefix@[i as int]);
            return false;
        }
        i = i + 1;
    }
    assert(s@.subrange(0, prefix.len() as int) =~= prefix@);
    true
}

/// Whether the two character sequences are equal.
pub fn chars_equal(a: &Vec<char>, b: &Vec<char>) -> (r: bool)
    ensures
        r == (a@ == b@),
{
    if a.len() != b.len() {
        return false;
    }
    let r = starts_with_chars(a, b);
    proof {
        if r {
            assert(a@.subrange(0, b.len() as int) =~= a@);
        } else {
            if a@ == b@ {
                assert(a@.subrange(0, b.len() as int) =~= a@);
            }
        }
    }
    r
}

/// Whether `needle` occurs at position `at` in `s`.
fn occurs_at(s: &Vec<char>, needle: &Vec<char>, at: usize) -> (b: bool)
    requires
        at + needle.len() <= s.len(),
    ensures
        b == (s@.subrange(at as int, at + needle.len()) == needle@),
{
    let mut i: usize = 0;
    while i < needle.len()
        invariant
            at + needle.len() <= s.len(),
            i <= needle.len(),
            forall|j: int| 0 <= j < i ==> s@[at + j] == needle@[j],
        decreases needle.len() - i,
    {
        if s[at + i] != needle[i] {
            assert(s@.subrange(at as int, at + needle.len())[i as int] != needle@[i as int]);
            return false;
        }
        i = i + 1;
    }
    assert(s@.subrange(at as int, at + needle.len()) =~= needle@);
    true
}

/// Whether `needle` occurs anywhere in `s`.
pub fn contains_chars(s: &Vec<char>, needle: &Vec<char>) -> (b: bool)
    ensures
        b == has_infix(s@, needle@),
{
    if needle.len() > s.len() {
        return false;
    }
    if needle.len() == 0 {
        assert(s@.subrange(0int, 0int + needle@.len()) =~= needle@);
        return true;
    }
    let last = s.len() - needle.len();
    let mut at: usize = 0;
    while at <= last
        invariant
            last + needle.len() == s.len(),
            needle.len() > 0,
            at <= last + 1,
            forall|k: int|
                0 <= k < at ==> #[trigger] s@.subrange(k, k + needle.len()) != needle@,
        decreases last + 1 - at,
    {
        if occurs_at(s, needle, at) {
            return true;
        }
        at = at + 1;
    }
    false
}

/// Whether `c` is one of `set`.
pub fn char_in(c: char, set: &Vec<char>) -> (b: bool)
    ensures
        b == set@.contains(c),
{
    let mut i: usize = 0;
    while i < set.len()
        invariant
            i <= set.len(),
            forall|j: int| 0 <= j < i ==> set@[j] != c,
        decreases set.len() - i,
    {
        if set[i] == c {
            return true;
        }
        i = i + 1;
    }
    false
}

} // verus!
