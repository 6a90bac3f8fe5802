//! Link extraction: the internal and external link targets of a wikitext.
//!
//! A link is written `[[target]]` or `[[target|label]]`. A target made of
//! lower-case letters, digits, `-`, `_` and `:` names a page by its slug; a
//! target that starts with `http://` or `https://` is an external URL. Any
//! other target is dropped. An opening `[[` that is never closed starts no link.

use vstd::prelude::*;

use crate::strings::{chars_of, string_of, str_eq};

verus! {

/// A character that may stand in a page slug.
pub open spec fn is_slug_char(c: char) -> bool {
    ('a' <= c && c <= 'z') || ('0' <= c && c <= '9') || c == '-' || c == '_' || c == ':'
}

/// A well-formed page slug: non-empty, slug characters only.
pub open spec fn is_slug(s: Seq<char>) -> bool {
    s.len() > 0 && forall|i: int| 0 <= i < s.len() ==> is_slug_char(#[trigger] s[i])
}

/// A target that names an outside resource.
pub open spec fn is_url(s: Seq<char>) -> bool {
    (s.len() > 7 && s.take(7) == seq!['h', 't', 't', 'p', ':', '/', '/'])
        || (s.len() > 8 && s.take(8) == seq!['h', 't', 't', 'p', 's', ':', '/', '/'])
}

/// The bodies of the links in `s` from position `i` on; `open` is where the
/// body of a link opened earlier starts, if one is open.
pub open spec fn bodies_from(s: Seq<char>, i: int, open: Option<int>) -> Seq<Seq<char>>
    decreases s.len() - i,
{
    if i < 0 || i + 1 >= s.len() {
        seq![]
    } else {
        match open {
            None => if s[i] == '[' && s[i + 1] == '[' {
                bodies_from(s, i + 2, Some(i + 2))
            } else {
                bodies_from(s, i + 1, None)
            },
            Some(start) => if s[i] == ']' && s[i + 1] == ']' {
                seq![s.subrange(start, i)] + bodies_from(s, i + 2, None)
            } else {
                bodies_from(s, i + 1, Some(start))
            },
        }
    }
}

/// The bodies of all links in `s`, in order.
pub open spec fn link_bodies(s: Seq<char>) -> Seq<Seq<char>> {
    bodies_from(s, 0, None)
}

/// Where the label separator stands in a link body, or its length.
pub open spec fn bar_from(b: Seq<char>, j: int) -> int
    decreases b.len() - j,
{
    if j < 0 || j >= b.len() {
        b.len() as int
    } else if b[j] == '|' {
        j
    } else {
        bar_from(b, j + 1)
    }
}

/// The target of a link body: what precedes the first `|`.
pub open spec fn target_of(b: Seq<char>) -> Seq<char> {
    b.take(bar_from(b, 0))
}

/// A link in `s` has target `t`.
pub open spec fn has_target(s: Seq<char>, t: Seq<char>) -> bool {
    exists|k: int| 0 <= k < link_bodies(s).len() && target_of(#[trigger] link_bodies(s)[k]) == t
}

/// The slugs that `s` links to.
pub open spec fn internal_targets(s: Seq<char>) -> Set<Seq<char>> {
    Set::new(|t: Seq<char>| is_slug(t) && has_target(s, t))
}

/// The URLs that `s` links to.
pub open spec fn external_targets(s: Seq<char>) -> Set<Seq<char>> {
    Set::new(|t: Seq<char>| is_url(t) && has_target(s, t))
}

/// The texts of a list of strings, as a set.
pub open spec fn text_set(v: Seq<String>) -> Set<Seq<char>> {
    Set::new(|t: Seq<char>| exists|i: int| 0 <= i < v.len() && (#[trigger] v[i])@ == t)
}

/// No text occurs twice in the list.
pub open spec fn distinct_texts(v: Seq<String>) -> bool {
    forall|i: int, j: int|
        0 <= i < v.len() && 0 <= j < v.len() && i != j ==> (#[trigger] v[i])@ != (#[trigger] v[j])@
}

/// The links of one text, split by kind, each list without repeats.
pub struct LinkSet {
    pub internal: Vec<String>,
    pub external: Vec<String>,
}

/// `v` holds a string with the text `t`.
pub fn contains_text(v: &Vec<String>, t: &String) -> (r: bool)
    ensures
        r == text_set(v@).contains(t@),
{
    let mut i: usize = 0;
    while i < v.len()
        invariant
            i <= v@.len(),
            forall|k: int| 0 <= k < i ==> v@[k]@ != t@,
        decreases v@.len() - i,
    {
        if str_eq(&v[i], t) {
            assert(v@[i as int]@ == t@);
            return true;
        }
        i = i + 1;
    }
    false
}

/// Adds `t` to `v` unless its text is already there.
pub fn push_distinct(v: &mut Vec<String>, t: String)
    requires
        distinct_texts(old(v)@),
    ensures
        distinct_texts(final(v)@),
        text_set(final(v)@) == text_set(old(v)@).insert(t@),
{
    if !contains_text(v, &t) {
        let ghost tv = t@;
        v.push(t);
        assert forall|i: int, j: int|
            0 <= i < v@.len() && 0 <= j < v@.len() && i != j implies (#[trigger] v@[i])@ != (#[trigger] v@[j])@ by {
            if i < old(v)@.len() && j < old(v)@.len() {
                assert(old(v)@[i] == v@[i] && old(v)@[j] == v@[j]);
            } else if i < old(v)@.len() {
                assert(text_set(old(v)@).contains(v@[i]@));
            } else {
                assert(text_set(old(v)@).contains(v@[j]@));
            }
        }
        assert forall|s: Seq<char>| text_set(v@).contains(s) <==> text_set(old(v)@).insert(tv).contains(s) by {
            if text_set(old(v)@).contains(s) {
                let i = choose|i: int| 0 <= i < old(v)@.len() && (#[trigger] old(v)@[i])@ == s;
                assert(v@[i] == old(v)@[i]);
            }
            if text_set(v@).contains(s) && s != tv {
                let i = choose|i: int| 0 <= i < v@.len() && (#[trigger] v@[i])@ == s;
                assert(v@[i] == old(v)@[i]);
            }
            if s == tv {
                assert(v@[v@.len() - 1]@ == s);
            }
        }
        assert(text_set(v@) =~= text_set(old(v)@).insert(tv));
    } else {
        assert(text_set(old(v)@).insert(t@) =~= text_set(old(v)@));
    }
}

fn link_bodies_of(s: &Vec<char>) -> (r: Vec<Vec<char>>)
    ensures
        r@.map_values(|b: Vec<char>| b@) == link_bodies(s@),
{
    let mut r: Vec<Vec<char>> = Vec::new();
    let mut i: usize = 0;
    let mut open: Option<usize> = None;
    let n = s.len();
    while i < n && i + 1 < n
        invariant
            n == s@.len(),
            i <= n,
            match open {
                Some(st) => st <= i,
                None => true,
            },
            r@.map_values(|b: Vec<char>| b@) + bodies_from(
                s@,
                i as int,
                match open {
                    Some(st) => Some(st as int),
                    None => None,
                },
            ) == link_bodies(s@),
        decreases n - i,
    {
        let ghost before = r@.map_values(|b: Vec<char>| b@);
        match open {
            None => {
                if s[i] == '[' && s[i + 1] == '[' {
                    open = Some(i + 2);
                    i = i + 2;
                } else {
                    i = i + 1;
                }
            },
            Some(st) => {
                if s[i] == ']' && s[i + 1] == ']' {
                    let mut b: Vec<char> = Vec::new();
                    let mut k: usize = st;
                    while k < i
                        invariant
                            st <= k <= i,
                            i < s@.len(),
                            b@ == s@.subrange(st as int, k as int),
                        decreases i - k,
                    {
                        b.push(s[k]);
                        k = k + 1;
                        assert(b@ =~= s@.subrange(st as int, k as int));
                    }
                    let ghost bv = b@;
                    r.push(b);
                    assert(r@.map_values(|b: Vec<char>| b@) =~= before.push(bv));
                    assert(before.push(bv) + bodies_from(s@, i + 2, None) =~= before + (seq![bv]
                        + bodies_from(s@, i + 2, None)));
                    open = None;
                    i = i + 2;
                } else {
                    i = i + 1;
                }
            },
        }
    }
    assert(r@.map_values(|b: Vec<char>| b@) =~= link_bodies(s@));
    r
}

fn target_chars(b: &Vec<char>) -> (r: Vec<char>)
    ensures
        r@ == target_of(b@),
{
    let mut r: Vec<char> = Vec::new();
    let mut j: usize = 0;
    while j < b.len() && b[j] != '|'
        invariant
            j <= b@.len(),
            r@ == b@.take(j as int),
            bar_from(b@, 0) == bar_from(b@, j as int),
        decreases b@.len() - j,
    {
        r.push(b[j]);
        j = j + 1;
        assert(r@ =~= b@.take(j as int));
    }
    r
}

fn slug_chars(t: &Vec<char>) -> (r: bool)
    ensures
        r == is_slug(t@),
{
    if t.len() == 0 {
        return false;
    }
    let mut i: usize = 0;
    while i < t.len()
        invariant
            i <= t@.len(),
            forall|k: int| 0 <= k < i ==> is_slug_char(#[trigger] t@[k]),
        decreases t@.len() - i,
    {
        let c = t[i];
        if !(('a' <= c && c <= 'z') || ('0' <= c && c <= '9') || c == '-' || c == '_' || c == ':') {
            return false;
        }
        i = i + 1;
    }
    true
}

/// `s` is a well-formed page slug.
pub fn valid_slug(s: &str) -> (r: bool)
    ensures
        r == is_slug(s@),
{
    let cs = chars_of(s);
    slug_chars(&cs)
}

fn starts_with(t: &Vec<char>, p: &Vec<char>) -> (r: bool)
    ensures
        r == (t@.len() > p@.len() && t@.take(p@.len() as int) == p@),
{
    if t.len() <= p.len() {
        return false;
    }
    let mut i: usize = 0;
    while i < p.len()
        invariant
            p@.len() < t@.len(),
            i <= p@.len(),
            forall|k: int| 0 <= k < i ==> t@[k] == p@[k],
        decreases p@.len() - i,
    {
        if t[i] != p[i] {
            assert(t@.take(p@.len() as int)[i as int] != p@[i as int]);
            return false;
        }
        i = i + 1;
    }
    assert(t@.take(p@.len() as int) =~= p@);
    true
}

fn url_chars(t: &Vec<char>) -> (r: bool)
    ensures
        r == is_url(t@),
{
    let http = vec!['h', 't', 't', 'p', ':', '/', '/'];
    let https = vec!['h', 't', 't', 'p', 's', ':', '/', '/'];
    assert(http@ =~= seq!['h', 't', 't', 'p', ':', '/', '/']);
    assert(https@ =~= seq!['h', 't', 't', 'p', 's', ':', '/', '/']);
    starts_with(t, &http) || starts_with(t, &https)
}

/// The internal and external link targets of a wikitext, each without repeats.
pub fn extract_links(text: &str) -> (r: LinkSet)
    ensures
        distinct_texts(r.internal@),
        distinct_texts(r.external@),
        text_set(r.internal@) == internal_targets(text@),
        text_set(r.external@) == external_targets(text@),
{
    let s = chars_of(text);
    let bodies = link_bodies_of(&s);
    let ghost bs = link_bodies(text@);
    assert(bodies@.len() == bs.len());
    let mut internal: Vec<String> = Vec::new();
    let mut external: Vec<String> = Vec::new();
    let mut k: usize = 0;
    while k < bodies.len()
        invariant
            k <= bodies@.len(),
            bs == link_bodies(text@),
            bodies@.map_values(|b: Vec<char>| b@) == bs,
            distinct_texts(internal@),
            distinct_texts(external@),
            text_set(internal@) == Set::new(|t: Seq<char>| is_slug(t) && exists|m: int| 0 <= m < k && target_of(#[trigger] bs[m]) == t),
            text_set(external@) == Set::new(|t: Seq<char>| is_url(t) && exists|m: int| 0 <= m < k && target_of(#[trigger] bs[m]) == t),
        decreases bodies@.len() - k,
    {
        assert(bodies@[k as int]@ == bs[k as int]);
        let t = target_chars(&bodies[k]);
        let ghost tv = t@;
        let ghost ki = k as int;
        let ghost old_int = text_set(internal@);
        let ghost old_ext = text_set(external@);
        if slug_chars(&t) {
            push_distinct(&mut internal, string_of(&t));
        } else if url_chars(&t) {
            push_distinct(&mut external, string_of(&t));
        }
        k = k + 1;
        assert forall|u: Seq<char>| text_set(internal@).contains(u) <==> (is_slug(u) && exists|m: int| 0 <= m < k && target_of(#[trigger] bs[m]) == u) by {
            if is_slug(u) && exists|m: int| 0 <= m < k && target_of(#[trigger] bs[m]) == u {
                let m = choose|m: int| 0 <= m < k && target_of(#[trigger] bs[m]) == u;
                if m < ki {
                    assert(old_int.contains(u));
                }
            }
            if old_int.contains(u) {
                let m = choose|m: int| 0 <= m < ki && target_of(#[trigger] bs[m]) == u;
                assert(0 <= m < k);
            }
        }
        assert forall|u: Seq<char>| text_set(external@).contains(u) <==> (is_url(u) && exists|m: int| 0 <= m < k && target_of(#[trigger] bs[m]) == u) by {
            if is_url(u) && exists|m: int| 0 <= m < k && target_of(#[trigger] bs[m]) == u {
                let m = choose|m: int| 0 <= m < k && target_of(#[trigger] bs[m]) == u;
                if m < ki {
                    assert(old_ext.contains(u));
                }
            }
            if old_ext.contains(u) {
                let m = choose|m: int| 0 <= m < ki && target_of(#[trigger] bs[m]) == u;
                assert(0 <= m < k);
            }
        }
        assert(text_set(internal@) =~= Set::new(|t: Seq<char>| is_slug(t) && exists|m: int| 0 <= m < k && target_of(#[trigger] bs[m]) == t));
        assert(text_set(external@) =~= Set::new(|t: Seq<char>| is_url(t) && exists|m: int| 0 <= m < k && target_of(#[trigger] bs[m]) == t));
    }
    assert(text_set(internal@) =~= internal_targets(text@));
    assert(text_set(external@) =~= external_targets(text@));
    LinkSet { internal, external }
}

} // verus!
