//! The link graph store: the current outgoing links of every page.
//!
//! Each page holds the set of slugs and the set of URLs that its latest
//! content links to. Whether a slug resolves to a page is decided against the
//! page directory when the graph is read, so a link becomes resolved or
//! missing at the moment a page at its slug appears or goes away.

use vstd::prelude::*;

use crate::links::{contains_text, distinct_texts, push_distinct, text_set, LinkSet};
use crate::strings::clone_string;

verus! {

/// The strings of `a` whose text is not in `b`, without repeats.
pub fn difference(a: &Vec<String>, b: &Vec<String>) -> (r: Vec<String>)
    requires
        distinct_texts(a@),
    ensures
        distinct_texts(r@),
        text_set(r@) == text_set(a@).difference(text_set(b@)),
{
    let mut r: Vec<String> = Vec::new();
    let mut i: usize = 0;
    while i < a.len()
        invariant
            i <= a@.len(),
            distinct_texts(a@),
            distinct_texts(r@),
            text_set(r@) == text_set(a@.take(i as int)).difference(text_set(b@)),
        decreases a@.len() - i,
    {
        let ghost before = text_set(r@);
        if !contains_text(b, &a[i]) {
            push_distinct(&mut r, clone_string(&a[i]));
        }
        i = i + 1;
        proof {
            lemma_text_set_take_step(a@, i as int);
        }
        assert(text_set(r@) =~= text_set(a@.take(i as int)).difference(text_set(b@)));
    }
    assert(a@.take(a@.len() as int) =~= a@);
    r
}

/// Taking one more element adds its text to the set.
pub proof fn lemma_text_set_take_step(v: Seq<String>, i: int)
    requires
        0 < i <= v.len(),
    ensures
        text_set(v.take(i)) == text_set(v.take(i - 1)).insert(v[i - 1]@),
{
    assert forall|t: Seq<char>| text_set(v.take(i)).contains(t) <==> text_set(v.take(i - 1)).insert(v[i - 1]@).contains(t) by {
        if text_set(v.take(i)).contains(t) {
            let k = choose|k: int| 0 <= k < v.take(i).len() && (#[trigger] v.take(i)[k])@ == t;
            if k < i - 1 {
                assert(v.take(i - 1)[k] == v.take(i)[k]);
            }
        }
        if text_set(v.take(i - 1)).contains(t) {
            let k = choose|k: int| 0 <= k < v.take(i - 1).len() && (#[trigger] v.take(i - 1)[k])@ == t;
            assert(v.take(i - 1)[k] == v.take(i)[k]);
        }
        if t == v[i - 1]@ {
            assert(v.take(i)[i - 1] == v[i - 1]);
        }
    }
    assert(text_set(v.take(i)) =~= text_set(v.take(i - 1)).insert(v[i - 1]@));
}

/// A copy of the strings.
pub fn clone_strings(v: &Vec<String>) -> (r: Vec<String>)
    ensures
        r@ == v@,
{
    let mut r: Vec<String> = Vec::new();
    let mut i: usize = 0;
    while i < v.len()
        invariant
            i <= v@.len(),
            r@ == v@.take(i as int),
        decreases v@.len() - i,
    {
        r.push(clone_string(&v[i]));
        i = i + 1;
        assert(r@ =~= v@.take(i as int));
    }
    assert(r@ =~= v@);
    r
}

/// Removes the texts of `removed` from `set` and adds those of `added`.
pub fn apply_set_delta(set: &mut Vec<String>, added: &Vec<String>, removed: &Vec<String>)
    requires
        distinct_texts(old(set)@),
    ensures
        distinct_texts(final(set)@),
        text_set(final(set)@) == text_set(old(set)@).difference(text_set(removed@)).union(
            text_set(added@),
        ),
{
    let mut kept = difference(set, removed);
    let mut i: usize = 0;
    while i < added.len()
        invariant
            i <= added@.len(),
            distinct_texts(kept@),
            text_set(kept@) == text_set(old(set)@).difference(text_set(removed@)).union(
                text_set(added@.take(i as int)),
            ),
        decreases added@.len() - i,
    {
        push_distinct(&mut kept, clone_string(&added[i]));
        i = i + 1;
        proof {
            lemma_text_set_take_step(added@, i as int);
        }
        assert(text_set(kept@) =~= text_set(old(set)@).difference(text_set(removed@)).union(
            text_set(added@.take(i as int)),
        ));
    }
    assert(added@.take(added@.len() as int) =~= added@);
    assert(text_set(added@.take(0)) =~= Set::<Seq<char>>::empty());
    *set = kept;
}

/// The current links of every page, indexed by page id.
pub struct LinkGraph {
    pages: Vec<LinkSet>,
}

impl LinkGraph {
    /// Slugs linked from each page.
    pub closed spec fn internal(&self) -> Seq<Set<Seq<char>>> {
        self.pages@.map_values(|l: LinkSet| text_set(l.internal@))
    }

    /// URLs linked from each page.
    pub closed spec fn external(&self) -> Seq<Set<Seq<char>>> {
        self.pages@.map_values(|l: LinkSet| text_set(l.external@))
    }

    /// Every page's link lists are free of repeats.
    pub closed spec fn wf(&self) -> bool {
        forall|p: int|
            0 <= p < self.pages@.len() ==> distinct_texts((#[trigger] self.pages@[p]).internal@)
                && distinct_texts(self.pages@[p].external@)
    }

    /// A graph with no pages.
    pub fn new() -> (r: LinkGraph)
        ensures
            r.wf(),
            r.internal() == Seq::<Set<Seq<char>>>::empty(),
            r.external() == Seq::<Set<Seq<char>>>::empty(),
    {
        let r = LinkGraph { pages: Vec::new() };
        assert(r.internal() =~= Seq::<Set<Seq<char>>>::empty());
        assert(r.external() =~= Seq::<Set<Seq<char>>>::empty());
        r
    }

    /// The number of pages the graph has room for.
    pub fn len(&self) -> (r: usize)
        ensures
            r == self.internal().len(),
            r == self.external().len(),
    {
        self.pages.len()
    }

    /// Adds a page whose links are `links`.
    pub fn push_page(&mut self, links: LinkSet)
        requires
            old(self).wf(),
            distinct_texts(links.internal@),
            distinct_texts(links.external@),
        ensures
            final(self).wf(),
            final(self).internal() == old(self).internal().push(text_set(links.internal@)),
            final(self).external() == old(self).external().push(text_set(links.external@)),
    {
        let ghost li = text_set(links.internal@);
        let ghost le = text_set(links.external@);
        self.pages.push(links);
        assert(self.internal() =~= old(self).internal().push(li));
        assert(self.external() =~= old(self).external().push(le));
    }

    /// Replaces the links of page `p` with `links`: a full recompute.
    pub fn replace(&mut self, p: usize, links: LinkSet)
        requires
            old(self).wf(),
            p < old(self).internal().len(),
            distinct_texts(links.internal@),
            distinct_texts(links.external@),
        ensures
            final(self).wf(),
            final(self).internal() == old(self).internal().update(p as int, text_set(links.internal@)),
            final(self).external() == old(self).external().update(p as int, text_set(links.external@)),
    {
        let ghost li = text_set(links.internal@);
        let ghost le = text_set(links.external@);
        self.pages.set(p, links);
        assert(self.internal() =~= old(self).internal().update(p as int, li));
        assert(self.external() =~= old(self).external().update(p as int, le));
    }

    /// Removes every link of page `p`.
    pub fn clear(&mut self, p: usize)
        requires
            old(self).wf(),
            p < old(self).internal().len(),
        ensures
            final(self).wf(),
            final(self).internal() == old(self).internal().update(p as int, Set::empty()),
            final(self).external() == old(self).external().update(p as int, Set::empty()),
    {
        let empty = LinkSet { internal: Vec::new(), external: Vec::new() };
        assert(text_set(empty.internal@) =~= Set::empty());
        assert(text_set(empty.external@) =~= Set::empty());
        self.replace(p, empty);
    }

    /// Applies the difference between two link sets to page `p`: removed
    /// links go, added links come, the others stay.
    pub fn apply_delta(
        &mut self,
        p: usize,
        added_internal: &Vec<String>,
        removed_internal: &Vec<String>,
        added_external: &Vec<String>,
        removed_external: &Vec<String>,
    )
        requires
            old(self).wf(),
            p < old(self).internal().len(),
        ensures
            final(self).wf(),
            final(self).internal() == old(self).internal().update(
                p as int,
                old(self).internal()[p as int].difference(text_set(removed_internal@)).union(
                    text_set(added_internal@),
                ),
            ),
            final(self).external() == old(self).external().update(
                p as int,
                old(self).external()[p as int].difference(text_set(removed_external@)).union(
                    text_set(added_external@),
                ),
            ),
    {
        let mut internal = clone_strings(&self.pages[p].internal);
        let mut external = clone_strings(&self.pages[p].external);
        apply_set_delta(&mut internal, added_internal, removed_internal);
        apply_set_delta(&mut external, added_external, removed_external);
        self.replace(p, LinkSet { internal, external });
    }

    /// The slugs that page `p` links to.
    pub fn outgoing(&self, p: usize) -> (r: Vec<String>)
        requires
            self.wf(),
            p < self.internal().len(),
        ensures
            distinct_texts(r@),
            text_set(r@) == self.internal()[p as int],
    {
        clone_strings(&self.pages[p].internal)
    }

    /// The URLs that page `p` links to.
    pub fn external_outgoing(&self, p: usize) -> (r: Vec<String>)
        requires
            self.wf(),
            p < self.external().len(),
        ensures
            distinct_texts(r@),
            text_set(r@) == self.external()[p as int],
    {
        clone_strings(&self.pages[p].external)
    }

    /// Page `p` links to slug `t`.
    pub fn links_to(&self, p: usize, t: &String) -> (r: bool)
        requires
            p < self.internal().len(),
        ensures
            r == self.internal()[p as int].contains(t@),
    {
        contains_text(&self.pages[p].internal, t)
    }

    /// Page `p` links to URL `u`.
    pub fn links_to_url(&self, p: usize, u: &String) -> (r: bool)
        requires
            p < self.external().len(),
        ensures
            r == self.external()[p as int].contains(u@),
    {
        contains_text(&self.pages[p].external, u)
    }
}

} // verus!
