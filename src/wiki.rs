//! The revision orchestrator: pages, their histories, the content store and
//! the link graph, changed together by one operation at a time.
//!
//! Every operation either succeeds and leaves all stores consistent with each
//! other, or fails and leaves them exactly as they were.

use vstd::prelude::*;

use crate::error::Error;
use crate::graph::LinkGraph;
use crate::links::{
    distinct_texts, extract_links, external_targets, internal_targets, is_slug, text_set, valid_slug,
};
use crate::graph::{clone_strings, difference};
use crate::revision::{
    clone_bytes, clone_opt_string, CreatePage, CreatePageOutput, EditPage, Page, Rendered,
    RestorePage, RestorePageOutput, Revision, RevisionOutput, RevisionType,
};
use crate::text::{sha512_of, stored};
use crate::strings::str_eq;
use crate::text::TextStore;

verus! {

/// The wiki as a mathematical value.
pub struct WikiView {
    /// The page directory, indexed by page id.
    pub pages: Seq<Page>,
    /// Each page's revisions, indexed by sequence number.
    pub history: Seq<Seq<Revision>>,
    /// The content store.
    pub texts: Map<Seq<u8>, Seq<char>>,
    /// The slugs each page currently links to.
    pub internal: Seq<Set<Seq<char>>>,
    /// The URLs each page currently links to.
    pub external: Seq<Set<Seq<char>>>,
}

impl WikiView {
    pub open spec fn has_page(self, p: int) -> bool {
        0 <= p < self.pages.len()
    }

    /// The page exists and is not deleted.
    pub open spec fn live(self, p: int) -> bool {
        self.has_page(p) && self.pages[p].deleted_at is None
    }

    pub open spec fn latest(self, p: int) -> Revision {
        self.history[p].last()
    }

    /// Some live page of the site has this slug.
    pub open spec fn slug_taken(self, site: u64, slug: Seq<char>) -> bool {
        exists|p: int|
            self.live(p) && (#[trigger] self.pages[p]).site_id == site && self.pages[p].slug@ == slug
    }

    /// The live pages that link to live page `p`.
    pub open spec fn incoming(self, p: int) -> Set<u64> {
        Set::new(
            |q: u64|
                self.live(p) && self.live(q as int) && self.pages[q as int].site_id
                    == self.pages[p].site_id && self.internal[q as int].contains(self.pages[p].slug@),
        )
    }

    /// The live pages of `site` that link to `slug` while no live page has it.
    pub open spec fn missing_incoming(self, site: u64, slug: Seq<char>) -> Set<u64> {
        Set::new(
            |q: u64|
                !self.slug_taken(site, slug) && self.live(q as int) && self.pages[q as int].site_id
                    == site && self.internal[q as int].contains(slug),
        )
    }

    /// The live pages of `site` that link to `url`.
    pub open spec fn external_incoming(self, site: u64, url: Seq<char>) -> Set<u64> {
        Set::new(
            |q: u64|
                self.live(q as int) && self.pages[q as int].site_id == site && self.external[q as int].contains(
                    url,
                ),
        )
    }

    /// Every page other than `p` that existed in `self` is the same in `n`.
    pub open spec fn others_unchanged(self, n: WikiView, p: int) -> bool {
        forall|q: int|
            #![trigger n.pages[q]]
            #![trigger n.history[q]]
            #![trigger n.internal[q]]
            #![trigger n.external[q]]
            0 <= q < self.pages.len() && q != p ==> n.pages[q] == self.pages[q] && n.history[q]
                == self.history[q] && n.internal[q] == self.internal[q] && n.external[q]
                == self.external[q]
    }

    /// Why a create request is refused, if it is.
    pub open spec fn create_error(self, input: CreatePage, rendered: Option<Rendered>) -> Option<Error> {
        if !is_slug(input.slug@) || input.title@.len() == 0 {
            Some(Error::ValidationError)
        } else if self.slug_taken(input.site_id, input.slug@) {
            Some(Error::Conflict)
        } else if rendered is None {
            Some(Error::RenderError)
        } else {
            None
        }
    }

    /// `n` is `self` after page `self.pages.len()` was created from `input`:
    /// a live page whose history is one create revision, whose texts were
    /// written to the store, and whose links are those of its stored text.
    pub open spec fn created(
        self,
        n: WikiView,
        input: CreatePage,
        rendered: Rendered,
        now: i64,
        revision_id: u64,
    ) -> bool {
        let p = self.pages.len() as int;
        let rev = n.history[p][0];
        let page = n.pages[p];
        let text_hash = sha512_of(input.wikitext@);
        &&& n.pages.len() == p + 1
        &&& self.others_unchanged(n, p)
        &&& n.texts == stored(stored(self.texts, input.wikitext@), rendered.compiled@)
        &&& n.history[p].len() == 1
        &&& rev.revision_id == revision_id
        &&& rev.page_id == p
        &&& rev.site_id == input.site_id
        &&& rev.revision_number == 0
        &&& rev.revision_type == RevisionType::Create
        &&& rev.user_id == input.user_id
        &&& rev.created_at == now
        &&& rev.wikitext_hash@ == text_hash
        &&& rev.compiled_hash@ == sha512_of(rendered.compiled@)
        &&& rev.compiled_at == now
        &&& rev.compiled_generator == rendered.generator
        &&& rev.title == input.title
        &&& rev.alt_title == input.alt_title
        &&& rev.slug == input.slug
        &&& rev.tags == input.tags
        &&& rev.comments == input.comments
        &&& rev.hidden@.len() == 0
        &&& page.page_id == p
        &&& page.site_id == input.site_id
        &&& page.page_category_id == input.category_id
        &&& page.discussion_thread_id is None
        &&& page.created_at == now
        &&& page.updated_at is None
        &&& page.deleted_at is None
        &&& page.latest_revision_number == 0
        &&& page.slug == input.slug
        &&& n.internal[p] == internal_targets(n.texts[text_hash])
        &&& n.external[p] == external_targets(n.texts[text_hash])
    }

    /// Why an edit of page `p` is refused, if it is.
    pub open spec fn edit_error(self, p: int, input: EditPage, rendered: Option<Rendered>) -> Option<Error> {
        if !self.live(p) {
            Some(Error::NotFound)
        } else if input.title@.len() == 0 {
            Some(Error::ValidationError)
        } else if input.revision_number != self.latest(p).revision_number {
            Some(Error::Conflict)
        } else if rendered is None {
            Some(Error::RenderError)
        } else {
            None
        }
    }

    /// `n` is `self` after one regular revision was appended to page `p` with
    /// the contents of `input`, the page's pointer advanced, and its links
    /// brought to those of the new text.
    pub open spec fn edited(
        self,
        n: WikiView,
        p: int,
        input: EditPage,
        rendered: Rendered,
        now: i64,
        revision_id: u64,
    ) -> bool {
        let h = self.history[p].len() as int;
        let rev = n.history[p][h];
        let text_hash = sha512_of(input.wikitext@);
        &&& n.pages.len() == self.pages.len()
        &&& self.others_unchanged(n, p)
        &&& n.texts == stored(stored(self.texts, input.wikitext@), rendered.compiled@)
        &&& n.history[p] == self.history[p].push(rev)
        &&& rev.revision_id == revision_id
        &&& rev.page_id == p
        &&& rev.site_id == self.pages[p].site_id
        &&& rev.revision_number == h
        &&& rev.revision_type == RevisionType::Regular
        &&& rev.user_id == input.user_id
        &&& rev.created_at == now
        &&& rev.wikitext_hash@ == text_hash
        &&& rev.compiled_hash@ == sha512_of(rendered.compiled@)
        &&& rev.compiled_at == now
        &&& rev.compiled_generator == rendered.generator
        &&& rev.title == input.title
        &&& rev.alt_title == input.alt_title
        &&& rev.slug == self.latest(p).slug
        &&& rev.tags == input.tags
        &&& rev.comments == input.comments
        &&& rev.hidden@.len() == 0
        &&& n.pages[p] == (Page {
            latest_revision_number: h as u64,
            updated_at: Some(now),
            ..self.pages[p]
        })
        &&& n.internal[p] == internal_targets(n.texts[text_hash])
        &&& n.external[p] == external_targets(n.texts[text_hash])
    }

    /// Why deleting page `p` is refused, if it is.
    pub open spec fn delete_error(self, p: int) -> Option<Error> {
        if !self.has_page(p) {
            Some(Error::NotFound)
        } else if !self.live(p) {
            Some(Error::Conflict)
        } else {
            None
        }
    }

    /// `n` is `self` after a delete revision, with the latest content and
    /// metadata, was appended to page `p`, the page was marked deleted at
    /// `now`, and all its outgoing links were removed.
    pub open spec fn deleted(
        self,
        n: WikiView,
        p: int,
        user_id: u64,
        comments: String,
        now: i64,
        revision_id: u64,
    ) -> bool {
        let h = self.history[p].len() as int;
        let rev = n.history[p][h];
        let prev = self.latest(p);
        &&& n.pages.len() == self.pages.len()
        &&& self.others_unchanged(n, p)
        &&& n.texts == self.texts
        &&& n.history[p] == self.history[p].push(rev)
        &&& rev.revision_id == revision_id
        &&& rev.page_id == p
        &&& rev.site_id == self.pages[p].site_id
        &&& rev.revision_number == h
        &&& rev.revision_type == RevisionType::Delete
        &&& rev.user_id == user_id
        &&& rev.created_at == now
        &&& rev.wikitext_hash@ == prev.wikitext_hash@
        &&& rev.compiled_hash@ == prev.compiled_hash@
        &&& rev.compiled_at == prev.compiled_at
        &&& rev.compiled_generator == prev.compiled_generator
        &&& rev.title == prev.title
        &&& rev.alt_title == prev.alt_title
        &&& rev.slug == prev.slug
        &&& rev.tags@ == prev.tags@
        &&& rev.comments == comments
        &&& rev.hidden@.len() == 0
        &&& n.pages[p] == (Page {
            latest_revision_number: h as u64,
            updated_at: Some(now),
            deleted_at: Some(now),
            ..self.pages[p]
        })
        &&& n.internal[p] == Set::<Seq<char>>::empty()
        &&& n.external[p] == Set::<Seq<char>>::empty()
    }

    /// Why restoring page `p` is refused, if it is.
    pub open spec fn restore_error(self, p: int, input: RestorePage) -> Option<Error> {
        if !self.has_page(p) {
            Some(Error::NotFound)
        } else if self.live(p) {
            Some(Error::Conflict)
        } else if input.revision_number >= self.history[p].len() {
            Some(Error::NotFound)
        } else if self.slug_taken(self.pages[p].site_id, self.pages[p].slug@) {
            Some(Error::Conflict)
        } else {
            None
        }
    }

    /// `n` is `self` after a restore revision was appended to deleted page
    /// `p`, referring to the texts of revision `input.revision_number`, the
    /// page was made live again, and its links were recomputed in full from
    /// that text.
    pub open spec fn restored(
        self,
        n: WikiView,
        p: int,
        input: RestorePage,
        now: i64,
        revision_id: u64,
    ) -> bool {
        let h = self.history[p].len() as int;
        let rev = n.history[p][h];
        let src = self.history[p][input.revision_number as int];
        &&& n.pages.len() == self.pages.len()
        &&& self.others_unchanged(n, p)
        &&& n.texts == self.texts
        &&& n.history[p] == self.history[p].push(rev)
        &&& rev.revision_id == revision_id
        &&& rev.page_id == p
        &&& rev.site_id == self.pages[p].site_id
        &&& rev.revision_number == h
        &&& rev.revision_type == RevisionType::Undelete
        &&& rev.user_id == input.user_id
        &&& rev.created_at == now
        &&& rev.wikitext_hash@ == src.wikitext_hash@
        &&& rev.compiled_hash@ == src.compiled_hash@
        &&& rev.compiled_at == src.compiled_at
        &&& rev.compiled_generator == src.compiled_generator
        &&& rev.title == src.title
        &&& rev.alt_title == src.alt_title
        &&& rev.slug == self.latest(p).slug
        &&& rev.tags@ == src.tags@
        &&& rev.comments == input.comments
        &&& rev.hidden@.len() == 0
        &&& n.pages[p] == (Page {
            latest_revision_number: h as u64,
            updated_at: Some(now),
            deleted_at: None,
            ..self.pages[p]
        })
        &&& n.internal[p] == internal_targets(self.texts[src.wikitext_hash@])
        &&& n.external[p] == external_targets(self.texts[src.wikitext_hash@])
    }

    /// Why re-rendering page `p` is refused, if it is.
    pub open spec fn rerender_error(self, p: int, rendered: Option<Rendered>) -> Option<Error> {
        if !self.has_page(p) {
            Some(Error::NotFound)
        } else if rendered is None {
            Some(Error::RenderError)
        } else {
            None
        }
    }

    /// `n` is `self` after the compiled output of page `p`'s latest revision
    /// was replaced in place by `rendered`: no revision appended, nothing else
    /// of the page, its history or the link graph changed.
    pub open spec fn rerendered(self, n: WikiView, p: int, rendered: Rendered, now: i64) -> bool {
        let last = self.history[p].len() - 1;
        let rev = n.history[p][last];
        &&& n.pages == self.pages
        &&& n.internal == self.internal
        &&& n.external == self.external
        &&& self.others_unchanged(n, p)
        &&& n.texts == stored(self.texts, rendered.compiled@)
        &&& n.history[p] == self.history[p].update(last, rev)
        &&& rev.compiled_hash@ == sha512_of(rendered.compiled@)
        &&& rev == (Revision {
            compiled_hash: rev.compiled_hash,
            compiled_at: now,
            compiled_generator: rendered.generator,
            ..self.latest(p)
        })
    }

    /// Revision `j` of page `p` is numbered `j`, belongs to the page, and its
    /// texts are stored.
    pub open spec fn revision_ok(self, p: int, j: int) -> bool {
        let r = self.history[p][j];
        &&& r.revision_number == j
        &&& r.page_id == p
        &&& r.site_id == self.pages[p].site_id
        &&& self.texts.contains_key(r.wikitext_hash@)
        &&& self.texts.contains_key(r.compiled_hash@)
    }

    /// The links of page `p` are those of its latest text while it is live,
    /// and none while it is deleted.
    pub open spec fn links_ok(self, p: int) -> bool {
        if self.live(p) {
            &&& self.internal[p] == internal_targets(self.texts[self.latest(p).wikitext_hash@])
            &&& self.external[p] == external_targets(self.texts[self.latest(p).wikitext_hash@])
        } else {
            &&& self.internal[p] == Set::<Seq<char>>::empty()
            &&& self.external[p] == Set::<Seq<char>>::empty()
        }
    }

    pub open spec fn page_ok(self, p: int) -> bool {
        &&& self.pages[p].page_id == p
        &&& self.history[p].len() >= 1
        &&& self.pages[p].latest_revision_number == self.history[p].len() - 1
        &&& forall|j: int| 0 <= j < self.history[p].len() ==> #[trigger] self.revision_ok(p, j)
        &&& (self.pages[p].deleted_at is Some <==> self.latest(p).revision_type
            == RevisionType::Delete)
        &&& self.pages[p].slug@ == self.latest(p).slug@
        &&& self.links_ok(p)
    }

    /// The stores agree with each other: every stored text sits under its
    /// own hash, gap-free histories, referential integrity of hashes, unique live slugs per site, and a link graph
    /// derived from the latest content.
    pub open spec fn consistent(self) -> bool {
        &&& self.history.len() == self.pages.len()
        &&& self.internal.len() == self.pages.len()
        &&& self.external.len() == self.pages.len()
        &&& forall|k: Seq<u8>| #[trigger] self.texts.contains_key(k) ==> k == sha512_of(self.texts[k])
        &&& forall|p: int| 0 <= p < self.pages.len() ==> #[trigger] self.page_ok(p)
        &&& forall|p: int, q: int|
            #![trigger self.pages[p], self.pages[q]]
            self.live(p) && self.live(q) && p != q && self.pages[p].site_id == self.pages[q].site_id
                ==> self.pages[p].slug@ != self.pages[q].slug@
    }
}

/// The whole engine: content store, revision log, page directory and link
/// graph.
pub struct Wiki {
    texts: TextStore,
    pages: Vec<Page>,
    history: Vec<Vec<Revision>>,
    links: LinkGraph,
}

impl View for Wiki {
    type V = WikiView;

    closed spec fn view(&self) -> WikiView {
        WikiView {
            pages: self.pages@,
            history: self.history@.map_values(|h: Vec<Revision>| h@),
            texts: self.texts@,
            internal: self.links.internal(),
            external: self.links.external(),
        }
    }
}

impl Wiki {
    pub closed spec fn wf(&self) -> bool {
        &&& self.texts.wf()
        &&& self.links.wf()
        &&& self@.consistent()
    }

    /// A well-formed wiki is consistent: what the invariant promises holds
    /// of the wiki's view.
    pub proof fn lemma_wf_consistent(&self)
        requires
            self.wf(),
        ensures
            self@.consistent(),
    {
    }

    /// A wiki with no pages.
    pub fn new() -> (r: Wiki)
        ensures
            r.wf(),
            r@.pages.len() == 0,
            r@.texts == Map::<Seq<u8>, Seq<char>>::empty(),
    {
        let r = Wiki {
            texts: TextStore::new(),
            pages: Vec::new(),
            history: Vec::new(),
            links: LinkGraph::new(),
        };
        assert(r@.history =~= Seq::<Seq<Revision>>::empty());
        r
    }

    /// The content store.
    pub fn texts(&self) -> (r: &TextStore)
        requires
            self.wf(),
        ensures
            r.wf(),
            r@ == self@.texts,
    {
        &self.texts
    }

    /// The number of pages ever created.
    pub fn page_count(&self) -> (r: usize)
        requires
            self.wf(),
        ensures
            r == self@.pages.len(),
    {
        self.pages.len()
    }

    /// The page with id `page_id`, deleted or not.
    pub fn page(&self, page_id: u64) -> (r: Option<&Page>)
        requires
            self.wf(),
        ensures
            match r {
                Some(pg) => self@.has_page(page_id as int) && *pg == self@.pages[page_id as int],
                None => !self@.has_page(page_id as int),
            },
    {
        if page_id < self.pages.len() as u64 {
            Some(&self.pages[page_id as usize])
        } else {
            None
        }
    }

    /// Revision `revision_number` of page `page_id`.
    pub fn revision(&self, page_id: u64, revision_number: u64) -> (r: Option<&Revision>)
        requires
            self.wf(),
        ensures
            match r {
                Some(rev) => self@.has_page(page_id as int) && revision_number
                    < self@.history[page_id as int].len() && *rev
                    == self@.history[page_id as int][revision_number as int],
                None => !self@.has_page(page_id as int) || revision_number
                    >= self@.history[page_id as int].len(),
            },
    {
        if page_id < self.pages.len() as u64 {
            let p = page_id as usize;
            assert(self@.history[p as int] == self.history@[p as int]@);
            if revision_number < self.history[p].len() as u64 {
                Some(&self.history[p][revision_number as usize])
            } else {
                None
            }
        } else {
            None
        }
    }

    /// The latest revision of page `page_id`.
    pub fn latest_revision(&self, page_id: u64) -> (r: Option<&Revision>)
        requires
            self.wf(),
        ensures
            match r {
                Some(rev) => self@.has_page(page_id as int) && *rev == self@.latest(page_id as int),
                None => !self@.has_page(page_id as int),
            },
    {
        if page_id < self.pages.len() as u64 {
            let p = page_id as usize;
            assert(self@.history[p as int] == self.history@[p as int]@);
            assert(self@.page_ok(p as int));
            let n = self.history[p].len();
            Some(&self.history[p][n - 1])
        } else {
            None
        }
    }

    /// The live page of `site_id` with slug `slug`.
    pub fn find_page(&self, site_id: u64, slug: &String) -> (r: Option<u64>)
        requires
            self.wf(),
        ensures
            match r {
                Some(p) => self@.live(p as int) && self@.pages[p as int].site_id == site_id
                    && self@.pages[p as int].slug@ == slug@,
                None => !self@.slug_taken(site_id, slug@),
            },
    {
        let mut i: usize = 0;
        while i < self.pages.len()
            invariant
                self.wf(),
                i <= self@.pages.len(),
                forall|q: int|
                    0 <= q < i ==> !(self@.live(q) && (#[trigger] self@.pages[q]).site_id == site_id
                        && self@.pages[q].slug@ == slug@),
            decreases self@.pages.len() - i,
        {
            let pg = &self.pages[i];
            if pg.deleted_at.is_none() && pg.site_id == site_id && str_eq(&pg.slug, slug) {
                return Some(i as u64);
            }
            i = i + 1;
        }
        None
    }

    /// The slugs that page `page_id` currently links to; none once deleted.
    pub fn get_outgoing(&self, page_id: u64) -> (r: Result<Vec<String>, Error>)
        requires
            self.wf(),
        ensures
            match r {
                Ok(v) => self@.has_page(page_id as int) && distinct_texts(v@) && text_set(v@)
                    == self@.internal[page_id as int],
                Err(e) => !self@.has_page(page_id as int) && e == Error::NotFound,
            },
    {
        if page_id < self.pages.len() as u64 {
            Ok(self.links.outgoing(page_id as usize))
        } else {
            Err(Error::NotFound)
        }
    }

    /// The URLs that page `page_id` currently links to; none once deleted.
    pub fn get_external_outgoing(&self, page_id: u64) -> (r: Result<Vec<String>, Error>)
        requires
            self.wf(),
        ensures
            match r {
                Ok(v) => self@.has_page(page_id as int) && distinct_texts(v@) && text_set(v@)
                    == self@.external[page_id as int],
                Err(e) => !self@.has_page(page_id as int) && e == Error::NotFound,
            },
    {
        if page_id < self.pages.len() as u64 {
            Ok(self.links.external_outgoing(page_id as usize))
        } else {
            Err(Error::NotFound)
        }
    }

    /// The live pages of `site_id` whose links include `slug` (or, with
    /// `url`, the URL), in page order.
    fn pages_linking(&self, site_id: u64, target: &String, url: bool) -> (r: Vec<u64>)
        requires
            self.wf(),
        ensures
            r@.no_duplicates(),
            forall|q: u64|
                r@.contains(q) <==> (self@.live(q as int) && self@.pages[q as int].site_id == site_id
                    && if url {
                    self@.external[q as int].contains(target@)
                } else {
                    self@.internal[q as int].contains(target@)
                }),
    {
        let mut r: Vec<u64> = Vec::new();
        let mut i: usize = 0;
        while i < self.pages.len()
            invariant
                self.wf(),
                i <= self@.pages.len(),
                r@.no_duplicates(),
                forall|k: int| 0 <= k < r@.len() ==> r@[k] < i,
                forall|q: u64|
                    r@.contains(q) <==> (q < i && self@.live(q as int) && self@.pages[q as int].site_id
                        == site_id && if url {
                        self@.external[q as int].contains(target@)
                    } else {
                        self@.internal[q as int].contains(target@)
                    }),
            decreases self@.pages.len() - i,
        {
            let pg = &self.pages[i];
            let hit = if url {
                self.links.links_to_url(i, target)
            } else {
                self.links.links_to(i, target)
            };
            let ghost before = r@;
            if pg.deleted_at.is_none() && pg.site_id == site_id && hit {
                r.push(i as u64);
            }
            proof {
                assert forall|q: u64| q != i as u64 implies (r@.contains(q) <==> before.contains(q)) by {
                    if r@.contains(q) {
                        let k = choose|k: int| 0 <= k < r@.len() && r@[k] == q;
                        if k < before.len() {
                            assert(before[k] == q);
                        }
                    }
                    if before.contains(q) {
                        let k = choose|k: int| 0 <= k < before.len() && before[k] == q;
                        assert(r@[k] == q);
                    }
                }
                if r@.len() > before.len() {
                    assert(r@[before.len() as int] == i as u64);
                }
                assert forall|q: u64| before.contains(q) implies q < i by {
                    let k = choose|k: int| 0 <= k < before.len() && before[k] == q;
                }
                assert forall|q: u64|
                    r@.contains(q) <==> (q < i + 1 && self@.live(q as int) && self@.pages[q as int].site_id
                        == site_id && if url {
                        self@.external[q as int].contains(target@)
                    } else {
                        self@.internal[q as int].contains(target@)
                    }) by {
                    if q != i as u64 {
                        assert(r@.contains(q) <==> before.contains(q));
                    }
                }
            }
            i = i + 1;
        }
        r
    }

    /// The live pages that link to live page `page_id`: its resolved
    /// incoming links. A deleted page has none.
    pub fn get_incoming(&self, page_id: u64) -> (r: Result<Vec<u64>, Error>)
        requires
            self.wf(),
        ensures
            match r {
                Ok(v) => self@.has_page(page_id as int) && v@.no_duplicates() && v@.to_set()
                    == self@.incoming(page_id as int),
                Err(e) => !self@.has_page(page_id as int) && e == Error::NotFound,
            },
    {
        if page_id >= self.pages.len() as u64 {
            return Err(Error::NotFound);
        }
        let pg = &self.pages[page_id as usize];
        if pg.deleted_at.is_some() {
            let v: Vec<u64> = Vec::new();
            assert(v@.to_set() =~= self@.incoming(page_id as int));
            return Ok(v);
        }
        let v = self.pages_linking(pg.site_id, &pg.slug, false);
        assert(v@.to_set() =~= self@.incoming(page_id as int));
        Ok(v)
    }

    /// The live pages of `site_id` that link to `slug` while no live page
    /// has that slug: the wanted-page report for it.
    pub fn get_missing_incoming(&self, site_id: u64, slug: &String) -> (r: Vec<u64>)
        requires
            self.wf(),
        ensures
            r@.no_duplicates(),
            r@.to_set() == self@.missing_incoming(site_id, slug@),
    {
        match self.find_page(site_id, slug) {
            Some(_) => {
                let v: Vec<u64> = Vec::new();
                assert(v@.to_set() =~= self@.missing_incoming(site_id, slug@));
                v
            },
            None => {
                let v = self.pages_linking(site_id, slug, false);
                assert(v@.to_set() =~= self@.missing_incoming(site_id, slug@));
                v
            },
        }
    }

    /// The live pages of `site_id` that link to `url`.
    pub fn get_external_incoming(&self, site_id: u64, url: &String) -> (r: Vec<u64>)
        requires
            self.wf(),
        ensures
            r@.no_duplicates(),
            r@.to_set() == self@.external_incoming(site_id, url@),
    {
        let v = self.pages_linking(site_id, url, true);
        assert(v@.to_set() =~= self@.external_incoming(site_id, url@));
        v
    }
    /// The pages whose links to `slug` resolve to the live page of `site_id`
    /// at that slug; none while no live page has it (the links are missing).
    pub fn resolve_missing(&self, site_id: u64, slug: &String) -> (r: Vec<u64>)
        requires
            self.wf(),
        ensures
            r@.no_duplicates(),
            match self.find_page_spec(site_id, slug@) {
                Some(p) => r@.to_set() == self@.incoming(p),
                None => r@.len() == 0,
            },
    {
        match self.find_page(site_id, slug) {
            Some(p) => {
                proof {
                    self.lemma_find_page_unique(site_id, slug@, p as int);
                }
                match self.get_incoming(p) {
                    Ok(v) => v,
                    Err(_) => {
                        assert(false);
                        Vec::new()
                    },
                }
            },
            None => Vec::new(),
        }
    }

    /// The live page of `site_id` with slug `slug`, if there is one.
    pub open spec fn find_page_spec(&self, site_id: u64, slug: Seq<char>) -> Option<int> {
        if self@.slug_taken(site_id, slug) {
            Some(
                choose|p: int|
                    self@.live(p) && (#[trigger] self@.pages[p]).site_id == site_id && self@.pages[p].slug@
                        == slug,
            )
        } else {
            None
        }
    }

    proof fn lemma_find_page_unique(&self, site_id: u64, slug: Seq<char>, p: int)
        requires
            self.wf(),
            self@.live(p),
            self@.pages[p].site_id == site_id,
            self@.pages[p].slug@ == slug,
        ensures
            self.find_page_spec(site_id, slug) == Some(p),
    {
        let c = choose|c: int|
            self@.live(c) && (#[trigger] self@.pages[c]).site_id == site_id && self@.pages[c].slug@ == slug;
        assert(self@.live(c) && self@.pages[c].site_id == site_id && self@.pages[c].slug@ == slug);
        if c != p {
            assert(self@.pages[c].slug@ != self@.pages[p].slug@);
        }
    }

    /// Creates a page at `input.slug` in `input.site_id`, with `rendered` as
    /// the renderer's output for `input.wikitext` (`None`: the renderer
    /// rejected it), `now` as the time and `revision_id` from the identity
    /// source.
    pub fn create(
        &mut self,
        input: CreatePage,
        rendered: Option<Rendered>,
        now: i64,
        revision_id: u64,
    ) -> (r: Result<CreatePageOutput, Error>)
        requires
            old(self).wf(),
        ensures
            final(self).wf(),
            match r {
                Ok(out) => {
                    &&& old(self)@.create_error(input, rendered) is None
                    &&& old(self)@.created(final(self)@, input, rendered->0, now, revision_id)
                    &&& out.page_id == old(self)@.pages.len()
                    &&& out.revision_id == revision_id
                    &&& out.revision_number == 0
                    &&& out.resolved_from@.no_duplicates()
                    &&& out.resolved_from@.to_set() == final(self)@.incoming(out.page_id as int)
                },
                Err(e) => {
                    &&& old(self)@.create_error(input, rendered) == Some(e)
                    &&& final(self)@ == old(self)@
                },
            },
    {
        if !valid_slug(input.slug.as_str()) || input.title.as_str().is_empty() {
            return Err(Error::ValidationError);
        }
        if self.find_page(input.site_id, &input.slug).is_some() {
            return Err(Error::Conflict);
        }
        let rendered = match rendered {
            Some(x) => x,
            None => return Err(Error::RenderError),
        };
        let ghost o = self@;
        let CreatePage { site_id, category_id, user_id, slug, title, alt_title, tags, wikitext, comments } = input;
        let Rendered { compiled, generator } = rendered;
        let p = self.pages.len();
        let page_id = p as u64;
        let wikitext_hash = self.texts.put(wikitext);
        let compiled_hash = self.texts.put(compiled);
        let ghost t1 = stored(o.texts, input.wikitext@);
        proof {
            lemma_stored_keeps(o.texts, input.wikitext@);
            lemma_stored_keeps(t1, rendered.compiled@);
        }
        let stored_text = match self.texts.get(&wikitext_hash) {
            Ok(t) => t,
            Err(_) => {
                assert(false);
                return Err(Error::StorageError);
            },
        };
        let links = extract_links(stored_text.as_str());
        let page = Page {
            page_id,
            site_id,
            page_category_id: category_id,
            discussion_thread_id: None,
            created_at: now,
            updated_at: None,
            deleted_at: None,
            latest_revision_number: 0,
            slug: slug.clone(),
        };
        let rev = Revision {
            revision_id,
            page_id,
            site_id,
            revision_number: 0,
            revision_type: RevisionType::Create,
            user_id,
            created_at: now,
            wikitext_hash,
            compiled_hash,
            compiled_at: now,
            compiled_generator: generator,
            title,
            alt_title,
            slug,
            tags,
            comments,
            hidden: Vec::new(),
        };
        let mut h: Vec<Revision> = Vec::new();
        h.push(rev);
        self.pages.push(page);
        self.history.push(h);
        self.links.push_page(links);
        proof {
            let n = self@;
            self.texts.lemma_keyed_by_hash();
            assert(n.history =~= o.history.push(h@));
            assert forall|q: int| 0 <= q < n.pages.len() implies #[trigger] n.page_ok(q) by {
                if q < p {
                    assert(o.page_ok(q));
                    assert(n.pages[q] == o.pages[q]);
                    assert(n.history[q] == o.history[q]);
                    assert forall|j: int| 0 <= j < n.history[q].len() implies #[trigger] n.revision_ok(q, j) by {
                        assert(o.revision_ok(q, j));
                    }
                    let last = o.history[q].len() - 1;
                    assert(o.revision_ok(q, last));
                    assert(n.latest(q) == o.latest(q));
                    assert(n.texts[o.latest(q).wikitext_hash@] == o.texts[o.latest(q).wikitext_hash@]);
                    assert(n.links_ok(q));
                } else {
                    assert(n.history[q] == h@);
                    assert(n.revision_ok(q, 0));
                    assert(n.links_ok(q));
                }
            }
            assert forall|a: int, b: int|
                #![trigger n.pages[a], n.pages[b]]
                n.live(a) && n.live(b) && a != b && n.pages[a].site_id == n.pages[b].site_id
                    implies n.pages[a].slug@ != n.pages[b].slug@ by {
                if a == p {
                    assert(!(o.live(b) && o.pages[b].site_id == input.site_id && o.pages[b].slug@ == input.slug@));
                } else if b == p {
                    assert(!(o.live(a) && o.pages[a].site_id == input.site_id && o.pages[a].slug@ == input.slug@));
                }
            }
        }
        let resolved_from = match self.get_incoming(page_id) {
            Ok(v) => v,
            Err(_) => {
                assert(false);
                Vec::new()
            },
        };
        Ok(CreatePageOutput { page_id, revision_id, revision_number: 0, resolved_from })
    }
    /// Appends a regular revision to live page `page_id` with the contents of
    /// `input`, provided no other revision came after `input.revision_number`.
    /// Only the difference between the old and the new link sets is applied
    /// to the link graph.
    pub fn edit(
        &mut self,
        page_id: u64,
        input: EditPage,
        rendered: Option<Rendered>,
        now: i64,
        revision_id: u64,
    ) -> (r: Result<RevisionOutput, Error>)
        requires
            old(self).wf(),
        ensures
            final(self).wf(),
            match r {
                Ok(out) => {
                    &&& old(self)@.edit_error(page_id as int, input, rendered) is None
                    &&& old(self)@.edited(final(self)@, page_id as int, input, rendered->0, now, revision_id)
                    &&& out.revision_id == revision_id
                    &&& out.revision_number == old(self)@.history[page_id as int].len()
                },
                Err(e) => {
                    &&& old(self)@.edit_error(page_id as int, input, rendered) == Some(e)
                    &&& final(self)@ == old(self)@
                },
            },
    {
        if page_id >= self.pages.len() as u64 || self.pages[page_id as usize].deleted_at.is_some() {
            return Err(Error::NotFound);
        }
        let p = page_id as usize;
        if input.title.as_str().is_empty() {
            return Err(Error::ValidationError);
        }
        let ghost o = self@;
        proof {
            assert(o.page_ok(p as int));
            assert(o.history[p as int] == self.history@[p as int]@);
        }
        let last = self.history[p].len() - 1;
        if input.revision_number != self.history[p][last].revision_number {
            return Err(Error::Conflict);
        }
        let rendered = match rendered {
            Some(x) => x,
            None => return Err(Error::RenderError),
        };
        let EditPage { user_id, revision_number: _, wikitext, title, alt_title, tags, comments } = input;
        let Rendered { compiled, generator } = rendered;
        let old_internal = self.links.outgoing(p);
        let old_external = self.links.external_outgoing(p);
        let wikitext_hash = self.texts.put(wikitext);
        let compiled_hash = self.texts.put(compiled);
        let ghost t1 = stored(o.texts, input.wikitext@);
        proof {
            lemma_stored_keeps(o.texts, input.wikitext@);
            lemma_stored_keeps(t1, rendered.compiled@);
        }
        let stored_text = match self.texts.get(&wikitext_hash) {
            Ok(t) => t,
            Err(_) => {
                assert(false);
                return Err(Error::StorageError);
            },
        };
        let links = extract_links(stored_text.as_str());
        let added_internal = difference(&links.internal, &old_internal);
        let removed_internal = difference(&old_internal, &links.internal);
        let added_external = difference(&links.external, &old_external);
        let removed_external = difference(&old_external, &links.external);
        self.links.apply_delta(p, &added_internal, &removed_internal, &added_external, &removed_external);
        proof {
            let a = text_set(old_internal@);
            let b = text_set(links.internal@);
            assert(a.difference(a.difference(b)).union(b.difference(a)) =~= b);
            let c = text_set(old_external@);
            let d = text_set(links.external@);
            assert(c.difference(c.difference(d)).union(d.difference(c)) =~= d);
        }
        let slug = self.history[p][last].slug.clone();
        let h = self.history[p].len();
        let rev = Revision {
            revision_id,
            page_id,
            site_id: self.pages[p].site_id,
            revision_number: h as u64,
            revision_type: RevisionType::Regular,
            user_id,
            created_at: now,
            wikitext_hash,
            compiled_hash,
            compiled_at: now,
            compiled_generator: generator,
            title,
            alt_title,
            slug,
            tags,
            comments,
            hidden: Vec::new(),
        };
        let ghost rv = rev;
        self.history[p].push(rev);
        self.pages[p].latest_revision_number = h as u64;
        self.pages[p].updated_at = Some(now);
        proof {
            let n = self@;
            self.texts.lemma_keyed_by_hash();
            assert(n.history =~= o.history.update(p as int, o.history[p as int].push(rv)));
            assert forall|q: int| 0 <= q < n.pages.len() implies #[trigger] n.page_ok(q) by {
                assert(o.page_ok(q));
                if q != p {
                    assert forall|j: int| 0 <= j < n.history[q].len() implies #[trigger] n.revision_ok(q, j) by {
                        assert(o.revision_ok(q, j));
                    }
                    let lq = o.history[q].len() - 1;
                    assert(o.revision_ok(q, lq));
                    assert(n.latest(q) == o.latest(q));
                    assert(n.links_ok(q));
                } else {
                    assert forall|j: int| 0 <= j < n.history[q].len() implies #[trigger] n.revision_ok(q, j) by {
                        if j < o.history[q].len() {
                            assert(o.revision_ok(q, j));
                            assert(n.history[q][j] == o.history[q][j]);
                        }
                    }
                    assert(n.links_ok(q));
                }
            }
            assert forall|a: int, b: int|
                #![trigger n.pages[a], n.pages[b]]
                n.live(a) && n.live(b) && a != b && n.pages[a].site_id == n.pages[b].site_id
                    implies n.pages[a].slug@ != n.pages[b].slug@ by {
                assert(o.live(a) && o.live(b));
                assert(o.pages[a].slug@ == n.pages[a].slug@);
                assert(o.pages[b].slug@ == n.pages[b].slug@);
                assert(o.pages[a].site_id == n.pages[a].site_id);
                assert(o.pages[b].site_id == n.pages[b].site_id);
            }
        }
        Ok(RevisionOutput { revision_id, revision_number: h as u64 })
    }
    /// Deletes live page `page_id`: appends a delete revision and removes the
    /// page's outgoing links, so that links to its slug become missing.
    pub fn delete(
        &mut self,
        page_id: u64,
        user_id: u64,
        comments: String,
        now: i64,
        revision_id: u64,
    ) -> (r: Result<RevisionOutput, Error>)
        requires
            old(self).wf(),
        ensures
            final(self).wf(),
            match r {
                Ok(out) => {
                    &&& old(self)@.delete_error(page_id as int) is None
                    &&& old(self)@.deleted(final(self)@, page_id as int, user_id, comments, now, revision_id)
                    &&& out.revision_id == revision_id
                    &&& out.revision_number == old(self)@.history[page_id as int].len()
                },
                Err(e) => {
                    &&& old(self)@.delete_error(page_id as int) == Some(e)
                    &&& final(self)@ == old(self)@
                },
            },
    {
        if page_id >= self.pages.len() as u64 {
            return Err(Error::NotFound);
        }
        let p = page_id as usize;
        if self.pages[p].deleted_at.is_some() {
            return Err(Error::Conflict);
        }
        let ghost o = self@;
        proof {
            assert(o.page_ok(p as int));
            assert(o.history[p as int] == self.history@[p as int]@);
        }
        let h = self.history[p].len();
        let prev = &self.history[p][h - 1];
        let rev = Revision {
            revision_id,
            page_id,
            site_id: self.pages[p].site_id,
            revision_number: h as u64,
            revision_type: RevisionType::Delete,
            user_id,
            created_at: now,
            wikitext_hash: clone_bytes(&prev.wikitext_hash),
            compiled_hash: clone_bytes(&prev.compiled_hash),
            compiled_at: prev.compiled_at,
            compiled_generator: prev.compiled_generator.clone(),
            title: prev.title.clone(),
            alt_title: clone_opt_string(&prev.alt_title),
            slug: prev.slug.clone(),
            tags: clone_strings(&prev.tags),
            comments,
            hidden: Vec::new(),
        };
        let ghost rv = rev;
        self.links.clear(p);
        self.history[p].push(rev);
        self.pages[p].latest_revision_number = h as u64;
        self.pages[p].updated_at = Some(now);
        self.pages[p].deleted_at = Some(now);
        proof {
            let n = self@;
            assert(n.history =~= o.history.update(p as int, o.history[p as int].push(rv)));
            assert forall|q: int| 0 <= q < n.pages.len() implies #[trigger] n.page_ok(q) by {
                assert(o.page_ok(q));
                if q != p {
                    assert forall|j: int| 0 <= j < n.history[q].len() implies #[trigger] n.revision_ok(q, j) by {
                        assert(o.revision_ok(q, j));
                    }
                    assert(n.latest(q) == o.latest(q));
                    assert(n.links_ok(q));
                } else {
                    assert forall|j: int| 0 <= j < n.history[q].len() implies #[trigger] n.revision_ok(q, j) by {
                        if j < o.history[q].len() {
                            assert(o.revision_ok(q, j));
                            assert(n.history[q][j] == o.history[q][j]);
                        } else {
                            assert(o.revision_ok(q, h - 1));
                        }
                    }
                    assert(n.links_ok(q));
                }
            }
            assert forall|a: int, b: int|
                #![trigger n.pages[a], n.pages[b]]
                n.live(a) && n.live(b) && a != b && n.pages[a].site_id == n.pages[b].site_id
                    implies n.pages[a].slug@ != n.pages[b].slug@ by {
                assert(o.live(a) && o.live(b));
                assert(o.pages[a] == n.pages[a]);
                assert(o.pages[b] == n.pages[b]);
            }
        }
        Ok(RevisionOutput { revision_id, revision_number: h as u64 })
    }

    /// Restores deleted page `page_id` from its revision
    /// `input.revision_number`: appends a restore revision that refers to that
    /// revision's texts, makes the page live, recomputes its links from that
    /// text, and so resolves the links to its slug.
    pub fn restore(
        &mut self,
        page_id: u64,
        input: RestorePage,
        now: i64,
        revision_id: u64,
    ) -> (r: Result<RestorePageOutput, Error>)
        requires
            old(self).wf(),
        ensures
            final(self).wf(),
            match r {
                Ok(out) => {
                    &&& old(self)@.restore_error(page_id as int, input) is None
                    &&& old(self)@.restored(final(self)@, page_id as int, input, now, revision_id)
                    &&& out.revision_id == revision_id
                    &&& out.revision_number == old(self)@.history[page_id as int].len()
                    &&& out.resolved_from@.no_duplicates()
                    &&& out.resolved_from@.to_set() == final(self)@.incoming(page_id as int)
                },
                Err(e) => {
                    &&& old(self)@.restore_error(page_id as int, input) == Some(e)
                    &&& final(self)@ == old(self)@
                },
            },
    {
        if page_id >= self.pages.len() as u64 {
            return Err(Error::NotFound);
        }
        let p = page_id as usize;
        if self.pages[p].deleted_at.is_none() {
            return Err(Error::Conflict);
        }
        let ghost o = self@;
        proof {
            assert(o.page_ok(p as int));
            assert(o.history[p as int] == self.history@[p as int]@);
        }
        let h = self.history[p].len();
        if input.revision_number >= h as u64 {
            return Err(Error::NotFound);
        }
        if self.find_page(self.pages[p].site_id, &self.pages[p].slug).is_some() {
            return Err(Error::Conflict);
        }
        let RestorePage { user_id, revision_number, comments } = input;
        let src = &self.history[p][revision_number as usize];
        proof {
            assert(o.revision_ok(p as int, revision_number as int));
        }
        let text = match self.texts.get(&src.wikitext_hash) {
            Ok(t) => t,
            Err(_) => {
                assert(false);
                return Err(Error::StorageError);
            },
        };
        let links = extract_links(text.as_str());
        let rev = Revision {
            revision_id,
            page_id,
            site_id: self.pages[p].site_id,
            revision_number: h as u64,
            revision_type: RevisionType::Undelete,
            user_id,
            created_at: now,
            wikitext_hash: clone_bytes(&src.wikitext_hash),
            compiled_hash: clone_bytes(&src.compiled_hash),
            compiled_at: src.compiled_at,
            compiled_generator: src.compiled_generator.clone(),
            title: src.title.clone(),
            alt_title: clone_opt_string(&src.alt_title),
            slug: self.history[p][h - 1].slug.clone(),
            tags: clone_strings(&src.tags),
            comments,
            hidden: Vec::new(),
        };
        let ghost rv = rev;
        self.links.replace(p, links);
        self.history[p].push(rev);
        self.pages[p].latest_revision_number = h as u64;
        self.pages[p].updated_at = Some(now);
        self.pages[p].deleted_at = None;
        proof {
            let n = self@;
            assert(n.history =~= o.history.update(p as int, o.history[p as int].push(rv)));
            assert forall|q: int| 0 <= q < n.pages.len() implies #[trigger] n.page_ok(q) by {
                assert(o.page_ok(q));
                if q != p {
                    assert forall|j: int| 0 <= j < n.history[q].len() implies #[trigger] n.revision_ok(q, j) by {
                        assert(o.revision_ok(q, j));
                    }
                    assert(n.latest(q) == o.latest(q));
                    assert(n.links_ok(q));
                } else {
                    assert forall|j: int| 0 <= j < n.history[q].len() implies #[trigger] n.revision_ok(q, j) by {
                        if j < o.history[q].len() {
                            assert(o.revision_ok(q, j));
                            assert(n.history[q][j] == o.history[q][j]);
                        }
                    }
                    assert(n.links_ok(q));
                }
            }
            assert forall|a: int, b: int|
                #![trigger n.pages[a], n.pages[b]]
                n.live(a) && n.live(b) && a != b && n.pages[a].site_id == n.pages[b].site_id
                    implies n.pages[a].slug@ != n.pages[b].slug@ by {
                if a == p {
                    assert(!(o.live(b) && o.pages[b].site_id == o.pages[a].site_id && o.pages[b].slug@ == o.pages[a].slug@));
                } else if b == p {
                    assert(!(o.live(a) && o.pages[a].site_id == o.pages[b].site_id && o.pages[a].slug@ == o.pages[b].slug@));
                } else {
                    assert(o.pages[a] == n.pages[a]);
                    assert(o.pages[b] == n.pages[b]);
                }
            }
        }
        let resolved_from = match self.get_incoming(page_id) {
            Ok(v) => v,
            Err(_) => {
                assert(false);
                Vec::new()
            },
        };
        Ok(RestorePageOutput { revision_id, revision_number: h as u64, resolved_from })
    }

    /// The source text of page `page_id`'s latest revision: what a re-render
    /// hands to the renderer.
    pub fn latest_wikitext(&self, page_id: u64) -> (r: Result<String, Error>)
        requires
            self.wf(),
        ensures
            match r {
                Ok(t) => self@.has_page(page_id as int) && t@ == self@.texts[self@.latest(
                    page_id as int,
                ).wikitext_hash@],
                Err(e) => !self@.has_page(page_id as int) && e == Error::NotFound,
            },
    {
        if page_id >= self.pages.len() as u64 {
            return Err(Error::NotFound);
        }
        let p = page_id as usize;
        proof {
            assert(self@.page_ok(p as int));
            assert(self@.history[p as int] == self.history@[p as int]@);
            assert(self@.revision_ok(p as int, self@.history[p as int].len() - 1));
        }
        let h = self.history[p].len();
        self.texts.get(&self.history[p][h - 1].wikitext_hash)
    }

    /// Replaces the compiled output of page `page_id`'s latest revision with
    /// `rendered` (`None`: the renderer rejected the text). This is not a
    /// history event: no revision is appended and the links stay as they are.
    pub fn rerender(&mut self, page_id: u64, rendered: Option<Rendered>, now: i64) -> (r: Result<(), Error>)
        requires
            old(self).wf(),
        ensures
            final(self).wf(),
            match r {
                Ok(_) => {
                    &&& old(self)@.rerender_error(page_id as int, rendered) is None
                    &&& old(self)@.rerendered(final(self)@, page_id as int, rendered->0, now)
                },
                Err(e) => {
                    &&& old(self)@.rerender_error(page_id as int, rendered) == Some(e)
                    &&& final(self)@ == old(self)@
                },
            },
    {
        if page_id >= self.pages.len() as u64 {
            return Err(Error::NotFound);
        }
        let rendered = match rendered {
            Some(x) => x,
            None => return Err(Error::RenderError),
        };
        let p = page_id as usize;
        let ghost o = self@;
        proof {
            assert(o.page_ok(p as int));
            assert(o.history[p as int] == self.history@[p as int]@);
            lemma_stored_keeps(o.texts, rendered.compiled@);
        }
        let Rendered { compiled, generator } = rendered;
        let compiled_hash = self.texts.put(compiled);
        let last = self.history[p].len() - 1;
        self.history[p][last].compiled_hash = compiled_hash;
        self.history[p][last].compiled_at = now;
        self.history[p][last].compiled_generator = generator;
        proof {
            let n = self@;
            self.texts.lemma_keyed_by_hash();
            assert(n.history =~= o.history.update(p as int, n.history[p as int]));
            let lp = o.history[p as int].len() - 1;
            assert(n.history[p as int] =~= o.history[p as int].update(lp, n.history[p as int][lp]));
            assert(n.pages =~= o.pages);
            assert(n.internal =~= o.internal);
            assert(n.external =~= o.external);
            assert forall|q: int| 0 <= q < n.pages.len() implies #[trigger] n.page_ok(q) by {
                assert(o.page_ok(q));
                assert forall|j: int| 0 <= j < n.history[q].len() implies #[trigger] n.revision_ok(q, j) by {
                    assert(o.revision_ok(q, j));
                }
                let lq = o.history[q].len() - 1;
                assert(o.revision_ok(q, lq));
                assert(n.links_ok(q));
            }
            assert forall|a: int, b: int|
                #![trigger n.pages[a], n.pages[b]]
                n.live(a) && n.live(b) && a != b && n.pages[a].site_id == n.pages[b].site_id
                    implies n.pages[a].slug@ != n.pages[b].slug@ by {
                assert(o.pages[a] == n.pages[a]);
                assert(o.pages[b] == n.pages[b]);
            }
        }
        Ok(())
    }
}

/// Writing to the store keeps every text already there.
pub proof fn lemma_stored_keeps(m: Map<Seq<u8>, Seq<char>>, c: Seq<char>)
    ensures
        stored(m, c).contains_key(sha512_of(c)),
        forall|k: Seq<u8>| #[trigger] m.contains_key(k) ==> stored(m, c).contains_key(k) && stored(m, c)[k] == m[k],
{
}

} // verus!
