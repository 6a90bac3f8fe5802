//! Properties that hold across operations of the engine.

use vstd::prelude::*;

use crate::error::Error;
use crate::revision::{CreatePage, EditPage, Rendered, RestorePage};
use crate::text::{sha512_of, stored};
use crate::wiki::lemma_stored_keeps;
use crate::wiki::WikiView;

verus! {

/// In every consistent state, the revisions of each page are numbered
/// `0..=N` without gaps, in order, and `N` is the page's latest revision
/// number. Every operation keeps the state consistent.
pub proof fn lemma_revision_numbers_gap_free(w: WikiView, p: int)
    requires
        w.consistent(),
        w.has_page(p),
    ensures
        w.history[p].len() == w.pages[p].latest_revision_number + 1,
        forall|j: int| 0 <= j < w.history[p].len() ==> (#[trigger] w.history[p][j]).revision_number == j,
{
    assert(w.page_ok(p));
    assert forall|j: int| 0 <= j < w.history[p].len() implies (#[trigger] w.history[p][j]).revision_number == j by {
        assert(w.revision_ok(p, j));
    }
}

/// An edit followed by a re-render leaves the latest revision number and the
/// source text as the edit made them; only the compiled output changes.
pub proof fn lemma_rerender_after_edit(
    o: WikiView,
    m: WikiView,
    n: WikiView,
    p: int,
    input: EditPage,
    first: Rendered,
    second: Rendered,
    edited_at: i64,
    rendered_at: i64,
    revision_id: u64,
)
    requires
        o.consistent(),
        o.edit_error(p, input, Some(first)) is None,
        o.edited(m, p, input, first, edited_at, revision_id),
        m.rerender_error(p, Some(second)) is None,
        m.rerendered(n, p, second, rendered_at),
    ensures
        n.history[p].len() == m.history[p].len(),
        n.latest(p).revision_number == m.latest(p).revision_number,
        m.latest(p).revision_number == o.latest(p).revision_number + 1,
        n.latest(p).wikitext_hash@ == m.latest(p).wikitext_hash@,
        n.latest(p).wikitext_hash@ == sha512_of(input.wikitext@),
        n.latest(p).compiled_hash@ == sha512_of(second.compiled@),
        n.texts.contains_key(n.latest(p).wikitext_hash@),
        n.texts[n.latest(p).wikitext_hash@] == m.texts[m.latest(p).wikitext_hash@],
        sha512_of(n.texts[n.latest(p).wikitext_hash@]) == sha512_of(input.wikitext@),
        n.texts.contains_key(n.latest(p).compiled_hash@),
        sha512_of(n.texts[n.latest(p).compiled_hash@]) == sha512_of(second.compiled@),
        !m.texts.contains_key(sha512_of(second.compiled@)) ==> n.texts[n.latest(p).compiled_hash@]
            == second.compiled@,
{
    assert(o.page_ok(p));
    assert(o.revision_ok(p, o.history[p].len() - 1));
    let t1 = stored(o.texts, input.wikitext@);
    lemma_stored_keeps(o.texts, input.wikitext@);
    lemma_stored_keeps(t1, first.compiled@);
    lemma_stored_keeps(m.texts, second.compiled@);
}

/// Deleting a page removes all its outgoing links, and every other live page
/// that linked to it now shows under the missing links of its slug.
pub proof fn lemma_delete_makes_links_missing(
    o: WikiView,
    n: WikiView,
    p: int,
    user_id: u64,
    comments: String,
    now: i64,
    revision_id: u64,
    q: u64,
)
    requires
        o.consistent(),
        o.delete_error(p) is None,
        o.deleted(n, p, user_id, comments, now, revision_id),
    ensures
        n.internal[p] == Set::<Seq<char>>::empty(),
        n.external[p] == Set::<Seq<char>>::empty(),
        o.incoming(p).contains(q) && q != p ==> n.missing_incoming(
            o.pages[p].site_id,
            o.pages[p].slug@,
        ).contains(q),
{
    let site = o.pages[p].site_id;
    let slug = o.pages[p].slug@;
    assert(!n.slug_taken(site, slug)) by {
        if n.slug_taken(site, slug) {
            let r = choose|r: int| n.live(r) && (#[trigger] n.pages[r]).site_id == site && n.pages[r].slug@ == slug;
            assert(n.pages[r] == o.pages[r]);
            assert(o.live(r));
        }
    }
    if o.incoming(p).contains(q) && q != p {
        assert(n.pages[q as int] == o.pages[q as int]);
        assert(n.internal[q as int] == o.internal[q as int]);
    }
}

/// Restoring a deleted page turns the links that were missing at its slug
/// into resolved links to it.
pub proof fn lemma_restore_resolves_missing(
    o: WikiView,
    n: WikiView,
    p: int,
    input: RestorePage,
    now: i64,
    revision_id: u64,
    q: u64,
)
    requires
        o.consistent(),
        o.restore_error(p, input) is None,
        o.restored(n, p, input, now, revision_id),
        o.missing_incoming(o.pages[p].site_id, o.pages[p].slug@).contains(q),
    ensures
        n.incoming(p).contains(q),
{
    assert(q != p);
    assert(n.pages[q as int] == o.pages[q as int]);
    assert(n.internal[q as int] == o.internal[q as int]);
}

/// Creating a page at a slug turns the links that were missing at that slug
/// into resolved links to the new page.
pub proof fn lemma_create_resolves_missing(
    o: WikiView,
    n: WikiView,
    input: CreatePage,
    rendered: Rendered,
    now: i64,
    revision_id: u64,
    q: u64,
)
    requires
        o.consistent(),
        o.create_error(input, Some(rendered)) is None,
        o.created(n, input, rendered, now, revision_id),
        o.missing_incoming(input.site_id, input.slug@).contains(q),
    ensures
        n.incoming(o.pages.len() as int).contains(q),
{
    assert(n.pages[q as int] == o.pages[q as int]);
    assert(n.internal[q as int] == o.internal[q as int]);
}

/// Of two edits of one page made against the same latest revision, once the
/// first has succeeded the second cannot succeed, whatever was rendered for
/// it: with a valid title it is refused with `Conflict`, and a refused edit
/// changes nothing. Retried against the new latest revision it succeeds, with
/// the next sequence number, and the history then holds one revision per
/// successful edit.
pub proof fn lemma_racing_edits(
    o: WikiView,
    m: WikiView,
    n: WikiView,
    p: int,
    a: EditPage,
    b: EditPage,
    retry: EditPage,
    ra: Rendered,
    rb: Option<Rendered>,
    now: i64,
    id_a: u64,
    id_b: u64,
)
    requires
        o.consistent(),
        o.edit_error(p, a, Some(ra)) is None,
        o.edited(m, p, a, ra, now, id_a),
        b.revision_number == a.revision_number,
        retry == (EditPage { revision_number: m.latest(p).revision_number, ..b }),
    ensures
        m.edit_error(p, b, rb) is Some,
        b.title@.len() > 0 ==> m.edit_error(p, b, rb) == Some(Error::Conflict),
        b.title@.len() > 0 && rb is Some ==> m.edit_error(p, retry, rb) is None,
        m.latest(p).revision_number == o.latest(p).revision_number + 1,
        rb is Some && m.edited(n, p, retry, rb->0, now, id_b) ==> {
            &&& n.latest(p).revision_number == o.latest(p).revision_number + 2
            &&& n.history[p].len() == o.history[p].len() + 2
        },
{
    assert(o.page_ok(p));
    assert(o.revision_ok(p, o.history[p].len() - 1));
}

} // verus!
