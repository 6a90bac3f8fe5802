use deepwell::error::Error;
use deepwell::revision::{CreatePage, EditPage, Rendered, RestorePage, RevisionType};
use deepwell::wiki::Wiki;

fn render(text: &str) -> Option<Rendered> {
    Some(Rendered { compiled: format!("<p>{}</p>", text), generator: "test-renderer 1".to_string() })
}

fn create_input(site_id: u64, slug: &str, text: &str) -> CreatePage {
    CreatePage {
        site_id,
        category_id: 1,
        user_id: 7,
        slug: slug.to_string(),
        title: format!("Title of {}", slug),
        alt_title: None,
        tags: vec!["tag".to_string()],
        wikitext: text.to_string(),
        comments: "first".to_string(),
    }
}

fn create(w: &mut Wiki, site_id: u64, slug: &str, text: &str) -> u64 {
    w.create(create_input(site_id, slug, text), render(text), 100, 1).unwrap().page_id
}

fn edit_input(base: u64, text: &str) -> EditPage {
    EditPage {
        user_id: 8,
        revision_number: base,
        wikitext: text.to_string(),
        title: "Edited".to_string(),
        alt_title: Some("Alt".to_string()),
        tags: vec![],
        comments: "edit".to_string(),
    }
}

fn sorted(mut v: Vec<String>) -> Vec<String> {
    v.sort();
    v
}

#[test]
fn end_to_end_missing_link_becomes_resolved() {
    let mut w = Wiki::new();
    let out = w.create(create_input(1, "home", "See [[other]]"), render("See [[other]]"), 100, 1).unwrap();
    assert_eq!(out.revision_number, 0);
    let home = out.page_id;
    assert_eq!(w.get_outgoing(home).unwrap(), vec!["other".to_string()]);
    assert_eq!(w.get_missing_incoming(1, &"other".to_string()), vec![home]);
    assert!(w.resolve_missing(1, &"other".to_string()).is_empty());

    let out2 = w.create(create_input(1, "other", "hi"), render("hi"), 101, 2).unwrap();
    assert_eq!(out2.resolved_from, vec![home]);
    assert_eq!(w.get_incoming(out2.page_id).unwrap(), vec![home]);
    assert!(w.get_missing_incoming(1, &"other".to_string()).is_empty());
    assert_eq!(w.resolve_missing(1, &"other".to_string()), vec![home]);
}

#[test]
fn revision_numbers_are_gap_free() {
    let mut w = Wiki::new();
    let p = create(&mut w, 1, "page", "zero");
    for n in 0..5u64 {
        let out = w.edit(p, edit_input(n, "more"), render("more"), 200, 10 + n).unwrap();
        assert_eq!(out.revision_number, n + 1);
    }
    w.delete(p, 9, "gone".to_string(), 300, 20).unwrap();
    w.restore(p, RestorePage { user_id: 9, revision_number: 2, comments: "back".to_string() }, 301, 21)
        .unwrap();
    let latest = w.latest_revision(p).unwrap();
    assert_eq!(latest.revision_number, 7);
    assert_eq!(w.page(p).unwrap().latest_revision_number, 7);
    for j in 0..=7u64 {
        assert_eq!(w.revision(p, j).unwrap().revision_number, j);
    }
    assert!(w.revision(p, 8).is_none());
}

#[test]
fn identical_content_is_stored_once() {
    let mut w = Wiki::new();
    let a = create(&mut w, 1, "a", "same text");
    let size = w.texts().len();
    let b = create(&mut w, 1, "b", "same text");
    assert_eq!(w.texts().len(), size);
    let ra = w.latest_revision(a).unwrap();
    let rb = w.latest_revision(b).unwrap();
    assert_eq!(ra.wikitext_hash, rb.wikitext_hash);
    assert_eq!(ra.compiled_hash, rb.compiled_hash);
}

#[test]
fn rerender_keeps_sequence_number_and_source() {
    let mut w = Wiki::new();
    let p = create(&mut w, 1, "page", "text");
    w.edit(p, edit_input(0, "new text"), render("new text"), 200, 2).unwrap();
    let before = w.latest_revision(p).unwrap();
    let (number, source, compiled) = (before.revision_number, before.wikitext_hash.clone(), before.compiled_hash.clone());
    assert_eq!(w.latest_wikitext(p).unwrap(), "new text");
    let fresh = Some(Rendered { compiled: "<div>new text</div>".to_string(), generator: "test-renderer 2".to_string() });
    w.rerender(p, fresh, 300).unwrap();
    let after = w.latest_revision(p).unwrap();
    assert_eq!(after.revision_number, number);
    assert_eq!(after.wikitext_hash, source);
    assert_ne!(after.compiled_hash, compiled);
    assert_eq!(after.compiled_at, 300);
    assert_eq!(after.compiled_generator, "test-renderer 2");
    assert!(w.revision(p, 2).is_none());
    assert_eq!(w.texts().get(&after.compiled_hash).unwrap(), "<div>new text</div>");
}

#[test]
fn delete_makes_incoming_links_missing() {
    let mut w = Wiki::new();
    let target = create(&mut w, 1, "target", "links to [[elsewhere]]");
    let src = create(&mut w, 1, "source", "See [[target]]");
    assert_eq!(w.get_incoming(target).unwrap(), vec![src]);
    let out = w.delete(target, 3, "bye".to_string(), 200, 5).unwrap();
    assert_eq!(out.revision_number, 1);
    assert!(w.get_outgoing(target).unwrap().is_empty());
    assert_eq!(w.get_missing_incoming(1, &"target".to_string()), vec![src]);
    assert!(w.get_missing_incoming(1, &"elsewhere".to_string()).is_empty());
    assert_eq!(w.latest_revision(target).unwrap().revision_type, RevisionType::Delete);
    assert_eq!(w.page(target).unwrap().deleted_at, Some(200));
    assert!(w.find_page(1, &"target".to_string()).is_none());
}

#[test]
fn restore_resolves_missing_links() {
    let mut w = Wiki::new();
    let target = create(&mut w, 1, "target", "[[a]] and [[b]]");
    let src = create(&mut w, 1, "source", "See [[target]]");
    w.edit(target, edit_input(0, "only [[c]]"), render("only [[c]]"), 150, 3).unwrap();
    w.delete(target, 3, "bye".to_string(), 200, 5).unwrap();
    let out = w
        .restore(target, RestorePage { user_id: 4, revision_number: 0, comments: "back".to_string() }, 300, 6)
        .unwrap();
    assert_eq!(out.revision_number, 3);
    assert_eq!(out.resolved_from, vec![src]);
    assert!(w.get_missing_incoming(1, &"target".to_string()).is_empty());
    assert_eq!(sorted(w.get_outgoing(target).unwrap()), vec!["a".to_string(), "b".to_string()]);
    let latest = w.latest_revision(target).unwrap();
    assert_eq!(latest.revision_type, RevisionType::Undelete);
    assert_eq!(latest.wikitext_hash, w.revision(target, 0).unwrap().wikitext_hash);
    assert_eq!(w.page(target).unwrap().deleted_at, None);
}

#[test]
fn racing_edits_conflict_and_retry() {
    let mut w = Wiki::new();
    let p = create(&mut w, 1, "page", "start");
    let first = w.edit(p, edit_input(0, "mine"), render("mine"), 200, 2).unwrap();
    assert_eq!(first.revision_number, 1);
    let second = w.edit(p, edit_input(0, "theirs"), render("theirs"), 201, 3);
    assert!(matches!(second, Err(Error::Conflict)));
    let retry = w.edit(p, edit_input(1, "theirs"), render("theirs"), 202, 3).unwrap();
    assert_eq!(retry.revision_number, 2);
    assert!(w.revision(p, 3).is_none());
    assert_eq!(w.latest_revision(p).unwrap().revision_number, 2);
}

#[test]
fn edit_applies_link_delta() {
    let mut w = Wiki::new();
    let p = create(&mut w, 1, "page", "[[a]] [[b]] [[https://x.org|X]]");
    assert_eq!(w.get_external_outgoing(p).unwrap(), vec!["https://x.org".to_string()]);
    w.edit(p, edit_input(0, "[[b]] [[c|see c]] [[http://y.org]]"), render("x"), 200, 2).unwrap();
    assert_eq!(sorted(w.get_outgoing(p).unwrap()), vec!["b".to_string(), "c".to_string()]);
    assert_eq!(w.get_external_outgoing(p).unwrap(), vec!["http://y.org".to_string()]);
    assert_eq!(w.get_external_incoming(1, &"http://y.org".to_string()), vec![p]);
    assert!(w.get_external_incoming(1, &"https://x.org".to_string()).is_empty());
    assert!(w.get_external_incoming(2, &"http://y.org".to_string()).is_empty());
}

#[test]
fn create_errors() {
    let mut w = Wiki::new();
    assert!(matches!(w.create(create_input(1, "Bad Slug", "x"), render("x"), 1, 1), Err(Error::ValidationError)));
    let mut untitled = create_input(1, "ok", "x");
    untitled.title = String::new();
    assert!(matches!(w.create(untitled, render("x"), 1, 1), Err(Error::ValidationError)));
    assert!(matches!(w.create(create_input(1, "ok", "x"), None, 1, 1), Err(Error::RenderError)));
    assert_eq!(w.page_count(), 0);
    assert_eq!(w.texts().len(), 0);
    create(&mut w, 1, "ok", "x");
    assert!(matches!(w.create(create_input(1, "ok", "y"), render("y"), 1, 1), Err(Error::Conflict)));
    create(&mut w, 2, "ok", "x");
    assert_eq!(w.page_count(), 2);
}

#[test]
fn lifecycle_errors() {
    let mut w = Wiki::new();
    assert!(matches!(w.edit(0, edit_input(0, "x"), render("x"), 1, 1), Err(Error::NotFound)));
    assert!(matches!(w.delete(0, 1, String::new(), 1, 1), Err(Error::NotFound)));
    assert!(matches!(w.rerender(0, render("x"), 1), Err(Error::NotFound)));
    assert!(matches!(w.get_outgoing(0), Err(Error::NotFound)));
    assert!(matches!(w.get_incoming(0), Err(Error::NotFound)));
    let p = create(&mut w, 1, "page", "x");
    let mut untitled = edit_input(0, "y");
    untitled.title = String::new();
    assert!(matches!(w.edit(p, untitled, render("y"), 1, 1), Err(Error::ValidationError)));
    assert!(matches!(w.edit(p, edit_input(0, "y"), None, 1, 1), Err(Error::RenderError)));
    assert!(matches!(w.rerender(p, None, 1), Err(Error::RenderError)));
    let restore = || RestorePage { user_id: 1, revision_number: 0, comments: String::new() };
    assert!(matches!(w.restore(p, restore(), 1, 1), Err(Error::Conflict)));
    w.delete(p, 1, String::new(), 2, 2).unwrap();
    assert!(matches!(w.delete(p, 1, String::new(), 3, 3), Err(Error::Conflict)));
    assert!(matches!(w.edit(p, edit_input(1, "y"), render("y"), 1, 1), Err(Error::NotFound)));
    let far = RestorePage { user_id: 1, revision_number: 9, comments: String::new() };
    assert!(matches!(w.restore(p, far, 4, 4), Err(Error::NotFound)));
    create(&mut w, 1, "page", "taken");
    assert!(matches!(w.restore(p, restore(), 5, 5), Err(Error::Conflict)));
    assert_eq!(w.latest_revision(p).unwrap().revision_number, 1);
}

#[test]
fn create_records_revision_zero() {
    let mut w = Wiki::new();
    let p = create(&mut w, 3, "page", "body");
    let rev = w.latest_revision(p).unwrap();
    assert_eq!(rev.revision_type, RevisionType::Create);
    assert_eq!(rev.revision_number, 0);
    assert_eq!(rev.user_id, 7);
    assert_eq!(rev.site_id, 3);
    assert_eq!(rev.slug, "page");
    assert_eq!(rev.title, "Title of page");
    assert_eq!(rev.compiled_generator, "test-renderer 1");
    assert_eq!(w.texts().get(&rev.wikitext_hash).unwrap(), "body");
    assert_eq!(w.texts().get(&rev.compiled_hash).unwrap(), "<p>body</p>");
    let page = w.page(p).unwrap();
    assert_eq!(page.site_id, 3);
    assert_eq!(page.created_at, 100);
    assert_eq!(page.deleted_at, None);
    assert_eq!(w.find_page(3, &"page".to_string()), Some(p));
    assert!(w.find_page(1, &"page".to_string()).is_none());
}

#[test]
fn losing_edit_changes_nothing() {
    let mut w = Wiki::new();
    let p = create(&mut w, 1, "page", "start [[a]]");
    w.edit(p, edit_input(0, "mine [[b]]"), render("mine [[b]]"), 200, 2).unwrap();
    let texts = w.texts().len();
    let lost = w.edit(p, edit_input(0, "theirs [[c]]"), render("theirs [[c]]"), 201, 3);
    assert!(matches!(lost, Err(Error::Conflict)));
    assert_eq!(w.texts().len(), texts);
    assert_eq!(w.latest_revision(p).unwrap().revision_number, 1);
    assert_eq!(w.get_outgoing(p).unwrap(), vec!["b".to_string()]);
    assert!(matches!(w.edit(p, edit_input(0, "x"), None, 202, 4), Err(Error::Conflict)));
}
