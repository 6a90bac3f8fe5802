use deepwell::error::Error;
use deepwell::links::extract_links;
use deepwell::text::{text_hash, TextStore};

#[test]
fn put_twice_returns_same_hash_and_stores_once() {
    let mut s = TextStore::new();
    let h1 = s.put("hello".to_string());
    assert_eq!(s.len(), 1);
    let h2 = s.put("hello".to_string());
    assert_eq!(h1, h2);
    assert_eq!(s.len(), 1);
    let h3 = s.put("world".to_string());
    assert_ne!(h1, h3);
    assert_eq!(s.len(), 2);
    assert_eq!(s.get(&h1).unwrap(), "hello");
    assert_eq!(s.get(&h3).unwrap(), "world");
}

#[test]
fn hash_is_sha512_of_bytes() {
    let h = text_hash(&"abc".to_string());
    assert_eq!(h.len(), 64);
    assert_eq!(&h[..4], &[0xdd, 0xaf, 0x35, 0xa1]);
    assert_eq!(&h[60..], &[0xa5, 0x4c, 0xa4, 0x9f]);
}

#[test]
fn get_missing_is_not_found() {
    let s = TextStore::new();
    assert!(matches!(s.get(&vec![1, 2, 3]), Err(Error::NotFound)));
}

#[test]
fn get_if_fetches_only_when_wanted() {
    let mut s = TextStore::new();
    let h = s.put("data".to_string());
    assert_eq!(s.get_if(true, &h).unwrap(), Some("data".to_string()));
    assert_eq!(s.get_if(false, &h).unwrap(), None);
    assert_eq!(s.get_if(false, &vec![0]).unwrap(), None);
    assert!(matches!(s.get_if(true, &vec![0]), Err(Error::NotFound)));
}

#[test]
fn extract_internal_and_external_links() {
    let l = extract_links("a [[one]] b [[two|Label]] [[https://e.com/x]] [[one]] [[Bad Target]] [[ftp://no]]");
    assert_eq!(l.internal, vec!["one".to_string(), "two".to_string()]);
    assert_eq!(l.external, vec!["https://e.com/x".to_string()]);
}

#[test]
fn extract_ignores_unclosed_and_empty_links() {
    let l = extract_links("[[]] [[ok]] [[never closed");
    assert_eq!(l.internal, vec!["ok".to_string()]);
    assert!(l.external.is_empty());
    let none = extract_links("");
    assert!(none.internal.is_empty() && none.external.is_empty());
    let nested = extract_links("[[a [[b]] c]]");
    assert!(nested.internal.is_empty());
}

#[test]
fn extract_is_deterministic() {
    let t = "[[x]] [[y]] [[http://z.org]]";
    let a = extract_links(t);
    let b = extract_links(t);
    assert_eq!(a.internal, b.internal);
    assert_eq!(a.external, b.external);
}
