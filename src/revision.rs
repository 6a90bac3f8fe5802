//! Pages, revisions and the inputs of the operations that change them.

use vstd::prelude::*;

verus! {

/// What a revision did to its page. Delete, restore and the ordinary edits are
/// distinct kinds, never flags that could be combined.
#[derive(Clone, Copy, Debug, PartialEq, Eq, Structural)]
pub enum RevisionType {
    Create,
    Regular,
    Delete,
    Undelete,
    Move,
}

/// One immutable entry of a page's history. Only its compiled-output fields
/// are ever refreshed, by a re-render.
pub struct Revision {
    pub revision_id: u64,
    pub page_id: u64,
    pub site_id: u64,
    pub revision_number: u64,
    pub revision_type: RevisionType,
    pub user_id: u64,
    pub created_at: i64,
    pub wikitext_hash: Vec<u8>,
    pub compiled_hash: Vec<u8>,
    pub compiled_at: i64,
    pub compiled_generator: String,
    pub title: String,
    pub alt_title: Option<String>,
    pub slug: String,
    pub tags: Vec<String>,
    pub comments: String,
    pub hidden: Vec<String>,
}

/// The current state of a page, as the page directory holds it.
pub struct Page {
    pub page_id: u64,
    pub site_id: u64,
    pub page_category_id: u64,
    pub discussion_thread_id: Option<u64>,
    pub created_at: i64,
    pub updated_at: Option<i64>,
    pub deleted_at: Option<i64>,
    pub latest_revision_number: u64,
    pub slug: String,
}

/// What the renderer made of a text.
pub struct Rendered {
    pub compiled: String,
    pub generator: String,
}

/// A request to create a page.
pub struct CreatePage {
    pub site_id: u64,
    pub category_id: u64,
    pub user_id: u64,
    pub slug: String,
    pub title: String,
    pub alt_title: Option<String>,
    pub tags: Vec<String>,
    pub wikitext: String,
    pub comments: String,
}

/// A request to edit a page. `revision_number` is the latest revision number
/// the caller read; the edit is refused if another revision came since.
pub struct EditPage {
    pub user_id: u64,
    pub revision_number: u64,
    pub wikitext: String,
    pub title: String,
    pub alt_title: Option<String>,
    pub tags: Vec<String>,
    pub comments: String,
}

/// A request to restore a deleted page from one of its revisions.
pub struct RestorePage {
    pub user_id: u64,
    pub revision_number: u64,
    pub comments: String,
}

/// What creating a page produced.
pub struct CreatePageOutput {
    pub page_id: u64,
    pub revision_id: u64,
    pub revision_number: u64,
    /// The pages whose links to this slug now resolve to the new page.
    pub resolved_from: Vec<u64>,
}

/// What appending a revision produced.
pub struct RevisionOutput {
    pub revision_id: u64,
    pub revision_number: u64,
}

/// What restoring a page produced.
pub struct RestorePageOutput {
    pub revision_id: u64,
    pub revision_number: u64,
    /// The pages whose links to this slug now resolve to the restored page.
    pub resolved_from: Vec<u64>,
}

/// A copy of the bytes.
pub fn clone_bytes(v: &Vec<u8>) -> (r: Vec<u8>)
    ensures
        r@ == v@,
{
    let mut r: Vec<u8> = Vec::new();
    let mut i: usize = 0;
    while i < v.len()
        invariant
            i <= v@.len(),
            r@ == v@.take(i as int),
        decreases v@.len() - i,
    {
        r.push(v[i]);
        i = i + 1;
        assert(r@ =~= v@.take(i as int));
    }
    assert(r@ =~= v@);
    r
}

/// A copy of an optional string.
pub fn clone_opt_string(s: &Option<String>) -> (r: Option<String>)
    ensures
        r == *s,
{
    match s {
        Some(t) => Some(t.clone()),
        None => None,
    }
}

} // verus!
