//! Files attached to pages.

use vstd::prelude::*;

verus! {

/// One file.
pub struct Model {
    pub file_id: i64,
    pub created_at: i64,
    pub updated_at: Option<i64>,
    pub deleted_at: Option<i64>,
    pub name: String,
    pub page_id: i64,
}

/// The records a file refers to or is referred to by.
#[derive(Clone, Copy, Debug, PartialEq, Eq, Structural)]
pub enum Relation {
    /// Its revisions.
    FileRevision,
    /// The page it is attached to.
    Page,
}

} // verus!
