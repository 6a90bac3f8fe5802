//! Alternative slugs of a site.

use vstd::prelude::*;

verus! {

/// One site alias.
pub struct Model {
    pub alias_id: i64,
    pub created_at: i64,
    pub created_by: i64,
    pub site_id: i64,
    pub slug: Option<String>,
}

/// The records a site alias refers to.
#[derive(Clone, Copy, Debug, PartialEq, Eq, Structural)]
pub enum Relation {
    /// The user who created it.
    User,
    /// The site it names.
    Site,
}

} // verus!
