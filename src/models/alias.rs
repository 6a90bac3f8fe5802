//! Alternative slugs under which a site or a user can be found.

use vstd::prelude::*;

verus! {

/// What an alias stands for.
#[derive(Clone, Copy, Debug, PartialEq, Eq, Structural)]
pub enum AliasType {
    Site,
    User,
}

/// One alias.
pub struct Model {
    pub alias_id: i64,
    pub alias_type: AliasType,
    pub created_at: i64,
    pub created_by: i64,
    pub target_id: i64,
    pub slug: String,
}

/// The records an alias refers to.
#[derive(Clone, Copy, Debug, PartialEq, Eq, Structural)]
pub enum Relation {
    /// The user who created it.
    User,
}

} // verus!
