//! Sites: independent wikis that share one installation.

use vstd::prelude::*;

verus! {

/// One site.
pub struct Model {
    pub site_id: i64,
    pub created_at: i64,
    pub updated_at: Option<i64>,
    pub deleted_at: Option<i64>,
    pub slug: String,
    pub name: String,
    pub tagline: String,
    pub description: String,
    pub locale: String,
}

} // verus!
