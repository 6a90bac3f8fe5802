//! Custom domains under which a site is served.

use vstd::prelude::*;

verus! {

/// One custom domain.
pub struct Model {
    pub domain: String,
    pub created_at: i64,
    pub site_id: i64,
}

} // verus!
