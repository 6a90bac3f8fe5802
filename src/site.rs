//! The description of a site that is handed back to callers.

use vstd::prelude::*;

use crate::models::alias::Model as AliasModel;
use crate::models::site::Model as SiteModel;
use crate::models::site_domain::Model as SiteDomainModel;

verus! {

/// A site with its aliases and custom domains.
pub struct GetSiteOutput {
    pub site: SiteModel,
    pub aliases: Vec<AliasModel>,
    pub domains: Vec<SiteDomainModel>,
}

/// A response: a status code and the site it describes.
pub struct SiteResponse {
    pub status: u16,
    pub body: GetSiteOutput,
}

/// Puts a site, its aliases and its domains into a response with `status`.
pub fn build_site_response(
    site: SiteModel,
    aliases: Vec<AliasModel>,
    domains: Vec<SiteDomainModel>,
    status: u16,
) -> (r: SiteResponse)
    ensures
        r.status == status,
        r.body.site == site,
        r.body.aliases == aliases,
        r.body.domains == domains,
{
    let output = GetSiteOutput { site, aliases, domains };
    SiteResponse { status, body: output }
}

} // verus!
