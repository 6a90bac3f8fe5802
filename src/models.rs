//! Records of the wiki's other tables, as plain values. Timestamps are
//! seconds since the Unix epoch.

pub mod alias;
pub mod file;
pub mod site;
pub mod site_alias;
pub mod site_domain;
