//! Page revisioning and content-addressed storage for a collaborative wiki.

pub mod error;
pub mod strings;
pub mod text;
pub mod links;
pub mod graph;
pub mod revision;
pub mod wiki;
pub mod laws;
pub mod site_member;
pub mod models;
pub mod site;
pub mod locale;
