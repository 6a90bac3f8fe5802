//! The errors that the engine's operations report.

use vstd::prelude::*;

verus! {

/// Why an operation was refused. Every refused operation leaves all stores as
/// they were before the call.
#[derive(Clone, Copy, Debug, PartialEq, Eq, Structural)]
pub enum Error {
    /// A referenced page, revision or blob does not exist.
    NotFound,
    /// A slug collision, a lost race for a sequence number, or a lifecycle
    /// step that does not apply to the page's current state.
    Conflict,
    /// The renderer rejected the text.
    RenderError,
    /// A malformed slug, title or tag.
    ValidationError,
    /// The underlying persistence failed.
    StorageError,
}

} // verus!
