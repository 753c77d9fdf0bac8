use vstd::prelude::*;

verus! {

/// Why building a page or the site failed.
#[derive(Debug)]
pub enum GeneretoError {
    /// The document has no line of three or more dashes closing its metadata.
    MissingFrontmatter,
    /// The metadata block is not valid structured data or lacks a required field.
    MalformedMetadata(String),
    /// A date that is present is not a calendar date `year-month-day`.
    InvalidDate(String),
    /// A template lacks the start or end content marker, or has them out of order.
    MissingTemplateMarker,
    /// A per-page template override names no existing file.
    TemplateNotFound(String),
    /// Reading, writing or running something failed.
    IoFailure(String),
}

} // verus!
