//! Extraction pipeline for serialized web fiction: a selector-driven DOM
//! traversal engine, per-site adapters that map a page's shape onto a
//! canonical document model, and the assembly rules that turn many
//! independently fetched pages into one validated `Novel`.

use vstd::prelude::*;

pub mod dom;
pub mod novel;
pub mod traverser;

use crate::traverser::TraverseError;

verus! {

/// Result type used throughout the extraction pipeline.
pub type NovelResult<T> = Result<T, NovelError>;

/// A failure of the extraction pipeline.
///
/// Validation failures carry the component that was missing; transport
/// failures are produced by the caller that performs the page fetches and
/// are passed through unchanged.
#[derive(Debug, PartialEq)]
pub enum NovelError {
    /// No adapter recognizes the address.
    NotANovel,
    /// A required component of the document model was missing from a page.
    ComponentMissing(NovelComponent),
    /// An annotation group closed with only one of its two halves present.
    MalformedAnnotation,
    /// A chapter's page was fetched but its content extraction failed;
    /// carries the chapter's order number and the failure itself.
    InChapter(usize, Box<NovelError>),
    /// A CSS selector failed to compile when an adapter was constructed.
    TraverseError(TraverseError),
    /// A page fetch failed; the message is the transport's own.
    Transport(String),
}

/// The components of the document model that a page can fail to provide.
#[derive(Debug, Clone, Copy, PartialEq, Eq, Structural)]
pub enum NovelComponent {
    Title,
    Author,
    Date,
    Status,
    Chapter,
    ChapterContent,
    ChapterUnderSection,
    InfoPath,
}

} // verus!
