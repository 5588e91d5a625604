//! Why a page could not be read.

use vstd::prelude::*;

verus! {

/// What went wrong while reading a page.
#[derive(Debug, Clone, Copy, PartialEq, Eq, Structural)]
pub enum ScrapeError {
    /// An element that the page should hold is not there.
    MissingElement,
    /// An element lacks an attribute that it should have.
    MissingAttribute,
    /// A text that should be a number is not one.
    NotANumber,
    /// A month name that is not one of the twelve.
    UnknownMonth,
    /// The address does not name a post.
    NoPostId,
}

} // verus!
