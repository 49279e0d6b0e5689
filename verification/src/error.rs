//! The errors of the editing operations.

use vstd::prelude::*;

verus! {

/// Why an edit or a lookup of a document failed; the variants and their
/// fields are those of the rope's own errors.
#[derive(Debug, Clone, Copy, PartialEq, Eq, Structural)]
pub enum RopeError {
    /// A char index past the end of the text: the index attempted and the
    /// length of the text in chars, in that order.
    CharIndexOutOfBounds(usize, usize),
    /// A line index past the number of lines: the index attempted and the
    /// number of lines, in that order.
    LineIndexOutOfBounds(usize, usize),
    /// A reversed char range (end before start): its start and end.
    CharRangeInvalid(usize, usize),
    /// A char range reaching past the end of the text: its start and end as
    /// given (`None` for an open side) and the length of the text in chars.
    CharRangeOutOfBounds(Option<usize>, Option<usize>, usize),
    /// Any other error of the rope; no operation of a document gives it.
    Other,
}

/// The result of an edit of a document.
pub type RopeyResult<T> = Result<T, RopeError>;

} // verus!
