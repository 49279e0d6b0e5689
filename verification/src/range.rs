//! Ranges of char indices, as the range syntax `a..b`, `a..`, `..=b`, `..`
//! writes them.

use vstd::prelude::*;

verus! {

/// One end of a char range.
#[derive(Debug, Clone, Copy, PartialEq, Eq, Structural)]
pub enum CharBound {
    /// The end includes this index.
    Included(usize),
    /// The end excludes this index.
    Excluded(usize),
    /// The range is open on this side.
    Unbounded,
}

/// A range of char indices, from `start` to `end`.
#[derive(Debug, Clone, Copy, PartialEq, Eq, Structural)]
pub struct CharRange {
    pub start: CharBound,
    pub end: CharBound,
}

impl CharRange {
    /// Whether the first index in, and the first index past, the range can
    /// be written as a `usize`.
    pub open spec fn is_representable(self) -> bool {
        &&& self.start matches CharBound::Excluded(s) ==> s < usize::MAX
        &&& self.end matches CharBound::Included(e) ==> e < usize::MAX
    }

    /// The first index in the range, when the range gives one.
    pub open spec fn start_index(self) -> Option<int> {
        match self.start {
            CharBound::Included(s) => Some(s as int),
            CharBound::Excluded(s) => Some(s + 1),
            CharBound::Unbounded => None,
        }
    }

    /// The first index past the range, when the range gives one.
    pub open spec fn end_index(self) -> Option<int> {
        match self.end {
            CharBound::Included(e) => Some(e + 1),
            CharBound::Excluded(e) => Some(e as int),
            CharBound::Unbounded => None,
        }
    }

    /// The range as a pair of indices within a text of `len` chars: an open
    /// start is 0 and an open end is `len`.
    pub open spec fn resolve(self, len: int) -> (int, int) {
        (
            match self.start_index() {
                Some(s) => s,
                None => 0,
            },
            match self.end_index() {
                Some(e) => e,
                None => len,
            },
        )
    }

    /// The first index in the range, when it gives one.
    pub fn first_index(&self) -> (res: Option<usize>)
        requires
            self.is_representable(),
        ensures
            res matches Some(s) ==> self.start_index() == Some(s as int),
            res is None ==> self.start_index() is None,
    {
        match self.start {
            CharBound::Included(s) => Some(s),
            CharBound::Excluded(s) => Some(s + 1),
            CharBound::Unbounded => None,
        }
    }

    /// The first index past the range, when it gives one.
    pub fn past_index(&self) -> (res: Option<usize>)
        requires
            self.is_representable(),
        ensures
            res matches Some(e) ==> self.end_index() == Some(e as int),
            res is None ==> self.end_index() is None,
    {
        match self.end {
            CharBound::Included(e) => Some(e + 1),
            CharBound::Excluded(e) => Some(e),
            CharBound::Unbounded => None,
        }
    }
}

} // verus!
