//! Searching a slice of a document for a pattern.

use ropey::iter::Chars;
use ropey::RopeSlice;
use vstd::prelude::*;
use crate::rope_ops::{chars_next, chars_rest, slice_chars, slice_text};

verus! {

/// The result of a search: a match, no match, or an error.
pub type SearchResult<'a, T> = Result<Option<T>, SearchError<'a>>;

/// An iterator over the matches of a pattern in a slice of text.
pub struct SearchIter<'a> {
    char_iter: Chars<'a>,
    search_pattern: &'a str,
    search_pattern_char_len: usize,
    /// The current char index of the search head.
    cur_index: usize,
    /// Where each current possible match stands in the pattern.
    possible_matches: Vec<std::str::Chars<'a>>,
}

impl<'a> SearchIter<'a> {
    /// The chars of the slice not yet searched.
    pub closed spec fn remaining(&self) -> Seq<char> {
        chars_rest(self.char_iter)
    }

    /// The pattern searched for.
    pub closed spec fn pattern(&self) -> Seq<char> {
        self.search_pattern@
    }

    /// The length of the pattern, in chars.
    pub closed spec fn pattern_char_len(&self) -> nat {
        self.search_pattern_char_len as nat
    }

    /// The char index of the search head.
    pub closed spec fn cur_index(&self) -> nat {
        self.cur_index as nat
    }

    /// The number of possible matches under way.
    pub closed spec fn pending_matches(&self) -> nat {
        self.possible_matches@.len()
    }

    /// Starts a search for `search_pattern` in `slice`.  The pattern must
    /// not be empty.
    pub fn from_rope_slice(slice: &RopeSlice<'a>, search_pattern: &'a str) -> (it: SearchIter<'a>)
        requires
            search_pattern@.len() > 0,
        ensures
            it.remaining() == slice_text(*slice),
            it.pattern() == search_pattern@,
            it.pattern_char_len() == search_pattern@.len(),
            it.cur_index() == 0,
            it.pending_matches() == 0,
    {
        SearchIter {
            char_iter: slice_chars(slice),
            search_pattern,
            search_pattern_char_len: search_pattern.unicode_len(),
            cur_index: 0,
            possible_matches: Vec::new(),
        }
    }

    /// Runs through the rest of the slice and reports no match.
    pub fn next(&mut self) -> (res: Option<(usize, usize)>)
        ensures
            res is None,
            final(self).remaining() == Seq::<char>::empty(),
            final(self).pattern() == old(self).pattern(),
            final(self).pattern_char_len() == old(self).pattern_char_len(),
            final(self).cur_index() == old(self).cur_index(),
            final(self).pending_matches() == old(self).pending_matches(),
    {
        loop
            invariant
                self.pattern() == old(self).pattern(),
                self.pattern_char_len() == old(self).pattern_char_len(),
                self.cur_index() == old(self).cur_index(),
                self.pending_matches() == old(self).pending_matches(),
            ensures
                self.remaining() == Seq::<char>::empty(),
                self.pattern() == old(self).pattern(),
                self.pattern_char_len() == old(self).pattern_char_len(),
                self.cur_index() == old(self).cur_index(),
                self.pending_matches() == old(self).pending_matches(),
            decreases self.remaining().len(),
        {
            match chars_next(&mut self.char_iter) {
                Some(_next_char) => {},
                None => {
                    break;
                },
            }
        }
        None
    }
}

/// Why a search cannot be made.
#[derive(Clone, Copy)]
#[non_exhaustive]
pub enum SearchError<'a> {
    /// Indicates that the search pattern has 0 elements.
    EmptyPattern,
    /// Indicates the search pattern did not meet expectations.
    ///
    /// Contains the pattern.
    InvalidPattern(&'a str),
}

impl<'a> SearchError<'a> {
    /// The message that describes the error.
    pub fn message(&self) -> (m: &'static str)
        ensures
            self is EmptyPattern ==> m@ == "Can't search on empty pattern."@,
            self is InvalidPattern ==> m@ == "Pattern can no be used to search."@,
    {
        match self {
            SearchError::EmptyPattern => "Can't search on empty pattern.",
            SearchError::InvalidPattern(_pat) => "Pattern can no be used to search.",
        }
    }
}

} // verus!
