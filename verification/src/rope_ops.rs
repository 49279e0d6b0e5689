//! The rope of `ropey` as the library sees it: its types, held opaquely,
//! names for the text its collections hold, and the trusted wrappers
//! through which the library calls it.

use ropey::iter::{Chars, Chunks, Lines};
use ropey::{Rope, RopeBuilder, RopeSlice};
use vstd::prelude::*;
use vstd::utf8::encode_utf8;
use std::ops::Bound;
use crate::error::RopeError;
use crate::text::{byte_order, keeps_crlf_together, line_start, text_lines};

verus! {

// ---------------------------------------------------------------------
// Types of `ropey`, held opaquely.

#[verifier::external_type_specification]
#[verifier::external_body]
pub struct ExRope(Rope);

#[verifier::external_type_specification]
#[verifier::external_body]
pub struct ExRopeSlice<'a>(RopeSlice<'a>);

#[verifier::external_type_specification]
#[verifier::external_body]
pub struct ExRopeBuilder(RopeBuilder);

#[verifier::external_type_specification]
#[verifier::external_body]
pub struct ExRopeChars<'a>(Chars<'a>);

#[verifier::external_type_specification]
#[verifier::external_body]
pub struct ExRopeLines<'a>(Lines<'a>);

#[verifier::external_type_specification]
#[verifier::external_body]
pub struct ExRopeChunks<'a>(Chunks<'a>);

// ---------------------------------------------------------------------
// What the collections of `ropey` hold.

/// The text that a `Rope` holds.
pub uninterp spec fn rope_text(r: Rope) -> Seq<char>;

/// The text that a `RopeSlice` holds.
pub uninterp spec fn slice_text(s: RopeSlice) -> Seq<char>;

/// The text appended so far to a `RopeBuilder`.
pub uninterp spec fn builder_text(b: RopeBuilder) -> Seq<char>;

/// The chars that a `ropey::iter::Chars` iterator has yet to yield.
pub uninterp spec fn chars_rest(it: Chars) -> Seq<char>;

/// The lines that a `ropey::iter::Lines` iterator has yet to yield.
pub uninterp spec fn lines_rest(it: Lines) -> Seq<Seq<char>>;

/// The chunks that a `ropey::iter::Chunks` iterator has yet to yield.
pub uninterp spec fn chunks_rest(it: Chunks) -> Seq<Seq<char>>;

/// The chunks, in order, into which a `Rope` cuts its text.
pub uninterp spec fn rope_chunk_texts(r: Rope) -> Seq<Seq<char>>;

/// The order that `Rope::cmp` gives two ropes, as a function of the chunks
/// of each: it walks the UTF-8 bytes of both chunk sequences side by side.
pub uninterp spec fn chunk_walk_order(a: Seq<Seq<char>>, b: Seq<Seq<char>>) -> core::cmp::Ordering;

// ---------------------------------------------------------------------
// Wrappers of `ropey`.

/// `Rope::new`: the new rope holds no text.
#[verifier::external_body]
pub fn rope_new() -> (r: Rope)
    ensures
        rope_text(r) == Seq::<char>::empty(),
{
    Rope::new()
}

/// `Rope::from_str`: the new rope holds the given text.
#[verifier::external_body]
pub fn rope_from_str(text: &str) -> (r: Rope)
    ensures
        rope_text(r) == text@,
{
    Rope::from_str(text)
}

/// `Rope::clone` (derived): the clone shares the tree of the original, so
/// it is the same rope and holds the same text.
#[verifier::external_body]
pub fn rope_clone(r: &Rope) -> (res: Rope)
    ensures
        res == *r,
        rope_text(res) == rope_text(*r),
{
    r.clone()
}

/// `Rope::len_bytes`: the length of the text in UTF-8 bytes.
#[verifier::external_body]
pub fn rope_len_bytes(r: &Rope) -> (n: usize)
    ensures
        n == encode_utf8(rope_text(*r)).len(),
{
    r.len_bytes()
}

/// `Rope::len_chars`: the length of the text in chars.
#[verifier::external_body]
pub fn rope_len_chars(r: &Rope) -> (n: usize)
    ensures
        n == rope_text(*r).len(),
{
    r.len_chars()
}

/// `Rope::len_lines`: the number of lines of the text, as the line-break
/// rules of `ropey` (with its default features) count them.
#[verifier::external_body]
pub fn rope_len_lines(r: &Rope) -> (n: usize)
    ensures
        n == text_lines(rope_text(*r)).len(),
{
    r.len_lines()
}

/// `Rope::try_line_to_char`: the char index at which line `line` starts;
/// when `line` is past the number of lines, the error
/// `LineIndexOutOfBounds(line, len_lines())`.
#[verifier::external_body]
pub fn rope_try_line_to_char(r: &Rope, line: usize) -> (res: Result<usize, RopeError>)
    ensures
        res is Ok <==> line <= text_lines(rope_text(*r)).len(),
        res matches Ok(c) ==> c == line_start(rope_text(*r), line as int),
        res matches Err(e) ==> e == RopeError::LineIndexOutOfBounds(
            line,
            text_lines(rope_text(*r)).len() as usize,
        ),
{
    match r.try_line_to_char(line) {
        Ok(c) => Ok(c),
        Err(ropey::Error::LineIndexOutOfBounds(i, n)) => Err(RopeError::LineIndexOutOfBounds(i, n)),
        Err(_) => Err(RopeError::Other),
    }
}

/// `Rope::try_insert_char`: inserts `ch` at char index `idx` when
/// `idx <= len_chars()`; otherwise the error
/// `CharIndexOutOfBounds(idx, len_chars())`, and the rope is unchanged.
#[verifier::external_body]
pub fn rope_try_insert_char(r: &mut Rope, idx: usize, ch: char) -> (res: Result<(), RopeError>)
    ensures
        res is Ok <==> idx <= rope_text(*old(r)).len(),
        res is Ok ==> rope_text(*final(r)) == rope_text(*old(r)).insert(idx as int, ch),
        res matches Err(e) ==> e == RopeError::CharIndexOutOfBounds(
            idx,
            rope_text(*old(r)).len() as usize,
        ),
        res is Err ==> rope_text(*final(r)) == rope_text(*old(r)),
{
    match r.try_insert_char(idx, ch) {
        Ok(()) => Ok(()),
        Err(ropey::Error::CharIndexOutOfBounds(i, n)) => Err(RopeError::CharIndexOutOfBounds(i, n)),
        Err(_) => Err(RopeError::Other),
    }
}

/// `Rope::try_insert`: inserts `text` at char index `idx` when
/// `idx <= len_chars()`; otherwise the error
/// `CharIndexOutOfBounds(idx, len_chars())`, and the rope is unchanged.
#[verifier::external_body]
pub fn rope_try_insert(r: &mut Rope, idx: usize, text: &str) -> (res: Result<(), RopeError>)
    ensures
        res is Ok <==> idx <= rope_text(*old(r)).len(),
        res is Ok ==> rope_text(*final(r)) == rope_text(*old(r)).take(idx as int) + text@
            + rope_text(*old(r)).skip(idx as int),
        res matches Err(e) ==> e == RopeError::CharIndexOutOfBounds(
            idx,
            rope_text(*old(r)).len() as usize,
        ),
        res is Err ==> rope_text(*final(r)) == rope_text(*old(r)),
{
    match r.try_insert(idx, text) {
        Ok(()) => Ok(()),
        Err(ropey::Error::CharIndexOutOfBounds(i, n)) => Err(RopeError::CharIndexOutOfBounds(i, n)),
        Err(_) => Err(RopeError::Other),
    }
}

/// The first index of a removed range: `start`, or 0 when it is open.
pub open spec fn range_start(start: Option<usize>) -> int {
    match start {
        Some(x) => x as int,
        None => 0,
    }
}

/// The index past a removed range: `end`, or `len` when it is open.
pub open spec fn range_end(end: Option<usize>, len: int) -> int {
    match end {
        Some(x) => x as int,
        None => len,
    }
}

/// `Rope::try_remove` on the char range from `start` (0 when `None`) up to,
/// not including, `end` (the end of the text when `None`).  With `s` and
/// `e` those indices: when `e` or `s` is past the end of the text, the
/// error `CharRangeOutOfBounds(start, end, len_chars())`; otherwise when
/// `s > e`, the error `CharRangeInvalid(s, e)`; otherwise the chars from `s`
/// up to `e` are removed.  On an error the rope is unchanged.
#[verifier::external_body]
pub fn rope_try_remove(r: &mut Rope, start: Option<usize>, end: Option<usize>) -> (res: Result<(), RopeError>)
    ensures
        res is Ok <==> range_start(start) <= range_end(end, rope_text(*old(r)).len() as int)
            <= rope_text(*old(r)).len(),
        res is Ok ==> rope_text(*final(r)) == rope_text(*old(r)).take(range_start(start))
            + rope_text(*old(r)).skip(range_end(end, rope_text(*old(r)).len() as int)),
        res matches Err(x) ==> x == if range_start(start) > rope_text(*old(r)).len() || range_end(
            end,
            rope_text(*old(r)).len() as int,
        ) > rope_text(*old(r)).len() {
            RopeError::CharRangeOutOfBounds(start, end, rope_text(*old(r)).len() as usize)
        } else {
            RopeError::CharRangeInvalid(
                range_start(start) as usize,
                range_end(end, rope_text(*old(r)).len() as int) as usize,
            )
        },
        res is Err ==> rope_text(*final(r)) == rope_text(*old(r)),
{
    let lo = match start { Some(x) => Bound::Included(x), None => Bound::Unbounded };
    let hi = match end { Some(x) => Bound::Excluded(x), None => Bound::Unbounded };
    match r.try_remove((lo, hi)) {
        Ok(()) => Ok(()),
        Err(ropey::Error::CharRangeOutOfBounds(a, b, n)) => Err(RopeError::CharRangeOutOfBounds(a, b, n)),
        Err(ropey::Error::CharRangeInvalid(a, b)) => Err(RopeError::CharRangeInvalid(a, b)),
        Err(_) => Err(RopeError::Other),
    }
}

/// `Rope::get_slice` on the char range `start..end`: the slice of those
/// chars when `start <= end <= len_chars()`, and `None` otherwise.
#[verifier::external_body]
pub fn rope_get_slice<'a>(r: &'a Rope, start: usize, end: usize) -> (res: Option<RopeSlice<'a>>)
    ensures
        res is Some <==> start <= end <= rope_text(*r).len(),
        res matches Some(s) ==> slice_text(s) == rope_text(*r).subrange(start as int, end as int),
{
    r.get_slice(start..end)
}

/// `Rope::chars_at`: an iterator over the chars from char index `idx` on.
/// It panics when `idx > len_chars()`.
#[verifier::external_body]
pub fn rope_chars_at<'a>(r: &'a Rope, idx: usize) -> (it: Chars<'a>)
    requires
        idx <= rope_text(*r).len(),
    ensures
        chars_rest(it) == rope_text(*r).skip(idx as int),
{
    r.chars_at(idx)
}

/// `Rope::lines`: an iterator over all lines of the text.
#[verifier::external_body]
pub fn rope_lines<'a>(r: &'a Rope) -> (it: Lines<'a>)
    ensures
        lines_rest(it) == text_lines(rope_text(*r)),
{
    r.lines()
}

/// `Rope::lines_at`: an iterator over the lines from line `line` on.  It
/// panics when `line > len_lines()`.  On an empty rope the iterator
/// yields its one (empty) line whatever `line` is.
#[verifier::external_body]
pub fn rope_lines_at<'a>(r: &'a Rope, line: usize) -> (it: Lines<'a>)
    requires
        line <= text_lines(rope_text(*r)).len(),
    ensures
        rope_text(*r).len() == 0 ==> lines_rest(it) == text_lines(rope_text(*r)),
        rope_text(*r).len() > 0 ==> lines_rest(it) == text_lines(rope_text(*r)).skip(line as int),
{
    r.lines_at(line)
}

/// `Rope::chunks`: an iterator over the chunks of the rope, which put
/// together in order give the whole text and never cut a CR-LF pair
/// (where else the text is cut is left open).
#[verifier::external_body]
pub fn rope_chunks<'a>(r: &'a Rope) -> (it: Chunks<'a>)
    ensures
        chunks_rest(it) == rope_chunk_texts(*r),
        chunks_rest(it).flatten() == rope_text(*r),
        keeps_crlf_together(chunks_rest(it)),
{
    r.chunks()
}

/// `Rope::cmp`, which walks the UTF-8 bytes of the chunks of both ropes
/// side by side; its result is named by [`chunk_walk_order`] over the two
/// chunk sequences.  What the walk shows:
/// - ropes cut into the same chunks (the same rope, or a clone of it)
///   compare `Equal`;
/// - ropes of one chunk each compare in the lexicographic order of their
///   bytes;
/// - an empty text compares `Less` than any other, as the walk falls back
///   on the lengths in bytes once a side runs out;
/// - `Equal` comes only for texts of the same length in bytes.
/// For equal texts cut into chunks differently, the walk can give a result
/// other than `Equal`: it does not move on in the second chunk when the
/// first one is the shorter.
#[verifier::external_body]
pub fn rope_compare(a: &Rope, b: &Rope) -> (res: core::cmp::Ordering)
    ensures
        res == chunk_walk_order(rope_chunk_texts(*a), rope_chunk_texts(*b)),
        rope_chunk_texts(*a) == rope_chunk_texts(*b) ==> res is Equal,
        rope_chunk_texts(*a).len() == 1 && rope_chunk_texts(*b).len() == 1 ==> res == byte_order(
            encode_utf8(rope_text(*a)),
            encode_utf8(rope_text(*b)),
        ),
        rope_text(*a).len() == 0 && rope_text(*b).len() > 0 ==> res is Less,
        rope_text(*a).len() > 0 && rope_text(*b).len() == 0 ==> res is Greater,
        res is Equal ==> encode_utf8(rope_text(*a)).len() == encode_utf8(rope_text(*b)).len(),
{
    a.cmp(b)
}

/// `RopeSlice::chars`: an iterator over all chars of the slice.
#[verifier::external_body]
pub fn slice_chars<'a>(s: &RopeSlice<'a>) -> (it: Chars<'a>)
    ensures
        chars_rest(it) == slice_text(*s),
{
    s.chars()
}

/// `Iterator::next` of `ropey::iter::Chars`: yields the first char not yet
/// yielded, or `None` at the end.
#[verifier::external_body]
pub fn chars_next(it: &mut Chars) -> (c: Option<char>)
    ensures
        chars_rest(*old(it)).len() == 0 ==> c is None && chars_rest(*final(it)) == chars_rest(
            *old(it),
        ),
        chars_rest(*old(it)).len() > 0 ==> c == Some(chars_rest(*old(it))[0]) && chars_rest(
            *final(it),
        ) == chars_rest(*old(it)).drop_first(),
{
    it.next()
}

/// `RopeBuilder::new`: a builder with no text yet.
#[verifier::external_body]
pub fn builder_new() -> (b: RopeBuilder)
    ensures
        builder_text(b) == Seq::<char>::empty(),
{
    RopeBuilder::new()
}

/// `RopeBuilder::append`: the text appended so far grows by `chunk`.
#[verifier::external_body]
pub fn builder_append(b: &mut RopeBuilder, chunk: &str)
    ensures
        builder_text(*final(b)) == builder_text(*old(b)) + chunk@,
{
    b.append(chunk)
}

/// `RopeBuilder::finish`: the rope holds the text appended.
#[verifier::external_body]
pub fn builder_finish(b: RopeBuilder) -> (r: Rope)
    ensures
        rope_text(r) == builder_text(b),
{
    b.finish()
}

} // verus!
