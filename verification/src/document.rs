//! The document: a rope of text, its name, whether it was edited, the
//! range of it that is visible, and the settings it is drawn with.

use ratatui::layout::{Alignment, Position};
use ratatui::style::Style;
use ratatui::widgets::{Block, Wrap};
use ropey::iter::{Chars, Chunks, Lines};
use ropey::{Rope, RopeSlice};
use vstd::prelude::*;
use vstd::utf8::encode_utf8;
use crate::error::{RopeError, RopeyResult};
use crate::range::CharRange;
use crate::rope_ops::{
    builder_append, builder_finish, builder_new, builder_text, chars_rest, chunks_rest,
    lines_rest, chunk_walk_order, rope_chunk_texts, rope_chars_at, rope_chunks, rope_clone, rope_compare, rope_from_str, rope_get_slice,
    rope_len_bytes, rope_len_chars, rope_len_lines, rope_lines, rope_lines_at, rope_new,
    rope_text, rope_try_insert, rope_try_insert_char, rope_try_line_to_char, rope_try_remove,
    slice_text,
};
use crate::text::{
    byte_order, insert_pieces, keeps_crlf_together, line_start, saturating_sum,
    split_newlines, strip_cr, text_lines,
};
use crate::widget_types::{alignment_left, block_clone, block_default, position_origin, style_default, wrap_trimmed};

verus! {

broadcast use vstd::seq_lib::group_seq_properties;

/// A text document, drawn as a terminal widget.
#[derive(Debug, PartialEq, Eq)]
pub struct Document<'a> {
    name: Option<String>,
    modified: bool,
    rope: Rope,
    visible_start: usize,
    visible_end: usize,
    block: Option<Block<'a>>,
    style: Style,
    wrap: Option<Wrap>,
    scroll: Position,
    alignment: Alignment,
}

/// What a document is: its name, whether it was edited, its text, the
/// char range `visible_start..visible_end` that is visible, and the
/// settings it is drawn with.
#[verifier::ext_equal]
pub struct DocumentView<'a> {
    pub name: Option<Seq<char>>,
    pub modified: bool,
    pub text: Seq<char>,
    pub visible_start: nat,
    pub visible_end: nat,
    pub block: Option<Block<'a>>,
    pub style: Style,
    pub wrap: Option<Wrap>,
    pub scroll: Position,
    pub alignment: Alignment,
}

impl<'a> View for Document<'a> {
    type V = DocumentView<'a>;

    closed spec fn view(&self) -> DocumentView<'a> {
        DocumentView {
            name: match self.name {
                Some(n) => Some(n@),
                None => None,
            },
            modified: self.modified,
            text: rope_text(self.rope),
            visible_start: self.visible_start as nat,
            visible_end: self.visible_end as nat,
            block: self.block,
            style: self.style,
            wrap: self.wrap,
            scroll: self.scroll,
            alignment: self.alignment,
        }
    }
}

/// The char index that the cursor at `row`, `col` points to in `t`: the
/// start of line `row` plus `col`, or `usize::MAX` when that does not fit.
pub open spec fn cursor_index(t: Seq<char>, row: int, col: int) -> int {
    saturating_sum(line_start(t, row), col)
}

/// The text of a document after `insert(row, col, s)`, and the error it
/// returns, if any.
pub open spec fn insert_outcome(t: Seq<char>, row: int, col: int, s: Seq<char>) -> (Seq<char>, Result<(), RopeError>) {
    if row > text_lines(t).len() {
        (t, Err(RopeError::LineIndexOutOfBounds(row as usize, text_lines(t).len() as usize)))
    } else if cursor_index(t, row, col) > t.len() {
        (t, Err(RopeError::CharIndexOutOfBounds(cursor_index(t, row, col) as usize, t.len() as usize)))
    } else {
        let p = cursor_index(t, row, col);
        (t.take(p) + insert_pieces(s).flatten() + t.skip(p), Ok(()))
    }
}

/// The text of a document after `insert_char(c, row, col)`, and the error
/// it returns, if any.
pub open spec fn insert_char_outcome(t: Seq<char>, c: char, row: int, col: int) -> (Seq<char>, Result<(), RopeError>) {
    if row > text_lines(t).len() {
        (t, Err(RopeError::LineIndexOutOfBounds(row as usize, text_lines(t).len() as usize)))
    } else if cursor_index(t, row, col) > t.len() {
        (t, Err(RopeError::CharIndexOutOfBounds(cursor_index(t, row, col) as usize, t.len() as usize)))
    } else {
        (t.insert(cursor_index(t, row, col), c), Ok(()))
    }
}

/// The text of a document after `remove(range)`, and the error it returns,
/// if any.
pub open spec fn remove_outcome(t: Seq<char>, range: CharRange) -> (Seq<char>, Result<(), RopeError>) {
    let (s, e) = range.resolve(t.len() as int);
    if s > t.len() || e > t.len() {
        (
            t,
            Err(
                RopeError::CharRangeOutOfBounds(
                    match range.start_index() {
                        Some(x) => Some(x as usize),
                        None => None,
                    },
                    match range.end_index() {
                        Some(x) => Some(x as usize),
                        None => None,
                    },
                    t.len() as usize,
                ),
            ),
        )
    } else if s > e {
        (t, Err(RopeError::CharRangeInvalid(s as usize, e as usize)))
    } else {
        (t.take(s) + t.skip(e), Ok(()))
    }
}

/// The pieces of `s`, one text per piece, put back together.
pub open spec fn concat_texts(pieces: Seq<&str>) -> Seq<char> {
    pieces.map_values(|p: &str| p@).flatten()
}

impl<'a> Document<'a> {
    /// Whether only the text and the modified flag of `other` may differ
    /// from those of `self`.
    pub open spec fn same_settings(self, other: Self) -> bool {
        &&& other@.name == self@.name
        &&& other@.visible_start == self@.visible_start
        &&& other@.visible_end == self@.visible_end
        &&& other@.block == self@.block
        &&& other@.style == self@.style
        &&& other@.wrap == self@.wrap
        &&& other@.scroll == self@.scroll
        &&& other@.alignment == self@.alignment
    }

    /// Creates an empty `Document`.
    pub fn new() -> (doc: Self)
        ensures
            doc@.text == Seq::<char>::empty(),
            doc@.name is None,
            !doc@.modified,
            doc@.visible_start == 0,
            doc@.visible_end == 0,
            doc@.block is None,
            doc@.wrap is None,
    {
        Document {
            name: None,
            modified: false,
            rope: rope_new(),
            visible_start: 0,
            visible_end: 0,
            block: None,
            style: style_default(),
            wrap: None,
            scroll: position_origin(),
            alignment: alignment_left(),
        }
    }

    /// Creates a `Document` from a string slice.  Its visible range covers
    /// all of its chars.
    pub fn from_str(text: &str) -> (doc: Self)
        ensures
            doc@.text == text@,
            doc@.name is None,
            !doc@.modified,
            doc@.visible_start == 0,
            doc@.visible_end == text@.len(),
            doc@.block is None,
            doc@.wrap is None,
    {
        let rope = rope_from_str(text);
        let char_len = rope_len_chars(&rope);
        Document {
            name: None,
            modified: false,
            rope,
            visible_start: 0,
            visible_end: char_len,
            block: None,
            style: style_default(),
            wrap: None,
            scroll: position_origin(),
            alignment: alignment_left(),
        }
    }

    /// Creates a `Document` from text that was read in whole: its visible
    /// range covers all of its chars, and it has a default block.
    pub fn from_loaded_text(text: &str) -> (doc: Self)
        ensures
            doc@.text == text@,
            doc@.name is None,
            !doc@.modified,
            doc@.visible_start == 0,
            doc@.visible_end == text@.len(),
            doc@.block is Some,
            doc@.wrap is None,
    {
        let rope = rope_from_str(text);
        let char_len = rope_len_chars(&rope);
        Document {
            name: None,
            modified: false,
            rope,
            visible_start: 0,
            visible_end: char_len,
            block: Some(block_default()),
            style: style_default(),
            wrap: None,
            scroll: position_origin(),
            alignment: alignment_left(),
        }
    }

    /// Creates a `Document` whose text is the given pieces, one after the
    /// other.
    pub fn from_pieces(pieces: &[&str]) -> (doc: Self)
        ensures
            doc@.text == concat_texts(pieces@),
            doc@.name is None,
            !doc@.modified,
            doc@.visible_start == 0,
            doc@.visible_end == 0,
            doc@.block is None,
            doc@.wrap is None,
    {
        let mut builder = builder_new();
        let n = pieces.len();
        let ghost views = pieces@.map_values(|p: &str| p@);
        for i in 0..n
            invariant
                n == pieces@.len(),
                views == pieces@.map_values(|p: &str| p@),
                builder_text(builder) == views.take(i as int).flatten(),
        {
            builder_append(&mut builder, pieces[i]);
            proof {
                assert(views.take(i + 1) =~= views.take(i as int).push(pieces@[i as int]@));
                views.take(i as int).lemma_flatten_push(pieces@[i as int]@);
            }
        }
        proof {
            assert(views.take(n as int) =~= views);
        }
        let rope = builder_finish(builder);
        Document {
            name: None,
            modified: false,
            rope,
            visible_start: 0,
            visible_end: 0,
            block: None,
            style: style_default(),
            wrap: None,
            scroll: position_origin(),
            alignment: alignment_left(),
        }
    }

    /// Total number of bytes of the text, in UTF-8.
    pub fn len_bytes(&self) -> (n: usize)
        ensures
            n == encode_utf8(self@.text).len(),
    {
        rope_len_bytes(&self.rope)
    }

    /// Total number of chars of the text.
    pub fn len_chars(&self) -> (n: usize)
        ensures
            n == self@.text.len(),
    {
        rope_len_chars(&self.rope)
    }

    /// The number of lines of the text, plus one (saturating at
    /// `usize::MAX`).
    pub fn len_lines(&self) -> (n: usize)
        ensures
            n == saturating_sum(text_lines(self@.text).len() as int, 1),
    {
        rope_len_lines(&self.rope).saturating_add(1)
    }

    /// Returns true if the text holds no chars.
    pub fn is_empty(&self) -> (b: bool)
        ensures
            b == (self@.text.len() == 0),
    {
        rope_len_chars(&self.rope) == 0
    }

    /// An iterator over the chars of the text, from char index `pos` on.
    pub fn chars_at(&self, pos: usize) -> (it: Chars<'_>)
        requires
            pos <= self@.text.len(),
        ensures
            chars_rest(it) == self@.text.skip(pos as int),
    {
        rope_chars_at(&self.rope, pos)
    }

    /// An iterator over the lines of the text, from line `row` on.  An
    /// empty document yields its one empty line whatever `row` is.
    pub fn lines_at(&self, row: usize) -> (it: Lines<'_>)
        requires
            row <= text_lines(self@.text).len(),
        ensures
            self@.text.len() == 0 ==> lines_rest(it) == text_lines(self@.text),
            self@.text.len() > 0 ==> lines_rest(it) == text_lines(self@.text).skip(row as int),
    {
        rope_lines_at(&self.rope, row)
    }

    /// An iterator over the lines of the text.  Each line keeps the break
    /// at its end; the last line is yielded even when empty.
    pub fn lines(&self) -> (it: Lines<'_>)
        ensures
            lines_rest(it) == text_lines(self@.text),
    {
        rope_lines(&self.rope)
    }

    /// An iterator over contiguous `str` chunks of the text, which together,
    /// in order, are the whole text; no CR-LF pair is cut between chunks.
    pub fn chunks(&self) -> (it: Chunks<'_>)
        ensures
            chunks_rest(it) == self.chunk_texts(),
            chunks_rest(it).flatten() == self@.text,
            keeps_crlf_together(chunks_rest(it)),
    {
        rope_chunks(&self.rope)
    }

    /// The slice of the text in the visible range, if that range lies
    /// within the text.
    pub fn visible_slice(&self) -> (res: Option<RopeSlice<'_>>)
        ensures
            res is Some <==> self@.visible_start <= self@.visible_end <= self@.text.len(),
            res matches Some(s) ==> slice_text(s) == self@.text.subrange(
                self@.visible_start as int,
                self@.visible_end as int,
            ),
    {
        rope_get_slice(&self.rope, self.visible_start, self.visible_end)
    }

    /// The slice of the text in the given char range, if the range is not
    /// reversed and lies within the text.
    pub fn slice(&self, char_range: CharRange) -> (res: Option<RopeSlice<'_>>)
        requires
            char_range.is_representable(),
        ensures
            ({
                let (s, e) = char_range.resolve(self@.text.len() as int);
                &&& res is Some <==> 0 <= s <= e <= self@.text.len()
                &&& res matches Some(sl) ==> slice_text(sl) == self@.text.subrange(s, e)
            }),
    {
        let len = rope_len_chars(&self.rope);
        let start = match char_range.first_index() {
            Some(s) => s,
            None => 0,
        };
        let end = match char_range.past_index() {
            Some(e) => e,
            None => len,
        };
        rope_get_slice(&self.rope, start, end)
    }

    /// The slice that is drawn: the visible slice when the visible range
    /// lies within the text, and the whole text otherwise.
    pub fn displayed_slice(&self) -> (s: RopeSlice<'_>)
        ensures
            slice_text(s) == if self@.visible_start <= self@.visible_end <= self@.text.len() {
                self@.text.subrange(self@.visible_start as int, self@.visible_end as int)
            } else {
                self@.text
            },
    {
        match self.visible_slice() {
            Some(s) => s,
            None => {
                let len = rope_len_chars(&self.rope);
                assert(self@.text.subrange(0, len as int) =~= self@.text);
                rope_get_slice(&self.rope, 0, len).unwrap()
            },
        }
    }

    /// The block the document is drawn in: its own block, or a default
    /// block when it has none.
    pub fn drawn_block(&self) -> (b: Block<'a>)
        ensures
            self@.block matches Some(own) ==> b == own,
    {
        match &self.block {
            Some(own) => block_clone(own),
            None => block_default(),
        }
    }

    /// The style the whole widget is drawn with.
    pub fn style_setting(&self) -> (s: Style)
        ensures
            s == self@.style,
    {
        self.style
    }

    /// The alignment the text is drawn with.
    pub fn alignment_setting(&self) -> (a: Alignment)
        ensures
            a == self@.alignment,
    {
        self.alignment
    }

    /// The wrapping the document is drawn with: its own, or wrapping that
    /// trims leading whitespace when it has none.
    pub fn drawn_wrap(&self) -> (w: Wrap)
        ensures
            self@.wrap matches Some(own) ==> w == own,
    {
        match self.wrap {
            Some(own) => own,
            None => wrap_trimmed(),
        }
    }

    /// Converts a cursor position (line `row`, column `col`) to a char
    /// index of the text: the start of line `row` plus `col`.
    pub fn cursor_to_char(&self, row: usize, col: usize) -> (idx: usize)
        requires
            row <= text_lines(self@.text).len(),
            line_start(self@.text, row as int) + col <= usize::MAX,
        ensures
            idx == line_start(self@.text, row as int) + col,
    {
        rope_try_line_to_char(&self.rope, row).unwrap() + col
    }

    /// The char index that the cursor at `row`, `col` points to (saturated
    /// at `usize::MAX`), or the error when `row` is past the last line.
    fn checked_cursor_to_char(&self, row: usize, col: usize) -> (res: RopeyResult<usize>)
        ensures
            row <= text_lines(self@.text).len() ==> res == Ok::<usize, RopeError>(
                cursor_index(self@.text, row as int, col as int) as usize,
            ),
            row > text_lines(self@.text).len() ==> res == Err::<usize, RopeError>(
                RopeError::LineIndexOutOfBounds(row, text_lines(self@.text).len() as usize),
            ),
    {
        match rope_try_line_to_char(&self.rope, row) {
            Ok(start) => Ok(start.saturating_add(col)),
            Err(e) => Err(e),
        }
    }

    /// Inserts a single char at the cursor position (line `row`, column
    /// `col`).  Does not panic: a line past the last one, or a position
    /// past the end of the text, gives an error and leaves the text as it
    /// was.  The document is marked as modified in any case.
    pub fn insert_char(&mut self, input: char, row: usize, col: usize) -> (res: RopeyResult<()>)
        ensures
            final(self)@.modified,
            old(self).same_settings(*final(self)),
            (final(self)@.text, res) == insert_char_outcome(old(self)@.text, input, row as int, col as int),
    {
        self.modified = true;
        let pos = match self.checked_cursor_to_char(row, col) {
            Ok(p) => p,
            Err(e) => return Err(e),
        };
        match rope_try_insert_char(&mut self.rope, pos, input) {
            Ok(()) => Ok(()),
            Err(e) => Err(e),
        }
    }

    /// Inserts a string at the cursor position (line `row`, column `col`).
    ///
    /// The string is cut at every `'\n'`, a `'\r'` ending a piece is
    /// dropped, and the pieces go in side by side at the cursor: the line
    /// breaks of the input are not inserted.  Does not panic: a line past
    /// the last one, or a cursor past the end of the text, gives an error
    /// and leaves the text as it was.  The document is marked as modified
    /// in any case.
    pub fn insert(&mut self, row: usize, col: usize, input: &str) -> (res: RopeyResult<()>)
        ensures
            final(self)@.modified,
            old(self).same_settings(*final(self)),
            (final(self)@.text, res) == insert_outcome(old(self)@.text, row as int, col as int, input@),
    {
        self.modified = true;
        let lines = split_for_insert(input);
        let start = match self.checked_cursor_to_char(row, col) {
            Ok(p) => p,
            Err(e) => return Err(e),
        };
        let ghost pieces = insert_pieces(input@);
        let ghost t0 = old(self)@.text;
        assert(row <= text_lines(t0).len());
        assert(start as int == cursor_index(t0, row as int, col as int));
        proof {
            crate::text::lemma_split_newlines_nonempty(input@);
            assert(pieces.take(0) =~= Seq::<Seq<char>>::empty());
        }
        let mut pos = start;
        let n = lines.len();
        let mut i: usize = 0;
        while i < n
            invariant
                0 <= i <= n,
                n == lines@.len() == pieces.len(),
                n >= 1,
                forall|k: int| 0 <= k < n ==> #[trigger] lines@[k]@ == pieces[k],
                self.modified,
                old(self).same_settings(*self),
                pieces == insert_pieces(input@),
                t0 == old(self)@.text,
                row <= text_lines(t0).len(),
                start as int == cursor_index(t0, row as int, col as int),
                i == 0 ==> self@.text == t0 && pos == start,
                i > 0 ==> start <= t0.len() && pos <= self@.text.len(),
                i > 0 ==> self@.text == t0.take(start as int) + pieces.take(i as int).flatten()
                    + t0.skip(start as int),
                pos == start + pieces.take(i as int).flatten().len(),
            decreases n - i,
        {
            let line = lines[i].as_str();
            let ghost before = self@.text;
            let ghost x = pieces[i as int];
            match rope_try_insert(&mut self.rope, pos, line) {
                Ok(()) => {
                    let new_len = rope_len_chars(&self.rope);
                    let width = line.unicode_len();
                    proof {
                        assert(pieces.take(i + 1) =~= pieces.take(i as int).push(x));
                        pieces.take(i as int).lemma_flatten_push(x);
                        let f = pieces.take(i as int).flatten();
                        if i == 0 {
                            assert(f =~= Seq::<char>::empty());
                            assert(before.take(start as int) + x + before.skip(start as int)
                                =~= t0.take(start as int) + (f + x) + t0.skip(start as int));
                        } else {
                            assert(before.take(pos as int) =~= t0.take(start as int) + f);
                            assert(before.skip(pos as int) =~= t0.skip(start as int));
                            assert(before.take(pos as int) + x + before.skip(pos as int)
                                =~= t0.take(start as int) + (f + x) + t0.skip(start as int));
                        }
                    }
                    pos = pos + width;
                },
                Err(e) => {
                    return Err(e);
                },
            }
            i = i + 1;
        }
        proof {
            assert(pieces.take(n as int) =~= pieces);
        }
        Ok(())
    }

    /// Removes the text in the given char range.  A range reaching past the
    /// end of the text, or a reversed range, gives an error and leaves the
    /// text as it was.
    pub fn remove(&mut self, char_range: CharRange) -> (res: RopeyResult<()>)
        requires
            char_range.is_representable(),
        ensures
            final(self)@.modified == old(self)@.modified,
            old(self).same_settings(*final(self)),
            (final(self)@.text, res) == remove_outcome(old(self)@.text, char_range),
    {
        let start_opt = char_range.first_index();
        let end_opt = char_range.past_index();
        match rope_try_remove(&mut self.rope, start_opt, end_opt) {
            Ok(()) => Ok(()),
            Err(e) => Err(e),
        }
    }

    /// Surrounds the document widget with a `Block`.
    #[must_use]
    pub fn block(self, block: Block<'a>) -> (doc: Self)
        ensures
            doc@ == (DocumentView { block: Some(block), ..self@ }),
    {
        let mut doc = self;
        doc.block = Some(block);
        doc
    }

    /// Sets the wrapping configuration for the widget.
    #[must_use]
    pub fn wrap(self, wrap: Wrap) -> (doc: Self)
        ensures
            doc@ == (DocumentView { wrap: Some(wrap), ..self@ }),
    {
        let mut doc = self;
        doc.wrap = Some(wrap);
        doc
    }

    /// Sets the text alignment for the widget.
    #[must_use]
    pub fn alignment(self, alignment: Alignment) -> (doc: Self)
        ensures
            doc@ == (DocumentView { alignment, ..self@ }),
    {
        let mut doc = self;
        doc.alignment = alignment;
        doc
    }

    /// Sets the style of the entire widget.
    #[must_use]
    pub fn set_style(self, style: Style) -> (doc: Self)
        ensures
            doc@ == (DocumentView { style, ..self@ }),
    {
        let mut doc = self;
        doc.style = style;
        doc
    }

    /// Sets the name of the document, if it has none yet.
    pub fn name(&mut self, path: &str)
        ensures
            final(self)@ == (DocumentView {
                name: match old(self)@.name {
                    Some(n) => Some(n),
                    None => Some(path@),
                },
                ..old(self)@
            }),
    {
        if self.name.is_none() {
            self.name = Some(path.to_owned());
        }
    }

    /// Renames the document.
    pub fn rename(&mut self, path: &str)
        ensures
            final(self)@ == (DocumentView { name: Some(path@), ..old(self)@ }),
    {
        self.name = Some(path.to_owned());
    }
}

impl<'a> Document<'a> {
    /// Whether the two documents hold the very same rope: one is the
    /// other, or a clone of it.
    pub closed spec fn same_rope(self, other: Self) -> bool {
        self.rope == other.rope
    }

    /// The chunks, in order, into which the rope of the document cuts its
    /// text.
    pub closed spec fn chunk_texts(self) -> Seq<Seq<char>> {
        rope_chunk_texts(self.rope)
    }

    /// Compares the texts of two documents, as the rope compares them:
    /// walking the bytes of their chunks side by side.  Documents cut into
    /// the same chunks (a document and itself, or its clones) compare
    /// `Equal`; documents of one chunk each compare in the lexicographic
    /// order of their bytes; an empty text compares `Less` than any other;
    /// and `Equal` comes only for texts of the same length in UTF-8 bytes.
    pub fn compare(&self, other: &Self) -> (res: core::cmp::Ordering)
        ensures
            res == chunk_walk_order(self.chunk_texts(), other.chunk_texts()),
            self.chunk_texts() == other.chunk_texts() ==> res is Equal,
            self.same_rope(*other) ==> res is Equal,
            self.chunk_texts().len() == 1 && other.chunk_texts().len() == 1 ==> res == byte_order(
                encode_utf8(self@.text),
                encode_utf8(other@.text),
            ),
            self@.text.len() == 0 && other@.text.len() > 0 ==> res is Less,
            self@.text.len() > 0 && other@.text.len() == 0 ==> res is Greater,
            res is Equal ==> encode_utf8(self@.text).len() == encode_utf8(other@.text).len(),
    {
        rope_compare(&self.rope, &other.rope)
    }
}

impl<'a> Default for Document<'a> {
    /// An empty document, as [`Document::new`] makes it.
    fn default() -> (doc: Self)
        ensures
            doc@.text == Seq::<char>::empty(),
            doc@.name is None,
            !doc@.modified,
            doc@.visible_start == 0,
            doc@.visible_end == 0,
            doc@.block is None,
            doc@.wrap is None,
    {
        Self::new()
    }
}

impl<'a> Clone for Document<'a> {
    /// A copy of the document, equal to it in every part and sharing its
    /// rope.
    fn clone(&self) -> (res: Self)
        ensures
            res@ == self@,
            res.same_rope(*self),
    {
        Document {
            name: match &self.name {
                Some(n) => Some(n.clone()),
                None => None,
            },
            modified: self.modified,
            rope: rope_clone(&self.rope),
            visible_start: self.visible_start,
            visible_end: self.visible_end,
            block: match &self.block {
                Some(b) => Some(block_clone(b)),
                None => None,
            },
            style: self.style,
            wrap: self.wrap,
            scroll: self.scroll,
            alignment: self.alignment,
        }
    }
}

/// Every document holds the same rope as itself.
pub proof fn lemma_same_rope_reflexive(d: Document)
    ensures
        d.same_rope(d),
{
}

/// Holding the same rope is symmetric.
pub proof fn lemma_same_rope_symmetric(d: Document, e: Document)
    requires
        d.same_rope(e),
    ensures
        e.same_rope(d),
{
}

/// `String::from_iter` over chars: the string of those chars.
#[verifier::external_body]
fn string_from_chars(chars: Vec<char>) -> (s: String)
    ensures
        s@ == chars@,
{
    String::from_iter(chars)
}

/// `p` without its final `'\r'`, if it has one, as a string.
fn strip_cr_to_string(p: Vec<char>) -> (s: String)
    ensures
        s@ == strip_cr(p@),
{
    let mut p = p;
    let n = p.len();
    if n > 0 && p[n - 1] == '\r' {
        let ghost whole = p@;
        p.pop();
        proof {
            assert(p@ =~= whole.drop_last());
        }
    }
    string_from_chars(p)
}

/// The pieces `Document::insert` puts into the text, as strings.
fn split_for_insert(input: &str) -> (pieces: Vec<String>)
    ensures
        pieces@.len() == insert_pieces(input@).len(),
        forall|k: int| 0 <= k < pieces@.len() ==> #[trigger] pieces@[k]@ == insert_pieces(input@)[k],
{
    let mut done: Vec<String> = Vec::new();
    let mut cur: Vec<char> = Vec::new();
    let mut it = input.chars();
    let ghost mut k: int = 0;
    proof {
        assert(input@.take(0) =~= Seq::<char>::empty());
    }
    loop
        invariant
            0 <= k <= input@.len(),
            vstd::std_specs::iter::IteratorSpec::obeys_prophetic_iter_laws(&it),
            vstd::std_specs::iter::IteratorSpec::remaining(&it) == input@.skip(k),
            split_newlines(input@.take(k)).len() == done@.len() + 1,
            forall|j: int| 0 <= j < done@.len() ==> #[trigger] done@[j]@ == strip_cr(split_newlines(input@.take(k))[j]),
            split_newlines(input@.take(k)).last() == cur@,
        ensures
            k == input@.len(),
            split_newlines(input@.take(k)).len() == done@.len() + 1,
            forall|j: int| 0 <= j < done@.len() ==> #[trigger] done@[j]@ == strip_cr(split_newlines(input@.take(k))[j]),
            split_newlines(input@.take(k)).last() == cur@,
        decreases input@.len() - k,
    {
        let ghost before = input@.take(k);
        match it.next() {
            None => {
                proof {
                    assert(input@.skip(k).len() == 0);
                }
                break;
            },
            Some(c) => {
                proof {
                    assert(input@.skip(k)[0] == input@[k]);
                    assert(input@.take(k + 1) =~= before.push(c));
                    assert(input@.take(k + 1).drop_last() =~= before);
                    assert(input@.skip(k).drop_first() =~= input@.skip(k + 1));
                    crate::text::lemma_split_newlines_nonempty(before);
                }
                if c == '\n' {
                    let piece = strip_cr_to_string(cur);
                    done.push(piece);
                    cur = Vec::new();
                } else {
                    cur.push(c);
                }
                proof {
                    k = k + 1;
                }
            },
        }
    }
    proof {
        assert(input@.take(k) =~= input@);
    }
    let last = strip_cr_to_string(cur);
    done.push(last);
    done
}

} // verus!
