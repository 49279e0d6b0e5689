//! Laws that relate the editing operations of a document, proved over the
//! outcomes their contracts state.

use vstd::prelude::*;
use crate::document::{concat_texts, cursor_index, insert_char_outcome, insert_outcome, remove_outcome};
use crate::error::RopeError;
use crate::range::{CharBound, CharRange};
use crate::text::{
    insert_pieces, lemma_flatten_lacks, lemma_split_newlines_no_newline,
    lemma_split_newlines_nonempty, lemma_split_newlines_pieces_lack_newline, line_start, split_newlines,
    strip_cr, text_lines,
};

verus! {

broadcast use vstd::seq_lib::group_seq_properties;

/// Removing the one char that a successful `insert_char` put in gives back
/// the text as it was before.
pub proof fn law_remove_undoes_insert_char(t: Seq<char>, c: char, row: usize, col: usize)
    requires
        insert_char_outcome(t, c, row as int, col as int).1 is Ok,
        t.len() < usize::MAX,
    ensures
        ({
            let p = cursor_index(t, row as int, col as int);
            let range = CharRange {
                start: CharBound::Included(p as usize),
                end: CharBound::Excluded((p + 1) as usize),
            };
            remove_outcome(insert_char_outcome(t, c, row as int, col as int).0, range) == (
                t,
                Ok::<(), RopeError>(()),
            )
        }),
{
    let p = cursor_index(t, row as int, col as int);
    let u = t.insert(p, c);
    assert(u.take(p) + u.skip(p + 1) =~= t);
}

/// Inserting a string that holds no `'\n'` and does not end with `'\r'`
/// at a cursor within the text puts exactly that string at the cursor.
pub proof fn law_insert_single_line(t: Seq<char>, row: usize, col: usize, s: Seq<char>)
    requires
        row <= text_lines(t).len(),
        cursor_index(t, row as int, col as int) <= t.len(),
        !s.contains('\n'),
        !(s.len() > 0 && s.last() == '\r'),
    ensures
        ({
            let p = cursor_index(t, row as int, col as int);
            insert_outcome(t, row as int, col as int, s) == (
                t.take(p) + s + t.skip(p),
                Ok::<(), RopeError>(()),
            )
        }),
{
    lemma_split_newlines_no_newline(s);
    assert(insert_pieces(s) =~= seq![s]);
    seq![s].lemma_flatten_one_element();
}

/// A successful `insert` puts its input in at the cursor as one block of
/// chars that holds no `'\n'`: the line breaks of the input are dropped.
pub proof fn law_insert_adds_no_newline(t: Seq<char>, row: usize, col: usize, s: Seq<char>)
    requires
        insert_outcome(t, row as int, col as int, s).1 is Ok,
    ensures
        ({
            let p = cursor_index(t, row as int, col as int);
            let m = insert_pieces(s).flatten();
            &&& insert_outcome(t, row as int, col as int, s).0 == t.take(p) + m + t.skip(p)
            &&& !m.contains('\n')
        }),
{
    let sp = split_newlines(s);
    let pieces = insert_pieces(s);
    lemma_split_newlines_pieces_lack_newline(s);
    assert forall|k: int| 0 <= k < pieces.len() implies !(#[trigger] pieces[k]).contains('\n') by {
        assert(pieces[k] == strip_cr(sp[k]));
        if pieces[k].contains('\n') {
            let i = choose|i: int| 0 <= i < pieces[k].len() && pieces[k][i] == '\n';
            assert(sp[k][i] == '\n');
            assert(sp[k].contains('\n'));
        }
    }
    lemma_flatten_lacks(pieces, '\n');
}

// ---------------------------------------------------------------------
// Where an edit lands: the start of the line plus the column.

/// A successful `insert_char(c, row, col)` puts `c` at the char index
/// where line `row` starts plus `col`, the index `cursor_to_char(row, col)`
/// returns, for every row and column: the new text is `t` with `c`
/// inserted there.
pub proof fn law_insert_char_at_line_start_plus_column(t: Seq<char>, c: char, row: usize, col: usize)
    requires
        row <= text_lines(t).len(),
        line_start(t, row as int) + col <= t.len(),
        t.len() <= usize::MAX,
    ensures
        insert_char_outcome(t, c, row as int, col as int) == (
            t.insert(line_start(t, row as int) + col, c),
            Ok::<(), RopeError>(()),
        ),
{
}

/// A successful `insert(row, col, s)` puts its block of chars at the char
/// index where line `row` starts plus `col`.
pub proof fn law_insert_at_line_start_plus_column(t: Seq<char>, row: usize, col: usize, s: Seq<char>)
    requires
        row <= text_lines(t).len(),
        line_start(t, row as int) + col <= t.len(),
        t.len() <= usize::MAX,
    ensures
        ({
            let p = line_start(t, row as int) + col;
            insert_outcome(t, row as int, col as int, s) == (
                t.take(p) + insert_pieces(s).flatten() + t.skip(p),
                Ok::<(), RopeError>(()),
            )
        }),
{
}

// ---------------------------------------------------------------------
// How an inserted string is cut.

/// Pieces put back together with a `'\n'` between each two.
pub open spec fn join_with_newlines(ps: Seq<Seq<char>>) -> Seq<char>
    decreases ps.len(),
{
    if ps.len() <= 1 {
        if ps.len() == 0 {
            Seq::<char>::empty()
        } else {
            ps[0]
        }
    } else {
        join_with_newlines(ps.drop_last()) + seq!['\n'] + ps.last()
    }
}

/// Cutting a text at its `'\n'`s loses nothing: the pieces, none of which
/// holds a `'\n'`, put back together with a `'\n'` between each two are
/// the text.
pub proof fn law_split_newlines_joins_back(s: Seq<char>)
    ensures
        join_with_newlines(split_newlines(s)) == s,
        forall|k: int|
            0 <= k < split_newlines(s).len() ==> !(#[trigger] split_newlines(s)[k]).contains('\n'),
    decreases s.len(),
{
    lemma_split_newlines_pieces_lack_newline(s);
    if s.len() == 0 {
    } else {
        let init = split_newlines(s.drop_last());
        law_split_newlines_joins_back(s.drop_last());
        lemma_split_newlines_nonempty(s.drop_last());
        if s.last() == '\n' {
            let u = init.push(Seq::<char>::empty());
            assert(u.drop_last() =~= init);
            assert(s.drop_last() + seq!['\n'] + Seq::<char>::empty() =~= s);
        } else {
            let y = init.last().push(s.last());
            let u = init.update(init.len() - 1, y);
            if init.len() == 1 {
                assert(u[0] == y);
                assert(init[0] == init.last());
                assert(s.drop_last().push(s.last()) =~= s);
            } else {
                assert(u.drop_last() =~= init.drop_last());
                assert(u.last() == y);
                assert(join_with_newlines(init) == join_with_newlines(init.drop_last()) + seq!['\n']
                    + init.last());
                assert(join_with_newlines(init.drop_last()) + seq!['\n'] + y
                    =~= (join_with_newlines(init.drop_last()) + seq!['\n'] + init.last()).push(s.last()));
                assert(s.drop_last().push(s.last()) =~= s);
            }
        }
    }
}

/// Appending text without a `'\n'` only lengthens the last piece.
proof fn lemma_split_newlines_append(s: Seq<char>, b: Seq<char>)
    requires
        !b.contains('\n'),
    ensures
        split_newlines(s + b) == split_newlines(s).update(
            split_newlines(s).len() - 1,
            split_newlines(s).last() + b,
        ),
    decreases b.len(),
{
    lemma_split_newlines_nonempty(s);
    let sp = split_newlines(s);
    if b.len() == 0 {
        assert(s + b =~= s);
        assert(sp.last() + b =~= sp.last());
        assert(sp.update(sp.len() - 1, sp.last()) =~= sp);
    } else {
        let bi = b.drop_last();
        assert(!bi.contains('\n')) by {
            if bi.contains('\n') {
                let i = choose|i: int| 0 <= i < bi.len() && bi[i] == '\n';
                assert(b[i] == '\n');
            }
        }
        assert(b.last() != '\n') by {
            assert(b[b.len() - 1] == b.last());
        }
        lemma_split_newlines_append(s, bi);
        assert((s + b).drop_last() =~= s + bi);
        assert((s + b).last() == b.last());
        let init = split_newlines(s + bi);
        assert(init.last() == sp.last() + bi);
        assert((sp.last() + bi).push(b.last()) =~= sp.last() + b);
        assert(init.update(init.len() - 1, init.last().push(b.last())) =~= sp.update(
            sp.len() - 1,
            sp.last() + b,
        ));
    }
}

/// The pieces of `a`, a `'\n'`, and `b`, where neither `a` nor `b` holds a
/// `'\n'`, are `a` and `b`.
proof fn lemma_split_two_lines(a: Seq<char>, b: Seq<char>)
    requires
        !a.contains('\n'),
        !b.contains('\n'),
    ensures
        split_newlines(a + seq!['\n'] + b) == seq![a, b],
{
    lemma_split_newlines_no_newline(a);
    let an = a + seq!['\n'];
    assert(an.drop_last() =~= a);
    assert(an.last() == '\n');
    assert(split_newlines(an) =~= seq![a, Seq::<char>::empty()]);
    lemma_split_newlines_append(an, b);
    assert(Seq::<char>::empty() + b =~= b);
    assert(seq![a, Seq::<char>::empty()].update(1, b) =~= seq![a, b]);
}

/// Inserting `a`, a `'\n'`, and `b` (where neither holds a `'\n'` or ends
/// with a `'\r'`) at a cursor within the text puts exactly `a` followed by
/// `b` at the cursor: every char of the input but the `'\n'` is kept.
pub proof fn law_insert_two_lines(t: Seq<char>, row: usize, col: usize, a: Seq<char>, b: Seq<char>)
    requires
        row <= text_lines(t).len(),
        line_start(t, row as int) + col <= t.len(),
        t.len() <= usize::MAX,
        !a.contains('\n'),
        !b.contains('\n'),
        !(a.len() > 0 && a.last() == '\r'),
        !(b.len() > 0 && b.last() == '\r'),
    ensures
        ({
            let p = line_start(t, row as int) + col;
            insert_outcome(t, row as int, col as int, a + seq!['\n'] + b) == (
                t.take(p) + (a + b) + t.skip(p),
                Ok::<(), RopeError>(()),
            )
        }),
{
    let s = a + seq!['\n'] + b;
    lemma_split_two_lines(a, b);
    assert(insert_pieces(s) =~= seq![a, b]);
    let ps = seq![a, b];
    assert(ps.drop_first() =~= seq![b]);
    seq![b].lemma_flatten_one_element();
    assert(ps.flatten() == a + ps.drop_first().flatten());
}

/// Inserting `a`, `"\r\n"`, and `b` (where neither holds a `'\n'` or ends
/// with a `'\r'`) puts exactly `a` followed by `b` at the cursor: the
/// `'\r'` before a `'\n'` is dropped with it.
pub proof fn law_insert_two_lines_crlf(t: Seq<char>, row: usize, col: usize, a: Seq<char>, b: Seq<char>)
    requires
        row <= text_lines(t).len(),
        line_start(t, row as int) + col <= t.len(),
        t.len() <= usize::MAX,
        !a.contains('\n'),
        !b.contains('\n'),
        !(a.len() > 0 && a.last() == '\r'),
        !(b.len() > 0 && b.last() == '\r'),
    ensures
        ({
            let p = line_start(t, row as int) + col;
            insert_outcome(t, row as int, col as int, a + seq!['\r', '\n'] + b) == (
                t.take(p) + (a + b) + t.skip(p),
                Ok::<(), RopeError>(()),
            )
        }),
{
    let ar = a.push('\r');
    assert(!ar.contains('\n')) by {
        if ar.contains('\n') {
            let i = choose|i: int| 0 <= i < ar.len() && ar[i] == '\n';
            assert(a[i] == '\n');
        }
    }
    assert(a + seq!['\r', '\n'] + b =~= ar + seq!['\n'] + b);
    lemma_split_two_lines(ar, b);
    assert(strip_cr(ar) =~= a);
    assert(insert_pieces(a + seq!['\r', '\n'] + b) =~= seq![a, b]);
    let ps = seq![a, b];
    assert(ps.drop_first() =~= seq![b]);
    seq![b].lemma_flatten_one_element();
    assert(ps.flatten() == a + ps.drop_first().flatten());
}

// ---------------------------------------------------------------------
// Char ranges: what `slice` and `remove` cover.

/// `start..=end` (inclusive end) covers the chars from `start` through
/// `end`: it resolves to the indices `start` and `end + 1`, as
/// `start..end + 1` does, whatever the length of the text.
pub proof fn law_inclusive_range_covers_end(s: usize, e: usize, len: int)
    requires
        e < usize::MAX,
    ensures
        (CharRange { start: CharBound::Included(s), end: CharBound::Included(e) }).resolve(len) == (
            s as int,
            e + 1,
        ),
        (CharRange { start: CharBound::Included(s), end: CharBound::Included(e) }).resolve(len)
            == (CharRange { start: CharBound::Included(s), end: CharBound::Excluded((e + 1) as usize) }).resolve(len),
        (CharRange { start: CharBound::Excluded(s), end: CharBound::Included(e) }).resolve(len).1 == e + 1,
        (CharRange { start: CharBound::Unbounded, end: CharBound::Included(e) }).resolve(len) == (
            0int,
            e + 1,
        ),
{
}

/// The other forms of a range: `start..end` covers `start` up to, not
/// including, `end`; an excluded start begins one past it; an open start
/// is 0 and an open end is the end of the text.
pub proof fn law_range_forms(s: usize, e: usize, len: int)
    requires
        s < usize::MAX,
    ensures
        (CharRange { start: CharBound::Included(s), end: CharBound::Excluded(e) }).resolve(len) == (
            s as int,
            e as int,
        ),
        (CharRange { start: CharBound::Excluded(s), end: CharBound::Excluded(e) }).resolve(len) == (
            s + 1,
            e as int,
        ),
        (CharRange { start: CharBound::Included(s), end: CharBound::Unbounded }).resolve(len) == (
            s as int,
            len,
        ),
        (CharRange { start: CharBound::Unbounded, end: CharBound::Unbounded }).resolve(len) == (
            0int,
            len,
        ),
{
}

/// Removing `start..=end`, within the text, takes out the `end - start + 1`
/// chars from `start` through `end`, as removing `start..end + 1` does.
pub proof fn law_remove_inclusive_range(t: Seq<char>, s: usize, e: usize)
    requires
        s <= e < t.len(),
        t.len() <= usize::MAX,
    ensures
        remove_outcome(t, CharRange { start: CharBound::Included(s), end: CharBound::Included(e) }) == (
            t.take(s as int) + t.skip(e + 1),
            Ok::<(), RopeError>(()),
        ),
        remove_outcome(t, CharRange { start: CharBound::Included(s), end: CharBound::Included(e) })
            == remove_outcome(
            t,
            CharRange { start: CharBound::Included(s), end: CharBound::Excluded((e + 1) as usize) },
        ),
        (t.take(s as int) + t.skip(e + 1)).len() == t.len() - (e - s + 1),
{
}

/// Removing `start..end`, within the text, takes out the chars from
/// `start` up to, not including, `end`; removing `start..` keeps the text
/// before `start`; removing `..end` keeps the text from `end` on.
pub proof fn law_remove_exclusive_and_open_ranges(t: Seq<char>, s: usize, e: usize)
    requires
        s <= e <= t.len(),
        t.len() <= usize::MAX,
    ensures
        remove_outcome(t, CharRange { start: CharBound::Included(s), end: CharBound::Excluded(e) }) == (
            t.take(s as int) + t.skip(e as int),
            Ok::<(), RopeError>(()),
        ),
        remove_outcome(t, CharRange { start: CharBound::Included(s), end: CharBound::Unbounded }) == (
            t.take(s as int),
            Ok::<(), RopeError>(()),
        ),
        remove_outcome(t, CharRange { start: CharBound::Unbounded, end: CharBound::Excluded(e) }) == (
            t.skip(e as int),
            Ok::<(), RopeError>(()),
        ),
{
    assert(t.take(s as int) + t.skip(t.len() as int) =~= t.take(s as int));
    assert(t.take(0) + t.skip(e as int) =~= t.skip(e as int));
}

// ---------------------------------------------------------------------
// Building a document from pieces.

/// The text built from no pieces is empty.
pub proof fn law_concat_texts_empty()
    ensures
        concat_texts(Seq::<&str>::empty()) == Seq::<char>::empty(),
{
    assert(Seq::<&str>::empty().map_values(|p: &str| p@) =~= Seq::<Seq<char>>::empty());
}

/// Adding a piece at the end adds its chars, whatever they are, at the
/// end of the text: the text of a document built from pieces is every
/// piece, in order, put together.
pub proof fn law_concat_texts_push(pieces: Seq<&str>, p: &str)
    ensures
        concat_texts(pieces.push(p)) == concat_texts(pieces) + p@,
        concat_texts(pieces.push(p)).len() == concat_texts(pieces).len() + p@.len(),
{
    let f = |q: &str| q@;
    assert(pieces.push(p).map_values(f) =~= pieces.map_values(f).push(p@));
    pieces.map_values(f).lemma_flatten_push(p@);
}

} // verus!
