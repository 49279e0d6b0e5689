//! Mathematical model of the text a document holds: its lines, the char
//! index at which each line starts, and how an inserted string is cut
//! into pieces.

use vstd::prelude::*;

verus! {

broadcast use vstd::seq_lib::group_seq_properties;

/// Whether `c` is a line break: LF, VT, FF, CR, NEL, LINE SEPARATOR or
/// PARAGRAPH SEPARATOR.  (A CR directly followed by an LF forms a single
/// break; see [`first_break_end`].)
pub open spec fn is_line_break(c: char) -> bool {
    ||| c == '\n'
    ||| c == '\u{0B}'
    ||| c == '\u{0C}'
    ||| c == '\r'
    ||| c == '\u{85}'
    ||| c == '\u{2028}'
    ||| c == '\u{2029}'
}

/// The index just past the first line break found at or after index `i`,
/// or `None` when there is none.  A CR followed by an LF is one break.
pub open spec fn first_break_end(t: Seq<char>, i: nat) -> Option<nat>
    decreases t.len() - i,
{
    if i >= t.len() {
        None
    } else if is_line_break(t[i as int]) {
        if t[i as int] == '\r' && i + 1 < t.len() && t[i + 1 as int] == '\n' {
            Some(i + 2)
        } else {
            Some(i + 1)
        }
    } else {
        first_break_end(t, i + 1)
    }
}

/// A break found at or after `i` ends after `i` and within the text.
pub proof fn lemma_first_break_end_bounds(t: Seq<char>, i: nat)
    ensures
        first_break_end(t, i) matches Some(e) ==> i < e <= t.len(),
    decreases t.len() - i,
{
    if i < t.len() && !is_line_break(t[i as int]) {
        lemma_first_break_end_bounds(t, i + 1);
    }
}

/// The lines of a text.  Each line keeps the break that ends it; the text
/// after the last break is the last line, empty when the text ends with a
/// break (or is empty).
pub open spec fn text_lines(t: Seq<char>) -> Seq<Seq<char>>
    decreases t.len(),
{
    match first_break_end(t, 0) {
        None => seq![t],
        Some(e) => {
            proof {
                lemma_first_break_end_bounds(t, 0);
            }
            seq![t.take(e as int)] + text_lines(t.skip(e as int))
        },
    }
}

/// The char index at which line `row` starts: the total length of the
/// lines before it.
pub open spec fn line_start(t: Seq<char>, row: int) -> int {
    text_lines(t).take(row).flatten().len() as int
}

/// Every text has at least one line.
pub proof fn lemma_lines_nonempty(t: Seq<char>)
    ensures
        text_lines(t).len() >= 1,
    decreases t.len(),
{
    lemma_first_break_end_bounds(t, 0);
    if let Some(e) = first_break_end(t, 0) {
        lemma_lines_nonempty(t.skip(e as int));
    }
}

/// The lines of a text, put back together, are the text.
pub proof fn lemma_lines_flatten(t: Seq<char>)
    ensures
        text_lines(t).flatten() == t,
    decreases t.len(),
{
    lemma_first_break_end_bounds(t, 0);
    match first_break_end(t, 0) {
        None => {
            seq![t].lemma_flatten_one_element();
        },
        Some(e) => {
            let rest = text_lines(t.skip(e as int));
            lemma_lines_flatten(t.skip(e as int));
            let ls = seq![t.take(e as int)] + rest;
            assert(ls.drop_first() =~= rest);
            assert(ls.flatten() == ls.first() + ls.drop_first().flatten());
            assert(t.take(e as int) + t.skip(e as int) =~= t);
        },
    }
}

/// The text from the start of line `row` onward is made of lines `row`,
/// `row + 1`, ... of the text; in particular the start of a line lies
/// within the text, and the start of the line past the last one is the
/// end of the text.
pub proof fn lemma_line_start_splits_text(t: Seq<char>, row: int)
    requires
        0 <= row <= text_lines(t).len(),
    ensures
        0 <= line_start(t, row) <= t.len(),
        t.take(line_start(t, row)) == text_lines(t).take(row).flatten(),
        t.skip(line_start(t, row)) == text_lines(t).skip(row).flatten(),
        row == text_lines(t).len() ==> line_start(t, row) == t.len(),
{
    let ls = text_lines(t);
    lemma_lines_flatten(t);
    vstd::seq_lib::lemma_flatten_concat(ls.take(row), ls.skip(row));
    assert(ls.take(row) + ls.skip(row) =~= ls);
    let a = ls.take(row).flatten();
    let b = ls.skip(row).flatten();
    assert(t == a + b);
    assert(t.take(a.len() as int) =~= a);
    assert(t.skip(a.len() as int) =~= b);
    if row == ls.len() {
        assert(ls.skip(row) =~= Seq::<Seq<char>>::empty());
    }
}

/// The pieces that splitting `s` at every `'\n'` gives, as `str::split`
/// does: `k` newlines give `k + 1` pieces, none of which holds a `'\n'`.
pub open spec fn split_newlines(s: Seq<char>) -> Seq<Seq<char>>
    decreases s.len(),
{
    if s.len() == 0 {
        seq![Seq::<char>::empty()]
    } else {
        let init = split_newlines(s.drop_last());
        if s.last() == '\n' {
            init.push(Seq::<char>::empty())
        } else {
            init.update(init.len() - 1, init.last().push(s.last()))
        }
    }
}

/// Splitting always gives at least one piece.
pub proof fn lemma_split_newlines_nonempty(s: Seq<char>)
    ensures
        split_newlines(s).len() >= 1,
    decreases s.len(),
{
    if s.len() > 0 {
        lemma_split_newlines_nonempty(s.drop_last());
    }
}

/// A text without `'\n'` is a single piece.
pub proof fn lemma_split_newlines_no_newline(s: Seq<char>)
    requires
        !s.contains('\n'),
    ensures
        split_newlines(s) == seq![s],
    decreases s.len(),
{
    if s.len() > 0 {
        let init = s.drop_last();
        assert(!init.contains('\n')) by {
            if init.contains('\n') {
                let k = choose|k: int| 0 <= k < init.len() && init[k] == '\n';
                assert(s[k] == '\n');
            }
        }
        lemma_split_newlines_no_newline(init);
        assert(s.last() != '\n') by {
            assert(s[s.len() - 1] == s.last());
        }
        assert(init.push(s.last()) =~= s);
    }
}

/// No piece of `s` holds a `'\n'`.
pub proof fn lemma_split_newlines_pieces_lack_newline(s: Seq<char>)
    ensures
        forall|k: int| 0 <= k < split_newlines(s).len() ==> !(#[trigger] split_newlines(s)[k]).contains('\n'),
    decreases s.len(),
{
    if s.len() > 0 {
        let init = split_newlines(s.drop_last());
        lemma_split_newlines_pieces_lack_newline(s.drop_last());
        lemma_split_newlines_nonempty(s.drop_last());
        if s.last() == '\n' {
            let u = init.push(Seq::<char>::empty());
            assert forall|k: int| 0 <= k < u.len() implies !(#[trigger] u[k]).contains('\n') by {
                if k < init.len() {
                    assert(u[k] == init[k]);
                }
            }
        } else {
            let y = init.last().push(s.last());
            let u = init.update(init.len() - 1, y);
            assert(!y.contains('\n')) by {
                if y.contains('\n') {
                    let i = choose|i: int| 0 <= i < y.len() && y[i] == '\n';
                    if i < init.last().len() {
                        assert(init.last()[i] == '\n');
                        assert(init[init.len() - 1] == init.last());
                    }
                }
            }
            assert forall|k: int| 0 <= k < u.len() implies !(#[trigger] u[k]).contains('\n') by {
                if k < init.len() - 1 {
                    assert(u[k] == init[k]);
                }
            }
        }
    }
}

/// Pieces none of which holds `c`, put together, do not hold `c`.
pub proof fn lemma_flatten_lacks(ps: Seq<Seq<char>>, c: char)
    requires
        forall|k: int| 0 <= k < ps.len() ==> !(#[trigger] ps[k]).contains(c),
    ensures
        !ps.flatten().contains(c),
    decreases ps.len(),
{
    if ps.len() > 0 {
        let rest = ps.drop_first();
        assert forall|k: int| 0 <= k < rest.len() implies !(#[trigger] rest[k]).contains(c) by {
            assert(rest[k] == ps[k + 1]);
        }
        lemma_flatten_lacks(rest, c);
        let f = ps.flatten();
        assert(f == ps[0] + rest.flatten());
        if f.contains(c) {
            let i = choose|i: int| 0 <= i < f.len() && f[i] == c;
            if i < ps[0].len() {
                assert(ps[0][i] == c);
                assert(ps[0].contains(c));
            } else {
                assert(rest.flatten()[i - ps[0].len()] == c);
            }
        }
    }
}

/// A piece without its final `'\r'`, if it has one.
pub open spec fn strip_cr(p: Seq<char>) -> Seq<char> {
    if p.len() > 0 && p.last() == '\r' {
        p.drop_last()
    } else {
        p
    }
}

/// The pieces that `Document::insert` puts into the text: the input split
/// at every `'\n'`, each piece without a final `'\r'`.
pub open spec fn insert_pieces(s: Seq<char>) -> Seq<Seq<char>> {
    split_newlines(s).map_values(|p: Seq<char>| strip_cr(p))
}

/// `a + b`, or `usize::MAX` when the sum does not fit in a `usize`.
pub open spec fn saturating_sum(a: int, b: int) -> int {
    if a + b > usize::MAX {
        usize::MAX as int
    } else {
        a + b
    }
}

/// Whether no CR-LF pair is cut between two chunks: no non-empty chunk
/// that ends with `'\r'` is followed, past empty chunks only, by a chunk
/// that starts with `'\n'`.
pub open spec fn keeps_crlf_together(chunks: Seq<Seq<char>>) -> bool {
    forall|i: int, j: int|
        #![trigger chunks[i], chunks[j]]
        0 <= i < j < chunks.len() && chunks[i].len() > 0 && chunks[j].len() > 0 && (forall|k: int|
            i < k < j ==> (#[trigger] chunks[k]).len() == 0) ==> !(chunks[i].last() == '\r'
            && chunks[j][0] == '\n')
}

/// The lexicographic order of two byte sequences, as `[u8]` orders them:
/// the first differing byte decides, and a prefix comes first.
pub open spec fn byte_order(a: Seq<u8>, b: Seq<u8>) -> core::cmp::Ordering
    decreases a.len(),
{
    if a.len() == 0 {
        if b.len() == 0 {
            core::cmp::Ordering::Equal
        } else {
            core::cmp::Ordering::Less
        }
    } else if b.len() == 0 {
        core::cmp::Ordering::Greater
    } else if a[0] < b[0] {
        core::cmp::Ordering::Less
    } else if a[0] > b[0] {
        core::cmp::Ordering::Greater
    } else {
        byte_order(a.drop_first(), b.drop_first())
    }
}

} // verus!
