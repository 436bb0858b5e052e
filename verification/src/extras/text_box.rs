//! Text in a region: wrapping by character count, and the painting of a line
//! or of a box of wrapped text.

use vstd::prelude::*;
use vstd::string::*;
use vstd::arithmetic::div_mod::lemma_fundamental_div_mod_converse;
use crate::geometry::{fits, spans, DefRect, DefVec2, Rect, Vec2};
use crate::render::{cell_pos, cells_from, render, render_text};
use crate::style::{plain_reset, AnsiChar};

verus! {

/// The index of the first line feed at or after `from`, or the length of the
/// text where there is none.
pub open spec fn line_end(s: Seq<char>, from: int) -> int
    decreases s.len() - from,
{
    if from >= s.len() || s[from] == '\n' {
        from
    } else {
        line_end(s, from + 1)
    }
}

/// A line without the carriage return that stood before its line feed.
pub open spec fn strip_return(line: Seq<char>) -> Seq<char> {
    if line.len() > 0 && line.last() == '\r' {
        line.drop_last()
    } else {
        line
    }
}

/// A line cut into pieces of `width` characters; the last piece holds what is
/// left. An empty line gives no piece.
pub open spec fn chunks(line: Seq<char>, width: int) -> Seq<Seq<char>>
    decreases line.len(),
{
    if line.len() == 0 || width <= 0 {
        Seq::empty()
    } else if line.len() <= width {
        seq![line]
    } else {
        seq![line.subrange(0, width)] + chunks(line.subrange(width, line.len() as int), width)
    }
}

/// The pieces of the lines of a text from index `from` on. A line ends at a
/// line feed, or at a carriage return followed by one; the last line needs no
/// line ending.
pub open spec fn wrap_from(s: Seq<char>, from: int, width: int) -> Seq<Seq<char>>
    decreases s.len() - from,
{
    if from < 0 || from >= s.len() {
        Seq::empty()
    } else {
        let end = line_end(s, from);
        proof {
            lemma_line_end_bounds(s, from);
        }
        if end >= s.len() {
            chunks(s.subrange(from, s.len() as int), width)
        } else {
            chunks(strip_return(s.subrange(from, end)), width) + wrap_from(s, end + 1, width)
        }
    }
}

/// A text wrapped at a width: every line of the text, cut into pieces of
/// `width` characters.
pub open spec fn wrapped(text: Seq<char>, width: int) -> Seq<Seq<char>> {
    wrap_from(text, 0, width)
}

/// What a list of strings holds.
pub open spec fn texts(lines: Seq<String>) -> Seq<Seq<char>> {
    Seq::new(lines.len(), |i: int| lines[i]@)
}

/// The end of a line lies between its start and the end of the text, a line
/// feed stands there unless the text ends, and none stands before it.
pub proof fn lemma_line_end_bounds(s: Seq<char>, from: int)
    requires
        0 <= from <= s.len(),
    ensures
        from <= line_end(s, from) <= s.len(),
        line_end(s, from) < s.len() ==> s[line_end(s, from)] == '\n',
        forall|i: int| from <= i < line_end(s, from) ==> s[i] != '\n',
    decreases s.len() - from,
{
    if from < s.len() && s[from] != '\n' {
        lemma_line_end_bounds(s, from + 1);
    }
}

/// Every line holds at least one character and at most `width`.
pub open spec fn all_within(lines: Seq<Seq<char>>, width: int) -> bool {
    forall|i: int| 0 <= i < lines.len() ==> 1 <= #[trigger] lines[i].len() <= width
}

/// No piece of a wrapped line is longer than the width, and none is empty.
pub proof fn lemma_chunks_width(line: Seq<char>, width: int)
    requires
        width >= 1,
    ensures
        all_within(chunks(line, width), width),
    decreases line.len(),
{
    if line.len() > width {
        let rest = chunks(line.subrange(width, line.len() as int), width);
        lemma_chunks_width(line.subrange(width, line.len() as int), width);
        assert forall|i: int| 0 <= i < chunks(line, width).len() implies 1 <= #[trigger] chunks(
            line,
            width,
        )[i].len() <= width by {
            if i > 0 {
                assert(chunks(line, width)[i] == rest[i - 1]);
            }
        }
    }
}

/// The pieces, put one after another.
pub open spec fn joined(pieces: Seq<Seq<char>>) -> Seq<char>
    decreases pieces.len(),
{
    if pieces.len() == 0 {
        Seq::empty()
    } else {
        pieces[0] + joined(pieces.drop_first())
    }
}

/// The pieces of a line, put one after another, are the line: wrapping
/// neither drops nor adds a character.
pub proof fn lemma_chunks_join(line: Seq<char>, width: int)
    requires
        width >= 1,
    ensures
        joined(chunks(line, width)) == line,
    decreases line.len(),
{
    let pieces = chunks(line, width);
    if line.len() == 0 {
        assert(joined(pieces) =~= line);
    } else if line.len() <= width {
        assert(pieces.drop_first() =~= Seq::<Seq<char>>::empty());
        assert(joined(pieces.drop_first()) =~= Seq::<char>::empty());
        assert(joined(pieces) =~= line);
    } else {
        let rest = line.subrange(width, line.len() as int);
        lemma_chunks_join(rest, width);
        assert(pieces.drop_first() =~= chunks(rest, width));
        assert(pieces[0] == line.subrange(0, width));
        assert(joined(pieces) =~= line);
    }
}

/// A line is cut into as few pieces as its length allows: every piece but
/// the last holds exactly `width` characters, so the pieces before the last
/// hold fewer characters than the line and all of them could hold it.
pub proof fn lemma_chunks_count(line: Seq<char>, width: int)
    requires
        width >= 1,
    ensures
        line.len() == 0 <==> chunks(line, width).len() == 0,
        forall|i: int|
            0 <= i < chunks(line, width).len() - 1 ==> (#[trigger] chunks(line, width)[i]).len()
                == width,
        line.len() <= chunks(line, width).len() * width,
        line.len() > 0 ==> (chunks(line, width).len() - 1) * width < line.len(),
    decreases line.len(),
{
    let pieces = chunks(line, width);
    if line.len() > width {
        let rest = chunks(line.subrange(width, line.len() as int), width);
        lemma_chunks_count(line.subrange(width, line.len() as int), width);
        assert(pieces.len() == rest.len() + 1);
        assert forall|i: int| 0 <= i < pieces.len() - 1 implies (#[trigger] pieces[i]).len()
            == width by {
            if i > 0 {
                assert(pieces[i] == rest[i - 1]);
            }
        }
        assert((rest.len() + 1) * width == rest.len() * width + width) by (nonlinear_arith);
        assert((rest.len() - 1) * width + width == rest.len() * width) by (nonlinear_arith);
    } else if line.len() > 0 {
        assert(pieces.len() == 1);
        assert(line.len() <= pieces.len() * width) by (nonlinear_arith)
            requires
                pieces.len() == 1,
                line.len() <= width,
        ;
        assert((pieces.len() - 1) * width == 0) by (nonlinear_arith)
            requires
                pieces.len() == 1,
        ;
    } else {
        assert(pieces.len() * width == 0) by (nonlinear_arith)
            requires
                pieces.len() == 0,
        ;
    }
}

/// No line of a wrapped text is longer than the width, and none is empty.
pub proof fn lemma_wrapped_width(s: Seq<char>, from: int, width: int)
    requires
        width >= 1,
        0 <= from,
    ensures
        all_within(wrap_from(s, from, width), width),
    decreases s.len() - from,
{
    if from < s.len() {
        let end = line_end(s, from);
        lemma_line_end_bounds(s, from);
        if end >= s.len() {
            lemma_chunks_width(s.subrange(from, s.len() as int), width);
        } else {
            let first = chunks(strip_return(s.subrange(from, end)), width);
            let rest = wrap_from(s, end + 1, width);
            lemma_chunks_width(strip_return(s.subrange(from, end)), width);
            lemma_wrapped_width(s, end + 1, width);
            assert forall|i: int| 0 <= i < (first + rest).len() implies 1 <= #[trigger] (first
                + rest)[i].len() <= width by {
                if i < first.len() {
                    assert((first + rest)[i] == first[i]);
                } else {
                    assert((first + rest)[i] == rest[i - first.len()]);
                }
            }
        }
    }
}

/// Wraps a text at a width, by character count alone: every line of the text
/// is cut into pieces of `width` characters.
pub fn wrap_text(text: &str, width: u16) -> (res: Vec<String>)
    requires
        width >= 1,
    ensures
        texts(res@) == wrapped(text@, width as int),
        forall|i: int| 0 <= i < res.len() ==> 1 <= #[trigger] res[i]@.len() <= width,
{
    let n: usize = text.unicode_len();
    let mut res: Vec<String> = Vec::new();
    let mut pos: usize = 0;
    proof {
        assert(texts(res@) + wrap_from(text@, 0, width as int) =~= wrapped(text@, width as int));
    }
    while pos < n
        invariant
            pos <= n,
            n == text@.len(),
            width >= 1,
            texts(res@) + wrap_from(text@, pos as int, width as int) == wrapped(
                text@,
                width as int,
            ),
        decreases n - pos,
    {
        let mut end: usize = pos;
        while end < n && text.get_char(end) != '\n'
            invariant
                pos <= end <= n,
                n == text@.len(),
                line_end(text@, end as int) == line_end(text@, pos as int),
            decreases n - end,
        {
            end += 1;
        }
        let mut stop: usize = end;
        if end < n && stop > pos && text.get_char(stop - 1) == '\r' {
            stop -= 1;
        }
        let ghost line = text@.subrange(pos as int, stop as int);
        let ghost before = texts(res@);
        proof {
            lemma_line_end_bounds(text@, pos as int);
            assert(end == line_end(text@, pos as int));
            if end < n {
                assert(line =~= strip_return(text@.subrange(pos as int, end as int)));
            }
            assert(texts(res@) + chunks(text@.subrange(pos as int, stop as int), width as int)
                =~= before + chunks(line, width as int));
        }
        let mut at: usize = pos;
        while at < stop
            invariant
                pos <= at <= stop <= n,
                n == text@.len(),
                width >= 1,
                texts(res@) + chunks(text@.subrange(at as int, stop as int), width as int)
                    == before + chunks(line, width as int),
            decreases stop - at,
        {
            let to: usize = if stop - at <= width as usize {
                stop
            } else {
                at + width as usize
            };
            let piece = String::from_str(text.substring_char(at, to));
            let ghost earlier = res@;
            res.push(piece);
            proof {
                let rest = text@.subrange(at as int, stop as int);
                assert(piece@ =~= rest.subrange(0, to - at));
                assert(text@.subrange(to as int, stop as int) =~= rest.subrange(
                    to - at,
                    rest.len() as int,
                ));
                assert(texts(res@) =~= texts(earlier).push(piece@));
                if to == stop {
                    assert(rest.subrange(0, to - at) =~= rest);
                    assert(chunks(text@.subrange(to as int, stop as int), width as int)
                        =~= Seq::<Seq<char>>::empty());
                }
                assert(texts(res@) + chunks(text@.subrange(to as int, stop as int), width as int)
                    =~= texts(earlier) + chunks(rest, width as int));
            }
            at = to;
        }
        proof {
            assert(chunks(text@.subrange(stop as int, stop as int), width as int)
                =~= Seq::<Seq<char>>::empty());
            assert(texts(res@) =~= before + chunks(line, width as int));
            if end < n {
                assert(texts(res@) + wrap_from(text@, end + 1, width as int) =~= before
                    + wrap_from(text@, pos as int, width as int));
            } else {
                assert(texts(res@) + wrap_from(text@, n as int, width as int) =~= before
                    + wrap_from(text@, pos as int, width as int));
            }
        }
        pos = if end < n {
            end + 1
        } else {
            n
        };
    }
    proof {
        assert(texts(res@) + wrap_from(text@, pos as int, width as int) =~= texts(res@));
        lemma_wrapped_width(text@, 0, width as int);
        assert forall|i: int| 0 <= i < res.len() implies 1 <= #[trigger] res[i]@.len()
            <= width by {
            assert(texts(res@)[i] == res[i]@);
        }
    }
    res
}

/// The width of the region that a line of text is painted into: its number
/// of characters as a cell index.
pub open spec fn line_width(text: Seq<char>) -> u16 {
    #[verifier::truncate]
    (text.len() as u16)
}

/// The character in column `i` of a painted line, and `X` where the text has
/// none there.
pub open spec fn line_char(text: Seq<char>, i: int) -> char {
    if 0 <= i < text.len() {
        text[i]
    } else {
        'X'
    }
}

/// The cells of a painted line: the characters of the text, each with the
/// style of a plain character.
pub open spec fn line_cells(text: Seq<char>, w: int) -> Seq<AnsiChar> {
    Seq::new(w as nat, |i: int| AnsiChar(line_char(text, i), plain_reset()))
}

/// The text that paints a line of text, one row high, from a position on.
pub fn draw_line<V: Vec2>(pos: V, text: &str) -> (r: String)
    requires
        spans(pos.spec_x(), pos.spec_y(), line_width(text@) as int, 1),
    ensures
        r@ == render_text(
            pos.spec_x(),
            pos.spec_y(),
            line_width(text@) as int,
            1,
            line_cells(text@, line_width(text@) as int),
        ),
{
    let n: usize = text.unicode_len();
    let w: u16 = #[verifier::truncate] (n as u16);
    let area: DefRect = <DefRect as Rect>::new(pos.x(), pos.y(), w, 1);
    let cell = |p: DefVec2| -> (c: AnsiChar)
        ensures
            c == AnsiChar(line_char(text@, p.0 as int), plain_reset()),
        {
            let i: usize = p.0 as usize;
            let ch: char = if i < n {
                text.get_char(i)
            } else {
                'X'
            };
            AnsiChar::from(ch)
        };
    let out = render(area, cell);
    proof {
        assert(area.spec_left() == pos.spec_x() && area.spec_top() == pos.spec_y());
        assert(area.spec_w() == w && area.spec_h() == 1);
        let cells = choose|cells: Seq<AnsiChar>|
            cells_from(cell, w as int, 1, cells) && out@ == render_text(
                pos.spec_x(),
                pos.spec_y(),
                w as int,
                1,
                cells,
            );
        assert forall|i: int| 0 <= i < cells.len() implies cells[i] == line_cells(
            text@,
            w as int,
        )[i] by {
            assert(cells.len() == w);
            lemma_fundamental_div_mod_converse(i, w as int, 0, i);
        }
        assert(cells =~= line_cells(text@, w as int));
    }
    out
}

/// The character of a wrapped text that stands in column `x` of row `y`, and
/// a space where the text has none there.
pub open spec fn char_at(lines: Seq<Seq<char>>, x: int, y: int) -> char {
    if 0 <= y < lines.len() && 0 <= x < lines[y].len() {
        lines[y][x]
    } else {
        ' '
    }
}

/// The cells of a region that shows the lines of a text, row by row.
pub open spec fn box_cells(lines: Seq<Seq<char>>, w: int, h: int) -> Seq<AnsiChar> {
    Seq::new(
        (w * h) as nat,
        |i: int|
            AnsiChar(
                char_at(lines, cell_pos(i, w).0 as int, cell_pos(i, w).1 as int),
                plain_reset(),
            ),
    )
}

/// The text that paints a text into a region, wrapped at the region's width.
/// Lines that the region has no row for are left out.
pub fn draw_text_box<R: Rect>(area: R, text: &str) -> (r: String)
    requires
        fits(&area),
    ensures
        r@ == render_text(
            area.spec_left(),
            area.spec_top(),
            area.spec_w(),
            area.spec_h(),
            box_cells(wrapped(text@, area.spec_w()), area.spec_w(), area.spec_h()),
        ),
{
    let ghost w = area.spec_w();
    let ghost h = area.spec_h();
    let wrapped = wrap_text(text, area.w());
    let ghost lines = texts(wrapped@);
    let cell = |p: DefVec2| -> (c: AnsiChar)
        ensures
            c == AnsiChar(char_at(texts(wrapped@), p.0 as int, p.1 as int), plain_reset()),
        {
            let x: usize = p.0 as usize;
            let y: usize = p.1 as usize;
            let ch: char = if y < wrapped.len() {
                let line: &str = wrapped[y].as_str();
                if x < line.unicode_len() {
                    line.get_char(x)
                } else {
                    ' '
                }
            } else {
                ' '
            };
            AnsiChar::from(ch)
        };
    let out = render(area, cell);
    proof {
        let cells = choose|cells: Seq<AnsiChar>|
            cells_from(cell, w, h, cells) && out@ == render_text(
                area.spec_left(),
                area.spec_top(),
                w,
                h,
                cells,
            );
        assert(cells =~= box_cells(lines, w, h));
    }
    out
}

} // verus!
