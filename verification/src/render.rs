//! The render engine: a draw state that follows the cursor and the active
//! style while the cells of a region are streamed, and the text that paints
//! the region.

use vstd::prelude::*;
use vstd::string::*;
use vstd::arithmetic::div_mod::{
    lemma_div_pos_is_pos, lemma_fundamental_div_mod, lemma_fundamental_div_mod_converse,
    lemma_mod_bound, lemma_multiply_divide_lt,
};
use crate::codes::{clear_code, move_code, push_clear, push_move, push_reset, reset_code};
use crate::geometry::{fits, DefVec2, Rect, Vec2};
use crate::style::{
    plain_reset, plain_reset_style, prefix_of, same_style, style_prefix, AnsiChar,
};
use nu_ansi_term::Style;

verus! {

/// The text that one cell adds: its character, preceded by the control code
/// of its style where that style is not the active one.
pub open spec fn cell_text(active: Style, cell: AnsiChar) -> Seq<char> {
    if cell.1 == active {
        seq![cell.0]
    } else {
        style_prefix(cell.1).push(cell.0)
    }
}

/// The style that is active when the cell of index `i` is reached: that of
/// the cell before it, and the default style before the first cell.
pub open spec fn style_before(cells: Seq<AnsiChar>, i: int) -> Style {
    if i <= 0 {
        plain_reset()
    } else {
        cells[i - 1].1
    }
}

/// The text of the cells from index `from` up to `to`, in this order.
pub open spec fn cells_text(cells: Seq<AnsiChar>, from: int, to: int) -> Seq<char>
    decreases to - from,
{
    if to <= from {
        Seq::empty()
    } else {
        cells_text(cells, from, to - 1) + cell_text(style_before(cells, to - 1), cells[to - 1])
    }
}

/// The text of the first `rows` rows of a region `w` cells wide, whose cells
/// are given row by row: every row starts with a cursor movement to its first
/// cell.
pub open spec fn rows_text(left: u16, top: u16, w: int, cells: Seq<AnsiChar>, rows: int) -> Seq<
    char,
>
    decreases rows,
{
    if rows <= 0 {
        Seq::empty()
    } else {
        rows_text(left, top, w, cells, rows - 1) + move_code(
            left,
            (top + rows - 1) as u16,
        ) + cells_text(
            cells,
            (rows - 1) * w,
            rows * w,
        )
    }
}

/// The text that paints a region: a style reset, the rows, a style reset and
/// a line terminator.
pub open spec fn render_text(left: u16, top: u16, w: int, h: int, cells: Seq<AnsiChar>) -> Seq<
    char,
> {
    reset_code() + rows_text(left, top, w, cells, h) + reset_code() + seq!['\n']
}

/// The position, relative to the top-left cell, of the cell of index `i` in a
/// region `w` cells wide whose cells are counted row by row.
pub open spec fn cell_pos(i: int, w: int) -> DefVec2 {
    (#[verifier::truncate] ((i % w) as u16), #[verifier::truncate] ((i / w) as u16))
}

/// The cells are what a content function gave for a region of `w` by `h`
/// cells, asked once for each cell, row by row, with the position relative to
/// the region's top-left cell.
pub open spec fn cells_from<F: FnMut(DefVec2) -> AnsiChar>(
    contents: F,
    w: int,
    h: int,
    cells: Seq<AnsiChar>,
) -> bool {
    &&& cells.len() == w * h
    &&& forall|i: int|
        0 <= i < cells.len() ==> call_ensures(contents, (cell_pos(i, w),), #[trigger] cells[i])
}

/// The column that the cursor is taken to stand in after a character was
/// written in column `x`: the next one, counted within the canonical domain.
pub open spec fn next_column(x: u16) -> u16 {
    if x == u16::MAX {
        0
    } else {
        (x + 1) as u16
    }
}

/// The cursor is known to stand in a row.
spec fn in_row(pos: Option<DefVec2>, row: int) -> bool {
    match pos {
        Some(at) => at.1 == row,
        None => false,
    }
}

/// Where the cursor stands after a character was written: one column on,
/// where it stood at a known position.
pub open spec fn advanced(pos: Option<DefVec2>) -> Option<DefVec2> {
    match pos {
        Some(at) => Some((next_column(at.0), at.1)),
        None => None,
    }
}

/// What is known while a region is painted: the text so far, where the cursor
/// stands, if that is known, and which style is active.
#[derive(PartialEq, Eq, Debug)]
pub struct DrawState {
    pub string: String,
    pub cursor_pos: Option<DefVec2>,
    pub style: Style,
}

impl DrawState {
    /// The state before anything is painted: no text, a cursor that stands
    /// nowhere known and the default style.
    pub fn new() -> (r: Self)
        ensures
            r.string@ == Seq::<char>::empty(),
            r.cursor_pos == None::<DefVec2>,
            r.style == plain_reset(),
    {
        Self { string: String::new(), cursor_pos: None, style: plain_reset_style() }
    }

    /// Resets the style, whatever the active one is.
    pub fn reset_style(&mut self)
        ensures
            final(self).string@ == old(self).string@ + reset_code(),
            final(self).style == plain_reset(),
            final(self).cursor_pos == old(self).cursor_pos,
    {
        self.style = plain_reset_style();
        push_reset(&mut self.string);
    }

    /// Moves the cursor, unless it is known to stand at the position already.
    pub fn cursor_to(&mut self, pos: DefVec2)
        ensures
            final(self).string@ == old(self).string@ + (if old(self).cursor_pos == Some(pos) {
                Seq::empty()
            } else {
                move_code(pos.0, pos.1)
            }),
            final(self).cursor_pos == Some(pos),
            final(self).style == old(self).style,
    {
        let there: bool = match self.cursor_pos {
            Some(at) => at.0 == pos.0 && at.1 == pos.1,
            None => false,
        };
        if !there {
            push_move(&mut self.string, pos.0, pos.1);
            self.cursor_pos = Some(pos);
        }
        proof {
            assert(self.string@ =~= old(self).string@ + (if old(self).cursor_pos == Some(pos) {
                Seq::empty()
            } else {
                move_code(pos.0, pos.1)
            }));
        }
    }

    /// Appends a control code and the character of a cell, takes the cell's
    /// style for the active one and advances the cursor by one column.
    pub fn push_with(&mut self, code: &str, cell: AnsiChar)
        ensures
            final(self).string@ == old(self).string@ + code@.push(cell.0),
            final(self).style == cell.1,
            final(self).cursor_pos == advanced(old(self).cursor_pos),
    {
        self.string.append(code);
        self.string.push(cell.0);
        self.style = cell.1;
        self.cursor_pos = match self.cursor_pos {
            Some(at) => Some((if at.0 == u16::MAX {
                0
            } else {
                at.0 + 1
            }, at.1)),
            None => None,
        };
        proof {
            assert(self.string@ =~= old(self).string@ + code@.push(cell.0));
        }
    }

    /// Paints one cell: the style changes only where the cell's style is not
    /// the active one, and the cursor advances by one column.
    pub fn push(&mut self, cell: AnsiChar)
        ensures
            final(self).string@ == old(self).string@ + cell_text(old(self).style, cell),
            final(self).style == cell.1,
            final(self).cursor_pos == advanced(old(self).cursor_pos),
    {
        let code = if same_style(&cell.1, &self.style) {
            String::new()
        } else {
            prefix_of(cell.1)
        };
        self.push_with(code.as_str(), cell);
        proof {
            assert(self.string@ =~= old(self).string@ + cell_text(old(self).style, cell));
        }
    }
}

proof fn lemma_cells_text_grows(cells: Seq<AnsiChar>, cell: AnsiChar, from: int, to: int)
    requires
        0 <= from,
        to <= cells.len(),
    ensures
        cells_text(cells.push(cell), from, to) == cells_text(cells, from, to),
    decreases to - from,
{
    if from < to {
        lemma_cells_text_grows(cells, cell, from, to - 1);
    }
}

proof fn lemma_rows_text_grows(
    left: u16,
    top: u16,
    w: int,
    cells: Seq<AnsiChar>,
    cell: AnsiChar,
    rows: int,
)
    requires
        0 <= w,
        0 <= rows,
        rows * w <= cells.len(),
    ensures
        rows_text(left, top, w, cells.push(cell), rows) == rows_text(left, top, w, cells, rows),
    decreases rows,
{
    if rows > 0 {
        assert(0 <= (rows - 1) * w <= rows * w) by (nonlinear_arith)
            requires
                0 <= w,
                0 < rows,
        ;
        lemma_rows_text_grows(left, top, w, cells, cell, rows - 1);
        lemma_cells_text_grows(cells, cell, (rows - 1) * w, rows * w);
    }
}

/// Paints a region: asks the content function once for each cell, row by
/// row and with the position relative to the region's top-left cell, and
/// gives the text that paints what it answered.
pub fn render<R: Rect, F: FnMut(DefVec2) -> AnsiChar>(area: R, mut contents: F) -> (r: String)
    requires
        fits(&area),
        forall|x: u16, y: u16|
            x < area.spec_w() && y < area.spec_h() ==> call_requires(contents, ((x, y),)),
    ensures
        exists|cells: Seq<AnsiChar>|
            cells_from(contents, area.spec_w(), area.spec_h(), cells) && r@ == render_text(
                area.spec_left(),
                area.spec_top(),
                area.spec_w(),
                area.spec_h(),
                cells,
            ),
{
    let ghost given = contents;
    let left: u16 = area.left();
    let top: u16 = area.top();
    let w: u16 = area.w();
    let h: u16 = area.h();
    let mut state = DrawState::new();
    state.reset_style();
    let ghost mut cells: Seq<AnsiChar> = Seq::empty();
    let mut y: u16 = 0;
    proof {
        assert(state.string@ =~= reset_code() + rows_text(left, top, w as int, cells, 0));
    }
    while y < h
        invariant
            contents == given,
            y <= h,
            1 <= w,
            top + h - 1 <= u16::MAX,
            forall|x: u16, y: u16| x < w && y < h ==> call_requires(contents, ((x, y),)),
            cells.len() == y * w,
            forall|i: int|
                0 <= i < cells.len() ==> call_ensures(
                    contents,
                    (cell_pos(i, w as int),),
                    #[trigger] cells[i],
                ),
            state.string@ == reset_code() + rows_text(left, top, w as int, cells, y as int),
            state.style == style_before(cells, cells.len() as int),
            y == 0 ==> state.cursor_pos is None,
            y > 0 ==> in_row(state.cursor_pos, top + y - 1),
        decreases h - y,
    {
        let ghost before = state.string@;
        state.cursor_to((left, top + y));
        proof {
            assert(state.string@ =~= before + move_code(left, (top + y) as u16));
        }
        let mut x: u16 = 0;
        while x < w
            invariant
                contents == given,
                x <= w,
                y < h,
                1 <= w,
                forall|x: u16, y: u16| x < w && y < h ==> call_requires(contents, ((x, y),)),
                cells.len() == y * w + x,
                forall|i: int|
                    0 <= i < cells.len() ==> call_ensures(
                        contents,
                        (cell_pos(i, w as int),),
                        #[trigger] cells[i],
                    ),
                state.string@ == reset_code() + rows_text(left, top, w as int, cells, y as int)
                    + move_code(left, (top + y) as u16) + cells_text(cells, y * w, y * w + x),
                state.style == style_before(cells, cells.len() as int),
                in_row(state.cursor_pos, top + y),
            decreases w - x,
        {
            let cell = contents((x, y));
            let ghost earlier = cells;
            state.push(cell);
            proof {
                let i = y * w + x;
                lemma_fundamental_div_mod_converse(i, w as int, y as int, x as int);
                cells = earlier.push(cell);
                lemma_rows_text_grows(left, top, w as int, earlier, cell, y as int);
                lemma_cells_text_grows(earlier, cell, y * w, i);
                assert(state.string@ =~= reset_code() + rows_text(
                    left,
                    top,
                    w as int,
                    cells,
                    y as int,
                ) + move_code(left, (top + y) as u16) + cells_text(cells, y * w, i + 1));
            }
            x += 1;
        }
        proof {
            assert((y + 1) * w == y * w + w) by (nonlinear_arith);
            assert(state.string@ =~= reset_code() + rows_text(
                left,
                top,
                w as int,
                cells,
                y + 1,
            ));
        }
        y += 1;
    }
    state.reset_style();
    state.string.push('\n');
    proof {
        assert(state.string@ =~= render_text(left, top, w as int, h as int, cells));
        assert(cells_from(contents, w as int, h as int, cells));
    }
    state.string
}

/// The cells of a region that holds nothing but spaces.
pub open spec fn blank_cells(n: int) -> Seq<AnsiChar> {
    Seq::new(n as nat, |i: int| AnsiChar(' ', plain_reset()))
}

/// The text that clears a region: every cell is painted with a space.
pub fn clear_area<R: Rect>(area: R) -> (r: String)
    requires
        fits(&area),
    ensures
        r@ == render_text(
            area.spec_left(),
            area.spec_top(),
            area.spec_w(),
            area.spec_h(),
            blank_cells(area.spec_w() * area.spec_h()),
        ),
{
    let ghost w = area.spec_w();
    let ghost h = area.spec_h();
    let blank = |pos: DefVec2| -> (c: AnsiChar)
        ensures
            c == AnsiChar(' ', plain_reset()),
        { AnsiChar::from(' ') };
    let text = render(area, blank);
    proof {
        let cells = choose|cells: Seq<AnsiChar>|
            cells_from(blank, w, h, cells) && text@ == render_text(
                area.spec_left(),
                area.spec_top(),
                w,
                h,
                cells,
            );
        assert(cells =~= blank_cells(w * h));
    }
    text
}

/// The text that clears the screen, sends the cursor home and resets the
/// style.
pub fn clear_all() -> (r: String)
    ensures
        r@ == clear_code(),
{
    let mut text = String::new();
    push_clear(&mut text);
    text
}

/// The text that moves the cursor to a position.
pub fn move_cursor_to<V: Vec2>(pos: V) -> (r: String)
    ensures
        r@ == move_code(pos.spec_x(), pos.spec_y()),
{
    let mut text = String::new();
    push_move(&mut text, pos.x(), pos.y());
    text
}

/// Where two cells that follow each other have the same style, no style
/// change stands between them: the second adds its character and nothing
/// else.
pub proof fn lemma_same_style_adds_character(cells: Seq<AnsiChar>, i: int)
    requires
        0 < i < cells.len(),
        cells[i].1 == cells[i - 1].1,
    ensures
        cell_text(style_before(cells, i), cells[i]) == seq![cells[i].0],
        cells_text(cells, i - 1, i + 1) == cell_text(
            style_before(cells, i - 1),
            cells[i - 1],
        ).push(cells[i].0),
{
    assert(cells_text(cells, i - 1, i - 1) =~= Seq::<char>::empty());
    assert(cells_text(cells, i - 1, i) =~= cell_text(style_before(cells, i - 1), cells[i - 1]));
    assert(cells_text(cells, i - 1, i + 1) =~= cell_text(
        style_before(cells, i - 1),
        cells[i - 1],
    ).push(cells[i].0));
}

/// The text of a run of cells is the text of its first part followed by the
/// text of the rest: the cells are painted in the order of their indices.
pub proof fn lemma_cells_text_split(cells: Seq<AnsiChar>, from: int, mid: int, to: int)
    requires
        from <= mid <= to,
    ensures
        cells_text(cells, from, to) == cells_text(cells, from, mid) + cells_text(cells, mid, to),
    decreases to - mid,
{
    if mid < to {
        lemma_cells_text_split(cells, from, mid, to - 1);
        assert(cells_text(cells, from, to) =~= cells_text(cells, from, mid) + cells_text(
            cells,
            mid,
            to,
        ));
    } else {
        assert(cells_text(cells, from, to) =~= cells_text(cells, from, mid) + cells_text(
            cells,
            mid,
            to,
        ));
    }
}

/// Every cell of a region has an index in row order, and the index leads
/// back to the cell: no cell is left out.
pub proof fn lemma_cell_has_index(w: int, h: int, x: int, y: int)
    requires
        0 <= x < w <= u16::MAX,
        0 <= y < h <= u16::MAX,
    ensures
        0 <= y * w + x < w * h,
        cell_pos(y * w + x, w) == (x as u16, y as u16),
{
    lemma_fundamental_div_mod_converse(y * w + x, w, y, x);
    assert(y * w + x < w * h) by (nonlinear_arith)
        requires
            0 <= x < w,
            0 <= y < h,
    ;
    assert(0 <= y * w) by (nonlinear_arith)
        requires
            0 <= y,
            0 <= w,
    ;
}

/// Every index in row order is that of one cell of the region, and of no
/// other: no cell is asked for twice.
pub proof fn lemma_index_has_cell(w: int, h: int, i: int)
    requires
        0 < w <= u16::MAX,
        0 < h <= u16::MAX,
        0 <= i < w * h,
    ensures
        cell_pos(i, w).0 < w,
        cell_pos(i, w).1 < h,
        cell_pos(i, w).1 * w + cell_pos(i, w).0 == i,
{
    lemma_mod_bound(i, w);
    lemma_div_pos_is_pos(i, w);
    lemma_multiply_divide_lt(i, w, h);
    lemma_fundamental_div_mod(i, w);
    assert(w * (i / w) == (i / w) * w) by (nonlinear_arith);
}

/// A character that was given without a style, painted where the default
/// style is active, adds itself and no style change.
pub proof fn lemma_plain_character_adds_itself(c: char)
    ensures
        cell_text(plain_reset(), AnsiChar(c, plain_reset())) == seq![c],
        cells_text(seq![AnsiChar(c, plain_reset())], 0, 1) == seq![c],
{
    let cells = seq![AnsiChar(c, plain_reset())];
    assert(cells_text(cells, 0, 0) =~= Seq::<char>::empty());
    assert(cells_text(cells, 0, 1) =~= seq![c]);
}

/// The text that paints a region of one cell with a character that was given
/// without a style: a reset, the movement to the cell, the character, a
/// reset and the line terminator, with no style change in between.
pub proof fn lemma_single_plain_cell(left: u16, top: u16, c: char)
    ensures
        render_text(left, top, 1, 1, seq![AnsiChar(c, plain_reset())]) == reset_code() + move_code(
            left,
            top,
        ) + seq![c] + reset_code() + seq!['\n'],
{
    let cells = seq![AnsiChar(c, plain_reset())];
    lemma_plain_character_adds_itself(c);
    assert(rows_text(left, top, 1, cells, 0) =~= Seq::<char>::empty());
    assert(rows_text(left, top, 1, cells, 1) =~= move_code(left, top) + seq![c]);
    assert(render_text(left, top, 1, 1, cells) =~= reset_code() + move_code(left, top) + seq![c]
        + reset_code() + seq!['\n']);
}

/// Every row of a painted region starts with the movement to its first cell,
/// the first row included: the text of one more row is the text of the rows
/// before it, the movement, and the row's cells.
pub proof fn lemma_row_starts_with_move(
    left: u16,
    top: u16,
    w: int,
    cells: Seq<AnsiChar>,
    row: int,
)
    requires
        0 <= row,
    ensures
        rows_text(left, top, w, cells, row + 1) == rows_text(left, top, w, cells, row) + move_code(
            left,
            (top + row) as u16,
        ) + cells_text(cells, row * w, (row + 1) * w),
{
}

} // verus!
