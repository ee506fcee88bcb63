//! The drawing commands that turn the previous frame of the terminal into
//! the next one: each row ends with one clear-to-end where only blanks are
//! left, and a cell is redrawn where it changed or a wide character next to
//! it did.

use vstd::prelude::*;
use crate::style::Color;
use crate::width::{display_width, str_table_width, strip_osc};
use crate::text::str_eq;

verus! {

/// One cell of the screen: its symbol, colors, modifier bits, and whether
/// drawing skips it.
#[derive(Debug)]
pub struct Cell {
    pub symbol: String,
    pub fg: Color,
    pub bg: Color,
    pub underline_color: Color,
    pub modifier: u16,
    pub skip: bool,
}

/// A frame of the screen: `width * height` cells, row by row, for the area
/// whose top left corner is column `x`, row `y`.
#[derive(Debug)]
pub struct ScreenBuffer {
    pub x: u16,
    pub y: u16,
    pub width: u16,
    pub height: u16,
    pub content: Vec<Cell>,
}

/// A drawing command.
#[derive(Debug)]
pub enum DrawCommand {
    /// Draw a cell at a position.
    Put { x: u16, y: u16, cell: Cell },
    /// Clear from a position to the end of its row, in a background color.
    ClearToEnd { x: u16, y: u16, bg: Color },
}

/// A cell as plain values.
pub open spec fn cell_view(c: Cell) -> (Seq<char>, Color, Color, Color, u16, bool) {
    (c.symbol@, c.fg, c.bg, c.underline_color, c.modifier, c.skip)
}

/// The columns a cell's symbol takes.
pub open spec fn sym_width(c: Cell) -> nat {
    str_table_width(strip_osc(c.symbol@))
}

/// `n - 1`, or 0.
pub open spec fn dec(n: nat) -> nat {
    if n == 0 {
        0
    } else {
        (n - 1) as nat
    }
}

/// `n`, or `usize::MAX` where it is larger.
pub open spec fn cap(n: nat) -> nat {
    if n <= usize::MAX {
        n
    } else {
        usize::MAX as nat
    }
}

/// A cell that must be drawn: not a blank, or in another background than
/// the row's end, or with modifiers.
pub open spec fn notable(c: Cell, bg: Color) -> bool {
    c.symbol@ != seq![' '] || c.bg != bg || c.modifier != 0
}

/// The last column of a row that needs drawing, scanning from `column` with
/// `last` found so far; a wide symbol stretches over its width, and one of
/// no width counts as one column.
pub open spec fn row_last(row: Seq<Cell>, bg: Color, column: nat, last: nat) -> nat
    decreases row.len() - column,
{
    if column >= row.len() {
        last
    } else {
        let c = row[column as int];
        let w = sym_width(c);
        let last2 = if notable(c, bg) {
            cap(column + dec(w))
        } else {
            last
        };
        let next = column + if w == 0 {
            1nat
        } else {
            w
        };
        if next >= row.len() {
            last2
        } else {
            row_last(row, bg, next, last2)
        }
    }
}

/// The cells of row `y`.
pub open spec fn row_of(b: ScreenBuffer, y: nat) -> Seq<Cell> {
    b.content@.subrange(y * b.width, (y + 1) * b.width)
}

/// The background at the end of a row.
pub open spec fn row_bg(row: Seq<Cell>) -> Color {
    if row.len() == 0 {
        Color::Reset
    } else {
        row.last().bg
    }
}

/// The last column of row `y` that needs drawing.
pub open spec fn last_column(b: ScreenBuffer, y: nat) -> nat {
    row_last(row_of(b, y), row_bg(row_of(b, y)), 0, 0)
}

/// A command as plain values: `(true, x, y, cell)` for a put,
/// `(false, x, y, bg)` for a clear.
pub enum CommandView {
    Put(nat, nat, (Seq<char>, Color, Color, Color, u16, bool)),
    Clear(nat, nat, Color),
}

/// The view of a command.
pub open spec fn command_view(c: DrawCommand) -> CommandView {
    match c {
        DrawCommand::Put { x, y, cell } => CommandView::Put(x as nat, y as nat, cell_view(cell)),
        DrawCommand::ClearToEnd { x, y, bg } => CommandView::Clear(x as nat, y as nat, bg),
    }
}

/// The clears of rows `0..y`: one for each row whose blank part is not
/// empty, from the column after its last drawn one.
pub open spec fn clears(b: ScreenBuffer, y: nat) -> Seq<CommandView>
    decreases y,
{
    if y == 0 {
        Seq::empty()
    } else {
        let r = (y - 1) as nat;
        let last = last_column(b, r);
        clears(b, r) + if last + 1 < b.width {
            seq![CommandView::Clear(b.x as nat + last + 1, b.y as nat + r, row_bg(row_of(b, r)))]
        } else {
            Seq::empty()
        }
    }
}

/// Before cell `i`: how many cells a wide symbol at or before it still
/// invalidates, and how many it covers.
pub open spec fn put_state(next: Seq<Cell>, prev: Seq<Cell>, i: nat) -> (nat, nat)
    decreases i,
{
    if i == 0 {
        (0, 0)
    } else {
        let k = (i - 1) as nat;
        let (inv, _) = put_state(next, prev, k);
        let cw = sym_width(next[k as int]);
        let pw = sym_width(prev[k as int]);
        let affected = if cw >= pw {
            cw
        } else {
            pw
        };
        (
            dec(if affected >= inv {
                affected
            } else {
                inv
            }),
            dec(cw),
        )
    }
}

/// Cell `i` is redrawn: it is not skipped, it changed or a wide neighbour
/// invalidated it, no wide symbol covers it, and it lies within its row's
/// drawn part.
pub open spec fn put_at(a: ScreenBuffer, b: ScreenBuffer, i: nat) -> bool {
    let (inv, skip) = put_state(b.content@, a.content@, i);
    let c = b.content@[i as int];
    &&& !c.skip
    &&& cell_view(c) != cell_view(a.content@[i as int]) || inv > 0
    &&& skip == 0
    &&& a.x as nat + i % (a.width as nat) <= (last_column(a_rows_source(a, b), i / (a.width as nat)) as u16) as nat
}

/// Rows are measured in the next frame, laid out by the previous frame's
/// size.
pub open spec fn a_rows_source(a: ScreenBuffer, b: ScreenBuffer) -> ScreenBuffer {
    ScreenBuffer { x: a.x, y: a.y, width: a.width, height: a.height, content: b.content }
}

/// The puts of cells `0..i`.
pub open spec fn puts(a: ScreenBuffer, b: ScreenBuffer, i: nat) -> Seq<CommandView>
    decreases i,
{
    if i == 0 {
        Seq::empty()
    } else {
        let k = (i - 1) as nat;
        puts(a, b, k) + if put_at(a, b, k) {
            seq![CommandView::Put(
                a.x as nat + k % (a.width as nat),
                a.y as nat + k / (a.width as nat),
                cell_view(b.content@[k as int]),
            )]
        } else {
            Seq::empty()
        }
    }
}

/// A frame holds `width * height` cells, and its area lies on the screen.
pub open spec fn frame_wf(b: ScreenBuffer) -> bool {
    &&& b.content@.len() == b.width * b.height
    &&& b.x + b.width <= u16::MAX
    &&& b.y + b.height <= u16::MAX
}

/// A copy of a cell.
fn copy_cell(c: &Cell) -> (r: Cell)
    ensures
        cell_view(r) == cell_view(*c),
{
    Cell {
        symbol: String::from_str(c.symbol.as_str()),
        fg: c.fg,
        bg: c.bg,
        underline_color: c.underline_color,
        modifier: c.modifier,
        skip: c.skip,
    }
}

/// Whether two cells are the same.
fn same_cell(a: &Cell, b: &Cell) -> (r: bool)
    ensures
        r == (cell_view(*a) == cell_view(*b)),
{
    str_eq(a.symbol.as_str(), b.symbol.as_str()) && a.fg == b.fg && a.bg == b.bg && a.underline_color
        == b.underline_color && a.modifier == b.modifier && a.skip == b.skip
}

/// The columns a cell's symbol takes.
fn cell_width(c: &Cell) -> (w: usize)
    ensures
        w == sym_width(*c),
{
    display_width(c.symbol.as_str())
}

/// The last column of a row that needs drawing.
fn scan_row(content: &Vec<Cell>, start: usize, len: usize) -> (last: usize)
    requires
        start + len <= content.len(),
    ensures
        last == row_last(
            content@.subrange(start as int, start + len),
            row_bg(content@.subrange(start as int, start + len)),
            0,
            0,
        ),
{
    let ghost row = content@.subrange(start as int, start + len);
    let bg = if len == 0 {
        Color::Reset
    } else {
        content[start + (len - 1)].bg
    };
    let mut last: usize = 0;
    let mut column: usize = 0;
    while column < len
        invariant
            start + len <= content.len(),
            row == content@.subrange(start as int, start + len),
            bg == row_bg(row),
            column <= len,
            row.len() == len,
            row_last(row, bg, column as nat, last as nat) == row_last(row, bg, 0, 0),
        decreases len - column,
    {
        let c = &content[start + column];
        assert(row[column as int] == *c);
        let w = cell_width(c);
        let is_notable = !str_eq(c.symbol.as_str(), " ") || c.bg != bg || c.modifier != 0;
        let ghost old_last = last;
        if is_notable {
            last = column.saturating_add(if w == 0 {
                0
            } else {
                w - 1
            });
        }
        let step: usize = if w == 0 {
            1
        } else {
            w
        };
        let ghost old_column = column;
        column = if step >= len - column {
            len
        } else {
            column + step
        };
        proof {
            reveal_strlit(" ");
            assert(" "@ =~= seq![' ']);
            assert(row_last(row, bg, len as nat, last as nat) == last as nat);
            assert(notable(row[old_column as int], bg) == is_notable);
            assert(sym_width(row[old_column as int]) == w);
            assert(row_last(row, bg, old_column as nat, old_last as nat) == row_last(row, bg, column as nat, last as nat));
        }
    }
    last
}

/// The commands that turn frame `a` into frame `b` on screen: first a clear
/// for each row whose end is blank, then the cells to redraw, in order.
pub fn diff_buffers(a: &ScreenBuffer, b: &ScreenBuffer) -> (cmds: Vec<DrawCommand>)
    requires
        frame_wf(*a),
        frame_wf(*b),
        a.width == b.width,
        a.height == b.height,
    ensures
        cmds@.map_values(|c: DrawCommand| command_view(c)) == clears(a_rows_source(*a, *b), a.height as nat) + puts(
            *a,
            *b,
            b.content@.len(),
        ),
{
    let width = a.width as usize;
    let height = a.height as usize;
    let ghost src = a_rows_source(*a, *b);
    let mut updates: Vec<DrawCommand> = Vec::new();
    let mut lasts: Vec<u16> = Vec::new();
    let mut y: usize = 0;
    while y < height
        invariant
            width == a.width,
            height == a.height,
            a.x + a.width <= u16::MAX,
            a.y + a.height <= u16::MAX,
            src == a_rows_source(*a, *b),
            b.content.len() == width * height,
            y <= height,
            lasts@.len() == y,
            forall|r: int| 0 <= r < y ==> #[trigger] lasts@[r] == last_column(src, r as nat) as u16,
            updates@.map_values(|c: DrawCommand| command_view(c)) == clears(src, y as nat),
        decreases height - y,
    {
        proof {
            vstd::arithmetic::mul::lemma_mul_inequality(y + 1, height as int, width as int);
            vstd::arithmetic::mul::lemma_mul_is_distributive_add_other_way(width as int, y as int, 1);
            vstd::arithmetic::mul::lemma_mul_is_commutative(height as int, width as int);
        }
        let start = y * width;
        let last = scan_row(&b.content, start, width);
        proof {
            assert(row_of(src, y as nat) == b.content@.subrange(start as int, start + width));
        }
        if last < width && last + 1 < width {
            let ghost before = updates@;
            let bg = b.content[start + (width - 1)].bg;
            updates.push(DrawCommand::ClearToEnd { x: a.x + (last + 1) as u16, y: a.y + y as u16, bg });
            proof {
                assert(updates@.map_values(|c: DrawCommand| command_view(c)) =~= before.map_values(
                    |c: DrawCommand| command_view(c),
                ).push(CommandView::Clear(a.x as nat + (last + 1) as nat, a.y as nat + y as nat, bg)));
            }
        } else {
            proof {
                assert(clears(src, (y + 1) as nat) =~= clears(src, y as nat));
            }
        }
        lasts.push(last as u16);
        y += 1;
    }
    let mut invalidated: usize = 0;
    let mut to_skip: usize = 0;
    let n = b.content.len();
    let mut i: usize = 0;
    proof {
        assert(updates@.map_values(|c: DrawCommand| command_view(c)) =~= clears(src, height as nat) + puts(*a, *b, 0));
    }
    while i < n
        invariant
            width == a.width,
            height == a.height,
            a.x + a.width <= u16::MAX,
            a.y + a.height <= u16::MAX,
            src == a_rows_source(*a, *b),
            n == b.content@.len(),
            n == width * height,
            a.content@.len() == n,
            i <= n,
            lasts@.len() == height,
            forall|r: int| 0 <= r < height ==> #[trigger] lasts@[r] == last_column(src, r as nat) as u16,
            (invalidated as nat, to_skip as nat) == put_state(b.content@, a.content@, i as nat),
            updates@.map_values(|c: DrawCommand| command_view(c)) == clears(src, height as nat) + puts(*a, *b, i as nat),
        decreases n - i,
    {
        let current = &b.content[i];
        let previous = &a.content[i];
        let ghost before = updates@;
        proof {
            if width == 0 {
                assert(n == 0);
            }
            vstd::arithmetic::div_mod::lemma_multiply_divide_lt(i as int, width as int, height as int);
            vstd::arithmetic::div_mod::lemma_mod_pos_bound(i as int, width as int);
            vstd::arithmetic::div_mod::lemma_div_pos_is_pos(i as int, width as int);
        }
        let x = a.x as usize + i % width;
        let row = i / width;
        let put = !current.skip && (!same_cell(current, previous) || invalidated > 0) && to_skip == 0 && x
            <= lasts[row] as usize;
        proof {
            assert(lasts@[row as int] == last_column(src, row as nat) as u16);
            assert(put == put_at(*a, *b, i as nat));
        }
        if put {
            let cell = copy_cell(current);
            let ghost cv = cell_view(cell);
            updates.push(DrawCommand::Put { x: x as u16, y: a.y + row as u16, cell });
            proof {
                assert(updates@.map_values(|c: DrawCommand| command_view(c)) =~= before.map_values(
                    |c: DrawCommand| command_view(c),
                ).push(CommandView::Put(x as nat, a.y as nat + row as nat, cv)));
            }
        }
        let cw = cell_width(current);
        let pw = cell_width(previous);
        to_skip = if cw == 0 {
            0
        } else {
            cw - 1
        };
        let affected = if cw >= pw {
            cw
        } else {
            pw
        };
        let m = if affected >= invalidated {
            affected
        } else {
            invalidated
        };
        invalidated = if m == 0 {
            0
        } else {
            m - 1
        };
        proof {
            assert(updates@.map_values(|c: DrawCommand| command_view(c)) =~= clears(src, height as nat) + puts(
                *a,
                *b,
                (i + 1) as nat,
            ));
        }
        i += 1;
    }
    updates
}


/// With every cell unchanged and no symbol wider than two columns, the
/// first `i` cells need no redraw.
proof fn lemma_unchanged_prefix(a: ScreenBuffer, b: ScreenBuffer, i: nat)
    requires
        i <= b.content@.len(),
        a.content@.len() == b.content@.len(),
        forall|k: int| 0 <= k < b.content@.len() ==> cell_view(#[trigger] b.content@[k]) == cell_view(a.content@[k]),
        forall|k: int| 0 <= k < b.content@.len() ==> sym_width(#[trigger] b.content@[k]) <= 2,
    ensures
        puts(a, b, i) == Seq::<CommandView>::empty(),
        put_state(b.content@, a.content@, i).0 <= put_state(b.content@, a.content@, i).1,
        put_state(b.content@, a.content@, i).1 <= 1,
    decreases i,
{
    if i > 0 {
        let k = (i - 1) as nat;
        lemma_unchanged_prefix(a, b, k);
        assert(cell_view(b.content@[k as int]) == cell_view(a.content@[k as int]));
        assert(sym_width(b.content@[k as int]) <= 2);
        assert(sym_width(a.content@[k as int]) == sym_width(b.content@[k as int]));
        assert(!put_at(a, b, k));
    }
}

/// Redrawing a frame that did not change puts no cell (where no symbol is
/// wider than two columns); only the clears of blank row ends remain.
pub proof fn lemma_unchanged_frame_puts_nothing(a: ScreenBuffer, b: ScreenBuffer)
    requires
        a.content@.len() == b.content@.len(),
        forall|k: int| 0 <= k < b.content@.len() ==> cell_view(#[trigger] b.content@[k]) == cell_view(a.content@[k]),
        forall|k: int| 0 <= k < b.content@.len() ==> sym_width(#[trigger] b.content@[k]) <= 2,
    ensures
        puts(a, b, b.content@.len()) == Seq::<CommandView>::empty(),
{
    lemma_unchanged_prefix(a, b, b.content@.len());
}
} // verus!
