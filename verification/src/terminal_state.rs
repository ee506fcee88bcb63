//! The double-buffered state of the inline terminal: the frame being drawn,
//! the frame last drawn, the viewport they cover, and the history rows shown
//! above it. Flushing draws what differs between the two frames.

use vstd::prelude::*;
use crate::screen_diff::{cell_view, diff_buffers, frame_wf, Cell, DrawCommand, ScreenBuffer};
use crate::style::Color;

verus! {

/// A rectangle of the screen; it lies on the screen (`x + width` and
/// `y + height` fit in a `u16`), as every rectangle the terminal library
/// builds does.
#[derive(Clone, Copy, Debug, PartialEq, Eq, Structural)]
pub struct Rect {
    pub x: u16,
    pub y: u16,
    pub width: u16,
    pub height: u16,
}

impl Rect {
    pub open spec fn on_screen(self) -> bool {
        self.x + self.width <= u16::MAX && self.y + self.height <= u16::MAX
    }

    /// The rectangle covers no cell.
    pub open spec fn empty(self) -> bool {
        self.width == 0 || self.height == 0
    }
}

/// A position on the screen.
#[derive(Clone, Copy, Debug, PartialEq, Eq, Structural)]
pub struct Position {
    pub x: u16,
    pub y: u16,
}

/// The blank cell.
pub open spec fn blank_view() -> (Seq<char>, Color, Color, Color, u16, bool) {
    (seq![' '], Color::Reset, Color::Reset, Color::Reset, 0u16, false)
}

/// A blank cell.
pub fn blank_cell() -> (c: Cell)
    ensures
        cell_view(c) == blank_view(),
{
    proof {
        reveal_strlit(" ");
        assert(" "@ =~= seq![' ']);
    }
    Cell {
        symbol: String::from_str(" "),
        fg: Color::Reset,
        bg: Color::Reset,
        underline_color: Color::Reset,
        modifier: 0,
        skip: false,
    }
}

/// The area a buffer covers.
pub open spec fn area_of(b: ScreenBuffer) -> Rect {
    Rect { x: b.x, y: b.y, width: b.width, height: b.height }
}

/// Every cell of a buffer is blank.
pub open spec fn all_blank(b: ScreenBuffer) -> bool {
    forall|i: int| 0 <= i < b.content@.len() ==> cell_view(#[trigger] b.content@[i]) == blank_view()
}

/// Makes every cell of a buffer blank.
pub fn reset_buffer(b: &mut ScreenBuffer)
    ensures
        final(b).x == old(b).x,
        final(b).y == old(b).y,
        final(b).width == old(b).width,
        final(b).height == old(b).height,
        final(b).content@.len() == old(b).content@.len(),
        all_blank(*final(b)),
{
    let n = b.content.len();
    let mut fresh: Vec<Cell> = Vec::new();
    let mut i: usize = 0;
    while i < n
        invariant
            i <= n,
            fresh@.len() == i,
            forall|j: int| 0 <= j < i ==> cell_view(#[trigger] fresh@[j]) == blank_view(),
        decreases n - i,
    {
        fresh.push(blank_cell());
        i = i + 1;
    }
    b.content = fresh;
}

/// Fits a buffer to `area`: cells beyond its size are dropped, missing ones
/// are added blank, in the order of the cells (rows are not re-laid).
pub fn resize_buffer(b: &mut ScreenBuffer, area: Rect)
    ensures
        area_of(*final(b)) == area,
        final(b).content@.len() == area.width * area.height,
        forall|i: int| 0 <= i < final(b).content@.len() ==> cell_view(#[trigger] final(b).content@[i]) == (
            if i < old(b).content@.len() {
                cell_view(old(b).content@[i])
            } else {
                blank_view()
            }),
{
    proof {
        assert(area.width as nat * area.height as nat <= 0xffff * 0xffff) by (nonlinear_arith)
            requires
                area.width <= 0xffff,
                area.height <= 0xffff,
        ;
    }
    let length = area.width as usize * area.height as usize;
    if b.content.len() > length {
        b.content.truncate(length);
    } else {
        let ghost before = b.content@;
        while b.content.len() < length
            invariant
                before.len() <= b.content@.len() <= length,
                forall|i: int| 0 <= i < b.content@.len() ==> cell_view(#[trigger] b.content@[i]) == (
                    if i < before.len() {
                        cell_view(before[i])
                    } else {
                        blank_view()
                    }),
            decreases length - b.content@.len(),
        {
            b.content.push(blank_cell());
        }
    }
    b.x = area.x;
    b.y = area.y;
    b.width = area.width;
    b.height = area.height;
}

/// The terminal's frames and viewport.
#[derive(Debug)]
pub struct TerminalState {
    /// The frame being drawn.
    pub current: ScreenBuffer,
    /// The frame last drawn.
    pub previous: ScreenBuffer,
    pub hidden_cursor: bool,
    pub viewport_area: Rect,
    pub last_known_cursor_pos: Position,
    /// History rows shown above the viewport.
    pub visible_history_rows: u16,
}

impl TerminalState {
    /// Both frames cover the same area on the screen, and the history shown
    /// fits above the viewport.
    pub open spec fn wf(&self) -> bool {
        &&& frame_wf(self.current)
        &&& frame_wf(self.previous)
        &&& area_of(self.current) == area_of(self.previous)
        &&& self.visible_history_rows <= self.viewport_area.y
    }

    /// The terminal as it starts, with the cursor at `cursor_pos`: empty
    /// frames, an empty viewport on the cursor's row.
    pub fn new(cursor_pos: Position) -> (t: Self)
        ensures
            t.wf(),
            t.viewport_area == (Rect { x: 0, y: cursor_pos.y, width: 0, height: 0 }),
            t.last_known_cursor_pos == cursor_pos,
            t.visible_history_rows == 0,
            !t.hidden_cursor,
    {
        TerminalState {
            current: ScreenBuffer { x: 0, y: 0, width: 0, height: 0, content: Vec::new() },
            previous: ScreenBuffer { x: 0, y: 0, width: 0, height: 0, content: Vec::new() },
            hidden_cursor: false,
            viewport_area: Rect { x: 0, y: cursor_pos.y, width: 0, height: 0 },
            last_known_cursor_pos: cursor_pos,
            visible_history_rows: 0,
        }
    }

    /// Moves the viewport to `area`. Both frames are fitted to it; where the
    /// width changed, the frame being drawn is made blank, so that the next
    /// flush redraws everything rather than cells laid out for the old width.
    pub fn set_viewport_area(&mut self, area: Rect)
        requires
            old(self).wf(),
            area.on_screen(),
        ensures
            final(self).wf(),
            final(self).viewport_area == area,
            area_of(final(self).current) == area,
            final(self).visible_history_rows == (if old(self).visible_history_rows <= area.y {
                old(self).visible_history_rows
            } else {
                area.y
            }),
            final(self).last_known_cursor_pos == old(self).last_known_cursor_pos,
            final(self).hidden_cursor == old(self).hidden_cursor,
            !old(self).viewport_area.empty() && old(self).viewport_area.width != area.width ==> all_blank(
                final(self).current,
            ),
            !(!old(self).viewport_area.empty() && old(self).viewport_area.width != area.width) ==> forall|i: int|
                0 <= i < final(self).current.content@.len() && i < old(self).current.content@.len() ==> cell_view(
                    #[trigger] final(self).current.content@[i],
                ) == cell_view(old(self).current.content@[i]),
            forall|i: int|
                0 <= i < final(self).previous.content@.len() && i < old(self).previous.content@.len() ==> cell_view(
                    #[trigger] final(self).previous.content@[i],
                ) == cell_view(old(self).previous.content@[i]),
    {
        let width_changed = !(self.viewport_area.width == 0 || self.viewport_area.height == 0)
            && self.viewport_area.width != area.width;
        resize_buffer(&mut self.current, area);
        resize_buffer(&mut self.previous, area);
        if width_changed {
            reset_buffer(&mut self.current);
        }
        self.viewport_area = area;
        if self.visible_history_rows > area.y {
            self.visible_history_rows = area.y;
        }
    }

    /// The commands that bring the screen from the frame last drawn to the
    /// frame being drawn; the cursor is then where the last cell was put.
    pub fn flush(&mut self) -> (cmds: Vec<DrawCommand>)
        requires
            old(self).wf(),
        ensures
            final(self).wf(),
            final(self).current == old(self).current,
            final(self).previous == old(self).previous,
            final(self).viewport_area == old(self).viewport_area,
            final(self).visible_history_rows == old(self).visible_history_rows,
            cmds@.map_values(|c: DrawCommand| crate::screen_diff::command_view(c)) == crate::screen_diff::clears(
                crate::screen_diff::a_rows_source(old(self).previous, old(self).current),
                old(self).previous.height as nat,
            ) + crate::screen_diff::puts(old(self).previous, old(self).current, old(self).current.content@.len()),
            final(self).last_known_cursor_pos == cursor_after(cmds@, old(self).last_known_cursor_pos),
    {
        let cmds = diff_buffers(&self.previous, &self.current);
        self.last_known_cursor_pos = cursor_after_commands(&cmds, self.last_known_cursor_pos);
        cmds
    }

    /// Makes the frame being drawn the one last drawn, and starts a blank
    /// frame to draw.
    pub fn swap_buffers(&mut self)
        requires
            old(self).wf(),
        ensures
            final(self).wf(),
            final(self).previous == old(self).current,
            area_of(final(self).current) == area_of(old(self).current),
            all_blank(final(self).current),
            final(self).viewport_area == old(self).viewport_area,
            final(self).visible_history_rows == old(self).visible_history_rows,
    {
        reset_buffer(&mut self.previous);
        std::mem::swap(&mut self.current, &mut self.previous);
    }

    /// Forgets the frame last drawn (after the screen was cleared), so that
    /// the next flush redraws everything.
    pub fn clear_after_position(&mut self)
        requires
            old(self).wf(),
        ensures
            final(self).wf(),
            final(self).current == old(self).current,
            area_of(final(self).previous) == area_of(old(self).previous),
            all_blank(final(self).previous),
            final(self).viewport_area == old(self).viewport_area,
            final(self).visible_history_rows == old(self).visible_history_rows,
            final(self).last_known_cursor_pos == old(self).last_known_cursor_pos,
    {
        reset_buffer(&mut self.previous);
    }

    /// After scrollback and screen were cleared: the cursor is home, no
    /// history shows, and the next flush redraws everything.
    pub fn clear_scrollback_and_visible_screen(&mut self)
        requires
            old(self).wf(),
        ensures
            final(self).wf(),
            final(self).current == old(self).current,
            all_blank(final(self).previous),
            final(self).last_known_cursor_pos == (Position { x: 0, y: 0 }),
            final(self).visible_history_rows == 0,
            final(self).viewport_area == old(self).viewport_area,
    {
        self.last_known_cursor_pos = Position { x: 0, y: 0 };
        self.visible_history_rows = 0;
        reset_buffer(&mut self.previous);
    }

    /// Counts history rows inserted above the viewport; at most the rows
    /// above it show.
    pub fn note_history_rows_inserted(&mut self, inserted_rows: u16)
        requires
            old(self).wf(),
        ensures
            final(self).wf(),
            final(self).visible_history_rows == (if old(self).visible_history_rows + inserted_rows
                <= old(self).viewport_area.y {
                (old(self).visible_history_rows + inserted_rows) as u16
            } else {
                old(self).viewport_area.y
            }),
            final(self).current == old(self).current,
            final(self).previous == old(self).previous,
            final(self).viewport_area == old(self).viewport_area,
    {
        let sum = self.visible_history_rows.saturating_add(inserted_rows);
        self.visible_history_rows = if sum <= self.viewport_area.y {
            sum
        } else {
            self.viewport_area.y
        };
    }
}

/// Where the last put of `cmds` leaves the cursor; `pos` where none puts.
fn cursor_after_commands(cmds: &Vec<DrawCommand>, pos: Position) -> (r: Position)
    ensures
        r == cursor_after(cmds@, pos),
{
    let mut k: usize = cmds.len();
    proof {
        assert(cmds@.take(k as int) =~= cmds@);
    }
    while k > 0
        invariant
            k <= cmds@.len(),
            cursor_after(cmds@, pos) == cursor_after(cmds@.take(k as int), pos),
        decreases k,
    {
        proof {
            assert(cmds@.take(k as int).drop_last() =~= cmds@.take(k - 1));
        }
        match &cmds[k - 1] {
            DrawCommand::Put { x, y, .. } => {
                return Position { x: *x, y: *y };
            },
            DrawCommand::ClearToEnd { .. } => {},
        }
        k = k - 1;
    }
    proof {
        assert(cmds@.take(0) =~= Seq::<DrawCommand>::empty());
    }
    pos
}

/// Where the last put of `cmds` leaves the cursor; `pos` where none puts.
pub open spec fn cursor_after(cmds: Seq<DrawCommand>, pos: Position) -> Position
    decreases cmds.len(),
{
    if cmds.len() == 0 {
        pos
    } else {
        match cmds.last() {
            DrawCommand::Put { x, y, .. } => Position { x, y },
            DrawCommand::ClearToEnd { .. } => cursor_after(cmds.drop_last(), pos),
        }
    }
}

} // verus!
