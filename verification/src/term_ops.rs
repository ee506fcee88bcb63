//! The terminal operations that carry out drawing commands: cursor moves
//! only where the next cell is not the one after the last, modifier and
//! color changes only where they differ from what is set, and a reset of
//! colors and attributes at the end.

use vstd::prelude::*;
use crate::screen_diff::{Cell, DrawCommand};
use crate::style::Color;

verus! {

/// Bold text.
pub const MOD_BOLD: u16 = 1;
/// Dim text.
pub const MOD_DIM: u16 = 2;
pub const MOD_ITALIC: u16 = 4;
pub const MOD_UNDERLINED: u16 = 8;
pub const MOD_SLOW_BLINK: u16 = 16;
pub const MOD_RAPID_BLINK: u16 = 32;
pub const MOD_REVERSED: u16 = 64;
pub const MOD_CROSSED_OUT: u16 = 256;

/// A text attribute of the terminal.
#[derive(Clone, Copy, Debug, PartialEq, Eq, Structural)]
pub enum Attribute {
    Reset,
    Bold,
    Dim,
    NormalIntensity,
    Italic,
    NoItalic,
    Underlined,
    NoUnderline,
    SlowBlink,
    RapidBlink,
    NoBlink,
    Reverse,
    NoReverse,
    CrossedOut,
    NotCrossedOut,
}

/// One operation written to the terminal.
#[derive(Debug)]
pub enum TermOp {
    MoveTo(u16, u16),
    SetAttribute(Attribute),
    SetColors(Color, Color),
    SetForegroundColor(Color),
    SetBackgroundColor(Color),
    Print(String),
    ClearUntilNewLine,
}

/// An operation as plain values.
pub enum OpView {
    MoveTo(u16, u16),
    SetAttribute(Attribute),
    SetColors(Color, Color),
    SetForegroundColor(Color),
    SetBackgroundColor(Color),
    Print(Seq<char>),
    ClearUntilNewLine,
}

pub open spec fn op_view(op: TermOp) -> OpView {
    match op {
        TermOp::MoveTo(x, y) => OpView::MoveTo(x, y),
        TermOp::SetAttribute(a) => OpView::SetAttribute(a),
        TermOp::SetColors(f, b) => OpView::SetColors(f, b),
        TermOp::SetForegroundColor(c) => OpView::SetForegroundColor(c),
        TermOp::SetBackgroundColor(c) => OpView::SetBackgroundColor(c),
        TermOp::Print(s) => OpView::Print(s@),
        TermOp::ClearUntilNewLine => OpView::ClearUntilNewLine,
    }
}

pub open spec fn op_views(ops: Seq<TermOp>) -> Seq<OpView> {
    ops.map_values(|op: TermOp| op_view(op))
}

/// Attribute changes as operations.
pub open spec fn attr_ops(attrs: Seq<Attribute>) -> Seq<OpView> {
    attrs.map_values(|a: Attribute| OpView::SetAttribute(a))
}

/// Whether modifier set `m` holds flag `f`.
pub open spec fn has(m: u16, f: u16) -> bool {
    m & f == f
}

/// `attr` where `cond` holds.
pub open spec fn when(cond: bool, attr: Attribute) -> Seq<Attribute> {
    if cond { seq![attr] } else { Seq::empty() }
}

/// The attribute changes from modifiers `from` to modifiers `to`: first
/// what is dropped (giving up bold restores dim where it stays), then what
/// is added.
pub open spec fn modifier_diff(from: u16, to: u16) -> Seq<Attribute> {
    let removed = from & !to;
    let added = to & !from;
    when(has(removed, MOD_REVERSED), Attribute::NoReverse)
        + when(has(removed, MOD_BOLD), Attribute::NormalIntensity)
        + when(has(removed, MOD_BOLD) && has(to, MOD_DIM), Attribute::Dim)
        + when(has(removed, MOD_ITALIC), Attribute::NoItalic)
        + when(has(removed, MOD_UNDERLINED), Attribute::NoUnderline)
        + when(has(removed, MOD_DIM), Attribute::NormalIntensity)
        + when(has(removed, MOD_CROSSED_OUT), Attribute::NotCrossedOut)
        + when(has(removed, MOD_SLOW_BLINK) || has(removed, MOD_RAPID_BLINK), Attribute::NoBlink)
        + when(has(added, MOD_REVERSED), Attribute::Reverse)
        + when(has(added, MOD_BOLD), Attribute::Bold)
        + when(has(added, MOD_ITALIC), Attribute::Italic)
        + when(has(added, MOD_UNDERLINED), Attribute::Underlined)
        + when(has(added, MOD_DIM), Attribute::Dim)
        + when(has(added, MOD_CROSSED_OUT), Attribute::CrossedOut)
        + when(has(added, MOD_SLOW_BLINK), Attribute::SlowBlink)
        + when(has(added, MOD_RAPID_BLINK), Attribute::RapidBlink)
}

fn push_when(out: &mut Vec<Attribute>, cond: bool, attr: Attribute)
    ensures
        final(out)@ == old(out)@ + when(cond, attr),
{
    if cond {
        out.push(attr);
    } else {
        assert(old(out)@ + when(cond, attr) =~= old(out)@);
    }
}

/// The attribute changes from modifiers `from` to modifiers `to`.
pub fn modifier_diff_attributes(from: u16, to: u16) -> (attrs: Vec<Attribute>)
    ensures
        attrs@ == modifier_diff(from, to),
{
    let removed = from & !to;
    let added = to & !from;
    let mut out: Vec<Attribute> = Vec::new();
    push_when(&mut out, removed & MOD_REVERSED == MOD_REVERSED, Attribute::NoReverse);
    push_when(&mut out, removed & MOD_BOLD == MOD_BOLD, Attribute::NormalIntensity);
    push_when(&mut out, removed & MOD_BOLD == MOD_BOLD && to & MOD_DIM == MOD_DIM, Attribute::Dim);
    push_when(&mut out, removed & MOD_ITALIC == MOD_ITALIC, Attribute::NoItalic);
    push_when(&mut out, removed & MOD_UNDERLINED == MOD_UNDERLINED, Attribute::NoUnderline);
    push_when(&mut out, removed & MOD_DIM == MOD_DIM, Attribute::NormalIntensity);
    push_when(&mut out, removed & MOD_CROSSED_OUT == MOD_CROSSED_OUT, Attribute::NotCrossedOut);
    push_when(
        &mut out,
        removed & MOD_SLOW_BLINK == MOD_SLOW_BLINK || removed & MOD_RAPID_BLINK == MOD_RAPID_BLINK,
        Attribute::NoBlink,
    );
    push_when(&mut out, added & MOD_REVERSED == MOD_REVERSED, Attribute::Reverse);
    push_when(&mut out, added & MOD_BOLD == MOD_BOLD, Attribute::Bold);
    push_when(&mut out, added & MOD_ITALIC == MOD_ITALIC, Attribute::Italic);
    push_when(&mut out, added & MOD_UNDERLINED == MOD_UNDERLINED, Attribute::Underlined);
    push_when(&mut out, added & MOD_DIM == MOD_DIM, Attribute::Dim);
    push_when(&mut out, added & MOD_CROSSED_OUT == MOD_CROSSED_OUT, Attribute::CrossedOut);
    push_when(&mut out, added & MOD_SLOW_BLINK == MOD_SLOW_BLINK, Attribute::SlowBlink);
    push_when(&mut out, added & MOD_RAPID_BLINK == MOD_RAPID_BLINK, Attribute::RapidBlink);
    proof {
        assert(out@ =~= modifier_diff(from, to));
    }
    out
}

/// What the terminal has set while drawing.
pub struct DrawState {
    pub fg: Color,
    pub bg: Color,
    pub modifier: u16,
    pub last: Option<(u16, u16)>,
}

/// The state before drawing.
pub open spec fn start_state() -> DrawState {
    DrawState { fg: Color::Reset, bg: Color::Reset, modifier: 0, last: None }
}

/// The position of a command.
pub open spec fn command_pos(c: DrawCommand) -> (u16, u16) {
    match c {
        DrawCommand::Put { x, y, .. } => (x, y),
        DrawCommand::ClearToEnd { x, y, .. } => (x, y),
    }
}

/// The operations of one command, and the state after it.
pub open spec fn command_ops(s: DrawState, c: DrawCommand) -> (Seq<OpView>, DrawState) {
    let (x, y) = command_pos(c);
    let moves = if s.last matches Some(p) && x == p.0 + 1 && y == p.1 {
        Seq::empty()
    } else {
        seq![OpView::MoveTo(x, y)]
    };
    match c {
        DrawCommand::Put { cell, .. } => {
            let mods = if cell.modifier != s.modifier {
                attr_ops(modifier_diff(s.modifier, cell.modifier))
            } else {
                Seq::empty()
            };
            let colors = if cell.fg != s.fg || cell.bg != s.bg {
                seq![OpView::SetColors(cell.fg, cell.bg)]
            } else {
                Seq::empty()
            };
            (
                moves + mods + colors + seq![OpView::Print(cell.symbol@)],
                DrawState { fg: cell.fg, bg: cell.bg, modifier: cell.modifier, last: Some((x, y)) },
            )
        },
        DrawCommand::ClearToEnd { bg, .. } => (
            moves + seq![
                OpView::SetAttribute(Attribute::Reset),
                OpView::SetBackgroundColor(bg),
                OpView::ClearUntilNewLine,
            ],
            DrawState { bg, modifier: 0, last: Some((x, y)), ..s },
        ),
    }
}

/// The operations of a sequence of commands from state `s`.
pub open spec fn commands_ops(cmds: Seq<DrawCommand>, s: DrawState) -> (Seq<OpView>, DrawState)
    decreases cmds.len(),
{
    if cmds.len() == 0 {
        (Seq::empty(), s)
    } else {
        let (ops, s1) = commands_ops(cmds.drop_last(), s);
        let (more, s2) = command_ops(s1, cmds.last());
        (ops + more, s2)
    }
}

/// The operations that carry out drawing commands, ending with colors and
/// attributes reset.
pub open spec fn draw_ops_spec(cmds: Seq<DrawCommand>) -> Seq<OpView> {
    commands_ops(cmds, start_state()).0 + seq![
        OpView::SetForegroundColor(Color::Reset),
        OpView::SetBackgroundColor(Color::Reset),
        OpView::SetAttribute(Attribute::Reset),
    ]
}

fn copy_symbol(c: &Cell) -> (s: String)
    ensures
        s@ == c.symbol@,
{
    String::from_str(c.symbol.as_str())
}

/// The terminal operations that carry out `commands`.
pub fn draw_ops(commands: &Vec<DrawCommand>) -> (ops: Vec<TermOp>)
    ensures
        op_views(ops@) == draw_ops_spec(commands@),
{
    let mut ops: Vec<TermOp> = Vec::new();
    let mut fg = Color::Reset;
    let mut bg = Color::Reset;
    let mut modifier: u16 = 0;
    let mut last: Option<(u16, u16)> = None;
    let mut i: usize = 0;
    while i < commands.len()
        invariant
            i <= commands@.len(),
            (op_views(ops@), DrawState { fg, bg, modifier, last }) == commands_ops(
                commands@.take(i as int),
                start_state(),
            ),
        decreases commands@.len() - i,
    {
        let ghost before = op_views(ops@);
        let ghost s = DrawState { fg, bg, modifier, last };
        proof {
            assert(commands@.take(i + 1).drop_last() =~= commands@.take(i as int));
            assert(commands@.take(i + 1).last() == commands@[i as int]);
        }
        let (x, y) = match &commands[i] {
            DrawCommand::Put { x, y, .. } => (*x, *y),
            DrawCommand::ClearToEnd { x, y, .. } => (*x, *y),
        };
        let follows = match last {
            Some(p) => p.0 < u16::MAX && x == p.0 + 1 && y == p.1,
            None => false,
        };
        let ghost moves = if s.last matches Some(p) && x == p.0 + 1 && y == p.1 {
            Seq::<OpView>::empty()
        } else {
            seq![OpView::MoveTo(x, y)]
        };
        proof {
            assert(command_pos(commands@[i as int]) == (x, y));
        }
        if !follows {
            ops.push(TermOp::MoveTo(x, y));
        }
        let ghost after_move = op_views(ops@);
        proof {
            assert(after_move =~= before + moves);
        }
        match &commands[i] {
            DrawCommand::Put { cell, .. } => {
                if cell.modifier != modifier {
                    let attrs = modifier_diff_attributes(modifier, cell.modifier);
                    let mut k: usize = 0;
                    while k < attrs.len()
                        invariant
                            k <= attrs@.len(),
                            op_views(ops@) == after_move + attr_ops(attrs@.take(k as int)),
                        decreases attrs@.len() - k,
                    {
                        let ghost prev_ops = ops@;
                        let a = attrs[k];
                        ops.push(TermOp::SetAttribute(a));
                        proof {
                            assert(op_views(ops@) =~= op_views(prev_ops).push(OpView::SetAttribute(a)));
                            assert(attr_ops(attrs@.take(k + 1)) =~= attr_ops(attrs@.take(k as int)).push(
                                OpView::SetAttribute(a),
                            ));
                        }
                        k = k + 1;
                        proof {
                            assert(op_views(ops@) =~= after_move + attr_ops(attrs@.take(k as int)));
                        }
                    }
                    proof {
                        assert(attrs@.take(attrs@.len() as int) =~= attrs@);
                    }
                    modifier = cell.modifier;
                }
                let ghost after_mods = op_views(ops@);
                let ghost mods = if cell.modifier != s.modifier {
                    attr_ops(modifier_diff(s.modifier, cell.modifier))
                } else {
                    Seq::<OpView>::empty()
                };
                proof {
                    assert(after_mods =~= after_move + mods);
                }
                let ghost colors = if cell.fg != s.fg || cell.bg != s.bg {
                    seq![OpView::SetColors(cell.fg, cell.bg)]
                } else {
                    Seq::<OpView>::empty()
                };
                if cell.fg != fg || cell.bg != bg {
                    ops.push(TermOp::SetColors(cell.fg, cell.bg));
                    fg = cell.fg;
                    bg = cell.bg;
                }
                let ghost after_colors = op_views(ops@);
                proof {
                    assert(after_colors =~= after_mods + colors);
                }
                let sym = copy_symbol(cell);
                ops.push(TermOp::Print(sym));
                proof {
                    assert(op_views(ops@) =~= after_colors.push(OpView::Print(cell.symbol@)));
                    let (more, s2) = command_ops(s, commands@[i as int]);
                    assert(more == moves + mods + colors + seq![OpView::Print(cell.symbol@)]);
                    assert(op_views(ops@) =~= before + more);
                }
            },
            DrawCommand::ClearToEnd { bg: clear_bg, .. } => {
                ops.push(TermOp::SetAttribute(Attribute::Reset));
                modifier = 0;
                ops.push(TermOp::SetBackgroundColor(*clear_bg));
                bg = *clear_bg;
                ops.push(TermOp::ClearUntilNewLine);
                proof {
                    let (more, s2) = command_ops(s, commands@[i as int]);
                    assert(op_views(ops@) =~= before + more);
                }
            },
        }
        last = Some((x, y));
        i = i + 1;
    }
    ops.push(TermOp::SetForegroundColor(Color::Reset));
    ops.push(TermOp::SetBackgroundColor(Color::Reset));
    ops.push(TermOp::SetAttribute(Attribute::Reset));
    proof {
        assert(commands@.take(commands@.len() as int) =~= commands@);
        assert(op_views(ops@) =~= draw_ops_spec(commands@));
    }
    ops
}

} // verus!
