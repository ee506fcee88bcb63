use reflect_tui::screen_diff::{diff_buffers, Cell, DrawCommand, ScreenBuffer};
use reflect_tui::style::Color;
use reflect_tui::term_ops::{draw_ops, modifier_diff_attributes, Attribute, MOD_BOLD, MOD_DIM, MOD_ITALIC, MOD_REVERSED, MOD_SLOW_BLINK, MOD_UNDERLINED};
use reflect_tui::terminal_state::{Position, Rect, TerminalState};
use reflect_tui::width::display_width;

fn blank() -> Cell {
    Cell {
        symbol: " ".to_string(),
        fg: Color::Reset,
        bg: Color::Reset,
        underline_color: Color::Reset,
        modifier: 0,
        skip: false,
    }
}

fn empty(width: u16, height: u16) -> ScreenBuffer {
    ScreenBuffer { x: 0, y: 0, width, height, content: (0..(width as usize * height as usize)).map(|_| blank()).collect() }
}

fn set(buffer: &mut ScreenBuffer, x: u16, y: u16, symbol: &str) {
    let i = y as usize * buffer.width as usize + x as usize;
    buffer.content[i].symbol = symbol.to_string();
}

#[test]
fn diff_buffers_does_not_emit_clear_to_end_for_full_width_row() {
    let previous = empty(3, 2);
    let mut next = empty(3, 2);
    set(&mut next, 2, 0, "X");
    let commands = diff_buffers(&previous, &next);
    let clear_count = commands
        .iter()
        .filter(|command| matches!(command, DrawCommand::ClearToEnd { y, .. } if *y == 0))
        .count();
    assert_eq!(0, clear_count, "expected diff_buffers not to emit ClearToEnd; commands: {commands:?}");
    assert!(
        commands.iter().any(|command| matches!(command, DrawCommand::Put { x: 2, y: 0, .. })),
        "expected diff_buffers to update the final cell; commands: {commands:?}"
    );
}

#[test]
fn diff_buffers_clear_to_end_starts_after_wide_char() {
    let mut previous = empty(10, 1);
    let mut next = empty(10, 1);
    set(&mut previous, 0, 0, "中");
    set(&mut previous, 2, 0, "文");
    set(&mut next, 0, 0, "中");
    let commands = diff_buffers(&previous, &next);
    assert!(
        commands.iter().any(|command| matches!(command, DrawCommand::ClearToEnd { x: 2, y: 0, .. })),
        "expected clear-to-end to start after the remaining wide char; commands: {commands:?}"
    );
}

#[test]
fn unchanged_frames_only_clear_blank_row_ends() {
    let previous = empty(4, 1);
    let next = empty(4, 1);
    let commands = diff_buffers(&previous, &next);
    assert_eq!(commands.len(), 1);
    assert!(matches!(commands[0], DrawCommand::ClearToEnd { x: 1, y: 0, bg: Color::Reset }));
}

#[test]
fn wide_char_change_redraws_the_cell_after_it() {
    let mut previous = empty(4, 1);
    let mut next = empty(4, 1);
    set(&mut previous, 0, 0, "中");
    set(&mut next, 0, 0, "a");
    set(&mut next, 1, 0, "b");
    let commands = diff_buffers(&previous, &next);
    let puts: Vec<(u16, String)> = commands
        .iter()
        .filter_map(|c| match c {
            DrawCommand::Put { x, cell, .. } => Some((*x, cell.symbol.clone())),
            DrawCommand::ClearToEnd { .. } => None,
        })
        .collect();
    assert_eq!(puts, vec![(0, "a".to_string()), (1, "b".to_string())]);
}

#[test]
fn display_width_ignores_osc_sequences() {
    assert_eq!(display_width("abc"), 3);
    assert_eq!(display_width("中文"), 4);
    assert_eq!(display_width("\u{1b}]8;;https://x\u{7}link\u{1b}]8;;\u{7}"), 4);
}

fn rect(x: u16, y: u16, width: u16, height: u16) -> Rect {
    Rect { x, y, width, height }
}

#[test]
fn set_viewport_area_resets_current_buffer_on_width_change() {
    let mut terminal = TerminalState::new(Position { x: 0, y: 0 });
    terminal.set_viewport_area(rect(0, 0, 10, 4));
    for cell in terminal.current.content.iter_mut() {
        cell.symbol = "X".to_string();
    }
    assert!(terminal.current.content.iter().any(|c| c.symbol != " "));
    terminal.set_viewport_area(rect(0, 0, 6, 4));
    assert!(terminal.current.content.iter().all(|c| c.symbol == " "));
    assert_eq!(terminal.current.width, 6);
    assert_eq!(terminal.current.content.len(), 24);
}

#[test]
fn set_viewport_area_keeps_buffer_on_height_only_change() {
    let mut terminal = TerminalState::new(Position { x: 0, y: 0 });
    terminal.set_viewport_area(rect(0, 0, 8, 4));
    for cell in terminal.current.content.iter_mut() {
        cell.symbol = "Y".to_string();
    }
    terminal.set_viewport_area(rect(0, 0, 8, 2));
    assert!(terminal.current.content.iter().any(|c| c.symbol == "Y"));
    assert_eq!(terminal.current.content.len(), 16);
}

#[test]
fn flush_draws_the_difference_and_moves_the_cursor() {
    let mut terminal = TerminalState::new(Position { x: 0, y: 5 });
    terminal.set_viewport_area(rect(0, 5, 4, 1));
    terminal.current.content[1].symbol = "a".to_string();
    let commands = terminal.flush();
    assert!(commands.iter().any(|c| matches!(c, DrawCommand::Put { x: 1, y: 5, .. })));
    assert!(commands.iter().any(|c| matches!(c, DrawCommand::ClearToEnd { x: 2, y: 5, .. })));
    assert_eq!(terminal.last_known_cursor_pos, Position { x: 1, y: 5 });
    terminal.swap_buffers();
    assert_eq!(terminal.previous.content[1].symbol, "a");
    assert!(terminal.current.content.iter().all(|c| c.symbol == " "));
    // Drawing the same frame again puts nothing.
    terminal.current.content[1].symbol = "a".to_string();
    let again = terminal.flush();
    assert!(again.iter().all(|c| matches!(c, DrawCommand::ClearToEnd { .. })));
    assert_eq!(terminal.last_known_cursor_pos, Position { x: 1, y: 5 });
}

#[test]
fn history_rows_fit_above_the_viewport() {
    let mut terminal = TerminalState::new(Position { x: 0, y: 0 });
    terminal.set_viewport_area(rect(0, 3, 10, 2));
    terminal.note_history_rows_inserted(2);
    assert_eq!(terminal.visible_history_rows, 2);
    terminal.note_history_rows_inserted(5);
    assert_eq!(terminal.visible_history_rows, 3);
    terminal.set_viewport_area(rect(0, 1, 10, 2));
    assert_eq!(terminal.visible_history_rows, 1);
    terminal.clear_scrollback_and_visible_screen();
    assert_eq!(terminal.visible_history_rows, 0);
    assert_eq!(terminal.last_known_cursor_pos, Position { x: 0, y: 0 });
}

fn cell(symbol: &str, fg: Color, modifier: u16) -> Cell {
    Cell { symbol: symbol.to_string(), fg, bg: Color::Reset, underline_color: Color::Reset, modifier, skip: false }
}

#[test]
fn modifier_changes_become_attributes() {
    assert_eq!(modifier_diff_attributes(MOD_BOLD, MOD_DIM), vec![Attribute::NormalIntensity, Attribute::Dim, Attribute::Dim]);
    assert_eq!(modifier_diff_attributes(0, MOD_ITALIC | MOD_UNDERLINED), vec![Attribute::Italic, Attribute::Underlined]);
    assert_eq!(modifier_diff_attributes(MOD_SLOW_BLINK | MOD_REVERSED, 0), vec![Attribute::NoReverse, Attribute::NoBlink]);
    assert!(modifier_diff_attributes(MOD_BOLD, MOD_BOLD).is_empty());
}

#[test]
fn draw_ops_move_only_where_needed_and_reset_at_the_end() {
    let commands = vec![
        DrawCommand::Put { x: 0, y: 0, cell: cell("a", Color::Reset, 0) },
        DrawCommand::Put { x: 1, y: 0, cell: cell("b", Color::Red, MOD_BOLD) },
        DrawCommand::ClearToEnd { x: 2, y: 0, bg: Color::Reset },
        DrawCommand::Put { x: 0, y: 2, cell: cell("c", Color::Red, 0) },
    ];
    let ops = draw_ops(&commands);
    let shown: Vec<String> = ops.iter().map(|op| format!("{op:?}")).collect();
    assert_eq!(
        shown,
        vec![
            "MoveTo(0, 0)",
            "Print(\"a\")",
            "SetAttribute(Bold)",
            "SetColors(Red, Reset)",
            "Print(\"b\")",
            "SetAttribute(Reset)",
            "SetBackgroundColor(Reset)",
            "ClearUntilNewLine",
            "MoveTo(0, 2)",
            "Print(\"c\")",
            "SetForegroundColor(Reset)",
            "SetBackgroundColor(Reset)",
            "SetAttribute(Reset)",
        ]
    );
}
