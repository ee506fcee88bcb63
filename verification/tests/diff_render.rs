use reflect_tui::diff_line::{line_number_width, push_wrapped_diff_line_inner_with_theme_and_color_level};
use reflect_tui::diff_render::{calculate_add_remove_from_diff, line_counts, render_change, FileChange};
use reflect_tui::diff_summary::{create_diff_summary, render_line_count_summary, ChangeEntry, DiffSummary};
use reflect_tui::diff_theme::{
    diff_color_level_for_terminal, diff_theme_for_bg, fallback_diff_backgrounds, indexed_color,
    resolve_diff_backgrounds_for, rgb_color, style_add, style_del, style_gutter_dim, style_gutter_for,
    style_line_bg_for, style_sign_add, style_sign_del, DiffColorLevel, DiffLineType, DiffRenderStyleContext,
    DiffScopeBackgroundRgbs, DiffTheme, ScopeBackground, StdoutColorLevel, TerminalName,
    DARK_256_ADD_LINE_BG_IDX, DARK_256_DEL_LINE_BG_IDX, DARK_TC_ADD_LINE_BG_RGB, DARK_TC_DEL_LINE_BG_RGB,
    LIGHT_TC_ADD_LINE_BG_RGB, LIGHT_TC_ADD_NUM_BG_RGB, LIGHT_TC_DEL_LINE_BG_RGB, LIGHT_TC_DEL_NUM_BG_RGB,
    LIGHT_TC_GUTTER_FG_RGB,
};
use reflect_tui::paths::{detect_lang_for_path, display_path_for, PathEnv};
use reflect_tui::style::{Color, Style, StyledLine, StyledSpan};
use reflect_tui::width::TAB_WIDTH;
use reflect_tui::wrap::wrap_styled_spans;
use unicode_width::UnicodeWidthChar;

fn line_text(line: &StyledLine) -> String {
    line.spans.iter().map(|s| s.content.as_str()).collect::<String>()
}

fn spans_text(spans: &[StyledSpan]) -> String {
    spans.iter().map(|s| s.content.as_str()).collect::<String>()
}

fn display_width(text: &str) -> usize {
    text.chars().map(|ch| ch.width().unwrap_or(if ch == '\t' { TAB_WIDTH } else { 0 })).sum()
}

fn root_env() -> PathEnv {
    PathEnv { cwd: "/".to_string(), cwd_repo_root: None, home: None }
}

fn ansi16_dark() -> DiffRenderStyleContext {
    DiffRenderStyleContext {
        theme: DiffTheme::Dark,
        color_level: DiffColorLevel::Ansi16,
        diff_backgrounds: fallback_diff_backgrounds(DiffTheme::Dark, DiffColorLevel::Ansi16),
    }
}

fn entry(path: &str, change: FileChange) -> ChangeEntry {
    ChangeEntry { path: path.to_string(), change, path_repo_root: None, move_repo_root: None }
}

fn diff_gallery_changes() -> Vec<ChangeEntry> {
    let rust_original = "fn greet(name: &str) {\n    println!(\"hello\");\n    println!(\"bye\");\n}\n";
    let rust_modified =
        "fn greet(name: &str) {\n    println!(\"hello {name}\");\n    println!(\"emoji: 🚀✨ and CJK: 你好世界\");\n}\n";
    let rust_patch = diffy::create_patch(rust_original, rust_modified).to_string();
    let py_original = "def add(a, b):\n\treturn a + b\n\nprint(add(1, 2))\n";
    let py_modified = "def add(a, b):\n\treturn a + b + 42\n\nprint(add(1, 2))\n";
    let py_patch = diffy::create_patch(py_original, py_modified).to_string();
    vec![
        entry("src/lib.rs", FileChange::Update { unified_diff: rust_patch, move_path: None }),
        entry(
            "scripts/calc.txt",
            FileChange::Update { unified_diff: py_patch, move_path: Some("scripts/calc.py".to_string()) },
        ),
        entry("assets/banner.txt", FileChange::Add { content: "HEADER\tVALUE\nrocket\t🚀\ncity\t東京\n".to_string() }),
        entry(
            "examples/new_sample.rs",
            FileChange::Add { content: "pub fn greet(name: &str) {\n    println!(\"Hello, {name}!\");\n}\n".to_string() },
        ),
        entry("tmp/obsolete.log", FileChange::Delete { content: "old line 1\nold line 2\nold line 3\n".to_string() }),
        entry(
            "legacy/old_script.py",
            FileChange::Delete { content: "def legacy(x):\n    return x + 1\nprint(legacy(3))\n".to_string() },
        ),
    ]
}

fn check_diff_gallery(width: usize) {
    let rows = create_diff_summary(diff_gallery_changes(), &root_env(), width, ansi16_dark());
    let texts: Vec<String> = rows.iter().map(line_text).collect();
    assert_eq!(texts[0], "• Edited 6 files (+9 -9)");
    let headers: Vec<&String> = texts.iter().filter(|t| t.starts_with("  └ ")).collect();
    assert_eq!(
        headers,
        vec![
            "  └ assets/banner.txt (+3 -0)",
            "  └ examples/new_sample.rs (+3 -0)",
            "  └ legacy/old_script.py (+0 -3)",
            "  └ scripts/calc.txt → scripts/calc.py (+1 -1)",
            "  └ src/lib.rs (+2 -2)",
            "  └ tmp/obsolete.log (+0 -3)",
        ]
    );
    for t in &texts {
        assert!(display_width(t) <= width, "row wider than {width}: {t:?}");
    }
    assert!(texts.iter().any(|t| t.contains("def legacy(x):")));
    assert!(texts.iter().any(|t| t.contains("return x + 1")));
}

#[test]
fn ui_snapshot_diff_gallery_80x24() {
    check_diff_gallery(80);
}

#[test]
fn ui_snapshot_diff_gallery_94x35() {
    check_diff_gallery(94);
}

#[test]
fn ui_snapshot_diff_gallery_120x40() {
    check_diff_gallery(120);
}

#[test]
fn ui_snapshot_ansi16_insert_delete_no_background() {
    let mut lines = push_wrapped_diff_line_inner_with_theme_and_color_level(
        1,
        DiffLineType::Insert,
        "added in ansi16 mode",
        80,
        line_number_width(2),
        None,
        DiffTheme::Dark,
        DiffColorLevel::Ansi16,
        fallback_diff_backgrounds(DiffTheme::Dark, DiffColorLevel::Ansi16),
    );
    lines.extend(push_wrapped_diff_line_inner_with_theme_and_color_level(
        2,
        DiffLineType::Delete,
        "deleted in ansi16 mode",
        80,
        line_number_width(2),
        None,
        DiffTheme::Dark,
        DiffColorLevel::Ansi16,
        fallback_diff_backgrounds(DiffTheme::Dark, DiffColorLevel::Ansi16),
    ));
    assert_eq!(lines.len(), 2);
    assert_eq!(line_text(&lines[0]), "1 +added in ansi16 mode");
    assert_eq!(line_text(&lines[1]), "2 -deleted in ansi16 mode");
    for line in &lines {
        assert_eq!(line.style.bg, None);
        for span in &line.spans {
            assert_eq!(span.style.bg, None);
        }
    }
}

#[test]
fn ansi16_add_style_uses_foreground_only() {
    let style = style_add(
        DiffTheme::Dark,
        DiffColorLevel::Ansi16,
        fallback_diff_backgrounds(DiffTheme::Dark, DiffColorLevel::Ansi16),
    );
    assert_eq!(style.fg, Some(Color::Green));
    assert_eq!(style.bg, None);
}

#[test]
fn ansi16_del_style_uses_foreground_only() {
    let style = style_del(
        DiffTheme::Dark,
        DiffColorLevel::Ansi16,
        fallback_diff_backgrounds(DiffTheme::Dark, DiffColorLevel::Ansi16),
    );
    assert_eq!(style.fg, Some(Color::Red));
    assert_eq!(style.bg, None);
}

#[test]
fn ansi16_sign_styles_use_foreground_only() {
    let add_sign = style_sign_add(
        DiffTheme::Dark,
        DiffColorLevel::Ansi16,
        fallback_diff_backgrounds(DiffTheme::Dark, DiffColorLevel::Ansi16),
    );
    assert_eq!(add_sign.fg, Some(Color::Green));
    assert_eq!(add_sign.bg, None);
    let del_sign = style_sign_del(
        DiffTheme::Dark,
        DiffColorLevel::Ansi16,
        fallback_diff_backgrounds(DiffTheme::Dark, DiffColorLevel::Ansi16),
    );
    assert_eq!(del_sign.fg, Some(Color::Red));
    assert_eq!(del_sign.bg, None);
}

#[test]
fn display_path_prefers_cwd_without_git_repo() {
    let env = PathEnv { cwd: "/workspace/reflect".to_string(), cwd_repo_root: None, home: None };
    let rendered = display_path_for("/workspace/reflect/tui/example.png", &None, &env);
    assert_eq!(rendered, "tui/example.png");
}

#[test]
fn truecolor_dark_theme_uses_configured_backgrounds() {
    assert_eq!(
        style_line_bg_for(DiffLineType::Insert, fallback_diff_backgrounds(DiffTheme::Dark, DiffColorLevel::TrueColor)),
        Style::new().with_bg(rgb_color(DARK_TC_ADD_LINE_BG_RGB))
    );
    assert_eq!(
        style_line_bg_for(DiffLineType::Delete, fallback_diff_backgrounds(DiffTheme::Dark, DiffColorLevel::TrueColor)),
        Style::new().with_bg(rgb_color(DARK_TC_DEL_LINE_BG_RGB))
    );
    assert_eq!(style_gutter_for(DiffLineType::Insert, DiffTheme::Dark, DiffColorLevel::TrueColor), style_gutter_dim());
    assert_eq!(style_gutter_for(DiffLineType::Delete, DiffTheme::Dark, DiffColorLevel::TrueColor), style_gutter_dim());
}

#[test]
fn ansi256_dark_theme_uses_distinct_add_and_delete_backgrounds() {
    let bgs = fallback_diff_backgrounds(DiffTheme::Dark, DiffColorLevel::Ansi256);
    assert_eq!(
        style_line_bg_for(DiffLineType::Insert, bgs),
        Style::new().with_bg(indexed_color(DARK_256_ADD_LINE_BG_IDX))
    );
    assert_eq!(
        style_line_bg_for(DiffLineType::Delete, bgs),
        Style::new().with_bg(indexed_color(DARK_256_DEL_LINE_BG_IDX))
    );
    assert_ne!(
        style_line_bg_for(DiffLineType::Insert, bgs),
        style_line_bg_for(DiffLineType::Delete, bgs),
        "256-color mode should keep add/delete backgrounds distinct"
    );
}

#[test]
fn theme_scope_backgrounds_override_truecolor_fallback_when_available() {
    let backgrounds = resolve_diff_backgrounds_for(
        DiffTheme::Dark,
        DiffColorLevel::TrueColor,
        DiffScopeBackgroundRgbs {
            inserted: Some(ScopeBackground { rgb: (1, 2, 3), ansi256: 16 }),
            deleted: Some(ScopeBackground { rgb: (4, 5, 6), ansi256: 16 }),
        },
    );
    assert_eq!(style_line_bg_for(DiffLineType::Insert, backgrounds), Style::new().with_bg(rgb_color((1, 2, 3))));
    assert_eq!(style_line_bg_for(DiffLineType::Delete, backgrounds), Style::new().with_bg(rgb_color((4, 5, 6))));
}

#[test]
fn theme_scope_backgrounds_quantize_to_ansi256() {
    // The palette entry nearest to (0, 95, 0) is 22.
    let backgrounds = resolve_diff_backgrounds_for(
        DiffTheme::Dark,
        DiffColorLevel::Ansi256,
        DiffScopeBackgroundRgbs { inserted: Some(ScopeBackground { rgb: (0, 95, 0), ansi256: 22 }), deleted: None },
    );
    assert_eq!(style_line_bg_for(DiffLineType::Insert, backgrounds), Style::new().with_bg(indexed_color(22)));
    assert_eq!(
        style_line_bg_for(DiffLineType::Delete, backgrounds),
        Style::new().with_bg(indexed_color(DARK_256_DEL_LINE_BG_IDX))
    );
}

#[test]
fn ui_snapshot_theme_scope_background_resolution() {
    let backgrounds = resolve_diff_backgrounds_for(
        DiffTheme::Dark,
        DiffColorLevel::TrueColor,
        DiffScopeBackgroundRgbs { inserted: Some(ScopeBackground { rgb: (12, 34, 56), ansi256: 17 }), deleted: None },
    );
    assert_eq!(style_line_bg_for(DiffLineType::Insert, backgrounds).bg, Some(Color::Rgb(12, 34, 56)));
    assert_eq!(style_line_bg_for(DiffLineType::Delete, backgrounds).bg, Some(rgb_color(DARK_TC_DEL_LINE_BG_RGB)));
}

#[test]
fn ansi16_disables_line_and_gutter_backgrounds() {
    assert_eq!(
        style_line_bg_for(DiffLineType::Insert, fallback_diff_backgrounds(DiffTheme::Dark, DiffColorLevel::Ansi16)),
        Style::new()
    );
    assert_eq!(
        style_line_bg_for(DiffLineType::Delete, fallback_diff_backgrounds(DiffTheme::Light, DiffColorLevel::Ansi16)),
        Style::new()
    );
    assert_eq!(
        style_gutter_for(DiffLineType::Insert, DiffTheme::Light, DiffColorLevel::Ansi16),
        Style::new().with_fg(Color::Black)
    );
    assert_eq!(
        style_gutter_for(DiffLineType::Delete, DiffTheme::Light, DiffColorLevel::Ansi16),
        Style::new().with_fg(Color::Black)
    );
    let themed_backgrounds = resolve_diff_backgrounds_for(
        DiffTheme::Light,
        DiffColorLevel::Ansi16,
        DiffScopeBackgroundRgbs {
            inserted: Some(ScopeBackground { rgb: (8, 9, 10), ansi256: 16 }),
            deleted: Some(ScopeBackground { rgb: (11, 12, 13), ansi256: 16 }),
        },
    );
    assert_eq!(style_line_bg_for(DiffLineType::Insert, themed_backgrounds), Style::new());
    assert_eq!(style_line_bg_for(DiffLineType::Delete, themed_backgrounds), Style::new());
}

#[test]
fn light_truecolor_theme_uses_readable_gutter_and_line_backgrounds() {
    assert_eq!(
        style_line_bg_for(DiffLineType::Insert, fallback_diff_backgrounds(DiffTheme::Light, DiffColorLevel::TrueColor)),
        Style::new().with_bg(rgb_color(LIGHT_TC_ADD_LINE_BG_RGB))
    );
    assert_eq!(
        style_line_bg_for(DiffLineType::Delete, fallback_diff_backgrounds(DiffTheme::Light, DiffColorLevel::TrueColor)),
        Style::new().with_bg(rgb_color(LIGHT_TC_DEL_LINE_BG_RGB))
    );
    assert_eq!(
        style_gutter_for(DiffLineType::Insert, DiffTheme::Light, DiffColorLevel::TrueColor),
        Style::new().with_fg(rgb_color(LIGHT_TC_GUTTER_FG_RGB)).with_bg(rgb_color(LIGHT_TC_ADD_NUM_BG_RGB))
    );
    assert_eq!(
        style_gutter_for(DiffLineType::Delete, DiffTheme::Light, DiffColorLevel::TrueColor),
        Style::new().with_fg(rgb_color(LIGHT_TC_GUTTER_FG_RGB)).with_bg(rgb_color(LIGHT_TC_DEL_NUM_BG_RGB))
    );
}

#[test]
fn light_theme_wrapped_lines_keep_number_gutter_contrast() {
    let lines = push_wrapped_diff_line_inner_with_theme_and_color_level(
        12,
        DiffLineType::Insert,
        "abcdefghij",
        8,
        line_number_width(12),
        None,
        DiffTheme::Light,
        DiffColorLevel::TrueColor,
        fallback_diff_backgrounds(DiffTheme::Light, DiffColorLevel::TrueColor),
    );
    assert!(lines.len() > 1, "expected wrapped output for gutter style verification");
    let gutter = Style::new().with_fg(rgb_color(LIGHT_TC_GUTTER_FG_RGB)).with_bg(rgb_color(LIGHT_TC_ADD_NUM_BG_RGB));
    assert_eq!(lines[0].spans[0].style, gutter);
    assert_eq!(lines[1].spans[0].style, gutter);
    assert_eq!(lines[0].style.bg, Some(rgb_color(LIGHT_TC_ADD_LINE_BG_RGB)));
    assert_eq!(lines[1].style.bg, Some(rgb_color(LIGHT_TC_ADD_LINE_BG_RGB)));
}

#[test]
fn windows_terminal_promotes_ansi16_to_truecolor_for_diffs() {
    assert_eq!(
        diff_color_level_for_terminal(StdoutColorLevel::Ansi16, TerminalName::WindowsTerminal, false, false),
        DiffColorLevel::TrueColor
    );
}

#[test]
fn wt_session_promotes_ansi16_to_truecolor_for_diffs() {
    assert_eq!(
        diff_color_level_for_terminal(StdoutColorLevel::Ansi16, TerminalName::Unknown, true, false),
        DiffColorLevel::TrueColor
    );
}

#[test]
fn non_windows_terminal_keeps_ansi16_diff_palette() {
    assert_eq!(
        diff_color_level_for_terminal(StdoutColorLevel::Ansi16, TerminalName::WezTerm, false, false),
        DiffColorLevel::Ansi16
    );
}

#[test]
fn wt_session_promotes_unknown_color_level_to_truecolor() {
    assert_eq!(
        diff_color_level_for_terminal(StdoutColorLevel::Unknown, TerminalName::WindowsTerminal, true, false),
        DiffColorLevel::TrueColor
    );
}

#[test]
fn non_wt_windows_terminal_keeps_unknown_color_level_conservative() {
    assert_eq!(
        diff_color_level_for_terminal(StdoutColorLevel::Unknown, TerminalName::WindowsTerminal, false, false),
        DiffColorLevel::Ansi16
    );
}

#[test]
fn explicit_force_override_keeps_ansi16_on_windows_terminal() {
    assert_eq!(
        diff_color_level_for_terminal(StdoutColorLevel::Ansi16, TerminalName::WindowsTerminal, false, true),
        DiffColorLevel::Ansi16
    );
}

#[test]
fn explicit_force_override_keeps_ansi256_on_windows_terminal() {
    assert_eq!(
        diff_color_level_for_terminal(StdoutColorLevel::Ansi256, TerminalName::WindowsTerminal, true, true),
        DiffColorLevel::Ansi256
    );
}

#[test]
fn detect_lang_for_common_paths() {
    assert!(detect_lang_for_path("foo.rs").is_some());
    assert!(detect_lang_for_path("bar.py").is_some());
    assert!(detect_lang_for_path("app.tsx").is_some());
    assert!(detect_lang_for_path("Makefile").is_none());
    assert!(detect_lang_for_path("randomfile").is_none());
}

#[test]
fn wrap_styled_spans_single_line() {
    let spans = vec![StyledSpan::raw("short")];
    let result = wrap_styled_spans(&spans, 80);
    assert_eq!(result.len(), 1);
}

#[test]
fn wrap_styled_spans_splits_long_content() {
    let long_text = "a".repeat(100);
    let spans = vec![StyledSpan::raw(&long_text)];
    let result = wrap_styled_spans(&spans, 40);
    assert!(result.len() >= 3, "100 chars at 40 cols should produce at least 3 lines, got {}", result.len());
}

#[test]
fn wrap_styled_spans_flushes_at_span_boundary() {
    let style_a = Style::new().with_fg(Color::Red);
    let style_b = Style::new().with_fg(Color::Blue);
    let spans = vec![StyledSpan::styled("aaaa", style_a), StyledSpan::styled("bb", style_b)];
    let result = wrap_styled_spans(&spans, 4);
    assert_eq!(result.len(), 2, "span ending exactly at max_cols should flush before next span: {result:?}");
    let first_width: usize = result[0].iter().map(|s| s.content.chars().count()).sum();
    assert!(first_width <= 4, "first line should be at most 4 cols wide, got {first_width}");
}

#[test]
fn wrap_styled_spans_preserves_styles() {
    let style = Style::new().with_fg(Color::Green);
    let text = "x".repeat(50);
    let spans = vec![StyledSpan::styled(&text, style)];
    let result = wrap_styled_spans(&spans, 20);
    for chunk in &result {
        for span in chunk {
            assert_eq!(span.style, style, "style should be preserved across wraps");
        }
    }
}

#[test]
fn wrap_styled_spans_tabs_have_visible_width() {
    let style = Style::new().with_fg(Color::Green);
    let spans = vec![StyledSpan::styled("\tabcde", style)];
    let result = wrap_styled_spans(&spans, 8);
    assert_eq!(result.len(), 2);
    assert_eq!(result[0].len(), 1);
    assert_eq!(result[0][0].content, "    abcd");
    assert_eq!(result[0][0].style, style);
    assert_eq!(result[1].len(), 1);
    assert_eq!(result[1][0].content, "e");
    assert_eq!(result[1][0].style, style);
}

#[test]
fn wrap_styled_spans_wraps_before_first_overflowing_char() {
    let spans = vec![StyledSpan::raw("abcd\t界")];
    let result = wrap_styled_spans(&spans, 5);
    let texts: Vec<String> = result.iter().map(|line| spans_text(line)).collect();
    assert_eq!(texts, vec!["abcd", "    ", "界"]);
    for line in &result {
        assert!(display_width(&spans_text(line)) <= 5, "wrapped line exceeded width 5: {line:?}");
    }
}

#[test]
fn line_number_width_counts_digits() {
    assert_eq!(line_number_width(0), 1);
    assert_eq!(line_number_width(9), 1);
    assert_eq!(line_number_width(10), 2);
    assert_eq!(line_number_width(999), 3);
    assert_eq!(line_number_width(1000), 4);
}

#[test]
fn add_remove_counts_come_from_the_patch() {
    let patch = diffy::create_patch("a\nb\nc\n", "a\nB\nc\nd\n").to_string();
    assert_eq!(calculate_add_remove_from_diff(&patch), (2, 1));
    assert_eq!(calculate_add_remove_from_diff("not a patch"), (0, 0));
    let huge = "--- a/f\n+++ b/f\n@@ -18446744073709551615,1 +1,1 @@\n-a\n+b\n@@ -3,1 +3,1 @@\n-c\n+d\n";
    assert_eq!(calculate_add_remove_from_diff(huge), (0, 0));
    assert_eq!(line_counts(&FileChange::Add { content: "x\ny\n".to_string() }), (2, 0));
    assert_eq!(line_counts(&FileChange::Delete { content: "x\n".to_string() }), (0, 1));
}

#[test]
fn render_change_numbers_added_lines() {
    let mut out = Vec::new();
    render_change(&FileChange::Add { content: "one\ntwo\n".to_string() }, &mut out, 80, ansi16_dark());
    let texts: Vec<String> = out.iter().map(line_text).collect();
    assert_eq!(texts, vec!["1 +one", "2 +two"]);
}

#[test]
fn line_count_summary_is_colored() {
    let spans = render_line_count_summary(3, 1);
    assert_eq!(spans_text(&spans), "(+3 -1)");
    assert_eq!(spans[1].style.fg, Some(Color::Green));
    assert_eq!(spans[3].style.fg, Some(Color::Red));
}

#[test]
fn single_file_summary_names_the_file() {
    let rows = create_diff_summary(
        vec![entry("README.md", FileChange::Add { content: "hi\n".to_string() })],
        &root_env(),
        80,
        ansi16_dark(),
    );
    assert_eq!(line_text(&rows[0]), "• Added README.md (+1 -0)");
    assert_eq!(line_text(&rows[1]), "    1 +hi");
}

#[test]
fn diff_summary_lists_files_in_path_order() {
    let summary = DiffSummary::new(
        vec![
            entry("b.txt", FileChange::Add { content: "b\n".to_string() }),
            entry("a.txt", FileChange::Delete { content: "a\n".to_string() }),
        ],
        root_env(),
    );
    let rows = summary.render_rows(40, ansi16_dark());
    let texts: Vec<String> = rows.iter().map(line_text).collect();
    assert_eq!(texts, vec!["a.txt (+0 -1)", "", "  1 -a", "", "b.txt (+1 -0)", "", "  1 +b"]);
}

#[test]
fn diff_theme_follows_background() {
    assert_eq!(diff_theme_for_bg(Some(true)), DiffTheme::Light);
    assert_eq!(diff_theme_for_bg(Some(false)), DiffTheme::Dark);
    assert_eq!(diff_theme_for_bg(None), DiffTheme::Dark);
}

fn summary_texts(changes: Vec<ChangeEntry>, width: usize) -> Vec<String> {
    create_diff_summary(changes, &root_env(), width, ansi16_dark())
        .iter()
        .map(|l| line_text(l).trim_end().to_string())
        .collect()
}

fn update(path: &str, original: &str, modified: &str, move_path: Option<&str>) -> ChangeEntry {
    entry(
        path,
        FileChange::Update {
            unified_diff: diffy::create_patch(original, modified).to_string(),
            move_path: move_path.map(|p| p.to_string()),
        },
    )
}

/// The content of wrapped diff rows after the gutter and sign columns.
fn wrapped_content(texts: &[String], gutter_cols: usize) -> String {
    texts.iter().map(|t| t.chars().skip(gutter_cols).collect::<String>()).collect()
}

#[test]
fn ui_snapshot_wrap_behavior_insert() {
    let long_line = "this is a very long line that should wrap across multiple terminal columns and continue";
    let lines = push_wrapped_diff_line_inner_with_theme_and_color_level(
        1,
        DiffLineType::Insert,
        long_line,
        80,
        line_number_width(1),
        None,
        DiffTheme::Dark,
        DiffColorLevel::Ansi16,
        fallback_diff_backgrounds(DiffTheme::Dark, DiffColorLevel::Ansi16),
    );
    let texts: Vec<String> = lines.iter().map(line_text).collect();
    assert_eq!(texts.len(), 2);
    assert!(texts[0].starts_with("1 +this is a very long line"));
    assert!(texts[1].starts_with("   "));
    for t in &texts {
        assert!(display_width(t) <= 80, "row wider than 80: {t:?}");
    }
    assert_eq!(wrapped_content(&texts, 3), long_line);
}

#[test]
fn ui_snapshot_apply_update_block() {
    let texts = summary_texts(
        vec![update("example.txt", "line one\nline two\nline three\n", "line one\nline two changed\nline three\n", None)],
        80,
    );
    assert_eq!(
        texts,
        vec![
            "• Edited example.txt (+1 -1)",
            "    1  line one",
            "    2 -line two",
            "    2 +line two changed",
            "    3  line three",
        ]
    );
}

#[test]
fn ui_snapshot_apply_update_with_rename_block() {
    let texts = summary_texts(vec![update("old_name.rs", "A\nB\nC\n", "A\nB changed\nC\n", Some("new_name.rs"))], 80);
    assert_eq!(
        texts,
        vec!["• Edited old_name.rs → new_name.rs (+1 -1)", "    1  A", "    2 -B", "    2 +B changed", "    3  C"]
    );
}

#[test]
fn ui_snapshot_apply_multiple_files_block() {
    let texts = summary_texts(
        vec![
            update("a.txt", "one\n", "one changed\n", None),
            entry("b.txt", FileChange::Add { content: "new\n".to_string() }),
        ],
        80,
    );
    assert_eq!(
        texts,
        vec![
            "• Edited 2 files (+2 -1)",
            "  └ a.txt (+1 -1)",
            "    1 -one",
            "    1 +one changed",
            "",
            "  └ b.txt (+1 -0)",
            "    1 +new",
        ]
    );
}

#[test]
fn ui_snapshot_apply_add_block() {
    let texts = summary_texts(vec![entry("new_file.txt", FileChange::Add { content: "alpha\nbeta\n".to_string() })], 80);
    assert_eq!(texts, vec!["• Added new_file.txt (+2 -0)", "    1 +alpha", "    2 +beta"]);
}

#[test]
fn ui_snapshot_apply_delete_block() {
    let texts = summary_texts(
        vec![entry("tmp_delete_example.txt", FileChange::Delete { content: "first\nsecond\nthird\n".to_string() })],
        80,
    );
    assert_eq!(
        texts,
        vec!["• Deleted tmp_delete_example.txt (+0 -3)", "    1 -first", "    2 -second", "    3 -third"]
    );
}

#[test]
fn ui_snapshot_apply_update_block_wraps_long_lines() {
    let long = "short this_is_a_very_long_modified_line_that_should_wrap_across_multiple_terminal_columns_and_continue_even_further_beyond_eighty_columns_to_force_multiple_wraps";
    let modified = format!("line 1\n{long}\nline 3\n");
    let texts = summary_texts(vec![update("long_example.txt", "line 1\nshort\nline 3\n", &modified, None)], 72);
    assert_eq!(texts[0], "• Edited long_example.txt (+1 -1)");
    assert_eq!(texts[1], "    1  line 1");
    assert_eq!(texts[2], "    2 -short");
    let insert_rows: Vec<String> = texts[3..texts.len() - 1].to_vec();
    assert!(insert_rows.len() >= 3, "expected the long line to wrap: {insert_rows:?}");
    assert!(insert_rows[0].starts_with("    2 +short"));
    assert_eq!(wrapped_content(&insert_rows, 7), long);
    assert_eq!(texts[texts.len() - 1], "    3  line 3");
    for t in &texts {
        assert!(display_width(t) <= 72, "row wider than 72: {t:?}");
    }
}

#[test]
fn ui_snapshot_apply_update_block_wraps_long_lines_text() {
    let modified = "1\nadded long line which wraps and_if_there_is_a_long_token_it_will_be_broken\n3\n4 context line which also wraps across\n";
    let texts = summary_texts(vec![update("wrap_demo.txt", "1\n2\n3\n4\n", modified, None)], 28);
    assert_eq!(texts[0], "• Edited wrap_demo.txt (+2 -2)");
    for t in &texts[1..] {
        assert!(display_width(t) <= 28, "row wider than 28: {t:?}");
        assert!(t.starts_with("    "));
    }
    // Only the first row of a wrapped line carries the sign.
    let signed: Vec<&String> = texts.iter().filter(|t| t.starts_with("    2 +") || t.starts_with("    4 +")).collect();
    assert_eq!(signed.len(), 2);
    assert!(texts.iter().any(|t| t == "    2 -2"));
    assert!(texts.iter().any(|t| t == "    4 -4"));
}

#[test]
fn ui_snapshot_apply_update_block_line_numbers_three_digits_text() {
    let original: String = (1..=110).map(|i| format!("line {i}\n")).collect();
    let modified: String =
        (1..=110).map(|i| if i == 100 { format!("line {i} changed\n") } else { format!("line {i}\n") }).collect();
    let texts = summary_texts(vec![update("hundreds.txt", &original, &modified, None)], 80);
    assert_eq!(
        texts,
        vec![
            "• Edited hundreds.txt (+1 -1)",
            "     97  line 97",
            "     98  line 98",
            "     99  line 99",
            "    100 -line 100",
            "    100 +line 100 changed",
            "    101  line 101",
            "    102  line 102",
            "    103  line 103",
        ]
    );
}

#[test]
fn fallback_wrapping_uses_display_width_for_tabs_and_wide_chars() {
    let width = 8;
    let lines = push_wrapped_diff_line_inner_with_theme_and_color_level(
        1,
        DiffLineType::Insert,
        "abcd\t界🙂",
        width,
        line_number_width(1),
        None,
        DiffTheme::Dark,
        DiffColorLevel::TrueColor,
        fallback_diff_backgrounds(DiffTheme::Dark, DiffColorLevel::TrueColor),
    );
    assert!(lines.len() >= 2, "expected wrapped output, got {lines:?}");
    for line in &lines {
        assert!(display_width(&line_text(line)) <= width, "fallback wrapped line exceeded width {width}: {line:?}");
    }
}
