use reflect_tui::exec_output::{
    limit_lines_from_start, output_ellipsis_text, output_line_window, output_lines, summarize_interaction_input,
    truncate_lines_middle, MiddleCut, OutputLinesParams, TOOL_CALL_MAX_LINES, USER_SHELL_TOOL_CALL_MAX_LINES,
};
use reflect_tui::live_output::LiveCommandOutput;
use reflect_tui::style::StyledLine;
use reflect_tui::width::display_width;

fn rows_at(lines: &[String], width: usize) -> Vec<usize> {
    lines.iter().map(|l| ((display_width(l) + width - 1) / width).max(1)).collect()
}

#[test]
fn truncate_lines_middle_keeps_omitted_count_in_line_units() {
    let lines = vec![
        "  └ short".to_string(),
        "    this-is-a-very-long-token-that-wraps-many-rows".to_string(),
        format!("    {}", output_ellipsis_text(4)),
        "    tail".to_string(),
    ];
    let rows = rows_at(&lines, 80);
    let estimated = 4 + (lines.len() - 1);
    let ellipsis = format!("    {}", output_ellipsis_text(estimated));
    let ellipsis_rows = rows_at(&[ellipsis], 80)[0];
    let cut = truncate_lines_middle(&rows, 2, ellipsis_rows, Some(4));
    let MiddleCut::Split { head_end, tail_start, omitted } = cut else {
        panic!("expected a split, got {cut:?}");
    };
    let mut rendered: Vec<String> = lines[..head_end].to_vec();
    rendered.push(format!("    {}", output_ellipsis_text(omitted)));
    rendered.extend(lines[tail_start..].iter().cloned());
    assert!(
        rendered.iter().any(|line| line.contains("… +6 lines (ctrl + t to view transcript)")),
        "expected omitted hint to count hidden lines (not wrapped rows), got: {rendered:?}"
    );
}

#[test]
fn truncate_lines_middle_does_not_truncate_blank_prefixed_output_lines() {
    let mut lines = vec!["  └ start".to_string()];
    lines.extend(std::iter::repeat_n("    ".to_string(), 26));
    lines.push("    end".to_string());
    let rows = rows_at(&lines, 80);
    assert_eq!(truncate_lines_middle(&rows, 28, 1, None), MiddleCut::KeepAll);
}

#[test]
fn output_lines_handles_newline_dense_output_without_materializing_every_line() {
    let (head, tail, omitted) = output_line_window(100_000, 100_000, 5);
    assert_eq!(head + tail + usize::from(omitted > 0), 11);
    assert_eq!(omitted, 99_990);
    let mut live = LiveCommandOutput::new();
    live.push_str(&"\n".repeat(100_000));
    let rendered = output_lines(Some((0, styled(live.lines()), live.total_lines())), plain_params(5));
    assert_eq!(rendered.lines.len(), 11);
    assert_eq!(rendered.omitted, Some(99_990));
}

#[test]
fn short_output_is_shown_whole() {
    assert_eq!(output_line_window(3, 3, 5), (3, 0, 0));
    assert_eq!(output_line_window(7, 7, 2), (2, 2, 3));
}

#[test]
fn only_the_ellipsis_fits_in_one_row() {
    assert_eq!(truncate_lines_middle(&[1, 1, 1], 1, 1, None), MiddleCut::OnlyEllipsis(3));
    assert_eq!(truncate_lines_middle(&[1, 1, 1], 0, 1, None), MiddleCut::Nothing);
}

#[test]
fn interaction_input_preview_is_escaped_and_cut() {
    assert_eq!(summarize_interaction_input("ls\n`x`"), "ls\\n\\`x\\`");
    let long = "a".repeat(90);
    assert_eq!(summarize_interaction_input(&long), format!("{}...", "a".repeat(80)));
    assert_eq!(output_ellipsis_text(6), "… +6 lines (ctrl + t to view transcript)");
}

fn line_text(line: &StyledLine) -> String {
    line.spans.iter().map(|s| s.content.as_str()).collect()
}

#[test]
fn command_truncation_ellipsis_does_not_include_transcript_hint() {
    let truncated = limit_lines_from_start(
        vec![StyledLine::from_text("first"), StyledLine::from_text("second"), StyledLine::from_text("third")],
        2,
    );
    let rendered: Vec<String> = truncated.iter().map(line_text).collect();
    assert_eq!(rendered, vec!["first".to_string(), "second".to_string(), "… +1 lines".to_string()]);
    assert!(truncated[2].spans[0].style.dim);
}

#[test]
fn limit_lines_from_start_keeps_short_output_and_zero_keep() {
    let kept = limit_lines_from_start(vec![StyledLine::from_text("only")], 3);
    assert_eq!(kept.iter().map(line_text).collect::<Vec<_>>(), vec!["only".to_string()]);
    let none = limit_lines_from_start(vec![StyledLine::from_text("a"), StyledLine::from_text("b")], 0);
    assert_eq!(none.iter().map(line_text).collect::<Vec<_>>(), vec!["… +2 lines".to_string()]);
}

fn styled(lines: Vec<String>) -> Vec<StyledLine> {
    lines.iter().map(|l| StyledLine::from_text(l)).collect()
}

fn plain_params(line_limit: usize) -> OutputLinesParams {
    OutputLinesParams { line_limit, only_err: false, include_angle_pipe: false, include_prefix: false }
}

#[test]
fn output_lines_ellipsis_includes_transcript_hint() {
    let lines: Vec<String> = (1..=7).map(|n| n.to_string()).collect();
    let rendered: Vec<String> =
        output_lines(Some((0, styled(lines), 7)), plain_params(2)).lines.iter().map(line_text).collect();
    assert_eq!(rendered, vec!["1", "2", "… +3 lines (ctrl + t to view transcript)", "6", "7"]);
}

#[test]
fn streamed_output_renders_head_tail_previews() {
    let mut live = LiveCommandOutput::new();
    for line in 1..=160 {
        live.push_str(&format!("line {line}\n"));
    }
    let agent = output_lines(Some((0, styled(live.lines()), live.total_lines())), plain_params(TOOL_CALL_MAX_LINES));
    assert_eq!(agent.lines.len(), 11);
    assert_eq!(agent.omitted, Some(150));
    assert_eq!(line_text(&agent.lines[0]), "line 1");
    assert_eq!(line_text(&agent.lines[10]), "line 160");
    let user_shell = output_lines(
        Some((0, styled(live.lines()), live.total_lines())),
        plain_params(USER_SHELL_TOOL_CALL_MAX_LINES),
    );
    assert_eq!(user_shell.lines.len(), 101);
    assert_eq!(user_shell.omitted, Some(60));
    assert_eq!(line_text(&user_shell.lines[0]), "line 1");
    assert_eq!(line_text(&user_shell.lines[100]), "line 160");
}

#[test]
fn output_lines_prefixes_and_dims_the_output() {
    let lines: Vec<String> = (1..=3).map(|n| format!("out {n}")).collect();
    let params = OutputLinesParams { line_limit: 1, only_err: false, include_angle_pipe: true, include_prefix: true };
    let rendered = output_lines(Some((1, styled(lines), 3)), params);
    let texts: Vec<String> = rendered.lines.iter().map(line_text).collect();
    assert_eq!(texts, vec!["  └ out 1", "… +1 lines (ctrl + t to view transcript)", "    out 3"]);
    for line in &rendered.lines {
        assert!(line.spans.iter().all(|s| s.style.dim));
    }
    let ok = output_lines(Some((0, styled(vec!["x".to_string()]), 1)), OutputLinesParams { only_err: true, ..params });
    assert!(ok.lines.is_empty());
    assert!(ok.omitted.is_none());
    assert!(output_lines(None, params).lines.is_empty());
}
