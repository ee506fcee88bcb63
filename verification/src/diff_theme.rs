//! Palettes and styles of rendered diffs: which colors a diff line gets for a
//! terminal's background brightness and color depth.

use vstd::prelude::*;
use crate::style::{Color, Style};

verus! {

/// Background of an added line on a dark truecolor terminal (#213A2B).
pub const DARK_TC_ADD_LINE_BG_RGB: (u8, u8, u8) = (33, 58, 43);
/// Background of a deleted line on a dark truecolor terminal (#4A221D).
pub const DARK_TC_DEL_LINE_BG_RGB: (u8, u8, u8) = (74, 34, 29);
/// Background of an added line on a light truecolor terminal (#dafbe1).
pub const LIGHT_TC_ADD_LINE_BG_RGB: (u8, u8, u8) = (218, 251, 225);
/// Background of a deleted line on a light truecolor terminal (#ffebe9).
pub const LIGHT_TC_DEL_LINE_BG_RGB: (u8, u8, u8) = (255, 235, 233);
/// Gutter background of an added line on a light truecolor terminal (#aceebb).
pub const LIGHT_TC_ADD_NUM_BG_RGB: (u8, u8, u8) = (172, 238, 187);
/// Gutter background of a deleted line on a light truecolor terminal (#ffcecb).
pub const LIGHT_TC_DEL_NUM_BG_RGB: (u8, u8, u8) = (255, 206, 203);
/// Gutter text on a light truecolor terminal (#1f2328).
pub const LIGHT_TC_GUTTER_FG_RGB: (u8, u8, u8) = (31, 35, 40);

/// 256-color palette entries of the same roles.
pub const DARK_256_ADD_LINE_BG_IDX: u8 = 22;
pub const DARK_256_DEL_LINE_BG_IDX: u8 = 52;
pub const LIGHT_256_ADD_LINE_BG_IDX: u8 = 194;
pub const LIGHT_256_DEL_LINE_BG_IDX: u8 = 224;
pub const LIGHT_256_ADD_NUM_BG_IDX: u8 = 157;
pub const LIGHT_256_DEL_NUM_BG_IDX: u8 = 217;
pub const LIGHT_256_GUTTER_FG_IDX: u8 = 236;

/// A 24-bit color.
pub fn rgb_color(rgb: (u8, u8, u8)) -> (c: Color)
    ensures
        c == Color::Rgb(rgb.0, rgb.1, rgb.2),
{
    Color::Rgb(rgb.0, rgb.1, rgb.2)
}

/// An entry of the 256-color palette.
pub fn indexed_color(index: u8) -> (c: Color)
    ensures
        c == Color::Indexed(index),
{
    Color::Indexed(index)
}

/// The kind of a diff line: `+`, `-` or context.
#[derive(Clone, Copy, Debug, PartialEq, Eq, Structural)]
pub enum DiffLineType {
    Insert,
    Delete,
    Context,
}

/// Whether the terminal background is dark or light.
#[derive(Clone, Copy, Debug, PartialEq, Eq, Structural)]
pub enum DiffTheme {
    Dark,
    Light,
}

/// The color depth the diff renderer aims at.
#[derive(Clone, Copy, Debug, PartialEq, Eq, Structural)]
pub enum DiffColorLevel {
    TrueColor,
    Ansi256,
    Ansi16,
}

/// The color depths that can show tinted backgrounds.
#[derive(Clone, Copy, Debug, PartialEq, Eq, Structural)]
pub enum RichDiffColorLevel {
    TrueColor,
    Ansi256,
}

/// The color depth the terminal reports for standard output.
#[derive(Clone, Copy, Debug, PartialEq, Eq, Structural)]
pub enum StdoutColorLevel {
    TrueColor,
    Ansi256,
    Ansi16,
    Unknown,
}

/// The terminal program the session runs in, as far as it can be told.
#[derive(Clone, Copy, Debug, PartialEq, Eq, Structural)]
pub enum TerminalName {
    AppleTerminal,
    Ghostty,
    Iterm2,
    WarpTerminal,
    VsCode,
    WezTerm,
    Kitty,
    Alacritty,
    Konsole,
    GnomeTerminal,
    Vte,
    WindowsTerminal,
    Dumb,
    Unknown,
}

/// The view of `RichDiffColorLevel::from_diff_color_level`.
pub open spec fn rich_level(level: DiffColorLevel) -> Option<RichDiffColorLevel> {
    match level {
        DiffColorLevel::TrueColor => Some(RichDiffColorLevel::TrueColor),
        DiffColorLevel::Ansi256 => Some(RichDiffColorLevel::Ansi256),
        DiffColorLevel::Ansi16 => None,
    }
}

impl RichDiffColorLevel {
    /// The rich level of `level`, `None` for ANSI-16.
    pub fn from_diff_color_level(level: DiffColorLevel) -> (r: Option<RichDiffColorLevel>)
        ensures
            r == rich_level(level),
    {
        match level {
            DiffColorLevel::TrueColor => Some(RichDiffColorLevel::TrueColor),
            DiffColorLevel::Ansi256 => Some(RichDiffColorLevel::Ansi256),
            DiffColorLevel::Ansi16 => None,
        }
    }
}

/// Line backgrounds of inserted and deleted lines, `None` for no background.
#[derive(Clone, Copy, Debug, PartialEq, Eq, Structural)]
pub struct ResolvedDiffBackgrounds {
    pub add: Option<Color>,
    pub del: Option<Color>,
}

impl Default for ResolvedDiffBackgrounds {
    fn default() -> (r: ResolvedDiffBackgrounds)
        ensures
            r.add is None,
            r.del is None,
    {
        ResolvedDiffBackgrounds { add: None, del: None }
    }
}

/// A background color that a syntax theme defines for a diff scope, with its
/// nearest entry of the 256-color palette (16..255).
#[derive(Clone, Copy, Debug)]
pub struct ScopeBackground {
    pub rgb: (u8, u8, u8),
    pub ansi256: u8,
}

/// The backgrounds a syntax theme gives inserted and deleted text, if any.
#[derive(Clone, Copy, Debug)]
pub struct DiffScopeBackgroundRgbs {
    pub inserted: Option<ScopeBackground>,
    pub deleted: Option<ScopeBackground>,
}

/// Everything a diff line's styles depend on, fixed once per frame.
#[derive(Clone, Copy, Debug, PartialEq, Eq, Structural)]
pub struct DiffRenderStyleContext {
    pub theme: DiffTheme,
    pub color_level: DiffColorLevel,
    pub diff_backgrounds: ResolvedDiffBackgrounds,
}

/// The color of a scope background at a rich color level.
pub open spec fn scope_color(bg: ScopeBackground, level: RichDiffColorLevel) -> Color {
    match level {
        RichDiffColorLevel::TrueColor => Color::Rgb(bg.rgb.0, bg.rgb.1, bg.rgb.2),
        RichDiffColorLevel::Ansi256 => Color::Indexed(bg.ansi256),
    }
}

/// A theme background at a rich color level: the color itself in truecolor,
/// its nearest palette entry in 256 colors.
pub fn color_from_rgb_for_level(bg: ScopeBackground, color_level: RichDiffColorLevel) -> (c: Color)
    ensures
        c == scope_color(bg, color_level),
{
    match color_level {
        RichDiffColorLevel::TrueColor => rgb_color(bg.rgb),
        RichDiffColorLevel::Ansi256 => indexed_color(bg.ansi256),
    }
}

/// The built-in background of added lines.
pub open spec fn add_line_bg_spec(theme: DiffTheme, level: RichDiffColorLevel) -> Color {
    match (theme, level) {
        (DiffTheme::Dark, RichDiffColorLevel::TrueColor) => Color::Rgb(33, 58, 43),
        (DiffTheme::Dark, RichDiffColorLevel::Ansi256) => Color::Indexed(22),
        (DiffTheme::Light, RichDiffColorLevel::TrueColor) => Color::Rgb(218, 251, 225),
        (DiffTheme::Light, RichDiffColorLevel::Ansi256) => Color::Indexed(194),
    }
}

/// The built-in background of deleted lines.
pub open spec fn del_line_bg_spec(theme: DiffTheme, level: RichDiffColorLevel) -> Color {
    match (theme, level) {
        (DiffTheme::Dark, RichDiffColorLevel::TrueColor) => Color::Rgb(74, 34, 29),
        (DiffTheme::Dark, RichDiffColorLevel::Ansi256) => Color::Indexed(52),
        (DiffTheme::Light, RichDiffColorLevel::TrueColor) => Color::Rgb(255, 235, 233),
        (DiffTheme::Light, RichDiffColorLevel::Ansi256) => Color::Indexed(224),
    }
}

/// The built-in background of added lines.
pub fn add_line_bg(theme: DiffTheme, color_level: RichDiffColorLevel) -> (c: Color)
    ensures
        c == add_line_bg_spec(theme, color_level),
{
    match (theme, color_level) {
        (DiffTheme::Dark, RichDiffColorLevel::TrueColor) => rgb_color(DARK_TC_ADD_LINE_BG_RGB),
        (DiffTheme::Dark, RichDiffColorLevel::Ansi256) => indexed_color(DARK_256_ADD_LINE_BG_IDX),
        (DiffTheme::Light, RichDiffColorLevel::TrueColor) => rgb_color(LIGHT_TC_ADD_LINE_BG_RGB),
        (DiffTheme::Light, RichDiffColorLevel::Ansi256) => indexed_color(LIGHT_256_ADD_LINE_BG_IDX),
    }
}

/// The built-in background of deleted lines.
pub fn del_line_bg(theme: DiffTheme, color_level: RichDiffColorLevel) -> (c: Color)
    ensures
        c == del_line_bg_spec(theme, color_level),
{
    match (theme, color_level) {
        (DiffTheme::Dark, RichDiffColorLevel::TrueColor) => rgb_color(DARK_TC_DEL_LINE_BG_RGB),
        (DiffTheme::Dark, RichDiffColorLevel::Ansi256) => indexed_color(DARK_256_DEL_LINE_BG_IDX),
        (DiffTheme::Light, RichDiffColorLevel::TrueColor) => rgb_color(LIGHT_TC_DEL_LINE_BG_RGB),
        (DiffTheme::Light, RichDiffColorLevel::Ansi256) => indexed_color(LIGHT_256_DEL_LINE_BG_IDX),
    }
}

/// The built-in backgrounds: none on ANSI-16 terminals.
pub open spec fn fallback_backgrounds(theme: DiffTheme, level: DiffColorLevel) -> ResolvedDiffBackgrounds {
    match rich_level(level) {
        Some(l) => ResolvedDiffBackgrounds {
            add: Some(add_line_bg_spec(theme, l)),
            del: Some(del_line_bg_spec(theme, l)),
        },
        None => ResolvedDiffBackgrounds { add: None, del: None },
    }
}

/// The built-in line backgrounds, used where the syntax theme defines none.
pub fn fallback_diff_backgrounds(theme: DiffTheme, color_level: DiffColorLevel) -> (r:
    ResolvedDiffBackgrounds)
    ensures
        r == fallback_backgrounds(theme, color_level),
{
    match RichDiffColorLevel::from_diff_color_level(color_level) {
        Some(level) => ResolvedDiffBackgrounds {
            add: Some(add_line_bg(theme, level)),
            del: Some(del_line_bg(theme, level)),
        },
        None => ResolvedDiffBackgrounds::default(),
    }
}

/// The line backgrounds: the built-in ones, each replaced by the syntax
/// theme's own where it defines one and the color depth is rich enough.
pub fn resolve_diff_backgrounds_for(
    theme: DiffTheme,
    color_level: DiffColorLevel,
    scope_backgrounds: DiffScopeBackgroundRgbs,
) -> (r: ResolvedDiffBackgrounds)
    ensures
        rich_level(color_level) is None ==> r == fallback_backgrounds(theme, color_level),
        rich_level(color_level) matches Some(l) ==> r.add == (match scope_backgrounds.inserted {
            Some(bg) => Some(scope_color(bg, l)),
            None => fallback_backgrounds(theme, color_level).add,
        }),
        rich_level(color_level) matches Some(l) ==> r.del == (match scope_backgrounds.deleted {
            Some(bg) => Some(scope_color(bg, l)),
            None => fallback_backgrounds(theme, color_level).del,
        }),
{
    let mut resolved = fallback_diff_backgrounds(theme, color_level);
    let level = match RichDiffColorLevel::from_diff_color_level(color_level) {
        Some(level) => level,
        None => {
            return resolved;
        },
    };
    if let Some(bg) = scope_backgrounds.inserted {
        resolved.add = Some(color_from_rgb_for_level(bg, level));
    }
    if let Some(bg) = scope_backgrounds.deleted {
        resolved.del = Some(color_from_rgb_for_level(bg, level));
    }
    resolved
}

/// The theme for a terminal background: light only where the background is
/// known and light.
pub fn diff_theme_for_bg(bg_is_light: Option<bool>) -> (t: DiffTheme)
    ensures
        t == (if bg_is_light == Some(true) {
            DiffTheme::Light
        } else {
            DiffTheme::Dark
        }),
{
    if let Some(light) = bg_is_light {
        if light {
            return DiffTheme::Light;
        }
    }
    DiffTheme::Dark
}

/// The view of `diff_color_level_for_terminal`.
pub open spec fn terminal_diff_level(
    stdout_level: StdoutColorLevel,
    terminal_name: TerminalName,
    has_wt_session: bool,
    has_force_color_override: bool,
) -> DiffColorLevel {
    if has_wt_session && !has_force_color_override {
        DiffColorLevel::TrueColor
    } else if stdout_level == StdoutColorLevel::Ansi16 && terminal_name
        == TerminalName::WindowsTerminal && !has_force_color_override {
        DiffColorLevel::TrueColor
    } else {
        match stdout_level {
            StdoutColorLevel::TrueColor => DiffColorLevel::TrueColor,
            StdoutColorLevel::Ansi256 => DiffColorLevel::Ansi256,
            _ => DiffColorLevel::Ansi16,
        }
    }
}

/// The diff color depth for a terminal. Windows Terminal renders truecolor
/// though it often reports only 16 colors: a `WT_SESSION` promotes any level
/// to truecolor, and a terminal known as Windows Terminal promotes ANSI-16,
/// unless `FORCE_COLOR` is set. An unknown level counts as ANSI-16.
pub fn diff_color_level_for_terminal(
    stdout_level: StdoutColorLevel,
    terminal_name: TerminalName,
    has_wt_session: bool,
    has_force_color_override: bool,
) -> (r: DiffColorLevel)
    ensures
        r == terminal_diff_level(
            stdout_level,
            terminal_name,
            has_wt_session,
            has_force_color_override,
        ),
{
    if has_wt_session && !has_force_color_override {
        return DiffColorLevel::TrueColor;
    }
    let base = match stdout_level {
        StdoutColorLevel::TrueColor => DiffColorLevel::TrueColor,
        StdoutColorLevel::Ansi256 => DiffColorLevel::Ansi256,
        StdoutColorLevel::Ansi16 => DiffColorLevel::Ansi16,
        StdoutColorLevel::Unknown => DiffColorLevel::Ansi16,
    };
    if stdout_level == StdoutColorLevel::Ansi16 && terminal_name == TerminalName::WindowsTerminal
        && !has_force_color_override {
        DiffColorLevel::TrueColor
    } else {
        base
    }
}

/// The style with only a background.
pub open spec fn bg_style(c: Color) -> Style {
    Style { bg: Some(c), ..Style::plain() }
}

/// The style with only a foreground.
pub open spec fn fg_style(c: Color) -> Style {
    Style { fg: Some(c), ..Style::plain() }
}

/// The full-width background of a line: the resolved background of inserted
/// and deleted lines, none for context.
pub fn style_line_bg_for(kind: DiffLineType, diff_backgrounds: ResolvedDiffBackgrounds) -> (s:
    Style)
    ensures
        s == (match (kind, diff_backgrounds.add, diff_backgrounds.del) {
            (DiffLineType::Insert, Some(c), _) => bg_style(c),
            (DiffLineType::Delete, _, Some(c)) => bg_style(c),
            _ => Style::plain(),
        }),
{
    match kind {
        DiffLineType::Insert => match diff_backgrounds.add {
            Some(bg) => Style::new().with_bg(bg),
            None => Style::new(),
        },
        DiffLineType::Delete => match diff_backgrounds.del {
            Some(bg) => Style::new().with_bg(bg),
            None => Style::new(),
        },
        DiffLineType::Context => Style::new(),
    }
}

/// The style of context lines: plain.
pub fn style_context() -> (s: Style)
    ensures
        s == Style::plain(),
{
    Style::new()
}

/// The gutter text color on a light background.
pub open spec fn light_gutter_fg_spec(level: DiffColorLevel) -> Color {
    match level {
        DiffColorLevel::TrueColor => Color::Rgb(31, 35, 40),
        DiffColorLevel::Ansi256 => Color::Indexed(236),
        DiffColorLevel::Ansi16 => Color::Black,
    }
}

/// The gutter text color on a light background.
pub fn light_gutter_fg(color_level: DiffColorLevel) -> (c: Color)
    ensures
        c == light_gutter_fg_spec(color_level),
{
    match color_level {
        DiffColorLevel::TrueColor => rgb_color(LIGHT_TC_GUTTER_FG_RGB),
        DiffColorLevel::Ansi256 => indexed_color(LIGHT_256_GUTTER_FG_IDX),
        DiffColorLevel::Ansi16 => Color::Black,
    }
}

/// The gutter background of added lines on a light background.
pub open spec fn light_add_num_bg_spec(level: RichDiffColorLevel) -> Color {
    match level {
        RichDiffColorLevel::TrueColor => Color::Rgb(172, 238, 187),
        RichDiffColorLevel::Ansi256 => Color::Indexed(157),
    }
}

/// The gutter background of deleted lines on a light background.
pub open spec fn light_del_num_bg_spec(level: RichDiffColorLevel) -> Color {
    match level {
        RichDiffColorLevel::TrueColor => Color::Rgb(255, 206, 203),
        RichDiffColorLevel::Ansi256 => Color::Indexed(217),
    }
}

/// The gutter background of added lines on a light background.
pub fn light_add_num_bg(color_level: RichDiffColorLevel) -> (c: Color)
    ensures
        c == light_add_num_bg_spec(color_level),
{
    match color_level {
        RichDiffColorLevel::TrueColor => rgb_color(LIGHT_TC_ADD_NUM_BG_RGB),
        RichDiffColorLevel::Ansi256 => indexed_color(LIGHT_256_ADD_NUM_BG_IDX),
    }
}

/// The gutter background of deleted lines on a light background.
pub fn light_del_num_bg(color_level: RichDiffColorLevel) -> (c: Color)
    ensures
        c == light_del_num_bg_spec(color_level),
{
    match color_level {
        RichDiffColorLevel::TrueColor => rgb_color(LIGHT_TC_DEL_NUM_BG_RGB),
        RichDiffColorLevel::Ansi256 => indexed_color(LIGHT_256_DEL_NUM_BG_IDX),
    }
}

/// The dimmed gutter.
pub open spec fn dim_style() -> Style {
    Style { dim: true, ..Style::plain() }
}

/// The dimmed gutter of dark themes and context lines.
pub fn style_gutter_dim() -> (s: Style)
    ensures
        s == dim_style(),
{
    Style::new().with_dim()
}

/// The view of `style_gutter_for`.
pub open spec fn gutter_style(kind: DiffLineType, theme: DiffTheme, level: DiffColorLevel) -> Style {
    match (theme, kind, rich_level(level)) {
        (DiffTheme::Light, DiffLineType::Insert, None) => fg_style(light_gutter_fg_spec(level)),
        (DiffTheme::Light, DiffLineType::Delete, None) => fg_style(light_gutter_fg_spec(level)),
        (DiffTheme::Light, DiffLineType::Insert, Some(l)) => Style {
            bg: Some(light_add_num_bg_spec(l)),
            ..fg_style(light_gutter_fg_spec(level))
        },
        (DiffTheme::Light, DiffLineType::Delete, Some(l)) => Style {
            bg: Some(light_del_num_bg_spec(l)),
            ..fg_style(light_gutter_fg_spec(level))
        },
        _ => dim_style(),
    }
}

/// The line-number gutter: on light backgrounds an opaque tinted background
/// (where the depth allows) behind dark numbers, elsewhere just dimmed.
pub fn style_gutter_for(kind: DiffLineType, theme: DiffTheme, color_level: DiffColorLevel) -> (s:
    Style)
    ensures
        s == gutter_style(kind, theme, color_level),
{
    match (theme, kind, RichDiffColorLevel::from_diff_color_level(color_level)) {
        (DiffTheme::Light, DiffLineType::Insert, None) => Style::new().with_fg(
            light_gutter_fg(color_level),
        ),
        (DiffTheme::Light, DiffLineType::Delete, None) => Style::new().with_fg(
            light_gutter_fg(color_level),
        ),
        (DiffTheme::Light, DiffLineType::Insert, Some(level)) => Style::new().with_fg(
            light_gutter_fg(color_level),
        ).with_bg(light_add_num_bg(level)),
        (DiffTheme::Light, DiffLineType::Delete, Some(level)) => Style::new().with_fg(
            light_gutter_fg(color_level),
        ).with_bg(light_del_num_bg(level)),
        _ => style_gutter_dim(),
    }
}

/// The content style of a changed line: `fg` alone on ANSI-16; else the
/// resolved background, with `fg` too on dark themes; `fg` alone on dark
/// themes and nothing on light ones where no background was resolved.
pub open spec fn change_style(theme: DiffTheme, level: DiffColorLevel, bg: Option<Color>, fg: Color) -> Style {
    if level == DiffColorLevel::Ansi16 {
        fg_style(fg)
    } else {
        match (theme, bg) {
            (DiffTheme::Light, Some(b)) => bg_style(b),
            (DiffTheme::Dark, Some(b)) => Style { bg: Some(b), ..fg_style(fg) },
            (DiffTheme::Light, None) => Style::plain(),
            (DiffTheme::Dark, None) => fg_style(fg),
        }
    }
}

fn change_style_of(theme: DiffTheme, color_level: DiffColorLevel, bg: Option<Color>, fg: Color) -> (s:
    Style)
    ensures
        s == change_style(theme, color_level, bg, fg),
{
    match (theme, color_level, bg) {
        (_, DiffColorLevel::Ansi16, _) => Style::new().with_fg(fg),
        (DiffTheme::Light, _, Some(b)) => Style::new().with_bg(b),
        (DiffTheme::Dark, _, Some(b)) => Style::new().with_fg(fg).with_bg(b),
        (DiffTheme::Light, _, None) => Style::new(),
        (DiffTheme::Dark, _, None) => Style::new().with_fg(fg),
    }
}

/// The content style of inserted lines.
pub fn style_add(
    theme: DiffTheme,
    color_level: DiffColorLevel,
    diff_backgrounds: ResolvedDiffBackgrounds,
) -> (s: Style)
    ensures
        s == change_style(theme, color_level, diff_backgrounds.add, Color::Green),
{
    change_style_of(theme, color_level, diff_backgrounds.add, Color::Green)
}

/// The content style of deleted lines.
pub fn style_del(
    theme: DiffTheme,
    color_level: DiffColorLevel,
    diff_backgrounds: ResolvedDiffBackgrounds,
) -> (s: Style)
    ensures
        s == change_style(theme, color_level, diff_backgrounds.del, Color::Red),
{
    change_style_of(theme, color_level, diff_backgrounds.del, Color::Red)
}

/// The `+` sign: green alone on light themes, the content style on dark ones.
pub fn style_sign_add(
    theme: DiffTheme,
    color_level: DiffColorLevel,
    diff_backgrounds: ResolvedDiffBackgrounds,
) -> (s: Style)
    ensures
        s == (match theme {
            DiffTheme::Light => fg_style(Color::Green),
            DiffTheme::Dark => change_style(theme, color_level, diff_backgrounds.add, Color::Green),
        }),
{
    match theme {
        DiffTheme::Light => Style::new().with_fg(Color::Green),
        DiffTheme::Dark => style_add(theme, color_level, diff_backgrounds),
    }
}

/// The `-` sign: red alone on light themes, the content style on dark ones.
pub fn style_sign_del(
    theme: DiffTheme,
    color_level: DiffColorLevel,
    diff_backgrounds: ResolvedDiffBackgrounds,
) -> (s: Style)
    ensures
        s == (match theme {
            DiffTheme::Light => fg_style(Color::Red),
            DiffTheme::Dark => change_style(theme, color_level, diff_backgrounds.del, Color::Red),
        }),
{
    match theme {
        DiffTheme::Light => Style::new().with_fg(Color::Red),
        DiffTheme::Dark => style_del(theme, color_level, diff_backgrounds),
    }
}

/// On ANSI-16 terminals no diff style has a background: not the lines, the
/// gutters, the signs nor the content, whatever the syntax theme defines.
pub proof fn lemma_ansi16_has_no_backgrounds(
    theme: DiffTheme,
    kind: DiffLineType,
    resolved: ResolvedDiffBackgrounds,
)
    requires
        resolved == fallback_backgrounds(theme, DiffColorLevel::Ansi16),
    ensures
        resolved.add is None && resolved.del is None,
        gutter_style(kind, theme, DiffColorLevel::Ansi16).bg is None,
        change_style(theme, DiffColorLevel::Ansi16, resolved.add, Color::Green).bg is None,
        change_style(theme, DiffColorLevel::Ansi16, resolved.del, Color::Red).bg is None,
{
}

/// With 256 colors or more, the built-in backgrounds of added and deleted
/// lines differ, so the two kinds stay apart.
pub proof fn lemma_rich_backgrounds_distinct(theme: DiffTheme, level: DiffColorLevel)
    requires
        level != DiffColorLevel::Ansi16,
    ensures
        fallback_backgrounds(theme, level).add is Some,
        fallback_backgrounds(theme, level).del is Some,
        fallback_backgrounds(theme, level).add != fallback_backgrounds(theme, level).del,
{
}

} // verus!
