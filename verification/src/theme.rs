//! Centralized colors and fonts. Two palettes (One Light-ish / One Dark-ish)
//! selected by a runtime theme mode.

use vstd::prelude::*;

use crate::text;
use crate::text::{is_blank, owned, trim};

verus! {

/// Which of the two palettes is in use.
#[derive(Clone, Copy, PartialEq, Eq, Structural, Debug)]
pub enum ThemeMode {
    Light,
    Dark,
}

impl Default for ThemeMode {
    fn default() -> (r: Self)
        ensures
            r == ThemeMode::Light,
    {
        ThemeMode::Light
    }
}

pub const DEFAULT_UI_FONT: &'static str = "DejaVu Sans";

pub const DEFAULT_TERMINAL_FONT: &'static str = "DejaVu Sans Mono";

/// Font families from the persisted settings.
pub struct Fonts {
    pub ui: Option<String>,
    pub terminal: Option<String>,
}

/// The theme a process runs with: the palette and the configured fonts.
pub struct Theme {
    pub dark: bool,
    pub fonts: Fonts,
}

impl Theme {
    /// The theme before any setting is applied.
    pub fn new() -> (r: Theme)
        ensures
            !r.dark,
            r.fonts.ui is None,
            r.fonts.terminal is None,
    {
        Theme { dark: false, fonts: Fonts { ui: None, terminal: None } }
    }
}

/// A configured font family: nothing where the value is blank, else the value
/// without the blanks around it.
pub open spec fn clean_of(value: Seq<char>) -> Option<Seq<char>> {
    let t = text::trim_of(value);
    if t.len() == 0 {
        None
    } else {
        Some(t)
    }
}

fn clean(value: &str) -> (r: Option<String>)
    ensures
        text::opt_text(r) == clean_of(value@),
{
    let t: String = trim(value);
    if t.as_str().is_empty() {
        None
    } else {
        Some(t)
    }
}

/// Apply the configured font families. Blank values fall back to the
/// defaults.
pub fn set_fonts(theme: &mut Theme, ui: &str, terminal: &str)
    ensures
        text::opt_text(final(theme).fonts.ui) == clean_of(ui@),
        text::opt_text(final(theme).fonts.terminal) == clean_of(terminal@),
        final(theme).dark == old(theme).dark,
{
    theme.fonts = Fonts { ui: clean(ui), terminal: clean(terminal) };
}

/// Environment, then the persisted setting, then the built-in default.
pub open spec fn font_family_of(
    from_env: Option<Seq<char>>,
    configured: Option<Seq<char>>,
    default: Seq<char>,
) -> Seq<char> {
    if from_env is Some && !text::blank(from_env->0) {
        from_env->0
    } else if configured is Some {
        configured->0
    } else {
        default
    }
}

/// The font family to draw with: a non-blank environment value, else the
/// persisted setting, else the default.
pub fn font_family(from_env: &Option<String>, configured: &Option<String>, default: &str) -> (r:
    String)
    ensures
        r@ == font_family_of(text::opt_text(*from_env), text::opt_text(*configured), default@),
{
    if let Some(v) = from_env {
        if !is_blank(v.as_str()) {
            return v.clone();
        }
    }
    match configured {
        Some(c) => c.clone(),
        None => owned(default),
    }
}

/// The UI font; `from_env` is the value of `HARMONIUM_UI_FONT`.
pub fn ui_font(theme: &Theme, from_env: &Option<String>) -> (r: String)
    ensures
        r@ == font_family_of(
            text::opt_text(*from_env),
            text::opt_text(theme.fonts.ui),
            DEFAULT_UI_FONT@,
        ),
{
    font_family(from_env, &theme.fonts.ui, DEFAULT_UI_FONT)
}

/// The terminal font; `from_env` is the value of `HARMONIUM_TERMINAL_FONT`.
pub fn terminal_font(theme: &Theme, from_env: &Option<String>) -> (r: String)
    ensures
        r@ == font_family_of(
            text::opt_text(*from_env),
            text::opt_text(theme.fonts.terminal),
            DEFAULT_TERMINAL_FONT@,
        ),
{
    font_family(from_env, &theme.fonts.terminal, DEFAULT_TERMINAL_FONT)
}

/// Switch the palette: [`mode`] then reads back what was set.
pub fn set_mode(theme: &mut Theme, mode: ThemeMode)
    ensures
        mode_of(*final(theme)) == mode,
        final(theme).fonts == old(theme).fonts,
{
    theme.dark = mode == ThemeMode::Dark;
}

/// The mode that a theme shows.
pub open spec fn mode_of(theme: Theme) -> ThemeMode {
    if theme.dark {
        ThemeMode::Dark
    } else {
        ThemeMode::Light
    }
}

/// The palette in use.
pub fn mode(theme: &Theme) -> (r: ThemeMode)
    ensures
        r == mode_of(*theme),
{
    if theme.dark {
        ThemeMode::Dark
    } else {
        ThemeMode::Light
    }
}

/// The one of two colors that a mode calls for.
pub open spec fn picked(mode: ThemeMode, dark_hex: u32, light_hex: u32) -> u32 {
    match mode {
        ThemeMode::Dark => dark_hex,
        ThemeMode::Light => light_hex,
    }
}

/// The one of two colors that a mode calls for.
pub fn pick(mode: ThemeMode, dark_hex: u32, light_hex: u32) -> (r: u32)
    ensures
        r == picked(mode, dark_hex, light_hex),
{
    match mode {
        ThemeMode::Dark => dark_hex,
        ThemeMode::Light => light_hex,
    }
}

/// Window background.
pub fn bg(mode: ThemeMode) -> (r: u32)
    ensures
        r == picked(mode, 0x21252b, 0xf2f3f5),
{
    pick(mode, 0x21252b, 0xf2f3f5)
}

/// Background of side panels.
pub fn panel_bg(mode: ThemeMode) -> (r: u32)
    ensures
        r == picked(mode, 0x1b1f23, 0xe9eaee),
{
    pick(mode, 0x1b1f23, 0xe9eaee)
}

/// Background of a terminal.
pub fn terminal_bg(mode: ThemeMode) -> (r: u32)
    ensures
        r == picked(mode, 0x282c33, 0xfafafa),
{
    pick(mode, 0x282c33, 0xfafafa)
}

/// Background of selected terminal cells.
pub fn terminal_selection_bg(mode: ThemeMode) -> (r: u32)
    ensures
        r == picked(mode, 0x3e4f6f, 0xbfd4ef),
{
    pick(mode, 0x3e4f6f, 0xbfd4ef)
}

/// Text.
pub fn fg(mode: ThemeMode) -> (r: u32)
    ensures
        r == picked(mode, 0xabb2bf, 0x383a42),
{
    pick(mode, 0xabb2bf, 0x383a42)
}

/// Secondary text.
pub fn fg_dim(mode: ThemeMode) -> (r: u32)
    ensures
        r == picked(mode, 0x6b717d, 0x8a8f98),
{
    pick(mode, 0x6b717d, 0x8a8f98)
}

/// Lines between panels.
pub fn border(mode: ThemeMode) -> (r: u32)
    ensures
        r == picked(mode, 0x3f4451, 0xd0d3d9),
{
    pick(mode, 0x3f4451, 0xd0d3d9)
}

/// A hairline weaker than [`border`], for rules that divide within a panel
/// rather than between panels.
pub fn rule(mode: ThemeMode) -> (r: u32)
    ensures
        r == picked(mode, 0x2f343c, 0xdcdee3),
{
    pick(mode, 0x2f343c, 0xdcdee3)
}

/// Highlights and primary buttons.
pub fn accent(mode: ThemeMode) -> (r: u32)
    ensures
        r == picked(mode, 0x4aa5f0, 0x2b6fd0),
{
    pick(mode, 0x4aa5f0, 0x2b6fd0)
}

/// Background of a selected row.
pub fn selected_bg(mode: ThemeMode) -> (r: u32)
    ensures
        r == picked(mode, 0x2c313a, 0xdde2ea),
{
    pick(mode, 0x2c313a, 0xdde2ea)
}

/// Background of a hovered row.
pub fn hover_bg(mode: ThemeMode) -> (r: u32)
    ensures
        r == picked(mode, 0x323842, 0xe2e6ec),
{
    pick(mode, 0x323842, 0xe2e6ec)
}

/// Errors.
pub fn error(mode: ThemeMode) -> (r: u32)
    ensures
        r == picked(mode, 0xe05561, 0xca1243),
{
    pick(mode, 0xe05561, 0xca1243)
}

/// Success.
pub fn ok(mode: ThemeMode) -> (r: u32)
    ensures
        r == picked(mode, 0x8cc265, 0x3f8b3f),
{
    pick(mode, 0x8cc265, 0x3f8b3f)
}

/// Warnings.
pub fn warn(mode: ThemeMode) -> (r: u32)
    ensures
        r == picked(mode, 0xd18f52, 0xbf6c00),
{
    pick(mode, 0xd18f52, 0xbf6c00)
}

} // verus!
