//! Terminal colors: the palettes, how a cell's color resolves to RGB, and how
//! a cell's style is written back as an escape sequence.

use vstd::prelude::*;

use crate::text;
use crate::text::{decimal, owned};
use crate::theme;
use crate::theme::{pick, ThemeMode};

verus! {

/// A color by its three channels.
#[derive(Clone, Copy, PartialEq, Eq, Structural, Debug)]
pub struct Rgb {
    pub r: u8,
    pub g: u8,
    pub b: u8,
}

/// The colors that programs name.
#[derive(Clone, Copy, PartialEq, Eq, Structural, Debug)]
pub enum NamedColor {
    Black,
    Red,
    Green,
    Yellow,
    Blue,
    Magenta,
    Cyan,
    White,
    BrightBlack,
    BrightRed,
    BrightGreen,
    BrightYellow,
    BrightBlue,
    BrightMagenta,
    BrightCyan,
    BrightWhite,
    Foreground,
    Background,
    Cursor,
    DimBlack,
    DimRed,
    DimGreen,
    DimYellow,
    DimBlue,
    DimMagenta,
    DimCyan,
    DimWhite,
    BrightForeground,
    DimForeground,
}

/// A cell's color, as the program asked for it.
#[derive(Clone, Copy, PartialEq, Eq, Structural, Debug)]
pub enum Color {
    Named(NamedColor),
    Spec(Rgb),
    Indexed(u8),
}

/// The slot of a named color in the table of colors set at run time. The
/// sixteen basic colors are slots 0 to 15, the special ones follow the 256
/// indexed colors.
pub open spec fn slot_of(color: NamedColor) -> int {
    match color {
        NamedColor::Black => 0,
        NamedColor::Red => 1,
        NamedColor::Green => 2,
        NamedColor::Yellow => 3,
        NamedColor::Blue => 4,
        NamedColor::Magenta => 5,
        NamedColor::Cyan => 6,
        NamedColor::White => 7,
        NamedColor::BrightBlack => 8,
        NamedColor::BrightRed => 9,
        NamedColor::BrightGreen => 10,
        NamedColor::BrightYellow => 11,
        NamedColor::BrightBlue => 12,
        NamedColor::BrightMagenta => 13,
        NamedColor::BrightCyan => 14,
        NamedColor::BrightWhite => 15,
        NamedColor::Foreground => 256,
        NamedColor::Background => 257,
        NamedColor::Cursor => 258,
        NamedColor::DimBlack => 259,
        NamedColor::DimRed => 260,
        NamedColor::DimGreen => 261,
        NamedColor::DimYellow => 262,
        NamedColor::DimBlue => 263,
        NamedColor::DimMagenta => 264,
        NamedColor::DimCyan => 265,
        NamedColor::DimWhite => 266,
        NamedColor::BrightForeground => 267,
        NamedColor::DimForeground => 268,
    }
}

/// The slot of a named color in the table of colors set at run time.
pub fn slot(color: NamedColor) -> (r: usize)
    ensures
        r == slot_of(color),
        r < COLOR_COUNT,
{
    match color {
        NamedColor::Black => 0,
        NamedColor::Red => 1,
        NamedColor::Green => 2,
        NamedColor::Yellow => 3,
        NamedColor::Blue => 4,
        NamedColor::Magenta => 5,
        NamedColor::Cyan => 6,
        NamedColor::White => 7,
        NamedColor::BrightBlack => 8,
        NamedColor::BrightRed => 9,
        NamedColor::BrightGreen => 10,
        NamedColor::BrightYellow => 11,
        NamedColor::BrightBlue => 12,
        NamedColor::BrightMagenta => 13,
        NamedColor::BrightCyan => 14,
        NamedColor::BrightWhite => 15,
        NamedColor::Foreground => 256,
        NamedColor::Background => 257,
        NamedColor::Cursor => 258,
        NamedColor::DimBlack => 259,
        NamedColor::DimRed => 260,
        NamedColor::DimGreen => 261,
        NamedColor::DimYellow => 262,
        NamedColor::DimBlue => 263,
        NamedColor::DimMagenta => 264,
        NamedColor::DimCyan => 265,
        NamedColor::DimWhite => 266,
        NamedColor::BrightForeground => 267,
        NamedColor::DimForeground => 268,
    }
}

/// How many colors a program can set at run time.
pub const COLOR_COUNT: usize = 269;

/// The colors that the program set at run time, by slot.
pub struct Colors {
    pub slots: Vec<Option<Rgb>>,
}

impl Colors {
    /// There is one slot for each color.
    pub open spec fn wf(&self) -> bool {
        self.slots@.len() == COLOR_COUNT
    }

    /// A table in which no color is set.
    pub fn new() -> (r: Colors)
        ensures
            r.wf(),
            forall|i: int| 0 <= i < COLOR_COUNT ==> r.slots@[i] is None,
    {
        let mut slots: Vec<Option<Rgb>> = Vec::new();
        let mut i: usize = 0;
        while i < COLOR_COUNT
            invariant
                i <= COLOR_COUNT,
                slots@.len() == i,
                forall|j: int| 0 <= j < i ==> slots@[j] is None,
            decreases COLOR_COUNT - i,
        {
            slots.push(None);
            i += 1;
        }
        Colors { slots }
    }
}

/// The sixteen basic colors of the dark palette.
pub const DARK_PALETTE: [u32; 16] = [
    0x3f4451,
    0xe05561,
    0x8cc265,
    0xd18f52,
    0x4aa5f0,
    0xc162de,
    0x42b3c2,
    0xd7dae0,
    0x4f5666,
    0xff616e,
    0xa5e075,
    0xf0a45d,
    0x4dc4ff,
    0xde73ff,
    0x4cd1e0,
    0xe6e6e6,
];

/// The sixteen basic colors of the light palette.
pub const LIGHT_PALETTE: [u32; 16] = [
    0x383a42,
    0xe45649,
    0x50a14f,
    0xc18401,
    0x4078f2,
    0xa626a4,
    0x0184bc,
    0xa0a1a7,
    0x696c77,
    0xca1243,
    0x23974a,
    0xdf6c1c,
    0x275fe4,
    0x823ff1,
    0x27618d,
    0x0f1013,
];

/// The `index`th of the sixteen basic colors.
pub open spec fn basic_hex(mode: ThemeMode, index: int) -> u32 {
    match mode {
        ThemeMode::Dark => DARK_PALETTE@[index],
        ThemeMode::Light => LIGHT_PALETTE@[index],
    }
}

fn basic(mode: ThemeMode, index: usize) -> (r: u32)
    requires
        index < 16,
    ensures
        r == basic_hex(mode, index as int),
{
    match mode {
        ThemeMode::Dark => DARK_PALETTE[index],
        ThemeMode::Light => LIGHT_PALETTE[index],
    }
}

/// The color of text that names none.
pub fn default_fg_hex(mode: ThemeMode) -> (r: u32)
    ensures
        r == theme::picked(mode, 0xabb2bf, 0x383a42),
{
    pick(mode, 0xabb2bf, 0x383a42)
}

/// The background of cells that name none.
pub fn default_bg_hex(mode: ThemeMode) -> (r: u32)
    ensures
        r == theme::picked(mode, 0x282c33, 0xfafafa),
{
    pick(mode, 0x282c33, 0xfafafa)
}

/// The channels of a color written as `0xRRGGBB`.
pub open spec fn rgb_of(hex: u32) -> Rgb {
    Rgb {
        r: ((hex / 0x10000) % 0x100) as u8,
        g: ((hex / 0x100) % 0x100) as u8,
        b: (hex % 0x100) as u8,
    }
}

/// The channels of a color written as `0xRRGGBB`.
pub fn hex_to_rgb(hex: u32) -> (r: Rgb)
    ensures
        r == rgb_of(hex),
{
    Rgb {
        r: ((hex / 0x10000) % 0x100) as u8,
        g: ((hex / 0x100) % 0x100) as u8,
        b: (hex % 0x100) as u8,
    }
}

/// The strength of a channel at step `v` of the color cube.
pub open spec fn channel_of(v: int) -> u8 {
    if v == 0 {
        0
    } else {
        (55 + v * 40) as u8
    }
}

/// The color at an index: the sixteen basic colors, a cube of six steps to
/// each channel, a ramp of twenty-four grays, and the default foreground for
/// anything past those.
pub open spec fn palette_color(mode: ThemeMode, index: int) -> Rgb {
    if index < 16 {
        rgb_of(basic_hex(mode, index))
    } else if index < 232 {
        let i = index - 16;
        Rgb { r: channel_of(i / 36), g: channel_of((i / 6) % 6), b: channel_of(i % 6) }
    } else if index < 256 {
        let v = (8 + (index - 232) * 10) as u8;
        Rgb { r: v, g: v, b: v }
    } else {
        rgb_of(theme::picked(mode, 0xabb2bf, 0x383a42))
    }
}

fn channel(v: usize) -> (r: u8)
    requires
        v < 6,
    ensures
        r == channel_of(v as int),
{
    if v == 0 {
        0
    } else {
        (55 + v * 40) as u8
    }
}

/// Resolve an indexed color (0-255, and special indices past them) to RGB.
pub fn palette_rgb(mode: ThemeMode, index: usize) -> (r: Rgb)
    ensures
        r == palette_color(mode, index as int),
{
    if index < 16 {
        hex_to_rgb(basic(mode, index))
    } else if index < 232 {
        let i: usize = index - 16;
        Rgb { r: channel(i / 36), g: channel((i / 6) % 6), b: channel(i % 6) }
    } else if index < 256 {
        let v: u8 = (8 + (index - 232) * 10) as u8;
        Rgb { r: v, g: v, b: v }
    } else {
        hex_to_rgb(default_fg_hex(mode))
    }
}

/// The palette's color for a name.
pub open spec fn named_color(mode: ThemeMode, color: NamedColor) -> Rgb {
    rgb_of(
        match color {
            NamedColor::Foreground | NamedColor::Cursor => theme::picked(mode, 0xabb2bf, 0x383a42),
            NamedColor::Background => theme::picked(mode, 0x282c33, 0xfafafa),
            NamedColor::BrightForeground => basic_hex(mode, 15),
            NamedColor::DimBlack => theme::picked(mode, 0x2a2e39, 0x8b8f98),
            NamedColor::DimRed => theme::picked(mode, 0x99404a, 0xdf9a92),
            NamedColor::DimGreen => theme::picked(mode, 0x5e8245, 0x9cc59b),
            NamedColor::DimYellow => theme::picked(mode, 0x8f6238, 0xd9bd7f),
            NamedColor::DimBlue => theme::picked(mode, 0x3371a3, 0x9cb6ef),
            NamedColor::DimMagenta | NamedColor::DimForeground => theme::picked(
                mode,
                0x854397,
                0xcf9ace,
            ),
            NamedColor::DimCyan => theme::picked(mode, 0x2e7a84, 0x86b9d0),
            NamedColor::DimWhite => theme::picked(mode, 0x92959c, 0xc9cbd0),
            _ => basic_hex(mode, slot_of(color)),
        },
    )
}

/// The palette's color for a name.
pub fn named_color_rgb(mode: ThemeMode, color: NamedColor) -> (r: Rgb)
    ensures
        r == named_color(mode, color),
{
    let hex: u32 = match color {
        NamedColor::Foreground | NamedColor::Cursor => default_fg_hex(mode),
        NamedColor::Background => default_bg_hex(mode),
        NamedColor::BrightForeground => basic(mode, 15),
        NamedColor::DimBlack => pick(mode, 0x2a2e39, 0x8b8f98),
        NamedColor::DimRed => pick(mode, 0x99404a, 0xdf9a92),
        NamedColor::DimGreen => pick(mode, 0x5e8245, 0x9cc59b),
        NamedColor::DimYellow => pick(mode, 0x8f6238, 0xd9bd7f),
        NamedColor::DimBlue => pick(mode, 0x3371a3, 0x9cb6ef),
        NamedColor::DimMagenta | NamedColor::DimForeground => pick(mode, 0x854397, 0xcf9ace),
        NamedColor::DimCyan => pick(mode, 0x2e7a84, 0x86b9d0),
        NamedColor::DimWhite => pick(mode, 0x92959c, 0xc9cbd0),
        _ => basic(mode, slot(color)),
    };
    hex_to_rgb(hex)
}

/// What a color looks like: an RGB color as it is, any other as the program
/// set it at run time, or else as the palette has it.
pub open spec fn resolved(mode: ThemeMode, color: Color, runtime: Seq<Option<Rgb>>) -> Rgb {
    match color {
        Color::Spec(rgb) => rgb,
        Color::Indexed(index) => match runtime[index as int] {
            Some(rgb) => rgb,
            None => palette_color(mode, index as int),
        },
        Color::Named(named) => match runtime[slot_of(named)] {
            Some(rgb) => rgb,
            None => named_color(mode, named),
        },
    }
}

/// Resolve any color to RGB, honoring colors set at run time.
pub fn resolve_color(mode: ThemeMode, color: Color, runtime_colors: &Colors) -> (r: Rgb)
    requires
        runtime_colors.wf(),
    ensures
        r == resolved(mode, color, runtime_colors.slots@),
{
    match color {
        Color::Spec(rgb) => rgb,
        Color::Indexed(index) => match runtime_colors.slots[index as usize] {
            Some(rgb) => rgb,
            None => palette_rgb(mode, index as usize),
        },
        Color::Named(named) => match runtime_colors.slots[slot(named)] {
            Some(rgb) => rgb,
            None => named_color_rgb(mode, named),
        },
    }
}

/// The first sixteen indexed colors are the sixteen named basic colors.
pub proof fn basic_colors_agree(mode: ThemeMode, color: NamedColor)
    requires
        slot_of(color) < 16,
    ensures
        palette_color(mode, slot_of(color)) == named_color(mode, color),
{
}

/// No two named colors share a slot.
pub proof fn slots_are_distinct(a: NamedColor, b: NamedColor)
    requires
        slot_of(a) == slot_of(b),
    ensures
        a == b,
{
}

// ---- Writing a style back as an escape sequence ----

/// The attributes of a cell that an escape sequence carries.
#[derive(Clone, Copy, PartialEq, Eq, Structural, Debug)]
pub struct Attributes {
    pub bold: bool,
    pub dim: bool,
    pub italic: bool,
    pub underline: bool,
    pub inverse: bool,
    pub strikeout: bool,
}

impl Attributes {
    /// No attribute at all.
    pub open spec fn none() -> Attributes {
        Attributes {
            bold: false,
            dim: false,
            italic: false,
            underline: false,
            inverse: false,
            strikeout: false,
        }
    }
}

/// A named color's place among the eight base colors, and whether it is the
/// bright one of that place. Nothing for the terminal's own defaults.
pub open spec fn base_color(named: NamedColor) -> Option<(nat, bool)> {
    match named {
        NamedColor::Black | NamedColor::DimBlack => Some((0, false)),
        NamedColor::Red | NamedColor::DimRed => Some((1, false)),
        NamedColor::Green | NamedColor::DimGreen => Some((2, false)),
        NamedColor::Yellow | NamedColor::DimYellow => Some((3, false)),
        NamedColor::Blue | NamedColor::DimBlue => Some((4, false)),
        NamedColor::Magenta | NamedColor::DimMagenta => Some((5, false)),
        NamedColor::Cyan | NamedColor::DimCyan => Some((6, false)),
        NamedColor::White | NamedColor::DimWhite => Some((7, false)),
        NamedColor::BrightBlack => Some((0, true)),
        NamedColor::BrightRed => Some((1, true)),
        NamedColor::BrightGreen => Some((2, true)),
        NamedColor::BrightYellow => Some((3, true)),
        NamedColor::BrightBlue => Some((4, true)),
        NamedColor::BrightMagenta => Some((5, true)),
        NamedColor::BrightCyan => Some((6, true)),
        NamedColor::BrightWhite => Some((7, true)),
        NamedColor::Foreground
        | NamedColor::Background
        | NamedColor::Cursor
        | NamedColor::BrightForeground
        | NamedColor::DimForeground => None,
    }
}

/// The code that selects a named color, counted from 30 for a foreground and
/// 40 for a background, 90 and 100 for the bright ones.
pub open spec fn named_code(named: NamedColor, foreground: bool) -> Option<nat> {
    match base_color(named) {
        Some((index, bright)) => Some(
            index + (if foreground {
                if bright {
                    90nat
                } else {
                    30
                }
            } else {
                if bright {
                    100nat
                } else {
                    40
                }
            }),
        ),
        None => None,
    }
}

/// The code that selects a named color, or `None` for the terminal defaults,
/// which the reset in [`sgr_sequence`] already restores. Dim variants map to
/// their base color: the dim attribute carries the dimming.
pub fn named_sgr(named: NamedColor, foreground: bool) -> (r: Option<u16>)
    ensures
        match r {
            Some(code) => named_code(named, foreground) == Some(code as nat),
            None => named_code(named, foreground) is None,
        },
{
    let (index, bright): (u16, bool) = match named {
        NamedColor::Black | NamedColor::DimBlack => (0, false),
        NamedColor::Red | NamedColor::DimRed => (1, false),
        NamedColor::Green | NamedColor::DimGreen => (2, false),
        NamedColor::Yellow | NamedColor::DimYellow => (3, false),
        NamedColor::Blue | NamedColor::DimBlue => (4, false),
        NamedColor::Magenta | NamedColor::DimMagenta => (5, false),
        NamedColor::Cyan | NamedColor::DimCyan => (6, false),
        NamedColor::White | NamedColor::DimWhite => (7, false),
        NamedColor::BrightBlack => (0, true),
        NamedColor::BrightRed => (1, true),
        NamedColor::BrightGreen => (2, true),
        NamedColor::BrightYellow => (3, true),
        NamedColor::BrightBlue => (4, true),
        NamedColor::BrightMagenta => (5, true),
        NamedColor::BrightCyan => (6, true),
        NamedColor::BrightWhite => (7, true),
        NamedColor::Foreground
        | NamedColor::Background
        | NamedColor::Cursor
        | NamedColor::BrightForeground
        | NamedColor::DimForeground => {
            return None;
        },
    };
    Some(
        match (foreground, bright) {
            (true, false) => 30 + index,
            (true, true) => 90 + index,
            (false, false) => 40 + index,
            (false, true) => 100 + index,
        },
    )
}

/// `s` where `on` holds, else nothing.
pub open spec fn when(on: bool, s: Seq<char>) -> Seq<char> {
    if on {
        s
    } else {
        Seq::empty()
    }
}

/// The parameters of an escape sequence that select a color.
pub open spec fn color_params(color: Color, foreground: bool) -> Seq<char> {
    let lead = if foreground {
        ";38"@
    } else {
        ";48"@
    };
    match color {
        Color::Named(named) => match named_code(named, foreground) {
            Some(code) => ";"@ + text::decimal_of(code),
            None => Seq::empty(),
        },
        Color::Indexed(i) => lead + ";5;"@ + text::decimal_of(i as nat),
        Color::Spec(rgb) => lead + ";2;"@ + text::decimal_of(rgb.r as nat) + ";"@
            + text::decimal_of(rgb.g as nat) + ";"@ + text::decimal_of(rgb.b as nat),
    }
}

/// The escape sequence that sets a style from the reset state: a reset, the
/// attributes in the order of their codes, then the two colors.
pub open spec fn style_sequence(fg: Color, bg: Color, a: Attributes) -> Seq<char> {
    "\x1b[0"@ + when(a.bold, ";1"@) + when(a.dim, ";2"@) + when(a.italic, ";3"@) + when(
        a.underline,
        ";4"@,
    ) + when(a.inverse, ";7"@) + when(a.strikeout, ";9"@) + color_params(fg, true) + color_params(
        bg,
        false,
    ) + "m"@
}

fn push_color(out: &mut String, color: Color, foreground: bool)
    ensures
        final(out)@ == old(out)@ + color_params(color, foreground),
{
    let ghost before = out@;
    match color {
        Color::Named(named) => {
            if let Some(code) = named_sgr(named, foreground) {
                out.push_str(";");
                out.push_str(decimal(code as u128).as_str());
            }
        },
        Color::Indexed(i) => {
            if foreground {
                out.push_str(";38");
            } else {
                out.push_str(";48");
            }
            out.push_str(";5;");
            out.push_str(decimal(i as u128).as_str());
        },
        Color::Spec(rgb) => {
            if foreground {
                out.push_str(";38");
            } else {
                out.push_str(";48");
            }
            out.push_str(";2;");
            out.push_str(decimal(rgb.r as u128).as_str());
            out.push_str(";");
            out.push_str(decimal(rgb.g as u128).as_str());
            out.push_str(";");
            out.push_str(decimal(rgb.b as u128).as_str());
        },
    }
    assert(out@ =~= before + color_params(color, foreground));
}

/// Encode a cell style as one escape sequence, starting from the reset state.
/// Default foreground and background are covered by the leading `0`.
pub fn sgr_sequence(fg: Color, bg: Color, attributes: Attributes) -> (r: String)
    ensures
        r@ == style_sequence(fg, bg, attributes),
{
    let mut params: String = owned("\x1b[0");
    if attributes.bold {
        params.push_str(";1");
    }
    if attributes.dim {
        params.push_str(";2");
    }
    if attributes.italic {
        params.push_str(";3");
    }
    if attributes.underline {
        params.push_str(";4");
    }
    if attributes.inverse {
        params.push_str(";7");
    }
    if attributes.strikeout {
        params.push_str(";9");
    }
    assert(params@ =~= "\x1b[0"@ + when(attributes.bold, ";1"@) + when(attributes.dim, ";2"@)
        + when(attributes.italic, ";3"@) + when(attributes.underline, ";4"@) + when(
        attributes.inverse,
        ";7"@,
    ) + when(attributes.strikeout, ";9"@));
    push_color(&mut params, fg, true);
    push_color(&mut params, bg, false);
    params.push_str("m");
    params
}

/// The style that text has when the program asked for none is written as a
/// bare reset.
pub proof fn default_style_is_a_reset()
    ensures
        style_sequence(
            Color::Named(NamedColor::Foreground),
            Color::Named(NamedColor::Background),
            Attributes::none(),
        ) == "\x1b[0m"@,
{
    reveal_strlit("\x1b[0");
    reveal_strlit("m");
    reveal_strlit("\x1b[0m");
    assert(style_sequence(
        Color::Named(NamedColor::Foreground),
        Color::Named(NamedColor::Background),
        Attributes::none(),
    ) =~= "\x1b[0m"@);
}

} // verus!
