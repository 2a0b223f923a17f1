//! Reading styled text back: what a terminal makes of a saved line, and that it
//! is what the line was saved from.

use vstd::prelude::*;

use crate::terminal::color;
use crate::terminal::color::{Attributes, Color, NamedColor, Rgb};
use crate::terminal::history;
use crate::terminal::history::{Cell, CellStyle};
use crate::text;

verus! {

// ---- A terminal that reads ----

/// What a reading terminal is in the middle of.
pub enum Mode {
    Text,
    Escape,
    /// The parameters of a sequence: those that are complete, and the digits of
    /// the one being read.
    Params(Seq<nat>, nat),
}

/// A reading terminal: the style in force, and the characters it has shown,
/// each in its style.
pub struct Reader {
    pub mode: Mode,
    pub style: CellStyle,
    pub out: Seq<(char, CellStyle)>,
}

/// A terminal in the reset state.
pub open spec fn fresh() -> Reader {
    Reader { mode: Mode::Text, style: plain(), out: Seq::empty() }
}

/// The reset style: the terminal's own colors, and no attribute.
pub open spec fn plain() -> CellStyle {
    CellStyle {
        fg: Color::Named(NamedColor::Foreground),
        bg: Color::Named(NamedColor::Background),
        attributes: Attributes {
            bold: false,
            dim: false,
            italic: false,
            underline: false,
            inverse: false,
            strikeout: false,
        },
    }
}

/// The basic color at a place from 0 to 7, and its bright form from 8 to 15.
pub open spec fn basic(n: nat) -> NamedColor {
    if n == 0 {
        NamedColor::Black
    } else if n == 1 {
        NamedColor::Red
    } else if n == 2 {
        NamedColor::Green
    } else if n == 3 {
        NamedColor::Yellow
    } else if n == 4 {
        NamedColor::Blue
    } else if n == 5 {
        NamedColor::Magenta
    } else if n == 6 {
        NamedColor::Cyan
    } else if n == 7 {
        NamedColor::White
    } else if n == 8 {
        NamedColor::BrightBlack
    } else if n == 9 {
        NamedColor::BrightRed
    } else if n == 10 {
        NamedColor::BrightGreen
    } else if n == 11 {
        NamedColor::BrightYellow
    } else if n == 12 {
        NamedColor::BrightBlue
    } else if n == 13 {
        NamedColor::BrightMagenta
    } else if n == 14 {
        NamedColor::BrightCyan
    } else {
        NamedColor::BrightWhite
    }
}

/// What one parameter on its own does to a style.
pub open spec fn set_by(style: CellStyle, n: nat) -> CellStyle {
    let a = style.attributes;
    if n == 0 {
        plain()
    } else if n == 1 {
        CellStyle { attributes: Attributes { bold: true, ..a }, ..style }
    } else if n == 2 {
        CellStyle { attributes: Attributes { dim: true, ..a }, ..style }
    } else if n == 3 {
        CellStyle { attributes: Attributes { italic: true, ..a }, ..style }
    } else if n == 4 {
        CellStyle { attributes: Attributes { underline: true, ..a }, ..style }
    } else if n == 7 {
        CellStyle { attributes: Attributes { inverse: true, ..a }, ..style }
    } else if n == 9 {
        CellStyle { attributes: Attributes { strikeout: true, ..a }, ..style }
    } else if 30 <= n <= 37 {
        CellStyle { fg: Color::Named(basic((n - 30) as nat)), ..style }
    } else if 40 <= n <= 47 {
        CellStyle { bg: Color::Named(basic((n - 40) as nat)), ..style }
    } else if 90 <= n <= 97 {
        CellStyle { fg: Color::Named(basic((n - 90 + 8) as nat)), ..style }
    } else if 100 <= n <= 107 {
        CellStyle { bg: Color::Named(basic((n - 100 + 8) as nat)), ..style }
    } else {
        style
    }
}

/// A style with one of its two colors set.
pub open spec fn with_color(style: CellStyle, foreground: bool, color: Color) -> CellStyle {
    if foreground {
        CellStyle { fg: color, ..style }
    } else {
        CellStyle { bg: color, ..style }
    }
}

/// What the parameters of a sequence do to a style, one after the other: 38 and
/// 48 take a palette index behind a 5, or three channels behind a 2.
pub open spec fn applied(style: CellStyle, ps: Seq<nat>) -> CellStyle
    decreases ps.len(),
{
    if ps.len() == 0 {
        style
    } else if (ps[0] == 38 || ps[0] == 48) && ps.len() >= 3 && ps[1] == 5 {
        applied(with_color(style, ps[0] == 38, Color::Indexed(ps[2] as u8)), ps.skip(3))
    } else if (ps[0] == 38 || ps[0] == 48) && ps.len() >= 5 && ps[1] == 2 {
        applied(
            with_color(
                style,
                ps[0] == 38,
                Color::Spec(Rgb { r: ps[2] as u8, g: ps[3] as u8, b: ps[4] as u8 }),
            ),
            ps.skip(5),
        )
    } else {
        applied(set_by(style, ps[0]), ps.skip(1))
    }
}

/// The terminal reads one character.
pub open spec fn step(r: Reader, c: char) -> Reader {
    match r.mode {
        Mode::Text => if c == '\x1b' {
            Reader { mode: Mode::Escape, ..r }
        } else {
            Reader { out: r.out.push((c, r.style)), ..r }
        },
        Mode::Escape => if c == '[' {
            Reader { mode: Mode::Params(Seq::empty(), 0), ..r }
        } else {
            Reader { mode: Mode::Text, ..r }
        },
        Mode::Params(done, n) => if '0' <= c && c <= '9' {
            Reader { mode: Mode::Params(done, n * 10 + (c as nat - '0' as nat) as nat), ..r }
        } else if c == ';' {
            Reader { mode: Mode::Params(done.push(n), 0), ..r }
        } else if c == 'm' {
            Reader { mode: Mode::Text, style: applied(r.style, done.push(n)), ..r }
        } else {
            Reader { mode: Mode::Text, ..r }
        },
    }
}

/// The terminal reads a text.
pub open spec fn read(r: Reader, s: Seq<char>) -> Reader
    decreases s.len(),
{
    if s.len() == 0 {
        r
    } else {
        step(read(r, s.drop_last()), s.last())
    }
}

proof fn lemma_read_add(r: Reader, a: Seq<char>, b: Seq<char>)
    ensures
        read(r, a + b) == read(read(r, a), b),
    decreases b.len(),
{
    if b.len() == 0 {
        assert(a + b =~= a);
    } else {
        assert((a + b).drop_last() =~= a + b.drop_last());
        assert((a + b).last() == b.last());
        lemma_read_add(r, a, b.drop_last());
    }
}

proof fn lemma_read_one(r: Reader, c: char)
    ensures
        read(r, seq![c]) == step(r, c),
{
    assert(seq![c].drop_last() =~= Seq::<char>::empty());
    reveal_with_fuel(read, 2);
}

// ---- What a style becomes ----

/// A color as a sequence can ask for it: the dim colors are asked for as the
/// color they are of, and those that belong to the terminal as its default.
pub open spec fn asked(color: Color, default_color: NamedColor) -> Color {
    match color {
        Color::Named(NamedColor::DimBlack) => Color::Named(NamedColor::Black),
        Color::Named(NamedColor::DimRed) => Color::Named(NamedColor::Red),
        Color::Named(NamedColor::DimGreen) => Color::Named(NamedColor::Green),
        Color::Named(NamedColor::DimYellow) => Color::Named(NamedColor::Yellow),
        Color::Named(NamedColor::DimBlue) => Color::Named(NamedColor::Blue),
        Color::Named(NamedColor::DimMagenta) => Color::Named(NamedColor::Magenta),
        Color::Named(NamedColor::DimCyan) => Color::Named(NamedColor::Cyan),
        Color::Named(NamedColor::DimWhite) => Color::Named(NamedColor::White),
        Color::Named(NamedColor::Foreground) => Color::Named(default_color),
        Color::Named(NamedColor::Background) => Color::Named(default_color),
        Color::Named(NamedColor::Cursor) => Color::Named(default_color),
        Color::Named(NamedColor::BrightForeground) => Color::Named(default_color),
        Color::Named(NamedColor::DimForeground) => Color::Named(default_color),
        other => other,
    }
}

/// A cell's style as sequences can ask for it: its own colors and attributes.
pub open spec fn asked_style(cell: Cell) -> CellStyle {
    CellStyle {
        fg: asked(cell.fg, NamedColor::Foreground),
        bg: asked(cell.bg, NamedColor::Background),
        attributes: cell.attributes,
    }
}

proof fn lemma_decimal(style: CellStyle, out: Seq<(char, CellStyle)>, done: Seq<nat>, n: nat)
    ensures
        read(Reader { mode: Mode::Params(done, 0), style, out }, text::decimal_of(n)) == (Reader {
            mode: Mode::Params(done, n),
            style,
            out,
        }),
    decreases n,
{
    let r = Reader { mode: Mode::Params(done, 0), style, out };
    if n < 10 {
        lemma_read_one(r, text::digit_char(n));
    } else {
        let front = text::decimal_of(n / 10);
        lemma_decimal(style, out, done, n / 10);
        assert(front.push(text::digit_char(n % 10)).drop_last() =~= front);
    }
}

/// A terminal that has read some parameters, the last of them not complete.
pub open spec fn amid(style: CellStyle, out: Seq<(char, CellStyle)>, done: Seq<nat>, n: nat) -> Reader {
    Reader { mode: Mode::Params(done, n), style, out }
}

proof fn lemma_param(
    style: CellStyle,
    out: Seq<(char, CellStyle)>,
    done: Seq<nat>,
    n: nat,
    code: nat,
)
    ensures
        read(amid(style, out, done, n), seq![';'] + text::decimal_of(code)) == amid(
            style,
            out,
            done.push(n),
            code,
        ),
{
    let r = amid(style, out, done, n);
    lemma_read_add(r, seq![';'], text::decimal_of(code));
    lemma_read_one(r, ';');
    lemma_decimal(style, out, done.push(n), code);
}

/// The parameters that a color is asked for with.
pub open spec fn color_codes(color: Color, foreground: bool) -> Seq<nat> {
    let lead: nat = if foreground {
        38
    } else {
        48
    };
    match color {
        Color::Named(named) => match color::named_code(named, foreground) {
            Some(code) => seq![code],
            None => Seq::empty(),
        },
        Color::Indexed(i) => seq![lead, 5, i as nat],
        Color::Spec(rgb) => seq![lead, 2, rgb.r as nat, rgb.g as nat, rgb.b as nat],
    }
}

/// Some parameters as they are written: each behind a semicolon.
pub open spec fn written(codes: Seq<nat>) -> Seq<char>
    decreases codes.len(),
{
    if codes.len() == 0 {
        Seq::empty()
    } else {
        written(codes.drop_last()) + (seq![';'] + text::decimal_of(codes.last()))
    }
}

proof fn lemma_written_add(a: Seq<nat>, b: Seq<nat>)
    ensures
        written(a + b) == written(a) + written(b),
    decreases b.len(),
{
    if b.len() == 0 {
        assert(a + b =~= a);
        assert(written(a) + written(b) =~= written(a));
    } else {
        assert((a + b).drop_last() =~= a + b.drop_last());
        lemma_written_add(a, b.drop_last());
        assert(written(a + b) =~= written(a) + written(b));
    }
}

proof fn lemma_written_one(n: nat)
    ensures
        written(seq![n]) == seq![';'] + text::decimal_of(n),
{
    assert(seq![n].drop_last() =~= Seq::<nat>::empty());
    reveal_with_fuel(written, 2);
    assert(written(seq![n]) =~= seq![';'] + text::decimal_of(n));
}

proof fn lemma_read_written(
    style: CellStyle,
    out: Seq<(char, CellStyle)>,
    codes: Seq<nat>,
)
    ensures
        read(amid(style, out, Seq::empty(), 0), written(codes)) == amid(
            style,
            out,
            (seq![0nat] + codes).drop_last(),
            (seq![0nat] + codes).last(),
        ),
    decreases codes.len(),
{
    let start = amid(style, out, Seq::empty(), 0);
    if codes.len() == 0 {
        assert((seq![0nat] + codes).drop_last() =~= Seq::<nat>::empty());
    } else {
        let front = codes.drop_last();
        lemma_read_written(style, out, front);
        let all = seq![0nat] + front;
        lemma_read_add(start, written(front), seq![';'] + text::decimal_of(codes.last()));
        lemma_param(style, out, all.drop_last(), all.last(), codes.last());
        assert((seq![0nat] + codes).drop_last() =~= all.drop_last().push(all.last()));
    }
}

/// `n` alone where `on` holds.
pub open spec fn only_if(on: bool, n: nat) -> Seq<nat> {
    if on {
        seq![n]
    } else {
        Seq::empty()
    }
}

/// The parameters that a style is asked for with, behind the reset.
pub open spec fn style_codes(fg: Color, bg: Color, a: Attributes) -> Seq<nat> {
    only_if(a.bold, 1) + only_if(a.dim, 2) + only_if(a.italic, 3) + only_if(a.underline, 4)
        + only_if(a.inverse, 7) + only_if(a.strikeout, 9) + color_codes(fg, true) + color_codes(
        bg,
        false,
    )
}

proof fn lemma_when(on: bool, n: nat, s: Seq<char>)
    requires
        s == seq![';'] + text::decimal_of(n),
    ensures
        color::when(on, s) == written(only_if(on, n)),
{
    lemma_written_one(n);
}

proof fn lemma_color_written(color: Color, foreground: bool)
    ensures
        color::color_params(color, foreground) == written(color_codes(color, foreground)),
{
    reveal_strlit(";");
    reveal_strlit(";38");
    reveal_strlit(";48");
    reveal_strlit(";5;");
    reveal_strlit(";2;");
    let lead: nat = if foreground {
        38
    } else {
        48
    };
    assert(";"@ =~= seq![';']);
    assert(text::decimal_of(lead) =~= seq![if foreground { '3' } else { '4' }, '8']) by {
        reveal_with_fuel(text::decimal_of, 3);
    }
    assert(text::decimal_of(5) =~= seq!['5']);
    assert(text::decimal_of(2) =~= seq!['2']);
    match color {
        Color::Named(named) => {
            if let Some(code) = color::named_code(named, foreground) {
                lemma_written_one(code);
            }
        },
        Color::Indexed(i) => {
            lemma_written_one(lead);
            lemma_written_one(5);
            lemma_written_one(i as nat);
            lemma_written_add(seq![lead], seq![5nat]);
            lemma_written_add(seq![lead] + seq![5nat], seq![i as nat]);
            assert(color_codes(color, foreground) =~= seq![lead] + seq![5nat] + seq![i as nat]);
            assert(color::color_params(color, foreground) =~= written(
                color_codes(color, foreground),
            ));
        },
        Color::Spec(rgb) => {
            let (r, g, b) = (rgb.r as nat, rgb.g as nat, rgb.b as nat);
            lemma_written_one(lead);
            lemma_written_one(2);
            lemma_written_one(r);
            lemma_written_one(g);
            lemma_written_one(b);
            lemma_written_add(seq![lead], seq![2nat]);
            lemma_written_add(seq![lead] + seq![2nat], seq![r]);
            lemma_written_add(seq![lead] + seq![2nat] + seq![r], seq![g]);
            lemma_written_add(seq![lead] + seq![2nat] + seq![r] + seq![g], seq![b]);
            assert(color_codes(color, foreground) =~= seq![lead] + seq![2nat] + seq![r] + seq![g]
                + seq![b]);
            assert(color::color_params(color, foreground) =~= written(
                color_codes(color, foreground),
            ));
        },
    }
}

proof fn lemma_gather<T>(
    head: Seq<T>,
    a: Seq<T>,
    b: Seq<T>,
    c: Seq<T>,
    d: Seq<T>,
    e: Seq<T>,
    f: Seq<T>,
    g: Seq<T>,
    h: Seq<T>,
    tail: Seq<T>,
)
    ensures
        head + a + b + c + d + e + f + g + h + tail == head + (a + b + c + d + e + f + g + h)
            + tail,
        head + (a + b + c + d + e + f + g + h) == head + (a + (b + (c + (d + (e + (f + (g + (h
            + Seq::<T>::empty())))))))),
{
    let ab = a + b;
    let abc = ab + c;
    let abcd = abc + d;
    let abcde = abcd + e;
    let abcdef = abcde + f;
    let abcdefg = abcdef + g;
    let all = abcdefg + h;
    assert(head + a + b =~= head + ab);
    assert(head + ab + c =~= head + abc);
    assert(head + abc + d =~= head + abcd);
    assert(head + abcd + e =~= head + abcde);
    assert(head + abcde + f =~= head + abcdef);
    assert(head + abcdef + g =~= head + abcdefg);
    assert(head + abcdefg + h =~= head + all);
    let h0 = h + Seq::<T>::empty();
    assert(h0 =~= h);
    assert(abcdefg + h =~= abcdef + (g + h));
    assert(abcdef + (g + h) =~= abcde + (f + (g + h)));
    assert(abcde + (f + (g + h)) =~= abcd + (e + (f + (g + h))));
    assert(abcd + (e + (f + (g + h))) =~= abc + (d + (e + (f + (g + h)))));
    assert(abc + (d + (e + (f + (g + h)))) =~= ab + (c + (d + (e + (f + (g + h))))));
    assert(ab + (c + (d + (e + (f + (g + h))))) =~= a + (b + (c + (d + (e + (f + (g + h)))))));
}

proof fn lemma_sequence_written(fg: Color, bg: Color, a: Attributes)
    ensures
        color::style_sequence(fg, bg, a) == seq!['\x1b', '[', '0'] + written(
            style_codes(fg, bg, a),
        ) + seq!['m'],
{
    reveal_strlit("\x1b[0");
    reveal_strlit("m");
    assert("\x1b[0"@ =~= seq!['\x1b', '[', '0']);
    assert("m"@ =~= seq!['m']);
    lemma_attributes_written(a);
    lemma_color_written(fg, true);
    lemma_color_written(bg, false);
    lemma_gather(
        "\x1b[0"@,
        color::when(a.bold, ";1"@),
        color::when(a.dim, ";2"@),
        color::when(a.italic, ";3"@),
        color::when(a.underline, ";4"@),
        color::when(a.inverse, ";7"@),
        color::when(a.strikeout, ";9"@),
        color::color_params(fg, true),
        color::color_params(bg, false),
        "m"@,
    );
    let c1 = only_if(a.bold, 1);
    let c2 = c1 + only_if(a.dim, 2);
    let c3 = c2 + only_if(a.italic, 3);
    let c4 = c3 + only_if(a.underline, 4);
    let c5 = c4 + only_if(a.inverse, 7);
    let c6 = c5 + only_if(a.strikeout, 9);
    let c7 = c6 + color_codes(fg, true);
    lemma_written_add(c1, only_if(a.dim, 2));
    lemma_written_add(c2, only_if(a.italic, 3));
    lemma_written_add(c3, only_if(a.underline, 4));
    lemma_written_add(c4, only_if(a.inverse, 7));
    lemma_written_add(c5, only_if(a.strikeout, 9));
    lemma_written_add(c6, color_codes(fg, true));
    lemma_written_add(c7, color_codes(bg, false));
}

proof fn lemma_attributes_written(a: Attributes)
    ensures
        color::when(a.bold, ";1"@) == written(only_if(a.bold, 1)),
        color::when(a.dim, ";2"@) == written(only_if(a.dim, 2)),
        color::when(a.italic, ";3"@) == written(only_if(a.italic, 3)),
        color::when(a.underline, ";4"@) == written(only_if(a.underline, 4)),
        color::when(a.inverse, ";7"@) == written(only_if(a.inverse, 7)),
        color::when(a.strikeout, ";9"@) == written(only_if(a.strikeout, 9)),
{
    reveal_strlit(";1");
    reveal_strlit(";2");
    reveal_strlit(";3");
    reveal_strlit(";4");
    reveal_strlit(";7");
    reveal_strlit(";9");
    assert(";1"@ =~= seq![';'] + text::decimal_of(1));
    assert(";2"@ =~= seq![';'] + text::decimal_of(2));
    assert(";3"@ =~= seq![';'] + text::decimal_of(3));
    assert(";4"@ =~= seq![';'] + text::decimal_of(4));
    assert(";7"@ =~= seq![';'] + text::decimal_of(7));
    assert(";9"@ =~= seq![';'] + text::decimal_of(9));
    lemma_when(a.bold, 1, ";1"@);
    lemma_when(a.dim, 2, ";2"@);
    lemma_when(a.italic, 3, ";3"@);
    lemma_when(a.underline, 4, ";4"@);
    lemma_when(a.inverse, 7, ";7"@);
    lemma_when(a.strikeout, 9, ";9"@);
}

proof fn lemma_apply_one(style: CellStyle, n: nat, rest: Seq<nat>)
    requires
        n != 38 && n != 48,
    ensures
        applied(style, seq![n] + rest) == applied(set_by(style, n), rest),
{
    assert((seq![n] + rest).skip(1) =~= rest);
}

proof fn lemma_apply_if(style: CellStyle, on: bool, n: nat, rest: Seq<nat>)
    requires
        n != 38 && n != 48,
    ensures
        applied(style, only_if(on, n) + rest) == applied(
            if on {
                set_by(style, n)
            } else {
                style
            },
            rest,
        ),
{
    if on {
        lemma_apply_one(style, n, rest);
    } else {
        assert(only_if(on, n) + rest =~= rest);
    }
}

proof fn lemma_apply_color(style: CellStyle, color: Color, foreground: bool, rest: Seq<nat>)
    requires
        style.fg == plain().fg || !foreground,
        style.bg == plain().bg,
    ensures
        applied(style, color_codes(color, foreground) + rest) == applied(
            with_color(
                style,
                foreground,
                asked(
                    color,
                    if foreground {
                        NamedColor::Foreground
                    } else {
                        NamedColor::Background
                    },
                ),
            ),
            rest,
        ),
{
    let ps = color_codes(color, foreground) + rest;
    match color {
        Color::Named(named) => {
            match color::named_code(named, foreground) {
                Some(code) => {
                    lemma_apply_one(style, code, rest);
                },
                None => {
                    assert(ps =~= rest);
                    assert(with_color(
                        style,
                        foreground,
                        asked(
                            color,
                            if foreground {
                                NamedColor::Foreground
                            } else {
                                NamedColor::Background
                            },
                        ),
                    ) == style);
                },
            }
        },
        Color::Indexed(i) => {
            assert(ps.skip(3) =~= rest);
        },
        Color::Spec(rgb) => {
            assert(ps.skip(5) =~= rest);
        },
    }
}

proof fn lemma_style_applied(style: CellStyle, cell: Cell)
    ensures
        applied(
            style,
            seq![0nat] + style_codes(cell.fg, cell.bg, cell.attributes),
        ) == asked_style(cell),
{
    let a = cell.attributes;
    let none = Seq::<nat>::empty();
    let r8 = color_codes(cell.bg, false) + none;
    let r7 = color_codes(cell.fg, true) + r8;
    let r6 = only_if(a.strikeout, 9) + r7;
    let r5 = only_if(a.inverse, 7) + r6;
    let r4 = only_if(a.underline, 4) + r5;
    let r3 = only_if(a.italic, 3) + r4;
    let r2 = only_if(a.dim, 2) + r3;
    let r1 = only_if(a.bold, 1) + r2;
    lemma_gather(
        seq![0nat],
        only_if(a.bold, 1),
        only_if(a.dim, 2),
        only_if(a.italic, 3),
        only_if(a.underline, 4),
        only_if(a.inverse, 7),
        only_if(a.strikeout, 9),
        color_codes(cell.fg, true),
        color_codes(cell.bg, false),
        none,
    );
    let s0 = plain();
    lemma_apply_one(style, 0, r1);
    lemma_apply_if(s0, a.bold, 1, r2);
    let s1 = if a.bold { set_by(s0, 1) } else { s0 };
    lemma_apply_if(s1, a.dim, 2, r3);
    let s2 = if a.dim { set_by(s1, 2) } else { s1 };
    lemma_apply_if(s2, a.italic, 3, r4);
    let s3 = if a.italic { set_by(s2, 3) } else { s2 };
    lemma_apply_if(s3, a.underline, 4, r5);
    let s4 = if a.underline { set_by(s3, 4) } else { s3 };
    lemma_apply_if(s4, a.inverse, 7, r6);
    let s5 = if a.inverse { set_by(s4, 7) } else { s4 };
    lemma_apply_if(s5, a.strikeout, 9, r7);
    let s6 = if a.strikeout { set_by(s5, 9) } else { s5 };
    assert(s6.attributes == a);
    lemma_apply_color(s6, cell.fg, true, r8);
    let s7 = with_color(s6, true, asked(cell.fg, NamedColor::Foreground));
    lemma_apply_color(s7, cell.bg, false, none);
}

/// Reading a style's sequence sets that style, whatever was in force: the
/// colors and the attributes, all of them and no others.
pub proof fn a_sequence_sets_its_style(r: Reader, cell: Cell)
    requires
        r.mode is Text,
    ensures
        read(r, color::style_sequence(cell.fg, cell.bg, cell.attributes)) == (Reader {
            mode: Mode::Text,
            style: asked_style(cell),
            out: r.out,
        }),
{
    let codes = style_codes(cell.fg, cell.bg, cell.attributes);
    let head = seq!['\x1b', '[', '0'];
    lemma_sequence_written(cell.fg, cell.bg, cell.attributes);
    lemma_read_add(r, head + written(codes), seq!['m']);
    lemma_read_add(r, head, written(codes));
    assert(head =~= seq!['\x1b'] + seq!['['] + seq!['0']);
    lemma_read_add(r, seq!['\x1b'] + seq!['['], seq!['0']);
    lemma_read_add(r, seq!['\x1b'], seq!['[']);
    lemma_read_one(r, '\x1b');
    lemma_read_one(step(r, '\x1b'), '[');
    lemma_read_one(step(step(r, '\x1b'), '['), '0');
    assert(read(r, head) == amid(r.style, r.out, Seq::empty(), 0));
    lemma_read_written(r.style, r.out, codes);
    let all = seq![0nat] + codes;
    let last = amid(r.style, r.out, all.drop_last(), all.last());
    lemma_read_one(last, 'm');
    assert(all.drop_last().push(all.last()) =~= all);
    lemma_style_applied(r.style, cell);
}

// ---- Saved lines ----

/// What a cell shows: its character, an empty cell a space, in its own style.
pub open spec fn seen(cell: Cell) -> (char, CellStyle) {
    (
        if cell.c == '\0' {
            ' '
        } else {
            cell.c
        },
        asked_style(cell),
    )
}

/// What some cells show, those without anything of their own left out.
pub open spec fn seen_all(cells: Seq<Cell>) -> Seq<(char, CellStyle)>
    decreases cells.len(),
{
    if cells.len() == 0 {
        Seq::empty()
    } else if cells.last().spacer {
        seen_all(cells.drop_last())
    } else {
        seen_all(cells.drop_last()).push(seen(cells.last()))
    }
}

/// Whether a cell would be missed: it has a character other than a space, or a
/// background, or a line through or under it.
pub open spec fn missed(cell: Cell) -> bool {
    !cell.spacer && (cell.c != ' ' && cell.c != '\0' || cell.bg != Color::Named(
        NamedColor::Background,
    ) || cell.attributes.inverse || cell.attributes.underline || cell.attributes.strikeout)
}

/// A style as sequences can ask for it.
pub open spec fn asked_of(style: CellStyle) -> CellStyle {
    CellStyle {
        fg: asked(style.fg, NamedColor::Foreground),
        bg: asked(style.bg, NamedColor::Background),
        attributes: style.attributes,
    }
}

proof fn lemma_read_styled(cells: Seq<Cell>)
    requires
        forall|i: int| 0 <= i < cells.len() ==> (#[trigger] cells[i]).c != '\x1b',
    ensures
        read(fresh(), history::styled(cells)) == (Reader {
            mode: Mode::Text,
            style: asked_of(history::style_after(cells)),
            out: seen_all(cells),
        }),
        history::style_after(cells) != history::default_style() ==> history::styled(
            cells,
        ).contains('\x1b'),
    decreases cells.len(),
{
    if cells.len() > 0 {
        let front = cells.drop_last();
        let cell = cells.last();
        assert forall|i: int| 0 <= i < front.len() implies (#[trigger] front[i]).c != '\x1b' by {
            assert(front[i] == cells[i]);
        }
        assert(cell == cells[cells.len() - 1]);
        lemma_read_styled(front);
        let before = history::styled(front);
        let current = history::style_after(front);
        let t = history::cell_text(cell, current);
        let r = read(fresh(), before);
        lemma_read_add(fresh(), before, t);
        if before.contains('\x1b') {
            let k = choose|k: int| 0 <= k < before.len() && before[k] == '\x1b';
            assert((before + t)[k] == '\x1b');
        }
        if !cell.spacer {
            let style = history::style_of(cell);
            if style == current {
                lemma_read_one(r, history::shown(cell));
            } else {
                let sequence = color::style_sequence(cell.fg, cell.bg, cell.attributes);
                lemma_read_add(r, sequence, seq![history::shown(cell)]);
                assert(t =~= sequence + seq![history::shown(cell)]);
                a_sequence_sets_its_style(r, cell);
                lemma_read_one(read(r, sequence), history::shown(cell));
                lemma_sequence_written(cell.fg, cell.bg, cell.attributes);
                assert(t[0] == '\x1b');
                assert((before + t)[before.len() as int] == '\x1b');
            }
        } else {
            assert(before + t =~= before);
        }
    }
}

proof fn lemma_kept(cells: Seq<Cell>)
    ensures
        history::kept_len(cells) <= cells.len(),
        forall|i: int| history::kept_len(cells) <= i < cells.len() ==> !missed(#[trigger] cells[i]),
        history::kept_len(cells) > 0 ==> missed(cells[history::kept_len(cells) - 1]),
    decreases cells.len(),
{
    if cells.len() > 0 {
        let front = cells.drop_last();
        assert(cells.last() == cells[cells.len() - 1]);
        lemma_kept(front);
        let n = history::kept_len(cells);
        if n < cells.len() {
            assert forall|i: int| n <= i < cells.len() implies !missed(#[trigger] cells[i]) by {
                if i < front.len() {
                    assert(front[i] == cells[i]);
                }
            }
            if n > 0 {
                assert(front[n - 1] == cells[n - 1]);
            }
        }
    }
}

/// Replaying a saved line gives each kept cell back, its character in its own
/// style, and leaves the terminal in the reset state. What is not kept is only
/// what would not be missed at the end of the row.
pub proof fn a_replayed_line_looks_as_it_did(cells: Seq<Cell>)
    requires
        forall|i: int| 0 <= i < cells.len() ==> (#[trigger] cells[i]).c != '\x1b',
    ensures
        exists|n: int|
            {
                &&& 0 <= n <= cells.len()
                &&& #[trigger] read(fresh(), history::line_of(cells)) == (Reader {
                    mode: Mode::Text,
                    style: plain(),
                    out: seen_all(cells.take(n)),
                })
                &&& forall|i: int| n <= i < cells.len() ==> !missed(#[trigger] cells[i])
                &&& n > 0 ==> missed(cells[n - 1])
            },
{
    let n = history::kept_len(cells) as int;
    lemma_kept(cells);
    let kept = cells.take(n);
    assert forall|i: int| 0 <= i < kept.len() implies (#[trigger] kept[i]).c != '\x1b' by {
        assert(kept[i] == cells[i]);
    }
    lemma_read_styled(kept);
    let t = history::styled(kept);
    if t.contains('\x1b') {
        let none = Cell {
            c: ' ',
            fg: plain().fg,
            bg: plain().bg,
            attributes: plain().attributes,
            hidden: false,
            spacer: false,
        };
        color::default_style_is_a_reset();
        lemma_read_add(fresh(), t, "\x1b[0m"@);
        a_sequence_sets_its_style(read(fresh(), t), none);
    }
    assert(read(fresh(), history::line_of(cells)) == (Reader {
        mode: Mode::Text,
        style: plain(),
        out: seen_all(cells.take(n)),
    }));
}

} // verus!
