//! What a frame shows, said of the cells that it was laid out from.

use vstd::prelude::*;

use crate::offsets;
use crate::terminal::color;
use crate::terminal::color::{Color, NamedColor, Rgb};
use crate::terminal::element;
use crate::terminal::element::{
    Cursor, CursorShape, Frame, PlacedCell, Run, RunStyle, Stretch, Viewport,
};
use crate::terminal::history::Cell;
use crate::terminal::color::Attributes;
use crate::terminal::selection::{GridPoint, SelectionRange, SelectionType};
use crate::theme::ThemeMode;

verus! {

// ---- Colors ----

/// A color by its three channels.
pub open spec fn rgb(r: int, g: int, b: int) -> Rgb {
    Rgb { r: r as u8, g: g as u8, b: b as u8 }
}

/// Whether a cell is among the selected ones.
pub open spec fn selected(v: Viewport, p: PlacedCell) -> bool {
    v.selection matches Some(range) && range.holds(p.point)
}

/// A cell with reverse video turned the other way.
pub open spec fn reversed(p: PlacedCell) -> PlacedCell {
    PlacedCell {
        cell: Cell {
            attributes: Attributes { inverse: !p.cell.attributes.inverse, ..p.cell.attributes },
            ..p.cell
        },
        ..p
    }
}

/// Reverse video exchanges the two colors of a cell that is not selected: its
/// text has the color that was behind it, and behind it is the color that its
/// text had. Without it, they are the cell's own two colors.
pub proof fn reverse_video_exchanges_the_colors(v: Viewport, p: PlacedCell)
    requires
        !selected(v, p),
    ensures
        element::run_style(v, reversed(p)).color == element::back_color(v, p),
        element::back_color(v, reversed(p)) == element::run_style(v, p).color,
        !p.cell.attributes.inverse ==> element::run_style(v, p).color == color::resolved(
            v.mode,
            p.cell.fg,
            v.colors.slots@,
        ) && element::back_color(v, p) == color::resolved(v.mode, p.cell.bg, v.colors.slots@),
        color::resolved(v.mode, p.cell.fg, v.colors.slots@) != color::resolved(
            v.mode,
            p.cell.bg,
            v.colors.slots@,
        ) ==> element::run_style(v, p).color != element::back_color(v, p),
{
}

/// Selecting a cell changes what is behind it and nothing of its text: whatever
/// its colors, the color behind it is that of the selection.
pub proof fn a_selection_shows_behind_the_text(v: Viewport, w: Viewport, p: PlacedCell)
    requires
        selected(v, p),
        w == (Viewport { selection: None, ..v }),
    ensures
        element::run_style(v, p) == element::run_style(w, p),
        v.mode == ThemeMode::Dark ==> element::back_color(v, p) == rgb(0x3e, 0x4f, 0x6f),
        v.mode == ThemeMode::Light ==> element::back_color(v, p) == rgb(0xbf, 0xd4, 0xef),
{
}

/// A color that a program gives by its channels is shown as it is; one that it
/// set at run time is shown as it was set.
pub proof fn programs_choose_their_colors(
    mode: ThemeMode,
    runtime: Seq<Option<Rgb>>,
    given: Rgb,
    index: u8,
    named: NamedColor,
)
    ensures
        color::resolved(mode, Color::Spec(given), runtime) == given,
        runtime[index as int] matches Some(set) ==> color::resolved(
            mode,
            Color::Indexed(index),
            runtime,
        ) == set,
        runtime[color::slot_of(named)] matches Some(set) ==> color::resolved(
            mode,
            Color::Named(named),
            runtime,
        ) == set,
        runtime[index as int] is None ==> color::resolved(mode, Color::Indexed(index), runtime)
            == color::palette_color(mode, index as int),
        runtime[color::slot_of(named)] is None ==> color::resolved(
            mode,
            Color::Named(named),
            runtime,
        ) == color::named_color(mode, named),
{
}

/// The strength of a channel at one of the six steps of the color cube.
pub open spec fn level(n: int) -> int {
    seq![0int, 95, 135, 175, 215, 255][n]
}

/// The palette beyond the basic colors: a cube of six levels to each channel,
/// and a ramp of grays, ten apart.
pub proof fn the_palette_is_a_cube_and_a_ramp(
    mode: ThemeMode,
    r: int,
    g: int,
    b: int,
    k: int,
)
    requires
        0 <= r < 6,
        0 <= g < 6,
        0 <= b < 6,
        0 <= k < 24,
    ensures
        color::palette_color(mode, 16 + 36 * r + 6 * g + b) == rgb(level(r), level(g), level(b)),
        color::palette_color(mode, 232 + k) == rgb(8 + 10 * k, 8 + 10 * k, 8 + 10 * k),
{
    let i = 36 * r + 6 * g + b;
    assert(i / 36 == r && (i / 6) % 6 == g && i % 6 == b);
}

/// The text and background of cells that name no color, light on dark or dark
/// on light.
pub proof fn default_colors(runtime: Seq<Option<Rgb>>)
    requires
        runtime[256] is None,
        runtime[257] is None,
        runtime[258] is None,
    ensures
        color::resolved(ThemeMode::Dark, Color::Named(NamedColor::Foreground), runtime) == rgb(
            0xab,
            0xb2,
            0xbf,
        ),
        color::resolved(ThemeMode::Dark, Color::Named(NamedColor::Background), runtime) == rgb(
            0x28,
            0x2c,
            0x33,
        ),
        color::resolved(ThemeMode::Dark, Color::Named(NamedColor::Cursor), runtime) == rgb(
            0xab,
            0xb2,
            0xbf,
        ),
        color::resolved(ThemeMode::Light, Color::Named(NamedColor::Foreground), runtime) == rgb(
            0x38,
            0x3a,
            0x42,
        ),
        color::resolved(ThemeMode::Light, Color::Named(NamedColor::Background), runtime) == rgb(
            0xfa,
            0xfa,
            0xfa,
        ),
        color::resolved(ThemeMode::Light, Color::Named(NamedColor::Cursor), runtime) == rgb(
            0x38,
            0x3a,
            0x42,
        ),
{
}

/// The sixteen basic colors of each palette, as `0xRRGGBB`.
pub open spec fn basics(mode: ThemeMode) -> Seq<u32> {
    match mode {
        ThemeMode::Dark => seq![
            0x3f4451u32,
            0xe05561,
            0x8cc265,
            0xd18f52,
            0x4aa5f0,
            0xc162de,
            0x42b3c2,
            0xd7dae0,
            0x4f5666,
            0xff616e,
            0xa5e075,
            0xf0a45d,
            0x4dc4ff,
            0xde73ff,
            0x4cd1e0,
            0xe6e6e6,
        ],
        ThemeMode::Light => seq![
            0x383a42u32,
            0xe45649,
            0x50a14f,
            0xc18401,
            0x4078f2,
            0xa626a4,
            0x0184bc,
            0xa0a1a7,
            0x696c77,
            0xca1243,
            0x23974a,
            0xdf6c1c,
            0x275fe4,
            0x823ff1,
            0x27618d,
            0x0f1013,
        ],
    }
}

/// The basic colors are those of the palette, by index and by name.
pub proof fn basic_colors(mode: ThemeMode, i: int)
    requires
        0 <= i < 16,
    ensures
        color::basic_hex(mode, i) == basics(mode)[i],
        ({
            let c = color::palette_color(mode, i);
            c.r * 0x10000 + c.g * 0x100 + c.b == basics(mode)[i]
        }),
{
    let hex = basics(mode)[i];
    assert(hex < 0x1000000);
    assert(((hex / 0x10000) % 0x100) * 0x10000 + ((hex / 0x100) % 0x100) * 0x100 + hex % 0x100
        == hex) by (nonlinear_arith)
        requires
            0 <= hex < 0x1000000,
    ;
}

// ---- Rows ----

/// The cells that a row of the viewport shows, in order: those on its line,
/// without the second halves of wide characters.
pub open spec fn cells_on(v: Viewport, cells: Seq<PlacedCell>, row: int) -> Seq<PlacedCell> {
    cells.filter(|p: PlacedCell| !p.cell.spacer && p.point.line + v.display_offset == row)
}

/// What is drawn of a cell: its character, or nothing where it is hidden.
pub open spec fn glyph(p: PlacedCell) -> char {
    if p.cell.hidden {
        ' '
    } else {
        p.cell.c
    }
}

/// How a cell's character looks: in the cell's own text color, or in that of
/// its background where it is in reverse video, and with its attributes.
pub open spec fn look(v: Viewport, p: PlacedCell) -> RunStyle {
    let a = p.cell.attributes;
    RunStyle {
        color: color::resolved(
            v.mode,
            if a.inverse {
                p.cell.bg
            } else {
                p.cell.fg
            },
            v.colors.slots@,
        ),
        dim: a.dim,
        bold: a.bold,
        italic: a.italic,
        underline: a.underline,
        strikethrough: a.strikeout,
    }
}

/// The bytes of a character in UTF-8.
pub open spec fn bytes_of(c: char) -> nat {
    let n = c as u32;
    if n <= 0x7f {
        1
    } else if n <= 0x7ff {
        2
    } else if n <= 0xffff {
        3
    } else {
        4
    }
}

/// The look of every byte of some cells' text.
pub open spec fn looks(v: Viewport, ps: Seq<PlacedCell>) -> Seq<RunStyle>
    decreases ps.len(),
{
    if ps.len() == 0 {
        Seq::empty()
    } else {
        looks(v, ps.drop_last()) + Seq::new(
            bytes_of(glyph(ps.last())),
            |i: int| look(v, ps.last()),
        )
    }
}

/// The style of every byte that some runs cover.
pub open spec fn spread(runs: Seq<Stretch>) -> Seq<RunStyle>
    decreases runs.len(),
{
    if runs.len() == 0 {
        Seq::empty()
    } else {
        spread(runs.drop_last()) + Seq::new(runs.last().len, |i: int| runs.last().style)
    }
}

proof fn lemma_spread_char(runs: Seq<Stretch>, width: nat, style: RunStyle)
    ensures
        spread(element::with_char(runs, width, style)) == spread(runs) + Seq::new(
            width,
            |i: int| style,
        ),
{
    let after = element::with_char(runs, width, style);
    if runs.len() > 0 && runs.last().style == style {
        assert(after.drop_last() =~= runs.drop_last());
        assert(spread(after) =~= spread(runs) + Seq::new(width, |i: int| style));
    } else {
        assert(after.drop_last() =~= runs);
        assert(spread(after) =~= spread(runs) + Seq::new(width, |i: int| style));
    }
}

proof fn lemma_row(v: Viewport, cells: Seq<PlacedCell>, row: int)
    requires
        0 <= row < v.num_rows,
    ensures
        element::row_text(v, cells, row) == cells_on(v, cells, row).map_values(
            |p: PlacedCell| glyph(p),
        ),
        spread(element::row_runs(v, cells, row)) == looks(v, cells_on(v, cells, row)),
    decreases cells.len(),
{
    reveal(Seq::filter);
    let shown = cells_on(v, cells, row);
    if cells.len() > 0 {
        let rest = cells.drop_last();
        let p = cells.last();
        lemma_row(v, rest, row);
        let before = cells_on(v, rest, row);
        if element::on_row(v, p, row) {
            assert(shown == before.push(p));
            assert(shown.drop_last() =~= before);
            lemma_spread_char(
                element::row_runs(v, rest, row),
                offsets::width8(element::drawn_char(p)),
                element::run_style(v, p),
            );
            assert(Seq::new(bytes_of(glyph(p)), |i: int| look(v, p)) =~= Seq::new(
                offsets::width8(element::drawn_char(p)),
                |i: int| element::run_style(v, p),
            ));
        }
    }
    assert(element::row_text(v, cells, row) =~= shown.map_values(|p: PlacedCell| glyph(p)));
}

/// Each row of a frame shows the cells of its line, in order: their characters,
/// and every byte of each in that cell's own look.
pub proof fn rows_show_their_cells(f: Frame, v: Viewport, cells: Seq<PlacedCell>, row: int)
    requires
        element::shows(f, v, cells),
        0 <= row < v.num_rows,
    ensures
        f.rows@.len() == v.num_rows,
        f.rows@[row].text@ == cells_on(v, cells, row).map_values(|p: PlacedCell| glyph(p)),
        spread(
            f.rows@[row].runs@.map_values(|r: Run| Stretch { len: r.len as nat, style: r.style }),
        ) == looks(v, cells_on(v, cells, row)),
{
    lemma_row(v, cells, row);
    assert(f.rows@[row].runs@.map_values(
        |r: Run| Stretch { len: r.len as nat, style: r.style },
    ) =~= element::stretches(f.rows@[row].runs@));
}

// ---- Backgrounds ----

/// The color behind a cell: the selection's, or the cell's own background, or
/// its text color where it is in reverse video.
pub open spec fn backdrop(v: Viewport, p: PlacedCell) -> Rgb {
    if selected(v, p) {
        match v.mode {
            ThemeMode::Dark => rgb(0x3e, 0x4f, 0x6f),
            ThemeMode::Light => rgb(0xbf, 0xd4, 0xef),
        }
    } else {
        color::resolved(
            v.mode,
            if p.cell.attributes.inverse {
                p.cell.fg
            } else {
                p.cell.bg
            },
            v.colors.slots@,
        )
    }
}

/// The terminal's own background, which needs no drawing.
pub open spec fn bare(v: Viewport) -> Rgb {
    match v.mode {
        ThemeMode::Dark => rgb(0x28, 0x2c, 0x33),
        ThemeMode::Light => rgb(0xfa, 0xfa, 0xfa),
    }
}

/// Whether a cell stands at a place of the viewport.
pub open spec fn stands_at(v: Viewport, p: PlacedCell, row: int, column: int) -> bool {
    &&& !p.cell.spacer
    &&& p.point.line + v.display_offset == row
    &&& 0 <= row < v.num_rows
    &&& p.point.column == column
}

/// Whether a cell gives a place of the viewport a background of its own.
pub open spec fn backs(v: Viewport, p: PlacedCell, row: int, column: int, color: Rgb) -> bool {
    stands_at(v, p, row, column) && backdrop(v, p) == color && color != bare(v)
}

/// Whether a stretch of background covers a place.
pub open spec fn covers(q: element::Patch, row: int, column: int, color: Rgb) -> bool {
    q.row == row && q.column <= column < q.column + q.width && q.color == color
}

proof fn lemma_backdrop(v: Viewport, p: PlacedCell)
    ensures
        element::back_color(v, p) == backdrop(v, p),
        element::plain_back(v) == bare(v),
{
}

/// Whether every covered place is covered for a cell that stands there.
pub open spec fn all_due(v: Viewport, cells: Seq<PlacedCell>, list: Seq<element::Patch>) -> bool {
    forall|k: int, row: int, column: int, color: Rgb|
        0 <= k < list.len() && #[trigger] covers(list[k], row, column, color) ==> exists|i: int|
            0 <= i < cells.len() && #[trigger] backs(v, cells[i], row, column, color)
}

/// Whether every cell with a background of its own has its place covered.
pub open spec fn all_done(v: Viewport, cells: Seq<PlacedCell>, list: Seq<element::Patch>) -> bool {
    forall|i: int, row: int, column: int, color: Rgb|
        0 <= i < cells.len() && #[trigger] backs(v, cells[i], row, column, color) ==> exists|
            k: int,
        |
            0 <= k < list.len() && #[trigger] covers(list[k], row, column, color)
}

proof fn lemma_backgrounds(v: Viewport, cells: Seq<PlacedCell>)
    ensures
        all_due(v, cells, element::backgrounds(v, cells)),
        all_done(v, cells, element::backgrounds(v, cells)),
        forall|k: int|
            0 <= k < element::backgrounds(v, cells).len() ==> (#[trigger] element::backgrounds(
                v,
                cells,
            )[k]).width >= 1,
    decreases cells.len(),
{
    let list = element::backgrounds(v, cells);
    if cells.len() > 0 {
        let rest = cells.drop_last();
        let p = cells.last();
        let before = element::backgrounds(v, rest);
        lemma_backgrounds(v, rest);
        lemma_backdrop(v, p);
        let at = p.point.line + v.display_offset;
        let col = p.point.column as int;
        let own = element::drawn(v, p) && element::back_color(v, p) != element::plain_back(v);
        assert(own == backs(v, p, at, col, backdrop(v, p)));
        let joined = own && before.len() > 0 && before.last().color == backdrop(v, p)
            && before.last().row == at && before.last().column + before.last().width == col;
        assert forall|k: int, row: int, column: int, color: Rgb|
            0 <= k < list.len() && #[trigger] covers(list[k], row, column, color) implies exists|
            i: int,
        |
            0 <= i < cells.len() && #[trigger] backs(v, cells[i], row, column, color) by {
            if own && row == at && column == col && k == list.len() - 1 {
                assert(backs(v, cells[cells.len() - 1], row, column, color));
            } else {
                if joined && k == list.len() - 1 {
                    assert(covers(before[k], row, column, color));
                } else {
                    assert(list[k] == before[k]);
                    assert(covers(before[k], row, column, color));
                }
                let i = choose|i: int|
                    0 <= i < rest.len() && #[trigger] backs(v, rest[i], row, column, color);
                assert(rest[i] == cells[i]);
                assert(backs(v, cells[i], row, column, color));
            }
        }
        assert forall|i: int, row: int, column: int, color: Rgb|
            0 <= i < cells.len() && #[trigger] backs(v, cells[i], row, column, color) implies exists|
            k: int,
        |
            0 <= k < list.len() && #[trigger] covers(list[k], row, column, color) by {
            if i == cells.len() - 1 {
                if joined {
                    assert(before[before.len() - 1].width >= 1);
                }
                assert(covers(list[list.len() - 1], row, column, color));
            } else {
                assert(rest[i] == cells[i]);
                assert(backs(v, rest[i], row, column, color));
                let k = choose|k: int|
                    0 <= k < before.len() && #[trigger] covers(before[k], row, column, color);
                if k < before.len() - 1 || !joined {
                    assert(list[k] == before[k]);
                }
                assert(covers(list[k], row, column, color));
            }
        }
    }
}

/// A frame has a background wherever a cell has one of its own, in that cell's
/// color, and nowhere else.
pub proof fn backgrounds_stand_behind_their_cells(f: Frame, v: Viewport, cells: Seq<PlacedCell>)
    requires
        element::shows(f, v, cells),
    ensures
        all_due(v, cells, element::patches(f.quads@)),
        all_done(v, cells, element::patches(f.quads@)),
        forall|k: int|
            0 <= k < f.quads@.len() ==> (#[trigger] element::patches(f.quads@)[k])
                == (element::Patch {
                row: f.quads@[k].row as int,
                column: f.quads@[k].column as int,
                width: f.quads@[k].width as int,
                color: f.quads@[k].color,
            }),
{
    lemma_backgrounds(v, cells);
}

// ---- The selection, the cursor and the pointer ----

/// A selection on one line holds the columns between its ends, both included.
/// Over several lines it holds the first from its start on, the last up to its
/// end, and those between whole; a block holds the same columns of each line.
pub proof fn a_selection_holds_what_lies_between(r: SelectionRange, p: GridPoint)
    ensures
        r.start.line == r.end.line && p.line == r.start.line ==> r.holds(p) == (r.start.column
            <= p.column <= r.end.column),
        p.line < r.start.line || p.line > r.end.line ==> !r.holds(p),
        !r.is_block && r.start.line < p.line < r.end.line ==> r.holds(p),
        !r.is_block && r.start.line == p.line && p.line < r.end.line ==> r.holds(p) == (p.column
            >= r.start.column),
        !r.is_block && r.start.line < p.line && p.line == r.end.line ==> r.holds(p) == (p.column
            <= r.end.column),
        r.is_block && r.start.line <= p.line <= r.end.line ==> r.holds(p) == (r.start.column
            <= p.column <= r.end.column),
{
}

/// The cursor is drawn where it is, in the text color, in its own shape where
/// the terminal has the keyboard and as a hollow block where it does not. A
/// focused block shows the character under it; a hidden cursor, or one that is
/// scrolled out of view, is not drawn.
pub proof fn the_cursor_is_where_it_is(
    v: Viewport,
    point: GridPoint,
    shape: CursorShape,
    focused: bool,
    under: char,
)
    ensures
        ({
            let row = point.line + v.display_offset;
            let visible = shape != CursorShape::Hidden && 0 <= row < v.num_rows;
            let drawn = element::cursor_of(v, point, shape, focused, under);
            &&& drawn is Some == visible
            &&& drawn matches Some(c) ==> {
                &&& c.row == row
                &&& c.column == point.column
                &&& c.color == (match v.mode {
                    ThemeMode::Dark => rgb(0xab, 0xb2, 0xbf),
                    ThemeMode::Light => rgb(0x38, 0x3a, 0x42),
                })
                &&& focused ==> c.shape == shape
                &&& !focused ==> c.shape == CursorShape::HollowBlock
                &&& c.overlay is Some == (focused && shape == CursorShape::Block && under != ' ')
                &&& c.overlay matches Some(o) ==> o == under
            }
        }),
{
}

/// The pointer on a cell of the viewport points at that cell, however far the
/// view is scrolled back; beyond an edge it points at the cell at that edge.
pub proof fn the_pointer_hits_its_cell(n: int, count: int)
    requires
        count > 0,
    ensures
        0 <= n < count ==> element::clamped(n, count) == n,
        n < 0 ==> element::clamped(n, count) == 0,
        n >= count ==> element::clamped(n, count) == count - 1,
{
}

/// One click selects by cells, two by words, and more by lines.
pub proof fn clicks_widen_the_selection(count: nat)
    ensures
        element::click_kind_of(1) == SelectionType::Simple,
        element::click_kind_of(2) == SelectionType::Semantic,
        count > 2 ==> element::click_kind_of(count) == SelectionType::Lines,
{
}

} // verus!
