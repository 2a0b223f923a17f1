//! What a frame of the terminal shows: the text and the style runs of each
//! row, the background behind the cells, and the cursor.

use vstd::prelude::*;

use crate::offsets;
use crate::offsets::len_utf8;
use crate::terminal::color;
use crate::terminal::color::{default_bg_hex, hex_to_rgb, palette_rgb, resolve_color, slot, Colors, NamedColor, Rgb};
use crate::terminal::history::Cell;
use crate::terminal::selection::{GridPoint, SelectionRange, SelectionType, Side};
use crate::theme;
use crate::theme::{terminal_selection_bg, ThemeMode};

verus! {

/// A cell together with where it stands in the grid.
#[derive(Clone, Copy, PartialEq, Eq, Structural, Debug)]
pub struct PlacedCell {
    pub point: GridPoint,
    pub cell: Cell,
}

/// How a run of text is drawn.
#[derive(Clone, Copy, PartialEq, Eq, Structural, Debug)]
pub struct RunStyle {
    pub color: Rgb,
    pub dim: bool,
    pub bold: bool,
    pub italic: bool,
    pub underline: bool,
    pub strikethrough: bool,
}

/// A run of text in one style, by its length in bytes.
#[derive(Clone, Copy, PartialEq, Eq, Structural, Debug)]
pub struct Run {
    pub len: usize,
    pub style: RunStyle,
}

/// A stretch of cells on one row with a background of its own.
#[derive(Clone, Copy, PartialEq, Eq, Structural, Debug)]
pub struct Quad {
    pub row: usize,
    pub column: usize,
    pub width: usize,
    pub color: Rgb,
}

/// One row of the frame.
pub struct RowText {
    pub text: String,
    pub runs: Vec<Run>,
}

/// The shape of the cursor.
#[derive(Clone, Copy, PartialEq, Eq, Structural, Debug)]
pub enum CursorShape {
    Block,
    Underline,
    Beam,
    HollowBlock,
    Hidden,
}

/// The cursor as it is drawn: where, in which color and shape, and the
/// character drawn over it.
#[derive(Clone, Copy, PartialEq, Eq, Structural, Debug)]
pub struct Cursor {
    pub row: usize,
    pub column: usize,
    pub color: Rgb,
    pub shape: CursorShape,
    pub overlay: Option<char>,
}

/// The part of the grid that a frame shows, and what decides its look.
pub struct Viewport {
    pub mode: ThemeMode,
    pub colors: Colors,
    pub display_offset: i32,
    pub num_rows: usize,
    pub selection: Option<SelectionRange>,
}

/// The row of the viewport that a line of the grid is on.
pub open spec fn row_of(line: int, display_offset: int) -> int {
    line + display_offset
}

/// Whether a cell is drawn at all: its row is in the viewport, and it is not
/// the spacer of a wide character.
pub open spec fn drawn(v: Viewport, p: PlacedCell) -> bool {
    0 <= row_of(p.point.line as int, v.display_offset as int) < v.num_rows && !p.cell.spacer
}

/// The two colors of a cell, swapped where it is inverse.
pub open spec fn front_color(v: Viewport, p: PlacedCell) -> Rgb {
    color::resolved(
        v.mode,
        if p.cell.attributes.inverse {
            p.cell.bg
        } else {
            p.cell.fg
        },
        v.colors.slots@,
    )
}

/// The color behind a cell: that of the selection where it is selected.
pub open spec fn back_color(v: Viewport, p: PlacedCell) -> Rgb {
    if v.selection is Some && v.selection->0.holds(p.point) {
        color::rgb_of(theme::picked(v.mode, 0x3e4f6f, 0xbfd4ef))
    } else {
        color::resolved(
            v.mode,
            if p.cell.attributes.inverse {
                p.cell.fg
            } else {
                p.cell.bg
            },
            v.colors.slots@,
        )
    }
}

/// The color behind cells that needs no drawing.
pub open spec fn plain_back(v: Viewport) -> Rgb {
    color::rgb_of(theme::picked(v.mode, 0x282c33, 0xfafafa))
}

/// The character drawn for a cell.
pub open spec fn drawn_char(p: PlacedCell) -> char {
    if p.cell.hidden {
        ' '
    } else {
        p.cell.c
    }
}

/// How a cell's character is drawn.
pub open spec fn run_style(v: Viewport, p: PlacedCell) -> RunStyle {
    RunStyle {
        color: front_color(v, p),
        dim: p.cell.attributes.dim,
        bold: p.cell.attributes.bold,
        italic: p.cell.attributes.italic,
        underline: p.cell.attributes.underline,
        strikethrough: p.cell.attributes.strikeout,
    }
}

/// Whether a cell is drawn on row `row` of the viewport.
pub open spec fn on_row(v: Viewport, p: PlacedCell, row: int) -> bool {
    drawn(v, p) && row_of(p.point.line as int, v.display_offset as int) == row
}

/// The text of a row.
pub open spec fn row_text(v: Viewport, cells: Seq<PlacedCell>, row: int) -> Seq<char>
    decreases cells.len(),
{
    if cells.len() == 0 {
        Seq::empty()
    } else if on_row(v, cells.last(), row) {
        row_text(v, cells.drop_last(), row).push(drawn_char(cells.last()))
    } else {
        row_text(v, cells.drop_last(), row)
    }
}

/// A run as a length and a style.
pub struct Stretch {
    pub len: nat,
    pub style: RunStyle,
}

/// Some runs with one more character in the given style: it joins the last run
/// where that has the same style.
pub open spec fn with_char(runs: Seq<Stretch>, width: nat, style: RunStyle) -> Seq<Stretch> {
    if runs.len() > 0 && runs.last().style == style {
        runs.drop_last().push(Stretch { len: runs.last().len + width, style })
    } else {
        runs.push(Stretch { len: width, style })
    }
}

/// The style runs of a row.
pub open spec fn row_runs(v: Viewport, cells: Seq<PlacedCell>, row: int) -> Seq<Stretch>
    decreases cells.len(),
{
    if cells.len() == 0 {
        Seq::empty()
    } else if on_row(v, cells.last(), row) {
        with_char(
            row_runs(v, cells.drop_last(), row),
            offsets::width8(drawn_char(cells.last())),
            run_style(v, cells.last()),
        )
    } else {
        row_runs(v, cells.drop_last(), row)
    }
}

/// Executable runs as stretches.
pub open spec fn stretches(runs: Seq<Run>) -> Seq<Stretch> {
    runs.map_values(|r: Run| Stretch { len: r.len as nat, style: r.style })
}

/// A quad as mathematical numbers.
pub struct Patch {
    pub row: int,
    pub column: int,
    pub width: int,
    pub color: Rgb,
}

/// Some patches with one more cell: it joins the last one where it continues
/// that one on the same row in the same color.
pub open spec fn with_cell(patches: Seq<Patch>, row: int, column: int, color: Rgb) -> Seq<Patch> {
    if patches.len() > 0 && patches.last().color == color && patches.last().row == row
        && patches.last().column + patches.last().width == column {
        patches.drop_last().push(
            Patch {
                row,
                column: patches.last().column,
                width: patches.last().width + 1,
                color,
            },
        )
    } else {
        patches.push(Patch { row, column, width: 1, color })
    }
}

/// The backgrounds of a frame.
pub open spec fn backgrounds(v: Viewport, cells: Seq<PlacedCell>) -> Seq<Patch>
    decreases cells.len(),
{
    if cells.len() == 0 {
        Seq::empty()
    } else {
        let before = backgrounds(v, cells.drop_last());
        let p = cells.last();
        if drawn(v, p) && back_color(v, p) != plain_back(v) {
            with_cell(
                before,
                row_of(p.point.line as int, v.display_offset as int),
                p.point.column as int,
                back_color(v, p),
            )
        } else {
            before
        }
    }
}

/// Executable quads as patches.
pub open spec fn patches(quads: Seq<Quad>) -> Seq<Patch> {
    quads.map_values(
        |q: Quad|
            Patch {
                row: q.row as int,
                column: q.column as int,
                width: q.width as int,
                color: q.color,
            },
    )
}

/// The rows and backgrounds of a frame.
pub struct Frame {
    pub rows: Vec<RowText>,
    pub quads: Vec<Quad>,
}

/// Whether a frame shows some cells of a viewport.
pub open spec fn shows(f: Frame, v: Viewport, cells: Seq<PlacedCell>) -> bool {
    &&& f.rows@.len() == v.num_rows
    &&& forall|r: int|
        0 <= r < v.num_rows ==> (#[trigger] f.rows@[r]).text@ == row_text(v, cells, r)
            && stretches(f.rows@[r].runs@) == row_runs(v, cells, r)
    &&& patches(f.quads@) == backgrounds(v, cells)
}

fn front(v: &Viewport, p: &PlacedCell) -> (r: Rgb)
    requires
        v.colors.wf(),
    ensures
        r == front_color(*v, *p),
{
    if p.cell.attributes.inverse {
        resolve_color(v.mode, p.cell.bg, &v.colors)
    } else {
        resolve_color(v.mode, p.cell.fg, &v.colors)
    }
}

fn back(v: &Viewport, p: &PlacedCell) -> (r: Rgb)
    requires
        v.colors.wf(),
    ensures
        r == back_color(*v, *p),
{
    if let Some(range) = v.selection {
        if range.contains(p.point) {
            return hex_to_rgb(terminal_selection_bg(v.mode));
        }
    }
    if p.cell.attributes.inverse {
        resolve_color(v.mode, p.cell.fg, &v.colors)
    } else {
        resolve_color(v.mode, p.cell.bg, &v.colors)
    }
}

fn viewport_row(v: &Viewport, p: &PlacedCell) -> (r: Option<usize>)
    ensures
        match r {
            Some(row) => on_row(*v, *p, row as int),
            None => !drawn(*v, *p),
        },
{
    if p.cell.spacer {
        return None;
    }
    let row: i64 = p.point.line as i64 + v.display_offset as i64;
    if row < 0 || row as u64 >= v.num_rows as u64 {
        return None;
    }
    Some(row as usize)
}

fn add_run(runs: &mut Vec<Run>, width: usize, style: RunStyle)
    requires
        old(runs)@.len() > 0 ==> old(runs)@.last().len + width <= usize::MAX,
    ensures
        stretches(final(runs)@) == with_char(stretches(old(runs)@), width as nat, style),
{
    let ghost before = runs@;
    let n: usize = runs.len();
    if n > 0 && runs[n - 1].style == style {
        let len: usize = runs[n - 1].len + width;
        runs.set(n - 1, Run { len, style });
        assert(stretches(runs@) =~= with_char(stretches(before), width as nat, style));
    } else {
        runs.push(Run { len: width, style });
        assert(stretches(runs@) =~= with_char(stretches(before), width as nat, style));
    }
}

fn add_quad(quads: &mut Vec<Quad>, row: usize, column: usize, color: Rgb)
    requires
        forall|i: int|
            0 <= i < old(quads)@.len() ==> (#[trigger] old(quads)@[i]).width <= old(quads)@[i].column
                + old(quads)@[i].width <= usize::MAX,
        column < usize::MAX,
    ensures
        patches(final(quads)@) == with_cell(
            patches(old(quads)@),
            row as int,
            column as int,
            color,
        ),
        forall|i: int|
            0 <= i < final(quads)@.len() ==> (#[trigger] final(quads)@[i]).width
                <= final(quads)@[i].column + final(quads)@[i].width <= usize::MAX,
{
    let ghost before = quads@;
    let n: usize = quads.len();
    if n > 0 {
        let last: Quad = quads[n - 1];
        if last.color == color && last.row == row && last.column + last.width == column {
            quads.set(
                n - 1,
                Quad { row, column: last.column, width: last.width + 1, color },
            );
            assert(patches(quads@) =~= with_cell(
                patches(before),
                row as int,
                column as int,
                color,
            ));
            return;
        }
    }
    quads.push(Quad { row, column, width: 1, color });
    assert(patches(quads@) =~= with_cell(patches(before), row as int, column as int, color));
}

/// The total length of some runs.
pub open spec fn total_len(runs: Seq<Stretch>) -> nat
    decreases runs.len(),
{
    if runs.len() == 0 {
        0
    } else {
        total_len(runs.drop_last()) + runs.last().len
    }
}

proof fn lemma_with_char_total(runs: Seq<Stretch>, width: nat, style: RunStyle)
    ensures
        total_len(with_char(runs, width, style)) == total_len(runs) + width,
        runs.len() > 0 ==> runs.last().len <= total_len(runs),
{
    let after = with_char(runs, width, style);
    if runs.len() > 0 && runs.last().style == style {
        assert(after.drop_last() =~= runs.drop_last());
    } else {
        assert(after.drop_last() =~= runs);
    }
}

/// The style runs of a row cover its text exactly: their lengths add up to
/// the length of the text.
pub proof fn runs_cover_the_row(v: Viewport, cells: Seq<PlacedCell>, row: int)
    ensures
        total_len(row_runs(v, cells, row)) == offsets::byte_len(row_text(v, cells, row)),
    decreases cells.len(),
{
    if cells.len() > 0 {
        let rest = cells.drop_last();
        runs_cover_the_row(v, rest, row);
        if on_row(v, cells.last(), row) {
            lemma_with_char_total(
                row_runs(v, rest, row),
                offsets::width8(drawn_char(cells.last())),
                run_style(v, cells.last()),
            );
            let t = row_text(v, rest, row);
            assert(t.push(drawn_char(cells.last())).drop_last() =~= t);
        }
    }
}

/// Neighbouring runs of a row differ in style: equal ones were merged.
pub proof fn runs_are_merged(v: Viewport, cells: Seq<PlacedCell>, row: int)
    ensures
        forall|i: int|
            0 <= i < row_runs(v, cells, row).len() - 1 ==> (#[trigger] row_runs(
                v,
                cells,
                row,
            )[i]).style != row_runs(v, cells, row)[i + 1].style,
    decreases cells.len(),
{
    if cells.len() > 0 {
        runs_are_merged(v, cells.drop_last(), row);
        let before = row_runs(v, cells.drop_last(), row);
        let after = row_runs(v, cells, row);
        assert forall|i: int| 0 <= i < after.len() - 1 implies (#[trigger] after[i]).style
            != after[i + 1].style by {
            if i < before.len() - 1 {
                assert(before[i].style != before[i + 1].style);
            }
        }
    }
}

/// Lay out one frame of the terminal: the text and style runs of each row, and
/// the backgrounds behind the cells. `cells` are in drawing order.
pub fn layout(v: &Viewport, cells: &Vec<PlacedCell>) -> (f: Frame)
    requires
        v.colors.wf(),
        forall|i: int| 0 <= i < cells@.len() ==> (#[trigger] cells@[i]).point.column < usize::MAX,
        cells@.len() * 4 <= usize::MAX,
    ensures
        shows(f, *v, cells@),
{
    let mut rows: Vec<RowText> = Vec::new();
    let mut k: usize = 0;
    while k < v.num_rows
        invariant
            k <= v.num_rows,
            rows@.len() == k,
            forall|r: int|
                0 <= r < k ==> (#[trigger] rows@[r]).text@.len() == 0 && rows@[r].runs@.len() == 0,
        decreases v.num_rows - k,
    {
        rows.push(RowText { text: String::new(), runs: Vec::new() });
        k += 1;
    }
    let mut f = Frame { rows, quads: Vec::new() };
    let plain: Rgb = hex_to_rgb(default_bg_hex(v.mode));
    proof {
        let none = cells@.take(0);
        assert forall|r: int| 0 <= r < v.num_rows implies (#[trigger] f.rows@[r]).text@ == row_text(
            *v,
            none,
            r,
        ) && stretches(f.rows@[r].runs@) == row_runs(*v, none, r) by {
            assert(f.rows@[r].text@ =~= row_text(*v, none, r));
            assert(stretches(f.rows@[r].runs@) =~= row_runs(*v, none, r));
        }
        assert(patches(f.quads@) =~= backgrounds(*v, none));
    }
    let mut i: usize = 0;
    while i < cells.len()
        invariant
            i <= cells@.len(),
            v.colors.wf(),
            plain == plain_back(*v),
            cells@.len() * 4 <= usize::MAX,
            forall|j: int|
                0 <= j < cells@.len() ==> (#[trigger] cells@[j]).point.column < usize::MAX,
            forall|j: int|
                0 <= j < f.quads@.len() ==> (#[trigger] f.quads@[j]).width <= f.quads@[j].column
                    + f.quads@[j].width <= usize::MAX,
            shows(f, *v, cells@.take(i as int)),
        decreases cells@.len() - i,
    {
        let p: PlacedCell = cells[i];
        let ghost seen = cells@.take(i as int);
        let ghost next = cells@.take(i + 1);
        proof {
            assert(next.drop_last() =~= seen);
            assert(next.last() == p);
        }
        if let Some(row) = viewport_row(v, &p) {
            let color: Rgb = back(v, &p);
            if color != plain {
                add_quad(&mut f.quads, row, p.point.column, color);
            }
            let style = RunStyle {
                color: front(v, &p),
                dim: p.cell.attributes.dim,
                bold: p.cell.attributes.bold,
                italic: p.cell.attributes.italic,
                underline: p.cell.attributes.underline,
                strikethrough: p.cell.attributes.strikeout,
            };
            let c: char = if p.cell.hidden {
                ' '
            } else {
                p.cell.c
            };
            let ghost old_rows = f.rows@;
            proof {
                lemma_row_len(*v, seen, row as int);
                runs_cover_the_row(*v, seen, row as int);
                lemma_with_char_total(row_runs(*v, seen, row as int), 0, style);
                if old_rows[row as int].runs@.len() > 0 {
                    let s = stretches(old_rows[row as int].runs@);
                    assert(s.last().len == old_rows[row as int].runs@.last().len);
                }
            }
            let width: usize = len_utf8(c);
            add_char(&mut f.rows, row, c, width, style);
            proof {
                assert forall|r: int| 0 <= r < v.num_rows implies (#[trigger] f.rows@[r]).text@
                    == row_text(*v, next, r) && stretches(f.rows@[r].runs@) == row_runs(
                    *v,
                    next,
                    r,
                ) by {
                    assert(old_rows[r].text@ == row_text(*v, seen, r));
                }
            }
        } else {
            proof {
                assert forall|r: int| 0 <= r < v.num_rows implies (#[trigger] f.rows@[r]).text@
                    == row_text(*v, next, r) && stretches(f.rows@[r].runs@) == row_runs(
                    *v,
                    next,
                    r,
                ) by {
                    assert(f.rows@[r].text@ == row_text(*v, seen, r));
                }
            }
        }
        i += 1;
    }
    assert(cells@.take(cells@.len() as int) =~= cells@);
    f
}

proof fn lemma_row_len(v: Viewport, cells: Seq<PlacedCell>, row: int)
    ensures
        offsets::byte_len(row_text(v, cells, row)) <= 4 * cells.len(),
    decreases cells.len(),
{
    if cells.len() > 0 {
        lemma_row_len(v, cells.drop_last(), row);
        if on_row(v, cells.last(), row) {
            let t = row_text(v, cells.drop_last(), row);
            assert(t.push(drawn_char(cells.last())).drop_last() =~= t);
        }
    }
}

fn add_char(rows: &mut Vec<RowText>, row: usize, c: char, width: usize, style: RunStyle)
    requires
        row < old(rows)@.len(),
        old(rows)@[row as int].runs@.len() > 0 ==> old(rows)@[row as int].runs@.last().len + width
            <= usize::MAX,
    ensures
        final(rows)@.len() == old(rows)@.len(),
        forall|r: int|
            0 <= r < old(rows)@.len() && r != row ==> final(rows)@[r] == old(rows)@[r],
        final(rows)@[row as int].text@ == old(rows)@[row as int].text@.push(c),
        stretches(final(rows)@[row as int].runs@) == with_char(
            stretches(old(rows)@[row as int].runs@),
            width as nat,
            style,
        ),
{
    let line: &mut RowText = &mut rows[row];
    line.text.push(c);
    add_run(&mut line.runs, width, style);
}

// ---- The cursor ----

/// The cursor that a frame shows: none where it is hidden or out of the
/// viewport, a hollow block where the terminal is not focused, and with the
/// character under it where it is a focused block over one.
pub open spec fn cursor_of(
    v: Viewport,
    point: GridPoint,
    shape: CursorShape,
    focused: bool,
    under: char,
) -> Option<Cursor> {
    let row = row_of(point.line as int, v.display_offset as int);
    if shape == CursorShape::Hidden || row < 0 || row >= v.num_rows {
        None
    } else {
        Some(
            Cursor {
                row: row as usize,
                column: point.column,
                color: color::palette_color(v.mode, color::slot_of(NamedColor::Cursor)),
                shape: if focused {
                    shape
                } else {
                    CursorShape::HollowBlock
                },
                overlay: if shape == CursorShape::Block && focused && under != ' ' {
                    Some(under)
                } else {
                    None
                },
            },
        )
    }
}

/// The cursor that a frame shows. `under` is the character of the cell that
/// it is on.
pub fn cursor(
    v: &Viewport,
    point: GridPoint,
    shape: CursorShape,
    focused: bool,
    under: char,
) -> (r: Option<Cursor>)
    ensures
        r == cursor_of(*v, point, shape, focused, under),
{
    let row: i64 = point.line as i64 + v.display_offset as i64;
    if shape == CursorShape::Hidden || row < 0 || row as u64 >= v.num_rows as u64 {
        return None;
    }
    Some(
        Cursor {
            row: row as usize,
            column: point.column,
            color: palette_rgb(v.mode, slot(NamedColor::Cursor)),
            shape: if focused {
                shape
            } else {
                CursorShape::HollowBlock
            },
            overlay: if shape == CursorShape::Block && focused && under != ' ' {
                Some(under)
            } else {
                None
            },
        },
    )
}

// ---- The pointer ----

/// `n` moved into `0..count`.
pub open spec fn clamped(n: int, count: int) -> int {
    if n < 0 {
        0
    } else if n >= count {
        count - 1
    } else {
        n
    }
}

fn clamp(n: i64, count: usize) -> (r: usize)
    requires
        0 < count <= i64::MAX,
    ensures
        r == clamped(n as int, count as int),
{
    if n < 0 {
        0
    } else if n >= count as i64 {
        count - 1
    } else {
        n as usize
    }
}

/// Map a pointer position to a grid point and cell side, clamped to the
/// visible viewport. `column` and `row` count whole cells from the top left
/// corner of the terminal, and `left_half` says which half of its cell the
/// pointer is on.
pub fn grid_point_at(
    column: i64,
    row: i64,
    left_half: bool,
    display_offset: i32,
    num_rows: usize,
    num_cols: usize,
) -> (r: (GridPoint, Side))
    requires
        0 < num_rows <= i32::MAX,
        0 < num_cols <= i64::MAX,
        0 <= display_offset,
    ensures
        r.0.line == clamped(row as int, num_rows as int) - display_offset,
        r.0.column == clamped(column as int, num_cols as int),
        r.1 == (if left_half {
            Side::Left
        } else {
            Side::Right
        }),
{
    let col: usize = clamp(column, num_cols);
    let line: i32 = clamp(row, num_rows) as i32 - display_offset;
    let side: Side = if left_half {
        Side::Left
    } else {
        Side::Right
    };
    (GridPoint { line, column: col }, side)
}

/// A pointer position always maps to a point of the viewport.
pub proof fn pointer_stays_in_the_viewport(row: int, display_offset: int, num_rows: int)
    requires
        num_rows > 0,
    ensures
        0 <= row_of(clamped(row, num_rows) - display_offset, display_offset) < num_rows,
{
}

/// What a press selects by: one click by cells, two by words, more by lines.
pub open spec fn click_kind_of(click_count: nat) -> SelectionType {
    if click_count == 1 {
        SelectionType::Simple
    } else if click_count == 2 {
        SelectionType::Semantic
    } else {
        SelectionType::Lines
    }
}

/// What a press with this many clicks selects by.
pub fn click_kind(click_count: usize) -> (r: SelectionType)
    ensures
        r == click_kind_of(click_count as nat),
{
    if click_count == 1 {
        SelectionType::Simple
    } else if click_count == 2 {
        SelectionType::Semantic
    } else {
        SelectionType::Lines
    }
}

} // verus!
