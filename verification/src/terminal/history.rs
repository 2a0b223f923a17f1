//! Saving a terminal's scrollback: the grid as styled text that restores the
//! styling when it is replayed.

use vstd::prelude::*;
use vstd::string::*;

use crate::terminal::color;
use crate::terminal::color::{sgr_sequence, Attributes, Color, NamedColor};
use crate::text;
use crate::text::{join, slice_text, to_chars};

verus! {

/// Everything a cell of the grid shows.
#[derive(Clone, Copy, PartialEq, Eq, Structural, Debug)]
pub struct Cell {
    pub c: char,
    pub fg: Color,
    pub bg: Color,
    pub attributes: Attributes,
    pub hidden: bool,
    /// The second half of a wide character, or the padding before one that
    /// wrapped: nothing of its own to show.
    pub spacer: bool,
}

/// A cell's style: its colors and its attributes.
#[derive(Clone, Copy, PartialEq, Eq, Structural, Debug)]
pub struct CellStyle {
    pub fg: Color,
    pub bg: Color,
    pub attributes: Attributes,
}

/// The style of a cell.
pub open spec fn style_of(cell: Cell) -> CellStyle {
    CellStyle { fg: cell.fg, bg: cell.bg, attributes: cell.attributes }
}

/// The style that text has when the program asked for none.
pub open spec fn default_style() -> CellStyle {
    CellStyle {
        fg: Color::Named(NamedColor::Foreground),
        bg: Color::Named(NamedColor::Background),
        attributes: Attributes::none(),
    }
}

/// The character that a cell stands for. An empty cell is a space.
pub open spec fn shown(cell: Cell) -> char {
    if cell.c == '\0' {
        ' '
    } else {
        cell.c
    }
}

/// Whether a cell leaves nothing to see: a space is only truly invisible on
/// the default background, without inverse, underline or strikeout.
pub open spec fn invisible(cell: Cell) -> bool {
    shown(cell) == ' ' && cell.bg == default_style().bg && !cell.attributes.inverse
        && !cell.attributes.underline && !cell.attributes.strikeout
}

/// The style in force after some cells.
pub open spec fn style_after(cells: Seq<Cell>) -> CellStyle
    decreases cells.len(),
{
    if cells.len() == 0 {
        default_style()
    } else if cells.last().spacer {
        style_after(cells.drop_last())
    } else {
        style_of(cells.last())
    }
}

/// What one cell adds to a line: a sequence where the style changes, and its
/// character.
pub open spec fn cell_text(cell: Cell, current: CellStyle) -> Seq<char> {
    if cell.spacer {
        Seq::empty()
    } else if style_of(cell) == current {
        seq![shown(cell)]
    } else {
        color::style_sequence(cell.fg, cell.bg, cell.attributes).push(shown(cell))
    }
}

/// Some cells as styled text.
pub open spec fn styled(cells: Seq<Cell>) -> Seq<char>
    decreases cells.len(),
{
    if cells.len() == 0 {
        Seq::empty()
    } else {
        styled(cells.drop_last()) + cell_text(cells.last(), style_after(cells.drop_last()))
    }
}

/// How many cells a row has up to the last one worth keeping.
pub open spec fn kept_len(cells: Seq<Cell>) -> nat
    decreases cells.len(),
{
    if cells.len() == 0 {
        0
    } else if !cells.last().spacer && !invisible(cells.last()) {
        cells.len()
    } else {
        kept_len(cells.drop_last())
    }
}

/// A row as one line of text: its cells without the trailing invisible ones,
/// and a reset at the end where the line holds an escape.
pub open spec fn line_of(cells: Seq<Cell>) -> Seq<char> {
    let t = styled(cells.take(kept_len(cells) as int));
    if t.contains('\x1b') {
        t + "\x1b[0m"@
    } else {
        t
    }
}

/// Some lines without the empty ones at their end.
pub open spec fn without_trailing_empty(lines: Seq<Seq<char>>) -> Seq<Seq<char>>
    decreases lines.len(),
{
    if lines.len() > 0 && lines.last().len() == 0 {
        without_trailing_empty(lines.drop_last())
    } else {
        lines
    }
}

/// A grid as its rows of cells, top first.
pub open spec fn grid_rows(rows: Seq<Vec<Cell>>) -> Seq<Seq<Cell>> {
    rows.map_values(|r: Vec<Cell>| r@)
}

/// A grid as lines of styled text.
pub open spec fn captured(rows: Seq<Seq<Cell>>) -> Seq<Seq<char>> {
    without_trailing_empty(rows.map_values(|r: Seq<Cell>| line_of(r)))
}

fn default_cell_style() -> (r: CellStyle)
    ensures
        r == default_style(),
{
    CellStyle {
        fg: Color::Named(NamedColor::Foreground),
        bg: Color::Named(NamedColor::Background),
        attributes: Attributes {
            bold: false,
            dim: false,
            italic: false,
            underline: false,
            inverse: false,
            strikeout: false,
        },
    }
}

proof fn lemma_kept_len(cells: Seq<Cell>)
    ensures
        kept_len(cells) <= cells.len(),
    decreases cells.len(),
{
    if cells.len() > 0 {
        lemma_kept_len(cells.drop_last());
    }
}

fn push_all(out: &mut Vec<char>, s: &str)
    ensures
        final(out)@ == old(out)@ + s@,
{
    let mut chars: Vec<char> = to_chars(s);
    out.append(&mut chars);
}

fn has_escape(v: &Vec<char>, n: usize) -> (r: bool)
    requires
        n <= v@.len(),
    ensures
        r == v@.take(n as int).contains('\x1b'),
{
    let mut i: usize = 0;
    while i < n
        invariant
            i <= n <= v@.len(),
            forall|j: int| 0 <= j < i ==> v@[j] != '\x1b',
        decreases n - i,
    {
        if v[i] == '\x1b' {
            assert(v@.take(n as int)[i as int] == '\x1b');
            return true;
        }
        i += 1;
    }
    false
}

/// One row of the grid as styled text.
pub fn capture_line(cells: &Vec<Cell>) -> (r: String)
    ensures
        r@ == line_of(cells@),
{
    let plain: CellStyle = default_cell_style();
    // Each line starts from the reset state.
    let mut current: CellStyle = plain;
    let mut buffer: Vec<char> = Vec::new();
    let mut keep: usize = 0;
    let ghost mut kept: Seq<Cell> = Seq::empty();
    let mut i: usize = 0;
    while i < cells.len()
        invariant
            i <= cells@.len(),
            plain == default_style(),
            current == style_after(cells@.take(i as int)),
            buffer@ == styled(cells@.take(i as int)),
            keep <= buffer@.len(),
            kept_len(cells@.take(i as int)) <= i,
            kept == cells@.take(kept_len(cells@.take(i as int)) as int),
            buffer@.take(keep as int) == styled(kept),
        decreases cells@.len() - i,
    {
        let cell: Cell = cells[i];
        let ghost prefix = cells@.take(i + 1);
        let ghost old_buffer = buffer@;
        proof {
            assert(prefix.drop_last() =~= cells@.take(i as int));
            assert(prefix.last() == cell);
        }
        if !cell.spacer {
            let style = CellStyle { fg: cell.fg, bg: cell.bg, attributes: cell.attributes };
            if style != current {
                push_all(
                    &mut buffer,
                    sgr_sequence(cell.fg, cell.bg, cell.attributes).as_str(),
                );
                current = style;
            }
            let c: char = if cell.c == '\0' {
                ' '
            } else {
                cell.c
            };
            buffer.push(c);
            assert(buffer@ =~= old_buffer + cell_text(cell, style_after(cells@.take(i as int))));
            assert(buffer@.take(keep as int) =~= old_buffer.take(keep as int));
            let blank: bool = c == ' ' && cell.bg == plain.bg && !cell.attributes.inverse
                && !cell.attributes.underline && !cell.attributes.strikeout;
            if !blank {
                keep = buffer.len();
                proof {
                    kept = prefix;
                    assert(buffer@.take(keep as int) =~= buffer@);
                }
            }
        } else {
            assert(buffer@ =~= old_buffer + Seq::<char>::empty());
        }
        i += 1;
    }
    proof {
        assert(cells@.take(cells@.len() as int) =~= cells@);
        lemma_kept_len(cells@);
    }
    let mut line: String = slice_text(&buffer, 0, keep);
    assert(line@ =~= styled(kept));
    if has_escape(&buffer, keep) {
        line.push_str("\x1b[0m");
    }
    line
}

/// All lines of the terminal grid, scrollback and screen, as styled text: cell
/// colors and attributes are written as escape sequences so that a replay
/// restores the styling. Trailing blank cells and trailing empty lines are
/// left out.
pub fn capture_history(rows: &Vec<Vec<Cell>>) -> (r: Vec<String>)
    ensures
        text::texts(r@) == captured(grid_rows(rows@)),
{
    let mut lines: Vec<String> = Vec::new();
    let ghost all = grid_rows(rows@).map_values(|r: Seq<Cell>| line_of(r));
    let mut i: usize = 0;
    while i < rows.len()
        invariant
            i <= rows@.len(),
            all == grid_rows(rows@).map_values(|r: Seq<Cell>| line_of(r)),
            text::texts(lines@) == all.take(i as int),
        decreases rows@.len() - i,
    {
        let ghost before = text::texts(lines@);
        lines.push(capture_line(&rows[i]));
        assert(text::texts(lines@) =~= before.push(line_of(rows@[i as int]@)));
        assert(all[i as int] == line_of(rows@[i as int]@));
        i += 1;
    }
    assert(all.take(all.len() as int) =~= all);
    while lines.len() > 0 && lines[lines.len() - 1].as_str().is_empty()
        invariant
            without_trailing_empty(text::texts(lines@)) == without_trailing_empty(all),
        ensures
            text::texts(lines@) == without_trailing_empty(all),
        decreases lines@.len(),
    {
        let ghost before = text::texts(lines@);
        lines.pop();
        assert(text::texts(lines@) =~= before.drop_last());
    }
    lines
}

/// What to do with a terminal's history file.
pub enum HistoryAction {
    Keep,
    Remove,
    Write(String),
}

/// The contents of a history file, or nothing where there is nothing to save.
/// The trailing newline makes the replayed shell's prompt start on its own
/// line.
pub open spec fn history_text(lines: Seq<Seq<char>>) -> Option<Seq<char>> {
    if lines.len() == 0 {
        None
    } else {
        Some(text::join_of(lines, "\n"@).push('\n'))
    }
}

/// What saving a terminal's history comes to: nothing for terminals that don't
/// persist, else the file is written, or removed where there is nothing to
/// save.
pub fn save_history(persist_history: bool, rows: &Vec<Vec<Cell>>) -> (r: HistoryAction)
    ensures
        match r {
            HistoryAction::Keep => !persist_history,
            HistoryAction::Remove => persist_history && captured(grid_rows(rows@)).len() == 0,
            HistoryAction::Write(t) => persist_history && history_text(captured(grid_rows(rows@)))
                == Some(t@),
        },
{
    if !persist_history {
        return HistoryAction::Keep;
    }
    let history: Vec<String> = capture_history(rows);
    assert(text::texts(history@).len() == history@.len());
    if history.len() == 0 {
        return HistoryAction::Remove;
    }
    let mut t: String = join(&history, "\n");
    t.push('\n');
    HistoryAction::Write(t)
}

/// The lines that are saved never end in an empty one.
pub proof fn no_trailing_empty_line(lines: Seq<Seq<char>>)
    ensures
        without_trailing_empty(lines).len() > 0 ==> without_trailing_empty(lines).last().len() > 0,
        without_trailing_empty(lines).len() <= lines.len(),
        without_trailing_empty(lines) == lines.take(without_trailing_empty(lines).len() as int),
    decreases lines.len(),
{
    if lines.len() > 0 && lines.last().len() == 0 {
        no_trailing_empty_line(lines.drop_last());
        let n = without_trailing_empty(lines).len() as int;
        assert(lines.drop_last().take(n) =~= lines.take(n));
    } else {
        assert(lines.take(lines.len() as int) =~= lines);
    }
}

/// A line that holds an escape ends with a reset, so that no styling leaks
/// into the line after it.
pub proof fn styled_lines_end_reset(cells: Seq<Cell>)
    requires
        line_of(cells).contains('\x1b'),
    ensures
        text::ends(line_of(cells), "\x1b[0m"@),
{
    let t = styled(cells.take(kept_len(cells) as int));
    let reset = "\x1b[0m"@;
    assert(t.contains('\x1b'));
    assert((t + reset).skip(t.len() as int) =~= reset);
    assert((t + reset).subrange(t.len() as int, (t + reset).len() as int) =~= reset);
}

/// The characters of a row.
pub open spec fn row_chars(cells: Seq<Cell>) -> Seq<char> {
    cells.map_values(|c: Cell| shown(c))
}

/// A row in the default style is saved as the plain text it shows, up to the
/// last character that is not a space.
pub proof fn plain_rows_are_saved_as_text(cells: Seq<Cell>)
    requires
        forall|i: int|
            0 <= i < cells.len() ==> !(#[trigger] cells[i]).spacer && style_of(cells[i])
                == default_style() && cells[i].c != '\x1b',
    ensures
        line_of(cells) == row_chars(cells).take(kept_len(cells) as int),
        forall|i: int| kept_len(cells) <= i < cells.len() ==> shown(#[trigger] cells[i]) == ' ',
        kept_len(cells) > 0 ==> shown(cells[kept_len(cells) - 1]) != ' ',
{
    lemma_kept_len(cells);
    lemma_kept_rest(cells);
    let prefix = cells.take(kept_len(cells) as int);
    lemma_plain_styled(prefix);
    assert(row_chars(prefix) =~= row_chars(cells).take(kept_len(cells) as int));
}

proof fn lemma_plain_styled(cells: Seq<Cell>)
    requires
        forall|i: int|
            0 <= i < cells.len() ==> !(#[trigger] cells[i]).spacer && style_of(cells[i])
                == default_style() && cells[i].c != '\x1b',
    ensures
        styled(cells) == row_chars(cells),
        style_after(cells) == default_style(),
        !styled(cells).contains('\x1b'),
    decreases cells.len(),
{
    if cells.len() > 0 {
        let rest = cells.drop_last();
        assert forall|i: int| 0 <= i < rest.len() implies !(#[trigger] rest[i]).spacer && style_of(
            rest[i],
        ) == default_style() && rest[i].c != '\x1b' by {
            assert(rest[i] == cells[i]);
        }
        lemma_plain_styled(rest);
        assert(cells.last() == cells[cells.len() - 1]);
        assert(styled(cells) =~= row_chars(cells));
        assert forall|i: int| 0 <= i < styled(cells).len() implies styled(cells)[i] != '\x1b' by {
            assert(styled(cells)[i] == shown(cells[i]));
        }
    } else {
        assert(styled(cells) =~= row_chars(cells));
    }
}

proof fn lemma_kept_rest(cells: Seq<Cell>)
    requires
        forall|i: int|
            0 <= i < cells.len() ==> !(#[trigger] cells[i]).spacer && style_of(cells[i])
                == default_style(),
    ensures
        kept_len(cells) <= cells.len(),
        forall|i: int| kept_len(cells) <= i < cells.len() ==> shown(#[trigger] cells[i]) == ' ',
        kept_len(cells) > 0 ==> shown(cells[kept_len(cells) - 1]) != ' ',
    decreases cells.len(),
{
    if cells.len() > 0 {
        assert(cells.last() == cells[cells.len() - 1]);
        let rest = cells.drop_last();
        assert forall|i: int| 0 <= i < rest.len() implies !(#[trigger] rest[i]).spacer && style_of(
            rest[i],
        ) == default_style() by {
            assert(rest[i] == cells[i]);
        }
        lemma_kept_rest(rest);
        assert forall|i: int| kept_len(cells) <= i < cells.len() implies shown(#[trigger] cells[i])
            == ' ' by {
            if i < rest.len() {
                assert(rest[i] == cells[i]);
            }
        }
        if kept_len(cells) < cells.len() && kept_len(cells) > 0 {
            assert(rest[kept_len(cells) - 1] == cells[kept_len(cells) - 1]);
        }
    }
}

} // verus!
