//! The terminal: what the user's keys and mouse send to the program in it, how
//! its grid is colored, selected and saved.

pub mod color;
pub mod drawing;
pub mod element;
pub mod history;
pub mod keys;
pub mod mouse;
pub mod replay;
pub mod selection;
pub mod sending;
pub mod view;

use vstd::prelude::*;
use vstd::string::*;
use vstd::utf8::*;

use crate::offsets::text_bytes;
use crate::terminal::color::{palette_rgb, Rgb};
use crate::terminal::history::{Cell, HistoryAction};
use crate::terminal::keys::{keystroke_to_bytes, Keystroke};
use crate::terminal::mouse::{mouse_report, paste_bytes, MouseReport, TermMode, NO_BUTTON};
use crate::terminal::selection::{GridPoint, SelectionState, SelectionType, Side};
use crate::text;
use crate::text::{owned, same_text};
use crate::theme::ThemeMode;

verus! {

/// What a terminal tells its observers.
#[derive(Clone, Copy, PartialEq, Eq, Structural, Debug)]
pub enum TerminalEvent {
    Exited,
    TitleChanged,
    /// The child wrote to the terminal. Emitted on every wakeup, which is what
    /// makes "the resumed process has painted something" observable.
    Output,
}

/// A selection drag held outside the viewport: how many lines to scroll per
/// tick (positive scrolls up into the scrollback) plus the pointer's column,
/// so the selection can keep growing along the edge that scrolls into view.
#[derive(Clone, Copy, PartialEq, Eq, Structural, Debug)]
pub struct DragAutoscroll {
    pub lines: i32,
    pub column: usize,
    pub side: Side,
}

/// What the terminal's event loop reports.
pub enum LoopEvent {
    Wakeup,
    Title(String),
    ResetTitle,
    PtyWrite(String),
    ClipboardStore(String),
    ClipboardLoad,
    ColorRequest(usize),
    TextAreaSizeRequest,
    Exit,
    /// Changes of the mouse cursor, the bell, cursor blinking.
    Other,
}

/// What a report of the event loop asks for.
pub enum Request {
    Nothing,
    /// Send these bytes to the program.
    Write(Vec<u8>),
    StoreClipboard(String),
    /// Answer with the clipboard's text.
    SendClipboard,
    /// Answer with this color.
    SendColor(Rgb),
    /// Answer with the size of the window.
    SendSize,
}

/// The answer to a report: who is told, whether to draw again, what to do.
pub struct Reaction {
    pub emit: Option<TerminalEvent>,
    pub notify: bool,
    pub request: Request,
}

/// A terminal, apart from the program in it and the grid it draws.
pub struct Terminal {
    /// Stable id (agent or tab id) naming the on-disk history file.
    pub id: String,
    pub title: String,
    pub exited: bool,
    /// A mouse selection drag is in progress.
    pub selecting: bool,
    /// Simple selections are created lazily on the first drag movement so a
    /// plain click doesn't highlight a single cell.
    pub pending_selection: Option<(GridPoint, Side)>,
    /// The user's selection; see [`SelectionState`].
    pub selection: Option<SelectionState>,
    /// Scrollback size the selection was last aligned against, so output
    /// arriving between two frames can be compensated for.
    pub selection_history: usize,
    /// Last cell reported to a mouse-tracking program, so motion is only
    /// reported when the pointer actually changes cell.
    pub last_mouse_cell: Option<(usize, usize)>,
    /// A button press was forwarded to the program and not yet released. Its
    /// release has to be forwarded too, wherever the pointer ends up; a
    /// release whose press was never sent must not leak through.
    pub mouse_pressed: bool,
    /// Set while a selection drag is held past the top/bottom edge.
    pub autoscroll: Option<DragAutoscroll>,
    /// Whether the scrollback is written to disk on shutdown and replayed on
    /// the next start. Only shell tabs persist.
    pub persist_history: bool,
    /// Cleared when the tab is removed for good, so dropping the terminal
    /// doesn't leave an orphaned history file behind.
    pub save_history_on_drop: bool,
}

/// The number that a report writes for its button, motion and modifiers.
pub open spec fn report_code(report: MouseReport) -> int {
    report.button + (if report.motion {
        32int
    } else {
        0
    }) + (if report.alt {
        8int
    } else {
        0
    }) + (if report.ctrl {
        16int
    } else {
        0
    })
}

/// Whether a program that asked for `mode` wants to hear of an event. Motion
/// is wanted while a button is held or, where the program asked for all
/// motion, always, and only when the pointer changed cell.
pub open spec fn wanted(
    report: MouseReport,
    mode: TermMode,
    last_cell: Option<(usize, usize)>,
) -> bool {
    &&& mode.mouse_mode()
    &&& report.motion ==> {
        &&& if report.button == NO_BUTTON {
            mode.mouse_motion
        } else {
            mode.mouse_drag || mode.mouse_motion
        }
        &&& last_cell != Some((report.row, report.column))
    }
}

/// The selection after its loose end moved: a pending one becomes real, an
/// existing one gets a new end.
pub open spec fn extended(
    pending: Option<(GridPoint, Side)>,
    selection: Option<SelectionState>,
    point: GridPoint,
    side: Side,
) -> Option<SelectionState> {
    match pending {
        Some((start, start_side)) => Some(
            SelectionState {
                ty: SelectionType::Simple,
                start,
                start_side,
                end: point,
                end_side: side,
            },
        ),
        None => match selection {
            Some(s) => Some(SelectionState { end: point, end_side: side, ..s }),
            None => None,
        },
    }
}

/// A terminal on which a selection was begun. A simple one waits for the first
/// drag.
pub open spec fn begun(
    t: Terminal,
    kind: SelectionType,
    point: GridPoint,
    side: Side,
    history: usize,
) -> Terminal {
    Terminal {
        selection: if kind == SelectionType::Simple {
            None
        } else {
            Some(
                SelectionState {
                    ty: kind,
                    start: point,
                    start_side: side,
                    end: point,
                    end_side: side,
                },
            )
        },
        pending_selection: if kind == SelectionType::Simple {
            Some((point, side))
        } else {
            None
        },
        selection_history: history,
        selecting: true,
        ..t
    }
}

/// A terminal on which the loose end of the selection was moved.
pub open spec fn dragged(t: Terminal, point: GridPoint, side: Side) -> Terminal {
    Terminal {
        selection: extended(t.pending_selection, t.selection, point, side),
        pending_selection: None,
        ..t
    }
}

/// A terminal on which selecting has ended.
pub open spec fn ended(t: Terminal) -> Terminal {
    Terminal { selecting: false, pending_selection: None, autoscroll: None, ..t }
}

/// The line that has scrolled into view at the edge a drag is held past: the
/// top one where it scrolls up, else the bottom one.
pub open spec fn edge_line(lines: int, display_offset: int, screen_lines: int) -> int {
    if lines > 0 {
        -display_offset
    } else {
        screen_lines - 1 - display_offset
    }
}

impl Terminal {
    /// A fresh terminal running `program`.
    pub fn create(id: String, program: String, persist_history: bool) -> (r: Terminal)
        ensures
            r.id@ == id@,
            r.title@ == program@,
            !r.exited,
            !r.selecting,
            r.pending_selection is None,
            r.selection is None,
            r.selection_history == 0,
            r.last_mouse_cell is None,
            !r.mouse_pressed,
            r.autoscroll is None,
            r.persist_history == persist_history,
            r.save_history_on_drop,
    {
        Terminal {
            id,
            title: program,
            exited: false,
            selecting: false,
            pending_selection: None,
            selection: None,
            selection_history: 0,
            last_mouse_cell: None,
            mouse_pressed: false,
            autoscroll: None,
            persist_history,
            save_history_on_drop: true,
        }
    }

    /// Take in a report of the event loop and say what to do about it.
    pub fn process_event(&mut self, event: LoopEvent, mode: ThemeMode) -> (r: Reaction)
        ensures
            final(self).title@ == (match event {
                LoopEvent::Title(t) => t@,
                LoopEvent::ResetTitle => Seq::<char>::empty(),
                _ => old(self).title@,
            }),
            final(self).exited == (old(self).exited || event is Exit),
            *final(self) == (Terminal {
                title: final(self).title,
                exited: final(self).exited,
                ..*old(self)
            }),
            r.emit == (match event {
                LoopEvent::Wakeup => Some(TerminalEvent::Output),
                LoopEvent::Title(_) => Some(TerminalEvent::TitleChanged),
                LoopEvent::Exit => Some(TerminalEvent::Exited),
                _ => None,
            }),
            r.notify == (event is Wakeup || event is Title || event is ResetTitle || event is Exit),
            match event {
                LoopEvent::PtyWrite(t) => r.request matches Request::Write(b) && b@ == encode_utf8(
                    t@,
                ),
                LoopEvent::ClipboardStore(t) => r.request matches Request::StoreClipboard(s) && s@
                    == t@,
                LoopEvent::ClipboardLoad => r.request is SendClipboard,
                LoopEvent::ColorRequest(i) => r.request == Request::SendColor(
                    color::palette_color(mode, i as int),
                ),
                LoopEvent::TextAreaSizeRequest => r.request is SendSize,
                _ => r.request is Nothing,
            },
    {
        match event {
            LoopEvent::Wakeup => Reaction {
                emit: Some(TerminalEvent::Output),
                notify: true,
                request: Request::Nothing,
            },
            LoopEvent::Title(t) => {
                self.title = t;
                Reaction {
                    emit: Some(TerminalEvent::TitleChanged),
                    notify: true,
                    request: Request::Nothing,
                }
            },
            LoopEvent::ResetTitle => {
                self.title = String::new();
                assert(self.title@ =~= Seq::<char>::empty());
                Reaction { emit: None, notify: true, request: Request::Nothing }
            },
            LoopEvent::PtyWrite(t) => Reaction {
                emit: None,
                notify: false,
                request: Request::Write(text_bytes(t.as_str())),
            },
            LoopEvent::ClipboardStore(t) => Reaction {
                emit: None,
                notify: false,
                request: Request::StoreClipboard(t),
            },
            LoopEvent::ClipboardLoad => Reaction {
                emit: None,
                notify: false,
                request: Request::SendClipboard,
            },
            LoopEvent::ColorRequest(i) => Reaction {
                emit: None,
                notify: false,
                request: Request::SendColor(palette_rgb(mode, i)),
            },
            LoopEvent::TextAreaSizeRequest => Reaction {
                emit: None,
                notify: false,
                request: Request::SendSize,
            },
            LoopEvent::Exit => {
                self.exited = true;
                Reaction {
                    emit: Some(TerminalEvent::Exited),
                    notify: true,
                    request: Request::Nothing,
                }
            },
            LoopEvent::Other => Reaction { emit: None, notify: false, request: Request::Nothing },
        }
    }

    // ---- History ----

    /// What saving this terminal's history comes to. `rows` is the grid,
    /// scrollback first.
    pub fn save_history(&self, rows: &Vec<Vec<Cell>>) -> (r: HistoryAction)
        ensures
            match r {
                HistoryAction::Keep => !self.persist_history,
                HistoryAction::Remove => self.persist_history && history::captured(
                    history::grid_rows(rows@),
                ).len() == 0,
                HistoryAction::Write(t) => self.persist_history && history::history_text(
                    history::captured(history::grid_rows(rows@)),
                ) == Some(t@),
            },
    {
        history::save_history(self.persist_history, rows)
    }

    /// Skip the history write on drop, leaving any file on disk untouched.
    /// Used for a terminal that has been superseded: its replacement owns the
    /// history file from now on.
    pub fn forget_history(&mut self)
        ensures
            *final(self) == (Terminal { save_history_on_drop: false, ..*old(self) }),
    {
        self.save_history_on_drop = false;
    }

    /// Write the scrollback right now and never again on drop, so that a
    /// replacement spawned immediately after reads the current contents.
    pub fn save_history_now(&mut self, rows: &Vec<Vec<Cell>>) -> (r: HistoryAction)
        ensures
            *final(self) == (Terminal { save_history_on_drop: false, ..*old(self) }),
            match r {
                HistoryAction::Keep => !old(self).persist_history,
                HistoryAction::Remove => old(self).persist_history && history::captured(
                    history::grid_rows(rows@),
                ).len() == 0,
                HistoryAction::Write(t) => old(self).persist_history && history::history_text(
                    history::captured(history::grid_rows(rows@)),
                ) == Some(t@),
            },
    {
        let action = self.save_history(rows);
        self.forget_history();
        action
    }

    /// Skip the history write on drop and have any saved file deleted, for a
    /// tab that is removed for good.
    pub fn discard_history(&mut self) -> (r: HistoryAction)
        ensures
            *final(self) == (Terminal { save_history_on_drop: false, ..*old(self) }),
            r is Remove,
    {
        self.save_history_on_drop = false;
        HistoryAction::Remove
    }

    /// What dropping the terminal does about its history.
    pub fn history_on_drop(&self, rows: &Vec<Vec<Cell>>) -> (r: HistoryAction)
        ensures
            match r {
                HistoryAction::Keep => !self.persist_history || !self.save_history_on_drop,
                HistoryAction::Remove => self.save_history_on_drop && self.persist_history
                    && history::captured(history::grid_rows(rows@)).len() == 0,
                HistoryAction::Write(t) => self.save_history_on_drop && self.persist_history
                    && history::history_text(history::captured(history::grid_rows(rows@)))
                    == Some(t@),
            },
    {
        if self.save_history_on_drop {
            self.save_history(rows)
        } else {
            HistoryAction::Keep
        }
    }

    // ---- Input ----

    /// Drop the selection, e.g. because the user typed or pasted.
    pub fn clear_selection(&mut self)
        ensures
            *final(self) == (Terminal { selection: None, pending_selection: None, ..*old(self) }),
    {
        self.selection = None;
        self.pending_selection = None;
    }

    /// Paste: the selection is dropped, the viewport goes to the bottom, and
    /// the returned bytes are sent.
    pub fn paste(&mut self, t: &str, mode: TermMode) -> (r: Vec<u8>)
        ensures
            *final(self) == (Terminal { selection: None, pending_selection: None, ..*old(self) }),
            r@ == mouse::pasted(t@, mode.bracketed_paste),
    {
        self.clear_selection();
        paste_bytes(t, mode.bracketed_paste)
    }

    /// Translate a keystroke to terminal input. Where it is consumed, the
    /// selection is dropped, the viewport goes to the bottom, and the returned
    /// bytes are sent; a terminal whose program has exited consumes nothing.
    pub fn try_keystroke(&mut self, keystroke: &Keystroke, mode: TermMode) -> (r: Option<Vec<u8>>)
        ensures
            match r {
                Some(b) => !old(self).exited && keys::keystroke_bytes(
                    keystroke.modifiers,
                    keystroke.key@,
                    text::opt_text(keystroke.key_char),
                    mode.app_cursor,
                ) == Some(b@) && *final(self) == (Terminal {
                    selection: None,
                    pending_selection: None,
                    ..*old(self)
                }),
                None => (old(self).exited || keys::keystroke_bytes(
                    keystroke.modifiers,
                    keystroke.key@,
                    text::opt_text(keystroke.key_char),
                    mode.app_cursor,
                ) is None) && *final(self) == *old(self),
            },
    {
        if self.exited {
            return None;
        }
        match keystroke_to_bytes(keystroke, mode.app_cursor) {
            Some(bytes) => {
                self.clear_selection();
                Some(bytes)
            },
            None => None,
        }
    }

    /// Forward a press, release or motion to a program that tracks the mouse,
    /// so it can run its own selection and scrolling. Returns what to send.
    pub fn report_mouse(&mut self, report: MouseReport, mode: TermMode) -> (r: Option<Vec<u8>>)
        requires
            wanted(report, mode, old(self).last_mouse_cell) ==> report_code(report) <= 255
                && mouse::encodable(
                report_code(report),
                report.row as int,
                report.column as int,
                mode,
                report.pressed,
            ),
        ensures
            !wanted(report, mode, old(self).last_mouse_cell) ==> r is None && *final(self) == *old(
                self,
            ),
            wanted(report, mode, old(self).last_mouse_cell) ==> {
                &&& *final(self) == (Terminal {
                    last_mouse_cell: Some((report.row, report.column)),
                    mouse_pressed: if report.motion {
                        old(self).mouse_pressed
                    } else {
                        report.pressed
                    },
                    ..*old(self)
                })
                &&& match r {
                    Some(b) => mouse::report_bytes(
                        report_code(report),
                        report.row as int,
                        report.column as int,
                        mode,
                        report.pressed,
                    ) == Some(b@),
                    None => mouse::report_bytes(
                        report_code(report),
                        report.row as int,
                        report.column as int,
                        mode,
                        report.pressed,
                    ) is None,
                }
            },
    {
        if !mode.wants_mouse() {
            return None;
        }
        if report.motion {
            let hears: bool = if report.button == NO_BUTTON {
                mode.mouse_motion
            } else {
                mode.mouse_drag || mode.mouse_motion
            };
            let same_cell: bool = match self.last_mouse_cell {
                Some(cell) => cell.0 == report.row && cell.1 == report.column,
                None => false,
            };
            if !hears || same_cell {
                return None;
            }
        }
        self.last_mouse_cell = Some((report.row, report.column));
        if !report.motion {
            self.mouse_pressed = report.pressed;
        }
        let mut code: u8 = report.button;
        if report.motion {
            code += 32;
        }
        if report.alt {
            code += 8;
        }
        if report.ctrl {
            code += 16;
        }
        mouse_report(code, report.row, report.column, mode, report.pressed)
    }

    // ---- Mouse selection ----

    /// Start selecting at a point. `history` is the size of the scrollback.
    pub fn begin_selection(
        &mut self,
        kind: SelectionType,
        point: GridPoint,
        side: Side,
        history: usize,
    )
        ensures
            *final(self) == begun(*old(self), kind, point, side, history),
    {
        if kind == SelectionType::Simple {
            self.selection = None;
            self.pending_selection = Some((point, side));
        } else {
            self.selection = Some(
                SelectionState {
                    ty: kind,
                    start: point,
                    start_side: side,
                    end: point,
                    end_side: side,
                },
            );
            self.pending_selection = None;
        }
        self.selection_history = history;
        self.selecting = true;
    }

    /// Move the loose end of a selection drag that is in progress. Returns
    /// whether one is.
    pub fn drag_selection(&mut self, point: GridPoint, side: Side) -> (r: bool)
        ensures
            r == old(self).selecting,
            !r ==> *final(self) == *old(self),
            r ==> *final(self) == dragged(*old(self), point, side),
    {
        if !self.selecting {
            return false;
        }
        self.extend_selection(point, side);
        true
    }

    /// Move the selection's loose end, turning a pending simple selection into
    /// a real one on the first drag.
    pub fn extend_selection(&mut self, point: GridPoint, side: Side)
        ensures
            *final(self) == dragged(*old(self), point, side),
    {
        match self.pending_selection {
            Some((start, start_side)) => {
                self.pending_selection = None;
                self.selection = Some(
                    SelectionState {
                        ty: SelectionType::Simple,
                        start,
                        start_side,
                        end: point,
                        end_side: side,
                    },
                );
            },
            None => {
                if let Some(s) = self.selection {
                    self.selection = Some(SelectionState { end: point, end_side: side, ..s });
                }
            },
        }
    }

    /// The selection to install ahead of a render or a copy, moved along with
    /// the output that scrolled into the scrollback since the last time.
    /// `history` is the size of the scrollback now.
    pub fn sync_selection(&mut self, history: usize) -> (r: Option<SelectionState>)
        requires
            history <= i32::MAX,
            old(self).selection_history <= i32::MAX,
            old(self).selection matches Some(s) ==> s.shiftable(
                history - old(self).selection_history,
            ),
        ensures
            *final(self) == (Terminal {
                selection: match old(self).selection {
                    Some(s) => Some(s.shifted(history - old(self).selection_history)),
                    None => None,
                },
                selection_history: history,
                ..*old(self)
            }),
            r == final(self).selection,
    {
        if let Some(s) = self.selection {
            let delta: i32 = history as i32 - self.selection_history as i32;
            let mut moved: SelectionState = s;
            moved.shift(delta);
            self.selection = Some(moved);
        }
        self.selection_history = history;
        self.selection
    }

    /// The selected text that a copy takes: none where it is empty.
    pub fn selection_text(selected: Option<String>) -> (r: Option<String>)
        ensures
            text::opt_text(r) == (match selected {
                Some(s) => if s@.len() == 0 {
                    None
                } else {
                    Some(s@)
                },
                None => None,
            }),
    {
        match selected {
            Some(s) => {
                if s.as_str().is_empty() {
                    None
                } else {
                    Some(s)
                }
            },
            None => None,
        }
    }

    /// Stop selecting.
    pub fn end_selection(&mut self)
        ensures
            *final(self) == ended(*old(self)),
    {
        self.selecting = false;
        self.pending_selection = None;
        self.autoscroll = None;
    }

    /// Drive scrolling for a drag held past the top or bottom edge: `spec` is
    /// the lines per tick, the pointer's column and side, or `None` once the
    /// pointer is back inside the viewport. Returns whether the repeating tick
    /// has to be started: a pointer resting outside emits no further events.
    pub fn set_drag_autoscroll(&mut self, spec: Option<DragAutoscroll>) -> (r: bool)
        ensures
            *final(self) == (Terminal { autoscroll: spec, ..*old(self) }),
            r == (spec is Some && old(self).autoscroll is None),
    {
        let already_running: bool = self.autoscroll.is_some();
        self.autoscroll = spec;
        spec.is_some() && !already_running
    }

    /// The first half of an auto-scroll step: by how many lines the viewport
    /// moves, or `None` where the scrolling is over.
    pub fn autoscroll_tick(&mut self) -> (r: Option<i32>)
        ensures
            match old(self).autoscroll {
                Some(a) => if old(self).selecting {
                    r == Some(a.lines) && *final(self) == *old(self)
                } else {
                    r is None && *final(self) == (Terminal { autoscroll: None, ..*old(self) })
                },
                None => r is None && *final(self) == *old(self),
            },
    {
        match self.autoscroll {
            Some(a) => {
                if !self.selecting {
                    self.autoscroll = None;
                    return None;
                }
                Some(a.lines)
            },
            None => None,
        }
    }

    /// The second half of an auto-scroll step, once the viewport has moved:
    /// drag the selection's end onto the line that just scrolled into view at
    /// that edge.
    pub fn autoscrolled(&mut self, display_offset: usize, screen_lines: usize)
        requires
            display_offset <= i32::MAX,
            screen_lines <= i32::MAX,
        ensures
            match old(self).autoscroll {
                Some(a) => *final(self) == dragged(
                    *old(self),
                    GridPoint {
                        line: edge_line(
                            a.lines as int,
                            display_offset as int,
                            screen_lines as int,
                        ) as i32,
                        column: a.column,
                    },
                    a.side,
                ),
                None => *final(self) == *old(self),
            },
    {
        if let Some(a) = self.autoscroll {
            let offset: i32 = display_offset as i32;
            let line: i32 = if a.lines > 0 {
                -offset
            } else {
                screen_lines as i32 - 1 - offset
            };
            self.extend_selection(GridPoint { line, column: a.column }, a.side);
        }
    }
}

/// A plain click selects nothing: a simple selection that was never dragged is
/// gone when the button is let go.
pub proof fn a_click_selects_nothing(t: Terminal, point: GridPoint, side: Side, history: usize)
    ensures
        ended(begun(t, SelectionType::Simple, point, side, history)).selection is None,
        ended(begun(t, SelectionType::Simple, point, side, history)).pending_selection is None,
{
}

/// A drag selects from where it began to where it ended, whatever it passed on
/// the way.
pub proof fn a_drag_selects_from_start_to_end(
    t: Terminal,
    kind: SelectionType,
    from: GridPoint,
    from_side: Side,
    via: GridPoint,
    via_side: Side,
    to: GridPoint,
    to_side: Side,
    history: usize,
)
    ensures
        ended(
            dragged(
                dragged(begun(t, kind, from, from_side, history), via, via_side),
                to,
                to_side,
            ),
        ).selection == Some(
            SelectionState {
                ty: kind,
                start: from,
                start_side: from_side,
                end: to,
                end_side: to_side,
            },
        ),
{
}

// ---- The child's environment ----

/// What each variable is set to by a list of settings, the last one winning.
pub open spec fn settings(list: Seq<(Seq<char>, Seq<char>)>) -> Map<Seq<char>, Seq<char>>
    decreases list.len(),
{
    if list.len() == 0 {
        Map::empty()
    } else {
        settings(list.drop_last()).insert(list.last().0, list.last().1)
    }
}

/// The settings a terminal's program gets unless the command overrides them.
pub open spec fn default_settings() -> Seq<(Seq<char>, Seq<char>)> {
    seq![("TERM"@, "xterm-256color"@), ("COLORTERM"@, "truecolor"@)]
}

/// No variable is set twice.
pub open spec fn set_once(list: Seq<(Seq<char>, Seq<char>)>) -> bool {
    forall|i: int, j: int|
        0 <= i < j < list.len() ==> (#[trigger] list[i]).0 != (#[trigger] list[j]).0
}

proof fn lemma_settings_update(list: Seq<(Seq<char>, Seq<char>)>, i: int, value: Seq<char>)
    requires
        set_once(list),
        0 <= i < list.len(),
    ensures
        settings(list.update(i, (list[i].0, value))) == settings(list).insert(list[i].0, value),
    decreases list.len(),
{
    let updated = list.update(i, (list[i].0, value));
    let rest = list.drop_last();
    assert forall|a: int, b: int| 0 <= a < b < rest.len() implies (#[trigger] rest[a]).0 != (
    #[trigger] rest[b]).0 by {
        assert(rest[a] == list[a] && rest[b] == list[b]);
    }
    if i == list.len() - 1 {
        assert(updated.drop_last() =~= rest);
        assert(settings(updated) =~= settings(list).insert(list[i].0, value));
    } else {
        lemma_settings_update(rest, i, value);
        assert(rest[i] == list[i]);
        assert(updated.drop_last() =~= rest.update(i, (rest[i].0, value)));
        assert(list[i].0 != list[list.len() - 1].0);
        assert(settings(updated) =~= settings(list).insert(list[i].0, value));
    }
}

/// Set a variable, replacing what it was set to before.
fn set_variable(env: &mut Vec<(String, String)>, name: &String, value: &String)
    requires
        set_once(text::pairs(old(env)@)),
    ensures
        set_once(text::pairs(final(env)@)),
        settings(text::pairs(final(env)@)) == settings(text::pairs(old(env)@)).insert(
            name@,
            value@,
        ),
{
    let ghost before = text::pairs(env@);
    let n: usize = env.len();
    let mut i: usize = 0;
    while i < n
        invariant
            n == env@.len(),
            i <= n,
            text::pairs(env@) == before,
            before == text::pairs(old(env)@),
            set_once(before),
            forall|j: int| 0 <= j < i ==> (#[trigger] before[j]).0 != name@,
        decreases n - i,
    {
        if same_text(env[i].0.as_str(), name.as_str()) {
            assert(before[i as int].0 == env@[i as int].0@);
            env.set(i, (name.clone(), value.clone()));
            proof {
                assert(text::pairs(env@) =~= before.update(i as int, (before[i as int].0, value@)));
                lemma_settings_update(before, i as int, value@);
                let after = text::pairs(env@);
                assert forall|a: int, b: int| 0 <= a < b < after.len() implies (#[trigger]
                after[a]).0 != (#[trigger] after[b]).0 by {
                    assert(before[a].0 == after[a].0 && before[b].0 == after[b].0);
                }
            }
            return;
        }
        assert(before[i as int].0 == env@[i as int].0@);
        i += 1;
    }
    env.push((name.clone(), value.clone()));
    proof {
        let after = text::pairs(env@);
        assert(after =~= before.push((name@, value@)));
        assert(after.drop_last() =~= before);
        assert forall|a: int, b: int| 0 <= a < b < after.len() implies (#[trigger] after[a]).0 != (
        #[trigger] after[b]).0 by {
            assert(after[a] == before[a]);
            if b < before.len() {
                assert(after[b] == before[b]);
            }
        }
    }
}

proof fn lemma_settings_concat(
    a: Seq<(Seq<char>, Seq<char>)>,
    b: Seq<(Seq<char>, Seq<char>)>,
    k: int,
)
    requires
        0 <= k < b.len(),
    ensures
        settings(a + b.take(k + 1)) == settings(a + b.take(k)).insert(b[k].0, b[k].1),
{
    assert((a + b.take(k + 1)).drop_last() =~= a + b.take(k));
}

/// The environment that a terminal's program gets on top of the inherited one:
/// the defaults, and whatever the command configures in their place. Each
/// variable is set once.
pub fn child_env(env_overrides: &Vec<(String, String)>) -> (r: Vec<(String, String)>)
    ensures
        set_once(text::pairs(r@)),
        settings(text::pairs(r@)) == settings(
            default_settings() + text::pairs(env_overrides@),
        ),
{
    let mut env: Vec<(String, String)> = Vec::new();
    env.push((owned("TERM"), owned("xterm-256color")));
    env.push((owned("COLORTERM"), owned("truecolor")));
    let ghost overrides = text::pairs(env_overrides@);
    proof {
        assert(text::pairs(env@) =~= default_settings());
        assert(default_settings() + overrides.take(0) =~= default_settings());
        reveal_strlit("TERM");
        reveal_strlit("COLORTERM");
        assert("TERM"@.len() != "COLORTERM"@.len());
    }
    let mut i: usize = 0;
    while i < env_overrides.len()
        invariant
            i <= env_overrides@.len(),
            overrides == text::pairs(env_overrides@),
            set_once(text::pairs(env@)),
            settings(text::pairs(env@)) == settings(default_settings() + overrides.take(i as int)),
        decreases env_overrides@.len() - i,
    {
        proof {
            lemma_settings_concat(default_settings(), overrides, i as int);
        }
        set_variable(&mut env, &env_overrides[i].0, &env_overrides[i].1);
        i += 1;
    }
    assert(overrides.take(overrides.len() as int) =~= overrides);
    env
}

/// Anything configured on the command wins over the terminal's defaults.
pub proof fn overrides_win(overrides: Seq<(Seq<char>, Seq<char>)>, name: Seq<char>)
    requires
        settings(overrides).dom().contains(name),
    ensures
        settings(default_settings() + overrides).dom().contains(name),
        settings(default_settings() + overrides)[name] == settings(overrides)[name],
    decreases overrides.len(),
{
    let all = default_settings() + overrides;
    let rest = overrides.drop_last();
    assert(overrides.len() > 0);
    assert(all.drop_last() =~= default_settings() + rest);
    assert(all.last() == overrides.last());
    if overrides.last().0 != name {
        overrides_win(rest, name);
    }
}

/// What is said when a terminal's program cannot be started.
pub open spec fn spawn_failure_of(program: Seq<char>, workdir: Seq<char>) -> Seq<char> {
    "spawning `"@ + program + "` in "@ + workdir
}

/// What is said when a terminal's program cannot be started.
pub fn spawn_failure(program: &str, workdir: &str) -> (r: String)
    ensures
        r@ == spawn_failure_of(program@, workdir@),
{
    let mut r: String = owned("spawning `");
    r.push_str(program);
    r.push_str("` in ");
    r.push_str(workdir);
    r
}

/// How many rows or columns a terminal has where `fit` whole ones fit: at
/// least two.
pub fn grid_size(fit: usize) -> (r: usize)
    ensures
        r == (if fit < 2 {
            2
        } else {
            fit
        }),
{
    if fit < 2 {
        2
    } else {
        fit
    }
}

} // verus!
