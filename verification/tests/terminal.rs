use harmonium::terminal::color::{
    default_bg_hex, default_fg_hex, hex_to_rgb, named_color_rgb, named_sgr, palette_rgb,
    resolve_color, sgr_sequence, slot, Attributes, Color, Colors, NamedColor, Rgb,
};
use harmonium::terminal::element::{
    click_kind, cursor, grid_point_at, layout, CursorShape, PlacedCell, Viewport,
};
use harmonium::terminal::history::{capture_history, capture_line, save_history, Cell, HistoryAction};
use harmonium::terminal::keys::{keystroke_to_bytes, Keystroke, Modifiers};
use harmonium::terminal::mouse::{
    mouse_report, paste_bytes, scroll_wheel, MouseReport, TermMode, WheelAction, NO_BUTTON,
};
use harmonium::terminal::selection::{GridPoint, SelectionRange, SelectionType, Side};
use harmonium::terminal::view::{on_key_down, KeyTarget};
use harmonium::terminal::{
    child_env, grid_size, spawn_failure, DragAutoscroll, LoopEvent, Request, Terminal,
    TerminalEvent,
};
use harmonium::theme::ThemeMode;

// ---- Keys ----

fn key(name: &str, typed: Option<&str>, control: bool, alt: bool, shift: bool) -> Keystroke {
    Keystroke {
        modifiers: Modifiers { control, alt, shift },
        key: name.into(),
        key_char: typed.map(str::to_string),
    }
}

fn sent(k: &Keystroke, app_cursor: bool) -> Option<String> {
    keystroke_to_bytes(k, app_cursor).map(|b| String::from_utf8(b).unwrap())
}

#[test]
fn keys_are_encoded() {
    let plain = |name: &str| key(name, None, false, false, false);
    assert_eq!(sent(&plain("enter"), false).as_deref(), Some("\r"));
    assert_eq!(sent(&plain("escape"), false).as_deref(), Some("\x1b"));
    assert_eq!(sent(&plain("up"), false).as_deref(), Some("\x1b[A"));
    assert_eq!(sent(&plain("up"), true).as_deref(), Some("\x1bOA"));
    assert_eq!(sent(&plain("delete"), false).as_deref(), Some("\x1b[3~"));
    assert_eq!(sent(&plain("f1"), false).as_deref(), Some("\x1bOP"));
    assert_eq!(sent(&plain("f12"), false).as_deref(), Some("\x1b[24~"));
    // Modifiers are one number in the sequence, and app cursor mode is for
    // bare keys only.
    assert_eq!(sent(&key("up", None, true, false, false), true).as_deref(), Some("\x1b[1;5A"));
    assert_eq!(sent(&key("left", None, false, true, true), false).as_deref(), Some("\x1b[1;4D"));
    // Typed text is sent as it is; control-letters are control characters.
    assert_eq!(sent(&key("ä", Some("ä"), false, false, false), false).as_deref(), Some("ä"));
    assert_eq!(sent(&key("c", Some("c"), true, false, false), false).as_deref(), Some("\x03"));
    assert_eq!(sent(&key("x", Some("x"), false, true, false), false).as_deref(), Some("\x1bx"));
    // Control-shift belongs to the app.
    assert_eq!(sent(&key("t", Some("T"), true, false, true), false), None);
}

#[test]
fn copy_and_paste_are_kept_from_the_program() {
    assert_eq!(on_key_down(&key("v", None, true, false, true)), KeyTarget::Paste);
    assert_eq!(on_key_down(&key("c", None, true, false, true)), KeyTarget::Copy);
    assert_eq!(on_key_down(&key("c", None, true, false, false)), KeyTarget::Terminal);
}

// ---- Mouse ----

fn mode() -> TermMode {
    TermMode {
        app_cursor: false,
        mouse_report_click: false,
        mouse_motion: false,
        mouse_drag: false,
        sgr_mouse: false,
        alt_screen: false,
        alternate_scroll: false,
        bracketed_paste: false,
    }
}

#[test]
fn mouse_events_are_encoded() {
    let sgr = TermMode { sgr_mouse: true, ..mode() };
    assert_eq!(mouse_report(0, 4, 9, sgr, true).unwrap(), b"\x1b[<0;10;5M");
    assert_eq!(mouse_report(2, 0, 0, sgr, false).unwrap(), b"\x1b[<2;1;1m");
    assert_eq!(mouse_report(0, 4, 9, mode(), true).unwrap(), vec![0x1b, b'[', b'M', 32, 42, 37]);
    // The legacy encoding has one way to say "let go", and no far cells.
    assert_eq!(mouse_report(0, 4, 9, mode(), false).unwrap()[3], 35);
    assert_eq!(mouse_report(0, 223, 0, mode(), true), None);
}

#[test]
fn the_wheel_goes_where_it_is_wanted() {
    assert!(matches!(scroll_wheel(3, 0, 0, mode()), WheelAction::Scroll(3)));
    assert!(matches!(scroll_wheel(0, 0, 0, mode()), WheelAction::Ignore));
    let alt = TermMode { alt_screen: true, alternate_scroll: true, ..mode() };
    match scroll_wheel(2, 0, 0, alt) {
        WheelAction::Write(b) => assert_eq!(b, b"\x1b[A\x1b[A"),
        _ => panic!("the program was not told"),
    }
    match scroll_wheel(-1, 0, 0, TermMode { app_cursor: true, ..alt }) {
        WheelAction::Write(b) => assert_eq!(b, b"\x1bOB"),
        _ => panic!("the program was not told"),
    }
    let tracking = TermMode { mouse_report_click: true, sgr_mouse: true, ..mode() };
    match scroll_wheel(-1, 1, 2, tracking) {
        WheelAction::Write(b) => assert_eq!(b, b"\x1b[<65;3;2M"),
        _ => panic!("the program was not told"),
    }
    assert!(tracking.wants_mouse());
    assert!(!mode().wants_mouse());
}

#[test]
fn pasted_text_is_made_safe() {
    assert_eq!(paste_bytes("a\nb", false), b"a\rb");
    assert_eq!(paste_bytes("a\x1b[201~b", true), b"\x1b[200~a[201~b\x1b[201~");
}

// ---- Colors ----

#[test]
fn colors_are_resolved() {
    assert_eq!(hex_to_rgb(0x123456), Rgb { r: 0x12, g: 0x34, b: 0x56 });
    let dark = ThemeMode::Dark;
    // The color cube and the gray ramp.
    assert_eq!(palette_rgb(dark, 16), Rgb { r: 0, g: 0, b: 0 });
    assert_eq!(palette_rgb(dark, 196), Rgb { r: 255, g: 0, b: 0 });
    assert_eq!(palette_rgb(dark, 232), Rgb { r: 8, g: 8, b: 8 });
    assert_eq!(palette_rgb(dark, 255), Rgb { r: 238, g: 238, b: 238 });
    assert_eq!(named_color_rgb(dark, NamedColor::Foreground), hex_to_rgb(default_fg_hex(dark)));
    assert_eq!(named_color_rgb(dark, NamedColor::Background), hex_to_rgb(default_bg_hex(dark)));
    assert_eq!(named_color_rgb(dark, NamedColor::Red), palette_rgb(dark, 1));

    // What the program set at run time wins.
    let mut colors = Colors::new();
    let red = Color::Named(NamedColor::Red);
    assert_eq!(resolve_color(dark, red, &colors), palette_rgb(dark, 1));
    let own = Rgb { r: 1, g: 2, b: 3 };
    colors.slots[slot(NamedColor::Red)] = Some(own);
    assert_eq!(resolve_color(dark, red, &colors), own);
    assert_eq!(resolve_color(dark, Color::Spec(own), &colors), own);
}

fn plain() -> Attributes {
    Attributes { bold: false, dim: false, italic: false, underline: false, inverse: false, strikeout: false }
}

#[test]
fn styles_are_written_as_sequences() {
    let fg = Color::Named(NamedColor::Foreground);
    let bg = Color::Named(NamedColor::Background);
    assert_eq!(sgr_sequence(fg, bg, plain()), "\x1b[0m");
    assert_eq!(
        sgr_sequence(Color::Named(NamedColor::Red), Color::Indexed(200), Attributes { bold: true, ..plain() }),
        "\x1b[0;1;31;48;5;200m"
    );
    assert_eq!(
        sgr_sequence(Color::Spec(Rgb { r: 1, g: 2, b: 3 }), bg, plain()),
        "\x1b[0;38;2;1;2;3m"
    );
    assert_eq!(named_sgr(NamedColor::BrightRed, true), Some(91));
    assert_eq!(named_sgr(NamedColor::BrightRed, false), Some(101));
    assert_eq!(named_sgr(NamedColor::Foreground, true), None);
}

// ---- History ----

fn cell(c: char) -> Cell {
    Cell {
        c,
        fg: Color::Named(NamedColor::Foreground),
        bg: Color::Named(NamedColor::Background),
        attributes: plain(),
        hidden: false,
        spacer: false,
    }
}

fn row(s: &str) -> Vec<Cell> {
    s.chars().map(cell).collect()
}

#[test]
fn the_scrollback_is_saved_as_styled_text() {
    assert_eq!(capture_line(&row("ls   ")), "ls");
    let mut red = row("ab");
    red[1].fg = Color::Named(NamedColor::Red);
    assert_eq!(capture_line(&red), "a\x1b[0;31mb\x1b[0m");
    // The second half of a wide character shows nothing of its own.
    let mut wide = row("漢 x");
    wide[1].spacer = true;
    assert_eq!(capture_line(&wide), "漢x");
    assert_eq!(
        capture_history(&vec![row("one"), row(""), row("two"), row("  ")]),
        vec!["one", "", "two"]
    );
    assert!(matches!(save_history(false, &vec![row("x")]), HistoryAction::Keep));
    assert!(matches!(save_history(true, &vec![row(" ")]), HistoryAction::Remove));
    assert!(matches!(save_history(true, &vec![row("x")]), HistoryAction::Write(t) if t == "x\n"));
}

// ---- Frames ----

fn viewport(rows: usize) -> Viewport {
    Viewport {
        mode: ThemeMode::Dark,
        colors: Colors::new(),
        display_offset: 0,
        num_rows: rows,
        selection: None,
    }
}

fn placed(line: i32, s: &str) -> Vec<PlacedCell> {
    s.chars()
        .enumerate()
        .map(|(column, c)| PlacedCell { point: GridPoint { line, column }, cell: cell(c) })
        .collect()
}

#[test]
fn rows_are_laid_out_in_runs() {
    let mut cells = placed(0, "abc");
    cells[2].cell.attributes.bold = true;
    cells.extend(placed(1, "ä"));
    cells.extend(placed(9, "out"));
    let mut v = viewport(2);
    v.selection = Some(SelectionRange {
        start: GridPoint { line: 0, column: 0 },
        end: GridPoint { line: 0, column: 1 },
        is_block: false,
    });
    let frame = layout(&v, &cells);
    assert_eq!(frame.rows.len(), 2);
    assert_eq!(frame.rows[0].text, "abc");
    let lens: Vec<usize> = frame.rows[0].runs.iter().map(|r| r.len).collect();
    assert_eq!(lens, vec![2, 1]);
    assert!(frame.rows[0].runs[1].style.bold);
    assert_eq!(frame.rows[1].runs[0].len, 2);
    // The two selected cells share one patch.
    assert_eq!(frame.quads.len(), 1);
    assert_eq!((frame.quads[0].row, frame.quads[0].column, frame.quads[0].width), (0, 0, 2));
}

#[test]
fn the_cursor_is_drawn_in_the_viewport() {
    let v = viewport(3);
    let at = |line: i32| GridPoint { line, column: 4 };
    let c = cursor(&v, at(1), CursorShape::Block, true, 'x').unwrap();
    assert_eq!((c.row, c.column, c.overlay), (1, 4, Some('x')));
    assert_eq!(cursor(&v, at(1), CursorShape::Block, false, 'x').unwrap().shape, CursorShape::HollowBlock);
    assert!(cursor(&v, at(1), CursorShape::Hidden, true, 'x').is_none());
    assert!(cursor(&v, at(3), CursorShape::Block, true, 'x').is_none());
}

#[test]
fn the_pointer_is_on_a_cell() {
    let (p, side) = grid_point_at(5, 2, true, 1, 24, 80);
    assert_eq!((p.line, p.column, side), (1, 5, Side::Left));
    // Outside it is held to the edge.
    let (p, side) = grid_point_at(200, 99, true, 0, 24, 80);
    assert_eq!((p.line, p.column, side), (23, 79, Side::Left));
    let (p, side) = grid_point_at(-3, -1, false, 0, 24, 80);
    assert_eq!((p.line, p.column, side), (0, 0, Side::Right));
    assert_eq!(click_kind(1), SelectionType::Simple);
    assert_eq!(click_kind(2), SelectionType::Semantic);
    assert_eq!(click_kind(3), SelectionType::Lines);
}

// ---- The terminal ----

fn terminal() -> Terminal {
    Terminal::create("t".into(), "sh".into(), true)
}

#[test]
fn reports_of_the_event_loop_are_answered() {
    let mut t = terminal();
    let dark = ThemeMode::Dark;
    let r = t.process_event(LoopEvent::Wakeup, dark);
    assert_eq!(r.emit, Some(TerminalEvent::Output));
    assert!(r.notify);
    t.process_event(LoopEvent::Title("vim".into()), dark);
    assert_eq!(t.title, "vim");
    t.process_event(LoopEvent::ResetTitle, dark);
    assert_eq!(t.title, "");
    match t.process_event(LoopEvent::PtyWrite("ä".into()), dark).request {
        Request::Write(b) => assert_eq!(b, "ä".as_bytes()),
        _ => panic!("nothing was written"),
    }
    match t.process_event(LoopEvent::ColorRequest(1), dark).request {
        Request::SendColor(c) => assert_eq!(c, palette_rgb(dark, 1)),
        _ => panic!("no color was sent"),
    }
    assert_eq!(t.process_event(LoopEvent::Exit, dark).emit, Some(TerminalEvent::Exited));
    assert!(t.exited);
}

#[test]
fn a_click_selects_nothing_and_a_drag_does() {
    let mut t = terminal();
    let p = |line: i32, column: usize| GridPoint { line, column };
    t.begin_selection(SelectionType::Simple, p(1, 2), Side::Left, 0);
    assert!(t.selection.is_none());
    assert!(t.drag_selection(p(1, 5), Side::Right));
    let s = t.selection.unwrap();
    assert_eq!((s.start, s.end), (p(1, 2), p(1, 5)));
    // Output that scrolls takes the selection along.
    let s = t.sync_selection(3).unwrap();
    assert_eq!((s.start.line, s.end.line), (-2, -2));
    t.end_selection();
    assert!(!t.drag_selection(p(0, 0), Side::Left));
    // Typing and pasting drop it.
    assert_eq!(t.try_keystroke(&key("a", Some("a"), false, false, false), mode()).unwrap(), b"a");
    assert!(t.selection.is_none());
    t.begin_selection(SelectionType::Semantic, p(0, 0), Side::Left, 3);
    assert!(t.selection.is_some());
    assert_eq!(t.paste("hi", mode()), b"hi");
    assert!(t.selection.is_none());
    // A key that sends nothing leaves it.
    t.begin_selection(SelectionType::Lines, p(0, 0), Side::Left, 3);
    assert_eq!(t.try_keystroke(&key("t", None, true, false, true), mode()), None);
    assert!(t.selection.is_some());
    assert_eq!(Terminal::selection_text(Some(String::new())), None);
    assert_eq!(Terminal::selection_text(Some("x".into())).as_deref(), Some("x"));
}

#[test]
fn motion_is_reported_once_per_cell() {
    let mut t = terminal();
    let drag = TermMode { mouse_drag: true, sgr_mouse: true, ..mode() };
    let press = MouseReport { button: 0, pressed: true, motion: false, row: 1, column: 1, ctrl: false, alt: false };
    assert_eq!(t.report_mouse(press, mode()), None);
    assert!(t.report_mouse(press, drag).is_some());
    assert!(t.mouse_pressed);
    let motion = MouseReport { motion: true, column: 2, ..press };
    assert_eq!(t.report_mouse(motion, drag).unwrap(), b"\x1b[<32;3;2M");
    assert_eq!(t.report_mouse(motion, drag), None);
    // Without a button held, only a program that asked for all motion hears.
    let idle = MouseReport { button: NO_BUTTON, column: 5, ..motion };
    assert_eq!(t.report_mouse(idle, drag), None);
    let ctrl = MouseReport { pressed: false, ctrl: true, ..press };
    assert_eq!(t.report_mouse(ctrl, drag).unwrap(), b"\x1b[<16;2;2m");
    assert!(!t.mouse_pressed);
}

#[test]
fn a_drag_past_the_edge_scrolls() {
    let mut t = terminal();
    assert_eq!(t.autoscroll_tick(), None);
    t.begin_selection(SelectionType::Simple, GridPoint { line: 0, column: 0 }, Side::Left, 0);
    let up = DragAutoscroll { lines: 2, column: 3, side: Side::Left };
    assert!(t.set_drag_autoscroll(Some(up)));
    assert!(!t.set_drag_autoscroll(Some(up)));
    assert_eq!(t.autoscroll_tick(), Some(2));
    t.autoscrolled(2, 24);
    assert_eq!(t.selection.unwrap().end, GridPoint { line: -2, column: 3 });
    assert!(!t.set_drag_autoscroll(None));
    assert_eq!(t.autoscroll_tick(), None);
}

#[test]
fn histories_are_kept_or_dropped() {
    let mut t = terminal();
    let rows = vec![row("x")];
    assert!(matches!(t.history_on_drop(&rows), HistoryAction::Write(_)));
    assert!(matches!(t.save_history_now(&rows), HistoryAction::Write(_)));
    assert!(matches!(t.history_on_drop(&rows), HistoryAction::Keep));
    let mut t = terminal();
    t.forget_history();
    assert!(matches!(t.history_on_drop(&rows), HistoryAction::Keep));
    let mut t = terminal();
    assert!(matches!(t.discard_history(), HistoryAction::Remove));
    assert!(matches!(t.history_on_drop(&rows), HistoryAction::Keep));
}

#[test]
fn a_child_gets_a_terminals_environment() {
    let env = child_env(&vec![("A".to_string(), "1".to_string())]);
    assert!(env.contains(&("TERM".to_string(), "xterm-256color".to_string())));
    assert_eq!(env.last().unwrap(), &("A".to_string(), "1".to_string()));
    assert_eq!(spawn_failure("sh", "/w"), "spawning `sh` in /w");
    assert_eq!(grid_size(0), 2);
    assert_eq!(grid_size(80), 80);
}
