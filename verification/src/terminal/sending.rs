//! Laws of what the user's keys, mouse and clipboard send: what a program that
//! reads the bytes makes of them.

use vstd::prelude::*;
use vstd::string::*;
use vstd::utf8::*;

use crate::terminal;
use crate::terminal::history;
use crate::terminal::history::Cell;
use crate::terminal::keys;
use crate::terminal::keys::{Modifiers, NamedKey};
use crate::terminal::mouse;
use crate::terminal::mouse::{MouseReport, TermMode, Wheel};
use crate::terminal::selection::{GridPoint, SelectionState, SelectionType, Side};
use crate::terminal::view;
use crate::terminal::view::KeyTarget;
use crate::terminal::Terminal;
use crate::text;
use crate::text_laws;

verus! {

// ---- Keys ----

/// The letter that ends the sequence of a cursor key.
pub open spec fn is_cursor_key(key: Seq<char>, letter: char) -> bool {
    ||| key == "up"@ && letter == 'A'
    ||| key == "down"@ && letter == 'B'
    ||| key == "right"@ && letter == 'C'
    ||| key == "left"@ && letter == 'D'
    ||| key == "home"@ && letter == 'H'
    ||| key == "end"@ && letter == 'F'
}

/// The number in the sequence of an editing key or a later function key.
pub open spec fn is_numbered_key(key: Seq<char>, n: nat) -> bool {
    ||| key == "insert"@ && n == 2
    ||| key == "delete"@ && n == 3
    ||| key == "pageup"@ && n == 5
    ||| key == "pagedown"@ && n == 6
    ||| key == "f5"@ && n == 15
    ||| key == "f6"@ && n == 17
    ||| key == "f7"@ && n == 18
    ||| key == "f8"@ && n == 19
    ||| key == "f9"@ && n == 20
    ||| key == "f10"@ && n == 21
    ||| key == "f11"@ && n == 23
    ||| key == "f12"@ && n == 24
}

/// The letter that ends the sequence of one of the first function keys.
pub open spec fn is_function_key(key: Seq<char>, letter: char) -> bool {
    ||| key == "f1"@ && letter == 'P'
    ||| key == "f2"@ && letter == 'Q'
    ||| key == "f3"@ && letter == 'R'
    ||| key == "f4"@ && letter == 'S'
}

/// Whether a digit tells exactly which modifiers are held: one more than the
/// sum of one for shift, two for alt and four for control.
pub open spec fn tells(digit: char, m: Modifiers) -> bool {
    let bits = digit as int - '1' as int;
    &&& 0 <= bits < 8
    &&& (bits % 2 == 1) == m.shift
    &&& (bits / 2 % 2 == 1) == m.alt
    &&& (bits / 4 == 1) == m.control
}

/// No modifier is held.
pub open spec fn bare(m: Modifiers) -> bool {
    !m.shift && !m.alt && !m.control
}

proof fn lemma_names()
    ensures
        keys::named_key_of("enter"@) == Some(NamedKey::Enter),
        keys::named_key_of("tab"@) == Some(NamedKey::Tab),
        keys::named_key_of("backspace"@) == Some(NamedKey::Backspace),
        keys::named_key_of("escape"@) == Some(NamedKey::Escape),
        keys::named_key_of("space"@) == Some(NamedKey::Space),
        forall|k: Seq<char>, c: char|
            #[trigger] is_cursor_key(k, c) ==> keys::named_key_of(k) == Some(NamedKey::Cursor(c)),
        forall|k: Seq<char>, n: nat|
            #[trigger] is_numbered_key(k, n) ==> keys::named_key_of(k) == Some(
                NamedKey::Tilde(n as u8),
            ),
        forall|k: Seq<char>, c: char|
            #[trigger] is_function_key(k, c) ==> keys::named_key_of(k) == Some(
                NamedKey::Function(c),
            ),
        forall|k: Seq<char>| k.len() == 1 ==> #[trigger] keys::named_key_of(k) is None,
{
    reveal_strlit("enter");
    reveal_strlit("tab");
    reveal_strlit("backspace");
    reveal_strlit("escape");
    reveal_strlit("up");
    reveal_strlit("down");
    reveal_strlit("right");
    reveal_strlit("left");
    reveal_strlit("home");
    reveal_strlit("end");
    reveal_strlit("insert");
    reveal_strlit("delete");
    reveal_strlit("pageup");
    reveal_strlit("pagedown");
    reveal_strlit("f1");
    reveal_strlit("f2");
    reveal_strlit("f3");
    reveal_strlit("f4");
    reveal_strlit("f5");
    reveal_strlit("f6");
    reveal_strlit("f7");
    reveal_strlit("f8");
    reveal_strlit("f9");
    reveal_strlit("f10");
    reveal_strlit("f11");
    reveal_strlit("f12");
    reveal_strlit("space");
    assert("enter"@.len() == 5);
    assert("tab"@.len() == 3);
    assert("backspace"@.len() == 9);
    assert("escape"@.len() == 6);
    assert("up"@.len() == 2);
    assert("down"@.len() == 4);
    assert("right"@.len() == 5);
    assert("left"@.len() == 4);
    assert("home"@.len() == 4);
    assert("end"@.len() == 3);
    assert("insert"@.len() == 6);
    assert("delete"@.len() == 6);
    assert("pageup"@.len() == 6);
    assert("pagedown"@.len() == 8);
    assert("f1"@.len() == 2);
    assert("f2"@.len() == 2);
    assert("f3"@.len() == 2);
    assert("f4"@.len() == 2);
    assert("f5"@.len() == 2);
    assert("f6"@.len() == 2);
    assert("f7"@.len() == 2);
    assert("f8"@.len() == 2);
    assert("f9"@.len() == 2);
    assert("f10"@.len() == 3);
    assert("f11"@.len() == 3);
    assert("f12"@.len() == 3);
    assert("space"@.len() == 5);
    assert("enter"@[0] == 'e');
    assert("tab"@[0] == 't');
    assert("escape"@[0] == 'e');
    assert("up"@[0] == 'u');
    assert("down"@[0] == 'd');
    assert("right"@[0] == 'r');
    assert("left"@[0] == 'l');
    assert("home"@[0] == 'h');
    assert("end"@[0] == 'e');
    assert("insert"@[0] == 'i');
    assert("delete"@[0] == 'd');
    assert("pageup"@[0] == 'p');
    assert("f1"@[0] == 'f' && "f1"@[1] == '1');
    assert("f2"@[0] == 'f' && "f2"@[1] == '2');
    assert("f3"@[0] == 'f' && "f3"@[1] == '3');
    assert("f4"@[0] == 'f' && "f4"@[1] == '4');
    assert("f5"@[0] == 'f' && "f5"@[1] == '5');
    assert("f6"@[0] == 'f' && "f6"@[1] == '6');
    assert("f7"@[0] == 'f' && "f7"@[1] == '7');
    assert("f8"@[0] == 'f' && "f8"@[1] == '8');
    assert("f9"@[0] == 'f' && "f9"@[1] == '9');
    assert("f10"@[0] == 'f' && "f10"@[2] == '0');
    assert("f11"@[0] == 'f' && "f11"@[2] == '1');
    assert("f12"@[0] == 'f' && "f12"@[2] == '2');
    assert("space"@[0] == 's');
}

proof fn lemma_code(m: Modifiers)
    requires
        !(m.control && m.shift),
    ensures
        bare(m) ==> keys::modifier_code(m) == 1,
        !bare(m) ==> keys::modifier_code(m) > 1,
        text::decimal_of(keys::modifier_code(m)).len() == 1,
        tells(text::decimal_of(keys::modifier_code(m))[0], m),
{
    let n = keys::modifier_code(m);
    assert(1 <= n < 8);
    assert(text::decimal_of(n) =~= seq![text::digit_char(n)]);
}

/// A cursor key sends its letter: behind `ESC [`, behind `ESC O` where the
/// program asked for application cursor keys, and behind a number that tells
/// which modifiers are held where any is.
pub proof fn cursor_keys_send_their_letter(
    m: Modifiers,
    key: Seq<char>,
    letter: char,
    key_char: Option<Seq<char>>,
    app_cursor: bool,
)
    requires
        is_cursor_key(key, letter),
        !(m.control && m.shift),
    ensures
        bare(m) ==> keys::keystroke_bytes(m, key, key_char, app_cursor) == Some(
            encode_utf8(
                seq!['\x1b', if app_cursor {
                    'O'
                } else {
                    '['
                }, letter],
            ),
        ),
        !bare(m) ==> exists|digit: char| #[trigger]
            tells(digit, m) && keys::keystroke_bytes(m, key, key_char, app_cursor) == Some(
                encode_utf8(seq!['\x1b', '[', '1', ';', digit, letter]),
            ),
{
    lemma_names();
    lemma_code(m);
    reveal_strlit("\x1b[1;");
    reveal_strlit("\x1bO");
    reveal_strlit("\x1b[");
    let sequence = keys::cursor_sequence(m, app_cursor, letter);
    if bare(m) {
        assert(sequence =~= seq!['\x1b', if app_cursor {
            'O'
        } else {
            '['
        }, letter]);
    } else {
        let digit = text::decimal_of(keys::modifier_code(m))[0];
        assert(sequence =~= seq!['\x1b', '[', '1', ';', digit, letter]);
        assert(tells(digit, m));
    }
}

/// An editing key or a later function key sends its number, a second one that
/// tells which modifiers are held where any is, and a tilde.
pub proof fn numbered_keys_send_their_number(
    m: Modifiers,
    key: Seq<char>,
    n: nat,
    key_char: Option<Seq<char>>,
    app_cursor: bool,
)
    requires
        is_numbered_key(key, n),
        !(m.control && m.shift),
    ensures
        exists|digits: Seq<char>|
            {
                &&& #[trigger] text_laws::number(digits) == n
                &&& bare(m) ==> keys::keystroke_bytes(m, key, key_char, app_cursor) == Some(
                    encode_utf8(seq!['\x1b', '['] + digits + seq!['~']),
                )
                &&& !bare(m) ==> exists|digit: char| #[trigger]
                    tells(digit, m) && keys::keystroke_bytes(m, key, key_char, app_cursor) == Some(
                        encode_utf8(seq!['\x1b', '['] + digits + seq![';', digit, '~']),
                    )
            },
{
    lemma_names();
    lemma_code(m);
    reveal_strlit("\x1b[");
    reveal_strlit(";");
    reveal_strlit("~");
    text_laws::decimals_stand_for_their_number(n);
    let digits = text::decimal_of(n);
    let sequence = keys::tilde_sequence(m, n);
    let digit = text::decimal_of(keys::modifier_code(m))[0];
    assert(keys::named_key_of(key) == Some(NamedKey::Tilde(n as u8)));
    assert((n as u8) as nat == n);
    assert(text_laws::number(digits) == n);
    if bare(m) {
        assert(sequence =~= seq!['\x1b', '['] + digits + seq!['~']);
    } else {
        assert(sequence =~= seq!['\x1b', '['] + digits + seq![';', digit, '~']);
        assert(tells(digit, m));
    }
}

/// The first four function keys send `ESC O` and their letter.
pub proof fn function_keys_send_their_letter(
    m: Modifiers,
    key: Seq<char>,
    letter: char,
    key_char: Option<Seq<char>>,
    app_cursor: bool,
)
    requires
        is_function_key(key, letter),
        !(m.control && m.shift),
    ensures
        keys::keystroke_bytes(m, key, key_char, app_cursor) == Some(
            encode_utf8(seq!['\x1b', 'O', letter]),
        ),
{
    lemma_names();
    reveal_strlit("\x1bO");
    assert("\x1bO"@ + seq![letter] =~= seq!['\x1b', 'O', letter]);
}

/// Enter is a return, tab a tab, escape an escape and backspace a delete.
/// With shift, tab goes back; with alt, backspace follows an escape, and with
/// control alone it deletes a word. Control and space send a zero byte.
pub proof fn editing_keys_send_their_character(
    m: Modifiers,
    key_char: Option<Seq<char>>,
    app_cursor: bool,
)
    requires
        !(m.control && m.shift),
    ensures
        keys::keystroke_bytes(m, "enter"@, key_char, app_cursor) == Some(seq![13u8]),
        keys::keystroke_bytes(m, "escape"@, key_char, app_cursor) == Some(seq![27u8]),
        !m.shift ==> keys::keystroke_bytes(m, "tab"@, key_char, app_cursor) == Some(seq![9u8]),
        m.shift ==> keys::keystroke_bytes(m, "tab"@, key_char, app_cursor) == Some(
            encode_utf8(seq!['\x1b', '[', 'Z']),
        ),
        m.alt ==> keys::keystroke_bytes(m, "backspace"@, key_char, app_cursor) == Some(
            seq![27u8, 127u8],
        ),
        !m.alt && m.control ==> keys::keystroke_bytes(m, "backspace"@, key_char, app_cursor)
            == Some(seq![23u8]),
        !m.alt && !m.control ==> keys::keystroke_bytes(m, "backspace"@, key_char, app_cursor)
            == Some(seq![127u8]),
        m.control ==> keys::keystroke_bytes(m, "space"@, key_char, app_cursor) == Some(seq![0u8]),
        !m.control && !m.alt ==> forall|t: Seq<char>|
            key_char == Some(t) ==> keys::keystroke_bytes(m, "space"@, key_char, app_cursor)
                == Some(#[trigger] encode_utf8(t)),
{
    lemma_names();
    reveal_strlit("\x1b[Z");
    assert("\x1b[Z"@ =~= seq!['\x1b', '[', 'Z']);
}

/// With control held, a letter sends its place in the alphabet, whatever text
/// the platform has for the key; the brackets and the backslash follow the
/// letters, and the dash, the underscore and the slash all send the last
/// control character.
pub proof fn control_sends_control_characters(
    m: Modifiers,
    c: char,
    key_char: Option<Seq<char>>,
    app_cursor: bool,
)
    requires
        m.control,
        !m.shift,
    ensures
        'a' <= c && c <= 'z' ==> keys::keystroke_bytes(m, seq![c], key_char, app_cursor) == Some(
            seq![(c as int - 96) as u8],
        ),
        keys::keystroke_bytes(m, seq!['['], key_char, app_cursor) == Some(seq![27u8]),
        keys::keystroke_bytes(m, seq!['\\'], key_char, app_cursor) == Some(seq![28u8]),
        keys::keystroke_bytes(m, seq![']'], key_char, app_cursor) == Some(seq![29u8]),
        c == '-' || c == '_' || c == '/' ==> keys::keystroke_bytes(
            m,
            seq![c],
            key_char,
            app_cursor,
        ) == Some(seq![31u8]),
        !('a' <= c && c <= 'z') && c != '[' && c != '\\' && c != ']' && c != '-' && c != '_' && c
            != '/' ==> keys::keystroke_bytes(m, seq![c], key_char, app_cursor) is None,
{
    lemma_names();
}

/// Other keys send the text they type, in UTF-8, behind an escape where alt is
/// held. Where the platform gives no text, a key of one character still types
/// itself with alt, and otherwise nothing is sent.
pub proof fn typing_sends_the_text(m: Modifiers, c: char, t: Seq<char>, app_cursor: bool)
    requires
        !m.control,
    ensures
        !m.alt ==> keys::keystroke_bytes(m, seq![c], Some(t), app_cursor) == Some(encode_utf8(t)),
        m.alt ==> keys::keystroke_bytes(m, seq![c], Some(t), app_cursor) == Some(
            seq![27u8] + encode_utf8(t),
        ),
        m.alt ==> keys::keystroke_bytes(m, seq![c], None, app_cursor) == Some(
            seq![27u8] + encode_utf8(seq![c]),
        ),
        !m.alt ==> keys::keystroke_bytes(m, seq![c], None, app_cursor) is None,
{
    lemma_names();
}

/// A focused terminal keeps two chords: control-shift-v pastes and
/// control-shift-c copies. Every other keystroke is the program's.
pub proof fn the_terminal_keeps_two_chords(control: bool, shift: bool, key: Seq<char>)
    ensures
        view::key_target_of(true, true, seq!['v']) == KeyTarget::Paste,
        view::key_target_of(true, true, seq!['c']) == KeyTarget::Copy,
        !(control && shift) ==> view::key_target_of(control, shift, key) == KeyTarget::Terminal,
        key != seq!['v'] && key != seq!['c'] ==> view::key_target_of(control, shift, key)
            == KeyTarget::Terminal,
{
    reveal_strlit("v");
    reveal_strlit("c");
    assert("v"@ =~= seq!['v']);
    assert("c"@ =~= seq!['c']);
    assert("v"@[0] != "c"@[0]);
}

// ---- The mouse ----

/// A report of the extended encoding reads as the button, the column and the
/// row, both counted from one, and as a press or a release by its last letter.
pub proof fn extended_reports_read_back(
    button: nat,
    row: nat,
    column: nat,
    mode: TermMode,
    pressed: bool,
)
    requires
        mode.sgr_mouse,
    ensures
        exists|a: Seq<char>, b: Seq<char>, c: Seq<char>|
            {
                &&& #[trigger] text_laws::number(a) == button
                &&& #[trigger] text_laws::number(b) == column + 1
                &&& #[trigger] text_laws::number(c) == row + 1
                &&& mouse::report_bytes(button as int, row as int, column as int, mode, pressed)
                    == Some(
                    encode_utf8(
                        seq!['\x1b', '[', '<'] + a + seq![';'] + b + seq![';'] + c + seq![
                            if pressed {
                                'M'
                            } else {
                                'm'
                            },
                        ],
                    ),
                )
            },
{
    reveal_strlit("\x1b[<");
    reveal_strlit(";");
    reveal_strlit("M");
    reveal_strlit("m");
    text_laws::decimals_stand_for_their_number(button);
    text_laws::decimals_stand_for_their_number(column + 1);
    text_laws::decimals_stand_for_their_number(row + 1);
    let a = text::decimal_of(button);
    let b = text::decimal_of(column + 1);
    let c = text::decimal_of(row + 1);
    assert(text_laws::number(a) == button && text_laws::number(b) == column + 1
        && text_laws::number(c) == row + 1);
    assert("\x1b[<"@ + a + ";"@ + b + ";"@ + c + (if pressed {
        "M"@
    } else {
        "m"@
    }) =~= seq!['\x1b', '[', '<'] + a + seq![';'] + b + seq![';'] + c + seq![
        if pressed {
            'M'
        } else {
            'm'
        },
    ]);
}

/// A report of the legacy encoding reads, byte by byte less thirty-two, as the
/// button, the column and the row, both counted from one. A release says that
/// no button is down and keeps the rest. There is no report past the last cell
/// that a byte can name.
pub proof fn legacy_reports_read_back(
    button: int,
    row: int,
    column: int,
    mode: TermMode,
    pressed: bool,
)
    requires
        !mode.sgr_mouse,
        0 <= button < 220,
        0 <= row,
        0 <= column,
    ensures
        row < 223 && column < 223 <==> mouse::report_bytes(button, row, column, mode, pressed)
            is Some,
        mouse::report_bytes(button, row, column, mode, pressed) matches Some(b) ==> {
            &&& b.len() == 6
            &&& b[0] == 27 && b[1] == '[' as int && b[2] == 'M' as int
            &&& pressed ==> b[3] - 32 == button
            &&& !pressed ==> (b[3] - 32) % 4 == 3 && (b[3] - 32) / 4 == button / 4
            &&& b[4] - 32 == column + 1
            &&& b[5] - 32 == row + 1
        },
{
}

/// The number of a report tells its button, whether the pointer moved, and
/// whether alt and control are held.
pub proof fn report_numbers_tell_the_event(report: MouseReport)
    requires
        report.button < 4,
    ensures
        terminal::report_code(report) % 4 == report.button,
        (terminal::report_code(report) / 8 % 2 == 1) == report.alt,
        (terminal::report_code(report) / 16 % 2 == 1) == report.ctrl,
        (terminal::report_code(report) / 32 == 1) == report.motion,
        terminal::report_code(report) / 4 % 2 == 0,
        0 <= terminal::report_code(report) < 64,
{
}

/// A program hears of the mouse only where it asked to. Of presses and releases
/// it hears all; of motion only from one cell to another, while a button is
/// down where it asked for drags, and always where it asked for all motion.
pub proof fn programs_hear_what_they_asked_for(
    report: MouseReport,
    mode: TermMode,
    last: Option<(usize, usize)>,
)
    ensures
        !mode.mouse_report_click && !mode.mouse_drag && !mode.mouse_motion ==> !terminal::wanted(
            report,
            mode,
            last,
        ),
        !report.motion && (mode.mouse_report_click || mode.mouse_drag || mode.mouse_motion)
            ==> terminal::wanted(report, mode, last),
        report.motion && last == Some((report.row, report.column)) ==> !terminal::wanted(
            report,
            mode,
            last,
        ),
        report.motion && last != Some((report.row, report.column)) && report.button == 3 ==> (
        terminal::wanted(report, mode, last) <==> mode.mouse_motion),
        report.motion && last != Some((report.row, report.column)) && report.button != 3 ==> (
        terminal::wanted(report, mode, last) <==> mode.mouse_motion || mode.mouse_drag),
{
}

/// Where byte `i` of copy `k` stands among copies of `len` bytes each.
pub open spec fn place(k: int, len: nat, i: int) -> int {
    k * len + i
}

proof fn lemma_repeated(s: Seq<u8>, n: nat)
    ensures
        mouse::repeated(s, n).len() == n * s.len(),
        forall|k: int, i: int|
            0 <= k < n && 0 <= i < s.len() ==> 0 <= place(k, s.len(), i) < n * s.len()
                && mouse::repeated(s, n)[#[trigger] place(k, s.len(), i)] == s[i],
    decreases n,
{
    let len = s.len() as int;
    if n > 0 {
        let m = (n - 1) as nat;
        lemma_repeated(s, m);
        assert(n * len == m * len + len) by (nonlinear_arith)
            requires
                n == m + 1,
        ;
        assert forall|k: int, i: int| 0 <= k < n && 0 <= i < s.len() implies 0 <= place(k, s.len(), i)
            < n * s.len() && mouse::repeated(s, n)[#[trigger] place(k, s.len(), i)] == s[i] by {
            if k < m {
                assert(0 <= place(k, s.len(), i) < m * s.len());
            } else {
                assert(k == m);
            }
        }
    } else {
        assert(0 * len == 0);
    }
}

/// The bytes are as many copies of one message as there are lines to scroll.
pub open spec fn copies(bytes: Seq<u8>, message: Seq<u8>, lines: int) -> bool {
    let n = if lines < 0 {
        -lines
    } else {
        lines
    };
    &&& bytes.len() == n * message.len()
    &&& forall|k: int, i: int|
        0 <= k < n && 0 <= i < message.len() ==> bytes[#[trigger] place(k, message.len(), i)]
            == message[i]
}

/// A turn of the wheel scrolls the scrollback by the lines it turned, up for
/// positive ones. A program that tracks the mouse gets a press of button 64
/// (up) or 65 (down) for each line instead, in the cell under the pointer, and
/// one on the alternate screen that asked for it an arrow key for each line.
pub proof fn the_wheel_scrolls(lines: int, row: int, column: int, mode: TermMode)
    requires
        lines != 0,
    ensures
        !mode.mouse_mode() && !(mode.alt_screen && mode.alternate_scroll) ==> mouse::wheel(
            lines,
            row,
            column,
            mode,
        ) == Wheel::Scroll(lines),
        !mode.mouse_mode() && mode.alt_screen && mode.alternate_scroll ==> (mouse::wheel(
            lines,
            row,
            column,
            mode,
        ) matches Wheel::Write(b) && copies(
            b,
            seq![
                27u8,
                if mode.app_cursor {
                    79u8
                } else {
                    91u8
                },
                if lines > 0 {
                    65u8
                } else {
                    66u8
                },
            ],
            lines,
        )),
        mode.mouse_mode() ==> match mouse::report_bytes(
            if lines > 0 {
                64
            } else {
                65
            },
            row,
            column,
            mode,
            true,
        ) {
            Some(report) => mouse::wheel(lines, row, column, mode) matches Wheel::Write(b)
                && copies(b, report, lines),
            None => mouse::wheel(lines, row, column, mode) is Ignore,
        },
        mouse::wheel(0, row, column, mode) is Ignore,
{
    let n: nat = if lines < 0 {
        (-lines) as nat
    } else {
        lines as nat
    };
    let arrow = seq![
        27u8,
        if mode.app_cursor {
            79u8
        } else {
            91u8
        },
        if lines > 0 {
            65u8
        } else {
            66u8
        },
    ];
    lemma_repeated(arrow, n);
    assert(mouse::arrow(lines > 0, mode.app_cursor) =~= arrow);
    let button: int = if lines > 0 {
        64
    } else {
        65
    };
    if let Some(report) = mouse::report_bytes(button, row, column, mode, true) {
        lemma_repeated(report, n);
    }
}

/// Text keeps its characters when it is pasted, in order: a program that asked
/// for it gets them between the paste markers, without escapes; another gets
/// returns for line feeds.
pub proof fn pasted_text_keeps_its_characters(t: Seq<char>)
    ensures
        mouse::pasted(t, true) == encode_utf8(seq!['\x1b', '[', '2', '0', '0', '~']) + encode_utf8(
            t.filter(|c: char| c != '\x1b'),
        ) + encode_utf8(seq!['\x1b', '[', '2', '0', '1', '~']),
        mouse::pasted(t, false) == encode_utf8(
            t.map_values(
                |c: char|
                    if c == '\n' {
                        '\r'
                    } else {
                        c
                    },
            ),
        ),
{
    reveal_strlit("\x1b[200~");
    reveal_strlit("\x1b[201~");
    reveal_strlit("\r");
    assert("\x1b[200~"@ =~= seq!['\x1b', '[', '2', '0', '0', '~']);
    assert("\x1b[201~"@ =~= seq!['\x1b', '[', '2', '0', '1', '~']);
    assert("\r"@ =~= seq!['\r']);
    lemma_taken_out(t, '\x1b');
    text_laws::replacing_one_for_one(t, '\n', '\r');
    assert(text::replaced(t, '\n', seq!['\r']) =~= t.map_values(
        |c: char|
            if c == '\n' {
                '\r'
            } else {
                c
            },
    ));
}

proof fn lemma_taken_out(t: Seq<char>, x: char)
    ensures
        text::replaced(t, x, Seq::empty()) == t.filter(|c: char| c != x),
    decreases t.len(),
{
    reveal(Seq::filter);
    if t.len() > 0 {
        lemma_taken_out(t.drop_last(), x);
    }
    assert(text::replaced(t, x, Seq::empty()) =~= t.filter(|c: char| c != x));
}

// ---- Selecting ----

/// A selection stays on the text it was made on: as many lines as scroll off,
/// so many lines up both its ends go, and nothing else of it changes.
pub proof fn selections_follow_their_text(s: SelectionState, scrolled: int)
    requires
        i32::MIN <= s.start.line - scrolled <= i32::MAX,
        i32::MIN <= s.end.line - scrolled <= i32::MAX,
    ensures
        s.shifted(scrolled).start.line + scrolled == s.start.line,
        s.shifted(scrolled).end.line + scrolled == s.end.line,
        s.shifted(scrolled).start.column == s.start.column,
        s.shifted(scrolled).end.column == s.end.column,
        s.shifted(scrolled).start_side == s.start_side,
        s.shifted(scrolled).end_side == s.end_side,
        s.shifted(scrolled).ty == s.ty,
        s.shiftable(scrolled),
{
}

/// A double or triple click selects at once, where it is; a plain press selects
/// nothing yet, and drops what was selected. Either begins a drag.
pub proof fn presses_begin_a_selection(
    t: Terminal,
    kind: SelectionType,
    point: GridPoint,
    side: Side,
    history: usize,
)
    ensures
        kind is Simple ==> terminal::begun(t, kind, point, side, history).selection is None
            && terminal::begun(t, kind, point, side, history).pending_selection == Some(
            (point, side),
        ),
        !(kind is Simple) ==> (terminal::begun(t, kind, point, side, history).selection matches Some(
            s,
        ) && s.ty == kind && s.start == point && s.end == point && s.start_side == side
            && s.end_side == side) && terminal::begun(
            t,
            kind,
            point,
            side,
            history,
        ).pending_selection is None,
        terminal::begun(t, kind, point, side, history).selecting,
        terminal::begun(t, kind, point, side, history).selection_history == history,
        terminal::begun(t, kind, point, side, history) == (Terminal {
            selection: terminal::begun(t, kind, point, side, history).selection,
            pending_selection: terminal::begun(t, kind, point, side, history).pending_selection,
            selection_history: history,
            selecting: true,
            ..t
        }),
{
}

/// A drag moves the end of the selection and leaves its start; without a
/// selection, begun or made, it changes nothing. Letting go ends the drag and
/// its scrolling and keeps what is selected.
pub proof fn drags_move_the_end(t: Terminal, point: GridPoint, side: Side)
    ensures
        t.pending_selection matches Some(from) ==> (terminal::dragged(t, point, side).selection
            matches Some(s) && s.ty is Simple && s.start == from.0 && s.start_side == from.1
            && s.end == point && s.end_side == side),
        t.pending_selection is None ==> (t.selection matches Some(was) ==> (terminal::dragged(
            t,
            point,
            side,
        ).selection matches Some(s) && s.ty == was.ty && s.start == was.start && s.start_side
            == was.start_side && s.end == point && s.end_side == side)),
        t.pending_selection is None && t.selection is None ==> terminal::dragged(t, point, side)
            == t,
        terminal::dragged(t, point, side) == (Terminal {
            selection: terminal::dragged(t, point, side).selection,
            pending_selection: None,
            ..t
        }),
        terminal::ended(t).selection == t.selection,
        !terminal::ended(t).selecting,
        terminal::ended(t).autoscroll is None,
        terminal::ended(t) == (Terminal {
            selecting: false,
            pending_selection: None,
            autoscroll: None,
            ..t
        }),
{
}

/// A drag held above the viewport reaches the line shown at its top, one held
/// below it the line shown at its bottom, wherever the viewport stands.
pub proof fn held_drags_reach_the_edge(lines: int, display_offset: int, screen_lines: int)
    ensures
        lines > 0 ==> terminal::edge_line(lines, display_offset, screen_lines) + display_offset
            == 0,
        lines <= 0 ==> terminal::edge_line(lines, display_offset, screen_lines) + display_offset
            == screen_lines - 1,
{
}

// ---- The program's environment ----

/// A program finds each variable as the command last set it; what the command
/// does not set is what every terminal's program gets: its type and its colors.
pub proof fn commands_set_the_environment(
    before: Seq<(Seq<char>, Seq<char>)>,
    name: Seq<char>,
    value: Seq<char>,
    after: Seq<(Seq<char>, Seq<char>)>,
)
    requires
        forall|i: int| 0 <= i < after.len() ==> (#[trigger] after[i]).0 != name,
    ensures
        terminal::settings(
            terminal::default_settings() + before + seq![(name, value)] + after,
        ).dom().contains(name),
        terminal::settings(
            terminal::default_settings() + before + seq![(name, value)] + after,
        )[name] == value,
        name == "TERM"@ ==> terminal::settings(terminal::default_settings() + after)[name]
            == "xterm-256color"@,
        name == "COLORTERM"@ ==> terminal::settings(terminal::default_settings() + after)[name]
            == "truecolor"@,
        name == "TERM"@ || name == "COLORTERM"@ <==> terminal::settings(
            terminal::default_settings() + after,
        ).dom().contains(name),
    decreases after.len(),
{
    let all = terminal::default_settings() + before + seq![(name, value)] + after;
    let others = terminal::default_settings() + after;
    if after.len() == 0 {
        assert(all.last() == (name, value));
        assert(others =~= terminal::default_settings());
        reveal_strlit("TERM");
        reveal_strlit("COLORTERM");
        assert("TERM"@.len() != "COLORTERM"@.len());
        reveal_with_fuel(terminal::settings, 3);
    } else {
        let rest = after.drop_last();
        assert forall|i: int| 0 <= i < rest.len() implies (#[trigger] rest[i]).0 != name by {
            assert(rest[i] == after[i]);
        }
        commands_set_the_environment(before, name, value, rest);
        assert(all.drop_last() =~= terminal::default_settings() + before + seq![(name, value)]
            + rest);
        assert(others.drop_last() =~= terminal::default_settings() + rest);
        assert(all.last() == after[after.len() - 1] && others.last() == after[after.len() - 1]);
    }
}

// ---- The history file ----

/// A history file reads back as the lines that were on the terminal, row by
/// row: only empty rows at the end are missing. A terminal that shows nothing
/// has no file.
pub proof fn saved_history_reads_back(rows: Seq<Seq<Cell>>)
    requires
        forall|i: int|
            0 <= i < rows.len() ==> text_laws::one_line(history::line_of(#[trigger] rows[i])),
    ensures
        (forall|i: int| 0 <= i < rows.len() ==> history::line_of(#[trigger] rows[i]).len() == 0)
            <==> history::history_text(history::captured(rows)) is None,
        history::history_text(history::captured(rows)) matches Some(t) ==> {
            &&& 0 < text::lines_of(t).len() <= rows.len()
            &&& t.last() == '\n'
            &&& text::lines_of(t).last().len() > 0
            &&& forall|i: int|
                0 <= i < text::lines_of(t).len() ==> #[trigger] text::lines_of(t)[i]
                    == history::line_of(rows[i])
            &&& forall|i: int|
                text::lines_of(t).len() <= i < rows.len() ==> history::line_of(
                    #[trigger] rows[i],
                ).len() == 0
        },
{
    let lines = rows.map_values(|r: Seq<Cell>| history::line_of(r));
    let kept = history::captured(rows);
    history::no_trailing_empty_line(lines);
    lemma_dropped_are_empty(lines);
    assert forall|i: int| 0 <= i < kept.len() implies text_laws::one_line(#[trigger] kept[i])
        && kept[i] == history::line_of(rows[i]) by {
        assert(kept[i] == lines[i]);
    }
    assert forall|i: int| kept.len() <= i < rows.len() implies history::line_of(
        #[trigger] rows[i],
    ).len() == 0 by {
        assert(lines[i].len() == 0);
    }
    text_laws::lines_survive_writing(kept);
    if kept.len() > 0 {
        text_laws::lemma_joined_lines(kept);
        assert(kept.last().len() > 0);
        assert(history::line_of(rows[kept.len() - 1]).len() > 0);
    }
}

proof fn lemma_dropped_are_empty(lines: Seq<Seq<char>>)
    ensures
        forall|i: int|
            history::without_trailing_empty(lines).len() <= i < lines.len() ==> (
            #[trigger] lines[i]).len() == 0,
    decreases lines.len(),
{
    if lines.len() > 0 && lines.last().len() == 0 {
        let rest = lines.drop_last();
        lemma_dropped_are_empty(rest);
        assert forall|i: int|
            history::without_trailing_empty(lines).len() <= i < lines.len() implies (
        #[trigger] lines[i]).len() == 0 by {
            if i < rest.len() {
                assert(rest[i].len() == 0);
            }
        }
    }
}

} // verus!
