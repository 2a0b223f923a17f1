//! Mouse and paste input: what the wheel, the buttons and pasted text send to
//! the program in the terminal.

use vstd::prelude::*;
use vstd::string::*;
use vstd::utf8::*;

use crate::offsets::text_bytes;
use crate::text;
use crate::text::{decimal, owned, replace_char};

verus! {

/// The modes of a terminal that decide what its input sends.
#[derive(Clone, Copy, PartialEq, Eq, Structural, Debug)]
pub struct TermMode {
    pub app_cursor: bool,
    pub mouse_report_click: bool,
    pub mouse_motion: bool,
    pub mouse_drag: bool,
    pub sgr_mouse: bool,
    pub alt_screen: bool,
    pub alternate_scroll: bool,
    pub bracketed_paste: bool,
}

impl TermMode {
    /// Whether the running program asked to receive mouse events.
    pub open spec fn mouse_mode(&self) -> bool {
        self.mouse_report_click || self.mouse_motion || self.mouse_drag
    }

    /// Whether the running program asked to receive mouse events. Callers
    /// still decide: holding shift takes the mouse back for a terminal-side
    /// selection.
    pub fn wants_mouse(&self) -> (r: bool)
        ensures
            r == self.mouse_mode(),
    {
        self.mouse_report_click || self.mouse_motion || self.mouse_drag
    }
}

/// Button code for "no button", used by motion reports and by the legacy
/// encoding's release event.
pub const NO_BUTTON: u8 = 3;

/// A mouse event destined for a program that tracks the mouse. `button` uses
/// the X11 numbering (0 left, 1 middle, 2 right, [`NO_BUTTON`] none); `row`
/// and `column` are 0-based viewport cells.
#[derive(Clone, Copy, PartialEq, Eq, Structural, Debug)]
pub struct MouseReport {
    pub button: u8,
    pub pressed: bool,
    pub motion: bool,
    pub row: usize,
    pub column: usize,
    pub ctrl: bool,
    pub alt: bool,
}

/// The button that the legacy encoding writes. It has no release of its own:
/// the two lowest bits of a released button are set, which means "let go".
pub open spec fn legacy_button(button: int, pressed: bool) -> int {
    if pressed {
        button
    } else {
        button - button % 4 + 3
    }
}

/// Whether a report of this button and cell can be written down at all: the
/// legacy encoding has one byte for the button.
pub open spec fn encodable(
    button: int,
    row: int,
    column: int,
    mode: TermMode,
    pressed: bool,
) -> bool {
    if mode.sgr_mouse {
        row < usize::MAX && column < usize::MAX
    } else {
        row >= 223 || column >= 223 || 32 + legacy_button(button, pressed) <= 255
    }
}

/// The bytes of a mouse report. The legacy encoding can't express coordinates
/// past 222, in which case there is no report.
pub open spec fn report_bytes(
    button: int,
    row: int,
    column: int,
    mode: TermMode,
    pressed: bool,
) -> Option<Seq<u8>> {
    if mode.sgr_mouse {
        let last = if pressed {
            "M"@
        } else {
            "m"@
        };
        Some(
            encode_utf8(
                "\x1b[<"@ + text::decimal_of(button as nat) + ";"@ + text::decimal_of(
                    (column + 1) as nat,
                ) + ";"@ + text::decimal_of((row + 1) as nat) + last,
            ),
        )
    } else if row < 223 && column < 223 {
        Some(
            seq![
                0x1bu8,
                0x5bu8,
                0x4du8,
                (32 + legacy_button(button, pressed)) as u8,
                (33 + column) as u8,
                (33 + row) as u8,
            ],
        )
    } else {
        None
    }
}

/// Encode a mouse event for a program that requested mouse reporting.
/// `button` follows the X11 numbering (64/65 are wheel up/down); `row` and
/// `column` are 0-based viewport cells.
pub fn mouse_report(button: u8, row: usize, column: usize, mode: TermMode, pressed: bool) -> (r:
    Option<Vec<u8>>)
    requires
        encodable(button as int, row as int, column as int, mode, pressed),
    ensures
        match r {
            Some(b) => report_bytes(button as int, row as int, column as int, mode, pressed)
                == Some(b@),
            None => report_bytes(button as int, row as int, column as int, mode, pressed) is None,
        },
{
    if mode.sgr_mouse {
        let mut s: String = owned("\x1b[<");
        s.push_str(decimal(button as u128).as_str());
        s.push_str(";");
        s.push_str(decimal((column + 1) as u128).as_str());
        s.push_str(";");
        s.push_str(decimal((row + 1) as u128).as_str());
        if pressed {
            s.push_str("M");
        } else {
            s.push_str("m");
        }
        Some(text_bytes(s.as_str()))
    } else if row < 223 && column < 223 {
        let code: u8 = if pressed {
            button
        } else {
            button - button % 4 + 3
        };
        let mut v: Vec<u8> = Vec::new();
        v.push(0x1b);
        v.push(0x5b);
        v.push(0x4d);
        v.push(32 + code);
        v.push((33 + column) as u8);
        v.push((33 + row) as u8);
        assert(v@ =~= seq![
            0x1bu8,
            0x5bu8,
            0x4du8,
            (32 + legacy_button(button as int, pressed)) as u8,
            (33 + column) as u8,
            (33 + row) as u8,
        ]);
        Some(v)
    } else {
        None
    }
}

/// Setting the two lowest bits of a button is what [`legacy_button`] computes.
pub proof fn legacy_release_sets_the_low_bits(button: u8)
    ensures
        legacy_button(button as int, false) == (3u8 | (button & 0xfc)),
{
    assert((3u8 | (button & 0xfc)) == button - button % 4 + 3) by (bit_vector);
}

// ---- The wheel ----

/// `s`, `n` times over.
pub open spec fn repeated(s: Seq<u8>, n: nat) -> Seq<u8>
    decreases n,
{
    if n == 0 {
        Seq::empty()
    } else {
        repeated(s, (n - 1) as nat) + s
    }
}

fn repeat_bytes(s: &Vec<u8>, n: usize) -> (r: Vec<u8>)
    ensures
        r@ == repeated(s@, n as nat),
{
    let mut r: Vec<u8> = Vec::new();
    let mut i: usize = 0;
    while i < n
        invariant
            i <= n,
            r@ == repeated(s@, i as nat),
        decreases n - i,
    {
        let ghost before = r@;
        let mut j: usize = 0;
        while j < s.len()
            invariant
                j <= s@.len(),
                r@ == before + s@.take(j as int),
            decreases s@.len() - j,
        {
            r.push(s[j]);
            assert(s@.take(j + 1) =~= s@.take(j as int).push(s@[j as int]));
            j += 1;
        }
        assert(s@.take(s@.len() as int) =~= s@);
        i += 1;
    }
    r
}

/// What to do about a turn of the wheel.
pub enum WheelAction {
    Ignore,
    /// Send these bytes to the program.
    Write(Vec<u8>),
    /// Move the viewport over the scrollback by this many lines.
    Scroll(i32),
}

/// What a turn of the wheel calls for.
pub enum Wheel {
    Ignore,
    Write(Seq<u8>),
    Scroll(int),
}

impl View for WheelAction {
    type V = Wheel;

    open spec fn view(&self) -> Wheel {
        match self {
            WheelAction::Ignore => Wheel::Ignore,
            WheelAction::Write(b) => Wheel::Write(b@),
            WheelAction::Scroll(n) => Wheel::Scroll(*n as int),
        }
    }
}

/// The magnitude of a number.
pub open spec fn magnitude(n: int) -> nat {
    if n >= 0 {
        n as nat
    } else {
        (-n) as nat
    }
}

/// The arrow key that stands for one line of scrolling.
pub open spec fn arrow(up: bool, app_cursor: bool) -> Seq<u8> {
    if app_cursor {
        seq![0x1bu8, 0x4fu8, if up {
            0x41u8
        } else {
            0x42u8
        }]
    } else {
        seq![0x1bu8, 0x5bu8, if up {
            0x41u8
        } else {
            0x42u8
        }]
    }
}

/// What a wheel turn of `lines` (positive scrolls up) over a viewport cell
/// calls for:
///
/// - the program tracks the mouse: report the wheel and let it scroll;
/// - alternate screen with alternate-scroll enabled: translate the wheel into
///   arrow keys;
/// - otherwise: move the viewport over the scrollback.
pub open spec fn wheel(lines: int, row: int, column: int, mode: TermMode) -> Wheel {
    if lines == 0 {
        Wheel::Ignore
    } else if mode.mouse_mode() {
        let button: int = if lines > 0 {
            64
        } else {
            65
        };
        match report_bytes(button, row, column, mode, true) {
            Some(b) => Wheel::Write(repeated(b, magnitude(lines))),
            None => Wheel::Ignore,
        }
    } else if mode.alt_screen && mode.alternate_scroll {
        Wheel::Write(repeated(arrow(lines > 0, mode.app_cursor), magnitude(lines)))
    } else {
        Wheel::Scroll(lines)
    }
}

/// Handle a wheel scroll of `lines` (positive scrolls up/back) with the
/// pointer over viewport cell `row`/`column`, the way a real terminal does,
/// which is what makes the wheel work inside full-screen programs, where the
/// scrollback is empty.
pub fn scroll_wheel(lines: i32, row: usize, column: usize, mode: TermMode) -> (r: WheelAction)
    requires
        mode.mouse_mode() && mode.sgr_mouse ==> row < usize::MAX && column < usize::MAX,
    ensures
        r@ == wheel(lines as int, row as int, column as int, mode),
{
    if lines == 0 {
        return WheelAction::Ignore;
    }
    let count: usize = if lines > 0 {
        lines as usize
    } else {
        (-(lines as i64)) as usize
    };
    if mode.wants_mouse() {
        let button: u8 = if lines > 0 {
            64
        } else {
            65
        };
        return match mouse_report(button, row, column, mode, true) {
            Some(b) => WheelAction::Write(repeat_bytes(&b, count)),
            None => WheelAction::Ignore,
        };
    }
    if mode.alt_screen && mode.alternate_scroll {
        let mut s: Vec<u8> = Vec::new();
        s.push(0x1b);
        if mode.app_cursor {
            s.push(0x4f);
        } else {
            s.push(0x5b);
        }
        if lines > 0 {
            s.push(0x41);
        } else {
            s.push(0x42);
        }
        assert(s@ =~= arrow(lines > 0, mode.app_cursor));
        return WheelAction::Write(repeat_bytes(&s, count));
    }
    WheelAction::Scroll(lines)
}

// ---- Pasting ----

/// What pasting `t` sends. Where the program asked for bracketed paste, the
/// text stands between two markers, with its own escapes taken out; else line
/// breaks become returns, as typed.
pub open spec fn pasted(t: Seq<char>, bracketed: bool) -> Seq<u8> {
    if bracketed {
        encode_utf8("\x1b[200~"@) + encode_utf8(text::replaced(t, '\x1b', Seq::empty()))
            + encode_utf8("\x1b[201~"@)
    } else {
        encode_utf8(text::replaced(t, '\n', "\r"@))
    }
}

/// The bytes that pasting `text` sends to the program.
pub fn paste_bytes(t: &str, bracketed: bool) -> (r: Vec<u8>)
    ensures
        r@ == pasted(t@, bracketed),
{
    if bracketed {
        let mut r: Vec<u8> = text_bytes("\x1b[200~");
        proof {
            reveal_strlit("");
            assert(""@ =~= Seq::<char>::empty());
        }
        let mut inner: Vec<u8> = text_bytes(replace_char(t, '\x1b', "").as_str());
        let mut tail: Vec<u8> = text_bytes("\x1b[201~");
        r.append(&mut inner);
        r.append(&mut tail);
        r
    } else {
        text_bytes(replace_char(t, '\n', "\r").as_str())
    }
}

/// The text between the two markers of a bracketed paste holds no escape of
/// its own, so pasted text can never end the paste early.
pub proof fn bracketed_paste_holds_no_escape(t: Seq<char>)
    ensures
        pasted(t, true) == encode_utf8("\x1b[200~"@) + encode_utf8(
            text::replaced(t, '\x1b', Seq::empty()),
        ) + encode_utf8("\x1b[201~"@),
        !text::replaced(t, '\x1b', Seq::empty()).contains('\x1b'),
    decreases t.len(),
{
    if t.len() > 0 {
        bracketed_paste_holds_no_escape(t.drop_last());
        let inner = text::replaced(t.drop_last(), '\x1b', Seq::empty());
        let all = text::replaced(t, '\x1b', Seq::empty());
        if t.last() == '\x1b' {
            assert(all =~= inner);
        } else {
            assert(all =~= inner.push(t.last()));
            assert forall|i: int| 0 <= i < all.len() implies all[i] != '\x1b' by {
                if i < inner.len() {
                    assert(all[i] == inner[i]);
                }
            }
        }
    }
}

} // verus!
