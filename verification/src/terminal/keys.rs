//! Keyboard input: which bytes a keystroke sends to the program in the
//! terminal.

use vstd::prelude::*;
use vstd::string::*;
use vstd::utf8::*;

use crate::offsets::text_bytes;
use crate::text;
use crate::text::{decimal, owned, same_text, to_chars};

verus! {

/// The modifier keys held during a keystroke.
#[derive(Clone, Copy, PartialEq, Eq, Structural, Debug)]
pub struct Modifiers {
    pub control: bool,
    pub alt: bool,
    pub shift: bool,
}

/// A key press: the key's name, the modifiers held with it, and the text it
/// would type, where it types any.
pub struct Keystroke {
    pub modifiers: Modifiers,
    pub key: String,
    pub key_char: Option<String>,
}

/// The keys that send a fixed sequence, by family.
#[derive(Clone, Copy, PartialEq, Eq, Structural, Debug)]
pub enum NamedKey {
    Enter,
    Tab,
    Backspace,
    Escape,
    /// Arrow, home and end keys, by the letter that ends their sequence.
    Cursor(char),
    /// Editing and function keys, by the number in their sequence.
    Tilde(u8),
    /// The first four function keys, by the letter that ends their sequence.
    Function(char),
    Space,
}

/// The family of the key called `key`, if it is one that has a name.
pub open spec fn named_key_of(key: Seq<char>) -> Option<NamedKey> {
    if key == "enter"@ {
        Some(NamedKey::Enter)
    } else if key == "tab"@ {
        Some(NamedKey::Tab)
    } else if key == "backspace"@ {
        Some(NamedKey::Backspace)
    } else if key == "escape"@ {
        Some(NamedKey::Escape)
    } else if key == "up"@ {
        Some(NamedKey::Cursor('A'))
    } else if key == "down"@ {
        Some(NamedKey::Cursor('B'))
    } else if key == "right"@ {
        Some(NamedKey::Cursor('C'))
    } else if key == "left"@ {
        Some(NamedKey::Cursor('D'))
    } else if key == "home"@ {
        Some(NamedKey::Cursor('H'))
    } else if key == "end"@ {
        Some(NamedKey::Cursor('F'))
    } else if key == "insert"@ {
        Some(NamedKey::Tilde(2))
    } else if key == "delete"@ {
        Some(NamedKey::Tilde(3))
    } else if key == "pageup"@ {
        Some(NamedKey::Tilde(5))
    } else if key == "pagedown"@ {
        Some(NamedKey::Tilde(6))
    } else if key == "f1"@ {
        Some(NamedKey::Function('P'))
    } else if key == "f2"@ {
        Some(NamedKey::Function('Q'))
    } else if key == "f3"@ {
        Some(NamedKey::Function('R'))
    } else if key == "f4"@ {
        Some(NamedKey::Function('S'))
    } else if key == "f5"@ {
        Some(NamedKey::Tilde(15))
    } else if key == "f6"@ {
        Some(NamedKey::Tilde(17))
    } else if key == "f7"@ {
        Some(NamedKey::Tilde(18))
    } else if key == "f8"@ {
        Some(NamedKey::Tilde(19))
    } else if key == "f9"@ {
        Some(NamedKey::Tilde(20))
    } else if key == "f10"@ {
        Some(NamedKey::Tilde(21))
    } else if key == "f11"@ {
        Some(NamedKey::Tilde(23))
    } else if key == "f12"@ {
        Some(NamedKey::Tilde(24))
    } else if key == "space"@ {
        Some(NamedKey::Space)
    } else {
        None
    }
}

/// The family of the key called `key`, if it is one that has a name.
pub fn named_key(key: &str) -> (r: Option<NamedKey>)
    ensures
        r == named_key_of(key@),
{
    if same_text(key, "enter") {
        Some(NamedKey::Enter)
    } else if same_text(key, "tab") {
        Some(NamedKey::Tab)
    } else if same_text(key, "backspace") {
        Some(NamedKey::Backspace)
    } else if same_text(key, "escape") {
        Some(NamedKey::Escape)
    } else if same_text(key, "up") {
        Some(NamedKey::Cursor('A'))
    } else if same_text(key, "down") {
        Some(NamedKey::Cursor('B'))
    } else if same_text(key, "right") {
        Some(NamedKey::Cursor('C'))
    } else if same_text(key, "left") {
        Some(NamedKey::Cursor('D'))
    } else if same_text(key, "home") {
        Some(NamedKey::Cursor('H'))
    } else if same_text(key, "end") {
        Some(NamedKey::Cursor('F'))
    } else if same_text(key, "insert") {
        Some(NamedKey::Tilde(2))
    } else if same_text(key, "delete") {
        Some(NamedKey::Tilde(3))
    } else if same_text(key, "pageup") {
        Some(NamedKey::Tilde(5))
    } else if same_text(key, "pagedown") {
        Some(NamedKey::Tilde(6))
    } else if same_text(key, "f1") {
        Some(NamedKey::Function('P'))
    } else if same_text(key, "f2") {
        Some(NamedKey::Function('Q'))
    } else if same_text(key, "f3") {
        Some(NamedKey::Function('R'))
    } else if same_text(key, "f4") {
        Some(NamedKey::Function('S'))
    } else if same_text(key, "f5") {
        Some(NamedKey::Tilde(15))
    } else if same_text(key, "f6") {
        Some(NamedKey::Tilde(17))
    } else if same_text(key, "f7") {
        Some(NamedKey::Tilde(18))
    } else if same_text(key, "f8") {
        Some(NamedKey::Tilde(19))
    } else if same_text(key, "f9") {
        Some(NamedKey::Tilde(20))
    } else if same_text(key, "f10") {
        Some(NamedKey::Tilde(21))
    } else if same_text(key, "f11") {
        Some(NamedKey::Tilde(23))
    } else if same_text(key, "f12") {
        Some(NamedKey::Tilde(24))
    } else if same_text(key, "space") {
        Some(NamedKey::Space)
    } else {
        None
    }
}

/// The number that stands for the held modifiers in an escape sequence:
/// one, plus one for shift, two for alt and four for control.
pub open spec fn modifier_code(m: Modifiers) -> nat {
    1 + (if m.shift {
        1nat
    } else {
        0
    }) + (if m.alt {
        2nat
    } else {
        0
    }) + (if m.control {
        4nat
    } else {
        0
    })
}

/// The sequence of a cursor key.
pub open spec fn cursor_sequence(m: Modifiers, app_cursor: bool, c: char) -> Seq<char> {
    if modifier_code(m) > 1 {
        "\x1b[1;"@ + text::decimal_of(modifier_code(m)) + seq![c]
    } else if app_cursor {
        "\x1bO"@ + seq![c]
    } else {
        "\x1b["@ + seq![c]
    }
}

/// The sequence of an editing or function key.
pub open spec fn tilde_sequence(m: Modifiers, n: nat) -> Seq<char> {
    if modifier_code(m) > 1 {
        "\x1b["@ + text::decimal_of(n) + ";"@ + text::decimal_of(modifier_code(m)) + "~"@
    } else {
        "\x1b["@ + text::decimal_of(n) + "~"@
    }
}

/// The control character that a letter or sign gives with control held.
pub open spec fn control_byte(c: char) -> Option<u8> {
    if 'a' <= c && c <= 'z' {
        Some((c as int - 'a' as int + 1) as u8)
    } else if c == '[' {
        Some(0x1b)
    } else if c == '\\' {
        Some(0x1c)
    } else if c == ']' {
        Some(0x1d)
    } else if c == '-' || c == '_' || c == '/' {
        Some(0x1f)
    } else {
        None
    }
}

/// What a key without a fixed sequence sends: with control held, the control
/// character of a one-character key; else the text it types, behind an escape
/// where alt is held. A one-character key held with alt types itself where
/// the platform gives no text.
pub open spec fn typed(m: Modifiers, key: Seq<char>, key_char: Option<Seq<char>>) -> Option<
    Seq<u8>,
> {
    if m.control {
        if key.len() == 1 && control_byte(key[0]) is Some {
            Some(seq![control_byte(key[0])->0])
        } else {
            None
        }
    } else {
        let types: Option<Seq<char>> = if key_char is Some {
            key_char
        } else if key.len() == 1 && m.alt {
            Some(key)
        } else {
            None
        };
        match types {
            Some(t) => Some(
                if m.alt {
                    seq![0x1bu8] + encode_utf8(t)
                } else {
                    encode_utf8(t)
                },
            ),
            None => None,
        }
    }
}

/// The bytes a keystroke sends, or nothing where it is not the terminal's:
/// chords of control and shift are left to the app.
pub open spec fn keystroke_bytes(
    m: Modifiers,
    key: Seq<char>,
    key_char: Option<Seq<char>>,
    app_cursor: bool,
) -> Option<Seq<u8>> {
    if m.control && m.shift {
        None
    } else {
        match named_key_of(key) {
            Some(NamedKey::Enter) => Some(seq![0x0du8]),
            Some(NamedKey::Tab) => Some(
                if m.shift {
                    encode_utf8("\x1b[Z"@)
                } else {
                    seq![0x09u8]
                },
            ),
            Some(NamedKey::Backspace) => Some(
                if m.alt {
                    seq![0x1bu8, 0x7fu8]
                } else if m.control {
                    seq![0x17u8]
                } else {
                    seq![0x7fu8]
                },
            ),
            Some(NamedKey::Escape) => Some(seq![0x1bu8]),
            Some(NamedKey::Cursor(c)) => Some(encode_utf8(cursor_sequence(m, app_cursor, c))),
            Some(NamedKey::Tilde(n)) => Some(encode_utf8(tilde_sequence(m, n as nat))),
            Some(NamedKey::Function(c)) => Some(encode_utf8("\x1bO"@ + seq![c])),
            Some(NamedKey::Space) if m.control => Some(seq![0x00u8]),
            _ => typed(m, key, key_char),
        }
    }
}

fn modifiers_code(m: Modifiers) -> (r: u64)
    ensures
        r == modifier_code(m),
{
    let mut code: u64 = 1;
    if m.shift {
        code += 1;
    }
    if m.alt {
        code += 2;
    }
    if m.control {
        code += 4;
    }
    code
}

fn cursor_bytes(m: Modifiers, app_cursor: bool, c: char) -> (r: Vec<u8>)
    ensures
        r@ == encode_utf8(cursor_sequence(m, app_cursor, c)),
{
    let code: u64 = modifiers_code(m);
    let mut s: String;
    if code > 1 {
        s = owned("\x1b[1;");
        s.push_str(decimal(code as u128).as_str());
    } else if app_cursor {
        s = owned("\x1bO");
    } else {
        s = owned("\x1b[");
    }
    s.push(c);
    assert(s@ =~= cursor_sequence(m, app_cursor, c));
    text_bytes(s.as_str())
}

fn tilde_bytes(m: Modifiers, n: u8) -> (r: Vec<u8>)
    ensures
        r@ == encode_utf8(tilde_sequence(m, n as nat)),
{
    let code: u64 = modifiers_code(m);
    let mut s: String = owned("\x1b[");
    s.push_str(decimal(n as u128).as_str());
    if code > 1 {
        s.push_str(";");
        s.push_str(decimal(code as u128).as_str());
    }
    s.push_str("~");
    assert(s@ =~= tilde_sequence(m, n as nat));
    text_bytes(s.as_str())
}

fn function_bytes(c: char) -> (r: Vec<u8>)
    ensures
        r@ == encode_utf8("\x1bO"@ + seq![c]),
{
    let mut s: String = owned("\x1bO");
    s.push(c);
    assert(s@ =~= "\x1bO"@ + seq![c]);
    text_bytes(s.as_str())
}

fn control_code(c: char) -> (r: Option<u8>)
    ensures
        r == control_byte(c),
{
    if 'a' <= c && c <= 'z' {
        Some((c as u32 - 'a' as u32 + 1) as u8)
    } else if c == '[' {
        Some(0x1b)
    } else if c == '\\' {
        Some(0x1c)
    } else if c == ']' {
        Some(0x1d)
    } else if c == '-' || c == '_' || c == '/' {
        Some(0x1f)
    } else {
        None
    }
}

fn typed_bytes(m: Modifiers, key: &str, key_char: &Option<String>) -> (r: Option<Vec<u8>>)
    ensures
        match r {
            Some(b) => typed(m, key@, text::opt_text(*key_char)) == Some(b@),
            None => typed(m, key@, text::opt_text(*key_char)) is None,
        },
{
    let chars: Vec<char> = to_chars(key);
    if m.control {
        if chars.len() != 1 {
            return None;
        }
        match control_code(chars[0]) {
            Some(b) => {
                let mut v: Vec<u8> = Vec::new();
                v.push(b);
                assert(v@ =~= seq![b]);
                Some(v)
            },
            None => None,
        }
    } else {
        let tail: Vec<u8> = match key_char {
            Some(t) => text_bytes(t.as_str()),
            None => {
                if chars.len() == 1 && m.alt {
                    text_bytes(key)
                } else {
                    return None;
                }
            },
        };
        if m.alt {
            let mut v: Vec<u8> = Vec::new();
            v.push(0x1b);
            let ghost t = tail@;
            let mut tail: Vec<u8> = tail;
            v.append(&mut tail);
            assert(v@ =~= seq![0x1bu8] + t);
            Some(v)
        } else {
            Some(tail)
        }
    }
}

fn one(b: u8) -> (r: Vec<u8>)
    ensures
        r@ == seq![b],
{
    let mut v: Vec<u8> = Vec::new();
    v.push(b);
    assert(v@ =~= seq![b]);
    v
}

/// The bytes that `keystroke` sends to the program in the terminal, or `None`
/// where the terminal does not take it. `app_cursor` says whether the program
/// asked for application cursor keys.
pub fn keystroke_to_bytes(keystroke: &Keystroke, app_cursor: bool) -> (r: Option<Vec<u8>>)
    ensures
        match r {
            Some(b) => keystroke_bytes(
                keystroke.modifiers,
                keystroke.key@,
                text::opt_text(keystroke.key_char),
                app_cursor,
            ) == Some(b@),
            None => keystroke_bytes(
                keystroke.modifiers,
                keystroke.key@,
                text::opt_text(keystroke.key_char),
                app_cursor,
            ) is None,
        },
{
    let m: Modifiers = keystroke.modifiers;
    if m.control && m.shift {
        return None;
    }
    let key: &str = keystroke.key.as_str();
    match named_key(key) {
        Some(NamedKey::Enter) => Some(one(0x0d)),
        Some(NamedKey::Tab) => {
            if m.shift {
                Some(text_bytes("\x1b[Z"))
            } else {
                Some(one(0x09))
            }
        },
        Some(NamedKey::Backspace) => {
            if m.alt {
                let mut v: Vec<u8> = Vec::new();
                v.push(0x1b);
                v.push(0x7f);
                assert(v@ =~= seq![0x1bu8, 0x7fu8]);
                Some(v)
            } else if m.control {
                Some(one(0x17))
            } else {
                Some(one(0x7f))
            }
        },
        Some(NamedKey::Escape) => Some(one(0x1b)),
        Some(NamedKey::Cursor(c)) => Some(cursor_bytes(m, app_cursor, c)),
        Some(NamedKey::Tilde(n)) => Some(tilde_bytes(m, n)),
        Some(NamedKey::Function(c)) => Some(function_bytes(c)),
        Some(NamedKey::Space) => {
            if m.control {
                Some(one(0x00))
            } else {
                typed_bytes(m, key, &keystroke.key_char)
            }
        },
        None => typed_bytes(m, key, &keystroke.key_char),
    }
}

/// No chord of control and shift ever reaches the program: those belong to
/// the app.
pub proof fn control_shift_is_the_apps(
    m: Modifiers,
    key: Seq<char>,
    key_char: Option<Seq<char>>,
    app_cursor: bool,
)
    requires
        m.control && m.shift,
    ensures
        keystroke_bytes(m, key, key_char, app_cursor) is None,
{
}

/// Plain typing sends exactly the text typed, in UTF-8.
pub proof fn plain_typing_is_sent_as_is(key: Seq<char>, types: Seq<char>, app_cursor: bool)
    requires
        named_key_of(key) is None,
    ensures
        keystroke_bytes(
            Modifiers { control: false, alt: false, shift: false },
            key,
            Some(types),
            app_cursor,
        ) == Some(encode_utf8(types)),
{
}

/// Application cursor keys change what a cursor key sends only where no
/// modifier is held, and no other key.
pub proof fn app_cursor_is_for_bare_cursor_keys(
    m: Modifiers,
    key: Seq<char>,
    key_char: Option<Seq<char>>,
)
    requires
        modifier_code(m) > 1 || !(named_key_of(key) matches Some(NamedKey::Cursor(_))),
    ensures
        keystroke_bytes(m, key, key_char, true) == keystroke_bytes(m, key, key_char, false),
{
}

} // verus!
