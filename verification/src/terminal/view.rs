//! The focusable view of a terminal: which keystrokes it keeps for itself.

use vstd::prelude::*;
use vstd::string::*;

use crate::terminal::keys;
use crate::terminal::keys::Keystroke;
use crate::text::same_text;

verus! {

/// Key context of a focused terminal. It sits deeper in the dispatch tree than
/// the window root, so bindings scoped to it outrank the ones installed there.
pub const KEY_CONTEXT: &'static str = "Terminal";

/// Who a keystroke on a focused terminal is for.
#[derive(Clone, Copy, PartialEq, Eq, Structural, Debug)]
pub enum KeyTarget {
    /// Paste the clipboard into the terminal.
    Paste,
    /// Copy the mouse selection.
    Copy,
    /// The program in the terminal, if it takes the key.
    Terminal,
}

/// Who a keystroke is for: control-shift-v pastes, control-shift-c copies.
pub open spec fn key_target_of(control: bool, shift: bool, key: Seq<char>) -> KeyTarget {
    if control && shift && key == "v"@ {
        KeyTarget::Paste
    } else if control && shift && key == "c"@ {
        KeyTarget::Copy
    } else {
        KeyTarget::Terminal
    }
}

/// Who a keystroke on a focused terminal is for.
pub fn on_key_down(keystroke: &Keystroke) -> (r: KeyTarget)
    ensures
        r == key_target_of(
            keystroke.modifiers.control,
            keystroke.modifiers.shift,
            keystroke.key@,
        ),
{
    let chord: bool = keystroke.modifiers.control && keystroke.modifiers.shift;
    if chord && same_text(keystroke.key.as_str(), "v") {
        KeyTarget::Paste
    } else if chord && same_text(keystroke.key.as_str(), "c") {
        KeyTarget::Copy
    } else {
        KeyTarget::Terminal
    }
}

/// What the view keeps for itself the terminal would not have sent anyway.
pub proof fn kept_keys_are_not_sent(
    m: keys::Modifiers,
    key: Seq<char>,
    key_char: Option<Seq<char>>,
    app_cursor: bool,
)
    requires
        key_target_of(m.control, m.shift, key) != KeyTarget::Terminal,
    ensures
        keys::keystroke_bytes(m, key, key_char, app_cursor) is None,
{
}

} // verus!
