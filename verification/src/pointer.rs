//! The pointer tool: what its commands do to a virtual pointer and keyboard.

use vstd::prelude::*;
use vstd::string::*;

use crate::text;
use crate::text::{owned, parse_u32, same_text, split_once};

verus! {

pub const BTN_LEFT: u32 = 0x110;

pub const BTN_RIGHT: u32 = 0x111;

pub const BTN_MIDDLE: u32 = 0x112;

/// The extent of the output where none is given.
pub const DEFAULT_EXTENT: &'static str = "1280x820";

/// The code of a key: by its name, or as the number that it is.
pub open spec fn key_code(name: Seq<char>) -> Option<nat> {
    if name == "enter"@ {
        Some(28)
    } else if name == "escape"@ {
        Some(1)
    } else if name == "tab"@ {
        Some(15)
    } else if name == "space"@ {
        Some(57)
    } else if name == "up"@ {
        Some(103)
    } else if name == "down"@ {
        Some(108)
    } else if name == "left"@ {
        Some(105)
    } else if name == "right"@ {
        Some(106)
    } else {
        text::u32_of(name)
    }
}

/// The code of a key.
pub fn evdev_code(name: &str) -> (r: Option<u32>)
    ensures
        match r {
            Some(code) => key_code(name@) == Some(code as nat),
            None => key_code(name@) is None,
        },
{
    if same_text(name, "enter") {
        Some(28)
    } else if same_text(name, "escape") {
        Some(1)
    } else if same_text(name, "tab") {
        Some(15)
    } else if same_text(name, "space") {
        Some(57)
    } else if same_text(name, "up") {
        Some(103)
    } else if same_text(name, "down") {
        Some(108)
    } else if same_text(name, "left") {
        Some(105)
    } else if same_text(name, "right") {
        Some(106)
    } else {
        parse_u32(name)
    }
}

/// An extent written as `WxH`.
pub open spec fn extent_of(s: Seq<char>) -> Option<(nat, nat)> {
    match text::around(s, 'x') {
        Some((w, h)) => match (text::u32_of(w), text::u32_of(h)) {
            (Some(w), Some(h)) => Some((w, h)),
            _ => None,
        },
        None => None,
    }
}

/// Read an extent written as `WxH`.
pub fn parse_extent(s: &str) -> (r: Option<(u32, u32)>)
    ensures
        match r {
            Some((w, h)) => extent_of(s@) == Some((w as nat, h as nat)),
            None => extent_of(s@) is None,
        },
{
    match split_once(s, 'x') {
        Some((w, h)) => match (parse_u32(w.as_str()), parse_u32(h.as_str())) {
            (Some(w), Some(h)) => Some((w, h)),
            _ => None,
        },
        None => None,
    }
}

/// Something sent to the virtual devices.
pub enum Event {
    Motion { time: u32, x: u32, y: u32 },
    Frame,
    Button { time: u32, button: u32, pressed: bool },
    Key { time: u32, code: u32, pressed: bool },
    /// A turn of the wheel, by the amount that is given.
    Wheel { time: u32, amount: Option<String> },
    /// A key was asked for that cannot be pressed.
    KeyUnavailable,
    /// A command that there is not.
    Unknown(String),
}

/// What an [`Event`] says.
#[verifier::ext_equal]
pub enum Sent {
    Motion { time: int, x: nat, y: nat },
    Frame,
    Button { time: int, button: u32, pressed: bool },
    Key { time: int, code: nat, pressed: bool },
    Wheel { time: int, amount: Option<Seq<char>> },
    KeyUnavailable,
    Unknown(Seq<char>),
}

impl View for Event {
    type V = Sent;

    open spec fn view(&self) -> Sent {
        match self {
            Event::Motion { time, x, y } => Sent::Motion {
                time: *time as int,
                x: *x as nat,
                y: *y as nat,
            },
            Event::Frame => Sent::Frame,
            Event::Button { time, button, pressed } => Sent::Button {
                time: *time as int,
                button: *button,
                pressed: *pressed,
            },
            Event::Key { time, code, pressed } => Sent::Key {
                time: *time as int,
                code: *code as nat,
                pressed: *pressed,
            },
            Event::Wheel { time, amount } => Sent::Wheel {
                time: *time as int,
                amount: text::opt_text(*amount),
            },
            Event::KeyUnavailable => Sent::KeyUnavailable,
            Event::Unknown(cmd) => Sent::Unknown(cmd@),
        }
    }
}

/// The contents of some events.
pub open spec fn sent(list: Seq<Event>) -> Seq<Sent> {
    list.map_values(|e: Event| e@)
}

/// A coordinate among the arguments: zero where there is none that can be
/// read.
pub open spec fn coordinate(args: Seq<Seq<char>>, i: int) -> nat {
    if i < args.len() {
        match text::u32_of(args[i]) {
            Some(n) => n,
            None => 0,
        }
    } else {
        0
    }
}

/// The button among the arguments.
pub open spec fn button_of(args: Seq<Seq<char>>) -> u32 {
    if args.len() > 2 && args[2] == "right"@ {
        BTN_RIGHT
    } else if args.len() > 2 && args[2] == "middle"@ {
        BTN_MIDDLE
    } else {
        BTN_LEFT
    }
}

/// What a pointer command does behind its motion.
pub open spec fn gesture(t: int, cmd: Seq<char>, args: Seq<Seq<char>>) -> Seq<Sent> {
    let button = button_of(args);
    if cmd == "move"@ {
        Seq::empty()
    } else if cmd == "click"@ {
        seq![
            Sent::Button { time: t + 5, button, pressed: true },
            Sent::Frame,
            Sent::Button { time: t + 15, button, pressed: false },
            Sent::Frame,
        ]
    } else if cmd == "press"@ || cmd == "release"@ {
        seq![Sent::Button { time: t + 5, button, pressed: cmd == "press"@ }, Sent::Frame]
    } else if cmd == "scroll"@ {
        seq![
            Sent::Wheel {
                time: t + 5,
                amount: if args.len() > 2 {
                    Some(args[2])
                } else {
                    None
                },
            },
            Sent::Frame,
        ]
    } else {
        seq![Sent::Unknown(cmd)]
    }
}

/// What a command sends at a time. Keyboard commands skip the pointer motion
/// entirely.
pub open spec fn command_events(
    t: int,
    keyboard: bool,
    cmd: Seq<char>,
    args: Seq<Seq<char>>,
) -> Seq<Sent> {
    if cmd == "key"@ {
        if keyboard && args.len() > 0 && key_code(args[0]) is Some {
            let code = key_code(args[0])->0;
            seq![
                Sent::Key { time: t, code, pressed: true },
                Sent::Key { time: t + 10, code, pressed: false },
            ]
        } else {
            seq![Sent::KeyUnavailable]
        }
    } else {
        seq![
            Sent::Motion { time: t, x: coordinate(args, 0), y: coordinate(args, 1) },
            Sent::Frame,
        ] + gesture(t, cmd, args)
    }
}

/// The virtual devices: whether there is a keyboard, and the time of the last
/// command.
pub struct Devices {
    pub keyboard: bool,
    pub time: u32,
}

fn send(out: &mut Vec<Event>, e: Event)
    ensures
        sent(final(out)@) == sent(old(out)@).push(e@),
{
    let ghost before = sent(out@);
    out.push(e);
    assert(sent(out@) =~= before.push(e@));
}

fn number_at(args: &Vec<String>, i: usize) -> (r: u32)
    ensures
        r == coordinate(text::texts(args@), i as int),
{
    if i < args.len() {
        assert(text::texts(args@)[i as int] == args@[i as int]@);
        match parse_u32(args[i].as_str()) {
            Some(n) => n,
            None => 0,
        }
    } else {
        0
    }
}

fn button_at(args: &Vec<String>) -> (r: u32)
    ensures
        r == button_of(text::texts(args@)),
{
    if args.len() > 2 {
        assert(text::texts(args@)[2] == args@[2]@);
        if same_text(args[2].as_str(), "right") {
            return BTN_RIGHT;
        }
        if same_text(args[2].as_str(), "middle") {
            return BTN_MIDDLE;
        }
    }
    BTN_LEFT
}

fn gestures(t: u32, cmd: &str, args: &Vec<String>) -> (r: Vec<Event>)
    requires
        t + 15 <= u32::MAX,
    ensures
        sent(r@) == gesture(t as int, cmd@, text::texts(args@)),
{
    let mut r: Vec<Event> = Vec::new();
    assert(sent(r@) =~= Seq::<Sent>::empty());
    if same_text(cmd, "move") {
        return r;
    }
    let button: u32 = button_at(args);
    if same_text(cmd, "click") {
        send(&mut r, Event::Button { time: t + 5, button, pressed: true });
        send(&mut r, Event::Frame);
        send(&mut r, Event::Button { time: t + 15, button, pressed: false });
        send(&mut r, Event::Frame);
    } else if same_text(cmd, "press") || same_text(cmd, "release") {
        send(&mut r, Event::Button { time: t + 5, button, pressed: same_text(cmd, "press") });
        send(&mut r, Event::Frame);
    } else if same_text(cmd, "scroll") {
        let amount: Option<String> = if args.len() > 2 {
            Some(args[2].clone())
        } else {
            None
        };
        send(&mut r, Event::Wheel { time: t + 5, amount });
        send(&mut r, Event::Frame);
    } else {
        send(&mut r, Event::Unknown(owned(cmd)));
    }
    assert(sent(r@) =~= gesture(t as int, cmd@, text::texts(args@)));
    r
}

impl Devices {
    /// What a command sends.
    pub fn exec(&mut self, cmd: &str, args: &Vec<String>) -> (r: Vec<Event>)
        requires
            old(self).time + 35 <= u32::MAX,
        ensures
            final(self).time == old(self).time + 20,
            final(self).keyboard == old(self).keyboard,
            sent(r@) == command_events(
                old(self).time + 20,
                old(self).keyboard,
                cmd@,
                text::texts(args@),
            ),
    {
        self.time = self.time + 20;
        let t: u32 = self.time;
        let ghost all = text::texts(args@);
        assert(all.len() == args@.len());
        let mut r: Vec<Event> = Vec::new();
        if same_text(cmd, "key") {
            let code: Option<u32> = if args.len() > 0 {
                assert(all[0] == args@[0]@);
                evdev_code(args[0].as_str())
            } else {
                None
            };
            if let Some(code) = code {
                if self.keyboard {
                    send(&mut r, Event::Key { time: t, code, pressed: true });
                    send(&mut r, Event::Key { time: t + 10, code, pressed: false });
                    assert(sent(r@) =~= command_events(t as int, true, cmd@, all));
                    return r;
                }
            }
            send(&mut r, Event::KeyUnavailable);
            assert(sent(r@) =~= seq![Sent::KeyUnavailable]);
            return r;
        }
        send(&mut r, Event::Motion { time: t, x: number_at(args, 0), y: number_at(args, 1) });
        send(&mut r, Event::Frame);
        let mut more: Vec<Event> = gestures(t, cmd, args);
        let ghost head = sent(r@);
        let ghost tail = sent(more@);
        r.append(&mut more);
        assert(sent(r@) =~= head + tail);
        assert(sent(r@) =~= command_events(t as int, self.keyboard, cmd@, all));
        r
    }
}

/// A button that is pressed by a click is released by it, later.
pub proof fn clicks_release(t: int, args: Seq<Seq<char>>)
    ensures
        gesture(t, "click"@, args).len() == 4,
        gesture(t, "click"@, args)[0] == (Sent::Button {
            time: t + 5,
            button: button_of(args),
            pressed: true,
        }),
        gesture(t, "click"@, args)[2] == (Sent::Button {
            time: t + 15,
            button: button_of(args),
            pressed: false,
        }),
{
    reveal_strlit("move");
    reveal_strlit("click");
    assert("move"@.len() != "click"@.len());
}

} // verus!
