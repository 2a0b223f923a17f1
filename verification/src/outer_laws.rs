//! Laws of what surrounds the workspace: the log, the theme, the dialogs'
//! pieces, the scripted pointer and the command line.

use vstd::prelude::*;
use vstd::string::*;

use crate::assets::Assets;
use crate::dialogs;
use crate::dialogs::{NewAgentDialog, PresetInputs, SearchDialog, SettingsDialog};
use crate::input::TextInput;
use crate::log;
use crate::log::{Entry, Line};
use crate::panel;
use crate::panel::{Button, Choice, Part, Slot};
use crate::pointer;
use crate::pointer::Sent;
use crate::start;
use crate::state::file::LoadError;
use crate::state::records::WorkspaceMode;
use crate::text;
use crate::text_laws;
use crate::theme;
use crate::theme::{Theme, ThemeMode};

verus! {

// ---- The log ----

/// A new line stands last, behind the lines before it; where there is no room
/// for all of them the oldest goes.
pub proof fn lines_are_kept_in_order(before: Seq<Line>, line: Line, i: int)
    requires
        before.len() <= 500,
    ensures
        log::kept(before.push(line)).len() <= 500,
        log::kept(before.push(line)).last() == line,
        before.len() < 500 && 0 <= i < before.len() ==> log::kept(before.push(line))[i]
            == before[i],
        before.len() < 500 ==> log::kept(before.push(line)).len() == before.len() + 1,
        before.len() == 500 && 1 <= i < before.len() ==> log::kept(before.push(line))[i - 1]
            == before[i],
        before.len() == 500 ==> log::kept(before.push(line)).len() == 500,
{
}

/// The number that two digits stand for.
pub open spec fn two(a: char, b: char) -> int {
    10 * (a as int - '0' as int) + (b as int - '0' as int)
}

/// A digit.
pub open spec fn is_digit(c: char) -> bool {
    '0' <= c && c <= '9'
}

/// A time reads as hours, minutes and seconds of the day, two digits each with
/// colons between them, and stands for the seconds since midnight.
pub proof fn clocks_tell_the_time(secs: nat)
    ensures
        ({
            let c = log::clock_of(secs);
            &&& c.len() == 8
            &&& c[2] == ':' && c[5] == ':'
            &&& is_digit(c[0]) && is_digit(c[1]) && is_digit(c[3]) && is_digit(c[4])
            &&& is_digit(c[6]) && is_digit(c[7])
            &&& two(c[0], c[1]) < 24 && two(c[3], c[4]) < 60 && two(c[6], c[7]) < 60
            &&& two(c[0], c[1]) * 3600 + two(c[3], c[4]) * 60 + two(c[6], c[7]) == secs % 86_400
        }),
{
    reveal_strlit(":");
    let day = secs % 86_400;
    lemma_two(day / 3600);
    lemma_two((day % 3600) / 60);
    lemma_two(day % 60);
    assert(day % 60 == (day % 3600) % 60);
    let c = log::clock_of(secs);
    assert(c =~= log::two_digits(day / 3600) + seq![':'] + log::two_digits((day % 3600) / 60)
        + seq![':'] + log::two_digits(day % 60));
    assert(c[0] == log::two_digits(day / 3600)[0] && c[1] == log::two_digits(day / 3600)[1]);
    assert(c[3] == log::two_digits((day % 3600) / 60)[0] && c[4] == log::two_digits(
        (day % 3600) / 60,
    )[1]);
    assert(c[6] == log::two_digits(day % 60)[0] && c[7] == log::two_digits(day % 60)[1]);
}

proof fn lemma_two(n: nat)
    requires
        n < 100,
    ensures
        log::two_digits(n).len() == 2,
        is_digit(log::two_digits(n)[0]),
        is_digit(log::two_digits(n)[1]),
        two(log::two_digits(n)[0], log::two_digits(n)[1]) == n,
{
}

/// An entry says when it was logged, how grave it is and what it says; on
/// standard error the program's name stands before that.
pub proof fn entries_say_what_they_hold(e: Entry, message: Seq<char>)
    ensures
        e@.time == e.time@,
        e@.level == e.level,
        e@.message == e.message@,
        log::mirrored(message).len() == 12 + message.len(),
        log::mirrored(message).skip(12) == message,
        log::mirrored(message).take(12) == "[harmonium] "@,
{
    reveal_strlit("[harmonium] ");
    assert(log::mirrored(message).skip(12) =~= message);
    assert(log::mirrored(message).take(12) =~= "[harmonium] "@);
}

// ---- The theme ----

/// A font is the one that the environment names, else the configured one, else
/// the default; blank values name none, and a configured one loses the white
/// space around it.
pub proof fn fonts_are_looked_up_in_order(
    a: Seq<char>,
    name: Seq<char>,
    b: Seq<char>,
    configured: Option<Seq<char>>,
    default: Seq<char>,
)
    requires
        forall|i: int| 0 <= i < a.len() ==> text::white(#[trigger] a[i]),
        forall|i: int| 0 <= i < b.len() ==> text::white(#[trigger] b[i]),
        name.len() > 0,
        !text::white(name[0]),
        !text::white(name.last()),
    ensures
        theme::font_family_of(Some(a + name + b), configured, default) == a + name + b,
        theme::font_family_of(None, Some(name), default) == name,
        theme::font_family_of(Some(a), Some(name), default) == name,
        theme::font_family_of(None, None, default) == default,
        theme::font_family_of(Some(a), None, default) == default,
        theme::clean_of(a + name + b) == Some(name),
        theme::clean_of(a) is None,
{
    text_laws::trimming_takes_the_ends(a, name, b);
    let none = Seq::<char>::empty();
    text_laws::trimming_takes_the_ends(a, none, none);
    assert(a + none + none =~= a);
}

/// Of two colors a dark theme takes the first and a light one the second, and a
/// theme is dark where it says so.
pub proof fn themes_take_their_color(dark: u32, light: u32, t: Theme)
    ensures
        theme::picked(ThemeMode::Dark, dark, light) == dark,
        theme::picked(ThemeMode::Light, dark, light) == light,
        t.dark ==> theme::mode_of(t) == ThemeMode::Dark,
        !t.dark ==> theme::mode_of(t) == ThemeMode::Light,
{
}

// ---- Dialogs ----

/// What the dialogs say they hold is what they hold.
pub proof fn dialogs_say_what_they_hold(
    n: NewAgentDialog,
    s: SearchDialog,
    f: SettingsDialog,
    p: PresetInputs,
    t: TextInput,
    i: int,
)
    ensures
        t@.content == t.content@,
        t@.placeholder == t.placeholder@,
        t@.multiline == t.multiline,
        t@.selected == t.selected_range,
        t@.reversed == t.selection_reversed,
        t@.marked == t.marked_range,
        t@.selecting == t.is_selecting,
        n@.project_path == n.project_path@,
        n.group matches Some(g) ==> n@.group == Some(g@),
        n.group is None ==> n@.group is None,
        n@.planning == n.planning,
        n@.preset == n.preset,
        n@.workspace_mode == n.workspace_mode,
        n.error matches Some(e) ==> n@.error == Some(e@),
        n.error is None ==> n@.error is None,
        n@.preset_names.len() == n.preset_names@.len(),
        0 <= i < n.preset_names@.len() ==> n@.preset_names[i] == n.preset_names@[i]@,
        s@.match_case == s.match_case,
        s@.wrap == s.wrap,
        s.status matches Some(m) ==> s@.status == Some(m@),
        s.status is None ==> s@.status is None,
        p@.name == p.name@,
        p@.command == p.command@,
        p@.env == p.env@,
        f@.planner_command == f.planner_command@,
        f@.planner_model == f.planner_model@,
        f@.terminal_font == f.terminal_font@,
        f@.ui_font == f.ui_font@,
        f@.planner_preset_row == f.planner_preset_row,
        f@.rows.len() == f.preset_inputs@.len(),
        0 <= i < f.preset_inputs@.len() ==> f@.rows[i] == f.preset_inputs@[i]@,
{
}

/// Buttons and the choices of the dialogs are called what they are.
pub proof fn buttons_are_called_what_they_do()
    ensures
        Button::Cancel.called() == "Cancel"@,
        Button::Spawn.called() == "Spawn"@,
        Button::Save.called() == "Save"@,
        Button::Close.called() == "Close"@,
        Button::Previous.called() == "Previous"@,
        Button::Next.called() == "Next"@,
        Choice::Preset.called() == "Preset:"@,
        Choice::Workspace.called() == "Workspace:"@,
        Choice::Theme.called() == "Theme"@,
        Choice::Search.called() == ""@,
        WorkspaceMode::Auto.called() == "Auto"@,
        WorkspaceMode::NewWorktree.called() == "New worktree"@,
        WorkspaceMode::MainBranch.called() == "Main branch"@,
{
}

proof fn lemma_preset_parts(n: nat, i: int)
    requires
        0 <= i < n <= usize::MAX,
    ensures
        panel::all_preset_parts(n).len() == 4 * n,
        panel::all_preset_parts(n)[4 * i] == Part::Field("Name"@, Slot::PresetName(i as usize)),
        panel::all_preset_parts(n)[4 * i + 1] == Part::RemovePreset(i as usize),
        panel::all_preset_parts(n)[4 * i + 2] == Part::Field(
            "Command"@,
            Slot::PresetCommand(i as usize),
        ),
        panel::all_preset_parts(n)[4 * i + 3] == Part::Field("Env"@, Slot::PresetEnv(i as usize)),
    decreases n,
{
    let m = (n - 1) as nat;
    if m == 0 {
        assert(panel::all_preset_parts(0).len() == 0);
    } else if i < m {
        lemma_preset_parts(m, i);
    } else {
        lemma_preset_parts(m, 0);
    }
}

/// The settings dialog has a field for each font and each part of the planner,
/// and four pieces for each preset, in the presets' order: its name, a button
/// that removes it, its command and its environment. It ends in the buttons,
/// saving last.
pub proof fn the_settings_dialog_has_every_field(
    f: dialogs::Form,
    mode: ThemeMode,
    program: Seq<char>,
    i: int,
)
    requires
        f.rows.len() <= usize::MAX,
        0 <= i < f.rows.len(),
    ensures
        ({
            let all = panel::settings_parts(f, mode, program);
            &&& all.contains(Part::Field("Terminal"@, Slot::TerminalFont))
            &&& all.contains(Part::Field("UI"@, Slot::UiFont))
            &&& all.contains(Part::Field("Command"@, Slot::PlannerCommand))
            &&& all.contains(Part::Field("Model"@, Slot::PlannerModel))
            &&& all.contains(Part::FontSize)
            &&& all.contains(
                Part::Chips(
                    Choice::Theme,
                    seq![("Light"@, mode is Light), ("Dark"@, mode is Dark)],
                ),
            )
            &&& all.contains(Part::Field("Name"@, Slot::PresetName(i as usize)))
            &&& all.contains(Part::RemovePreset(i as usize))
            &&& all.contains(Part::Field("Command"@, Slot::PresetCommand(i as usize)))
            &&& all.contains(Part::Field("Env"@, Slot::PresetEnv(i as usize)))
            &&& all.last() == Part::Buttons(seq![Button::Cancel, Button::Save])
            &&& all[all.len() - 2] == Part::AddPreset("+ Add preset"@)
            &&& all.contains(Part::Note("The model is unused while a command is set."@)) || text::blank(
                f.planner_command,
            )
        }),
{
    let fonts = panel::font_parts(mode);
    let planner = panel::planner_parts(f, program);
    let headed = seq![Part::Heading("Agent presets"@), Part::Note(panel::presets_note(program))];
    let presets = panel::all_preset_parts(f.rows.len());
    let all = panel::settings_parts(f, mode, program);
    lemma_preset_parts(f.rows.len(), i);
    let (a, b) = (fonts.len() as int, (fonts.len() + planner.len()) as int);
    let c = b + 2;
    assert(all[1] == fonts[1] && all[2] == fonts[2] && all[4] == fonts[4] && all[5] == fonts[5]);
    assert(fonts[2] == Part::Chips(
        Choice::Theme,
        seq![("Light"@, mode is Light), ("Dark"@, mode is Dark)],
    ));
    assert(all[a + 3] == planner[3] && all[a + 4] == planner[4]);
    assert(all[c + 4 * i] == presets[4 * i]);
    assert(all[c + 4 * i + 1] == presets[4 * i + 1]);
    assert(all[c + 4 * i + 2] == presets[4 * i + 2]);
    assert(all[c + 4 * i + 3] == presets[4 * i + 3]);
    if !text::blank(f.planner_command) {
        assert(all[a + 5] == planner[5]);
    }
}

// ---- The scripted pointer ----

/// Keys are known by their names.
pub proof fn keys_are_known_by_name()
    ensures
        pointer::key_code("enter"@) == Some(28nat),
        pointer::key_code("escape"@) == Some(1nat),
        pointer::key_code("tab"@) == Some(15nat),
        pointer::key_code("space"@) == Some(57nat),
        pointer::key_code("up"@) == Some(103nat),
        pointer::key_code("down"@) == Some(108nat),
        pointer::key_code("left"@) == Some(105nat),
        pointer::key_code("right"@) == Some(106nat),
{
    reveal_strlit("enter");
    reveal_strlit("escape");
    reveal_strlit("tab");
    reveal_strlit("space");
    reveal_strlit("up");
    reveal_strlit("down");
    reveal_strlit("left");
    reveal_strlit("right");
    assert("enter"@.len() == 5 && "escape"@.len() == 6 && "tab"@.len() == 3);
    assert("space"@.len() == 5 && "up"@.len() == 2 && "down"@.len() == 4);
    assert("left"@.len() == 4 && "right"@.len() == 5);
    assert("enter"@[0] == 'e' && "space"@[0] == 's' && "right"@[0] == 'r');
    assert("down"@[0] == 'd' && "left"@[0] == 'l');
}

proof fn lemma_value(d: Seq<char>)
    requires
        d.len() > 0,
        forall|i: int| 0 <= i < d.len() ==> is_digit(#[trigger] d[i]),
        text_laws::number(d) <= u32::MAX,
    ensures
        text::u32_of(d) == Some(text_laws::number(d)),
{
    assert(is_digit(d[0]));
    lemma_digits(d);
    assert(text::all_digits(d));
}

proof fn lemma_digits(d: Seq<char>)
    requires
        forall|i: int| 0 <= i < d.len() ==> is_digit(#[trigger] d[i]),
    ensures
        text::digits_value(d) == text_laws::number(d),
    decreases d.len(),
{
    if d.len() > 0 {
        let front = d.drop_last();
        assert forall|i: int| 0 <= i < front.len() implies is_digit(#[trigger] front[i]) by {
            assert(front[i] == d[i]);
        }
        lemma_digits(front);
        assert(is_digit(d[d.len() - 1]));
    }
}

/// A number in decimal is read as that number, and two of them with an `x`
/// between them as an extent.
pub proof fn numbers_read_back(w: nat, h: nat)
    requires
        w <= u32::MAX,
        h <= u32::MAX,
    ensures
        text::u32_of(text::decimal_of(w)) == Some(w),
        pointer::extent_of(text::decimal_of(w) + seq!['x'] + text::decimal_of(h)) == Some((w, h)),
{
    text_laws::decimals_stand_for_their_number(w);
    text_laws::decimals_stand_for_their_number(h);
    let (a, b) = (text::decimal_of(w), text::decimal_of(h));
    lemma_value(a);
    lemma_value(b);
    assert(!a.contains('x')) by {
        if a.contains('x') {
            let i = choose|i: int| 0 <= i < a.len() && a[i] == 'x';
            assert(is_digit(a[i]));
        }
    }
    text_laws::cutting_at_the_first(a, 'x', b);
}

/// A command that is not for a key moves the pointer to its place first. A
/// click presses its button and lets it go again there; a press only presses
/// and a release only lets go; the wheel turns by the amount given.
pub proof fn commands_act_where_they_say(
    t: int,
    keyboard: bool,
    args: Seq<Seq<char>>,
    x: nat,
    y: nat,
    rest: Seq<Seq<char>>,
)
    requires
        x <= u32::MAX,
        y <= u32::MAX,
        args == seq![text::decimal_of(x), text::decimal_of(y)] + rest,
    ensures
        ({
            let here = seq![Sent::Motion { time: t, x, y }, Sent::Frame];
            let button: u32 = if rest.len() > 0 && rest[0] == "right"@ {
                273
            } else if rest.len() > 0 && rest[0] == "middle"@ {
                274
            } else {
                272
            };
            let down = Sent::Button { time: t + 5, button, pressed: true };
            &&& pointer::command_events(t, keyboard, "move"@, args) == here
            &&& pointer::command_events(t, keyboard, "press"@, args) == here + seq![down, Sent::Frame]
            &&& pointer::command_events(t, keyboard, "release"@, args) == here + seq![
                Sent::Button { time: t + 5, button, pressed: false },
                Sent::Frame,
            ]
            &&& pointer::command_events(t, keyboard, "click"@, args) == here + seq![
                down,
                Sent::Frame,
                Sent::Button { time: t + 15, button, pressed: false },
                Sent::Frame,
            ]
            &&& pointer::command_events(t, keyboard, "scroll"@, args) == here + seq![
                Sent::Wheel {
                    time: t + 5,
                    amount: if rest.len() > 0 {
                        Some(rest[0])
                    } else {
                        None
                    },
                },
                Sent::Frame,
            ]
        }),
{
    reveal_strlit("key");
    reveal_strlit("move");
    reveal_strlit("click");
    reveal_strlit("press");
    reveal_strlit("release");
    reveal_strlit("scroll");
    assert("key"@.len() == 3 && "move"@.len() == 4 && "click"@.len() == 5);
    assert("press"@.len() == 5 && "release"@.len() == 7 && "scroll"@.len() == 6);
    assert("click"@[0] == 'c' && "press"@[0] == 'p');
    numbers_read_back(x, y);
    numbers_read_back(y, x);
    assert(args[0] == text::decimal_of(x) && args[1] == text::decimal_of(y));
    if rest.len() > 0 {
        assert(args[2] == rest[0]);
    }
    let here = seq![Sent::Motion { time: t, x, y }, Sent::Frame];
    assert(pointer::command_events(t, keyboard, "move"@, args) =~= here);
}

/// A key is pressed and let go again, without the pointer moving; where there is
/// no keyboard, or no such key, nothing is pressed.
pub proof fn keys_are_let_go(t: int, args: Seq<Seq<char>>, code: nat)
    requires
        args.len() > 0,
        pointer::key_code(args[0]) == Some(code),
    ensures
        pointer::command_events(t, true, "key"@, args) == seq![
            Sent::Key { time: t, code, pressed: true },
            Sent::Key { time: t + 10, code, pressed: false },
        ],
        pointer::command_events(t, false, "key"@, args) == seq![Sent::KeyUnavailable],
        pointer::command_events(t, true, "key"@, Seq::empty()) == seq![Sent::KeyUnavailable],
{
}

// ---- Starting ----

/// The command line asks for a plan where its first argument says so and both a
/// repository and a task follow; the task is all the words behind the
/// repository, one space between each two.
pub proof fn plans_are_asked_for(
    program: Seq<char>,
    repo: Seq<char>,
    first: Seq<char>,
    second: Seq<char>,
    args: Seq<Seq<char>>,
)
    ensures
        start::asked_plan(seq![program, "plan"@, repo, first]) == Some((repo, first)),
        start::asked_plan(seq![program, "plan"@, repo, first, second]) == Some(
            (repo, first + seq![' '] + second),
        ),
        start::asked_plan(seq![program, "plan"@, repo]) is None,
        args.len() < 2 || args[1] != "plan"@ ==> start::asked_plan(args) is None,
        args.len() >= 4 && args[1] == "plan"@ ==> (start::asked_plan(args) matches Some((r, _)) && r
            == args[2]),
{
    reveal_strlit(" ");
    assert(" "@ =~= seq![' ']);
    let three = seq![program, "plan"@, repo, first];
    assert(three.skip(3) =~= seq![first]);
    let four = seq![program, "plan"@, repo, first, second];
    assert(four.skip(3) =~= seq![first, second]);
    assert(seq![first, second].drop_last() =~= seq![first]);
    reveal_with_fuel(text::join_of, 3);
}

/// Where the session cannot be read, the advice names the file to move aside.
pub proof fn advice_names_the_file(error: String, path: Seq<char>)
    ensures
        text::has(start::advice_on(LoadError::Unreadable(error), path), path),
{
    let advice = start::advice_on(LoadError::Unreadable(error), path);
    let n =
    "Not starting: continuing would overwrite this file with a fresh state and lose the projects and presets in it. Move "@.len() as int;
    assert(advice.subrange(n, n + path.len()) =~= path);
    assert(text::at(advice, path, n));
}

/// There is one icon.
pub proof fn the_icons()
    ensures
        Assets::paths() == seq!["icons/pencil.svg"@],
{
}

} // verus!
