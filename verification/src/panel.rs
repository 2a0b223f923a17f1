//! What the dialogs show, piece by piece from top to bottom.

use vstd::prelude::*;
use vstd::string::*;

use crate::dialogs;
use crate::dialogs::{Chip, NewAgentDialog, SearchDialog, SettingsDialog};
use crate::state::records;
use crate::state::records::isolation_wrapper;
use crate::text;
use crate::text::owned;
use crate::theme::ThemeMode;

verus! {

/// A text field of a dialog.
#[derive(Clone, Copy, PartialEq, Eq, Structural, Debug)]
pub enum Slot {
    Task,
    Query,
    TerminalFont,
    UiFont,
    PlannerCommand,
    PlannerModel,
    PresetName(usize),
    PresetCommand(usize),
    PresetEnv(usize),
}

/// A row of chips to choose from.
#[derive(Clone, Copy, PartialEq, Eq, Structural, Debug)]
pub enum Choice {
    /// Which preset a new agent runs with.
    Preset,
    /// Where a new agent works.
    Workspace,
    /// How a search is run.
    Search,
    /// Which palette is used.
    Theme,
}

impl Choice {
    /// What stands before the chips.
    pub open spec fn called(self) -> Seq<char> {
        match self {
            Choice::Preset => "Preset:"@,
            Choice::Workspace => "Workspace:"@,
            Choice::Search => ""@,
            Choice::Theme => "Theme"@,
        }
    }

    /// What stands before the chips.
    pub fn label(self) -> (r: &'static str)
        ensures
            r@ == self.called(),
    {
        match self {
            Choice::Preset => "Preset:",
            Choice::Workspace => "Workspace:",
            Choice::Search => "",
            Choice::Theme => "Theme",
        }
    }
}

/// A button at the bottom of a dialog.
#[derive(Clone, Copy, PartialEq, Eq, Structural, Debug)]
pub enum Button {
    Cancel,
    Spawn,
    Save,
    Close,
    Previous,
    Next,
}

impl Button {
    /// What a button says.
    pub open spec fn called(self) -> Seq<char> {
        match self {
            Button::Cancel => "Cancel"@,
            Button::Spawn => "Spawn"@,
            Button::Save => "Save"@,
            Button::Close => "Close"@,
            Button::Previous => "Previous"@,
            Button::Next => "Next"@,
        }
    }

    /// What a button says.
    pub fn label(self) -> (r: &'static str)
        ensures
            r@ == self.called(),
    {
        match self {
            Button::Cancel => "Cancel",
            Button::Spawn => "Spawn",
            Button::Save => "Save",
            Button::Close => "Close",
            Button::Previous => "Previous",
            Button::Next => "Next",
        }
    }
}

/// A piece of a dialog.
pub enum Piece {
    Title(String),
    /// A field, and what stands before it.
    Field(String, Slot),
    /// Chips to choose from.
    Chips(Choice, Vec<Chip>),
    /// Chips that stand for the rows of the presets, behind one for the
    /// default.
    PlannerChips(Chip, Vec<(usize, Chip)>),
    Heading(String),
    Note(String),
    Error(String),
    /// What is going on while the dialog waits.
    Busy(String),
    /// The steppers for the font size.
    FontSize,
    /// The button that removes a preset, beside its name.
    RemovePreset(usize),
    /// The button that adds a preset.
    AddPreset(String),
    /// The buttons at the bottom, the one that enter stands for last.
    Buttons(Vec<Button>),
}

/// What a [`Piece`] says.
#[verifier::ext_equal]
pub enum Part {
    Title(Seq<char>),
    Field(Seq<char>, Slot),
    Chips(Choice, Seq<(Seq<char>, bool)>),
    PlannerChips((Seq<char>, bool), Seq<(int, Seq<char>, bool)>),
    Heading(Seq<char>),
    Note(Seq<char>),
    Error(Seq<char>),
    Busy(Seq<char>),
    FontSize,
    RemovePreset(usize),
    AddPreset(Seq<char>),
    Buttons(Seq<Button>),
}

impl View for Piece {
    type V = Part;

    open spec fn view(&self) -> Part {
        match self {
            Piece::Title(s) => Part::Title(s@),
            Piece::Field(s, slot) => Part::Field(s@, *slot),
            Piece::Chips(choice, c) => Part::Chips(*choice, dialogs::chips(c@)),
            Piece::PlannerChips(first, rest) => Part::PlannerChips(
                (first.label@, first.selected),
                dialogs::indexed_chips(rest@),
            ),
            Piece::Heading(s) => Part::Heading(s@),
            Piece::Note(s) => Part::Note(s@),
            Piece::Error(s) => Part::Error(s@),
            Piece::Busy(s) => Part::Busy(s@),
            Piece::FontSize => Part::FontSize,
            Piece::RemovePreset(i) => Part::RemovePreset(*i),
            Piece::AddPreset(s) => Part::AddPreset(s@),
            Piece::Buttons(b) => Part::Buttons(b@),
        }
    }
}

/// The contents of some pieces.
pub open spec fn parts(list: Seq<Piece>) -> Seq<Part> {
    list.map_values(|p: Piece| p@)
}

fn put(out: &mut Vec<Piece>, p: Piece)
    ensures
        parts(final(out)@) == parts(old(out)@).push(p@),
{
    let ghost before = parts(out@);
    out.push(p);
    assert(parts(out@) =~= before.push(p@));
}

fn two(a: Button, b: Button) -> (r: Vec<Button>)
    ensures
        r@ == seq![a, b],
{
    let mut r: Vec<Button> = Vec::new();
    r.push(a);
    r.push(b);
    assert(r@ =~= seq![a, b]);
    r
}

fn chip_pair(a: &str, a_on: bool, b: &str, b_on: bool) -> (r: Vec<Chip>)
    ensures
        dialogs::chips(r@) == seq![(a@, a_on), (b@, b_on)],
{
    let mut r: Vec<Chip> = Vec::new();
    r.push(Chip { label: owned(a), selected: a_on });
    r.push(Chip { label: owned(b), selected: b_on });
    assert(dialogs::chips(r@) =~= seq![(a@, a_on), (b@, b_on)]);
    r
}

/// The chips for the three workspace modes.
pub open spec fn mode_chips(mode: records::WorkspaceMode) -> Seq<(Seq<char>, bool)> {
    seq![
        ("Auto"@, mode == records::WorkspaceMode::Auto),
        ("New worktree"@, mode == records::WorkspaceMode::NewWorktree),
        ("Main branch"@, mode == records::WorkspaceMode::MainBranch),
    ]
}

/// What the new agent dialog shows. While a task is being planned there are no
/// buttons.
pub open spec fn new_agent_parts(a: dialogs::Asking) -> Seq<Part> {
    let fields = seq![
        Part::Title("New agent — describe the task"@),
        Part::Field(""@, Slot::Task),
        Part::Chips(Choice::Preset, dialogs::name_chips(a.preset_names, a.preset)),
        Part::Chips(Choice::Workspace, mode_chips(a.workspace_mode)),
    ];
    let told = match a.error {
        Some(error) => fields.push(Part::Error(error)),
        None => fields,
    };
    told.push(
        if a.planning {
            Part::Busy("Planning workspace with LLM…"@)
        } else {
            Part::Buttons(seq![Button::Cancel, Button::Spawn])
        },
    )
}

impl NewAgentDialog {
    /// What the dialog shows.
    pub fn pieces(&self) -> (r: Vec<Piece>)
        ensures
            parts(r@) == new_agent_parts(self@),
    {
        let mut r: Vec<Piece> = Vec::new();
        put(&mut r, Piece::Title(owned("New agent — describe the task")));
        put(&mut r, Piece::Field(owned(""), Slot::Task));
        put(&mut r, Piece::Chips(Choice::Preset, self.preset_chips()));
        put(&mut r, Piece::Chips(Choice::Workspace, self.mode_chips()));
        assert(parts(r@) =~= seq![
            Part::Title("New agent — describe the task"@),
            Part::Field(""@, Slot::Task),
            Part::Chips(Choice::Preset, dialogs::name_chips(self@.preset_names, self@.preset)),
            Part::Chips(Choice::Workspace, mode_chips(self@.workspace_mode)),
        ]);
        if let Some(error) = &self.error {
            put(&mut r, Piece::Error(error.clone()));
        }
        if self.planning {
            put(&mut r, Piece::Busy(owned("Planning workspace with LLM…")));
        } else {
            put(&mut r, Piece::Buttons(two(Button::Cancel, Button::Spawn)));
        }
        r
    }
}

/// What the search dialog shows.
pub open spec fn search_parts(s: dialogs::Searching) -> Seq<Part> {
    let fields = seq![
        Part::Title("Find in terminal"@),
        Part::Field(""@, Slot::Query),
        Part::Chips(Choice::Search, seq![("Match case"@, s.match_case), ("Wrap around"@, s.wrap)]),
    ];
    let told = match s.status {
        Some(status) => fields.push(Part::Note(status)),
        None => fields,
    };
    told.push(Part::Buttons(seq![Button::Close, Button::Previous, Button::Next]))
}

impl SearchDialog {
    /// What the dialog shows.
    pub fn pieces(&self) -> (r: Vec<Piece>)
        ensures
            parts(r@) == search_parts(self@),
    {
        let mut r: Vec<Piece> = Vec::new();
        put(&mut r, Piece::Title(owned("Find in terminal")));
        put(&mut r, Piece::Field(owned(""), Slot::Query));
        put(
            &mut r,
            Piece::Chips(
                Choice::Search,
                chip_pair("Match case", self.match_case, "Wrap around", self.wrap),
            ),
        );
        assert(parts(r@) =~= seq![
            Part::Title("Find in terminal"@),
            Part::Field(""@, Slot::Query),
            Part::Chips(
                Choice::Search,
                seq![("Match case"@, self.match_case), ("Wrap around"@, self.wrap)],
            ),
        ]);
        if let Some(status) = &self.status {
            put(&mut r, Piece::Note(status.clone()));
        }
        let mut buttons: Vec<Button> = two(Button::Close, Button::Previous);
        buttons.push(Button::Next);
        assert(buttons@ =~= seq![Button::Close, Button::Previous, Button::Next]);
        put(&mut r, Piece::Buttons(buttons));
        r
    }
}

/// The pieces of one preset's row.
pub open spec fn preset_parts(i: usize) -> Seq<Part> {
    seq![
        Part::Field("Name"@, Slot::PresetName(i)),
        Part::RemovePreset(i),
        Part::Field("Command"@, Slot::PresetCommand(i)),
        Part::Field("Env"@, Slot::PresetEnv(i)),
    ]
}

/// The pieces of the first `n` presets' rows.
pub open spec fn all_preset_parts(n: nat) -> Seq<Part>
    decreases n,
{
    if n == 0 {
        Seq::empty()
    } else {
        all_preset_parts((n - 1) as nat) + preset_parts((n - 1) as usize)
    }
}

/// What is said of the presets.
pub open spec fn presets_note(program: Seq<char>) -> Seq<char> {
    "The task description is appended to the command. Env holds KEY=value words given to the agent, its resumes and its shell tabs. Use "@
        + records::isolation_wrapper_name(program) + " for sandboxed runs (github.com/tehrengruber/"@
        + program + "-container-isolation)."@
}

/// The pieces of the settings dialog above the planner's.
pub open spec fn font_parts(mode: ThemeMode) -> Seq<Part> {
    seq![
        Part::Title("Settings"@),
        Part::FontSize,
        Part::Chips(
            Choice::Theme,
            seq![("Light"@, mode == ThemeMode::Light), ("Dark"@, mode == ThemeMode::Dark)],
        ),
        Part::Heading("Fonts"@),
        Part::Field("Terminal"@, Slot::TerminalFont),
        Part::Field("UI"@, Slot::UiFont),
    ]
}

/// The planner's pieces of the settings dialog.
pub open spec fn planner_parts(f: dialogs::Form, program: Seq<char>) -> Seq<Part> {
    let fields = seq![
        Part::Heading("Planner"@),
        Part::Note("Derives the branch and agent name from the task description."@),
        Part::PlannerChips(
            ("Default ("@ + program + ")"@, f.planner_preset_row is None),
            dialogs::row_chips(f.rows, f.planner_preset_row),
        ),
        Part::Field("Command"@, Slot::PlannerCommand),
        Part::Field("Model"@, Slot::PlannerModel),
    ];
    if text::blank(f.planner_command) {
        fields
    } else {
        fields.push(Part::Note("The model is unused while a command is set."@))
    }
}

/// What the settings dialog shows.
pub open spec fn settings_parts(
    f: dialogs::Form,
    mode: ThemeMode,
    program: Seq<char>,
) -> Seq<Part> {
    font_parts(mode) + planner_parts(f, program) + seq![
        Part::Heading("Agent presets"@),
        Part::Note(presets_note(program)),
    ] + all_preset_parts(f.rows.len()) + seq![
        Part::AddPreset("+ Add preset"@),
        Part::Buttons(seq![Button::Cancel, Button::Save]),
    ]
}

impl SettingsDialog {
    fn put_fonts(&self, mode: ThemeMode, r: &mut Vec<Piece>)
        ensures
            parts(final(r)@) == parts(old(r)@) + font_parts(mode),
    {
        let ghost before = parts(r@);
        put(r, Piece::Title(owned("Settings")));
        put(r, Piece::FontSize);
        put(
            r,
            Piece::Chips(
                Choice::Theme,
                chip_pair("Light", mode == ThemeMode::Light, "Dark", mode == ThemeMode::Dark),
            ),
        );
        put(r, Piece::Heading(owned("Fonts")));
        put(r, Piece::Field(owned("Terminal"), Slot::TerminalFont));
        put(r, Piece::Field(owned("UI"), Slot::UiFont));
        assert(parts(r@) =~= before + font_parts(mode));
    }

    fn put_planner(&self, program: &str, r: &mut Vec<Piece>)
        ensures
            parts(final(r)@) == parts(old(r)@) + planner_parts(self@, program@),
    {
        let ghost before = parts(r@);
        put(r, Piece::Heading(owned("Planner")));
        put(
            r,
            Piece::Note(owned("Derives the branch and agent name from the task description.")),
        );
        let (first, rest): (Chip, Vec<(usize, Chip)>) = self.planner_chips(program);
        put(r, Piece::PlannerChips(first, rest));
        put(r, Piece::Field(owned("Command"), Slot::PlannerCommand));
        put(r, Piece::Field(owned("Model"), Slot::PlannerModel));
        if self.model_unused() {
            put(r, Piece::Note(owned("The model is unused while a command is set.")));
        }
        assert(parts(r@) =~= before + planner_parts(self@, program@));
    }

    fn put_presets(&self, r: &mut Vec<Piece>)
        ensures
            parts(final(r)@) == parts(old(r)@) + all_preset_parts(self@.rows.len()),
    {
        let ghost before = parts(r@);
        let mut i: usize = 0;
        assert(before + all_preset_parts(0) =~= before);
        while i < self.preset_inputs.len()
            invariant
                i <= self.preset_inputs@.len(),
                parts(r@) == before + all_preset_parts(i as nat),
            decreases self.preset_inputs@.len() - i,
        {
            put(r, Piece::Field(owned("Name"), Slot::PresetName(i)));
            put(r, Piece::RemovePreset(i));
            put(r, Piece::Field(owned("Command"), Slot::PresetCommand(i)));
            put(r, Piece::Field(owned("Env"), Slot::PresetEnv(i)));
            assert(parts(r@) =~= before + all_preset_parts((i + 1) as nat));
            i += 1;
        }
    }

    /// What the dialog shows under a color theme, where `program` is the agent
    /// CLI that runs where nothing else is configured.
    pub fn pieces(&self, mode: ThemeMode, program: &str) -> (r: Vec<Piece>)
        ensures
            parts(r@) == settings_parts(self@, mode, program@),
    {
        let mut r: Vec<Piece> = Vec::new();
        self.put_fonts(mode, &mut r);
        self.put_planner(program, &mut r);
        assert(parts(r@) =~= font_parts(mode) + planner_parts(self@, program@));
        put(&mut r, Piece::Heading(owned("Agent presets")));
        let mut note: String = owned(
            "The task description is appended to the command. Env holds KEY=value words given to the agent, its resumes and its shell tabs. Use ",
        );
        note.push_str(isolation_wrapper(program).as_str());
        note.push_str(" for sandboxed runs (github.com/tehrengruber/");
        note.push_str(program);
        note.push_str("-container-isolation).");
        put(&mut r, Piece::Note(note));
        self.put_presets(&mut r);
        put(&mut r, Piece::AddPreset(owned("+ Add preset")));
        put(&mut r, Piece::Buttons(two(Button::Cancel, Button::Save)));
        assert(parts(r@) =~= settings_parts(self@, mode, program@));
        r
    }
}

} // verus!
