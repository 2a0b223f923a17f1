//! The modal dialogs: each one owns its state, says what it shows, and hands
//! what was entered to the workspace.

use vstd::prelude::*;
use vstd::string::*;

use crate::state::records;
use crate::state::records::{PresetRecord, SettingsRecord, WorkspaceMode};
use crate::text;
use crate::text::{owned, same_text, slice_text, to_chars, trim, trim_end};
use crate::theme::ThemeMode;

verus! {

/// How much of a preset name a chip shows before eliding the rest.
pub const CHIP_LABEL_CHARS: usize = 40;

/// A label of at most `max_chars` characters: what is too long ends in a mark,
/// with no blanks before it.
pub open spec fn shortened(s: Seq<char>, max_chars: int) -> Seq<char> {
    if s.len() <= max_chars {
        s
    } else {
        text::trim_end_of(
            s.take(
                if max_chars > 0 {
                    max_chars - 1
                } else {
                    0
                },
            ),
        ) + "…"@
    }
}

/// Shorten a label for a chip. Chips are pickers, not displays: a preset with
/// a 200-character name would otherwise widen the row past the dialog.
pub fn ellipsize(s: &str, max_chars: usize) -> (r: String)
    ensures
        r@ == shortened(s@, max_chars as int),
{
    let v: Vec<char> = to_chars(s);
    if v.len() <= max_chars {
        return owned(s);
    }
    let keep: usize = if max_chars > 0 {
        max_chars - 1
    } else {
        0
    };
    let kept: String = slice_text(&v, 0, keep);
    assert(kept@ =~= s@.take(keep as int));
    let mut r: String = trim_end(kept.as_str());
    r.push_str("…");
    r
}

/// A shortened label is never longer than it may be, as long as it may be
/// anything at all.
pub proof fn labels_stay_short(s: Seq<char>, max_chars: int)
    requires
        max_chars > 0,
    ensures
        shortened(s, max_chars).len() <= max_chars,
{
    reveal_strlit("…");
    if s.len() > max_chars {
        let kept = s.take(max_chars - 1);
        text::lemma_cut_end(kept, kept.len() as int, text::whites());
    }
}

/// A selector chip: what it says, and whether it is the one selected.
pub struct Chip {
    pub label: String,
    pub selected: bool,
}

/// The contents of some chips.
pub open spec fn chips(list: Seq<Chip>) -> Seq<(Seq<char>, bool)> {
    list.map_values(|c: Chip| (c.label@, c.selected))
}

// ---- New agent ----

pub enum NewAgentEvent {
    /// Spawn the task described in the input: the button, or ctrl-enter.
    Spawn,
    Cancel,
}

/// Task entry for spawning an agent into a project (and optionally a group).
pub struct NewAgentDialog {
    pub project_path: String,
    /// Group the new agent lands in, when the spawn was started from a group
    /// header rather than the project row.
    pub group: Option<String>,
    pub planning: bool,
    pub preset: usize,
    pub workspace_mode: WorkspaceMode,
    pub error: Option<String>,
    /// Chip labels, snapshotted at open.
    pub preset_names: Vec<String>,
}

/// What a [`NewAgentDialog`] says.
#[verifier::ext_equal]
pub struct Asking {
    pub project_path: Seq<char>,
    pub group: Option<Seq<char>>,
    pub planning: bool,
    pub preset: int,
    pub workspace_mode: WorkspaceMode,
    pub error: Option<Seq<char>>,
    pub preset_names: Seq<Seq<char>>,
}

impl View for NewAgentDialog {
    type V = Asking;

    open spec fn view(&self) -> Asking {
        Asking {
            project_path: self.project_path@,
            group: text::opt_text(self.group),
            planning: self.planning,
            preset: self.preset as int,
            workspace_mode: self.workspace_mode,
            error: text::opt_text(self.error),
            preset_names: text::texts(self.preset_names@),
        }
    }
}

/// The new agent dialog as it opens: on the preset last used, and on a
/// workspace that the task decides.
pub open spec fn asking(
    project_path: Seq<char>,
    group: Option<Seq<char>>,
    settings: records::Settings,
) -> Asking {
    Asking {
        project_path,
        group,
        planning: false,
        preset: within(settings.last_preset, settings.presets.len() as int),
        workspace_mode: WorkspaceMode::Auto,
        error: None,
        preset_names: names_of(settings.presets),
    }
}

/// The names of some presets.
pub open spec fn names_of(list: Seq<records::Preset>) -> Seq<Seq<char>> {
    list.map_values(|p: records::Preset| p.name)
}

/// An index brought into a list of `len`; zero where the list is empty.
pub open spec fn within(index: int, len: int) -> int {
    if len == 0 {
        0
    } else if index < len {
        index
    } else {
        len - 1
    }
}

/// An index brought into a list of `len`.
pub fn clamp_index(index: usize, len: usize) -> (r: usize)
    ensures
        r == within(index as int, len as int),
{
    if len == 0 {
        0
    } else if index < len {
        index
    } else {
        len - 1
    }
}

/// The chips for some names, of which one index is selected.
pub open spec fn name_chips(names: Seq<Seq<char>>, selected: int) -> Seq<(Seq<char>, bool)> {
    Seq::new(
        names.len(),
        |i: int| (shortened(names[i], CHIP_LABEL_CHARS as int), i == selected),
    )
}

impl NewAgentDialog {
    /// The dialog as it opens. The workspace is always chosen anew: forcing
    /// one is a decision about *one* task, and inheriting it silently would
    /// put the next task somewhere it wasn't meant to go.
    pub fn new(project_path: String, group: Option<String>, settings: &SettingsRecord) -> (r:
        NewAgentDialog)
        ensures
            r@ == asking(project_path@, text::opt_text(group), settings@),
    {
        let mut names: Vec<String> = Vec::new();
        let mut i: usize = 0;
        while i < settings.presets.len()
            invariant
                i <= settings.presets@.len(),
                text::texts(names@) == names_of(settings@.presets).take(i as int),
            decreases settings.presets@.len() - i,
        {
            let ghost before = text::texts(names@);
            names.push(settings.presets[i].name.clone());
            assert(text::texts(names@) =~= before.push(settings.presets@[i as int].name@));
            i += 1;
        }
        assert(names_of(settings@.presets).take(i as int) =~= names_of(settings@.presets));
        NewAgentDialog {
            project_path,
            group,
            planning: false,
            preset: clamp_index(settings.last_preset, settings.presets.len()),
            workspace_mode: WorkspaceMode::Auto,
            error: None,
            preset_names: names,
        }
    }

    /// The task that was entered.
    pub fn task(entered: &str) -> (r: String)
        ensures
            r@ == text::trim_of(entered@),
    {
        trim(entered)
    }

    /// The preset selector.
    pub fn preset_chips(&self) -> (r: Vec<Chip>)
        ensures
            chips(r@) == name_chips(text::texts(self.preset_names@), self.preset as int),
    {
        let mut r: Vec<Chip> = Vec::new();
        let ghost all = name_chips(text::texts(self.preset_names@), self.preset as int);
        let mut i: usize = 0;
        while i < self.preset_names.len()
            invariant
                i <= self.preset_names@.len(),
                all == name_chips(text::texts(self.preset_names@), self.preset as int),
                chips(r@) == all.take(i as int),
            decreases self.preset_names@.len() - i,
        {
            let ghost before = chips(r@);
            let label: String = ellipsize(self.preset_names[i].as_str(), CHIP_LABEL_CHARS);
            assert(text::texts(self.preset_names@)[i as int] == self.preset_names@[i as int]@);
            r.push(Chip { label, selected: i == self.preset });
            assert(chips(r@) =~= before.push((label@, i == self.preset)));
            i += 1;
        }
        assert(all.take(i as int) =~= all);
        r
    }

    /// The workspace selector.
    pub fn mode_chips(&self) -> (r: Vec<Chip>)
        ensures
            chips(r@) == seq![
                ("Auto"@, self.workspace_mode == WorkspaceMode::Auto),
                ("New worktree"@, self.workspace_mode == WorkspaceMode::NewWorktree),
                ("Main branch"@, self.workspace_mode == WorkspaceMode::MainBranch),
            ],
    {
        let mut r: Vec<Chip> = Vec::new();
        r.push(
            Chip { label: owned("Auto"), selected: self.workspace_mode == WorkspaceMode::Auto },
        );
        r.push(
            Chip {
                label: owned("New worktree"),
                selected: self.workspace_mode == WorkspaceMode::NewWorktree,
            },
        );
        r.push(
            Chip {
                label: owned("Main branch"),
                selected: self.workspace_mode == WorkspaceMode::MainBranch,
            },
        );
        assert(chips(r@) =~= seq![
            ("Auto"@, self.workspace_mode == WorkspaceMode::Auto),
            ("New worktree"@, self.workspace_mode == WorkspaceMode::NewWorktree),
            ("Main branch"@, self.workspace_mode == WorkspaceMode::MainBranch),
        ]);
        r
    }
}

// ---- Terminal search ----

pub enum SearchEvent {
    /// Run one search step through the terminal behind the dialog.
    Search { forward: bool },
    Close,
}

/// Search the visible terminal's scrollback.
pub struct SearchDialog {
    pub match_case: bool,
    pub wrap: bool,
    /// Result of the last search.
    pub status: Option<String>,
}

/// What a [`SearchDialog`] says.
#[verifier::ext_equal]
pub struct Searching {
    pub match_case: bool,
    pub wrap: bool,
    pub status: Option<Seq<char>>,
}

impl View for SearchDialog {
    type V = Searching;

    open spec fn view(&self) -> Searching {
        Searching {
            match_case: self.match_case,
            wrap: self.wrap,
            status: text::opt_text(self.status),
        }
    }
}

/// The search dialog as it opens.
pub open spec fn searching() -> Searching {
    Searching { match_case: false, wrap: true, status: None }
}

impl SearchDialog {
    /// The dialog as it opens.
    pub fn new() -> (r: SearchDialog)
        ensures
            r@ == searching(),
    {
        SearchDialog { match_case: false, wrap: true, status: None }
    }

    /// The "Match case" chip.
    pub fn toggle_match_case(&mut self)
        ensures
            *final(self) == (SearchDialog { match_case: !old(self).match_case, ..*old(self) }),
    {
        self.match_case = !self.match_case;
    }

    /// The "Wrap around" chip.
    pub fn toggle_wrap(&mut self)
        ensures
            *final(self) == (SearchDialog { wrap: !old(self).wrap, ..*old(self) }),
    {
        self.wrap = !self.wrap;
    }
}

/// How a search step ended.
pub enum SearchOutcome {
    Found { wrapped: bool },
    NoMatch,
    EndOfBuffer,
    Failed(String),
}

/// What is said of a search step.
pub open spec fn search_result(outcome: SearchOutcome, forward: bool, query: Seq<char>) -> Option<
    Seq<char>,
> {
    match outcome {
        SearchOutcome::Found { wrapped: true } => Some(
            if forward {
                "Wrapped to the top"@
            } else {
                "Wrapped to the bottom"@
            },
        ),
        SearchOutcome::Found { wrapped: false } => None,
        SearchOutcome::NoMatch => if query.len() == 0 {
            None
        } else {
            Some("No matches for `"@ + query + "`"@)
        },
        SearchOutcome::EndOfBuffer => Some(
            if forward {
                "No more matches below — turn on Wrap around"@
            } else {
                "No more matches above — turn on Wrap around"@
            },
        ),
        SearchOutcome::Failed(error) => Some(error@),
    }
}

/// What is said of a search step.
pub fn search_message(outcome: SearchOutcome, forward: bool, query: &str) -> (r: Option<String>)
    ensures
        text::opt_text(r) == search_result(outcome, forward, query@),
{
    match outcome {
        SearchOutcome::Found { wrapped } => {
            if !wrapped {
                None
            } else if forward {
                Some(owned("Wrapped to the top"))
            } else {
                Some(owned("Wrapped to the bottom"))
            }
        },
        SearchOutcome::NoMatch => {
            if query.is_empty() {
                None
            } else {
                let mut m: String = owned("No matches for `");
                m.push_str(query);
                m.push_str("`");
                Some(m)
            }
        },
        SearchOutcome::EndOfBuffer => {
            if forward {
                Some(owned("No more matches below — turn on Wrap around"))
            } else {
                Some(owned("No more matches above — turn on Wrap around"))
            }
        },
        SearchOutcome::Failed(error) => Some(error),
    }
}

// ---- Settings ----

pub enum SettingsEvent {
    /// Apply and persist what the fields hold (see [`SettingsDialog::values`]).
    Save,
    Cancel,
    /// The +/- steppers, by whole steps. Applied immediately, not on save.
    AdjustFontSize(i32),
    /// The Light/Dark chips, applied immediately, like the font size.
    SetTheme(ThemeMode),
}

/// The three fields of a preset's row.
pub struct PresetInputs {
    pub name: String,
    pub command: String,
    pub env: String,
}

/// What a preset's row says.
#[verifier::ext_equal]
pub struct Row {
    pub name: Seq<char>,
    pub command: Seq<char>,
    pub env: Seq<char>,
}

impl View for PresetInputs {
    type V = Row;

    open spec fn view(&self) -> Row {
        Row { name: self.name@, command: self.command@, env: self.env@ }
    }
}

/// A row with nothing in it.
pub open spec fn empty_row() -> Row {
    Row { name: Seq::empty(), command: Seq::empty(), env: Seq::empty() }
}

/// The contents of some rows.
pub open spec fn rows(list: Seq<PresetInputs>) -> Seq<Row> {
    list.map_values(|r: PresetInputs| r@)
}

/// Everything the settings dialog edits, read out of its fields on save.
pub struct SettingsValues {
    pub planner_command: String,
    pub planner_model: String,
    pub terminal_font: String,
    pub ui_font: String,
    pub presets: Vec<PresetRecord>,
    /// Name of the preset the planner runs through, resolved from the picked
    /// row after empty rows are dropped. `None` is the built-in command.
    pub planner_preset: Option<String>,
}

/// The settings dialog.
pub struct SettingsDialog {
    pub planner_command: String,
    pub planner_model: String,
    pub terminal_font: String,
    pub ui_font: String,
    pub preset_inputs: Vec<PresetInputs>,
    /// Which preset row the planner should run through, as an index so a
    /// rename in the same visit still points at the row the user picked.
    /// `None` is the built-in command.
    pub planner_preset_row: Option<usize>,
}

/// What a [`SettingsDialog`] says.
#[verifier::ext_equal]
pub struct Form {
    pub planner_command: Seq<char>,
    pub planner_model: Seq<char>,
    pub terminal_font: Seq<char>,
    pub ui_font: Seq<char>,
    pub rows: Seq<Row>,
    pub planner_preset_row: Option<usize>,
}

impl View for SettingsDialog {
    type V = Form;

    open spec fn view(&self) -> Form {
        Form {
            planner_command: self.planner_command@,
            planner_model: self.planner_model@,
            terminal_font: self.terminal_font@,
            ui_font: self.ui_font@,
            rows: rows(self.preset_inputs@),
            planner_preset_row: self.planner_preset_row,
        }
    }
}

/// Where a preset is, as an index.
pub open spec fn row_index(at: Option<int>) -> Option<usize> {
    match at {
        Some(i) => Some(i as usize),
        None => None,
    }
}

/// The settings dialog as it opens on some settings.
pub open spec fn form(settings: records::Settings) -> Form {
    Form {
        planner_command: settings.planner_command,
        planner_model: settings.planner_model,
        terminal_font: settings.terminal_font,
        ui_font: settings.ui_font,
        rows: rows_for(settings.presets),
        planner_preset_row: row_index(preset_row(settings.presets, settings.planner_preset)),
    }
}

/// Where the keyboard goes when a dialog opens.
#[derive(Clone, Copy, PartialEq, Eq, Structural, Debug)]
pub enum FirstFocus {
    /// The name of the first preset.
    FirstPreset,
    /// The panel itself.
    Panel,
}

/// The preset that a row stands for: nothing where both its name and its
/// command are blank, and named after its command where only the name is.
pub open spec fn preset_of(row: Row) -> Option<records::Preset> {
    let name = text::trim_of(row.name);
    let command = text::trim_of(row.command);
    if name.len() == 0 && command.len() == 0 {
        None
    } else {
        Some(
            records::Preset {
                name: if name.len() == 0 {
                    command
                } else {
                    name
                },
                command,
                resume_command: None,
                env: text::trim_of(row.env),
            },
        )
    }
}

/// The presets that some rows stand for.
pub open spec fn presets_of(list: Seq<Row>) -> Seq<records::Preset>
    decreases list.len(),
{
    if list.len() == 0 {
        Seq::empty()
    } else {
        match preset_of(list.last()) {
            Some(p) => presets_of(list.drop_last()).push(p),
            None => presets_of(list.drop_last()),
        }
    }
}

/// The name of the preset that a picked row stands for.
pub open spec fn picked_name(list: Seq<Row>, picked: Option<usize>) -> Option<Seq<char>> {
    match picked {
        Some(row) => if row < list.len() {
            match preset_of(list[row as int]) {
                Some(p) => Some(p.name),
                None => None,
            }
        } else {
            None
        },
        None => None,
    }
}

/// Where the preset with a name is, if there is one.
pub open spec fn preset_row(list: Seq<records::Preset>, name: Option<Seq<char>>) -> Option<int> {
    match name {
        Some(n) => text::position_of(names_of(list), n),
        None => None,
    }
}

/// The rows for some presets.
pub open spec fn rows_for(list: Seq<records::Preset>) -> Seq<Row> {
    list.map_values(
        |p: records::Preset| Row { name: p.name, command: p.command, env: p.env },
    )
}

/// Where the preset called `name` is, if there is one.
pub fn find_preset(list: &Vec<PresetRecord>, name: &Option<String>) -> (r: Option<usize>)
    ensures
        match r {
            Some(i) => i < list@.len() && preset_row(
                records::presets(list@),
                text::opt_text(*name),
            ) == Some(i as int),
            None => preset_row(records::presets(list@), text::opt_text(*name)) is None,
        },
{
    let wanted: &String = match name {
        Some(n) => n,
        None => {
            return None;
        },
    };
    let ghost all = names_of(records::presets(list@));
    let mut i: usize = 0;
    while i < list.len()
        invariant
            i <= list@.len(),
            all == names_of(records::presets(list@)),
            *name == Some(*wanted),
            forall|j: int| 0 <= j < i ==> #[trigger] all[j] != wanted@,
        decreases list@.len() - i,
    {
        assert(all[i as int] == list@[i as int].name@);
        if same_text(list[i].name.as_str(), wanted.as_str()) {
            proof {
                text::lemma_position_is(all, wanted@, i as int);
            }
            return Some(i);
        }
        i += 1;
    }
    proof {
        text::lemma_position_of(all, wanted@);
    }
    None
}

fn row_preset(row: &PresetInputs) -> (r: Option<PresetRecord>)
    ensures
        match r {
            Some(p) => preset_of(row@) == Some(p@),
            None => preset_of(row@) is None,
        },
{
    let name: String = trim(row.name.as_str());
    let command: String = trim(row.command.as_str());
    if name.as_str().is_empty() && command.as_str().is_empty() {
        return None;
    }
    let name: String = if name.as_str().is_empty() {
        command.clone()
    } else {
        name
    };
    Some(
        PresetRecord { name, command, resume_command: None, env: trim(row.env.as_str()) },
    )
}

/// The chips for the rows of a dialog, each with its row: blank rows have
/// none.
pub open spec fn row_chips(list: Seq<Row>, picked: Option<usize>) -> Seq<(int, Seq<char>, bool)>
    decreases list.len(),
{
    if list.len() == 0 {
        Seq::empty()
    } else {
        let index = list.len() - 1;
        match preset_of(list.last()) {
            Some(p) => row_chips(list.drop_last(), picked).push(
                (
                    index,
                    shortened(p.name, CHIP_LABEL_CHARS as int),
                    picked is Some && picked->0 == index,
                ),
            ),
            None => row_chips(list.drop_last(), picked),
        }
    }
}

/// The contents of chips with their rows.
pub open spec fn indexed_chips(list: Seq<(usize, Chip)>) -> Seq<(int, Seq<char>, bool)> {
    list.map_values(|c: (usize, Chip)| (c.0 as int, c.1.label@, c.1.selected))
}

impl SettingsDialog {
    /// The dialog as it opens on some settings.
    pub fn new(settings: &SettingsRecord) -> (r: SettingsDialog)
        ensures
            r@ == form(settings@),
    {
        let mut inputs: Vec<PresetInputs> = Vec::new();
        let ghost all = rows_for(settings@.presets);
        let mut i: usize = 0;
        while i < settings.presets.len()
            invariant
                i <= settings.presets@.len(),
                all == rows_for(settings@.presets),
                rows(inputs@) == all.take(i as int),
            decreases settings.presets@.len() - i,
        {
            let ghost before = rows(inputs@);
            let p: &PresetRecord = &settings.presets[i];
            let row = PresetInputs {
                name: p.name.clone(),
                command: p.command.clone(),
                env: p.env.clone(),
            };
            inputs.push(row);
            assert(rows(inputs@) =~= before.push(row@));
            i += 1;
        }
        assert(all.take(i as int) =~= all);
        SettingsDialog {
            planner_command: settings.planner_command.clone(),
            planner_model: settings.planner_model.clone(),
            terminal_font: settings.terminal_font.clone(),
            ui_font: settings.ui_font.clone(),
            preset_inputs: inputs,
            planner_preset_row: find_preset(&settings.presets, &settings.planner_preset),
        }
    }

    /// The field the keyboard belongs in when the dialog opens: the first
    /// preset's name, or the panel itself when there are no presets.
    pub fn first_focus(&self) -> (r: FirstFocus)
        ensures
            r == (if self@.rows.len() > 0 {
                FirstFocus::FirstPreset
            } else {
                FirstFocus::Panel
            }),
    {
        if self.preset_inputs.len() > 0 {
            FirstFocus::FirstPreset
        } else {
            FirstFocus::Panel
        }
    }

    /// What the fields hold, ready for the workspace to apply and persist.
    pub fn values(&self) -> (r: SettingsValues)
        ensures
            r.planner_command@ == text::trim_of(self.planner_command@),
            r.planner_model@ == text::trim_of(self.planner_model@),
            r.terminal_font@ == text::trim_of(self.terminal_font@),
            r.ui_font@ == text::trim_of(self.ui_font@),
            records::presets(r.presets@) == presets_of(self@.rows),
            text::opt_text(r.planner_preset) == picked_name(self@.rows, self.planner_preset_row),
    {
        let mut presets: Vec<PresetRecord> = Vec::new();
        let mut planner_preset: Option<String> = None;
        let ghost all = self@.rows;
        let mut i: usize = 0;
        assert(records::presets(presets@) =~= presets_of(all.take(0)));
        while i < self.preset_inputs.len()
            invariant
                i <= self.preset_inputs@.len(),
                all == self@.rows,
                records::presets(presets@) == presets_of(all.take(i as int)),
                text::opt_text(planner_preset) == (match self.planner_preset_row {
                    Some(row) => if row < i {
                        picked_name(all, self.planner_preset_row)
                    } else {
                        None
                    },
                    None => None,
                }),
            decreases self.preset_inputs@.len() - i,
        {
            let ghost before = records::presets(presets@);
            proof {
                assert(all.take(i + 1).drop_last() =~= all.take(i as int));
                assert(all.take(i + 1).last() == self.preset_inputs@[i as int]@);
            }
            let picked: bool = match self.planner_preset_row {
                Some(row) => row == i,
                None => false,
            };
            if let Some(p) = row_preset(&self.preset_inputs[i]) {
                if picked {
                    planner_preset = Some(p.name.clone());
                }
                presets.push(p);
                assert(records::presets(presets@) =~= before.push(p@));
            }
            i += 1;
        }
        assert(all.take(i as int) =~= all);
        SettingsValues {
            planner_command: trim(self.planner_command.as_str()),
            planner_model: trim(self.planner_model.as_str()),
            terminal_font: trim(self.terminal_font.as_str()),
            ui_font: trim(self.ui_font.as_str()),
            presets,
            planner_preset,
        }
    }

    /// Add an empty row.
    pub fn add_preset_row(&mut self)
        ensures
            final(self)@ == (Form { rows: old(self)@.rows.push(empty_row()), ..old(self)@ }),
    {
        let ghost before = self@.rows;
        let row = PresetInputs {
            name: String::new(),
            command: String::new(),
            env: String::new(),
        };
        assert(row@ =~= empty_row());
        self.preset_inputs.push(row);
        assert(self@.rows =~= before.push(row@));
    }

    /// Remove a row.
    pub fn remove_preset_row(&mut self, index: usize)
        ensures
            final(self)@ == (if index < old(self)@.rows.len() {
                Form { rows: old(self)@.rows.remove(index as int), ..old(self)@ }
            } else {
                old(self)@
            }),
    {
        let ghost before = self@.rows;
        if index < self.preset_inputs.len() {
            self.preset_inputs.remove(index);
            assert(self@.rows =~= before.remove(index as int));
        }
    }

    /// The chips that pick which preset the planner runs through, each with
    /// the row it stands for, behind the one for the default: the agent CLI
    /// `program`. They go by the
    /// *rows* rather than the saved list, so a name edited in this same visit
    /// is what you choose from.
    pub fn planner_chips(&self, program: &str) -> (r: (Chip, Vec<(usize, Chip)>))
        ensures
            r.0.label@ == "Default ("@ + program@ + ")"@,
            r.0.selected == (self.planner_preset_row is None),
            indexed_chips(r.1@) == row_chips(self@.rows, self.planner_preset_row),
    {
        let mut label: String = owned("Default (");
        label.push_str(program);
        label.push_str(")");
        let first = Chip { label, selected: self.planner_preset_row.is_none() };
        let mut r: Vec<(usize, Chip)> = Vec::new();
        let ghost all = self@.rows;
        let mut i: usize = 0;
        assert(indexed_chips(r@) =~= row_chips(all.take(0), self.planner_preset_row));
        while i < self.preset_inputs.len()
            invariant
                i <= self.preset_inputs@.len(),
                all == self@.rows,
                indexed_chips(r@) == row_chips(all.take(i as int), self.planner_preset_row),
            decreases self.preset_inputs@.len() - i,
        {
            let ghost before = indexed_chips(r@);
            proof {
                assert(all.take(i + 1).drop_last() =~= all.take(i as int));
                assert(all.take(i + 1).last() == self.preset_inputs@[i as int]@);
            }
            if let Some(p) = row_preset(&self.preset_inputs[i]) {
                let selected: bool = match self.planner_preset_row {
                    Some(row) => row == i,
                    None => false,
                };
                let label: String = ellipsize(p.name.as_str(), CHIP_LABEL_CHARS);
                r.push((i, Chip { label, selected }));
                assert(indexed_chips(r@) =~= before.push((i as int, label@, selected)));
            }
            i += 1;
        }
        assert(all.take(i as int) =~= all);
        (first, r)
    }

    /// Whether to say that the model is unused: it is while a command is set.
    pub fn model_unused(&self) -> (r: bool)
        ensures
            r == !text::blank(self.planner_command@),
    {
        !trim(self.planner_command.as_str()).as_str().is_empty()
    }
}

/// Whether a preset is as saving leaves it: named, trimmed, and without a
/// legacy resume command.
pub open spec fn tidy(p: records::Preset) -> bool {
    &&& p.name.len() > 0
    &&& text::trim_of(p.name) == p.name
    &&& text::trim_of(p.command) == p.command
    &&& text::trim_of(p.env) == p.env
    &&& p.resume_command is None
}

/// Opening the settings and saving them again changes nothing of the presets,
/// nor of which one the planner runs through.
pub proof fn saving_unchanged_settings(
    list: Seq<records::Preset>,
    planner_preset: Option<Seq<char>>,
    row: Option<usize>,
)
    requires
        forall|i: int| 0 <= i < list.len() ==> tidy(#[trigger] list[i]),
        match row {
            Some(i) => preset_row(list, planner_preset) == Some(i as int),
            None => preset_row(list, planner_preset) is None,
        },
    ensures
        presets_of(rows_for(list)) == list,
        picked_name(rows_for(list), row) == (if row is Some {
            planner_preset
        } else {
            None
        }),
{
    lemma_presets_of_rows(list);
    if let Some(i) = row {
        text::lemma_position_of(names_of(list), planner_preset->0);
        assert(names_of(list)[i as int] == list[i as int].name);
        assert(tidy(list[i as int]));
    }
}

proof fn lemma_presets_of_rows(list: Seq<records::Preset>)
    requires
        forall|i: int| 0 <= i < list.len() ==> tidy(#[trigger] list[i]),
    ensures
        presets_of(rows_for(list)) == list,
    decreases list.len(),
{
    if list.len() > 0 {
        let rest = list.drop_last();
        assert forall|i: int| 0 <= i < rest.len() implies tidy(#[trigger] rest[i]) by {
            assert(rest[i] == list[i]);
        }
        lemma_presets_of_rows(rest);
        assert(rows_for(list).drop_last() =~= rows_for(rest));
        assert(tidy(list[list.len() - 1]));
        assert(preset_of(rows_for(list).last()) == Some(list.last()));
        assert(rest.push(list.last()) =~= list);
    } else {
        assert(presets_of(rows_for(list)) =~= list);
    }
}

} // verus!
