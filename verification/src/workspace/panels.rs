//! The log panel, the dialogs, and the name being edited in the sidebar.

use vstd::prelude::*;
use vstd::string::*;

use crate::dialogs;
use crate::dialogs::{
    clamp_index, search_message, FirstFocus, NewAgentDialog, SearchDialog, SearchOutcome,
    SettingsDialog, SettingsValues,
};
use crate::panel;
use crate::panel::{Button, Choice};
use crate::state::edits;
use crate::state::records;
use crate::state::records::WorkspaceMode;
use crate::text;
use crate::text::{copy_opt_text, is_blank, owned, same_text, trim};
use crate::theme::ThemeMode;
use crate::workspace::desk;
use crate::workspace::desk::{list, Dialog, Effect, Workspace};

verus! {

// ---- Log panel ----

/// A session with the log panel open or closed.
pub open spec fn with_log_panel(s: records::Session, open: bool) -> records::Session {
    records::Session {
        settings: records::Settings { log_panel_open: open, ..s.settings },
        ..s
    }
}

/// The log panel is opened or closed.
pub open spec fn log_toggled(t: desk::Turn) -> desk::Turn {
    let open = !t.desk.session.settings.log_panel_open;
    let u = desk::Turn {
        desk: desk::Desk { session: with_log_panel(t.desk.session, open), ..t.desk },
        ..t
    };
    if open {
        u.act(desk::Act::ScrollLog).act(desk::Act::PollLog).act(desk::Act::Persist)
    } else {
        u.act(desk::Act::StopPolling).act(desk::Act::Persist)
    }
}

/// The log is looked at while its panel is open: where it has changed, its end
/// is shown.
pub open spec fn log_polled(t: desk::Turn, version: usize) -> desk::Turn {
    if t.desk.session.settings.log_panel_open && version != t.desk.log_seen {
        desk::Turn { desk: desk::Desk { log_seen: version, ..t.desk }, ..t }.act(
            desk::Act::ScrollLog,
        )
    } else {
        t
    }
}

impl Workspace {
    /// Open or close the log panel.
    pub fn toggle_log_panel(&mut self, out: &mut Vec<Effect>)
        ensures
            desk::turn(final(self)@, final(out)@) == log_toggled(
                desk::turn(old(self)@, old(out)@),
            ),
    {
        let open: bool = !self.state.settings.log_panel_open;
        self.state.settings.log_panel_open = open;
        if open {
            list(out, Effect::ScrollLog);
            list(out, Effect::PollLog);
        } else {
            list(out, Effect::StopPolling);
        }
        list(out, Effect::Persist);
    }

    /// Look whether the log has changed. Writers to it have no handle to the
    /// window, so this is done over and over while the panel is open. Returns
    /// whether to go on.
    pub fn poll_log(&mut self, version: usize, out: &mut Vec<Effect>) -> (r: bool)
        ensures
            desk::turn(final(self)@, final(out)@) == log_polled(
                desk::turn(old(self)@, old(out)@),
                version,
            ),
            r == old(self)@.session.settings.log_panel_open,
    {
        if !self.state.settings.log_panel_open {
            return false;
        }
        if version != self.log_version {
            self.log_version = version;
            list(out, Effect::ScrollLog);
        }
        true
    }

    /// The log was cleared from its panel, which shows it as it is now.
    pub fn log_cleared(&mut self, version: usize)
        ensures
            final(self)@ == (desk::Desk { log_seen: version, ..old(self)@ }),
    {
        self.log_version = version;
    }
}

// ---- Dialogs ----

/// The dialog is closed, and the keyboard goes back to the selected agent's
/// terminal.
pub open spec fn dialog_closed(t: desk::Turn) -> desk::Turn {
    let u = desk::Turn { desk: desk::Desk { dialog: None, ..t.desk }, ..t };
    match u.desk.selected {
        Some(id) => desk::focused(u, id),
        None => u,
    }
}

/// The settings that a form stands for.
pub open spec fn settings_from(s: records::Settings, f: dialogs::Form) -> records::Settings {
    let presets = dialogs::presets_of(f.rows);
    records::Settings {
        presets,
        planner_preset: dialogs::picked_name(f.rows, f.planner_preset_row),
        last_preset: dialogs::within(s.last_preset, presets.len() as int),
        planner_command: text::trim_of(f.planner_command),
        planner_model: text::trim_of(f.planner_model),
        terminal_font: text::trim_of(f.terminal_font),
        ui_font: text::trim_of(f.ui_font),
        ..s
    }
}

/// The settings dialog is saved and closed.
pub open spec fn settings_saved(t: desk::Turn) -> desk::Turn {
    match t.desk.dialog {
        Some(desk::Sheet::Settings(f)) => dialog_closed(
            desk::Turn {
                desk: desk::Desk {
                    session: records::Session {
                        settings: settings_from(t.desk.session.settings, f),
                        ..t.desk.session
                    },
                    ..t.desk
                },
                ..t
            }.act(desk::Act::ApplyFonts),
        ).act(desk::Act::Persist),
        _ => t,
    }
}

/// Whether there is a live terminal on screen.
pub open spec fn on_screen(d: desk::Desk) -> Option<Seq<char>> {
    match d.selected {
        Some(id) => if d.live.contains(desk::active_tab(d, id)) {
            Some(desk::active_tab(d, id))
        } else {
            None
        },
        None => None,
    }
}

/// How opening the search dialog went.
#[derive(Clone, Copy, PartialEq, Eq, Structural, Debug)]
pub enum SearchOpening {
    /// There is nothing to search in.
    Refused,
    /// It was open: its query is selected, and its options stay.
    Again,
    /// It opened with an empty query.
    Fresh,
}

/// How opening the search dialog goes.
pub open spec fn search_opening(d: desk::Desk) -> SearchOpening {
    if on_screen(d) is None {
        SearchOpening::Refused
    } else if d.dialog matches Some(desk::Sheet::Search(_)) {
        SearchOpening::Again
    } else {
        SearchOpening::Fresh
    }
}

/// The search dialog is opened. Opening it again keeps the query and the
/// options; only the stale result line goes.
pub open spec fn search_opened(t: desk::Turn) -> desk::Turn {
    if on_screen(t.desk) is None {
        t.said("No terminal to search"@, true)
    } else {
        let sheet = match t.desk.dialog {
            Some(desk::Sheet::Search(s)) => dialogs::Searching { status: None, ..s },
            _ => dialogs::searching(),
        };
        desk::Turn {
            desk: desk::Desk { dialog: Some(desk::Sheet::Search(sheet)), ..t.desk },
            ..t
        }
    }
}

/// A search step's result is shown, where the dialog is still open.
pub open spec fn search_told(d: desk::Desk, message: Option<Seq<char>>) -> desk::Desk {
    match d.dialog {
        Some(desk::Sheet::Search(s)) => desk::Desk {
            dialog: Some(desk::Sheet::Search(dialogs::Searching { status: message, ..s })),
            ..d
        },
        _ => d,
    }
}

/// One search step: where, and how.
pub struct SearchStep {
    pub terminal: String,
    pub match_case: bool,
    pub wrap: bool,
}

/// The search step that the open dialog asks for.
pub open spec fn search_step_of(d: desk::Desk) -> Option<(Seq<char>, bool, bool)> {
    match d.dialog {
        Some(desk::Sheet::Search(s)) => match on_screen(d) {
            Some(tab) => Some((tab, s.match_case, s.wrap)),
            None => None,
        },
        _ => None,
    }
}

/// The contents of an optional search step.
pub open spec fn step_of(s: Option<SearchStep>) -> Option<(Seq<char>, bool, bool)> {
    match s {
        Some(s) => Some((s.terminal@, s.match_case, s.wrap)),
        None => None,
    }
}

/// What submitting a dialog asks for.
pub enum Submitted {
    Nothing,
    /// Spawn an agent for `task` in the project at `project_path`.
    Spawn { project_path: String, task: String },
    /// Search forward from the last match.
    Search,
    /// The settings were saved.
    Saved,
}

/// What a [`Submitted`] says.
#[verifier::ext_equal]
pub enum Asked {
    Nothing,
    Spawn { project_path: Seq<char>, task: Seq<char> },
    Search,
    Saved,
}

impl View for Submitted {
    type V = Asked;

    open spec fn view(&self) -> Asked {
        match self {
            Submitted::Nothing => Asked::Nothing,
            Submitted::Spawn { project_path, task } => Asked::Spawn {
                project_path: project_path@,
                task: task@,
            },
            Submitted::Search => Asked::Search,
            Submitted::Saved => Asked::Saved,
        }
    }
}

/// What submitting the open dialog asks for: a task is only spawned where one
/// was entered, and none is being planned.
pub open spec fn submitted(d: desk::Desk, entered: Seq<char>) -> Asked {
    match d.dialog {
        Some(desk::Sheet::NewAgent(a)) => if a.planning || text::blank(entered) {
            Asked::Nothing
        } else {
            Asked::Spawn { project_path: a.project_path, task: text::trim_of(entered) }
        },
        Some(desk::Sheet::Search(_)) => Asked::Search,
        Some(desk::Sheet::Settings(_)) => Asked::Saved,
        None => Asked::Nothing,
    }
}

/// What pressing a button of a dialog comes to.
pub enum Pressed {
    /// The dialog is closed.
    Closed,
    /// A search step is to be run.
    Find { forward: bool },
    /// The dialog was submitted.
    Submitted(Submitted),
}

/// What a [`Pressed`] says.
#[verifier::ext_equal]
pub enum Outcome {
    Closed,
    Find { forward: bool },
    Submitted(Asked),
}

impl View for Pressed {
    type V = Outcome;

    open spec fn view(&self) -> Outcome {
        match self {
            Pressed::Closed => Outcome::Closed,
            Pressed::Find { forward } => Outcome::Find { forward: *forward },
            Pressed::Submitted(s) => Outcome::Submitted(s@),
        }
    }
}

/// What pressing a button comes to.
pub open spec fn outcome_of(d: desk::Desk, button: Button, entered: Seq<char>) -> Outcome {
    match button {
        Button::Cancel | Button::Close => Outcome::Closed,
        Button::Previous => Outcome::Find { forward: false },
        Button::Next => Outcome::Find { forward: true },
        Button::Spawn | Button::Save => Outcome::Submitted(submitted(d, entered)),
    }
}

/// A button is pressed: one that gives up closes the dialog, one that submits
/// saves the settings where they are open.
pub open spec fn button_pressed(t: desk::Turn, button: Button) -> desk::Turn {
    match button {
        Button::Cancel | Button::Close => dialog_closed(t),
        Button::Previous | Button::Next => t,
        Button::Spawn | Button::Save => settings_saved(t),
    }
}

/// A color theme is used from now on.
pub open spec fn theme_set(t: desk::Turn, mode: ThemeMode) -> desk::Turn {
    desk::Turn {
        desk: desk::Desk {
            session: records::Session {
                settings: records::Settings { theme: mode, ..t.desk.session.settings },
                ..t.desk.session
            },
            ..t.desk
        },
        ..t
    }.act(desk::Act::ApplyTheme(mode)).act(desk::Act::Persist)
}

/// The workspace mode that a chip stands for, in the order they are offered.
pub open spec fn mode_at(index: int) -> Option<WorkspaceMode> {
    if index == 0 {
        Some(WorkspaceMode::Auto)
    } else if index == 1 {
        Some(WorkspaceMode::NewWorktree)
    } else if index == 2 {
        Some(WorkspaceMode::MainBranch)
    } else {
        None
    }
}

/// A dialog after a chip of it was picked.
pub open spec fn sheet_picked(sheet: Option<desk::Sheet>, choice: Choice, index: int) -> Option<
    desk::Sheet,
> {
    match (sheet, choice) {
        (Some(desk::Sheet::NewAgent(a)), Choice::Preset) => Some(
            desk::Sheet::NewAgent(dialogs::Asking { preset: index, ..a }),
        ),
        (Some(desk::Sheet::NewAgent(a)), Choice::Workspace) => match mode_at(index) {
            Some(mode) => Some(
                desk::Sheet::NewAgent(dialogs::Asking { workspace_mode: mode, ..a }),
            ),
            None => sheet,
        },
        (Some(desk::Sheet::Search(s)), Choice::Search) => if index == 0 {
            Some(desk::Sheet::Search(dialogs::Searching { match_case: !s.match_case, ..s }))
        } else if index == 1 {
            Some(desk::Sheet::Search(dialogs::Searching { wrap: !s.wrap, ..s }))
        } else {
            sheet
        },
        _ => sheet,
    }
}

/// A chip is picked. A theme is used at once; every other choice stands in its
/// dialog until that is submitted.
pub open spec fn chip_picked(t: desk::Turn, choice: Choice, index: int) -> desk::Turn {
    if choice == Choice::Theme && index == 0 {
        theme_set(t, ThemeMode::Light)
    } else if choice == Choice::Theme && index == 1 {
        theme_set(t, ThemeMode::Dark)
    } else {
        desk::Turn {
            desk: desk::Desk { dialog: sheet_picked(t.desk.dialog, choice, index), ..t.desk },
            ..t
        }
    }
}

/// The settings dialog after a chip for the planner's preset was picked.
pub open spec fn planner_picked(d: desk::Desk, row: Option<usize>) -> desk::Desk {
    match d.dialog {
        Some(desk::Sheet::Settings(f)) => desk::Desk {
            dialog: Some(
                desk::Sheet::Settings(dialogs::Form { planner_preset_row: row, ..f }),
            ),
            ..d
        },
        _ => d,
    }
}

/// Whether a key dismisses the open dialog. Escape belongs to the dialog as a
/// whole, not just to its text fields: it has to work whatever inside has the
/// keyboard.
pub fn closes_dialog(key: &str) -> (r: bool)
    ensures
        r == (key@ == "escape"@),
{
    same_text(key, "escape")
}

impl Workspace {
    /// Open the dialog that asks for a new agent's task.
    pub fn open_new_agent_dialog(&mut self, project_path: String, group: Option<String>)
        ensures
            final(self)@ == (desk::Desk {
                dialog: Some(
                    desk::Sheet::NewAgent(
                        dialogs::asking(
                            project_path@,
                            text::opt_text(group),
                            old(self)@.session.settings,
                        ),
                    ),
                ),
                ..old(self)@
            }),
    {
        self.dialog = Some(
            Dialog::NewAgent(NewAgentDialog::new(project_path, group, &self.state.settings)),
        );
    }

    /// Open the settings dialog. It is modal, so it takes the keyboard:
    /// returns where to.
    pub fn open_settings_dialog(&mut self) -> (r: FirstFocus)
        ensures
            final(self)@ == (desk::Desk {
                dialog: Some(desk::Sheet::Settings(dialogs::form(old(self)@.session.settings))),
                ..old(self)@
            }),
            r == (if old(self)@.session.settings.presets.len() > 0 {
                FirstFocus::FirstPreset
            } else {
                FirstFocus::Panel
            }),
    {
        let dialog: SettingsDialog = SettingsDialog::new(&self.state.settings);
        let focus: FirstFocus = dialog.first_focus();
        self.dialog = Some(Dialog::Settings(dialog));
        focus
    }

    /// Open the search dialog. There is nothing to search in without a live
    /// terminal on screen.
    pub fn open_search_dialog(&mut self, out: &mut Vec<Effect>) -> (r: SearchOpening)
        ensures
            desk::turn(final(self)@, final(out)@) == search_opened(
                desk::turn(old(self)@, old(out)@),
            ),
            r == search_opening(old(self)@),
    {
        if self.shown_terminal().is_none() {
            self.set_status(owned("No terminal to search"), true, out);
            return SearchOpening::Refused;
        }
        let mut dialog: Option<Dialog> = None;
        std::mem::swap(&mut self.dialog, &mut dialog);
        if let Some(Dialog::Search(mut d)) = dialog {
            d.status = None;
            self.dialog = Some(Dialog::Search(d));
            return SearchOpening::Again;
        }
        self.dialog = Some(Dialog::Search(SearchDialog::new()));
        SearchOpening::Fresh
    }

    /// The live terminal on screen, if there is one.
    pub fn shown_terminal(&self) -> (r: Option<String>)
        ensures
            text::opt_text(r) == on_screen(self@),
    {
        match &self.selected {
            Some(id) => self.active_terminal(id.as_str()),
            None => None,
        }
    }

    /// The search step to run: in the terminal the user is looking at, by the
    /// dialog's options.
    pub fn find_in_terminal(&self) -> (r: Option<SearchStep>)
        ensures
            step_of(r) == search_step_of(self@),
    {
        match &self.dialog {
            Some(Dialog::Search(d)) => {
                match self.shown_terminal() {
                    Some(terminal) => Some(
                        SearchStep { terminal, match_case: d.match_case, wrap: d.wrap },
                    ),
                    None => None,
                }
            },
            _ => None,
        }
    }

    /// A search step was run.
    pub fn search_finished(&mut self, outcome: SearchOutcome, forward: bool, query: &str)
        ensures
            final(self)@ == search_told(
                old(self)@,
                dialogs::search_result(outcome, forward, query@),
            ),
    {
        let message: Option<String> = search_message(outcome, forward, query);
        let mut dialog: Option<Dialog> = None;
        std::mem::swap(&mut self.dialog, &mut dialog);
        if let Some(Dialog::Search(mut d)) = dialog {
            d.status = message;
            self.dialog = Some(Dialog::Search(d));
        } else {
            self.dialog = dialog;
        }
    }

    /// Dismiss the open dialog and hand the keyboard back to the selected
    /// agent's terminal: otherwise it would be lost with the dialog's fields.
    pub fn close_dialog(&mut self, out: &mut Vec<Effect>)
        ensures
            desk::turn(final(self)@, final(out)@) == dialog_closed(
                desk::turn(old(self)@, old(out)@),
            ),
    {
        self.dialog = None;
        if let Some(id) = copy_opt_text(&self.selected) {
            self.focus_agent(id.as_str(), out);
        }
    }

    /// Apply and persist what the settings dialog holds, and close it.
    pub fn save_settings(&mut self, out: &mut Vec<Effect>)
        ensures
            desk::turn(final(self)@, final(out)@) == settings_saved(
                desk::turn(old(self)@, old(out)@),
            ),
    {
        let values: SettingsValues = match &self.dialog {
            Some(Dialog::Settings(d)) => d.values(),
            _ => {
                return;
            },
        };
        self.state.settings.presets = values.presets;
        self.state.settings.planner_preset = values.planner_preset;
        self.state.settings.last_preset =
        clamp_index(self.state.settings.last_preset, self.state.settings.presets.len());
        self.state.settings.planner_command = values.planner_command;
        self.state.settings.planner_model = values.planner_model;
        self.state.settings.terminal_font = values.terminal_font;
        self.state.settings.ui_font = values.ui_font;
        list(out, Effect::ApplyFonts);
        self.close_dialog(out);
        list(out, Effect::Persist);
    }

    /// Use a color theme, from now on.
    pub fn set_theme(&mut self, mode: ThemeMode, out: &mut Vec<Effect>)
        ensures
            desk::turn(final(self)@, final(out)@) == theme_set(
                desk::turn(old(self)@, old(out)@),
                mode,
            ),
    {
        self.state.settings.theme = mode;
        list(out, Effect::ApplyTheme(mode));
        list(out, Effect::Persist);
    }

    /// Submit the open dialog, in whose field `entered` stands.
    pub fn submit_dialog(&mut self, entered: &str, out: &mut Vec<Effect>) -> (r: Submitted)
        ensures
            r@ == submitted(old(self)@, entered@),
            desk::turn(final(self)@, final(out)@) == settings_saved(
                desk::turn(old(self)@, old(out)@),
            ),
    {
        let saving: bool = match &self.dialog {
            Some(Dialog::NewAgent(d)) => {
                if !d.planning && !is_blank(entered) {
                    return Submitted::Spawn {
                        project_path: d.project_path.clone(),
                        task: trim(entered),
                    };
                }
                false
            },
            Some(Dialog::Search(_)) => {
                return Submitted::Search;
            },
            Some(Dialog::Settings(_)) => true,
            None => false,
        };
        if saving {
            self.save_settings(out);
            return Submitted::Saved;
        }
        Submitted::Nothing
    }
}

impl Workspace {
    /// Press a button of the open dialog, in whose field `entered` stands.
    pub fn press_button(
        &mut self,
        button: Button,
        entered: &str,
        out: &mut Vec<Effect>,
    ) -> (r: Pressed)
        ensures
            r@ == outcome_of(old(self)@, button, entered@),
            desk::turn(final(self)@, final(out)@) == button_pressed(
                desk::turn(old(self)@, old(out)@),
                button,
            ),
    {
        match button {
            Button::Cancel | Button::Close => {
                self.close_dialog(out);
                Pressed::Closed
            },
            Button::Previous => Pressed::Find { forward: false },
            Button::Next => Pressed::Find { forward: true },
            Button::Spawn | Button::Save => Pressed::Submitted(self.submit_dialog(entered, out)),
        }
    }

    /// Pick the chip at `index` of a row.
    pub fn pick_chip(&mut self, choice: Choice, index: usize, out: &mut Vec<Effect>)
        ensures
            desk::turn(final(self)@, final(out)@) == chip_picked(
                desk::turn(old(self)@, old(out)@),
                choice,
                index as int,
            ),
    {
        if choice == Choice::Theme {
            if index == 0 {
                self.set_theme(ThemeMode::Light, out);
            } else if index == 1 {
                self.set_theme(ThemeMode::Dark, out);
            }
            return;
        }
        let mut dialog: Option<Dialog> = None;
        std::mem::swap(&mut self.dialog, &mut dialog);
        self.dialog = match dialog {
            Some(Dialog::NewAgent(mut d)) => {
                if choice == Choice::Preset {
                    d.preset = index;
                } else if choice == Choice::Workspace {
                    if index == 0 {
                        d.workspace_mode = WorkspaceMode::Auto;
                    } else if index == 1 {
                        d.workspace_mode = WorkspaceMode::NewWorktree;
                    } else if index == 2 {
                        d.workspace_mode = WorkspaceMode::MainBranch;
                    }
                }
                Some(Dialog::NewAgent(d))
            },
            Some(Dialog::Search(mut d)) => {
                if choice == Choice::Search {
                    if index == 0 {
                        d.toggle_match_case();
                    } else if index == 1 {
                        d.toggle_wrap();
                    }
                }
                Some(Dialog::Search(d))
            },
            other => other,
        };
    }

    /// Pick the preset that the planner runs through, by its row in the
    /// settings dialog, or the default.
    pub fn pick_planner_preset(&mut self, row: Option<usize>)
        ensures
            final(self)@ == planner_picked(old(self)@, row),
    {
        let mut dialog: Option<Dialog> = None;
        std::mem::swap(&mut self.dialog, &mut dialog);
        self.dialog = match dialog {
            Some(Dialog::Settings(mut d)) => {
                d.planner_preset_row = row;
                Some(Dialog::Settings(d))
            },
            other => other,
        };
    }
}

/// The chip that was picked is the one that its row then shows as selected, and
/// the only one.
pub proof fn the_picked_chip_is_shown(t: desk::Turn, index: int, k: int)
    requires
        t.desk.dialog matches Some(desk::Sheet::NewAgent(_)),
    ensures
        0 <= index < 3 && 0 <= k < 3 ==> (chip_picked(t, Choice::Workspace, index).desk.dialog
            matches Some(desk::Sheet::NewAgent(now)) && panel::mode_chips(now.workspace_mode)[k].1
            == (k == index)),
        t.desk.dialog matches Some(desk::Sheet::NewAgent(before)) && (0 <= k
            < before.preset_names.len() ==> (chip_picked(t, Choice::Preset, index).desk.dialog
            matches Some(desk::Sheet::NewAgent(now)) && dialogs::name_chips(
            now.preset_names,
            now.preset,
        )[k].1 == (k == index))),
{
}

// ---- Inline editing ----

/// The name of an agent was entered in the sidebar: a blank one changes
/// nothing.
pub open spec fn name_entered(t: desk::Turn, entered: Seq<char>) -> desk::Turn {
    match t.desk.editing {
        Some(id) => desk::Turn {
            desk: desk::Desk {
                session: if text::blank(entered) {
                    t.desk.session
                } else {
                    edits::changed(
                        t.desk.session,
                        id,
                        edits::naming(text::trim_of(entered)),
                    )
                },
                editing: None,
                ..t.desk
            },
            ..t
        }.act(desk::Act::Persist),
        None => t,
    }
}

impl Workspace {
    /// Edit an agent's name in the sidebar. Returns the name to start from,
    /// where there is such an agent.
    pub fn start_inline_edit(&mut self, id: &str) -> (r: Option<String>)
        ensures
            match records::agent_at(old(self)@.session.projects, id@) {
                Some((p, i)) => {
                    &&& final(self)@ == (desk::Desk { editing: Some(id@), ..old(self)@ })
                    &&& text::opt_text(r) == Some(old(self)@.session.projects[p].agents[i].name)
                },
                None => final(self)@ == old(self)@ && r is None,
            },
    {
        let name: String = match self.state.agent(id) {
            Some(a) => a.name.clone(),
            None => {
                return None;
            },
        };
        self.inline_edit = Some(owned(id));
        Some(name)
    }

    /// The name being edited was entered.
    pub fn finish_inline_edit(&mut self, entered: &str, out: &mut Vec<Effect>)
        ensures
            desk::turn(final(self)@, final(out)@) == name_entered(
                desk::turn(old(self)@, old(out)@),
                entered@,
            ),
    {
        if let Some(id) = copy_opt_text(&self.inline_edit) {
            if !is_blank(entered) {
                self.state.name_agent(id.as_str(), trim(entered));
            }
            self.inline_edit = None;
            list(out, Effect::Persist);
        }
    }

    /// The name being edited stays as it is.
    pub fn cancel_inline_edit(&mut self)
        ensures
            final(self)@ == (desk::Desk { editing: None, ..old(self)@ }),
    {
        self.inline_edit = None;
    }
}

/// Saving the settings never leaves the preset last used out of the list.
pub proof fn last_preset_stays_in_the_list(s: records::Settings, f: dialogs::Form)
    requires
        0 <= s.last_preset,
        settings_from(s, f).presets.len() > 0,
    ensures
        0 <= settings_from(s, f).last_preset < settings_from(s, f).presets.len(),
{
}

/// Opening the settings and saving them changes nothing of them, where they
/// are as an earlier save left them.
pub proof fn saving_what_is_set_changes_nothing(s: records::Settings)
    requires
        forall|i: int| 0 <= i < s.presets.len() ==> dialogs::tidy(#[trigger] s.presets[i]),
        s.presets.len() <= usize::MAX,
        text::trim_of(s.planner_command) == s.planner_command,
        text::trim_of(s.planner_model) == s.planner_model,
        text::trim_of(s.terminal_font) == s.terminal_font,
        text::trim_of(s.ui_font) == s.ui_font,
        s.planner_preset is Some ==> dialogs::preset_row(s.presets, s.planner_preset) is Some,
        s.last_preset == dialogs::within(s.last_preset, s.presets.len() as int),
    ensures
        settings_from(s, dialogs::form(s)) == s,
{
    let row = dialogs::form(s).planner_preset_row;
    if let Some(name) = s.planner_preset {
        text::lemma_position_of(dialogs::names_of(s.presets), name);
    }
    dialogs::saving_unchanged_settings(s.presets, s.planner_preset, row);
    assert(settings_from(s, dialogs::form(s)) =~= s);
}

} // verus!
