//! The workspace's state, and what has to be done outside when it changes.
//!
//! Everything the user does is a step from one state to the next. A step also
//! lists its effects, in the order they are to be carried out: files to write,
//! processes to start or stop, the keyboard to hand over.

use vstd::prelude::*;
use vstd::string::*;

use crate::dialogs;
use crate::dialogs::{NewAgentDialog, SearchDialog, SettingsDialog};
use crate::log::Level;
use crate::state::records;
use crate::state::records::AppState;
use crate::terminal::TerminalEvent;
use crate::text;
use crate::text::{copy_pairs, owned};
use crate::theme::ThemeMode;
use crate::workspace::ids::{IdMap, IdSet};
use crate::workspace::spawn;
use crate::workspace::spawn::{agent_spawn, Spawn};

verus! {

/// The dialog that is open.
pub enum Dialog {
    NewAgent(NewAgentDialog),
    Search(SearchDialog),
    Settings(SettingsDialog),
}

/// What a [`Dialog`] says.
#[verifier::ext_equal]
pub enum Sheet {
    NewAgent(dialogs::Asking),
    Search(dialogs::Searching),
    Settings(dialogs::Form),
}

impl View for Dialog {
    type V = Sheet;

    open spec fn view(&self) -> Sheet {
        match self {
            Dialog::NewAgent(d) => Sheet::NewAgent(d@),
            Dialog::Search(d) => Sheet::Search(d@),
            Dialog::Settings(d) => Sheet::Settings(d@),
        }
    }
}

/// What an optional dialog says.
pub open spec fn sheet_of(d: Option<Dialog>) -> Option<Sheet> {
    match d {
        Some(d) => Some(d@),
        None => None,
    }
}

/// The move a hovering drag would make, applied to the rendered order so the
/// list shows its final state before the drop.
pub enum DragTarget {
    /// A project, from one index to another.
    Project(usize, usize),
    /// An agent, within the project at an index: an agent's worktree belongs
    /// to its repository.
    Agent { project_index: usize, from: String, to: String },
    Tab { agent: String, from: String, to: String },
}

/// What a [`DragTarget`] says.
#[verifier::ext_equal]
pub enum Drag {
    Project(usize, usize),
    Agent { project_index: usize, from: Seq<char>, to: Seq<char> },
    Tab { agent: Seq<char>, from: Seq<char>, to: Seq<char> },
}

impl View for DragTarget {
    type V = Drag;

    open spec fn view(&self) -> Drag {
        match self {
            DragTarget::Project(from, to) => Drag::Project(*from, *to),
            DragTarget::Agent { project_index, from, to } => Drag::Agent {
                project_index: *project_index,
                from: from@,
                to: to@,
            },
            DragTarget::Tab { agent, from, to } => Drag::Tab {
                agent: agent@,
                from: from@,
                to: to@,
            },
        }
    }
}

/// What an optional move says.
pub open spec fn drag_of(d: Option<DragTarget>) -> Option<Drag> {
    match d {
        Some(d) => Some(d@),
        None => None,
    }
}

/// What an optional status line says.
pub open spec fn status_of(s: Option<(String, bool)>) -> Option<(Seq<char>, bool)> {
    match s {
        Some(p) => Some((p.0@, p.1)),
        None => None,
    }
}

/// The workspace: the session, and what is shown of it.
pub struct Workspace {
    pub state: AppState,
    /// The agent CLI that runs where nothing else is configured.
    pub program: String,
    /// Live terminals: the agent's own terminal goes by the agent's id, extra
    /// shell tabs go by their tab id.
    pub terminals: IdSet,
    /// Terminals whose process has ended.
    pub exited: IdSet,
    /// Per agent: the terminal id of the currently shown tab (the agent's own
    /// where there is none).
    pub active_tabs: IdMap,
    /// Agent terminals that have been superseded by a resume: shut down, but
    /// still shown until the replacement emits its first output so the
    /// previous screen doesn't flash blank. Shell tabs are restarted from
    /// their history file instead.
    pub outgoing_terminals: IdSet,
    /// Agents whose saved terminals have been spawned in this session.
    /// Restoration is lazy: nothing is spawned until an agent is selected.
    pub restored: IdSet,
    pub selected: Option<String>,
    pub dialog: Option<Dialog>,
    /// The agent whose name is being edited in the sidebar.
    pub inline_edit: Option<String>,
    pub resizing_sidebar: bool,
    /// The status line, and whether it is an error.
    pub status: Option<(String, bool)>,
    /// Pending drag, previewed in the list until the drop lands.
    pub drag_target: Option<DragTarget>,
    /// Log version last shown.
    pub log_version: usize,
}

/// What a [`Workspace`] says.
#[verifier::ext_equal]
pub struct Desk {
    pub session: records::Session,
    pub program: Seq<char>,
    pub live: Set<Seq<char>>,
    pub exited: Set<Seq<char>>,
    pub active: Map<Seq<char>, Seq<char>>,
    pub outgoing: Set<Seq<char>>,
    pub restored: Set<Seq<char>>,
    pub selected: Option<Seq<char>>,
    pub dialog: Option<Sheet>,
    pub editing: Option<Seq<char>>,
    pub resizing: bool,
    pub status: Option<(Seq<char>, bool)>,
    pub drag: Option<Drag>,
    pub log_seen: usize,
}

impl View for Workspace {
    type V = Desk;

    open spec fn view(&self) -> Desk {
        Desk {
            session: self.state@,
            program: self.program@,
            live: self.terminals@,
            exited: self.exited@,
            active: self.active_tabs@,
            outgoing: self.outgoing_terminals@,
            restored: self.restored@,
            selected: text::opt_text(self.selected),
            dialog: sheet_of(self.dialog),
            editing: text::opt_text(self.inline_edit),
            resizing: self.resizing_sidebar,
            status: status_of(self.status),
            drag: drag_of(self.drag_target),
            log_seen: self.log_version,
        }
    }
}

/// Something to be done outside.
pub enum Effect {
    /// Write the session to its file.
    Persist,
    /// Add a line to the log.
    Log(Level, String),
    /// Start an agent's process as the terminal `id`.
    SpawnAgent { id: String, spawn: Spawn, workdir: String },
    /// Start a shell as the terminal `id`, replaying its history file where
    /// there is one.
    SpawnShell { id: String, workdir: String, env: Vec<(String, String)> },
    /// Shut a terminal down without saving its history, and keep its last
    /// screen.
    Supersede(String),
    /// Save a terminal's history, shut it down and drop it.
    SaveAndClose(String),
    /// Delete a terminal's history, shut it down and drop it, along with a
    /// screen that was kept of it.
    Discard(String),
    /// Save the history of every live terminal.
    SaveHistories,
    /// Hand the keyboard to a terminal.
    Focus(String),
    /// Use the configured fonts, and let every terminal measure itself anew.
    ApplyFonts,
    /// Use a color theme.
    ApplyTheme(ThemeMode),
    /// Show the end of the log.
    ScrollLog,
    /// Start looking for new log lines.
    PollLog,
    /// Stop looking for new log lines.
    StopPolling,
}

/// Variables and their values.
pub type Pairs = Seq<(Seq<char>, Seq<char>)>;

/// What an [`Effect`] says.
#[verifier::ext_equal]
pub enum Act {
    Persist,
    Log(Level, Seq<char>),
    SpawnAgent { id: Seq<char>, spawn: spawn::Launch, workdir: Seq<char> },
    SpawnShell { id: Seq<char>, workdir: Seq<char>, env: Pairs },
    Supersede(Seq<char>),
    SaveAndClose(Seq<char>),
    Discard(Seq<char>),
    SaveHistories,
    Focus(Seq<char>),
    ApplyFonts,
    ApplyTheme(ThemeMode),
    ScrollLog,
    PollLog,
    StopPolling,
}

impl View for Effect {
    type V = Act;

    open spec fn view(&self) -> Act {
        match self {
            Effect::Persist => Act::Persist,
            Effect::Log(level, message) => Act::Log(*level, message@),
            Effect::SpawnAgent { id, spawn, workdir } => Act::SpawnAgent {
                id: id@,
                spawn: spawn@,
                workdir: workdir@,
            },
            Effect::SpawnShell { id, workdir, env } => Act::SpawnShell {
                id: id@,
                workdir: workdir@,
                env: text::pairs(env@),
            },
            Effect::Supersede(id) => Act::Supersede(id@),
            Effect::SaveAndClose(id) => Act::SaveAndClose(id@),
            Effect::Discard(id) => Act::Discard(id@),
            Effect::SaveHistories => Act::SaveHistories,
            Effect::Focus(id) => Act::Focus(id@),
            Effect::ApplyFonts => Act::ApplyFonts,
            Effect::ApplyTheme(mode) => Act::ApplyTheme(*mode),
            Effect::ScrollLog => Act::ScrollLog,
            Effect::PollLog => Act::PollLog,
            Effect::StopPolling => Act::StopPolling,
        }
    }
}

/// The contents of some effects.
pub open spec fn acts(list: Seq<Effect>) -> Seq<Act> {
    list.map_values(|e: Effect| e@)
}

/// A state on the way through a step, with the effects listed so far.
#[verifier::ext_equal]
pub struct Turn {
    pub desk: Desk,
    pub acts: Seq<Act>,
}

/// A workspace and the effects listed so far.
pub open spec fn turn(desk: Desk, effects: Seq<Effect>) -> Turn {
    Turn { desk, acts: acts(effects) }
}

impl Turn {
    /// One more effect.
    pub open spec fn act(self, a: Act) -> Turn {
        Turn { acts: self.acts.push(a), ..self }
    }

    /// A line is logged.
    pub open spec fn logged(self, message: Seq<char>) -> Turn {
        self.act(Act::Log(Level::Info, message))
    }

    /// A status line is shown, and logged.
    pub open spec fn said(self, message: Seq<char>, is_error: bool) -> Turn {
        Turn { desk: Desk { status: Some((message, is_error)), ..self.desk }, ..self }.act(
            Act::Log(level_of(is_error), message),
        )
    }

    /// Lines about ignored words are logged.
    pub open spec fn complained(self, notes: Seq<Seq<char>>) -> Turn {
        Turn {
            acts: self.acts + notes.map_values(|n: Seq<char>| Act::Log(Level::Error, n)),
            ..self
        }
    }

    /// A terminal becomes live.
    pub open spec fn started(self, id: Seq<char>) -> Turn {
        Turn {
            desk: Desk {
                live: self.desk.live.insert(id),
                exited: self.desk.exited.remove(id),
                ..self.desk
            },
            ..self
        }
    }

    /// A shell is started.
    pub open spec fn shell(self, id: Seq<char>, workdir: Seq<char>, env: Pairs) -> Turn {
        self.started(id).act(Act::SpawnShell { id, workdir, env })
    }

    /// An agent's command line is started, or refused where it is empty.
    pub open spec fn agent(
        self,
        id: Seq<char>,
        command: Seq<char>,
        extra_args: Seq<Seq<char>>,
        workdir: Seq<char>,
        env: Pairs,
        process_env: Pairs,
    ) -> Turn {
        match spawn::agent_launch(command, extra_args, env, process_env) {
            Ok(launch) => self.started(id).act(Act::SpawnAgent { id, spawn: launch, workdir }),
            Err(error) => self.said(error, true),
        }
    }
}

/// The level at which a status line is logged.
pub open spec fn level_of(is_error: bool) -> Level {
    if is_error {
        Level::Error
    } else {
        Level::Info
    }
}

/// One more effect.
pub fn list(out: &mut Vec<Effect>, effect: Effect)
    ensures
        acts(final(out)@) == acts(old(out)@).push(effect@),
{
    let ghost before = acts(out@);
    out.push(effect);
    assert(acts(out@) =~= before.push(effect@));
}

/// The tab shown for an agent.
pub open spec fn active_tab(desk: Desk, agent: Seq<char>) -> Seq<char> {
    if desk.active.dom().contains(agent) {
        desk.active[agent]
    } else {
        agent
    }
}

/// The keyboard goes to the terminal shown for an agent, where it is live.
pub open spec fn focused(t: Turn, agent: Seq<char>) -> Turn {
    let tab = active_tab(t.desk, agent);
    if t.desk.live.contains(tab) {
        t.act(Act::Focus(tab))
    } else {
        t
    }
}

impl Workspace {
    /// The workspace as it starts: nothing is live yet, and nothing selected.
    pub fn new(
        state: AppState,
        program: String,
        log_version: usize,
        out: &mut Vec<Effect>,
    ) -> (r: Workspace)
        ensures
            r@ == (Desk {
                session: state@,
                program: program@,
                live: Set::empty(),
                exited: Set::empty(),
                active: Map::empty(),
                outgoing: Set::empty(),
                restored: Set::empty(),
                selected: None,
                dialog: None,
                editing: None,
                resizing: false,
                status: None,
                drag: None,
                log_seen: log_version,
            }),
            acts(final(out)@) == (if state@.settings.log_panel_open {
                acts(old(out)@).push(Act::ApplyTheme(state@.settings.theme)).push(
                    Act::ApplyFonts,
                ).push(Act::PollLog)
            } else {
                acts(old(out)@).push(Act::ApplyTheme(state@.settings.theme)).push(Act::ApplyFonts)
            }),
    {
        list(out, Effect::ApplyTheme(state.settings.theme));
        list(out, Effect::ApplyFonts);
        if state.settings.log_panel_open {
            list(out, Effect::PollLog);
        }
        Workspace {
            state,
            program,
            terminals: IdSet::new(),
            exited: IdSet::new(),
            active_tabs: IdMap::new(),
            outgoing_terminals: IdSet::new(),
            restored: IdSet::new(),
            selected: None,
            dialog: None,
            inline_edit: None,
            resizing_sidebar: false,
            status: None,
            drag_target: None,
            log_version,
        }
    }

    /// Write scrollback history for every live terminal and persist the
    /// session: what is done when the window is about to close.
    pub fn save_session(&self, out: &mut Vec<Effect>)
        ensures
            acts(final(out)@) == acts(old(out)@).push(Act::SaveHistories).push(Act::Persist),
    {
        list(out, Effect::SaveHistories);
        list(out, Effect::Persist);
    }

    /// Show a status line, and log it.
    pub fn set_status(&mut self, message: String, is_error: bool, out: &mut Vec<Effect>)
        ensures
            turn(final(self)@, final(out)@) == turn(old(self)@, old(out)@).said(
                message@,
                is_error,
            ),
    {
        let level: Level = if is_error {
            Level::Error
        } else {
            Level::Info
        };
        list(out, Effect::Log(level, message.clone()));
        self.status = Some((message, is_error));
    }

    /// The session could not be written.
    pub fn persist_failed(&mut self, error: &str, out: &mut Vec<Effect>)
        ensures
            turn(final(self)@, final(out)@) == turn(old(self)@, old(out)@).said(
                "Failed to save state: "@ + error@,
                true,
            ),
    {
        let mut message: String = owned("Failed to save state: ");
        message.push_str(error);
        self.set_status(message, true, out);
    }

    /// A terminal could not be started: it is not live, and a screen kept of
    /// the one before it is dropped, so that resuming can be tried again.
    pub fn spawn_failed(&mut self, id: &str, error: &str, out: &mut Vec<Effect>)
        ensures
            turn(final(self)@, final(out)@) == (Turn {
                desk: Desk {
                    live: old(self)@.live.remove(id@),
                    outgoing: old(self)@.outgoing.remove(id@),
                    ..old(self)@
                },
                acts: acts(old(out)@),
            }).said("Failed to spawn terminal: "@ + error@, true),
    {
        self.terminals.remove(id);
        self.outgoing_terminals.remove(id);
        let mut message: String = owned("Failed to spawn terminal: ");
        message.push_str(error);
        self.set_status(message, true, out);
    }

    /// A terminal emitted an event. Its first output retires the screen that
    /// was kept of the one before it. Returns whether what the workspace shows
    /// has changed: plain output only changes the terminal itself.
    pub fn terminal_event(&mut self, id: &str, event: &TerminalEvent, out: &mut Vec<Effect>) -> (r:
        bool)
        ensures
            turn(final(self)@, final(out)@) == (match *event {
                TerminalEvent::Exited => (Turn {
                    desk: Desk {
                        outgoing: old(self)@.outgoing.remove(id@),
                        exited: old(self)@.exited.insert(id@),
                        ..old(self)@
                    },
                    acts: acts(old(out)@),
                }).logged("terminal "@ + id@ + ": process exited"@),
                _ => Turn {
                    desk: Desk { outgoing: old(self)@.outgoing.remove(id@), ..old(self)@ },
                    acts: acts(old(out)@),
                },
            }),
            r == (*event !is Output || old(self)@.outgoing.contains(id@)),
    {
        let retired: bool = self.outgoing_terminals.remove(id);
        match event {
            TerminalEvent::Exited => {
                self.exited.insert(id);
                let mut message: String = owned("terminal ");
                message.push_str(id);
                message.push_str(": process exited");
                list(out, Effect::Log(Level::Info, message));
                true
            },
            TerminalEvent::TitleChanged => true,
            TerminalEvent::Output => retired,
        }
    }

    /// The terminal shown for an agent, where it is live.
    pub fn active_terminal(&self, agent: &str) -> (r: Option<String>)
        ensures
            text::opt_text(r) == (if self@.live.contains(active_tab(self@, agent@)) {
                Some(active_tab(self@, agent@))
            } else {
                None
            }),
    {
        let tab: String = self.active_tab(agent);
        if self.terminals.contains(tab.as_str()) {
            Some(tab)
        } else {
            None
        }
    }

    /// The tab shown for an agent.
    pub fn active_tab(&self, agent: &str) -> (r: String)
        ensures
            r@ == active_tab(self@, agent@),
    {
        match self.active_tabs.get(agent) {
            Some(tab) => tab,
            None => owned(agent),
        }
    }

    /// Hand the keyboard to the terminal shown for an agent.
    pub fn focus_agent(&self, agent: &str, out: &mut Vec<Effect>)
        ensures
            turn(self@, final(out)@) == focused(turn(self@, old(out)@), agent@),
    {
        if let Some(tab) = self.active_terminal(agent) {
            list(out, Effect::Focus(tab));
        }
    }

    /// Start a shell in a tab.
    pub fn start_shell_tab(
        &mut self,
        id: &str,
        workdir: &str,
        task_env: &Vec<(String, String)>,
        out: &mut Vec<Effect>,
    )
        ensures
            turn(final(self)@, final(out)@) == turn(old(self)@, old(out)@).shell(
                id@,
                workdir@,
                text::pairs(task_env@),
            ),
    {
        self.terminals.insert(id);
        self.exited.remove(id);
        list(
            out,
            Effect::SpawnShell {
                id: owned(id),
                workdir: owned(workdir),
                env: copy_pairs(task_env),
            },
        );
    }

    /// Start an agent's command line in its own terminal.
    pub fn start_agent_terminal(
        &mut self,
        id: &str,
        command: &str,
        extra_args: &Vec<String>,
        workdir: &str,
        task_env: &Vec<(String, String)>,
        process_env: &Vec<(String, String)>,
        out: &mut Vec<Effect>,
    )
        ensures
            turn(final(self)@, final(out)@) == turn(old(self)@, old(out)@).agent(
                id@,
                command@,
                text::texts(extra_args@),
                workdir@,
                text::pairs(task_env@),
                text::pairs(process_env@),
            ),
    {
        match agent_spawn(command, extra_args, task_env, process_env) {
            Ok(spawn) => {
                self.terminals.insert(id);
                self.exited.remove(id);
                list(out, Effect::SpawnAgent { id: owned(id), spawn, workdir: owned(workdir) });
            },
            Err(error) => {
                self.set_status(error, true, out);
            },
        }
    }
}

} // verus!
