//! The records of a session: agents, projects, presets, settings.

use vstd::prelude::*;
use vstd::string::*;

use crate::paths;
use crate::paths::file_name;
use crate::text;
use crate::text::{copy_opt_text, owned, same_text, trim};
use crate::theme::ThemeMode;

verus! {

pub type AgentId = String;

/// A plain shell terminal tab attached to an agent.
pub struct TerminalTabRecord {
    pub id: String,
    pub name: String,
}

/// What a [`TerminalTabRecord`] says.
#[verifier::ext_equal]
pub struct Tab {
    pub id: Seq<char>,
    pub name: Seq<char>,
}

impl View for TerminalTabRecord {
    type V = Tab;

    open spec fn view(&self) -> Tab {
        Tab { id: self.id@, name: self.name@ }
    }
}

/// The tabs of a list of records.
pub open spec fn tabs(list: Seq<TerminalTabRecord>) -> Seq<Tab> {
    list.map_values(|t: TerminalTabRecord| t@)
}

/// An agent: a task being worked on in a directory.
pub struct AgentRecord {
    pub id: AgentId,
    /// Short display name, derived from the task by the planner.
    pub name: String,
    /// Full task description; editable in the UI.
    pub description: String,
    /// Directory the agent runs in (worktree or the project base path).
    pub workdir: String,
    /// Branch checked out in `workdir`, if any. `None` means the agent works
    /// on whatever the base path has checked out.
    pub branch: Option<String>,
    /// Command line this agent was spawned with (from the preset).
    pub command: Option<String>,
    /// Command line used to resume this agent's session.
    pub resume_command: Option<String>,
    /// `KEY=value` words from the preset, given to every process started for
    /// this agent. Snapshotted at spawn like the commands above.
    pub env: Option<String>,
    /// Extra terminal tabs opened next to the agent tab.
    pub terminals: Vec<TerminalTabRecord>,
}

/// What an [`AgentRecord`] says.
#[verifier::ext_equal]
pub struct Agent {
    pub id: Seq<char>,
    pub name: Seq<char>,
    pub description: Seq<char>,
    pub workdir: Seq<char>,
    pub branch: Option<Seq<char>>,
    pub command: Option<Seq<char>>,
    pub resume_command: Option<Seq<char>>,
    pub env: Option<Seq<char>>,
    pub terminals: Seq<Tab>,
}

impl View for AgentRecord {
    type V = Agent;

    open spec fn view(&self) -> Agent {
        Agent {
            id: self.id@,
            name: self.name@,
            description: self.description@,
            workdir: self.workdir@,
            branch: text::opt_text(self.branch),
            command: text::opt_text(self.command),
            resume_command: text::opt_text(self.resume_command),
            env: text::opt_text(self.env),
            terminals: tabs(self.terminals@),
        }
    }
}

/// The agents of a list of records.
pub open spec fn agents(list: Seq<AgentRecord>) -> Seq<Agent> {
    list.map_values(|a: AgentRecord| a@)
}

/// A project: a git repository and the agents working on it.
pub struct ProjectRecord {
    /// Path to a directory containing a git repository.
    pub path: String,
    pub name: String,
    pub agents: Vec<AgentRecord>,
    pub expanded: bool,
}

/// What a [`ProjectRecord`] says.
#[verifier::ext_equal]
pub struct Project {
    pub path: Seq<char>,
    pub name: Seq<char>,
    pub agents: Seq<Agent>,
    pub expanded: bool,
}

impl View for ProjectRecord {
    type V = Project;

    open spec fn view(&self) -> Project {
        Project {
            path: self.path@,
            name: self.name@,
            agents: agents(self.agents@),
            expanded: self.expanded,
        }
    }
}

/// The projects of a list of records.
pub open spec fn projects(list: Seq<ProjectRecord>) -> Seq<Project> {
    list.map_values(|p: ProjectRecord| p@)
}

/// A new project at a path: named after the path's last name, or after the
/// whole path where it has none.
pub open spec fn new_project(path: Seq<char>) -> Project {
    Project {
        path,
        name: match paths::file_name_of(path) {
            Some(name) => name,
            None => path,
        },
        agents: Seq::empty(),
        expanded: true,
    }
}

impl ProjectRecord {
    /// A new project at `path`, without agents.
    pub fn new(path: String) -> (r: ProjectRecord)
        ensures
            r@ == new_project(path@),
    {
        let name: String = match file_name(path.as_str()) {
            Some(n) => n,
            None => path.clone(),
        };
        let r = ProjectRecord { path, name, agents: Vec::new(), expanded: true };
        assert(r@.agents =~= Seq::<Agent>::empty());
        r
    }
}

/// The name of the sandbox wrapper of the agent CLI `program`, which the git
/// root mount is meaningful for. Other commands are left alone: there is no way
/// to know how they spell a mount.
pub open spec fn isolation_wrapper_name(program: Seq<char>) -> Seq<char> {
    program + "-isol"@
}

/// The name of the sandbox wrapper of the agent CLI `program`.
pub fn isolation_wrapper(program: &str) -> (r: String)
    ensures
        r@ == isolation_wrapper_name(program@),
{
    let mut r: String = owned(program);
    r.push_str("-isol");
    r
}

/// Appended to a preset's command to resume its session instead of starting a
/// new one.
pub const RESUME_FLAG: &'static str = "--continue";

/// The flag that puts an agent CLI in non-interactive print mode for planning.
pub const PLANNER_FLAGS: &'static str = "-p";

/// Which workspace a new agent gets. The task description always decides the
/// agent's *name*; this only decides where it works.
#[derive(Clone, Copy, PartialEq, Eq, Structural, Debug)]
pub enum WorkspaceMode {
    /// Derived from the task description, along with everything else: a new
    /// branch, an existing one the task refers to, or the base checkout.
    Auto,
    /// Always a worktree on its own branch, whatever the task sounds like.
    NewWorktree,
    /// Always the project's own checkout: no worktree, no branch of its own.
    MainBranch,
}

impl Default for WorkspaceMode {
    fn default() -> (r: Self)
        ensures
            r == WorkspaceMode::Auto,
    {
        WorkspaceMode::Auto
    }
}

impl WorkspaceMode {
    /// All modes, in the order they are offered.
    pub fn all() -> (r: Vec<WorkspaceMode>)
        ensures
            r@ == seq![
                WorkspaceMode::Auto,
                WorkspaceMode::NewWorktree,
                WorkspaceMode::MainBranch,
            ],
    {
        let mut r: Vec<WorkspaceMode> = Vec::new();
        r.push(WorkspaceMode::Auto);
        r.push(WorkspaceMode::NewWorktree);
        r.push(WorkspaceMode::MainBranch);
        assert(r@ =~= seq![
            WorkspaceMode::Auto,
            WorkspaceMode::NewWorktree,
            WorkspaceMode::MainBranch,
        ]);
        r
    }

    /// What a mode is called.
    pub open spec fn called(self) -> Seq<char> {
        match self {
            WorkspaceMode::Auto => "Auto"@,
            WorkspaceMode::NewWorktree => "New worktree"@,
            WorkspaceMode::MainBranch => "Main branch"@,
        }
    }

    /// What a mode is called.
    pub fn label(self) -> (r: &'static str)
        ensures
            r@ == self.called(),
    {
        match self {
            WorkspaceMode::Auto => "Auto",
            WorkspaceMode::NewWorktree => "New worktree",
            WorkspaceMode::MainBranch => "Main branch",
        }
    }
}

/// A named agent command configuration selectable when spawning a task.
pub struct PresetRecord {
    pub name: String,
    /// How to launch the agent. Everything else is appended to it as further
    /// arguments: the task text when spawning, [`RESUME_FLAG`] when resuming,
    /// the planner's flags and prompt when this preset plans. A wrapper that
    /// needs a separator before the agent's own flags carries it here.
    pub command: String,
    /// Legacy: a second, near-identical command line for resuming. Read from
    /// old state files, never written back.
    pub resume_command: Option<String>,
    /// Environment for the agent's processes, written as shell-style
    /// `KEY=value` words (`FOO=bar BAZ="a b"`).
    pub env: String,
}

/// What a [`PresetRecord`] says.
#[verifier::ext_equal]
pub struct Preset {
    pub name: Seq<char>,
    pub command: Seq<char>,
    pub resume_command: Option<Seq<char>>,
    pub env: Seq<char>,
}

impl View for PresetRecord {
    type V = Preset;

    open spec fn view(&self) -> Preset {
        Preset {
            name: self.name@,
            command: self.command@,
            resume_command: text::opt_text(self.resume_command),
            env: self.env@,
        }
    }
}

/// The presets of a list of records.
pub open spec fn presets(list: Seq<PresetRecord>) -> Seq<Preset> {
    list.map_values(|p: PresetRecord| p@)
}

/// The command line that resumes a session of a command.
pub open spec fn resume_line(command: Seq<char>) -> Seq<char> {
    text::trim_of(command) + " "@ + RESUME_FLAG@
}

/// The command line that runs a command as the planner.
pub open spec fn planner_line(command: Seq<char>, model: Seq<char>) -> Seq<char> {
    text::trim_of(command) + " "@ + PLANNER_FLAGS@ + " --model "@ + model
}

impl PresetRecord {
    /// The command line that resumes a session started by this preset.
    pub fn resume_command(&self) -> (r: String)
        ensures
            r@ == resume_line(self.command@),
    {
        let mut r: String = trim(self.command.as_str());
        r.push_str(" ");
        r.push_str(RESUME_FLAG);
        r
    }

    /// The command line that runs this preset's agent as the planner: print
    /// mode, a model, and (appended by the planner itself) the prompt.
    pub fn planner_command(&self, model: &str) -> (r: String)
        ensures
            r@ == planner_line(self.command@, model@),
    {
        let mut r: String = trim(self.command.as_str());
        r.push_str(" ");
        r.push_str(PLANNER_FLAGS);
        r.push_str(" --model ");
        r.push_str(model);
        r
    }
}

/// Mounts the project's git root into a sandboxed agent at its own path. An
/// agent's workdir is usually a worktree whose `.git` is a *file* pointing
/// into `<git root>/.git/worktrees/`, so a sandbox that sees only the workdir
/// has no working git. It must come before the `--` separator: everything
/// after that goes to the agent.
pub const MOUNT_GIT_ROOT: &'static str = "-v $HARMONIUM_TASK_GIT_ROOT:$HARMONIUM_TASK_GIT_ROOT";

fn preset(name: &str, command: String) -> (r: PresetRecord)
    ensures
        r@ == plain_preset(name@, command@),
{
    let r = PresetRecord {
        name: owned(name),
        command,
        resume_command: None,
        env: String::new(),
    };
    assert(r@.env =~= Seq::<char>::empty());
    r
}

/// A preset that is only a name and a command.
pub open spec fn plain_preset(name: Seq<char>, command: Seq<char>) -> Preset {
    Preset { name, command, resume_command: None, env: Seq::empty() }
}

/// The presets a fresh install starts with, for the agent CLI `program` that
/// runs where nothing else is configured. The sandboxed ones mount the main
/// repository at its own path and end in `--`: everything appended is meant
/// for the agent, not for the wrapper.
pub open spec fn first_presets(program: Seq<char>, isolation_available: bool) -> Seq<Preset> {
    let name = program + "-code"@;
    let plain = seq![plain_preset(name, program)];
    if isolation_available {
        plain.push(
            plain_preset(
                name + " isolated bubblewrap"@,
                isolation_wrapper_name(program) + " --local "@ + MOUNT_GIT_ROOT@ + " --"@,
            ),
        ).push(
            plain_preset(
                name + " isolated container"@,
                isolation_wrapper_name(program) + " "@ + MOUNT_GIT_ROOT@ + " --"@,
            ),
        )
    } else {
        plain
    }
}

/// The presets a fresh install starts with, for the agent CLI `program` that
/// runs where nothing else is configured. The sandboxed ones are only created when the sandbox wrapper is actually installed, as
/// `isolation_available` says: a preset that can't be run is a spawn failure
/// waiting to happen.
pub fn default_presets(program: &str, isolation_available: bool) -> (r: Vec<PresetRecord>)
    ensures
        presets(r@) == first_presets(program@, isolation_available),
{
    let mut r: Vec<PresetRecord> = Vec::new();
    let mut name: String = owned(program);
    name.push_str("-code");
    r.push(preset(name.as_str(), owned(program)));
    if isolation_available {
        let mut local: String = isolation_wrapper(program);
        local.push_str(" --local ");
        local.push_str(MOUNT_GIT_ROOT);
        local.push_str(" --");
        let mut local_name: String = name.clone();
        local_name.push_str(" isolated bubblewrap");
        r.push(preset(local_name.as_str(), local));
        let mut container: String = isolation_wrapper(program);
        container.push_str(" ");
        container.push_str(MOUNT_GIT_ROOT);
        container.push_str(" --");
        let mut container_name: String = name.clone();
        container_name.push_str(" isolated container");
        r.push(preset(container_name.as_str(), container));
    }
    assert(presets(r@) =~= first_presets(program@, isolation_available));
    r
}

/// Model used by the default planner command. Planning is a tiny
/// classification job, so a small model is the sane default.
pub const DEFAULT_MODEL: &'static str = "haiku";

/// The settings of a session, apart from its two sizes.
pub struct SettingsRecord {
    pub sidebar_collapsed: bool,
    pub presets: Vec<PresetRecord>,
    /// Index of the preset last used to spawn an agent (preselected in the
    /// spawn dialog).
    pub last_preset: usize,
    pub theme: ThemeMode,
    /// Name of the agent preset the planner runs through. `None`, or a name no
    /// preset has, means the plain agent CLI.
    pub planner_preset: Option<String>,
    /// Full planner command line; when set it replaces both the preset and the
    /// default, and the model is unused.
    pub planner_command: String,
    /// Model for the planner, appended as `--model <model>`.
    pub planner_model: String,
    pub terminal_font: String,
    pub ui_font: String,
    /// Whether the log panel is showing under the terminal.
    pub log_panel_open: bool,
}

/// What a [`SettingsRecord`] says.
#[verifier::ext_equal]
pub struct Settings {
    pub sidebar_collapsed: bool,
    pub presets: Seq<Preset>,
    pub last_preset: int,
    pub theme: ThemeMode,
    pub planner_preset: Option<Seq<char>>,
    pub planner_command: Seq<char>,
    pub planner_model: Seq<char>,
    pub terminal_font: Seq<char>,
    pub ui_font: Seq<char>,
    pub log_panel_open: bool,
}

impl View for SettingsRecord {
    type V = Settings;

    open spec fn view(&self) -> Settings {
        Settings {
            sidebar_collapsed: self.sidebar_collapsed,
            presets: presets(self.presets@),
            last_preset: self.last_preset as int,
            theme: self.theme,
            planner_preset: text::opt_text(self.planner_preset),
            planner_command: self.planner_command@,
            planner_model: self.planner_model@,
            terminal_font: self.terminal_font@,
            ui_font: self.ui_font@,
            log_panel_open: self.log_panel_open,
        }
    }
}

/// The settings a fresh install starts with.
pub open spec fn first_settings(program: Seq<char>, isolation_available: bool) -> Settings {
    Settings {
        sidebar_collapsed: false,
        presets: first_presets(program, isolation_available),
        last_preset: 0,
        theme: ThemeMode::Light,
        planner_preset: None,
        planner_command: Seq::empty(),
        planner_model: DEFAULT_MODEL@,
        terminal_font: crate::theme::DEFAULT_TERMINAL_FONT@,
        ui_font: crate::theme::DEFAULT_UI_FONT@,
        log_panel_open: false,
    }
}

impl SettingsRecord {
    /// The settings a fresh install starts with.
    pub fn fresh(program: &str, isolation_available: bool) -> (r: SettingsRecord)
        ensures
            r@ == first_settings(program@, isolation_available),
    {
        let r = SettingsRecord {
            sidebar_collapsed: false,
            presets: default_presets(program, isolation_available),
            last_preset: 0,
            theme: ThemeMode::Light,
            planner_preset: None,
            planner_command: String::new(),
            planner_model: owned(DEFAULT_MODEL),
            terminal_font: owned(crate::theme::DEFAULT_TERMINAL_FONT),
            ui_font: owned(crate::theme::DEFAULT_UI_FONT),
            log_panel_open: false,
        };
        assert(r@.planner_command =~= Seq::<char>::empty());
        r
    }
}

/// A session: the projects and the settings.
pub struct AppState {
    pub projects: Vec<ProjectRecord>,
    pub settings: SettingsRecord,
}

/// What an [`AppState`] says.
#[verifier::ext_equal]
pub struct Session {
    pub projects: Seq<Project>,
    pub settings: Settings,
}

impl View for AppState {
    type V = Session;

    open spec fn view(&self) -> Session {
        Session { projects: projects(self.projects@), settings: self.settings@ }
    }
}

/// The ids of some agents.
pub open spec fn agent_ids(list: Seq<Agent>) -> Seq<Seq<char>> {
    list.map_values(|a: Agent| a.id)
}

/// Where the first agent with an id is, looking from project `p` on: the
/// project's index and the agent's within it.
pub open spec fn agent_from(list: Seq<Project>, p: int, id: Seq<char>) -> Option<(int, int)>
    decreases list.len() - p,
{
    if p < 0 || p >= list.len() {
        None
    } else {
        match text::position_of(agent_ids(list[p].agents), id) {
            Some(i) => Some((p, i)),
            None => agent_from(list, p + 1, id),
        }
    }
}

/// Where the first agent with an id is.
pub open spec fn agent_at(list: Seq<Project>, id: Seq<char>) -> Option<(int, int)> {
    agent_from(list, 0, id)
}

/// What [`agent_from`] finds is an agent with that id.
pub proof fn lemma_agent_from(list: Seq<Project>, p: int, id: Seq<char>)
    requires
        0 <= p <= list.len(),
    ensures
        match agent_from(list, p, id) {
            Some((q, i)) => p <= q < list.len() && 0 <= i < list[q].agents.len()
                && list[q].agents[i].id == id,
            None => forall|q: int, i: int|
                p <= q < list.len() && 0 <= i < list[q].agents.len() ==> (
                #[trigger] list[q].agents[i]).id != id,
        },
    decreases list.len() - p,
{
    if p < list.len() {
        let ids = agent_ids(list[p].agents);
        text::lemma_position_of(ids, id);
        if text::position_of(ids, id) is None {
            lemma_agent_from(list, p + 1, id);
            if agent_from(list, p + 1, id) is None {
                assert forall|q: int, i: int|
                    p <= q < list.len() && 0 <= i < list[q].agents.len() implies (
                #[trigger] list[q].agents[i]).id != id by {
                    if q == p {
                        assert(ids[i] == list[p].agents[i].id);
                    }
                }
            }
        }
    }
}

/// Where the first agent with an id is in a list.
pub fn find_agent(list: &Vec<AgentRecord>, id: &str) -> (r: Option<usize>)
    ensures
        match r {
            Some(i) => i < list@.len() && text::position_of(agent_ids(agents(list@)), id@) == Some(
                i as int,
            ),
            None => text::position_of(agent_ids(agents(list@)), id@) is None,
        },
{
    let ghost ids = agent_ids(agents(list@));
    let mut i: usize = 0;
    while i < list.len()
        invariant
            i <= list@.len(),
            ids == agent_ids(agents(list@)),
            forall|j: int| 0 <= j < i ==> #[trigger] ids[j] != id@,
        decreases list@.len() - i,
    {
        assert(ids[i as int] == list@[i as int].id@);
        if same_text(list[i].id.as_str(), id) {
            proof {
                text::lemma_position_is(ids, id@, i as int);
            }
            return Some(i);
        }
        i += 1;
    }
    proof {
        text::lemma_position_of(ids, id@);
    }
    None
}

impl AppState {
    /// Where the first agent with an id is.
    pub fn locate(&self, id: &str) -> (r: Option<(usize, usize)>)
        ensures
            match r {
                Some((p, i)) => p < self.projects@.len() && i < self.projects@[p as int].agents@.len()
                    && agent_at(self@.projects, id@) == Some((p as int, i as int)),
                None => agent_at(self@.projects, id@) is None,
            },
    {
        let mut p: usize = 0;
        while p < self.projects.len()
            invariant
                p <= self.projects@.len(),
                agent_from(self@.projects, p as int, id@) == agent_at(self@.projects, id@),
            decreases self.projects@.len() - p,
        {
            if let Some(i) = find_agent(&self.projects[p].agents, id) {
                return Some((p, i));
            }
            p += 1;
        }
        None
    }

    /// The agent with an id.
    pub fn agent(&self, id: &str) -> (r: Option<&AgentRecord>)
        ensures
            match r {
                Some(a) => agent_at(self@.projects, id@) matches Some((p, i)) && a@
                    == self@.projects[p].agents[i] && a@.id == id@,
                None => agent_at(self@.projects, id@) is None,
            },
    {
        match self.locate(id) {
            Some((p, i)) => {
                proof {
                    lemma_agent_from(self@.projects, 0, id@);
                }
                Some(&self.projects[p].agents[i])
            },
            None => None,
        }
    }

    /// The agent with an id, to change.
    pub fn agent_mut(&mut self, id: &str) -> (r: Option<&mut AgentRecord>)
        ensures
            match r {
                Some(a) => agent_at(old(self)@.projects, id@) matches Some((p, i)) && a@ == old(
                    self,
                )@.projects[p].agents[i] && agent_replaced(*old(self), *final(self), p, i, *final(a)),
                None => agent_at(old(self)@.projects, id@) is None && *final(self) == *old(self),
            },
    {
        match self.locate(id) {
            Some((p, i)) => {
                let project: &mut ProjectRecord = &mut self.projects[p];
                let agent: &mut AgentRecord = &mut project.agents[i];
                Some(agent)
            },
            None => None,
        }
    }

    /// The project an agent belongs to. Agents don't store their project, but
    /// spawning needs its path, so it is resolved on every spawn, resume and
    /// restore.
    pub fn project_for_agent(&self, id: &str) -> (r: Option<&ProjectRecord>)
        ensures
            match r {
                Some(project) => agent_at(self@.projects, id@) matches Some((p, _)) && project@
                    == self@.projects[p],
                None => agent_at(self@.projects, id@) is None,
            },
    {
        match self.locate(id) {
            Some((p, _)) => Some(&self.projects[p]),
            None => None,
        }
    }
}

/// Whether `after` is `before` with one agent replaced.
pub open spec fn agent_replaced(
    before: AppState,
    after: AppState,
    p: int,
    i: int,
    agent: AgentRecord,
) -> bool {
    let old_project = before.projects@[p];
    let new_project = after.projects@[p];
    &&& 0 <= p < before.projects@.len()
    &&& 0 <= i < old_project.agents@.len()
    &&& after.projects@ == before.projects@.update(p, new_project)
    &&& new_project.agents@ == old_project.agents@.update(i, agent)
    &&& new_project.path == old_project.path
    &&& new_project.name == old_project.name
    &&& new_project.expanded == old_project.expanded
    &&& after.settings == before.settings
}

/// What replacing an agent comes to.
pub proof fn lemma_agent_replaced(
    before: AppState,
    after: AppState,
    p: int,
    i: int,
    agent: AgentRecord,
)
    requires
        agent_replaced(before, after, p, i, agent),
    ensures
        after@ == with_agent(before@, p, i, agent@),
{
    let expected = with_agent(before@, p, i, agent@);
    assert(after@.projects[p].agents =~= expected.projects[p].agents);
    assert(after@.projects =~= expected.projects);
}

/// A session in which one agent was replaced.
pub open spec fn with_agent(s: Session, p: int, i: int, agent: Agent) -> Session {
    let project = s.projects[p];
    Session {
        projects: s.projects.update(
            p,
            Project { agents: project.agents.update(i, agent), ..project },
        ),
        ..s
    }
}

// ---- Copies ----

/// A copy of some tabs.
pub fn copy_tabs(list: &Vec<TerminalTabRecord>) -> (r: Vec<TerminalTabRecord>)
    ensures
        tabs(r@) == tabs(list@),
{
    let mut r: Vec<TerminalTabRecord> = Vec::new();
    let mut i: usize = 0;
    while i < list.len()
        invariant
            i <= list@.len(),
            tabs(r@) == tabs(list@).take(i as int),
        decreases list@.len() - i,
    {
        let ghost before = tabs(r@);
        let t = TerminalTabRecord { id: list[i].id.clone(), name: list[i].name.clone() };
        r.push(t);
        assert(tabs(r@) =~= before.push(t@));
        i += 1;
    }
    assert(tabs(list@).take(i as int) =~= tabs(list@));
    r
}

/// A copy of an agent.
pub fn copy_agent(a: &AgentRecord) -> (r: AgentRecord)
    ensures
        r@ == a@,
{
    AgentRecord {
        id: a.id.clone(),
        name: a.name.clone(),
        description: a.description.clone(),
        workdir: a.workdir.clone(),
        branch: copy_opt_text(&a.branch),
        command: copy_opt_text(&a.command),
        resume_command: copy_opt_text(&a.resume_command),
        env: copy_opt_text(&a.env),
        terminals: copy_tabs(&a.terminals),
    }
}

/// A copy of a preset.
pub fn copy_preset(p: &PresetRecord) -> (r: PresetRecord)
    ensures
        r@ == p@,
{
    PresetRecord {
        name: p.name.clone(),
        command: p.command.clone(),
        resume_command: copy_opt_text(&p.resume_command),
        env: p.env.clone(),
    }
}

} // verus!
