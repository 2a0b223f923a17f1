//! Spawning an agent for a task.

use vstd::prelude::*;
use vstd::string::*;

use crate::dialogs;
use crate::dialogs::find_preset;
use crate::log::Level;
use crate::paths;
use crate::paths::same_path;
use crate::planner::command;
use crate::planner::plan;
use crate::planner::plan::PlannerSettings;
use crate::planner::resolve;
use crate::state::records;
use crate::state::records::{copy_preset, AgentRecord, PresetRecord, ProjectRecord, WorkspaceMode};
use crate::text;
use crate::text::{copy_opt_text, owned, push_text};
use crate::workspace::agents;
use crate::workspace::agents::complain;
use crate::workspace::desk;
use crate::workspace::desk::{list, Dialog, Effect, Workspace};
use crate::workspace::env;
use crate::workspace::env::parse_env;
use crate::workspace::spawn;
use crate::workspace::spawn::{new_id, planner_argv};

verus! {

// ---- Asking for a task ----

/// What is needed to plan a task and to start its agent.
pub struct SpawnRequest {
    pub preset: PresetRecord,
    pub workspace_mode: WorkspaceMode,
    pub planner: PlannerSettings,
}

/// What a [`SpawnRequest`] says.
#[verifier::ext_equal]
pub struct Request {
    pub preset: records::Preset,
    pub workspace_mode: WorkspaceMode,
    pub planner: plan::Planner,
}

impl View for SpawnRequest {
    type V = Request;

    open spec fn view(&self) -> Request {
        Request {
            preset: self.preset@,
            workspace_mode: self.workspace_mode,
            planner: self.planner@,
        }
    }
}

/// What an optional request says.
pub open spec fn request_of(r: Option<SpawnRequest>) -> Option<Request> {
    match r {
        Some(r) => Some(r@),
        None => None,
    }
}

/// How the planner runs in a repository: through the chosen preset, where one
/// is chosen and still exists.
pub open spec fn planner_of(
    program: Seq<char>,
    s: records::Settings,
    repo: Seq<char>,
    process_env: desk::Pairs,
) -> plan::Planner {
    match dialogs::preset_row(s.presets, s.planner_preset) {
        Some(i) => plan::Planner {
            command: s.planner_command,
            preset_argv: spawn::preset_planner(
                s.presets[i].command,
                s.planner_model,
                repo,
                process_env,
            ),
            env: env::assigned(
                command::command_words(s.presets[i].env),
                Seq::empty(),
                process_env,
            ),
            model: s.planner_model,
            program,
        },
        None => plan::Planner {
            command: s.planner_command,
            preset_argv: Seq::empty(),
            env: Seq::empty(),
            model: s.planner_model,
            program,
        },
    }
}

/// The planner's environment field is read: what is wrong with it is logged.
pub open spec fn planner_read(t: desk::Turn) -> desk::Turn {
    let s = t.desk.session.settings;
    match dialogs::preset_row(s.presets, s.planner_preset) {
        Some(i) => t.complained(env::ignored(command::command_words(s.presets[i].env))),
        None => t,
    }
}

/// The preset at an index, or the plain agent CLI where there is none.
pub open spec fn preset_at(
    program: Seq<char>,
    list: Seq<records::Preset>,
    index: int,
) -> records::Preset {
    if 0 <= index < list.len() {
        list[index]
    } else {
        records::plain_preset(program, program)
    }
}

/// What a task is spawned with: what the dialog says where it is open, and
/// else the preset last used, in a workspace that the task decides. Nothing
/// where a task is being planned already.
pub open spec fn spawn_choice(d: desk::Desk) -> Option<(int, WorkspaceMode)> {
    match d.dialog {
        Some(desk::Sheet::NewAgent(a)) => if a.planning {
            None
        } else {
            Some((a.preset, a.workspace_mode))
        },
        _ => Some((d.session.settings.last_preset, WorkspaceMode::Auto)),
    }
}

/// The dialog while its task is being planned.
pub open spec fn planning_sheet(sheet: Option<desk::Sheet>) -> Option<desk::Sheet> {
    match sheet {
        Some(desk::Sheet::NewAgent(a)) => Some(
            desk::Sheet::NewAgent(dialogs::Asking { planning: true, error: None, ..a }),
        ),
        _ => sheet,
    }
}

/// A task is about to be planned: the choice of preset is remembered.
pub open spec fn spawn_begun(t: desk::Turn) -> desk::Turn {
    match spawn_choice(t.desk) {
        Some((index, _)) => planner_read(
            desk::Turn {
                desk: desk::Desk {
                    dialog: planning_sheet(t.desk.dialog),
                    session: records::Session {
                        settings: records::Settings {
                            last_preset: index,
                            ..t.desk.session.settings
                        },
                        ..t.desk.session
                    },
                    ..t.desk
                },
                ..t
            }.act(desk::Act::Persist),
        ),
        None => t,
    }
}

/// What a task is spawned with.
pub open spec fn spawn_request(
    d: desk::Desk,
    repo: Seq<char>,
    process_env: desk::Pairs,
) -> Option<Request> {
    match spawn_choice(d) {
        Some((index, mode)) => Some(
            Request {
                preset: preset_at(d.program, d.session.settings.presets, index),
                workspace_mode: mode,
                planner: planner_of(d.program, d.session.settings, repo, process_env),
            },
        ),
        None => None,
    }
}

impl Workspace {
    /// The preset the planner runs through, if one is selected and still
    /// exists. Matched by name rather than index, so reordering or editing
    /// the list around it doesn't silently repoint the planner.
    pub fn planner_preset(&self) -> (r: Option<&PresetRecord>)
        ensures
            match r {
                Some(p) => dialogs::preset_row(
                    self@.session.settings.presets,
                    self@.session.settings.planner_preset,
                ) matches Some(i) && p@ == self@.session.settings.presets[i],
                None => dialogs::preset_row(
                    self@.session.settings.presets,
                    self@.session.settings.planner_preset,
                ) is None,
            },
    {
        match find_preset(&self.state.settings.presets, &self.state.settings.planner_preset) {
            Some(i) => Some(&self.state.settings.presets[i]),
            None => None,
        }
    }

    /// How the planner runs. It is a one-shot run of the same agent, so it
    /// gets the preset's environment too. Task variables aren't among them,
    /// since there is no task yet to describe.
    pub fn planner_settings(
        &self,
        repo: &str,
        process_env: &Vec<(String, String)>,
        out: &mut Vec<Effect>,
    ) -> (r: PlannerSettings)
        ensures
            r@ == planner_of(
                self@.program,
                self@.session.settings,
                repo@,
                text::pairs(process_env@),
            ),
            desk::turn(self@, final(out)@) == planner_read(desk::turn(self@, old(out)@)),
    {
        let model: String = self.state.settings.planner_model.clone();
        match self.planner_preset() {
            Some(preset) => {
                let none: Vec<(String, String)> = Vec::new();
                assert(text::pairs(none@) =~= Seq::<(Seq<char>, Seq<char>)>::empty());
                complain(out, preset.env.as_str());
                PlannerSettings {
                    command: self.state.settings.planner_command.clone(),
                    preset_argv: planner_argv(preset, model.as_str(), repo, process_env),
                    env: parse_env(preset.env.as_str(), &none, process_env),
                    model,
                    program: self.program.clone(),
                }
            },
            None => {
                let r = PlannerSettings {
                    command: self.state.settings.planner_command.clone(),
                    preset_argv: Vec::new(),
                    env: Vec::new(),
                    model,
                    program: self.program.clone(),
                };
                assert(r@.preset_argv =~= Seq::<Seq<char>>::empty());
                assert(r@.env =~= Seq::<(Seq<char>, Seq<char>)>::empty());
                r
            },
        }
    }

    /// Begin to spawn an agent for a task in the project at `project_path`:
    /// what the planner and the agent are to run with. Nothing where the
    /// dialog is planning one already.
    pub fn spawn_agent(
        &mut self,
        project_path: &str,
        process_env: &Vec<(String, String)>,
        out: &mut Vec<Effect>,
    ) -> (r: Option<SpawnRequest>)
        ensures
            desk::turn(final(self)@, final(out)@) == spawn_begun(
                desk::turn(old(self)@, old(out)@),
            ),
            request_of(r) == spawn_request(
                old(self)@,
                project_path@,
                text::pairs(process_env@),
            ),
    {
        let ghost before = self@;
        let mut index: usize = self.state.settings.last_preset;
        let mut workspace_mode: WorkspaceMode = WorkspaceMode::Auto;
        let mut dialog: Option<Dialog> = None;
        std::mem::swap(&mut self.dialog, &mut dialog);
        if let Some(Dialog::NewAgent(mut d)) = dialog {
            if d.planning {
                self.dialog = Some(Dialog::NewAgent(d));
                return None;
            }
            d.planning = true;
            d.error = None;
            index = d.preset;
            workspace_mode = d.workspace_mode;
            self.dialog = Some(Dialog::NewAgent(d));
        } else {
            self.dialog = dialog;
        }
        let preset: PresetRecord = if index < self.state.settings.presets.len() {
            copy_preset(&self.state.settings.presets[index])
        } else {
            let p = PresetRecord {
                name: self.program.clone(),
                command: self.program.clone(),
                resume_command: None,
                env: String::new(),
            };
            assert(p@.env =~= Seq::<char>::empty());
            p
        };
        self.state.settings.last_preset = index;
        list(out, Effect::Persist);
        let planner: PlannerSettings = self.planner_settings(project_path, process_env, out);
        Some(SpawnRequest { preset, workspace_mode, planner })
    }
}

// ---- One task per directory ----

/// Where the first of some agents is that works in a directory, looking from
/// `i` on.
pub open spec fn worker_from(list: Seq<records::Agent>, i: int, dir: Seq<char>) -> Option<int>
    decreases list.len() - i,
{
    if i < 0 || i >= list.len() {
        None
    } else if paths::parts_of(list[i].workdir) == paths::parts_of(dir) {
        Some(i)
    } else {
        worker_from(list, i + 1, dir)
    }
}

/// The first agent that works in a directory, looking from project `p` on.
pub open spec fn occupant_from(list: Seq<records::Project>, p: int, dir: Seq<char>) -> Option<
    records::Agent,
>
    decreases list.len() - p,
{
    if p < 0 || p >= list.len() {
        None
    } else {
        match worker_from(list[p].agents, 0, dir) {
            Some(i) => Some(list[p].agents[i]),
            None => occupant_from(list, p + 1, dir),
        }
    }
}

/// The agent that works in a directory, whichever project it belongs to.
pub open spec fn occupant(list: Seq<records::Project>, dir: Seq<char>) -> Option<records::Agent> {
    occupant_from(list, 0, dir)
}

/// What is said where a directory is taken. The way out differs by where the
/// collision is. On a branch, "New worktree" is no help: it keeps the branch
/// the planner named, so the description has to change. On the main checkout,
/// a worktree is exactly the fix.
pub open spec fn taken(existing: records::Agent, place: resolve::Place) -> Seq<char> {
    let (at, advice) = match place.branch {
        Some(branch) => (
            "on `"@ + branch + "` in "@ + place.workdir,
            "describe this one so it lands on a different branch"@,
        ),
        None => (
            "in the project checkout "@ + place.workdir,
            "spawn this one with New worktree"@,
        ),
    };
    "`"@ + existing.name + "` is already working "@ + at + " — resume that task, or "@ + advice
}

/// What becomes of a planned workspace: refused where another agent works
/// there.
pub open spec fn outcome_of(
    list: Seq<records::Project>,
    result: Result<resolve::Place, Seq<char>>,
) -> Result<resolve::Place, Seq<char>> {
    match result {
        Ok(place) => match occupant(list, place.workdir) {
            Some(existing) => Err(taken(existing, place)),
            None => Ok(place),
        },
        Err(error) => Err(error),
    }
}

/// The contents of a planning result.
pub open spec fn place_result(r: Result<resolve::Workspace, String>) -> Result<
    resolve::Place,
    Seq<char>,
> {
    match r {
        Ok(w) => Ok(w@),
        Err(e) => Err(e@),
    }
}

/// Where the project at a path is, looking from `p` on.
pub open spec fn project_from(list: Seq<records::Project>, p: int, path: Seq<char>) -> Option<int>
    decreases list.len() - p,
{
    if p < 0 || p >= list.len() {
        None
    } else if paths::parts_of(list[p].path) == paths::parts_of(path) {
        Some(p)
    } else {
        project_from(list, p + 1, path)
    }
}

/// The record of a new agent.
pub open spec fn new_agent(
    id: Seq<char>,
    task: Seq<char>,
    place: resolve::Place,
    preset: records::Preset,
) -> records::Agent {
    records::Agent {
        id,
        name: place.agent_name,
        description: task,
        workdir: place.workdir,
        branch: place.branch,
        command: Some(preset.command),
        resume_command: Some(records::resume_line(preset.command)),
        env: Some(preset.env),
        terminals: Seq::empty(),
    }
}

/// What is logged when an agent is created.
pub open spec fn created(place: resolve::Place) -> Seq<char> {
    "agent "@ + place.agent_name + ": created on "@ + (match place.branch {
        Some(branch) => branch,
        None => "the base checkout"@,
    }) + " in "@ + place.workdir
}

/// A session with one more agent in a project, which is shown unfolded.
pub open spec fn with_new_agent(s: records::Session, p: int, agent: records::Agent) -> records::Session {
    records::Session {
        projects: s.projects.update(
            p,
            records::Project {
                agents: s.projects[p].agents.push(agent),
                expanded: true,
                ..s.projects[p]
            },
        ),
        ..s
    }
}

/// An agent is created in a project and its process started.
pub open spec fn spawned_in(
    t: desk::Turn,
    p: int,
    agent: records::Agent,
    command: Seq<char>,
    process_env: desk::Pairs,
) -> desk::Turn {
    let made = desk::Turn {
        desk: desk::Desk { session: with_new_agent(t.desk.session, p, agent), ..t.desk },
        ..t
    }.act(desk::Act::Persist);
    agents::env_read(made, agent.id).agent(
        agent.id,
        command,
        seq![agent.description],
        agent.workdir,
        agents::agent_vars(made.desk.session, agent.id, process_env),
        process_env,
    )
}

/// The new agent dialog shows why a task could not be spawned; without it the
/// status line does.
pub open spec fn refused(t: desk::Turn, message: Seq<char>) -> desk::Turn {
    let noted = t.act(desk::Act::Log(Level::Error, message));
    match noted.desk.dialog {
        Some(desk::Sheet::NewAgent(a)) => desk::Turn {
            desk: desk::Desk {
                dialog: Some(
                    desk::Sheet::NewAgent(
                        dialogs::Asking { planning: false, error: Some(message), ..a },
                    ),
                ),
                ..noted.desk
            },
            ..noted
        },
        _ => noted.said(message, true),
    }
}

/// Whether a planned workspace becomes an agent.
pub open spec fn accepted(
    d: desk::Desk,
    project_path: Seq<char>,
    result: Result<resolve::Place, Seq<char>>,
) -> bool {
    outcome_of(d.session.projects, result) is Ok && project_from(
        d.session.projects,
        0,
        project_path,
    ) is Some
}

/// A task was planned: its agent is created, or the user is told why not.
pub open spec fn spawn_settled(
    t: desk::Turn,
    project_path: Seq<char>,
    task: Seq<char>,
    preset: records::Preset,
    result: Result<resolve::Place, Seq<char>>,
    id: Seq<char>,
    process_env: desk::Pairs,
) -> desk::Turn {
    match outcome_of(t.desk.session.projects, result) {
        Ok(place) => {
            let closed = desk::Turn { desk: desk::Desk { dialog: None, ..t.desk }, ..t };
            match project_from(t.desk.session.projects, 0, project_path) {
                Some(p) => spawned_in(
                    closed.logged(created(place)),
                    p,
                    new_agent(id, task, place, preset),
                    preset.command,
                    process_env,
                ),
                None => closed.said("Project disappeared while planning"@, true),
            }
        },
        Err(message) => refused(t, message),
    }
}

/// A new agent's process was started: it is shown. A brand-new agent has
/// nothing saved to restore.
pub open spec fn spawn_shown(t: desk::Turn, id: Seq<char>, process_env: desk::Pairs) -> desk::Turn {
    let ready = agents::shows_itself(agents::marked(t, id), id);
    agents::chosen(
        desk::Turn { desk: desk::Desk { status: None, ..ready.desk }, ..ready },
        id,
        process_env,
    )
}

proof fn lemma_worker(list: Seq<records::Agent>, i: int, dir: Seq<char>)
    requires
        0 <= i <= list.len(),
    ensures
        match worker_from(list, i, dir) {
            Some(k) => i <= k < list.len() && paths::parts_of(list[k].workdir) == paths::parts_of(
                dir,
            ),
            None => forall|k: int|
                i <= k < list.len() ==> paths::parts_of((#[trigger] list[k]).workdir)
                    != paths::parts_of(dir),
        },
    decreases list.len() - i,
{
    if i < list.len() && paths::parts_of(list[i].workdir) != paths::parts_of(dir) {
        lemma_worker(list, i + 1, dir);
    }
}

proof fn lemma_vacant(list: Seq<records::Project>, p: int, dir: Seq<char>)
    requires
        0 <= p <= list.len(),
        occupant_from(list, p, dir) is None,
    ensures
        forall|q: int, k: int|
            p <= q < list.len() && 0 <= k < list[q].agents.len() ==> paths::parts_of(
                (#[trigger] list[q].agents[k]).workdir,
            ) != paths::parts_of(dir),
    decreases list.len() - p,
{
    if p < list.len() {
        lemma_worker(list[p].agents, 0, dir);
        lemma_vacant(list, p + 1, dir);
    }
}

/// Whether an agent belongs to one of some projects.
pub open spec fn at_work(list: Seq<records::Project>, a: records::Agent) -> bool {
    exists|p: int, i: int|
        0 <= p < list.len() && 0 <= i < list[p].agents.len() && #[trigger] list[p].agents[i] == a
}

/// Whether no two agents work in the same directory.
pub open spec fn apart(list: Seq<records::Project>) -> bool {
    forall|a: records::Agent, b: records::Agent|
        #[trigger] at_work(list, a) && #[trigger] at_work(list, b) && a.id != b.id
            ==> paths::parts_of(a.workdir) != paths::parts_of(b.workdir)
}

/// Agents that work apart still do when some of them go, or change places.
pub proof fn fewer_agents_stay_apart(before: Seq<records::Project>, after: Seq<records::Project>)
    requires
        apart(before),
        forall|a: records::Agent| #[trigger] at_work(after, a) ==> at_work(before, a),
    ensures
        apart(after),
{
}

/// One task per directory: where no two agents share one, settling a spawn
/// leaves it so.
pub proof fn one_task_per_directory(
    t: desk::Turn,
    project_path: Seq<char>,
    task: Seq<char>,
    preset: records::Preset,
    result: Result<resolve::Place, Seq<char>>,
    id: Seq<char>,
    process_env: desk::Pairs,
)
    requires
        apart(t.desk.session.projects),
    ensures
        apart(
            spawn_settled(
                t,
                project_path,
                task,
                preset,
                result,
                id,
                process_env,
            ).desk.session.projects,
        ),
{
    let list = t.desk.session.projects;
    let after = spawn_settled(
        t,
        project_path,
        task,
        preset,
        result,
        id,
        process_env,
    ).desk.session.projects;
    if let Ok(place) = outcome_of(list, result) {
        if let Some(at) = project_from(list, 0, project_path) {
            lemma_project(list, 0, project_path);
            lemma_vacant(list, 0, place.workdir);
            let agent = new_agent(id, task, place, preset);
            let with = with_new_agent(t.desk.session, at, agent).projects;
            assert(after == with);
            assert forall|a: records::Agent| #[trigger] at_work(with, a) implies a == agent
                || at_work(list, a) by {
                let (p, i) = choose|p: int, i: int|
                    0 <= p < with.len() && 0 <= i < with[p].agents.len()
                        && #[trigger] with[p].agents[i] == a;
                if p == at && i == list[at].agents.len() {
                    assert(a == agent);
                } else {
                    assert(with[p].agents[i] == list[p].agents[i]);
                }
            }
        }
    }
}

proof fn lemma_project(list: Seq<records::Project>, p: int, path: Seq<char>)
    requires
        0 <= p <= list.len(),
    ensures
        project_from(list, p, path) matches Some(q) ==> p <= q < list.len() && paths::parts_of(
            list[q].path,
        ) == paths::parts_of(path),
    decreases list.len() - p,
{
    if p < list.len() && paths::parts_of(list[p].path) != paths::parts_of(path) {
        lemma_project(list, p + 1, path);
    }
}

/// A task that would land where another agent works changes nothing of the
/// session.
pub proof fn a_taken_directory_is_refused(
    t: desk::Turn,
    project_path: Seq<char>,
    task: Seq<char>,
    preset: records::Preset,
    place: resolve::Place,
    id: Seq<char>,
    process_env: desk::Pairs,
)
    requires
        occupant(t.desk.session.projects, place.workdir) is Some,
    ensures
        spawn_settled(
            t,
            project_path,
            task,
            preset,
            Ok(place),
            id,
            process_env,
        ).desk.session == t.desk.session,
        spawn_settled(
            t,
            project_path,
            task,
            preset,
            Ok(place),
            id,
            process_env,
        ).desk.live == t.desk.live,
{
}

/// The refusal of a taken directory.
pub fn taken_message(existing: &AgentRecord, place: &resolve::Workspace) -> (r: String)
    ensures
        r@ == taken(existing@, place@),
{
    let mut r: String = owned("`");
    r.push_str(existing.name.as_str());
    r.push_str("` is already working ");
    let advice: &'static str = match &place.branch {
        Some(branch) => {
            let mut at: String = owned("on `");
            at.push_str(branch.as_str());
            at.push_str("` in ");
            at.push_str(place.workdir.as_str());
            r.push_str(at.as_str());
            "describe this one so it lands on a different branch"
        },
        None => {
            let mut at: String = owned("in the project checkout ");
            at.push_str(place.workdir.as_str());
            r.push_str(at.as_str());
            "spawn this one with New worktree"
        },
    };
    r.push_str(" — resume that task, or ");
    r.push_str(advice);
    r
}

fn find_worker(list: &Vec<AgentRecord>, dir: &str) -> (r: Option<usize>)
    ensures
        match r {
            Some(i) => i < list@.len() && worker_from(records::agents(list@), 0, dir@) == Some(
                i as int,
            ),
            None => worker_from(records::agents(list@), 0, dir@) is None,
        },
{
    let ghost all = records::agents(list@);
    let mut i: usize = 0;
    while i < list.len()
        invariant
            i <= list@.len(),
            all == records::agents(list@),
            worker_from(all, i as int, dir@) == worker_from(all, 0, dir@),
        decreases list@.len() - i,
    {
        assert(all[i as int].workdir == list@[i as int].workdir@);
        if same_path(list[i].workdir.as_str(), dir) {
            return Some(i);
        }
        i += 1;
    }
    None
}

impl Workspace {
    /// The agent already working in `dir`, if any. One task per directory, the
    /// project's own checkout included: two agents editing the same files is
    /// the hazard, and it doesn't get safer just because the directory happens
    /// to be the main checkout rather than a worktree.
    pub fn occupant_of(&self, dir: &str) -> (r: Option<&AgentRecord>)
        ensures
            match r {
                Some(a) => occupant(self@.session.projects, dir@) == Some(a@),
                None => occupant(self@.session.projects, dir@) is None,
            },
    {
        let ghost all = self@.session.projects;
        let mut p: usize = 0;
        while p < self.state.projects.len()
            invariant
                p <= self.state.projects@.len(),
                all == self@.session.projects,
                occupant_from(all, p as int, dir@) == occupant(all, dir@),
            decreases self.state.projects@.len() - p,
        {
            if let Some(i) = find_worker(&self.state.projects[p].agents, dir) {
                return Some(&self.state.projects[p].agents[i]);
            }
            p += 1;
        }
        None
    }

    /// Where the project at a path is.
    pub fn find_project(&self, path: &str) -> (r: Option<usize>)
        ensures
            match r {
                Some(p) => p < self.state.projects@.len() && project_from(
                    self@.session.projects,
                    0,
                    path@,
                ) == Some(p as int),
                None => project_from(self@.session.projects, 0, path@) is None,
            },
    {
        let ghost all = self@.session.projects;
        let mut p: usize = 0;
        while p < self.state.projects.len()
            invariant
                p <= self.state.projects@.len(),
                all == self@.session.projects,
                project_from(all, p as int, path@) == project_from(all, 0, path@),
            decreases self.state.projects@.len() - p,
        {
            assert(all[p as int].path == self.state.projects@[p as int].path@);
            if same_path(self.state.projects[p].path.as_str(), path) {
                return Some(p);
            }
            p += 1;
        }
        None
    }

    fn refuse_spawn(&mut self, message: String, out: &mut Vec<Effect>)
        ensures
            desk::turn(final(self)@, final(out)@) == refused(
                desk::turn(old(self)@, old(out)@),
                message@,
            ),
    {
        list(out, Effect::Log(Level::Error, message.clone()));
        let mut dialog: Option<Dialog> = None;
        std::mem::swap(&mut self.dialog, &mut dialog);
        if let Some(Dialog::NewAgent(mut d)) = dialog {
            d.planning = false;
            d.error = Some(message);
            self.dialog = Some(Dialog::NewAgent(d));
        } else {
            self.dialog = dialog;
            self.set_status(message, true, out);
        }
    }

    /// A task was planned and its workspace resolved, or that failed: create
    /// the agent, under a fresh id, and start its process, or tell the user
    /// why not. The dialog stays open on a failure, so that the task text
    /// isn't lost. Returns the id of the agent to go on with, by
    /// [`Workspace::spawn_started`], where there is one.
    pub fn settle_spawn(
        &mut self,
        project_path: &str,
        task: &str,
        preset: &PresetRecord,
        result: Result<resolve::Workspace, String>,
        process_env: &Vec<(String, String)>,
        out: &mut Vec<Effect>,
    ) -> (r: Option<String>)
        ensures
            r is Some == accepted(old(self)@, project_path@, place_result(result)),
            r matches Some(id) ==> spawn::drawn(id) && spawn::id_shape(id@),
            desk::turn(final(self)@, final(out)@) == spawn_settled(
                desk::turn(old(self)@, old(out)@),
                project_path@,
                task@,
                preset@,
                place_result(result),
                match r {
                    Some(id) => id@,
                    None => Seq::empty(),
                },
                text::pairs(process_env@),
            ),
    {
        let id: String = new_id();
        if self.settle_spawn_as(project_path, task, preset, result, id.as_str(), process_env, out) {
            Some(id)
        } else {
            None
        }
    }

    /// As [`Workspace::settle_spawn`], with `id` for the agent. Returns whether
    /// there is an agent to go on with.
    pub fn settle_spawn_as(
        &mut self,
        project_path: &str,
        task: &str,
        preset: &PresetRecord,
        result: Result<resolve::Workspace, String>,
        id: &str,
        process_env: &Vec<(String, String)>,
        out: &mut Vec<Effect>,
    ) -> (r: bool)
        ensures
            desk::turn(final(self)@, final(out)@) == spawn_settled(
                desk::turn(old(self)@, old(out)@),
                project_path@,
                task@,
                preset@,
                place_result(result),
                id@,
                text::pairs(process_env@),
            ),
            r == accepted(old(self)@, project_path@, place_result(result)),
    {
        let place: resolve::Workspace = match result {
            Ok(place) => place,
            Err(error) => {
                self.refuse_spawn(error, out);
                return false;
            },
        };
        let refusal: Option<String> = match self.occupant_of(place.workdir.as_str()) {
            Some(existing) => Some(taken_message(existing, &place)),
            None => None,
        };
        if let Some(message) = refusal {
            self.refuse_spawn(message, out);
            return false;
        }
        self.dialog = None;
        self.finish_spawn(project_path, task, place, preset, id, process_env, out)
    }

    /// Create the agent of a planned task and start its process. Returns
    /// whether its project is still there.
    pub fn finish_spawn(
        &mut self,
        project_path: &str,
        task: &str,
        place: resolve::Workspace,
        preset: &PresetRecord,
        id: &str,
        process_env: &Vec<(String, String)>,
        out: &mut Vec<Effect>,
    ) -> (r: bool)
        ensures
            desk::turn(final(self)@, final(out)@) == (match project_from(
                old(self)@.session.projects,
                0,
                project_path@,
            ) {
                Some(p) => spawned_in(
                    desk::turn(old(self)@, old(out)@).logged(created(place@)),
                    p,
                    new_agent(id@, task@, place@, preset@),
                    preset@.command,
                    text::pairs(process_env@),
                ),
                None => desk::turn(old(self)@, old(out)@).said(
                    "Project disappeared while planning"@,
                    true,
                ),
            }),
            r == (project_from(old(self)@.session.projects, 0, project_path@) is Some),
    {
        let p: usize = match self.find_project(project_path) {
            Some(p) => p,
            None => {
                self.set_status(owned("Project disappeared while planning"), true, out);
                return false;
            },
        };
        let mut message: String = owned("agent ");
        message.push_str(place.agent_name.as_str());
        message.push_str(": created on ");
        match &place.branch {
            Some(branch) => message.push_str(branch.as_str()),
            None => message.push_str("the base checkout"),
        }
        message.push_str(" in ");
        message.push_str(place.workdir.as_str());
        list(out, Effect::Log(Level::Info, message));
        let record = AgentRecord {
            id: owned(id),
            name: place.agent_name.clone(),
            description: owned(task),
            workdir: place.workdir.clone(),
            branch: copy_opt_text(&place.branch),
            command: Some(preset.command.clone()),
            resume_command: Some(preset.resume_command()),
            env: Some(preset.env.clone()),
            terminals: Vec::new(),
        };
        proof {
            assert(record@.terminals =~= Seq::<records::Tab>::empty());
            assert(record@ == new_agent(id@, task@, place@, preset@));
        }
        let ghost before = self.state;
        let project: &mut ProjectRecord = &mut self.state.projects[p];
        project.agents.push(record);
        project.expanded = true;
        proof {
            let wanted = with_new_agent(before@, p as int, record@);
            assert(self.state@.projects[p as int].agents =~= wanted.projects[p as int].agents);
            assert forall|q: int| 0 <= q < before.projects@.len() && q != p implies
            #[trigger] self.state@.projects[q] == before@.projects[q] by {
                assert(self.state.projects@[q] == before.projects@[q]);
            }
            assert(self.state@.projects =~= wanted.projects);
        }
        list(out, Effect::Persist);
        let vars: Vec<(String, String)> = self.agent_task_env(id, process_env, out);
        let mut extra: Vec<String> = Vec::new();
        push_text(&mut extra, task);
        assert(text::texts(extra@) =~= seq![task@]);
        self.start_agent_terminal(
            id,
            preset.command.as_str(),
            &extra,
            place.workdir.as_str(),
            &vars,
            process_env,
            out,
        );
        true
    }

    /// A new agent's process was started, or that was tried: show the agent.
    pub fn spawn_started(
        &mut self,
        id: &str,
        process_env: &Vec<(String, String)>,
        out: &mut Vec<Effect>,
    )
        ensures
            desk::turn(final(self)@, final(out)@) == spawn_shown(
                desk::turn(old(self)@, old(out)@),
                id@,
                text::pairs(process_env@),
            ),
    {
        self.restored.insert(id);
        self.active_tabs.insert(id, id);
        self.status = None;
        self.select_agent(id, process_env, out);
    }
}

} // verus!
