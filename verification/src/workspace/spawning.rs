//! What spawning an agent comes to, said of the task, the preset and the
//! workspace that go in and of the record and the process that come out.

use vstd::prelude::*;

use crate::dialogs;
use crate::log::Level;
use crate::paths;
use crate::planner::resolve;
use crate::state::records;
use crate::state::records::WorkspaceMode;
use crate::text;
use crate::workspace::agents;
use crate::workspace::desk;
use crate::workspace::env;
use crate::workspace::spawn;
use crate::workspace::tasks;

verus! {

/// Whether no agent works in a directory.
pub open spec fn vacant(list: Seq<records::Project>, dir: Seq<char>) -> bool {
    forall|p: int, i: int|
        0 <= p < list.len() && 0 <= i < list[p].agents.len() ==> paths::parts_of(
            (#[trigger] list[p].agents[i]).workdir,
        ) != paths::parts_of(dir)
}

/// Whether no agent has an id.
pub open spec fn unused(list: Seq<records::Project>, id: Seq<char>) -> bool {
    forall|p: int, i: int|
        0 <= p < list.len() && 0 <= i < list[p].agents.len() ==> (#[trigger] list[p].agents[i]).id
            != id
}

/// Whether the first project at a path is the one at an index.
pub open spec fn is_project(list: Seq<records::Project>, at: int, path: Seq<char>) -> bool {
    &&& 0 <= at < list.len()
    &&& paths::parts_of(list[at].path) == paths::parts_of(path)
    &&& forall|q: int|
        0 <= q < at ==> paths::parts_of((#[trigger] list[q]).path) != paths::parts_of(path)
}

/// Whether a variable is among some with a value.
pub open spec fn holds(vars: desk::Pairs, name: Seq<char>, value: Seq<char>) -> bool {
    exists|k: int| 0 <= k < vars.len() && #[trigger] vars[k] == (name, value)
}

proof fn lemma_worker_none(list: Seq<records::Agent>, i: int, dir: Seq<char>)
    requires
        0 <= i,
        forall|k: int|
            i <= k < list.len() ==> paths::parts_of((#[trigger] list[k]).workdir)
                != paths::parts_of(dir),
    ensures
        tasks::worker_from(list, i, dir) is None,
    decreases list.len() - i,
{
    if i < list.len() {
        lemma_worker_none(list, i + 1, dir);
    }
}

proof fn lemma_unoccupied(list: Seq<records::Project>, p: int, dir: Seq<char>)
    requires
        0 <= p,
        vacant(list, dir),
    ensures
        tasks::occupant_from(list, p, dir) is None,
    decreases list.len() - p,
{
    if p < list.len() {
        assert forall|k: int| 0 <= k < list[p].agents.len() implies paths::parts_of(
            (#[trigger] list[p].agents[k]).workdir,
        ) != paths::parts_of(dir) by {}
        lemma_worker_none(list[p].agents, 0, dir);
        lemma_unoccupied(list, p + 1, dir);
    }
}

proof fn lemma_project_is(list: Seq<records::Project>, p: int, at: int, path: Seq<char>)
    requires
        0 <= p <= at,
        is_project(list, at, path),
    ensures
        tasks::project_from(list, p, path) == Some(at),
    decreases at - p,
{
    if p < at {
        lemma_project_is(list, p + 1, at, path);
    }
}

proof fn lemma_agent_is(list: Seq<records::Project>, p: int, at: int, i: int, id: Seq<char>)
    requires
        0 <= p <= at < list.len(),
        0 <= i < list[at].agents.len(),
        list[at].agents[i].id == id,
        forall|q: int, k: int|
            0 <= q < list.len() && 0 <= k < list[q].agents.len() && (
            #[trigger] list[q].agents[k]).id == id ==> q == at && k == i,
    ensures
        records::agent_from(list, p, id) == Some((at, i)),
    decreases at - p,
{
    let ids = records::agent_ids(list[p].agents);
    text::lemma_position_of(ids, id);
    if p < at {
        if let Some(k) = text::position_of(ids, id) {
            assert(list[p].agents[k].id == id);
        }
        lemma_agent_is(list, p + 1, at, i, id);
    } else {
        assert forall|j: int| 0 <= j < i implies ids[j] != id by {
            assert(list[p].agents[j].id == ids[j]);
        }
        assert(ids[i] == id);
        text::lemma_position_is(ids, id, i);
    }
}

/// After a spawn, its project has one more agent, the last one: it has the name,
/// the directory and the branch of the resolved workspace, the task as its
/// description, and the preset's command and environment. The other agents, the
/// other projects and the settings stay as they were; the project is unfolded,
/// and the dialog closed.
pub proof fn a_spawned_agent_is_recorded(
    t: desk::Turn,
    project_path: Seq<char>,
    task: Seq<char>,
    preset: records::Preset,
    place: resolve::Place,
    id: Seq<char>,
    process_env: desk::Pairs,
    at: int,
)
    requires
        vacant(t.desk.session.projects, place.workdir),
        is_project(t.desk.session.projects, at, project_path),
    ensures
        ({
            let before = t.desk.session;
            let after = tasks::spawn_settled(
                t,
                project_path,
                task,
                preset,
                Ok(place),
                id,
                process_env,
            ).desk;
            let made = after.session.projects[at].agents.last();
            &&& after.session.projects.len() == before.projects.len()
            &&& forall|q: int|
                0 <= q < before.projects.len() && q != at ==> (
                #[trigger] after.session.projects[q]) == before.projects[q]
            &&& after.session.projects[at].agents.len() == before.projects[at].agents.len() + 1
            &&& after.session.projects[at].agents.drop_last() == before.projects[at].agents
            &&& after.session.projects[at].path == before.projects[at].path
            &&& after.session.projects[at].name == before.projects[at].name
            &&& after.session.projects[at].expanded
            &&& after.session.settings == before.settings
            &&& after.dialog is None
            &&& made.id == id
            &&& made.name == place.agent_name
            &&& made.workdir == place.workdir
            &&& made.branch == place.branch
            &&& made.description == task
            &&& made.command == Some(preset.command)
            &&& made.resume_command == Some(
                text::trim_of(preset.command) + " "@ + "--continue"@,
            )
            &&& made.env == Some(preset.env)
            &&& made.terminals.len() == 0
        }),
{
    lemma_unoccupied(t.desk.session.projects, 0, place.workdir);
    lemma_project_is(t.desk.session.projects, 0, at, project_path);
    let after = tasks::spawn_settled(t, project_path, task, preset, Ok(place), id, process_env);
    let agent = tasks::new_agent(id, task, place, preset);
    assert(after.desk.session == tasks::with_new_agent(t.desk.session, at, agent));
    assert(after.desk.session.projects[at].agents.drop_last()
        =~= t.desk.session.projects[at].agents);
}

/// The process of a spawned agent is started last, unless its command line has
/// no words: in the workspace's directory, with the task as its last argument,
/// and told in its environment which project, directory and branch it is for.
/// What the preset sets comes behind that.
pub proof fn a_spawned_agent_is_started(
    t: desk::Turn,
    project_path: Seq<char>,
    task: Seq<char>,
    preset: records::Preset,
    place: resolve::Place,
    id: Seq<char>,
    process_env: desk::Pairs,
    at: int,
)
    requires
        vacant(t.desk.session.projects, place.workdir),
        unused(t.desk.session.projects, id),
        is_project(t.desk.session.projects, at, project_path),
        spawn::agent_launch(preset.command, seq![task], Seq::empty(), process_env) is Ok,
    ensures
        ({
            let after = tasks::spawn_settled(
                t,
                project_path,
                task,
                preset,
                Ok(place),
                id,
                process_env,
            );
            &&& after.desk.live.contains(id)
            &&& !after.desk.exited.contains(id)
            &&& after.acts.len() > t.acts.len()
            &&& after.acts.take(t.acts.len() as int) == t.acts
            &&& after.acts.contains(desk::Act::Persist)
            &&& after.acts.last() matches desk::Act::SpawnAgent { id: started, spawn, workdir }
                && started == id && workdir == place.workdir && spawn.args.len() > 0
                && spawn.args.last() == task && holds(
                spawn.env,
                "HARMONIUM_TASK_GIT_ROOT"@,
                t.desk.session.projects[at].path,
            ) && holds(spawn.env, "HARMONIUM_TASK_WORKDIR"@, place.workdir) && (
            place.branch matches Some(b) ==> holds(spawn.env, "HARMONIUM_TASK_BRANCH"@, b))
        }),
{
    let projects = t.desk.session.projects;
    lemma_unoccupied(projects, 0, place.workdir);
    lemma_project_is(projects, 0, at, project_path);
    let agent = tasks::new_agent(id, task, place, preset);
    let session = tasks::with_new_agent(t.desk.session, at, agent);
    let list = session.projects;
    let n = projects[at].agents.len() as int;
    assert(list[at].agents[n] == agent);
    assert forall|q: int, k: int|
        0 <= q < list.len() && 0 <= k < list[q].agents.len() && (#[trigger] list[q].agents[k]).id
            == id implies q == at && k == n by {
        if q != at || k != n {
            assert(list[q].agents[k] == projects[q].agents[k]);
        }
    }
    lemma_agent_is(list, 0, at, n, id);
    let vars = agents::agent_vars(session, id, process_env);
    let provided = env::provided(projects[at].path, place.workdir, place.branch);
    assert(vars == agents::task_vars(list[at], agent, process_env));
    let launch = spawn::agent_launch(preset.command, seq![task], vars, process_env);
    let words = crate::planner::command::command_words(
        spawn::effective(preset.command, process_env),
    );
    let k = spawn::leading(words) as int;
    assert(spawn::expanded_words(words.skip(k), vars, process_env).len() == words.skip(k).len());
    assert(spawn::expanded_words(words.skip(k), Seq::empty(), process_env).len() == words.skip(
        k,
    ).len());
    assert(launch is Ok);
    let l = launch->Ok_0;
    assert(l.env[0] == provided[0]);
    assert(l.env[1] == provided[1]);
    if let Some(b) = place.branch {
        assert(l.env[2] == provided[2]);
        assert(provided[2] == ("HARMONIUM_TASK_BRANCH"@, b));
    }
    let after = tasks::spawn_settled(t, project_path, task, preset, Ok(place), id, process_env);
    let closed = desk::Turn { desk: desk::Desk { dialog: None, ..t.desk }, ..t };
    let noted = closed.logged(tasks::created(place));
    let made = desk::Turn { desk: desk::Desk { session, ..noted.desk }, ..noted }.act(
        desk::Act::Persist,
    );
    let read = agents::env_read(made, id);
    assert(after == read.agent(id, preset.command, seq![task], place.workdir, vars, process_env));
    assert(after.acts == read.acts.push(
        desk::Act::SpawnAgent { id, spawn: l, workdir: place.workdir },
    ));
    assert(made.acts[t.acts.len() as int + 1] == desk::Act::Persist);
    assert(after.acts[t.acts.len() as int + 1] == desk::Act::Persist);
    assert(after.acts.take(t.acts.len() as int) =~= t.acts);
}

/// Where the directory is taken, or the plan failed, no agent is recorded and
/// nothing is started: what the user has is what they had, but for the error,
/// which the open dialog shows and which is logged.
pub proof fn a_refused_spawn_is_explained(
    t: desk::Turn,
    project_path: Seq<char>,
    task: Seq<char>,
    preset: records::Preset,
    place: resolve::Place,
    id: Seq<char>,
    process_env: desk::Pairs,
    p: int,
    i: int,
)
    requires
        0 <= p < t.desk.session.projects.len(),
        0 <= i < t.desk.session.projects[p].agents.len(),
        paths::parts_of(t.desk.session.projects[p].agents[i].workdir) == paths::parts_of(
            place.workdir,
        ),
    ensures
        ({
            let after = tasks::spawn_settled(
                t,
                project_path,
                task,
                preset,
                Ok(place),
                id,
                process_env,
            );
            &&& after.desk.session == t.desk.session
            &&& after.desk.live == t.desk.live
            &&& t.desk.dialog matches Some(desk::Sheet::NewAgent(_)) ==> after.acts
                == t.acts.push(after.acts.last())
            &&& !(t.desk.dialog matches Some(desk::Sheet::NewAgent(_))) ==> after.acts
                == t.acts.push(after.acts.last()).push(after.acts.last())
                && after.desk.dialog == t.desk.dialog
            &&& after.acts.last() matches desk::Act::Log(Level::Error, message) && text::has(
                message,
                place.workdir,
            ) && (place.branch matches Some(b) ==> text::has(message, b)) && (
            t.desk.dialog matches Some(desk::Sheet::NewAgent(_)) ==> after.desk.dialog matches Some(
                desk::Sheet::NewAgent(a),
            ) && a.error == Some(message) && !a.planning)
        }),
{
    let list = t.desk.session.projects;
    lemma_occupied(list, 0, place.workdir, p, i);
    let existing = tasks::occupant(list, place.workdir)->0;
    let message = tasks::taken(existing, place);
    let head = "`"@ + existing.name + "` is already working "@;
    let tail = " — resume that task, or "@;
    match place.branch {
        Some(b) => {
            let advice = "describe this one so it lands on a different branch"@;
            let front = head + "on `"@;
            assert(message =~= front + b + "` in "@ + place.workdir + tail + advice);
            lemma_has(front, b, "` in "@ + place.workdir + tail + advice);
            assert(message =~= front + b + ("` in "@ + place.workdir + tail + advice));
            lemma_has(front + b + "` in "@, place.workdir, tail + advice);
            assert(message =~= front + b + "` in "@ + place.workdir + (tail + advice));
        },
        None => {
            let advice = "spawn this one with New worktree"@;
            let front = head + "in the project checkout "@;
            lemma_has(front, place.workdir, tail + advice);
            assert(message =~= front + place.workdir + (tail + advice));
        },
    }
}

proof fn lemma_has(a: Seq<char>, b: Seq<char>, c: Seq<char>)
    ensures
        text::has(a + b + c, b),
{
    let s = a + b + c;
    assert(s.subrange(a.len() as int, (a.len() + b.len()) as int) =~= b);
    assert(text::at(s, b, a.len() as int));
}

proof fn lemma_worker_some(list: Seq<records::Agent>, k: int, dir: Seq<char>, i: int)
    requires
        0 <= k <= i < list.len(),
        paths::parts_of(list[i].workdir) == paths::parts_of(dir),
    ensures
        tasks::worker_from(list, k, dir) is Some,
    decreases i - k,
{
    if k < i && paths::parts_of(list[k].workdir) != paths::parts_of(dir) {
        lemma_worker_some(list, k + 1, dir, i);
    }
}

proof fn lemma_occupied(list: Seq<records::Project>, q: int, dir: Seq<char>, p: int, i: int)
    requires
        0 <= q <= p < list.len(),
        0 <= i < list[p].agents.len(),
        paths::parts_of(list[p].agents[i].workdir) == paths::parts_of(dir),
    ensures
        tasks::occupant_from(list, q, dir) is Some,
    decreases p - q,
{
    if q == p {
        lemma_worker_some(list[p].agents, 0, dir, i);
    } else {
        lemma_occupied(list, q + 1, dir, p, i);
    }
}

/// A task is spawned as its dialog says: with the preset and the workspace that
/// were chosen there, and planned as the settings say. The preset is remembered
/// for the next task, and the dialog waits for the plan.
pub proof fn a_task_is_spawned_as_chosen(
    t: desk::Turn,
    repo: Seq<char>,
    process_env: desk::Pairs,
    asking: dialogs::Asking,
)
    requires
        t.desk.dialog == Some(desk::Sheet::NewAgent(asking)),
        !asking.planning,
        0 <= asking.preset < t.desk.session.settings.presets.len(),
    ensures
        ({
            let s = t.desk.session.settings;
            let after = tasks::spawn_begun(t);
            &&& tasks::spawn_request(t.desk, repo, process_env) matches Some(r) && r.preset
                == s.presets[asking.preset] && r.workspace_mode == asking.workspace_mode
                && r.planner.command == s.planner_command && r.planner.model == s.planner_model
                && r.planner.program == t.desk.program
            &&& after.desk.session.settings.last_preset == asking.preset
            &&& after.desk.session.settings.presets == s.presets
            &&& after.desk.session.projects == t.desk.session.projects
            &&& after.desk.dialog == Some(
                desk::Sheet::NewAgent(dialogs::Asking { planning: true, error: None, ..asking }),
            )
            &&& after.desk.live == t.desk.live
            &&& after.acts.len() > t.acts.len() && after.acts[t.acts.len() as int]
                == desk::Act::Persist
        }),
{
}

/// Without the dialog, a task is spawned with the preset last used, in a
/// workspace that the task decides.
pub proof fn a_task_without_a_dialog_uses_the_last_preset(
    t: desk::Turn,
    repo: Seq<char>,
    process_env: desk::Pairs,
)
    requires
        t.desk.dialog is None,
        0 <= t.desk.session.settings.last_preset < t.desk.session.settings.presets.len(),
    ensures
        tasks::spawn_request(t.desk, repo, process_env) matches Some(r) && r.preset
            == t.desk.session.settings.presets[t.desk.session.settings.last_preset]
            && r.workspace_mode == WorkspaceMode::Auto,
        tasks::spawn_begun(t).desk.session == t.desk.session,
{
}

/// A new agent that has been started is the one shown, with its own tab in
/// front and no message over it.
pub proof fn a_spawned_agent_is_shown(t: desk::Turn, id: Seq<char>, process_env: desk::Pairs)
    ensures
        tasks::spawn_shown(t, id, process_env).desk.selected == Some(id),
        tasks::spawn_shown(t, id, process_env).desk.status is None,
        tasks::spawn_shown(t, id, process_env).desk.restored.contains(id),
        tasks::spawn_shown(t, id, process_env).desk.active.dom().contains(id),
        tasks::spawn_shown(t, id, process_env).desk.active[id] == id,
        tasks::spawn_shown(t, id, process_env).desk.session == t.desk.session,
        t.desk.live.contains(id) ==> tasks::spawn_shown(t, id, process_env).acts
            == t.acts.push(desk::Act::Focus(id)),
{
    let ready = agents::shows_itself(agents::marked(t, id), id);
    let quiet = desk::Turn { desk: desk::Desk { status: None, ..ready.desk }, ..ready };
    let chosen = desk::Turn {
        desk: desk::Desk { selected: Some(id), editing: None, ..quiet.desk },
        ..quiet
    };
    assert(agents::restored(chosen, id, process_env) == chosen);
}

proof fn lemma_nobody(list: Seq<records::Project>, p: int, dir: Seq<char>)
    requires
        0 <= p,
        tasks::occupant_from(list, p, dir) is None,
    ensures
        forall|q: int, i: int|
            p <= q < list.len() && 0 <= i < list[q].agents.len() ==> paths::parts_of(
                (#[trigger] list[q].agents[i]).workdir,
            ) != paths::parts_of(dir),
    decreases list.len() - p,
{
    if p < list.len() {
        lemma_worker_found(list[p].agents, 0, dir);
        lemma_nobody(list, p + 1, dir);
        assert forall|q: int, i: int|
            p <= q < list.len() && 0 <= i < list[q].agents.len() implies paths::parts_of(
            (#[trigger] list[q].agents[i]).workdir,
        ) != paths::parts_of(dir) by {
            if q == p {
                assert(list[p].agents[i] == list[q].agents[i]);
            }
        }
    }
}

proof fn lemma_worker_found(list: Seq<records::Agent>, i: int, dir: Seq<char>)
    requires
        0 <= i,
        tasks::worker_from(list, i, dir) is None,
    ensures
        forall|k: int|
            i <= k < list.len() ==> paths::parts_of((#[trigger] list[k]).workdir)
                != paths::parts_of(dir),
    decreases list.len() - i,
{
    if i < list.len() {
        lemma_worker_found(list, i + 1, dir);
    }
}

proof fn lemma_project_found(list: Seq<records::Project>, p: int, path: Seq<char>)
    requires
        0 <= p,
    ensures
        tasks::project_from(list, p, path) matches Some(at) ==> p <= at < list.len()
            && paths::parts_of(list[at].path) == paths::parts_of(path),
    decreases list.len() - p,
{
    if p < list.len() {
        lemma_project_found(list, p + 1, path);
    }
}

/// A spawn comes to an agent exactly where a workspace was found, nobody works
/// in it, and the project is still there.
pub proof fn spawns_are_accepted_where_they_can_be(
    d: desk::Desk,
    project_path: Seq<char>,
    place: resolve::Place,
    error: Seq<char>,
    at: int,
)
    ensures
        !tasks::accepted(d, project_path, Err(error)),
        vacant(d.session.projects, place.workdir) && is_project(
            d.session.projects,
            at,
            project_path,
        ) ==> tasks::accepted(d, project_path, Ok(place)),
        tasks::accepted(d, project_path, Ok(place)) ==> vacant(d.session.projects, place.workdir),
        tasks::accepted(d, project_path, Ok(place)) ==> exists|p: int|
            0 <= p < d.session.projects.len() && paths::parts_of(
                (#[trigger] d.session.projects[p]).path,
            ) == paths::parts_of(project_path),
{
    let list = d.session.projects;
    if vacant(list, place.workdir) {
        lemma_unoccupied(list, 0, place.workdir);
    }
    if is_project(list, at, project_path) {
        lemma_project_is(list, 0, at, project_path);
    }
    if tasks::occupant(list, place.workdir) is None {
        lemma_nobody(list, 0, place.workdir);
    }
    lemma_project_found(list, 0, project_path);
}

} // verus!
