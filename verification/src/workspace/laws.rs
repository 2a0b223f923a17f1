//! What holds of the workspace as a whole: over several steps, or of every
//! state.

use vstd::prelude::*;

use crate::dialogs;
use crate::planner::resolve;
use crate::state::records;
use crate::workspace::agents;
use crate::workspace::desk;
use crate::workspace::env;
use crate::workspace::spawn;
use crate::workspace::tasks;

verus! {

// ---- Commands ----

/// The task is appended to the command: whatever the command is, if it runs at
/// all, the task is its last argument.
pub proof fn the_task_is_the_last_argument(
    command: Seq<char>,
    task: Seq<char>,
    vars: desk::Pairs,
    process_env: desk::Pairs,
)
    ensures
        spawn::agent_launch(command, seq![task], vars, process_env) matches Ok(launch)
            ==> launch.args.len() > 0 && launch.args.last() == task,
{
}

/// The override for tests replaces the configured command entirely.
pub proof fn the_override_replaces_the_command(
    one: Seq<char>,
    other: Seq<char>,
    extra_args: Seq<Seq<char>>,
    vars: desk::Pairs,
    process_env: desk::Pairs,
)
    requires
        env::value_from(process_env, 0, "HARMONIUM_AGENT_BIN"@) is Some,
    ensures
        spawn::agent_launch(one, extra_args, vars, process_env) == spawn::agent_launch(
            other,
            extra_args,
            vars,
            process_env,
        ),
{
}

/// What runs an agent keeps the environment of its task: it only adds to it.
pub proof fn agents_keep_the_task_environment(
    command: Seq<char>,
    extra_args: Seq<Seq<char>>,
    vars: desk::Pairs,
    process_env: desk::Pairs,
)
    ensures
        spawn::agent_launch(command, extra_args, vars, process_env) matches Ok(launch)
            ==> launch.env.len() >= vars.len() && launch.env.take(vars.len() as int) == vars,
{
    if let Ok(launch) = spawn::agent_launch(command, extra_args, vars, process_env) {
        assert(launch.env.take(vars.len() as int) =~= vars);
    }
}

// ---- Spawning ----

/// An agent is resumed with the setup it was spawned with: its record holds
/// the preset's commands and environment, whatever becomes of the preset.
pub proof fn resumes_use_the_same_setup(
    program: Seq<char>,
    id: Seq<char>,
    task: Seq<char>,
    place: resolve::Place,
    preset: records::Preset,
)
    ensures
        agents::resume_of(program, tasks::new_agent(id, task, place, preset))
            == records::resume_line(preset.command),
        agents::env_field(tasks::new_agent(id, task, place, preset)) == preset.env,
        tasks::new_agent(id, task, place, preset).command == Some(preset.command),
{
}

/// Where planning fails, no agent is created and nothing is started. The
/// dialog stays open, ready for another try, and says what went wrong.
pub proof fn a_failed_plan_creates_nothing(
    t: desk::Turn,
    project_path: Seq<char>,
    task: Seq<char>,
    preset: records::Preset,
    error: Seq<char>,
    id: Seq<char>,
    process_env: desk::Pairs,
)
    ensures
        ({
            let after = tasks::spawn_settled(
                t,
                project_path,
                task,
                preset,
                Err(error),
                id,
                process_env,
            ).desk;
            &&& after.session == t.desk.session
            &&& after.live == t.desk.live
            &&& after.selected == t.desk.selected
            &&& t.desk.dialog matches Some(desk::Sheet::NewAgent(before))
                ==> after.dialog matches Some(desk::Sheet::NewAgent(now)) && !now.planning
                && now.error == Some(error) && now.project_path == before.project_path
                && now.preset == before.preset && now.workspace_mode == before.workspace_mode
        }),
{
}

/// While a task is being planned, no second one is begun from the same dialog.
pub proof fn one_plan_at_a_time(t: desk::Turn)
    requires
        t.desk.dialog matches Some(desk::Sheet::NewAgent(_)),
    ensures
        tasks::spawn_begun(tasks::spawn_begun(t)) == tasks::spawn_begun(t),
{
    if let Some(desk::Sheet::NewAgent(a)) = t.desk.dialog {
        if !a.planning {
            let once = tasks::spawn_begun(t);
            assert(once.desk.dialog == tasks::planning_sheet(t.desk.dialog));
        }
    }
}

/// The preset that a task was spawned with is preselected for the next one,
/// as long as it is in the list; the workspace is not.
pub proof fn the_last_preset_is_preselected(
    t: desk::Turn,
    project_path: Seq<char>,
    group: Option<Seq<char>>,
)
    requires
        tasks::spawn_choice(t.desk) matches Some((index, _)) && 0 <= index
            < t.desk.session.settings.presets.len(),
    ensures
        ({
            let next = dialogs::asking(
                project_path,
                group,
                tasks::spawn_begun(t).desk.session.settings,
            );
            &&& tasks::spawn_choice(t.desk) matches Some((index, _)) && next.preset == index
            &&& next.workspace_mode == records::WorkspaceMode::Auto
        }),
{
}

// ---- Restoring and resuming ----

proof fn lemma_missing_keeps(
    t: desk::Turn,
    tabs: Seq<records::Tab>,
    workdir: Seq<char>,
    vars: desk::Pairs,
)
    ensures
        agents::missing_shells(t, tabs, workdir, vars).desk.restored == t.desk.restored,
        agents::missing_shells(t, tabs, workdir, vars).desk.session == t.desk.session,
        agents::missing_shells(t, tabs, workdir, vars).desk.outgoing == t.desk.outgoing,
        t.desk.live.subset_of(agents::missing_shells(t, tabs, workdir, vars).desk.live),
        forall|k: int|
            0 <= k < tabs.len() ==> agents::missing_shells(
                t,
                tabs,
                workdir,
                vars,
            ).desk.live.contains((#[trigger] tabs[k]).id),
    decreases tabs.len(),
{
    if tabs.len() > 0 {
        let rest = tabs.drop_last();
        lemma_missing_keeps(t, rest, workdir, vars);
        assert forall|k: int| 0 <= k < tabs.len() implies agents::missing_shells(
            t,
            tabs,
            workdir,
            vars,
        ).desk.live.contains((#[trigger] tabs[k]).id) by {
            if k < rest.len() {
                assert(rest[k] == tabs[k]);
            }
        }
    }
}

proof fn lemma_all_keeps(
    t: desk::Turn,
    tabs: Seq<records::Tab>,
    workdir: Seq<char>,
    vars: desk::Pairs,
)
    ensures
        agents::all_shells(t, tabs, workdir, vars).desk.outgoing == t.desk.outgoing,
        agents::all_shells(t, tabs, workdir, vars).desk.session == t.desk.session,
    decreases tabs.len(),
{
    if tabs.len() > 0 {
        lemma_all_keeps(t, tabs.drop_last(), workdir, vars);
    }
}

proof fn lemma_saved_outgoing(t: desk::Turn, tabs: Seq<records::Tab>)
    ensures
        agents::saved_shells(t, tabs).desk.outgoing == t.desk.outgoing,
        agents::saved_shells(t, tabs).desk.session == t.desk.session,
    decreases tabs.len(),
{
    if tabs.len() > 0 {
        lemma_saved_outgoing(t, tabs.drop_last());
    }
}

/// An agent is restored once: doing it again changes nothing, and starts
/// nothing.
pub proof fn restoring_is_done_once(t: desk::Turn, id: Seq<char>, process_env: desk::Pairs)
    ensures
        agents::restored(agents::restored(t, id, process_env), id, process_env)
            == agents::restored(t, id, process_env),
{
    let projects = t.desk.session.projects;
    if let Some((p, i)) = records::agent_at(projects, id) {
        if !t.desk.restored.contains(id) {
            let a = projects[p].agents[i];
            let vars = agents::task_vars(projects[p], a, process_env);
            let read = agents::env_read(agents::marked(t, id), id);
            let session = if read.desk.live.contains(a.id) {
                read
            } else {
                read.agent(
                    a.id,
                    agents::resume_of(t.desk.program, a),
                    Seq::empty(),
                    a.workdir,
                    vars,
                    process_env,
                )
            };
            lemma_missing_keeps(session, a.terminals, a.workdir, vars);
            assert(agents::restored(t, id, process_env).desk.restored.contains(id));
        }
    }
}

/// Restoring an agent brings back a shell in each of its tabs.
pub proof fn restoring_brings_back_every_tab(
    t: desk::Turn,
    id: Seq<char>,
    process_env: desk::Pairs,
    k: int,
)
    requires
        !t.desk.restored.contains(id),
        records::agent_at(t.desk.session.projects, id) matches Some((p, i)) && 0 <= k
            < t.desk.session.projects[p].agents[i].terminals.len(),
    ensures
        records::agent_at(t.desk.session.projects, id) matches Some((p, i)) && agents::restored(
            t,
            id,
            process_env,
        ).desk.live.contains(t.desk.session.projects[p].agents[i].terminals[k].id),
{
    let projects = t.desk.session.projects;
    if let Some((p, i)) = records::agent_at(projects, id) {
        let a = projects[p].agents[i];
        let vars = agents::task_vars(projects[p], a, process_env);
        let read = agents::env_read(agents::marked(t, id), id);
        let session = if read.desk.live.contains(a.id) {
            read
        } else {
            read.agent(a.id, agents::resume_of(t.desk.program, a), Seq::empty(), a.workdir, vars, process_env)
        };
        lemma_missing_keeps(session, a.terminals, a.workdir, vars);
    }
}

/// Only the agent's own screen is kept while it is resumed: its shells are
/// closed, saved, and started anew, so that no two share a history file.
pub proof fn only_the_agents_screen_is_kept(
    t: desk::Turn,
    id: Seq<char>,
    process_env: desk::Pairs,
    other: Seq<char>,
)
    requires
        other != id,
    ensures
        agents::resumed(t, id, process_env).desk.outgoing.contains(other)
            == t.desk.outgoing.contains(other),
{
    let projects = t.desk.session.projects;
    if let Some((p, i)) = records::agent_at(projects, id) {
        let a = projects[p].agents[i];
        let vars = agents::task_vars(projects[p], a, process_env);
        let down = agents::saved_shells(agents::superseded(t, id), a.terminals);
        lemma_saved_outgoing(agents::superseded(t, id), a.terminals);
        let up = agents::env_read(down.logged(agents::resuming(t.desk.program, a)), id).agent(
            id,
            agents::resume_of(t.desk.program, a),
            Seq::empty(),
            a.workdir,
            vars,
            process_env,
        );
        lemma_all_keeps(agents::unless_live(up, id), a.terminals, a.workdir, vars);
    }
}

/// Resuming never changes what is saved of the session.
pub proof fn resuming_keeps_the_session(t: desk::Turn, id: Seq<char>, process_env: desk::Pairs)
    ensures
        agents::resumed(t, id, process_env).desk.session == t.desk.session,
{
    let projects = t.desk.session.projects;
    if let Some((p, i)) = records::agent_at(projects, id) {
        let a = projects[p].agents[i];
        let vars = agents::task_vars(projects[p], a, process_env);
        let down = agents::saved_shells(agents::superseded(t, id), a.terminals);
        lemma_saved_outgoing(agents::superseded(t, id), a.terminals);
        let up = agents::env_read(down.logged(agents::resuming(t.desk.program, a)), id).agent(
            id,
            agents::resume_of(t.desk.program, a),
            Seq::empty(),
            a.workdir,
            vars,
            process_env,
        );
        lemma_all_keeps(agents::unless_live(up, id), a.terminals, a.workdir, vars);
    }
}

} // verus!
