//! What becomes of agents, tabs and projects when they are restored, resumed,
//! opened, closed, moved and removed, said of the session before and after.

use vstd::prelude::*;

use crate::log::Level;
use crate::paths;
use crate::state::edits;
use crate::state::records;
use crate::text;
use crate::text_laws;
use crate::workspace::agents;
use crate::workspace::desk;
use crate::workspace::env;
use crate::workspace::order;
use crate::workspace::projects;
use crate::workspace::removal;
use crate::workspace::spawn;
use crate::workspace::spawning;
use crate::workspace::tabs;
use crate::workspace::tasks;

verus! {

// ---- Terminals ----

/// Whether every effect that was listed still is, in its place.
pub open spec fn continues(after: desk::Turn, before: desk::Turn) -> bool {
    before.acts.len() <= after.acts.len() && after.acts.take(before.acts.len() as int)
        == before.acts
}

proof fn lemma_continues(a: desk::Turn, b: desk::Turn, c: desk::Turn)
    requires
        continues(b, a),
        continues(c, b),
    ensures
        continues(c, a),
{
    assert(c.acts.take(a.acts.len() as int) =~= b.acts.take(a.acts.len() as int));
}

proof fn lemma_stays_listed(after: desk::Turn, before: desk::Turn, act: desk::Act)
    requires
        continues(after, before),
        before.acts.contains(act),
    ensures
        after.acts.contains(act),
{
    let k = choose|k: int| 0 <= k < before.acts.len() && before.acts[k] == act;
    assert(after.acts[k] == after.acts.take(before.acts.len() as int)[k]);
}

proof fn lemma_one_more(t: desk::Turn, u: desk::Turn, act: desk::Act)
    requires
        u.acts == t.acts.push(act),
    ensures
        continues(u, t),
        u.acts.contains(act),
{
    assert(u.acts.take(t.acts.len() as int) =~= t.acts);
    assert(u.acts[t.acts.len() as int] == act);
}

proof fn lemma_all_started(
    t: desk::Turn,
    list: Seq<records::Tab>,
    workdir: Seq<char>,
    vars: desk::Pairs,
)
    ensures
        ({
            let up = agents::all_shells(t, list, workdir, vars);
            &&& continues(up, t)
            &&& forall|k: int|
                0 <= k < list.len() ==> up.desk.live.contains((#[trigger] list[k]).id)
                    && up.acts.contains(
                    desk::Act::SpawnShell { id: list[k].id, workdir, env: vars },
                )
            &&& t.desk.live.subset_of(up.desk.live)
            &&& up.desk == (desk::Desk { live: up.desk.live, exited: up.desk.exited, ..t.desk })
        }),
    decreases list.len(),
{
    if list.len() == 0 {
        assert(t.acts.take(t.acts.len() as int) =~= t.acts);
    } else {
        let front = list.drop_last();
        let before = agents::all_shells(t, front, workdir, vars);
        let up = agents::all_shells(t, list, workdir, vars);
        lemma_all_started(t, front, workdir, vars);
        let act = desk::Act::SpawnShell { id: list.last().id, workdir, env: vars };
        lemma_one_more(before, up, act);
        lemma_continues(t, before, up);
        assert forall|k: int| 0 <= k < list.len() implies up.desk.live.contains(
            (#[trigger] list[k]).id,
        ) && up.acts.contains(desk::Act::SpawnShell { id: list[k].id, workdir, env: vars }) by {
            if k < front.len() {
                assert(front[k] == list[k]);
                lemma_stays_listed(
                    up,
                    before,
                    desk::Act::SpawnShell { id: list[k].id, workdir, env: vars },
                );
            }
        }
    }
}

proof fn lemma_missing_started(
    t: desk::Turn,
    list: Seq<records::Tab>,
    workdir: Seq<char>,
    vars: desk::Pairs,
)
    ensures
        ({
            let up = agents::missing_shells(t, list, workdir, vars);
            &&& continues(up, t)
            &&& forall|k: int|
                0 <= k < list.len() ==> up.desk.live.contains((#[trigger] list[k]).id) && (
                !t.desk.live.contains(list[k].id) ==> up.acts.contains(
                    desk::Act::SpawnShell { id: list[k].id, workdir, env: vars },
                ))
            &&& t.desk.live.subset_of(up.desk.live)
            &&& forall|id: Seq<char>|
                #[trigger] up.desk.live.contains(id) && !t.desk.live.contains(id)
                    ==> up.acts.contains(desk::Act::SpawnShell { id, workdir, env: vars })
            &&& up.desk == (desk::Desk { live: up.desk.live, exited: up.desk.exited, ..t.desk })
        }),
    decreases list.len(),
{
    if list.len() == 0 {
        assert(t.acts.take(t.acts.len() as int) =~= t.acts);
    } else {
        let front = list.drop_last();
        let before = agents::missing_shells(t, front, workdir, vars);
        let up = agents::missing_shells(t, list, workdir, vars);
        lemma_missing_started(t, front, workdir, vars);
        let act = desk::Act::SpawnShell { id: list.last().id, workdir, env: vars };
        if !before.desk.live.contains(list.last().id) {
            lemma_one_more(before, up, act);
            lemma_continues(t, before, up);
        } else {
            assert(continues(up, before)) by {
                assert(up.acts.take(up.acts.len() as int) =~= up.acts);
            }
        }
        assert forall|id: Seq<char>| #[trigger]
            up.desk.live.contains(id) && !t.desk.live.contains(id) implies up.acts.contains(
            desk::Act::SpawnShell { id, workdir, env: vars },
        ) by {
            if before.desk.live.contains(id) {
                lemma_stays_listed(up, before, desk::Act::SpawnShell { id, workdir, env: vars });
            }
        }
        assert forall|k: int| 0 <= k < list.len() implies up.desk.live.contains(
            (#[trigger] list[k]).id,
        ) && (!t.desk.live.contains(list[k].id) ==> up.acts.contains(
            desk::Act::SpawnShell { id: list[k].id, workdir, env: vars },
        )) by {
            if k < front.len() {
                assert(front[k] == list[k]);
            }
            assert(up.desk.live.contains(list[k].id));
        }
    }
}

proof fn lemma_all_saved(t: desk::Turn, list: Seq<records::Tab>)
    ensures
        ({
            let down = agents::saved_shells(t, list);
            &&& continues(down, t)
            &&& forall|k: int|
                0 <= k < list.len() ==> !down.desk.live.contains((#[trigger] list[k]).id) && (
                t.desk.live.contains(list[k].id) ==> down.acts.contains(
                    desk::Act::SaveAndClose(list[k].id),
                ))
            &&& down.desk.live.subset_of(t.desk.live)
            &&& forall|id: Seq<char>|
                t.desk.live.contains(id) && !(#[trigger] down.desk.live.contains(id))
                    ==> down.acts.contains(desk::Act::SaveAndClose(id))
            &&& down.desk == (desk::Desk { live: down.desk.live, ..t.desk })
        }),
    decreases list.len(),
{
    if list.len() == 0 {
        assert(t.acts.take(t.acts.len() as int) =~= t.acts);
    } else {
        let front = list.drop_last();
        let before = agents::saved_shells(t, front);
        let down = agents::saved_shells(t, list);
        lemma_all_saved(t, front);
        let act = desk::Act::SaveAndClose(list.last().id);
        if before.desk.live.contains(list.last().id) {
            lemma_one_more(before, down, act);
            lemma_continues(t, before, down);
        } else {
            assert(continues(down, before)) by {
                assert(down.acts.take(down.acts.len() as int) =~= down.acts);
            }
        }
        assert forall|id: Seq<char>|
            t.desk.live.contains(id) && !(#[trigger] down.desk.live.contains(id)) implies down.acts.contains(
            desk::Act::SaveAndClose(id),
        ) by {
            if !before.desk.live.contains(id) {
                lemma_stays_listed(down, before, desk::Act::SaveAndClose(id));
            }
        }
        assert forall|k: int| 0 <= k < list.len() implies !down.desk.live.contains(
            (#[trigger] list[k]).id,
        ) && (t.desk.live.contains(list[k].id) ==> down.acts.contains(
            desk::Act::SaveAndClose(list[k].id),
        )) by {
            if k < front.len() {
                assert(front[k] == list[k]);
            }
            assert(!down.desk.live.contains(list[k].id));
        }
    }
}

// ---- Restoring and resuming ----

/// The command line that brings an agent's session back: the one kept with it,
/// or else the agent CLI's own.
pub open spec fn comes_back_by(program: Seq<char>, a: records::Agent) -> Seq<char> {
    match a.resume_command {
        Some(line) => line,
        None => program + " "@ + "--continue"@,
    }
}

/// The environment of an agent's processes: what describes its task, and behind
/// that what its own field sets.
pub open spec fn surroundings(
    project: records::Project,
    a: records::Agent,
    process_env: desk::Pairs,
) -> desk::Pairs {
    let task = env::provided(project.path, a.workdir, a.branch);
    task + env::assigned(
        crate::planner::command::command_words(
            match a.env {
                Some(field) => field,
                None => Seq::empty(),
            },
        ),
        task,
        process_env,
    )
}

/// Resuming an agent starts its session anew by its resume command, and a shell
/// in each of its tabs, all in its directory and with its environment. What was
/// live of it is shut down first: its own terminal with its last screen kept,
/// its shells with their histories saved. Its own tab is shown, and what is
/// saved of the session stays as it was.
pub proof fn resuming_starts_everything_anew(
    t: desk::Turn,
    id: Seq<char>,
    process_env: desk::Pairs,
    p: int,
    i: int,
    k: int,
)
    requires
        records::agent_at(t.desk.session.projects, id) == Some((p, i)),
        spawn::agent_launch(
            comes_back_by(t.desk.program, t.desk.session.projects[p].agents[i]),
            Seq::empty(),
            surroundings(
                t.desk.session.projects[p],
                t.desk.session.projects[p].agents[i],
                process_env,
            ),
            process_env,
        ) is Ok,
        forall|j: int|
            0 <= j < t.desk.session.projects[p].agents[i].terminals.len() ==> (
            #[trigger] t.desk.session.projects[p].agents[i].terminals[j]).id != id,
    ensures
        ({
            let a = t.desk.session.projects[p].agents[i];
            let vars = surroundings(t.desk.session.projects[p], a, process_env);
            let launch = spawn::agent_launch(
                comes_back_by(t.desk.program, a),
                Seq::empty(),
                vars,
                process_env,
            )->Ok_0;
            let after = agents::resumed(t, id, process_env);
            &&& after.desk.session == t.desk.session
            &&& after.desk.selected == t.desk.selected
            &&& after.desk.dialog == t.desk.dialog
            &&& after.desk.live.contains(id)
            &&& after.desk.restored == t.desk.restored.insert(id)
            &&& after.desk.active == t.desk.active.insert(id, id)
            &&& t.desk.live.contains(id) ==> after.desk.outgoing.contains(id)
                && after.acts.contains(desk::Act::Supersede(id))
            &&& continues(after, t)
            &&& after.acts.contains(
                desk::Act::SpawnAgent { id, spawn: launch, workdir: a.workdir },
            )
            &&& 0 <= k < a.terminals.len() ==> {
                &&& after.desk.live.contains(a.terminals[k].id)
                &&& after.acts.contains(
                    desk::Act::SpawnShell {
                        id: a.terminals[k].id,
                        workdir: a.workdir,
                        env: vars,
                    },
                )
                &&& t.desk.live.contains(a.terminals[k].id) ==> after.acts.contains(
                    desk::Act::SaveAndClose(a.terminals[k].id),
                )
            }
        }),
{
    let a = t.desk.session.projects[p].agents[i];
    let vars = agents::task_vars(t.desk.session.projects[p], a, process_env);
    assert(vars == surroundings(t.desk.session.projects[p], a, process_env));
    let over = agents::superseded(t, id);
    if t.desk.live.contains(id) {
        lemma_one_more(t, over, desk::Act::Supersede(id));
    } else {
        assert(continues(over, t)) by {
            assert(t.acts.take(t.acts.len() as int) =~= t.acts);
        }
    }
    let down = agents::saved_shells(over, a.terminals);
    lemma_all_saved(over, a.terminals);
    lemma_continues(t, over, down);
    let noted = down.logged(agents::resuming(t.desk.program, a));
    lemma_one_more(down, noted, noted.acts.last());
    let read = agents::env_read(noted, id);
    assert(continues(read, noted)) by {
        assert(read.acts.take(noted.acts.len() as int) =~= noted.acts);
    }
    let up = read.agent(
        id,
        agents::resume_of(t.desk.program, a),
        Seq::empty(),
        a.workdir,
        vars,
        process_env,
    );
    let launch = spawn::agent_launch(
        comes_back_by(t.desk.program, a),
        Seq::empty(),
        vars,
        process_env,
    )->Ok_0;
    assert(agents::resume_of(t.desk.program, a) == comes_back_by(t.desk.program, a));
    let act = desk::Act::SpawnAgent { id, spawn: launch, workdir: a.workdir };
    lemma_one_more(read, up, act);
    lemma_continues(down, noted, read);
    lemma_continues(down, read, up);
    lemma_continues(t, down, up);
    let kept = agents::unless_live(up, id);
    assert(kept == up);
    let all = agents::all_shells(up, a.terminals, a.workdir, vars);
    lemma_all_started(up, a.terminals, a.workdir, vars);
    lemma_continues(t, up, all);
    lemma_continues(down, up, all);
    let after = agents::resumed(t, id, process_env);
    assert(after.acts == all.acts);
    assert(continues(after, t));
    lemma_stays_listed(after, up, act);
    assert(continues(after, down));
    lemma_continues(over, down, after);
    if t.desk.live.contains(id) {
        lemma_stays_listed(after, over, desk::Act::Supersede(id));
    }
    if 0 <= k < a.terminals.len() {
        assert(a.terminals[k].id != id);
        if t.desk.live.contains(a.terminals[k].id) {
            assert(over.desk.live.contains(a.terminals[k].id));
            lemma_stays_listed(after, down, desk::Act::SaveAndClose(a.terminals[k].id));
        }
    }
}

/// Selecting an agent for the first time brings back what is not live of it:
/// its session by its resume command, and a shell in each of its tabs, in its
/// directory and with its environment.
pub proof fn selecting_brings_an_agent_back(
    t: desk::Turn,
    id: Seq<char>,
    process_env: desk::Pairs,
    p: int,
    i: int,
    k: int,
)
    requires
        records::agent_at(t.desk.session.projects, id) == Some((p, i)),
        !t.desk.restored.contains(id),
        spawn::agent_launch(
            comes_back_by(t.desk.program, t.desk.session.projects[p].agents[i]),
            Seq::empty(),
            surroundings(
                t.desk.session.projects[p],
                t.desk.session.projects[p].agents[i],
                process_env,
            ),
            process_env,
        ) is Ok,
    ensures
        ({
            let a = t.desk.session.projects[p].agents[i];
            let vars = surroundings(t.desk.session.projects[p], a, process_env);
            let launch = spawn::agent_launch(
                comes_back_by(t.desk.program, a),
                Seq::empty(),
                vars,
                process_env,
            )->Ok_0;
            let after = agents::chosen(t, id, process_env);
            &&& after.desk.session == t.desk.session
            &&& after.desk.selected == Some(id)
            &&& after.desk.editing is None
            &&& after.desk.dialog == t.desk.dialog
            &&& after.desk.live.contains(id)
            &&& t.desk.live.subset_of(after.desk.live)
            &&& after.desk.restored == t.desk.restored.insert(id)
            &&& continues(after, t)
            &&& t.desk.active.dom().contains(id) ==> after.desk.active == t.desk.active
            &&& !t.desk.active.dom().contains(id) ==> after.desk.active
                == t.desk.active.insert(id, id)
            &&& !t.desk.live.contains(id) ==> after.acts.contains(
                desk::Act::SpawnAgent { id, spawn: launch, workdir: a.workdir },
            )
            &&& 0 <= k < a.terminals.len() ==> {
                &&& after.desk.live.contains(a.terminals[k].id)
                &&& !t.desk.live.contains(a.terminals[k].id) && a.terminals[k].id != id
                    ==> after.acts.contains(
                    desk::Act::SpawnShell {
                        id: a.terminals[k].id,
                        workdir: a.workdir,
                        env: vars,
                    },
                )
            }
            &&& after.desk.live.contains(desk::active_tab(after.desk, id)) ==> after.acts.last()
                == desk::Act::Focus(desk::active_tab(after.desk, id))
        }),
{
    records::lemma_agent_from(t.desk.session.projects, 0, id);
    let a = t.desk.session.projects[p].agents[i];
    let vars = agents::task_vars(t.desk.session.projects[p], a, process_env);
    assert(vars == surroundings(t.desk.session.projects[p], a, process_env));
    let picked = desk::Turn {
        desk: desk::Desk { selected: Some(id), editing: None, ..t.desk },
        ..t
    };
    assert(continues(picked, t)) by {
        assert(t.acts.take(t.acts.len() as int) =~= t.acts);
    }
    let read = agents::env_read(agents::marked(picked, id), id);
    assert(continues(read, picked)) by {
        assert(read.acts.take(picked.acts.len() as int) =~= picked.acts);
    }
    let launch = spawn::agent_launch(
        comes_back_by(t.desk.program, a),
        Seq::empty(),
        vars,
        process_env,
    )->Ok_0;
    assert(agents::resume_of(t.desk.program, a) == comes_back_by(t.desk.program, a));
    let act = desk::Act::SpawnAgent { id, spawn: launch, workdir: a.workdir };
    let session = if read.desk.live.contains(a.id) {
        read
    } else {
        read.agent(
            a.id,
            agents::resume_of(t.desk.program, a),
            Seq::empty(),
            a.workdir,
            vars,
            process_env,
        )
    };
    if !read.desk.live.contains(a.id) {
        lemma_one_more(read, session, act);
    } else {
        assert(continues(session, read)) by {
            assert(read.acts.take(read.acts.len() as int) =~= read.acts);
        }
    }
    let all = agents::missing_shells(session, a.terminals, a.workdir, vars);
    lemma_missing_started(session, a.terminals, a.workdir, vars);
    let restored = agents::restored(picked, id, process_env);
    assert(restored.acts == all.acts);
    assert(restored.desk.live == all.desk.live);
    lemma_continues(t, picked, read);
    lemma_continues(t, read, session);
    lemma_continues(t, session, all);
    let after = agents::chosen(t, id, process_env);
    let tab = desk::active_tab(restored.desk, id);
    if restored.desk.live.contains(tab) {
        lemma_one_more(restored, after, desk::Act::Focus(tab));
    } else {
        assert(continues(after, restored)) by {
            assert(restored.acts.take(restored.acts.len() as int) =~= restored.acts);
        }
    }
    assert(continues(restored, session));
    lemma_continues(session, restored, after);
    lemma_continues(t, session, after);
    if !t.desk.live.contains(id) {
        lemma_stays_listed(after, session, act);
    }
    if 0 <= k < a.terminals.len() {
        if !t.desk.live.contains(a.terminals[k].id) && a.terminals[k].id != id {
            assert(!session.desk.live.contains(a.terminals[k].id));
            lemma_stays_listed(
                after,
                restored,
                desk::Act::SpawnShell { id: a.terminals[k].id, workdir: a.workdir, env: vars },
            );
        }
    }
}

/// The agent that an id stands for has that id, and there is none where nothing
/// is found.
pub proof fn agents_are_found_by_id(list: Seq<records::Project>, id: Seq<char>)
    ensures
        match records::agent_at(list, id) {
            Some((p, i)) => 0 <= p < list.len() && 0 <= i < list[p].agents.len()
                && list[p].agents[i].id == id,
            None => spawning::unused(list, id),
        },
{
    records::lemma_agent_from(list, 0, id);
}

// ---- Tabs ----

/// A new tab of an agent is its last one and the one shown, called "Shell" and
/// its number, with a shell in the agent's directory and environment. No other
/// agent changes.
pub proof fn a_new_tab_is_a_shell(
    t: desk::Turn,
    agent: Seq<char>,
    tab_id: Seq<char>,
    process_env: desk::Pairs,
    p: int,
    i: int,
)
    requires
        records::agent_at(t.desk.session.projects, agent) == Some((p, i)),
        t.desk.restored.contains(agent),
    ensures
        ({
            let a = t.desk.session.projects[p].agents[i];
            let after = tabs::next_tab_opened(t, agent, tab_id, process_env);
            let number = text::decimal_of((a.terminals.len() + 1) as nat);
            &&& after.desk.session.projects[p].agents[i] == (records::Agent {
                terminals: a.terminals.push(
                    records::Tab { id: tab_id, name: "Shell "@ + number },
                ),
                ..a
            })
            &&& text_laws::number(number) == a.terminals.len() + 1
            &&& forall|q: int, j: int|
                0 <= q < t.desk.session.projects.len() && 0 <= j
                    < t.desk.session.projects[q].agents.len() && (q != p || j != i) ==> (
                #[trigger] after.desk.session.projects[q].agents[j])
                    == t.desk.session.projects[q].agents[j]
            &&& after.desk.session.settings == t.desk.session.settings
            &&& after.desk.live == t.desk.live.insert(tab_id)
            &&& after.desk.active[agent] == tab_id
            &&& after.desk.selected == Some(agent)
            &&& after.acts.contains(
                desk::Act::SpawnShell {
                    id: tab_id,
                    workdir: a.workdir,
                    env: surroundings(t.desk.session.projects[p], a, process_env),
                },
            )
            &&& after.acts.last() == desk::Act::Persist
            &&& after.acts.contains(desk::Act::Focus(tab_id))
        }),
{
    records::lemma_agent_from(t.desk.session.projects, 0, agent);
    let a = t.desk.session.projects[p].agents[i];
    let vars = agents::task_vars(t.desk.session.projects[p], a, process_env);
    text_laws::decimals_stand_for_their_number((a.terminals.len() + 1) as nat);
    let tab = records::Tab { id: tab_id, name: tabs::next_name(a) };
    let read = agents::env_read(t, agent);
    let up = read.shell(tab_id, a.workdir, vars);
    let act = desk::Act::SpawnShell { id: tab_id, workdir: a.workdir, env: vars };
    lemma_one_more(read, up, act);
    let with = desk::Turn {
        desk: desk::Desk {
            session: edits::changed(up.desk.session, agent, edits::adding(tab)),
            active: up.desk.active.insert(agent, tab.id),
            ..up.desk
        },
        ..up
    };
    let picked = desk::Turn {
        desk: desk::Desk { selected: Some(agent), editing: None, ..with.desk },
        ..with
    };
    assert(agents::restored(picked, agent, process_env) == picked);
    let seen = agents::chosen(with, agent, process_env);
    assert(desk::active_tab(picked.desk, agent) == tab_id);
    lemma_one_more(picked, seen, desk::Act::Focus(tab_id));
    let after = tabs::next_tab_opened(t, agent, tab_id, process_env);
    assert(after == seen.act(desk::Act::Persist));
    lemma_one_more(seen, after, desk::Act::Persist);
    lemma_stays_listed(after, seen, desk::Act::Focus(tab_id));
    assert(continues(seen, up));
    lemma_continues(up, seen, after);
    lemma_stays_listed(after, up, act);
}

/// Closing a tab takes it from its agent and shuts its shell down; the other
/// tabs stay, and the agent's own tab is shown where the closed one was. An
/// agent's own tab cannot be closed.
pub proof fn a_closed_tab_is_gone(t: desk::Turn, agent: Seq<char>, tab: Seq<char>, p: int, i: int)
    requires
        records::agent_at(t.desk.session.projects, agent) == Some((p, i)),
        tab != agent,
    ensures
        ({
            let a = t.desk.session.projects[p].agents[i];
            let after = tabs::tab_closed(t, agent, tab);
            let now = after.desk.session.projects[p].agents[i];
            &&& tabs::tab_closed(t, agent, agent) == t
            &&& now == (records::Agent { terminals: now.terminals, ..a })
            &&& now.terminals == a.terminals.filter(|x: records::Tab| x.id != tab)
            &&& forall|q: int, j: int|
                0 <= q < t.desk.session.projects.len() && 0 <= j
                    < t.desk.session.projects[q].agents.len() && (q != p || j != i) ==> (
                #[trigger] after.desk.session.projects[q].agents[j])
                    == t.desk.session.projects[q].agents[j]
            &&& after.desk.live == t.desk.live.remove(tab)
            &&& t.desk.live.contains(tab) ==> after.acts == t.acts.push(
                desk::Act::Discard(tab),
            ).push(desk::Act::Persist)
            &&& !t.desk.live.contains(tab) ==> after.acts == t.acts.push(desk::Act::Persist)
            &&& desk::active_tab(after.desk, agent) == (if desk::active_tab(t.desk, agent) == tab {
                agent
            } else {
                desk::active_tab(t.desk, agent)
            })
            &&& after.desk.selected == t.desk.selected
        }),
{
    records::lemma_agent_from(t.desk.session.projects, 0, agent);
    if !t.desk.live.contains(tab) {
        assert(t.desk.live.remove(tab) =~= t.desk.live);
    }
}

// ---- Removing an agent ----

/// An agent's worktree is checked, and deleted with it, exactly where it is the
/// agent's alone: it has a branch of its own, is there, is not the project's
/// checkout, and no other agent works in it. Until it was checked, nothing
/// changes.
pub proof fn own_worktrees_go_with_their_agent(
    t: desk::Turn,
    id: Seq<char>,
    is_dir: bool,
    p: int,
    i: int,
)
    requires
        records::agent_at(t.desk.session.projects, id) == Some((p, i)),
    ensures
        ({
            let project = t.desk.session.projects[p];
            let a = project.agents[i];
            let alone = forall|q: int, j: int|
                0 <= q < t.desk.session.projects.len() && 0 <= j
                    < t.desk.session.projects[q].agents.len() && (
                #[trigger] t.desk.session.projects[q].agents[j]).id != id ==> paths::parts_of(
                    t.desk.session.projects[q].agents[j].workdir,
                ) != paths::parts_of(a.workdir);
            let own = a.branch is Some && is_dir && paths::parts_of(a.workdir) != paths::parts_of(
                project.path,
            ) && alone;
            &&& removal::to_check(t.desk, id, is_dir) == (if own {
                Some((project.path, a.workdir))
            } else {
                None
            })
            &&& own ==> removal::removal_begun(t, id, is_dir) == t
            &&& !own ==> spawning::unused(
                removal::removal_begun(t, id, is_dir).desk.session.projects,
                id,
            )
        }),
{
    records::lemma_agent_from(t.desk.session.projects, 0, id);
    let project = t.desk.session.projects[p];
    let a = project.agents[i];
    if removal::shared(t.desk.session.projects, a.id, a.workdir) {
        let (q, j) = choose|q: int, j: int|
            0 <= q < t.desk.session.projects.len() && 0 <= j
                < t.desk.session.projects[q].agents.len() && (
            #[trigger] t.desk.session.projects[q].agents[j]).id != a.id && paths::parts_of(
                t.desk.session.projects[q].agents[j].workdir,
            ) == paths::parts_of(a.workdir);
        assert(t.desk.session.projects[q].agents[j].id != id);
    }
    let u = t.logged(removal::keeping(a));
    removal::a_removed_agent_leaves_nothing(t, a);
    removal::a_removed_agent_leaves_nothing(u, a);
    agents_are_found_by_id(removal::gone(t, a).desk.session.projects, id);
    agents_are_found_by_id(removal::gone(u, a).desk.session.projects, id);
}

/// A worktree with uncommitted work, or one that git cannot tell about or
/// cannot remove, stays, and so does its agent; the user is told, with the
/// agent's name. A clean one goes on to be removed, and once it is, the agent
/// goes too.
pub proof fn only_clean_worktrees_go(
    t: desk::Turn,
    id: Seq<char>,
    error: Seq<char>,
    p: int,
    i: int,
)
    requires
        records::agent_at(t.desk.session.projects, id) == Some((p, i)),
    ensures
        ({
            let a = t.desk.session.projects[p].agents[i];
            let dirty = removal::worktree_checked(t, id, Ok(true));
            let failed = removal::worktree_checked(t, id, Err(error));
            let stuck = removal::worktree_removed(t, id, Err(error));
            &&& removal::worktree_checked(t, id, Ok(false)) == t
            &&& told(t, dirty, a.name)
            &&& told(t, failed, a.name)
            &&& told(t, stuck, a.name)
            &&& text::has(message_of(dirty), a.workdir)
            &&& text::ends(message_of(failed), error)
            &&& text::ends(message_of(stuck), error)
            &&& spawning::unused(
                removal::worktree_removed(t, id, Ok(())).desk.session.projects,
                id,
            )
        }),
{
    records::lemma_agent_from(t.desk.session.projects, 0, id);
    let a = t.desk.session.projects[p].agents[i];
    let m1 = ": worktree has uncommitted changes — commit or discard them in "@;
    let dirty = a.name + m1 + a.workdir + " first"@;
    lemma_starts(a.name, m1 + a.workdir + " first"@);
    assert(dirty =~= a.name + (m1 + a.workdir + " first"@));
    let at = (a.name + m1).len() as int;
    assert(dirty.subrange(at, at + a.workdir.len()) =~= a.workdir);
    assert(text::at(dirty, a.workdir, at));
    let m2 = ": cannot check the worktree: "@;
    let m3 = ": cannot remove the worktree: "@;
    lemma_starts(a.name, m2 + error);
    lemma_starts(a.name, m3 + error);
    lemma_ends(a.name + m2, error);
    lemma_ends(a.name + m3, error);
    assert(a.name + m2 + error =~= a.name + (m2 + error));
    assert(a.name + m3 + error =~= a.name + (m3 + error));
    let u = t.logged(removal::removed_message(a));
    removal::a_removed_agent_leaves_nothing(u, a);
    agents_are_found_by_id(removal::gone(u, a).desk.session.projects, id);
}

/// What the status line says.
pub open spec fn message_of(t: desk::Turn) -> Seq<char> {
    match t.desk.status {
        Some((message, _)) => message,
        None => Seq::empty(),
    }
}

/// Whether the user was told something, as an error, and nothing else changed.
pub open spec fn told(before: desk::Turn, after: desk::Turn, about: Seq<char>) -> bool {
    &&& after.desk == (desk::Desk { status: after.desk.status, ..before.desk })
    &&& after.desk.status matches Some((message, is_error)) && is_error && text::starts(
        message,
        about,
    ) && after.acts == before.acts.push(desk::Act::Log(Level::Error, message))
}

proof fn lemma_starts(a: Seq<char>, b: Seq<char>)
    ensures
        text::starts(a + b, a),
{
    assert((a + b).subrange(0, a.len() as int) =~= a);
}

proof fn lemma_ends(a: Seq<char>, b: Seq<char>)
    ensures
        text::ends(a + b, b),
{
    assert((a + b).subrange(a.len() as int, (a + b).len() as int) =~= b);
}

proof fn lemma_discards(t: desk::Turn, ids: Seq<Seq<char>>)
    ensures
        ({
            let after = tabs::all_discarded(t, ids);
            &&& continues(after, t)
            &&& forall|k: int|
                0 <= k < ids.len() && (t.desk.live.contains(ids[k]) || t.desk.outgoing.contains(
                    ids[k],
                )) ==> after.acts.contains(desk::Act::Discard(#[trigger] ids[k]))
            &&& forall|id: Seq<char>|
                (t.desk.live.contains(id) || t.desk.outgoing.contains(id))
                    && !after.desk.live.contains(id) && !after.desk.outgoing.contains(id)
                    ==> #[trigger] after.acts.contains(desk::Act::Discard(id))
            &&& forall|id: Seq<char>|
                !(#[trigger] ids.contains(id)) ==> after.desk.live.contains(id)
                    == t.desk.live.contains(id) && after.desk.outgoing.contains(id)
                    == t.desk.outgoing.contains(id)
            &&& forall|id: Seq<char>| #[trigger]
                ids.contains(id) ==> !after.desk.live.contains(id) && !after.desk.outgoing.contains(
                    id,
                )
            &&& after.desk.session == t.desk.session
            &&& after.desk.selected == t.desk.selected
            &&& after.desk.active == t.desk.active
            &&& after.desk.restored == t.desk.restored
        }),
    decreases ids.len(),
{
    if ids.len() == 0 {
        assert(t.acts.take(t.acts.len() as int) =~= t.acts);
    } else {
        let front = ids.drop_last();
        let last = ids.last();
        let before = tabs::all_discarded(t, front);
        let after = tabs::all_discarded(t, ids);
        lemma_discards(t, front);
        assert(ids[ids.len() - 1] == last);
        assert(ids.contains(last));
        assert forall|id: Seq<char>| #[trigger]
            ids.contains(id) == (front.contains(id) || id == last) by {
            if front.contains(id) {
                let k = choose|k: int| 0 <= k < front.len() && front[k] == id;
                assert(ids[k] == id);
            }
            if ids.contains(id) && id != last {
                let k = choose|k: int| 0 <= k < ids.len() && ids[k] == id;
                assert(front[k] == id);
            }
        }
        if before.desk.live.contains(last) || before.desk.outgoing.contains(last) {
            lemma_one_more(before, after, desk::Act::Discard(last));
            lemma_continues(t, before, after);
        } else {
            assert(continues(after, before)) by {
                assert(after.acts.take(after.acts.len() as int) =~= after.acts);
            }
        }
        assert forall|id: Seq<char>| !(#[trigger] ids.contains(id)) implies after.desk.live.contains(
            id,
        ) == t.desk.live.contains(id) && after.desk.outgoing.contains(id)
            == t.desk.outgoing.contains(id) by {
            assert(!front.contains(id) && id != last);
        }
        assert forall|id: Seq<char>| #[trigger] ids.contains(id) implies !after.desk.live.contains(
            id,
        ) && !after.desk.outgoing.contains(id) by {
            if front.contains(id) {
                assert(!before.desk.live.contains(id));
            }
        }
        assert forall|id: Seq<char>|
            (t.desk.live.contains(id) || t.desk.outgoing.contains(id)) && !after.desk.live.contains(
                id,
            ) && !after.desk.outgoing.contains(id) implies #[trigger] after.acts.contains(
            desk::Act::Discard(id),
        ) by {
            if !before.desk.live.contains(id) && !before.desk.outgoing.contains(id) {
                lemma_stays_listed(after, before, desk::Act::Discard(id));
            }
        }
        assert forall|k: int|
            0 <= k < ids.len() && (t.desk.live.contains(ids[k]) || t.desk.outgoing.contains(
                ids[k],
            )) implies after.acts.contains(desk::Act::Discard(#[trigger] ids[k])) by {
            assert(ids.contains(ids[k]));
            assert(!after.desk.live.contains(ids[k]) && !after.desk.outgoing.contains(ids[k]));
        }
    }
}

/// A removed agent's terminals are shut down, those that were live or kept, and
/// no others; every other agent stays, in its place, as it was.
pub proof fn removing_shuts_an_agents_terminals_down(
    t: desk::Turn,
    a: records::Agent,
    other: Seq<char>,
    q: int,
)
    ensures
        ({
            let after = removal::gone(t, a);
            &&& t.desk.live.contains(a.id) ==> after.acts.contains(desk::Act::Discard(a.id))
            &&& forall|k: int|
                0 <= k < a.terminals.len() && t.desk.live.contains(
                    (#[trigger] a.terminals[k]).id,
                ) ==> after.acts.contains(desk::Act::Discard(a.terminals[k].id))
            &&& other != a.id && !edits::tab_ids(a.terminals).contains(other)
                ==> after.desk.live.contains(other) == t.desk.live.contains(other)
            &&& after.desk.session.projects.len() == t.desk.session.projects.len()
            &&& after.desk.session.settings == t.desk.session.settings
            &&& 0 <= q < t.desk.session.projects.len() ==> {
                let now = after.desk.session.projects[q];
                let then = t.desk.session.projects[q];
                &&& now == (records::Project { agents: now.agents, ..then })
                &&& now.agents == then.agents.filter(|b: records::Agent| b.id != a.id)
            }
            &&& t.desk.selected != Some(a.id) ==> after.desk.selected == t.desk.selected
            &&& after.acts.last() == desk::Act::Persist
        }),
{
    let said = t.logged("agent "@ + a.name + ": removed"@);
    let bare = desk::Turn { desk: desk::Desk { status: None, ..said.desk }, ..said };
    let ids = tabs::terminals_of(a);
    lemma_discards(bare, ids);
    let down = tabs::all_discarded(bare, ids);
    let after = removal::gone(t, a);
    assert(ids[0] == a.id);
    assert(after.acts == down.acts.push(desk::Act::Persist));
    lemma_one_more(down, after, desk::Act::Persist);
    if t.desk.live.contains(a.id) {
        assert(down.acts.contains(desk::Act::Discard(ids[0])));
        lemma_stays_listed(after, down, desk::Act::Discard(a.id));
    }
    assert forall|k: int|
        0 <= k < a.terminals.len() && t.desk.live.contains(
            (#[trigger] a.terminals[k]).id,
        ) implies after.acts.contains(desk::Act::Discard(a.terminals[k].id)) by {
        assert(ids[k + 1] == a.terminals[k].id);
        assert(down.acts.contains(desk::Act::Discard(ids[k + 1])));
        lemma_stays_listed(after, down, desk::Act::Discard(a.terminals[k].id));
    }
    if other != a.id && !edits::tab_ids(a.terminals).contains(other) {
        if ids.contains(other) {
            let k = choose|k: int| 0 <= k < ids.len() && ids[k] == other;
            assert(edits::tab_ids(a.terminals)[k - 1] == other);
        }
        assert(!ids.contains(other));
    }
    assert(after.desk.session == edits::session_but(t.desk.session, a.id));
}

// ---- Projects ----

/// A project is added at the end, under the last name of its path, unfolded and
/// without agents; what is no directory, no repository or there already is
/// refused with an error that says so, and nothing changes.
pub proof fn projects_are_added_at_the_end(
    t: desk::Turn,
    path: Seq<char>,
    is_dir: bool,
    is_repo: bool,
)
    requires
        path.len() > 0,
        !text::starts(path, "~/"@),
    ensures
        ({
            let after = projects::project_added(t, path, None, is_dir, is_repo);
            let before = t.desk.session;
            let known = exists|q: int|
                0 <= q < before.projects.len() && paths::parts_of((#[trigger] before.projects[q]).path)
                    == paths::parts_of(path);
            &&& is_dir && is_repo && !known ==> {
                let made = after.desk.session.projects.last();
                &&& after.desk.session.projects == before.projects.push(made)
                &&& after.desk.session.settings == before.settings
                &&& made.path == path
                &&& paths::file_name_of(path) matches Some(name) ==> made.name == name
                &&& paths::file_name_of(path) is None ==> made.name == path
                &&& made.agents.len() == 0
                &&& made.expanded
                &&& after.acts.last() == desk::Act::Persist
                &&& after.desk.status is None && after.desk.dialog is None
            }
            &&& !(is_dir && is_repo && !known) ==> {
                &&& after.desk == (desk::Desk { status: after.desk.status, ..t.desk })
                &&& after.desk.status matches Some((message, is_error)) && is_error && (!is_dir
                    || !is_repo ==> text::ends(message, path))
            }
        }),
{
    let list = t.desk.session.projects;
    lemma_known(list, 0, path);
    lemma_ends("Not a directory: "@, path);
    lemma_ends("Not a git repository: "@, path);
}

proof fn lemma_known(list: Seq<records::Project>, p: int, path: Seq<char>)
    requires
        0 <= p <= list.len(),
    ensures
        match tasks::project_from(list, p, path) {
            Some(q) => p <= q < list.len() && paths::parts_of(list[q].path) == paths::parts_of(path),
            None => forall|q: int|
                p <= q < list.len() ==> paths::parts_of((#[trigger] list[q]).path)
                    != paths::parts_of(path),
        },
    decreases list.len() - p,
{
    if p < list.len() {
        lemma_known(list, p + 1, path);
    }
}

/// Folding a project and unfolding it again leaves it as it was; nothing else
/// of it changes, nor any other project.
pub proof fn folding_folds_one_project(s: records::Session, index: int, q: int)
    requires
        0 <= index < s.projects.len(),
        0 <= q < s.projects.len(),
    ensures
        projects::folded(projects::folded(s, index), index) == s,
        projects::folded(s, index).projects[index] == (records::Project {
            expanded: !s.projects[index].expanded,
            ..s.projects[index]
        }),
        q != index ==> projects::folded(s, index).projects[q] == s.projects[q],
        projects::folded(s, index).settings == s.settings,
{
    assert(projects::folded(projects::folded(s, index), index).projects =~= s.projects);
}

// ---- Moving ----

/// Whether a list is another with one item taken out and put in at an index.
pub open spec fn is_moved<T>(before: Seq<T>, after: Seq<T>, from: int, to: int) -> bool {
    &&& after.len() == before.len()
    &&& after[to] == before[from]
    &&& after.remove(to) == before.remove(from)
}

proof fn lemma_is_moved<T>(s: Seq<T>, from: int, to: int)
    requires
        0 <= from < s.len(),
        0 <= to < s.len(),
    ensures
        is_moved(s, order::moved(s, from, to), from, to),
{
    let after = order::moved(s, from, to);
    if from != to {
        assert(after.remove(to) =~= s.remove(from));
    }
}

/// Moving a project takes it out of the list and puts it in where the other
/// was; the projects themselves, the settings and what is shown stay, and the
/// new order is saved.
pub proof fn moving_a_project_reorders_the_list(t: desk::Turn, from: int, to: int)
    requires
        0 <= from < t.desk.session.projects.len(),
        0 <= to < t.desk.session.projects.len(),
    ensures
        ({
            let after = projects::project_moved(t, from, to);
            &&& is_moved(t.desk.session.projects, after.desk.session.projects, from, to)
            &&& after.desk == (desk::Desk {
                session: records::Session {
                    projects: after.desk.session.projects,
                    ..t.desk.session
                },
                drag: None,
                ..t.desk
            })
            &&& after.acts == t.acts.push(desk::Act::Persist)
        }),
{
    lemma_is_moved(t.desk.session.projects, from, to);
}

/// Moving an agent changes the order of its own project's agents and nothing
/// else: it goes where the other was.
pub proof fn moving_an_agent_stays_in_its_project(
    t: desk::Turn,
    project: int,
    from: int,
    to: int,
    q: int,
)
    requires
        0 <= project < t.desk.session.projects.len(),
        0 <= from < t.desk.session.projects[project].agents.len(),
        0 <= to < t.desk.session.projects[project].agents.len(),
        forall|j: int, k: int|
            0 <= j < k < t.desk.session.projects[project].agents.len() ==> (
            #[trigger] t.desk.session.projects[project].agents[j]).id != (
            #[trigger] t.desk.session.projects[project].agents[k]).id,
        0 <= q < t.desk.session.projects.len(),
    ensures
        ({
            let then = t.desk.session.projects[project];
            let after = projects::agent_moved(
                t,
                project,
                then.agents[from].id,
                then.agents[to].id,
            );
            let now = after.desk.session.projects[project];
            &&& is_moved(then.agents, now.agents, from, to)
            &&& now == (records::Project { agents: now.agents, ..then })
            &&& q != project ==> after.desk.session.projects[q] == t.desk.session.projects[q]
            &&& after.desk.session.settings == t.desk.session.settings
            &&& after.desk.selected == t.desk.selected && after.desk.live == t.desk.live
            &&& after.desk.drag is None
            &&& after.acts == t.acts.push(desk::Act::Persist)
        }),
{
    let then = t.desk.session.projects[project];
    let ids = records::agent_ids(then.agents);
    assert forall|j: int| 0 <= j < from implies ids[j] != then.agents[from].id by {
        assert(then.agents[j].id != then.agents[from].id);
    }
    assert forall|j: int| 0 <= j < to implies ids[j] != then.agents[to].id by {
        assert(then.agents[j].id != then.agents[to].id);
    }
    text::lemma_position_is(ids, then.agents[from].id, from);
    text::lemma_position_is(ids, then.agents[to].id, to);
    lemma_is_moved(then.agents, from, to);
}

/// Moving a tab changes the order of its own agent's tabs and nothing else: it
/// goes where the other was.
pub proof fn moving_a_tab_stays_in_its_agent(
    t: desk::Turn,
    agent: Seq<char>,
    p: int,
    i: int,
    from: int,
    to: int,
    q: int,
    j: int,
)
    requires
        records::agent_at(t.desk.session.projects, agent) == Some((p, i)),
        0 <= from < t.desk.session.projects[p].agents[i].terminals.len(),
        0 <= to < t.desk.session.projects[p].agents[i].terminals.len(),
        forall|x: int, y: int|
            0 <= x < y < t.desk.session.projects[p].agents[i].terminals.len() ==> (
            #[trigger] t.desk.session.projects[p].agents[i].terminals[x]).id != (
            #[trigger] t.desk.session.projects[p].agents[i].terminals[y]).id,
        0 <= q < t.desk.session.projects.len(),
        0 <= j < t.desk.session.projects[q].agents.len(),
    ensures
        ({
            let then = t.desk.session.projects[p].agents[i];
            let after = projects::tab_moved(
                t,
                agent,
                then.terminals[from].id,
                then.terminals[to].id,
            );
            let now = after.desk.session.projects[p].agents[i];
            &&& is_moved(then.terminals, now.terminals, from, to)
            &&& now == (records::Agent { terminals: now.terminals, ..then })
            &&& q != p || j != i ==> after.desk.session.projects[q].agents[j]
                == t.desk.session.projects[q].agents[j]
            &&& after.desk.session.settings == t.desk.session.settings
            &&& after.desk.active == t.desk.active && after.desk.live == t.desk.live
            &&& after.desk.drag is None
            &&& after.acts == t.acts.push(desk::Act::Persist)
        }),
{
    records::lemma_agent_from(t.desk.session.projects, 0, agent);
    let then = t.desk.session.projects[p].agents[i];
    let ids = edits::tab_ids(then.terminals);
    assert forall|x: int| 0 <= x < from implies ids[x] != then.terminals[from].id by {
        assert(then.terminals[x].id != then.terminals[from].id);
    }
    assert forall|x: int| 0 <= x < to implies ids[x] != then.terminals[to].id by {
        assert(then.terminals[x].id != then.terminals[to].id);
    }
    text::lemma_position_is(ids, then.terminals[from].id, from);
    text::lemma_position_is(ids, then.terminals[to].id, to);
    lemma_is_moved(then.terminals, from, to);
}

/// Dropping what is dragged makes the move that was previewed, of a project, an
/// agent or a tab; without one nothing happens.
pub proof fn a_drop_makes_the_move(t: desk::Turn)
    ensures
        match t.desk.drag {
            Some(desk::Drag::Project(from, to)) => projects::drag_applied(t)
                == projects::project_moved(t, from as int, to as int),
            Some(desk::Drag::Agent { project_index, from, to }) => projects::drag_applied(t)
                == projects::agent_moved(t, project_index as int, from, to),
            Some(desk::Drag::Tab { agent, from, to }) => projects::drag_applied(t)
                == projects::tab_moved(t, agent, from, to),
            None => projects::drag_applied(t) == t,
        },
        projects::drag_applied(t).desk.drag is None,
{
}

} // verus!
