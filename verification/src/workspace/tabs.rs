//! Tabs: opening a shell next to an agent, closing it, and taking everything
//! of an agent down.

use vstd::prelude::*;
use vstd::string::*;

use crate::state::edits;
use crate::state::records;
use crate::state::records::{AgentRecord, TerminalTabRecord};
use crate::text;
use crate::text::{copy_opt_text, decimal, owned, push_text, same_text};
use crate::workspace::agents;
use crate::workspace::desk;
use crate::workspace::desk::{list, Effect, Workspace};
use crate::workspace::spawn;
use crate::workspace::spawn::new_id;

verus! {

/// A shell is opened in a new tab of an agent, and shown.
pub open spec fn tab_opened(
    t: desk::Turn,
    agent: Seq<char>,
    tab: records::Tab,
    process_env: desk::Pairs,
) -> desk::Turn {
    let projects = t.desk.session.projects;
    match records::agent_at(projects, agent) {
        Some((p, i)) => {
            let a = projects[p].agents[i];
            let up = agents::env_read(t, agent).shell(
                tab.id,
                a.workdir,
                agents::task_vars(projects[p], a, process_env),
            );
            agents::chosen(
                desk::Turn {
                    desk: desk::Desk {
                        session: edits::changed(up.desk.session, agent, edits::adding(tab)),
                        active: up.desk.active.insert(agent, tab.id),
                        ..up.desk
                    },
                    ..up
                },
                agent,
                process_env,
            ).act(desk::Act::Persist)
        },
        None => t,
    }
}

/// What the next tab of an agent is called.
pub open spec fn next_name(a: records::Agent) -> Seq<char> {
    "Shell "@ + text::decimal_of((a.terminals.len() + 1) as nat)
}

/// The next shell of an agent is opened.
pub open spec fn next_tab_opened(
    t: desk::Turn,
    agent: Seq<char>,
    tab_id: Seq<char>,
    process_env: desk::Pairs,
) -> desk::Turn {
    match records::agent_at(t.desk.session.projects, agent) {
        Some((p, i)) => tab_opened(
            t,
            agent,
            records::Tab { id: tab_id, name: next_name(t.desk.session.projects[p].agents[i]) },
            process_env,
        ),
        None => t,
    }
}

/// A tab of an agent is closed for good. The agent's own tab cannot be closed.
pub open spec fn tab_closed(t: desk::Turn, agent: Seq<char>, tab: Seq<char>) -> desk::Turn {
    if tab == agent {
        t
    } else {
        let down = if t.desk.live.contains(tab) {
            desk::Turn {
                desk: desk::Desk { live: t.desk.live.remove(tab), ..t.desk },
                ..t
            }.act(desk::Act::Discard(tab))
        } else {
            t
        };
        desk::Turn {
            desk: desk::Desk {
                session: edits::changed(down.desk.session, agent, edits::dropping(tab)),
                active: if down.desk.active.dom().contains(agent) && down.desk.active[agent]
                    == tab {
                    down.desk.active.insert(agent, agent)
                } else {
                    down.desk.active
                },
                ..down.desk
            },
            ..down
        }.act(desk::Act::Persist)
    }
}

/// A terminal is shut down and forgotten, along with a screen kept of it.
pub open spec fn discarded(t: desk::Turn, id: Seq<char>) -> desk::Turn {
    let gone = desk::Turn {
        desk: desk::Desk {
            live: t.desk.live.remove(id),
            outgoing: t.desk.outgoing.remove(id),
            exited: t.desk.exited.remove(id),
            ..t.desk
        },
        ..t
    };
    if t.desk.live.contains(id) || t.desk.outgoing.contains(id) {
        gone.act(desk::Act::Discard(id))
    } else {
        gone
    }
}

/// Some terminals are shut down and forgotten.
pub open spec fn all_discarded(t: desk::Turn, ids: Seq<Seq<char>>) -> desk::Turn
    decreases ids.len(),
{
    if ids.len() == 0 {
        t
    } else {
        discarded(all_discarded(t, ids.drop_last()), ids.last())
    }
}

/// The terminals of an agent: its own, and its tabs.
pub open spec fn terminals_of(a: records::Agent) -> Seq<Seq<char>> {
    seq![a.id] + edits::tab_ids(a.terminals)
}

/// Everything of an agent is taken down: its terminals, and what is kept of it
/// to show.
pub open spec fn torn_down(t: desk::Turn, a: records::Agent) -> desk::Turn {
    let down = all_discarded(t, terminals_of(a));
    desk::Turn {
        desk: desk::Desk {
            active: down.desk.active.remove(a.id),
            restored: down.desk.restored.remove(a.id),
            selected: if down.desk.selected == Some(a.id) {
                None
            } else {
                down.desk.selected
            },
            ..down.desk
        },
        ..down
    }
}

/// Whether nothing of an agent is left in what is shown.
pub open spec fn nothing_left(d: desk::Desk, a: records::Agent) -> bool {
    &&& forall|k: int|
        0 <= k < terminals_of(a).len() ==> !d.live.contains(#[trigger] terminals_of(a)[k])
            && !d.outgoing.contains(terminals_of(a)[k])
            && !d.exited.contains(terminals_of(a)[k])
    &&& !d.active.dom().contains(a.id)
    &&& !d.restored.contains(a.id)
    &&& d.selected != Some(a.id)
}

/// Taking an agent down changes neither the status line nor a name being
/// edited.
pub proof fn lemma_torn_down_keeps(t: desk::Turn, a: records::Agent)
    ensures
        torn_down(t, a).desk.status == t.desk.status,
        torn_down(t, a).desk.editing == t.desk.editing,
{
    lemma_discarded_keeps(t, terminals_of(a));
}

proof fn lemma_discarded_keeps(t: desk::Turn, ids: Seq<Seq<char>>)
    ensures
        all_discarded(t, ids).desk.status == t.desk.status,
        all_discarded(t, ids).desk.editing == t.desk.editing,
    decreases ids.len(),
{
    if ids.len() > 0 {
        lemma_discarded_keeps(t, ids.drop_last());
    }
}

proof fn lemma_all_discarded(t: desk::Turn, ids: Seq<Seq<char>>)
    ensures
        forall|k: int|
            0 <= k < ids.len() ==> !all_discarded(t, ids).desk.live.contains(#[trigger] ids[k])
                && !all_discarded(t, ids).desk.outgoing.contains(ids[k]) && !all_discarded(
                t,
                ids,
            ).desk.exited.contains(ids[k]),
        all_discarded(t, ids).desk.session == t.desk.session,
        all_discarded(t, ids).desk.live.subset_of(t.desk.live),
        forall|other: Seq<char>|
            !ids.contains(other) ==> all_discarded(t, ids).desk.live.contains(other)
                == t.desk.live.contains(other),
    decreases ids.len(),
{
    if ids.len() > 0 {
        let rest = ids.drop_last();
        lemma_all_discarded(t, rest);
        assert forall|k: int| 0 <= k < ids.len() implies !all_discarded(
            t,
            ids,
        ).desk.live.contains(#[trigger] ids[k]) && !all_discarded(t, ids).desk.outgoing.contains(
            ids[k],
        ) && !all_discarded(t, ids).desk.exited.contains(ids[k]) by {
            if k < rest.len() {
                assert(rest[k] == ids[k]);
            }
        }
        assert forall|other: Seq<char>| !ids.contains(other) implies all_discarded(
            t,
            ids,
        ).desk.live.contains(other) == t.desk.live.contains(other) by {
            assert(ids[ids.len() - 1] == ids.last());
            if rest.contains(other) {
                let k = rest.index_of(other);
                assert(ids[k] == other);
            }
        }
    }
}

/// Taking an agent down leaves nothing of it, and leaves the terminals of
/// others alone.
pub proof fn a_teardown_is_complete(t: desk::Turn, a: records::Agent)
    ensures
        nothing_left(torn_down(t, a).desk, a),
        torn_down(t, a).desk.session == t.desk.session,
        forall|other: Seq<char>|
            !terminals_of(a).contains(other) ==> torn_down(t, a).desk.live.contains(other)
                == t.desk.live.contains(other),
{
    lemma_all_discarded(t, terminals_of(a));
}

impl Workspace {
    /// Spawn a fresh shell in the agent's workdir for a new terminal tab. The
    /// tab's id is a fresh one.
    pub fn add_terminal_tab(
        &mut self,
        agent_id: &str,
        name: String,
        tab_id: &str,
        process_env: &Vec<(String, String)>,
        out: &mut Vec<Effect>,
    )
        ensures
            desk::turn(final(self)@, final(out)@) == tab_opened(
                desk::turn(old(self)@, old(out)@),
                agent_id@,
                records::Tab { id: tab_id@, name: name@ },
                text::pairs(process_env@),
            ),
    {
        let workdir: String = match self.state.agent(agent_id) {
            Some(a) => a.workdir.clone(),
            None => {
                return;
            },
        };
        let vars: Vec<(String, String)> = self.agent_task_env(agent_id, process_env, out);
        self.start_shell_tab(tab_id, workdir.as_str(), &vars, out);
        self.state.add_tab(agent_id, TerminalTabRecord { id: owned(tab_id), name });
        self.active_tabs.insert(agent_id, tab_id);
        self.select_agent(agent_id, process_env, out);
        list(out, Effect::Persist);
    }

    /// Append a "Shell N" tab with the id `tab_id` to an agent. No-op for an
    /// unknown agent.
    pub fn add_shell_tab_as(
        &mut self,
        agent_id: &str,
        tab_id: &str,
        process_env: &Vec<(String, String)>,
        out: &mut Vec<Effect>,
    )
        ensures
            desk::turn(final(self)@, final(out)@) == next_tab_opened(
                desk::turn(old(self)@, old(out)@),
                agent_id@,
                tab_id@,
                text::pairs(process_env@),
            ),
    {
        let name: String = match self.state.agent(agent_id) {
            Some(a) => {
                let next: u128 = a.terminals.len() as u128 + 1;
                let mut name: String = owned("Shell ");
                name.push_str(decimal(next).as_str());
                name
            },
            None => {
                return;
            },
        };
        self.add_terminal_tab(agent_id, name, tab_id, process_env, out);
    }

    /// The `+` in the tab bar, and its key binding: append a "Shell N" tab to
    /// an agent, under a fresh id. No-op for an unknown agent.
    pub fn add_next_shell_tab(
        &mut self,
        agent_id: &str,
        process_env: &Vec<(String, String)>,
        out: &mut Vec<Effect>,
    )
        ensures
            exists|tab_id: String| #[trigger]
                spawn::drawn(tab_id) && spawn::id_shape(tab_id@) && desk::turn(
                    final(self)@,
                    final(out)@,
                ) == next_tab_opened(
                    desk::turn(old(self)@, old(out)@),
                    agent_id@,
                    tab_id@,
                    text::pairs(process_env@),
                ),
    {
        let tab_id: String = new_id();
        self.add_shell_tab_as(agent_id, tab_id.as_str(), process_env, out);
        assert(spawn::drawn(tab_id));
    }

    /// The key binding for a new tab: nothing is selected before the first
    /// agent is opened, and then there is no tab bar to add to either.
    pub fn new_terminal_tab(&mut self, process_env: &Vec<(String, String)>, out: &mut Vec<Effect>)
        ensures
            match old(self)@.selected {
                Some(id) => exists|tab_id: String| #[trigger]
                    spawn::drawn(tab_id) && spawn::id_shape(tab_id@) && desk::turn(
                        final(self)@,
                        final(out)@,
                    ) == next_tab_opened(
                        desk::turn(old(self)@, old(out)@),
                        id,
                        tab_id@,
                        text::pairs(process_env@),
                    ),
                None => desk::turn(final(self)@, final(out)@) == desk::turn(
                    old(self)@,
                    old(out)@,
                ),
            },
    {
        if let Some(id) = copy_opt_text(&self.selected) {
            self.add_next_shell_tab(id.as_str(), process_env, out);
        }
    }

    /// Remove a terminal tab. Refuses to remove the agent's own first tab.
    pub fn remove_terminal_tab(&mut self, agent_id: &str, tab_id: &str, out: &mut Vec<Effect>)
        ensures
            desk::turn(final(self)@, final(out)@) == tab_closed(
                desk::turn(old(self)@, old(out)@),
                agent_id@,
                tab_id@,
            ),
    {
        if same_text(tab_id, agent_id) {
            return;
        }
        let ghost before = self@.live;
        if self.terminals.remove(tab_id) {
            list(out, Effect::Discard(owned(tab_id)));
        } else {
            assert(before.remove(tab_id@) =~= before);
        }
        self.state.drop_tab(agent_id, tab_id);
        if let Some(shown) = self.active_tabs.get(agent_id) {
            if same_text(shown.as_str(), tab_id) {
                self.active_tabs.insert(agent_id, agent_id);
            }
        }
        list(out, Effect::Persist);
    }

    /// Shut down and forget every terminal belonging to an agent, along with
    /// what is kept of it to show. History files are deleted: this is the
    /// "gone for good" path, used when an agent or its whole project is
    /// removed.
    pub fn teardown_agent(&mut self, agent: &AgentRecord, out: &mut Vec<Effect>)
        ensures
            desk::turn(final(self)@, final(out)@) == torn_down(
                desk::turn(old(self)@, old(out)@),
                agent@,
            ),
    {
        let mut ids: Vec<String> = Vec::new();
        push_text(&mut ids, agent.id.as_str());
        let ghost all = edits::tab_ids(agent@.terminals);
        let mut i: usize = 0;
        assert(text::texts(ids@) =~= seq![agent.id@] + all.take(0));
        while i < agent.terminals.len()
            invariant
                i <= agent.terminals@.len(),
                all == edits::tab_ids(agent@.terminals),
                text::texts(ids@) == seq![agent.id@] + all.take(i as int),
            decreases agent.terminals@.len() - i,
        {
            assert(all[i as int] == agent.terminals@[i as int].id@);
            push_text(&mut ids, agent.terminals[i].id.as_str());
            assert(text::texts(ids@) =~= seq![agent.id@] + all.take(i + 1));
            i += 1;
        }
        assert(all.take(all.len() as int) =~= all);
        assert(all.len() == agent.terminals@.len());
        let ghost ids_of = text::texts(ids@);
        let ghost first = desk::turn(self@, out@);
        let mut k: usize = 0;
        while k < ids.len()
            invariant
                k <= ids@.len(),
                ids_of == text::texts(ids@),
                desk::turn(self@, out@) == all_discarded(first, ids_of.take(k as int)),
            decreases ids@.len() - k,
        {
            proof {
                assert(ids_of.take(k + 1).drop_last() =~= ids_of.take(k as int));
                assert(ids_of.take(k + 1).last() == ids@[k as int]@);
            }
            let live: bool = self.terminals.remove(ids[k].as_str());
            let kept: bool = self.outgoing_terminals.remove(ids[k].as_str());
            self.exited.remove(ids[k].as_str());
            if live || kept {
                list(out, Effect::Discard(ids[k].clone()));
            }
            k += 1;
        }
        assert(ids_of.take(k as int) =~= ids_of);
        self.active_tabs.remove(agent.id.as_str());
        self.restored.remove(agent.id.as_str());
        let same: bool = match &self.selected {
            Some(s) => same_text(s.as_str(), agent.id.as_str()),
            None => false,
        };
        if same {
            self.selected = None;
        }
    }
}

} // verus!
