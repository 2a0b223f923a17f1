//! Changes to a session: to one agent, to its tabs, to a project's agents.

use vstd::prelude::*;
use vstd::string::*;

use crate::state::records;
use crate::state::records::{AgentRecord, AppState, ProjectRecord, TerminalTabRecord};
use crate::text;
use crate::text::same_text;
use crate::workspace::order;
use crate::workspace::order::reorder;

verus! {

/// A session in which the agent with an id was changed. Without such an agent
/// nothing changes.
pub open spec fn changed(
    s: records::Session,
    id: Seq<char>,
    change: spec_fn(records::Agent) -> records::Agent,
) -> records::Session {
    match records::agent_at(s.projects, id) {
        Some((p, i)) => records::with_agent(s, p, i, change(s.projects[p].agents[i])),
        None => s,
    }
}

/// The change that names an agent.
pub open spec fn naming(name: Seq<char>) -> spec_fn(records::Agent) -> records::Agent {
    |a: records::Agent| records::Agent { name, ..a }
}

/// The change that appends a tab.
pub open spec fn adding(tab: records::Tab) -> spec_fn(records::Agent) -> records::Agent {
    |a: records::Agent| records::Agent { terminals: a.terminals.push(tab), ..a }
}

/// Some tabs without those that have an id.
pub open spec fn tabs_but(tabs: Seq<records::Tab>, id: Seq<char>) -> Seq<records::Tab> {
    tabs.filter(|t: records::Tab| t.id != id)
}

/// The change that drops a tab.
pub open spec fn dropping(id: Seq<char>) -> spec_fn(records::Agent) -> records::Agent {
    |a: records::Agent| records::Agent { terminals: tabs_but(a.terminals, id), ..a }
}

/// The ids of some tabs.
pub open spec fn tab_ids(tabs: Seq<records::Tab>) -> Seq<Seq<char>> {
    tabs.map_values(|t: records::Tab| t.id)
}

/// Some tabs with one moved to sit where another is, each known by its id.
pub open spec fn tabs_moved(tabs: Seq<records::Tab>, from: Seq<char>, to: Seq<char>) -> Seq<
    records::Tab,
> {
    match (text::position_of(tab_ids(tabs), from), text::position_of(tab_ids(tabs), to)) {
        (Some(f), Some(t)) => order::moved(tabs, f, t),
        _ => tabs,
    }
}

/// The change that moves a tab.
pub open spec fn moving(from: Seq<char>, to: Seq<char>) -> spec_fn(
    records::Agent,
) -> records::Agent {
    |a: records::Agent| records::Agent { terminals: tabs_moved(a.terminals, from, to), ..a }
}

/// Some agents without those that have an id.
pub open spec fn agents_but(agents: Seq<records::Agent>, id: Seq<char>) -> Seq<records::Agent> {
    agents.filter(|a: records::Agent| a.id != id)
}

/// A project without the agents that have an id.
pub open spec fn project_but(project: records::Project, id: Seq<char>) -> records::Project {
    records::Project { agents: agents_but(project.agents, id), ..project }
}

/// A session without the agents that have an id.
pub open spec fn session_but(s: records::Session, id: Seq<char>) -> records::Session {
    records::Session {
        projects: s.projects.map_values(|p: records::Project| project_but(p, id)),
        ..s
    }
}

/// Where the first tab with an id is.
pub fn find_tab(list: &Vec<TerminalTabRecord>, id: &str) -> (r: Option<usize>)
    ensures
        match r {
            Some(i) => i < list@.len() && text::position_of(tab_ids(records::tabs(list@)), id@)
                == Some(i as int),
            None => text::position_of(tab_ids(records::tabs(list@)), id@) is None,
        },
{
    let ghost ids = tab_ids(records::tabs(list@));
    let mut i: usize = 0;
    while i < list.len()
        invariant
            i <= list@.len(),
            ids == tab_ids(records::tabs(list@)),
            forall|j: int| 0 <= j < i ==> #[trigger] ids[j] != id@,
        decreases list@.len() - i,
    {
        assert(ids[i as int] == list@[i as int].id@);
        if same_text(list[i].id.as_str(), id) {
            proof {
                text::lemma_position_is(ids, id@, i as int);
            }
            return Some(i);
        }
        i += 1;
    }
    proof {
        text::lemma_position_of(ids, id@);
    }
    None
}

fn drop_tabs(list: &mut Vec<TerminalTabRecord>, id: &str)
    ensures
        records::tabs(final(list)@) == tabs_but(records::tabs(old(list)@), id@),
{
    let ghost all = records::tabs(list@);
    let ghost keep = |t: records::Tab| t.id != id@;
    let ghost mut seen: int = 0;
    let mut i: usize = 0;
    proof {
        reveal(Seq::filter);
        assert(records::tabs(list@) =~= all.take(0).filter(keep) + all.skip(0));
    }
    while i < list.len()
        invariant
            0 <= seen <= all.len(),
            i <= list@.len(),
            keep == (|t: records::Tab| t.id != id@),
            i == all.take(seen).filter(keep).len(),
            list@.len() - i == all.len() - seen,
            records::tabs(list@) == all.take(seen).filter(keep) + all.skip(seen),
        decreases list@.len() - i,
    {
        let ghost kept = all.take(seen).filter(keep);
        proof {
            reveal(Seq::filter);
            assert(all.take(seen + 1).drop_last() =~= all.take(seen));
            assert(records::tabs(list@)[i as int] == all[seen]);
            assert(list@[i as int]@ == all[seen]);
        }
        if same_text(list[i].id.as_str(), id) {
            let ghost before = records::tabs(list@);
            list.remove(i);
            assert(records::tabs(list@) =~= before.remove(i as int));
            assert(records::tabs(list@) =~= kept + all.skip(seen + 1));
        } else {
            i += 1;
            assert(records::tabs(list@) =~= kept.push(all[seen]) + all.skip(seen + 1));
        }
        proof {
            seen = seen + 1;
        }
    }
    assert(all.take(seen) =~= all);
    assert(records::tabs(list@) =~= all.filter(keep));
}

fn drop_agents(list: &mut Vec<AgentRecord>, id: &str)
    ensures
        records::agents(final(list)@) == agents_but(records::agents(old(list)@), id@),
{
    let ghost all = records::agents(list@);
    let ghost keep = |a: records::Agent| a.id != id@;
    let ghost mut seen: int = 0;
    let mut i: usize = 0;
    proof {
        reveal(Seq::filter);
        assert(records::agents(list@) =~= all.take(0).filter(keep) + all.skip(0));
    }
    while i < list.len()
        invariant
            0 <= seen <= all.len(),
            i <= list@.len(),
            keep == (|a: records::Agent| a.id != id@),
            i == all.take(seen).filter(keep).len(),
            list@.len() - i == all.len() - seen,
            records::agents(list@) == all.take(seen).filter(keep) + all.skip(seen),
        decreases list@.len() - i,
    {
        let ghost kept = all.take(seen).filter(keep);
        proof {
            reveal(Seq::filter);
            assert(all.take(seen + 1).drop_last() =~= all.take(seen));
            assert(records::agents(list@)[i as int] == all[seen]);
            assert(list@[i as int]@ == all[seen]);
        }
        if same_text(list[i].id.as_str(), id) {
            let ghost before = records::agents(list@);
            list.remove(i);
            assert(records::agents(list@) =~= before.remove(i as int));
            assert(records::agents(list@) =~= kept + all.skip(seen + 1));
        } else {
            i += 1;
            assert(records::agents(list@) =~= kept.push(all[seen]) + all.skip(seen + 1));
        }
        proof {
            seen = seen + 1;
        }
    }
    assert(all.take(seen) =~= all);
    assert(records::agents(list@) =~= all.filter(keep));
}

impl AppState {
    /// Name an agent.
    pub fn name_agent(&mut self, id: &str, name: String)
        ensures
            final(self)@ == changed(old(self)@, id@, naming(name@)),
    {
        let ghost before = *self;
        if let Some(agent) = self.agent_mut(id) {
            agent.name = name;
        }
        proof {
            if let Some((p, i)) = records::agent_at(before@.projects, id@) {
                records::lemma_agent_replaced(before, *self, p, i, self.projects@[p].agents@[i]);
            }
        }
    }

    /// Append a tab to an agent.
    pub fn add_tab(&mut self, id: &str, tab: TerminalTabRecord)
        ensures
            final(self)@ == changed(old(self)@, id@, adding(tab@)),
    {
        let ghost before = *self;
        if let Some(agent) = self.agent_mut(id) {
            agent.terminals.push(tab);
        }
        proof {
            if let Some((p, i)) = records::agent_at(before@.projects, id@) {
                let after = self.projects@[p].agents@[i];
                records::lemma_agent_replaced(before, *self, p, i, after);
                assert(after@.terminals =~= before@.projects[p].agents[i].terminals.push(tab@));
            }
        }
    }

    /// Drop a tab of an agent.
    pub fn drop_tab(&mut self, id: &str, tab: &str)
        ensures
            final(self)@ == changed(old(self)@, id@, dropping(tab@)),
    {
        let ghost before = *self;
        if let Some(agent) = self.agent_mut(id) {
            drop_tabs(&mut agent.terminals, tab);
        }
        proof {
            if let Some((p, i)) = records::agent_at(before@.projects, id@) {
                records::lemma_agent_replaced(before, *self, p, i, self.projects@[p].agents@[i]);
            }
        }
    }

    /// Move a tab of an agent to sit where another is. Returns whether the
    /// agent and both tabs are there.
    pub fn move_tab(&mut self, id: &str, from: &str, to: &str) -> (r: bool)
        ensures
            final(self)@ == changed(old(self)@, id@, moving(from@, to@)),
            r == (match records::agent_at(old(self)@.projects, id@) {
                Some((p, i)) => {
                    let ids = tab_ids(old(self)@.projects[p].agents[i].terminals);
                    text::position_of(ids, from@) is Some && text::position_of(ids, to@) is Some
                },
                None => false,
            }),
    {
        let ghost before = *self;
        let mut done: bool = false;
        if let Some(agent) = self.agent_mut(id) {
            let f: Option<usize> = find_tab(&agent.terminals, from);
            let t: Option<usize> = find_tab(&agent.terminals, to);
            if let Some(f) = f {
                if let Some(t) = t {
                    proof {
                        order::lemma_moved_map(
                            agent.terminals@,
                            |t: TerminalTabRecord| t@,
                            f as int,
                            t as int,
                        );
                    }
                    reorder(&mut agent.terminals, f, t);
                    done = true;
                }
            }
        }
        proof {
            if let Some((p, i)) = records::agent_at(before@.projects, id@) {
                records::lemma_agent_replaced(before, *self, p, i, self.projects@[p].agents@[i]);
            }
        }
        done
    }

    /// Drop the agents with an id.
    pub fn drop_agent(&mut self, id: &str)
        ensures
            final(self)@ == session_but(old(self)@, id@),
    {
        let ghost before = self@;
        let ghost wanted = session_but(self@, id@).projects;
        let mut p: usize = 0;
        while p < self.projects.len()
            invariant
                p <= self.projects@.len(),
                self.projects@.len() == before.projects.len(),
                wanted == session_but(before, id@).projects,
                self@.settings == before.settings,
                forall|q: int| 0 <= q < p ==> #[trigger] self@.projects[q] == wanted[q],
                forall|q: int|
                    p <= q < self.projects@.len() ==> #[trigger] self@.projects[q]
                        == before.projects[q],
            decreases self.projects@.len() - p,
        {
            let ghost then_ = *self;
            assert(self@.projects[p as int] == before.projects[p as int]);
            let project: &mut ProjectRecord = &mut self.projects[p];
            drop_agents(&mut project.agents, id);
            proof {
                assert(self@.projects[p as int] == project_but(before.projects[p as int], id@));
                assert forall|q: int| 0 <= q < self.projects@.len() && q != p implies
                #[trigger] self@.projects[q] == then_@.projects[q] by {
                    assert(self.projects@[q] == then_.projects@[q]);
                }
            }
            p += 1;
        }
        assert(self@.projects =~= wanted);
    }
}

} // verus!
