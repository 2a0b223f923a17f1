//! Dragging over the rows of a list: which row takes the dragged item.

use vstd::prelude::*;
use vstd::string::*;

use crate::state::edits::find_tab;
use crate::state::records;
use crate::state::records::{find_agent, AgentRecord};
use crate::text;
use crate::text::{owned, same_text};
use crate::workspace::desk;
use crate::workspace::desk::{DragTarget, Workspace};
use crate::workspace::order;
use crate::workspace::order::{past_middle, shown_before, Relative};
use crate::workspace::projects;

verus! {

/// A move becomes the pending one.
pub open spec fn aimed(d: desk::Desk, target: desk::Drag) -> desk::Desk {
    desk::Desk { drag: Some(target), ..d }
}

/// A project is dragged over another's row. Hovering the dragged row itself
/// leaves the preview as it is: treating it as a target would flip the list
/// back and forth.
pub open spec fn over_project(d: desk::Desk, from: usize, over: usize, pointer: Relative) -> desk::Desk {
    let pending = match d.drag {
        Some(desk::Drag::Project(f, t)) => Some((f, t)),
        _ => None,
    };
    if from != over && order::claims(d.session.projects.len(), pending, over, from, pointer) {
        aimed(d, desk::Drag::Project(from, over))
    } else {
        d
    }
}

/// Two indices, where both are there.
pub open spec fn both(pair: Option<(int, int)>) -> Option<(usize, usize)> {
    match pair {
        Some((f, t)) => Some((f as usize, t as usize)),
        None => None,
    }
}

/// An agent of one project is dragged over an agent's row.
pub open spec fn over_agent(
    d: desk::Desk,
    drag_project: usize,
    from: Seq<char>,
    project: usize,
    over: Seq<char>,
    pointer: Relative,
) -> desk::Desk {
    let list = d.session.projects;
    let pending = match d.drag {
        Some(desk::Drag::Agent { from: f, to: t, .. }) => both(
            projects::agent_pair(list, project as int, f, t),
        ),
        _ => None,
    };
    match projects::agent_pair(list, project as int, over, from) {
        Some((hovered, dragged)) => if drag_project == project && from != over && order::claims(
            list[project as int].agents.len(),
            pending,
            hovered as usize,
            dragged as usize,
            pointer,
        ) {
            aimed(d, desk::Drag::Agent { project_index: project, from, to: over })
        } else {
            d
        },
        None => d,
    }
}

/// How many tabs an agent has.
pub open spec fn tab_count(list: Seq<records::Project>, agent: Seq<char>) -> nat {
    match records::agent_at(list, agent) {
        Some((p, i)) => list[p].agents[i].terminals.len(),
        None => 0,
    }
}

/// A tab of one agent is dragged over a tab.
pub open spec fn over_tab(
    d: desk::Desk,
    drag_agent: Seq<char>,
    from: Seq<char>,
    agent: Seq<char>,
    over: Seq<char>,
    pointer: Relative,
) -> desk::Desk {
    let list = d.session.projects;
    let pending = match d.drag {
        Some(desk::Drag::Tab { from: f, to: t, .. }) => both(
            projects::tab_pair(list, agent, f, t),
        ),
        _ => None,
    };
    match projects::tab_pair(list, agent, over, from) {
        Some((hovered, dragged)) => if drag_agent == agent && from != over && order::claims(
            tab_count(list, agent),
            pending,
            hovered as usize,
            dragged as usize,
            pointer,
        ) {
            aimed(d, desk::Drag::Tab { agent, from, to: over })
        } else {
            d
        },
        None => d,
    }
}

fn same_target(a: &DragTarget, b: &DragTarget) -> (r: bool)
    ensures
        r == (a@ == b@),
{
    match (a, b) {
        (DragTarget::Project(f, t), DragTarget::Project(g, u)) => *f == *g && *t == *u,
        (
            DragTarget::Agent { project_index: p, from: f, to: t },
            DragTarget::Agent { project_index: q, from: g, to: u },
        ) => *p == *q && same_text(f.as_str(), g.as_str()) && same_text(t.as_str(), u.as_str()),
        (
            DragTarget::Tab { agent: x, from: f, to: t },
            DragTarget::Tab { agent: y, from: g, to: u },
        ) => same_text(x.as_str(), y.as_str()) && same_text(f.as_str(), g.as_str()) && same_text(
            t.as_str(),
            u.as_str(),
        ),
        _ => false,
    }
}

fn agent_indices(agents: &Vec<AgentRecord>, a: &str, b: &str) -> (r: Option<(usize, usize)>)
    ensures
        match r {
            Some((i, j)) => {
                let ids = records::agent_ids(records::agents(agents@));
                text::position_of(ids, a@) == Some(i as int) && text::position_of(ids, b@) == Some(
                    j as int,
                )
            },
            None => {
                let ids = records::agent_ids(records::agents(agents@));
                text::position_of(ids, a@) is None || text::position_of(ids, b@) is None
            },
        },
{
    match (find_agent(agents, a), find_agent(agents, b)) {
        (Some(i), Some(j)) => Some((i, j)),
        _ => None,
    }
}

impl Workspace {
    /// Preview a move. Returns whether that changes what is shown.
    pub fn set_drag_target(&mut self, target: DragTarget) -> (r: bool)
        ensures
            final(self)@ == aimed(old(self)@, target@),
            r == (old(self)@.drag != Some(target@)),
    {
        let same: bool = match &self.drag_target {
            Some(t) => same_target(t, &target),
            None => false,
        };
        if !same {
            self.drag_target = Some(target);
        }
        !same
    }

    /// A project is dragged over the row at `over`. Returns whether that
    /// changes what is shown.
    pub fn drag_over_project(&mut self, from: usize, over: usize, pointer: Relative) -> (r: bool)
        ensures
            final(self)@ == over_project(old(self)@, from, over, pointer),
            r == (final(self)@.drag != old(self)@.drag),
    {
        if from == over {
            return false;
        }
        let pending: Option<(usize, usize)> = match &self.drag_target {
            Some(DragTarget::Project(f, t)) => Some((*f, *t)),
            _ => None,
        };
        let before: bool = shown_before(self.state.projects.len(), pending, over, from);
        if !past_middle(before, pointer) {
            return false;
        }
        self.set_drag_target(DragTarget::Project(from, over))
    }

    /// The agent `from` is dragged over the row of the agent `over`. Returns
    /// whether that changes what is shown.
    pub fn drag_over_agent(
        &mut self,
        drag_project: usize,
        from: &str,
        project: usize,
        over: &str,
        pointer: Relative,
    ) -> (r: bool)
        ensures
            final(self)@ == over_agent(
                old(self)@,
                drag_project,
                from@,
                project,
                over@,
                pointer,
            ),
            r == (final(self)@.drag != old(self)@.drag),
    {
        if drag_project != project || same_text(from, over) {
            return false;
        }
        if project >= self.state.projects.len() {
            return false;
        }
        let agents: &Vec<AgentRecord> = &self.state.projects[project].agents;
        assert(records::agents(agents@) == self@.session.projects[project as int].agents);
        let (hovered, dragged): (usize, usize) = match agent_indices(agents, over, from) {
            Some(p) => p,
            None => {
                return false;
            },
        };
        let pending: Option<(usize, usize)> = match &self.drag_target {
            Some(DragTarget::Agent { from: f, to: t, .. }) => agent_indices(
                agents,
                f.as_str(),
                t.as_str(),
            ),
            _ => None,
        };
        let before: bool = shown_before(agents.len(), pending, hovered, dragged);
        if !past_middle(before, pointer) {
            return false;
        }
        self.set_drag_target(
            DragTarget::Agent { project_index: project, from: owned(from), to: owned(over) },
        )
    }

    /// The tab `from` is dragged over the tab `over`. Returns whether that
    /// changes what is shown.
    pub fn drag_over_tab(
        &mut self,
        drag_agent: &str,
        from: &str,
        agent: &str,
        over: &str,
        pointer: Relative,
    ) -> (r: bool)
        ensures
            final(self)@ == over_tab(old(self)@, drag_agent@, from@, agent@, over@, pointer),
            r == (final(self)@.drag != old(self)@.drag),
    {
        if !same_text(drag_agent, agent) || same_text(from, over) {
            return false;
        }
        let record: &AgentRecord = match self.state.agent(agent) {
            Some(a) => a,
            None => {
                return false;
            },
        };
        let (hovered, dragged): (usize, usize) = match (
            find_tab(&record.terminals, over),
            find_tab(&record.terminals, from),
        ) {
            (Some(i), Some(j)) => (i, j),
            _ => {
                return false;
            },
        };
        let pending: Option<(usize, usize)> = match &self.drag_target {
            Some(DragTarget::Tab { from: f, to: t, .. }) => {
                match (
                    find_tab(&record.terminals, f.as_str()),
                    find_tab(&record.terminals, t.as_str()),
                ) {
                    (Some(i), Some(j)) => Some((i, j)),
                    _ => None,
                }
            },
            _ => None,
        };
        let before: bool = shown_before(record.terminals.len(), pending, hovered, dragged);
        if !past_middle(before, pointer) {
            return false;
        }
        self.set_drag_target(
            DragTarget::Tab { agent: owned(agent), from: owned(from), to: owned(over) },
        )
    }
}

} // verus!
