//! What the window shows: the sidebar's rows, the tab bar, the pane beside
//! them, and the log.

use vstd::prelude::*;
use vstd::string::*;

use crate::log;
use crate::log::{Entry, Level};
use crate::state::edits;
use crate::state::edits::find_tab;
use crate::state::records;
use crate::state::records::{find_agent, AgentRecord, ProjectRecord, RESUME_FLAG};
use crate::text;
use crate::text::{owned, same_text};
use crate::workspace::desk;
use crate::workspace::desk::{DragTarget, Workspace};
use crate::workspace::drag;
use crate::workspace::order;
use crate::workspace::order::preview_order;
use crate::workspace::projects;

verus! {

// ---- Sidebar ----

/// The state of an agent's session, as the dot before its name shows it.
#[derive(Clone, Copy, PartialEq, Eq, Structural, Debug)]
pub enum Dot {
    Running,
    Ended,
    NotStarted,
}

/// The dot for a terminal.
pub open spec fn dot_of(d: desk::Desk, id: Seq<char>) -> Dot {
    if !d.live.contains(id) {
        Dot::NotStarted
    } else if d.exited.contains(id) {
        Dot::Ended
    } else {
        Dot::Running
    }
}

/// A row of the sidebar.
pub enum SidebarRow {
    /// What is said where there are no projects.
    NoProjects,
    /// The project at an index, unfolded or not.
    Project { index: usize, name: String, expanded: bool },
    /// What is said where an unfolded project has no agents.
    NoAgents,
    /// An agent whose name is being edited: a field in place of its row.
    Editing(String),
    /// The agent at an index of a project.
    Agent { project: usize, index: usize, id: String, name: String, selected: bool, dot: Dot },
    /// The row that adds a project.
    NewProject,
}

/// What a [`SidebarRow`] says.
#[verifier::ext_equal]
pub enum Line {
    NoProjects,
    Project { index: usize, name: Seq<char>, expanded: bool },
    NoAgents,
    Editing(Seq<char>),
    Agent {
        project: usize,
        index: usize,
        id: Seq<char>,
        name: Seq<char>,
        selected: bool,
        dot: Dot,
    },
    NewProject,
}

impl View for SidebarRow {
    type V = Line;

    open spec fn view(&self) -> Line {
        match self {
            SidebarRow::NoProjects => Line::NoProjects,
            SidebarRow::Project { index, name, expanded } => Line::Project {
                index: *index,
                name: name@,
                expanded: *expanded,
            },
            SidebarRow::NoAgents => Line::NoAgents,
            SidebarRow::Editing(id) => Line::Editing(id@),
            SidebarRow::Agent { project, index, id, name, selected, dot } => Line::Agent {
                project: *project,
                index: *index,
                id: id@,
                name: name@,
                selected: *selected,
                dot: *dot,
            },
            SidebarRow::NewProject => Line::NewProject,
        }
    }
}

/// The contents of some rows.
pub open spec fn lines(list: Seq<SidebarRow>) -> Seq<Line> {
    list.map_values(|r: SidebarRow| r@)
}

impl SidebarRow {
    /// What a row is labelled with.
    pub fn label(&self) -> (r: String)
        ensures
            r@ == (match self@ {
                Line::NoProjects => "No projects yet — pick a git repository below."@,
                Line::Project { name, .. } => name,
                Line::NoAgents => "no agents"@,
                Line::Editing(id) => id,
                Line::Agent { name, .. } => name,
                Line::NewProject => "New project"@,
            }),
    {
        match self {
            SidebarRow::NoProjects => owned("No projects yet — pick a git repository below."),
            SidebarRow::Project { name, .. } => name.clone(),
            SidebarRow::NoAgents => owned("no agents"),
            SidebarRow::Editing(id) => id.clone(),
            SidebarRow::Agent { name, .. } => name.clone(),
            SidebarRow::NewProject => owned("New project"),
        }
    }
}

/// The move of projects that is pending.
pub open spec fn pending_projects(d: desk::Desk) -> Option<(usize, usize)> {
    match d.drag {
        Some(desk::Drag::Project(from, to)) => Some((from, to)),
        _ => None,
    }
}

/// The move of a project's agents that is pending.
pub open spec fn pending_agents(d: desk::Desk, p: int) -> Option<(usize, usize)> {
    match d.drag {
        Some(desk::Drag::Agent { project_index, from, to }) => if project_index == p {
            drag::both(projects::agent_pair(d.session.projects, p, from, to))
        } else {
            None
        },
        _ => None,
    }
}

/// The row of an agent.
pub open spec fn agent_line(d: desk::Desk, p: usize, i: usize) -> Line {
    let a = d.session.projects[p as int].agents[i as int];
    if d.editing == Some(a.id) {
        Line::Editing(a.id)
    } else {
        Line::Agent {
            project: p,
            index: i,
            id: a.id,
            name: a.name,
            selected: d.selected == Some(a.id),
            dot: dot_of(d, a.id),
        }
    }
}

/// The rows of a project's agents, in the order a hovering drag would leave
/// them.
pub open spec fn agent_lines(d: desk::Desk, p: usize) -> Seq<Line> {
    let count = d.session.projects[p as int].agents.len();
    if count == 0 {
        seq![Line::NoAgents]
    } else {
        order::shown_order(count, pending_agents(d, p as int)).map_values(
            |i: usize| agent_line(d, p, i),
        )
    }
}

/// The rows of a project: its own, and those of its agents where it is
/// unfolded.
pub open spec fn project_lines(d: desk::Desk, p: usize) -> Seq<Line> {
    let project = d.session.projects[p as int];
    let own = seq![Line::Project { index: p, name: project.name, expanded: project.expanded }];
    if project.expanded {
        own + agent_lines(d, p)
    } else {
        own
    }
}

/// The rows of some projects.
pub open spec fn all_project_lines(d: desk::Desk, order: Seq<usize>) -> Seq<Line>
    decreases order.len(),
{
    if order.len() == 0 {
        Seq::empty()
    } else {
        all_project_lines(d, order.drop_last()) + project_lines(d, order.last())
    }
}

/// The rows of the sidebar.
pub open spec fn sidebar_lines(d: desk::Desk) -> Seq<Line> {
    let count = d.session.projects.len();
    let head = if count == 0 {
        seq![Line::NoProjects]
    } else {
        Seq::empty()
    };
    (head + all_project_lines(d, order::shown_order(count, pending_projects(d)))).push(
        Line::NewProject,
    )
}

fn row(rows: &mut Vec<SidebarRow>, r: SidebarRow)
    ensures
        lines(final(rows)@) == lines(old(rows)@).push(r@),
{
    let ghost before = lines(rows@);
    rows.push(r);
    assert(lines(rows@) =~= before.push(r@));
}

impl Workspace {
    fn agent_row(&self, p: usize, i: usize) -> (r: SidebarRow)
        requires
            p < self.state.projects@.len(),
            i < self.state.projects@[p as int].agents@.len(),
        ensures
            r@ == agent_line(self@, p, i),
    {
        let agent: &AgentRecord = &self.state.projects[p].agents[i];
        assert(agent@ == self@.session.projects[p as int].agents[i as int]);
        let editing: bool = match &self.inline_edit {
            Some(id) => same_text(id.as_str(), agent.id.as_str()),
            None => false,
        };
        if editing {
            return SidebarRow::Editing(agent.id.clone());
        }
        let selected: bool = match &self.selected {
            Some(id) => same_text(id.as_str(), agent.id.as_str()),
            None => false,
        };
        let dot: Dot = if !self.terminals.contains(agent.id.as_str()) {
            Dot::NotStarted
        } else if self.exited.contains(agent.id.as_str()) {
            Dot::Ended
        } else {
            Dot::Running
        };
        SidebarRow::Agent {
            project: p,
            index: i,
            id: agent.id.clone(),
            name: agent.name.clone(),
            selected,
            dot,
        }
    }

    fn push_agents(&self, p: usize, rows: &mut Vec<SidebarRow>)
        requires
            p < self.state.projects@.len(),
        ensures
            lines(final(rows)@) == lines(old(rows)@) + agent_lines(self@, p),
    {
        let agents: &Vec<AgentRecord> = &self.state.projects[p].agents;
        let ghost first = lines(rows@);
        assert(records::agents(agents@) == self@.session.projects[p as int].agents);
        if agents.len() == 0 {
            row(rows, SidebarRow::NoAgents);
            assert(lines(rows@) =~= first + agent_lines(self@, p));
            return;
        }
        let pending: Option<(usize, usize)> = match &self.drag_target {
            Some(DragTarget::Agent { project_index, from, to }) => {
                if *project_index == p {
                    match (find_agent(agents, from.as_str()), find_agent(agents, to.as_str())) {
                        (Some(f), Some(t)) => Some((f, t)),
                        _ => None,
                    }
                } else {
                    None
                }
            },
            _ => None,
        };
        assert(pending == pending_agents(self@, p as int));
        let order: Vec<usize> = preview_order(agents.len(), pending);
        let ghost wanted = agent_lines(self@, p);
        let mut k: usize = 0;
        assert(first + wanted.take(0) =~= first);
        proof {
            order::lemma_order_within(agents@.len(), pending);
        }
        while k < order.len()
            invariant
                k <= order@.len(),
                p < self.state.projects@.len(),
                *agents == self.state.projects@[p as int].agents,
                forall|j: int| 0 <= j < order@.len() ==> #[trigger] order@[j] < agents@.len(),
                wanted == order@.map_values(|i: usize| agent_line(self@, p, i)),
                lines(rows@) == first + wanted.take(k as int),
            decreases order@.len() - k,
        {
            row(rows, self.agent_row(p, order[k]));
            assert(lines(rows@) =~= first + wanted.take(k + 1));
            k += 1;
        }
        assert(wanted.take(wanted.len() as int) =~= wanted);
    }

    /// The rows of the sidebar, or nothing where it is collapsed to a strip
    /// with just a button to show it again.
    pub fn sidebar(&self) -> (r: Option<Vec<SidebarRow>>)
        ensures
            match r {
                Some(rows) => !self@.session.settings.sidebar_collapsed && lines(rows@)
                    == sidebar_lines(self@),
                None => self@.session.settings.sidebar_collapsed,
            },
    {
        if self.state.settings.sidebar_collapsed {
            return None;
        }
        let mut rows: Vec<SidebarRow> = Vec::new();
        assert(lines(rows@) =~= Seq::<Line>::empty());
        if self.state.projects.len() == 0 {
            row(&mut rows, SidebarRow::NoProjects);
            assert(lines(rows@) =~= seq![Line::NoProjects]);
        }
        let pending: Option<(usize, usize)> = match &self.drag_target {
            Some(DragTarget::Project(from, to)) => Some((*from, *to)),
            _ => None,
        };
        let order: Vec<usize> = preview_order(self.state.projects.len(), pending);
        proof {
            order::lemma_order_within(self.state.projects@.len(), pending);
        }
        let ghost head = lines(rows@);
        let mut k: usize = 0;
        assert(head + all_project_lines(self@, order@.take(0)) =~= head);
        while k < order.len()
            invariant
                k <= order@.len(),
                forall|j: int|
                    0 <= j < order@.len() ==> #[trigger] order@[j] < self.state.projects@.len(),
                lines(rows@) == head + all_project_lines(self@, order@.take(k as int)),
            decreases order@.len() - k,
        {
            let p: usize = order[k];
            let ghost before = lines(rows@);
            let project: &ProjectRecord = &self.state.projects[p];
            assert(project@ == self@.session.projects[p as int]);
            row(
                &mut rows,
                SidebarRow::Project {
                    index: p,
                    name: project.name.clone(),
                    expanded: project.expanded,
                },
            );
            if project.expanded {
                self.push_agents(p, &mut rows);
            }
            proof {
                assert(lines(rows@) =~= before + project_lines(self@, p));
                assert(order@.take(k + 1).drop_last() =~= order@.take(k as int));
                assert(order@.take(k + 1).last() == p);
                assert(lines(rows@) =~= head + all_project_lines(self@, order@.take(k + 1)));
            }
            k += 1;
        }
        assert(order@.take(k as int) =~= order@);
        row(&mut rows, SidebarRow::NewProject);
        Some(rows)
    }
}

// ---- Tab bar ----

/// A tab. Only shell tabs can be moved and closed: the agent's tab is the
/// session itself and stays first.
pub struct TabItem {
    pub id: String,
    pub label: String,
    pub active: bool,
    pub shell: bool,
}

/// What a [`TabItem`] says.
#[verifier::ext_equal]
pub struct Flag {
    pub id: Seq<char>,
    pub label: Seq<char>,
    pub active: bool,
    pub shell: bool,
}

impl View for TabItem {
    type V = Flag;

    open spec fn view(&self) -> Flag {
        Flag { id: self.id@, label: self.label@, active: self.active, shell: self.shell }
    }
}

/// The contents of some tabs.
pub open spec fn flags(list: Seq<TabItem>) -> Seq<Flag> {
    list.map_values(|t: TabItem| t@)
}

/// The move of an agent's tabs that is pending.
pub open spec fn pending_tabs(d: desk::Desk, a: records::Agent) -> Option<(usize, usize)> {
    match d.drag {
        Some(desk::Drag::Tab { agent, from, to }) => {
            let ids = edits::tab_ids(a.terminals);
            if agent == a.id {
                match (text::position_of(ids, from), text::position_of(ids, to)) {
                    (Some(f), Some(t)) => Some((f as usize, t as usize)),
                    _ => None,
                }
            } else {
                None
            }
        },
        _ => None,
    }
}

/// The tab bar of an agent: its own tab, and its shells in the order a
/// hovering drag would leave them.
pub open spec fn tab_bar(d: desk::Desk, a: records::Agent) -> Seq<Flag> {
    let active = desk::active_tab(d, a.id);
    seq![Flag { id: a.id, label: "Agent"@, active: active == a.id, shell: false }]
        + order::shown_order(a.terminals.len(), pending_tabs(d, a)).map_values(
        |i: usize|
            Flag {
                id: a.terminals[i as int].id,
                label: a.terminals[i as int].name,
                active: active == a.terminals[i as int].id,
                shell: true,
            },
    )
}

fn flag(tabs: &mut Vec<TabItem>, t: TabItem)
    ensures
        flags(final(tabs)@) == flags(old(tabs)@).push(t@),
{
    let ghost before = flags(tabs@);
    tabs.push(t);
    assert(flags(tabs@) =~= before.push(t@));
}

impl Workspace {
    /// The tab bar of an agent.
    pub fn tabs(&self, agent: &AgentRecord) -> (r: Vec<TabItem>)
        ensures
            flags(r@) == tab_bar(self@, agent@),
    {
        let active: String = self.active_tab(agent.id.as_str());
        let mut r: Vec<TabItem> = Vec::new();
        flag(
            &mut r,
            TabItem {
                id: agent.id.clone(),
                label: owned("Agent"),
                active: same_text(active.as_str(), agent.id.as_str()),
                shell: false,
            },
        );
        let ghost first = flags(r@);
        assert(first =~= seq![
            Flag { id: agent.id@, label: "Agent"@, active: active@ == agent.id@, shell: false },
        ]);
        let pending: Option<(usize, usize)> = match &self.drag_target {
            Some(DragTarget::Tab { agent: dragged, from, to }) => {
                if same_text(dragged.as_str(), agent.id.as_str()) {
                    match (
                        find_tab(&agent.terminals, from.as_str()),
                        find_tab(&agent.terminals, to.as_str()),
                    ) {
                        (Some(f), Some(t)) => Some((f, t)),
                        _ => None,
                    }
                } else {
                    None
                }
            },
            _ => None,
        };
        assert(pending == pending_tabs(self@, agent@));
        let order: Vec<usize> = preview_order(agent.terminals.len(), pending);
        proof {
            order::lemma_order_within(agent.terminals@.len(), pending);
        }
        let ghost wanted = order@.map_values(
            |i: usize|
                Flag {
                    id: agent@.terminals[i as int].id,
                    label: agent@.terminals[i as int].name,
                    active: active@ == agent@.terminals[i as int].id,
                    shell: true,
                },
        );
        let mut k: usize = 0;
        assert(first + wanted.take(0) =~= first);
        while k < order.len()
            invariant
                k <= order@.len(),
                forall|j: int|
                    0 <= j < order@.len() ==> #[trigger] order@[j] < agent.terminals@.len(),
                wanted == order@.map_values(
                    |i: usize|
                        Flag {
                            id: agent@.terminals[i as int].id,
                            label: agent@.terminals[i as int].name,
                            active: active@ == agent@.terminals[i as int].id,
                            shell: true,
                        },
                ),
                flags(r@) == first + wanted.take(k as int),
            decreases order@.len() - k,
        {
            let i: usize = order[k];
            assert(agent@.terminals[i as int] == agent.terminals@[i as int]@);
            flag(
                &mut r,
                TabItem {
                    id: agent.terminals[i].id.clone(),
                    label: agent.terminals[i].name.clone(),
                    active: same_text(active.as_str(), agent.terminals[i].id.as_str()),
                    shell: true,
                },
            );
            assert(flags(r@) =~= first + wanted.take(k + 1));
            k += 1;
        }
        assert(wanted.take(wanted.len() as int) =~= wanted);
        r
    }
}

// ---- Main pane ----

/// What the pane beside the sidebar shows.
pub enum Pane {
    /// No agent is selected.
    Nothing,
    /// The last screen of a terminal that was superseded. The live one that
    /// takes its place is laid out, but not shown until its first output.
    Outgoing { screen: String, live: Option<String> },
    /// A live terminal.
    Terminal(String),
    /// No session of the agent is live: it can be resumed.
    Resumable(String),
}

/// What a [`Pane`] says.
#[verifier::ext_equal]
pub enum Sight {
    Nothing,
    Outgoing { screen: Seq<char>, live: Option<Seq<char>> },
    Terminal(Seq<char>),
    Resumable(Seq<char>),
}

impl View for Pane {
    type V = Sight;

    open spec fn view(&self) -> Sight {
        match self {
            Pane::Nothing => Sight::Nothing,
            Pane::Outgoing { screen, live } => Sight::Outgoing {
                screen: screen@,
                live: text::opt_text(*live),
            },
            Pane::Terminal(id) => Sight::Terminal(id@),
            Pane::Resumable(id) => Sight::Resumable(id@),
        }
    }
}

/// What the pane shows.
pub open spec fn sight(d: desk::Desk) -> Sight {
    match d.selected {
        Some(id) => if records::agent_at(d.session.projects, id) is None {
            Sight::Nothing
        } else {
            let tab = desk::active_tab(d, id);
            if d.outgoing.contains(tab) {
                Sight::Outgoing {
                    screen: tab,
                    live: if d.live.contains(tab) {
                        Some(tab)
                    } else {
                        None
                    },
                }
            } else if d.live.contains(tab) {
                Sight::Terminal(tab)
            } else {
                Sight::Resumable(id)
            }
        },
        None => Sight::Nothing,
    }
}

/// Said where no agent is selected.
pub const NOTHING_SELECTED: &'static str = "Select an agent, or spawn one with + next to a project.";

/// Said where an agent has no live session.
pub const NO_SESSION: &'static str = "No live session for this agent.";

/// The button that resumes a session.
pub fn resume_label(program: &str) -> (r: String)
    ensures
        r@ == "Resume session ("@ + program@ + " "@ + RESUME_FLAG@ + ")"@,
{
    let mut r: String = owned("Resume session (");
    r.push_str(program);
    r.push_str(" ");
    r.push_str(RESUME_FLAG);
    r.push_str(")");
    r
}

impl Workspace {
    /// What the pane beside the sidebar shows.
    pub fn main_pane(&self) -> (r: Pane)
        ensures
            r@ == sight(self@),
    {
        let id: &String = match &self.selected {
            Some(id) => id,
            None => {
                return Pane::Nothing;
            },
        };
        if self.state.agent(id.as_str()).is_none() {
            return Pane::Nothing;
        }
        let tab: String = self.active_tab(id.as_str());
        let live: Option<String> = self.active_terminal(id.as_str());
        if self.outgoing_terminals.contains(tab.as_str()) {
            return Pane::Outgoing { screen: tab, live };
        }
        match live {
            Some(terminal) => Pane::Terminal(terminal),
            None => Pane::Resumable(id.clone()),
        }
    }

    /// The selected agent, where there is such an agent.
    pub fn selected_agent(&self) -> (r: Option<&AgentRecord>)
        ensures
            match r {
                Some(a) => self@.selected matches Some(id) && records::agent_at(
                    self@.session.projects,
                    id,
                ) matches Some((p, i)) && a@ == self@.session.projects[p].agents[i],
                None => self@.selected is None || records::agent_at(
                    self@.session.projects,
                    self@.selected->0,
                ) is None,
            },
    {
        match &self.selected {
            Some(id) => self.state.agent(id.as_str()),
            None => None,
        }
    }
}

/// The screen of a resumed agent never goes blank: until the new process has
/// written something, the old screen is shown.
pub proof fn resuming_keeps_the_screen(d: desk::Desk, id: Seq<char>)
    requires
        d.selected == Some(id),
        records::agent_at(d.session.projects, id) is Some,
        desk::active_tab(d, id) == id,
        d.outgoing.contains(id),
    ensures
        sight(d) matches Sight::Outgoing { screen, .. } && screen == id,
{
}

// ---- Log panel ----

/// Said where the log is empty.
pub const NOTHING_LOGGED: &'static str = "Nothing logged yet.";

/// A line of the log panel: the time, the message, and whether it is an error.
pub open spec fn log_lines(list: Seq<log::Line>) -> Seq<(Seq<char>, Seq<char>, bool)> {
    if list.len() == 0 {
        seq![(Seq::<char>::empty(), NOTHING_LOGGED@, false)]
    } else {
        list.map_values(|l: log::Line| (l.time, l.message, l.level == Level::Error))
    }
}

/// The contents of some log rows.
pub open spec fn log_rows_of(list: Seq<(String, String, bool)>) -> Seq<
    (Seq<char>, Seq<char>, bool),
> {
    list.map_values(|r: (String, String, bool)| (r.0@, r.1@, r.2))
}

/// The lines of the log panel: the time, the message, and whether it is an
/// error. An empty log has one line that says so.
pub fn log_rows(entries: &Vec<Entry>) -> (r: Vec<(String, String, bool)>)
    ensures
        log_rows_of(r@) == log_lines(log::lines(entries@)),
{
    let mut r: Vec<(String, String, bool)> = Vec::new();
    if entries.len() == 0 {
        let none: String = String::new();
        assert(none@ =~= Seq::<char>::empty());
        r.push((none, owned(NOTHING_LOGGED), false));
        assert(log_rows_of(r@) =~= seq![(Seq::<char>::empty(), NOTHING_LOGGED@, false)]);
        return r;
    }
    let ghost wanted = log_lines(log::lines(entries@));
    let mut i: usize = 0;
    assert(log_rows_of(r@) =~= wanted.take(0));
    while i < entries.len()
        invariant
            i <= entries@.len(),
            entries@.len() > 0,
            wanted == log_lines(log::lines(entries@)),
            log_rows_of(r@) == wanted.take(i as int),
        decreases entries@.len() - i,
    {
        let e: &Entry = &entries[i];
        let ghost before = log_rows_of(r@);
        let item: (String, String, bool) = (
            e.time.clone(),
            e.message.clone(),
            e.level == Level::Error,
        );
        r.push(item);
        assert(log_rows_of(r@) =~= before.push((item.0@, item.1@, item.2)));
        assert(log::lines(entries@)[i as int] == e@);
        i += 1;
    }
    assert(wanted.take(wanted.len() as int) =~= wanted);
    assert(wanted.len() == entries@.len());
    r
}

} // verus!
