//! Projects: adding and removing them, and reordering what the sidebar and the
//! tab bar list.

use vstd::prelude::*;
use vstd::string::*;

use crate::log::Level;
use crate::paths;
use crate::state::edits;
use crate::state::records;
use crate::state::records::{find_agent, AgentRecord, ProjectRecord};
use crate::text;
use crate::text::{owned, same_text};
use crate::workspace::desk;
use crate::workspace::desk::{list, DragTarget, Effect, Workspace};
use crate::workspace::env;
use crate::workspace::env::shellexpand_home;
use crate::workspace::order;
use crate::workspace::order::reorder;
use crate::workspace::tabs;
use crate::workspace::tasks;

verus! {

// ---- Adding and removing ----

/// A project is added: only a directory with a git repository, and only once.
pub open spec fn project_added(
    t: desk::Turn,
    path: Seq<char>,
    home: Option<Seq<char>>,
    is_dir: bool,
    is_repo: bool,
) -> desk::Turn {
    let full = env::home_expanded(path, home);
    let s = t.desk.session;
    if path.len() == 0 {
        t
    } else if !is_dir {
        t.said("Not a directory: "@ + full, true)
    } else if !is_repo {
        t.said("Not a git repository: "@ + full, true)
    } else if tasks::project_from(s.projects, 0, full) is Some {
        t.said("Project already added"@, true)
    } else {
        let told = t.logged("project added: "@ + full);
        desk::Turn {
            desk: desk::Desk {
                session: records::Session {
                    projects: s.projects.push(records::new_project(full)),
                    ..s
                },
                dialog: None,
                status: None,
                ..told.desk
            },
            ..told
        }.act(desk::Act::Persist)
    }
}

/// Some agents are taken down, one after the other.
pub open spec fn all_torn_down(t: desk::Turn, list: Seq<records::Agent>) -> desk::Turn
    decreases list.len(),
{
    if list.len() == 0 {
        t
    } else {
        tabs::torn_down(all_torn_down(t, list.drop_last()), list.last())
    }
}

/// A project is removed, with everything of its agents.
pub open spec fn project_removed(t: desk::Turn, index: int) -> desk::Turn {
    let s = t.desk.session;
    if index >= s.projects.len() {
        t
    } else {
        all_torn_down(
            desk::Turn {
                desk: desk::Desk {
                    session: records::Session { projects: s.projects.remove(index), ..s },
                    ..t.desk
                },
                ..t
            },
            s.projects[index].agents,
        ).act(desk::Act::Persist)
    }
}

/// Whether no project is listed twice.
pub open spec fn listed_once(list: Seq<records::Project>) -> bool {
    forall|p: int, q: int|
        0 <= p < q < list.len() ==> paths::parts_of((#[trigger] list[p]).path) != paths::parts_of(
            (#[trigger] list[q]).path,
        )
}

proof fn lemma_no_project(list: Seq<records::Project>, p: int, path: Seq<char>)
    requires
        0 <= p <= list.len(),
        tasks::project_from(list, p, path) is None,
    ensures
        forall|q: int|
            p <= q < list.len() ==> paths::parts_of((#[trigger] list[q]).path) != paths::parts_of(
                path,
            ),
    decreases list.len() - p,
{
    if p < list.len() {
        lemma_no_project(list, p + 1, path);
    }
}

/// Adding a project never lists one twice.
pub proof fn projects_are_added_once(
    t: desk::Turn,
    path: Seq<char>,
    home: Option<Seq<char>>,
    is_dir: bool,
    is_repo: bool,
)
    requires
        listed_once(t.desk.session.projects),
    ensures
        listed_once(project_added(t, path, home, is_dir, is_repo).desk.session.projects),
{
    let full = env::home_expanded(path, home);
    let list = t.desk.session.projects;
    if tasks::project_from(list, 0, full) is None {
        lemma_no_project(list, 0, full);
    }
}

proof fn lemma_all_torn_down(t: desk::Turn, list: Seq<records::Agent>)
    ensures
        all_torn_down(t, list).desk.session == t.desk.session,
    decreases list.len(),
{
    if list.len() > 0 {
        lemma_all_torn_down(t, list.drop_last());
        tabs::a_teardown_is_complete(all_torn_down(t, list.drop_last()), list.last());
    }
}

/// Removing a project removes that project and no other, and leaves the other
/// agents working in directories of their own.
pub proof fn only_the_project_goes(t: desk::Turn, index: int)
    requires
        0 <= index < t.desk.session.projects.len(),
    ensures
        project_removed(t, index).desk.session == (records::Session {
            projects: t.desk.session.projects.remove(index),
            ..t.desk.session
        }),
        tasks::apart(t.desk.session.projects) ==> tasks::apart(
            project_removed(t, index).desk.session.projects,
        ),
{
    let s = t.desk.session;
    let bare = desk::Turn {
        desk: desk::Desk {
            session: records::Session { projects: s.projects.remove(index), ..s },
            ..t.desk
        },
        ..t
    };
    lemma_all_torn_down(bare, s.projects[index].agents);
    let after = s.projects.remove(index);
    assert forall|a: records::Agent| #[trigger] tasks::at_work(after, a) implies tasks::at_work(
        s.projects,
        a,
    ) by {
        let (p, i) = choose|p: int, i: int|
            0 <= p < after.len() && 0 <= i < after[p].agents.len()
                && #[trigger] after[p].agents[i] == a;
        let q = if p < index {
            p
        } else {
            p + 1
        };
        assert(after[p] == s.projects[q]);
        assert(s.projects[q].agents[i] == a);
    }
    if tasks::apart(s.projects) {
        tasks::fewer_agents_stay_apart(s.projects, after);
    }
}

impl Workspace {
    /// Add the project at a path that was picked. `is_dir` and `is_repo` say
    /// whether there is a directory and a git repository at the path with its
    /// home directory filled in.
    pub fn add_project(
        &mut self,
        path: &str,
        home: &Option<String>,
        is_dir: bool,
        is_repo: bool,
        out: &mut Vec<Effect>,
    )
        ensures
            desk::turn(final(self)@, final(out)@) == project_added(
                desk::turn(old(self)@, old(out)@),
                path@,
                text::opt_text(*home),
                is_dir,
                is_repo,
            ),
    {
        if path.is_empty() {
            return;
        }
        let full: String = shellexpand_home(path, home);
        if !is_dir {
            let mut message: String = owned("Not a directory: ");
            message.push_str(full.as_str());
            self.set_status(message, true, out);
            return;
        }
        if !is_repo {
            let mut message: String = owned("Not a git repository: ");
            message.push_str(full.as_str());
            self.set_status(message, true, out);
            return;
        }
        if self.find_project(full.as_str()).is_some() {
            self.set_status(owned("Project already added"), true, out);
            return;
        }
        let mut message: String = owned("project added: ");
        message.push_str(full.as_str());
        list(out, Effect::Log(Level::Info, message));
        let ghost before = self@.session.projects;
        let project: ProjectRecord = ProjectRecord::new(full);
        self.state.projects.push(project);
        assert(self@.session.projects =~= before.push(project@));
        self.dialog = None;
        self.status = None;
        list(out, Effect::Persist);
    }

    /// The picker for a project's directory failed.
    pub fn picker_failed(&mut self, error: &str, out: &mut Vec<Effect>)
        ensures
            desk::turn(final(self)@, final(out)@) == desk::turn(old(self)@, old(out)@).said(
                "File picker failed: "@ + error@,
                true,
            ),
    {
        let mut message: String = owned("File picker failed: ");
        message.push_str(error);
        self.set_status(message, true, out);
    }

    /// Remove a project from the list, with everything of its agents. Nothing
    /// on disk but their histories goes.
    pub fn remove_project(&mut self, index: usize, out: &mut Vec<Effect>)
        ensures
            desk::turn(final(self)@, final(out)@) == project_removed(
                desk::turn(old(self)@, old(out)@),
                index as int,
            ),
    {
        if index >= self.state.projects.len() {
            return;
        }
        let ghost before = self@.session.projects;
        let project: ProjectRecord = self.state.projects.remove(index);
        assert(self@.session.projects =~= before.remove(index as int));
        assert(project@ == before[index as int]);
        let ghost first = desk::turn(self@, out@);
        let ghost all = project@.agents;
        let mut i: usize = 0;
        while i < project.agents.len()
            invariant
                i <= project.agents@.len(),
                all == project@.agents,
                desk::turn(self@, out@) == all_torn_down(first, all.take(i as int)),
            decreases project.agents@.len() - i,
        {
            proof {
                assert(all.take(i + 1).drop_last() =~= all.take(i as int));
                assert(all.take(i + 1).last() == project.agents@[i as int]@);
            }
            self.teardown_agent(&project.agents[i], out);
            i += 1;
        }
        assert(all.take(i as int) =~= all);
        list(out, Effect::Persist);
    }

    /// Fold or unfold a project.
    pub fn toggle_project(&mut self, index: usize, out: &mut Vec<Effect>)
        ensures
            desk::turn(final(self)@, final(out)@) == (desk::Turn {
                desk: desk::Desk {
                    session: folded(old(self)@.session, index as int),
                    ..old(self)@
                },
                acts: desk::acts(old(out)@),
            }).act(desk::Act::Persist),
    {
        if index < self.state.projects.len() {
            let ghost before = self.state;
            let project: &mut ProjectRecord = &mut self.state.projects[index];
            project.expanded = !project.expanded;
            proof {
                let wanted = folded(before@, index as int);
                assert forall|q: int| 0 <= q < before.projects@.len() && q != index implies
                #[trigger] self.state@.projects[q] == before@.projects[q] by {
                    assert(self.state.projects@[q] == before.projects@[q]);
                }
                assert(self.state@.projects =~= wanted.projects);
            }
        }
        list(out, Effect::Persist);
    }

    /// Collapse the sidebar to a strip, or show it again.
    pub fn collapse_sidebar(&mut self, collapsed: bool, out: &mut Vec<Effect>)
        ensures
            desk::turn(final(self)@, final(out)@) == (desk::Turn {
                desk: desk::Desk {
                    session: records::Session {
                        settings: records::Settings {
                            sidebar_collapsed: collapsed,
                            ..old(self)@.session.settings
                        },
                        ..old(self)@.session
                    },
                    ..old(self)@
                },
                acts: desk::acts(old(out)@),
            }).act(desk::Act::Persist),
    {
        self.state.settings.sidebar_collapsed = collapsed;
        list(out, Effect::Persist);
    }

    /// The handle beside the sidebar was pressed.
    pub fn start_resizing(&mut self)
        ensures
            final(self)@ == (desk::Desk { resizing: true, ..old(self)@ }),
    {
        self.resizing_sidebar = true;
    }

    /// The pointer moved over the window, with the left button held or not.
    /// Returns whether the sidebar's width follows it.
    pub fn pointer_moved(&mut self, held: bool, out: &mut Vec<Effect>) -> (r: bool)
        ensures
            r == (old(self)@.resizing && held),
            desk::turn(final(self)@, final(out)@) == (if old(self)@.resizing && !held {
                stopped_resizing(desk::turn(old(self)@, old(out)@))
            } else {
                desk::turn(old(self)@, old(out)@)
            }),
    {
        if self.resizing_sidebar {
            if held {
                return true;
            }
            self.resizing_sidebar = false;
            list(out, Effect::Persist);
        }
        false
    }

    /// The left button was released over the window.
    pub fn pointer_released(&mut self, out: &mut Vec<Effect>)
        ensures
            desk::turn(final(self)@, final(out)@) == (if old(self)@.resizing {
                stopped_resizing(desk::turn(old(self)@, old(out)@))
            } else {
                desk::turn(old(self)@, old(out)@)
            }),
    {
        if self.resizing_sidebar {
            self.resizing_sidebar = false;
            list(out, Effect::Persist);
        }
    }
}

/// The sidebar stays as wide as it is.
pub open spec fn stopped_resizing(t: desk::Turn) -> desk::Turn {
    desk::Turn { desk: desk::Desk { resizing: false, ..t.desk }, ..t }.act(desk::Act::Persist)
}

/// A session with one project folded or unfolded.
pub open spec fn folded(s: records::Session, index: int) -> records::Session {
    if 0 <= index < s.projects.len() {
        records::Session {
            projects: s.projects.update(
                index,
                records::Project {
                    expanded: !s.projects[index].expanded,
                    ..s.projects[index]
                },
            ),
            ..s
        }
    } else {
        s
    }
}

// ---- Reordering ----

/// No move is pending.
pub open spec fn undragged(t: desk::Turn) -> desk::Turn {
    desk::Turn { desk: desk::Desk { drag: None, ..t.desk }, ..t }
}

/// A project is moved to sit where another is.
pub open spec fn project_moved(t: desk::Turn, from: int, to: int) -> desk::Turn {
    let u = undragged(t);
    desk::Turn {
        desk: desk::Desk {
            session: records::Session {
                projects: order::moved(u.desk.session.projects, from, to),
                ..u.desk.session
            },
            ..u.desk
        },
        ..u
    }.act(desk::Act::Persist)
}

/// Where two agents of a project are, where both are there.
pub open spec fn agent_pair(
    list: Seq<records::Project>,
    project: int,
    from: Seq<char>,
    to: Seq<char>,
) -> Option<(int, int)> {
    if 0 <= project < list.len() {
        let ids = records::agent_ids(list[project].agents);
        match (text::position_of(ids, from), text::position_of(ids, to)) {
            (Some(f), Some(t)) => Some((f, t)),
            _ => None,
        }
    } else {
        None
    }
}

/// An agent is moved to sit where another of its project is.
pub open spec fn agent_moved(
    t: desk::Turn,
    project: int,
    from: Seq<char>,
    to: Seq<char>,
) -> desk::Turn {
    let u = undragged(t);
    let s = u.desk.session;
    match agent_pair(s.projects, project, from, to) {
        Some((f, k)) => desk::Turn {
            desk: desk::Desk {
                session: records::Session {
                    projects: s.projects.update(
                        project,
                        records::Project {
                            agents: order::moved(s.projects[project].agents, f, k),
                            ..s.projects[project]
                        },
                    ),
                    ..s
                },
                ..u.desk
            },
            ..u
        }.act(desk::Act::Persist),
        None => u,
    }
}

/// Where two tabs of an agent are, where the agent and both are there.
pub open spec fn tab_pair(
    list: Seq<records::Project>,
    agent: Seq<char>,
    from: Seq<char>,
    to: Seq<char>,
) -> Option<(int, int)> {
    match records::agent_at(list, agent) {
        Some((p, i)) => {
            let ids = edits::tab_ids(list[p].agents[i].terminals);
            match (text::position_of(ids, from), text::position_of(ids, to)) {
                (Some(f), Some(t)) => Some((f, t)),
                _ => None,
            }
        },
        None => None,
    }
}

/// A tab is moved to sit where another of its agent is.
pub open spec fn tab_moved(
    t: desk::Turn,
    agent: Seq<char>,
    from: Seq<char>,
    to: Seq<char>,
) -> desk::Turn {
    let u = undragged(t);
    match tab_pair(u.desk.session.projects, agent, from, to) {
        Some(_) => desk::Turn {
            desk: desk::Desk {
                session: edits::changed(u.desk.session, agent, edits::moving(from, to)),
                ..u.desk
            },
            ..u
        }.act(desk::Act::Persist),
        None => u,
    }
}

/// The pending move is made.
pub open spec fn drag_applied(t: desk::Turn) -> desk::Turn {
    match t.desk.drag {
        Some(desk::Drag::Project(from, to)) => project_moved(t, from as int, to as int),
        Some(desk::Drag::Agent { project_index, from, to }) => agent_moved(
            t,
            project_index as int,
            from,
            to,
        ),
        Some(desk::Drag::Tab { agent, from, to }) => tab_moved(t, agent, from, to),
        None => t,
    }
}

impl Workspace {
    /// Move a project to sit where another is.
    pub fn move_project(&mut self, from: usize, to: usize, out: &mut Vec<Effect>)
        ensures
            desk::turn(final(self)@, final(out)@) == project_moved(
                desk::turn(old(self)@, old(out)@),
                from as int,
                to as int,
            ),
    {
        self.drag_target = None;
        proof {
            order::lemma_moved_map(
                self.state.projects@,
                |p: ProjectRecord| p@,
                from as int,
                to as int,
            );
        }
        reorder(&mut self.state.projects, from, to);
        list(out, Effect::Persist);
    }

    /// Move an agent to sit where another of its project is.
    pub fn move_agent(&mut self, project: usize, from: &str, to: &str, out: &mut Vec<Effect>)
        ensures
            desk::turn(final(self)@, final(out)@) == agent_moved(
                desk::turn(old(self)@, old(out)@),
                project as int,
                from@,
                to@,
            ),
    {
        self.drag_target = None;
        if project >= self.state.projects.len() {
            return;
        }
        let f: usize = match find_agent(&self.state.projects[project].agents, from) {
            Some(f) => f,
            None => {
                return;
            },
        };
        let t: usize = match find_agent(&self.state.projects[project].agents, to) {
            Some(t) => t,
            None => {
                return;
            },
        };
        let ghost before = self.state;
        proof {
            order::lemma_moved_map(
                before.projects@[project as int].agents@,
                |a: AgentRecord| a@,
                f as int,
                t as int,
            );
        }
        let record: &mut ProjectRecord = &mut self.state.projects[project];
        reorder(&mut record.agents, f, t);
        proof {
            assert forall|q: int| 0 <= q < before.projects@.len() && q != project implies
            #[trigger] self.state@.projects[q] == before@.projects[q] by {
                assert(self.state.projects@[q] == before.projects@[q]);
            }
            assert(self.state@.projects =~= before@.projects.update(
                project as int,
                records::Project {
                    agents: order::moved(
                        before@.projects[project as int].agents,
                        f as int,
                        t as int,
                    ),
                    ..before@.projects[project as int]
                },
            ));
        }
        list(out, Effect::Persist);
    }

    /// Move a tab to sit where another of its agent is.
    pub fn move_tab(&mut self, agent: &str, from: &str, to: &str, out: &mut Vec<Effect>)
        ensures
            desk::turn(final(self)@, final(out)@) == tab_moved(
                desk::turn(old(self)@, old(out)@),
                agent@,
                from@,
                to@,
            ),
    {
        self.drag_target = None;
        let ghost before = self.state@;
        if self.state.move_tab(agent, from, to) {
            list(out, Effect::Persist);
        } else {
            proof {
                lemma_unmoved(before, agent@, from@, to@);
            }
        }
    }

    /// Commit the previewed move. The preview is authoritative: once the list
    /// has reordered on screen the row under the pointer is the dragged item
    /// itself, so recomputing from the drop target would be a no-op. Returns
    /// whether there was one.
    pub fn apply_drag_target(&mut self, out: &mut Vec<Effect>) -> (r: bool)
        ensures
            desk::turn(final(self)@, final(out)@) == drag_applied(
                desk::turn(old(self)@, old(out)@),
            ),
            r == (old(self)@.drag is Some),
    {
        let mut target: Option<DragTarget> = None;
        let ghost before = self@;
        std::mem::swap(&mut self.drag_target, &mut target);
        assert(self@ =~= (desk::Desk { drag: None, ..before }));
        match target {
            Some(DragTarget::Project(from, to)) => {
                self.move_project(from, to, out);
                true
            },
            Some(DragTarget::Agent { project_index, from, to }) => {
                self.move_agent(project_index, from.as_str(), to.as_str(), out);
                true
            },
            Some(DragTarget::Tab { agent, from, to }) => {
                self.move_tab(agent.as_str(), from.as_str(), to.as_str(), out);
                true
            },
            None => false,
        }
    }

    /// A release outside the list never reaches a drop handler, but the
    /// preview showed where the item would land, so it is committed rather
    /// than snapping back. `dragging` says whether the drag still goes on.
    pub fn release_drag(&mut self, dragging: bool, out: &mut Vec<Effect>)
        ensures
            desk::turn(final(self)@, final(out)@) == (if dragging {
                desk::turn(old(self)@, old(out)@)
            } else {
                drag_applied(desk::turn(old(self)@, old(out)@))
            }),
    {
        if !dragging {
            self.apply_drag_target(out);
        }
    }

    /// A project was dropped on another's row.
    pub fn drop_project(&mut self, dragged: usize, target: usize, out: &mut Vec<Effect>)
        ensures
            desk::turn(final(self)@, final(out)@) == (if old(self)@.drag is Some {
                drag_applied(desk::turn(old(self)@, old(out)@))
            } else {
                project_moved(
                    desk::turn(old(self)@, old(out)@),
                    dragged as int,
                    target as int,
                )
            }),
    {
        if !self.apply_drag_target(out) {
            self.move_project(dragged, target, out);
        }
    }

    /// An agent of one project was dropped on an agent's row. A drop onto
    /// another project's rows is ignored.
    pub fn drop_agent(
        &mut self,
        drag_project: usize,
        dragged: &str,
        project: usize,
        target: &str,
        out: &mut Vec<Effect>,
    )
        ensures
            desk::turn(final(self)@, final(out)@) == (if old(self)@.drag is Some {
                drag_applied(desk::turn(old(self)@, old(out)@))
            } else if drag_project == project {
                agent_moved(
                    desk::turn(old(self)@, old(out)@),
                    project as int,
                    dragged@,
                    target@,
                )
            } else {
                desk::turn(old(self)@, old(out)@)
            }),
    {
        if self.apply_drag_target(out) {
            return;
        }
        if drag_project == project {
            self.move_agent(project, dragged, target, out);
        }
    }

    /// A tab of one agent was dropped on a tab.
    pub fn drop_tab(
        &mut self,
        drag_agent: &str,
        dragged: &str,
        agent: &str,
        target: &str,
        out: &mut Vec<Effect>,
    )
        ensures
            desk::turn(final(self)@, final(out)@) == (if old(self)@.drag is Some {
                drag_applied(desk::turn(old(self)@, old(out)@))
            } else if drag_agent@ == agent@ {
                tab_moved(desk::turn(old(self)@, old(out)@), agent@, dragged@, target@)
            } else {
                desk::turn(old(self)@, old(out)@)
            }),
    {
        if self.apply_drag_target(out) {
            return;
        }
        if same_text(drag_agent, agent) {
            self.move_tab(agent, dragged, target, out);
        }
    }
}

proof fn lemma_unmoved(s: records::Session, agent: Seq<char>, from: Seq<char>, to: Seq<char>)
    requires
        tab_pair(s.projects, agent, from, to) is None,
    ensures
        edits::changed(s, agent, edits::moving(from, to)) == s,
{
    records::lemma_agent_from(s.projects, 0, agent);
    if let Some((p, i)) = records::agent_at(s.projects, agent) {
        let a = s.projects[p].agents[i];
        let b = (edits::moving(from, to))(a);
        assert(b =~= a);
        assert(s.projects[p].agents.update(i, a) =~= s.projects[p].agents);
        assert(records::with_agent(s, p, i, a).projects =~= s.projects);
    }
}

} // verus!
