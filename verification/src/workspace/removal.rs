//! Removing an agent, together with the worktree it owns.

use vstd::prelude::*;
use vstd::string::*;

use crate::log::Level;
use crate::paths;
use crate::paths::same_path;
use crate::state::edits;
use crate::state::records;
use crate::state::records::{copy_agent, AgentRecord};
use crate::text::{owned, same_text};
use crate::workspace::desk;
use crate::workspace::desk::{list, Effect, Workspace};
use crate::workspace::tabs;
use crate::workspace::tasks;

verus! {

/// Whose an agent's directory is.
#[verifier::ext_equal]
pub enum Claim {
    /// The agent's alone: a worktree of this repository.
    Owned { repo: Seq<char>, workdir: Seq<char> },
    /// Another agent's too.
    Shared,
    /// Not the agent's to delete: the project's own checkout, or already gone.
    Other,
}

/// Whether another agent works in a directory.
pub open spec fn shared(list: Seq<records::Project>, id: Seq<char>, dir: Seq<char>) -> bool {
    exists|p: int, i: int|
        0 <= p < list.len() && 0 <= i < list[p].agents.len() && (#[trigger] list[p].agents[i]).id
            != id && paths::parts_of(list[p].agents[i].workdir) == paths::parts_of(dir)
}

/// Whose an agent's directory is. `is_dir` says whether it is still there.
pub open spec fn claim(
    list: Seq<records::Project>,
    project: records::Project,
    a: records::Agent,
    is_dir: bool,
) -> Claim {
    if a.branch is None || paths::parts_of(a.workdir) == paths::parts_of(project.path) || !is_dir {
        Claim::Other
    } else if shared(list, a.id, a.workdir) {
        Claim::Shared
    } else {
        Claim::Owned { repo: project.path, workdir: a.workdir }
    }
}

/// An agent is gone for good.
pub open spec fn gone(t: desk::Turn, a: records::Agent) -> desk::Turn {
    let told = t.logged("agent "@ + a.name + ": removed"@);
    let down = tabs::torn_down(
        desk::Turn { desk: desk::Desk { status: None, ..told.desk }, ..told },
        a,
    );
    desk::Turn {
        desk: desk::Desk {
            session: edits::session_but(down.desk.session, a.id),
            editing: None,
            ..down.desk
        },
        ..down
    }.act(desk::Act::Persist)
}

/// What is logged where a worktree is kept for another agent.
pub open spec fn keeping(a: records::Agent) -> Seq<char> {
    "agent "@ + a.name + ": keeping worktree "@ + a.workdir + ", another agent is using it"@
}

/// Removing an agent begins: it goes at once where it owns no worktree, and
/// waits for its worktree to be checked where it does.
pub open spec fn removal_begun(t: desk::Turn, id: Seq<char>, is_dir: bool) -> desk::Turn {
    let projects = t.desk.session.projects;
    match records::agent_at(projects, id) {
        Some((p, i)) => {
            let a = projects[p].agents[i];
            match claim(projects, projects[p], a, is_dir) {
                Claim::Owned { .. } => t,
                Claim::Shared => gone(t.logged(keeping(a)), a),
                Claim::Other => gone(t, a),
            }
        },
        None => t,
    }
}

/// The repository and the worktree to check before an agent can go.
pub open spec fn to_check(d: desk::Desk, id: Seq<char>, is_dir: bool) -> Option<
    (Seq<char>, Seq<char>),
> {
    match records::agent_at(d.session.projects, id) {
        Some((p, i)) => match claim(
            d.session.projects,
            d.session.projects[p],
            d.session.projects[p].agents[i],
            is_dir,
        ) {
            Claim::Owned { repo, workdir } => Some((repo, workdir)),
            _ => None,
        },
        None => None,
    }
}

/// The contents of an optional pair of paths.
pub open spec fn paths_of(o: Option<(String, String)>) -> Option<(Seq<char>, Seq<char>)> {
    match o {
        Some(p) => Some((p.0@, p.1@)),
        None => None,
    }
}

/// What is said of a worktree with uncommitted changes.
pub open spec fn dirty_message(a: records::Agent) -> Seq<char> {
    a.name + ": worktree has uncommitted changes — commit or discard them in "@ + a.workdir
        + " first"@
}

/// A worktree was checked: anything but a clean one is left alone, and so is
/// the agent.
pub open spec fn worktree_checked(
    t: desk::Turn,
    id: Seq<char>,
    dirty: Result<bool, Seq<char>>,
) -> desk::Turn {
    let projects = t.desk.session.projects;
    match records::agent_at(projects, id) {
        Some((p, i)) => {
            let a = projects[p].agents[i];
            match dirty {
                Ok(true) => t.said(dirty_message(a), true),
                Ok(false) => t,
                Err(error) => t.said(a.name + ": cannot check the worktree: "@ + error, true),
            }
        },
        None => t,
    }
}

/// What is logged of a worktree that was removed.
pub open spec fn removed_message(a: records::Agent) -> Seq<char> {
    "agent "@ + a.name + ": worktree "@ + a.workdir + " removed, branch "@ + (match a.branch {
        Some(branch) => branch,
        None => "(none)"@,
    }) + " kept"@
}

/// A worktree was removed, or git refused to: only in the former case the
/// agent goes with it.
pub open spec fn worktree_removed(
    t: desk::Turn,
    id: Seq<char>,
    result: Result<(), Seq<char>>,
) -> desk::Turn {
    let projects = t.desk.session.projects;
    match records::agent_at(projects, id) {
        Some((p, i)) => {
            let a = projects[p].agents[i];
            match result {
                Ok(()) => gone(t.logged(removed_message(a)), a),
                Err(error) => t.said(a.name + ": cannot remove the worktree: "@ + error, true),
            }
        },
        None => t,
    }
}

/// The contents of a check's result.
pub open spec fn check_result(r: Result<bool, String>) -> Result<bool, Seq<char>> {
    match r {
        Ok(b) => Ok(b),
        Err(e) => Err(e@),
    }
}

/// The contents of a removal's result.
pub open spec fn removal_result(r: Result<(), String>) -> Result<(), Seq<char>> {
    match r {
        Ok(()) => Ok(()),
        Err(e) => Err(e@),
    }
}

/// Only a worktree that is the agent's alone is ever deleted: it has a branch
/// of its own, it is not the project's checkout, and no other agent works
/// there.
pub proof fn only_owned_worktrees_go(d: desk::Desk, id: Seq<char>, is_dir: bool)
    ensures
        to_check(d, id, is_dir) matches Some((repo, workdir)) ==> {
            &&& is_dir
            &&& paths::parts_of(workdir) != paths::parts_of(repo)
            &&& !shared(d.session.projects, id, workdir)
            &&& exists|p: int, i: int|
                0 <= p < d.session.projects.len() && 0 <= i < d.session.projects[p].agents.len()
                    && (#[trigger] d.session.projects[p].agents[i]).id == id
                    && d.session.projects[p].agents[i].workdir == workdir
                    && d.session.projects[p].agents[i].branch is Some && d.session.projects[p].path
                    == repo
        },
{
    records::lemma_agent_from(d.session.projects, 0, id);
    if let Some((p, i)) = records::agent_at(d.session.projects, id) {
        assert(d.session.projects[p].agents[i].id == id);
    }
}

/// Uncommitted work blocks a removal: the session and the terminals stay
/// exactly as they were.
pub proof fn uncommitted_work_blocks_removal(t: desk::Turn, id: Seq<char>)
    ensures
        worktree_checked(t, id, Ok(true)).desk.session == t.desk.session,
        worktree_checked(t, id, Ok(true)).desk.live == t.desk.live,
        worktree_checked(t, id, Ok(true)).desk.restored == t.desk.restored,
        worktree_checked(t, id, Ok(true)).desk.selected == t.desk.selected,
        records::agent_at(t.desk.session.projects, id) is Some ==> worktree_checked(
            t,
            id,
            Ok(true),
        ).desk.status is Some,
{
}

/// Where git refuses to remove a worktree, nothing has been taken down.
pub proof fn a_refused_removal_changes_nothing(t: desk::Turn, id: Seq<char>, error: Seq<char>)
    ensures
        worktree_removed(t, id, Err(error)).desk == (desk::Desk {
            status: worktree_removed(t, id, Err(error)).desk.status,
            ..t.desk
        }),
{
}

/// An agent that is gone has left nothing: neither in the session nor in what
/// is shown.
pub proof fn a_removed_agent_leaves_nothing(t: desk::Turn, a: records::Agent)
    ensures
        tabs::nothing_left(gone(t, a).desk, a),
        records::agent_at(gone(t, a).desk.session.projects, a.id) is None,
        gone(t, a).desk.status is None,
        gone(t, a).desk.editing is None,
{
    let told = t.logged("agent "@ + a.name + ": removed"@);
    let bare = desk::Turn { desk: desk::Desk { status: None, ..told.desk }, ..told };
    tabs::a_teardown_is_complete(bare, a);
    tabs::lemma_torn_down_keeps(bare, a);
    let list = gone(t, a).desk.session.projects;
    let before = tabs::torn_down(bare, a).desk.session.projects;
    records::lemma_agent_from(list, 0, a.id);
    if let Some((p, i)) = records::agent_at(list, a.id) {
        assert(list[p] == edits::project_but(before[p], a.id));
        let keep = |b: records::Agent| b.id != a.id;
        broadcast use vstd::seq_lib::group_filter_ensures;

        assert(list[p].agents == before[p].agents.filter(keep));
        assert(list[p].agents.contains(list[p].agents[i]));
        assert(keep(list[p].agents[i]));
    }
}

/// Removing an agent keeps every other one, in its own project.
pub proof fn other_agents_stay(list: Seq<records::Agent>, id: Seq<char>, other: records::Agent)
    requires
        list.contains(other),
        other.id != id,
    ensures
        edits::agents_but(list, id).contains(other),
{
    broadcast use vstd::seq_lib::group_filter_ensures;

    let keep = |b: records::Agent| b.id != id;
    assert(keep(other));
    assert(list.filter(keep).contains(other));
}

/// What a filter keeps was there before.
proof fn lemma_filter_from(
    list: Seq<records::Agent>,
    keep: spec_fn(records::Agent) -> bool,
    i: int,
)
    requires
        0 <= i < list.filter(keep).len(),
    ensures
        list.contains(list.filter(keep)[i]),
    decreases list.len(),
{
    reveal(Seq::filter);
    let rest = list.drop_last();
    if i < rest.filter(keep).len() {
        lemma_filter_from(rest, keep, i);
        let k = rest.index_of(rest.filter(keep)[i]);
        assert(list[k] == rest[k]);
    } else {
        assert(list[list.len() - 1] == list.last());
    }
}

/// Removing an agent leaves the others working in directories of their own.
pub proof fn removal_keeps_agents_apart(t: desk::Turn, a: records::Agent)
    requires
        tasks::apart(t.desk.session.projects),
    ensures
        tasks::apart(gone(t, a).desk.session.projects),
{
    let told = t.logged("agent "@ + a.name + ": removed"@);
    let bare = desk::Turn { desk: desk::Desk { status: None, ..told.desk }, ..told };
    tabs::a_teardown_is_complete(bare, a);
    let before = t.desk.session.projects;
    let after = gone(t, a).desk.session.projects;
    assert forall|b: records::Agent| #[trigger] tasks::at_work(after, b) implies tasks::at_work(
        before,
        b,
    ) by {
        let (p, i) = choose|p: int, i: int|
            0 <= p < after.len() && 0 <= i < after[p].agents.len()
                && #[trigger] after[p].agents[i] == b;
        let keep = |c: records::Agent| c.id != a.id;
        assert(after[p].agents == before[p].agents.filter(keep));
        lemma_filter_from(before[p].agents, keep, i);
        let k = before[p].agents.index_of(b);
        assert(before[p].agents[k] == b);
    }
    tasks::fewer_agents_stay_apart(before, after);
}

impl Workspace {
    fn is_shared(&self, id: &str, dir: &str) -> (r: bool)
        ensures
            r == shared(self@.session.projects, id@, dir@),
    {
        let ghost all = self@.session.projects;
        let mut p: usize = 0;
        while p < self.state.projects.len()
            invariant
                p <= self.state.projects@.len(),
                all == self@.session.projects,
                forall|q: int, k: int|
                    0 <= q < p && 0 <= k < all[q].agents.len() ==> (#[trigger] all[q].agents[k]).id
                        == id@ || paths::parts_of(all[q].agents[k].workdir) != paths::parts_of(
                        dir@,
                    ),
            decreases self.state.projects@.len() - p,
        {
            let agents: &Vec<AgentRecord> = &self.state.projects[p].agents;
            let mut i: usize = 0;
            while i < agents.len()
                invariant
                    p < self.state.projects@.len(),
                    all == self@.session.projects,
                    *agents == self.state.projects@[p as int].agents,
                    i <= agents@.len(),
                    forall|k: int|
                        0 <= k < i ==> (#[trigger] all[p as int].agents[k]).id == id@
                            || paths::parts_of(all[p as int].agents[k].workdir)
                            != paths::parts_of(dir@),
                decreases agents@.len() - i,
            {
                assert(all[p as int].agents[i as int] == agents@[i as int]@);
                if !same_text(agents[i].id.as_str(), id) && same_path(
                    agents[i].workdir.as_str(),
                    dir,
                ) {
                    return true;
                }
                i += 1;
            }
            p += 1;
        }
        false
    }

    /// The worktree an agent owns outright, as repository and worktree: the
    /// one that may be deleted with it. Nothing in the cases where the
    /// directory isn't the agent's to delete:
    ///
    /// - base mode, where the agent works in the project's own checkout;
    /// - a worktree another agent is also using, which is logged;
    /// - a workdir that is already gone, as `is_dir` says.
    pub fn owned_worktree(&self, id: &str, is_dir: bool, out: &mut Vec<Effect>) -> (r: Option<
        (String, String),
    >)
        ensures
            paths_of(r) == to_check(self@, id@, is_dir),
            desk::turn(self@, final(out)@) == (match records::agent_at(
                self@.session.projects,
                id@,
            ) {
                Some((p, i)) => {
                    let projects = self@.session.projects;
                    let a = projects[p].agents[i];
                    if claim(projects, projects[p], a, is_dir) is Shared {
                        desk::turn(self@, old(out)@).logged(keeping(a))
                    } else {
                        desk::turn(self@, old(out)@)
                    }
                },
                None => desk::turn(self@, old(out)@),
            }),
    {
        match self.state.locate(id) {
            Some((p, i)) => {
                proof {
                    records::lemma_agent_from(self@.session.projects, 0, id@);
                }
                let project = &self.state.projects[p];
                let a: &AgentRecord = &project.agents[i];
                assert(project@ == self@.session.projects[p as int]);
                assert(a@ == self@.session.projects[p as int].agents[i as int]);
                if a.branch.is_none() || same_path(a.workdir.as_str(), project.path.as_str())
                    || !is_dir {
                    return None;
                }
                if self.is_shared(id, a.workdir.as_str()) {
                    let mut message: String = owned("agent ");
                    message.push_str(a.name.as_str());
                    message.push_str(": keeping worktree ");
                    message.push_str(a.workdir.as_str());
                    message.push_str(", another agent is using it");
                    list(out, Effect::Log(Level::Info, message));
                    return None;
                }
                Some((project.path.clone(), a.workdir.clone()))
            },
            None => None,
        }
    }

    fn finish_removal(&mut self, a: &AgentRecord, out: &mut Vec<Effect>)
        ensures
            desk::turn(final(self)@, final(out)@) == gone(
                desk::turn(old(self)@, old(out)@),
                a@,
            ),
    {
        let mut message: String = owned("agent ");
        message.push_str(a.name.as_str());
        message.push_str(": removed");
        list(out, Effect::Log(Level::Info, message));
        self.status = None;
        self.teardown_agent(a, out);
        self.state.drop_agent(a.id.as_str());
        self.inline_edit = None;
        list(out, Effect::Persist);
    }

    /// Remove an agent and delete the worktree it was working in, but only
    /// once that worktree is clean. Deleting a task kills its terminals and
    /// its checkout with no undo, so uncommitted work blocks the whole
    /// operation rather than being thrown away. The branch survives either
    /// way.
    ///
    /// Returns the repository and the worktree where the latter has to be
    /// checked first, for [`Workspace::settle_check`]. `is_dir` says whether
    /// the agent's directory is still there.
    pub fn remove_agent(&mut self, id: &str, is_dir: bool, out: &mut Vec<Effect>) -> (r: Option<
        (String, String),
    >)
        ensures
            desk::turn(final(self)@, final(out)@) == removal_begun(
                desk::turn(old(self)@, old(out)@),
                id@,
                is_dir,
            ),
            paths_of(r) == to_check(old(self)@, id@, is_dir),
    {
        let record: AgentRecord = match self.state.agent(id) {
            Some(a) => copy_agent(a),
            None => {
                return None;
            },
        };
        let owned_by: Option<(String, String)> = self.owned_worktree(id, is_dir, out);
        if owned_by.is_none() {
            self.finish_removal(&record, out);
        }
        owned_by
    }

    /// An agent's worktree was checked for uncommitted changes. Returns
    /// whether it is to be removed now, for [`Workspace::settle_removal`].
    pub fn settle_check(&mut self, id: &str, dirty: Result<bool, String>, out: &mut Vec<Effect>) -> (r:
        bool)
        ensures
            desk::turn(final(self)@, final(out)@) == worktree_checked(
                desk::turn(old(self)@, old(out)@),
                id@,
                check_result(dirty),
            ),
            r == (records::agent_at(old(self)@.session.projects, id@) is Some && check_result(dirty)
                == Ok::<bool, Seq<char>>(false)),
    {
        let (name, workdir): (String, String) = match self.state.agent(id) {
            Some(a) => (a.name.clone(), a.workdir.clone()),
            None => {
                return false;
            },
        };
        match dirty {
            Ok(true) => {
                let mut message: String = name;
                message.push_str(
                    ": worktree has uncommitted changes — commit or discard them in ",
                );
                message.push_str(workdir.as_str());
                message.push_str(" first");
                self.set_status(message, true, out);
                false
            },
            Ok(false) => true,
            Err(error) => {
                let mut message: String = name;
                message.push_str(": cannot check the worktree: ");
                message.push_str(error.as_str());
                self.set_status(message, true, out);
                false
            },
        }
    }

    /// An agent's worktree was removed, or git refused to. Nothing has been
    /// taken down before: where git refuses, the agent is left exactly as it
    /// was.
    pub fn settle_removal(&mut self, id: &str, result: Result<(), String>, out: &mut Vec<Effect>)
        ensures
            desk::turn(final(self)@, final(out)@) == worktree_removed(
                desk::turn(old(self)@, old(out)@),
                id@,
                removal_result(result),
            ),
    {
        let record: AgentRecord = match self.state.agent(id) {
            Some(a) => copy_agent(a),
            None => {
                return;
            },
        };
        match result {
            Ok(()) => {
                let mut message: String = owned("agent ");
                message.push_str(record.name.as_str());
                message.push_str(": worktree ");
                message.push_str(record.workdir.as_str());
                message.push_str(" removed, branch ");
                match &record.branch {
                    Some(branch) => message.push_str(branch.as_str()),
                    None => message.push_str("(none)"),
                }
                message.push_str(" kept");
                list(out, Effect::Log(Level::Info, message));
                self.finish_removal(&record, out);
            },
            Err(error) => {
                let mut message: String = record.name.clone();
                message.push_str(": cannot remove the worktree: ");
                message.push_str(error.as_str());
                self.set_status(message, true, out);
            },
        }
    }
}

} // verus!
