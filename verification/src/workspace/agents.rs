//! Agents and their terminals: selecting and restoring them, resuming, and
//! choosing a tab.

use vstd::prelude::*;
use vstd::string::*;

use crate::log::Level;
use crate::planner::command;
use crate::state::records;
use crate::state::records::{
    copy_agent, AgentRecord, TerminalTabRecord, RESUME_FLAG,
};
use crate::text;
use crate::text::owned;
use crate::workspace::desk;
use crate::workspace::desk::{list, Effect, Workspace};
use crate::workspace::env;
use crate::workspace::env::{env_notes, parse_env, task_env};

verus! {

// ---- The environment ----

/// The environment field of an agent.
pub open spec fn env_field(a: records::Agent) -> Seq<char> {
    match a.env {
        Some(field) => field,
        None => Seq::empty(),
    }
}

/// The environment for an agent's processes: what describes its task, followed
/// by the preset's own variables. What comes later wins.
pub open spec fn task_vars(
    project: records::Project,
    a: records::Agent,
    process_env: desk::Pairs,
) -> desk::Pairs {
    let task = env::provided(project.path, a.workdir, a.branch);
    task + env::assigned(command::command_words(env_field(a)), task, process_env)
}

/// The environment for the processes of the agent with an id.
pub open spec fn agent_vars(
    s: records::Session,
    id: Seq<char>,
    process_env: desk::Pairs,
) -> desk::Pairs {
    match records::agent_at(s.projects, id) {
        Some((p, i)) => task_vars(s.projects[p], s.projects[p].agents[i], process_env),
        None => Seq::empty(),
    }
}

/// An agent's environment field is read: what is wrong with it is logged.
pub open spec fn env_read(t: desk::Turn, id: Seq<char>) -> desk::Turn {
    match records::agent_at(t.desk.session.projects, id) {
        Some((p, i)) => t.complained(
            env::ignored(
                command::command_words(env_field(t.desk.session.projects[p].agents[i])),
            ),
        ),
        None => t,
    }
}

pub(crate) fn complain(out: &mut Vec<Effect>, field: &str)
    ensures
        desk::acts(final(out)@) == desk::acts(old(out)@) + env::ignored(
            command::command_words(field@),
        ).map_values(|n: Seq<char>| desk::Act::Log(Level::Error, n)),
{
    let notes: Vec<String> = env_notes(field);
    let ghost before = desk::acts(out@);
    let ghost wanted = text::texts(notes@).map_values(
        |n: Seq<char>| desk::Act::Log(Level::Error, n),
    );
    let mut i: usize = 0;
    assert(before + wanted.take(0) =~= before);
    while i < notes.len()
        invariant
            i <= notes@.len(),
            wanted == text::texts(notes@).map_values(
                |n: Seq<char>| desk::Act::Log(Level::Error, n),
            ),
            desk::acts(out@) == before + wanted.take(i as int),
        decreases notes@.len() - i,
    {
        assert(text::texts(notes@)[i as int] == notes@[i as int]@);
        list(out, Effect::Log(Level::Error, notes[i].clone()));
        assert(desk::acts(out@) =~= before + wanted.take(i + 1));
        i += 1;
    }
    assert(wanted.take(wanted.len() as int) =~= wanted);
    assert(wanted.len() == notes@.len());
}

impl Workspace {
    /// The environment for a saved agent's processes. It is worked out from
    /// the session each time, so that resuming and restoring see the same
    /// values as the first spawn, the owning project's path among them.
    pub fn agent_task_env(
        &self,
        id: &str,
        process_env: &Vec<(String, String)>,
        out: &mut Vec<Effect>,
    ) -> (r: Vec<(String, String)>)
        ensures
            text::pairs(r@) == agent_vars(self@.session, id@, text::pairs(process_env@)),
            desk::turn(self@, final(out)@) == env_read(desk::turn(self@, old(out)@), id@),
    {
        match self.state.locate(id) {
            Some((p, i)) => {
                let project = &self.state.projects[p];
                let agent: &AgentRecord = &project.agents[i];
                assert(project@ == self@.session.projects[p as int]);
                assert(agent@ == self@.session.projects[p as int].agents[i as int]);
                let mut r: Vec<(String, String)> = task_env(
                    project.path.as_str(),
                    agent.workdir.as_str(),
                    &agent.branch,
                );
                let empty: String = String::new();
                assert(empty@ =~= Seq::<char>::empty());
                let field: &String = match &agent.env {
                    Some(f) => f,
                    None => &empty,
                };
                let more: Vec<(String, String)> = parse_env(field.as_str(), &r, process_env);
                complain(out, field.as_str());
                let ghost first = text::pairs(r@);
                let ghost rest = text::pairs(more@);
                let mut j: usize = 0;
                assert(first + rest.take(0) =~= first);
                while j < more.len()
                    invariant
                        j <= more@.len(),
                        rest == text::pairs(more@),
                        text::pairs(r@) == first + rest.take(j as int),
                    decreases more@.len() - j,
                {
                    let pair: (String, String) = (more[j].0.clone(), more[j].1.clone());
                    let ghost before = text::pairs(r@);
                    r.push(pair);
                    assert(text::pairs(r@) =~= before.push((pair.0@, pair.1@)));
                    assert(rest[j as int] == (pair.0@, pair.1@));
                    assert(text::pairs(r@) =~= first + rest.take(j + 1));
                    j += 1;
                }
                assert(rest.take(rest.len() as int) =~= rest);
                r
            },
            None => {
                let r: Vec<(String, String)> = Vec::new();
                assert(text::pairs(r@) =~= Seq::<(Seq<char>, Seq<char>)>::empty());
                r
            },
        }
    }
}

// ---- Restoring and resuming ----

/// The command line that resumes an agent: its own, or else that of the agent
/// CLI `program`.
pub open spec fn resume_of(program: Seq<char>, a: records::Agent) -> Seq<char> {
    match a.resume_command {
        Some(line) => line,
        None => program + " "@ + RESUME_FLAG@,
    }
}

fn resume_line(program: &str, a: &AgentRecord) -> (r: String)
    ensures
        r@ == resume_of(program@, a@),
{
    match &a.resume_command {
        Some(line) => line.clone(),
        None => {
            let mut r: String = owned(program);
            r.push_str(" ");
            r.push_str(RESUME_FLAG);
            r
        },
    }
}

/// Shells are started in those tabs that are not live.
pub open spec fn missing_shells(
    t: desk::Turn,
    tabs: Seq<records::Tab>,
    workdir: Seq<char>,
    vars: desk::Pairs,
) -> desk::Turn
    decreases tabs.len(),
{
    if tabs.len() == 0 {
        t
    } else {
        let before = missing_shells(t, tabs.drop_last(), workdir, vars);
        if before.desk.live.contains(tabs.last().id) {
            before
        } else {
            before.shell(tabs.last().id, workdir, vars)
        }
    }
}

/// Shells are started in all tabs.
pub open spec fn all_shells(
    t: desk::Turn,
    tabs: Seq<records::Tab>,
    workdir: Seq<char>,
    vars: desk::Pairs,
) -> desk::Turn
    decreases tabs.len(),
{
    if tabs.len() == 0 {
        t
    } else {
        all_shells(t, tabs.drop_last(), workdir, vars).shell(tabs.last().id, workdir, vars)
    }
}

/// The live ones of some tabs are saved and closed.
pub open spec fn saved_shells(t: desk::Turn, tabs: Seq<records::Tab>) -> desk::Turn
    decreases tabs.len(),
{
    if tabs.len() == 0 {
        t
    } else {
        let before = saved_shells(t, tabs.drop_last());
        let id = tabs.last().id;
        if before.desk.live.contains(id) {
            desk::Turn {
                desk: desk::Desk { live: before.desk.live.remove(id), ..before.desk },
                ..before
            }.act(desk::Act::SaveAndClose(id))
        } else {
            before
        }
    }
}

/// An agent's terminals are started, where they are not live: its session by
/// its resume command, and a shell in each of its tabs.
pub open spec fn brought_back(
    t: desk::Turn,
    project: records::Project,
    a: records::Agent,
    process_env: desk::Pairs,
) -> desk::Turn {
    let vars = task_vars(project, a, process_env);
    let session = if t.desk.live.contains(a.id) {
        t
    } else {
        t.agent(
            a.id,
            resume_of(t.desk.program, a),
            Seq::empty(),
            a.workdir,
            vars,
            process_env,
        )
    };
    missing_shells(session, a.terminals, a.workdir, vars)
}

/// An agent shows its own tab, where it does not show another.
pub open spec fn shown_by_default(t: desk::Turn, id: Seq<char>) -> desk::Turn {
    if t.desk.active.dom().contains(id) {
        t
    } else {
        desk::Turn { desk: desk::Desk { active: t.desk.active.insert(id, id), ..t.desk }, ..t }
    }
}

/// An agent is marked as restored.
pub open spec fn marked(t: desk::Turn, id: Seq<char>) -> desk::Turn {
    desk::Turn { desk: desk::Desk { restored: t.desk.restored.insert(id), ..t.desk }, ..t }
}

/// An agent is restored: once per session, and only where it exists.
pub open spec fn restored(t: desk::Turn, id: Seq<char>, process_env: desk::Pairs) -> desk::Turn {
    let projects = t.desk.session.projects;
    match records::agent_at(projects, id) {
        Some((p, i)) => if t.desk.restored.contains(id) {
            t
        } else {
            shown_by_default(
                brought_back(
                    env_read(marked(t, id), id),
                    projects[p],
                    projects[p].agents[i],
                    process_env,
                ),
                id,
            )
        },
        None => t,
    }
}

/// What is logged when an agent is resumed.
pub open spec fn resuming(program: Seq<char>, a: records::Agent) -> Seq<char> {
    "agent "@ + a.name + ": resuming with `"@ + resume_of(program, a) + "`"@
}

/// A live agent terminal is shut down, and its last screen kept.
pub open spec fn superseded(t: desk::Turn, id: Seq<char>) -> desk::Turn {
    if t.desk.live.contains(id) {
        desk::Turn {
            desk: desk::Desk {
                live: t.desk.live.remove(id),
                outgoing: t.desk.outgoing.insert(id),
                ..t.desk
            },
            ..t
        }.act(desk::Act::Supersede(id))
    } else {
        t
    }
}

/// A kept screen is dropped where nothing is going to take its place.
pub open spec fn unless_live(t: desk::Turn, id: Seq<char>) -> desk::Turn {
    if t.desk.live.contains(id) {
        t
    } else {
        desk::Turn { desk: desk::Desk { outgoing: t.desk.outgoing.remove(id), ..t.desk }, ..t }
    }
}

/// An agent shows its own tab.
pub open spec fn shows_itself(t: desk::Turn, id: Seq<char>) -> desk::Turn {
    desk::Turn { desk: desk::Desk { active: t.desk.active.insert(id, id), ..t.desk }, ..t }
}

/// An agent is resumed: what is live of it is shut down, its tabs' histories
/// saved first, and everything is started anew.
pub open spec fn resumed(t: desk::Turn, id: Seq<char>, process_env: desk::Pairs) -> desk::Turn {
    let projects = t.desk.session.projects;
    match records::agent_at(projects, id) {
        Some((p, i)) => {
            let a = projects[p].agents[i];
            let vars = task_vars(projects[p], a, process_env);
            let down = saved_shells(superseded(t, id), a.terminals);
            let up = env_read(down.logged(resuming(t.desk.program, a)), id).agent(
                id,
                resume_of(t.desk.program, a),
                Seq::empty(),
                a.workdir,
                vars,
                process_env,
            );
            shows_itself(
                marked(all_shells(unless_live(up, id), a.terminals, a.workdir, vars), id),
                id,
            )
        },
        None => t,
    }
}

/// An agent is selected: it is restored, and gets the keyboard.
pub open spec fn chosen(t: desk::Turn, id: Seq<char>, process_env: desk::Pairs) -> desk::Turn {
    desk::focused(
        restored(
            desk::Turn {
                desk: desk::Desk { selected: Some(id), editing: None, ..t.desk },
                ..t
            },
            id,
            process_env,
        ),
        id,
    )
}

impl Workspace {
    fn start_missing(
        &mut self,
        tabs: &Vec<TerminalTabRecord>,
        workdir: &str,
        task_env: &Vec<(String, String)>,
        out: &mut Vec<Effect>,
    )
        ensures
            desk::turn(final(self)@, final(out)@) == missing_shells(
                desk::turn(old(self)@, old(out)@),
                records::tabs(tabs@),
                workdir@,
                text::pairs(task_env@),
            ),
    {
        let ghost first = desk::turn(self@, out@);
        let ghost all = records::tabs(tabs@);
        let mut i: usize = 0;
        while i < tabs.len()
            invariant
                i <= tabs@.len(),
                all == records::tabs(tabs@),
                desk::turn(self@, out@) == missing_shells(
                    first,
                    all.take(i as int),
                    workdir@,
                    text::pairs(task_env@),
                ),
            decreases tabs@.len() - i,
        {
            proof {
                assert(all.take(i + 1).drop_last() =~= all.take(i as int));
                assert(all.take(i + 1).last() == tabs@[i as int]@);
            }
            if !self.terminals.contains(tabs[i].id.as_str()) {
                self.start_shell_tab(tabs[i].id.as_str(), workdir, task_env, out);
            }
            i += 1;
        }
        assert(all.take(i as int) =~= all);
    }

    fn start_all(
        &mut self,
        tabs: &Vec<TerminalTabRecord>,
        workdir: &str,
        task_env: &Vec<(String, String)>,
        out: &mut Vec<Effect>,
    )
        ensures
            desk::turn(final(self)@, final(out)@) == all_shells(
                desk::turn(old(self)@, old(out)@),
                records::tabs(tabs@),
                workdir@,
                text::pairs(task_env@),
            ),
    {
        let ghost first = desk::turn(self@, out@);
        let ghost all = records::tabs(tabs@);
        let mut i: usize = 0;
        while i < tabs.len()
            invariant
                i <= tabs@.len(),
                all == records::tabs(tabs@),
                desk::turn(self@, out@) == all_shells(
                    first,
                    all.take(i as int),
                    workdir@,
                    text::pairs(task_env@),
                ),
            decreases tabs@.len() - i,
        {
            proof {
                assert(all.take(i + 1).drop_last() =~= all.take(i as int));
                assert(all.take(i + 1).last() == tabs@[i as int]@);
            }
            self.start_shell_tab(tabs[i].id.as_str(), workdir, task_env, out);
            i += 1;
        }
        assert(all.take(i as int) =~= all);
    }

    fn save_and_close(&mut self, tabs: &Vec<TerminalTabRecord>, out: &mut Vec<Effect>)
        ensures
            desk::turn(final(self)@, final(out)@) == saved_shells(
                desk::turn(old(self)@, old(out)@),
                records::tabs(tabs@),
            ),
    {
        let ghost first = desk::turn(self@, out@);
        let ghost all = records::tabs(tabs@);
        let mut i: usize = 0;
        while i < tabs.len()
            invariant
                i <= tabs@.len(),
                all == records::tabs(tabs@),
                desk::turn(self@, out@) == saved_shells(first, all.take(i as int)),
            decreases tabs@.len() - i,
        {
            proof {
                assert(all.take(i + 1).drop_last() =~= all.take(i as int));
                assert(all.take(i + 1).last() == tabs@[i as int]@);
            }
            let ghost before = self@.live;
            if self.terminals.remove(tabs[i].id.as_str()) {
                list(out, Effect::SaveAndClose(tabs[i].id.clone()));
            } else {
                assert(before.remove(tabs@[i as int].id@) =~= before);
            }
            i += 1;
        }
        assert(all.take(i as int) =~= all);
    }

    /// Respawn the live processes for a saved agent: the agent session with
    /// its stored resume command, plus one shell per saved tab. Done lazily on
    /// first selection rather than for every saved agent at startup. A no-op
    /// once the agent has been restored this session.
    pub fn restore_agent(
        &mut self,
        id: &str,
        process_env: &Vec<(String, String)>,
        out: &mut Vec<Effect>,
    )
        ensures
            desk::turn(final(self)@, final(out)@) == restored(
                desk::turn(old(self)@, old(out)@),
                id@,
                text::pairs(process_env@),
            ),
    {
        if self.restored.contains(id) {
            return;
        }
        let record: AgentRecord = match self.state.agent(id) {
            Some(a) => copy_agent(a),
            None => {
                return;
            },
        };
        self.restored.insert(id);
        let vars: Vec<(String, String)> = self.agent_task_env(id, process_env, out);
        if !self.terminals.contains(id) {
            let none: Vec<String> = Vec::new();
            assert(text::texts(none@) =~= Seq::<Seq<char>>::empty());
            self.start_agent_terminal(
                id,
                resume_line(self.program.as_str(), &record).as_str(),
                &none,
                record.workdir.as_str(),
                &vars,
                process_env,
                out,
            );
        }
        self.start_missing(&record.terminals, record.workdir.as_str(), &vars, out);
        if self.active_tabs.get(id).is_none() {
            self.active_tabs.insert(id, id);
        }
    }

    /// Resume an agent's session. The agent terminal's last screen stays
    /// until the resumed process draws its first frame. Shell tabs are not
    /// kept in that way: the old and the new one would share one history file.
    pub fn resume_agent(
        &mut self,
        id: &str,
        process_env: &Vec<(String, String)>,
        out: &mut Vec<Effect>,
    )
        ensures
            desk::turn(final(self)@, final(out)@) == resumed(
                desk::turn(old(self)@, old(out)@),
                id@,
                text::pairs(process_env@),
            ),
    {
        let record: AgentRecord = match self.state.agent(id) {
            Some(a) => copy_agent(a),
            None => {
                return;
            },
        };
        let ghost before = self@.live;
        if self.terminals.remove(id) {
            self.outgoing_terminals.insert(id);
            list(out, Effect::Supersede(owned(id)));
        } else {
            assert(before.remove(id@) =~= before);
        }
        self.save_and_close(&record.terminals, out);
        let resume: String = resume_line(self.program.as_str(), &record);
        let mut message: String = owned("agent ");
        message.push_str(record.name.as_str());
        message.push_str(": resuming with `");
        message.push_str(resume.as_str());
        message.push_str("`");
        list(out, Effect::Log(Level::Info, message));
        proof {
            lemma_saved_keeps(
                superseded(desk::turn(old(self)@, old(out)@), id@),
                record@.terminals,
            );
        }
        let vars: Vec<(String, String)> = self.agent_task_env(id, process_env, out);
        let none: Vec<String> = Vec::new();
        assert(text::texts(none@) =~= Seq::<Seq<char>>::empty());
        self.start_agent_terminal(
            id,
            resume.as_str(),
            &none,
            record.workdir.as_str(),
            &vars,
            process_env,
            out,
        );
        if !self.terminals.contains(id) {
            self.outgoing_terminals.remove(id);
        }
        self.start_all(&record.terminals, record.workdir.as_str(), &vars, out);
        self.restored.insert(id);
        self.active_tabs.insert(id, id);
    }

    /// Select an agent. Saved agents get their processes spawned the first
    /// time they are looked at.
    pub fn select_agent(
        &mut self,
        id: &str,
        process_env: &Vec<(String, String)>,
        out: &mut Vec<Effect>,
    )
        ensures
            desk::turn(final(self)@, final(out)@) == chosen(
                desk::turn(old(self)@, old(out)@),
                id@,
                text::pairs(process_env@),
            ),
    {
        self.selected = Some(owned(id));
        self.inline_edit = None;
        self.restore_agent(id, process_env, out);
        self.focus_agent(id, out);
    }

    /// Show another tab of an agent.
    pub fn select_tab(&mut self, agent: &str, tab: &str, out: &mut Vec<Effect>)
        ensures
            desk::turn(final(self)@, final(out)@) == desk::focused(
                desk::Turn {
                    desk: desk::Desk {
                        active: old(self)@.active.insert(agent@, tab@),
                        ..old(self)@
                    },
                    acts: desk::acts(old(out)@),
                },
                agent@,
            ),
    {
        self.active_tabs.insert(agent, tab);
        self.focus_agent(agent, out);
    }
}

proof fn lemma_saved_keeps(t: desk::Turn, tabs: Seq<records::Tab>)
    ensures
        saved_shells(t, tabs).desk == (desk::Desk {
            live: saved_shells(t, tabs).desk.live,
            ..t.desk
        }),
    decreases tabs.len(),
{
    if tabs.len() > 0 {
        lemma_saved_keeps(t, tabs.drop_last());
    }
}

} // verus!
