//! Laws of the single steps of the workspace: what each one changes, and that
//! it changes nothing else.

use vstd::prelude::*;
use vstd::string::*;

use crate::log::Level;
use crate::planner::resolve::Place;
use crate::state::records;
use crate::text;
use crate::workspace::agents;
use crate::workspace::desk;
use crate::workspace::desk::{Act, Desk, Turn};
use crate::workspace::drag;
use crate::workspace::panels;
use crate::workspace::projects;
use crate::workspace::removal;
use crate::workspace::show;
use crate::workspace::tabs;
use crate::workspace::tasks;

verus! {

/// Lines and messages come last among what is to be done. A message is also
/// shown as the status, as the error it is or is not; lines about ignored words
/// are errors, one for each.
pub proof fn messages_are_shown_and_logged(t: Turn, m: Seq<char>, notes: Seq<Seq<char>>, i: int)
    ensures
        t.logged(m).desk == t.desk,
        t.logged(m).acts == t.acts.push(Act::Log(Level::Info, m)),
        t.said(m, true).acts == t.acts.push(Act::Log(Level::Error, m)),
        t.said(m, false).acts == t.acts.push(Act::Log(Level::Info, m)),
        t.said(m, true).desk == (Desk { status: Some((m, true)), ..t.desk }),
        t.said(m, false).desk == (Desk { status: Some((m, false)), ..t.desk }),
        t.complained(notes).desk == t.desk,
        t.complained(notes).acts.len() == t.acts.len() + notes.len(),
        0 <= i < t.acts.len() ==> t.complained(notes).acts[i] == t.acts[i],
        0 <= i < notes.len() ==> t.complained(notes).acts[t.acts.len() + i] == Act::Log(
            Level::Error,
            notes[i],
        ),
{
}

/// A terminal that is started is live and has not ended; no other is touched.
pub proof fn started_terminals_are_live(t: Turn, id: Seq<char>, other: Seq<char>)
    ensures
        t.started(id).desk.live.contains(id),
        !t.started(id).desk.exited.contains(id),
        other != id ==> t.started(id).desk.live.contains(other) == t.desk.live.contains(other),
        other != id ==> t.started(id).desk.exited.contains(other) == t.desk.exited.contains(other),
        t.started(id).desk == (Desk {
            live: t.started(id).desk.live,
            exited: t.started(id).desk.exited,
            ..t.desk
        }),
        t.started(id).acts == t.acts,
{
}

/// A live session that is resumed is shut down, and its last screen kept; one
/// that is not live is left alone. The kept screen is dropped where nothing
/// live takes its place.
pub proof fn superseded_sessions_keep_their_screen(t: Turn, id: Seq<char>, other: Seq<char>)
    ensures
        !t.desk.live.contains(id) ==> agents::superseded(t, id) == t,
        t.desk.live.contains(id) ==> {
            let u = agents::superseded(t, id);
            &&& !u.desk.live.contains(id)
            &&& u.desk.outgoing.contains(id)
            &&& other != id ==> u.desk.live.contains(other) == t.desk.live.contains(other)
            &&& other != id ==> u.desk.outgoing.contains(other) == t.desk.outgoing.contains(other)
            &&& u.acts == t.acts.push(Act::Supersede(id))
            &&& u.desk == (Desk { live: u.desk.live, outgoing: u.desk.outgoing, ..t.desk })
        },
        t.desk.live.contains(id) ==> agents::unless_live(t, id) == t,
        !t.desk.live.contains(id) ==> {
            let u = agents::unless_live(t, id);
            &&& !u.desk.outgoing.contains(id)
            &&& other != id ==> u.desk.outgoing.contains(other) == t.desk.outgoing.contains(other)
            &&& u.acts == t.acts
            &&& u.desk == (Desk { outgoing: u.desk.outgoing, ..t.desk })
        },
{
}

/// An agent that is restored is marked so; it shows its own tab where it is told
/// to, or where it shows none yet.
pub proof fn agents_show_a_tab(t: Turn, id: Seq<char>, other: Seq<char>)
    ensures
        agents::marked(t, id).desk.restored.contains(id),
        other != id ==> agents::marked(t, id).desk.restored.contains(other)
            == t.desk.restored.contains(other),
        agents::marked(t, id).desk == (Desk {
            restored: agents::marked(t, id).desk.restored,
            ..t.desk
        }),
        agents::marked(t, id).acts == t.acts,
        agents::shows_itself(t, id).desk.active.dom().contains(id),
        agents::shows_itself(t, id).desk.active[id] == id,
        other != id ==> agents::shows_itself(t, id).desk.active.dom().contains(other)
            == t.desk.active.dom().contains(other) && agents::shows_itself(t, id).desk.active[other]
            == t.desk.active[other],
        agents::shows_itself(t, id).desk == (Desk {
            active: agents::shows_itself(t, id).desk.active,
            ..t.desk
        }),
        agents::shows_itself(t, id).acts == t.acts,
        t.desk.active.dom().contains(id) ==> agents::shown_by_default(t, id) == t,
        !t.desk.active.dom().contains(id) ==> agents::shown_by_default(t, id)
            == agents::shows_itself(t, id),
        t.desk.active.dom().contains(id) ==> desk::active_tab(t.desk, id) == t.desk.active[id],
        !t.desk.active.dom().contains(id) ==> desk::active_tab(t.desk, id) == id,
{
}

/// The keyboard goes to the tab that an agent shows, where that is live, and
/// nowhere else.
pub proof fn the_keyboard_goes_to_live_tabs(t: Turn, agent: Seq<char>)
    ensures
        t.desk.live.contains(desk::active_tab(t.desk, agent)) ==> desk::focused(t, agent).acts
            == t.acts.push(Act::Focus(desk::active_tab(t.desk, agent))),
        !t.desk.live.contains(desk::active_tab(t.desk, agent)) ==> desk::focused(t, agent).acts
            == t.acts,
        desk::focused(t, agent).desk == t.desk,
{
}

/// A session that is still live is not started again when its agent is brought
/// back; only its missing shells are.
pub proof fn live_sessions_are_not_started_again(
    t: Turn,
    project: records::Project,
    a: records::Agent,
    process_env: desk::Pairs,
)
    requires
        t.desk.live.contains(a.id),
        a.terminals.len() == 0,
    ensures
        agents::brought_back(t, project, a, process_env) == t,
{
}

/// A discarded terminal is nowhere any more, and is told to go exactly where
/// there was something of it; no other is touched.
pub proof fn discarded_terminals_are_nowhere(t: Turn, id: Seq<char>, other: Seq<char>)
    ensures
        ({
            let u = tabs::discarded(t, id);
            &&& !u.desk.live.contains(id) && !u.desk.outgoing.contains(id)
            &&& !u.desk.exited.contains(id)
            &&& other != id ==> u.desk.live.contains(other) == t.desk.live.contains(other)
            &&& other != id ==> u.desk.outgoing.contains(other) == t.desk.outgoing.contains(other)
            &&& other != id ==> u.desk.exited.contains(other) == t.desk.exited.contains(other)
            &&& u.desk == (Desk {
                live: u.desk.live,
                outgoing: u.desk.outgoing,
                exited: u.desk.exited,
                ..t.desk
            })
            &&& t.desk.live.contains(id) || t.desk.outgoing.contains(id) ==> u.acts == t.acts.push(
                Act::Discard(id),
            )
            &&& !t.desk.live.contains(id) && !t.desk.outgoing.contains(id) ==> u.acts == t.acts
        }),
{
}

proof fn lemma_discarding_keeps(t: Turn, ids: Seq<Seq<char>>)
    ensures
        tabs::all_discarded(t, ids).desk == (Desk {
            live: tabs::all_discarded(t, ids).desk.live,
            outgoing: tabs::all_discarded(t, ids).desk.outgoing,
            exited: tabs::all_discarded(t, ids).desk.exited,
            ..t.desk
        }),
        forall|i: int|
            0 <= i < ids.len() ==> !tabs::all_discarded(t, ids).desk.live.contains(
                #[trigger] ids[i],
            ) && !tabs::all_discarded(t, ids).desk.outgoing.contains(ids[i])
                && !tabs::all_discarded(t, ids).desk.exited.contains(ids[i]),
    decreases ids.len(),
{
    if ids.len() > 0 {
        let rest = ids.drop_last();
        lemma_discarding_keeps(t, rest);
        assert forall|i: int| 0 <= i < ids.len() implies !tabs::all_discarded(
            t,
            ids,
        ).desk.live.contains(#[trigger] ids[i]) && !tabs::all_discarded(
            t,
            ids,
        ).desk.outgoing.contains(ids[i]) && !tabs::all_discarded(t, ids).desk.exited.contains(
            ids[i],
        ) by {
            if i < rest.len() {
                assert(rest[i] == ids[i]);
            }
        }
    }
}

/// What is torn down of an agent is everything: its own terminal and its tabs',
/// the tab it shows, the mark that it was restored, and the selection where it
/// was selected. The session is as it was, and so is the selection of another.
pub proof fn torn_down_agents_leave_nothing(t: Turn, a: records::Agent, i: int, other: Seq<char>)
    ensures
        ({
            let u = tabs::torn_down(t, a);
            &&& !u.desk.live.contains(a.id) && !u.desk.outgoing.contains(a.id)
            &&& !u.desk.exited.contains(a.id)
            &&& 0 <= i < a.terminals.len() ==> !u.desk.live.contains(a.terminals[i].id)
                && !u.desk.outgoing.contains(a.terminals[i].id) && !u.desk.exited.contains(
                a.terminals[i].id,
            )
            &&& !u.desk.active.dom().contains(a.id)
            &&& !u.desk.restored.contains(a.id)
            &&& other != a.id ==> u.desk.active.dom().contains(other)
                == t.desk.active.dom().contains(other)
            &&& other != a.id ==> u.desk.restored.contains(other) == t.desk.restored.contains(other)
            &&& t.desk.selected == Some(a.id) ==> u.desk.selected is None
            &&& t.desk.selected != Some(a.id) ==> u.desk.selected == t.desk.selected
            &&& u.desk.session == t.desk.session
            &&& u.desk.dialog == t.desk.dialog
            &&& u.desk.editing == t.desk.editing
            &&& u.desk.status == t.desk.status
            &&& tabs::nothing_left(u.desk, a)
        }),
        ({
            let d = t.desk;
            tabs::nothing_left(d, a) ==> {
                &&& !d.live.contains(a.id) && !d.outgoing.contains(a.id) && !d.exited.contains(a.id)
                &&& 0 <= i < a.terminals.len() ==> !d.live.contains(a.terminals[i].id)
                    && !d.outgoing.contains(a.terminals[i].id) && !d.exited.contains(
                    a.terminals[i].id,
                )
                &&& !d.active.dom().contains(a.id)
                &&& !d.restored.contains(a.id)
                &&& d.selected != Some(a.id)
            }
        }),
{
    let ids = tabs::terminals_of(a);
    lemma_discarding_keeps(t, ids);
    assert(ids[0] == a.id);
    if 0 <= i < a.terminals.len() {
        assert(ids[i + 1] == a.terminals[i].id);
    }
}

/// Removing an agent drops it from the session, tears it down, closes the
/// editing of a name and the status, and saves.
pub proof fn removed_agents_are_gone(t: Turn, a: records::Agent)
    ensures
        ({
            let u = removal::gone(t, a);
            &&& u.desk.editing is None
            &&& u.desk.status is None
            &&& u.acts.last() == Act::Persist
            &&& u.desk.session.projects.len() == t.desk.session.projects.len()
            &&& forall|p: int|
                0 <= p < t.desk.session.projects.len() ==> (
                #[trigger] u.desk.session.projects[p]).agents
                    == t.desk.session.projects[p].agents.filter(
                    |x: records::Agent| x.id != a.id,
                )
            &&& u.desk.session.settings == t.desk.session.settings
            &&& !u.desk.live.contains(a.id)
            &&& u.desk.selected != Some(a.id)
            &&& u.desk.dialog == t.desk.dialog
        }),
{
    let told = t.logged("agent "@ + a.name + ": removed"@);
    let quiet = Turn { desk: Desk { status: None, ..told.desk }, ..told };
    torn_down_agents_leave_nothing(quiet, a, 0, a.id);
}

proof fn lemma_tearing_keeps(t: Turn, list: Seq<records::Agent>)
    ensures
        projects::all_torn_down(t, list).desk.session == t.desk.session,
        forall|i: int|
            0 <= i < list.len() ==> !projects::all_torn_down(t, list).desk.live.contains(
                (#[trigger] list[i]).id,
            ) && projects::all_torn_down(t, list).desk.selected != Some(list[i].id),
        projects::all_torn_down(t, list).desk.live.subset_of(t.desk.live),
        projects::all_torn_down(t, list).desk.selected == t.desk.selected
            || projects::all_torn_down(t, list).desk.selected is None,
    decreases list.len(),
{
    if list.len() > 0 {
        let rest = list.drop_last();
        let before = projects::all_torn_down(t, rest);
        let a = list.last();
        lemma_tearing_keeps(t, rest);
        torn_down_agents_leave_nothing(before, a, 0, a.id);
        lemma_discards_only(before, tabs::terminals_of(a));
        assert forall|i: int| 0 <= i < list.len() implies !projects::all_torn_down(
            t,
            list,
        ).desk.live.contains((#[trigger] list[i]).id) && projects::all_torn_down(
            t,
            list,
        ).desk.selected != Some(list[i].id) by {
            if i < rest.len() {
                assert(rest[i] == list[i]);
            }
        }
    }
}

proof fn lemma_discards_only(t: Turn, ids: Seq<Seq<char>>)
    ensures
        tabs::all_discarded(t, ids).desk.live.subset_of(t.desk.live),
    decreases ids.len(),
{
    if ids.len() > 0 {
        lemma_discards_only(t, ids.drop_last());
    }
}

/// A removed project is gone from the list and the others stay in their order;
/// nothing of its agents is live or selected any more. A place that no project
/// has removes nothing.
pub proof fn removed_projects_are_gone(t: Turn, index: int)
    requires
        0 <= index,
    ensures
        index >= t.desk.session.projects.len() ==> projects::project_removed(t, index) == t,
        index < t.desk.session.projects.len() ==> {
            let u = projects::project_removed(t, index);
            let (was, now) = (t.desk.session.projects, u.desk.session.projects);
            &&& now.len() == was.len() - 1
            &&& forall|p: int| 0 <= p < index ==> #[trigger] now[p] == was[p]
            &&& forall|p: int| index <= p < now.len() ==> #[trigger] now[p] == was[p + 1]
            &&& u.desk.session.settings == t.desk.session.settings
            &&& u.acts.last() == Act::Persist
            &&& forall|i: int|
                0 <= i < was[index].agents.len() ==> !u.desk.live.contains(
                    (#[trigger] was[index].agents[i]).id,
                ) && u.desk.selected != Some(was[index].agents[i].id)
        },
{
    if index < t.desk.session.projects.len() {
        let s = t.desk.session;
        let without = Turn {
            desk: Desk {
                session: records::Session { projects: s.projects.remove(index), ..s },
                ..t.desk
            },
            ..t
        };
        lemma_tearing_keeps(without, s.projects[index].agents);
    }
}

/// The end of a resize is saved; dropping what is dragged leaves the rest.
pub proof fn resizes_and_drags_end(t: Turn)
    ensures
        !projects::stopped_resizing(t).desk.resizing,
        projects::stopped_resizing(t).desk == (Desk { resizing: false, ..t.desk }),
        projects::stopped_resizing(t).acts == t.acts.push(Act::Persist),
        projects::undragged(t).desk.drag is None,
        projects::undragged(t).desk == (Desk { drag: None, ..t.desk }),
        projects::undragged(t).acts == t.acts,
{
}

/// A search opens where a terminal is shown and live: the dialog anew, or the
/// one that is open again. Where none is, that is said.
pub proof fn searches_open_on_a_terminal(t: Turn, id: Seq<char>)
    requires
        t.desk.selected == Some(id),
    ensures
        !t.desk.live.contains(desk::active_tab(t.desk, id)) ==> panels::search_opening(t.desk)
            is Refused && panels::search_opened(t).desk.dialog == t.desk.dialog
            && panels::search_opened(t).desk.status is Some,
        t.desk.live.contains(desk::active_tab(t.desk, id)) && !(t.desk.dialog matches Some(
            desk::Sheet::Search(_),
        )) ==> panels::search_opening(t.desk) is Fresh && panels::search_opened(t).acts == t.acts
            && (panels::search_opened(t).desk.dialog matches Some(desk::Sheet::Search(s))
            && !s.match_case && s.wrap && s.status is None),
        t.desk.live.contains(desk::active_tab(t.desk, id)) && t.desk.dialog is Some
            && t.desk.dialog->0 is Search ==> panels::search_opening(t.desk) is Again,
        t.desk.live.contains(desk::active_tab(t.desk, id)) ==> panels::search_opened(t).desk == (
        Desk { dialog: panels::search_opened(t).desk.dialog, ..t.desk }),
{
}

/// Without a selected agent there is nothing to search.
pub proof fn nothing_selected_is_nothing_to_search(t: Turn)
    requires
        t.desk.selected is None,
    ensures
        panels::search_opening(t.desk) is Refused,
        panels::on_screen(t.desk) is None,
        panels::search_opened(t).desk.dialog == t.desk.dialog,
{
}

/// A move that is dragged is the one pending, and everything else stays; the
/// tabs of another agent are not moved by it.
pub proof fn drags_are_pending(d: Desk, target: desk::Drag, a: records::Agent, p: int)
    ensures
        drag::aimed(d, target).drag == Some(target),
        drag::aimed(d, target) == (Desk { drag: Some(target), ..d }),
        (d.drag matches Some(desk::Drag::Tab { agent, .. }) && agent != a.id) ==> show::pending_tabs(
            d,
            a,
        ) is None,
        (d.drag matches Some(desk::Drag::Agent { project_index, .. }) && project_index != p)
            ==> show::pending_agents(d, p) is None,
        d.drag is None ==> show::pending_tabs(d, a) is None && show::pending_agents(d, p) is None
            && show::pending_projects(d) is None,
        d.drag matches Some(desk::Drag::Project(from, to)) ==> show::pending_projects(d) == Some(
            (from, to),
        ),
{
}

/// A tab over another of its own agent's is pending as the two places they have.
pub proof fn tab_drags_are_pending_in_place(d: Desk, a: records::Agent, f: int, k: int)
    requires
        0 <= f < a.terminals.len() <= usize::MAX,
        0 <= k < a.terminals.len(),
        d.drag == Some(
            (desk::Drag::Tab { agent: a.id, from: a.terminals[f].id, to: a.terminals[k].id }),
        ),
        forall|i: int, j: int|
            0 <= i < j < a.terminals.len() ==> a.terminals[i].id != a.terminals[j].id,
    ensures
        show::pending_tabs(d, a) == Some((f as usize, k as usize)),
{
    let ids = crate::state::edits::tab_ids(a.terminals);
    assert forall|j: int| 0 <= j < f implies ids[j] != a.terminals[f].id by {
        assert(a.terminals[j].id != a.terminals[f].id);
    }
    assert forall|j: int| 0 <= j < k implies ids[j] != a.terminals[k].id by {
        assert(a.terminals[j].id != a.terminals[k].id);
    }
    text::lemma_position_is(ids, a.terminals[f].id, f);
    text::lemma_position_is(ids, a.terminals[k].id, k);
}

/// What is logged of a new agent names it, its branch and its directory; why a
/// place cannot be had names the agent that has it, and where that is.
pub proof fn places_are_named(place: Place, existing: records::Agent)
    ensures
        text::has(tasks::created(place), place.agent_name),
        text::has(tasks::created(place), place.workdir),
        place.branch matches Some(b) ==> text::has(tasks::created(place), b),
        text::has(tasks::taken(existing, place), existing.name),
        text::has(tasks::taken(existing, place), place.workdir),
        place.branch matches Some(b) ==> text::has(tasks::taken(existing, place), b),
{
    let made = tasks::created(place);
    let branch = match place.branch {
        Some(branch) => branch,
        None => "the base checkout"@,
    };
    lemma_within("agent "@, place.agent_name, ": created on "@ + branch + " in "@ + place.workdir);
    assert(made =~= "agent "@ + place.agent_name + (": created on "@ + branch + " in "@
        + place.workdir));
    lemma_within("agent "@ + place.agent_name + ": created on "@, branch, " in "@ + place.workdir);
    assert(made =~= "agent "@ + place.agent_name + ": created on "@ + branch + (" in "@
        + place.workdir));
    let none = Seq::<char>::empty();
    lemma_within(
        "agent "@ + place.agent_name + ": created on "@ + branch + " in "@,
        place.workdir,
        none,
    );
    assert(made =~= "agent "@ + place.agent_name + ": created on "@ + branch + " in "@
        + place.workdir + none);
    let told = tasks::taken(existing, place);
    let (at, advice) = match place.branch {
        Some(b) => (
            "on `"@ + b + "` in "@ + place.workdir,
            "describe this one so it lands on a different branch"@,
        ),
        None => (
            "in the project checkout "@ + place.workdir,
            "spawn this one with New worktree"@,
        ),
    };
    let tail = " — resume that task, or "@ + advice;
    lemma_within("`"@, existing.name, "` is already working "@ + at + tail);
    assert(told =~= "`"@ + existing.name + ("` is already working "@ + at + tail));
    let head = "`"@ + existing.name + "` is already working "@;
    match place.branch {
        Some(b) => {
            lemma_within(head + "on `"@ + b + "` in "@, place.workdir, tail);
            assert(told =~= head + "on `"@ + b + "` in "@ + place.workdir + tail);
            lemma_within(head + "on `"@, b, "` in "@ + place.workdir + tail);
            assert(told =~= head + "on `"@ + b + ("` in "@ + place.workdir + tail));
        },
        None => {
            lemma_within(head + "in the project checkout "@, place.workdir, tail);
            assert(told =~= head + "in the project checkout "@ + place.workdir + tail);
        },
    }
}

proof fn lemma_within(a: Seq<char>, s: Seq<char>, b: Seq<char>)
    ensures
        text::has(a + s + b, s),
{
    let all = a + s + b;
    assert(all.subrange(a.len() as int, (a.len() + s.len()) as int) =~= s);
    assert(text::at(all, s, a.len() as int));
}

} // verus!
