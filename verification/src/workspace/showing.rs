//! What the window shows and what its dialogs and drags do, said of the
//! workspace before and after.

use vstd::prelude::*;

use crate::dialogs;
use crate::dialogs::SearchOutcome;
use crate::log;
use crate::panel;
use crate::panel::{Button, Choice};
use crate::planner::laws;
use crate::state::records;
use crate::state::records::WorkspaceMode;
use crate::text;
use crate::theme::ThemeMode;
use crate::workspace::desk;
use crate::workspace::drag;
use crate::workspace::order;
use crate::workspace::order::Relative;
use crate::workspace::panels;
use crate::workspace::show;

verus! {

// ---- Sidebar ----

proof fn lemma_counting(n: nat, i: int)
    requires
        0 <= i < n <= usize::MAX,
    ensures
        order::counting(n).len() == n,
        order::counting(n)[i] == i as usize,
        order::shown_order(n, None) == order::counting(n),
{
}

proof fn lemma_rows_of(d: desk::Desk, order: Seq<usize>, k: int, line: show::Line)
    requires
        0 <= k < order.len(),
        show::project_lines(d, order[k]).contains(line),
    ensures
        show::all_project_lines(d, order).contains(line),
    decreases order.len(),
{
    let front = order.drop_last();
    let before = show::all_project_lines(d, front);
    let own = show::project_lines(d, order.last());
    let all = before + own;
    if k < front.len() {
        lemma_rows_of(d, front, k, line);
        let j = choose|j: int| 0 <= j < before.len() && before[j] == line;
        assert(all[j] == line);
    } else {
        let j = choose|j: int| 0 <= j < own.len() && own[j] == line;
        assert(all[before.len() + j] == line);
    }
}

proof fn lemma_only_rows_of(d: desk::Desk, order: Seq<usize>, line: show::Line)
    requires
        show::all_project_lines(d, order).contains(line),
    ensures
        exists|k: int|
            0 <= k < order.len() && #[trigger] show::project_lines(d, order[k]).contains(line),
    decreases order.len(),
{
    let all = show::all_project_lines(d, order);
    if order.len() > 0 {
        let front = order.drop_last();
        let before = show::all_project_lines(d, front);
        let own = show::project_lines(d, order.last());
        let j = choose|j: int| 0 <= j < all.len() && all[j] == line;
        if j < before.len() {
            assert(before[j] == line);
            lemma_only_rows_of(d, front, line);
            let k = choose|k: int|
                0 <= k < front.len() && #[trigger] show::project_lines(d, front[k]).contains(line);
            assert(front[k] == order[k]);
        } else {
            assert(own[j - before.len()] == line);
            assert(show::project_lines(d, order[order.len() - 1]).contains(line));
        }
    }
}

/// The sidebar lists every project, and every agent of an unfolded one: by its
/// name, marked where it is selected, and with a dot that tells whether its
/// session runs, has ended or was not started. The agent whose name is edited
/// has a field in its place, and the last row adds a project.
pub proof fn the_sidebar_lists_everything(d: desk::Desk, p: int, i: int)
    requires
        d.drag is None,
        d.session.projects.len() <= usize::MAX,
        0 <= p < d.session.projects.len(),
        d.session.projects[p].agents.len() <= usize::MAX,
    ensures
        ({
            let rows = show::sidebar_lines(d);
            let project = d.session.projects[p];
            &&& rows.last() == show::Line::NewProject
            &&& rows.contains(
                show::Line::Project {
                    index: p as usize,
                    name: project.name,
                    expanded: project.expanded,
                },
            )
            &&& project.expanded && project.agents.len() == 0 ==> rows.contains(
                show::Line::NoAgents,
            )
            &&& project.expanded && 0 <= i < project.agents.len() ==> {
                let a = project.agents[i];
                &&& d.editing == Some(a.id) ==> rows.contains(show::Line::Editing(a.id))
                &&& d.editing != Some(a.id) ==> rows.contains(
                    show::Line::Agent {
                        project: p as usize,
                        index: i as usize,
                        id: a.id,
                        name: a.name,
                        selected: d.selected == Some(a.id),
                        dot: if !d.live.contains(a.id) {
                            show::Dot::NotStarted
                        } else if d.exited.contains(a.id) {
                            show::Dot::Ended
                        } else {
                            show::Dot::Running
                        },
                    },
                )
            }
        }),
{
    let n = d.session.projects.len();
    let project = d.session.projects[p];
    let order = order::shown_order(n, show::pending_projects(d));
    lemma_counting(n, p);
    assert(order[p] == p as usize);
    let own = show::project_lines(d, p as usize);
    let head = show::Line::Project {
        index: p as usize,
        name: project.name,
        expanded: project.expanded,
    };
    assert(own[0] == head);
    lemma_rows_of(d, order, p, head);
    lemma_listed(d, head);
    if project.expanded && project.agents.len() == 0 {
        assert(own[1] == show::Line::NoAgents);
        lemma_rows_of(d, order, p, show::Line::NoAgents);
        lemma_listed(d, show::Line::NoAgents);
    }
    if project.expanded && 0 <= i < project.agents.len() {
        lemma_counting(project.agents.len(), i);
        let line = show::agent_line(d, p as usize, i as usize);
        let agents = show::agent_lines(d, p as usize);
        assert(agents[i] == line);
        assert(own[i + 1] == line);
        lemma_rows_of(d, order, p, line);
        lemma_listed(d, line);
    }
}

proof fn lemma_listed(d: desk::Desk, line: show::Line)
    requires
        d.session.projects.len() > 0,
        show::all_project_lines(
            d,
            order::shown_order(d.session.projects.len(), show::pending_projects(d)),
        ).contains(line),
    ensures
        show::sidebar_lines(d).contains(line),
{
    let all = show::all_project_lines(
        d,
        order::shown_order(d.session.projects.len(), show::pending_projects(d)),
    );
    let j = choose|j: int| 0 <= j < all.len() && all[j] == line;
    assert(show::sidebar_lines(d)[j] == line);
}

/// A folded project shows none of its agents.
pub proof fn folded_projects_hide_their_agents(
    d: desk::Desk,
    p: usize,
    i: usize,
    id: Seq<char>,
    name: Seq<char>,
    marked: bool,
    dot: show::Dot,
)
    requires
        d.drag is None,
        p < d.session.projects.len() <= usize::MAX,
        !d.session.projects[p as int].expanded,
    ensures
        !show::sidebar_lines(d).contains(
            show::Line::Agent { project: p, index: i, id, name, selected: marked, dot },
        ),
{
    let line = show::Line::Agent { project: p, index: i, id, name, selected: marked, dot };
    let order = order::shown_order(d.session.projects.len(), show::pending_projects(d));
    let rows = show::sidebar_lines(d);
    if rows.contains(line) {
        let all = show::all_project_lines(d, order);
        let j = choose|j: int| 0 <= j < rows.len() && rows[j] == line;
        assert(all[j] == line);
        lemma_only_rows_of(d, order, line);
        let k = choose|k: int|
            0 <= k < order.len() && #[trigger] show::project_lines(d, order[k]).contains(line);
        let own = show::project_lines(d, order[k]);
        let x = choose|x: int| 0 <= x < own.len() && own[x] == line;
        lemma_counting(d.session.projects.len(), k);
        if d.session.projects[k].expanded {
            let agents = show::agent_lines(d, order[k]);
            assert(own[x] == agents[x - 1]);
        }
    }
}

// ---- Tabs and the pane ----

/// The tab bar of an agent has its own tab first and then its shells in order,
/// each by its name; the tab that is shown is marked, and no other.
pub proof fn the_tab_bar_lists_the_tabs(d: desk::Desk, a: records::Agent, i: int)
    requires
        d.drag is None,
        a.terminals.len() <= usize::MAX,
        0 <= i < a.terminals.len(),
    ensures
        ({
            let bar = show::tab_bar(d, a);
            let shown = if d.active.dom().contains(a.id) {
                d.active[a.id]
            } else {
                a.id
            };
            &&& bar.len() == a.terminals.len() + 1
            &&& bar[0] == (show::Flag {
                id: a.id,
                label: "Agent"@,
                active: shown == a.id,
                shell: false,
            })
            &&& bar[i + 1] == (show::Flag {
                id: a.terminals[i].id,
                label: a.terminals[i].name,
                active: shown == a.terminals[i].id,
                shell: true,
            })
        }),
{
    lemma_counting(a.terminals.len(), i);
}

/// The pane shows the selected agent's terminal: the one kept from before while
/// a resumed session has not spoken yet, else the live one, and else an offer
/// to resume it. Without an agent there is nothing to show.
pub proof fn the_pane_shows_the_selected_agent(d: desk::Desk, id: Seq<char>)
    requires
        d.selected == Some(id),
    ensures
        ({
            let tab = if d.active.dom().contains(id) {
                d.active[id]
            } else {
                id
            };
            let known = records::agent_at(d.session.projects, id) is Some;
            &&& !known ==> show::sight(d) == show::Sight::Nothing
            &&& known && d.outgoing.contains(tab) && d.live.contains(tab) ==> show::sight(d)
                == (show::Sight::Outgoing { screen: tab, live: Some(tab) })
            &&& known && d.outgoing.contains(tab) && !d.live.contains(tab) ==> show::sight(d)
                == (show::Sight::Outgoing { screen: tab, live: None })
            &&& known && !d.outgoing.contains(tab) && d.live.contains(tab) ==> show::sight(d)
                == show::Sight::Terminal(tab)
            &&& known && !d.outgoing.contains(tab) && !d.live.contains(tab) ==> show::sight(d)
                == show::Sight::Resumable(id)
        }),
        show::sight(desk::Desk { selected: None, ..d }) == show::Sight::Nothing,
{
}

/// The log panel shows every line with its time, errors marked, oldest first.
pub proof fn the_log_panel_shows_every_line(list: Seq<log::Line>, i: int)
    requires
        0 <= i < list.len(),
    ensures
        show::log_lines(list).len() == list.len(),
        show::log_lines(list)[i] == (list[i].time, list[i].message, list[i].level is Error),
{
}

// ---- Dragging ----

proof fn lemma_place(n: nat, i: int, item: usize)
    requires
        0 <= i <= item < n <= usize::MAX,
    ensures
        order::place_from(order::counting(n), i, item) == Some(item as int),
    decreases item - i,
{
    lemma_counting(n, i);
    if i < item {
        lemma_place(n, i + 1, item);
    }
}

/// A row that something is dragged over gives way once the pointer is past its
/// middle: on the way down not before it, on the way up not behind it. Another
/// project's row then becomes the place where the project would go; the row of
/// the project itself changes nothing.
pub proof fn rows_give_way_past_their_middle(
    d: desk::Desk,
    from: usize,
    over: usize,
    pointer: Relative,
)
    requires
        d.drag is None,
        from < d.session.projects.len() <= usize::MAX,
        over < d.session.projects.len(),
    ensures
        ({
            let past = if over > from {
                pointer != Relative::Before
            } else {
                pointer != Relative::Behind
            };
            &&& from != over && past ==> drag::over_project(d, from, over, pointer)
                == (desk::Desk { drag: Some(desk::Drag::Project(from, over)), ..d })
            &&& from == over || !past ==> drag::over_project(d, from, over, pointer) == d
        }),
{
    let n = d.session.projects.len();
    lemma_place(n, 0, from);
    lemma_place(n, 0, over);
}

/// An agent is only ever dragged within its own project, and a tab within its
/// own agent.
pub proof fn drags_stay_at_home(
    d: desk::Desk,
    home: usize,
    from: Seq<char>,
    other: usize,
    over: Seq<char>,
    agent: Seq<char>,
    other_agent: Seq<char>,
    pointer: Relative,
)
    requires
        home != other,
        agent != other_agent,
    ensures
        drag::over_agent(d, home, from, other, over, pointer) == d,
        drag::over_tab(d, agent, from, other_agent, over, pointer) == d,
        drag::over_agent(d, home, from, home, from, pointer) == d,
        drag::over_tab(d, agent, from, agent, from, pointer) == d,
{
}

// ---- Panels and dialogs ----

/// Opening the log panel shows the end of the log and follows it; closing it
/// stops that. Either is remembered, and doing both leaves the panel as it was.
pub proof fn the_log_panel_opens_and_closes(t: desk::Turn)
    ensures
        ({
            let open = t.desk.session.settings.log_panel_open;
            let after = panels::log_toggled(t);
            &&& after.desk == (desk::Desk {
                session: records::Session {
                    settings: records::Settings {
                        log_panel_open: !open,
                        ..t.desk.session.settings
                    },
                    ..t.desk.session
                },
                ..t.desk
            })
            &&& !open ==> after.acts == t.acts.push(desk::Act::ScrollLog).push(
                desk::Act::PollLog,
            ).push(desk::Act::Persist)
            &&& open ==> after.acts == t.acts.push(desk::Act::StopPolling).push(
                desk::Act::Persist,
            )
            &&& panels::log_toggled(after).desk == t.desk
        }),
{
}

/// An open log panel follows the log: where it has changed, its end is shown,
/// once.
pub proof fn an_open_log_is_followed(t: desk::Turn, version: usize)
    requires
        t.desk.session.settings.log_panel_open,
        version != t.desk.log_seen,
    ensures
        panels::log_polled(t, version).desk == (desk::Desk { log_seen: version, ..t.desk }),
        panels::log_polled(t, version).acts == t.acts.push(desk::Act::ScrollLog),
        panels::log_polled(panels::log_polled(t, version), version) == panels::log_polled(
            t,
            version,
        ),
{
}

/// Closing a dialog closes it and changes nothing else; the keyboard goes back
/// to the terminal that is shown, where there is one.
pub proof fn closing_a_dialog_gives_the_keyboard_back(t: desk::Turn)
    ensures
        panels::dialog_closed(t).desk == (desk::Desk { dialog: None, ..t.desk }),
        t.desk.selected is None ==> panels::dialog_closed(t).acts == t.acts,
        t.desk.selected matches Some(id) ==> panels::dialog_closed(t).acts == (
        if t.desk.live.contains(desk::active_tab(t.desk, id)) {
            t.acts.push(desk::Act::Focus(desk::active_tab(t.desk, id)))
        } else {
            t.acts
        }),
{
}

/// A theme is used at once and remembered.
pub proof fn themes_are_used_at_once(t: desk::Turn)
    ensures
        panels::chip_picked(t, Choice::Theme, 0).desk.session.settings.theme == ThemeMode::Light,
        panels::chip_picked(t, Choice::Theme, 0).acts == t.acts.push(
            desk::Act::ApplyTheme(ThemeMode::Light),
        ).push(desk::Act::Persist),
        panels::chip_picked(t, Choice::Theme, 1).desk.session.settings.theme == ThemeMode::Dark,
        panels::chip_picked(t, Choice::Theme, 1).acts == t.acts.push(
            desk::Act::ApplyTheme(ThemeMode::Dark),
        ).push(desk::Act::Persist),
        panels::chip_picked(t, Choice::Theme, 1).desk == (desk::Desk {
            session: records::Session {
                settings: records::Settings { theme: ThemeMode::Dark, ..t.desk.session.settings },
                ..t.desk.session
            },
            ..t.desk
        }),
{
}

/// What is chosen in a dialog stands in that dialog and nowhere else: a preset
/// and a workspace for a new agent, the two switches of a search, and the
/// planner's preset in the settings.
pub proof fn choices_stand_in_their_dialog(
    t: desk::Turn,
    asking: dialogs::Asking,
    searching: dialogs::Searching,
    form: dialogs::Form,
    index: int,
    row: Option<usize>,
)
    ensures
        ({
            let ask = desk::Turn {
                desk: desk::Desk { dialog: Some(desk::Sheet::NewAgent(asking)), ..t.desk },
                ..t
            };
            let search = desk::Turn {
                desk: desk::Desk { dialog: Some(desk::Sheet::Search(searching)), ..t.desk },
                ..t
            };
            let settings = desk::Desk { dialog: Some(desk::Sheet::Settings(form)), ..t.desk };
            &&& only_dialog(
                ask,
                panels::chip_picked(ask, Choice::Preset, index),
                desk::Sheet::NewAgent(dialogs::Asking { preset: index, ..asking }),
            )
            &&& only_dialog(
                ask,
                panels::chip_picked(ask, Choice::Workspace, 0),
                desk::Sheet::NewAgent(
                    dialogs::Asking { workspace_mode: WorkspaceMode::Auto, ..asking },
                ),
            )
            &&& only_dialog(
                ask,
                panels::chip_picked(ask, Choice::Workspace, 1),
                desk::Sheet::NewAgent(
                    dialogs::Asking { workspace_mode: WorkspaceMode::NewWorktree, ..asking },
                ),
            )
            &&& only_dialog(
                ask,
                panels::chip_picked(ask, Choice::Workspace, 2),
                desk::Sheet::NewAgent(
                    dialogs::Asking { workspace_mode: WorkspaceMode::MainBranch, ..asking },
                ),
            )
            &&& only_dialog(
                search,
                panels::chip_picked(search, Choice::Search, 0),
                desk::Sheet::Search(
                    dialogs::Searching { match_case: !searching.match_case, ..searching },
                ),
            )
            &&& only_dialog(
                search,
                panels::chip_picked(search, Choice::Search, 1),
                desk::Sheet::Search(dialogs::Searching { wrap: !searching.wrap, ..searching }),
            )
            &&& panels::planner_picked(settings, row) == (desk::Desk {
                dialog: Some(
                    desk::Sheet::Settings(dialogs::Form { planner_preset_row: row, ..form }),
                ),
                ..t.desk
            })
        }),
{
}

/// Whether a step changed the open dialog to this, and nothing else.
pub open spec fn only_dialog(before: desk::Turn, after: desk::Turn, sheet: desk::Sheet) -> bool {
    after.acts == before.acts && after.desk == (desk::Desk { dialog: Some(sheet), ..before.desk })
}

/// A dialog's buttons do what they say: cancel and close give it up, previous
/// and next search backward and forward, spawn and save submit it.
pub proof fn buttons_do_what_they_say(t: desk::Turn, entered: Seq<char>)
    ensures
        panels::outcome_of(t.desk, Button::Cancel, entered) == panels::Outcome::Closed,
        panels::outcome_of(t.desk, Button::Close, entered) == panels::Outcome::Closed,
        panels::outcome_of(t.desk, Button::Previous, entered) == (panels::Outcome::Find {
            forward: false,
        }),
        panels::outcome_of(t.desk, Button::Next, entered) == (panels::Outcome::Find {
            forward: true,
        }),
        panels::button_pressed(t, Button::Cancel).desk == (desk::Desk { dialog: None, ..t.desk }),
        panels::button_pressed(t, Button::Close).desk == (desk::Desk { dialog: None, ..t.desk }),
        panels::button_pressed(t, Button::Next) == t,
        panels::button_pressed(t, Button::Previous) == t,
{
}

/// Submitting a new agent's dialog spawns the task that was entered, without
/// the blanks around it, in the dialog's project; without a task, or while one
/// is being planned, it does nothing.
pub proof fn a_submitted_task_is_spawned(
    d: desk::Desk,
    asking: dialogs::Asking,
    entered: Seq<char>,
)
    requires
        d.dialog == Some(desk::Sheet::NewAgent(asking)),
    ensures
        !asking.planning && laws::says_something(entered) ==> panels::submitted(d, entered)
            == (panels::Asked::Spawn {
            project_path: asking.project_path,
            task: text::trim_of(entered),
        }),
        asking.planning || !laws::says_something(entered) ==> panels::submitted(d, entered)
            == panels::Asked::Nothing,
        panels::outcome_of(d, Button::Spawn, entered) == panels::Outcome::Submitted(
            panels::submitted(d, entered),
        ),
{
    laws::lemma_blank(entered);
}

/// Saving the settings takes each field over, without the blanks around it, and
/// the presets of the rows; the projects, the theme and what else is set stay.
pub proof fn saved_settings_are_what_was_entered(t: desk::Turn, f: dialogs::Form)
    requires
        t.desk.dialog == Some(desk::Sheet::Settings(f)),
    ensures
        ({
            let before = t.desk.session.settings;
            let after = panels::settings_saved(t);
            let now = after.desk.session.settings;
            &&& now == (records::Settings {
                presets: now.presets,
                planner_preset: now.planner_preset,
                last_preset: now.last_preset,
                planner_command: text::trim_of(f.planner_command),
                planner_model: text::trim_of(f.planner_model),
                terminal_font: text::trim_of(f.terminal_font),
                ui_font: text::trim_of(f.ui_font),
                ..before
            })
            &&& now.presets == f.rows.map_values(|r: dialogs::Row| read_row(r)).filter(
                |p: Option<records::Preset>| p is Some,
            ).map_values(|p: Option<records::Preset>| p->0)
            &&& now.planner_preset == (match f.planner_preset_row {
                Some(row) => if row < f.rows.len() {
                    match read_row(f.rows[row as int]) {
                        Some(p) => Some(p.name),
                        None => None,
                    }
                } else {
                    None
                },
                None => None,
            })
            &&& 0 <= before.last_preset < now.presets.len() ==> now.last_preset
                == before.last_preset
            &&& after.desk.session.projects == t.desk.session.projects
            &&& after.desk.dialog is None
            &&& after.acts.len() > t.acts.len() && after.acts[t.acts.len() as int]
                == desk::Act::ApplyFonts && after.acts.last() == desk::Act::Persist
        }),
{
    lemma_read_rows(f.rows);
    if let Some(row) = f.planner_preset_row {
        if row < f.rows.len() {
            lemma_read_row(f.rows[row as int]);
        }
    }
}

/// The preset that a row of the settings stands for: none where it is blank,
/// and called by its command where it has no name.
pub open spec fn read_row(r: dialogs::Row) -> Option<records::Preset> {
    if !laws::says_something(r.name) && !laws::says_something(r.command) {
        None
    } else {
        Some(
            records::Preset {
                name: if laws::says_something(r.name) {
                    text::trim_of(r.name)
                } else {
                    text::trim_of(r.command)
                },
                command: text::trim_of(r.command),
                resume_command: None,
                env: text::trim_of(r.env),
            },
        )
    }
}

proof fn lemma_read_row(r: dialogs::Row)
    ensures
        dialogs::preset_of(r) == read_row(r),
{
    laws::lemma_blank(r.name);
    laws::lemma_blank(r.command);
}

proof fn lemma_read_rows(list: Seq<dialogs::Row>)
    ensures
        dialogs::presets_of(list) == list.map_values(|r: dialogs::Row| read_row(r)).filter(
            |p: Option<records::Preset>| p is Some,
        ).map_values(|p: Option<records::Preset>| p->0),
    decreases list.len(),
{
    reveal(Seq::filter);
    let read = list.map_values(|r: dialogs::Row| read_row(r));
    if list.len() > 0 {
        lemma_read_rows(list.drop_last());
        lemma_read_row(list.last());
        assert(read.drop_last() =~= list.drop_last().map_values(
            |r: dialogs::Row| read_row(r),
        ));
    }
    assert(dialogs::presets_of(list) =~= read.filter(
        |p: Option<records::Preset>| p is Some,
    ).map_values(|p: Option<records::Preset>| p->0));
}

/// A new agent's dialog opens on its project, on the preset last used, and on a
/// workspace that the task decides, ready for a task.
pub proof fn a_new_agents_dialog_is_ready(
    project_path: Seq<char>,
    group: Option<Seq<char>>,
    s: records::Settings,
    i: int,
)
    requires
        0 <= s.last_preset < s.presets.len(),
        0 <= i < s.presets.len(),
    ensures
        ({
            let a = dialogs::asking(project_path, group, s);
            &&& a.project_path == project_path
            &&& a.group == group
            &&& a.preset == s.last_preset
            &&& a.workspace_mode == WorkspaceMode::Auto
            &&& !a.planning
            &&& a.error is None
            &&& a.preset_names.len() == s.presets.len()
            &&& a.preset_names[i] == s.presets[i].name
        }),
{
}

/// The settings dialog opens on what is set: each field, a row for each preset,
/// and the planner's preset picked.
pub proof fn the_settings_dialog_shows_what_is_set(s: records::Settings, i: int)
    requires
        0 <= i < s.presets.len() <= usize::MAX,
    ensures
        ({
            let f = dialogs::form(s);
            &&& f.planner_command == s.planner_command
            &&& f.planner_model == s.planner_model
            &&& f.terminal_font == s.terminal_font
            &&& f.ui_font == s.ui_font
            &&& f.rows.len() == s.presets.len()
            &&& f.rows[i] == (dialogs::Row {
                name: s.presets[i].name,
                command: s.presets[i].command,
                env: s.presets[i].env,
            })
            &&& s.planner_preset is None ==> f.planner_preset_row is None
            &&& f.planner_preset_row matches Some(r) ==> r < s.presets.len() && Some(
                s.presets[r as int].name,
            ) == s.planner_preset
            &&& s.planner_preset == Some(s.presets[i].name) ==> f.planner_preset_row is Some
        }),
{
    if let Some(n) = s.planner_preset {
        let names = dialogs::names_of(s.presets);
        text::lemma_position_of(names, n);
        if n == s.presets[i].name {
            assert(names[i] == n);
        }
    }
}

/// Searching is done in the terminal that is shown, and how the dialog says;
/// without one it is refused.
pub proof fn searching_is_done_in_the_shown_terminal(
    t: desk::Turn,
    s: dialogs::Searching,
    id: Seq<char>,
)
    requires
        t.desk.selected == Some(id),
    ensures
        ({
            let tab = desk::active_tab(t.desk, id);
            let live = t.desk.live.contains(tab);
            let open = desk::Desk { dialog: Some(desk::Sheet::Search(s)), ..t.desk };
            &&& live ==> panels::search_step_of(open) == Some((tab, s.match_case, s.wrap))
            &&& !live ==> panels::search_step_of(open) is None
            &&& live && t.desk.dialog is None ==> panels::search_opened(t) == (desk::Turn {
                desk: desk::Desk {
                    dialog: Some(
                        desk::Sheet::Search(
                            dialogs::Searching { match_case: false, wrap: true, status: None },
                        ),
                    ),
                    ..t.desk
                },
                ..t
            })
            &&& live ==> panels::search_opened(desk::Turn { desk: open, ..t }).desk
                == (desk::Desk {
                dialog: Some(desk::Sheet::Search(dialogs::Searching { status: None, ..s })),
                ..t.desk
            })
            &&& !live ==> panels::search_opened(t).desk == (desk::Desk {
                status: panels::search_opened(t).desk.status,
                ..t.desk
            }) && (panels::search_opened(t).desk.status matches Some((_, is_error)) && is_error)
        }),
{
}

/// What is said of a search: nothing where a match was found ahead, where it
/// went on from the other end, that nothing matches, or that nothing more does.
pub proof fn searches_say_how_they_ended(query: Seq<char>, forward: bool)
    ensures
        dialogs::search_result(SearchOutcome::Found { wrapped: false }, forward, query) is None,
        dialogs::search_result(SearchOutcome::Found { wrapped: true }, true, query) == Some(
            "Wrapped to the top"@,
        ),
        dialogs::search_result(SearchOutcome::Found { wrapped: true }, false, query) == Some(
            "Wrapped to the bottom"@,
        ),
        query.len() > 0 ==> (dialogs::search_result(SearchOutcome::NoMatch, forward, query) matches Some(
            m,
        ) && text::has(m, query)),
        dialogs::search_result(SearchOutcome::EndOfBuffer, true, query) != dialogs::search_result(
            SearchOutcome::EndOfBuffer,
            false,
            query,
        ),
        dialogs::search_result(SearchOutcome::EndOfBuffer, true, query) == Some(
            "No more matches below — turn on Wrap around"@,
        ),
        dialogs::search_result(SearchOutcome::EndOfBuffer, false, query) == Some(
            "No more matches above — turn on Wrap around"@,
        ),
{
    let a = "No matches for `"@;
    let m = a + query + "`"@;
    assert(m.subrange(a.len() as int, (a.len() + query.len()) as int) =~= query);
    assert(text::at(m, query, a.len() as int));
    reveal_strlit("No more matches below — turn on Wrap around");
    reveal_strlit("No more matches above — turn on Wrap around");
    assert("No more matches below — turn on Wrap around"@[16] == 'b');
    assert("No more matches above — turn on Wrap around"@[16] == 'a');
}

/// A name that was entered becomes the agent's, without the blanks around it;
/// a blank one changes nothing. Either way the editing is over.
pub proof fn an_entered_name_is_taken(
    t: desk::Turn,
    id: Seq<char>,
    entered: Seq<char>,
    p: int,
    i: int,
    q: int,
    j: int,
)
    requires
        t.desk.editing == Some(id),
        records::agent_at(t.desk.session.projects, id) == Some((p, i)),
        0 <= q < t.desk.session.projects.len(),
        0 <= j < t.desk.session.projects[q].agents.len(),
    ensures
        ({
            let after = panels::name_entered(t, entered);
            let then = t.desk.session.projects[q].agents[j];
            let now = after.desk.session.projects[q].agents[j];
            &&& after.desk.editing is None
            &&& after.acts == t.acts.push(desk::Act::Persist)
            &&& q == p && j == i && laws::says_something(entered) ==> now == (records::Agent {
                name: text::trim_of(entered),
                ..then
            })
            &&& q != p || j != i || !laws::says_something(entered) ==> now == then
            &&& !laws::says_something(entered) ==> after.desk.session == t.desk.session
            &&& after.desk.session.settings == t.desk.session.settings
        }),
{
    records::lemma_agent_from(t.desk.session.projects, 0, id);
    laws::lemma_blank(entered);
}

/// A label is shown whole where it fits, and else cut to fit with a mark at its
/// end: what is left of it is its beginning.
pub proof fn labels_are_cut_at_the_end(s: Seq<char>, max_chars: int)
    requires
        max_chars > 0,
    ensures
        s.len() <= max_chars ==> dialogs::shortened(s, max_chars) == s,
        s.len() > max_chars ==> {
            let cut = dialogs::shortened(s, max_chars);
            &&& cut.last() == '…'
            &&& cut.len() <= max_chars
            &&& cut.drop_last() == s.take(cut.len() - 1)
        },
{
    reveal_strlit("…");
    if s.len() > max_chars {
        let kept = s.take(max_chars - 1);
        let e = text::cut_end(kept, kept.len() as int, text::whites());
        text::lemma_cut_end(kept, kept.len() as int, text::whites());
        let cut = dialogs::shortened(s, max_chars);
        assert(cut =~= s.take(e).push('…'));
        assert(cut.drop_last() =~= s.take(e));
    }
}

/// What the new agent's dialog shows: a field for the task, the presets and the
/// workspaces to choose from, what went wrong, and buttons, unless it waits for
/// a plan.
pub proof fn the_new_agents_dialog_shows_its_state(a: dialogs::Asking)
    ensures
        ({
            let parts = panel::new_agent_parts(a);
            &&& parts.contains(panel::Part::Field(""@, panel::Slot::Task))
            &&& parts[2] == panel::Part::Chips(
                Choice::Preset,
                dialogs::name_chips(a.preset_names, a.preset),
            )
            &&& parts[3] == panel::Part::Chips(
                Choice::Workspace,
                seq![
                    ("Auto"@, a.workspace_mode == WorkspaceMode::Auto),
                    ("New worktree"@, a.workspace_mode == WorkspaceMode::NewWorktree),
                    ("Main branch"@, a.workspace_mode == WorkspaceMode::MainBranch),
                ],
            )
            &&& a.error matches Some(e) ==> parts[4] == panel::Part::Error(e)
            &&& a.planning ==> parts.last() == panel::Part::Busy("Planning workspace with LLM…"@)
            &&& !a.planning ==> parts.last() == panel::Part::Buttons(
                seq![Button::Cancel, Button::Spawn],
            )
        }),
{
    assert(panel::new_agent_parts(a)[1] == panel::Part::Field(""@, panel::Slot::Task));
}

/// Of some chips, the one at the selected index is marked, and no other; each
/// says the name it stands for, as far as it fits.
pub proof fn one_chip_is_marked(names: Seq<Seq<char>>, picked: int, i: int)
    requires
        0 <= i < names.len(),
    ensures
        dialogs::name_chips(names, picked).len() == names.len(),
        dialogs::name_chips(names, picked)[i] == (
            dialogs::shortened(names[i], dialogs::CHIP_LABEL_CHARS as int),
            i == picked,
        ),
{
}

/// What the search dialog shows: a field for the query, its two switches, how
/// the last search ended, and buttons for either direction.
pub proof fn the_search_dialog_shows_its_state(s: dialogs::Searching)
    ensures
        ({
            let parts = panel::search_parts(s);
            &&& parts.contains(panel::Part::Field(""@, panel::Slot::Query))
            &&& parts[2] == panel::Part::Chips(
                Choice::Search,
                seq![("Match case"@, s.match_case), ("Wrap around"@, s.wrap)],
            )
            &&& s.status matches Some(m) ==> parts[3] == panel::Part::Note(m)
            &&& parts.last() == panel::Part::Buttons(
                seq![Button::Close, Button::Previous, Button::Next],
            )
        }),
{
    assert(panel::search_parts(s)[1] == panel::Part::Field(""@, panel::Slot::Query));
}

} // verus!
