//! Laws of the views: what a value is said to hold is what it holds, item by
//! item and in order. Every contract speaks of values through these.

use vstd::prelude::*;
use vstd::string::*;

use crate::panel;
use crate::panel::{Part, Piece};
use crate::planner::plan;
use crate::planner::plan::{PlannerCommand, PlannerRun, PlannerSettings, TaskPlan};
use crate::planner::resolve;
use crate::planner::resolve::{Move, Resolver, Step};
use crate::pointer;
use crate::pointer::{Event, Sent};
use crate::start;
use crate::start::PlanArgs;
use crate::terminal::mouse::{Wheel, WheelAction};
use crate::text;
use crate::workspace::desk;
use crate::workspace::desk::{Act, Dialog, Drag, DragTarget, Effect, Sheet, Workspace};
use crate::workspace::env;
use crate::workspace::panels;
use crate::workspace::panels::{Asked, Outcome, Pressed, SearchStep, Submitted};
use crate::workspace::removal;
use crate::workspace::show;
use crate::workspace::show::{Pane, SidebarRow, Sight, TabItem};
use crate::workspace::spawn;
use crate::workspace::spawn::Spawn;
use crate::workspace::tasks;
use crate::workspace::tasks::SpawnRequest;

verus! {

/// Lists of texts and of pairs hold their items, each in its place; an optional
/// text is there exactly where it is.
pub proof fn lists_hold_their_items(
    list: Seq<String>,
    pairs: Seq<(String, String)>,
    o: Option<String>,
    i: int,
)
    ensures
        text::texts(list).len() == list.len(),
        0 <= i < list.len() ==> text::texts(list)[i] == list[i]@,
        text::pairs(pairs).len() == pairs.len(),
        0 <= i < pairs.len() ==> text::pairs(pairs)[i].0 == pairs[i].0@ && text::pairs(pairs)[i].1
            == pairs[i].1@,
        o matches Some(s) ==> text::opt_text(o) == Some(s@),
        o is None ==> text::opt_text(o) is None,
{
}

/// A plan, and how a planner is run, say what they hold.
pub proof fn plans_say_what_they_hold(
    t: TaskPlan,
    s: PlannerSettings,
    c: PlannerCommand,
    r: PlannerRun,
)
    ensures
        t@.mode == t.mode@,
        t@.branch == text::opt_text(t.branch),
        t@.base_branch == text::opt_text(t.base_branch),
        t@.agent_name == text::opt_text(t.agent_name),
        s@.command == s.command@,
        s@.preset_argv == text::texts(s.preset_argv@),
        s@.env == text::pairs(s.env@),
        s@.model == s.model@,
        s@.program == s.program@,
        c@.line == c.line@,
        c@.argv == text::texts(c.argv@),
        r@.program == r.program@,
        r@.args == text::texts(r.args@),
        r@.line == r.line@,
{
}

/// A workspace that was found, and the way to one, say what they hold.
pub proof fn workspaces_say_what_they_hold(w: resolve::Workspace, r: Resolver, s: Step)
    ensures
        w@.workdir == w.workdir@,
        w@.branch == text::opt_text(w.branch),
        w@.agent_name == w.agent_name@,
        r@.existing == r.existing,
        r@.branch == r.branch@,
        r@.base == text::opt_text(r.base),
        r@.agent_name == r.agent_name@,
        r@.parent == r.parent@,
        r@.dir == r.dir@,
        r@.stage == r.stage,
        s matches Step::Git(args) ==> s@ == Move::Git(text::texts(args@)),
        s matches Step::CreateDir(path) ==> s@ == Move::CreateDir(path@),
        s matches Step::Done(w) ==> s@ == Move::Done(w@),
        s matches Step::Fail(e) ==> s@ == Move::Fail(e@),
{
}

/// What is started, and what a task asks for, say what they hold.
pub proof fn requests_say_what_they_hold(s: Spawn, r: SpawnRequest)
    ensures
        s@.program == s.program@,
        s@.args == text::texts(s.args@),
        s@.env == text::pairs(s.env@),
        r@.preset == r.preset@,
        r@.workspace_mode == r.workspace_mode,
        r@.planner == r.planner@,
{
}

/// The desk says what it holds: each set and map of ids by what is in it.
pub proof fn the_desk_says_what_it_holds(w: Workspace)
    ensures
        w@.session == w.state@,
        w@.program == w.program@,
        w@.live == w.terminals@,
        w@.exited == w.exited@,
        w@.active == w.active_tabs@,
        w@.outgoing == w.outgoing_terminals@,
        w@.restored == w.restored@,
        w@.selected == text::opt_text(w.selected),
        w@.editing == text::opt_text(w.inline_edit),
        w@.resizing == w.resizing_sidebar,
        w.status matches Some(s) ==> w@.status == Some((s.0@, s.1)),
        w.status is None ==> w@.status is None,
        w.dialog matches Some(d) ==> w@.dialog == Some(d@),
        w.dialog is None ==> w@.dialog is None,
        w.drag_target matches Some(d) ==> w@.drag == Some(d@),
        w.drag_target is None ==> w@.drag is None,
        w@.log_seen == w.log_version,
{
}

/// An open dialog is the dialog it is, and a pending move the move it is.
pub proof fn dialogs_and_drags_say_what_they_are(d: Dialog, t: DragTarget)
    ensures
        d matches Dialog::NewAgent(x) ==> d@ == Sheet::NewAgent(x@),
        d matches Dialog::Search(x) ==> d@ == Sheet::Search(x@),
        d matches Dialog::Settings(x) ==> d@ == Sheet::Settings(x@),
        t matches DragTarget::Project(a, b) ==> t@ == Drag::Project(a, b),
        t matches DragTarget::Agent { project_index, from, to } ==> t@ == (Drag::Agent {
            project_index,
            from: from@,
            to: to@,
        }),
        t matches DragTarget::Tab { agent, from, to } ==> t@ == (Drag::Tab {
            agent: agent@,
            from: from@,
            to: to@,
        }),
{
}

/// An effect says what is to be done, and to what; a list of them in order.
pub proof fn effects_say_what_is_to_be_done(e: Effect, list: Seq<Effect>, i: int)
    ensures
        e matches Effect::Persist ==> e@ == Act::Persist,
        e matches Effect::Log(level, m) ==> e@ == Act::Log(level, m@),
        e matches Effect::SpawnAgent { id, spawn, workdir } ==> e@ == (Act::SpawnAgent {
            id: id@,
            spawn: spawn@,
            workdir: workdir@,
        }),
        e matches Effect::SpawnShell { id, workdir, env } ==> e@ == (Act::SpawnShell {
            id: id@,
            workdir: workdir@,
            env: text::pairs(env@),
        }),
        e matches Effect::Supersede(id) ==> e@ == Act::Supersede(id@),
        e matches Effect::SaveAndClose(id) ==> e@ == Act::SaveAndClose(id@),
        e matches Effect::Discard(id) ==> e@ == Act::Discard(id@),
        e matches Effect::SaveHistories ==> e@ == Act::SaveHistories,
        e matches Effect::Focus(id) ==> e@ == Act::Focus(id@),
        e matches Effect::ApplyFonts ==> e@ == Act::ApplyFonts,
        e matches Effect::ApplyTheme(mode) ==> e@ == Act::ApplyTheme(mode),
        e matches Effect::ScrollLog ==> e@ == Act::ScrollLog,
        e matches Effect::PollLog ==> e@ == Act::PollLog,
        e matches Effect::StopPolling ==> e@ == Act::StopPolling,
        desk::acts(list).len() == list.len(),
        0 <= i < list.len() ==> desk::acts(list)[i] == list[i]@,
{
}

/// What submitting or pressing a button comes to is said as it is.
pub proof fn outcomes_say_what_they_are(s: Submitted, p: Pressed)
    ensures
        s matches Submitted::Nothing ==> s@ == Asked::Nothing,
        s matches Submitted::Spawn { project_path, task } ==> s@ == (Asked::Spawn {
            project_path: project_path@,
            task: task@,
        }),
        s matches Submitted::Search ==> s@ == Asked::Search,
        s matches Submitted::Saved ==> s@ == Asked::Saved,
        p matches Pressed::Closed ==> p@ == Outcome::Closed,
        p matches Pressed::Find { forward } ==> p@ == (Outcome::Find { forward }),
        p matches Pressed::Submitted(x) ==> p@ == Outcome::Submitted(x@),
{
}

/// What is shown says what it shows: rows, tabs and the pane.
pub proof fn what_is_shown_says_what_it_shows(r: SidebarRow, t: TabItem, p: Pane)
    ensures
        r matches SidebarRow::NoProjects ==> r@ == show::Line::NoProjects,
        r matches SidebarRow::Project { index, name, expanded } ==> r@ == (show::Line::Project {
            index,
            name: name@,
            expanded,
        }),
        r matches SidebarRow::NoAgents ==> r@ == show::Line::NoAgents,
        r matches SidebarRow::Editing(id) ==> r@ == show::Line::Editing(id@),
        r matches SidebarRow::Agent { project, index, id, name, selected, dot } ==> r@ == (
        show::Line::Agent { project, index, id: id@, name: name@, selected, dot }),
        r matches SidebarRow::NewProject ==> r@ == show::Line::NewProject,
        t@.id == t.id@,
        t@.label == t.label@,
        t@.active == t.active,
        t@.shell == t.shell,
        p matches Pane::Nothing ==> p@ == Sight::Nothing,
        p matches Pane::Outgoing { screen, live } ==> p@ == (Sight::Outgoing {
            screen: screen@,
            live: text::opt_text(live),
        }),
        p matches Pane::Terminal(id) ==> p@ == Sight::Terminal(id@),
        p matches Pane::Resumable(id) ==> p@ == Sight::Resumable(id@),
{
}

/// The pieces of a dialog say what they show, and a list of them in order.
pub proof fn pieces_say_what_they_show(p: Piece, list: Seq<Piece>, i: int)
    ensures
        p matches Piece::Title(s) ==> p@ == Part::Title(s@),
        p matches Piece::Field(s, slot) ==> p@ == Part::Field(s@, slot),
        p matches Piece::Heading(s) ==> p@ == Part::Heading(s@),
        p matches Piece::Note(s) ==> p@ == Part::Note(s@),
        p matches Piece::Error(s) ==> p@ == Part::Error(s@),
        p matches Piece::Busy(s) ==> p@ == Part::Busy(s@),
        p matches Piece::FontSize ==> p@ == Part::FontSize,
        p matches Piece::RemovePreset(k) ==> p@ == Part::RemovePreset(k),
        p matches Piece::AddPreset(s) ==> p@ == Part::AddPreset(s@),
        p matches Piece::Buttons(b) ==> p@ == Part::Buttons(b@),
        p matches Piece::Chips(choice, c) ==> (p@ matches Part::Chips(x, chips) && x == choice
            && chips.len() == c@.len() && (0 <= i < c@.len() ==> chips[i].0 == c@[i].label@
            && chips[i].1 == c@[i].selected)),
        p matches Piece::PlannerChips(first, rest) ==> (p@ matches Part::PlannerChips(x, chips)
            && x.0 == first.label@ && x.1 == first.selected && chips.len() == rest@.len() && (0 <= i
            < rest@.len() ==> chips[i].0 == rest@[i].0 && chips[i].1 == rest@[i].1.label@
            && chips[i].2 == rest@[i].1.selected)),
        panel::parts(list).len() == list.len(),
        0 <= i < list.len() ==> panel::parts(list)[i] == list[i]@,
{
}

/// What is sent to the devices, and what the wheel calls for, is said as it is.
pub proof fn events_say_what_they_are(e: Event, w: WheelAction, list: Seq<Event>, i: int)
    ensures
        e matches Event::Motion { time, x, y } ==> e@ == (Sent::Motion {
            time: time as int,
            x: x as nat,
            y: y as nat,
        }),
        e matches Event::Frame ==> e@ == Sent::Frame,
        e matches Event::Button { time, button, pressed } ==> e@ == (Sent::Button {
            time: time as int,
            button,
            pressed,
        }),
        e matches Event::Key { time, code, pressed } ==> e@ == (Sent::Key {
            time: time as int,
            code: code as nat,
            pressed,
        }),
        e matches Event::Wheel { time, amount } ==> e@ == (Sent::Wheel {
            time: time as int,
            amount: text::opt_text(amount),
        }),
        e matches Event::KeyUnavailable ==> e@ == Sent::KeyUnavailable,
        e matches Event::Unknown(c) ==> e@ == Sent::Unknown(c@),
        w matches WheelAction::Ignore ==> w@ == Wheel::Ignore,
        w matches WheelAction::Write(b) ==> w@ == Wheel::Write(b@),
        w matches WheelAction::Scroll(n) ==> w@ == Wheel::Scroll(n as int),
        pointer::sent(list).len() == list.len(),
        0 <= i < list.len() ==> pointer::sent(list)[i] == list[i]@,
{
}

/// Results and optional values are said as they came out, failed or not.
pub proof fn results_say_how_they_came_out(
    text: Result<String, String>,
    c: Result<PlannerCommand, String>,
    r: Result<PlannerRun, String>,
    l: Result<Spawn, String>,
    p: Result<resolve::Workspace, String>,
    pair: Option<(String, String)>,
)
    ensures
        text matches Ok(s) ==> plan::text_result(text) == Ok::<Seq<char>, Seq<char>>(s@),
        text matches Err(e) ==> plan::text_result(text) == Err::<Seq<char>, Seq<char>>(e@),
        c matches Ok(x) ==> plan::command_result(c) == Ok::<plan::Command, Seq<char>>(x@),
        c matches Err(e) ==> plan::command_result(c) == Err::<plan::Command, Seq<char>>(e@),
        r matches Ok(x) ==> plan::run_result(r) == Ok::<plan::Run, Seq<char>>(x@),
        r matches Err(e) ==> plan::run_result(r) == Err::<plan::Run, Seq<char>>(e@),
        l matches Ok(x) ==> spawn::launch_result(l) == Ok::<spawn::Launch, Seq<char>>(x@),
        l matches Err(e) ==> spawn::launch_result(l) == Err::<spawn::Launch, Seq<char>>(e@),
        p matches Ok(x) ==> tasks::place_result(p) == Ok::<resolve::Place, Seq<char>>(x@),
        p matches Err(e) ==> tasks::place_result(p) == Err::<resolve::Place, Seq<char>>(e@),
        pair matches Some(x) ==> env::opt_pair(pair) == Some((x.0@, x.1@)) && removal::paths_of(pair)
            == Some((x.0@, x.1@)),
        pair is None ==> env::opt_pair(pair) is None && removal::paths_of(pair) is None,
{
}

/// What was found out of a worktree, a search step, a request and a way to a
/// workspace are said as they are.
pub proof fn findings_say_what_they_are(
    dirty: Result<bool, String>,
    done: Result<(), String>,
    s: Option<SearchStep>,
    r: Option<SpawnRequest>,
    j: Option<Resolver>,
    a: Option<PlanArgs>,
)
    ensures
        dirty matches Ok(b) ==> removal::check_result(dirty) == Ok::<bool, Seq<char>>(b),
        dirty matches Err(e) ==> removal::check_result(dirty) == Err::<bool, Seq<char>>(e@),
        done is Ok ==> removal::removal_result(done) is Ok,
        done matches Err(e) ==> removal::removal_result(done) == Err::<(), Seq<char>>(e@),
        s matches Some(x) ==> panels::step_of(s) == Some((x.terminal@, x.match_case, x.wrap)),
        s is None ==> panels::step_of(s) is None,
        r matches Some(x) ==> tasks::request_of(r) == Some(x@),
        r is None ==> tasks::request_of(r) is None,
        j matches Some(x) ==> resolve::job_of(j) == Some(x@),
        j is None ==> resolve::job_of(j) is None,
        a matches Some(x) ==> start::plan_args_of(a) == Some((x.repo@, x.task@)),
        a is None ==> start::plan_args_of(a) is None,
{
}

} // verus!
