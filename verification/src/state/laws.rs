//! Laws of the session: what its records hold, where it lives on disk, when it
//! is written, and what bringing it up to date changes.

use vstd::prelude::*;
use vstd::string::*;

use crate::log::Level;
use crate::paths;
use crate::state::edits;
use crate::state::file;
use crate::state::file::{LoadError, SaveError, Stamp};
use crate::state::migrate;
use crate::state::records;
use crate::state::records::{
    AgentRecord, AppState, PresetRecord, ProjectRecord, SettingsRecord, TerminalTabRecord,
};
use crate::text;
use crate::text_laws;
use crate::theme::ThemeMode;

verus! {

// ---- Records ----

/// Whether an optional text is what a record holds.
pub open spec fn same_option(o: Option<String>, s: Option<Seq<char>>) -> bool {
    &&& o is Some <==> s is Some
    &&& o matches Some(t) ==> s == Some(t@)
}

/// An agent's record says its id, its name, its task, where it works and on
/// which branch, the command lines and environment it was started with, and its
/// tabs in their order.
pub proof fn agents_say_what_they_hold(a: AgentRecord, t: TerminalTabRecord, i: int)
    ensures
        a@.id == a.id@,
        a@.name == a.name@,
        a@.description == a.description@,
        a@.workdir == a.workdir@,
        same_option(a.branch, a@.branch),
        same_option(a.command, a@.command),
        same_option(a.resume_command, a@.resume_command),
        same_option(a.env, a@.env),
        a@.terminals.len() == a.terminals@.len(),
        0 <= i < a.terminals@.len() ==> a@.terminals[i].id == a.terminals@[i].id@
            && a@.terminals[i].name == a.terminals@[i].name@,
        t@.id == t.id@,
        t@.name == t.name@,
{
}

/// A session says its projects in their order, each with its agents in theirs,
/// and its settings, presets included.
pub proof fn sessions_say_what_they_hold(
    s: AppState,
    p: ProjectRecord,
    c: PresetRecord,
    r: SettingsRecord,
    i: int,
)
    ensures
        s@.projects.len() == s.projects@.len(),
        0 <= i < s.projects@.len() ==> s@.projects[i] == s.projects@[i]@,
        s@.settings == s.settings@,
        p@.path == p.path@,
        p@.name == p.name@,
        p@.expanded == p.expanded,
        p@.agents.len() == p.agents@.len(),
        0 <= i < p.agents@.len() ==> p@.agents[i] == p.agents@[i]@,
        c@.name == c.name@,
        c@.command == c.command@,
        c@.env == c.env@,
        same_option(c.resume_command, c@.resume_command),
        r@.sidebar_collapsed == r.sidebar_collapsed,
        r@.presets.len() == r.presets@.len(),
        0 <= i < r.presets@.len() ==> r@.presets[i] == r.presets@[i]@,
        r@.last_preset == r.last_preset,
        r@.theme == r.theme,
        same_option(r.planner_preset, r@.planner_preset),
        r@.planner_command == r.planner_command@,
        r@.planner_model == r.planner_model@,
        r@.terminal_font == r.terminal_font@,
        r@.ui_font == r.ui_font@,
        r@.log_panel_open == r.log_panel_open,
{
}

/// A new project is called after the last name of its path, has no agents and
/// is unfolded.
pub proof fn new_projects_are_called_after_their_path(dir: Seq<char>, name: Seq<char>)
    requires
        text_laws::path_name(name),
        name != seq!['.', '.'],
        dir.len() > 0,
        dir.last() != '/',
    ensures
        records::new_project(dir + seq!['/'] + name).name == name,
        records::new_project(dir + seq!['/'] + name).path == dir + seq!['/'] + name,
        records::new_project(dir + seq!['/'] + name).agents.len() == 0,
        records::new_project(dir + seq!['/'] + name).expanded,
        records::new_project(seq!['/']).name == seq!['/'],
{
    text_laws::a_path_ends_in_its_name(dir, name);
    let root = seq!['/'];
    text::lemma_first_is(root, 0, text::only('/'), 0);
    assert(root.subrange(0, 0) =~= Seq::<char>::empty());
    assert(paths::names_from(root, 1) =~= Seq::<Seq<char>>::empty());
    assert(paths::names_from(root, 0) =~= Seq::<Seq<char>>::empty());
}

/// A session is resumed, and the planner run, by the preset's own command,
/// whatever white space stands around it, with the flags behind it.
pub proof fn preset_commands_take_flags(
    a: Seq<char>,
    command: Seq<char>,
    b: Seq<char>,
    model: Seq<char>,
)
    requires
        forall|i: int| 0 <= i < a.len() ==> text::white(#[trigger] a[i]),
        forall|i: int| 0 <= i < b.len() ==> text::white(#[trigger] b[i]),
        command.len() > 0 ==> !text::white(command[0]) && !text::white(command.last()),
    ensures
        records::resume_line(a + command + b) == command + " --continue"@,
        records::planner_line(a + command + b, model) == command + " -p --model "@ + model,
{
    text_laws::trimming_takes_the_ends(a, command, b);
    reveal_strlit(" ");
    reveal_strlit("--continue");
    reveal_strlit(" --continue");
    reveal_strlit("-p");
    reveal_strlit(" --model ");
    reveal_strlit(" -p --model ");
    assert(" "@ + records::RESUME_FLAG@ =~= " --continue"@);
    assert(records::resume_line(a + command + b) =~= command + " --continue"@);
    assert(" "@ + records::PLANNER_FLAGS@ + " --model "@ =~= " -p --model "@);
    assert(records::planner_line(a + command + b, model) =~= command + " -p --model "@ + model);
}

/// A fresh install runs the agent itself; two sandboxed presets come with it
/// where the sandbox can be run, and only there. Those run the wrapper, mount
/// the git root in it and end in the separator, so that what is appended is the
/// agent's.
pub proof fn fresh_installs_have_runnable_presets(program: Seq<char>, sandbox: bool, i: int)
    ensures
        records::first_presets(program, sandbox).len() == (if sandbox {
            3nat
        } else {
            1nat
        }),
        records::first_presets(program, sandbox)[0].command == program,
        0 <= i < records::first_presets(program, sandbox).len() ==> {
            let p = records::first_presets(program, sandbox)[i];
            &&& p.env.len() == 0
            &&& p.resume_command is None
            &&& exists|rest: Seq<char>| p.name == #[trigger] (program + rest)
        },
        1 <= i < records::first_presets(program, sandbox).len() ==> {
            let p = records::first_presets(program, sandbox)[i];
            p.command == program + (if i == 1 {
                "-isol --local -v $HARMONIUM_TASK_GIT_ROOT:$HARMONIUM_TASK_GIT_ROOT --"@
            } else {
                "-isol -v $HARMONIUM_TASK_GIT_ROOT:$HARMONIUM_TASK_GIT_ROOT --"@
            })
        },
        forall|j: int, k: int|
            0 <= j < k < records::first_presets(program, sandbox).len()
                ==> records::first_presets(program, sandbox)[j].name
                != records::first_presets(program, sandbox)[k].name,
{
    reveal_strlit("-code");
    reveal_strlit(" isolated bubblewrap");
    reveal_strlit(" isolated container");
    reveal_strlit("-isol");
    reveal_strlit(" --local ");
    reveal_strlit(" ");
    reveal_strlit("-v $HARMONIUM_TASK_GIT_ROOT:$HARMONIUM_TASK_GIT_ROOT");
    reveal_strlit(" --");
    reveal_strlit("-isol --local -v $HARMONIUM_TASK_GIT_ROOT:$HARMONIUM_TASK_GIT_ROOT --");
    reveal_strlit("-isol -v $HARMONIUM_TASK_GIT_ROOT:$HARMONIUM_TASK_GIT_ROOT --");
    let all = records::first_presets(program, sandbox);
    assert(all[0].name == program + "-code"@);
    if sandbox {
        let mount = records::MOUNT_GIT_ROOT@;
        assert("-isol"@ + " --local "@ + mount + " --"@
            =~= "-isol --local -v $HARMONIUM_TASK_GIT_ROOT:$HARMONIUM_TASK_GIT_ROOT --"@);
        assert("-isol"@ + " "@ + mount + " --"@
            =~= "-isol -v $HARMONIUM_TASK_GIT_ROOT:$HARMONIUM_TASK_GIT_ROOT --"@);
        assert(all[1].command =~= program + ("-isol"@ + " --local "@ + mount + " --"@));
        assert(all[2].command =~= program + ("-isol"@ + " "@ + mount + " --"@));
        assert(all[1].name =~= program + ("-code"@ + " isolated bubblewrap"@));
        assert(all[2].name =~= program + ("-code"@ + " isolated container"@));
        assert(all[0].name.len() == program.len() + 5);
        assert(all[1].name.len() == program.len() + 25);
        assert(all[2].name.len() == program.len() + 24);
    }
}

/// A fresh install is light, has nothing hidden and nothing configured for the
/// planner but a small model, and preselects its first preset.
pub proof fn fresh_settings(program: Seq<char>, sandbox: bool)
    ensures
        ({
            let s = records::first_settings(program, sandbox);
            &&& !s.sidebar_collapsed && !s.log_panel_open
            &&& s.last_preset == 0
            &&& s.theme == ThemeMode::Light
            &&& s.planner_preset is None
            &&& s.planner_command.len() == 0
            &&& s.planner_model == "haiku"@
            &&& s.terminal_font == "DejaVu Sans Mono"@
            &&& s.ui_font == "DejaVu Sans"@
            &&& s.presets == records::first_presets(program, sandbox)
        }),
{
}

// ---- Changing agents ----

/// Dropping an agent drops it wherever it is and nothing else: the other agents
/// stay in their order, the projects and the settings as they are.
pub proof fn dropping_an_agent_keeps_the_others(s: records::Session, id: Seq<char>, p: int)
    requires
        0 <= p < s.projects.len(),
    ensures
        edits::session_but(s, id).projects.len() == s.projects.len(),
        edits::session_but(s, id).settings == s.settings,
        edits::session_but(s, id).projects[p].agents == s.projects[p].agents.filter(
            |a: records::Agent| a.id != id,
        ),
        edits::session_but(s, id).projects[p].path == s.projects[p].path,
        edits::session_but(s, id).projects[p].name == s.projects[p].name,
        edits::session_but(s, id).projects[p].expanded == s.projects[p].expanded,
{
}

/// A change to one agent changes that one and no other, nor anything else.
pub proof fn changes_stay_with_their_agent(
    s: records::Session,
    id: Seq<char>,
    change: spec_fn(records::Agent) -> records::Agent,
    p: int,
    i: int,
)
    requires
        0 <= p < s.projects.len(),
        0 <= i < s.projects[p].agents.len(),
    ensures
        edits::changed(s, id, change).projects.len() == s.projects.len(),
        edits::changed(s, id, change).projects[p].agents.len() == s.projects[p].agents.len(),
        edits::changed(s, id, change).projects[p].path == s.projects[p].path,
        edits::changed(s, id, change).projects[p].name == s.projects[p].name,
        edits::changed(s, id, change).projects[p].expanded == s.projects[p].expanded,
        edits::changed(s, id, change).settings == s.settings,
        s.projects[p].agents[i].id != id ==> edits::changed(s, id, change).projects[p].agents[i]
            == s.projects[p].agents[i],
        (s.projects[p].agents[i].id == id && forall|q: int, j: int|
            0 <= q < s.projects.len() && 0 <= j < s.projects[q].agents.len() && (
            #[trigger] s.projects[q].agents[j]).id == id ==> q == p && j == i) ==> edits::changed(
            s,
            id,
            change,
        ).projects[p].agents[i] == change(s.projects[p].agents[i]),
{
    records::lemma_agent_from(s.projects, 0, id);
}

// ---- Directories ----

/// The app's data lives in the directory set for it; a test's in the one it is
/// kept to; else below the user's data directory, and below their home where
/// there is none.
pub proof fn data_lives_in_the_first_place_set(
    chosen: Seq<char>,
    test: Option<Seq<char>>,
    xdg: Option<Seq<char>>,
    home: Option<Seq<char>>,
    dir: Seq<char>,
)
    requires
        dir.len() > 0,
        dir.last() != '/',
    ensures
        file::data_dir_of(Some(chosen), test, xdg, home) == chosen,
        file::data_dir_of(None, Some(chosen), xdg, home) == chosen,
        file::data_dir_of(None, None, Some(dir), home) == dir + "/harmonium"@,
        file::data_dir_of(None, None, None, Some(dir)) == dir + "/.local/share/harmonium"@,
        file::data_dir_of(None, None, None, None) == ".harmonium"@,
{
    reveal_strlit("harmonium");
    reveal_strlit("/harmonium");
    reveal_strlit(".local/share/harmonium");
    reveal_strlit("/.local/share/harmonium");
    assert(seq!['/'] + "harmonium"@ =~= "/harmonium"@);
    assert(seq!['/'] + ".local/share/harmonium"@ =~= "/.local/share/harmonium"@);
    assert(dir + seq!['/'] + "harmonium"@ =~= dir + (seq!['/'] + "harmonium"@));
    assert(dir + seq!['/'] + ".local/share/harmonium"@ =~= dir + (seq!['/']
        + ".local/share/harmonium"@));
}

/// Each terminal has a history file of its own, in the history directory.
pub proof fn terminals_have_their_own_history(dir: Seq<char>, a: Seq<char>, b: Seq<char>)
    requires
        dir.len() > 0,
        dir.last() != '/',
        a.len() > 0 ==> a[0] != '/',
        b.len() > 0 ==> b[0] != '/',
    ensures
        file::history_path_of(dir, a) == dir + "/history/"@ + a + ".txt"@,
        file::history_path_of(dir, a) == file::history_path_of(dir, b) ==> a == b,
{
    reveal_strlit("history");
    reveal_strlit("/history/");
    reveal_strlit(".txt");
    lemma_history_path(dir, a);
    lemma_history_path(dir, b);
    let head = dir + "/history/"@;
    let (x, y) = (file::history_path_of(dir, a), file::history_path_of(dir, b));
    if x == y {
        assert(x.len() == y.len());
        assert(a =~= x.subrange(head.len() as int, (head.len() + a.len()) as int));
        assert(b =~= y.subrange(head.len() as int, (head.len() + b.len()) as int));
    }
}

proof fn lemma_history_path(dir: Seq<char>, id: Seq<char>)
    requires
        dir.len() > 0,
        dir.last() != '/',
        id.len() > 0 ==> id[0] != '/',
    ensures
        file::history_path_of(dir, id) == dir + "/history/"@ + id + ".txt"@,
{
    reveal_strlit("history");
    reveal_strlit("/history/");
    reveal_strlit(".txt");
    let below = paths::joined(dir, "history"@);
    assert(below =~= dir + seq!['/'] + "history"@);
    assert(below.last() == 'y');
    let name = id + ".txt"@;
    assert(name[0] != '/') by {
        if id.len() > 0 {
            assert(name[0] == id[0]);
        } else {
            assert(name[0] == ".txt"@[0]);
        }
    }
    assert(file::history_path_of(dir, id) =~= dir + "/history/"@ + id + ".txt"@);
}

/// A program is looked up in the directories of the search path, in order; ones
/// without a name are passed over. A path is run as it is, and no name at all
/// runs nothing.
pub proof fn programs_are_looked_up_in_order(
    program: Seq<char>,
    dir: Seq<char>,
    rest: Seq<char>,
)
    requires
        program.len() > 0,
        !dir.contains(':'),
        dir.len() > 0 ==> dir.last() != '/',
    ensures
        program.contains('/') ==> file::candidates(program, Some(rest)) == seq![program],
        !program.contains('/') ==> {
            &&& file::candidates(program, None).len() == 0
            &&& file::candidates(program, Some(Seq::empty())).len() == 0
            &&& dir.len() > 0 ==> file::candidates(program, Some(dir + seq![':'] + rest)) == seq![
                dir + seq!['/'] + program,
            ] + file::candidates(program, Some(rest))
            &&& dir.len() > 0 ==> file::candidates(program, Some(dir)) == seq![
                dir + seq!['/'] + program,
            ]
            &&& file::candidates(program, Some(seq![':'] + rest)) == file::candidates(
                program,
                Some(rest),
            )
        },
        file::candidates(Seq::empty(), Some(rest)).len() == 0,
{
    reveal_strlit("/");
    assert("/"@ =~= seq!['/']);
    if program.contains('/') {
        let k = choose|k: int| 0 <= k < program.len() && program[k] == '/';
        assert(program.subrange(k, k + 1) =~= "/"@);
        assert(text::at(program, "/"@, k));
    } else {
        assert(!text::has(program, "/"@)) by {
            if text::has(program, "/"@) {
                let k = choose|k: int| #[trigger] text::at(program, "/"@, k);
                assert(program[k] == program.subrange(k, k + 1)[0]);
                assert(program.contains(program[k]));
            }
        }
        assert(program.contains(program[0]));
        let below = |d: Seq<char>| paths::joined(d, program);
        let colon = text::only(':');
        let all = dir + seq![':'] + rest;
        assert forall|j: int| 0 <= j < dir.len() implies !colon(all[j]) by {
            assert(all[j] == dir[j]);
            assert(dir.contains(dir[j]));
        }
        assert(all[dir.len() as int] == ':');
        text::lemma_first_is(all, 0, colon, dir.len() as int);
        assert(all.subrange(0, dir.len() as int) =~= dir);
        lemma_dirs_behind(dir + seq![':'], rest, 0);
        assert forall|j: int| 0 <= j < dir.len() implies !colon(dir[j]) by {
            assert(dir.contains(dir[j]));
        }
        text::lemma_first_is(dir, 0, colon, dir.len() as int);
        assert(dir.subrange(0, dir.len() as int) =~= dir);
        let bare = seq![':'] + rest;
        assert(bare[0] == ':');
        text::lemma_first_is(bare, 0, colon, 0);
        lemma_dirs_behind(seq![':'], rest, 0);
        let others = file::search_dirs(rest, 0);
        assert(file::search_dirs(bare, 0) == others);
        if dir.len() > 0 {
            assert((seq![dir] + others).map_values(below) =~= seq![paths::joined(dir, program)]
                + others.map_values(below));
            assert(file::search_dirs(dir, 0) =~= seq![dir]);
            assert(seq![dir].map_values(below) =~= seq![paths::joined(dir, program)]);
        }
    }
}

proof fn lemma_dirs_behind(head: Seq<char>, rest: Seq<char>, i: int)
    requires
        0 <= i <= rest.len(),
    ensures
        file::search_dirs(head + rest, head.len() + i) == file::search_dirs(rest, i),
    decreases rest.len() - i,
{
    let all = head + rest;
    let colon = text::only(':');
    let n = head.len() as int;
    if i < rest.len() {
        let e = text::first_from(rest, i, colon);
        text::lemma_first_from(rest, i, colon);
        assert forall|j: int| n + i <= j < n + e implies !colon(all[j]) by {
            assert(all[j] == rest[j - n]);
        }
        if e < rest.len() {
            assert(all[n + e] == rest[e]);
        }
        text::lemma_first_is(all, n + i, colon, n + e);
        assert(all.subrange(n + i, n + e) =~= rest.subrange(i, e));
        if e < rest.len() {
            lemma_dirs_behind(head, rest, e + 1);
        }
    }
}

// ---- The session file ----

/// The file counts as somebody else's exactly where it is there and either was
/// not there before, or differs from what it was in length or time.
pub proof fn any_difference_is_foreign(was: Stamp, now: Stamp, agreed: Option<Stamp>)
    ensures
        !file::foreign(agreed, None),
        file::foreign(None, Some(now)),
        was.len != now.len ==> file::foreign(Some(was), Some(now)),
        was.modified != now.modified ==> file::foreign(Some(was), Some(now)),
        was.len == now.len && was.modified == now.modified ==> !file::foreign(
            Some(was),
            Some(now),
        ),
{
}

/// A file next to another has that one's directory and its own name.
pub proof fn neighbours_share_the_directory(dir: Seq<char>, name: Seq<char>, other: Seq<char>)
    requires
        text_laws::path_name(name),
        text_laws::path_name(other),
        name != seq!['.', '.'],
        dir.len() > 0,
        dir.last() != '/',
        !(dir.len() > 1 && dir.last() == '.' && dir[dir.len() - 2] == '/'),
    ensures
        paths::renamed(dir + seq!['/'] + name, other) == dir + seq!['/'] + other,
{
    text_laws::a_path_ends_in_its_name(dir, name);
    assert(other.contains(other[0]));
    let all = dir + seq!['/'] + name;
    assert(name.contains(name.last()));
    assert(all.last() == name.last());
    if name.len() == 1 {
        assert(name[0] != '.') by {
            if name[0] == '.' {
                assert(name =~= seq!['.']);
            }
        }
    } else {
        assert(all[all.len() - 2] == name[name.len() - 2]);
        assert(name.contains(name[name.len() - 2]));
    }
    assert(paths::tail_trimmed(all) == all);
    text_laws::cutting_at_the_last(dir, '/', name);
    assert(all.take(all.len() - name.len()) =~= dir + seq!['/']);
    let with_slash = dir + seq!['/'];
    assert(with_slash.drop_last() =~= dir);
    assert(paths::tail_trimmed(with_slash) == paths::tail_trimmed(dir));
    assert(paths::tail_trimmed(dir) == dir);
}

/// An error names the files it is about, in the order in which they were
/// written.
pub proof fn errors_name_their_files(path: String, parked: String, error: String)
    ensures
        text::has(LoadError::Locked { path }.says(), path@),
        LoadError::Unreadable(error).says() == error@,
        text::has((SaveError::Conflict { path, rejected: Some(parked) }).says(), path@),
        text::has((SaveError::Conflict { path, rejected: Some(parked) }).says(), parked@),
        text::has((SaveError::Conflict { path, rejected: None }).says(), path@),
        SaveError::Io(error).says() == error@,
{
    let locked = LoadError::Locked { path }.says();
    let a = "another harmonium is already running (it holds "@.len() as int;
    assert(locked.subrange(a, a + path@.len()) =~= path@);
    assert(text::at(locked, path@, a));
    let both = (SaveError::Conflict { path, rejected: Some(parked) }).says();
    assert(both.subrange(0, path@.len() as int) =~= path@);
    assert(text::at(both, path@, 0));
    let b = (path@
        + " changed on disk — not saving over it. This session was written to "@).len() as int;
    assert(both.subrange(b, b + parked@.len()) =~= parked@);
    assert(text::at(both, parked@, b));
    let one = (SaveError::Conflict { path, rejected: None }).says();
    assert(one.subrange(0, path@.len() as int) =~= path@);
    assert(text::at(one, path@, 0));
}

// ---- Bringing a session up to date ----

/// A command of the sandbox wrapper that does not name the git root gets the
/// mount: two words, before the separator where there is one, at the end where
/// there is none. The other words stay as they were. Any other command stays as
/// it is.
pub proof fn sandboxed_commands_mount_the_git_root(
    program: Seq<char>,
    command: Seq<char>,
    a: Seq<Seq<char>>,
    b: Seq<Seq<char>>,
)
    requires
        text::words_of(command) == a + b,
        a.len() > 0,
        forall|i: int| 0 <= i < a.len() ==> #[trigger] a[i] != "--"@,
        b.len() > 0 ==> b[0] == "--"@,
    ensures
        (text::after_last(a[0], '/') == program + "-isol"@ && !text::has(
            command,
            "HARMONIUM_TASK_GIT_ROOT"@,
        )) ==> {
            &&& migrate::mounted(program, command) is Some
            &&& text::words_of(migrate::mounted(program, command)->0) == a + seq![
                "-v"@,
                "$HARMONIUM_TASK_GIT_ROOT:$HARMONIUM_TASK_GIT_ROOT"@,
            ] + b
        },
        text::after_last(a[0], '/') != program + "-isol"@ || text::has(
            command,
            "HARMONIUM_TASK_GIT_ROOT"@,
        ) ==> migrate::mounted(program, command) is None,
{
    let words = text::words_of(command);
    assert(words[0] == a[0]);
    assert forall|i: int| 0 <= i < a.len() implies words[i] != "--"@ by {
        assert(words[i] == a[i]);
    }
    if b.len() > 0 {
        assert(words[a.len() as int] == b[0]);
        text::lemma_position_is(words, "--"@, a.len() as int);
    } else {
        text::lemma_position_of(words, "--"@);
        if let Some(k) = text::position_of(words, "--"@) {
            assert(words[k] == a[k]);
        }
    }
    assert(words.take(a.len() as int) =~= a);
    assert(words.skip(a.len() as int) =~= b);
    if migrate::mounted(program, command) is Some {
        migrate::mount_stands_before_the_separator(program, command);
        assert(migrate::mounted_words(words) =~= a + seq![
            "-v"@,
            "$HARMONIUM_TASK_GIT_ROOT:$HARMONIUM_TASK_GIT_ROOT"@,
        ] + b);
    }
}

/// A command line without a word runs no wrapper, and stays as it is.
pub proof fn blank_commands_mount_nothing(program: Seq<char>, command: Seq<char>)
    requires
        text::words_of(command).len() == 0,
    ensures
        migrate::mounted(program, command) is None,
{
}

/// Whether one command line is another with the mount added where it lacks it.
pub open spec fn brought_up(
    program: Seq<char>,
    old_line: Option<Seq<char>>,
    new_line: Option<Seq<char>>,
) -> bool {
    match old_line {
        None => new_line is None,
        Some(c) => match migrate::mounted(program, c) {
            Some(m) => new_line == Some(m),
            None => new_line == Some(c),
        },
    }
}

/// Bringing a session up to date changes command lines and nothing else: every
/// project and every agent stays where and what it is, with its tabs, and so do
/// the settings. Both command lines of every agent are seen to, and every
/// preset's.
pub proof fn updates_change_commands_only(
    program: Seq<char>,
    s: records::Session,
    p: int,
    i: int,
    k: int,
)
    requires
        0 <= p < s.projects.len(),
        0 <= i < s.projects[p].agents.len(),
        0 <= k < s.settings.presets.len(),
    ensures
        ({
            let t = migrate::session_migrated(program, s);
            let (was, now) = (s.projects[p].agents[i], t.projects[p].agents[i]);
            let (before, after) = (s.settings.presets[k], t.settings.presets[k]);
            &&& t.projects.len() == s.projects.len()
            &&& t.projects[p].path == s.projects[p].path
            &&& t.projects[p].name == s.projects[p].name
            &&& t.projects[p].expanded == s.projects[p].expanded
            &&& t.projects[p].agents.len() == s.projects[p].agents.len()
            &&& now.id == was.id && now.name == was.name && now.description == was.description
            &&& now.workdir == was.workdir && now.branch == was.branch && now.env == was.env
            &&& now.terminals == was.terminals
            &&& brought_up(program, was.command, now.command)
            &&& brought_up(program, was.resume_command, now.resume_command)
            &&& t.settings.presets.len() == s.settings.presets.len()
            &&& after.name == before.name && after.env == before.env
            &&& after.resume_command is None
            &&& before.resume_command is None ==> brought_up(
                program,
                Some(before.command),
                Some(after.command),
            )
            &&& t.settings == (records::Settings { presets: t.settings.presets, ..s.settings })
        }),
{
}

/// Something is logged about a preset exactly where it changed in a way its
/// user should know of: an error where its resume command cannot be kept, a
/// note where it gains the mount. Both name the preset.
pub proof fn updates_are_told(program: Seq<char>, p: records::Preset, list: Seq<records::Preset>)
    ensures
        migrate::presets_notes(program, list.push(p)) == migrate::presets_notes(program, list)
            + migrate::preset_notes(program, p),
        migrate::presets_notes(program, Seq::empty()).len() == 0,
        forall|j: int|
            0 <= j < migrate::preset_notes(program, p).len() ==> text::has(
                (#[trigger] migrate::preset_notes(program, p)[j]).1,
                p.name,
            ),
        p.resume_command is None ==> (migrate::preset_notes(program, p).len() == (if migrate::mounted(
            program,
            p.command,
        ) is Some {
            1nat
        } else {
            0nat
        })),
        p.resume_command is None && migrate::preset_notes(program, p).len() == 1
            ==> migrate::preset_notes(program, p)[0].0 == Level::Info,
        (p.resume_command is Some && migrate::separator(p.resume_command->0, p.command) is None)
            ==> migrate::preset_notes(program, p).len() > 0 && migrate::preset_notes(
            program,
            p,
        )[0].0 == Level::Error,
{
    assert(list.push(p).drop_last() =~= list);
    let quoted = "preset `"@;
    let notes = migrate::preset_notes(program, p);
    let n = quoted.len() as int;
    if let Some(line) = migrate::resume_note(p) {
        assert(line.subrange(n, n + p.name.len()) =~= p.name);
        assert(text::at(line, p.name, n));
    }
    if let Some(line) = migrate::mount_note(program, migrate::resume_folded(p)) {
        assert(line.subrange(n, n + p.name.len()) =~= p.name);
        assert(text::at(line, p.name, n));
    }
    assert forall|j: int| 0 <= j < notes.len() implies text::has((#[trigger] notes[j]).1, p.name) by {
        let first = migrate::note(Level::Error, migrate::resume_note(p));
        if j < first.len() {
            assert(notes[j] == first[j]);
        } else {
            let second = migrate::note(
                Level::Info,
                migrate::mount_note(program, migrate::resume_folded(p)),
            );
            assert(notes[j] == second[j - first.len()]);
        }
    }
}

/// An agent whose command line gains the mount is told of, by its name and with
/// the line it had; one that needs nothing is not.
pub proof fn updated_agents_are_told(program: Seq<char>, a: records::Agent, list: Seq<records::Agent>)
    ensures
        migrate::agents_notes(program, list.push(a)) == migrate::agents_notes(program, list)
            + migrate::agent_notes(program, a),
        migrate::agent_notes(program, a).len() == (if a.command is Some && migrate::mounted(
            program,
            a.command->0,
        ) is Some {
            1int
        } else {
            0
        }) + (if a.resume_command is Some && migrate::mounted(program, a.resume_command->0)
            is Some {
            1int
        } else {
            0
        }),
        forall|j: int|
            0 <= j < migrate::agent_notes(program, a).len() ==> text::has(
                (#[trigger] migrate::agent_notes(program, a)[j]).1,
                a.name,
            ) && migrate::agent_notes(program, a)[j].0 == Level::Info,
{
    assert(list.push(a).drop_last() =~= list);
    lemma_command_note(program, a.name, a.command);
    lemma_command_note(program, a.name, a.resume_command);
    let first = migrate::note(Level::Info, migrate::command_note(program, a.name, a.command));
    let second = migrate::note(
        Level::Info,
        migrate::command_note(program, a.name, a.resume_command),
    );
    let notes = migrate::agent_notes(program, a);
    assert forall|j: int| 0 <= j < notes.len() implies text::has((#[trigger] notes[j]).1, a.name)
        && notes[j].0 == Level::Info by {
        if j < first.len() {
            assert(notes[j] == first[j]);
        } else {
            assert(notes[j] == second[j - first.len()]);
        }
    }
}

proof fn lemma_command_note(program: Seq<char>, name: Seq<char>, command: Option<Seq<char>>)
    ensures
        migrate::command_note(program, name, command) matches Some(line) ==> text::has(line, name),
{
    if let Some(line) = migrate::command_note(program, name, command) {
        let n = "agent `"@.len() as int;
        assert(line.subrange(n, n + name.len()) =~= name);
        assert(text::at(line, name, n));
    }
}

} // verus!
