//! Laws of what is run: the shells of the tabs, the planner, and the names that
//! its settings are looked up by.

use vstd::prelude::*;
use vstd::string::*;
use vstd::utf8::*;

use crate::dialogs;
use crate::log;
use crate::offsets;
use crate::planner::command;
use crate::planner::plan;
use crate::planner::resolve;
use crate::start;
use crate::state::records;
use crate::terminal;
use crate::text;
use crate::text_laws;
use crate::workspace::desk;
use crate::workspace::env;
use crate::workspace::spawn;
use crate::workspace::tasks;

verus! {

proof fn lemma_within(a: Seq<char>, s: Seq<char>, b: Seq<char>)
    ensures
        text::has(a + s + b, s),
{
    let all = a + s + b;
    assert(all.subrange(a.len() as int, (a.len() + s.len()) as int) =~= s);
    assert(text::at(all, s, a.len() as int));
}

/// A tab without a history runs the user's shell, by its path, without
/// arguments; one with a history shows that first and then becomes the shell.
/// Either has the task's environment, and neither expands anything.
pub proof fn tabs_run_the_users_shell(
    path: Seq<char>,
    shell: Seq<char>,
    vars: Seq<(Seq<char>, Seq<char>)>,
    rest: Seq<(Seq<char>, Seq<char>)>,
)
    ensures
        ({
            let known = seq![("SHELL"@, shell)] + rest;
            let plain = spawn::shell_launch(None, vars, known);
            let replayed = spawn::shell_launch(Some(path), vars, known);
            &&& plain.program == shell && plain.args.len() == 0 && plain.env == vars
            &&& replayed.program == "/bin/sh"@ && replayed.args.len() == 2
            &&& replayed.args[0] == "-c"@
            &&& replayed.env == vars
            &&& spawn::shell_quoted(path) is Some && spawn::shell_quoted(shell) is Some
                ==> replayed.args[1] == "cat "@ + spawn::shell_quoted(path)->0
                + " 2>/dev/null; exec "@ + spawn::shell_quoted(shell)->0
            &&& spawn::shell_launch(None, vars, Seq::empty()).program == "/bin/sh"@
        }),
{
    let known = seq![("SHELL"@, shell)] + rest;
    assert(known[0].0 == "SHELL"@);
    assert(env::value_from(known, 0, "SHELL"@) == Some(shell));
    assert(env::value_from(Seq::empty(), 0, "SHELL"@) is None);
}

/// What is logged of a terminal names it, what it runs and where; what is said
/// of one that cannot be started names the same two.
pub proof fn started_programs_are_named(id: Seq<char>, l: spawn::Launch, workdir: Seq<char>)
    ensures
        text::has(spawn::spawning_of(id, l, workdir), id),
        text::has(spawn::spawning_of(id, l, workdir), l.program),
        text::has(spawn::spawning_of(id, l, workdir), workdir),
        text::has(terminal::spawn_failure_of(l.program, workdir), l.program),
        text::has(terminal::spawn_failure_of(l.program, workdir), workdir),
{
    let line = spawn::spawning_of(id, l, workdir);
    let args = text::join_of(l.args, " "@);
    let none = Seq::<char>::empty();
    let run = ": spawning `"@ + l.program + " "@ + args + "` in "@ + workdir;
    lemma_within("terminal "@, id, run);
    assert(line =~= "terminal "@ + id + run);
    let head = "terminal "@ + id + ": spawning `"@;
    lemma_within(head, l.program, " "@ + args + "` in "@ + workdir);
    assert(line =~= head + l.program + (" "@ + args + "` in "@ + workdir));
    let front = head + l.program + " "@ + args + "` in "@;
    lemma_within(front, workdir, none);
    assert(line =~= front + workdir + none);
    let told = terminal::spawn_failure_of(l.program, workdir);
    lemma_within("spawning `"@, l.program, "` in "@ + workdir);
    assert(told =~= "spawning `"@ + l.program + ("` in "@ + workdir));
    lemma_within("spawning `"@ + l.program + "` in "@, workdir, none);
    assert(told =~= "spawning `"@ + l.program + "` in "@ + workdir + none);
}

/// Presets are looked up by name, the first one that has it; no name is none's.
pub proof fn presets_are_found_by_name(list: Seq<records::Preset>, name: Seq<char>, i: int)
    ensures
        dialogs::preset_row(list, None) is None,
        (forall|j: int| 0 <= j < list.len() ==> (#[trigger] list[j]).name != name)
            ==> dialogs::preset_row(list, Some(name)) is None,
        0 <= i < list.len() && list[i].name == name && (forall|j: int|
            0 <= j < i ==> (#[trigger] list[j]).name != name) ==> dialogs::preset_row(
            list,
            Some(name),
        ) == Some(i),
{
    let names = dialogs::names_of(list);
    text::lemma_position_of(names, name);
    if 0 <= i < list.len() && list[i].name == name && (forall|j: int|
        0 <= j < i ==> (#[trigger] list[j]).name != name) {
        assert forall|j: int| 0 <= j < i implies names[j] != name by {
            assert(list[j].name != name);
        }
        text::lemma_position_is(names, name, i);
    }
    if forall|j: int| 0 <= j < list.len() ==> (#[trigger] list[j]).name != name {
        if let Some(k) = text::position_of(names, name) {
            assert(names[k] == list[k].name);
        }
    }
}

/// The planner runs through the preset that is chosen for it, with the preset's
/// command and environment; without one it has neither. A plan that is only
/// printed is made the same way, without the environment.
pub proof fn the_planner_runs_through_its_preset(
    program: Seq<char>,
    s: records::Settings,
    repo: Seq<char>,
    process_env: desk::Pairs,
    name: Seq<char>,
    i: int,
)
    requires
        0 <= i < s.presets.len(),
        s.presets[i].name == name,
        forall|j: int| 0 <= j < i ==> (#[trigger] s.presets[j]).name != name,
    ensures
        ({
            let through = records::Settings { planner_preset: Some(name), ..s };
            let without = records::Settings { planner_preset: None, ..s };
            let a = tasks::planner_of(program, through, repo, process_env);
            let b = tasks::planner_of(program, without, repo, process_env);
            let c = start::printed_planner(program, through, repo, process_env);
            &&& a.command == s.planner_command && a.model == s.planner_model
            &&& a.program == program
            &&& a.preset_argv == spawn::preset_planner(
                s.presets[i].command,
                s.planner_model,
                repo,
                process_env,
            )
            &&& a.env == env::assigned(
                command::command_words(s.presets[i].env),
                Seq::empty(),
                process_env,
            )
            &&& b.preset_argv.len() == 0 && b.env.len() == 0
            &&& b.command == s.planner_command && b.model == s.planner_model && b.program == program
            &&& c.preset_argv == a.preset_argv && c.command == a.command && c.model == a.model
            &&& c.program == program && c.env.len() == 0
        }),
{
    presets_are_found_by_name(s.presets, name, i);
    presets_are_found_by_name(s.presets, name, -1);
}

/// A preset plans with its own command, in print mode and with the model behind
/// it, each word expanded for a task in the repository itself.
pub proof fn presets_plan_in_print_mode(
    command: Seq<char>,
    model: Seq<char>,
    repo: Seq<char>,
    process_env: desk::Pairs,
)
    requires
        command.len() > 0,
        !text::white(command[0]),
        !text::white(command.last()),
    ensures
        spawn::preset_planner(command, model, repo, process_env) == spawn::expanded_words(
            command::command_words(command + " -p --model "@ + model),
            env::provided(repo, repo, None),
            process_env,
        ),
{
    let none = Seq::<char>::empty();
    text_laws::trimming_takes_the_ends(none, command, none);
    assert(none + command + none =~= command);
    reveal_strlit(" ");
    reveal_strlit("-p");
    reveal_strlit(" --model ");
    reveal_strlit(" -p --model ");
    assert(" "@ + records::PLANNER_FLAGS@ + " --model "@ =~= " -p --model "@);
    assert(records::planner_line(command, model) =~= command + " -p --model "@ + model);
}

/// A place in the list of presets names the preset there; a place beyond it runs
/// the agent itself.
pub proof fn places_name_presets(program: Seq<char>, list: Seq<records::Preset>, i: int)
    ensures
        0 <= i < list.len() ==> tasks::preset_at(program, list, i) == list[i],
        i < 0 || list.len() <= i ==> tasks::preset_at(program, list, i).command == program
            && tasks::preset_at(program, list, i).name == program && tasks::preset_at(
            program,
            list,
            i,
        ).env.len() == 0 && tasks::preset_at(program, list, i).resume_command is None,
{
}

/// A failed planner is reported with what it wrote as its errors, or with its
/// output where it wrote none.
pub proof fn planner_failures_are_quoted(stdout: Seq<char>, stderr: Seq<char>)
    ensures
        !text::blank(stderr) ==> plan::failure_of(stdout, stderr) == "planner failed: "@
            + command::snippet_of(stderr),
        text::blank(stderr) ==> plan::failure_of(stdout, stderr) == "planner failed: "@
            + command::snippet_of(stdout),
{
}

proof fn lemma_fitting(t: Seq<char>, k: int, limit: int)
    requires
        0 <= k <= t.len(),
        offsets::byte_len(t.take(k)) <= limit,
    ensures
        k <= command::fitting(t, k, limit) <= t.len(),
        offsets::byte_len(t.take(command::fitting(t, k, limit))) <= limit,
        command::fitting(t, k, limit) < t.len() ==> offsets::byte_len(
            t.take(command::fitting(t, k, limit) + 1),
        ) > limit,
    decreases t.len() - k,
{
    if k < t.len() && offsets::byte_len(t.take(k + 1)) <= limit {
        lemma_fitting(t, k + 1, limit);
    }
}

/// A message is reported without the white space around it. Two hundred bytes
/// are reported whole; of a longer one as many whole characters as fit in them,
/// and a mark. That there is none is said.
pub proof fn messages_are_cut_at_the_end(a: Seq<char>, t: Seq<char>, b: Seq<char>)
    requires
        forall|i: int| 0 <= i < a.len() ==> text::white(#[trigger] a[i]),
        forall|i: int| 0 <= i < b.len() ==> text::white(#[trigger] b[i]),
        t.len() > 0 ==> !text::white(t[0]) && !text::white(t.last()),
    ensures
        t.len() == 0 ==> command::snippet_of(a + t + b) == "(no output)"@,
        0 < t.len() && encode_utf8(t).len() <= 200 ==> command::snippet_of(a + t + b) == t,
        encode_utf8(t).len() > 200 ==> exists|k: int|
            {
                &&& 0 <= k < t.len()
                &&& encode_utf8(#[trigger] t.take(k)).len() <= 200
                &&& encode_utf8(t.take(k + 1)).len() > 200
                &&& command::snippet_of(a + t + b) == t.take(k) + "…"@
            },
{
    text_laws::trimming_takes_the_ends(a, t, b);
    assert(t.take(0).len() == 0);
    lemma_fitting(t, 0, 200);
    let k = command::fitting(t, 0, 200);
    offsets::lemma_encoded_len(t);
    offsets::lemma_encoded_len(t.take(k));
    assert(t.take(t.len() as int) =~= t);
    if k < t.len() {
        offsets::lemma_encoded_len(t.take(k + 1));
        offsets::lemma_byte_len_grows(t, k + 1, t.len() as int);
    }
}

/// The counter of the log goes up by one, and starts anew where it cannot.
pub proof fn counters_count(version: usize)
    ensures
        version < usize::MAX ==> log::bumped(version) == version + 1,
        version == usize::MAX ==> log::bumped(version) == 0,
{
}

/// The number that hexadecimal digits stand for.
pub open spec fn hex_number(s: Seq<char>) -> nat
    decreases s.len(),
{
    if s.len() == 0 {
        0
    } else {
        let c = s.last();
        hex_number(s.drop_last()) * 16 + (if '0' <= c && c <= '9' {
            (c as nat - '0' as nat) as nat
        } else {
            (c as nat - 'a' as nat + 10) as nat
        })
    }
}

proof fn lemma_hex(n: nat, k: nat)
    ensures
        text::hex_of(n, k).len() == k,
        hex_number(text::hex_of(n, k)) <= n,
        n < vstd::arithmetic::power::pow(16, k) ==> hex_number(text::hex_of(n, k)) == n,
    decreases k,
{
    reveal(vstd::arithmetic::power::pow);
    if k > 0 {
        let m = (k - 1) as nat;
        lemma_hex(n / 16, m);
        let digits = text::hex_of(n, k);
        assert(digits.drop_last() =~= text::hex_of(n / 16, m));
        assert(digits.last() == text::digit_char(n % 16));
        if n < vstd::arithmetic::power::pow(16, k) {
            assert(vstd::arithmetic::power::pow(16, k) == 16 * vstd::arithmetic::power::pow(16, m));
            assert(n / 16 < vstd::arithmetic::power::pow(16, m));
        }
    }
}

/// The worktrees of a repository lie in a directory of their own below the
/// app's data: named after the repository, with eight digits behind it that
/// stand for its hash, so that another hash is another directory.
pub proof fn repositories_have_their_own_directory(
    data_dir: Seq<char>,
    dir: Seq<char>,
    name: Seq<char>,
    hash: u32,
)
    requires
        data_dir.len() > 0,
        data_dir.last() != '/',
        text_laws::path_name(name),
        name != seq!['.', '.'],
        dir.len() > 0,
        dir.last() != '/',
    ensures
        exists|digits: Seq<char>|
            digits.len() == 8 && #[trigger] hex_number(digits) == hash as nat
                && resolve::worktrees_dir_of(data_dir, dir + seq!['/'] + name, hash) == data_dir
                + "/worktrees/"@ + name + "-"@ + digits,
{
    text_laws::a_path_ends_in_its_name(dir, name);
    let digits = text::hex_of(hash as nat, 8);
    assert(vstd::arithmetic::power::pow(16, 8) == 0x1_0000_0000) by {
        reveal_with_fuel(vstd::arithmetic::power::pow, 9);
    }
    lemma_hex(hash as nat, 8);
    assert(hex_number(digits) == hash as nat);
    reveal_strlit("worktrees");
    reveal_strlit("/worktrees/");
    reveal_strlit("-");
    let below = crate::paths::joined(data_dir, "worktrees"@);
    assert(below =~= data_dir + seq!['/'] + "worktrees"@);
    assert(below.last() == 's');
    let last = name + "-"@ + digits;
    assert(name.contains(name[0]));
    assert(last[0] == name[0]);
    assert(below + seq!['/'] + last =~= data_dir + "/worktrees/"@ + name + "-"@ + digits);
}

} // verus!
