//! What is run in a terminal: the agent's command line, a shell that replays
//! its history, and the planner as a preset runs it.

use shlex::try_quote;
use uuid::Uuid;
use vstd::prelude::*;
use vstd::string::*;

use crate::planner::command;
use crate::planner::command::split_command;
use crate::state::records;
use crate::state::records::PresetRecord;
use crate::text;
use crate::text::{copy_pairs, join, owned, push_text};
use crate::workspace::env;
use crate::workspace::env::{expand_vars, find_value, split_assignment, task_env};

verus! {

// ---- Ids ----

/// A lower case hexadecimal digit.
pub open spec fn hex_digit(c: char) -> bool {
    ('0' <= c && c <= '9') || ('a' <= c && c <= 'f')
}

/// Whether a text has the shape of an id: five groups of hexadecimal digits
/// with hyphens between them.
pub open spec fn id_shape(s: Seq<char>) -> bool {
    &&& s.len() == 36
    &&& forall|i: int|
        0 <= i < 36 ==> if i == 8 || i == 13 || i == 18 || i == 23 {
            #[trigger] s[i] == '-'
        } else {
            hex_digit(s[i])
        }
}

/// `Uuid::new_v4`, written out: a random id. Of its value nothing is promised
/// but the shape.
#[verifier::external_body]
fn random_id() -> (r: String)
    ensures
        id_shape(r@),
{
    Uuid::new_v4().to_string()
}

/// Whether a draw of a random id can come out as `id`.
pub closed spec fn drawn(id: String) -> bool {
    call_ensures(random_id, (), id)
}

/// A fresh id for an agent or a tab: one that was drawn.
pub fn new_id() -> (r: String)
    ensures
        drawn(r),
        id_shape(r@),
{
    random_id()
}

// ---- Commands ----

/// A resolved command line for a terminal: the program to run, its arguments,
/// and its environment on top of the inherited one.
pub struct Spawn {
    pub program: String,
    pub args: Vec<String>,
    pub env: Vec<(String, String)>,
}

/// What a [`Spawn`] says.
#[verifier::ext_equal]
pub struct Launch {
    pub program: Seq<char>,
    pub args: Seq<Seq<char>>,
    pub env: Seq<(Seq<char>, Seq<char>)>,
}

impl View for Spawn {
    type V = Launch;

    open spec fn view(&self) -> Launch {
        Launch {
            program: self.program@,
            args: text::texts(self.args@),
            env: text::pairs(self.env@),
        }
    }
}

/// The contents of a spawn result.
pub open spec fn launch_result(r: Result<Spawn, String>) -> Result<Launch, Seq<char>> {
    match r {
        Ok(s) => Ok(s@),
        Err(e) => Err(e@),
    }
}

/// How many of some words, from the first on, are assignments.
pub open spec fn leading(words: Seq<Seq<char>>) -> nat
    decreases words.len(),
{
    if words.len() > 0 && env::assignment(words[0]) is Some {
        1 + leading(words.skip(1))
    } else {
        0
    }
}

/// What some assignments give, each value expanded against the same variables.
pub open spec fn prefix_env(
    words: Seq<Seq<char>>,
    vars: Seq<(Seq<char>, Seq<char>)>,
    process_env: Seq<(Seq<char>, Seq<char>)>,
) -> Seq<(Seq<char>, Seq<char>)> {
    words.map_values(
        |w: Seq<char>|
            (
                env::assignment(w).unwrap().0,
                env::expanded(env::assignment(w).unwrap().1, vars, process_env),
            ),
    )
}

/// Some words, expanded.
pub open spec fn expanded_words(
    words: Seq<Seq<char>>,
    vars: Seq<(Seq<char>, Seq<char>)>,
    process_env: Seq<(Seq<char>, Seq<char>)>,
) -> Seq<Seq<char>> {
    words.map_values(|w: Seq<char>| env::expanded(w, vars, process_env))
}

/// The command line that an agent really runs: an override for tests and
/// debugging replaces the configured one entirely.
pub open spec fn effective(command: Seq<char>, process_env: Seq<(Seq<char>, Seq<char>)>) -> Seq<
    char,
> {
    match env::value_from(process_env, 0, "HARMONIUM_AGENT_BIN"@) {
        Some(c) => c,
        None => command,
    }
}

/// What an agent's command line runs: its leading `KEY=value` words are
/// environment for the child, behind that of the task; the other words are
/// expanded one by one, and followed by the extra arguments.
pub open spec fn agent_launch(
    command: Seq<char>,
    extra_args: Seq<Seq<char>>,
    vars: Seq<(Seq<char>, Seq<char>)>,
    process_env: Seq<(Seq<char>, Seq<char>)>,
) -> Result<Launch, Seq<char>> {
    let line = effective(command, process_env);
    let words = command::command_words(line);
    let k = leading(words) as int;
    let parts = expanded_words(words.skip(k), vars, process_env);
    if parts.len() == 0 {
        Err("Empty agent command: `"@ + line + "`"@)
    } else {
        Ok(
            Launch {
                program: parts[0],
                args: parts.skip(1) + extra_args,
                env: vars + prefix_env(words.take(k), vars, process_env),
            },
        )
    }
}

proof fn lemma_leading(words: Seq<Seq<char>>)
    ensures
        leading(words) <= words.len(),
        forall|i: int|
            0 <= i < leading(words) ==> env::assignment(#[trigger] words[i]) is Some,
    decreases words.len(),
{
    if words.len() > 0 && env::assignment(words[0]) is Some {
        let rest = words.skip(1);
        lemma_leading(rest);
        assert forall|i: int| 0 <= i < leading(words) implies env::assignment(
            #[trigger] words[i],
        ) is Some by {
            if i > 0 {
                assert(rest[i - 1] == words[i]);
            }
        }
    }
}

/// Resolve an agent's command line. Agent commands, and only they, are
/// configured as a command *line*, so they are split into words here. Words
/// are expanded after splitting, so a value with spaces stays one argument,
/// and an assignment at the front overrides a task or preset variable of the
/// same name for this process only.
pub fn agent_spawn(
    command: &str,
    extra_args: &Vec<String>,
    task_env: &Vec<(String, String)>,
    process_env: &Vec<(String, String)>,
) -> (r: Result<Spawn, String>)
    ensures
        launch_result(r) == agent_launch(
            command@,
            text::texts(extra_args@),
            text::pairs(task_env@),
            text::pairs(process_env@),
        ),
{
    let ghost a = text::pairs(task_env@);
    let ghost b = text::pairs(process_env@);
    let line: String = match find_value(process_env, "HARMONIUM_AGENT_BIN") {
        Some(c) => c,
        None => owned(command),
    };
    let words: Vec<String> = split_command(line.as_str());
    let ghost all = text::texts(words@);
    let ghost k = leading(all) as int;
    proof {
        lemma_leading(all);
        assert(all.len() == words@.len());
        assert(all.skip(0) =~= all);
    }
    let mut env: Vec<(String, String)> = copy_pairs(task_env);
    let mut i: usize = 0;
    let mut more: bool = true;
    assert(text::pairs(env@) =~= a + prefix_env(all.take(0), a, b));
    while more && i < words.len()
        invariant
            i <= words@.len(),
            all == text::texts(words@),
            all.len() == words@.len(),
            a == text::pairs(task_env@),
            b == text::pairs(process_env@),
            k == leading(all),
            k == i + leading(all.skip(i as int)),
            text::pairs(env@) == a + prefix_env(all.take(i as int), a, b),
            !more ==> i == k,
        decreases words@.len() - i + (if more {
            1int
        } else {
            0
        }),
    {
        assert(all[i as int] == words@[i as int]@);
        assert(all.skip(i as int)[0] == all[i as int]);
        assert(all.skip(i as int).skip(1) =~= all.skip(i + 1));
        match split_assignment(words[i].as_str()) {
            Some((name, value)) => {
                let ghost before = text::pairs(env@);
                let value: String = expand_vars(value.as_str(), task_env, process_env);
                env.push((name, value));
                proof {
                    assert(text::pairs(env@) =~= before.push((name@, value@)));
                    assert(prefix_env(all.take(i + 1), a, b) =~= prefix_env(
                        all.take(i as int),
                        a,
                        b,
                    ).push((name@, value@)));
                    assert(text::pairs(env@) =~= a + prefix_env(all.take(i + 1), a, b));
                }
                i += 1;
            },
            None => {
                more = false;
            },
        }
    }
    assert(i == k);
    let first: usize = i;
    let mut parts: Vec<String> = Vec::new();
    let ghost wanted = expanded_words(all.skip(k), a, b);
    assert(text::texts(parts@) =~= wanted.take(0));
    while i < words.len()
        invariant
            first <= i <= words@.len(),
            first == k,
            all == text::texts(words@),
            all.len() == words@.len(),
            a == text::pairs(task_env@),
            b == text::pairs(process_env@),
            wanted == expanded_words(all.skip(k), a, b),
            text::texts(parts@) == wanted.take(i - first),
        decreases words@.len() - i,
    {
        let ghost before = text::texts(parts@);
        assert(all[i as int] == words@[i as int]@);
        assert(all.skip(k)[i - first] == all[i as int]);
        let part: String = expand_vars(words[i].as_str(), task_env, process_env);
        parts.push(part);
        assert(text::texts(parts@) =~= before.push(part@));
        i += 1;
    }
    assert(wanted.take(wanted.len() as int) =~= wanted);
    assert(text::texts(parts@) =~= wanted);
    assert(text::texts(parts@).len() == parts@.len());
    if parts.len() == 0 {
        let mut e: String = owned("Empty agent command: `");
        e.push_str(line.as_str());
        e.push_str("`");
        return Err(e);
    }
    let ghost before = text::texts(parts@);
    let program: String = parts.remove(0);
    assert(text::texts(parts@) =~= before.skip(1));
    let mut j: usize = 0;
    let ghost extra = text::texts(extra_args@);
    let ghost base = text::texts(parts@);
    assert(base + extra.take(0) =~= base);
    while j < extra_args.len()
        invariant
            j <= extra_args@.len(),
            extra == text::texts(extra_args@),
            text::texts(parts@) == base + extra.take(j as int),
        decreases extra_args@.len() - j,
    {
        assert(extra[j as int] == extra_args@[j as int]@);
        push_text(&mut parts, extra_args[j].as_str());
        assert(text::texts(parts@) =~= base + extra.take(j + 1));
        j += 1;
    }
    assert(extra.take(extra.len() as int) =~= extra);
    Ok(Spawn { program, args: parts, env })
}

/// Without an override, a plain command runs its first word with the others
/// and the task as arguments, and with the task's environment unchanged.
pub proof fn plain_agents_get_their_task(
    words: Seq<Seq<char>>,
    task: Seq<char>,
    vars: Seq<(Seq<char>, Seq<char>)>,
)
    requires
        words.len() > 0,
        forall|i: int|
            0 <= i < words.len() ==> text::is_word(#[trigger] words[i]) && command::unquoted(
                words[i],
            ) && !words[i].contains('$') && env::assignment(words[i]) is None,
    ensures
        agent_launch(text::join_of(words, " "@), seq![task], vars, Seq::empty()) == Ok::<
            Launch,
            Seq<char>,
        >(
            Launch { program: words[0], args: words.skip(1) + seq![task], env: vars },
        ),
{
    let line = text::join_of(words, " "@);
    lemma_join_unquoted(words);
    command::plain_lines_split_at_white_space(line);
    text::words_survive_joining(words);
    assert(words.skip(0) =~= words);
    assert(words.take(0) =~= Seq::<Seq<char>>::empty());
    assert(leading(words) == 0) by {
        assert(env::assignment(words[0]) is None);
    }
    let parts = expanded_words(words, vars, Seq::empty());
    assert forall|i: int| 0 <= i < words.len() implies parts[i] == words[i] by {
        assert(text::is_word(words[i]));
        env::plain_words_stay(words[i], vars, Seq::empty());
    }
    assert(parts =~= words);
    assert(vars + prefix_env(words.take(0), vars, Seq::empty()) =~= vars);
}

proof fn lemma_join_unquoted(words: Seq<Seq<char>>)
    requires
        forall|i: int| 0 <= i < words.len() ==> command::unquoted(#[trigger] words[i]),
    ensures
        command::unquoted(text::join_of(words, " "@)),
    decreases words.len(),
{
    reveal_strlit(" ");
    if words.len() == 1 {
        assert(command::unquoted(words[0]));
    } else if words.len() > 1 {
        let rest = words.drop_last();
        assert forall|i: int| 0 <= i < rest.len() implies command::unquoted(#[trigger] rest[i]) by {
            assert(rest[i] == words[i]);
        }
        lemma_join_unquoted(rest);
        assert(command::unquoted(words[words.len() - 1]));
        let head = text::join_of(rest, " "@);
        let whole = head + " "@ + words.last();
        assert forall|i: int| 0 <= i < whole.len() implies #[trigger] whole[i] != '\'' && whole[i]
            != '"' && whole[i] != '\\' by {
            if i < head.len() {
                assert(whole[i] == head[i]);
            } else if i > head.len() {
                assert(whole[i] == words.last()[i - head.len() - 1]);
            }
        }
    }
}

// ---- Shells ----

/// What the quoting of a text for a shell gives.
pub uninterp spec fn shell_quoted(s: Seq<char>) -> Option<Seq<char>>;

/// `shlex::try_quote`: a text as one word of a shell's command line. The
/// result is a function of the text; it fails exactly on a text that holds a
/// NUL character.
#[verifier::external_body]
fn quote_word(s: &str) -> (r: Option<String>)
    ensures
        text::opt_text(r) == shell_quoted(s@),
        r is None <==> s@.contains('\0'),
{
    try_quote(s).ok().map(|quoted| quoted.into_owned())
}

/// A text quoted for a shell, or as it is where it cannot be.
pub open spec fn quoted_or_raw(s: Seq<char>) -> Seq<char> {
    match shell_quoted(s) {
        Some(q) => q,
        None => s,
    }
}

fn quote(s: &str) -> (r: String)
    ensures
        r@ == quoted_or_raw(s@),
{
    match quote_word(s) {
        Some(q) => q,
        None => owned(s),
    }
}

/// A shell line that shows a file and then becomes a shell. A `cat` that fails
/// or is interrupted does not take the whole tab down with it.
pub open spec fn replay_line(path: Seq<char>, shell: Seq<char>) -> Seq<char> {
    "cat "@ + path + " 2>/dev/null; exec "@ + shell
}

/// What runs in a tab whose history is replayed: `path` and `shell` are words
/// for a shell.
pub fn replay(path: &str, shell: &str, task_env: &Vec<(String, String)>) -> (r: Spawn)
    ensures
        r@ == (Launch {
            program: "/bin/sh"@,
            args: seq!["-c"@, replay_line(path@, shell@)],
            env: text::pairs(task_env@),
        }),
{
    let mut line: String = owned("cat ");
    line.push_str(path);
    line.push_str(" 2>/dev/null; exec ");
    line.push_str(shell);
    let mut args: Vec<String> = Vec::new();
    push_text(&mut args, "-c");
    push_text(&mut args, line.as_str());
    assert(text::texts(args@) =~= seq!["-c"@, replay_line(path@, shell@)]);
    Spawn { program: owned("/bin/sh"), args, env: copy_pairs(task_env) }
}

/// The user's shell.
pub open spec fn shell_of(process_env: Seq<(Seq<char>, Seq<char>)>) -> Seq<char> {
    match env::value_from(process_env, 0, "SHELL"@) {
        Some(s) => s,
        None => "/bin/sh"@,
    }
}

/// What a shell tab runs: the user's shell, behind a replay of its history
/// where there is some. The shell is passed as the program, never split into
/// words: it is a path, not a command line.
pub open spec fn shell_launch(
    history: Option<Seq<char>>,
    vars: Seq<(Seq<char>, Seq<char>)>,
    process_env: Seq<(Seq<char>, Seq<char>)>,
) -> Launch {
    let shell = shell_of(process_env);
    match history {
        Some(path) => Launch {
            program: "/bin/sh"@,
            args: seq!["-c"@, replay_line(quoted_or_raw(path), quoted_or_raw(shell))],
            env: vars,
        },
        None => Launch { program: shell, args: Seq::empty(), env: vars },
    }
}

/// What a shell tab runs. `history` is the path of its history file, where
/// there is one. Shell tabs get the same environment as the agent, but no
/// `$VAR` expansion: their command line isn't user-configured.
pub fn shell_spawn(
    history: &Option<String>,
    task_env: &Vec<(String, String)>,
    process_env: &Vec<(String, String)>,
) -> (r: Spawn)
    ensures
        r@ == shell_launch(
            text::opt_text(*history),
            text::pairs(task_env@),
            text::pairs(process_env@),
        ),
{
    let shell: String = match find_value(process_env, "SHELL") {
        Some(s) => s,
        None => owned("/bin/sh"),
    };
    match history {
        Some(path) => replay(
            quote(path.as_str()).as_str(),
            quote(shell.as_str()).as_str(),
            task_env,
        ),
        None => {
            let args: Vec<String> = Vec::new();
            assert(text::texts(args@) =~= Seq::<Seq<char>>::empty());
            Spawn { program: shell, args, env: copy_pairs(task_env) }
        },
    }
}

/// What is logged when a terminal is started.
pub open spec fn spawning_of(id: Seq<char>, l: Launch, workdir: Seq<char>) -> Seq<char> {
    "terminal "@ + id + ": spawning `"@ + l.program + " "@ + text::join_of(l.args, " "@) + "` in "@
        + workdir
}

/// What is logged when a terminal is started.
pub fn spawning_line(id: &str, spawn: &Spawn, workdir: &str) -> (r: String)
    ensures
        r@ == spawning_of(id@, spawn@, workdir@),
{
    let mut r: String = owned("terminal ");
    r.push_str(id);
    r.push_str(": spawning `");
    r.push_str(spawn.program.as_str());
    r.push_str(" ");
    r.push_str(join(&spawn.args, " ").as_str());
    r.push_str("` in ");
    r.push_str(workdir);
    r
}

// ---- The planner ----

/// The words that run a preset as the planner of a repository: its planner
/// command, split and expanded against what is provided for a task in the
/// repository itself.
pub open spec fn preset_planner(
    command: Seq<char>,
    model: Seq<char>,
    repo: Seq<char>,
    process_env: Seq<(Seq<char>, Seq<char>)>,
) -> Seq<Seq<char>> {
    expanded_words(
        command::command_words(records::planner_line(command, model)),
        env::provided(repo, repo, None),
        process_env,
    )
}

/// The words that run `preset` as the planner of `repo`.
pub fn planner_argv(
    preset: &PresetRecord,
    model: &str,
    repo: &str,
    process_env: &Vec<(String, String)>,
) -> (r: Vec<String>)
    ensures
        text::texts(r@) == preset_planner(
            preset.command@,
            model@,
            repo@,
            text::pairs(process_env@),
        ),
{
    let vars: Vec<(String, String)> = task_env(repo, repo, &None);
    let words: Vec<String> = split_command(preset.planner_command(model).as_str());
    let ghost all = text::texts(words@);
    let ghost wanted = expanded_words(all, text::pairs(vars@), text::pairs(process_env@));
    let mut r: Vec<String> = Vec::new();
    let mut i: usize = 0;
    assert(text::texts(r@) =~= wanted.take(0));
    while i < words.len()
        invariant
            i <= words@.len(),
            all == text::texts(words@),
            wanted == expanded_words(all, text::pairs(vars@), text::pairs(process_env@)),
            text::texts(r@) == wanted.take(i as int),
        decreases words@.len() - i,
    {
        let ghost before = text::texts(r@);
        assert(all[i as int] == words@[i as int]@);
        let word: String = expand_vars(words[i].as_str(), &vars, process_env);
        r.push(word);
        assert(text::texts(r@) =~= before.push(word@));
        i += 1;
    }
    assert(all.len() == words@.len());
    assert(wanted.take(all.len() as int) =~= wanted);
    r
}

} // verus!
