//! How the planner is asked and its reply read, said of what goes in and what
//! comes out.

use vstd::prelude::*;

use crate::planner::command;
use crate::planner::laws;
use crate::planner::plan;
use crate::text;

verus! {

// ---- The reply ----

proof fn lemma_closing_moves(
    pre: Seq<char>,
    obj: Seq<char>,
    post: Seq<char>,
    i: int,
    depth: nat,
    in_str: bool,
)
    requires
        0 <= i <= obj.len(),
        plan::closing(obj, i, depth, in_str) is Some,
    ensures
        plan::closing(pre + obj + post, pre.len() + i, depth, in_str) == Some(
            pre.len() + plan::closing(obj, i, depth, in_str)->0,
        ),
    decreases obj.len() - i,
{
    let s = pre + obj + post;
    if i < obj.len() {
        let c = obj[i];
        assert(s[pre.len() + i] == c);
        if in_str {
            if c == '\\' {
                lemma_closing_moves(pre, obj, post, i + 2, depth, true);
            } else {
                lemma_closing_moves(pre, obj, post, i + 1, depth, c != '"');
            }
        } else if c == '"' {
            lemma_closing_moves(pre, obj, post, i + 1, depth, true);
        } else if c == '{' {
            lemma_closing_moves(pre, obj, post, i + 1, depth + 1, false);
        } else if c == '}' {
            if depth > 1 {
                lemma_closing_moves(pre, obj, post, i + 1, (depth - 1) as nat, false);
            }
        } else {
            lemma_closing_moves(pre, obj, post, i + 1, depth, false);
        }
    }
}

proof fn lemma_closing_bound(s: Seq<char>, i: int, depth: nat, in_str: bool)
    requires
        0 <= i,
    ensures
        plan::closing(s, i, depth, in_str) matches Some(end) ==> i < end <= s.len(),
    decreases s.len() - i,
{
    if i < s.len() {
        lemma_closing_bound(s, i + 1, depth, false);
        lemma_closing_bound(s, i + 1, depth, true);
        if i + 1 < s.len() {
            lemma_closing_bound(s, i + 2, depth, true);
        }
        lemma_closing_bound(s, i + 1, depth + 1, false);
        if depth > 1 {
            lemma_closing_bound(s, i + 1, (depth - 1) as nat, false);
        }
    }
}

proof fn lemma_whole_object(obj: Seq<char>)
    requires
        plan::object_in(obj) == Ok::<Seq<char>, Seq<char>>(obj),
    ensures
        obj.len() > 0,
        obj[0] == '{',
        plan::closing(obj, 0, 0, false) == Some(obj.len() as int),
{
    let start = text::first_from(obj, 0, text::only('{'));
    text::lemma_first_from(obj, 0, text::only('{'));
    assert(start < obj.len());
    lemma_closing_bound(obj, start, 0, false);
    let end = plan::closing(obj, start, 0, false)->0;
    assert(obj.subrange(start, end).len() == end - start);
    assert(start == 0 && end == obj.len());
}

proof fn lemma_first_brace(pre: Seq<char>, rest: Seq<char>)
    requires
        !pre.contains('{'),
        rest.len() > 0,
        rest[0] == '{',
    ensures
        text::first_from(pre + rest, 0, text::only('{')) == pre.len(),
{
    let s = pre + rest;
    assert forall|j: int| 0 <= j < pre.len() implies !(text::only('{'))(s[j]) by {
        assert(s[j] == pre[j]);
        assert(pre.contains(pre[j]));
    }
    assert(s[pre.len() as int] == '{');
    text::lemma_first_is(s, 0, text::only('{'), pre.len() as int);
}

/// Prose and code fences around the plan's object don't matter: the first
/// object in a reply is found wherever it stands, and read to its own end.
pub proof fn prose_around_the_plan_is_ignored(pre: Seq<char>, obj: Seq<char>, post: Seq<char>)
    requires
        !pre.contains('{'),
        plan::object_in(obj) == Ok::<Seq<char>, Seq<char>>(obj),
    ensures
        plan::object_in(pre + obj + post) == Ok::<Seq<char>, Seq<char>>(obj),
{
    let s = pre + obj + post;
    lemma_whole_object(obj);
    lemma_closing_moves(pre, obj, post, 0, 0, false);
    assert(s =~= pre + (obj + post));
    lemma_first_brace(pre, obj + post);
    assert(s.subrange(pre.len() as int, (pre.len() + obj.len()) as int) =~= obj);
}

/// Whether a text has neither quotes nor backslashes.
pub open spec fn unescaped(s: Seq<char>) -> bool {
    forall|i: int| 0 <= i < s.len() ==> #[trigger] s[i] != '"' && s[i] != '\\'
}

proof fn lemma_through_string(s: Seq<char>, i: int, e: int, depth: nat)
    requires
        0 <= i <= e < s.len(),
        forall|j: int| i <= j < e ==> #[trigger] s[j] != '"' && s[j] != '\\',
        s[e] == '"',
    ensures
        plan::closing(s, i, depth, true) == plan::closing(s, e + 1, depth, false),
    decreases e - i,
{
    if i < e {
        lemma_through_string(s, i + 1, e, depth);
    }
}

/// What stands in a string is no part of the object's shape: braces in it
/// neither open nor close anything.
pub proof fn braces_in_strings_do_not_count(content: Seq<char>)
    requires
        unescaped(content),
    ensures
        plan::object_in(seq!['{', '"'] + content + seq!['"', '}']) == Ok::<Seq<char>, Seq<char>>(
            seq!['{', '"'] + content + seq!['"', '}'],
        ),
{
    let s = seq!['{', '"'] + content + seq!['"', '}'];
    let e = 2 + content.len() as int;
    assert(s[0] == '{' && s[1] == '"' && s[e] == '"' && s[e + 1] == '}');
    assert forall|j: int| 2 <= j < e implies #[trigger] s[j] != '"' && s[j] != '\\' by {
        assert(s[j] == content[j - 2]);
    }
    text::lemma_first_is(s, 0, text::only('{'), 0);
    lemma_through_string(s, 2, e, 1);
    assert(plan::closing(s, e + 1, 1, false) == Some(e + 2));
    assert(plan::closing(s, 1, 1, false) == plan::closing(s, 2, 1, true));
    assert(plan::closing(s, 0, 0, false) == plan::closing(s, 1, 1, false));
    assert(s.subrange(0, e + 2) =~= s);
}

/// A quote behind a backslash does not end its string.
pub proof fn escaped_quotes_stay_in_the_string(one: Seq<char>, other: Seq<char>)
    requires
        unescaped(one),
        unescaped(other),
    ensures
        plan::object_in(
            seq!['{', '"'] + one + seq!['\\', '"'] + other + seq!['"', '}'],
        ) == Ok::<Seq<char>, Seq<char>>(
            seq!['{', '"'] + one + seq!['\\', '"'] + other + seq!['"', '}'],
        ),
{
    let s = seq!['{', '"'] + one + seq!['\\', '"'] + other + seq!['"', '}'];
    let m = 2 + one.len() as int;
    let e = m + 2 + other.len() as int;
    assert(s[0] == '{' && s[1] == '"' && s[m] == '\\' && s[m + 1] == '"');
    assert(s[e] == '"' && s[e + 1] == '}');
    assert forall|j: int| 2 <= j < m implies #[trigger] s[j] != '"' && s[j] != '\\' by {
        assert(s[j] == one[j - 2]);
    }
    assert forall|j: int| m + 2 <= j < e implies #[trigger] s[j] != '"' && s[j] != '\\' by {
        assert(s[j] == other[j - m - 2]);
    }
    text::lemma_first_is(s, 0, text::only('{'), 0);
    lemma_to_backslash(s, 2, m, 1);
    lemma_through_string(s, m + 2, e, 1);
    assert(plan::closing(s, m, 1, true) == plan::closing(s, m + 2, 1, true));
    assert(plan::closing(s, e + 1, 1, false) == Some(e + 2));
    assert(plan::closing(s, 1, 1, false) == plan::closing(s, 2, 1, true));
    assert(plan::closing(s, 0, 0, false) == plan::closing(s, 1, 1, false));
    assert(s.subrange(0, e + 2) =~= s);
}

proof fn lemma_to_backslash(s: Seq<char>, i: int, m: int, depth: nat)
    requires
        0 <= i <= m < s.len(),
        forall|j: int| i <= j < m ==> #[trigger] s[j] != '"' && s[j] != '\\',
    ensures
        plan::closing(s, i, depth, true) == plan::closing(s, m, depth, true),
    decreases m - i,
{
    if i < m {
        lemma_to_backslash(s, i + 1, m, depth);
    }
}

/// How many more braces a text opens than it closes.
pub open spec fn open_braces(s: Seq<char>) -> int
    decreases s.len(),
{
    if s.len() == 0 {
        0
    } else {
        open_braces(s.drop_last()) + (if s.last() == '{' {
            1int
        } else if s.last() == '}' {
            -1
        } else {
            0
        })
    }
}

proof fn lemma_nesting(s: Seq<char>, i: int, e: int)
    requires
        0 < i < e <= s.len(),
        forall|j: int| 0 <= j < s.len() ==> #[trigger] s[j] != '"',
        open_braces(s.take(e)) == 0,
        forall|k: int| 0 < k < e ==> open_braces(#[trigger] s.take(k)) > 0,
    ensures
        plan::closing(s, i, open_braces(s.take(i)) as nat, false) == Some(e),
    decreases e - i,
{
    assert(s.take(i + 1).drop_last() =~= s.take(i));
    assert(s.take(i + 1).last() == s[i]);
    assert(open_braces(s.take(i)) > 0);
    if i + 1 < e {
        assert(open_braces(s.take(i + 1)) > 0);
        lemma_nesting(s, i + 1, e);
    }
}

/// Objects nest: without strings in it, an object ends where every brace that
/// it opened is closed, and not before.
pub proof fn objects_nest(s: Seq<char>, e: int)
    requires
        0 < e <= s.len(),
        s[0] == '{',
        forall|j: int| 0 <= j < s.len() ==> #[trigger] s[j] != '"',
        open_braces(s.take(e)) == 0,
        forall|k: int| 0 < k < e ==> open_braces(#[trigger] s.take(k)) > 0,
    ensures
        plan::object_in(s) == Ok::<Seq<char>, Seq<char>>(s.take(e)),
{
    text::lemma_first_is(s, 0, text::only('{'), 0);
    assert(s.take(1).drop_last() =~= Seq::<char>::empty());
    assert(open_braces(s.take(1)) == 1) by {
        reveal_with_fuel(open_braces, 2);
    }
    assert(e > 1);
    lemma_nesting(s, 1, e);
    assert(plan::closing(s, 0, 0, false) == plan::closing(s, 1, 1, false));
    assert(s.subrange(0, e) =~= s.take(e));
}

/// A reply without an object is reported with what it says, and so is one whose
/// object never ends; what a planner that failed wrote is reported too, its
/// errors before its output.
pub proof fn bad_replies_are_reported(reply: Seq<char>, stdout: Seq<char>, stderr: Seq<char>)
    ensures
        !reply.contains('{') ==> plan::object_in(reply) == Err::<Seq<char>, Seq<char>>(
            "planner did not reply with JSON: "@ + command::snippet_of(reply),
        ),
        plan::object_in(reply) matches Err(e) ==> text::ends(e, command::snippet_of(reply)),
        plan::reply_of(true, stdout, stderr) == plan::object_in(stdout),
        laws::says_something(stderr) ==> plan::reply_of(false, stdout, stderr) == Err::<
            Seq<char>,
            Seq<char>,
        >("planner failed: "@ + command::snippet_of(stderr)),
        !laws::says_something(stderr) ==> plan::reply_of(false, stdout, stderr) == Err::<
            Seq<char>,
            Seq<char>,
        >("planner failed: "@ + command::snippet_of(stdout)),
{
    laws::lemma_blank(stderr);
    let start = text::first_from(reply, 0, text::only('{'));
    text::lemma_first_from(reply, 0, text::only('{'));
    if start < reply.len() {
        assert(reply[start] == '{');
    }
    let snippet = command::snippet_of(reply);
    let a = "planner did not reply with JSON: "@;
    let b = "unterminated JSON in planner output: "@;
    assert((a + snippet).subrange(a.len() as int, (a + snippet).len() as int) =~= snippet);
    assert((b + snippet).subrange(b.len() as int, (b + snippet).len() as int) =~= snippet);
}

// ---- The planner's command ----

/// Which command plans, highest first: the command override, the model
/// override, the command of the settings, the preset, and the model of the
/// settings. A blank value is as good as none, and both overrides at once are
/// an error.
pub proof fn the_planner_is_chosen_in_order(
    cmd_env: Option<Seq<char>>,
    model_env: Option<Seq<char>>,
    command: Seq<char>,
    preset_argv: Seq<Seq<char>>,
    model: Seq<char>,
    program: Seq<char>,
)
    ensures
        ({
            let chosen = plan::planning_command(
                cmd_env,
                model_env,
                command,
                preset_argv,
                model,
                program,
            );
            let by_cmd = laws::gives(cmd_env);
            let by_model = laws::gives(model_env);
            let by_command = laws::says_something(command);
            &&& by_cmd && by_model ==> chosen is Err
            &&& by_cmd && !by_model && chosen is Ok ==> chosen->Ok_0.line == text::trim_of(
                cmd_env->0,
            ) && chosen->Ok_0.argv == command::command_words(text::trim_of(cmd_env->0))
            &&& !by_cmd && by_model && chosen is Ok ==> chosen->Ok_0.line == program
                + " -p --model "@ + text::trim_of(model_env->0)
            &&& !by_cmd && !by_model && by_command && chosen is Ok ==> chosen->Ok_0.line
                == text::trim_of(command) && chosen->Ok_0.argv == command::command_words(
                text::trim_of(command),
            )
            &&& !by_cmd && !by_model && !by_command && preset_argv.len() > 0 ==> chosen is Ok
                && chosen->Ok_0.argv == preset_argv && chosen->Ok_0.line == text::join_of(
                preset_argv,
                " "@,
            )
            &&& !by_cmd && !by_model && !by_command && preset_argv.len() == 0 && chosen is Ok
                && laws::says_something(model) ==> chosen->Ok_0.line == program + " -p --model "@
                + text::trim_of(model)
            &&& !by_cmd && !by_model && !by_command && preset_argv.len() == 0 && chosen is Ok
                && !laws::says_something(model) ==> chosen->Ok_0.line == program
                + " -p --model "@ + "haiku"@
        }),
{
    if let Some(c) = cmd_env {
        laws::lemma_blank(c);
    }
    if let Some(m) = model_env {
        laws::lemma_blank(m);
    }
    laws::lemma_blank(command);
    laws::lemma_blank(model);
}

/// A model's planner is the program in print mode with that model, each a word
/// of its own; a model of several words is refused, as they would be flags.
pub proof fn a_model_is_one_word(program: Seq<char>, model: Seq<char>)
    requires
        text::is_word(program),
        command::unquoted(program),
        command::unquoted(model),
        laws::says_something(model),
    ensures
        text::is_word(model) ==> (plan::default_command(program, model) matches Ok(c) && c.argv
            == seq![program, "-p"@, "--model"@, model]),
        !text::is_word(model) ==> plan::default_command(program, model) is Err,
{
    reveal_strlit("-p");
    reveal_strlit("--model");
    reveal_strlit(" -p --model ");
    reveal_strlit(" ");
    if text::is_word(model) {
        assert(!plan::spaced(model));
        let words = seq![program, "-p"@, "--model"@, model];
        let line = program + " -p --model "@ + model;
        assert(words.drop_last() =~= seq![program, "-p"@, "--model"@]);
        assert(seq![program, "-p"@, "--model"@].drop_last() =~= seq![program, "-p"@]);
        assert(seq![program, "-p"@].drop_last() =~= seq![program]);
        reveal_with_fuel(text::join_of, 5);
        assert(text::join_of(words, " "@) =~= line);
        assert forall|i: int| 0 <= i < words.len() implies text::is_word(#[trigger] words[i]) by {
            assert(forall|c: char| c == '-' || 'a' <= c <= 'z' ==> !text::white(c));
        }
        text::words_survive_joining(words);
        assert(command::unquoted(line)) by {
            assert forall|i: int| 0 <= i < line.len() implies #[trigger] line[i] != '\''
                && line[i] != '"' && line[i] != '\\' by {
                if i < program.len() {
                    assert(line[i] == program[i]);
                } else if i >= program.len() + 12 {
                    assert(line[i] == model[i - program.len() - 12]);
                } else {
                    assert(line[i] == " -p --model "@[i - program.len()]);
                }
            }
        }
        command::plain_lines_split_at_white_space(line);
    } else {
        let i = choose|i: int| 0 <= i < model.len() && !text::white(#[trigger] model[i]);
        assert(model.len() > 0);
        assert(plan::spaced(model));
    }
}

/// The planner is run as its command says, with the prompt as one last
/// argument.
pub proof fn the_prompt_is_the_last_argument(c: plan::Command, prompt: Seq<char>)
    requires
        c.argv.len() > 0,
    ensures
        plan::run_with(Ok(c), prompt) matches Ok(run) && seq![run.program] + run.args
            == c.argv.push(prompt) && run.line == c.line,
{
    let run = plan::run_with(Ok(c), prompt)->Ok_0;
    assert(seq![run.program] + run.args =~= c.argv.push(prompt));
}

proof fn lemma_has(a: Seq<char>, b: Seq<char>, c: Seq<char>)
    ensures
        text::has(a + b + c, b),
{
    let s = a + b + c;
    assert(s.subrange(a.len() as int, (a.len() + b.len()) as int) =~= b);
    assert(text::at(s, b, a.len() as int));
}

/// The planner is told all that it needs to decide: the task, the default
/// branch, every local and every remote branch, and the open pull requests.
pub proof fn the_prompt_tells_what_there_is(
    default_branch: Seq<char>,
    locals: Seq<Seq<char>>,
    remotes: Seq<Seq<char>>,
    prs: Option<Seq<char>>,
    task: Seq<char>,
    i: int,
)
    ensures
        ({
            let prompt = plan::prompt_of(default_branch, locals, remotes, prs, task);
            &&& text::has(prompt, task)
            &&& text::has(prompt, "default branch: "@ + default_branch)
            &&& 0 <= i < locals.len() ==> text::has(prompt, locals[i])
            &&& 0 <= i < remotes.len() ==> text::has(prompt, remotes[i])
            &&& prs matches Some(p) ==> text::has(prompt, p)
        }),
{
    let prompt = plan::prompt_of(default_branch, locals, remotes, prs, task);
    let shown = match prs {
        Some(p) => p,
        None => "(none or unavailable)"@,
    };
    let opening = plan::PROMPT_OPENING@;
    let t5 = plan::PROMPT_TASK@ + task + plan::PROMPT_SHAPE@ + default_branch
        + plan::PROMPT_RULES@;
    let t4 = plan::PROMPT_PULLS@ + shown + t5;
    let t3 = plan::PROMPT_REMOTES@ + plan::listed(remotes) + t4;
    let t2 = plan::PROMPT_LOCALS@ + plan::listed(locals) + t3;
    assert(prompt =~= opening + default_branch + t2);
    let label = "default branch: "@;
    reveal_strlit("default branch: ");
    reveal_strlit("You are a planning assistant for an agent orchestrator. A coding agent will be \\\nspawned to work on a task inside a git repository. Decide how its workspace should be set up.\n\nRepository default branch: ");
    let cut = opening.take(opening.len() - 16);
    assert(opening =~= cut + label);
    assert(prompt =~= cut + (label + default_branch) + t2);
    lemma_has(cut, label + default_branch, t2);
    let h2 = opening + default_branch + plan::PROMPT_LOCALS@;
    assert(prompt =~= h2 + plan::listed(locals) + t3);
    lemma_has(h2, plan::listed(locals), t3);
    if 0 <= i < locals.len() {
        text::lemma_join_has(locals, "\n"@, i);
        text::lemma_has_trans(prompt, plan::listed(locals), locals[i]);
    }
    let h3 = h2 + plan::listed(locals) + plan::PROMPT_REMOTES@;
    assert(prompt =~= h3 + plan::listed(remotes) + t4);
    lemma_has(h3, plan::listed(remotes), t4);
    if 0 <= i < remotes.len() {
        text::lemma_join_has(remotes, "\n"@, i);
        text::lemma_has_trans(prompt, plan::listed(remotes), remotes[i]);
    }
    let h4 = h3 + plan::listed(remotes) + plan::PROMPT_PULLS@;
    assert(prompt =~= h4 + shown + t5);
    lemma_has(h4, shown, t5);
    let h5 = h4 + shown + plan::PROMPT_TASK@;
    let t6 = plan::PROMPT_SHAPE@ + default_branch + plan::PROMPT_RULES@;
    assert(prompt =~= h5 + task + t6);
    lemma_has(h5, task, t6);
}

// ---- Falling back ----

/// Without a planner, a task gets a new branch of the app's own off the
/// repository's default branch, and both the branch and the agent are named
/// after the task.
pub proof fn the_fallback_is_a_new_branch(task: Seq<char>, default_branch: Seq<char>)
    ensures
        ({
            let p = plan::plan_without_planner(task, default_branch);
            &&& p.mode == "new_branch"@
            &&& p.base_branch == Some(default_branch)
            &&& p.branch == Some("harmonium/"@ + command::slug_of(task, 4))
            &&& p.agent_name == Some(text::replaced(command::slug_of(task, 3), '-', " "@))
        }),
{
}

// ---- Slugs ----

/// A word's letters and digits, in lower case.
pub open spec fn letters(w: Seq<char>) -> Seq<char> {
    w.filter(
        |c: char| 'a' <= c && c <= 'z' || 'A' <= c && c <= 'Z' || '0' <= c && c <= '9',
    ).map_values(
        |c: char|
            if 'A' <= c && c <= 'Z' {
                ((c as u32) - ('A' as u32) + ('a' as u32)) as char
            } else {
                c
            },
    )
}

/// A slug is what is left of the first words of a text when only letters and
/// digits are kept, in lower case, with dashes between the words that have any;
/// or `task`, where none has.
pub proof fn a_slug_is_the_letters_of_the_words(s: Seq<char>, n: nat)
    ensures
        ({
            let parts = laws::at_most(text::words_of(s), n).map_values(
                |w: Seq<char>| letters(w),
            ).filter(|w: Seq<char>| w.len() > 0);
            command::slug_of(s, n as int) == (if parts.len() == 0 {
                "task"@
            } else {
                text::join_of(parts, "-"@)
            })
        }),
{
    lemma_slug_parts(laws::at_most(text::words_of(s), n));
}

proof fn lemma_letters(w: Seq<char>)
    ensures
        command::slug_word(w) == letters(w),
    decreases w.len(),
{
    reveal(Seq::filter);
    if w.len() > 0 {
        lemma_letters(w.drop_last());
    }
    assert(command::slug_word(w) =~= letters(w));
}

proof fn lemma_slug_parts(words: Seq<Seq<char>>)
    ensures
        command::slug_words(words) == words.map_values(|w: Seq<char>| letters(w)).filter(
            |w: Seq<char>| w.len() > 0,
        ),
    decreases words.len(),
{
    reveal(Seq::filter);
    let all = words.map_values(|w: Seq<char>| letters(w));
    if words.len() > 0 {
        lemma_slug_parts(words.drop_last());
        lemma_letters(words.last());
        assert(all.drop_last() =~= words.drop_last().map_values(|w: Seq<char>| letters(w)));
        assert(all.last() == letters(words.last()));
    }
    assert(command::slug_words(words) =~= all.filter(|w: Seq<char>| w.len() > 0));
}

} // verus!
