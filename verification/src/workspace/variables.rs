//! What variables expand to and where they come from, said of the texts that go
//! in and come out.

use vstd::prelude::*;

use crate::planner::command;
use crate::text;
use crate::text_laws;
use crate::workspace::desk;
use crate::workspace::env;
use crate::workspace::spawn;

verus! {

/// Whether a character can stand in the name of a variable.
pub open spec fn in_names(c: char) -> bool {
    'a' <= c && c <= 'z' || 'A' <= c && c <= 'Z' || '0' <= c && c <= '9' || c == '_'
}

/// Whether a text is the name of a variable: letters, digits and underscores,
/// and no digit first.
pub open spec fn is_name(s: Seq<char>) -> bool {
    &&& s.len() > 0
    &&& !('0' <= s[0] && s[0] <= '9')
    &&& forall|i: int| 0 <= i < s.len() ==> in_names(#[trigger] s[i])
}

proof fn lemma_name(s: Seq<char>)
    ensures
        env::var_name(s) == is_name(s),
{
    if is_name(s) {
        assert forall|i: int| 0 <= i < s.len() implies env::name_char(#[trigger] s[i]) by {
            assert(in_names(s[i]));
        }
    }
    if env::var_name(s) {
        assert forall|i: int| 0 <= i < s.len() implies in_names(#[trigger] s[i]) by {
            assert(env::name_char(s[i]));
        }
    }
}

/// Whether a name has a value among some variables: that of the first pair
/// with the name.
pub open spec fn has_value(vars: desk::Pairs, name: Seq<char>, value: Seq<char>) -> bool {
    exists|k: int|
        {
            &&& 0 <= k < vars.len()
            &&& #[trigger] vars[k] == (name, value)
            &&& forall|j: int| 0 <= j < k ==> (#[trigger] vars[j]).0 != name
        }
}

/// Whether a name is among some variables.
pub open spec fn is_set(vars: desk::Pairs, name: Seq<char>) -> bool {
    exists|k: int| 0 <= k < vars.len() && (#[trigger] vars[k]).0 == name
}

proof fn lemma_value(vars: desk::Pairs, i: int, name: Seq<char>)
    requires
        0 <= i <= vars.len(),
        forall|j: int| 0 <= j < i ==> (#[trigger] vars[j]).0 != name,
    ensures
        match env::value_from(vars, i, name) {
            Some(v) => has_value(vars, name, v) && is_set(vars, name),
            None => !is_set(vars, name),
        },
    decreases vars.len() - i,
{
    if i < vars.len() {
        if vars[i].0 == name {
            assert(vars[i] == (name, vars[i].1));
        } else {
            lemma_value(vars, i + 1, name);
        }
    }
}

/// Where a name's value comes from: the variables at hand before the process
/// environment, and of several values the first.
pub proof fn values_come_from_the_nearest(
    vars: desk::Pairs,
    process_env: desk::Pairs,
    name: Seq<char>,
)
    requires
        is_name(name),
    ensures
        match env::looked_up(vars, process_env, name) {
            Some(v) => if is_set(vars, name) {
                has_value(vars, name, v)
            } else {
                has_value(process_env, name, v)
            },
            None => !is_set(vars, name) && !is_set(process_env, name),
        },
{
    lemma_name(name);
    lemma_value(vars, 0, name);
    lemma_value(process_env, 0, name);
}

proof fn lemma_first_move(a: Seq<char>, b: Seq<char>, i: int, p: spec_fn(char) -> bool)
    requires
        0 <= i <= b.len(),
    ensures
        text::first_from(a + b, a.len() + i, p) == a.len() + text::first_from(b, i, p),
    decreases b.len() - i,
{
    if i < b.len() {
        assert((a + b)[a.len() + i] == b[i]);
        lemma_first_move(a, b, i + 1, p);
    }
}

proof fn lemma_expanded_move(
    a: Seq<char>,
    b: Seq<char>,
    i: int,
    vars: desk::Pairs,
    process_env: desk::Pairs,
)
    requires
        0 <= i <= b.len(),
    ensures
        env::expanded_from(a + b, a.len() + i, vars, process_env) == env::expanded_from(
            b,
            i,
            vars,
            process_env,
        ),
    decreases b.len() - i,
{
    let s = a + b;
    let n = a.len() as int;
    if i < b.len() {
        assert(s[n + i] == b[i]);
        if b[i] != '$' {
            lemma_expanded_move(a, b, i + 1, vars, process_env);
        } else if i + 1 < b.len() && b[i + 1] == '$' {
            assert(s[n + i + 1] == b[i + 1]);
            lemma_expanded_move(a, b, i + 2, vars, process_env);
        } else if i + 1 < b.len() && b[i + 1] == '{' {
            assert(s[n + i + 1] == b[i + 1]);
            let close = text::only('}');
            lemma_first_move(a, b, i + 2, close);
            let e = text::first_from(b, i + 2, close);
            text::lemma_first_from(b, i + 2, close);
            if e >= b.len() {
                assert(s.skip(n + i) =~= b.skip(i));
            } else {
                assert(s.subrange(n + i + 2, n + e) =~= b.subrange(i + 2, e));
                assert(s.subrange(n + i, n + e + 1) =~= b.subrange(i, e + 1));
                lemma_expanded_move(a, b, e + 1, vars, process_env);
            }
        } else {
            if i + 1 < b.len() {
                assert(s[n + i + 1] == b[i + 1]);
            }
            lemma_first_move(a, b, i + 1, env::name_breaks());
            let e = text::first_from(b, i + 1, env::name_breaks());
            text::lemma_first_from(b, i + 1, env::name_breaks());
            assert(s.subrange(n + i + 1, n + e) =~= b.subrange(i + 1, e));
            assert(s.subrange(n + i, n + e) =~= b.subrange(i, e));
            lemma_expanded_move(a, b, e, vars, process_env);
        }
    }
}

/// What stands before the first dollar sign stays, and the rest is expanded as
/// it would be alone.
pub proof fn text_before_a_dollar_stays(
    a: Seq<char>,
    b: Seq<char>,
    vars: desk::Pairs,
    process_env: desk::Pairs,
)
    requires
        !a.contains('$'),
    ensures
        env::expanded(a + b, vars, process_env) == a + env::expanded(b, vars, process_env),
{
    lemma_before(a, b, 0, vars, process_env);
    assert(a.skip(0) =~= a);
}

proof fn lemma_before(
    a: Seq<char>,
    b: Seq<char>,
    i: int,
    vars: desk::Pairs,
    process_env: desk::Pairs,
)
    requires
        !a.contains('$'),
        0 <= i <= a.len(),
    ensures
        env::expanded_from(a + b, i, vars, process_env) == a.skip(i) + env::expanded(
            b,
            vars,
            process_env,
        ),
    decreases a.len() - i,
{
    if i < a.len() {
        assert((a + b)[i] == a[i]);
        assert(a.contains(a[i]));
        lemma_before(a, b, i + 1, vars, process_env);
        assert(seq![a[i]] + a.skip(i + 1) =~= a.skip(i));
        assert(env::expanded_from(a + b, i, vars, process_env) =~= a.skip(i) + env::expanded(
            b,
            vars,
            process_env,
        ));
    } else {
        lemma_expanded_move(a, b, 0, vars, process_env);
        assert(a.skip(i) + env::expanded(b, vars, process_env) =~= env::expanded(
            b,
            vars,
            process_env,
        ));
    }
}

/// A name behind a dollar sign, with or without braces, is replaced by its
/// value, and stays as it was written where it has none; what follows is
/// expanded as it would be alone.
pub proof fn names_are_replaced_by_their_values(
    name: Seq<char>,
    rest: Seq<char>,
    vars: desk::Pairs,
    process_env: desk::Pairs,
)
    requires
        is_name(name),
    ensures
        env::expanded(seq!['$', '{'] + name + seq!['}'] + rest, vars, process_env) == (
        match env::looked_up(vars, process_env, name) {
            Some(v) => v,
            None => seq!['$', '{'] + name + seq!['}'],
        }) + env::expanded(rest, vars, process_env),
        rest.len() > 0 ==> !in_names(rest[0]) ==> env::expanded(
            seq!['$'] + name + rest,
            vars,
            process_env,
        ) == (match env::looked_up(vars, process_env, name) {
            Some(v) => v,
            None => seq!['$'] + name,
        }) + env::expanded(rest, vars, process_env),
        env::expanded(seq!['$'] + name, vars, process_env) == (match env::looked_up(
            vars,
            process_env,
            name,
        ) {
            Some(v) => v,
            None => seq!['$'] + name,
        }),
{
    let n = name.len() as int;
    let braced = seq!['$', '{'] + name + seq!['}'];
    let s = braced + rest;
    let close = text::only('}');
    assert(s[0] == '$' && s[1] == '{');
    assert forall|j: int| 2 <= j < n + 2 implies !close(s[j]) by {
        assert(s[j] == name[j - 2]);
        assert(in_names(name[j - 2]));
    }
    assert(s[n + 2] == '}');
    text::lemma_first_is(s, 2, close, n + 2);
    assert(s.subrange(2, n + 2) =~= name);
    assert(s.subrange(0, n + 3) =~= braced);
    lemma_expanded_move(braced, rest, 0, vars, process_env);
    lemma_bare(name, Seq::empty(), vars, process_env);
    assert(seq!['$'] + name + Seq::<char>::empty() =~= seq!['$'] + name);
    assert(env::expanded(Seq::empty(), vars, process_env) =~= Seq::<char>::empty());
    assert(env::expanded(seq!['$'] + name, vars, process_env) =~= (match env::looked_up(
        vars,
        process_env,
        name,
    ) {
        Some(v) => v,
        None => seq!['$'] + name,
    }));
    if rest.len() > 0 && !in_names(rest[0]) {
        lemma_bare(name, rest, vars, process_env);
    }
}

proof fn lemma_bare(
    name: Seq<char>,
    rest: Seq<char>,
    vars: desk::Pairs,
    process_env: desk::Pairs,
)
    requires
        is_name(name),
        rest.len() > 0 ==> !in_names(rest[0]),
    ensures
        env::expanded(seq!['$'] + name + rest, vars, process_env) == (match env::looked_up(
            vars,
            process_env,
            name,
        ) {
            Some(v) => v,
            None => seq!['$'] + name,
        }) + env::expanded(rest, vars, process_env),
{
    let n = name.len() as int;
    let bare = seq!['$'] + name;
    let s = bare + rest;
    let breaks = env::name_breaks();
    assert(s[0] == '$');
    assert(s[1] == name[0]);
    assert(in_names(name[0]));
    assert forall|j: int| 1 <= j < n + 1 implies !breaks(s[j]) by {
        assert(s[j] == name[j - 1]);
        assert(in_names(name[j - 1]));
    }
    if rest.len() > 0 {
        assert(s[n + 1] == rest[0]);
        assert(breaks(s[n + 1]));
    }
    text::lemma_first_is(s, 1, breaks, n + 1);
    assert(s.subrange(1, n + 1) =~= name);
    assert(s.subrange(0, n + 1) =~= bare);
    lemma_expanded_move(bare, rest, 0, vars, process_env);
}

/// Two dollar signs are one, and what follows them is no name.
pub proof fn a_doubled_dollar_is_one(
    rest: Seq<char>,
    vars: desk::Pairs,
    process_env: desk::Pairs,
)
    ensures
        env::expanded(seq!['$', '$'] + rest, vars, process_env) == seq!['$'] + env::expanded(
            rest,
            vars,
            process_env,
        ),
{
    let s = seq!['$', '$'] + rest;
    assert(s[0] == '$' && s[1] == '$');
    lemma_expanded_move(seq!['$', '$'], rest, 0, vars, process_env);
}

// ---- Assignments ----

/// A word is an assignment where the name of a variable stands before its first
/// equals sign; the value is all that follows, more equals signs included.
pub proof fn assignments_are_split_at_the_first_sign(name: Seq<char>, value: Seq<char>)
    requires
        !name.contains('='),
    ensures
        env::assignment(name + seq!['='] + value) == (if is_name(name) {
            Some((name, value))
        } else {
            None
        }),
        env::assignment(name) is None,
{
    lemma_name(name);
    text_laws::cutting_at_the_first(name, '=', value);
}

/// An environment field sets its variables one by one: each value is expanded
/// with what was at hand and what was set before it. A word that sets nothing
/// is reported, and changes nothing.
pub proof fn fields_set_their_variables_in_order(
    words: Seq<Seq<char>>,
    word: Seq<char>,
    vars: desk::Pairs,
    process_env: desk::Pairs,
)
    ensures
        env::assigned(Seq::empty(), vars, process_env).len() == 0,
        env::ignored(Seq::empty()).len() == 0,
        ({
            let before = env::assigned(words, vars, process_env);
            let after = env::assigned(words.push(word), vars, process_env);
            match env::assignment(word) {
                Some((name, value)) => after == before.push(
                    (name, env::expanded(value, vars + before, process_env)),
                ) && env::ignored(words.push(word)) == env::ignored(words),
                None => after == before && env::ignored(words.push(word)).len() == env::ignored(
                    words,
                ).len() + 1 && text::has(env::ignored(words.push(word)).last(), word),
            }
        }),
{
    assert(words.push(word).drop_last() =~= words);
    let a = "preset environment: ignoring `"@;
    let s = a + word + "`, expected KEY=value"@;
    assert(s.subrange(a.len() as int, (a.len() + word.len()) as int) =~= word);
    assert(text::at(s, word, a.len() as int));
}

/// What describes a task to its processes: the project, the directory, and the
/// branch where there is one.
pub proof fn tasks_are_described(
    project_path: Seq<char>,
    workdir: Seq<char>,
    branch: Option<Seq<char>>,
)
    ensures
        ({
            let vars = env::provided(project_path, workdir, branch);
            &&& has_value(vars, "HARMONIUM_TASK_GIT_ROOT"@, project_path)
            &&& has_value(vars, "HARMONIUM_TASK_WORKDIR"@, workdir)
            &&& branch matches Some(b) ==> has_value(vars, "HARMONIUM_TASK_BRANCH"@, b)
            &&& branch is None ==> !is_set(vars, "HARMONIUM_TASK_BRANCH"@)
        }),
{
    reveal_strlit("HARMONIUM_TASK_GIT_ROOT");
    reveal_strlit("HARMONIUM_TASK_WORKDIR");
    reveal_strlit("HARMONIUM_TASK_BRANCH");
    let vars = env::provided(project_path, workdir, branch);
    assert("HARMONIUM_TASK_GIT_ROOT"@.len() == 23);
    assert("HARMONIUM_TASK_WORKDIR"@.len() == 22);
    assert("HARMONIUM_TASK_BRANCH"@.len() == 21);
    assert(vars[0] == ("HARMONIUM_TASK_GIT_ROOT"@, project_path));
    assert(vars[1] == ("HARMONIUM_TASK_WORKDIR"@, workdir));
    if let Some(b) = branch {
        assert(vars[2] == ("HARMONIUM_TASK_BRANCH"@, b));
    }
}

/// A path below the user's home is written out where the home is known, and any
/// other path is left alone.
pub proof fn only_the_home_is_written_out(rest: Seq<char>, home: Seq<char>, path: Seq<char>)
    ensures
        env::home_expanded("~/"@ + rest, Some(home)) == home + "/"@ + rest,
        env::home_expanded(path, None) == path,
        !text::starts(path, "~/"@) ==> env::home_expanded(path, Some(home)) == path,
{
    let s = "~/"@ + rest;
    let n = "~/"@.len() as int;
    assert(s.subrange(0, n) =~= "~/"@);
    assert(s.skip(n) =~= rest);
}

// ---- Command lines ----

/// Assignments at the front of a command line are environment for the process,
/// behind that of the task, and the program is the word behind them.
pub proof fn leading_assignments_are_environment(
    name: Seq<char>,
    value: Seq<char>,
    words: Seq<Seq<char>>,
    line: Seq<char>,
    extra: Seq<Seq<char>>,
    vars: desk::Pairs,
    process_env: desk::Pairs,
)
    requires
        is_name(name),
        !name.contains('='),
        words.len() > 0,
        env::assignment(words[0]) is None,
        !is_set(process_env, "HARMONIUM_AGENT_BIN"@),
        command::command_words(line) == seq![name + seq!['='] + value] + words,
    ensures
        spawn::agent_launch(line, extra, vars, process_env) matches Ok(l) && l.program
            == env::expanded(words[0], vars, process_env) && l.args.len() == words.len() - 1
            + extra.len() && l.env == vars.push((name, env::expanded(value, vars, process_env))),
{
    lemma_value(process_env, 0, "HARMONIUM_AGENT_BIN"@);
    assignments_are_split_at_the_first_sign(name, value);
    let first = name + seq!['='] + value;
    let all = seq![first] + words;
    assert(all.skip(1) =~= words);
    assert(spawn::leading(words) == 0);
    assert(spawn::leading(all) == 1);
    assert(all.take(1) =~= seq![first]);
    assert(vars + spawn::prefix_env(all.take(1), vars, process_env) =~= vars.push(
        (name, env::expanded(value, vars, process_env)),
    ));
}

/// Each word of a command line is expanded on its own, after the line was taken
/// apart, so that a value with spaces stays one argument; the extra arguments
/// follow as they are.
pub proof fn words_are_expanded_one_by_one(
    line: Seq<char>,
    extra: Seq<Seq<char>>,
    vars: desk::Pairs,
    process_env: desk::Pairs,
)
    requires
        command::command_words(line).len() > 0,
        env::assignment(command::command_words(line)[0]) is None,
        !is_set(process_env, "HARMONIUM_AGENT_BIN"@),
    ensures
        ({
            let words = command::command_words(line);
            spawn::agent_launch(line, extra, vars, process_env) matches Ok(l) && l.program
                == env::expanded(words[0], vars, process_env) && l.env == vars && l.args.len()
                == words.len() - 1 + extra.len() && (forall|i: int|
                1 <= i < words.len() ==> #[trigger] l.args[i - 1] == env::expanded(
                    words[i],
                    vars,
                    process_env,
                )) && (forall|i: int|
                0 <= i < extra.len() ==> l.args[words.len() - 1 + i] == #[trigger] extra[i])
        }),
{
    lemma_value(process_env, 0, "HARMONIUM_AGENT_BIN"@);
    let words = command::command_words(line);
    assert(spawn::leading(words) == 0);
    assert(words.skip(0) =~= words);
    assert(vars + spawn::prefix_env(words.take(0), vars, process_env) =~= vars);
    let l = spawn::agent_launch(line, extra, vars, process_env)->Ok_0;
    let parts = spawn::expanded_words(words, vars, process_env);
    assert forall|i: int| 1 <= i < words.len() implies #[trigger] l.args[i - 1] == env::expanded(
        words[i],
        vars,
        process_env,
    ) by {
        assert(l.args[i - 1] == parts[i]);
    }
}

} // verus!
