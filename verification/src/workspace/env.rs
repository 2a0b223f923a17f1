//! The environment of an agent's processes: what is provided, how a preset
//! adds to it, and how `$VAR` in a command is expanded.

use vstd::prelude::*;
use vstd::string::*;

use crate::planner::command;
use crate::planner::command::split_command;
use crate::text;
use crate::text::{
    copy_pairs, index_of_char, is_alnum, is_digit, owned, same_text, slice_text, split_once,
    strip_prefix, to_chars,
};

verus! {

/// Whether a character can stand in the name of a variable.
pub open spec fn name_char(c: char) -> bool {
    text::alnum(c) || c == '_'
}

/// Characters that cannot stand in the name of a variable.
pub open spec fn name_breaks() -> spec_fn(char) -> bool {
    |c: char| !name_char(c)
}

/// Whether a text is the name of a variable: ASCII letters, digits and
/// underscores, at least one, and no digit first.
pub open spec fn var_name(s: Seq<char>) -> bool {
    &&& s.len() > 0
    &&& !text::digit(s[0])
    &&& forall|i: int| 0 <= i < s.len() ==> name_char(#[trigger] s[i])
}

/// Whether a text is the name of a variable.
pub fn is_var_name(name: &str) -> (r: bool)
    ensures
        r == var_name(name@),
{
    let v: Vec<char> = to_chars(name);
    if v.len() == 0 || is_digit(v[0]) {
        return false;
    }
    let mut i: usize = 0;
    while i < v.len()
        invariant
            i <= v@.len(),
            v@ == name@,
            forall|j: int| 0 <= j < i ==> name_char(#[trigger] v@[j]),
        decreases v@.len() - i,
    {
        if !(is_alnum(v[i]) || v[i] == '_') {
            assert(!name_char(name@[i as int]));
            return false;
        }
        i += 1;
    }
    true
}

/// A `KEY=value` word taken apart, where its key is the name of a variable.
pub open spec fn assignment(word: Seq<char>) -> Option<(Seq<char>, Seq<char>)> {
    match text::around(word, '=') {
        Some((name, value)) => if var_name(name) {
            Some((name, value))
        } else {
            None
        },
        None => None,
    }
}

/// The contents of an optional pair.
pub open spec fn opt_pair(o: Option<(String, String)>) -> Option<(Seq<char>, Seq<char>)> {
    match o {
        Some(p) => Some((p.0@, p.1@)),
        None => None,
    }
}

/// Split a shell-style `KEY=value` word, as accepted at the front of a
/// configured agent command. Only names that look like environment variables
/// qualify, so a program path containing `=` isn't mistaken for one.
pub fn split_assignment(word: &str) -> (r: Option<(String, String)>)
    ensures
        opt_pair(r) == assignment(word@),
{
    match split_once(word, '=') {
        Some((name, value)) => {
            if is_var_name(name.as_str()) {
                Some((name, value))
            } else {
                None
            }
        },
        None => None,
    }
}

// ---- Looking up ----

/// The value that the first pair with a name gives, looking from `i` on.
pub open spec fn value_from(
    vars: Seq<(Seq<char>, Seq<char>)>,
    i: int,
    name: Seq<char>,
) -> Option<Seq<char>>
    decreases vars.len() - i,
{
    if i < 0 || i >= vars.len() {
        None
    } else if vars[i].0 == name {
        Some(vars[i].1)
    } else {
        value_from(vars, i + 1, name)
    }
}

/// The value of a name: from the variables at hand, else from the process
/// environment. A text that is not a name has none.
pub open spec fn looked_up(
    vars: Seq<(Seq<char>, Seq<char>)>,
    process_env: Seq<(Seq<char>, Seq<char>)>,
    name: Seq<char>,
) -> Option<Seq<char>> {
    if !var_name(name) {
        None
    } else {
        match value_from(vars, 0, name) {
            Some(v) => Some(v),
            None => value_from(process_env, 0, name),
        }
    }
}

/// The value that the first pair with a name gives.
pub fn find_value(vars: &Vec<(String, String)>, name: &str) -> (r: Option<String>)
    ensures
        text::opt_text(r) == value_from(text::pairs(vars@), 0, name@),
{
    let ghost all = text::pairs(vars@);
    let mut i: usize = 0;
    while i < vars.len()
        invariant
            i <= vars@.len(),
            all == text::pairs(vars@),
            value_from(all, i as int, name@) == value_from(all, 0, name@),
        decreases vars@.len() - i,
    {
        assert(all[i as int] == (vars@[i as int].0@, vars@[i as int].1@));
        if same_text(vars[i].0.as_str(), name) {
            return Some(vars[i].1.clone());
        }
        i += 1;
    }
    None
}

fn lookup(vars: &Vec<(String, String)>, process_env: &Vec<(String, String)>, name: &str) -> (r:
    Option<String>)
    ensures
        text::opt_text(r) == looked_up(text::pairs(vars@), text::pairs(process_env@), name@),
{
    if !is_var_name(name) {
        return None;
    }
    match find_value(vars, name) {
        Some(v) => Some(v),
        None => find_value(process_env, name),
    }
}

// ---- Expanding ----

/// A word from index `i` on, with `$NAME` and `${NAME}` expanded:
///
/// - `$$` is a literal `$`;
/// - a name that has a value is replaced by it;
/// - anything else stays as written, an unclosed brace included.
pub open spec fn expanded_from(
    s: Seq<char>,
    i: int,
    vars: Seq<(Seq<char>, Seq<char>)>,
    process_env: Seq<(Seq<char>, Seq<char>)>,
) -> Seq<char>
    decreases s.len() - i,
{
    if i < 0 || i >= s.len() {
        Seq::empty()
    } else if s[i] != '$' {
        seq![s[i]] + expanded_from(s, i + 1, vars, process_env)
    } else if i + 1 < s.len() && s[i + 1] == '$' {
        seq!['$'] + expanded_from(s, i + 2, vars, process_env)
    } else if i + 1 < s.len() && s[i + 1] == '{' {
        let e = text::first_from(s, i + 2, text::only('}'));
        proof {
            text::lemma_first_from(s, i + 2, text::only('}'));
        }
        if e >= s.len() {
            s.skip(i)
        } else {
            (match looked_up(vars, process_env, s.subrange(i + 2, e)) {
                Some(value) => value,
                None => s.subrange(i, e + 1),
            }) + expanded_from(s, e + 1, vars, process_env)
        }
    } else {
        let e = text::first_from(s, i + 1, name_breaks());
        proof {
            text::lemma_first_from(s, i + 1, name_breaks());
        }
        (match looked_up(vars, process_env, s.subrange(i + 1, e)) {
            Some(value) => value,
            None => s.subrange(i, e),
        }) + expanded_from(s, e, vars, process_env)
    }
}

/// A word with `$NAME` and `${NAME}` expanded.
pub open spec fn expanded(
    s: Seq<char>,
    vars: Seq<(Seq<char>, Seq<char>)>,
    process_env: Seq<(Seq<char>, Seq<char>)>,
) -> Seq<char> {
    expanded_from(s, 0, vars, process_env)
}

fn end_of_name(v: &Vec<char>, i: usize) -> (r: usize)
    requires
        i <= v@.len(),
    ensures
        r == text::first_from(v@, i as int, name_breaks()),
        i <= r <= v@.len(),
{
    let mut k: usize = i;
    while k < v.len() && (is_alnum(v[k]) || v[k] == '_')
        invariant
            i <= k <= v@.len(),
            forall|j: int| i <= j < k ==> name_char(v@[j]),
        decreases v@.len() - k,
    {
        k += 1;
    }
    proof {
        text::lemma_first_is(v@, i as int, name_breaks(), k as int);
    }
    k
}

/// Expand `$NAME` and `${NAME}` in one command word against `vars`, falling
/// back to the process environment. Commands are run without a shell, so
/// without this a preset's `-v $HARMONIUM_TASK_GIT_ROOT:/repo` would reach the
/// program literally.
///
/// Unknown names are left as written rather than expanded to nothing: an empty
/// expansion would turn a typo into a plausible-looking `-v :/repo`, whereas
/// the literal text points straight at the mistake.
pub fn expand_vars(
    word: &str,
    vars: &Vec<(String, String)>,
    process_env: &Vec<(String, String)>,
) -> (r: String)
    ensures
        r@ == expanded(word@, text::pairs(vars@), text::pairs(process_env@)),
{
    let v: Vec<char> = to_chars(word);
    let n: usize = v.len();
    let ghost a = text::pairs(vars@);
    let ghost b = text::pairs(process_env@);
    let mut out: String = String::new();
    let mut i: usize = 0;
    assert(out@ + expanded(word@, a, b) =~= expanded(word@, a, b));
    while i < n
        invariant
            i <= n,
            n == v@.len(),
            v@ == word@,
            a == text::pairs(vars@),
            b == text::pairs(process_env@),
            out@ + expanded_from(word@, i as int, a, b) == expanded(word@, a, b),
        decreases n - i,
    {
        let ghost before = out@;
        let c: char = v[i];
        if c != '$' {
            out.push(c);
            assert(out@ + expanded_from(word@, i + 1, a, b) =~= before + (seq![c] + expanded_from(
                word@,
                i + 1,
                a,
                b,
            )));
            i += 1;
        } else if i + 1 < n && v[i + 1] == '$' {
            out.push('$');
            assert(out@ + expanded_from(word@, i + 2, a, b) =~= before + (seq!['$']
                + expanded_from(word@, i + 2, a, b)));
            i += 2;
        } else if i + 1 < n && v[i + 1] == '{' {
            let e: usize = index_of_char(&v, i + 2, '}');
            if e >= n {
                let rest: String = slice_text(&v, i, n);
                out.push_str(rest.as_str());
                assert(rest@ =~= word@.skip(i as int));
                assert(out@ =~= expanded(word@, a, b));
                return out;
            }
            let name: String = slice_text(&v, i + 2, e);
            assert(name@ =~= word@.subrange(i + 2, e as int));
            let piece: String = match lookup(vars, process_env, name.as_str()) {
                Some(value) => value,
                None => {
                    let literal: String = slice_text(&v, i, e + 1);
                    assert(literal@ =~= word@.subrange(i as int, e + 1));
                    literal
                },
            };
            out.push_str(piece.as_str());
            assert(out@ + expanded_from(word@, e + 1, a, b) =~= before + (piece@ + expanded_from(
                word@,
                e + 1,
                a,
                b,
            )));
            i = e + 1;
        } else {
            let e: usize = end_of_name(&v, i + 1);
            let name: String = slice_text(&v, i + 1, e);
            assert(name@ =~= word@.subrange(i + 1, e as int));
            let piece: String = match lookup(vars, process_env, name.as_str()) {
                Some(value) => value,
                None => {
                    let literal: String = slice_text(&v, i, e);
                    assert(literal@ =~= word@.subrange(i as int, e as int));
                    literal
                },
            };
            out.push_str(piece.as_str());
            assert(out@ + expanded_from(word@, e as int, a, b) =~= before + (piece@
                + expanded_from(word@, e as int, a, b)));
            i = e;
        }
    }
    assert(out@ =~= expanded(word@, a, b));
    out
}

/// A word without a dollar sign is not changed.
pub proof fn plain_words_stay(
    s: Seq<char>,
    vars: Seq<(Seq<char>, Seq<char>)>,
    process_env: Seq<(Seq<char>, Seq<char>)>,
)
    requires
        !s.contains('$'),
    ensures
        expanded(s, vars, process_env) == s,
{
    lemma_plain(s, 0, vars, process_env);
    assert(s.skip(0) =~= s);
}

proof fn lemma_plain(
    s: Seq<char>,
    i: int,
    vars: Seq<(Seq<char>, Seq<char>)>,
    process_env: Seq<(Seq<char>, Seq<char>)>,
)
    requires
        !s.contains('$'),
        0 <= i <= s.len(),
    ensures
        expanded_from(s, i, vars, process_env) == s.skip(i),
    decreases s.len() - i,
{
    if i < s.len() {
        assert(s.contains(s[i]));
        lemma_plain(s, i + 1, vars, process_env);
        assert(seq![s[i]] + s.skip(i + 1) =~= s.skip(i));
    } else {
        assert(s.skip(i) =~= Seq::<char>::empty());
    }
}

/// Whether two dollar signs stand next to each other.
pub open spec fn has_double(s: Seq<char>) -> bool {
    exists|i: int| 0 <= i && i + 1 < s.len() && #[trigger] s[i] == '$' && s[i + 1] == '$'
}

/// Names that have no value stay exactly as they were written, however the
/// word uses them: with nothing known, only a doubled dollar sign changes.
pub proof fn unknown_names_stay(s: Seq<char>)
    requires
        !has_double(s),
    ensures
        expanded(s, Seq::empty(), Seq::empty()) == s,
{
    lemma_unknown(s, 0);
    assert(s.skip(0) =~= s);
}

proof fn lemma_unknown(s: Seq<char>, i: int)
    requires
        !has_double(s),
        0 <= i <= s.len(),
    ensures
        expanded_from(s, i, Seq::empty(), Seq::empty()) == s.skip(i),
    decreases s.len() - i,
{
    if i >= s.len() {
        assert(s.skip(i) =~= Seq::<char>::empty());
    } else if s[i] != '$' {
        lemma_unknown(s, i + 1);
        assert(seq![s[i]] + s.skip(i + 1) =~= s.skip(i));
    } else if i + 1 < s.len() && s[i + 1] == '$' {
        assert(has_double(s));
    } else if i + 1 < s.len() && s[i + 1] == '{' {
        let e = text::first_from(s, i + 2, text::only('}'));
        text::lemma_first_from(s, i + 2, text::only('}'));
        if e < s.len() {
            lemma_unknown(s, e + 1);
            assert(s.subrange(i, e + 1) + s.skip(e + 1) =~= s.skip(i));
        }
    } else {
        let e = text::first_from(s, i + 1, name_breaks());
        text::lemma_first_from(s, i + 1, name_breaks());
        lemma_unknown(s, e);
        assert(s.subrange(i, e) + s.skip(e) =~= s.skip(i));
    }
}

// ---- An agent's environment ----

/// What is provided for an agent's processes.
pub open spec fn provided(
    project_path: Seq<char>,
    workdir: Seq<char>,
    branch: Option<Seq<char>>,
) -> Seq<(Seq<char>, Seq<char>)> {
    let base = seq![
        ("HARMONIUM_TASK_GIT_ROOT"@, project_path),
        ("HARMONIUM_TASK_WORKDIR"@, workdir),
    ];
    match branch {
        Some(b) => base.push(("HARMONIUM_TASK_BRANCH"@, b)),
        None => base,
    }
}

/// Environment provided for one agent's processes: the agent session, its
/// resumes, and its shell tabs. Preset commands can reference these with
/// `$VAR`, which is how an isolation preset learns what to mount. Without a
/// branch its variable is absent rather than empty, so that a reference to it
/// stays visible.
pub fn task_env(project_path: &str, workdir: &str, branch: &Option<String>) -> (r: Vec<
    (String, String),
>)
    ensures
        text::pairs(r@) == provided(project_path@, workdir@, text::opt_text(*branch)),
{
    let mut env: Vec<(String, String)> = Vec::new();
    env.push((owned("HARMONIUM_TASK_GIT_ROOT"), owned(project_path)));
    env.push((owned("HARMONIUM_TASK_WORKDIR"), owned(workdir)));
    if let Some(b) = branch {
        env.push((owned("HARMONIUM_TASK_BRANCH"), b.clone()));
    }
    assert(text::pairs(env@) =~= provided(project_path@, workdir@, text::opt_text(*branch)));
    env
}

/// The pairs that some words of an environment field give. Values are expanded
/// against the variables at hand and against everything assigned before them;
/// words that aren't assignments give nothing.
pub open spec fn assigned(
    words: Seq<Seq<char>>,
    vars: Seq<(Seq<char>, Seq<char>)>,
    process_env: Seq<(Seq<char>, Seq<char>)>,
) -> Seq<(Seq<char>, Seq<char>)>
    decreases words.len(),
{
    if words.len() == 0 {
        Seq::empty()
    } else {
        let before = assigned(words.drop_last(), vars, process_env);
        match assignment(words.last()) {
            Some((name, value)) => before.push(
                (name, expanded(value, vars + before, process_env)),
            ),
            None => before,
        }
    }
}

/// Parse a preset's environment field: shell-style `KEY=value` words, quoted
/// like a command line so a value may contain spaces. Values are expanded
/// against `vars` and against everything assigned earlier in the same field,
/// so one entry can build on another. Words that aren't assignments are
/// dropped; see [`env_notes`].
pub fn parse_env(
    field: &str,
    vars: &Vec<(String, String)>,
    process_env: &Vec<(String, String)>,
) -> (r: Vec<(String, String)>)
    ensures
        text::pairs(r@) == assigned(
            command::command_words(field@),
            text::pairs(vars@),
            text::pairs(process_env@),
        ),
{
    let words: Vec<String> = split_command(field);
    let ghost all = text::texts(words@);
    let ghost a = text::pairs(vars@);
    let ghost b = text::pairs(process_env@);
    let mut parsed: Vec<(String, String)> = Vec::new();
    let mut scope: Vec<(String, String)> = copy_pairs(vars);
    let mut i: usize = 0;
    assert(text::pairs(parsed@) =~= assigned(all.take(0), a, b));
    assert(text::pairs(scope@) =~= a + text::pairs(parsed@));
    while i < words.len()
        invariant
            i <= words@.len(),
            all == text::texts(words@),
            a == text::pairs(vars@),
            b == text::pairs(process_env@),
            text::pairs(parsed@) == assigned(all.take(i as int), a, b),
            text::pairs(scope@) == a + text::pairs(parsed@),
        decreases words@.len() - i,
    {
        let ghost before = text::pairs(parsed@);
        let ghost scoped = text::pairs(scope@);
        proof {
            assert(all.take(i + 1).drop_last() =~= all.take(i as int));
            assert(all.take(i + 1).last() == words@[i as int]@);
        }
        if let Some((name, value)) = split_assignment(words[i].as_str()) {
            let value: String = expand_vars(value.as_str(), &scope, process_env);
            scope.push((name.clone(), value.clone()));
            parsed.push((name, value));
            assert(text::pairs(parsed@) =~= before.push((name@, value@)));
            assert(text::pairs(scope@) =~= scoped.push((name@, value@)));
            assert(text::pairs(scope@) =~= a + text::pairs(parsed@));
        }
        i += 1;
    }
    assert(all.take(all.len() as int) =~= all);
    assert(all.len() == words@.len());
    parsed
}

/// What is logged about some words of an environment field: each that is not
/// an assignment.
pub open spec fn ignored(words: Seq<Seq<char>>) -> Seq<Seq<char>>
    decreases words.len(),
{
    if words.len() == 0 {
        Seq::empty()
    } else if assignment(words.last()) is Some {
        ignored(words.drop_last())
    } else {
        ignored(words.drop_last()).push(
            "preset environment: ignoring `"@ + words.last() + "`, expected KEY=value"@,
        )
    }
}

/// What to log about a preset's environment field: the words that aren't
/// assignments. The field has no other meaning, and silently running something
/// because of a stray word would be worse than ignoring it.
pub fn env_notes(field: &str) -> (r: Vec<String>)
    ensures
        text::texts(r@) == ignored(command::command_words(field@)),
{
    let words: Vec<String> = split_command(field);
    let ghost all = text::texts(words@);
    let mut notes: Vec<String> = Vec::new();
    let mut i: usize = 0;
    assert(text::texts(notes@) =~= ignored(all.take(0)));
    while i < words.len()
        invariant
            i <= words@.len(),
            all == text::texts(words@),
            text::texts(notes@) == ignored(all.take(i as int)),
        decreases words@.len() - i,
    {
        let ghost before = text::texts(notes@);
        proof {
            assert(all.take(i + 1).drop_last() =~= all.take(i as int));
            assert(all.take(i + 1).last() == words@[i as int]@);
        }
        if split_assignment(words[i].as_str()).is_none() {
            let mut note: String = owned("preset environment: ignoring `");
            note.push_str(words[i].as_str());
            note.push_str("`, expected KEY=value");
            notes.push(note);
            assert(text::texts(notes@) =~= before.push(note@));
        }
        i += 1;
    }
    assert(all.take(all.len() as int) =~= all);
    assert(all.len() == words@.len());
    notes
}

/// A path with `~/` at its front replaced by the home directory.
pub open spec fn home_expanded(path: Seq<char>, home: Option<Seq<char>>) -> Seq<char> {
    match (text::after_prefix(path, "~/"@), home) {
        (Some(rest), Some(h)) => h + "/"@ + rest,
        _ => path,
    }
}

/// A path with `~/` at its front replaced by the home directory, where that is
/// known.
pub fn shellexpand_home(path: &str, home: &Option<String>) -> (r: String)
    ensures
        r@ == home_expanded(path@, text::opt_text(*home)),
{
    if let Some(rest) = strip_prefix(path, "~/") {
        if let Some(h) = home {
            let mut r: String = h.clone();
            r.push_str("/");
            r.push_str(rest.as_str());
            return r;
        }
    }
    owned(path)
}

} // verus!
