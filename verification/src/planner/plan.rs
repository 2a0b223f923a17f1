//! Plans: what the planner is asked, how its reply is read, and what a plan
//! becomes under the user's own choice of workspace.

use vstd::prelude::*;
use vstd::string::*;

use crate::planner::command;
use crate::planner::command::{slugify, snippet, split_command};
use crate::state::records::{WorkspaceMode, DEFAULT_MODEL};
use crate::text;
use crate::text::{
    copy_texts, index_of_char, is_blank, is_whitespace, join, owned, push_text, replace_char,
    same_text, slice_text, to_chars, trim,
};

verus! {

/// What the planner decided for a task.
#[derive(Debug)]
pub struct TaskPlan {
    /// "existing_branch" | "new_branch" | "base"
    pub mode: String,
    /// Branch to check out (existing_branch) or to create (new_branch).
    pub branch: Option<String>,
    /// Base branch for new_branch mode. Defaults to the repo's default branch.
    pub base_branch: Option<String>,
    /// Short (2-4 word) display name for the agent.
    pub agent_name: Option<String>,
}

/// What a [`TaskPlan`] says.
#[verifier::ext_equal]
pub struct Plan {
    pub mode: Seq<char>,
    pub branch: Option<Seq<char>>,
    pub base_branch: Option<Seq<char>>,
    pub agent_name: Option<Seq<char>>,
}

impl View for TaskPlan {
    type V = Plan;

    open spec fn view(&self) -> Plan {
        Plan {
            mode: self.mode@,
            branch: text::opt_text(self.branch),
            base_branch: text::opt_text(self.base_branch),
            agent_name: text::opt_text(self.agent_name),
        }
    }
}

/// An optional text that says something: present and not blank.
pub open spec fn said(o: Option<Seq<char>>) -> bool {
    o is Some && !text::blank(o->0)
}

fn says(o: &Option<String>) -> (r: bool)
    ensures
        r == said(text::opt_text(*o)),
{
    match o {
        Some(s) => !is_blank(s.as_str()),
        None => false,
    }
}

// ---- The user's choice of workspace ----

/// A branch of the app's own, named after a text.
pub open spec fn own_branch(source: Seq<char>) -> Seq<char> {
    "harmonium/"@ + command::slug_of(source, 4)
}

/// A plan under the workspace that the user asked for. Only the *placement* is
/// forced: the agent name stays whatever the planner derived from the task.
///
/// Forcing a worktree keeps the planner's branch when it named one, and
/// derives one otherwise, from the agent's name or else from the task.
pub open spec fn plan_under(plan: Plan, mode: WorkspaceMode, task: Seq<char>) -> Plan {
    match mode {
        WorkspaceMode::Auto => plan,
        WorkspaceMode::NewWorktree => Plan {
            mode: if plan.mode == "base"@ {
                "new_branch"@
            } else {
                plan.mode
            },
            branch: if said(plan.branch) {
                plan.branch
            } else {
                Some(
                    own_branch(
                        if said(plan.agent_name) {
                            plan.agent_name->0
                        } else {
                            task
                        },
                    ),
                )
            },
            ..plan
        },
        WorkspaceMode::MainBranch => Plan {
            mode: "base"@,
            branch: None,
            base_branch: None,
            ..plan
        },
    }
}

fn branch_for(source: &str) -> (r: String)
    ensures
        r@ == own_branch(source@),
{
    let mut r: String = owned("harmonium/");
    r.push_str(slugify(source, 4).as_str());
    r
}

/// Override the workspace the planner chose with the one the user asked for.
pub fn apply_workspace_mode(plan: &mut TaskPlan, mode: WorkspaceMode, task: &str)
    ensures
        final(plan)@ == plan_under(old(plan)@, mode, task@),
{
    match mode {
        WorkspaceMode::Auto => {},
        WorkspaceMode::NewWorktree => {
            if same_text(plan.mode.as_str(), "base") {
                plan.mode = owned("new_branch");
            }
            if !says(&plan.branch) {
                let branch: String = if says(&plan.agent_name) {
                    match &plan.agent_name {
                        Some(name) => branch_for(name.as_str()),
                        None => branch_for(task),
                    }
                } else {
                    branch_for(task)
                };
                plan.branch = Some(branch);
            }
        },
        WorkspaceMode::MainBranch => {
            plan.mode = owned("base");
            plan.branch = None;
            plan.base_branch = None;
        },
    }
}

/// The user's choice decides where an agent works and never what it is called.
pub proof fn choice_keeps_the_name(plan: Plan, mode: WorkspaceMode, task: Seq<char>)
    ensures
        plan_under(plan, mode, task).agent_name == plan.agent_name,
        mode == WorkspaceMode::Auto ==> plan_under(plan, mode, task) == plan,
        mode == WorkspaceMode::MainBranch ==> plan_under(plan, mode, task).mode == "base"@,
{
}

/// Forcing a worktree always leaves a branch to check out, and never the base
/// checkout; a branch that the planner named is kept.
pub proof fn forced_worktrees_have_a_branch(plan: Plan, task: Seq<char>)
    ensures
        plan_under(plan, WorkspaceMode::NewWorktree, task).mode != "base"@,
        said(plan_under(plan, WorkspaceMode::NewWorktree, task).branch),
        said(plan.branch) ==> plan_under(plan, WorkspaceMode::NewWorktree, task).branch
            == plan.branch,
{
    reveal_strlit("base");
    reveal_strlit("new_branch");
    reveal_strlit("harmonium/");
    assert("base"@.len() != "new_branch"@.len());
    let forced = plan_under(plan, WorkspaceMode::NewWorktree, task);
    if !said(plan.branch) {
        let b = forced.branch->0;
        assert(b[0] == 'h');
        text::lemma_not_blank(b, 0);
    }
}

/// The plan when the planner is unavailable: a new branch off the default
/// branch, both named after the task.
pub open spec fn plan_without_planner(task: Seq<char>, default_branch: Seq<char>) -> Plan {
    Plan {
        mode: "new_branch"@,
        branch: Some(own_branch(task)),
        base_branch: Some(default_branch),
        agent_name: Some(text::replaced(command::slug_of(task, 3), '-', " "@)),
    }
}

/// Fallback plan when the planner is unavailable: new branch off the default
/// branch.
pub fn fallback_plan(task: &str, default_branch: String) -> (r: TaskPlan)
    ensures
        r@ == plan_without_planner(task@, default_branch@),
{
    TaskPlan {
        mode: owned("new_branch"),
        branch: Some(branch_for(task)),
        base_branch: Some(default_branch),
        agent_name: Some(replace_char(slugify(task, 3).as_str(), '-', " ")),
    }
}

// ---- Reading the reply ----

/// Where the object that is open at `i` closes: the index behind its brace.
/// Braces in strings don't count, and a backslash in a string takes the next
/// character with it.
pub open spec fn closing(s: Seq<char>, i: int, depth: nat, in_str: bool) -> Option<int>
    decreases s.len() - i,
{
    if i < 0 || i >= s.len() {
        None
    } else if in_str {
        if s[i] == '\\' {
            if i + 1 < s.len() {
                closing(s, i + 2, depth, true)
            } else {
                None
            }
        } else {
            closing(s, i + 1, depth, s[i] != '"')
        }
    } else if s[i] == '"' {
        closing(s, i + 1, depth, true)
    } else if s[i] == '{' {
        closing(s, i + 1, depth + 1, false)
    } else if s[i] == '}' {
        if depth <= 1 {
            Some(i + 1)
        } else {
            closing(s, i + 1, (depth - 1) as nat, false)
        }
    } else {
        closing(s, i + 1, depth, false)
    }
}

/// The first JSON object in a reply, or what is wrong with the reply.
pub open spec fn object_in(reply: Seq<char>) -> Result<Seq<char>, Seq<char>> {
    let start = text::first_from(reply, 0, text::only('{'));
    if start >= reply.len() {
        Err("planner did not reply with JSON: "@ + command::snippet_of(reply))
    } else {
        match closing(reply, start, 0, false) {
            Some(end) => Ok(reply.subrange(start, end)),
            None => Err("unterminated JSON in planner output: "@ + command::snippet_of(reply)),
        }
    }
}

/// The contents of a text result.
pub open spec fn text_result(r: Result<String, String>) -> Result<Seq<char>, Seq<char>> {
    match r {
        Ok(s) => Ok(s@),
        Err(e) => Err(e@),
    }
}

/// The plan's JSON in the planner's reply. Forgiving about surrounding prose
/// or code fences: this is the first top-level JSON object. An error holds the
/// planner's actual reply, so that messages like "session limit reached" reach
/// the user.
pub fn plan_json(reply: &str) -> (r: Result<String, String>)
    ensures
        text_result(r) == object_in(reply@),
{
    let v: Vec<char> = to_chars(reply);
    let n: usize = v.len();
    let start: usize = index_of_char(&v, 0, '{');
    if start == n {
        let mut e: String = owned("planner did not reply with JSON: ");
        e.push_str(snippet(reply).as_str());
        return Err(e);
    }
    let mut i: usize = start;
    let mut depth: usize = 0;
    let mut in_str: bool = false;
    while i < n
        invariant
            v@ == reply@,
            n == v@.len(),
            start == text::first_from(reply@, 0, text::only('{')),
            start < n,
            v@[start as int] == '{',
            start <= i <= n,
            depth <= i - start,
            i > start && !in_str ==> depth >= 1,
            in_str ==> depth >= 1,
            closing(reply@, i as int, depth as nat, in_str) == closing(
                reply@,
                start as int,
                0,
                false,
            ),
        decreases n - i,
    {
        let c: char = v[i];
        if in_str {
            if c == '\\' {
                if i + 1 == n {
                    i = n;
                } else {
                    i += 2;
                }
            } else {
                in_str = c != '"';
                i += 1;
            }
        } else if c == '"' {
            in_str = true;
            i += 1;
        } else if c == '{' {
            depth += 1;
            i += 1;
        } else if c == '}' {
            if depth <= 1 {
                let object: String = slice_text(&v, start, i + 1);
                assert(object@ =~= reply@.subrange(start as int, i + 1));
                return Ok(object);
            }
            depth -= 1;
            i += 1;
        } else {
            i += 1;
        }
    }
    let mut e: String = owned("unterminated JSON in planner output: ");
    e.push_str(snippet(reply).as_str());
    Err(e)
}

/// What is taken for the plan stands in the reply, from an opening brace to a
/// closing one, and no brace comes before it.
pub proof fn plan_json_is_braced(reply: Seq<char>)
    requires
        object_in(reply) is Ok,
    ensures
        object_in(reply)->Ok_0.first() == '{',
        object_in(reply)->Ok_0.last() == '}',
        text::has(reply, object_in(reply)->Ok_0),
{
    let start = text::first_from(reply, 0, text::only('{'));
    text::lemma_first_from(reply, 0, text::only('{'));
    lemma_closing(reply, start, 0, false);
    let end = closing(reply, start, 0, false)->0;
    assert(reply[start] == '{');
    assert(end > start + 1) by {
        lemma_closing(reply, start + 1, 1, false);
    }
    let object = reply.subrange(start, end);
    assert(object[0] == reply[start]);
    assert(object.last() == reply[end - 1]);
    assert(text::at(reply, object, start));
}

proof fn lemma_closing(s: Seq<char>, i: int, depth: nat, in_str: bool)
    requires
        0 <= i,
    ensures
        closing(s, i, depth, in_str) matches Some(end) ==> i < end <= s.len() && s[end - 1] == '}',
    decreases s.len() - i,
{
    if i < s.len() {
        if in_str {
            if s[i] == '\\' {
                if i + 1 < s.len() {
                    lemma_closing(s, i + 2, depth, true);
                }
            } else {
                lemma_closing(s, i + 1, depth, s[i] != '"');
            }
        } else if s[i] == '"' {
            lemma_closing(s, i + 1, depth, true);
        } else if s[i] == '{' {
            lemma_closing(s, i + 1, depth + 1, false);
        } else if s[i] == '}' {
            if depth > 1 {
                lemma_closing(s, i + 1, (depth - 1) as nat, false);
            }
        } else {
            lemma_closing(s, i + 1, depth, false);
        }
    }
}

/// What is said of a planner that failed: what it wrote to standard error, or
/// to standard output where that is blank.
pub open spec fn failure_of(stdout: Seq<char>, stderr: Seq<char>) -> Seq<char> {
    "planner failed: "@ + command::snippet_of(
        if text::blank(stderr) {
            stdout
        } else {
            stderr
        },
    )
}

/// What is said of a planner that failed.
pub fn planner_failure(stdout: &str, stderr: &str) -> (r: String)
    ensures
        r@ == failure_of(stdout@, stderr@),
{
    let mut r: String = owned("planner failed: ");
    if is_blank(stderr) {
        r.push_str(snippet(stdout).as_str());
    } else {
        r.push_str(snippet(stderr).as_str());
    }
    r
}

// ---- The planner's command ----

/// Planner configuration from the persisted settings, as edited in the
/// settings dialog. The `HARMONIUM_PLANNER_*` variables override these for
/// one-off runs.
pub struct PlannerSettings {
    /// Full command line; when set, `preset_argv` and `model` are unused.
    pub command: String,
    /// Words derived from the selected agent preset, already split, already
    /// `$VAR`-expanded, and already carrying the print-mode flags and the
    /// model. Empty when no preset is selected.
    pub preset_argv: Vec<String>,
    /// Environment from that preset, so planning runs with the same settings
    /// as the work.
    pub env: Vec<(String, String)>,
    /// Model for the default command, `program` in print mode.
    pub model: String,
    /// The agent CLI that runs where nothing else is configured.
    pub program: String,
}

/// What [`PlannerSettings`] say.
#[verifier::ext_equal]
pub struct Planner {
    pub command: Seq<char>,
    pub preset_argv: Seq<Seq<char>>,
    pub env: Seq<(Seq<char>, Seq<char>)>,
    pub model: Seq<char>,
    pub program: Seq<char>,
}

impl View for PlannerSettings {
    type V = Planner;

    open spec fn view(&self) -> Planner {
        Planner {
            command: self.command@,
            preset_argv: text::texts(self.preset_argv@),
            env: text::pairs(self.env@),
            model: self.model@,
            program: self.program@,
        }
    }
}

/// A command to run: as it is shown, and its words.
pub struct PlannerCommand {
    pub line: String,
    pub argv: Vec<String>,
}

/// What a [`PlannerCommand`] says.
#[verifier::ext_equal]
pub struct Command {
    pub line: Seq<char>,
    pub argv: Seq<Seq<char>>,
}

impl View for PlannerCommand {
    type V = Command;

    open spec fn view(&self) -> Command {
        Command { line: self.line@, argv: text::texts(self.argv@) }
    }
}

/// A command line as a command.
pub open spec fn command_of(line: Seq<char>) -> Command {
    Command { line, argv: command::command_words(line) }
}

/// A configured value: nothing where it is blank.
pub open spec fn configured(value: Seq<char>) -> Option<Seq<char>> {
    let t = text::trim_of(value);
    if t.len() == 0 {
        None
    } else {
        Some(t)
    }
}

/// A configured value that may be absent altogether.
pub open spec fn configured_opt(value: Option<Seq<char>>) -> Option<Seq<char>> {
    match value {
        Some(v) => configured(v),
        None => None,
    }
}

/// Whether a text holds white space.
pub open spec fn spaced(s: Seq<char>) -> bool {
    exists|i: int| 0 <= i < s.len() && text::white(#[trigger] s[i])
}

/// The default planner command for a model: the agent CLI in print mode. A multi-word name would inject
/// extra flags, so it is rejected.
pub open spec fn model_command(program: Seq<char>, model: Seq<char>) -> Result<
    Seq<char>,
    Seq<char>,
> {
    if spaced(model) {
        Err("planner model must be a single word, got `"@ + model + "`"@)
    } else {
        Ok(program + " -p --model "@ + model)
    }
}

/// A result of resolving a command line, taken on to a command that is not
/// empty.
pub open spec fn runnable(line: Result<Command, Seq<char>>) -> Result<Command, Seq<char>> {
    match line {
        Ok(c) => if c.argv.len() == 0 {
            Err("empty planner command"@)
        } else {
            Ok(c)
        },
        Err(e) => Err(e),
    }
}

/// The default command for a model, as a command.
pub open spec fn default_command(program: Seq<char>, model: Seq<char>) -> Result<
    Command,
    Seq<char>,
> {
    match model_command(program, model) {
        Ok(line) => Ok(command_of(line)),
        Err(e) => Err(e),
    }
}

/// The command that plans, highest first: the command override, the model
/// override (setting both is an error), the command of the settings, the
/// preset, the model of the settings, the default model.
pub open spec fn planning_command(
    cmd_env: Option<Seq<char>>,
    model_env: Option<Seq<char>>,
    command: Seq<char>,
    preset_argv: Seq<Seq<char>>,
    model: Seq<char>,
    program: Seq<char>,
) -> Result<Command, Seq<char>> {
    let cmd_override = configured_opt(cmd_env);
    let model_override = configured_opt(model_env);
    if cmd_override is Some && model_override is Some {
        Err("only one of HARMONIUM_PLANNER_CMD and HARMONIUM_PLANNER_MODEL may be set"@)
    } else if cmd_override is Some {
        runnable(Ok(command_of(cmd_override->0)))
    } else if model_override is Some {
        runnable(default_command(program, model_override->0))
    } else if configured(command) is Some {
        runnable(Ok(command_of(configured(command)->0)))
    } else if preset_argv.len() > 0 {
        runnable(Ok(Command { line: text::join_of(preset_argv, " "@), argv: preset_argv }))
    } else {
        runnable(
            default_command(
                program,
                match configured(model) {
                    Some(m) => m,
                    None => DEFAULT_MODEL@,
                },
            ),
        )
    }
}

/// The contents of a command result.
pub open spec fn command_result(r: Result<PlannerCommand, String>) -> Result<
    Command,
    Seq<char>,
> {
    match r {
        Ok(c) => Ok(c@),
        Err(e) => Err(e@),
    }
}

fn value_of(s: &str) -> (r: Option<String>)
    ensures
        text::opt_text(r) == configured(s@),
{
    let t: String = trim(s);
    if t.as_str().is_empty() {
        None
    } else {
        Some(t)
    }
}

fn opt_value_of(o: &Option<String>) -> (r: Option<String>)
    ensures
        text::opt_text(r) == configured_opt(text::opt_text(*o)),
{
    match o {
        Some(s) => value_of(s.as_str()),
        None => None,
    }
}

/// The default planner command for a model name. A multi-word name would
/// inject extra flags, so it is rejected.
pub fn planner_command_for(program: &str, model: &str) -> (r: Result<String, String>)
    ensures
        text_result(r) == model_command(program@, model@),
{
    let v: Vec<char> = to_chars(model);
    let mut i: usize = 0;
    while i < v.len()
        invariant
            i <= v@.len(),
            v@ == model@,
            forall|j: int| 0 <= j < i ==> !text::white(#[trigger] v@[j]),
        decreases v@.len() - i,
    {
        if is_whitespace(v[i]) {
            let mut e: String = owned("planner model must be a single word, got `");
            e.push_str(model);
            e.push_str("`");
            assert(text::white(model@[i as int]));
            return Err(e);
        }
        i += 1;
    }
    let mut r: String = owned(program);
    r.push_str(" -p --model ");
    r.push_str(model);
    Ok(r)
}

fn command_from(line: String) -> (r: Result<PlannerCommand, String>)
    ensures
        command_result(r) == runnable(Ok(command_of(line@))),
{
    let argv: Vec<String> = split_command(line.as_str());
    assert(text::texts(argv@).len() == argv@.len());
    if argv.len() == 0 {
        Err(owned("empty planner command"))
    } else {
        Ok(PlannerCommand { line, argv })
    }
}

fn command_for_model(program: &str, model: &str) -> (r: Result<PlannerCommand, String>)
    ensures
        command_result(r) == runnable(default_command(program@, model@)),
{
    match planner_command_for(program, model) {
        Ok(line) => command_from(line),
        Err(e) => Err(e),
    }
}

/// The command that plans. `cmd_env` and `model_env` are the values of
/// `HARMONIUM_PLANNER_CMD` and `HARMONIUM_PLANNER_MODEL`: a set but blank one
/// counts as unset. The prompt is appended to the words as the last argument.
pub fn planner_command(
    cmd_env: &Option<String>,
    model_env: &Option<String>,
    settings: &PlannerSettings,
) -> (r: Result<PlannerCommand, String>)
    ensures
        command_result(r) == planning_command(
            text::opt_text(*cmd_env),
            text::opt_text(*model_env),
            settings.command@,
            text::texts(settings.preset_argv@),
            settings.model@,
            settings.program@,
        ),
{
    let program: &str = settings.program.as_str();
    let cmd_override: Option<String> = opt_value_of(cmd_env);
    let model_override: Option<String> = opt_value_of(model_env);
    if cmd_override.is_some() && model_override.is_some() {
        return Err(
            owned("only one of HARMONIUM_PLANNER_CMD and HARMONIUM_PLANNER_MODEL may be set"),
        );
    }
    if let Some(line) = cmd_override {
        return command_from(line);
    }
    if let Some(model) = model_override {
        return command_for_model(program, model.as_str());
    }
    if let Some(line) = value_of(settings.command.as_str()) {
        return command_from(line);
    }
    assert(text::texts(settings.preset_argv@).len() == settings.preset_argv@.len());
    if settings.preset_argv.len() > 0 {
        return Ok(
            PlannerCommand {
                line: join(&settings.preset_argv, " "),
                argv: copy_texts(&settings.preset_argv),
            },
        );
    }
    match value_of(settings.model.as_str()) {
        Some(model) => command_for_model(program, model.as_str()),
        None => command_for_model(program, DEFAULT_MODEL),
    }
}

/// A configured command wins over a preset and a model; and a planner that is
/// to be run always has a program to run.
pub proof fn planners_have_a_program(
    cmd_env: Option<Seq<char>>,
    model_env: Option<Seq<char>>,
    command: Seq<char>,
    preset_argv: Seq<Seq<char>>,
    model: Seq<char>,
    program: Seq<char>,
)
    ensures
        planning_command(cmd_env, model_env, command, preset_argv, model, program) matches Ok(c)
            ==> c.argv.len() > 0,
        configured_opt(cmd_env) is None && configured_opt(model_env) is None && configured(
            command,
        ) is Some ==> planning_command(
            cmd_env,
            model_env,
            command,
            preset_argv,
            model,
            program,
        ) == runnable(Ok(command_of(configured(command)->0))),
{
}

// ---- The prompt ----

/// The planning prompt: the opening of the prompt, up to the default branch.
pub const PROMPT_OPENING: &'static str = "You are a planning assistant for an agent orchestrator. A coding agent will be \\\nspawned to work on a task inside a git repository. Decide how its workspace should be set up.\n\nRepository default branch: ";

/// The planning prompt: what leads in the local branches.
pub const PROMPT_LOCALS: &'static str = "\nLocal branches:\n";

/// The planning prompt: what leads in the remote branches.
pub const PROMPT_REMOTES: &'static str = "\nRemote branches:\n";

/// The planning prompt: what leads in the open pull requests.
pub const PROMPT_PULLS: &'static str = "\nOpen pull requests (JSON: number, title, headRefName):\n";

/// The planning prompt: what leads in the task.
pub const PROMPT_TASK: &'static str = "\n\nTask description:\n";

/// The planning prompt: the shape of the reply and the rules, up to the default branch.
pub const PROMPT_SHAPE: &'static str = "\n\nReply with ONLY a JSON object (no prose, no code fences) of this shape:\n{\n  \"mode\": \"existing_branch\" | \"new_branch\" | \"base\",\n  \"branch\": string | null,\n  \"base_branch\": string | null,\n  \"agent_name\": string\n}\n\nRules:\n- \"existing_branch\": ONLY if the task refers to work on an existing branch or PR AND that \\\nbranch literally appears in the lists above (match remote branches without the remote \\\nprefix; for a PR, use its headRefName). Set \"branch\" to it exactly as listed. Never \\\ninvent a branch name for this mode; if no listed branch matches, use \"new_branch\".\n- \"new_branch\": normal case for a fresh task. Set \"branch\" to a new kebab-case branch name \\\nderived from the task, and \"base_branch\" to the branch to fork from (";

/// The planning prompt: the rest of the rules.
pub const PROMPT_RULES: &'static str = " unless the \\\ntask says otherwise).\n- \"base\": only if the task explicitly asks to work directly on the current checkout \\\nwithout a worktree.\n- \"agent_name\": a 2-4 word human-readable summary of the task. EXCEPTION: if the task is \\\nabout an existing pull request, it MUST have the form \"#<PR number> <2-4 word summary>\" \\\n(e.g. \"#42 login crash fix\"); take the number from the PR list above or from the task text.";

/// A list of names for the prompt, one to a line.
pub open spec fn listed(names: Seq<Seq<char>>) -> Seq<char> {
    if names.len() == 0 {
        "(none)"@
    } else {
        text::join_of(names, "\n"@)
    }
}

/// The prompt that asks for a plan.
pub open spec fn prompt_of(
    default_branch: Seq<char>,
    locals: Seq<Seq<char>>,
    remotes: Seq<Seq<char>>,
    prs: Option<Seq<char>>,
    task: Seq<char>,
) -> Seq<char> {
    PROMPT_OPENING@ + default_branch + PROMPT_LOCALS@ + listed(locals) + PROMPT_REMOTES@ + listed(
        remotes,
    ) + PROMPT_PULLS@ + (match prs {
        Some(p) => p,
        None => "(none or unavailable)"@,
    }) + PROMPT_TASK@ + task + PROMPT_SHAPE@ + default_branch + PROMPT_RULES@
}

fn list_names(names: &Vec<String>) -> (r: String)
    ensures
        r@ == listed(text::texts(names@)),
{
    assert(text::texts(names@).len() == names@.len());
    if names.len() == 0 {
        owned("(none)")
    } else {
        join(names, "\n")
    }
}

/// The prompt that asks for a plan for `task`.
pub fn planning_prompt(
    default_branch: &str,
    locals: &Vec<String>,
    remotes: &Vec<String>,
    prs: &Option<String>,
    task: &str,
) -> (r: String)
    ensures
        r@ == prompt_of(
            default_branch@,
            text::texts(locals@),
            text::texts(remotes@),
            text::opt_text(*prs),
            task@,
        ),
{
    let mut r: String = owned(PROMPT_OPENING);
    r.push_str(default_branch);
    r.push_str(PROMPT_LOCALS);
    r.push_str(list_names(locals).as_str());
    r.push_str(PROMPT_REMOTES);
    r.push_str(list_names(remotes).as_str());
    r.push_str(PROMPT_PULLS);
    match prs {
        Some(p) => r.push_str(p.as_str()),
        None => r.push_str("(none or unavailable)"),
    }
    r.push_str(PROMPT_TASK);
    r.push_str(task);
    r.push_str(PROMPT_SHAPE);
    r.push_str(default_branch);
    r.push_str(PROMPT_RULES);
    r
}

/// What is logged when the planner is started.
pub fn running_line(line: &str, task: &str) -> (r: String)
    ensures
        r@ == "planner: running `"@ + line@ + "` for task: "@ + task@,
{
    let mut r: String = owned("planner: running `");
    r.push_str(line);
    r.push_str("` for task: ");
    r.push_str(task);
    r
}

/// What is logged of the planner's reply.
pub fn reply_line(reply: &str) -> (r: String)
    ensures
        r@ == "planner replied: "@ + command::snippet_of(reply@),
{
    let mut r: String = owned("planner replied: ");
    r.push_str(snippet(reply).as_str());
    r
}

// ---- Planning ----

/// What is known of a repository when a task is planned in it.
pub struct Survey {
    pub default_branch: String,
    pub locals: Vec<String>,
    pub remotes: Vec<String>,
    /// The open pull requests, where they could be had.
    pub prs: Option<String>,
}

/// The planner as it is to be run: in the repository, so a sandboxed preset
/// wraps the project.
pub struct PlannerRun {
    pub program: String,
    pub args: Vec<String>,
    /// The command as it is shown.
    pub line: String,
}

/// What a [`PlannerRun`] says.
#[verifier::ext_equal]
pub struct Run {
    pub program: Seq<char>,
    pub args: Seq<Seq<char>>,
    pub line: Seq<char>,
}

impl View for PlannerRun {
    type V = Run;

    open spec fn view(&self) -> Run {
        Run { program: self.program@, args: text::texts(self.args@), line: self.line@ }
    }
}

/// The contents of a planner run's result.
pub open spec fn run_result(r: Result<PlannerRun, String>) -> Result<Run, Seq<char>> {
    match r {
        Ok(run) => Ok(run@),
        Err(e) => Err(e@),
    }
}

/// How the planner is run with a prompt: the prompt is its last argument.
pub open spec fn run_with(c: Result<Command, Seq<char>>, prompt: Seq<char>) -> Result<
    Run,
    Seq<char>,
> {
    match c {
        Ok(c) => Ok(Run { program: c.argv[0], args: c.argv.skip(1).push(prompt), line: c.line }),
        Err(e) => Err(e),
    }
}

/// How to run the planner for `task`. The two overrides are what
/// `HARMONIUM_PLANNER_CMD` and `HARMONIUM_PLANNER_MODEL` hold.
pub fn plan_task(
    survey: &Survey,
    task: &str,
    settings: &PlannerSettings,
    cmd_env: &Option<String>,
    model_env: &Option<String>,
) -> (r: Result<PlannerRun, String>)
    ensures
        run_result(r) == run_with(
            planning_command(
                text::opt_text(*cmd_env),
                text::opt_text(*model_env),
                settings@.command,
                settings@.preset_argv,
                settings@.model,
                settings@.program,
            ),
            prompt_of(
                survey.default_branch@,
                text::texts(survey.locals@),
                text::texts(survey.remotes@),
                text::opt_text(survey.prs),
                task@,
            ),
        ),
{
    let prompt: String = planning_prompt(
        survey.default_branch.as_str(),
        &survey.locals,
        &survey.remotes,
        &survey.prs,
        task,
    );
    match planner_command(cmd_env, model_env, settings) {
        Ok(command) => {
            proof {
                planners_have_a_program(
                    text::opt_text(*cmd_env),
                    text::opt_text(*model_env),
                    settings@.command,
                    settings@.preset_argv,
                    settings@.model,
                    settings@.program,
                );
                assert(text::texts(command.argv@).len() == command.argv@.len());
            }
            let ghost all = text::texts(command.argv@);
            let mut args: Vec<String> = command.argv;
            let program: String = args.remove(0);
            assert(text::texts(args@) =~= all.skip(1));
            push_text(&mut args, prompt.as_str());
            Ok(PlannerRun { program, args, line: command.line })
        },
        Err(e) => Err(e),
    }
}

/// What the planner's run came to: the object that holds the plan, or why
/// there is none.
pub open spec fn reply_of(success: bool, stdout: Seq<char>, stderr: Seq<char>) -> Result<
    Seq<char>,
    Seq<char>,
> {
    if success {
        object_in(stdout)
    } else {
        Err(failure_of(stdout, stderr))
    }
}

/// What the planner's run came to. `success` says whether it ended well.
pub fn planner_reply(success: bool, stdout: &str, stderr: &str) -> (r: Result<String, String>)
    ensures
        text_result(r) == reply_of(success, stdout@, stderr@),
{
    if success {
        plan_json(stdout)
    } else {
        Err(planner_failure(stdout, stderr))
    }
}

} // verus!
