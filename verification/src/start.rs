//! Starting up: what the command line asks for, and what is said where the
//! session cannot be opened.

use vstd::prelude::*;
use vstd::string::*;

use crate::dialogs;
use crate::dialogs::find_preset;
use crate::planner::plan;
use crate::planner::plan::PlannerSettings;
use crate::state::file;
use crate::state::file::LoadError;
use crate::state::records;
use crate::state::records::SettingsRecord;
use crate::text;
use crate::text::{join, owned, push_text, same_text};
use crate::workspace::spawn;
use crate::workspace::spawn::planner_argv;

verus! {

/// A plan to be printed: the repository, and the task.
pub struct PlanArgs {
    pub repo: String,
    pub task: String,
}

/// The contents of some plan arguments.
pub open spec fn plan_args_of(r: Option<PlanArgs>) -> Option<(Seq<char>, Seq<char>)> {
    match r {
        Some(a) => Some((a.repo@, a.task@)),
        None => None,
    }
}

/// What `plan <repo> <task…>` on the command line asks for, behind the
/// program's name.
pub open spec fn asked_plan(args: Seq<Seq<char>>) -> Option<(Seq<char>, Seq<char>)> {
    if args.len() >= 4 && args[1] == "plan"@ {
        Some((args[2], text::join_of(args.skip(3), " "@)))
    } else {
        None
    }
}

/// Whether the command line asks for a plan to be printed, rather than for the
/// window.
pub fn plan_args(args: &Vec<String>) -> (r: Option<PlanArgs>)
    ensures
        plan_args_of(r) == asked_plan(text::texts(args@)),
{
    let ghost all = text::texts(args@);
    assert(all.len() == args@.len());
    if args.len() < 4 {
        return None;
    }
    assert(all[1] == args@[1]@);
    assert(all[2] == args@[2]@);
    if !same_text(args[1].as_str(), "plan") {
        return None;
    }
    let mut words: Vec<String> = Vec::new();
    let mut i: usize = 3;
    assert(text::texts(words@) =~= all.subrange(3, 3));
    while i < args.len()
        invariant
            3 <= i <= args@.len(),
            all == text::texts(args@),
            text::texts(words@) == all.subrange(3, i as int),
        decreases args@.len() - i,
    {
        assert(all[i as int] == args@[i as int]@);
        push_text(&mut words, args[i].as_str());
        assert(text::texts(words@) =~= all.subrange(3, i + 1));
        i += 1;
    }
    assert(all.subrange(3, all.len() as int) =~= all.skip(3));
    Some(PlanArgs { repo: args[2].clone(), task: join(&words, " ") })
}

/// How the planner runs for a plan that is only printed: as in the window, but
/// without a preset's environment.
pub open spec fn printed_planner(
    program: Seq<char>,
    s: records::Settings,
    repo: Seq<char>,
    process_env: Seq<(Seq<char>, Seq<char>)>,
) -> plan::Planner {
    plan::Planner {
        command: s.planner_command,
        preset_argv: match dialogs::preset_row(s.presets, s.planner_preset) {
            Some(i) => spawn::preset_planner(
                s.presets[i].command,
                s.planner_model,
                repo,
                process_env,
            ),
            None => Seq::empty(),
        },
        env: Seq::empty(),
        model: s.planner_model,
        program,
    }
}

/// How the planner runs for a plan that is only printed.
pub fn plan_settings(
    program: &str,
    settings: &SettingsRecord,
    repo: &str,
    process_env: &Vec<(String, String)>,
) -> (r: PlannerSettings)
    ensures
        r@ == printed_planner(program@, settings@, repo@, text::pairs(process_env@)),
{
    let preset_argv: Vec<String> = match find_preset(
        &settings.presets,
        &settings.planner_preset,
    ) {
        Some(i) => planner_argv(
            &settings.presets[i],
            settings.planner_model.as_str(),
            repo,
            process_env,
        ),
        None => {
            let none: Vec<String> = Vec::new();
            assert(text::texts(none@) =~= Seq::<Seq<char>>::empty());
            none
        },
    };
    let env: Vec<(String, String)> = Vec::new();
    assert(text::pairs(env@) =~= Seq::<(Seq<char>, Seq<char>)>::empty());
    PlannerSettings {
        command: settings.planner_command.clone(),
        preset_argv,
        env,
        model: settings.planner_model.clone(),
        program: owned(program),
    }
}

// ---- Refusing to start ----

/// The headline of the window that says why nothing else was opened.
pub const HEADLINE: &'static str = "Harmonium can't start";

/// What to do where the session cannot be opened. Both failures would end in
/// one session being written over another.
pub open spec fn advice_on(error: LoadError, state_file: Seq<char>) -> Seq<char> {
    match error {
        LoadError::Locked { .. } =>
        "Not starting: the two would each save their own session over the other's. Close the running one first."@,
        LoadError::Unreadable(_) =>
        "Not starting: continuing would overwrite this file with a fresh state and lose the projects and presets in it. Move "@
            + state_file + " aside (or repair it) and start harmonium again."@,
    }
}

/// What to do where the session cannot be opened.
pub fn advice(error: &LoadError, state_file: &str) -> (r: String)
    ensures
        r@ == advice_on(*error, state_file@),
{
    match error {
        LoadError::Locked { .. } => owned(
            "Not starting: the two would each save their own session over the other's. Close the running one first.",
        ),
        LoadError::Unreadable(_) => {
            let mut r: String = owned(
                "Not starting: continuing would overwrite this file with a fresh state and lose the projects and presets in it. Move ",
            );
            r.push_str(state_file);
            r.push_str(" aside (or repair it) and start harmonium again.");
            r
        },
    }
}

/// The line on standard error for a session that cannot be opened.
pub fn refusal_line(error: &LoadError) -> (r: String)
    ensures
        r@ == "harmonium: "@ + error.says(),
{
    let mut r: String = owned("harmonium: ");
    r.push_str(error.message().as_str());
    r
}

/// Whether a key dismisses the window that says why nothing else was opened:
/// both keys people reach for do what its button does.
pub fn dismisses(key: &str) -> (r: bool)
    ensures
        r == (key@ == "escape"@ || key@ == "enter"@),
{
    same_text(key, "escape") || same_text(key, "enter")
}

} // verus!
