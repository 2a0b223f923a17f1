use harmonium::planner::command::{sanitize_for_path, slugify, snippet, split_command};
use harmonium::planner::git::{
    default_branch, git_answer, is_git_repo, local_branches, remote_branches,
    remote_ref_for_branch, Reply,
};
use harmonium::planner::plan::{
    apply_workspace_mode, fallback_plan, plan_json, plan_task, planner_reply, reply_line,
    running_line, PlannerSettings, Survey, TaskPlan,
};
use harmonium::state::records::WorkspaceMode;
use serde_json::Value;

/// A stand-in for the agent CLI.
const AGENT: &str = "agent";

#[test]
fn split_command_words() {
    let agent = AGENT;
    assert_eq!(split_command(agent), vec![agent]);
    assert_eq!(
        split_command(&format!("{agent}-isol --local -- --continue")),
        vec![format!("{agent}-isol").as_str(), "--local", "--", "--continue"]
    );
    assert_eq!(
        split_command(&format!(r#"{agent}-isol -v "/my data:/data" --local"#)),
        vec![format!("{agent}-isol").as_str(), "-v", "/my data:/data", "--local"]
    );
    assert_eq!(split_command("  "), Vec::<String>::new());
}

fn plan(mode: &str, branch: Option<&str>) -> TaskPlan {
    TaskPlan {
        mode: mode.into(),
        branch: branch.map(str::to_string),
        base_branch: Some("main".into()),
        agent_name: Some("fix login crash".into()),
    }
}

#[test]
fn workspace_mode_auto_changes_nothing() {
    let mut p = plan("base", None);
    apply_workspace_mode(&mut p, WorkspaceMode::Auto, "work on the checkout");
    assert_eq!(p.mode, "base");
    assert_eq!(p.branch, None);
}

#[test]
fn workspace_mode_forces_a_worktree() {
    // The planner wanted the base checkout and named no branch, so one is
    // derived from the name it *did* give.
    let mut p = plan("base", None);
    apply_workspace_mode(&mut p, WorkspaceMode::NewWorktree, "just look around");
    assert_eq!(p.mode, "new_branch");
    assert_eq!(p.branch.as_deref(), Some("harmonium/fix-login-crash"));

    // A branch the planner chose is kept, existing ones included.
    let mut p = plan("existing_branch", Some("feature/login"));
    apply_workspace_mode(&mut p, WorkspaceMode::NewWorktree, "continue the login work");
    assert_eq!(p.mode, "existing_branch");
    assert_eq!(p.branch.as_deref(), Some("feature/login"));

    // No agent name to derive from: fall back to the task text.
    let mut p = TaskPlan {
        mode: "base".into(),
        branch: Some("  ".into()),
        base_branch: None,
        agent_name: None,
    };
    apply_workspace_mode(&mut p, WorkspaceMode::NewWorktree, "Add a Retry Button");
    assert_eq!(p.branch.as_deref(), Some("harmonium/add-a-retry-button"));
}

#[test]
fn workspace_mode_forces_the_base_checkout() {
    let mut p = plan("new_branch", Some("harmonium/whatever"));
    apply_workspace_mode(&mut p, WorkspaceMode::MainBranch, "fix the login crash");
    assert_eq!(p.mode, "base");
    assert_eq!(p.branch, None);
    assert_eq!(p.base_branch, None);
    // The name is the planner's in every mode.
    assert_eq!(p.agent_name.as_deref(), Some("fix login crash"));
}

#[test]
fn slugify_basic() {
    assert_eq!(slugify("Fix the Login-Bug now!", 3), "fix-the-loginbug");
    assert_eq!(slugify("", 3), "task");
}

#[test]
fn parses_plain_json() {
    let json = plan_json(
        r#"{"mode":"new_branch","branch":"fix-login","base_branch":"main","agent_name":"fix login"}"#,
    )
    .unwrap();
    let plan: Value = serde_json::from_str(&json).unwrap();
    assert_eq!(plan["mode"], "new_branch");
    assert_eq!(plan["branch"].as_str(), Some("fix-login"));
}

#[test]
fn parses_fenced_json_with_prose() {
    let json = plan_json(
        "Sure! Here is the plan:\n```json\n{\"mode\": \"base\", \"branch\": null, \"agent_name\": \"quick fix\"}\n```\n",
    )
    .unwrap();
    let plan: Value = serde_json::from_str(&json).unwrap();
    assert_eq!(plan["mode"], "base");
    assert!(plan["branch"].is_null());
}

#[test]
fn braces_in_strings_do_not_end_the_object() {
    assert_eq!(
        plan_json(r#"{"a": "}", "b": {"c": "\"}"}} tail"#).unwrap(),
        r#"{"a": "}", "b": {"c": "\"}"}}"#
    );
    assert_eq!(
        plan_json("session limit reached").err().unwrap(),
        "planner did not reply with JSON: session limit reached"
    );
    assert_eq!(
        plan_json("well { \"a\": 1").err().unwrap(),
        "unterminated JSON in planner output: well { \"a\": 1"
    );
}

#[test]
fn quoted_words_stay_whole() {
    assert_eq!(split_command("a 'b c' d"), vec!["a", "b c", "d"]);
    assert_eq!(split_command(r"a\ b c"), vec!["a b", "c"]);
    assert_eq!(split_command("''"), vec![""]);
}

#[test]
fn branches_become_directory_names() {
    assert_eq!(sanitize_for_path("feature/login.v2"), "feature-login-v2");
    assert_eq!(sanitize_for_path("a-b_c9"), "a-b_c9");
}

#[test]
fn snippets_are_cut_on_a_character() {
    assert_eq!(snippet("  \n"), "(no output)");
    assert_eq!(snippet(" short "), "short");
    let long = "a".repeat(250);
    assert_eq!(snippet(&long), format!("{}…", "a".repeat(200)));
    // Two bytes each, at an odd offset: the half that would fit is left out.
    let wide = format!("a{}", "ä".repeat(150));
    assert_eq!(snippet(&wide), format!("a{}…", "ä".repeat(99)));
    let fits = "a".repeat(200);
    assert_eq!(snippet(&fits), fits);
}

fn settings(command: &str, argv: &[&str], model: &str) -> PlannerSettings {
    PlannerSettings {
        command: command.into(),
        preset_argv: argv.iter().map(|s| s.to_string()).collect(),
        env: Vec::new(),
        model: model.into(),
        program: AGENT.into(),
    }
}

fn survey() -> Survey {
    Survey {
        default_branch: "main".into(),
        locals: vec!["main".into(), "dev".into()],
        remotes: Vec::new(),
        prs: None,
    }
}

#[test]
fn the_planner_is_chosen_by_precedence() {
    let agent = AGENT;
    let run = |s: &PlannerSettings, cmd: Option<&str>, model: Option<&str>| {
        plan_task(&survey(), "fix it", s, &cmd.map(str::to_string), &model.map(str::to_string))
            .map(|r| r.line)
    };
    let plain = settings("", &[], "");
    assert_eq!(run(&plain, None, None), Ok(format!("{agent} -p --model haiku")));
    assert_eq!(run(&settings("", &[], "big"), None, None), Ok(format!("{agent} -p --model big")));
    assert_eq!(
        run(&settings("", &["wrap", "-p"], "big"), None, None),
        Ok("wrap -p".to_string())
    );
    assert_eq!(
        run(&settings(" mine -x ", &["wrap"], "big"), None, None),
        Ok("mine -x".to_string())
    );
    assert_eq!(
        run(&settings("mine", &["wrap"], "big"), None, Some("tiny")),
        Ok(format!("{agent} -p --model tiny"))
    );
    assert_eq!(run(&settings("mine", &[], ""), Some("theirs -y"), None), Ok("theirs -y".to_string()));
    // An exported-but-empty override counts as unset.
    assert_eq!(run(&plain, Some("  "), Some("tiny")), Ok(format!("{agent} -p --model tiny")));
    assert_eq!(
        run(&plain, Some("a"), Some("b")),
        Err("only one of HARMONIUM_PLANNER_CMD and HARMONIUM_PLANNER_MODEL may be set".to_string())
    );
    assert_eq!(
        run(&plain, None, Some("two words")),
        Err("planner model must be a single word, got `two words`".to_string())
    );
}

#[test]
fn the_prompt_is_the_last_argument() {
    let run = plan_task(&survey(), "fix it", &settings("p q", &[], ""), &None, &None).ok().unwrap();
    assert_eq!(run.program, "p");
    assert_eq!(run.args.len(), 2);
    assert_eq!(run.args[0], "q");
    let prompt = &run.args[1];
    assert!(prompt.contains("Repository default branch: main\n"));
    assert!(prompt.contains("Local branches:\nmain\ndev\nRemote branches:\n(none)\n"));
    assert!(prompt.contains("headRefName):\n(none or unavailable)\n\nTask description:\nfix it\n\n"));
    assert!(prompt.contains("to fork from (main unless the \\\ntask says otherwise)."));
    assert!(prompt.ends_with("or from the task text."));
}

#[test]
fn a_planner_that_fails_says_what_it_printed() {
    assert_eq!(planner_reply(false, "usage limit", "  "), Err("planner failed: usage limit".to_string()));
    assert_eq!(planner_reply(false, "x", "boom\n"), Err("planner failed: boom".to_string()));
    assert_eq!(planner_reply(true, "ok {\"a\":1}", "noise"), Ok("{\"a\":1}".to_string()));
    assert_eq!(running_line("p q", "t"), "planner: running `p q` for task: t");
    assert_eq!(reply_line(" yes "), "planner replied: yes");
}

#[test]
fn without_a_planner_a_branch_is_made_up() {
    let plan = fallback_plan("Fix the login crash today please", "main".into());
    assert_eq!(plan.mode, "new_branch");
    assert_eq!(plan.branch.as_deref(), Some("harmonium/fix-the-login-crash"));
    assert_eq!(plan.base_branch.as_deref(), Some("main"));
}

#[test]
fn git_answers_are_read() {
    let args = vec!["branch".to_string(), "-r".to_string()];
    assert_eq!(git_answer(&args, true, "out".into(), "noise"), Ok("out".to_string()));
    assert_eq!(
        git_answer(&args, false, String::new(), " bad \n"),
        Err("git branch -r failed: bad".to_string())
    );
    assert!(is_git_repo(&Ok(".git\n".into())));
    assert!(!is_git_repo(&Err("no".into())));
    assert_eq!(local_branches(&Ok("main\n dev \n".into())), vec!["main", "dev"]);
    assert_eq!(
        remote_branches(&Ok("origin/HEAD\norigin/main\norigin/x\n".into())),
        vec!["origin/main", "origin/x"]
    );
    let none: Reply = Err("no".into());
    assert_eq!(
        default_branch(&Ok("refs/remotes/origin/trunk\n".into()), &none, &none),
        "trunk"
    );
    assert_eq!(default_branch(&none, &Ok("dev\nmaster\n".into()), &none), "master");
    assert_eq!(default_branch(&none, &Ok("dev\n".into()), &Ok("dev\n".into())), "dev");
    assert_eq!(default_branch(&none, &none, &none), "main");
    assert_eq!(
        remote_ref_for_branch(&Ok("origin/a\nfork/feature/b\n".into()), "feature/b").as_deref(),
        Some("fork/feature/b")
    );
}

#[test]
fn slugs_have_single_dashes_inside() {
    assert_eq!(slugify("--a  -- B!! c", 4), "a-b-c");
    assert_eq!(slugify("--a  -- B!! c", 3), "a-b");
    assert_eq!(slugify("Über 42 --", 9), "ber-42");
    assert_eq!(slugify("x y", 1), "x");
    assert_eq!(slugify("x y", 0), "task");
}
