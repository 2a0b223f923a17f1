use harmonium::dialogs::ellipsize;
use harmonium::state::records::PresetRecord;
use harmonium::workspace::env::{
    env_notes, expand_vars, parse_env, shellexpand_home, split_assignment, task_env,
};
use harmonium::workspace::ids::{IdMap, IdSet};
use harmonium::workspace::order::{past_middle, preview_order, reorder, shown_before, Relative};
use harmonium::workspace::spawn::{
    agent_spawn, new_id, planner_argv, replay, shell_spawn, spawning_line,
};

/// A stand-in for the agent CLI.
const AGENT: &str = "agent";

fn vars() -> Vec<(String, String)> {
    task_env(
        "/repos/harmonium",
        "/data/worktrees/fix-login",
        &Some("fix-login".to_string()),
    )
}

#[test]
fn preset_env_is_parsed_and_expanded() {
    let vars = vars();
    let none: Vec<(String, String)> = Vec::new();
    assert_eq!(
        parse_env(
            &format!("FOO=bar CLAUDE_CONFIG_DIR=$HARMONIUM_TASK_WORKDIR/.{AGENT}"),
            &vars,
            &none,
        ),
        vec![
            ("FOO".to_string(), "bar".to_string()),
            (
                "CLAUDE_CONFIG_DIR".to_string(),
                format!("/data/worktrees/fix-login/.{AGENT}")
            ),
        ]
    );
    // Quoted values keep their spaces, and later entries see earlier ones.
    assert_eq!(
        parse_env("GREETING=\"hello there\" LOUD=$GREETING!", &vars, &none),
        vec![
            ("GREETING".to_string(), "hello there".to_string()),
            ("LOUD".to_string(), "hello there!".to_string()),
        ]
    );
    // Non-assignments are dropped rather than silently becoming something.
    assert_eq!(
        parse_env(&format!("{AGENT} --continue"), &vars, &none),
        Vec::new()
    );
    assert_eq!(parse_env("", &vars, &none), Vec::new());
}

#[test]
fn workspace_chip_labels_are_shortened_not_wide() {
    assert_eq!(ellipsize("short", 10), "short");
    assert_eq!(ellipsize("exactly-10", 10), "exactly-10");
    assert_eq!(ellipsize("a-very-long-preset-name", 10), "a-very-lo…");
    // Multi-byte input must not be split mid-character.
    assert_eq!(ellipsize("äöüßäöüßäöüß", 5), "äöüß…");
    // A trailing space before the ellipsis reads as a typo.
    assert_eq!(ellipsize("word morewords", 6), "word…");
}

#[test]
fn assignments_are_env_names_only() {
    assert_eq!(
        split_assignment("FOO=bar"),
        Some(("FOO".to_string(), "bar".to_string()))
    );
    assert_eq!(split_assignment("/usr/bin/a=b"), None);
    assert_eq!(split_assignment("2FOO=bar"), None);
    assert_eq!(split_assignment(AGENT), None);
}

fn none() -> Vec<(String, String)> {
    Vec::new()
}

fn pair(k: &str, v: &str) -> (String, String) {
    (k.to_string(), v.to_string())
}

#[test]
fn task_env_vars() {
    assert_eq!(
        vars(),
        vec![
            pair("HARMONIUM_TASK_GIT_ROOT", "/repos/harmonium"),
            pair("HARMONIUM_TASK_WORKDIR", "/data/worktrees/fix-login"),
            pair("HARMONIUM_TASK_BRANCH", "fix-login"),
        ]
    );
    // No branch: the variable is absent, not empty.
    let root = "/repos/harmonium";
    let base = task_env(root, root, &None);
    assert!(base.iter().all(|(k, _)| k != "HARMONIUM_TASK_BRANCH"));
}

#[test]
fn expands_task_vars() {
    let vars = vars();
    assert_eq!(
        expand_vars("$HARMONIUM_TASK_GIT_ROOT:/repo", &vars, &none()),
        "/repos/harmonium:/repo"
    );
    assert_eq!(
        expand_vars("${HARMONIUM_TASK_WORKDIR}/sub", &vars, &none()),
        "/data/worktrees/fix-login/sub"
    );
    assert_eq!(expand_vars("no-vars-here", &vars, &none()), "no-vars-here");
}

#[test]
fn expansion_falls_back_to_process_env() {
    let process = vec![
        pair("HARMONIUM_TEST_EXPAND", "from-process"),
        pair("HARMONIUM_TASK_GIT_ROOT", "/wrong"),
    ];
    assert_eq!(
        expand_vars("$HARMONIUM_TEST_EXPAND", &vars(), &process),
        "from-process"
    );
    // Task vars win over the process environment.
    assert_eq!(
        expand_vars("$HARMONIUM_TASK_GIT_ROOT", &vars(), &process),
        "/repos/harmonium"
    );
}

#[test]
fn unknown_vars_stay_literal() {
    let vars = vars();
    assert_eq!(
        expand_vars("$HARMONIUM_TASK_NOPE:/repo", &vars, &none()),
        "$HARMONIUM_TASK_NOPE:/repo"
    );
    assert_eq!(expand_vars("${NOPE_UNSET}", &vars, &none()), "${NOPE_UNSET}");
    // Unterminated brace and a bare `$` are left alone too.
    assert_eq!(
        expand_vars("${HARMONIUM_TASK_BRANCH", &vars, &none()),
        "${HARMONIUM_TASK_BRANCH"
    );
    assert_eq!(expand_vars("cost: 5$", &vars, &none()), "cost: 5$");
    assert_eq!(expand_vars("$$HOME", &vars, &none()), "$HOME");
}

#[test]
fn stray_words_of_an_environment_are_noted() {
    assert_eq!(
        env_notes("A=1 oops B=2 -x"),
        vec![
            "preset environment: ignoring `oops`, expected KEY=value",
            "preset environment: ignoring `-x`, expected KEY=value",
        ]
    );
}

#[test]
fn the_home_directory_is_filled_in() {
    let home = Some("/home/u".to_string());
    assert_eq!(shellexpand_home("~/code", &home), "/home/u/code");
    assert_eq!(shellexpand_home("~/code", &None), "~/code");
    assert_eq!(shellexpand_home("~code", &home), "~code");
}

// ---- Lists ----

#[test]
fn items_are_moved_and_previewed() {
    let mut items = vec!["a", "b", "c", "d"];
    // Where the item ended up is told.
    assert_eq!(reorder(&mut items, 0, 2), 2);
    assert_eq!(items, vec!["b", "c", "a", "d"]);
    assert_eq!(reorder(&mut items, 2, 0), 0);
    assert_eq!(items, vec!["a", "b", "c", "d"]);
    assert_eq!(reorder(&mut items, 9, 0), 9);
    assert_eq!(items, vec!["a", "b", "c", "d"]);
    assert_eq!(reorder(&mut items, 1, 7), 1);
    assert_eq!(items, vec!["a", "b", "c", "d"]);

    assert_eq!(preview_order(4, None), vec![0, 1, 2, 3]);
    assert_eq!(preview_order(4, Some((3, 1))), vec![0, 3, 1, 2]);
    // Which half of a row counts depends on what is shown.
    assert!(shown_before(4, None, 1, 3));
    assert!(!shown_before(4, Some((3, 1)), 1, 3));
    assert!(past_middle(true, Relative::Before));
    assert!(past_middle(true, Relative::At));
    assert!(!past_middle(true, Relative::Behind));
    assert!(!past_middle(false, Relative::Before));
}

#[test]
fn ids_are_kept_once() {
    let mut set = IdSet::new();
    set.insert("a");
    set.insert("a");
    assert!(set.contains("a"));
    assert!(set.remove("a"));
    assert!(!set.contains("a"));
    assert!(!set.remove("a"));

    let mut map = IdMap::new();
    map.insert("k", "1");
    map.insert("k", "2");
    assert_eq!(map.get("k").as_deref(), Some("2"));
    map.remove("k");
    assert_eq!(map.get("k"), None);
}

#[test]
fn fresh_ids_have_the_shape_of_one_and_differ() {
    let one = new_id();
    assert_eq!(one.len(), 36);
    for (i, c) in one.chars().enumerate() {
        if [8, 13, 18, 23].contains(&i) {
            assert_eq!(c, '-');
        } else {
            assert!(c.is_ascii_hexdigit() && !c.is_ascii_uppercase());
        }
    }
    assert_ne!(one, new_id());
}

// ---- Commands ----

#[test]
fn an_agents_command_is_split_expanded_and_given_its_task() {
    let spawn = agent_spawn(
        "A=$HARMONIUM_TASK_BRANCH wrap -v $HARMONIUM_TASK_GIT_ROOT:/r --",
        &vec!["fix $HOME".to_string()],
        &vars(),
        &none(),
    )
    .ok()
    .unwrap();
    assert_eq!(spawn.program, "wrap");
    assert_eq!(spawn.args, vec!["-v", "/repos/harmonium:/r", "--", "fix $HOME"]);
    assert_eq!(spawn.env.len(), 4);
    assert_eq!(spawn.env[3], pair("A", "fix-login"));

    // The override replaces the command entirely.
    let process = vec![pair("HARMONIUM_AGENT_BIN", "stub -x")];
    let spawn = agent_spawn("wrap", &vec!["t".to_string()], &vars(), &process).ok().unwrap();
    assert_eq!(spawn.program, "stub");
    assert_eq!(spawn.args, vec!["-x", "t"]);

    assert_eq!(
        agent_spawn("A=1", &Vec::new(), &vars(), &none()).err().unwrap(),
        "Empty agent command: `A=1`"
    );
}

#[test]
fn a_shell_replays_its_history() {
    let process = vec![pair("SHELL", "/bin/zsh")];
    let plain = shell_spawn(&None, &vars(), &process);
    assert_eq!(plain.program, "/bin/zsh");
    assert!(plain.args.is_empty());
    assert_eq!(plain.env, vars());
    assert_eq!(shell_spawn(&None, &none(), &none()).program, "/bin/sh");

    // The path is quoted for the shell that runs the line.
    let replayed = shell_spawn(&Some("/data/my history".to_string()), &none(), &process);
    assert_eq!(replayed.program, "/bin/sh");
    assert_eq!(
        replayed.args,
        vec!["-c", "cat '/data/my history' 2>/dev/null; exec /bin/zsh"]
    );
    // What cannot be quoted is taken as it is.
    let odd = shell_spawn(&Some("/a\0b".to_string()), &none(), &process);
    assert_eq!(odd.args[1], "cat /a\0b 2>/dev/null; exec /bin/zsh");

    assert_eq!(
        spawning_line("t1", &replay("p", "s", &none()), "/w"),
        "terminal t1: spawning `/bin/sh -c cat p 2>/dev/null; exec s` in /w"
    );
}

#[test]
fn a_preset_plans_in_the_repository() {
    let preset = PresetRecord {
        name: "p".into(),
        command: "wrap -v $HARMONIUM_TASK_GIT_ROOT --".into(),
        resume_command: None,
        env: String::new(),
    };
    assert_eq!(
        planner_argv(&preset, "tiny", "/my repo", &none()),
        vec!["wrap", "-v", "/my repo", "--", "-p", "--model", "tiny"]
    );
}
