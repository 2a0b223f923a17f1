use harmonium::start::{advice, refusal_line};
use harmonium::state::file::{
    data_dir, executable, history_dir, program_candidates, state_file, temporary_path,
    terminal_history_path, FileTime, LoadError, SaveError, SaveStep, Stamp, StateFile, LOCK_FILE_NAME,
    REJECTED_FILE_NAME,
};
use harmonium::state::migrate::{migrate_state, with_git_root_mount};
use harmonium::state::records::{
    default_presets, AgentRecord, AppState, PresetRecord, ProjectRecord, SettingsRecord,
    WorkspaceMode, MOUNT_GIT_ROOT, RESUME_FLAG,
};

/// A stand-in for the agent CLI.
const AGENT: &str = "agent";

fn preset(command: &str, resume: Option<&str>) -> PresetRecord {
    PresetRecord {
        name: "p".into(),
        command: command.into(),
        resume_command: resume.map(str::to_string),
        env: String::new(),
    }
}

#[test]
fn resume_and_planner_commands_are_appended_to_the_one_command() {
    let agent = AGENT;
    let plain = preset(agent, None);
    assert_eq!(plain.resume_command(), format!("{agent} --continue"));
    assert_eq!(plain.planner_command("haiku"), format!("{agent} -p --model haiku"));

    // A wrapper carries its separator in the command, so everything appended
    // lands on the agent rather than on the wrapper.
    let wrapped = preset(&format!("{agent}-isol -v /r:/r --"), None);
    assert_eq!(
        wrapped.resume_command(),
        format!("{agent}-isol -v /r:/r -- --continue")
    );
    assert_eq!(
        wrapped.planner_command("haiku"),
        format!("{agent}-isol -v /r:/r -- -p --model haiku")
    );
}

#[test]
fn legacy_resume_commands_migrate_into_the_command() {
    let agent = AGENT;
    // Plain duplication: nothing to keep.
    let mut p = preset(agent, Some(&format!("{agent} --continue")));
    p.migrate_resume_command();
    assert_eq!(p.command, agent);
    assert_eq!(p.resume_command, None);
    assert_eq!(p.resume_command(), format!("{agent} --continue"));

    // The separator between the two is what the wrapper needs, and moves into
    // the command so spawning passes the task through it too.
    let mut p = preset(
        &format!("{agent}-isol -v /r:/r"),
        Some(&format!("{agent}-isol -v /r:/r -- --continue")),
    );
    p.migrate_resume_command();
    assert_eq!(p.command, format!("{agent}-isol -v /r:/r --"));
    assert_eq!(
        p.resume_command(),
        format!("{agent}-isol -v /r:/r -- --continue")
    );

    // Not expressible: the command is left alone (and a note is logged).
    let mut p = preset(agent, Some(&format!("{agent} --resume deadbeef")));
    p.migrate_resume_command();
    assert_eq!(p.command, agent);
}

#[test]
fn sandboxed_commands_gain_the_git_root_mount() {
    let agent = AGENT;
    // Before the separator, so the wrapper gets it and not the agent.
    assert_eq!(
        with_git_root_mount(agent, &format!("{agent}-isol --local --")).unwrap(),
        format!("{agent}-isol --local {MOUNT_GIT_ROOT} --")
    );
    // A stored resume command has words on both sides of the separator.
    assert_eq!(
        with_git_root_mount(agent, &format!("{agent}-isol --local -- --continue")).unwrap(),
        format!("{agent}-isol --local {MOUNT_GIT_ROOT} -- --continue")
    );
    // Pre-separator command lines: nothing to insert in front of.
    assert_eq!(
        with_git_root_mount(agent, &format!("{agent}-isol")).unwrap(),
        format!("{agent}-isol {MOUNT_GIT_ROOT}")
    );
    // Invoked by path.
    assert!(with_git_root_mount(agent, &format!("/opt/bin/{agent}-isol --"))
        .unwrap()
        .contains(MOUNT_GIT_ROOT));

    // Already mounting it, including under a hand-written mount that spells
    // the same variable differently.
    assert_eq!(
        with_git_root_mount(agent, &format!("{agent}-isol -v $HARMONIUM_TASK_GIT_ROOT:/repo --")),
        None
    );
    assert_eq!(
        with_git_root_mount(agent, &format!("{agent}-isol {MOUNT_GIT_ROOT} --")),
        None
    );
    // Not a sandboxed command: there is no way to know how these spell a bind
    // mount, so they are left alone.
    assert_eq!(with_git_root_mount(agent, agent), None);
    assert_eq!(with_git_root_mount(agent, &format!("docker run {agent}-isol")), None);
    assert_eq!(with_git_root_mount(agent, ""), None);
}

#[test]
fn saved_presets_and_agents_are_migrated_on_load() {
    let agent = AGENT;
    let mut state = AppState {
        projects: vec![ProjectRecord {
            path: "/repo".into(),
            name: "repo".into(),
            agents: vec![AgentRecord {
                id: "a".into(),
                name: "fix-login".into(),
                description: "…".into(),
                workdir: "/worktrees/fix-login".into(),
                branch: Some("fix-login".into()),
                command: Some(format!("{agent}-isol --local --")),
                resume_command: Some(format!("{agent}-isol --local -- --continue")),
                env: None,
                terminals: Vec::new(),
            }],
            expanded: true,
        }],
        settings: SettingsRecord::fresh(AGENT, false),
    };
    state.settings.presets = vec![PresetRecord {
        name: "isolated".into(),
        command: format!("{agent}-isol --local --"),
        resume_command: None,
        env: String::new(),
    }];
    let notes = migrate_state(agent, &mut state);

    let preset = &state.settings.presets[0];
    assert_eq!(preset.command, format!("{agent}-isol --local {MOUNT_GIT_ROOT} --"));
    assert_eq!(
        preset.resume_command(),
        format!("{agent}-isol --local {MOUNT_GIT_ROOT} -- {RESUME_FLAG}")
    );

    // The agent's own snapshot too, or it would resume without git.
    let a = &state.projects[0].agents[0];
    assert_eq!(
        a.resume_command.as_deref().unwrap(),
        format!("{agent}-isol --local {MOUNT_GIT_ROOT} -- --continue")
    );
    assert!(a.command.as_deref().unwrap().contains(MOUNT_GIT_ROOT));

    // Each change is noted, and done once.
    assert_eq!(notes.len(), 3);
    assert!(notes[1].1.contains("agent `fix-login`: added the git root mount to"));
    assert!(migrate_state(agent, &mut state).is_empty());
}

#[test]
fn program_availability_matches_what_exec_would_find() {
    let path = Some("/usr/bin::/bin".to_string());
    assert_eq!(program_candidates("sh", &path), vec!["/usr/bin/sh", "/bin/sh"]);
    assert_eq!(program_candidates("/bin/sh", &path), vec!["/bin/sh"]);
    assert_eq!(program_candidates("", &path), Vec::<String>::new());
    assert_eq!(program_candidates("sh", &None), Vec::<String>::new());
    // A directory is not something exec can run.
    assert!(!executable(false, 0o755));
    assert!(executable(true, 0o755));
    assert!(!executable(true, 0o644));
    // `~` is never expanded for a directly exec'd command.
    assert_eq!(program_candidates("~/bin/sh", &path), vec!["~/bin/sh"]);
}

#[test]
fn isolated_presets_only_created_when_installed() {
    let agent = AGENT;
    for (available, expected) in [(true, 2), (false, 0)] {
        let isolated = default_presets(agent, available)
            .iter()
            .filter(|preset| preset.command.starts_with(&format!("{agent}-isol")))
            .count();
        assert_eq!(isolated, expected);
        // The plain preset is always there.
        assert!(default_presets(agent, available).iter().any(|preset| preset.command == agent));
    }
}

#[test]
fn a_test_never_lands_on_the_real_data_dir() {
    let test = Some("/tmp/harmonium-test".to_string());
    let xdg = Some("/home/u/share".to_string());
    let home = Some("/home/u".to_string());
    assert_eq!(data_dir(&None, &test, &xdg, &home), "/tmp/harmonium-test");
    assert_eq!(data_dir(&None, &test, &None, &home), "/tmp/harmonium-test");
    assert_eq!(data_dir(&None, &None, &xdg, &home), "/home/u/share/harmonium");
    assert_eq!(data_dir(&None, &None, &None, &home), "/home/u/.local/share/harmonium");
    assert_eq!(data_dir(&None, &None, &None, &None), ".harmonium");
    assert_eq!(data_dir(&Some("/d".to_string()), &test, &xdg, &home), "/d");
    assert_eq!(state_file("/d"), "/d/state.json");
    assert_eq!(terminal_history_path("/d", "t1"), format!("{}/t1.txt", history_dir("/d")));
    assert_eq!(temporary_path("/d/state.json", 42), "/d/state.json.42.tmp");
}

fn stamp(secs: i64, len: u64) -> Option<Stamp> {
    Some(Stamp { modified: Some(FileTime { secs, nanos: 0 }), len })
}

#[test]
fn a_foreign_write_is_parked_not_overwritten() {
    let mut handle = StateFile::load("/d/state.json".into(), None);
    assert!(matches!(handle.save(None), SaveStep::Write));
    handle.written(Some(stamp(1, 10)));
    assert!(matches!(handle.save(stamp(1, 10)), SaveStep::Write));

    // Somebody edits the file behind the app's back.
    assert!(handle.changed_on_disk(stamp(2, 12)));
    match handle.save(stamp(2, 12)) {
        SaveStep::Park(path) => assert_eq!(path, format!("/d/{REJECTED_FILE_NAME}")),
        SaveStep::Write => panic!("expected a conflict"),
    }
    assert_eq!(
        handle.conflict(true).message(),
        format!("/d/state.json changed on disk — not saving over it. This session was written to /d/{REJECTED_FILE_NAME} instead; merge the two and restart harmonium.")
    );
    assert!(handle.conflict(false).message().ends_with("Nothing is being saved."));
    assert_eq!(SaveError::Io("full".into()).message(), "full");
    // And it stays refused for the rest of the session.
    assert!(matches!(handle.save(stamp(2, 12)), SaveStep::Park(_)));
    // A write whose outcome is unknown makes the next one refuse.
    handle.written(None);
    assert!(matches!(handle.save(stamp(3, 10)), SaveStep::Park(_)));
}

#[test]
fn a_state_file_that_is_only_read_still_counts_as_ours() {
    let mut handle = StateFile::load("/d/state.json".into(), stamp(1, 70));
    assert!(matches!(handle.save(stamp(1, 70)), SaveStep::Write));
    handle.written(Some(stamp(2, 90)));
    assert!(matches!(handle.save(stamp(2, 90)), SaveStep::Write));
}

#[test]
fn a_deleted_state_file_is_recreated() {
    let mut handle = StateFile::load("/d/state.json".into(), None);
    handle.written(Some(stamp(1, 10)));
    assert!(matches!(handle.save(None), SaveStep::Write));
}

#[test]
fn a_second_harmonium_does_not_get_the_session() {
    let error = LoadError::locked("/d/state.json");
    match &error {
        LoadError::Locked { path } => assert_eq!(path, &format!("/d/{LOCK_FILE_NAME}")),
        LoadError::Unreadable(error) => panic!("expected the session to be locked, got {error}"),
    }
    assert_eq!(
        error.message(),
        "another harmonium is already running (it holds /d/state.lock)"
    );
    assert_eq!(refusal_line(&LoadError::Unreadable("bad".into())), "harmonium: bad");
    assert!(advice(&error, "/d/state.json").starts_with("Not starting: the two would"));
    assert!(advice(&LoadError::Unreadable("bad".into()), "/d/state.json")
        .contains("Move /d/state.json aside (or repair it)"));
}

#[test]
fn a_project_is_named_after_its_directory() {
    assert_eq!(ProjectRecord::new("/home/u/code/".into()).name, "code");
    assert_eq!(ProjectRecord::new("/".into()).name, "/");
    assert!(ProjectRecord::new("/x".into()).expanded);
}

#[test]
fn the_modes_have_names() {
    let labels: Vec<&str> = WorkspaceMode::all().into_iter().map(|m| m.label()).collect();
    assert_eq!(labels, vec!["Auto", "New worktree", "Main branch"]);
    assert_eq!(WorkspaceMode::default(), WorkspaceMode::Auto);
}

#[test]
fn agents_are_found_in_any_project() {
    let mut state = AppState {
        projects: vec![ProjectRecord::new("/a".into()), ProjectRecord::new("/b".into())],
        settings: SettingsRecord::fresh(AGENT, false),
    };
    state.projects[1].agents.push(AgentRecord {
        id: "x".into(),
        name: "n".into(),
        description: String::new(),
        workdir: "/w".into(),
        branch: None,
        command: None,
        resume_command: None,
        env: None,
        terminals: Vec::new(),
    });
    assert_eq!(state.agent("x").unwrap().workdir, "/w");
    assert_eq!(state.project_for_agent("x").unwrap().path, "/b");
    assert!(state.agent("y").is_none());
    state.agent_mut("x").unwrap().name = "m".into();
    assert_eq!(state.projects[1].agents[0].name, "m");
    state.drop_agent("x");
    assert!(state.agent("x").is_none());
}

#[test]
fn a_folded_separator_keeps_all_but_the_spacing() {
    let mut p = preset(" tool ", Some("tool   --  --continue "));
    assert!(p.migrate_resume_command().is_none());
    assert_eq!(p.command, "tool --");
    assert_eq!(p.resume_command(), "tool -- --continue");
    assert_eq!(p.resume_command, None);
    // Without a separator the command is left as it is, spacing and all.
    let mut p = preset(" tool ", Some("tool  --continue"));
    assert!(p.migrate_resume_command().is_none());
    assert_eq!(p.command, " tool ");
    assert_eq!(p.resume_command(), "tool --continue");
}
