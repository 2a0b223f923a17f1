use harmonium::dialogs::SearchOutcome;
use harmonium::log::Level;
use harmonium::panel::{Button, Choice};
use harmonium::planner::resolve;
use harmonium::state::records::{
    AgentRecord, AppState, PresetRecord, ProjectRecord, SettingsRecord, TerminalTabRecord,
    WorkspaceMode,
};
use harmonium::terminal::TerminalEvent;
use harmonium::theme::ThemeMode;
use harmonium::workspace::desk::{Dialog, DragTarget, Effect, Workspace};
use harmonium::workspace::order::Relative;
use harmonium::workspace::panels::{closes_dialog, Pressed, SearchOpening, Submitted};
use harmonium::workspace::show::{log_rows, resume_label, Dot, Pane, SidebarRow};

/// A stand-in for the agent CLI.
const AGENT: &str = "agent";

fn tab(id: &str, name: &str) -> TerminalTabRecord {
    TerminalTabRecord { id: id.into(), name: name.into() }
}

fn agent(id: &str, workdir: &str, branch: Option<&str>) -> AgentRecord {
    AgentRecord {
        id: id.into(),
        name: format!("agent {id}"),
        description: "task".into(),
        workdir: workdir.into(),
        branch: branch.map(str::to_string),
        command: Some("run".into()),
        resume_command: Some("run --continue".into()),
        env: None,
        terminals: Vec::new(),
    }
}

fn project(path: &str, agents: Vec<AgentRecord>) -> ProjectRecord {
    let mut p = ProjectRecord::new(path.into());
    p.agents = agents;
    p
}

fn start(projects: Vec<ProjectRecord>) -> Workspace {
    let state = AppState { projects, settings: SettingsRecord::fresh(AGENT, false) };
    Workspace::new(state, AGENT.into(), 0, &mut Vec::new())
}

fn none() -> Vec<(String, String)> {
    Vec::new()
}

/// What was done, in short.
fn names(effects: &[Effect]) -> Vec<String> {
    effects
        .iter()
        .map(|e| match e {
            Effect::Persist => "persist".into(),
            Effect::Log(Level::Info, m) => format!("info {m}"),
            Effect::Log(Level::Error, m) => format!("error {m}"),
            Effect::SpawnAgent { id, spawn, workdir } => {
                format!("agent {id} {} {} in {workdir}", spawn.program, spawn.args.join(","))
            }
            Effect::SpawnShell { id, workdir, .. } => format!("shell {id} in {workdir}"),
            Effect::Supersede(id) => format!("supersede {id}"),
            Effect::SaveAndClose(id) => format!("close {id}"),
            Effect::Discard(id) => format!("discard {id}"),
            Effect::SaveHistories => "histories".into(),
            Effect::Focus(id) => format!("focus {id}"),
            Effect::ApplyFonts => "fonts".into(),
            Effect::ApplyTheme(_) => "theme".into(),
            Effect::ScrollLog => "scroll".into(),
            Effect::PollLog => "poll".into(),
            Effect::StopPolling => "stop".into(),
        })
        .collect()
}

fn done(step: impl FnOnce(&mut Vec<Effect>)) -> Vec<String> {
    let mut out = Vec::new();
    step(&mut out);
    names(&out)
}

#[test]
fn a_workspace_starts_with_nothing_live() {
    let mut out = Vec::new();
    let mut settings = SettingsRecord::fresh(AGENT, false);
    settings.log_panel_open = true;
    let ws = Workspace::new(AppState { projects: Vec::new(), settings }, AGENT.into(), 7, &mut out);
    assert_eq!(names(&out), vec!["theme", "fonts", "poll"]);
    assert_eq!(ws.log_version, 7);
    assert!(ws.selected.is_none());
    assert!(matches!(ws.main_pane(), Pane::Nothing));
    assert_eq!(done(|out| ws.save_session(out)), vec!["histories", "persist"]);
}

#[test]
fn selecting_an_agent_restores_it_once() {
    let mut a = agent("a", "/w", Some("b"));
    a.terminals = vec![tab("t1", "Shell 1"), tab("t2", "Shell 2")];
    let mut ws = start(vec![project("/repo", vec![a])]);
    assert_eq!(
        done(|out| ws.select_agent("a", &none(), out)),
        vec!["agent a run --continue in /w", "shell t1 in /w", "shell t2 in /w", "focus a"]
    );
    // Everything is there: the second time it only gets the keyboard.
    assert_eq!(done(|out| ws.select_agent("a", &none(), out)), vec!["focus a"]);
    assert_eq!(done(|out| ws.select_tab("a", "t2", out)), vec!["focus t2"]);
    assert!(matches!(ws.main_pane(), Pane::Terminal(id) if id == "t2"));
    // One that does not exist is selected, but there is nothing to start.
    assert_eq!(done(|out| ws.select_agent("x", &none(), out)), Vec::<String>::new());
}

#[test]
fn an_agent_without_a_resume_command_gets_the_default() {
    let mut a = agent("a", "/w", None);
    a.resume_command = None;
    let mut ws = start(vec![project("/repo", vec![a])]);
    assert_eq!(
        done(|out| ws.restore_agent("a", &none(), out)),
        vec![format!("agent a {AGENT} --continue in /w")]
    );
}

#[test]
fn resuming_keeps_the_screen_until_the_first_output() {
    let mut a = agent("a", "/w", Some("b"));
    a.terminals = vec![tab("t1", "Shell 1")];
    let mut ws = start(vec![project("/repo", vec![a])]);
    ws.select_agent("a", &none(), &mut Vec::new());
    assert_eq!(
        done(|out| ws.resume_agent("a", &none(), out)),
        vec![
            "supersede a",
            "close t1",
            "info agent agent a: resuming with `run --continue`",
            "agent a run --continue in /w",
            "shell t1 in /w",
        ]
    );
    assert!(matches!(ws.main_pane(), Pane::Outgoing { screen, live: Some(l) } if screen == "a" && l == "a"));
    // Output of another terminal changes nothing; its own retires the screen.
    assert!(!ws.terminal_event("t1", &TerminalEvent::Output, &mut Vec::new()));
    assert!(matches!(ws.main_pane(), Pane::Outgoing { .. }));
    assert!(ws.terminal_event("a", &TerminalEvent::Output, &mut Vec::new()));
    assert!(matches!(ws.main_pane(), Pane::Terminal(_)));
    assert!(!ws.terminal_event("a", &TerminalEvent::Output, &mut Vec::new()));

    assert_eq!(
        done(|out| {
            ws.terminal_event("a", &TerminalEvent::Exited, out);
        }),
        vec!["info terminal a: process exited"]
    );
    assert!(ws.exited.contains("a"));
}

#[test]
fn a_resume_that_fails_can_be_tried_again() {
    let mut ws = start(vec![project("/repo", vec![agent("a", "/w", None)])]);
    ws.select_agent("a", &none(), &mut Vec::new());
    ws.resume_agent("a", &none(), &mut Vec::new());
    assert_eq!(
        done(|out| ws.spawn_failed("a", "no such file", out)),
        vec!["error Failed to spawn terminal: no such file"]
    );
    assert!(matches!(ws.main_pane(), Pane::Resumable(id) if id == "a"));
    assert_eq!(ws.status.as_ref().unwrap().0, "Failed to spawn terminal: no such file");
    assert!(ws.status.as_ref().unwrap().1);
    assert_eq!(resume_label(AGENT), format!("Resume session ({AGENT} --continue)"));

    // A command line that is empty is refused before anything is started.
    let mut a = agent("a", "/w", None);
    a.resume_command = Some("  ".into());
    let mut ws = start(vec![project("/repo", vec![a])]);
    assert_eq!(
        done(|out| ws.resume_agent("a", &none(), out)),
        vec![
            "info agent agent a: resuming with `  `",
            "error Empty agent command: `  `",
        ]
    );
    assert!(!ws.terminals.contains("a"));
}

#[test]
fn an_agents_environment_is_its_tasks_and_its_presets() {
    let mut a = agent("a", "/w", Some("b"));
    a.env = Some("X=$HARMONIUM_TASK_WORKDIR/x stray".into());
    let ws = start(vec![project("/repo", vec![a])]);
    let mut out = Vec::new();
    let env = ws.agent_task_env("a", &none(), &mut out);
    assert_eq!(env.len(), 4);
    assert_eq!(env[0], ("HARMONIUM_TASK_GIT_ROOT".to_string(), "/repo".to_string()));
    assert_eq!(env[3], ("X".to_string(), "/w/x".to_string()));
    assert_eq!(
        names(&out),
        vec!["error preset environment: ignoring `stray`, expected KEY=value"]
    );
    assert!(ws.agent_task_env("x", &none(), &mut Vec::new()).is_empty());
}

#[test]
fn tabs_are_opened_and_closed() {
    let mut ws = start(vec![project("/repo", vec![agent("a", "/w", Some("b"))])]);
    assert_eq!(done(|out| ws.new_terminal_tab(&none(), out)), Vec::<String>::new());
    ws.select_agent("a", &none(), &mut Vec::new());
    assert_eq!(
        done(|out| ws.add_shell_tab_as("a", "t1", &none(), out)),
        vec!["shell t1 in /w", "focus t1", "persist"]
    );
    assert_eq!(ws.state.projects[0].agents[0].terminals[0].name, "Shell 1");
    ws.add_shell_tab_as("a", "t2", &none(), &mut Vec::new());
    assert_eq!(ws.state.projects[0].agents[0].terminals[1].name, "Shell 2");

    let bar = ws.tabs(&ws.state.projects[0].agents[0]);
    let labels: Vec<&str> = bar.iter().map(|t| t.label.as_str()).collect();
    assert_eq!(labels, vec!["Agent", "Shell 1", "Shell 2"]);
    assert!(bar[2].active && bar[2].shell && !bar[0].shell);

    // The agent's own tab stays.
    assert_eq!(done(|out| ws.remove_terminal_tab("a", "a", out)), Vec::<String>::new());
    assert_eq!(
        done(|out| ws.remove_terminal_tab("a", "t2", out)),
        vec!["discard t2", "persist"]
    );
    assert_eq!(ws.active_tab("a"), "a");
    assert_eq!(ws.state.projects[0].agents[0].terminals.len(), 1);
}

#[test]
fn new_tabs_and_agents_get_ids_of_their_own() {
    let mut ws = start(vec![project("/repo", vec![agent("a", "/w", Some("b"))])]);
    ws.select_agent("a", &none(), &mut Vec::new());
    ws.new_terminal_tab(&none(), &mut Vec::new());
    ws.add_next_shell_tab("a", &none(), &mut Vec::new());
    let tabs = &ws.state.projects[0].agents[0].terminals;
    assert_eq!(tabs.len(), 2);
    assert_eq!(tabs[1].name, "Shell 2");
    assert_ne!(tabs[0].id, tabs[1].id);
    assert_eq!(tabs[0].id.len(), 36);

    let result = Ok(place("/wt/c", Some("c")));
    let id = ws.settle_spawn("/repo", "t", &preset(), result, &none(), &mut Vec::new()).unwrap();
    assert_eq!(ws.state.projects[0].agents[1].id, id);
    let refused = ws.settle_spawn("/repo", "t", &preset(), Err("no".into()), &none(), &mut Vec::new());
    assert!(refused.is_none());
}

// ---- Spawning ----

fn preset() -> PresetRecord {
    PresetRecord {
        name: "p".into(),
        command: "run --".into(),
        resume_command: None,
        env: "K=v".into(),
    }
}

fn place(workdir: &str, branch: Option<&str>) -> resolve::Workspace {
    resolve::Workspace {
        workdir: workdir.into(),
        branch: branch.map(str::to_string),
        agent_name: "fix login".into(),
    }
}

#[test]
fn a_task_becomes_an_agent() {
    let mut ws = start(vec![project("/repo", Vec::new())]);
    ws.state.settings.presets = vec![preset(), preset()];
    ws.open_new_agent_dialog("/repo".into(), None);
    if let Some(Dialog::NewAgent(d)) = &mut ws.dialog {
        d.preset = 1;
        d.workspace_mode = WorkspaceMode::NewWorktree;
    }
    let mut out = Vec::new();
    let request = ws.spawn_agent("/repo", &none(), &mut out).unwrap();
    assert_eq!(names(&out), vec!["persist"]);
    assert_eq!(request.preset.command, "run --");
    assert_eq!(request.workspace_mode, WorkspaceMode::NewWorktree);
    assert_eq!(ws.state.settings.last_preset, 1);
    // No second task from the same dialog while this one is planned.
    assert!(ws.spawn_agent("/repo", &none(), &mut Vec::new()).is_none());

    let mut out = Vec::new();
    assert!(ws.settle_spawn_as(
        "/repo/",
        "fix the login",
        &request.preset,
        Ok(place("/wt/b", Some("b"))),
        "id1",
        &none(),
        &mut out,
    ));
    assert_eq!(
        names(&out),
        vec![
            "info agent fix login: created on b in /wt/b",
            "persist",
            "agent id1 run --,fix the login in /wt/b",
        ]
    );
    assert!(ws.dialog.is_none());
    let a = &ws.state.projects[0].agents[0];
    assert_eq!(a.name, "fix login");
    assert_eq!(a.description, "fix the login");
    assert_eq!(a.resume_command.as_deref(), Some("run -- --continue"));
    assert_eq!(a.env.as_deref(), Some("K=v"));
    ws.status = Some(("old".into(), true));
    assert_eq!(done(|out| ws.spawn_started("id1", &none(), out)), vec!["focus id1"]);
    assert!(ws.status.is_none());
    assert_eq!(ws.selected.as_deref(), Some("id1"));
}

#[test]
fn a_spawn_without_a_preset_runs_the_plain_agent() {
    let mut ws = start(vec![project("/repo", Vec::new())]);
    ws.state.settings.presets = Vec::new();
    let request = ws.spawn_agent("/repo", &none(), &mut Vec::new()).unwrap();
    assert_eq!(request.preset.command, AGENT);
    assert_eq!(request.workspace_mode, WorkspaceMode::Auto);
}

#[test]
fn a_directory_takes_one_task() {
    let mut ws = start(vec![project("/repo", vec![agent("a", "/wt/b", Some("b")), agent("c", "/repo", None)])]);
    let mut settle = |ws: &mut Workspace, p: resolve::Workspace| {
        let mut out = Vec::new();
        assert!(!ws.settle_spawn_as("/repo", "t", &preset(), Ok(p), "id", &none(), &mut out));
        names(&out)
    };
    ws.open_new_agent_dialog("/repo".into(), None);
    ws.spawn_agent("/repo", &none(), &mut Vec::new());
    let message = "`agent a` is already working on `b` in /wt/b/ — resume that task, or describe this one so it lands on a different branch";
    assert_eq!(settle(&mut ws, place("/wt/b/", Some("b"))), vec![format!("error {message}")]);
    match &ws.dialog {
        Some(Dialog::NewAgent(d)) => {
            assert!(!d.planning);
            assert_eq!(d.error.as_deref(), Some(message));
        }
        _ => panic!("the dialog is gone"),
    }
    // Without the dialog the status line says so, and the log once more.
    ws.dialog = None;
    let message = "`agent c` is already working in the project checkout /repo — resume that task, or spawn this one with New worktree";
    assert_eq!(
        settle(&mut ws, place("/repo", None)),
        vec![format!("error {message}"), format!("error {message}")]
    );
    assert_eq!(ws.state.projects[0].agents.len(), 2);
}

#[test]
fn a_plan_that_fails_leaves_the_dialog_open() {
    let mut ws = start(vec![project("/repo", Vec::new())]);
    ws.open_new_agent_dialog("/repo".into(), None);
    ws.spawn_agent("/repo", &none(), &mut Vec::new());
    let mut out = Vec::new();
    assert!(!ws.settle_spawn_as("/repo", "t", &preset(), Err("limit".into()), "id", &none(), &mut out));
    assert_eq!(names(&out), vec!["error limit"]);
    assert!(matches!(&ws.dialog, Some(Dialog::NewAgent(d)) if d.error.as_deref() == Some("limit")));
    assert!(ws.state.projects[0].agents.is_empty());

    let mut out = Vec::new();
    assert!(!ws.settle_spawn_as("/gone", "t", &preset(), Ok(place("/x", None)), "id", &none(), &mut out));
    assert_eq!(names(&out), vec!["error Project disappeared while planning"]);
}

#[test]
fn the_planner_runs_through_its_preset() {
    let mut ws = start(Vec::new());
    let mut p = preset();
    p.name = "planner".into();
    p.command = "wrap".into();
    ws.state.settings.presets = vec![preset(), p];
    ws.state.settings.planner_preset = Some("planner".into());
    let s = ws.planner_settings("/repo", &none(), &mut Vec::new());
    assert_eq!(s.preset_argv, vec!["wrap", "-p", "--model", "haiku"]);
    assert_eq!(s.env, vec![("K".to_string(), "v".to_string())]);
    // A name that no preset has means none.
    ws.state.settings.planner_preset = Some("gone".into());
    let s = ws.planner_settings("/repo", &none(), &mut Vec::new());
    assert!(s.preset_argv.is_empty() && s.env.is_empty());
}

// ---- Removing ----

#[test]
fn a_clean_worktree_goes_with_its_agent() {
    let mut a = agent("a", "/wt/b", Some("b"));
    a.terminals = vec![tab("t1", "Shell 1")];
    let mut ws = start(vec![project("/repo", vec![a, agent("c", "/repo", None)])]);
    ws.select_agent("a", &none(), &mut Vec::new());
    let mut out = Vec::new();
    assert_eq!(
        ws.remove_agent("a", true, &mut out),
        Some(("/repo".to_string(), "/wt/b".to_string()))
    );
    assert!(out.is_empty());
    assert!(ws.settle_check("a", Ok(false), &mut out));
    ws.settle_removal("a", Ok(()), &mut out);
    assert_eq!(
        names(&out),
        vec![
            "info agent agent a: worktree /wt/b removed, branch b kept",
            "info agent agent a: removed",
            "discard a",
            "discard t1",
            "persist",
        ]
    );
    assert_eq!(ws.state.projects[0].agents.len(), 1);
    assert!(ws.selected.is_none());
    assert!(!ws.terminals.contains("a") && !ws.restored.contains("a"));
}

#[test]
fn uncommitted_work_and_refusals_block_a_removal() {
    let mut ws = start(vec![project("/repo", vec![agent("a", "/wt/b", Some("b"))])]);
    let mut out = Vec::new();
    assert!(!ws.settle_check("a", Ok(true), &mut out));
    assert!(!ws.settle_check("a", Err("no git".into()), &mut out));
    ws.settle_removal("a", Err("locked".into()), &mut out);
    assert_eq!(
        names(&out),
        vec![
            "error agent a: worktree has uncommitted changes — commit or discard them in /wt/b first",
            "error agent a: cannot check the worktree: no git",
            "error agent a: cannot remove the worktree: locked",
        ]
    );
    assert_eq!(ws.state.projects[0].agents.len(), 1);
    assert!(!ws.settle_check("x", Ok(false), &mut out));
}

#[test]
fn only_an_owned_worktree_is_deleted() {
    // The project's own checkout, and a directory that is gone.
    let mut ws = start(vec![project("/repo", vec![agent("a", "/repo/", Some("b")), agent("c", "/wt", Some("c"))])]);
    assert_eq!(ws.remove_agent("a", true, &mut Vec::new()), None);
    assert_eq!(ws.remove_agent("c", false, &mut Vec::new()), None);
    assert!(ws.state.projects[0].agents.is_empty());
    assert_eq!(ws.remove_agent("c", true, &mut Vec::new()), None);

    // A worktree that another agent uses.
    let mut ws = start(vec![
        project("/repo", vec![agent("a", "/wt", Some("b"))]),
        project("/other", vec![agent("c", "/wt", Some("b"))]),
    ]);
    assert_eq!(
        done(|out| {
            ws.remove_agent("a", true, out);
        }),
        vec![
            "info agent agent a: keeping worktree /wt, another agent is using it",
            "info agent agent a: removed",
            "persist",
        ]
    );
    // Now it is the other's alone.
    assert!(ws.remove_agent("c", true, &mut Vec::new()).is_some());
}

// ---- Projects ----

#[test]
fn projects_are_added_with_care() {
    let mut ws = start(Vec::new());
    let home = Some("/home/u".to_string());
    let mut add = |path: &str, is_dir: bool, is_repo: bool| {
        done(|out| ws.add_project(path, &home, is_dir, is_repo, out))
    };
    assert_eq!(add("", true, true), Vec::<String>::new());
    assert_eq!(add("~/x", false, false), vec!["error Not a directory: /home/u/x"]);
    assert_eq!(add("/x", true, false), vec!["error Not a git repository: /x"]);
    assert_eq!(add("~/code", true, true), vec!["info project added: /home/u/code", "persist"]);
    assert_eq!(add("/home/u/code/", true, true), vec!["error Project already added"]);
    assert_eq!(ws.state.projects.len(), 1);
    assert_eq!(ws.state.projects[0].name, "code");
    assert_eq!(
        done(|out| ws.picker_failed("no portal", out)),
        vec!["error File picker failed: no portal"]
    );
}

#[test]
fn removing_a_project_takes_its_agents_down() {
    let mut ws = start(vec![
        project("/one", vec![agent("a", "/w", None)]),
        project("/two", vec![agent("b", "/v", None)]),
    ]);
    ws.select_agent("a", &none(), &mut Vec::new());
    assert_eq!(done(|out| ws.remove_project(5, out)), Vec::<String>::new());
    assert_eq!(done(|out| ws.remove_project(0, out)), vec!["discard a", "persist"]);
    assert_eq!(ws.state.projects[0].path, "/two");
    assert!(ws.selected.is_none());
}

#[test]
fn drags_are_previewed_and_committed() {
    let mut ws = start(vec![project("/a", Vec::new()), project("/b", Vec::new()), project("/c", Vec::new())]);
    // Not past the middle yet, and the dragged row itself: nothing.
    assert!(!ws.drag_over_project(0, 2, Relative::Before));
    assert!(!ws.drag_over_project(0, 0, Relative::At));
    assert!(ws.drag_over_project(0, 2, Relative::Behind));
    assert!(!ws.drag_over_project(0, 2, Relative::At));
    let shown: Vec<String> = ws.sidebar().unwrap().iter().map(|r| r.label()).collect();
    assert_eq!(shown, vec!["b", "no agents", "c", "no agents", "a", "no agents", "New project"]);
    assert_eq!(done(|out| ws.release_drag(true, out)), Vec::<String>::new());
    assert_eq!(done(|out| ws.release_drag(false, out)), vec!["persist"]);
    let paths: Vec<&str> = ws.state.projects.iter().map(|p| p.path.as_str()).collect();
    assert_eq!(paths, vec!["/b", "/c", "/a"]);
    // A drop without a preview goes by the row it lands on.
    ws.drop_project(2, 0, &mut Vec::new());
    assert_eq!(ws.state.projects[0].path, "/a");
}

#[test]
fn agents_and_tabs_move_among_their_own() {
    let mut a = agent("a", "/w", None);
    a.terminals = vec![tab("t1", "1"), tab("t2", "2")];
    let mut ws = start(vec![
        project("/r", vec![a, agent("b", "/x", None)]),
        project("/s", vec![agent("c", "/y", None)]),
    ]);
    assert!(!ws.drag_over_agent(1, "c", 0, "a", Relative::At));
    assert!(ws.drag_over_agent(0, "b", 0, "a", Relative::At));
    assert!(matches!(&ws.drag_target, Some(DragTarget::Agent { project_index: 0, .. })));
    ws.drop_agent(0, "b", 0, "a", &mut Vec::new());
    assert_eq!(ws.state.projects[0].agents[0].id, "b");
    assert!(ws.drag_target.is_none());
    ws.drop_agent(1, "c", 0, "a", &mut Vec::new());
    assert_eq!(ws.state.projects[1].agents.len(), 1);

    assert!(!ws.drag_over_tab("b", "t1", "a", "t2", Relative::At));
    assert!(ws.drag_over_tab("a", "t1", "a", "t2", Relative::At));
    let bar = ws.tabs(&ws.state.projects[0].agents[1]);
    assert_eq!(bar[1].id, "t2");
    ws.drop_tab("a", "t1", "a", "t2", &mut Vec::new());
    assert_eq!(ws.state.projects[0].agents[1].terminals[0].id, "t2");
    assert_eq!(done(|out| ws.move_tab("a", "t1", "x", out)), Vec::<String>::new());
}

#[test]
fn the_sidebar_lists_what_there_is() {
    let mut ws = start(Vec::new());
    let labels: Vec<String> = ws.sidebar().unwrap().iter().map(|r| r.label()).collect();
    assert_eq!(labels, vec!["No projects yet — pick a git repository below.", "New project"]);

    let mut ws2 = start(vec![project("/r", vec![agent("a", "/w", None), agent("b", "/x", None)])]);
    ws2.select_agent("a", &none(), &mut Vec::new());
    ws2.terminal_event("a", &TerminalEvent::Exited, &mut Vec::new());
    assert_eq!(ws2.start_inline_edit("b").as_deref(), Some("agent b"));
    let rows = ws2.sidebar().unwrap();
    assert!(matches!(&rows[0], SidebarRow::Project { index: 0, expanded: true, .. }));
    assert!(matches!(&rows[1], SidebarRow::Agent { selected: true, dot: Dot::Ended, .. }));
    assert!(matches!(&rows[2], SidebarRow::Editing(id) if id == "b"));
    assert!(matches!(&rows[3], SidebarRow::NewProject));

    assert_eq!(done(|out| ws2.finish_inline_edit("  ", out)), vec!["persist"]);
    assert_eq!(ws2.state.projects[0].agents[1].name, "agent b");
    ws2.start_inline_edit("b");
    ws2.finish_inline_edit(" new name ", &mut Vec::new());
    assert_eq!(ws2.state.projects[0].agents[1].name, "new name");
    ws2.start_inline_edit("b");
    ws2.cancel_inline_edit();
    assert!(ws2.inline_edit.is_none());
    assert_eq!(ws2.start_inline_edit("zz"), None);

    ws2.toggle_project(0, &mut Vec::new());
    assert_eq!(ws2.sidebar().unwrap().len(), 2);
    assert_eq!(done(|out| ws.collapse_sidebar(true, out)), vec!["persist"]);
    assert!(ws.sidebar().is_none());
}

#[test]
fn the_sidebar_follows_the_pointer_while_its_handle_is_held() {
    let mut ws = start(Vec::new());
    assert!(!ws.pointer_moved(true, &mut Vec::new()));
    ws.start_resizing();
    assert!(ws.pointer_moved(true, &mut Vec::new()));
    assert_eq!(
        done(|out| {
            ws.pointer_moved(false, out);
        }),
        vec!["persist"]
    );
    assert_eq!(done(|out| ws.pointer_released(out)), Vec::<String>::new());
    ws.start_resizing();
    assert_eq!(done(|out| ws.pointer_released(out)), vec!["persist"]);
}

// ---- Panels ----

#[test]
fn the_log_panel_is_polled_while_open() {
    let mut ws = start(Vec::new());
    assert!(!ws.poll_log(3, &mut Vec::new()));
    assert_eq!(done(|out| ws.toggle_log_panel(out)), vec!["scroll", "poll", "persist"]);
    assert_eq!(
        done(|out| {
            assert!(ws.poll_log(3, out));
        }),
        vec!["scroll"]
    );
    assert_eq!(
        done(|out| {
            assert!(ws.poll_log(3, out));
        }),
        Vec::<String>::new()
    );
    ws.log_cleared(4);
    assert_eq!(ws.log_version, 4);
    assert_eq!(done(|out| ws.toggle_log_panel(out)), vec!["stop", "persist"]);
    assert_eq!(log_rows(&Vec::new())[0].1, "Nothing logged yet.");
}

#[test]
fn the_settings_are_saved_from_their_dialog() {
    let mut ws = start(vec![project("/r", vec![agent("a", "/w", None)])]);
    ws.select_agent("a", &none(), &mut Vec::new());
    ws.state.settings.presets = vec![preset(), preset()];
    ws.state.settings.last_preset = 1;
    ws.open_settings_dialog();
    if let Some(Dialog::Settings(d)) = &mut ws.dialog {
        d.remove_preset_row(1);
        d.add_preset_row();
        d.planner_model = " tiny ".into();
        d.ui_font = "Inter".into();
        d.planner_preset_row = Some(0);
    }
    assert_eq!(done(|out| ws.save_settings(out)), vec!["fonts", "focus a", "persist"]);
    assert_eq!(ws.state.settings.presets.len(), 1);
    assert_eq!(ws.state.settings.last_preset, 0);
    assert_eq!(ws.state.settings.planner_model, "tiny");
    assert_eq!(ws.state.settings.planner_preset.as_deref(), Some("p"));
    assert!(ws.dialog.is_none());
    assert_eq!(done(|out| ws.save_settings(out)), Vec::<String>::new());
    assert_eq!(done(|out| ws.set_theme(ThemeMode::Dark, out)), vec!["theme", "persist"]);
    assert_eq!(ws.state.settings.theme, ThemeMode::Dark);
    assert_eq!(
        done(|out| ws.persist_failed("disk full", out)),
        vec!["error Failed to save state: disk full"]
    );
}

#[test]
fn searching_needs_a_terminal() {
    let mut ws = start(vec![project("/r", vec![agent("a", "/w", None)])]);
    let mut out = Vec::new();
    assert_eq!(ws.open_search_dialog(&mut out), SearchOpening::Refused);
    assert_eq!(names(&out), vec!["error No terminal to search"]);
    ws.select_agent("a", &none(), &mut Vec::new());
    assert_eq!(ws.open_search_dialog(&mut Vec::new()), SearchOpening::Fresh);
    if let Some(Dialog::Search(d)) = &mut ws.dialog {
        d.toggle_match_case();
        d.toggle_wrap();
    }
    let step = ws.find_in_terminal().unwrap();
    assert_eq!(step.terminal, "a");
    assert!(step.match_case && !step.wrap);
    ws.search_finished(SearchOutcome::NoMatch, true, "zz");
    assert!(matches!(&ws.dialog, Some(Dialog::Search(d)) if d.status.as_deref() == Some("No matches for `zz`")));
    // Opening it again keeps the options, and drops the stale line.
    assert_eq!(ws.open_search_dialog(&mut Vec::new()), SearchOpening::Again);
    assert!(matches!(&ws.dialog, Some(Dialog::Search(d)) if d.status.is_none() && d.match_case));
    assert_eq!(done(|out| ws.close_dialog(out)), vec!["focus a"]);
    assert!(ws.find_in_terminal().is_none());
    ws.search_finished(SearchOutcome::EndOfBuffer, true, "zz");
    assert!(ws.dialog.is_none());
}

#[test]
fn dialogs_are_submitted() {
    let mut ws = start(vec![project("/r", vec![agent("a", "/w", None)])]);
    assert!(matches!(ws.submit_dialog("x", &mut Vec::new()), Submitted::Nothing));
    ws.open_new_agent_dialog("/r".into(), Some("g".into()));
    assert!(matches!(ws.submit_dialog("  ", &mut Vec::new()), Submitted::Nothing));
    assert!(matches!(
        ws.submit_dialog(" do it ", &mut Vec::new()),
        Submitted::Spawn { project_path, task } if project_path == "/r" && task == "do it"
    ));
    ws.spawn_agent("/r", &none(), &mut Vec::new());
    assert!(matches!(ws.submit_dialog("again", &mut Vec::new()), Submitted::Nothing));
    ws.open_settings_dialog();
    assert!(matches!(ws.submit_dialog("", &mut Vec::new()), Submitted::Saved));
    assert!(ws.dialog.is_none());
    ws.select_agent("a", &none(), &mut Vec::new());
    ws.open_search_dialog(&mut Vec::new());
    assert!(matches!(ws.submit_dialog("q", &mut Vec::new()), Submitted::Search));
    assert!(closes_dialog("escape"));
    assert!(!closes_dialog("enter"));
}

#[test]
fn buttons_close_search_or_submit() {
    let mut ws = start(vec![project("/r", vec![agent("a", "/w", None)])]);
    ws.open_new_agent_dialog("/r".into(), None);
    assert!(matches!(
        ws.press_button(Button::Spawn, "  ", &mut Vec::new()),
        Pressed::Submitted(Submitted::Nothing)
    ));
    assert!(matches!(
        ws.press_button(Button::Spawn, " do it ", &mut Vec::new()),
        Pressed::Submitted(Submitted::Spawn { project_path, task })
            if project_path == "/r" && task == "do it"
    ));
    assert!(matches!(ws.press_button(Button::Cancel, "x", &mut Vec::new()), Pressed::Closed));
    assert!(ws.dialog.is_none());
    ws.open_settings_dialog();
    assert!(matches!(
        ws.press_button(Button::Save, "", &mut Vec::new()),
        Pressed::Submitted(Submitted::Saved)
    ));
    ws.select_agent("a", &none(), &mut Vec::new());
    ws.open_search_dialog(&mut Vec::new());
    assert!(matches!(
        ws.press_button(Button::Previous, "q", &mut Vec::new()),
        Pressed::Find { forward: false }
    ));
    assert!(matches!(
        ws.press_button(Button::Next, "q", &mut Vec::new()),
        Pressed::Find { forward: true }
    ));
    assert!(ws.dialog.is_some());
    let mut out = Vec::new();
    assert!(matches!(ws.press_button(Button::Close, "", &mut out), Pressed::Closed));
    assert_eq!(names(&out), vec!["focus a"]);
    let labels: Vec<&str> = [
        Button::Cancel,
        Button::Spawn,
        Button::Save,
        Button::Close,
        Button::Previous,
        Button::Next,
    ]
    .iter()
    .map(|b| b.label())
    .collect();
    assert_eq!(labels, vec!["Cancel", "Spawn", "Save", "Close", "Previous", "Next"]);
}

#[test]
fn chips_choose_in_the_open_dialog() {
    let mut ws = start(vec![project("/r", vec![agent("a", "/w", None)])]);
    // Without a dialog only the theme changes.
    ws.pick_chip(Choice::Workspace, 2, &mut Vec::new());
    assert!(ws.dialog.is_none());
    assert_eq!(done(|out| ws.pick_chip(Choice::Theme, 1, out)), vec!["theme", "persist"]);
    assert_eq!(ws.state.settings.theme, ThemeMode::Dark);
    assert_eq!(done(|out| ws.pick_chip(Choice::Theme, 2, out)), Vec::<String>::new());
    assert_eq!(ws.state.settings.theme, ThemeMode::Dark);

    ws.open_new_agent_dialog("/r".into(), None);
    ws.pick_chip(Choice::Workspace, 2, &mut Vec::new());
    ws.pick_chip(Choice::Preset, 1, &mut Vec::new());
    assert!(matches!(
        &ws.dialog,
        Some(Dialog::NewAgent(d))
            if d.workspace_mode == WorkspaceMode::MainBranch && d.preset == 1
    ));
    ws.pick_chip(Choice::Workspace, 1, &mut Vec::new());
    assert!(matches!(
        &ws.dialog,
        Some(Dialog::NewAgent(d)) if d.workspace_mode == WorkspaceMode::NewWorktree
    ));
    // The planner's preset is no choice of this dialog.
    ws.pick_planner_preset(Some(0));
    assert!(matches!(&ws.dialog, Some(Dialog::NewAgent(d)) if d.preset == 1));

    ws.open_settings_dialog();
    ws.pick_planner_preset(Some(0));
    assert!(matches!(
        &ws.dialog,
        Some(Dialog::Settings(d)) if d.planner_preset_row == Some(0)
    ));
    ws.pick_planner_preset(None);
    assert!(matches!(
        &ws.dialog,
        Some(Dialog::Settings(d)) if d.planner_preset_row.is_none()
    ));
    assert_eq!(done(|out| ws.pick_chip(Choice::Theme, 0, out)), vec!["theme", "persist"]);
    assert_eq!(ws.state.settings.theme, ThemeMode::Light);

    ws.select_agent("a", &none(), &mut Vec::new());
    ws.open_search_dialog(&mut Vec::new());
    ws.pick_chip(Choice::Search, 0, &mut Vec::new());
    ws.pick_chip(Choice::Search, 1, &mut Vec::new());
    assert!(matches!(&ws.dialog, Some(Dialog::Search(d)) if d.match_case && !d.wrap));
}
