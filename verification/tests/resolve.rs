use harmonium::planner::git::{existing_worktree_for_branch, is_dirty, remove_worktree, verify_branch_args, worktree_list_args, Reply};
use harmonium::planner::plan::TaskPlan;
use harmonium::planner::resolve::{resolve_workspace, worktrees_dir, worktrees_dir_for, Step, Workspace};

/// A repository in memory that answers as git does.
struct Repo {
    path: String,
    branches: Vec<String>,
    remotes: Vec<String>,
    head: Option<String>,
    current: String,
    worktrees: Vec<(String, String)>,
    dirs: Vec<String>,
}

impl Repo {
    fn new() -> Repo {
        Repo {
            path: "/repo".into(),
            branches: vec!["main".into(), "feature/existing".into()],
            remotes: Vec::new(),
            head: None,
            current: "main".into(),
            worktrees: Vec::new(),
            dirs: Vec::new(),
        }
    }

    fn git(&mut self, args: &[String]) -> Reply {
        let words: Vec<&str> = args.iter().map(|s| s.as_str()).collect();
        match words.as_slice() {
            ["worktree", "list", "--porcelain"] => {
                let mut out = format!("worktree {}\nHEAD abc\nbranch refs/heads/{}\n\n", self.path, self.current);
                for (dir, branch) in &self.worktrees {
                    out.push_str(&format!("worktree {dir}\nHEAD abc\nbranch refs/heads/{branch}\n\n"));
                }
                Ok(out)
            }
            ["rev-parse", "--verify", name] => {
                let name = name.trim_start_matches("refs/heads/");
                if self.branches.iter().any(|b| b == name) {
                    Ok("abc\n".into())
                } else {
                    Err("no such branch".into())
                }
            }
            ["symbolic-ref", "refs/remotes/origin/HEAD"] => match &self.head {
                Some(h) => Ok(format!("refs/remotes/origin/{h}\n")),
                None => Err("not a symbolic ref".into()),
            },
            ["branch", "--format=%(refname:short)"] => Ok(self.branches.join("\n")),
            ["branch", "-r", "--format=%(refname:short)"] => Ok(self.remotes.join("\n")),
            ["rev-parse", "--abbrev-ref", "HEAD"] => Ok(format!("{}\n", self.current)),
            ["worktree", "add", dir, _] | ["worktree", "add", "-b", _, dir, _]
                if self.worktrees.iter().any(|(taken, _)| taken == dir) =>
            {
                Err(format!("'{dir}' already exists"))
            }
            ["worktree", "add", dir, branch] => {
                self.worktrees.push((dir.to_string(), branch.to_string()));
                Ok(String::new())
            }
            ["worktree", "add", "-b", branch, dir, from] => {
                if !self.branches.iter().chain(&self.remotes).any(|b| b == from) {
                    return Err(format!("invalid reference: {from}"));
                }
                self.branches.push(branch.to_string());
                self.worktrees.push((dir.to_string(), branch.to_string()));
                Ok(String::new())
            }
            other => panic!("unexpected git {other:?}"),
        }
    }

    fn resolve(&mut self, plan: &TaskPlan, task: &str) -> Result<Workspace, String> {
        let worktrees = worktrees_dir_for("/data", &self.path, 0xabcd);
        let (resolver, mut step) = resolve_workspace(&self.path.clone(), plan, task, &worktrees);
        let mut resolver = resolver;
        loop {
            let reply = match step {
                Step::Done(workspace) => return Ok(workspace),
                Step::Fail(error) => return Err(error),
                Step::Git(args) => self.git(&args),
                Step::CreateDir(dir) => {
                    self.dirs.push(dir);
                    Ok(String::new())
                }
            };
            step = resolver.as_mut().unwrap().next(&reply);
        }
    }
}

fn plan(mode: &str, branch: Option<&str>, base: Option<&str>, name: Option<&str>) -> TaskPlan {
    TaskPlan {
        mode: mode.into(),
        branch: branch.map(str::to_string),
        base_branch: base.map(str::to_string),
        agent_name: name.map(str::to_string),
    }
}

#[test]
fn worktree_lifecycle() {
    let mut repo = Repo::new();

    // New branch off main.
    let new = plan("new_branch", Some("harmonium/test-task"), Some("main"), Some("test task"));
    let ws = repo.resolve(&new, "test task").unwrap();
    assert_eq!(ws.workdir, "/data/worktrees/repo-0000abcd/harmonium-test-task");
    assert_eq!(ws.branch.as_deref(), Some("harmonium/test-task"));
    assert_eq!(ws.agent_name, "test task");
    assert_eq!(repo.dirs, vec!["/data/worktrees/repo-0000abcd"]);

    // Same branch again: must reuse the same worktree (one per branch).
    let ws2 = repo.resolve(&new, "test task").unwrap();
    assert_eq!(ws.workdir, ws2.workdir);
    assert_eq!(repo.worktrees.len(), 1);

    // Existing branch.
    let existing = plan("existing_branch", Some("feature/existing"), None, None);
    let ws3 = repo.resolve(&existing, "continue feature").unwrap();
    assert_ne!(ws3.workdir, ws.workdir);
    assert_eq!(ws3.branch.as_deref(), Some("feature/existing"));
    assert_eq!(ws3.agent_name, "continue feature");

    // Base mode: work directly in the repo.
    let base = plan("base", None, None, Some("quick"));
    let ws4 = repo.resolve(&base, "quick").unwrap();
    assert_eq!(ws4.workdir, "/repo");
    assert!(ws4.branch.is_none());

    // A fresh worktree is clean; any uncommitted work makes it dirty.
    assert_eq!(is_dirty(&Ok(String::new())), Ok(false));
    assert_eq!(is_dirty(&Ok("?? b.txt\n".into())), Ok(true));
    assert_eq!(is_dirty(&Err("gone".into())), Err("gone".to_string()));
    // Removal refuses while it is dirty, so no work can be lost.
    assert!(remove_worktree(&Err("contains modified or untracked files".into())).is_err());

    // Clean: the checkout goes, the branch stays.
    assert!(remove_worktree(&Ok(String::new())).is_ok());
    repo.worktrees.retain(|(_, b)| b != "harmonium/test-task");
    assert!(repo.git(&verify_branch_args("harmonium/test-task")).is_ok());
    let listed = repo.git(&worktree_list_args());
    assert!(existing_worktree_for_branch(&listed, "harmonium/test-task").is_none());
    assert!(existing_worktree_for_branch(&listed, "feature/existing").is_some());
}

#[test]
fn a_new_branch_that_exists_is_used() {
    let mut repo = Repo::new();
    let p = plan("new_branch", Some("feature/existing"), Some("main"), None);
    let ws = repo.resolve(&p, "go on").unwrap();
    assert_eq!(ws.branch.as_deref(), Some("feature/existing"));
    assert_eq!(repo.branches.len(), 2);
}

#[test]
fn a_new_branch_without_a_base_forks_from_the_default() {
    let mut repo = Repo::new();
    repo.branches = vec!["dev".into(), "trunk".into()];
    repo.head = Some("trunk".into());
    let p = plan("new_branch", Some("x"), None, None);
    assert!(repo.resolve(&p, "t").is_ok());
    // Without a remote the conventional name, and without one the current.
    let mut repo = Repo::new();
    assert!(repo.resolve(&p, "t").is_ok());
    let mut repo = Repo::new();
    repo.branches = vec!["dev".into()];
    repo.current = "dev".into();
    assert!(repo.resolve(&p, "t").is_ok());
}

#[test]
fn a_remote_branch_is_tracked() {
    let mut repo = Repo::new();
    repo.remotes = vec!["origin/HEAD".into(), "origin/theirs".into()];
    let p = plan("existing_branch", Some("theirs"), None, Some("look"));
    let ws = repo.resolve(&p, "look").unwrap();
    assert_eq!(ws.branch.as_deref(), Some("theirs"));
    assert!(repo.branches.iter().any(|b| b == "theirs"));
}

#[test]
fn plans_that_cannot_be_resolved_say_why() {
    let mut repo = Repo::new();
    assert_eq!(
        repo.resolve(&plan("existing_branch", Some("nope"), None, None), "t").err().unwrap(),
        "branch `nope` not found locally or on any remote"
    );
    assert_eq!(
        repo.resolve(&plan("new_branch", Some("  "), None, None), "t").err().unwrap(),
        "plan mode new_branch requires a branch"
    );
    assert_eq!(
        repo.resolve(&plan("sideways", Some("b"), None, None), "t").err().unwrap(),
        "unknown plan mode `sideways`"
    );
    assert_eq!(
        repo.resolve(&plan("new_branch", Some("b"), Some("gone"), None), "t").err().unwrap(),
        "invalid reference: gone"
    );
}

#[test]
fn worktrees_go_in_a_directory_of_their_repository() {
    let dir = worktrees_dir("/data", "/home/u/repo");
    assert!(dir.starts_with("/data/worktrees/repo-"));
    let hash = dir.trim_start_matches("/data/worktrees/repo-");
    assert_eq!(hash.len(), 8);
    assert!(hash.chars().all(|c| c.is_ascii_hexdigit()));
    // Two repositories of one name keep apart.
    assert_ne!(dir, worktrees_dir("/data", "/srv/u/repo"));
    assert_eq!(dir, worktrees_dir("/data", "/home/u/repo"));
    assert_eq!(worktrees_dir_for("/data", "/", 1), "/data/worktrees/repo-00000001");
}

#[test]
fn a_listed_worktree_is_taken_at_once() {
    let p = plan("new_branch", Some("x/y"), Some("main"), None);
    let (resolver, step) = resolve_workspace("/repo", &p, "t", "/data/worktrees/repo-1");
    assert!(matches!(step, Step::Git(args) if args == worktree_list_args()));
    let listed = Ok("worktree /repo\nbranch refs/heads/main\n\nworktree /w/x\nbranch refs/heads/x/y\n".into());
    assert!(matches!(
        resolver.unwrap().next(&listed),
        Step::Done(w) if w.workdir == "/w/x" && w.branch.as_deref() == Some("x/y")
    ));
}

#[test]
fn branches_get_directories_of_their_own() {
    let mut repo = Repo::new();
    let one = repo.resolve(&plan("new_branch", Some("a/b"), Some("main"), None), "t").unwrap();
    let two = repo.resolve(&plan("new_branch", Some("a/c"), Some("main"), None), "t").unwrap();
    assert_eq!(one.workdir, "/data/worktrees/repo-0000abcd/a-b");
    assert_eq!(two.workdir, "/data/worktrees/repo-0000abcd/a-c");
    // A branch of the same directory name is refused, not given the other's.
    let clash = repo.resolve(&plan("new_branch", Some("a-b"), Some("main"), None), "t");
    assert_eq!(clash.err().unwrap(), "'/data/worktrees/repo-0000abcd/a-b' already exists");
}
