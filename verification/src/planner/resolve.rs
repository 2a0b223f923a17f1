//! Resolving a plan into an actual directory, creating a worktree if
//! necessary. The decisions stand here, one step at a time: each step asks for
//! a git command or a directory, and the answer decides the next one.

use std::collections::hash_map::DefaultHasher;
use std::hash::{BuildHasher, BuildHasherDefault};
use std::path::Path;

use vstd::prelude::*;
use vstd::string::*;

use crate::paths;
use crate::paths::{file_name, join_path};
use crate::planner::command;
use crate::planner::command::{sanitize_for_path, slugify};
use crate::planner::git;
use crate::planner::git::{
    conventional_branch, current_branch, current_branch_args, existing_worktree_for_branch,
    local_branches_args, remote_branches_args, remote_head, remote_head_args,
    remote_ref_for_branch, verify_branch_args, words4, words6, worktree_list_args, Reply,
};
use crate::planner::plan;
use crate::planner::plan::TaskPlan;
use crate::text;
use crate::text::{copy_opt_text, hex, is_blank, owned, replace_char, same_text};

verus! {

// ---- Where worktrees go ----

/// The hash that the standard library's default hasher, freshly made, gives a
/// path. Its documentation fixes no algorithm, so nothing is promised of the
/// value.
#[verifier::external_body]
fn path_hash(path: &str) -> (r: u64)
{
    BuildHasherDefault::<DefaultHasher>::default().hash_one(Path::new(path))
}

/// The directory for the worktrees of a repository: named after the repository
/// and told apart from others of that name by a hash of its path.
pub open spec fn worktrees_dir_of(data_dir: Seq<char>, repo: Seq<char>, hash: u32) -> Seq<char> {
    let name = match paths::file_name_of(repo) {
        Some(n) => n,
        None => "repo"@,
    };
    paths::joined(
        paths::joined(data_dir, "worktrees"@),
        name + "-"@ + text::hex_of(hash as nat, 8),
    )
}

/// The directory for the worktrees of `repo`, where `hash` is the hash of its
/// path.
pub fn worktrees_dir_for(data_dir: &str, repo: &str, hash: u32) -> (r: String)
    ensures
        r@ == worktrees_dir_of(data_dir@, repo@, hash),
{
    let mut name: String = match file_name(repo) {
        Some(n) => n,
        None => owned("repo"),
    };
    name.push_str("-");
    name.push_str(hex(hash, 8).as_str());
    join_path(join_path(data_dir, "worktrees").as_str(), name.as_str())
}

/// Whether the hash of a path can come out as `h`.
pub closed spec fn hashed(path: &str, h: u64) -> bool {
    call_ensures(path_hash, (path,), h)
}

/// Directory under which worktrees for `repo` are placed. What tells it apart
/// from that of another repository of the same name is the low half of the
/// hash of the repository's own path.
pub fn worktrees_dir(data_dir: &str, repo: &str) -> (r: String)
    ensures
        exists|h: u64| #[trigger]
            hashed(repo, h) && r@ == worktrees_dir_of(
                data_dir@,
                repo@,
                (h % 0x1_0000_0000) as u32,
            ),
{
    let h: u64 = path_hash(repo);
    assert(hashed(repo, h));
    worktrees_dir_for(data_dir, repo, (h % 0x1_0000_0000) as u32)
}

// ---- Resolving ----

/// The resolved workspace for an agent.
pub struct Workspace {
    pub workdir: String,
    pub branch: Option<String>,
    pub agent_name: String,
}

/// What a [`Workspace`] says.
#[verifier::ext_equal]
pub struct Place {
    pub workdir: Seq<char>,
    pub branch: Option<Seq<char>>,
    pub agent_name: Seq<char>,
}

impl View for Workspace {
    type V = Place;

    open spec fn view(&self) -> Place {
        Place {
            workdir: self.workdir@,
            branch: text::opt_text(self.branch),
            agent_name: self.agent_name@,
        }
    }
}

/// What has to be done next.
pub enum Step {
    /// Run git in the repository with these arguments.
    Git(Vec<String>),
    /// Create this directory and those above it.
    CreateDir(String),
    Done(Workspace),
    Fail(String),
}

/// What a [`Step`] says.
#[verifier::ext_equal]
pub enum Move {
    Git(Seq<Seq<char>>),
    CreateDir(Seq<char>),
    Done(Place),
    Fail(Seq<char>),
}

impl View for Step {
    type V = Move;

    open spec fn view(&self) -> Move {
        match self {
            Step::Git(args) => Move::Git(text::texts(args@)),
            Step::CreateDir(path) => Move::CreateDir(path@),
            Step::Done(w) => Move::Done(w@),
            Step::Fail(e) => Move::Fail(e@),
        }
    }
}

/// What the last step was for.
#[derive(Clone, Copy, PartialEq, Eq, Structural, Debug)]
pub enum Stage {
    /// Looking for a worktree that has the branch.
    Listing,
    /// Creating the directory that worktrees go in.
    Creating,
    /// Finding the default branch: the remote's, a conventional one, the
    /// current one.
    Head,
    Locals,
    Current,
    /// Asking whether the branch is there.
    Verifying,
    /// Looking for the branch on a remote.
    Remotes,
    /// Creating the worktree.
    Adding,
    Over,
}

/// A workspace that is being resolved.
pub struct Resolver {
    /// The branch is expected to be there already.
    pub existing: bool,
    pub branch: String,
    /// The branch to fork from, once known.
    pub base: Option<String>,
    pub agent_name: String,
    /// Where worktrees go, and where this one does.
    pub parent: String,
    pub dir: String,
    pub stage: Stage,
}

/// What a [`Resolver`] says.
#[verifier::ext_equal]
pub struct Job {
    pub existing: bool,
    pub branch: Seq<char>,
    pub base: Option<Seq<char>>,
    pub agent_name: Seq<char>,
    pub parent: Seq<char>,
    pub dir: Seq<char>,
    pub stage: Stage,
}

impl View for Resolver {
    type V = Job;

    open spec fn view(&self) -> Job {
        Job {
            existing: self.existing,
            branch: self.branch@,
            base: text::opt_text(self.base),
            agent_name: self.agent_name@,
            parent: self.parent@,
            dir: self.dir@,
            stage: self.stage,
        }
    }
}

/// The contents of an optional resolver.
pub open spec fn job_of(r: Option<Resolver>) -> Option<Job> {
    match r {
        Some(j) => Some(j@),
        None => None,
    }
}

/// What an agent is called: as the plan says, or else after the task.
pub open spec fn name_for(p: plan::Plan, task: Seq<char>) -> Seq<char> {
    if plan::said(p.agent_name) {
        p.agent_name->0
    } else {
        text::replaced(command::slug_of(task, 3), '-', " "@)
    }
}

/// A text only where it says something.
pub open spec fn only_said(o: Option<Seq<char>>) -> Option<Seq<char>> {
    if plan::said(o) {
        o
    } else {
        None
    }
}

/// The first step of resolving a plan.
pub open spec fn first_move(
    repo: Seq<char>,
    p: plan::Plan,
    task: Seq<char>,
    worktrees: Seq<char>,
) -> (Option<Job>, Move) {
    if p.mode == "base"@ {
        (
            None,
            Move::Done(Place { workdir: repo, branch: None, agent_name: name_for(p, task) }),
        )
    } else if p.mode == "existing_branch"@ || p.mode == "new_branch"@ {
        if plan::said(p.branch) {
            (
                Some(
                    Job {
                        existing: p.mode == "existing_branch"@,
                        branch: p.branch->0,
                        base: only_said(p.base_branch),
                        agent_name: name_for(p, task),
                        parent: worktrees,
                        dir: paths::joined(worktrees, command::path_safe(p.branch->0)),
                        stage: Stage::Listing,
                    },
                ),
                Move::Git(git::worktrees_query()),
            )
        } else {
            (None, Move::Fail("plan mode "@ + p.mode + " requires a branch"@))
        }
    } else {
        (None, Move::Fail("unknown plan mode `"@ + p.mode + "`"@))
    }
}

/// The worktree of a branch that is there.
pub open spec fn add_existing(dir: Seq<char>, branch: Seq<char>) -> Seq<Seq<char>> {
    seq!["worktree"@, "add"@, dir, branch]
}

/// A worktree on a new branch that starts at `from`.
pub open spec fn add_new(dir: Seq<char>, branch: Seq<char>, from: Seq<char>) -> Seq<Seq<char>> {
    seq!["worktree"@, "add"@, "-b"@, branch, dir, from]
}

/// The place in a worktree.
pub open spec fn place_in(job: Job, dir: Seq<char>) -> Place {
    Place { workdir: dir, branch: Some(job.branch), agent_name: job.agent_name }
}

/// A job at a stage.
pub open spec fn at_stage(job: Job, stage: Stage) -> Job {
    Job { stage, ..job }
}

/// A job whose base is known, asking whether the branch is there.
pub open spec fn verifying(job: Job, base: Option<Seq<char>>) -> (Job, Move) {
    (
        Job { base, stage: Stage::Verifying, ..job },
        Move::Git(git::branch_query(job.branch)),
    )
}

/// The step that follows an answer.
pub open spec fn next_move(job: Job, reply: Result<Seq<char>, Seq<char>>) -> (Job, Move) {
    match job.stage {
        // One worktree per branch: reuse if it already exists.
        Stage::Listing => match git::worktree_for(reply, job.branch) {
            Some(path) => (at_stage(job, Stage::Over), Move::Done(place_in(job, path))),
            None => (at_stage(job, Stage::Creating), Move::CreateDir(job.parent)),
        },
        Stage::Creating => match reply {
            Ok(_) => if job.existing || job.base is Some {
                verifying(job, job.base)
            } else {
                (at_stage(job, Stage::Head), Move::Git(git::head_query()))
            },
            Err(e) => (at_stage(job, Stage::Over), Move::Fail(e)),
        },
        Stage::Head => match git::head_branch(reply) {
            Some(b) => verifying(job, Some(b)),
            None => (at_stage(job, Stage::Locals), Move::Git(git::locals_query())),
        },
        Stage::Locals => match git::conventional(git::branches_in(reply)) {
            Some(b) => verifying(job, Some(b)),
            None => (at_stage(job, Stage::Current), Move::Git(git::current_query())),
        },
        Stage::Current => verifying(job, Some(git::current_or_main(reply))),
        // A branch that is there is used, also where it was to be new.
        Stage::Verifying => if reply is Ok {
            (at_stage(job, Stage::Adding), Move::Git(add_existing(job.dir, job.branch)))
        } else if job.existing {
            (at_stage(job, Stage::Remotes), Move::Git(git::remotes_query()))
        } else {
            (
                at_stage(job, Stage::Adding),
                Move::Git(
                    add_new(
                        job.dir,
                        job.branch,
                        match job.base {
                            Some(b) => b,
                            None => Seq::empty(),
                        },
                    ),
                ),
            )
        },
        Stage::Remotes => match git::remote_ref(reply, job.branch) {
            Some(r) => (
                at_stage(job, Stage::Adding),
                Move::Git(add_new(job.dir, job.branch, r)),
            ),
            None => (
                at_stage(job, Stage::Over),
                Move::Fail(
                    "branch `"@ + job.branch + "` not found locally or on any remote"@,
                ),
            ),
        },
        Stage::Adding => match reply {
            Ok(_) => (at_stage(job, Stage::Over), Move::Done(place_in(job, job.dir))),
            Err(e) => (at_stage(job, Stage::Over), Move::Fail(e)),
        },
        Stage::Over => (job, Move::Fail(Seq::empty())),
    }
}

fn says(o: &Option<String>) -> (r: bool)
    ensures
        r == plan::said(text::opt_text(*o)),
{
    match o {
        Some(s) => !is_blank(s.as_str()),
        None => false,
    }
}

fn agent_name(p: &TaskPlan, task: &str) -> (r: String)
    ensures
        r@ == name_for(p@, task@),
{
    match &p.agent_name {
        Some(n) => {
            if !is_blank(n.as_str()) {
                return n.clone();
            }
        },
        None => {},
    }
    replace_char(slugify(task, 3).as_str(), '-', " ")
}

/// Start resolving a plan into a directory. `worktrees` is where the worktrees
/// of `repo` go, see [`worktrees_dir`]. Without a resolver, the step is the
/// outcome; with one, it is to be carried out and the answer handed to
/// [`Resolver::next`].
pub fn resolve_workspace(repo: &str, p: &TaskPlan, task: &str, worktrees: &str) -> (r: (
    Option<Resolver>,
    Step,
))
    ensures
        job_of(r.0) == first_move(repo@, p@, task@, worktrees@).0,
        r.1@ == first_move(repo@, p@, task@, worktrees@).1,
{
    let name: String = agent_name(p, task);
    if same_text(p.mode.as_str(), "base") {
        return (
            None,
            Step::Done(Workspace { workdir: owned(repo), branch: None, agent_name: name }),
        );
    }
    let existing: bool = same_text(p.mode.as_str(), "existing_branch");
    if !existing && !same_text(p.mode.as_str(), "new_branch") {
        let mut e: String = owned("unknown plan mode `");
        e.push_str(p.mode.as_str());
        e.push_str("`");
        return (None, Step::Fail(e));
    }
    let branch: String = match &p.branch {
        Some(b) if !is_blank(b.as_str()) => b.clone(),
        _ => {
            let mut e: String = owned("plan mode ");
            e.push_str(p.mode.as_str());
            e.push_str(" requires a branch");
            return (None, Step::Fail(e));
        },
    };
    let base: Option<String> = if says(&p.base_branch) {
        copy_opt_text(&p.base_branch)
    } else {
        None
    };
    let dir: String = join_path(worktrees, sanitize_for_path(branch.as_str()).as_str());
    (
        Some(
            Resolver {
                existing,
                branch,
                base,
                agent_name: name,
                parent: owned(worktrees),
                dir,
                stage: Stage::Listing,
            },
        ),
        Step::Git(worktree_list_args()),
    )
}

impl Resolver {
    fn done(&mut self, workdir: String) -> (r: Step)
        ensures
            final(self)@ == at_stage(old(self)@, Stage::Over),
            r@ == Move::Done(place_in(old(self)@, workdir@)),
    {
        self.stage = Stage::Over;
        Step::Done(
            Workspace {
                workdir,
                branch: Some(self.branch.clone()),
                agent_name: self.agent_name.clone(),
            },
        )
    }

    fn fail(&mut self, error: String) -> (r: Step)
        ensures
            final(self)@ == at_stage(old(self)@, Stage::Over),
            r@ == Move::Fail(error@),
    {
        self.stage = Stage::Over;
        Step::Fail(error)
    }

    fn verify(&mut self, base: Option<String>) -> (r: Step)
        ensures
            final(self)@ == verifying(old(self)@, text::opt_text(base)).0,
            r@ == verifying(old(self)@, text::opt_text(base)).1,
    {
        self.base = base;
        self.stage = Stage::Verifying;
        Step::Git(verify_branch_args(self.branch.as_str()))
    }

    /// Take in the answer to the last step and say what is next. A git command
    /// answers with its output or its failure, a directory that was created
    /// with anything, one that was not with the reason.
    pub fn next(&mut self, reply: &Reply) -> (r: Step)
        requires
            old(self).stage != Stage::Over,
        ensures
            final(self)@ == next_move(old(self)@, plan::text_result(*reply)).0,
            r@ == next_move(old(self)@, plan::text_result(*reply)).1,
    {
        match self.stage {
            Stage::Listing => match existing_worktree_for_branch(reply, self.branch.as_str()) {
                Some(path) => self.done(path),
                None => {
                    self.stage = Stage::Creating;
                    Step::CreateDir(self.parent.clone())
                },
            },
            Stage::Creating => match reply {
                Ok(_) => {
                    if self.existing || self.base.is_some() {
                        let base: Option<String> = copy_opt_text(&self.base);
                        self.verify(base)
                    } else {
                        self.stage = Stage::Head;
                        Step::Git(remote_head_args())
                    }
                },
                Err(e) => {
                    let e: String = e.clone();
                    self.fail(e)
                },
            },
            Stage::Head => match remote_head(reply) {
                Some(b) => self.verify(Some(b)),
                None => {
                    self.stage = Stage::Locals;
                    Step::Git(local_branches_args())
                },
            },
            Stage::Locals => match conventional_branch(reply) {
                Some(b) => self.verify(Some(b)),
                None => {
                    self.stage = Stage::Current;
                    Step::Git(current_branch_args())
                },
            },
            Stage::Current => {
                let base: String = current_branch(reply);
                self.verify(Some(base))
            },
            Stage::Verifying => {
                if reply.is_ok() {
                    self.stage = Stage::Adding;
                    Step::Git(
                        words4("worktree", "add", self.dir.as_str(), self.branch.as_str()),
                    )
                } else if self.existing {
                    self.stage = Stage::Remotes;
                    Step::Git(remote_branches_args())
                } else {
                    self.stage = Stage::Adding;
                    let base: String = match &self.base {
                        Some(b) => b.clone(),
                        None => String::new(),
                    };
                    proof {
                        if self.base is None {
                            assert(base@ =~= Seq::<char>::empty());
                        }
                    }
                    Step::Git(
                        words6(
                            "worktree",
                            "add",
                            "-b",
                            self.branch.as_str(),
                            self.dir.as_str(),
                            base.as_str(),
                        ),
                    )
                }
            },
            Stage::Remotes => match remote_ref_for_branch(reply, self.branch.as_str()) {
                Some(from) => {
                    self.stage = Stage::Adding;
                    Step::Git(
                        words6(
                            "worktree",
                            "add",
                            "-b",
                            self.branch.as_str(),
                            self.dir.as_str(),
                            from.as_str(),
                        ),
                    )
                },
                None => {
                    let mut e: String = owned("branch `");
                    e.push_str(self.branch.as_str());
                    e.push_str("` not found locally or on any remote");
                    self.fail(e)
                },
            },
            Stage::Adding => match reply {
                Ok(_) => {
                    let dir: String = self.dir.clone();
                    self.done(dir)
                },
                Err(e) => {
                    let e: String = e.clone();
                    self.fail(e)
                },
            },
            Stage::Over => {
                self.fail(String::new())
            },
        }
    }
}

// ---- What resolving comes to ----

/// What git answers to each command, and what creating the directory answers.
pub struct World {
    pub git: spec_fn(Seq<Seq<char>>) -> Result<Seq<char>, Seq<char>>,
    pub create: Result<Seq<char>, Seq<char>>,
}

/// What the world answers to a step.
pub open spec fn answered(world: World, step: Move) -> Result<Seq<char>, Seq<char>> {
    match step {
        Move::Git(args) => (world.git)(args),
        Move::CreateDir(_) => world.create,
        _ => Err(Seq::empty()),
    }
}

/// The outcome of following the steps in a world, at most `fuel` of them.
pub open spec fn followed(world: World, job: Job, step: Move, fuel: nat) -> Option<
    Result<Place, Seq<char>>,
>
    decreases fuel,
{
    match step {
        Move::Done(place) => Some(Ok(place)),
        Move::Fail(e) => Some(Err(e)),
        _ => if fuel == 0 {
            None
        } else {
            let next = next_move(job, answered(world, step));
            followed(world, next.0, next.1, (fuel - 1) as nat)
        },
    }
}

/// The branch that a new branch forks from: the plan's, or the default one.
pub open spec fn base_in(world: World, job: Job) -> Seq<char> {
    match job.base {
        Some(b) => b,
        None => git::default_of(
            (world.git)(git::head_query()),
            (world.git)(git::locals_query()),
            (world.git)(git::current_query()),
        ),
    }
}

/// The command that creates the worktree: a branch that is there is checked
/// out; a new one forks from its base, an expected one from where a remote has
/// it.
pub open spec fn creation(world: World, job: Job) -> Result<Seq<Seq<char>>, Seq<char>> {
    if (world.git)(git::branch_query(job.branch)) is Ok {
        Ok(add_existing(job.dir, job.branch))
    } else if job.existing {
        match git::remote_ref((world.git)(git::remotes_query()), job.branch) {
            Some(r) => Ok(add_new(job.dir, job.branch, r)),
            None => Err("branch `"@ + job.branch + "` not found locally or on any remote"@),
        }
    } else {
        Ok(add_new(job.dir, job.branch, base_in(world, job)))
    }
}

/// What a plan with a branch resolves to: the worktree that has the branch,
/// else a new one.
pub open spec fn settled(world: World, job: Job) -> Result<Place, Seq<char>> {
    match git::worktree_for((world.git)(git::worktrees_query()), job.branch) {
        Some(path) => Ok(place_in(job, path)),
        None => match world.create {
            Err(e) => Err(e),
            Ok(_) => match creation(world, job) {
                Err(e) => Err(e),
                Ok(args) => match (world.git)(args) {
                    Ok(_) => Ok(place_in(job, job.dir)),
                    Err(e) => Err(e),
                },
            },
        },
    }
}

/// Following the steps ends, after eight answers at most, with the worktree
/// that already has the branch, or with a new one, or with what went wrong.
pub proof fn steps_settle_the_workspace(
    world: World,
    repo: Seq<char>,
    p: plan::Plan,
    task: Seq<char>,
    worktrees: Seq<char>,
)
    requires
        first_move(repo, p, task, worktrees).0 is Some,
    ensures
        followed(
            world,
            first_move(repo, p, task, worktrees).0->0,
            first_move(repo, p, task, worktrees).1,
            8,
        ) == Some(settled(world, first_move(repo, p, task, worktrees).0->0)),
{
    reveal_with_fuel(followed, 9);
}

/// A plan without a branch of its own needs no steps: the base checkout is the
/// repository itself, and nothing is asked or changed.
pub proof fn base_plans_change_nothing(
    repo: Seq<char>,
    p: plan::Plan,
    task: Seq<char>,
    worktrees: Seq<char>,
)
    requires
        p.mode == "base"@,
    ensures
        first_move(repo, p, task, worktrees) == (
            None::<Job>,
            Move::Done(Place { workdir: repo, branch: None, agent_name: name_for(p, task) }),
        ),
{
}

/// What a plan with a branch resolves to is on that branch, under the name that
/// the plan gives or else one made of the task.
pub proof fn the_branch_and_the_name_are_the_plans(
    world: World,
    repo: Seq<char>,
    p: plan::Plan,
    task: Seq<char>,
    worktrees: Seq<char>,
)
    requires
        p.mode == "new_branch"@ || p.mode == "existing_branch"@,
        plan::said(p.branch),
    ensures
        first_move(repo, p, task, worktrees).0 matches Some(job) && (settled(world, job) matches Ok(
            place,
        ) ==> place.branch == p.branch && place.agent_name == name_for(p, task)),
{
    reveal_strlit("base");
    reveal_strlit("new_branch");
    reveal_strlit("existing_branch");
}

/// Whether git remembers a branch's worktree: the one that it listed it still
/// lists, and one that it added it lists from then on.
pub open spec fn remembers(before: World, after: World, job: Job) -> bool {
    let listed = (after.git)(git::worktrees_query());
    match git::worktree_for((before.git)(git::worktrees_query()), job.branch) {
        Some(path) => git::lists(listed, job.branch, path),
        None => match creation(before, job) {
            Ok(args) => (before.git)(args) is Ok ==> git::lists(listed, job.branch, job.dir),
            Err(_) => true,
        },
    }
}

/// One worktree per branch: where a plan has been resolved, and git remembers
/// the branch's worktree, resolving the plan again gives the same workspace. It
/// takes one answer, so nothing but the list is asked for and no worktree is
/// made.
pub proof fn resolving_again_changes_nothing(
    before: World,
    after: World,
    repo: Seq<char>,
    p: plan::Plan,
    task: Seq<char>,
    worktrees: Seq<char>,
    place: Place,
)
    requires
        first_move(repo, p, task, worktrees).0 matches Some(job) && settled(before, job) == Ok::<
            Place,
            Seq<char>,
        >(place) && remembers(before, after, job),
    ensures
        first_move(repo, p, task, worktrees).0 matches Some(job) && settled(after, job) == Ok::<
            Place,
            Seq<char>,
        >(place) && followed(after, job, first_move(repo, p, task, worktrees).1, 1) == Some(
            Ok::<Place, Seq<char>>(place),
        ),
{
    let first = first_move(repo, p, task, worktrees);
    if let Some(job) = first.0 {
        git::lemma_listed((after.git)(git::worktrees_query()), job.branch, place.workdir);
        reveal_with_fuel(followed, 2);
    }
}

/// Whether git keeps a worktree's directory to its branch: the list names it for
/// no other, and where it stands no other is added.
pub open spec fn keeps_to_its_branch(world: World, branch: Seq<char>, dir: Seq<char>) -> bool {
    forall|other: Seq<char>, from: Seq<char>|
        #![trigger add_new(dir, other, from)]
        other != branch ==> {
            &&& git::worktree_for((world.git)(git::worktrees_query()), other) != Some(dir)
            &&& (world.git)(add_existing(dir, other)) is Err
            &&& (world.git)(add_new(dir, other, from)) is Err
        }
}

/// A plan on another branch gets another worktree: once a plan has been
/// resolved, and as long as git keeps the directory to that plan's branch,
/// no plan on another branch is resolved to it. That two branches come to the
/// same directory name makes no difference.
pub proof fn another_branch_gets_another_worktree(
    before: World,
    after: World,
    repo: Seq<char>,
    worktrees: Seq<char>,
    p: plan::Plan,
    task: Seq<char>,
    place: Place,
    other: plan::Plan,
    other_task: Seq<char>,
    other_place: Place,
)
    requires
        first_move(repo, p, task, worktrees).0 matches Some(job) && first_move(
            repo,
            other,
            other_task,
            worktrees,
        ).0 matches Some(other_job) && job.branch != other_job.branch && settled(before, job)
            == Ok::<Place, Seq<char>>(place) && keeps_to_its_branch(
            after,
            job.branch,
            place.workdir,
        ) && settled(after, other_job) == Ok::<Place, Seq<char>>(other_place),
    ensures
        place.workdir != other_place.workdir,
{
    if let Some(job) = first_move(repo, other, other_task, worktrees).0 {
        let base = base_in(after, job);
        assert(add_new(place.workdir, job.branch, base).len() > 0);
        if let Some(r) = git::remote_ref((after.git)(git::remotes_query()), job.branch) {
            assert(add_new(place.workdir, job.branch, r).len() > 0);
        }
    }
}

/// Branches whose names differ as directory names get directories of their own.
pub proof fn branches_get_their_own_directories(
    worktrees: Seq<char>,
    one: Seq<char>,
    other: Seq<char>,
)
    requires
        command::path_safe(one) != command::path_safe(other),
    ensures
        paths::joined(worktrees, command::path_safe(one)) != paths::joined(
            worktrees,
            command::path_safe(other),
        ),
{
    let a = command::path_safe(one);
    let b = command::path_safe(other);
    let base = if worktrees.len() == 0 || worktrees.last() == '/' {
        worktrees
    } else {
        worktrees + seq!['/']
    };
    assert(paths::joined(worktrees, a) == base + a);
    assert(paths::joined(worktrees, b) == base + b);
    assert((base + a).skip(base.len() as int) =~= a);
    assert((base + b).skip(base.len() as int) =~= b);
}

/// Resolving the same plan again, once its worktree is there, gives the same
/// directory: there is one worktree per branch.
pub proof fn the_worktree_is_reused(world: World, job: Job, path: Seq<char>)
    requires
        git::worktree_for((world.git)(git::worktrees_query()), job.branch) == Some(path),
    ensures
        settled(world, job) == Ok::<Place, Seq<char>>(place_in(job, path)),
{
}

} // verus!
