//! What git is asked while a plan is resolved, and how its answers are read,
//! said of the plan and of the answers.

use vstd::prelude::*;

use crate::paths;
use crate::planner::command;
use crate::planner::git;
use crate::planner::laws;
use crate::planner::plan;
use crate::planner::resolve;
use crate::text;
use crate::text_laws;

verus! {

// ---- What is asked ----

/// The steps that are carried out in a world, in order, at most `fuel` of them.
pub open spec fn asked(
    world: resolve::World,
    job: resolve::Job,
    step: resolve::Move,
    fuel: nat,
) -> Seq<resolve::Move>
    decreases fuel,
{
    match step {
        resolve::Move::Done(_) => Seq::empty(),
        resolve::Move::Fail(_) => Seq::empty(),
        _ => if fuel == 0 {
            Seq::empty()
        } else {
            let next = resolve::next_move(job, resolve::answered(world, step));
            seq![step] + asked(world, next.0, next.1, (fuel - 1) as nat)
        },
    }
}

/// What is asked while a plan is resolved.
pub open spec fn all_asked(
    world: resolve::World,
    repo: Seq<char>,
    p: plan::Plan,
    task: Seq<char>,
    worktrees: Seq<char>,
) -> Seq<resolve::Move> {
    match resolve::first_move(repo, p, task, worktrees) {
        (Some(job), step) => asked(world, job, step, 8),
        (None, _) => Seq::empty(),
    }
}

/// Asks git for its worktrees.
pub open spec fn list_step() -> resolve::Move {
    resolve::Move::Git(seq!["worktree"@, "list"@, "--porcelain"@])
}

/// What git answers when it is asked for its worktrees.
pub open spec fn listing(world: resolve::World) -> Result<Seq<char>, Seq<char>> {
    (world.git)(seq!["worktree"@, "list"@, "--porcelain"@])
}

/// Asks git whether there is a branch.
pub open spec fn verify_query(branch: Seq<char>) -> Seq<Seq<char>> {
    seq!["rev-parse"@, "--verify"@, "refs/heads/"@ + branch]
}

/// A branch that has a worktree is left as it is: the list is asked for, and
/// that is all.
pub proof fn a_listed_branch_is_only_looked_up(
    world: resolve::World,
    repo: Seq<char>,
    p: plan::Plan,
    task: Seq<char>,
    worktrees: Seq<char>,
)
    requires
        p.mode == "new_branch"@ || p.mode == "existing_branch"@,
        laws::gives(p.branch),
        git::worktree_for(listing(world), p.branch->0) is Some,
    ensures
        all_asked(world, repo, p, task, worktrees) == seq![list_step()],
{
    laws::lemma_gives(p.branch);
    reveal_strlit("base");
    reveal_strlit("new_branch");
    reveal_strlit("existing_branch");
    reveal_with_fuel(asked, 3);
    assert(all_asked(world, repo, p, task, worktrees) =~= seq![list_step()]);
}

/// A worktree on a branch that is there checks it out as it is, whether the
/// plan took the branch to be new or not.
pub proof fn a_branch_that_is_there_is_checked_out(
    world: resolve::World,
    repo: Seq<char>,
    p: plan::Plan,
    task: Seq<char>,
    worktrees: Seq<char>,
)
    requires
        p.mode == "new_branch"@ || p.mode == "existing_branch"@,
        laws::gives(p.branch),
        p.mode == "existing_branch"@ || laws::gives(p.base_branch),
        git::worktree_for(listing(world), p.branch->0) is None,
        world.create is Ok,
        (world.git)(verify_query(p.branch->0)) is Ok,
    ensures
        exists|dir: Seq<char>|
            #[trigger] laws::is_below(dir, worktrees, p.branch->0) && all_asked(
                world,
                repo,
                p,
                task,
                worktrees,
            ) == seq![
                list_step(),
                resolve::Move::CreateDir(worktrees),
                resolve::Move::Git(verify_query(p.branch->0)),
                resolve::Move::Git(seq!["worktree"@, "add"@, dir, p.branch->0]),
            ],
{
    laws::lemma_gives(p.branch);
    laws::lemma_gives(p.base_branch);
    reveal_strlit("base");
    reveal_strlit("new_branch");
    reveal_strlit("existing_branch");
    reveal_with_fuel(asked, 6);
    let dir = paths::joined(worktrees, command::path_safe(p.branch->0));
    laws::lemma_below(worktrees, p.branch->0);
    assert(all_asked(world, repo, p, task, worktrees) =~= seq![
        list_step(),
        resolve::Move::CreateDir(worktrees),
        resolve::Move::Git(verify_query(p.branch->0)),
        resolve::Move::Git(seq!["worktree"@, "add"@, dir, p.branch->0]),
    ]);
}

/// A new branch forks from the base branch that the plan names.
pub proof fn a_new_branch_forks_from_the_plans_base(
    world: resolve::World,
    repo: Seq<char>,
    p: plan::Plan,
    task: Seq<char>,
    worktrees: Seq<char>,
)
    requires
        p.mode == "new_branch"@,
        laws::gives(p.branch),
        laws::gives(p.base_branch),
        git::worktree_for(listing(world), p.branch->0) is None,
        world.create is Ok,
        (world.git)(verify_query(p.branch->0)) is Err,
    ensures
        exists|dir: Seq<char>|
            #[trigger] laws::is_below(dir, worktrees, p.branch->0) && all_asked(
                world,
                repo,
                p,
                task,
                worktrees,
            ) == seq![
                list_step(),
                resolve::Move::CreateDir(worktrees),
                resolve::Move::Git(verify_query(p.branch->0)),
                resolve::Move::Git(
                    seq!["worktree"@, "add"@, "-b"@, p.branch->0, dir, p.base_branch->0],
                ),
            ],
{
    laws::lemma_gives(p.branch);
    laws::lemma_gives(p.base_branch);
    reveal_strlit("base");
    reveal_strlit("new_branch");
    reveal_strlit("existing_branch");
    assert("new_branch"@.len() != "existing_branch"@.len());
    reveal_with_fuel(asked, 6);
    let dir = paths::joined(worktrees, command::path_safe(p.branch->0));
    laws::lemma_below(worktrees, p.branch->0);
    assert(all_asked(world, repo, p, task, worktrees) =~= seq![
        list_step(),
        resolve::Move::CreateDir(worktrees),
        resolve::Move::Git(verify_query(p.branch->0)),
        resolve::Move::Git(seq!["worktree"@, "add"@, "-b"@, p.branch->0, dir, p.base_branch->0]),
    ]);
}

/// Without a base branch in the plan, a new branch forks from what the remote
/// has checked out; else from `main` or `master`, where there is one; else from
/// what is checked out here.
pub proof fn a_new_branch_forks_from_the_default(
    world: resolve::World,
    repo: Seq<char>,
    p: plan::Plan,
    task: Seq<char>,
    worktrees: Seq<char>,
)
    requires
        p.mode == "new_branch"@,
        laws::gives(p.branch),
        !laws::gives(p.base_branch),
        git::worktree_for(listing(world), p.branch->0) is None,
        world.create is Ok,
        (world.git)(verify_query(p.branch->0)) is Err,
    ensures
        ({
            let head = (world.git)(seq!["symbolic-ref"@, "refs/remotes/origin/HEAD"@]);
            let locals = (world.git)(seq!["branch"@, "--format=%(refname:short)"@]);
            let current = (world.git)(seq!["rev-parse"@, "--abbrev-ref"@, "HEAD"@]);
            exists|dir: Seq<char>|
                #[trigger] laws::is_below(dir, worktrees, p.branch->0) && all_asked(
                    world,
                    repo,
                    p,
                    task,
                    worktrees,
                ).last() == resolve::Move::Git(
                    seq![
                        "worktree"@,
                        "add"@,
                        "-b"@,
                        p.branch->0,
                        dir,
                        git::default_of(head, locals, current),
                    ],
                )
        }),
{
    laws::lemma_gives(p.branch);
    laws::lemma_gives(p.base_branch);
    reveal_strlit("base");
    reveal_strlit("new_branch");
    reveal_strlit("existing_branch");
    assert("new_branch"@.len() != "existing_branch"@.len());
    let dir = paths::joined(worktrees, command::path_safe(p.branch->0));
    laws::lemma_below(worktrees, p.branch->0);
    let job = resolve::first_move(repo, p, task, worktrees).0->0;
    let first = resolve::first_move(repo, p, task, worktrees).1;
    let head = (world.git)(git::head_query());
    let locals = (world.git)(git::locals_query());
    let current = (world.git)(git::current_query());
    let base = git::default_of(head, locals, current);
    let s1 = resolve::next_move(job, resolve::answered(world, first));
    let s2 = resolve::next_move(s1.0, resolve::answered(world, s1.1));
    let s3 = resolve::next_move(s2.0, resolve::answered(world, s2.1));
    assert(s2.1 == resolve::Move::Git(git::head_query()));
    lemma_asked_step(world, job, first, 8);
    lemma_asked_step(world, s1.0, s1.1, 7);
    lemma_asked_step(world, s2.0, s2.1, 6);
    if git::head_branch(head) is Some {
        lemma_last_two(world, s3.0, s3.1, 5, base, dir);
    } else {
        let s4 = resolve::next_move(s3.0, resolve::answered(world, s3.1));
        lemma_asked_step(world, s3.0, s3.1, 5);
        if git::conventional(git::branches_in(locals)) is Some {
            lemma_last_two(world, s4.0, s4.1, 4, base, dir);
        } else {
            let s5 = resolve::next_move(s4.0, resolve::answered(world, s4.1));
            lemma_asked_step(world, s4.0, s4.1, 4);
            lemma_last_two(world, s5.0, s5.1, 3, base, dir);
        }
    }
}

proof fn lemma_asked_step(
    world: resolve::World,
    job: resolve::Job,
    step: resolve::Move,
    fuel: nat,
)
    requires
        fuel > 0,
        !(step is Done),
        !(step is Fail),
    ensures
        ({
            let next = resolve::next_move(job, resolve::answered(world, step));
            let rest = asked(world, next.0, next.1, (fuel - 1) as nat);
            &&& asked(world, job, step, fuel) == seq![step] + rest
            &&& rest.len() > 0 ==> asked(world, job, step, fuel).last() == rest.last()
            &&& rest.len() == 0 ==> asked(world, job, step, fuel).last() == step
            &&& asked(world, job, step, fuel).len() > 0
        }),
{
}

proof fn lemma_last_two(
    world: resolve::World,
    job: resolve::Job,
    step: resolve::Move,
    fuel: nat,
    base: Seq<char>,
    dir: Seq<char>,
)
    requires
        fuel >= 3,
        job.stage == resolve::Stage::Verifying,
        job.base == Some(base),
        job.dir == dir,
        !job.existing,
        step == resolve::Move::Git(verify_query(job.branch)),
        (world.git)(verify_query(job.branch)) is Err,
    ensures
        asked(world, job, step, fuel).len() > 0,
        asked(world, job, step, fuel).last() == resolve::Move::Git(
            seq!["worktree"@, "add"@, "-b"@, job.branch, dir, base],
        ),
{
    lemma_asked_step(world, job, step, fuel);
    let next = resolve::next_move(job, resolve::answered(world, step));
    lemma_asked_step(world, next.0, next.1, (fuel - 1) as nat);
    let last = resolve::next_move(next.0, resolve::answered(world, next.1));
    assert(last.1 is Done || last.1 is Fail);
    assert(asked(world, last.0, last.1, (fuel - 2) as nat) =~= Seq::<resolve::Move>::empty());
}

/// A branch that is only on a remote is tracked from there; one that is nowhere
/// is an error that names it, and nothing is added.
pub proof fn a_remote_branch_is_tracked(
    world: resolve::World,
    repo: Seq<char>,
    p: plan::Plan,
    task: Seq<char>,
    worktrees: Seq<char>,
)
    requires
        p.mode == "existing_branch"@,
        laws::gives(p.branch),
        git::worktree_for(listing(world), p.branch->0) is None,
        world.create is Ok,
        (world.git)(verify_query(p.branch->0)) is Err,
    ensures
        ({
            let remotes = (world.git)(seq!["branch"@, "-r"@, "--format=%(refname:short)"@]);
            let steps = all_asked(world, repo, p, task, worktrees);
            match git::remote_ref(remotes, p.branch->0) {
                Some(r) => exists|dir: Seq<char>|
                    #[trigger] laws::is_below(dir, worktrees, p.branch->0) && steps.last()
                        == resolve::Move::Git(
                        seq!["worktree"@, "add"@, "-b"@, p.branch->0, dir, r],
                    ),
                None => steps.last() == resolve::Move::Git(
                    seq!["branch"@, "-r"@, "--format=%(refname:short)"@],
                ) && (laws::resolved(world, repo, p, task, worktrees) matches Some(Err(e))
                    && text::has(e, p.branch->0)),
            }
        }),
{
    laws::lemma_gives(p.branch);
    reveal_strlit("base");
    reveal_strlit("new_branch");
    reveal_strlit("existing_branch");
    assert("base"@.len() != "existing_branch"@.len());
    let dir = paths::joined(worktrees, command::path_safe(p.branch->0));
    laws::lemma_below(worktrees, p.branch->0);
    laws::lemma_resolved(world, repo, p, task, worktrees);
    let branch = p.branch->0;
    let job = resolve::first_move(repo, p, task, worktrees).0->0;
    let first = resolve::first_move(repo, p, task, worktrees).1;
    let s1 = resolve::next_move(job, resolve::answered(world, first));
    let s2 = resolve::next_move(s1.0, resolve::answered(world, s1.1));
    let s3 = resolve::next_move(s2.0, resolve::answered(world, s2.1));
    let s4 = resolve::next_move(s3.0, resolve::answered(world, s3.1));
    lemma_asked_step(world, job, first, 8);
    lemma_asked_step(world, s1.0, s1.1, 7);
    lemma_asked_step(world, s2.0, s2.1, 6);
    lemma_asked_step(world, s3.0, s3.1, 5);
    if git::remote_ref((world.git)(git::remotes_query()), branch) is Some {
        lemma_asked_step(world, s4.0, s4.1, 4);
        let s5 = resolve::next_move(s4.0, resolve::answered(world, s4.1));
        assert(asked(world, s5.0, s5.1, 3) =~= Seq::<resolve::Move>::empty());
    } else {
        assert(asked(world, s4.0, s4.1, 4) =~= Seq::<resolve::Move>::empty());
        let e = "branch `"@ + branch + "` not found locally or on any remote"@;
        let at = "branch `"@.len() as int;
        assert(e.subrange(at, at + branch.len()) =~= branch);
        assert(text::at(e, branch, at));
    }
}

/// A plan that cannot be resolved says why: a mode that there is none of, or a
/// branch that is missing, is an error that names the mode.
pub proof fn impossible_plans_are_refused(
    world: resolve::World,
    repo: Seq<char>,
    p: plan::Plan,
    task: Seq<char>,
    worktrees: Seq<char>,
)
    requires
        p.mode != "base"@,
        p.mode != "new_branch"@ && p.mode != "existing_branch"@ || !laws::gives(p.branch),
    ensures
        laws::resolved(world, repo, p, task, worktrees) matches Some(Err(e)) && text::has(
            e,
            p.mode,
        ),
        all_asked(world, repo, p, task, worktrees).len() == 0,
{
    laws::lemma_gives(p.branch);
    let a = "plan mode "@;
    let b = "unknown plan mode `"@;
    let one = a + p.mode + " requires a branch"@;
    let other = b + p.mode + "`"@;
    assert(one.subrange(a.len() as int, (a.len() + p.mode.len()) as int) =~= p.mode);
    assert(text::at(one, p.mode, a.len() as int));
    assert(other.subrange(b.len() as int, (b.len() + p.mode.len()) as int) =~= p.mode);
    assert(text::at(other, p.mode, b.len() as int));
}

// ---- How answers are read ----

/// Whether a text can be the name of a branch: a word.
pub open spec fn branch_name(b: Seq<char>) -> bool {
    text::is_word(b)
}

/// The default branch is the one that the remote's HEAD names; without an
/// answer, `main` before `master` where there is one; and else the branch that
/// is checked out.
pub proof fn the_default_branch(
    name: Seq<char>,
    locals: Result<Seq<char>, Seq<char>>,
    current: Result<Seq<char>, Seq<char>>,
    failed: Seq<char>,
)
    requires
        branch_name(name),
    ensures
        git::default_of(
            Ok("refs/remotes/origin/"@ + name + seq!['\n']),
            locals,
            current,
        ) == name,
        git::branches_in(locals).contains("main"@) ==> git::default_of(
            Err(failed),
            locals,
            current,
        ) == "main"@,
        !git::branches_in(locals).contains("main"@) && git::branches_in(locals).contains(
            "master"@,
        ) ==> git::default_of(Err(failed), locals, current) == "master"@,
        !git::branches_in(locals).contains("main"@) && !git::branches_in(locals).contains(
            "master"@,
        ) ==> git::default_of(Err(failed), locals, Ok(name + seq!['\n'])) == name,
{
    let prefix = "refs/remotes/origin/"@;
    reveal_strlit("refs/remotes/origin/");
    let full = prefix + name;
    let none = Seq::<char>::empty();
    assert(full[0] == 'r');
    assert(full.last() == name.last());
    assert(!text::white(name[name.len() - 1]));
    assert(!text::white(name[0]));
    text_laws::trimming_takes_the_ends(none, full, seq!['\n']);
    assert(none + full + seq!['\n'] =~= prefix + name + seq!['\n']);
    assert(full.subrange(0, prefix.len() as int) =~= prefix);
    assert(full.skip(prefix.len() as int) =~= name);
    text_laws::trimming_takes_the_ends(none, name, seq!['\n']);
    assert(none + name + seq!['\n'] =~= name + seq!['\n']);
}

/// Branches that git lists, one to a line, are read as they are.
pub proof fn listed_branches_are_read(names: Seq<Seq<char>>, failed: Seq<char>)
    requires
        forall|i: int| 0 <= i < names.len() ==> branch_name(#[trigger] names[i]),
    ensures
        git::branches_in(Ok(text_laws::ended(names))) == names,
        git::branches_in(Err(failed)).len() == 0,
{
    assert forall|i: int| 0 <= i < names.len() implies text_laws::one_line(
        #[trigger] names[i],
    ) by {
        let n = names[i];
        assert(branch_name(n));
        assert forall|k: int| 0 <= k < n.len() implies #[trigger] n[k] != '\n' by {
            assert(!text::white(n[k]));
        }
        if n.len() > 0 {
            assert(!text::white(n[n.len() - 1]));
        }
    }
    text_laws::lines_survive_writing(names);
    let trimmed = names.map_values(|l: Seq<char>| text::trim_of(l));
    assert forall|i: int| 0 <= i < names.len() implies trimmed[i] == names[i] by {
        assert(branch_name(names[i]));
        assert(!text::white(names[i][0]) && !text::white(names[i][names[i].len() - 1]));
        text::lemma_trimmed(names[i]);
    }
    assert(trimmed =~= names);
}

proof fn lemma_without_head(list: Seq<Seq<char>>)
    ensures
        git::without_head(list) == list.filter(|b: Seq<char>| !text::has(b, "HEAD"@)),
    decreases list.len(),
{
    reveal(Seq::filter);
    if list.len() > 0 {
        lemma_without_head(list.drop_last());
    }
    assert(git::without_head(list) =~= list.filter(|b: Seq<char>| !text::has(b, "HEAD"@)));
}

proof fn lemma_remote_from(remotes: Seq<Seq<char>>, i: int, branch: Seq<char>)
    requires
        0 <= i,
    ensures
        match git::remote_from(remotes, i, branch) {
            Some(r) => exists|k: int|
                i <= k < remotes.len() && #[trigger] remotes[k] == r && (text::around(r, '/')
                    matches Some((_, b)) && b == branch),
            None => forall|k: int|
                i <= k < remotes.len() ==> !(text::around(#[trigger] remotes[k], '/') matches Some(
                    (_, b),
                ) && b == branch),
        },
    decreases remotes.len() - i,
{
    if i < remotes.len() {
        lemma_remote_from(remotes, i + 1, branch);
    }
}

/// A branch is found on a remote where git lists it behind that remote's name,
/// and only there: what the remote has checked out is no branch of its own.
pub proof fn remote_branches_are_found(names: Seq<Seq<char>>, branch: Seq<char>, k: int)
    requires
        forall|i: int| 0 <= i < names.len() ==> branch_name(#[trigger] names[i]),
    ensures
        git::remote_ref(Ok(text_laws::ended(names)), branch) matches Some(r) ==> names.contains(r)
            && !text::has(r, "HEAD"@) && text::ends(r, seq!['/'] + branch),
        0 <= k < names.len() && !text::has(names[k], "HEAD"@) && (text::around(names[k], '/')
            matches Some((_, b)) && b == branch) ==> git::remote_ref(
            Ok(text_laws::ended(names)),
            branch,
        ) is Some,
{
    listed_branches_are_read(names, Seq::empty());
    lemma_without_head(names);
    let keep = |b: Seq<char>| !text::has(b, "HEAD"@);
    let kept = names.filter(keep);
    lemma_remote_from(kept, 0, branch);
    broadcast use vstd::seq_lib::group_filter_ensures;

    if let Some(r) = git::remote_ref(Ok(text_laws::ended(names)), branch) {
        let j = choose|j: int|
            0 <= j < kept.len() && #[trigger] kept[j] == r && (text::around(r, '/') matches Some(
                (_, b),
            ) && b == branch);
        assert(keep(kept[j]));
        lemma_filter_from(names, keep, j);
        let at = text::first_from(r, 0, text::only('/'));
        text::lemma_first_from(r, 0, text::only('/'));
        assert(r.subrange(at, r.len() as int) =~= seq!['/'] + branch);
        assert(text::at(r, seq!['/'] + branch, at));
    }
    if 0 <= k < names.len() && !text::has(names[k], "HEAD"@) {
        assert(keep(names[k]));
        assert(kept.contains(names[k]));
    }
}

proof fn lemma_filter_from(s: Seq<Seq<char>>, keep: spec_fn(Seq<char>) -> bool, j: int)
    requires
        0 <= j < s.filter(keep).len(),
    ensures
        s.contains(s.filter(keep)[j]),
    decreases s.len(),
{
    reveal(Seq::filter);
    if s.len() > 0 {
        let front = s.drop_last();
        if j < front.filter(keep).len() {
            lemma_filter_from(front, keep, j);
            let i = choose|i: int| 0 <= i < front.len() && front[i] == front.filter(keep)[j];
            assert(s[i] == front[i]);
        } else {
            assert(s[s.len() - 1] == s.filter(keep)[j]);
        }
    }
}

/// The worktree that is found for a branch is one that git's list names.
pub proof fn found_worktrees_are_listed(s: Seq<char>, branch: Seq<char>)
    ensures
        git::worktree_for(Ok(s), branch) matches Some(path) ==> exists|i: int|
            0 <= i < text::lines_of(s).len() && #[trigger] text::lines_of(s)[i] == "worktree "@
                + path,
        git::worktree_for(Err(s), branch) is None,
{
    lemma_listed_from(text::lines_of(s), 0, None, branch);
}

proof fn lemma_listed_from(
    lines: Seq<Seq<char>>,
    i: int,
    current: Option<Seq<char>>,
    branch: Seq<char>,
)
    requires
        0 <= i,
        current matches Some(path) ==> exists|k: int|
            0 <= k < lines.len() && #[trigger] lines[k] == "worktree "@ + path,
    ensures
        git::worktree_from(lines, i, current, branch) matches Some(path) ==> exists|k: int|
            0 <= k < lines.len() && #[trigger] lines[k] == "worktree "@ + path,
    decreases lines.len() - i,
{
    if i < lines.len() {
        match text::after_prefix(lines[i], "worktree "@) {
            Some(path) => {
                let p = "worktree "@;
                assert(lines[i] =~= p + path) by {
                    assert(lines[i].subrange(0, p.len() as int) == p);
                    assert(lines[i] =~= lines[i].subrange(0, p.len() as int) + lines[i].skip(
                        p.len() as int,
                    ));
                }
                lemma_listed_from(lines, i + 1, Some(path), branch);
            },
            None => {
                lemma_listed_from(lines, i + 1, current, branch);
            },
        }
    }
}

/// Uncommitted work is whatever git reports: any character that is not white
/// space. A failure is no answer.
pub proof fn any_report_is_uncommitted_work(s: Seq<char>)
    ensures
        git::dirty(Ok(s)) == Ok::<bool, Seq<char>>(laws::says_something(s)),
        git::dirty(Err(s)) == Err::<bool, Seq<char>>(s),
{
    laws::lemma_blank(s);
}

/// A failing git is reported with what was asked and what it wrote; one that
/// ran is taken at its word.
pub proof fn failures_of_git_are_told(
    args: Seq<Seq<char>>,
    stdout: Seq<char>,
    stderr: Seq<char>,
)
    ensures
        git::answer(args, true, stdout, stderr) == Ok::<Seq<char>, Seq<char>>(stdout),
        git::answer(args, false, stdout, stderr) matches Err(e) && text::has(
            e,
            text::join_of(args, " "@),
        ) && text::ends(e, text::trim_of(stderr)),
{
    let a = "git "@;
    let b = text::join_of(args, " "@);
    let c = " failed: "@;
    let d = text::trim_of(stderr);
    let e = a + b + c + d;
    assert(e.subrange(a.len() as int, (a.len() + b.len()) as int) =~= b);
    assert(text::at(e, b, a.len() as int));
    assert(e.subrange(e.len() - d.len(), e.len() as int) =~= d);
}

/// Open pull requests are passed on as they are; an empty list, or nothing at
/// all, is none.
pub proof fn no_pull_requests_are_none(s: Seq<char>)
    ensures
        git::pull_requests(None) is None,
        text::trim_of(s) == "[]"@ ==> git::pull_requests(Some(s)) is None,
        !laws::says_something(s) ==> git::pull_requests(Some(s)) is None,
        laws::says_something(s) && text::trim_of(s) != "[]"@ ==> git::pull_requests(Some(s))
            == Some(text::trim_of(s)),
{
    laws::lemma_blank(s);
}

/// What deletes a worktree deletes nothing else and forces nothing.
pub proof fn removals_are_not_forced(workdir: Seq<char>)
    ensures
        git::removal(workdir) == seq!["worktree"@, "remove"@, workdir],
{
}

} // verus!
