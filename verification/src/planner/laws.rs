//! What planning and resolving come to, said of what goes in and what comes
//! out.

use vstd::prelude::*;

use crate::paths;
use crate::planner::command;
use crate::planner::git;
use crate::planner::plan;
use crate::planner::resolve;
use crate::state::records::WorkspaceMode;
use crate::text;

verus! {

/// Whether a text has a character that is not white space.
pub open spec fn says_something(s: Seq<char>) -> bool {
    exists|i: int| 0 <= i < s.len() && !text::white(#[trigger] s[i])
}

/// Whether an optional text is there and says something.
pub open spec fn gives(o: Option<Seq<char>>) -> bool {
    o matches Some(s) && says_something(s)
}

pub proof fn lemma_blank(s: Seq<char>)
    ensures
        text::blank(s) == !says_something(s),
{
    if says_something(s) {
        let i = choose|i: int| 0 <= i < s.len() && !text::white(#[trigger] s[i]);
        text::lemma_not_blank(s, i);
    }
    let (a, b) = text::lemma_trim_place(s);
    if a < b {
        assert(!text::white(s[a]));
    }
}

pub proof fn lemma_gives(o: Option<Seq<char>>)
    ensures
        plan::said(o) == gives(o),
{
    if let Some(s) = o {
        lemma_blank(s);
    }
}

// ---- Resolving a plan ----

/// What resolving a plan comes to in a world, step by step.
pub open spec fn resolved(
    world: resolve::World,
    repo: Seq<char>,
    p: plan::Plan,
    task: Seq<char>,
    worktrees: Seq<char>,
) -> Option<Result<resolve::Place, Seq<char>>> {
    match resolve::first_move(repo, p, task, worktrees) {
        (Some(job), step) => resolve::followed(world, job, step, 8),
        (None, resolve::Move::Done(place)) => Some(Ok(place)),
        (None, resolve::Move::Fail(e)) => Some(Err(e)),
        _ => None,
    }
}

pub proof fn lemma_resolved(
    world: resolve::World,
    repo: Seq<char>,
    p: plan::Plan,
    task: Seq<char>,
    worktrees: Seq<char>,
)
    ensures
        resolve::first_move(repo, p, task, worktrees).0 matches Some(job) ==> resolved(
            world,
            repo,
            p,
            task,
            worktrees,
        ) == Some(resolve::settled(world, job)),
        resolved(world, repo, p, task, worktrees) is Some,
{
    if resolve::first_move(repo, p, task, worktrees).0 is Some {
        resolve::steps_settle_the_workspace(world, repo, p, task, worktrees);
    }
}

/// An agent is called what its plan says, to the letter: whatever the mode, the
/// task and the answers, a name that is not blank is the workspace's.
pub proof fn a_planned_name_is_kept(
    world: resolve::World,
    repo: Seq<char>,
    p: plan::Plan,
    task: Seq<char>,
    worktrees: Seq<char>,
)
    requires
        gives(p.agent_name),
    ensures
        resolved(world, repo, p, task, worktrees) matches Some(Ok(place)) ==> Some(
            place.agent_name,
        ) == p.agent_name,
        p.mode == "base"@ ==> resolved(world, repo, p, task, worktrees) matches Some(Ok(_)),
{
    lemma_gives(p.agent_name);
    lemma_resolved(world, repo, p, task, worktrees);
}

/// Whether a word is made of lower case letters and digits only.
pub open spec fn plain_word(w: Seq<char>) -> bool {
    &&& w.len() > 0
    &&& forall|i: int|
        0 <= i < w.len() ==> 'a' <= (#[trigger] w[i]) && w[i] <= 'z' || '0' <= w[i] && w[i] <= '9'
}

/// The first `n` of some words, or all of them.
pub open spec fn at_most(words: Seq<Seq<char>>, n: nat) -> Seq<Seq<char>> {
    if words.len() > n {
        words.take(n as int)
    } else {
        words
    }
}

proof fn lemma_plain_slug_word(w: Seq<char>)
    requires
        forall|i: int|
            0 <= i < w.len() ==> 'a' <= (#[trigger] w[i]) && w[i] <= 'z' || '0' <= w[i] && w[i]
                <= '9',
    ensures
        command::slug_word(w) == w,
    decreases w.len(),
{
    if w.len() > 0 {
        let front = w.drop_last();
        assert forall|i: int| 0 <= i < front.len() implies 'a' <= (#[trigger] front[i]) && front[i]
            <= 'z' || '0' <= front[i] && front[i] <= '9' by {
            assert(front[i] == w[i]);
        }
        lemma_plain_slug_word(front);
        assert(w.last() == w[w.len() - 1]);
        assert(front.push(w.last()) =~= w);
    } else {
        assert(command::slug_word(w) =~= w);
    }
}

proof fn lemma_plain_slugs(words: Seq<Seq<char>>)
    requires
        forall|i: int| 0 <= i < words.len() ==> plain_word(#[trigger] words[i]),
    ensures
        command::slug_words(words) == words,
    decreases words.len(),
{
    if words.len() > 0 {
        let front = words.drop_last();
        assert forall|i: int| 0 <= i < front.len() implies plain_word(#[trigger] front[i]) by {
            assert(front[i] == words[i]);
        }
        lemma_plain_slugs(front);
        assert(plain_word(words[words.len() - 1]));
        lemma_plain_slug_word(words.last());
        assert(front.push(words.last()) =~= words);
    } else {
        assert(command::slug_words(words) =~= words);
    }
}

proof fn lemma_replaced_add(a: Seq<char>, b: Seq<char>, x: char, with: Seq<char>)
    ensures
        text::replaced(a + b, x, with) == text::replaced(a, x, with) + text::replaced(b, x, with),
    decreases b.len(),
{
    if b.len() == 0 {
        assert(a + b =~= a);
        assert(text::replaced(a, x, with) + text::replaced(b, x, with) =~= text::replaced(
            a,
            x,
            with,
        ));
    } else {
        assert((a + b).drop_last() =~= a + b.drop_last());
        lemma_replaced_add(a, b.drop_last(), x, with);
        assert((a + b).last() == b.last());
        assert(text::replaced(a + b, x, with) =~= text::replaced(a, x, with) + text::replaced(
            b,
            x,
            with,
        ));
    }
}

proof fn lemma_replaced_none(s: Seq<char>, x: char, with: Seq<char>)
    requires
        forall|i: int| 0 <= i < s.len() ==> #[trigger] s[i] != x,
    ensures
        text::replaced(s, x, with) == s,
    decreases s.len(),
{
    if s.len() > 0 {
        let front = s.drop_last();
        assert forall|i: int| 0 <= i < front.len() implies #[trigger] front[i] != x by {
            assert(front[i] == s[i]);
        }
        lemma_replaced_none(front, x, with);
        assert(s.last() == s[s.len() - 1]);
        assert(text::replaced(s, x, with) =~= s);
    } else {
        assert(text::replaced(s, x, with) =~= s);
    }
}

proof fn lemma_dashes_to_spaces(words: Seq<Seq<char>>)
    requires
        words.len() > 0,
        forall|i: int| 0 <= i < words.len() ==> plain_word(#[trigger] words[i]),
    ensures
        text::replaced(text::join_of(words, "-"@), '-', " "@) == text::join_of(words, " "@),
    decreases words.len(),
{
    reveal_strlit("-");
    reveal_strlit(" ");
    let last = words.last();
    assert(plain_word(words[words.len() - 1]));
    assert forall|i: int| 0 <= i < last.len() implies #[trigger] last[i] != '-' by {}
    lemma_replaced_none(last, '-', " "@);
    if words.len() > 1 {
        let front = words.drop_last();
        assert forall|i: int| 0 <= i < front.len() implies plain_word(#[trigger] front[i]) by {
            assert(front[i] == words[i]);
        }
        lemma_dashes_to_spaces(front);
        let head = text::join_of(front, "-"@);
        assert("-"@ =~= seq!['-']);
        lemma_replaced_add(head + "-"@, last, '-', " "@);
        lemma_replaced_add(head, "-"@, '-', " "@);
        assert(text::replaced("-"@, '-', " "@) =~= " "@) by {
            assert("-"@.drop_last() =~= Seq::<char>::empty());
            reveal_with_fuel(text::replaced, 3);
        }
    }
}

/// Without a name in the plan, an agent is called after the first three words
/// of its task: where those are plain, by them, with single spaces between.
pub proof fn unnamed_agents_are_called_after_the_task(
    world: resolve::World,
    repo: Seq<char>,
    p: plan::Plan,
    task: Seq<char>,
    worktrees: Seq<char>,
)
    requires
        !gives(p.agent_name),
        text::words_of(task).len() > 0,
        forall|i: int|
            0 <= i < at_most(text::words_of(task), 3).len() ==> plain_word(
                #[trigger] at_most(text::words_of(task), 3)[i],
            ),
    ensures
        resolved(world, repo, p, task, worktrees) matches Some(Ok(place)) ==> place.agent_name
            == text::join_of(at_most(text::words_of(task), 3), " "@),
{
    lemma_gives(p.agent_name);
    lemma_resolved(world, repo, p, task, worktrees);
    let words = at_most(text::words_of(task), 3);
    assert(words == command::first_words(text::words_of(task), 3));
    lemma_plain_slugs(words);
    lemma_dashes_to_spaces(words);
}

/// A blank name is no name: the plan resolves as if it gave none.
pub proof fn a_blank_name_is_none(
    world: resolve::World,
    repo: Seq<char>,
    p: plan::Plan,
    task: Seq<char>,
    worktrees: Seq<char>,
)
    requires
        !gives(p.agent_name),
    ensures
        resolved(world, repo, p, task, worktrees) == resolved(
            world,
            repo,
            plan::Plan { agent_name: None, ..p },
            task,
            worktrees,
        ),
{
    lemma_gives(p.agent_name);
}

/// A plan on the base checkout is the repository itself, on no branch of its
/// own, and nothing is asked of git.
pub proof fn base_plans_use_the_repository(
    world: resolve::World,
    repo: Seq<char>,
    p: plan::Plan,
    task: Seq<char>,
    worktrees: Seq<char>,
)
    requires
        p.mode == "base"@,
    ensures
        resolved(world, repo, p, task, worktrees) matches Some(Ok(place)) && place.workdir == repo
            && place.branch is None,
        resolve::first_move(repo, p, task, worktrees).0 is None,
{
}

/// A plan with a branch ends on that branch, if at all: in the worktree that
/// git lists for it, or else in a directory of its own below `worktrees`, whose
/// name is the branch's with everything but letters, digits, dashes and
/// underscores turned into dashes.
pub proof fn branch_plans_end_on_the_branch(
    world: resolve::World,
    repo: Seq<char>,
    p: plan::Plan,
    task: Seq<char>,
    worktrees: Seq<char>,
)
    requires
        p.mode == "new_branch"@ || p.mode == "existing_branch"@,
        gives(p.branch),
    ensures
        resolved(world, repo, p, task, worktrees) matches Some(Ok(place)) ==> {
            &&& place.branch == p.branch
            &&& match git::worktree_for(
                (world.git)(seq!["worktree"@, "list"@, "--porcelain"@]),
                p.branch->0,
            ) {
                Some(path) => place.workdir == path,
                None => is_below(place.workdir, worktrees, p.branch->0),
            }
        },
        git::worktree_for(
            (world.git)(seq!["worktree"@, "list"@, "--porcelain"@]),
            p.branch->0,
        ) is Some ==> resolved(world, repo, p, task, worktrees) matches Some(Ok(_)),
{
    lemma_gives(p.branch);
    reveal_strlit("base");
    reveal_strlit("new_branch");
    reveal_strlit("existing_branch");
    lemma_resolved(world, repo, p, task, worktrees);
    lemma_below(worktrees, p.branch->0);
}

/// Whether a directory stands in `parent` under the name that a branch gives.
pub open spec fn is_below(dir: Seq<char>, parent: Seq<char>, branch: Seq<char>) -> bool {
    exists|name: Seq<char>|
        {
            &&& #[trigger] dir_name(branch, name)
            &&& dir == (if parent.len() == 0 || parent.last() == '/' {
                parent + name
            } else {
                parent + seq!['/'] + name
            })
        }
}

/// Whether a name is a branch's with everything but letters, digits, dashes and
/// underscores turned into dashes.
pub open spec fn dir_name(branch: Seq<char>, name: Seq<char>) -> bool {
    &&& name.len() == branch.len()
    &&& forall|i: int|
        0 <= i < branch.len() ==> (if 'a' <= branch[i] && branch[i] <= 'z' || 'A' <= branch[i]
            && branch[i] <= 'Z' || '0' <= branch[i] && branch[i] <= '9' || branch[i] == '-'
            || branch[i] == '_' {
            #[trigger] name[i] == branch[i]
        } else {
            name[i] == '-'
        })
}

pub proof fn lemma_below(worktrees: Seq<char>, branch: Seq<char>)
    ensures
        is_below(paths::joined(worktrees, command::path_safe(branch)), worktrees, branch),
{
    let name = command::path_safe(branch);
    assert(dir_name(branch, name));
    let base = if worktrees.len() == 0 || worktrees.last() == '/' {
        worktrees
    } else {
        worktrees + seq!['/']
    };
    command::path_safe_stays_put(branch);
    if name.len() > 0 && name[0] == '/' {
        assert(name.contains('/'));
    }
    assert(paths::joined(worktrees, name) =~= base + name);
}

// ---- The user's choice of workspace ----

/// Forcing a new worktree decides where the agent works and nothing else: the
/// planner's base branch and the agent's name stay, a branch that was named
/// stays, and a mode that has a worktree already stays.
pub proof fn a_forced_worktree_keeps_the_plan(p: plan::Plan, task: Seq<char>)
    ensures
        plan::plan_under(p, WorkspaceMode::NewWorktree, task).base_branch == p.base_branch,
        plan::plan_under(p, WorkspaceMode::NewWorktree, task).agent_name == p.agent_name,
        gives(p.branch) ==> plan::plan_under(p, WorkspaceMode::NewWorktree, task).branch
            == p.branch,
        p.mode != "base"@ ==> plan::plan_under(p, WorkspaceMode::NewWorktree, task).mode == p.mode,
        p.mode == "base"@ ==> plan::plan_under(p, WorkspaceMode::NewWorktree, task).mode
            == "new_branch"@,
{
    lemma_gives(p.branch);
}

/// A worktree that is forced on a plan without a branch gets one of the app's
/// own, named after the agent, or after the task where the agent has no name.
pub proof fn a_forced_branch_is_named_after_the_work(p: plan::Plan, task: Seq<char>)
    requires
        !gives(p.branch),
    ensures
        plan::plan_under(p, WorkspaceMode::NewWorktree, task).branch matches Some(b) && b
            == "harmonium/"@ + command::slug_of(
            if gives(p.agent_name) {
                p.agent_name->0
            } else {
                task
            },
            4,
        ),
{
    lemma_gives(p.branch);
    lemma_gives(p.agent_name);
}

/// Leaving the choice to the task changes nothing of the plan, and choosing the
/// main checkout takes its branches away and keeps its name.
pub proof fn the_other_choices(p: plan::Plan, task: Seq<char>)
    ensures
        plan::plan_under(p, WorkspaceMode::Auto, task) == p,
        plan::plan_under(p, WorkspaceMode::MainBranch, task) == (plan::Plan {
            mode: "base"@,
            branch: None,
            base_branch: None,
            agent_name: p.agent_name,
        }),
{
}

/// Where a choice has been applied, applying it again changes nothing.
pub proof fn a_choice_is_applied_once(p: plan::Plan, mode: WorkspaceMode, task: Seq<char>)
    ensures
        plan::plan_under(plan::plan_under(p, mode, task), mode, task) == plan::plan_under(
            p,
            mode,
            task,
        ),
{
    plan::forced_worktrees_have_a_branch(p, task);
}

} // verus!
