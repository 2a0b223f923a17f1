//! What git is asked about a repository, and how its answers are read.

use vstd::prelude::*;
use vstd::string::*;

use crate::planner::plan;
use crate::text;
use crate::text::{
    contains, join, lines, owned, push_text, same_text, split_once, strip_prefix, trim,
};

verus! {

/// An answer of git: what it wrote, or why it failed.
pub type Reply = Result<String, String>;

fn words1(a: &str) -> (r: Vec<String>)
    ensures
        text::texts(r@) == seq![a@],
{
    let mut r: Vec<String> = Vec::new();
    push_text(&mut r, a);
    assert(text::texts(r@) =~= seq![a@]);
    r
}

/// Two words.
pub fn words2(a: &str, b: &str) -> (r: Vec<String>)
    ensures
        text::texts(r@) == seq![a@, b@],
{
    let mut r: Vec<String> = words1(a);
    push_text(&mut r, b);
    assert(text::texts(r@) =~= seq![a@, b@]);
    r
}

/// Three words.
pub fn words3(a: &str, b: &str, c: &str) -> (r: Vec<String>)
    ensures
        text::texts(r@) == seq![a@, b@, c@],
{
    let mut r: Vec<String> = words2(a, b);
    push_text(&mut r, c);
    assert(text::texts(r@) =~= seq![a@, b@, c@]);
    r
}

/// Four words.
pub fn words4(a: &str, b: &str, c: &str, d: &str) -> (r: Vec<String>)
    ensures
        text::texts(r@) == seq![a@, b@, c@, d@],
{
    let mut r: Vec<String> = words3(a, b, c);
    push_text(&mut r, d);
    assert(text::texts(r@) =~= seq![a@, b@, c@, d@]);
    r
}

/// Six words.
pub fn words6(a: &str, b: &str, c: &str, d: &str, e: &str, f: &str) -> (r: Vec<String>)
    ensures
        text::texts(r@) == seq![a@, b@, c@, d@, e@, f@],
{
    let mut r: Vec<String> = words4(a, b, c, d);
    push_text(&mut r, e);
    push_text(&mut r, f);
    assert(text::texts(r@) =~= seq![a@, b@, c@, d@, e@, f@]);
    r
}

/// The answer of a git that ran: its output, or the command and what it wrote
/// to standard error.
pub open spec fn answer(
    args: Seq<Seq<char>>,
    success: bool,
    stdout: Seq<char>,
    stderr: Seq<char>,
) -> Result<Seq<char>, Seq<char>> {
    if success {
        Ok(stdout)
    } else {
        Err("git "@ + text::join_of(args, " "@) + " failed: "@ + text::trim_of(stderr))
    }
}

/// The answer of a git that ran with `args`.
pub fn git_answer(args: &Vec<String>, success: bool, stdout: String, stderr: &str) -> (r: Reply)
    ensures
        plan::text_result(r) == answer(text::texts(args@), success, stdout@, stderr@),
{
    if success {
        Ok(stdout)
    } else {
        let mut e: String = owned("git ");
        e.push_str(join(args, " ").as_str());
        e.push_str(" failed: ");
        e.push_str(trim(stderr).as_str());
        Err(e)
    }
}

// ---- Questions ----

/// Asks whether there is a repository.
pub fn git_dir_args() -> (r: Vec<String>)
    ensures
        text::texts(r@) == seq!["rev-parse"@, "--git-dir"@],
{
    words2("rev-parse", "--git-dir")
}

/// Asks for the local branches.
pub open spec fn locals_query() -> Seq<Seq<char>> {
    seq!["branch"@, "--format=%(refname:short)"@]
}

/// Asks for the local branches.
pub fn local_branches_args() -> (r: Vec<String>)
    ensures
        text::texts(r@) == locals_query(),
{
    words2("branch", "--format=%(refname:short)")
}

/// Asks for the remote branches.
pub open spec fn remotes_query() -> Seq<Seq<char>> {
    seq!["branch"@, "-r"@, "--format=%(refname:short)"@]
}

/// Asks for the remote branches.
pub fn remote_branches_args() -> (r: Vec<String>)
    ensures
        text::texts(r@) == remotes_query(),
{
    words3("branch", "-r", "--format=%(refname:short)")
}

/// Asks which branch the remote has checked out.
pub open spec fn head_query() -> Seq<Seq<char>> {
    seq!["symbolic-ref"@, "refs/remotes/origin/HEAD"@]
}

/// Asks which branch the remote has checked out.
pub fn remote_head_args() -> (r: Vec<String>)
    ensures
        text::texts(r@) == head_query(),
{
    words2("symbolic-ref", "refs/remotes/origin/HEAD")
}

/// Asks which branch is checked out.
pub open spec fn current_query() -> Seq<Seq<char>> {
    seq!["rev-parse"@, "--abbrev-ref"@, "HEAD"@]
}

/// Asks which branch is checked out.
pub fn current_branch_args() -> (r: Vec<String>)
    ensures
        text::texts(r@) == current_query(),
{
    words3("rev-parse", "--abbrev-ref", "HEAD")
}

/// Asks for the worktrees.
pub open spec fn worktrees_query() -> Seq<Seq<char>> {
    seq!["worktree"@, "list"@, "--porcelain"@]
}

/// Asks for the worktrees.
pub fn worktree_list_args() -> (r: Vec<String>)
    ensures
        text::texts(r@) == worktrees_query(),
{
    words3("worktree", "list", "--porcelain")
}

/// Asks for uncommitted work.
pub fn status_args() -> (r: Vec<String>)
    ensures
        text::texts(r@) == seq!["status"@, "--porcelain"@],
{
    words2("status", "--porcelain")
}

/// Asks whether there is a local branch.
pub open spec fn branch_query(branch: Seq<char>) -> Seq<Seq<char>> {
    seq!["rev-parse"@, "--verify"@, "refs/heads/"@ + branch]
}

/// Asks whether there is a local branch.
pub fn verify_branch_args(branch: &str) -> (r: Vec<String>)
    ensures
        text::texts(r@) == branch_query(branch@),
{
    let mut name: String = owned("refs/heads/");
    name.push_str(branch);
    words3("rev-parse", "--verify", name.as_str())
}

/// Deletes a worktree: its directory and the metadata kept for it. The branch
/// is left alone, and nothing is forced.
pub open spec fn removal(workdir: Seq<char>) -> Seq<Seq<char>> {
    seq!["worktree"@, "remove"@, workdir]
}

/// Deletes the worktree at `workdir`. The branch is left alone: its commits
/// are what the work actually is, and they stay reachable.
pub fn remove_worktree_args(workdir: &str) -> (r: Vec<String>)
    ensures
        text::texts(r@) == removal(workdir@),
{
    words3("worktree", "remove", workdir)
}

// ---- Answers ----

/// Whether there is a repository, by the answer to [`git_dir_args`].
pub fn is_git_repo(reply: &Reply) -> (r: bool)
    ensures
        r == (*reply is Ok),
{
    reply.is_ok()
}

/// The lines of a text, each without the blanks around it.
pub open spec fn trimmed_lines(s: Seq<char>) -> Seq<Seq<char>> {
    text::lines_of(s).map_values(|l: Seq<char>| text::trim_of(l))
}

/// The branches in an answer: none where git failed.
pub open spec fn branches_in(reply: Result<Seq<char>, Seq<char>>) -> Seq<Seq<char>> {
    match reply {
        Ok(s) => trimmed_lines(s),
        Err(_) => Seq::empty(),
    }
}

/// The local branches, by the answer to [`local_branches_args`].
pub fn local_branches(reply: &Reply) -> (r: Vec<String>)
    ensures
        text::texts(r@) == branches_in(plan::text_result(*reply)),
{
    match reply {
        Ok(s) => trim_lines(s.as_str()),
        Err(_) => {
            let r: Vec<String> = Vec::new();
            assert(text::texts(r@) =~= Seq::<Seq<char>>::empty());
            r
        },
    }
}

fn trim_lines(s: &str) -> (r: Vec<String>)
    ensures
        text::texts(r@) == trimmed_lines(s@),
{
    let all: Vec<String> = lines(s);
    let mut r: Vec<String> = Vec::new();
    let mut i: usize = 0;
    while i < all.len()
        invariant
            i <= all@.len(),
            text::texts(all@) == text::lines_of(s@),
            text::texts(r@) == trimmed_lines(s@).take(i as int),
        decreases all@.len() - i,
    {
        let ghost before = text::texts(r@);
        let line: String = trim(all[i].as_str());
        proof {
            assert(text::texts(all@)[i as int] == all@[i as int]@);
        }
        r.push(line);
        assert(text::texts(r@) =~= before.push(line@));
        i += 1;
    }
    assert(text::texts(all@).len() == all@.len());
    assert(trimmed_lines(s@).take(all@.len() as int) =~= trimmed_lines(s@));
    r
}

/// Some branches without those that mention `HEAD`.
pub open spec fn without_head(list: Seq<Seq<char>>) -> Seq<Seq<char>>
    decreases list.len(),
{
    if list.len() == 0 {
        Seq::empty()
    } else if text::has(list.last(), "HEAD"@) {
        without_head(list.drop_last())
    } else {
        without_head(list.drop_last()).push(list.last())
    }
}

/// The remote branches, by the answer to [`remote_branches_args`].
pub fn remote_branches(reply: &Reply) -> (r: Vec<String>)
    ensures
        text::texts(r@) == without_head(branches_in(plan::text_result(*reply))),
{
    let all: Vec<String> = local_branches(reply);
    let ghost names = text::texts(all@);
    let mut r: Vec<String> = Vec::new();
    let mut i: usize = 0;
    assert(text::texts(r@) =~= without_head(names.take(0)));
    while i < all.len()
        invariant
            i <= all@.len(),
            names == text::texts(all@),
            text::texts(r@) == without_head(names.take(i as int)),
        decreases all@.len() - i,
    {
        let ghost before = text::texts(r@);
        proof {
            assert(names.take(i + 1).drop_last() =~= names.take(i as int));
            assert(names.take(i + 1).last() == all@[i as int]@);
        }
        if !contains(all[i].as_str(), "HEAD") {
            r.push(all[i].clone());
            assert(text::texts(r@) =~= before.push(all@[i as int]@));
        }
        i += 1;
    }
    assert(names.take(all@.len() as int) =~= names);
    r
}

/// The branch that the remote's HEAD names, if its answer names one.
pub open spec fn head_branch(reply: Result<Seq<char>, Seq<char>>) -> Option<Seq<char>> {
    match reply {
        Ok(head) => text::after_prefix(text::trim_of(head), "refs/remotes/origin/"@),
        Err(_) => None,
    }
}

/// A conventional default branch among some.
pub open spec fn conventional(locals: Seq<Seq<char>>) -> Option<Seq<char>> {
    if locals.contains("main"@) {
        Some("main"@)
    } else if locals.contains("master"@) {
        Some("master"@)
    } else {
        None
    }
}

/// The branch that an answer names, or `main` where git failed.
pub open spec fn current_or_main(reply: Result<Seq<char>, Seq<char>>) -> Seq<char> {
    match reply {
        Ok(s) => text::trim_of(s),
        Err(_) => "main"@,
    }
}

/// The repository's default branch: what the remote has checked out, else a
/// conventional name that exists, else what is checked out here.
pub open spec fn default_of(
    head: Result<Seq<char>, Seq<char>>,
    locals: Result<Seq<char>, Seq<char>>,
    current: Result<Seq<char>, Seq<char>>,
) -> Seq<char> {
    if head_branch(head) is Some {
        head_branch(head)->0
    } else if conventional(branches_in(locals)) is Some {
        conventional(branches_in(locals))->0
    } else {
        current_or_main(current)
    }
}

fn holds_text(list: &Vec<String>, wanted: &str) -> (r: bool)
    ensures
        r == text::texts(list@).contains(wanted@),
{
    let mut i: usize = 0;
    let ghost all = text::texts(list@);
    while i < list.len()
        invariant
            i <= list@.len(),
            all == text::texts(list@),
            forall|j: int| 0 <= j < i ==> all[j] != wanted@,
        decreases list@.len() - i,
    {
        assert(all[i as int] == list@[i as int]@);
        if same_text(list[i].as_str(), wanted) {
            return true;
        }
        i += 1;
    }
    false
}

/// The branch that the remote's HEAD names, by the answer to
/// [`remote_head_args`].
pub fn remote_head(reply: &Reply) -> (r: Option<String>)
    ensures
        text::opt_text(r) == head_branch(plan::text_result(*reply)),
{
    match reply {
        Ok(head) => strip_prefix(trim(head.as_str()).as_str(), "refs/remotes/origin/"),
        Err(_) => None,
    }
}

/// A conventional default branch among the local ones, by the answer to
/// [`local_branches_args`].
pub fn conventional_branch(reply: &Reply) -> (r: Option<String>)
    ensures
        text::opt_text(r) == conventional(branches_in(plan::text_result(*reply))),
{
    let locals: Vec<String> = local_branches(reply);
    if holds_text(&locals, "main") {
        Some(owned("main"))
    } else if holds_text(&locals, "master") {
        Some(owned("master"))
    } else {
        None
    }
}

/// The branch that is checked out, by the answer to [`current_branch_args`].
pub fn current_branch(reply: &Reply) -> (r: String)
    ensures
        r@ == current_or_main(plan::text_result(*reply)),
{
    match reply {
        Ok(s) => trim(s.as_str()),
        Err(_) => owned("main"),
    }
}

/// The repository's default branch, by the answers to [`remote_head_args`],
/// [`local_branches_args`] and [`current_branch_args`].
pub fn default_branch(head: &Reply, locals: &Reply, current: &Reply) -> (r: String)
    ensures
        r@ == default_of(
            plan::text_result(*head),
            plan::text_result(*locals),
            plan::text_result(*current),
        ),
{
    if let Some(name) = remote_head(head) {
        return name;
    }
    if let Some(name) = conventional_branch(locals) {
        return name;
    }
    current_branch(current)
}

/// The open pull requests in an answer, if there are any.
pub open spec fn pull_requests(reply: Option<Seq<char>>) -> Option<Seq<char>> {
    match reply {
        Some(s) => {
            let t = text::trim_of(s);
            if t.len() == 0 || t == "[]"@ {
                None
            } else {
                Some(t)
            }
        },
        None => None,
    }
}

/// Open pull requests as JSON, best effort: `reply` is what the `gh` CLI
/// wrote, or `None` if it is missing, there is no remote, or the call fails.
pub fn open_prs(reply: &Option<String>) -> (r: Option<String>)
    ensures
        text::opt_text(r) == pull_requests(text::opt_text(*reply)),
{
    match reply {
        Some(s) => {
            let t: String = trim(s.as_str());
            if t.as_str().is_empty() || same_text(t.as_str(), "[]") {
                None
            } else {
                Some(t)
            }
        },
        None => None,
    }
}

/// The branch that a line of git's list of worktrees names: `branch` lines
/// give the full or the short name.
pub open spec fn listed_branch(line: Seq<char>) -> Option<Seq<char>> {
    match text::after_prefix(line, "branch "@) {
        Some(b) => match text::after_prefix(b, "refs/heads/"@) {
            Some(short) => Some(short),
            None => Some(b),
        },
        None => None,
    }
}

/// The worktree that has a branch checked out, looking from line `i` on, where
/// `current` is the worktree that the lines are about.
pub open spec fn worktree_from(
    lines: Seq<Seq<char>>,
    i: int,
    current: Option<Seq<char>>,
    branch: Seq<char>,
) -> Option<Seq<char>>
    decreases lines.len() - i,
{
    if i < 0 || i >= lines.len() {
        None
    } else {
        match text::after_prefix(lines[i], "worktree "@) {
            Some(path) => worktree_from(lines, i + 1, Some(path), branch),
            None => if listed_branch(lines[i]) == Some(branch) {
                current
            } else {
                worktree_from(lines, i + 1, current, branch)
            },
        }
    }
}

/// The worktree that has a branch checked out, by git's list.
pub open spec fn worktree_for(
    reply: Result<Seq<char>, Seq<char>>,
    branch: Seq<char>,
) -> Option<Seq<char>> {
    match reply {
        Ok(s) => worktree_from(text::lines_of(s), 0, None, branch),
        Err(_) => None,
    }
}

/// Whether git's list has a worktree with a branch checked out, and no other
/// with that branch before it: a line with the worktree's path, and behind it,
/// with no other worktree between, one with the branch.
pub open spec fn lists(
    reply: Result<Seq<char>, Seq<char>>,
    branch: Seq<char>,
    path: Seq<char>,
) -> bool {
    reply matches Ok(s) && exists|i: int, j: int|
        #![trigger text::lines_of(s)[i], text::lines_of(s)[j]]
        {
            let lines = text::lines_of(s);
            &&& 0 <= i < j < lines.len()
            &&& lines[i] == "worktree "@ + path
            &&& lines[j] == "branch refs/heads/"@ + branch
            &&& forall|k: int|
                i < k < j ==> text::after_prefix(#[trigger] lines[k], "worktree "@) is None
            &&& forall|k: int| 0 <= k < j ==> listed_branch(#[trigger] lines[k]) != Some(branch)
        }
}

proof fn lemma_reaches(
    lines: Seq<Seq<char>>,
    k: int,
    current: Option<Seq<char>>,
    branch: Seq<char>,
    path: Seq<char>,
    i: int,
    j: int,
)
    requires
        0 <= k <= j < lines.len(),
        0 <= i < j,
        i < k ==> current == Some(path),
        text::after_prefix(lines[i], "worktree "@) == Some(path),
        text::after_prefix(lines[j], "worktree "@) is None,
        listed_branch(lines[j]) == Some(branch),
        forall|m: int| i < m < j ==> text::after_prefix(#[trigger] lines[m], "worktree "@) is None,
        forall|m: int| 0 <= m < j ==> listed_branch(#[trigger] lines[m]) != Some(branch),
    ensures
        worktree_from(lines, k, current, branch) == Some(path),
    decreases j - k,
{
    if k < j {
        let next = match text::after_prefix(lines[k], "worktree "@) {
            Some(p) => Some(p),
            None => current,
        };
        lemma_reaches(lines, k + 1, next, branch, path, i, j);
    }
}

/// A worktree that git lists with a branch is the one that is found for it.
pub proof fn lemma_listed(
    reply: Result<Seq<char>, Seq<char>>,
    branch: Seq<char>,
    path: Seq<char>,
)
    requires
        lists(reply, branch, path),
    ensures
        worktree_for(reply, branch) == Some(path),
{
    if let Ok(s) = reply {
        let lines = text::lines_of(s);
        let (i, j) = choose|i: int, j: int|
            #![trigger lines[i], lines[j]]
            {
                &&& 0 <= i < j < lines.len()
                &&& lines[i] == "worktree "@ + path
                &&& lines[j] == "branch refs/heads/"@ + branch
                &&& forall|k: int|
                    i < k < j ==> text::after_prefix(#[trigger] lines[k], "worktree "@) is None
                &&& forall|k: int|
                    0 <= k < j ==> listed_branch(#[trigger] lines[k]) != Some(branch)
            };
        reveal_strlit("worktree ");
        reveal_strlit("branch ");
        reveal_strlit("refs/heads/");
        reveal_strlit("branch refs/heads/");
        assert(lines[i].subrange(0, "worktree "@.len() as int) =~= "worktree "@);
        assert(lines[i].skip("worktree "@.len() as int) =~= path);
        assert(lines[j].subrange(0, "branch "@.len() as int) =~= "branch "@);
        assert(lines[j][0] == 'b');
        assert(lines[j].subrange(0, "worktree "@.len() as int)[0] == 'b');
        let name = lines[j].skip("branch "@.len() as int);
        assert(name =~= "refs/heads/"@ + branch);
        assert(name.subrange(0, "refs/heads/"@.len() as int) =~= "refs/heads/"@);
        assert(name.skip("refs/heads/"@.len() as int) =~= branch);
        lemma_reaches(lines, 0, None, branch, path, i, j);
    }
}

/// Find an existing worktree that has `branch` checked out, by the answer to
/// [`worktree_list_args`]. Git enforces one worktree per branch, so if one
/// exists it must be reused.
pub fn existing_worktree_for_branch(reply: &Reply, branch: &str) -> (r: Option<String>)
    ensures
        text::opt_text(r) == worktree_for(plan::text_result(*reply), branch@),
{
    let out: &String = match reply {
        Ok(s) => s,
        Err(_) => {
            return None;
        },
    };
    let all: Vec<String> = lines(out.as_str());
    let ghost names = text::texts(all@);
    let mut current: Option<String> = None;
    let mut i: usize = 0;
    while i < all.len()
        invariant
            i <= all@.len(),
            names == text::texts(all@),
            names == text::lines_of(out@),
            *reply == Reply::Ok(*out),
            worktree_from(names, i as int, text::opt_text(current), branch@) == worktree_for(
                plan::text_result(*reply),
                branch@,
            ),
        decreases all@.len() - i,
    {
        assert(names[i as int] == all@[i as int]@);
        let line: &str = all[i].as_str();
        match strip_prefix(line, "worktree ") {
            Some(path) => {
                current = Some(path);
            },
            None => {
                if let Some(b) = strip_prefix(line, "branch ") {
                    let short: String = match strip_prefix(b.as_str(), "refs/heads/") {
                        Some(s) => s,
                        None => b,
                    };
                    if same_text(short.as_str(), branch) {
                        return current;
                    }
                }
            },
        }
        i += 1;
    }
    None
}

/// Whether an answer reports uncommitted work, or git's failure.
pub open spec fn dirty(reply: Result<Seq<char>, Seq<char>>) -> Result<bool, Seq<char>> {
    match reply {
        Ok(s) => Ok(!text::blank(s)),
        Err(e) => Err(e),
    }
}

/// Whether a directory has uncommitted work, by the answer to
/// [`status_args`]: staged, modified or untracked files. Ignored files don't
/// count. This is the same question git asks before it refuses to remove a
/// worktree, asked early so the refusal can be explained.
pub fn is_dirty(reply: &Reply) -> (r: Result<bool, String>)
    ensures
        match r {
            Ok(b) => dirty(plan::text_result(*reply)) == Ok::<bool, Seq<char>>(b),
            Err(e) => dirty(plan::text_result(*reply)) == Err::<bool, Seq<char>>(e@),
        },
{
    match reply {
        Ok(s) => Ok(!trim(s.as_str()).as_str().is_empty()),
        Err(e) => Err(e.clone()),
    }
}

/// Whether a worktree was removed, by the answer to [`remove_worktree_args`].
pub fn remove_worktree(reply: &Reply) -> (r: Result<(), String>)
    ensures
        match r {
            Ok(_) => *reply is Ok,
            Err(e) => plan::text_result(*reply) == Err::<Seq<char>, Seq<char>>(e@),
        },
{
    match reply {
        Ok(_) => Ok(()),
        Err(e) => Err(e.clone()),
    }
}

/// The first remote branch that carries a name behind its remote's.
pub open spec fn remote_from(remotes: Seq<Seq<char>>, i: int, branch: Seq<char>) -> Option<
    Seq<char>,
>
    decreases remotes.len() - i,
{
    if i < 0 || i >= remotes.len() {
        None
    } else if text::around(remotes[i], '/') matches Some((_, b)) && b == branch {
        Some(remotes[i])
    } else {
        remote_from(remotes, i + 1, branch)
    }
}

/// The first remote branch that carries a name, by git's list.
pub open spec fn remote_ref(
    reply: Result<Seq<char>, Seq<char>>,
    branch: Seq<char>,
) -> Option<Seq<char>> {
    remote_from(without_head(branches_in(reply)), 0, branch)
}

/// The remote branch called `branch`, whichever remote it is on, by the answer
/// to [`remote_branches_args`].
pub fn remote_ref_for_branch(reply: &Reply, branch: &str) -> (r: Option<String>)
    ensures
        text::opt_text(r) == remote_ref(plan::text_result(*reply), branch@),
{
    let remotes: Vec<String> = remote_branches(reply);
    let ghost names = text::texts(remotes@);
    let mut i: usize = 0;
    while i < remotes.len()
        invariant
            i <= remotes@.len(),
            names == text::texts(remotes@),
            names == without_head(branches_in(plan::text_result(*reply))),
            remote_from(names, i as int, branch@) == remote_ref(
                plan::text_result(*reply),
                branch@,
            ),
        decreases remotes@.len() - i,
    {
        assert(names[i as int] == remotes@[i as int]@);
        if let Some((_, b)) = split_once(remotes[i].as_str(), '/') {
            if same_text(b.as_str(), branch) {
                return Some(remotes[i].clone());
            }
        }
        i += 1;
    }
    None
}

} // verus!
