//! Where the session lives on disk, and when it may be written.

use vstd::prelude::*;
use vstd::string::*;

use crate::paths;
use crate::paths::{join_path, with_file_name};
use crate::text;
use crate::text::{contains, decimal, index_of_char, owned, slice_text, to_chars};

verus! {

// ---- Directories ----

/// Root directory for the app's own data: the directory set for it, then the
/// one a test is kept to, then the data directories of the user.
pub open spec fn data_dir_of(
    data_dir: Option<Seq<char>>,
    test_dir: Option<Seq<char>>,
    xdg: Option<Seq<char>>,
    home: Option<Seq<char>>,
) -> Seq<char> {
    if data_dir is Some {
        data_dir->0
    } else if test_dir is Some {
        test_dir->0
    } else if xdg is Some {
        paths::joined(xdg->0, "harmonium"@)
    } else if home is Some {
        paths::joined(home->0, ".local/share/harmonium"@)
    } else {
        ".harmonium"@
    }
}

/// Root directory for the app's own data (state file, managed worktrees), from
/// the values of `HARMONIUM_DATA_DIR`, `XDG_DATA_HOME` and `HOME`. `test_dir`
/// is set in tests only: a test must never end up on the directory that a real
/// session runs out of.
pub fn data_dir(
    chosen: &Option<String>,
    test_dir: &Option<String>,
    xdg: &Option<String>,
    home: &Option<String>,
) -> (r: String)
    ensures
        r@ == data_dir_of(
            text::opt_text(*chosen),
            text::opt_text(*test_dir),
            text::opt_text(*xdg),
            text::opt_text(*home),
        ),
{
    if let Some(dir) = chosen {
        return dir.clone();
    }
    if let Some(dir) = test_dir {
        return dir.clone();
    }
    if let Some(x) = xdg {
        return join_path(x.as_str(), "harmonium");
    }
    if let Some(h) = home {
        return join_path(h.as_str(), ".local/share/harmonium");
    }
    owned(".harmonium")
}

/// A test stays where it was told to, whatever the user's own directories are.
pub proof fn tests_stay_off_the_users_data(
    test_dir: Seq<char>,
    xdg: Option<Seq<char>>,
    home: Option<Seq<char>>,
)
    ensures
        data_dir_of(None, Some(test_dir), xdg, home) == test_dir,
{
}

/// Directory where per-terminal scrollback history files are stored.
pub fn history_dir(data_dir: &str) -> (r: String)
    ensures
        r@ == paths::joined(data_dir@, "history"@),
{
    join_path(data_dir, "history")
}

/// The path of a terminal's saved scrollback.
pub open spec fn history_path_of(data_dir: Seq<char>, id: Seq<char>) -> Seq<char> {
    paths::joined(paths::joined(data_dir, "history"@), id + ".txt"@)
}

/// File path for a terminal tab's saved scrollback history.
pub fn terminal_history_path(data_dir: &str, terminal_id: &str) -> (r: String)
    ensures
        r@ == history_path_of(data_dir@, terminal_id@),
{
    let mut name: String = owned(terminal_id);
    name.push_str(".txt");
    join_path(history_dir(data_dir).as_str(), name.as_str())
}

/// The session file.
pub fn state_file(data_dir: &str) -> (r: String)
    ensures
        r@ == paths::joined(data_dir@, "state.json"@),
{
    join_path(data_dir, "state.json")
}

// ---- Programs ----

/// The directories of a search path from index `i` on, apart from empty ones.
pub open spec fn search_dirs(path: Seq<char>, i: int) -> Seq<Seq<char>>
    decreases path.len() - i,
{
    if i < 0 || i >= path.len() {
        Seq::empty()
    } else {
        let e = text::first_from(path, i, text::only(':'));
        proof {
            text::lemma_first_from(path, i, text::only(':'));
        }
        let rest = if e >= path.len() {
            Seq::empty()
        } else {
            search_dirs(path, e + 1)
        };
        if e == i {
            rest
        } else {
            seq![path.subrange(i, e)] + rest
        }
    }
}

/// The files that running `program` could mean: a name is looked up in the
/// search path, anything with a slash is taken as a path.
pub open spec fn candidates(program: Seq<char>, path: Option<Seq<char>>) -> Seq<Seq<char>> {
    if program.len() == 0 {
        Seq::empty()
    } else if text::has(program, "/"@) {
        seq![program]
    } else if path is None {
        Seq::empty()
    } else {
        search_dirs(path->0, 0).map_values(|dir: Seq<char>| paths::joined(dir, program))
    }
}

/// The files that running `program` could mean, in the order they are tried.
/// Agent commands are run directly, without a shell, so `~` in them is never
/// expanded. `path` is the value of `PATH`.
pub fn program_candidates(program: &str, path: &Option<String>) -> (r: Vec<String>)
    ensures
        text::texts(r@) == candidates(program@, text::opt_text(*path)),
{
    let mut r: Vec<String> = Vec::new();
    assert(text::texts(r@) =~= Seq::<Seq<char>>::empty());
    if program.is_empty() {
        return r;
    }
    if contains(program, "/") {
        r.push(owned(program));
        assert(text::texts(r@) =~= seq![program@]);
        return r;
    }
    let p: &String = match path {
        Some(p) => p,
        None => {
            return r;
        },
    };
    let v: Vec<char> = to_chars(p.as_str());
    let n: usize = v.len();
    let ghost below = |dir: Seq<char>| paths::joined(dir, program@);
    let ghost all = search_dirs(p@, 0).map_values(below);
    let mut i: usize = 0;
    let mut done: bool = n == 0;
    assert(n == 0 ==> all =~= Seq::<Seq<char>>::empty());
    assert(Seq::<Seq<char>>::empty() + all =~= all);
    while !done
        invariant
            v@ == p@,
            n == v@.len(),
            !done ==> i < n,
            below == (|dir: Seq<char>| paths::joined(dir, program@)),
            all == search_dirs(p@, 0).map_values(below),
            done ==> text::texts(r@) == all,
            !done ==> text::texts(r@) + search_dirs(p@, i as int).map_values(below) == all,
        decreases n - i + (if done {
            0int
        } else {
            1
        }),
    {
        let e: usize = index_of_char(&v, i, ':');
        let ghost before = text::texts(r@);
        let ghost rest = if e >= n {
            Seq::<Seq<char>>::empty()
        } else {
            search_dirs(p@, e + 1)
        };
        if e > i {
            let dir: String = slice_text(&v, i, e);
            assert(dir@ =~= p@.subrange(i as int, e as int));
            let full: String = join_path(dir.as_str(), program);
            r.push(full);
            proof {
                assert(text::texts(r@) =~= before.push(full@));
                assert((seq![dir@] + rest).map_values(below) =~= seq![full@] + rest.map_values(
                    below,
                ));
                assert(text::texts(r@) + rest.map_values(below) =~= before + (seq![full@]
                    + rest.map_values(below)));
            }
        }
        assert(text::texts(r@) + rest.map_values(below) == all);
        if e >= n || e + 1 == n {
            assert(rest.map_values(below) =~= Seq::<Seq<char>>::empty());
            assert(text::texts(r@) =~= all);
            done = true;
        } else {
            i = e + 1;
        }
    }
    r
}

/// Whether a file of this kind and mode can be run.
pub fn executable(is_file: bool, mode: u32) -> (r: bool)
    ensures
        r == (is_file && mode & 0o111 != 0),
{
    is_file && mode & 0o111 != 0
}

// ---- The session file ----

/// Name of the copy a save is parked in when the state file turns out to have
/// been written by something else. It sits next to the state file so both
/// halves of the conflict are in one place.
pub const REJECTED_FILE_NAME: &'static str = "state.rejected.json";

/// The file a running app holds a lock on, claiming the session. A file of its
/// own: a save replaces the state file by rename, so a lock held on that would
/// sit on a file that is no longer at its path.
pub const LOCK_FILE_NAME: &'static str = "state.lock";

/// A point in time, in seconds and nanoseconds.
#[derive(Clone, Copy, PartialEq, Eq, Structural, Debug)]
pub struct FileTime {
    pub secs: i64,
    pub nanos: u32,
}

/// What the state file looked like when it was last read or written. A foreign
/// write moves at least one of the two. Never persisted; only compared with
/// another stamp from the same run.
#[derive(Clone, Copy, PartialEq, Eq, Structural, Debug)]
pub struct Stamp {
    /// Absent on filesystems that don't keep one, in which case the length
    /// carries the comparison on its own.
    pub modified: Option<FileTime>,
    pub len: u64,
}

/// The session file, together with the state last agreed with the disk on.
/// Every save checks the file against that stamp first, so an edit made behind
/// the app's back is refused instead of overwritten.
pub struct StateFile {
    pub path: String,
    /// `None` if the file wasn't there when last looked at.
    pub stamp: Option<Stamp>,
}

/// What to do with a session that is to be saved.
pub enum SaveStep {
    /// Replace the file's contents.
    Write,
    /// Leave the file alone and write the session next to it, here.
    Park(String),
}

/// Whether a file that looks like `found` is something other than what was
/// last agreed on. A file that is gone left nothing behind to destroy, so
/// recreating it costs nobody data.
pub open spec fn foreign(agreed: Option<Stamp>, found: Option<Stamp>) -> bool {
    found is Some && found != agreed
}

impl StateFile {
    /// The session file at `path`, as it looked right after it was read.
    pub fn load(path: String, found: Option<Stamp>) -> (r: StateFile)
        ensures
            r.path@ == path@,
            r.stamp == found,
    {
        StateFile { path, stamp: found }
    }

    /// Whether the file is something other than what this handle put there, or
    /// read from it. `found` is what it looks like now.
    pub fn changed_on_disk(&self, found: Option<Stamp>) -> (r: bool)
        ensures
            r == foreign(self.stamp, found),
    {
        match found {
            None => false,
            Some(now) => match self.stamp {
                None => true,
                Some(then) => now != then,
            },
        }
    }

    /// How to save: replace the file's contents, unless somebody else has
    /// written it since this handle last looked, in which case neither side is
    /// lost: the file is left alone and the session is parked next to it.
    pub fn save(&self, found: Option<Stamp>) -> (r: SaveStep)
        ensures
            r is Write <==> !foreign(self.stamp, found),
            r matches SaveStep::Park(p) ==> p@ == paths::renamed(
                self.path@,
                REJECTED_FILE_NAME@,
            ),
    {
        if self.changed_on_disk(found) {
            SaveStep::Park(with_file_name(self.path.as_str(), REJECTED_FILE_NAME))
        } else {
            SaveStep::Write
        }
    }

    /// Take note of a write. `found` is what the file looks like afterwards,
    /// or `None` where that could not be found out: keeping the old stamp then
    /// makes the next save refuse, which is the safe way round.
    pub fn written(&mut self, found: Option<Option<Stamp>>)
        ensures
            final(self).path == old(self).path,
            final(self).stamp == (match found {
                Some(stamp) => stamp,
                None => old(self).stamp,
            }),
    {
        if let Some(stamp) = found {
            self.stamp = stamp;
        }
    }

    /// The error of a save that was parked, or could not even be: `parked`
    /// says which.
    pub fn conflict(&self, parked: bool) -> (r: SaveError)
        ensures
            r matches SaveError::Conflict { path, rejected } && path@ == self.path@
                && text::opt_text(rejected) == (if parked {
                Some(paths::renamed(self.path@, REJECTED_FILE_NAME@))
            } else {
                None
            }),
    {
        SaveError::Conflict {
            path: self.path.clone(),
            rejected: if parked {
                Some(with_file_name(self.path.as_str(), REJECTED_FILE_NAME))
            } else {
                None
            },
        }
    }
}

/// A write that is not ours is never overwritten: the file is replaced only
/// where there is nothing, or exactly what was last agreed on.
pub proof fn foreign_writes_are_kept(agreed: Option<Stamp>, found: Option<Stamp>)
    requires
        !foreign(agreed, found),
    ensures
        found is None || found == agreed,
{
}

/// Once refused, a save stays refused for as long as the foreign file stands:
/// parking changes nothing of what was agreed on.
pub proof fn a_refusal_stands(agreed: Option<Stamp>, found: Stamp)
    requires
        foreign(agreed, Some(found)),
    ensures
        agreed != Some(found),
        forall|later: Option<Stamp>| later == Some(found) ==> #[trigger] foreign(agreed, later),
{
}

/// A file that was only read, or just written, counts as ours.
pub proof fn own_writes_are_ours(stamp: Option<Stamp>)
    ensures
        !foreign(stamp, stamp),
        forall|agreed: Option<Stamp>| !#[trigger] foreign(agreed, None),
{
}

/// Why the session couldn't be opened.
pub enum LoadError {
    /// Another instance has it. Two of them would each save their own idea of
    /// the session over the other's, so the second one doesn't start.
    Locked { path: String },
    /// Missing is fine and yields a default session; this is the file being
    /// there but unreadable, or in a format this version can't parse.
    Unreadable(String),
}

impl LoadError {
    /// The error of a session that is held: `state_path` is the session file.
    pub fn locked(state_path: &str) -> (r: LoadError)
        ensures
            r matches LoadError::Locked { path } && path@ == paths::renamed(
                state_path@,
                LOCK_FILE_NAME@,
            ),
    {
        LoadError::Locked { path: with_file_name(state_path, LOCK_FILE_NAME) }
    }

    /// What an error says.
    pub open spec fn says(&self) -> Seq<char> {
        match self {
            LoadError::Locked { path } => "another harmonium is already running (it holds "@
                + path@ + ")"@,
            LoadError::Unreadable(error) => error@,
        }
    }

    /// What the error says.
    pub fn message(&self) -> (r: String)
        ensures
            r@ == self.says(),
    {
        match self {
            LoadError::Locked { path } => {
                let mut r: String = owned("another harmonium is already running (it holds ");
                r.push_str(path.as_str());
                r.push_str(")");
                r
            },
            LoadError::Unreadable(error) => error.clone(),
        }
    }
}

/// Why a save didn't happen.
pub enum SaveError {
    /// The file changed since it was last read or written. Nothing was written
    /// to it; the session went to `rejected` instead, unless writing that
    /// failed too.
    Conflict { path: String, rejected: Option<String> },
    Io(String),
}

impl SaveError {
    /// What an error says.
    pub open spec fn says(&self) -> Seq<char> {
        match self {
            SaveError::Conflict { path, rejected: Some(rejected) } => path@
                + " changed on disk — not saving over it. This session was written to "@ + rejected@
                + " instead; merge the two and restart harmonium."@,
            SaveError::Conflict { path, rejected: None } => path@
                + " changed on disk — not saving over it, and the copy of this session could not be written either (see the log). Nothing is being saved."@,
            SaveError::Io(error) => error@,
        }
    }

    /// What the error says.
    pub fn message(&self) -> (r: String)
        ensures
            r@ == self.says(),
    {
        match self {
            SaveError::Conflict { path, rejected } => {
                let mut r: String = path.clone();
                match rejected {
                    Some(parked) => {
                        r.push_str(
                            " changed on disk — not saving over it. This session was written to ",
                        );
                        r.push_str(parked.as_str());
                        r.push_str(" instead; merge the two and restart harmonium.");
                    },
                    None => {
                        r.push_str(
                            " changed on disk — not saving over it, and the copy of this session could not be written either (see the log). Nothing is being saved.",
                        );
                    },
                }
                r
            },
            SaveError::Io(error) => error.clone(),
        }
    }
}

/// The temporary file that a write goes through: next to the file itself, so
/// that a rename puts it in place, and with the process in its name, so that
/// two instances never write one temporary file.
pub fn temporary_path(path: &str, pid: u32) -> (r: String)
    ensures
        r@ == path@ + "."@ + text::decimal_of(pid as nat) + ".tmp"@,
{
    let mut r: String = owned(path);
    r.push_str(".");
    r.push_str(decimal(pid as u128).as_str());
    r.push_str(".tmp");
    r
}

} // verus!
