//! Log buffer behind the log panel. The panel polls [`version`] to notice new
//! output.

use vstd::prelude::*;

use crate::text;
use crate::text::{owned, to_digit_char};

verus! {

/// Oldest entries are dropped once the buffer grows past this.
pub const CAPACITY: usize = 500;

#[derive(Clone, Copy, PartialEq, Eq, Structural, Debug)]
pub enum Level {
    Info,
    Error,
}

/// One line of the log.
pub struct Entry {
    /// `HH:MM:SS`, UTC; see [`timestamp`].
    pub time: String,
    pub level: Level,
    pub message: String,
}

/// What an [`Entry`] says.
pub struct Line {
    pub time: Seq<char>,
    pub level: Level,
    pub message: Seq<char>,
}

impl View for Entry {
    type V = Line;

    open spec fn view(&self) -> Line {
        Line { time: self.time@, level: self.level, message: self.message@ }
    }
}

/// The lines of a list of entries.
pub open spec fn lines(entries: Seq<Entry>) -> Seq<Line> {
    entries.map_values(|e: Entry| e@)
}

/// The buffer: what was logged, and a counter bumped on every change, so the
/// panel can poll for new output cheaply.
pub struct Log {
    entries: Vec<Entry>,
    version: usize,
}

impl Log {
    /// The lines in the buffer, oldest first.
    pub closed spec fn lines(&self) -> Seq<Line> {
        lines(self.entries@)
    }

    /// The change counter.
    pub closed spec fn count(&self) -> usize {
        self.version
    }

    /// The buffer never holds more than [`CAPACITY`] lines.
    pub open spec fn wf(&self) -> bool {
        self.lines().len() <= CAPACITY
    }

    /// An empty buffer.
    pub fn new() -> (r: Log)
        ensures
            r.wf(),
            r.lines() == Seq::<Line>::empty(),
            r.count() == 0,
    {
        let r = Log { entries: Vec::new(), version: 0 };
        assert(r.lines() =~= Seq::<Line>::empty());
        r
    }
}

/// The change counter after a change.
pub open spec fn bumped(version: usize) -> usize {
    if version == usize::MAX {
        0
    } else {
        (version + 1) as usize
    }
}

/// The last [`CAPACITY`] of some lines.
pub open spec fn kept(all: Seq<Line>) -> Seq<Line> {
    if all.len() > CAPACITY {
        all.skip(all.len() - CAPACITY)
    } else {
        all
    }
}

/// What a message looks like on standard error, where every entry is mirrored
/// so that the same information is there when the app runs from a terminal.
pub open spec fn mirrored(message: Seq<char>) -> Seq<char> {
    "[harmonium] "@ + message
}

/// Log `message` at level info, `secs` seconds after the epoch, and return the
/// line for standard error.
pub fn info(log: &mut Log, secs: u64, message: String) -> (r: String)
    requires
        old(log).wf(),
    ensures
        final(log).wf(),
        final(log).lines() == kept(
            old(log).lines().push(
                Line { time: clock_of(secs as nat), level: Level::Info, message: message@ },
            ),
        ),
        final(log).count() == bumped(old(log).count()),
        r@ == mirrored(message@),
{
    push(log, secs, Level::Info, message)
}

/// Log `message` at level error, `secs` seconds after the epoch, and return
/// the line for standard error.
pub fn error(log: &mut Log, secs: u64, message: String) -> (r: String)
    requires
        old(log).wf(),
    ensures
        final(log).wf(),
        final(log).lines() == kept(
            old(log).lines().push(
                Line { time: clock_of(secs as nat), level: Level::Error, message: message@ },
            ),
        ),
        final(log).count() == bumped(old(log).count()),
        r@ == mirrored(message@),
{
    push(log, secs, Level::Error, message)
}

fn push(log: &mut Log, secs: u64, level: Level, message: String) -> (r: String)
    requires
        old(log).wf(),
    ensures
        final(log).wf(),
        final(log).lines() == kept(
            old(log).lines().push(
                Line { time: clock_of(secs as nat), level: level, message: message@ },
            ),
        ),
        final(log).count() == bumped(old(log).count()),
        r@ == mirrored(message@),
{
    let mut line = owned("[harmonium] ");
    line.push_str(message.as_str());
    let ghost before = log.entries@;
    let ghost new = Line { time: clock_of(secs as nat), level: level, message: message@ };
    log.entries.push(Entry { time: timestamp(secs), level, message });
    assert(lines(log.entries@) =~= lines(before).push(new));
    if log.entries.len() > CAPACITY {
        let ghost full = log.entries@;
        log.entries.remove(0);
        assert(lines(log.entries@) =~= lines(full).skip(1));
    }
    bump(log);
    line
}

fn bump(log: &mut Log)
    ensures
        final(log).lines() == old(log).lines(),
        final(log).count() == bumped(old(log).count()),
{
    if log.version == usize::MAX {
        log.version = 0;
    } else {
        log.version = log.version + 1;
    }
}

/// A copy of everything in the buffer, oldest first.
pub fn entries(log: &Log) -> (r: Vec<Entry>)
    ensures
        lines(r@) == log.lines(),
{
    let mut r: Vec<Entry> = Vec::new();
    let n: usize = log.entries.len();
    let mut i: usize = 0;
    while i < n
        invariant
            n == log.entries@.len(),
            i <= n,
            lines(r@) == lines(log.entries@).take(i as int),
        decreases n - i,
    {
        let e: &Entry = &log.entries[i];
        let ghost before = lines(r@);
        r.push(Entry { time: e.time.clone(), level: e.level, message: e.message.clone() });
        assert(lines(r@) =~= before.push(log.entries@[i as int]@));
        i += 1;
    }
    r
}

/// The change counter.
pub fn version(log: &Log) -> (r: usize)
    ensures
        r == log.count(),
{
    log.version
}

/// Empty the buffer.
pub fn clear(log: &mut Log)
    ensures
        final(log).wf(),
        final(log).lines() == Seq::<Line>::empty(),
        final(log).count() == bumped(old(log).count()),
{
    log.entries = Vec::new();
    assert(lines(log.entries@) =~= Seq::<Line>::empty());
    bump(log);
}

/// Every change shows in the counter: a panel that compares the number it last
/// saw with the current one notices the change.
pub proof fn every_change_shows(version: usize)
    ensures
        bumped(version) != version,
{
}

/// What was logged last is the last line of the buffer, however full the
/// buffer was, and the lines before it are the most recent ones.
pub proof fn newest_line_stays(before: Seq<Line>, line: Line)
    requires
        before.len() <= CAPACITY,
    ensures
        kept(before.push(line)).last() == line,
        kept(before.push(line)).len() == (if before.len() < CAPACITY {
            before.len() + 1
        } else {
            CAPACITY as nat
        }),
        before.len() < CAPACITY ==> kept(before.push(line)).drop_last() == before,
        before.len() == CAPACITY ==> kept(before.push(line)).drop_last() == before.skip(1),
{
    assert(before.push(line).drop_last() =~= before);
    if before.len() == CAPACITY {
        assert(before.push(line).skip(1).drop_last() =~= before.skip(1));
    }
}

/// `n` below one hundred, in two digits.
pub open spec fn two_digits(n: nat) -> Seq<char> {
    seq![text::digit_char(n / 10), text::digit_char(n % 10)]
}

/// Wall clock of `secs` seconds after the epoch, UTC.
pub open spec fn clock_of(secs: nat) -> Seq<char> {
    let day = secs % 86_400;
    two_digits(day / 3600) + ":"@ + two_digits((day % 3600) / 60) + ":"@ + two_digits(day % 60)
}

fn push_two(out: &mut String, n: u64)
    requires
        n < 100,
    ensures
        final(out)@ == old(out)@ + two_digits(n as nat),
{
    let ghost before = out@;
    out.push(to_digit_char((n / 10) as u8));
    out.push(to_digit_char((n % 10) as u8));
    assert(out@ =~= before + two_digits(n as nat));
}

/// Wall clock as `HH:MM:SS`, for `secs` seconds after the epoch. UTC, because
/// turning epoch seconds into local time needs a timezone database.
pub fn timestamp(secs: u64) -> (r: String)
    ensures
        r@ == clock_of(secs as nat),
{
    let day: u64 = secs % 86_400;
    let mut r = String::new();
    push_two(&mut r, day / 3600);
    r.push_str(":");
    push_two(&mut r, (day % 3600) / 60);
    r.push_str(":");
    push_two(&mut r, day % 60);
    assert(r@ =~= clock_of(secs as nat));
    r
}

} // verus!
