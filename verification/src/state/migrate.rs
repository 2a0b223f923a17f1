//! Bringing sessions saved by older versions up to date.

use vstd::prelude::*;
use vstd::string::*;

use crate::log::Level;
use crate::state::records;
use crate::state::records::{
    isolation_wrapper, AgentRecord, AppState, PresetRecord, ProjectRecord, MOUNT_GIT_ROOT,
    RESUME_FLAG,
};
use crate::text;
use crate::text::{
    after_last_char, contains, find_text, join, owned, same_text, split_whitespace, strip_prefix,
    strip_suffix, trim,
};

verus! {

/// What every mount of the git root names.
pub const GIT_ROOT_VARIABLE: &'static str = "HARMONIUM_TASK_GIT_ROOT";

/// The two words of [`MOUNT_GIT_ROOT`].
pub open spec fn mount_words() -> Seq<Seq<char>> {
    seq!["-v"@, "$HARMONIUM_TASK_GIT_ROOT:$HARMONIUM_TASK_GIT_ROOT"@]
}

/// Where the mount goes among the words of a command: in front of the `--`
/// separator where there is one, else at the end.
pub open spec fn mount_place(words: Seq<Seq<char>>) -> int {
    match text::position_of(words, "--"@) {
        Some(i) => i,
        None => words.len() as int,
    }
}

/// The words of a command with the mount among them.
pub open spec fn mounted_words(words: Seq<Seq<char>>) -> Seq<Seq<char>> {
    words.take(mount_place(words)) + mount_words() + words.skip(mount_place(words))
}

/// Whether a command runs the sandbox wrapper without mounting the git root.
pub open spec fn lacks_mount(program: Seq<char>, command: Seq<char>) -> bool {
    let words = text::words_of(command);
    &&& words.len() > 0
    &&& text::after_last(words[0], '/') == records::isolation_wrapper_name(program)
    &&& !text::has(command, GIT_ROOT_VARIABLE@)
}

/// A command with the git root mount, or nothing where it doesn't need it.
pub open spec fn mounted(program: Seq<char>, command: Seq<char>) -> Option<Seq<char>> {
    if lacks_mount(program, command) {
        Some(text::join_of(mounted_words(text::words_of(command)), " "@))
    } else {
        None
    }
}

/// `command` with [`MOUNT_GIT_ROOT`] inserted, or `None` if it doesn't need it:
/// not a sandboxed command, or already mounting the git root.
///
/// The fragment goes in front of the `--` separator when there is one, so it
/// reaches the wrapper rather than the agent behind it.
pub fn with_git_root_mount(program: &str, command: &str) -> (r: Option<String>)
    ensures
        text::opt_text(r) == mounted(program@, command@),
{
    let words: Vec<String> = split_whitespace(command);
    let ghost all = text::texts(words@);
    assert(all.len() == words@.len());
    if words.len() == 0 {
        return None;
    }
    assert(all[0] == words@[0]@);
    let first: String = after_last_char(words[0].as_str(), '/');
    if !same_text(first.as_str(), isolation_wrapper(program).as_str()) || contains(command, GIT_ROOT_VARIABLE) {
        return None;
    }
    let at: usize = match find_text(&words, "--") {
        Some(i) => i,
        None => words.len(),
    };
    proof {
        text::lemma_position_of(all, "--"@);
    }
    let mut out: Vec<String> = Vec::new();
    let mut i: usize = 0;
    while i < at
        invariant
            i <= at <= words@.len(),
            all == text::texts(words@),
            text::texts(out@) == all.take(i as int),
        decreases at - i,
    {
        let ghost before = text::texts(out@);
        out.push(words[i].clone());
        assert(text::texts(out@) =~= before.push(all[i as int]));
        i += 1;
    }
    let ghost head = text::texts(out@);
    out.push(owned("-v"));
    out.push(owned("$HARMONIUM_TASK_GIT_ROOT:$HARMONIUM_TASK_GIT_ROOT"));
    assert(text::texts(out@) =~= head + mount_words());
    let ghost base = text::texts(out@);
    assert(text::texts(out@) =~= base + all.subrange(at as int, at as int));
    while i < words.len()
        invariant
            at <= i <= words@.len(),
            all == text::texts(words@),
            text::texts(out@) == base + all.subrange(at as int, i as int),
        decreases words@.len() - i,
    {
        let ghost before = text::texts(out@);
        out.push(words[i].clone());
        assert(text::texts(out@) =~= before.push(all[i as int]));
        assert(text::texts(out@) =~= base + all.subrange(at as int, i + 1));
        i += 1;
    }
    assert(all.subrange(at as int, all.len() as int) =~= all.skip(at as int));
    assert(text::texts(out@) =~= mounted_words(all));
    Some(join(&out, " "))
}

/// The mount is repaired once: what comes out already mounts the git root, so
/// migrating it again changes nothing.
pub proof fn mounting_is_done_once(program: Seq<char>, command: Seq<char>)
    requires
        mounted(program, command) is Some,
    ensures
        mounted(program, mounted(program, command)->0) is None,
{
    let words = text::words_of(command);
    text::lemma_position_of(words, "--"@);
    let all = mounted_words(words);
    let at = mount_place(words);
    let mount = "$HARMONIUM_TASK_GIT_ROOT:$HARMONIUM_TASK_GIT_ROOT"@;
    assert(all[at + 1] == mount);
    text::lemma_join_has(all, " "@, at + 1);
    reveal_strlit("$HARMONIUM_TASK_GIT_ROOT:$HARMONIUM_TASK_GIT_ROOT");
    reveal_strlit("HARMONIUM_TASK_GIT_ROOT");
    assert(mount.subrange(1, 1 + GIT_ROOT_VARIABLE@.len() as int) =~= GIT_ROOT_VARIABLE@);
    assert(text::at(mount, GIT_ROOT_VARIABLE@, 1));
    text::lemma_has_trans(mounted(program, command)->0, mount, GIT_ROOT_VARIABLE@);
}

/// The mount reaches the wrapper and not the agent: it is two words of the
/// command line, every other word is kept in its order, and no separator stands
/// before them.
pub proof fn mount_stands_before_the_separator(program: Seq<char>, command: Seq<char>)
    requires
        mounted(program, command) is Some,
    ensures
        text::words_of(mounted(program, command)->0) == mounted_words(text::words_of(command)),
        forall|i: int|
            0 <= i < mount_place(text::words_of(command)) ==> #[trigger] text::words_of(command)[i]
                != "--"@,
{
    let words = text::words_of(command);
    text::lemma_position_of(words, "--"@);
    text::lemma_words_are_words(command, 0);
    reveal_strlit("-v");
    reveal_strlit("$HARMONIUM_TASK_GIT_ROOT:$HARMONIUM_TASK_GIT_ROOT");
    let all = mounted_words(words);
    let at = mount_place(words);
    assert forall|i: int| 0 <= i < all.len() implies text::is_word(#[trigger] all[i]) by {
        if i < at {
            assert(all[i] == words[i]);
        } else if i == at {
            assert(all[i] == "-v"@);
        } else if i == at + 1 {
            assert(all[i] == mount_words()[1]);
        } else {
            assert(all[i] == words[i - 2]);
        }
    }
    text::words_survive_joining(all);
}

// ---- Presets ----

/// What stood between a legacy resume command's copy of the command and the
/// resume flag on its end, if the resume command was such a copy.
pub open spec fn separator(legacy: Seq<char>, command: Seq<char>) -> Option<Seq<char>> {
    match text::after_prefix(text::trim_of(legacy), text::trim_of(command)) {
        Some(rest) => match text::before_suffix(text::trim_of(rest), RESUME_FLAG@) {
            Some(between) => Some(text::trim_of(between)),
            None => None,
        },
        None => None,
    }
}

/// A preset without its legacy resume command: a separator that the wrapper
/// needs moves into the command.
pub open spec fn resume_folded(p: records::Preset) -> records::Preset {
    records::Preset {
        command: match p.resume_command {
            Some(legacy) => match separator(legacy, p.command) {
                Some(between) => if between.len() > 0 {
                    text::trim_of(p.command) + " "@ + between
                } else {
                    p.command
                },
                None => p.command,
            },
            None => p.command,
        },
        resume_command: None,
        ..p
    }
}

/// What is logged about a legacy resume command that cannot be expressed as
/// the command with a flag.
pub open spec fn resume_note(p: records::Preset) -> Option<Seq<char>> {
    match p.resume_command {
        Some(legacy) => if separator(legacy, p.command) is Some {
            None
        } else {
            Some(
                "preset `"@ + p.name + "`: resume command `"@ + text::trim_of(legacy)
                    + "` cannot be expressed as `"@ + text::trim_of(p.command) + " "@ + RESUME_FLAG@
                    + "` — resuming will use the latter; adjust the preset if that is wrong"@,
            )
        },
        None => None,
    }
}

/// A preset with the git root mount, where its command lacks it.
pub open spec fn preset_mounted(program: Seq<char>, p: records::Preset) -> records::Preset {
    records::Preset {
        command: match mounted(program, p.command) {
            Some(m) => m,
            None => p.command,
        },
        ..p
    }
}

/// What is logged about a preset that gains the mount.
pub open spec fn mount_note(program: Seq<char>, p: records::Preset) -> Option<Seq<char>> {
    if mounted(program, p.command) is Some {
        Some("preset `"@ + p.name + "`: added the git root mount ("@ + MOUNT_GIT_ROOT@ + ")"@)
    } else {
        None
    }
}

impl PresetRecord {
    /// Give a sandboxed preset the git-root mount if it was saved before that
    /// became a default. Returns what to log about it.
    pub fn migrate_git_root_mount(&mut self, program: &str) -> (r: Option<String>)
        ensures
            final(self)@ == preset_mounted(program@, old(self)@),
            text::opt_text(r) == mount_note(program@, old(self)@),
    {
        match with_git_root_mount(program, self.command.as_str()) {
            Some(command) => {
                let mut note: String = owned("preset `");
                note.push_str(self.name.as_str());
                note.push_str("`: added the git root mount (");
                note.push_str(MOUNT_GIT_ROOT);
                note.push_str(")");
                self.command = command;
                Some(note)
            },
            None => None,
        }
    }

    /// Fold the second command line of an old state file into this one. The
    /// old resume command was the command repeated with a resume flag on the
    /// end; anything *between* the two was a separator the wrapper needs, which
    /// belongs to the command itself. Returns what to log, as an error.
    pub fn migrate_resume_command(&mut self) -> (r: Option<String>)
        ensures
            final(self)@ == resume_folded(old(self)@),
            text::opt_text(r) == resume_note(old(self)@),
    {
        let legacy: String = match &self.resume_command {
            Some(l) => trim(l.as_str()),
            None => {
                return None;
            },
        };
        self.resume_command = None;
        let command: String = trim(self.command.as_str());
        if let Some(rest) = strip_prefix(legacy.as_str(), command.as_str()) {
            let rest: String = trim(rest.as_str());
            if let Some(between) = strip_suffix(rest.as_str(), RESUME_FLAG) {
                let between: String = trim(between.as_str());
                if !between.as_str().is_empty() {
                    let mut folded: String = command;
                    folded.push_str(" ");
                    folded.push_str(between.as_str());
                    self.command = folded;
                }
                return None;
            }
        }
        let mut note: String = owned("preset `");
        note.push_str(self.name.as_str());
        note.push_str("`: resume command `");
        note.push_str(legacy.as_str());
        note.push_str("` cannot be expressed as `");
        note.push_str(command.as_str());
        note.push_str(" ");
        note.push_str(RESUME_FLAG);
        note.push_str(
            "` — resuming will use the latter; adjust the preset if that is wrong",
        );
        Some(note)
    }
}

/// A resume command that was the command, a separator and the flag is what the
/// preset resumes with once the separator is in its command. One that was the
/// command and the flag alone is what it resumes with anyway.
pub proof fn folding_gives_the_resume_line_back(
    p: records::Preset,
    legacy: Seq<char>,
    between: Seq<char>,
)
    requires
        p.resume_command == Some(legacy),
        text::trim_of(between) == between,
        text::trim_of(legacy) == (if between.len() > 0 {
            text::trim_of(p.command) + " "@ + between + " "@ + RESUME_FLAG@
        } else {
            text::trim_of(p.command) + " "@ + RESUME_FLAG@
        }),
    ensures
        resume_folded(p).command == (if between.len() > 0 {
            text::trim_of(p.command) + " "@ + between
        } else {
            p.command
        }),
        records::resume_line(resume_folded(p).command) == text::trim_of(legacy),
        resume_note(p) is None,
{
    let command = text::trim_of(p.command);
    lemma_flag_ends();
    text::lemma_trimmed_ends(p.command);
    text::lemma_trimmed_ends(legacy);
    text::lemma_trimmed_ends(between);
    lemma_space();
    if command.len() == 0 {
        assert(text::trim_of(legacy)[0] == ' ');
    }
    if between.len() > 0 {
        lemma_separated(text::trim_of(legacy), command, between, RESUME_FLAG@);
        let folded = command + " "@ + between;
        assert(folded[0] == command[0]);
        assert(folded.last() == between.last());
        text::lemma_trimmed(folded);
    } else {
        lemma_unseparated(text::trim_of(legacy), command, RESUME_FLAG@);
    }
}

proof fn lemma_space()
    ensures
        " "@ == seq![' '],
        text::white(' '),
{
    reveal_strlit(" ");
    assert(" "@ =~= seq![' ']);
}

proof fn lemma_flag_ends()
    ensures
        RESUME_FLAG@.len() > 0,
        !text::white(RESUME_FLAG@[0]),
        !text::white(RESUME_FLAG@.last()),
{
    reveal_strlit("--continue");
}

proof fn lemma_separated(line: Seq<char>, command: Seq<char>, between: Seq<char>, flag: Seq<char>)
    requires
        between.len() > 0,
        !text::white(between[0]),
        !text::white(between.last()),
        flag.len() > 0,
        !text::white(flag.last()),
        line == command + " "@ + between + " "@ + flag,
    ensures
        text::after_prefix(line, command) == Some(" "@ + between + " "@ + flag),
        text::trim_of(" "@ + between + " "@ + flag) == between + " "@ + flag,
        text::before_suffix(between + " "@ + flag, flag) == Some(between + " "@),
        text::trim_of(between + " "@) == between,
{
    lemma_space();
    let rest = seq![' '] + between + seq![' '] + flag;
    let inner = between + seq![' '] + flag;
    let kept = between + seq![' '];
    assert(line.subrange(0, command.len() as int) =~= command);
    assert(line.skip(command.len() as int) =~= rest);
    assert(rest[1] == between[0]);
    assert(rest[rest.len() - 1] == flag.last());
    text::lemma_trim_is(rest, 1, rest.len() as int);
    assert(rest.subrange(1, rest.len() as int) =~= inner);
    let cut = inner.len() - flag.len();
    assert(inner.subrange(cut, cut + flag.len()) =~= flag);
    assert(inner.take(cut) =~= kept);
    assert(kept[between.len() - 1] == between.last());
    text::lemma_trim_is(kept, 0, between.len() as int);
    assert(kept.subrange(0, between.len() as int) =~= between);
}

proof fn lemma_unseparated(line: Seq<char>, command: Seq<char>, flag: Seq<char>)
    requires
        flag.len() > 0,
        !text::white(flag[0]),
        !text::white(flag.last()),
        line == command + " "@ + flag,
    ensures
        text::after_prefix(line, command) == Some(" "@ + flag),
        text::trim_of(" "@ + flag) == flag,
        text::before_suffix(flag, flag) == Some(Seq::<char>::empty()),
        text::trim_of(Seq::<char>::empty()) == Seq::<char>::empty(),
{
    lemma_space();
    let rest = seq![' '] + flag;
    assert(line.subrange(0, command.len() as int) =~= command);
    assert(line.skip(command.len() as int) =~= rest);
    assert(rest[1] == flag[0]);
    assert(rest[rest.len() - 1] == flag.last());
    text::lemma_trim_is(rest, 1, rest.len() as int);
    assert(rest.subrange(1, rest.len() as int) =~= flag);
    assert(flag.subrange(0, flag.len() as int) =~= flag);
    assert(flag.take(0) =~= Seq::<char>::empty());
    text::lemma_trimmed(Seq::<char>::empty());
}

/// However a resume command that can be folded was spaced, the preset resumes
/// with the same characters in the same order, white space aside.
pub proof fn folding_changes_white_space_only(p: records::Preset, legacy: Seq<char>)
    requires
        p.resume_command == Some(legacy),
        separator(legacy, p.command) is Some,
    ensures
        text::black_of(records::resume_line(resume_folded(p).command)) == text::black_of(legacy),
{
    reveal_strlit(" ");
    let flag = RESUME_FLAG@;
    let command = text::trim_of(p.command);
    let line = text::trim_of(legacy);
    let rest = line.skip(command.len() as int);
    let inner = text::trim_of(rest);
    let kept = inner.take(inner.len() - flag.len());
    let between = text::trim_of(kept);
    let black = text::blacks();
    text::lemma_black_of_white(" "@);
    // The old line.
    text::lemma_trim_keeps_black(legacy);
    text::lemma_trim_keeps_black(rest);
    text::lemma_trim_keeps_black(kept);
    assert(line =~= command + rest);
    assert(inner =~= kept + flag);
    Seq::filter_distributes_over_add(command, rest, black);
    Seq::filter_distributes_over_add(kept, flag, black);
    // The new one.
    let folded = resume_folded(p).command;
    text::lemma_trim_keeps_black(folded);
    text::lemma_trim_keeps_black(p.command);
    Seq::filter_distributes_over_add(text::trim_of(folded) + " "@, flag, black);
    Seq::filter_distributes_over_add(text::trim_of(folded), " "@, black);
    Seq::filter_distributes_over_add(command + " "@, between, black);
    Seq::filter_distributes_over_add(command, " "@, black);
    assert(text::black_of(between) == text::black_of(kept));
    assert(text::black_of(legacy) =~= text::black_of(command) + text::black_of(between)
        + text::black_of(flag));
    if between.len() == 0 {
        text::lemma_black_of_white(between);
    }
    assert(text::black_of(folded) =~= text::black_of(command) + text::black_of(between));
}

/// Folding takes the old resume command away and changes nothing else but the
/// command; that stays as it was unless there is a separator to put into it.
pub proof fn folding_leaves_the_rest(p: records::Preset)
    ensures
        resume_folded(p) == (records::Preset {
            command: resume_folded(p).command,
            resume_command: None,
            ..p
        }),
        p.resume_command is None ==> resume_folded(p).command == p.command,
        p.resume_command matches Some(legacy) ==> (separator(legacy, p.command) is None
            || separator(legacy, p.command) == Some(Seq::<char>::empty())) ==> resume_folded(
            p,
        ).command == p.command,
{
}

// ---- Sessions ----

/// A line for the log.
pub open spec fn notes_of(list: Seq<(Level, String)>) -> Seq<(Level, Seq<char>)> {
    list.map_values(|n: (Level, String)| (n.0, n.1@))
}

/// An optional line for the log, as a list.
pub open spec fn note(level: Level, line: Option<Seq<char>>) -> Seq<(Level, Seq<char>)> {
    match line {
        Some(l) => seq![(level, l)],
        None => Seq::empty(),
    }
}

/// A preset brought up to date.
pub open spec fn preset_migrated(program: Seq<char>, p: records::Preset) -> records::Preset {
    preset_mounted(program, resume_folded(p))
}

/// What is logged about a preset that is brought up to date.
pub open spec fn preset_notes(program: Seq<char>, p: records::Preset) -> Seq<(Level, Seq<char>)> {
    note(Level::Error, resume_note(p)) + note(Level::Info, mount_note(program, resume_folded(p)))
}

/// What is logged about presets that are brought up to date.
pub open spec fn presets_notes(program: Seq<char>, list: Seq<records::Preset>) -> Seq<(Level, Seq<char>)>
    decreases list.len(),
{
    if list.len() == 0 {
        Seq::empty()
    } else {
        presets_notes(program, list.drop_last()) + preset_notes(program, list.last())
    }
}

/// A stored command line brought up to date.
pub open spec fn command_migrated(program: Seq<char>, command: Option<Seq<char>>) -> Option<Seq<char>> {
    match command {
        Some(c) => match mounted(program, c) {
            Some(m) => Some(m),
            None => Some(c),
        },
        None => None,
    }
}

/// What is logged about a stored command line that is brought up to date.
pub open spec fn command_note(program: Seq<char>, name: Seq<char>, command: Option<Seq<char>>) -> Option<Seq<char>> {
    match command {
        Some(c) => if mounted(program, c) is Some {
            Some("agent `"@ + name + "`: added the git root mount to `"@ + c + "`"@)
        } else {
            None
        },
        None => None,
    }
}

/// An agent brought up to date. Agents snapshot their preset's command line at
/// spawn, so repairing the presets alone would leave every agent that already
/// exists resuming into a sandbox with no git.
pub open spec fn agent_migrated(program: Seq<char>, a: records::Agent) -> records::Agent {
    records::Agent {
        command: command_migrated(program, a.command),
        resume_command: command_migrated(program, a.resume_command),
        ..a
    }
}

/// What is logged about an agent that is brought up to date.
pub open spec fn agent_notes(program: Seq<char>, a: records::Agent) -> Seq<(Level, Seq<char>)> {
    note(Level::Info, command_note(program, a.name, a.command)) + note(
        Level::Info,
        command_note(program, a.name, a.resume_command),
    )
}

/// What is logged about agents that are brought up to date.
pub open spec fn agents_notes(program: Seq<char>, list: Seq<records::Agent>) -> Seq<(Level, Seq<char>)>
    decreases list.len(),
{
    if list.len() == 0 {
        Seq::empty()
    } else {
        agents_notes(program, list.drop_last()) + agent_notes(program, list.last())
    }
}

/// A project brought up to date.
pub open spec fn project_migrated(program: Seq<char>, p: records::Project) -> records::Project {
    records::Project { agents: p.agents.map_values(|a: records::Agent| agent_migrated(program, a)), ..p }
}

/// What is logged about projects that are brought up to date.
pub open spec fn projects_notes(program: Seq<char>, list: Seq<records::Project>) -> Seq<(Level, Seq<char>)>
    decreases list.len(),
{
    if list.len() == 0 {
        Seq::empty()
    } else {
        projects_notes(program, list.drop_last()) + agents_notes(program, list.last().agents)
    }
}

/// A session brought up to date.
pub open spec fn session_migrated(program: Seq<char>, s: records::Session) -> records::Session {
    records::Session {
        projects: s.projects.map_values(|p: records::Project| project_migrated(program, p)),
        settings: records::Settings {
            presets: s.settings.presets.map_values(|p: records::Preset| preset_migrated(program, p)),
            ..s.settings
        },
    }
}

fn push_note(notes: &mut Vec<(Level, String)>, level: Level, line: Option<String>)
    ensures
        notes_of(final(notes)@) == notes_of(old(notes)@) + note(level, text::opt_text(line)),
{
    let ghost before = notes_of(notes@);
    match line {
        Some(l) => {
            notes.push((level, l));
            assert(notes_of(notes@) =~= before + seq![(level, l@)]);
        },
        None => {
            assert(before + Seq::<(Level, Seq<char>)>::empty() =~= before);
        },
    }
}

fn migrate_presets(program: &str, list: &mut Vec<PresetRecord>, notes: &mut Vec<(Level, String)>)
    ensures
        records::presets(final(list)@) == records::presets(old(list)@).map_values(
            |p: records::Preset| preset_migrated(program@, p),
        ),
        notes_of(final(notes)@) == notes_of(old(notes)@) + presets_notes(
            program@, records::presets(old(list)@),
        ),
{
    let ghost all = records::presets(list@);
    let ghost before = notes_of(notes@);
    let mut i: usize = 0;
    assert(before + presets_notes(program@, all.take(0)) =~= before);
    while i < list.len()
        invariant
            i <= list@.len(),
            list@.len() == all.len(),
            forall|j: int| 0 <= j < i ==> (#[trigger] list@[j])@ == preset_migrated(program@, all[j]),
            forall|j: int| i <= j < all.len() ==> (#[trigger] list@[j])@ == all[j],
            notes_of(notes@) == before + presets_notes(program@, all.take(i as int)),
        decreases list@.len() - i,
    {
        let ghost so_far = notes_of(notes@);
        let preset: &mut PresetRecord = &mut list[i];
        let first: Option<String> = preset.migrate_resume_command();
        let second: Option<String> = preset.migrate_git_root_mount(program);
        push_note(notes, Level::Error, first);
        push_note(notes, Level::Info, second);
        proof {
            assert(all.take(i + 1).drop_last() =~= all.take(i as int));
            assert(notes_of(notes@) =~= before + presets_notes(program@, all.take(i + 1)));
        }
        i += 1;
    }
    proof {
        assert(all.take(all.len() as int) =~= all);
        assert(records::presets(list@) =~= all.map_values(
            |p: records::Preset| preset_migrated(program@, p),
        ));
    }
}

/// Bring one stored command line up to date.
fn migrate_command(program: &str, name: &str, command: &mut Option<String>) -> (r: Option<String>)
    ensures
        text::opt_text(*final(command)) == command_migrated(program@, text::opt_text(*old(command))),
        text::opt_text(r) == command_note(program@, name@, text::opt_text(*old(command))),
{
    let current: String = match &*command {
        Some(c) => c.clone(),
        None => {
            return None;
        },
    };
    match with_git_root_mount(program, current.as_str()) {
        Some(m) => {
            let mut line: String = owned("agent `");
            line.push_str(name);
            line.push_str("`: added the git root mount to `");
            line.push_str(current.as_str());
            line.push_str("`");
            *command = Some(m);
            Some(line)
        },
        None => None,
    }
}

fn migrate_agents(program: &str, list: &mut Vec<AgentRecord>, notes: &mut Vec<(Level, String)>)
    ensures
        records::agents(final(list)@) == records::agents(old(list)@).map_values(
            |a: records::Agent| agent_migrated(program@, a),
        ),
        notes_of(final(notes)@) == notes_of(old(notes)@) + agents_notes(
            program@, records::agents(old(list)@),
        ),
{
    let ghost all = records::agents(list@);
    let ghost before = notes_of(notes@);
    let mut i: usize = 0;
    assert(before + agents_notes(program@, all.take(0)) =~= before);
    while i < list.len()
        invariant
            i <= list@.len(),
            list@.len() == all.len(),
            forall|j: int| 0 <= j < i ==> (#[trigger] list@[j])@ == agent_migrated(program@, all[j]),
            forall|j: int| i <= j < all.len() ==> (#[trigger] list@[j])@ == all[j],
            notes_of(notes@) == before + agents_notes(program@, all.take(i as int)),
        decreases list@.len() - i,
    {
        let agent: &mut AgentRecord = &mut list[i];
        let name: String = agent.name.clone();
        let first: Option<String> = migrate_command(program, name.as_str(), &mut agent.command);
        let second: Option<String> = migrate_command(program, name.as_str(), &mut agent.resume_command);
        push_note(notes, Level::Info, first);
        push_note(notes, Level::Info, second);
        proof {
            assert(all.take(i + 1).drop_last() =~= all.take(i as int));
            assert(notes_of(notes@) =~= before + agents_notes(program@, all.take(i + 1)));
        }
        i += 1;
    }
    proof {
        assert(all.take(all.len() as int) =~= all);
        assert(records::agents(list@) =~= all.map_values(|a: records::Agent| agent_migrated(program@, a)));
    }
}

/// Bring a session that was just read up to date: fold legacy resume commands
/// into the presets' commands, and repair sandboxed commands that lack the git
/// root mount, those of agents included. Returns what to log, in order.
pub fn migrate_state(program: &str, state: &mut AppState) -> (r: Vec<(Level, String)>)
    ensures
        final(state)@ == session_migrated(program@, old(state)@),
        notes_of(r@) == presets_notes(program@, old(state)@.settings.presets) + projects_notes(
            program@, old(state)@.projects,
        ),
{
    let ghost all = state@.projects;
    let mut notes: Vec<(Level, String)> = Vec::new();
    let ghost start = notes_of(notes@);
    assert(start =~= Seq::<(Level, Seq<char>)>::empty());
    migrate_presets(program, &mut state.settings.presets, &mut notes);
    let ghost before = notes_of(notes@);
    assert(before =~= presets_notes(program@, old(state)@.settings.presets));
    let mut i: usize = 0;
    assert(before + projects_notes(program@, all.take(0)) =~= before);
    while i < state.projects.len()
        invariant
            i <= state.projects@.len(),
            state.projects@.len() == all.len(),
            state.settings@ == session_migrated(program@, old(state)@).settings,
            forall|j: int|
                0 <= j < i ==> (#[trigger] state.projects@[j])@ == project_migrated(program@, all[j]),
            forall|j: int| i <= j < all.len() ==> (#[trigger] state.projects@[j])@ == all[j],
            notes_of(notes@) == before + projects_notes(program@, all.take(i as int)),
        decreases state.projects@.len() - i,
    {
        let project: &mut ProjectRecord = &mut state.projects[i];
        migrate_agents(program, &mut project.agents, &mut notes);
        proof {
            assert(all.take(i + 1).drop_last() =~= all.take(i as int));
            assert(notes_of(notes@) =~= before + projects_notes(program@, all.take(i + 1)));
        }
        i += 1;
    }
    proof {
        assert(all.take(all.len() as int) =~= all);
        assert(state@.projects =~= session_migrated(program@, old(state)@).projects);
        assert(state@.settings == session_migrated(program@, old(state)@).settings);
    }
    notes
}

/// Migrating a session a second time changes nothing more.
pub proof fn migrating_is_done_once(program: Seq<char>, s: records::Session)
    ensures
        session_migrated(program, session_migrated(program, s)) == session_migrated(program, s),
{
    let once = session_migrated(program, s);
    let twice = session_migrated(program, once);
    assert forall|i: int| 0 <= i < once.settings.presets.len() implies twice.settings.presets[i]
        == once.settings.presets[i] by {
        let folded = resume_folded(s.settings.presets[i]);
        if mounted(program, folded.command) is Some {
            mounting_is_done_once(program, folded.command);
        }
    }
    assert(twice.settings.presets =~= once.settings.presets);
    assert forall|p: int| 0 <= p < once.projects.len() implies twice.projects[p]
        == once.projects[p] by {
        let before = s.projects[p].agents;
        assert forall|i: int| 0 <= i < before.len() implies twice.projects[p].agents[i]
            == once.projects[p].agents[i] by {
            if before[i].command is Some && mounted(program, before[i].command->0) is Some {
                mounting_is_done_once(program, before[i].command->0);
            }
            if before[i].resume_command is Some && mounted(program, before[i].resume_command->0) is Some {
                mounting_is_done_once(program, before[i].resume_command->0);
            }
        }
        assert(twice.projects[p].agents =~= once.projects[p].agents);
    }
    assert(twice.projects =~= once.projects);
}

} // verus!
