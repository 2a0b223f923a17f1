//! What the text functions come to, said of the texts that go in and come out.

use vstd::prelude::*;

use crate::paths;
use crate::text;

verus! {

// ---- Characters ----

/// White space is what Unicode calls so. Of ASCII that is the space, the tab,
/// and the line and page breaks.
pub proof fn white_space(c: char)
    ensures
        text::white(' ') && text::white('\t') && text::white('\n') && text::white('\r'),
        text::white('\u{b}') && text::white('\u{c}') && text::white('\u{85}') && text::white(
            '\u{a0}',
        ) && text::white('\u{1680}') && text::white('\u{2028}') && text::white('\u{2029}')
            && text::white('\u{202f}') && text::white('\u{205f}') && text::white('\u{3000}'),
        '\u{2000}' <= c && c <= '\u{200a}' ==> text::white(c),
        '\u{21}' <= c && c <= '\u{84}' ==> !text::white(c),
        c < '\t' ==> !text::white(c),
        '\u{e}' <= c && c <= '\u{1f}' ==> !text::white(c),
        '\u{a1}' <= c && c <= '\u{167f}' ==> !text::white(c),
        c > '\u{3000}' ==> !text::white(c),
{
}

// ---- Trimming ----

/// A trimmed text is what stands between the white space at its ends: it has
/// none at either end itself, and is not changed by trimming again.
pub proof fn trimming_takes_the_ends(a: Seq<char>, s: Seq<char>, b: Seq<char>)
    requires
        forall|i: int| 0 <= i < a.len() ==> text::white(#[trigger] a[i]),
        forall|i: int| 0 <= i < b.len() ==> text::white(#[trigger] b[i]),
        s.len() > 0 ==> !text::white(s[0]) && !text::white(s.last()),
    ensures
        text::trim_of(a + s + b) == s,
        text::trim_of(text::trim_of(a + s + b)) == text::trim_of(a + s + b),
{
    let t = a + s + b;
    let (m, n) = (a.len() as int, (a.len() + s.len()) as int);
    assert forall|j: int| 0 <= j < m implies text::white(#[trigger] t[j]) by {
        assert(t[j] == a[j]);
    }
    assert forall|j: int| n <= j < t.len() implies text::white(#[trigger] t[j]) by {
        assert(t[j] == b[j - n]);
    }
    if s.len() > 0 {
        assert(t[m] == s[0] && t[n - 1] == s.last());
    }
    text::lemma_trim_is(t, m, n);
    assert(t.subrange(m, n) =~= s);
    text::lemma_trimmed(s);
}

// ---- Lines ----

/// Whether a text can be one line: no line feed in it, and no carriage return
/// at its end.
pub open spec fn one_line(s: Seq<char>) -> bool {
    &&& forall|i: int| 0 <= i < s.len() ==> #[trigger] s[i] != '\n'
    &&& s.len() > 0 ==> s.last() != '\r'
}

/// Some lines, each with a line feed behind it.
pub open spec fn ended(lines: Seq<Seq<char>>) -> Seq<char>
    decreases lines.len(),
{
    if lines.len() == 0 {
        Seq::empty()
    } else {
        ended(lines.drop_last()) + lines.last() + seq!['\n']
    }
}

proof fn lemma_line_push(s: Seq<char>, l: Seq<char>, i: int)
    requires
        s.len() > 0 ==> s.last() == '\n',
        one_line(l),
        0 <= i <= s.len(),
    ensures
        text::lines_from(s + l + seq!['\n'], i) == text::lines_from(s, i).push(l),
    decreases s.len() - i,
{
    let full = s + l + seq!['\n'];
    let end = full.len() as int;
    let feed = text::only('\n');
    if i == s.len() {
        assert forall|j: int| i <= j < end - 1 implies !feed(full[j]) by {
            assert(full[j] == l[j - i]);
        }
        assert(full[end - 1] == '\n');
        text::lemma_first_is(full, i, feed, end - 1);
        assert(full.subrange(i, end - 1) =~= l);
        assert(text::lines_from(full, end) =~= Seq::<Seq<char>>::empty());
        assert(text::lines_from(full, i) =~= text::lines_from(s, i).push(l));
    } else {
        let e = text::first_from(s, i, feed);
        text::lemma_first_from(s, i, feed);
        if e == s.len() {
            assert(!feed(s[s.len() - 1]));
        }
        assert forall|j: int| i <= j < e implies !feed(full[j]) by {
            assert(full[j] == s[j]);
        }
        assert(full[e] == s[e]);
        text::lemma_first_is(full, i, feed, e);
        lemma_line_push(s, l, e + 1);
        assert(full.subrange(i, e) =~= s.subrange(i, e));
        assert(text::lines_from(full, i) =~= text::lines_from(s, i).push(l));
    }
}

/// Lines that are written one after the other are read back as they were.
pub proof fn lines_survive_writing(lines: Seq<Seq<char>>)
    requires
        forall|i: int| 0 <= i < lines.len() ==> one_line(#[trigger] lines[i]),
    ensures
        text::lines_of(ended(lines)) == lines,
    decreases lines.len(),
{
    if lines.len() == 0 {
        assert(text::lines_of(ended(lines)) =~= lines);
    } else {
        let front = lines.drop_last();
        assert forall|i: int| 0 <= i < front.len() implies one_line(#[trigger] front[i]) by {
            assert(front[i] == lines[i]);
        }
        lines_survive_writing(front);
        assert(one_line(lines[lines.len() - 1]));
        if front.len() > 0 {
            assert(ended(front).last() == '\n');
        }
        lemma_line_push(ended(front), lines.last(), 0);
        assert(text::lines_of(ended(lines)) =~= lines);
    }
}

/// Joining lines by line feeds and ending the last is ending each.
pub proof fn lemma_joined_lines(lines: Seq<Seq<char>>)
    requires
        lines.len() > 0,
    ensures
        text::join_of(lines, "\n"@).push('\n') == ended(lines),
    decreases lines.len(),
{
    reveal_strlit("\n");
    assert("\n"@ =~= seq!['\n']);
    if lines.len() == 1 {
        assert(lines.drop_last() =~= Seq::<Seq<char>>::empty());
        assert(text::join_of(lines, "\n"@).push('\n') =~= ended(lines)) by {
            reveal_with_fuel(ended, 2);
        }
    } else {
        let front = lines.drop_last();
        lemma_joined_lines(front);
        assert(text::join_of(lines, "\n"@).push('\n') =~= ended(lines));
    }
}

// ---- Replacing and cutting ----

/// Where a character is replaced by another, a text keeps its length and its
/// other characters.
pub proof fn replacing_one_for_one(s: Seq<char>, x: char, y: char)
    ensures
        text::replaced(s, x, seq![y]).len() == s.len(),
        forall|i: int|
            0 <= i < s.len() ==> #[trigger] text::replaced(s, x, seq![y])[i] == (if s[i] == x {
                y
            } else {
                s[i]
            }),
    decreases s.len(),
{
    if s.len() > 0 {
        replacing_one_for_one(s.drop_last(), x, y);
        let front = text::replaced(s.drop_last(), x, seq![y]);
        assert forall|i: int| 0 <= i < s.len() implies #[trigger] text::replaced(s, x, seq![y])[i]
            == (if s[i] == x {
            y
        } else {
            s[i]
        }) by {
            if i < front.len() {
                assert(text::replaced(s, x, seq![y])[i] == front[i]);
            }
        }
    }
}

/// A text is cut at the first of a character: what is before it has none.
pub proof fn cutting_at_the_first(a: Seq<char>, x: char, b: Seq<char>)
    requires
        !a.contains(x),
    ensures
        text::around(a + seq![x] + b, x) == Some((a, b)),
        text::around(a, x) is None,
        !b.contains(x) ==> text::after_last(a + seq![x] + b, x) == b,
        text::after_last(a, x) == a,
{
    let s = a + seq![x] + b;
    let only = text::only(x);
    assert forall|j: int| 0 <= j < a.len() implies !only(s[j]) by {
        assert(s[j] == a[j]);
        assert(a.contains(a[j]));
    }
    assert(s[a.len() as int] == x);
    text::lemma_first_is(s, 0, only, a.len() as int);
    assert(s.take(a.len() as int) =~= a);
    assert(s.skip(a.len() as int + 1) =~= b);
    assert forall|j: int| 0 <= j < a.len() implies !only(a[j]) by {
        assert(a.contains(a[j]));
    }
    text::lemma_first_is(a, 0, only, a.len() as int);
    let but = text::but(x);
    text::lemma_cut_end(a, a.len() as int, but);
    let e = text::cut_end(a, a.len() as int, but);
    if e > 0 {
        assert(!but(a[e - 1]));
        assert(a.contains(a[e - 1]));
    }
    assert(a.skip(0) =~= a);
    if !b.contains(x) {
        text::lemma_cut_end(s, s.len() as int, but);
        let c = text::cut_end(s, s.len() as int, but);
        if c > a.len() + 1 {
            assert(!but(s[c - 1]));
            assert(s[c - 1] == b[c - a.len() - 2]);
            assert(b.contains(b[c - a.len() - 2]));
        }
        if c < a.len() + 1 {
            assert(but(s[a.len() as int]));
        }
        assert(s.skip(c) =~= b);
    }
}

/// What follows the last of some signs is what stands behind it, whatever stands
/// before.
pub proof fn cutting_at_the_last(a: Seq<char>, x: char, b: Seq<char>)
    requires
        !b.contains(x),
    ensures
        text::after_last(a + seq![x] + b, x) == b,
{
    let s = a + seq![x] + b;
    let but = text::but(x);
    text::lemma_cut_end(s, s.len() as int, but);
    let c = text::cut_end(s, s.len() as int, but);
    if c > a.len() + 1 {
        assert(!but(s[c - 1]));
        assert(s[c - 1] == b[c - a.len() - 2]);
        assert(b.contains(b[c - a.len() - 2]));
    }
    if c < a.len() + 1 {
        assert(but(s[a.len() as int]));
    }
    assert(s.skip(c) =~= b);
}

// ---- Numbers ----

/// The number that some decimal digits stand for.
pub open spec fn number(s: Seq<char>) -> nat
    decreases s.len(),
{
    if s.len() == 0 {
        0
    } else {
        number(s.drop_last()) * 10 + (s.last() as nat - '0' as nat) as nat
    }
}

/// A number in decimal is digits that stand for it, without a leading zero.
pub proof fn decimals_stand_for_their_number(n: nat)
    ensures
        number(text::decimal_of(n)) == n,
        text::decimal_of(n).len() > 0,
        forall|i: int|
            0 <= i < text::decimal_of(n).len() ==> '0' <= (#[trigger] text::decimal_of(n)[i])
                && text::decimal_of(n)[i] <= '9',
        n > 0 ==> text::decimal_of(n)[0] != '0',
    decreases n,
{
    let d = text::decimal_of(n);
    if n < 10 {
        assert(d.drop_last() =~= Seq::<char>::empty());
        reveal_with_fuel(number, 2);
    } else {
        decimals_stand_for_their_number(n / 10);
        let front = text::decimal_of(n / 10);
        assert(d.drop_last() =~= front);
        assert forall|i: int| 0 <= i < d.len() implies '0' <= (#[trigger] d[i]) && d[i] <= '9' by {
            if i < front.len() {
                assert(d[i] == front[i]);
            }
        }
    }
}

// ---- Paths ----

/// Whether a text is one name of a path: not empty, without slashes, and not a
/// dot.
pub open spec fn path_name(s: Seq<char>) -> bool {
    s.len() > 0 && !s.contains('/') && s != seq!['.']
}

proof fn lemma_names_push(s: Seq<char>, name: Seq<char>, i: int)
    requires
        path_name(name),
        0 <= i <= s.len(),
        i == s.len() ==> s.len() > 0 && s.last() == '/',
        s.len() > 0 ==> s.last() == '/',
    ensures
        paths::names_from(s + name, i) == paths::names_from(s, i).push(name),
    decreases s.len() - i,
{
    let full = s + name;
    let slash = text::only('/');
    if i == s.len() {
        assert forall|j: int| i <= j < full.len() implies !slash(full[j]) by {
            assert(full[j] == name[j - i]);
            assert(name.contains(name[j - i]));
        }
        text::lemma_first_is(full, i, slash, full.len() as int);
        assert(full.subrange(i, full.len() as int) =~= name);
        assert(paths::names_from(full, i) =~= paths::names_from(s, i).push(name));
    } else {
        let e = text::first_from(s, i, slash);
        text::lemma_first_from(s, i, slash);
        if e == s.len() {
            assert(!slash(s[s.len() - 1]));
        }
        assert forall|j: int| i <= j < e implies !slash(full[j]) by {
            assert(full[j] == s[j]);
        }
        assert(full[e] == s[e]);
        text::lemma_first_is(full, i, slash, e);
        lemma_names_push(s, name, e + 1);
        assert(full.subrange(i, e) =~= s.subrange(i, e));
        assert(paths::names_from(full, i) =~= paths::names_from(s, i).push(name));
    }
}

/// The last name of a path below a directory is the name it was given there.
pub proof fn a_path_ends_in_its_name(dir: Seq<char>, name: Seq<char>)
    requires
        path_name(name),
        name != seq!['.', '.'],
        dir.len() > 0,
        dir.last() != '/',
    ensures
        paths::file_name_of(paths::joined(dir, name)) == Some(name),
        paths::joined(dir, name) == dir + seq!['/'] + name,
{
    assert(name.contains(name[0]));
    let base = dir + seq!['/'];
    lemma_names_push(base, name, 0);
    let names = paths::names_from(base + name, 0);
    assert(names.last() == name);
}

/// Doubled slashes, a slash at the end and single dots on the way name no other
/// place.
pub proof fn slashes_and_dots_on_the_way(dir: Seq<char>)
    requires
        dir.len() > 0,
        dir.last() == '/',
    ensures
        paths::parts_of(dir + seq!['/']) == paths::parts_of(dir),
        paths::parts_of(dir + seq!['.', '/']) == paths::parts_of(dir),
{
    lemma_names_slash(dir, 0);
    lemma_names_dot(dir, 0);
}

proof fn lemma_names_slash(s: Seq<char>, i: int)
    requires
        0 <= i <= s.len(),
        s.len() > 0,
        s.last() == '/',
    ensures
        paths::names_from(s + seq!['/'], i) == paths::names_from(s, i),
    decreases s.len() - i,
{
    let full = s + seq!['/'];
    let slash = text::only('/');
    if i == s.len() {
        assert(full[i] == '/');
        text::lemma_first_is(full, i, slash, i);
        assert(full.subrange(i, i) =~= Seq::<char>::empty());
        assert(paths::names_from(full, i + 1) =~= Seq::<Seq<char>>::empty());
    } else {
        let e = text::first_from(s, i, slash);
        text::lemma_first_from(s, i, slash);
        if e == s.len() {
            assert(!slash(s[s.len() - 1]));
        }
        assert forall|j: int| i <= j < e implies !slash(full[j]) by {
            assert(full[j] == s[j]);
        }
        assert(full[e] == s[e]);
        text::lemma_first_is(full, i, slash, e);
        lemma_names_slash(s, e + 1);
        assert(full.subrange(i, e) =~= s.subrange(i, e));
    }
}

proof fn lemma_names_dot(s: Seq<char>, i: int)
    requires
        0 <= i <= s.len(),
        s.len() > 0,
        s.last() == '/',
    ensures
        paths::names_from(s + seq!['.', '/'], i) == paths::names_from(s, i),
    decreases s.len() - i,
{
    let full = s + seq!['.', '/'];
    let slash = text::only('/');
    if i == s.len() {
        assert(full[i] == '.' && full[i + 1] == '/');
        assert forall|j: int| i <= j < i + 1 implies !slash(full[j]) by {}
        text::lemma_first_is(full, i, slash, i + 1);
        assert(full.subrange(i, i + 1) =~= seq!['.']);
        assert(paths::names_from(full, i + 2) =~= Seq::<Seq<char>>::empty());
    } else {
        let e = text::first_from(s, i, slash);
        text::lemma_first_from(s, i, slash);
        if e == s.len() {
            assert(!slash(s[s.len() - 1]));
        }
        assert forall|j: int| i <= j < e implies !slash(full[j]) by {
            assert(full[j] == s[j]);
        }
        assert(full[e] == s[e]);
        text::lemma_first_is(full, i, slash, e);
        lemma_names_dot(s, e + 1);
        assert(full.subrange(i, e) =~= s.subrange(i, e));
    }
}

/// A path from the root is another than the same names from elsewhere, and one
/// that begins in the current directory by name is another than one that does
/// not.
pub proof fn places_are_told_apart(s: Seq<char>)
    ensures
        paths::parts_of(seq!['/'] + s).absolute,
        s.len() == 0 || s[0] != '/' ==> !paths::parts_of(s).absolute,
        paths::parts_of(seq!['.', '/'] + s).dotted,
        paths::parts_of(seq!['.']).dotted,
        s.len() == 0 || s[0] != '.' ==> !paths::parts_of(s).dotted,
        s.len() > 1 && s[1] != '/' ==> !paths::parts_of(s).dotted,
{
}

} // verus!
