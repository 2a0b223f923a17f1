//! Command lines and short names: splitting a line into words, slugs for
//! branches, snippets for messages.

use vstd::prelude::*;
use vstd::string::*;

use crate::offsets;
use crate::offsets::len_utf8;
use crate::text;
use crate::text::{
    is_alnum, is_whitespace, join, owned, slice_text, split_whitespace, to_chars,
    to_lower, trim,
};

verus! {

// ---- Splitting command lines ----

/// What a character of a command line is read in: nothing, or quotes.
#[derive(Clone, Copy, PartialEq, Eq, Structural, Debug)]
pub enum Quote {
    Open,
    Single,
    Double,
}

/// A word that ends: nothing where it is empty and was not quoted.
pub open spec fn finished(word: Seq<char>, quoted: bool) -> Seq<Seq<char>> {
    if word.len() > 0 || quoted {
        seq![word]
    } else {
        Seq::empty()
    }
}

/// The words of a command line from index `i` on, where `word` has been read
/// of the current one, `quote` is what `i` stands in, and `quoted` says
/// whether the current word had quotes:
///
/// - quotes group, each kind within the other is an ordinary character;
/// - a backslash outside single quotes takes the next character as it is, and
///   means nothing at the end;
/// - white space outside quotes ends a word.
pub open spec fn words_quoted(
    s: Seq<char>,
    i: int,
    word: Seq<char>,
    quote: Quote,
    quoted: bool,
) -> Seq<Seq<char>>
    decreases s.len() - i,
{
    if i < 0 || i >= s.len() {
        finished(word, quoted)
    } else if s[i] == '\'' && quote != Quote::Double {
        let next = if quote == Quote::Single {
            Quote::Open
        } else {
            Quote::Single
        };
        words_quoted(s, i + 1, word, next, true)
    } else if s[i] == '"' && quote != Quote::Single {
        let next = if quote == Quote::Double {
            Quote::Open
        } else {
            Quote::Double
        };
        words_quoted(s, i + 1, word, next, true)
    } else if s[i] == '\\' && quote != Quote::Single {
        if i + 1 < s.len() {
            words_quoted(s, i + 2, word.push(s[i + 1]), quote, quoted)
        } else {
            finished(word, quoted)
        }
    } else if text::white(s[i]) && quote == Quote::Open {
        finished(word, quoted) + words_quoted(s, i + 1, Seq::empty(), quote, false)
    } else {
        words_quoted(s, i + 1, word.push(s[i]), quote, quoted)
    }
}

/// The words of a command line.
pub open spec fn command_words(s: Seq<char>) -> Seq<Seq<char>> {
    words_quoted(s, 0, Seq::empty(), Quote::Open, false)
}

/// Split a command line into program and arguments, honoring quotes and
/// backslash escapes (a small subset of shell word splitting).
pub fn split_command(input: &str) -> (r: Vec<String>)
    ensures
        text::texts(r@) == command_words(input@),
{
    let v: Vec<char> = to_chars(input);
    let n: usize = v.len();
    let mut parts: Vec<String> = Vec::new();
    let mut current: String = String::new();
    let mut quote: Quote = Quote::Open;
    let mut had_quotes: bool = false;
    let mut empty: bool = true;
    let mut i: usize = 0;
    assert(current@ =~= Seq::<char>::empty());
    assert(text::texts(parts@) =~= Seq::<Seq<char>>::empty());
    assert(Seq::<Seq<char>>::empty() + command_words(input@) =~= command_words(input@));
    while i < n
        invariant
            v@ == input@,
            n == v@.len(),
            i <= n,
            empty == (current@.len() == 0),
            text::texts(parts@) + words_quoted(input@, i as int, current@, quote, had_quotes)
                == command_words(input@),
        decreases n - i,
    {
        let c: char = v[i];
        if c == '\'' && quote != Quote::Double {
            quote = if quote == Quote::Single {
                Quote::Open
            } else {
                Quote::Single
            };
            had_quotes = true;
            i += 1;
        } else if c == '"' && quote != Quote::Single {
            quote = if quote == Quote::Double {
                Quote::Open
            } else {
                Quote::Double
            };
            had_quotes = true;
            i += 1;
        } else if c == '\\' && quote != Quote::Single {
            if i + 1 < n {
                current.push(v[i + 1]);
                empty = false;
                i += 2;
            } else {
                i += 1;
            }
        } else if is_whitespace(c) && quote == Quote::Open {
            let ghost before = text::texts(parts@);
            let ghost word = current@;
            let ghost rest = words_quoted(input@, i + 1, Seq::empty(), quote, false);
            if !empty || had_quotes {
                parts.push(current);
                assert(text::texts(parts@) =~= before.push(word));
            }
            assert(text::texts(parts@) + rest =~= before + (finished(word, had_quotes) + rest));
            current = String::new();
            assert(current@ =~= Seq::<char>::empty());
            empty = true;
            had_quotes = false;
            i += 1;
        } else {
            current.push(c);
            empty = false;
            i += 1;
        }
    }
    let ghost before = text::texts(parts@);
    let ghost word = current@;
    if !empty || had_quotes {
        parts.push(current);
        assert(text::texts(parts@) =~= before.push(word));
    }
    assert(text::texts(parts@) =~= before + finished(word, had_quotes));
    parts
}

/// Whether a text has none of the characters that quote or escape.
pub open spec fn unquoted(s: Seq<char>) -> bool {
    forall|i: int|
        0 <= i < s.len() ==> #[trigger] s[i] != '\'' && s[i] != '"' && s[i] != '\\'
}

/// A command line without quotes and escapes splits at white space.
pub proof fn plain_lines_split_at_white_space(s: Seq<char>)
    requires
        unquoted(s),
    ensures
        command_words(s) == text::words_of(s),
{
    assert(s.subrange(0, 0) =~= Seq::<char>::empty());
    lemma_plain(s, 0, 0);
}

proof fn lemma_plain(s: Seq<char>, a: int, i: int)
    requires
        unquoted(s),
        0 <= a <= i <= s.len(),
        forall|j: int| a <= j < i ==> !text::white(s[j]),
    ensures
        words_quoted(s, i, s.subrange(a, i), Quote::Open, false) == (if a == i {
            text::words_from(s, i)
        } else {
            let e = text::first_from(s, i, text::whites());
            seq![s.subrange(a, e)] + text::words_from(s, e)
        }),
    decreases s.len() - i,
{
    let word = s.subrange(a, i);
    if i == s.len() {
        if a < i {
            assert(seq![word] + Seq::<Seq<char>>::empty() =~= seq![word]);
        }
    } else if text::white(s[i]) {
        assert(s.subrange(i + 1, i + 1) =~= Seq::<char>::empty());
        lemma_plain(s, i + 1, i + 1);
        lemma_words_skip(s, i);
        if a == i {
            assert(Seq::<Seq<char>>::empty() + text::words_from(s, i + 1) =~= text::words_from(
                s,
                i + 1,
            ));
        }
    } else {
        assert(word.push(s[i]) =~= s.subrange(a, i + 1));
        lemma_plain(s, a, i + 1);
        if a == i {
            assert(text::first_from(s, i, text::blacks()) == i);
        }
    }
}

proof fn lemma_words_skip(s: Seq<char>, i: int)
    requires
        0 <= i < s.len(),
        text::white(s[i]),
    ensures
        text::words_from(s, i) == text::words_from(s, i + 1),
{
    assert(text::first_from(s, i, text::blacks()) == text::first_from(s, i + 1, text::blacks()));
    text::lemma_first_from(s, i + 1, text::blacks());
}

/// A word in double quotes stays whole, white space and all, as long as it has
/// no double quote or backslash of its own.
pub proof fn quotes_keep_a_word_whole(word: Seq<char>)
    requires
        !word.contains('"'),
        !word.contains('\\'),
    ensures
        command_words(seq!['"'] + word + seq!['"']) == seq![word],
{
    let s = seq!['"'] + word + seq!['"'];
    assert(s[0] == '"');
    assert(words_quoted(s, 0, Seq::empty(), Quote::Open, false) == words_quoted(
        s,
        1,
        Seq::empty(),
        Quote::Double,
        true,
    ));
    assert(word.take(0) =~= Seq::<char>::empty());
    lemma_quoted(word, 0);
}

proof fn lemma_quoted(word: Seq<char>, k: int)
    requires
        !word.contains('"'),
        !word.contains('\\'),
        0 <= k <= word.len(),
    ensures
        words_quoted(
            seq!['"'] + word + seq!['"'],
            k + 1,
            word.take(k),
            Quote::Double,
            true,
        ) == seq![word],
    decreases word.len() - k,
{
    let s = seq!['"'] + word + seq!['"'];
    if k == word.len() {
        assert(s[k + 1] == '"');
        assert(word.take(k) =~= word);
        assert(words_quoted(s, k + 2, word, Quote::Open, true) == finished(word, true));
    } else {
        assert(s[k + 1] == word[k]);
        assert(word.contains(word[k]));
        assert(word.take(k).push(word[k]) =~= word.take(k + 1));
        lemma_quoted(word, k + 1);
    }
}

// ---- Slugs ----

/// A word with nothing but its ASCII letters and digits, in lower case.
pub open spec fn slug_word(word: Seq<char>) -> Seq<char>
    decreases word.len(),
{
    if word.len() == 0 {
        Seq::empty()
    } else if text::alnum(word.last()) {
        slug_word(word.drop_last()).push(text::lower(word.last()))
    } else {
        slug_word(word.drop_last())
    }
}

/// The slugs of some words, without the empty ones.
pub open spec fn slug_words(words: Seq<Seq<char>>) -> Seq<Seq<char>>
    decreases words.len(),
{
    if words.len() == 0 {
        Seq::empty()
    } else if slug_word(words.last()).len() > 0 {
        slug_words(words.drop_last()).push(slug_word(words.last()))
    } else {
        slug_words(words.drop_last())
    }
}

/// The first `n` of some words, or all of them.
pub open spec fn first_words(words: Seq<Seq<char>>, n: int) -> Seq<Seq<char>> {
    if n < words.len() {
        words.take(n)
    } else {
        words
    }
}

/// A slug of the first `max_words` words of a text.
pub open spec fn slug_of(s: Seq<char>, max_words: int) -> Seq<char> {
    let slugs = slug_words(first_words(text::words_of(s), max_words));
    if slugs.len() == 0 {
        "task"@
    } else {
        text::join_of(slugs, "-"@)
    }
}

fn slug(word: &str) -> (r: String)
    ensures
        r@ == slug_word(word@),
{
    let v: Vec<char> = to_chars(word);
    let mut r: String = String::new();
    let mut i: usize = 0;
    assert(r@ =~= slug_word(v@.take(0)));
    while i < v.len()
        invariant
            i <= v@.len(),
            r@ == slug_word(v@.take(i as int)),
        decreases v@.len() - i,
    {
        assert(v@.take(i + 1).drop_last() =~= v@.take(i as int));
        if is_alnum(v[i]) {
            r.push(to_lower(v[i]));
        }
        i += 1;
    }
    assert(v@.take(v@.len() as int) =~= v@);
    r
}

/// A name for a branch: the first `max_words` words of `s`, reduced to lower
/// case letters and digits, with dashes between them.
pub fn slugify(s: &str, max_words: usize) -> (r: String)
    ensures
        r@ == slug_of(s@, max_words as int),
{
    let words: Vec<String> = split_whitespace(s);
    let ghost all = text::texts(words@);
    assert(all.len() == words@.len());
    let n: usize = if max_words < words.len() {
        max_words
    } else {
        words.len()
    };
    let mut slugs: Vec<String> = Vec::new();
    let mut i: usize = 0;
    assert(text::texts(slugs@) =~= slug_words(all.take(0)));
    while i < n
        invariant
            i <= n <= words@.len(),
            all == text::texts(words@),
            text::texts(slugs@) == slug_words(all.take(i as int)),
        decreases n - i,
    {
        let w: String = slug(words[i].as_str());
        let ghost before = text::texts(slugs@);
        proof {
            assert(all.take(i + 1).drop_last() =~= all.take(i as int));
            assert(all.take(i + 1).last() == words@[i as int]@);
        }
        if !w.as_str().is_empty() {
            slugs.push(w);
            assert(text::texts(slugs@) =~= before.push(w@));
        }
        i += 1;
    }
    assert(all.take(n as int) =~= first_words(all, max_words as int));
    assert(text::texts(slugs@).len() == slugs@.len());
    if slugs.len() == 0 {
        owned("task")
    } else {
        join(&slugs, "-")
    }
}

/// A slug is never empty, so a branch name made of one is not either.
pub proof fn slugs_are_not_empty(s: Seq<char>, max_words: int)
    ensures
        slug_of(s, max_words).len() > 0,
{
    reveal_strlit("task");
    let slugs = slug_words(first_words(text::words_of(s), max_words));
    lemma_slug_words(first_words(text::words_of(s), max_words));
    if slugs.len() > 0 {
        lemma_join_len(slugs, "-"@);
    }
}

proof fn lemma_slug_words(words: Seq<Seq<char>>)
    ensures
        forall|i: int| 0 <= i < slug_words(words).len() ==> #[trigger] slug_words(words)[i].len() > 0,
    decreases words.len(),
{
    if words.len() > 0 {
        let before = slug_words(words.drop_last());
        lemma_slug_words(words.drop_last());
        assert forall|i: int| 0 <= i < slug_words(words).len() implies #[trigger] slug_words(
            words,
        )[i].len() > 0 by {
            if i < before.len() {
                assert(before[i].len() > 0);
            }
        }
    }
}

proof fn lemma_join_len(parts: Seq<Seq<char>>, sep: Seq<char>)
    requires
        parts.len() > 0,
        parts.last().len() > 0,
    ensures
        text::join_of(parts, sep).len() > 0,
{
}

/// What the parts of a slug are made of.
pub open spec fn slug_char(c: char) -> bool {
    'a' <= c <= 'z' || '0' <= c <= '9'
}

/// How many dashes a text has.
pub open spec fn dashes(s: Seq<char>) -> nat {
    s.filter(|c: char| c == '-').len()
}

/// A slug holds only lower case letters, digits and dashes. The dashes are
/// single and stand inside, between its parts, and there are at most
/// `max_words` parts, or one where none is asked for.
pub proof fn slugs_are_names(s: Seq<char>, max_words: nat)
    ensures
        forall|i: int|
            0 <= i < slug_of(s, max_words as int).len() ==> slug_char(
                #[trigger] slug_of(s, max_words as int)[i],
            ) || slug_of(s, max_words as int)[i] == '-',
        slug_of(s, max_words as int)[0] != '-',
        slug_of(s, max_words as int).last() != '-',
        forall|i: int, j: int|
            0 <= i && j == i + 1 && j < slug_of(s, max_words as int).len()
                && #[trigger] slug_of(s, max_words as int)[i] == '-' ==> #[trigger] slug_of(
                s,
                max_words as int,
            )[j] != '-',
        dashes(slug_of(s, max_words as int)) + 1 <= max_words || max_words == 0 && dashes(
            slug_of(s, max_words as int),
        ) == 0,
{
    let words = first_words(text::words_of(s), max_words as int);
    let slugs = slug_words(words);
    lemma_slug_words(words);
    lemma_slug_parts(words);
    if slugs.len() == 0 {
        reveal_strlit("task");
        lemma_dashless("task"@);
    } else {
        lemma_joined_name(slugs);
    }
}

proof fn lemma_slug_word(word: Seq<char>)
    ensures
        forall|i: int| 0 <= i < slug_word(word).len() ==> slug_char(#[trigger] slug_word(word)[i]),
    decreases word.len(),
{
    if word.len() > 0 {
        let before = slug_word(word.drop_last());
        lemma_slug_word(word.drop_last());
        assert forall|i: int| 0 <= i < slug_word(word).len() implies slug_char(
            #[trigger] slug_word(word)[i],
        ) by {
            if i < before.len() {
                assert(slug_char(before[i]));
            }
        }
    }
}

proof fn lemma_slug_parts(words: Seq<Seq<char>>)
    ensures
        slug_words(words).len() <= words.len(),
        forall|i: int, k: int|
            0 <= i < slug_words(words).len() && 0 <= k < slug_words(words)[i].len() ==> slug_char(
                #[trigger] slug_words(words)[i][k],
            ),
    decreases words.len(),
{
    if words.len() > 0 {
        let before = slug_words(words.drop_last());
        lemma_slug_parts(words.drop_last());
        lemma_slug_word(words.last());
        assert forall|i: int, k: int|
            0 <= i < slug_words(words).len() && 0 <= k < slug_words(words)[i].len() implies slug_char(
            #[trigger] slug_words(words)[i][k],
        ) by {
            if i < before.len() {
                assert(slug_char(before[i][k]));
            }
        }
    }
}

proof fn lemma_dashless(s: Seq<char>)
    requires
        forall|i: int| 0 <= i < s.len() ==> #[trigger] s[i] != '-',
    ensures
        dashes(s) == 0,
    decreases s.len(),
{
    reveal(Seq::filter);
    if s.len() > 0 {
        assert forall|i: int| 0 <= i < s.drop_last().len() implies #[trigger] s.drop_last()[i]
            != '-' by {
            assert(s.drop_last()[i] == s[i]);
        }
        lemma_dashless(s.drop_last());
    }
}

proof fn lemma_joined_name(parts: Seq<Seq<char>>)
    requires
        parts.len() > 0,
        forall|i: int| 0 <= i < parts.len() ==> #[trigger] parts[i].len() > 0,
        forall|i: int, k: int|
            0 <= i < parts.len() && 0 <= k < parts[i].len() ==> slug_char(#[trigger] parts[i][k]),
    ensures
        ({
            let r = text::join_of(parts, "-"@);
            &&& r.len() > 0
            &&& r[0] != '-'
            &&& r.last() != '-'
            &&& dashes(r) == parts.len() - 1
            &&& forall|i: int| 0 <= i < r.len() ==> slug_char(#[trigger] r[i]) || r[i] == '-'
            &&& forall|i: int, j: int|
                0 <= i && j == i + 1 && j < r.len() && #[trigger] r[i] == '-' ==> #[trigger] r[j]
                    != '-'
        }),
    decreases parts.len(),
{
    reveal_strlit("-");
    let dash = |c: char| c == '-';
    let part = parts.last();
    assert forall|k: int| 0 <= k < part.len() implies slug_char(#[trigger] part[k]) by {
        assert(slug_char(parts[parts.len() - 1][k]));
    }
    lemma_dashless(part);
    if parts.len() > 1 {
        let front = parts.drop_last();
        assert forall|i: int, k: int|
            0 <= i < front.len() && 0 <= k < front[i].len() implies slug_char(
            #[trigger] front[i][k],
        ) by {
            assert(slug_char(parts[i][k]));
        }
        lemma_joined_name(front);
        let before = text::join_of(front, "-"@);
        let r = text::join_of(parts, "-"@);
        assert("-"@ =~= seq!['-']);
        assert(r =~= before.push('-') + part);
        Seq::filter_distributes_over_add(before.push('-'), part, dash);
        assert(before.push('-').drop_last() =~= before);
        assert(before.push('-').filter(dash) == before.filter(dash).push('-')) by {
            reveal(Seq::filter);
        }
    }
}

/// A branch name reduced to what a directory name may hold.
pub open spec fn path_safe(branch: Seq<char>) -> Seq<char> {
    branch.map_values(
        |c: char|
            if text::alnum(c) || c == '-' || c == '_' {
                c
            } else {
                '-'
            },
    )
}

/// A branch name reduced to what a directory name may hold: anything but ASCII
/// letters, digits, dashes and underscores becomes a dash.
pub fn sanitize_for_path(branch: &str) -> (r: String)
    ensures
        r@ == path_safe(branch@),
{
    let v: Vec<char> = to_chars(branch);
    let mut r: String = String::new();
    let mut i: usize = 0;
    assert(r@ =~= path_safe(branch@).take(0));
    while i < v.len()
        invariant
            i <= v@.len(),
            v@ == branch@,
            r@ == path_safe(branch@).take(i as int),
        decreases v@.len() - i,
    {
        let c: char = v[i];
        let ghost before = r@;
        if is_alnum(c) || c == '-' || c == '_' {
            r.push(c);
        } else {
            r.push('-');
        }
        assert(r@ =~= path_safe(branch@).take(i + 1));
        i += 1;
    }
    assert(path_safe(branch@).take(v@.len() as int) =~= path_safe(branch@));
    r
}

/// A directory name made of a branch never leaves its parent: it has no slash
/// and no dot.
pub proof fn path_safe_stays_put(branch: Seq<char>)
    ensures
        !path_safe(branch).contains('/'),
        !path_safe(branch).contains('.'),
        path_safe(branch).len() == branch.len(),
{
}

// ---- Snippets ----

/// The most characters, from `k` on, that take at most `limit` bytes.
pub open spec fn fitting(s: Seq<char>, k: int, limit: int) -> int
    decreases s.len() - k,
{
    if 0 <= k < s.len() && offsets::byte_len(s.take(k + 1)) <= limit {
        fitting(s, k + 1, limit)
    } else {
        k
    }
}

/// A message cut for reporting: at most 200 bytes of it, with a mark where
/// something was cut.
pub open spec fn snippet_of(s: Seq<char>) -> Seq<char> {
    let t = text::trim_of(s);
    if t.len() == 0 {
        "(no output)"@
    } else {
        let k = fitting(t, 0, 200);
        if k < t.len() {
            t.take(k) + "…"@
        } else {
            t
        }
    }
}

/// About the first 200 characters of a message, for error reporting.
pub fn snippet(s: &str) -> (r: String)
    ensures
        r@ == snippet_of(s@),
{
    let t: String = trim(s);
    if t.as_str().is_empty() {
        return owned("(no output)");
    }
    let v: Vec<char> = to_chars(t.as_str());
    let n: usize = v.len();
    let mut k: usize = 0;
    let mut bytes: usize = 0;
    assert(v@.take(0).len() == 0);
    assert(v@.take(n as int) =~= v@);
    let mut full: bool = false;
    while k < n && !full
        invariant
            v@ == t@,
            n == v@.len(),
            k <= n,
            bytes <= 200,
            bytes == offsets::byte_len(v@.take(k as int)),
            fitting(v@, k as int, 200) == fitting(v@, 0, 200),
            full ==> fitting(v@, k as int, 200) == k,
        decreases n - k + (if full {
            0int
        } else {
            1
        }),
    {
        proof {
            offsets::lemma_byte_len_step(v@, k as int);
        }
        let width: usize = len_utf8(v[k]);
        if bytes + width <= 200 {
            bytes += width;
            k += 1;
        } else {
            full = true;
        }
    }
    if k < n {
        let mut r: String = slice_text(&v, 0, k);
        assert(r@ =~= v@.take(k as int));
        r.push_str("…");
        r
    } else {
        t
    }
}

proof fn lemma_fitting(s: Seq<char>, k: int, limit: int)
    requires
        0 <= k <= s.len(),
        offsets::byte_len(s.take(k)) <= limit,
    ensures
        k <= fitting(s, k, limit) <= s.len(),
        offsets::byte_len(s.take(fitting(s, k, limit))) <= limit,
        fitting(s, k, limit) < s.len() ==> offsets::byte_len(s.take(fitting(s, k, limit) + 1))
            > limit,
    decreases s.len() - k,
{
    if k < s.len() && offsets::byte_len(s.take(k + 1)) <= limit {
        lemma_fitting(s, k + 1, limit);
    }
}

/// A snippet never says nothing, and takes at most 200 bytes and those of the
/// mark. What is short enough is given whole, and of what is not no character
/// that still fits is left out.
pub proof fn snippets_are_short(s: Seq<char>)
    ensures
        snippet_of(s).len() > 0,
        offsets::byte_len(snippet_of(s)) <= 203,
        !text::blank(s) && offsets::byte_len(text::trim_of(s)) <= 200 ==> snippet_of(s)
            == text::trim_of(s),
        offsets::byte_len(text::trim_of(s)) > 200 ==> exists|k: int|
            0 <= k < text::trim_of(s).len() && snippet_of(s) == #[trigger] text::trim_of(s).take(k)
                + "…"@ && offsets::byte_len(text::trim_of(s).take(k)) <= 200
                && offsets::byte_len(text::trim_of(s).take(k + 1)) > 200,
{
    let t = text::trim_of(s);
    reveal_strlit("(no output)");
    reveal_strlit("…");
    assert(t.take(0) =~= Seq::<char>::empty());
    assert(t.take(t.len() as int) =~= t);
    if t.len() == 0 {
        assert(t =~= Seq::<char>::empty());
        reveal_with_fuel(offsets::byte_len, 12);
        assert(offsets::byte_len("(no output)"@) <= 203);
    } else {
        lemma_fitting(t, 0, 200);
        let k = fitting(t, 0, 200);
        if k < t.len() {
            offsets::lemma_byte_len_concat(t.take(k), "…"@);
            offsets::lemma_byte_len_grows(t, k + 1, t.len() as int);
            assert("…"@.drop_last() =~= Seq::<char>::empty());
            assert(offsets::byte_len("…"@) == 3);
        }
    }
}

} // verus!
