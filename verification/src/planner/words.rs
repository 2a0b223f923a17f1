//! How a command line is taken apart, said of the words it was put together
//! from.

use vstd::prelude::*;

use crate::planner::command;
use crate::planner::command::Quote;
use crate::text;

verus! {

proof fn lemma_words_move(
    a: Seq<char>,
    b: Seq<char>,
    i: int,
    word: Seq<char>,
    quote: Quote,
    quoted: bool,
)
    requires
        0 <= i,
    ensures
        command::words_quoted(a + b, a.len() + i, word, quote, quoted) == command::words_quoted(
            b,
            i,
            word,
            quote,
            quoted,
        ),
    decreases b.len() - i,
{
    let s = a + b;
    if i < b.len() {
        let c = b[i];
        assert(s[a.len() + i] == c);
        if c == '\'' && quote != Quote::Double {
            let next = if quote == Quote::Single {
                Quote::Open
            } else {
                Quote::Single
            };
            lemma_words_move(a, b, i + 1, word, next, true);
        } else if c == '"' && quote != Quote::Single {
            let next = if quote == Quote::Double {
                Quote::Open
            } else {
                Quote::Double
            };
            lemma_words_move(a, b, i + 1, word, next, true);
        } else if c == '\\' && quote != Quote::Single {
            if i + 1 < b.len() {
                assert(s[a.len() + i + 1] == b[i + 1]);
                lemma_words_move(a, b, i + 2, word.push(b[i + 1]), quote, quoted);
            }
        } else if text::white(c) && quote == Quote::Open {
            lemma_words_move(a, b, i + 1, Seq::empty(), quote, false);
        } else {
            lemma_words_move(a, b, i + 1, word.push(c), quote, quoted);
        }
    }
}

/// A text in single quotes.
pub open spec fn single(w: Seq<char>) -> Seq<char> {
    seq!['\''] + w + seq!['\'']
}

/// Some words on one line, each in single quotes, with spaces between.
pub open spec fn quoted_line(words: Seq<Seq<char>>) -> Seq<char>
    decreases words.len(),
{
    if words.len() == 0 {
        Seq::empty()
    } else if words.len() == 1 {
        single(words[0])
    } else {
        single(words[0]) + seq![' '] + quoted_line(words.skip(1))
    }
}

proof fn lemma_in_quotes(s: Seq<char>, w: Seq<char>, k: int)
    requires
        0 <= k <= w.len(),
        w.len() + 2 <= s.len(),
        s.take(w.len() as int + 2) == single(w),
        !w.contains('\''),
    ensures
        command::words_quoted(s, 1 + k, w.take(k), Quote::Single, true) == command::words_quoted(
            s,
            w.len() as int + 2,
            w,
            Quote::Open,
            true,
        ),
    decreases w.len() - k,
{
    assert(s[1 + k] == s.take(w.len() as int + 2)[1 + k]);
    if k == w.len() {
        assert(s[1 + k] == '\'');
        assert(w.take(k) =~= w);
    } else {
        assert(s[1 + k] == w[k]);
        assert(w.contains(w[k]));
        assert(w.take(k).push(w[k]) =~= w.take(k + 1));
        lemma_in_quotes(s, w, k + 1);
    }
}

/// Words in single quotes are read back as they were, whatever they hold but
/// single quotes, and empty ones too.
pub proof fn single_quotes_keep_words(words: Seq<Seq<char>>)
    requires
        forall|i: int| 0 <= i < words.len() ==> !(#[trigger] words[i]).contains('\''),
    ensures
        command::command_words(quoted_line(words)) == words,
    decreases words.len(),
{
    let s = quoted_line(words);
    if words.len() == 0 {
        assert(command::command_words(s) =~= words);
    } else {
        let w = words[0];
        let n = w.len() + 2;
        assert(s[0] == '\'');
        assert(w.take(0) =~= Seq::<char>::empty());
        assert(s.take(n as int) =~= single(w));
        lemma_in_quotes(s, w, 0);
        assert(command::command_words(s) == command::words_quoted(
            s,
            n as int,
            w,
            Quote::Open,
            true,
        ));
        if words.len() == 1 {
            assert(command::command_words(s) =~= words);
        } else {
            let rest = words.skip(1);
            assert forall|i: int| 0 <= i < rest.len() implies !(#[trigger] rest[i]).contains(
                '\'',
            ) by {
                assert(rest[i] == words[i + 1]);
            }
            single_quotes_keep_words(rest);
            let a = single(w) + seq![' '];
            assert(s =~= a + quoted_line(rest));
            assert(s[n as int] == ' ');
            lemma_words_move(a, quoted_line(rest), 0, Seq::empty(), Quote::Open, false);
            assert(command::command_words(s) =~= words);
        }
    }
}

/// A text with a backslash before each character.
pub open spec fn escaped(w: Seq<char>) -> Seq<char>
    decreases w.len(),
{
    if w.len() == 0 {
        Seq::empty()
    } else {
        escaped(w.drop_last()) + seq!['\\', w.last()]
    }
}

proof fn lemma_escaped_at(w: Seq<char>, k: int)
    requires
        0 <= k < w.len(),
    ensures
        escaped(w).len() == 2 * w.len(),
        escaped(w)[2 * k] == '\\',
        escaped(w)[2 * k + 1] == w[k],
    decreases w.len(),
{
    let front = w.drop_last();
    lemma_escaped_len(front);
    if k < front.len() {
        lemma_escaped_at(front, k);
    }
}

proof fn lemma_escaped_len(w: Seq<char>)
    ensures
        escaped(w).len() == 2 * w.len(),
    decreases w.len(),
{
    if w.len() > 0 {
        lemma_escaped_len(w.drop_last());
    }
}

proof fn lemma_escapes(w: Seq<char>, k: int)
    requires
        0 <= k <= w.len(),
    ensures
        command::words_quoted(escaped(w), 2 * k, w.take(k), Quote::Open, false)
            == command::finished(w, false),
    decreases w.len() - k,
{
    lemma_escaped_len(w);
    if k == w.len() {
        assert(w.take(k) =~= w);
    } else {
        lemma_escaped_at(w, k);
        assert(w.take(k).push(w[k]) =~= w.take(k + 1));
        lemma_escapes(w, k + 1);
    }
}

/// A backslash takes any character as it is: a word whose characters are all
/// escaped is read as that word, quotes, spaces and backslashes included.
pub proof fn backslashes_keep_characters(w: Seq<char>)
    requires
        w.len() > 0,
    ensures
        command::command_words(escaped(w)) == seq![w],
{
    assert(w.take(0) =~= Seq::<char>::empty());
    lemma_escapes(w, 0);
}

/// Quotes within a word belong to it: what stands next to them without a space
/// is the same word.
pub proof fn quoted_parts_join(a: Seq<char>, w: Seq<char>)
    requires
        command::unquoted(a),
        text::is_word(a),
        !w.contains('\''),
    ensures
        command::command_words(single(w) + a) == seq![w + a],
        command::command_words(a + single(w)) == seq![a + w],
{
    let s = single(w) + a;
    let n = w.len() + 2;
    assert(s[0] == '\'');
    assert(w.take(0) =~= Seq::<char>::empty());
    assert(s.take(n as int) =~= single(w));
    lemma_in_quotes(s, w, 0);
    lemma_words_move(single(w), a, 0, w, Quote::Open, true);
    lemma_plain_tail(a, 0, w, true);
    assert(a.skip(0) =~= a);
    let t = a + single(w);
    lemma_plain_head(a, single(w), 0);
    assert(a.take(0) =~= Seq::<char>::empty());
    lemma_words_move(a, single(w), 0, a, Quote::Open, false);
    lemma_in_quotes_of(w, a, 0);
    assert(a + w.take(0) =~= a);
    assert(single(w)[0] == '\'');
}

proof fn lemma_plain_tail(a: Seq<char>, i: int, word: Seq<char>, quoted: bool)
    requires
        command::unquoted(a),
        text::is_word(a),
        0 <= i <= a.len(),
    ensures
        command::words_quoted(a, i, word, Quote::Open, quoted) == command::finished(
            word + a.skip(i),
            quoted,
        ),
    decreases a.len() - i,
{
    if i < a.len() {
        assert(!text::white(a[i]));
        lemma_plain_tail(a, i + 1, word.push(a[i]), quoted);
        assert(word.push(a[i]) + a.skip(i + 1) =~= word + a.skip(i));
    } else {
        assert(word + a.skip(i) =~= word);
    }
}

proof fn lemma_plain_head(a: Seq<char>, b: Seq<char>, i: int)
    requires
        command::unquoted(a),
        text::is_word(a),
        0 <= i <= a.len(),
    ensures
        command::words_quoted(a + b, i, a.take(i), Quote::Open, false) == command::words_quoted(
            a + b,
            a.len() as int,
            a,
            Quote::Open,
            false,
        ),
    decreases a.len() - i,
{
    if i < a.len() {
        assert((a + b)[i] == a[i]);
        assert(!text::white(a[i]));
        assert(a.take(i).push(a[i]) =~= a.take(i + 1));
        lemma_plain_head(a, b, i + 1);
    } else {
        assert(a.take(i) =~= a);
    }
}

proof fn lemma_in_quotes_of(w: Seq<char>, before: Seq<char>, k: int)
    requires
        0 <= k <= w.len(),
        !w.contains('\''),
    ensures
        command::words_quoted(single(w), 1 + k, before + w.take(k), Quote::Single, true) == seq![
            before + w,
        ],
    decreases w.len() - k,
{
    let s = single(w);
    if k == w.len() {
        assert(s[1 + k] == '\'');
        assert(w.take(k) =~= w);
        assert(command::words_quoted(s, 2 + k, before + w, Quote::Open, true) == seq![before + w]);
    } else {
        assert(s[1 + k] == w[k]);
        assert(w.contains(w[k]));
        assert((before + w.take(k)).push(w[k]) =~= before + w.take(k + 1));
        lemma_in_quotes_of(w, before, k + 1);
    }
}

} // verus!
