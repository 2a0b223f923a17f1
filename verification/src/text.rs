//! Text primitives: the character-level vocabulary that every other module
//! states its contracts in. Text is modelled as a sequence of characters;
//! the executable functions work on `&str` and hand back owned text.

use vstd::prelude::*;

verus! {

/// `String::push` appends one character to the end of the string and changes
/// nothing else.
pub assume_specification[ String::push ](s: &mut String, c: char)
    ensures
        final(s)@ == old(s)@.push(c),
;

/// `String::push_str` appends the characters of `t` to the end of the string
/// and changes nothing else.
pub assume_specification[ String::push_str ](s: &mut String, t: &str)
    ensures
        final(s)@ == old(s)@ + t@,
;

// ---- Conversions ----

/// The contents of a list of strings.
pub open spec fn texts(v: Seq<String>) -> Seq<Seq<char>> {
    v.map_values(|s: String| s@)
}

/// The contents of an optional string.
pub open spec fn opt_text(o: Option<String>) -> Option<Seq<char>> {
    match o {
        Some(s) => Some(s@),
        None => None,
    }
}

/// The contents of a list of name/value pairs.
pub open spec fn pairs(v: Seq<(String, String)>) -> Seq<(Seq<char>, Seq<char>)> {
    v.map_values(|p: (String, String)| (p.0@, p.1@))
}

/// The characters of `s`, in order.
pub fn to_chars(s: &str) -> (v: Vec<char>)
    ensures
        v@ == s@,
{
    let mut v: Vec<char> = Vec::new();
    for c in it: s.chars()
        invariant
            it.seq() == s@,
            v@ == s@.take(it.index()),
    {
        v.push(c);
    }
    assert(s@.take(s@.len() as int) =~= s@);
    v
}

/// The text made of `v[from..to]`.
pub fn slice_text(v: &Vec<char>, from: usize, to: usize) -> (s: String)
    requires
        from <= to <= v@.len(),
    ensures
        s@ == v@.subrange(from as int, to as int),
{
    let mut s = String::new();
    let mut i: usize = from;
    while i < to
        invariant
            from <= i <= to <= v@.len(),
            s@ == v@.subrange(from as int, i as int),
        decreases to - i,
    {
        s.push(v[i]);
        i += 1;
        assert(s@ =~= v@.subrange(from as int, i as int));
    }
    s
}

/// An owned copy of `s`.
pub fn owned(s: &str) -> (r: String)
    ensures
        r@ == s@,
{
    s.to_owned()
}

/// Whether two texts are equal character by character.
pub fn same_text(a: &str, b: &str) -> (r: bool)
    ensures
        r == (a@ == b@),
{
    let x: Vec<char> = to_chars(a);
    let y: Vec<char> = to_chars(b);
    if x.len() != y.len() {
        return false;
    }
    let mut i: usize = 0;
    while i < x.len()
        invariant
            i <= x@.len(),
            x@.len() == y@.len(),
            x@ == a@,
            y@ == b@,
            forall|j: int| 0 <= j < i ==> x@[j] == y@[j],
        decreases x@.len() - i,
    {
        if x[i] != y[i] {
            return false;
        }
        i += 1;
    }
    assert(a@ =~= b@);
    true
}

/// A copy of an optional text.
pub fn copy_opt_text(o: &Option<String>) -> (r: Option<String>)
    ensures
        opt_text(r) == opt_text(*o),
        r is Some == o is Some,
{
    match o {
        Some(s) => Some(s.clone()),
        None => None,
    }
}

/// Add a text to a list.
pub fn push_text(v: &mut Vec<String>, s: &str)
    ensures
        texts(final(v)@) == texts(old(v)@).push(s@),
{
    let ghost before = texts(v@);
    v.push(owned(s));
    assert(texts(v@) =~= before.push(s@));
}

/// A copy of a list of texts.
pub fn copy_texts(v: &Vec<String>) -> (r: Vec<String>)
    ensures
        texts(r@) == texts(v@),
{
    let mut r: Vec<String> = Vec::new();
    let mut i: usize = 0;
    while i < v.len()
        invariant
            i <= v@.len(),
            r@.len() == i,
            forall|j: int| 0 <= j < i ==> (#[trigger] r@[j])@ == v@[j]@,
        decreases v@.len() - i,
    {
        r.push(v[i].clone());
        i += 1;
    }
    assert(texts(r@) =~= texts(v@));
    r
}

/// A copy of a list of name/value pairs.
pub fn copy_pairs(v: &Vec<(String, String)>) -> (r: Vec<(String, String)>)
    ensures
        pairs(r@) == pairs(v@),
{
    let mut r: Vec<(String, String)> = Vec::new();
    let mut i: usize = 0;
    while i < v.len()
        invariant
            i <= v@.len(),
            r@.len() == i,
            forall|j: int| 0 <= j < i ==> (#[trigger] r@[j]).0@ == v@[j].0@ && r@[j].1@ == v@[j].1@,
        decreases v@.len() - i,
    {
        r.push((v[i].0.clone(), v[i].1.clone()));
        i += 1;
    }
    assert(pairs(r@) =~= pairs(v@));
    r
}

/// The position of the first element equal to `wanted`, if any.
pub open spec fn position_of(list: Seq<Seq<char>>, wanted: Seq<char>) -> Option<int>
    decreases list.len(),
{
    if list.len() == 0 {
        None
    } else if list[0] == wanted {
        Some(0)
    } else {
        match position_of(list.skip(1), wanted) {
            Some(i) => Some(i + 1),
            None => None,
        }
    }
}

/// Finding the first position: where it is, and what absence means.
pub proof fn lemma_position_of(list: Seq<Seq<char>>, wanted: Seq<char>)
    ensures
        position_of(list, wanted) matches Some(i) ==> 0 <= i < list.len() && list[i] == wanted
            && forall|j: int| 0 <= j < i ==> list[j] != wanted,
        position_of(list, wanted) is None ==> forall|j: int|
            0 <= j < list.len() ==> list[j] != wanted,
    decreases list.len(),
{
    if list.len() > 0 && list[0] != wanted {
        let rest = list.skip(1);
        lemma_position_of(rest, wanted);
        assert forall|j: int| 1 <= j < list.len() implies list[j] == rest[j - 1] by {}
    }
}

/// A position is the first one when it matches and nothing before it does.
pub proof fn lemma_position_is(list: Seq<Seq<char>>, wanted: Seq<char>, at: int)
    requires
        0 <= at < list.len(),
        list[at] == wanted,
        forall|j: int| 0 <= j < at ==> list[j] != wanted,
    ensures
        position_of(list, wanted) == Some(at),
{
    lemma_position_of(list, wanted);
    match position_of(list, wanted) {
        Some(i) => {
            if i < at {
                assert(list[i] != wanted);
            }
        },
        None => {
            assert(list[at] != wanted);
        },
    }
}

/// Where `wanted` first occurs in `list`.
pub fn find_text(list: &Vec<String>, wanted: &str) -> (r: Option<usize>)
    ensures
        match r {
            Some(i) => position_of(texts(list@), wanted@) == Some(i as int),
            None => position_of(texts(list@), wanted@) is None,
        },
        r matches Some(i) ==> i < list@.len(),
{
    let mut i: usize = 0;
    while i < list.len()
        invariant
            i <= list@.len(),
            forall|j: int| 0 <= j < i ==> texts(list@)[j] != wanted@,
        decreases list@.len() - i,
    {
        if same_text(list[i].as_str(), wanted) {
            assert(texts(list@)[i as int] == wanted@);
            proof {
                lemma_position_is(texts(list@), wanted@, i as int);
            }
            return Some(i);
        }
        assert(texts(list@)[i as int] == list@[i as int]@);
        i += 1;
    }
    proof {
        lemma_position_of(texts(list@), wanted@);
    }
    None
}

// ---- Character classes ----

/// Unicode white space, as `char::is_whitespace` defines it.
pub open spec fn white(c: char) -> bool {
    let n = c as u32;
    ||| 0x09 <= n <= 0x0d
    ||| n == 0x20
    ||| n == 0x85
    ||| n == 0xa0
    ||| n == 0x1680
    ||| 0x2000 <= n <= 0x200a
    ||| n == 0x2028
    ||| n == 0x2029
    ||| n == 0x202f
    ||| n == 0x205f
    ||| n == 0x3000
}

/// Whether `c` is Unicode white space.
pub fn is_whitespace(c: char) -> (r: bool)
    ensures
        r == white(c),
{
    let n: u32 = c as u32;
    (0x09 <= n && n <= 0x0d) || n == 0x20 || n == 0x85 || n == 0xa0 || n == 0x1680 || (0x2000 <= n
        && n <= 0x200a) || n == 0x2028 || n == 0x2029 || n == 0x202f || n == 0x205f || n == 0x3000
}

/// ASCII digits.
pub open spec fn digit(c: char) -> bool {
    '0' <= c <= '9'
}

/// ASCII letters and digits.
pub open spec fn alnum(c: char) -> bool {
    digit(c) || 'a' <= c <= 'z' || 'A' <= c <= 'Z'
}

/// Whether `c` is an ASCII digit.
pub fn is_digit(c: char) -> (r: bool)
    ensures
        r == digit(c),
{
    '0' <= c && c <= '9'
}

/// Whether `c` is an ASCII letter or digit.
pub fn is_alnum(c: char) -> (r: bool)
    ensures
        r == alnum(c),
{
    is_digit(c) || ('a' <= c && c <= 'z') || ('A' <= c && c <= 'Z')
}

/// The lower-case form of an ASCII character.
pub open spec fn lower(c: char) -> char {
    if 'A' <= c <= 'Z' {
        ((c as u32) + 32) as char
    } else {
        c
    }
}

/// The lower-case form of an ASCII character; others are returned unchanged.
pub fn to_lower(c: char) -> (r: char)
    ensures
        r == lower(c),
{
    if 'A' <= c && c <= 'Z' {
        ((c as u32 + 32) as u8) as char
    } else {
        c
    }
}

/// The predicate `white` as a value.
pub open spec fn whites() -> spec_fn(char) -> bool {
    |c: char| white(c)
}

/// The complement of `white` as a value.
pub open spec fn blacks() -> spec_fn(char) -> bool {
    |c: char| !white(c)
}

/// The predicate "is not this character" as a value.
pub open spec fn but(x: char) -> spec_fn(char) -> bool {
    |c: char| c != x
}

/// The predicate "is this character" as a value.
pub open spec fn only(x: char) -> spec_fn(char) -> bool {
    |c: char| c == x
}

// ---- Scanning ----

/// The first index from `i` on whose character satisfies `p`, or the length.
pub open spec fn first_from(s: Seq<char>, i: int, p: spec_fn(char) -> bool) -> int
    decreases s.len() - i,
{
    if i >= s.len() || i < 0 {
        s.len() as int
    } else if p(s[i]) {
        i
    } else {
        first_from(s, i + 1, p)
    }
}

/// What `first_from` finds: the nearest match, with none before it.
pub proof fn lemma_first_from(s: Seq<char>, i: int, p: spec_fn(char) -> bool)
    requires
        0 <= i <= s.len(),
    ensures
        i <= first_from(s, i, p) <= s.len(),
        first_from(s, i, p) < s.len() ==> p(s[first_from(s, i, p)]),
        forall|j: int| i <= j < first_from(s, i, p) ==> !p(s[j]),
    decreases s.len() - i,
{
    if i < s.len() && !p(s[i]) {
        lemma_first_from(s, i + 1, p);
    }
}

/// An index is the one `first_from` finds when it matches (or is the end) and
/// nothing before it does.
pub proof fn lemma_first_is(s: Seq<char>, i: int, p: spec_fn(char) -> bool, at: int)
    requires
        0 <= i <= at <= s.len(),
        at < s.len() ==> p(s[at]),
        forall|j: int| i <= j < at ==> !p(s[j]),
    ensures
        first_from(s, i, p) == at,
    decreases at - i,
{
    if i < at {
        lemma_first_is(s, i + 1, p, at);
    }
}

/// The end of the text once the trailing characters satisfying `p` are cut.
pub open spec fn cut_end(s: Seq<char>, e: int, p: spec_fn(char) -> bool) -> int
    decreases e,
{
    if e <= 0 {
        0
    } else if p(s[e - 1]) {
        cut_end(s, e - 1, p)
    } else {
        e
    }
}

/// Bounds of `cut_end`.
pub proof fn lemma_cut_end(s: Seq<char>, e: int, p: spec_fn(char) -> bool)
    requires
        0 <= e <= s.len(),
    ensures
        0 <= cut_end(s, e, p) <= e,
        cut_end(s, e, p) > 0 ==> !p(s[cut_end(s, e, p) - 1]),
        forall|j: int| cut_end(s, e, p) <= j < e ==> p(s[j]),
    decreases e,
{
    if e > 0 && p(s[e - 1]) {
        lemma_cut_end(s, e - 1, p);
    }
}

/// The index of the first `x` from `i` on, or the length.
pub fn index_of_char(v: &Vec<char>, i: usize, x: char) -> (r: usize)
    requires
        i <= v@.len(),
    ensures
        r == first_from(v@, i as int, only(x)),
        i <= r <= v@.len(),
        r < v@.len() ==> v@[r as int] == x,
        forall|j: int| i <= j < r ==> v@[j] != x,
{
    let mut k: usize = i;
    while k < v.len() && v[k] != x
        invariant
            i <= k <= v@.len(),
            forall|j: int| i <= j < k ==> v@[j] != x,
        decreases v@.len() - k,
    {
        k += 1;
    }
    proof {
        lemma_first_is(v@, i as int, only(x), k as int);
    }
    k
}

/// The index of the first white space from `i` on, or the length.
pub fn index_of_white(v: &Vec<char>, i: usize) -> (r: usize)
    requires
        i <= v@.len(),
    ensures
        r == first_from(v@, i as int, whites()),
        i <= r <= v@.len(),
{
    let mut k: usize = i;
    while k < v.len() && !is_whitespace(v[k])
        invariant
            i <= k <= v@.len(),
            forall|j: int| i <= j < k ==> !white(v@[j]),
        decreases v@.len() - k,
    {
        k += 1;
    }
    proof {
        lemma_first_is(v@, i as int, whites(), k as int);
    }
    k
}

/// The index of the first character from `i` on that is not white space, or
/// the length.
pub fn index_of_black(v: &Vec<char>, i: usize) -> (r: usize)
    requires
        i <= v@.len(),
    ensures
        r == first_from(v@, i as int, blacks()),
        i <= r <= v@.len(),
{
    let mut k: usize = i;
    while k < v.len() && is_whitespace(v[k])
        invariant
            i <= k <= v@.len(),
            forall|j: int| i <= j < k ==> white(v@[j]),
        decreases v@.len() - k,
    {
        k += 1;
    }
    proof {
        lemma_first_is(v@, i as int, blacks(), k as int);
    }
    k
}

// ---- Trimming ----

/// `s` without trailing white space.
pub open spec fn trim_end_of(s: Seq<char>) -> Seq<char> {
    s.take(cut_end(s, s.len() as int, whites()))
}

/// `s` without leading white space.
pub open spec fn trim_start_of(s: Seq<char>) -> Seq<char> {
    s.skip(first_from(s, 0, blacks()))
}

/// `s` without white space at either end.
pub open spec fn trim_of(s: Seq<char>) -> Seq<char> {
    trim_end_of(trim_start_of(s))
}

/// `s` without trailing white space.
pub fn trim_end(s: &str) -> (r: String)
    ensures
        r@ == trim_end_of(s@),
{
    let v: Vec<char> = to_chars(s);
    let mut e: usize = v.len();
    while e > 0 && is_whitespace(v[e - 1])
        invariant
            e <= v@.len(),
            v@ == s@,
            cut_end(s@, e as int, whites()) == cut_end(s@, s@.len() as int, whites()),
        decreases e,
    {
        e -= 1;
    }
    let r = slice_text(&v, 0, e);
    r
}

/// `s` without leading white space.
pub fn trim_start(s: &str) -> (r: String)
    ensures
        r@ == trim_start_of(s@),
{
    let v: Vec<char> = to_chars(s);
    let a: usize = index_of_black(&v, 0);
    slice_text(&v, a, v.len())
}

/// `s` without white space at either end.
pub fn trim(s: &str) -> (r: String)
    ensures
        r@ == trim_of(s@),
{
    let t = trim_start(s);
    trim_end(t.as_str())
}

/// Whether `s` is empty once trimmed.
pub open spec fn blank(s: Seq<char>) -> bool {
    trim_of(s).len() == 0
}

/// Where the trimmed text stands in `s`: all around it is white, and it neither
/// starts nor ends so.
pub open spec fn trims_to(s: Seq<char>, a: int, b: int) -> bool {
    &&& 0 <= a <= b <= s.len()
    &&& forall|j: int| 0 <= j < a ==> white(#[trigger] s[j])
    &&& forall|j: int| b <= j < s.len() ==> white(#[trigger] s[j])
    &&& a < b ==> !white(s[a]) && !white(s[b - 1])
}

/// What is left of a text between its white ends is the text, trimmed.
pub proof fn lemma_trim_is(s: Seq<char>, a: int, b: int)
    requires
        trims_to(s, a, b),
    ensures
        trim_of(s) == s.subrange(a, b),
{
    let f = first_from(s, 0, blacks());
    lemma_first_from(s, 0, blacks());
    let t = trim_start_of(s);
    lemma_cut_end(t, t.len() as int, whites());
    let e = cut_end(t, t.len() as int, whites());
    if a == b {
        assert forall|j: int| 0 <= j < s.len() implies white(#[trigger] s[j]) by {}
        assert(f == s.len());
        assert(trim_of(s) =~= s.subrange(a, b));
    } else {
        if f < a {
            assert(white(s[f]));
        }
        if a < f {
            assert(!blacks()(s[a]));
        }
        assert(f == a);
        assert(t[b - 1 - f] == s[b - 1]);
        if e < b - f {
            assert(whites()(t[b - 1 - f]));
        }
        if e > b - f {
            assert(t[e - 1] == s[e - 1 + f]);
        }
        assert(trim_of(s) =~= s.subrange(a, b));
    }
}

/// Every text has its place where it is trimmed to.
pub proof fn lemma_trim_place(s: Seq<char>) -> (r: (int, int))
    ensures
        trims_to(s, r.0, r.1),
        trim_of(s) == s.subrange(r.0, r.1),
{
    let f = first_from(s, 0, blacks());
    lemma_first_from(s, 0, blacks());
    let t = trim_start_of(s);
    lemma_cut_end(t, t.len() as int, whites());
    let e = cut_end(t, t.len() as int, whites());
    assert forall|j: int| 0 <= j < f implies white(#[trigger] s[j]) by {
        assert(!blacks()(s[j]));
    }
    assert forall|j: int| f + e <= j < s.len() implies white(#[trigger] s[j]) by {
        assert(whites()(t[j - f]));
        assert(t[j - f] == s[j]);
    }
    if e > 0 {
        assert(blacks()(s[f]));
        assert(t[e - 1] == s[f + e - 1]);
        assert(!whites()(t[e - 1]));
    }
    lemma_trim_is(s, f, f + e);
    (f, f + e)
}

/// A trimmed text has no white space at its ends.
pub proof fn lemma_trimmed_ends(s: Seq<char>)
    ensures
        trim_of(s).len() > 0 ==> !white(trim_of(s)[0]) && !white(trim_of(s).last()),
{
    let (a, b) = lemma_trim_place(s);
    assert(a < b ==> s.subrange(a, b)[0] == s[a] && s.subrange(a, b).last() == s[b - 1]);
}

/// A text with no white space at its ends is trimmed already.
pub proof fn lemma_trimmed(s: Seq<char>)
    requires
        s.len() > 0 ==> !white(s[0]) && !white(s.last()),
    ensures
        trim_of(s) == s,
{
    lemma_trim_is(s, 0, s.len() as int);
    assert(s.subrange(0, s.len() as int) =~= s);
}

/// The characters of a text that are not white space.
pub open spec fn black_of(s: Seq<char>) -> Seq<char> {
    s.filter(blacks())
}

/// White space has no other characters.
pub proof fn lemma_black_of_white(s: Seq<char>)
    requires
        forall|j: int| 0 <= j < s.len() ==> white(#[trigger] s[j]),
    ensures
        black_of(s) == Seq::<char>::empty(),
    decreases s.len(),
{
    reveal(Seq::filter);
    if s.len() > 0 {
        let front = s.drop_last();
        assert forall|j: int| 0 <= j < front.len() implies white(#[trigger] front[j]) by {
            assert(front[j] == s[j]);
        }
        lemma_black_of_white(front);
        assert(white(s[s.len() - 1]));
    }
}

/// Trimming takes white space only.
pub proof fn lemma_trim_keeps_black(s: Seq<char>)
    ensures
        black_of(trim_of(s)) == black_of(s),
{
    let (a, b) = lemma_trim_place(s);
    let (front, mid, back) = (s.take(a), s.subrange(a, b), s.skip(b));
    assert forall|j: int| 0 <= j < back.len() implies white(#[trigger] back[j]) by {
        assert(back[j] == s[b + j]);
    }
    lemma_black_of_white(front);
    lemma_black_of_white(back);
    assert(s =~= front + mid + back);
    Seq::filter_distributes_over_add(front + mid, back, blacks());
    Seq::filter_distributes_over_add(front, mid, blacks());
    assert(black_of(s) =~= black_of(mid));
}

/// A text with a character that is not white space is not blank.
pub proof fn lemma_not_blank(s: Seq<char>, i: int)
    requires
        0 <= i < s.len(),
        !white(s[i]),
    ensures
        !blank(s),
{
    let a = first_from(s, 0, blacks());
    lemma_first_from(s, 0, blacks());
    assert(a <= i);
    let t = trim_start_of(s);
    assert(t[i - a] == s[i]);
    lemma_cut_end(t, t.len() as int, whites());
}

/// Whether nothing but white space is in `s`.
pub fn is_blank(s: &str) -> (r: bool)
    ensures
        r == blank(s@),
{
    trim(s).as_str().is_empty()
}

// ---- Splitting and joining ----

/// The words of `s` from index `i` on: maximal runs without white space.
pub open spec fn words_from(s: Seq<char>, i: int) -> Seq<Seq<char>>
    decreases s.len() - i,
{
    if i < 0 || i >= s.len() {
        Seq::empty()
    } else {
        let a = first_from(s, i, blacks());
        let b = first_from(s, a, whites());
        proof {
            lemma_first_from(s, i, blacks());
            lemma_first_from(s, a, whites());
        }
        if a >= s.len() {
            Seq::empty()
        } else {
            seq![s.subrange(a, b)] + words_from(s, b)
        }
    }
}

/// The words of `s`: its maximal runs without white space.
pub open spec fn words_of(s: Seq<char>) -> Seq<Seq<char>> {
    words_from(s, 0)
}

/// The words of `s`, in order.
pub fn split_whitespace(s: &str) -> (r: Vec<String>)
    ensures
        texts(r@) == words_of(s@),
{
    let v: Vec<char> = to_chars(s);
    let mut r: Vec<String> = Vec::new();
    let mut i: usize = 0;
    while i < v.len()
        invariant
            i <= v@.len(),
            v@ == s@,
            texts(r@) + words_from(s@, i as int) == words_of(s@),
        decreases v@.len() - i,
    {
        let a: usize = index_of_black(&v, i);
        let ghost before = texts(r@);
        if a == v.len() {
            assert(texts(r@) =~= words_of(s@));
            return r;
        }
        let b: usize = index_of_white(&v, a);
        proof {
            lemma_first_from(s@, i as int, blacks());
            lemma_first_from(s@, a as int, whites());
        }
        let word = slice_text(&v, a, b);
        r.push(word);
        assert(texts(r@) =~= before.push(word@));
        assert(texts(r@) + words_from(s@, b as int) =~= before + (seq![word@] + words_from(
            s@,
            b as int,
        )));
        i = b;
    }
    assert(texts(r@) =~= words_of(s@));
    r
}

/// The elements of `parts` with `sep` between neighbours.
pub open spec fn join_of(parts: Seq<Seq<char>>, sep: Seq<char>) -> Seq<char>
    decreases parts.len(),
{
    if parts.len() == 0 {
        Seq::empty()
    } else if parts.len() == 1 {
        parts[0]
    } else {
        join_of(parts.drop_last(), sep) + sep + parts.last()
    }
}

/// The elements of `parts` with `sep` between neighbours.
pub fn join(parts: &Vec<String>, sep: &str) -> (r: String)
    ensures
        r@ == join_of(texts(parts@), sep@),
{
    let mut r = String::new();
    let mut i: usize = 0;
    while i < parts.len()
        invariant
            i <= parts@.len(),
            r@ == join_of(texts(parts@).take(i as int), sep@),
        decreases parts@.len() - i,
    {
        let ghost all = texts(parts@);
        assert(all.take(i + 1).drop_last() =~= all.take(i as int));
        assert(all.take(i + 1).last() == parts@[i as int]@);
        if i > 0 {
            r.push_str(sep);
        }
        r.push_str(parts[i].as_str());
        assert(r@ =~= join_of(all.take(i + 1), sep@));
        i += 1;
    }
    assert(texts(parts@).take(parts@.len() as int) =~= texts(parts@));
    r
}

/// Whether a text is one word: not empty, and without white space.
pub open spec fn is_word(w: Seq<char>) -> bool {
    w.len() > 0 && forall|i: int| 0 <= i < w.len() ==> !white(#[trigger] w[i])
}

/// A word behind a space is the last word of a text.
pub proof fn lemma_words_push(s: Seq<char>, w: Seq<char>, i: int)
    requires
        is_word(w),
        0 <= i <= s.len(),
    ensures
        words_from(s + seq![' '] + w, i) == words_from(s, i).push(w),
    decreases s.len() - i,
{
    let full = s + seq![' '] + w;
    let end = full.len() as int;
    assert(full[s.len() as int] == ' ');
    assert forall|j: int| s.len() < j < end implies !white(full[j]) by {
        assert(full[j] == w[j - s.len() - 1]);
    }
    let a = first_from(s, i, blacks());
    lemma_first_from(s, i, blacks());
    if a < s.len() {
        let b = first_from(s, a, whites());
        lemma_first_from(s, a, whites());
        assert forall|j: int| i <= j < a implies white(full[j]) by {
            assert(full[j] == s[j]);
        }
        lemma_first_is(full, i, blacks(), a);
        assert forall|j: int| a <= j < b implies !white(full[j]) by {
            assert(full[j] == s[j]);
        }
        lemma_first_is(full, a, whites(), b);
        assert(full.subrange(a, b) =~= s.subrange(a, b));
        lemma_words_push(s, w, b);
        assert(seq![s.subrange(a, b)] + words_from(s, b).push(w) =~= (seq![s.subrange(a, b)]
            + words_from(s, b)).push(w));
    } else {
        assert forall|j: int| i <= j < s.len() + 1 implies white(full[j]) by {
            if j < s.len() {
                assert(full[j] == s[j]);
            }
        }
        let at = s.len() as int + 1;
        assert(full[at] == w[0]);
        lemma_first_is(full, i, blacks(), at);
        lemma_first_is(full, at, whites(), end);
        assert(full.subrange(at, end) =~= w);
        assert(words_from(full, end) =~= Seq::<Seq<char>>::empty());
        assert(words_from(s, i) =~= Seq::<Seq<char>>::empty());
        assert(words_from(full, i) =~= seq![w]);
    }
}

/// Words joined by spaces are those words again: splitting undoes joining.
pub proof fn words_survive_joining(words: Seq<Seq<char>>)
    requires
        forall|i: int| 0 <= i < words.len() ==> is_word(#[trigger] words[i]),
    ensures
        words_of(join_of(words, " "@)) == words,
    decreases words.len(),
{
    reveal_strlit(" ");
    assert(" "@ =~= seq![' ']);
    if words.len() == 0 {
        assert(words_of(join_of(words, " "@)) =~= words);
    } else if words.len() == 1 {
        let w = words[0];
        lemma_first_is(w, 0, blacks(), 0);
        lemma_first_is(w, 0, whites(), w.len() as int);
        assert(w.subrange(0, w.len() as int) =~= w);
        assert(words_from(w, w.len() as int) =~= Seq::<Seq<char>>::empty());
        assert(words_of(w) =~= words);
    } else {
        let rest = words.drop_last();
        assert forall|i: int| 0 <= i < rest.len() implies is_word(#[trigger] rest[i]) by {
            assert(rest[i] == words[i]);
        }
        words_survive_joining(rest);
        assert(words.last() == words[words.len() - 1]);
        lemma_words_push(join_of(rest, " "@), words.last(), 0);
        assert(rest.push(words.last()) =~= words);
    }
}

/// Every word that a text splits into is one.
pub proof fn lemma_words_are_words(s: Seq<char>, i: int)
    requires
        0 <= i,
    ensures
        forall|k: int| 0 <= k < words_from(s, i).len() ==> is_word(#[trigger] words_from(s, i)[k]),
    decreases s.len() - i,
{
    if i < s.len() {
        let a = first_from(s, i, blacks());
        let b = first_from(s, a, whites());
        lemma_first_from(s, i, blacks());
        lemma_first_from(s, a, whites());
        if a < s.len() {
            lemma_words_are_words(s, b);
            let word = s.subrange(a, b);
            assert(b > a);
            assert forall|j: int| 0 <= j < word.len() implies !white(#[trigger] word[j]) by {
                assert(word[j] == s[a + j]);
            }
            let all = words_from(s, i);
            assert forall|k: int| 0 <= k < all.len() implies is_word(#[trigger] all[k]) by {
                if k > 0 {
                    assert(all[k] == words_from(s, b)[k - 1]);
                }
            }
        }
    }
}

/// A part of a joined text stands in it.
pub proof fn lemma_join_has(parts: Seq<Seq<char>>, sep: Seq<char>, i: int)
    requires
        0 <= i < parts.len(),
    ensures
        has(join_of(parts, sep), parts[i]),
    decreases parts.len(),
{
    let all = join_of(parts, sep);
    if parts.len() == 1 {
        assert(all.subrange(0, all.len() as int) =~= parts[0]);
        assert(at(all, parts[0], 0));
    } else if i == parts.len() - 1 {
        let k = all.len() - parts[i].len();
        assert(all.subrange(k, all.len() as int) =~= parts[i]);
        assert(at(all, parts[i], k));
    } else {
        let rest = parts.drop_last();
        lemma_join_has(rest, sep, i);
        assert(rest[i] == parts[i]);
        let inner = join_of(rest, sep);
        let k = choose|k: int| at(inner, parts[i], k);
        assert(all.subrange(k, k + parts[i].len()) =~= inner.subrange(k, k + parts[i].len()));
        assert(at(all, parts[i], k));
    }
}

/// What stands in a part stands in the whole.
pub proof fn lemma_has_trans(a: Seq<char>, b: Seq<char>, c: Seq<char>)
    requires
        has(a, b),
        has(b, c),
    ensures
        has(a, c),
{
    let i = choose|i: int| at(a, b, i);
    let j = choose|j: int| at(b, c, j);
    let x = a.subrange(i + j, i + j + c.len());
    let y = b.subrange(j, j + c.len());
    assert forall|k: int| 0 <= k < c.len() implies x[k] == y[k] by {
        assert(a.subrange(i, i + b.len())[j + k] == b[j + k]);
    }
    assert(x =~= y);
    assert(at(a, c, i + j));
}

/// A line without the carriage return that ends it, if there is one.
pub open spec fn without_return(s: Seq<char>) -> Seq<char> {
    if s.len() > 0 && s.last() == '\r' {
        s.drop_last()
    } else {
        s
    }
}

/// The lines of `s` from index `i` on, without their line endings.
pub open spec fn lines_from(s: Seq<char>, i: int) -> Seq<Seq<char>>
    decreases s.len() - i,
{
    if i < 0 || i >= s.len() {
        Seq::empty()
    } else {
        let e = first_from(s, i, only('\n'));
        proof {
            lemma_first_from(s, i, only('\n'));
        }
        if e >= s.len() {
            seq![s.subrange(i, e)]
        } else {
            seq![without_return(s.subrange(i, e))] + lines_from(s, e + 1)
        }
    }
}

/// The lines of `s`, without their line endings.
pub open spec fn lines_of(s: Seq<char>) -> Seq<Seq<char>> {
    lines_from(s, 0)
}

/// The lines of `s`: what stands between line feeds, each line's own carriage
/// return cut, and no empty line after a final line feed.
pub fn lines(s: &str) -> (r: Vec<String>)
    ensures
        texts(r@) == lines_of(s@),
{
    let v: Vec<char> = to_chars(s);
    let mut r: Vec<String> = Vec::new();
    let mut i: usize = 0;
    while i < v.len()
        invariant
            i <= v@.len(),
            v@ == s@,
            texts(r@) + lines_from(s@, i as int) == lines_of(s@),
        decreases v@.len() - i,
    {
        let e: usize = index_of_char(&v, i, '\n');
        let ghost before = texts(r@);
        if e == v.len() {
            let line = slice_text(&v, i, e);
            r.push(line);
            assert(texts(r@) =~= before.push(line@));
            assert(texts(r@) =~= lines_of(s@));
            return r;
        }
        let mut stop: usize = e;
        if i < e && v[e - 1] == '\r' {
            stop = e - 1;
        }
        let line = slice_text(&v, i, stop);
        assert(line@ =~= without_return(s@.subrange(i as int, e as int)));
        r.push(line);
        assert(texts(r@) =~= before.push(line@));
        assert(texts(r@) + lines_from(s@, e + 1) =~= before + (seq![line@] + lines_from(s@, e + 1)));
        i = e + 1;
    }
    assert(texts(r@) =~= lines_of(s@));
    r
}

// ---- Prefixes, suffixes and substrings ----

/// Whether `p` stands in `s` at index `i`.
pub open spec fn at(s: Seq<char>, p: Seq<char>, i: int) -> bool {
    0 <= i && i + p.len() <= s.len() && s.subrange(i, i + p.len()) == p
}

/// Whether `s` starts with `p`.
pub open spec fn starts(s: Seq<char>, p: Seq<char>) -> bool {
    at(s, p, 0)
}

/// Whether `s` ends with `p`.
pub open spec fn ends(s: Seq<char>, p: Seq<char>) -> bool {
    at(s, p, s.len() - p.len())
}

/// Whether `p` occurs anywhere in `s`.
pub open spec fn has(s: Seq<char>, p: Seq<char>) -> bool {
    exists|i: int| #[trigger] at(s, p, i)
}

/// Whether `p` stands in `s` at index `i`.
pub fn is_at(s: &Vec<char>, p: &Vec<char>, i: usize) -> (r: bool)
    requires
        i + p@.len() <= s@.len(),
    ensures
        r == at(s@, p@, i as int),
{
    let n: usize = s.len();
    let mut k: usize = 0;
    while k < p.len()
        invariant
            k <= p@.len(),
            n == s@.len(),
            i + p@.len() <= n,
            forall|j: int| 0 <= j < k ==> s@[i + j] == p@[j],
        decreases p@.len() - k,
    {
        if s[i + k] != p[k] {
            assert(s@.subrange(i as int, i + p@.len())[k as int] != p@[k as int]);
            return false;
        }
        k += 1;
    }
    assert(s@.subrange(i as int, i + p@.len()) =~= p@);
    true
}

/// Whether `s` starts with `p`.
pub fn starts_with(s: &str, p: &str) -> (r: bool)
    ensures
        r == starts(s@, p@),
{
    let v: Vec<char> = to_chars(s);
    let w: Vec<char> = to_chars(p);
    if w.len() > v.len() {
        return false;
    }
    is_at(&v, &w, 0)
}

/// Whether `p` occurs anywhere in `s`.
pub fn contains(s: &str, p: &str) -> (r: bool)
    ensures
        r == has(s@, p@),
{
    let v: Vec<char> = to_chars(s);
    let w: Vec<char> = to_chars(p);
    if w.len() > v.len() {
        return false;
    }
    let mut i: usize = 0;
    while i <= v.len() - w.len()
        invariant
            v@ == s@,
            w@ == p@,
            w@.len() <= v@.len(),
            i <= v@.len() - w@.len() + 1,
            forall|j: int| 0 <= j < i ==> !#[trigger] at(s@, p@, j),
        decreases v@.len() - w@.len() + 1 - i,
    {
        if is_at(&v, &w, i) {
            return true;
        }
        if i == v.len() - w.len() {
            return false;
        }
        i += 1;
    }
    false
}

/// What follows the prefix `p` of `s`, or nothing if `s` does not start so.
pub open spec fn after_prefix(s: Seq<char>, p: Seq<char>) -> Option<Seq<char>> {
    if starts(s, p) {
        Some(s.skip(p.len() as int))
    } else {
        None
    }
}

/// What precedes the suffix `p` of `s`, or nothing if `s` does not end so.
pub open spec fn before_suffix(s: Seq<char>, p: Seq<char>) -> Option<Seq<char>> {
    if ends(s, p) {
        Some(s.take(s.len() - p.len()))
    } else {
        None
    }
}

/// What follows the prefix `p` of `s`.
pub fn strip_prefix(s: &str, p: &str) -> (r: Option<String>)
    ensures
        opt_text(r) == after_prefix(s@, p@),
{
    let v: Vec<char> = to_chars(s);
    let w: Vec<char> = to_chars(p);
    if w.len() <= v.len() && is_at(&v, &w, 0) {
        Some(slice_text(&v, w.len(), v.len()))
    } else {
        None
    }
}

/// What precedes the suffix `p` of `s`.
pub fn strip_suffix(s: &str, p: &str) -> (r: Option<String>)
    ensures
        opt_text(r) == before_suffix(s@, p@),
{
    let v: Vec<char> = to_chars(s);
    let w: Vec<char> = to_chars(p);
    if w.len() <= v.len() && is_at(&v, &w, v.len() - w.len()) {
        Some(slice_text(&v, 0, v.len() - w.len()))
    } else {
        None
    }
}

/// Both sides of the first `x` in `s`, if there is one.
pub open spec fn around(s: Seq<char>, x: char) -> Option<(Seq<char>, Seq<char>)> {
    let i = first_from(s, 0, only(x));
    if i < s.len() {
        Some((s.take(i), s.skip(i + 1)))
    } else {
        None
    }
}

/// Both sides of the first `x` in `s`, if there is one.
pub fn split_once(s: &str, x: char) -> (r: Option<(String, String)>)
    ensures
        match r {
            Some(p) => around(s@, x) == Some((p.0@, p.1@)),
            None => around(s@, x) is None,
        },
{
    let v: Vec<char> = to_chars(s);
    let i: usize = index_of_char(&v, 0, x);
    if i < v.len() {
        let a = slice_text(&v, 0, i);
        let b = slice_text(&v, i + 1, v.len());
        Some((a, b))
    } else {
        None
    }
}

/// What follows the last `x` in `s`, or all of it where there is none.
pub open spec fn after_last(s: Seq<char>, x: char) -> Seq<char> {
    s.skip(cut_end(s, s.len() as int, but(x)))
}

/// What follows the last `x` in `s`, or all of it where there is none.
pub fn after_last_char(s: &str, x: char) -> (r: String)
    ensures
        r@ == after_last(s@, x),
{
    let v: Vec<char> = to_chars(s);
    let mut e: usize = v.len();
    while e > 0 && v[e - 1] != x
        invariant
            e <= v@.len(),
            v@ == s@,
            cut_end(s@, e as int, but(x)) == cut_end(s@, s@.len() as int, but(x)),
        decreases e,
    {
        e -= 1;
    }
    slice_text(&v, e, v.len())
}

/// `s` with every `x` replaced by `with`.
pub open spec fn replaced(s: Seq<char>, x: char, with: Seq<char>) -> Seq<char>
    decreases s.len(),
{
    if s.len() == 0 {
        Seq::empty()
    } else {
        replaced(s.drop_last(), x, with) + (if s.last() == x {
            with
        } else {
            seq![s.last()]
        })
    }
}

/// `s` with every `x` replaced by `with`.
pub fn replace_char(s: &str, x: char, with: &str) -> (r: String)
    ensures
        r@ == replaced(s@, x, with@),
{
    let v: Vec<char> = to_chars(s);
    let mut r = String::new();
    let mut i: usize = 0;
    while i < v.len()
        invariant
            i <= v@.len(),
            v@ == s@,
            r@ == replaced(s@.take(i as int), x, with@),
        decreases v@.len() - i,
    {
        assert(s@.take(i + 1).drop_last() =~= s@.take(i as int));
        if v[i] == x {
            r.push_str(with);
        } else {
            r.push(v[i]);
        }
        i += 1;
        assert(r@ =~= replaced(s@.take(i as int), x, with@));
    }
    assert(s@.take(s@.len() as int) =~= s@);
    r
}

// ---- Numbers ----

/// The character for a digit below sixteen, lower case.
pub open spec fn digit_char(d: nat) -> char {
    if d < 10 {
        (48 + d) as char
    } else {
        (87 + d) as char
    }
}

/// The character for a digit below sixteen, lower case.
pub fn to_digit_char(d: u8) -> (c: char)
    requires
        d < 16,
    ensures
        c == digit_char(d as nat),
{
    if d < 10 {
        (48 + d) as char
    } else {
        (87 + d) as char
    }
}

/// `n` in decimal, without leading zeros.
pub open spec fn decimal_of(n: nat) -> Seq<char>
    decreases n,
{
    if n < 10 {
        seq![digit_char(n)]
    } else {
        decimal_of(n / 10).push(digit_char(n % 10))
    }
}

/// `n` in decimal, without leading zeros.
pub fn decimal(n: u128) -> (r: String)
    ensures
        r@ == decimal_of(n as nat),
    decreases n,
{
    if n < 10 {
        let mut r = String::new();
        r.push(to_digit_char(n as u8));
        assert(r@ =~= seq![digit_char(n as nat)]);
        r
    } else {
        let mut r = decimal(n / 10);
        r.push(to_digit_char((n % 10) as u8));
        r
    }
}

/// The `k` lowest hexadecimal digits of `n`, highest first.
pub open spec fn hex_of(n: nat, k: nat) -> Seq<char>
    decreases k,
{
    if k == 0 {
        Seq::empty()
    } else {
        hex_of(n / 16, (k - 1) as nat).push(digit_char(n % 16))
    }
}

/// The `k` lowest hexadecimal digits of `n`, highest first.
pub fn hex(n: u32, k: usize) -> (r: String)
    ensures
        r@ == hex_of(n as nat, k as nat),
    decreases k,
{
    if k == 0 {
        String::new()
    } else {
        let mut r = hex(n / 16, k - 1);
        r.push(to_digit_char((n % 16) as u8));
        r
    }
}

/// The number a run of decimal digits stands for.
pub open spec fn digits_value(s: Seq<char>) -> nat
    decreases s.len(),
{
    if s.len() == 0 {
        0
    } else {
        digits_value(s.drop_last()) * 10 + (s.last() as nat - 48) as nat
    }
}

/// `s` without one leading plus sign.
pub open spec fn unsigned_part(s: Seq<char>) -> Seq<char> {
    if s.len() > 0 && s[0] == '+' {
        s.skip(1)
    } else {
        s
    }
}

/// Whether `s` is made of decimal digits alone.
pub open spec fn all_digits(s: Seq<char>) -> bool {
    forall|i: int| 0 <= i < s.len() ==> digit(#[trigger] s[i])
}

/// What `s` stands for as an unsigned number of 32 bits: decimal digits after
/// an optional plus sign, and small enough.
pub open spec fn u32_of(s: Seq<char>) -> Option<nat> {
    let d = unsigned_part(s);
    if d.len() > 0 && all_digits(d) && digits_value(d) <= u32::MAX {
        Some(digits_value(d))
    } else {
        None
    }
}

/// A longer run of digits stands for a number at least as large.
pub proof fn lemma_digits_value_grows(s: Seq<char>, k: int)
    requires
        0 <= k <= s.len(),
        all_digits(s),
    ensures
        digits_value(s.take(k)) <= digits_value(s),
    decreases s.len() - k,
{
    if k < s.len() {
        lemma_digits_value_grows(s, k + 1);
        assert(s.take(k + 1).drop_last() =~= s.take(k));
        assert(digits_value(s.take(k)) * 10 >= digits_value(s.take(k)));
    } else {
        assert(s.take(k) =~= s);
    }
}

/// Read `s` as an unsigned number of 32 bits.
pub fn parse_u32(s: &str) -> (r: Option<u32>)
    ensures
        match r {
            Some(n) => u32_of(s@) == Some(n as nat),
            None => u32_of(s@) is None,
        },
{
    let v: Vec<char> = to_chars(s);
    let from: usize = if v.len() > 0 && v[0] == '+' {
        1
    } else {
        0
    };
    let ghost d = unsigned_part(s@);
    if from == v.len() {
        assert(d.len() == 0);
        return None;
    }
    let mut n: u32 = 0;
    let mut i: usize = from;
    while i < v.len()
        invariant
            from <= i <= v@.len(),
            v@ == s@,
            d == unsigned_part(s@),
            forall|j: int| 0 <= j < d.len() ==> d[j] == s@[j + from],
            d.len() > 0,
            d.len() == v@.len() - from,
            forall|j: int| 0 <= j < i - from ==> digit(#[trigger] d[j]),
            n == digits_value(d.take(i - from)),
        decreases v@.len() - i,
    {
        let c: char = v[i];
        let ghost k = i - from;
        assert(d[k] == c);
        if !is_digit(c) {
            assert(!digit(d[k]));
            assert(!all_digits(d));
            return None;
        }
        let x: u32 = c as u32 - 48;
        assert(d.take(k + 1).drop_last() =~= d.take(k));
        assert(digits_value(d.take(k + 1)) == n * 10 + x);
        if n > (u32::MAX - x) / 10 {
            proof {
                if all_digits(d) {
                    lemma_digits_value_grows(d, k + 1);
                }
            }
            assert(u32_of(s@) is None);
            return None;
        }
        n = n * 10 + x;
        i += 1;
    }
    assert(d.take(d.len() as int) =~= d);
    Some(n)
}

} // verus!
