//! Laws of the text inputs: what their edits make of a text that is given in
//! parts, before, within and behind what they change.

use vstd::prelude::*;
use vstd::string::*;
use vstd::utf8::*;

use crate::input;
use crate::input::{Field, RowTarget, Span};
use crate::offsets;
use crate::text;

verus! {

/// The bytes that a text takes.
pub open spec fn size(s: Seq<char>) -> int {
    encode_utf8(s).len() as int
}

/// The UTF-16 units that a text takes: two for each character that does not fit
/// in sixteen bits, one for each other.
pub open spec fn units(s: Seq<char>) -> int {
    s.len() as int + s.filter(|c: char| c as u32 >= 0x10000).len()
}

/// Whether a span is the middle one of three parts of a text.
pub open spec fn is_middle(span: Span, a: Seq<char>, mid: Seq<char>) -> bool {
    &&& span.start == size(a)
    &&& span.end == size(a + mid)
}

proof fn lemma_units(s: Seq<char>)
    ensures
        offsets::unit_len(s) == units(s),
    decreases s.len(),
{
    let wide = |c: char| c as u32 >= 0x10000;
    reveal(Seq::filter);
    if s.len() > 0 {
        let rest = s.drop_last();
        lemma_units(rest);
        assert(units(rest) == rest.len() + rest.filter(wide).len());
        assert(s.filter(wide) == (if wide(s.last()) {
            rest.filter(wide).push(s.last())
        } else {
            rest.filter(wide)
        }));
        assert(offsets::width16(s.last()) == (if wide(s.last()) {
            2nat
        } else {
            1nat
        }));
        assert(units(s) == s.len() + s.filter(wide).len());
    }
}

proof fn lemma_middle(a: Seq<char>, mid: Seq<char>, b: Seq<char>)
    ensures
        offsets::boundary(a + mid + b, size(a)),
        offsets::boundary(a + mid + b, size(a + mid)),
        offsets::before(a + mid + b, size(a)) == a,
        offsets::after(a + mid + b, size(a)) == mid + b,
        offsets::before(a + mid + b, size(a + mid)) == a + mid,
        offsets::after(a + mid + b, size(a + mid)) == b,
        offsets::between(a + mid + b, size(a), size(a + mid)) == mid,
        size(a + mid) == size(a) + size(mid),
        size(a + mid + b) == size(a) + size(mid) + size(b),
{
    offsets::lemma_encoded_len(a);
    offsets::lemma_encoded_len(mid);
    offsets::lemma_encoded_len(b);
    offsets::lemma_encoded_len(a + mid);
    offsets::lemma_encoded_len(a + mid + b);
    offsets::lemma_byte_len_concat(a, mid);
    offsets::lemma_byte_len_concat(a + mid, b);
    offsets::lemma_prefix_boundary(a + mid, b);
    offsets::lemma_prefix_boundary(a, mid + b);
    let all = a + mid + b;
    assert(a + (mid + b) =~= all);
    let i = offsets::chars_before(all, size(a));
    let j = offsets::chars_before(all, size(a + mid));
    assert(all.take(a.len() as int) =~= a);
    assert(all.take((a + mid).len() as int) =~= a + mid);
    offsets::lemma_boundary(all, a.len() as int);
    offsets::lemma_boundary(all, (a + mid).len() as int);
    assert(all.subrange(i, j) =~= mid);
}

/// A text can be cut between its characters and nowhere within one.
pub proof fn texts_are_cut_between_characters(a: Seq<char>, c: char, b: Seq<char>, within: int)
    requires
        0 < within < size(seq![c]),
    ensures
        offsets::boundary(a + seq![c] + b, size(a)),
        offsets::boundary(a + seq![c] + b, size(a + seq![c])),
        !offsets::boundary(a + seq![c] + b, size(a) + within),
{
    lemma_middle(a, seq![c], b);
    offsets::lemma_encoded_len(a);
    offsets::lemma_encoded_len(a + seq![c]);
    let all = a + seq![c] + b;
    let at = size(a) + within;
    if offsets::boundary(all, at) {
        let k = choose|k: int|
            0 <= k <= all.len() && offsets::byte_len(#[trigger] all.take(k)) == at;
        assert(all.take(a.len() as int) =~= a);
        assert(all.take(a.len() as int + 1) =~= a + seq![c]);
        if k <= a.len() {
            offsets::lemma_byte_len_grows(all, k, a.len() as int);
        } else {
            offsets::lemma_byte_len_grows(all, a.len() as int + 1, k);
        }
    }
}

/// Typing replaces what is selected, or what is being composed where something
/// is: the text before and behind stays, and the cursor stands behind the new
/// text.
pub proof fn typing_replaces_what_is_selected(
    f: Field,
    a: Seq<char>,
    mid: Seq<char>,
    b: Seq<char>,
    new: Seq<char>,
)
    requires
        f.content == a + mid + b,
        f.marked is None ==> is_middle(f.selected, a, mid),
        f.marked is Some ==> is_middle(f.marked->0, a, mid),
        size(a + new + b) <= usize::MAX,
    ensures
        f.replaced(None, new).content == a + new + b,
        f.replaced(None, new).selected.start == size(a + new),
        f.replaced(None, new).selected.end == size(a + new),
        f.replaced(None, new).marked is None,
        f.replaced(None, new).placeholder == f.placeholder,
        f.replaced(None, new).multiline == f.multiline,
        f.replaced(None, new).reversed == f.reversed,
        f.replaced(None, new).selecting == f.selecting,
        f.marked is None ==> f.selection() == mid,
{
    lemma_middle(a, mid, b);
    lemma_middle(a, new, b);
    offsets::lemma_encoded_len(new);
}

/// A range that the platform gives in UTF-16 units is the text of so many
/// units: that text is replaced, whatever is selected.
pub proof fn ranges_are_counted_in_units(
    f: Field,
    range: Span,
    a: Seq<char>,
    mid: Seq<char>,
    b: Seq<char>,
    new: Seq<char>,
)
    requires
        f.content == a + mid + b,
        range.start == units(a),
        range.end == units(a + mid),
        size(a + mid + b) <= usize::MAX,
        size(a + new + b) <= usize::MAX,
    ensures
        f.replaced(Some(range), new).content == a + new + b,
        f.replaced(Some(range), new).selected.end == size(a + new),
        f.replaced(Some(range), new).selected.start == size(a + new),
        is_middle(input::span_from_utf16(f.content, range), a, mid),
        input::span_to_utf16(f.content, input::span_from_utf16(f.content, range)) == range,
{
    lemma_middle(a, mid, b);
    lemma_middle(a, new, b);
    lemma_units(a);
    lemma_units(a + mid);
    let all = a + mid + b;
    assert(all.take(a.len() as int) =~= a);
    assert(all.take((a + mid).len() as int) =~= a + mid);
    offsets::lemma_reach_exact(all, 0, a.len() as int);
    offsets::lemma_reach_exact(all, 0, (a + mid).len() as int);
    offsets::lemma_encoded_len(a);
    offsets::lemma_encoded_len(a + mid);
    offsets::lemma_encoded_len(new);
}

/// Moving the cursor leaves no selection; extending the selection moves the
/// cursor and leaves its other end where it is. Neither changes the text.
pub proof fn cursors_move(f: Field, offset: int)
    requires
        f.selected.start <= f.selected.end,
        0 <= offset <= usize::MAX,
    ensures
        f.moved(offset).cursor() == offset,
        f.moved(offset).selected.start == offset,
        f.moved(offset).selected.end == offset,
        f.moved(offset).content == f.content,
        f.moved(offset).marked == f.marked,
        f.extended(offset).cursor() == offset || f.extended(offset).anchor() == offset,
        f.extended(offset).selected.start <= f.extended(offset).selected.end,
        ({
            let fixed = if f.reversed {
                f.selected.end
            } else {
                f.selected.start
            };
            &&& f.extended(offset).selected.start == (if offset < fixed {
                offset
            } else {
                fixed as int
            })
            &&& f.extended(offset).selected.end == (if offset < fixed {
                fixed as int
            } else {
                offset
            })
            &&& offset < fixed ==> f.extended(offset).reversed
            &&& offset > fixed ==> !f.extended(offset).reversed
        }),
        f.extended(offset).content == f.content,
        f.extended(offset).marked == f.marked,
        f.extended(offset).multiline == f.multiline,
        f.extended(offset).placeholder == f.placeholder,
        f.extended(offset).selecting == f.selecting,
        f.reversed ==> f.cursor() == f.selected.start,
        !f.reversed ==> f.cursor() == f.selected.end,
{
}

/// The place before the cursor is the nearest start of a cluster on its left,
/// the place behind it the nearest on its right; the text's ends where there is
/// none.
pub proof fn steps_go_to_the_nearest_cluster(starts: Seq<usize>, offset: int, end: int)
    requires
        forall|i: int, j: int| 0 <= i < j < starts.len() ==> starts[i] < starts[j],
    ensures
        forall|i: int|
            0 <= i < starts.len() && #[trigger] starts[i] < offset ==> starts[i]
                <= input::last_below(starts, offset) < offset,
        (exists|i: int|
            0 <= i < starts.len() && #[trigger] starts[i] == input::last_below(starts, offset))
            || input::last_below(starts, offset) == 0,
        forall|i: int|
            0 <= i < starts.len() && #[trigger] starts[i] > offset ==> offset < input::first_above(
                starts,
                0,
                offset,
                end,
            ) <= starts[i],
        (exists|i: int|
            0 <= i < starts.len() && #[trigger] starts[i] == input::first_above(
                starts,
                0,
                offset,
                end,
            )) || input::first_above(starts, 0, offset, end) == end,
{
    lemma_below(starts, offset);
    lemma_above(starts, 0, offset, end);
}

proof fn lemma_below(starts: Seq<usize>, offset: int)
    requires
        forall|i: int, j: int| 0 <= i < j < starts.len() ==> starts[i] < starts[j],
    ensures
        forall|i: int|
            0 <= i < starts.len() && #[trigger] starts[i] < offset ==> starts[i]
                <= input::last_below(starts, offset) < offset,
        (exists|i: int|
            0 <= i < starts.len() && #[trigger] starts[i] == input::last_below(starts, offset))
            || input::last_below(starts, offset) == 0,
    decreases starts.len(),
{
    if starts.len() > 0 {
        let rest = starts.drop_last();
        let last = starts[starts.len() - 1];
        if last >= offset {
            assert forall|i: int, j: int| 0 <= i < j < rest.len() implies rest[i] < rest[j] by {
                assert(starts[i] < starts[j]);
            }
            lemma_below(rest, offset);
            assert forall|i: int|
                0 <= i < starts.len() && #[trigger] starts[i] < offset implies starts[i]
                <= input::last_below(starts, offset) < offset by {
                assert(rest[i] == starts[i]);
            }
            if input::last_below(rest, offset) != 0 {
                let i = choose|i: int|
                    0 <= i < rest.len() && #[trigger] rest[i] == input::last_below(rest, offset);
                assert(starts[i] == input::last_below(starts, offset));
            }
        }
    }
}

proof fn lemma_above(starts: Seq<usize>, k: int, offset: int, end: int)
    requires
        0 <= k <= starts.len(),
        forall|i: int, j: int| 0 <= i < j < starts.len() ==> starts[i] < starts[j],
    ensures
        forall|i: int|
            k <= i < starts.len() && #[trigger] starts[i] > offset ==> offset < input::first_above(
                starts,
                k,
                offset,
                end,
            ) <= starts[i],
        (exists|i: int|
            0 <= i < starts.len() && #[trigger] starts[i] == input::first_above(
                starts,
                k,
                offset,
                end,
            )) || input::first_above(starts, k, offset, end) == end,
    decreases starts.len() - k,
{
    if k < starts.len() && starts[k] <= offset {
        lemma_above(starts, k + 1, offset, end);
    }
}

/// Backspace takes what lies between the place before the cursor and the
/// cursor, delete what lies between the cursor and the place behind it; with a
/// selection either takes that, and nothing else.
pub proof fn deleting_takes_one_cluster(f: Field, a: Seq<char>, mid: Seq<char>, b: Seq<char>)
    requires
        f.content == a + mid + b,
        f.marked is None,
        size(a + mid + b) <= usize::MAX,
    ensures
        f.selected.start == f.selected.end && f.cursor() == size(a + mid) && f.back() == size(a)
            ==> f.reaching_back().replaced(None, ""@).content == a + b,
        f.selected.start == f.selected.end && f.cursor() == size(a) && f.on(f.cursor()) == size(
            a + mid,
        ) ==> f.reaching_on().replaced(None, ""@).content == a + b,
        mid.len() > 0 && is_middle(f.selected, a, mid) ==> f.reaching_back().replaced(
            None,
            ""@,
        ).content == a + b && f.reaching_on().replaced(None, ""@).content == a + b,
{
    reveal_strlit("");
    assert(""@ =~= Seq::<char>::empty());
    lemma_middle(a, mid, b);
    lemma_middle(a, ""@, b);
    assert(a + ""@ + b =~= a + b);
    offsets::lemma_encoded_len(mid);
    offsets::lemma_byte_len_grows(mid, 0, mid.len() as int);
    assert(mid.take(mid.len() as int) =~= mid);
}

/// In an input of several lines, home goes to the start of the cursor's line
/// and end to its end, between the nearest line feeds; in one of a single line
/// they go to the ends of the text.
pub proof fn home_and_end_stay_on_the_line(
    f: Field,
    a: Seq<char>,
    left: Seq<char>,
    right: Seq<char>,
    b: Seq<char>,
)
    requires
        f.content == a + left + right + b,
        f.cursor() == size(a + left),
        a.len() > 0 ==> a.last() == '\n',
        !left.contains('\n'),
        !right.contains('\n'),
        b.len() > 0 ==> b[0] == '\n',
    ensures
        f.multiline ==> f.line_start() == size(a),
        f.multiline ==> f.line_end() == size(a + left + right),
        !f.multiline ==> f.line_start() == 0,
        !f.multiline ==> f.line_end() == size(f.content),
{
    offsets::lemma_encoded_len(f.content);
    if f.multiline {
        lemma_line_start(a, left, right + b);
        lemma_line_end(a + left, right, b);
        assert(a + left + (right + b) =~= a + left + right + b);
    }
}

proof fn lemma_line_start(a: Seq<char>, left: Seq<char>, rest: Seq<char>)
    requires
        a.len() > 0 ==> a.last() == '\n',
        !left.contains('\n'),
    ensures
        size(a + left) - offsets::byte_len(
            text::after_last(offsets::before(a + left + rest, size(a + left)), '\n'),
        ) == size(a),
{
    lemma_middle(a, left, rest);
    offsets::lemma_encoded_len(left);
    let before = a + left;
    let other = text::but('\n');
    assert forall|j: int| a.len() <= j < before.len() implies other(before[j]) by {
        assert(before[j] == left[j - a.len()]);
        assert(left.contains(left[j - a.len()]));
    }
    if a.len() > 0 {
        assert(before[a.len() - 1] == a.last());
    }
    lemma_cut(before, before.len() as int, other, a.len() as int);
    assert(before.skip(a.len() as int) =~= left);
}

proof fn lemma_line_end(a: Seq<char>, right: Seq<char>, b: Seq<char>)
    requires
        !right.contains('\n'),
        b.len() > 0 ==> b[0] == '\n',
    ensures
        ({
            let rest = offsets::after(a + right + b, size(a));
            size(a) + offsets::byte_len(rest.take(text::first_from(rest, 0, text::only('\n'))))
                == size(a + right)
        }),
{
    lemma_middle(a, right, b);
    offsets::lemma_encoded_len(right);
    let rest = right + b;
    let feed = text::only('\n');
    assert forall|j: int| 0 <= j < right.len() implies !feed(rest[j]) by {
        assert(rest[j] == right[j]);
        assert(right.contains(right[j]));
    }
    if b.len() > 0 {
        assert(rest[right.len() as int] == b[0]);
    }
    text::lemma_first_is(rest, 0, feed, right.len() as int);
    assert(rest.take(right.len() as int) =~= right);
}

proof fn lemma_cut(s: Seq<char>, e: int, p: spec_fn(char) -> bool, at: int)
    requires
        0 <= at <= e <= s.len(),
        at > 0 ==> !p(s[at - 1]),
        forall|j: int| at <= j < e ==> p(s[j]),
    ensures
        text::cut_end(s, e, p) == at,
    decreases e - at,
{
    if at < e {
        lemma_cut(s, e - 1, p, at);
    }
}

/// A move by a row ends in the text: at its start above the first row, at its
/// end below the last, and else where the layout puts it.
pub proof fn rows_end_in_the_text(content: Seq<char>, offset: usize)
    ensures
        input::row_offset(content, RowTarget::Above) == 0,
        input::row_offset(content, RowTarget::Below) == size(content),
        offset <= size(content) ==> input::row_offset(content, RowTarget::At(offset)) == offset,
        offset > size(content) ==> input::row_offset(content, RowTarget::At(offset)) == size(
            content,
        ),
{
    offsets::lemma_encoded_len(content);
}

/// An empty input has nothing in it, nothing selected and nothing marked.
pub proof fn new_inputs_are_empty(placeholder: Seq<char>, multiline: bool)
    ensures
        ({
            let f = input::empty_field(placeholder, multiline);
            &&& f.content.len() == 0
            &&& f.placeholder == placeholder
            &&& f.multiline == multiline
            &&& f.selected.start == 0 && f.selected.end == 0
            &&& f.marked is None
            &&& !f.reversed && !f.selecting
        }),
{
}

/// The lengths of some runs, added up.
pub open spec fn covered(runs: Seq<(int, bool)>) -> int
    decreases runs.len(),
{
    if runs.len() == 0 {
        0
    } else {
        covered(runs.drop_last()) + runs.last().0
    }
}

/// The runs of a shown text cover all of it, and the one that stands out is what
/// is marked: it begins where that begins and is as long.
pub proof fn runs_cover_the_text(len: int, marked: Option<Span>, k: int)
    requires
        marked matches Some(m) ==> m.start <= m.end <= len,
    ensures
        covered(input::runs_of(len, marked)) == len,
        0 <= k < input::runs_of(len, marked).len() && input::runs_of(len, marked)[k].1 ==> (marked
            matches Some(m) && covered(input::runs_of(len, marked).take(k)) == m.start
            && input::runs_of(len, marked)[k].0 == m.end - m.start),
        marked is Some && marked->0.start < marked->0.end ==> exists|j: int|
            0 <= j < input::runs_of(len, marked).len() && (
            #[trigger] input::runs_of(len, marked)[j]).1,
{
    reveal_with_fuel(covered, 4);
    let runs = input::runs_of(len, marked);
    if let Some(m) = marked {
        let x = input::some_run(m.start as int, false);
        let y = input::some_run(m.end - m.start, true);
        let z = input::some_run(len - m.end, false);
        lemma_covered(x, y);
        lemma_covered(x + y, z);
        if m.start < m.end {
            assert(runs[x.len() as int] == (m.end - m.start, true));
        }
        if 0 <= k < runs.len() && runs[k].1 {
            assert(k == x.len());
            assert(runs.take(k) =~= x);
        }
    } else {
        assert(runs.drop_last() =~= Seq::<(int, bool)>::empty());
    }
}

proof fn lemma_covered(a: Seq<(int, bool)>, b: Seq<(int, bool)>)
    ensures
        covered(a + b) == covered(a) + covered(b),
    decreases b.len(),
{
    if b.len() == 0 {
        assert(a + b =~= a);
    } else {
        lemma_covered(a, b.drop_last());
        assert((a + b).drop_last() =~= a + b.drop_last());
    }
}

/// The first line starts the text, and each other one a byte, its line feed,
/// behind the end of the one before.
pub proof fn lines_follow_each_other(lens: Seq<usize>, i: int)
    requires
        0 <= i,
    ensures
        input::line_start_of(lens, 0) == 0,
        input::line_start_of(lens, i + 1) == input::line_start_of(lens, i) + lens[i] + 1,
{
}

/// An offset is on the line between whose ends it lies; on none where it lies
/// beyond them all.
pub proof fn offsets_are_on_their_line(starts: Seq<usize>, lens: Seq<usize>, i: int, offset: int)
    requires
        starts.len() == lens.len(),
    ensures
        0 <= i < starts.len() && starts[i] <= offset <= starts[i] + lens[i] && (forall|j: int|
            0 <= j < i ==> !(#[trigger] starts[j] <= offset <= starts[j] + lens[j]))
            ==> input::line_from(starts, lens, 0, offset) == Some(i),
        (forall|j: int|
            0 <= j < starts.len() ==> !(#[trigger] starts[j] <= offset <= starts[j] + lens[j]))
            ==> input::line_from(starts, lens, 0, offset) is None,
{
    if 0 <= i < starts.len() && starts[i] <= offset <= starts[i] + lens[i] && (forall|j: int|
        0 <= j < i ==> !(#[trigger] starts[j] <= offset <= starts[j] + lens[j])) {
        lemma_line_from(starts, lens, 0, i, offset);
    }
    if forall|j: int|
        0 <= j < starts.len() ==> !(#[trigger] starts[j] <= offset <= starts[j] + lens[j]) {
        lemma_line_from(starts, lens, 0, starts.len() as int, offset);
    }
}

proof fn lemma_line_from(starts: Seq<usize>, lens: Seq<usize>, k: int, i: int, offset: int)
    requires
        0 <= k <= i <= starts.len(),
        i < starts.len() ==> starts[i] <= offset <= starts[i] + lens[i],
        forall|j: int| k <= j < i ==> !(#[trigger] starts[j] <= offset <= starts[j] + lens[j]),
    ensures
        input::line_from(starts, lens, k, offset) == (if i < starts.len() {
            Some(i)
        } else {
            None
        }),
    decreases i - k,
{
    if k < i {
        assert(!(starts[k] <= offset <= starts[k] + lens[k]));
        lemma_line_from(starts, lens, k + 1, i, offset);
    }
}

/// A place is selected in a row exactly where it lies in the row and in the
/// selection.
pub proof fn row_parts_are_what_is_in_both(selected: Span, row: Span, at: int)
    requires
        selected.start <= selected.end,
        row.start < row.end,
    ensures
        (input::row_part(selected, row) matches Some(p) && p.start <= at < p.end) <==> (
        selected.start <= at < selected.end && row.start <= at < row.end),
        selected.end < row.start || row.end < selected.start ==> input::row_part(selected, row)
            is None,
{
}

} // verus!
