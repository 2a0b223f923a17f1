//! Text input with full editing support: selection, clipboard, and input
//! methods, with a multiline mode. Offsets are byte offsets into the content;
//! input methods speak in UTF-16 offsets.

use unicode_segmentation::UnicodeSegmentation;
use vstd::prelude::*;
use vstd::string::*;

use crate::offsets;
use crate::offsets::{offset_from_utf16, offset_to_utf16, slice_between, split_at, text_len};
use crate::text;
use crate::text::{after_last_char, index_of_char, replace_char, slice_text, to_chars};

verus! {

/// What an input tells its owner.
pub enum InputEvent {
    Submitted(String),
    Cancelled,
}

/// A range of offsets.
#[derive(Clone, Copy, PartialEq, Eq, Structural, Debug)]
pub struct Span {
    pub start: usize,
    pub end: usize,
}

// ---- Grapheme clusters ----

/// Where the extended grapheme clusters of a text start, in bytes.
pub uninterp spec fn cluster_starts(s: Seq<char>) -> Seq<usize>;

/// Whether some offsets go up.
pub open spec fn ascending(starts: Seq<usize>) -> bool {
    forall|i: int, j: int| 0 <= i < j < starts.len() ==> starts[i] < starts[j]
}

/// Whether some offsets can be the starts of the clusters of a text: they go
/// up from the start of the text, and each falls between two characters, before
/// the end.
pub open spec fn clusters(s: Seq<char>, starts: Seq<usize>) -> bool {
    &&& ascending(starts)
    &&& forall|i: int|
        0 <= i < starts.len() ==> offsets::boundary(s, #[trigger] starts[i] as int) && starts[i]
            < offsets::byte_len(s)
    &&& s.len() > 0 ==> starts.len() > 0 && starts[0] == 0
}

/// `UnicodeSegmentation::grapheme_indices`, with extended clusters: the byte
/// offset of each cluster of `s`. The result is a function of the text. The
/// clusters cover the text from its start, one after the other, and each is
/// made of whole characters, so the offsets go up from zero and fall between
/// characters.
#[verifier::external_body]
fn grapheme_starts(s: &str) -> (r: Vec<usize>)
    ensures
        r@ == cluster_starts(s@),
        clusters(s@, r@),
{
    s.grapheme_indices(true).map(|cluster| cluster.0).collect()
}

/// The last of some offsets that lies before `offset`, or zero.
pub open spec fn last_below(starts: Seq<usize>, offset: int) -> int
    decreases starts.len(),
{
    if starts.len() == 0 {
        0
    } else if starts.last() < offset {
        starts.last() as int
    } else {
        last_below(starts.drop_last(), offset)
    }
}

/// The first of some offsets, from index `i` on, that lies behind `offset`, or
/// `end`.
pub open spec fn first_above(starts: Seq<usize>, i: int, offset: int, end: int) -> int
    decreases starts.len() - i,
{
    if i < 0 || i >= starts.len() {
        end
    } else if starts[i] > offset {
        starts[i] as int
    } else {
        first_above(starts, i + 1, offset, end)
    }
}

/// The last of `starts` that lies before `offset`, or zero.
pub fn previous_start(starts: &Vec<usize>, offset: usize) -> (r: usize)
    ensures
        r == last_below(starts@, offset as int),
{
    let mut k: usize = starts.len();
    assert(starts@.take(k as int) =~= starts@);
    while k > 0
        invariant
            k <= starts@.len(),
            last_below(starts@.take(k as int), offset as int) == last_below(
                starts@,
                offset as int,
            ),
        decreases k,
    {
        assert(starts@.take(k as int).drop_last() =~= starts@.take(k - 1));
        if starts[k - 1] < offset {
            return starts[k - 1];
        }
        k -= 1;
    }
    0
}

/// The first of `starts` that lies behind `offset`, or `end`.
pub fn next_start(starts: &Vec<usize>, offset: usize, end: usize) -> (r: usize)
    ensures
        r == first_above(starts@, 0, offset as int, end as int),
{
    let mut i: usize = 0;
    while i < starts.len()
        invariant
            i <= starts@.len(),
            first_above(starts@, i as int, offset as int, end as int) == first_above(
                starts@,
                0,
                offset as int,
                end as int,
            ),
        decreases starts@.len() - i,
    {
        if starts[i] > offset {
            return starts[i];
        }
        i += 1;
    }
    end
}

proof fn lemma_last_below(starts: Seq<usize>, offset: int)
    ensures
        last_below(starts, offset) == 0 || exists|i: int|
            0 <= i < starts.len() && #[trigger] starts[i] == last_below(starts, offset),
        last_below(starts, offset) == 0 || last_below(starts, offset) < offset,
    decreases starts.len(),
{
    if starts.len() > 0 {
        let rest = starts.drop_last();
        if starts.last() < offset {
            assert(starts[starts.len() - 1] == starts.last());
        } else {
            lemma_last_below(rest, offset);
            if last_below(rest, offset) != 0 {
                let i = choose|i: int|
                    0 <= i < rest.len() && #[trigger] rest[i] == last_below(rest, offset);
                assert(starts[i] == rest[i]);
            }
        }
    }
}

proof fn lemma_first_above(starts: Seq<usize>, i: int, offset: int, end: int)
    requires
        0 <= i,
    ensures
        first_above(starts, i, offset, end) == end || exists|k: int|
            i <= k < starts.len() && #[trigger] starts[k] == first_above(starts, i, offset, end),
    decreases starts.len() - i,
{
    if i < starts.len() && starts[i] <= offset {
        lemma_first_above(starts, i + 1, offset, end);
    }
}

proof fn lemma_last_below_at(starts: Seq<usize>, k: int, offset: int)
    requires
        ascending(starts),
        0 <= k < starts.len(),
        starts[k] < offset,
        k + 1 < starts.len() ==> starts[k + 1] >= offset,
    ensures
        last_below(starts, offset) == starts[k],
    decreases starts.len(),
{
    if k < starts.len() - 1 {
        let rest = starts.drop_last();
        assert(starts.last() >= offset) by {
            if k + 1 < starts.len() - 1 {
                assert(starts[k + 1] < starts[starts.len() - 1]);
            }
        }
        assert forall|i: int, j: int| 0 <= i < j < rest.len() implies rest[i] < rest[j] by {
            assert(starts[i] < starts[j]);
        }
        lemma_last_below_at(rest, k, offset);
    }
}

proof fn lemma_first_above_at(starts: Seq<usize>, i: int, k: int, offset: int, end: int)
    requires
        ascending(starts),
        0 <= i <= k <= starts.len(),
        k < starts.len() ==> starts[k] > offset,
        forall|j: int| i <= j < k ==> starts[j] <= offset,
    ensures
        first_above(starts, i, offset, end) == (if k < starts.len() {
            starts[k] as int
        } else {
            end
        }),
    decreases k - i,
{
    if i < k {
        lemma_first_above_at(starts, i + 1, k, offset, end);
    }
}

/// From the start of any cluster but the first, one step back and one step on
/// lead to the same place; so they do from the end of the text.
pub proof fn back_and_on_again(s: Seq<char>, starts: Seq<usize>, k: int)
    requires
        clusters(s, starts),
        0 < k <= starts.len(),
    ensures
        ({
            let end = offsets::byte_len(s) as int;
            let here = if k < starts.len() {
                starts[k] as int
            } else {
                end
            };
            &&& last_below(starts, here) == starts[k - 1]
            &&& first_above(starts, 0, last_below(starts, here), end) == here
        }),
{
    let end = offsets::byte_len(s) as int;
    let here = if k < starts.len() {
        starts[k] as int
    } else {
        end
    };
    if k < starts.len() {
        assert(starts[k - 1] < starts[k]);
    }
    lemma_last_below_at(starts, k - 1, here);
    assert forall|j: int| 0 <= j < k implies #[trigger] starts[j] <= starts[k - 1] by {
        if j < k - 1 {
            assert(starts[j] < starts[k - 1]);
        }
    }
    lemma_first_above_at(starts, 0, k, starts[k - 1] as int, end);
}

// ---- The input ----

/// A text input.
pub struct TextInput {
    pub content: String,
    pub placeholder: String,
    pub multiline: bool,
    pub selected_range: Span,
    pub selection_reversed: bool,
    pub marked_range: Option<Span>,
    pub is_selecting: bool,
}

/// What a [`TextInput`] says.
#[verifier::ext_equal]
pub struct Field {
    pub content: Seq<char>,
    pub placeholder: Seq<char>,
    pub multiline: bool,
    pub selected: Span,
    pub reversed: bool,
    pub marked: Option<Span>,
    pub selecting: bool,
}

impl View for TextInput {
    type V = Field;

    open spec fn view(&self) -> Field {
        Field {
            content: self.content@,
            placeholder: self.placeholder@,
            multiline: self.multiline,
            selected: self.selected_range,
            reversed: self.selection_reversed,
            marked: self.marked_range,
            selecting: self.is_selecting,
        }
    }
}

/// Whether a span covers whole characters of a text.
pub open spec fn spans(s: Seq<char>, span: Span) -> bool {
    &&& span.start <= span.end
    &&& offsets::boundary(s, span.start as int)
    &&& offsets::boundary(s, span.end as int)
}

/// An empty span.
pub open spec fn caret(offset: int) -> Span {
    Span { start: offset as usize, end: offset as usize }
}

impl Field {
    /// What is selected, and what is marked, covers whole characters.
    pub open spec fn wf(self) -> bool {
        &&& spans(self.content, self.selected)
        &&& self.marked is Some ==> spans(self.content, self.marked->0)
        &&& offsets::byte_len(self.content) <= usize::MAX
    }

    /// Whether nothing is selected.
    pub open spec fn unselected(self) -> bool {
        self.selected.start >= self.selected.end
    }

    /// Whether what would be replaced starts and ends between characters.
    pub open spec fn replaceable(self, range_utf16: Option<Span>) -> bool {
        &&& offsets::boundary(self.content, self.target(range_utf16).start as int)
        &&& offsets::boundary(self.content, self.target(range_utf16).end as int)
    }

    /// The end of the selection that stays where the other one moves.
    pub open spec fn anchor(self) -> int {
        if self.reversed {
            self.selected.end as int
        } else {
            self.selected.start as int
        }
    }

    /// Whether what backspace and delete remove starts and ends between
    /// characters: what is marked, else the selection, else what lies between
    /// the cursor's place and a cluster's.
    pub open spec fn deletable(self) -> bool {
        if self.marked is None && self.unselected() {
            offsets::boundary(self.content, self.anchor())
        } else {
            self.replaceable(None)
        }
    }

    /// The field with what backspace deletes selected: the selection, or the
    /// cluster before the cursor.
    pub open spec fn reaching_back(self) -> Field {
        if self.unselected() {
            self.extended(self.back())
        } else {
            self
        }
    }

    /// The field with what delete deletes selected: the selection, or the
    /// cluster behind the cursor.
    pub open spec fn reaching_on(self) -> Field {
        if self.unselected() {
            self.extended(self.on(self.cursor()))
        } else {
            self
        }
    }

    /// Where the cursor is: at the end of the selection that moves.
    pub open spec fn cursor(self) -> int {
        if self.reversed {
            self.selected.start as int
        } else {
            self.selected.end as int
        }
    }

    /// The field with the cursor moved.
    pub open spec fn moved(self, offset: int) -> Field {
        Field { selected: caret(offset), ..self }
    }

    /// The field with the moving end of the selection moved; where it passes
    /// the other end, the two change roles.
    pub open spec fn extended(self, offset: int) -> Field {
        let start = if self.reversed {
            offset
        } else {
            self.selected.start as int
        };
        let end = if self.reversed {
            self.selected.end as int
        } else {
            offset
        };
        if end < start {
            Field {
                selected: Span { start: end as usize, end: start as usize },
                reversed: !self.reversed,
                ..self
            }
        } else {
            Field { selected: Span { start: start as usize, end: end as usize }, ..self }
        }
    }

    /// The offset one cluster before the cursor.
    pub open spec fn back(self) -> int {
        last_below(cluster_starts(self.content), self.cursor())
    }

    /// The offset one cluster behind `offset`.
    pub open spec fn on(self, offset: int) -> int {
        first_above(
            cluster_starts(self.content),
            0,
            offset,
            offsets::byte_len(self.content) as int,
        )
    }

    /// What replacing text without a range replaces: what is marked, else what
    /// is selected.
    pub open spec fn target(self, range_utf16: Option<Span>) -> Span {
        match range_utf16 {
            Some(r) => span_from_utf16(self.content, r),
            None => match self.marked {
                Some(m) => m,
                None => self.selected,
            },
        }
    }

    /// The field with a range replaced and the cursor behind the new text.
    pub open spec fn replaced(self, range_utf16: Option<Span>, new_text: Seq<char>) -> Field {
        let range = self.target(range_utf16);
        Field {
            content: content_with(self.content, range, new_text),
            selected: caret(range.start + offsets::byte_len(new_text)),
            marked: None,
            ..self
        }
    }

    /// The start of the line that the cursor is on; of the whole text where
    /// there is only one line.
    pub open spec fn line_start(self) -> int {
        if self.multiline {
            self.cursor() - offsets::byte_len(
                text::after_last(offsets::before(self.content, self.cursor()), '\n'),
            )
        } else {
            0
        }
    }

    /// The end of the line that the cursor is on; of the whole text where
    /// there is only one line.
    pub open spec fn line_end(self) -> int {
        if self.multiline {
            let rest = offsets::after(self.content, self.cursor());
            self.cursor() + offsets::byte_len(
                rest.take(text::first_from(rest, 0, text::only('\n'))),
            )
        } else {
            offsets::byte_len(self.content) as int
        }
    }

    /// What is selected.
    pub open spec fn selection(self) -> Seq<char> {
        offsets::between(self.content, self.selected.start as int, self.selected.end as int)
    }
}

/// A range of UTF-16 offsets as one of byte offsets.
pub open spec fn span_from_utf16(s: Seq<char>, r: Span) -> Span {
    Span {
        start: offsets::from_utf16(s, r.start as int) as usize,
        end: offsets::from_utf16(s, r.end as int) as usize,
    }
}

/// A range of byte offsets as one of UTF-16 offsets.
pub open spec fn span_to_utf16(s: Seq<char>, r: Span) -> Span {
    Span {
        start: offsets::to_utf16(s, r.start as int) as usize,
        end: offsets::to_utf16(s, r.end as int) as usize,
    }
}

/// A text with a range replaced.
pub open spec fn content_with(s: Seq<char>, range: Span, new_text: Seq<char>) -> Seq<char> {
    offsets::before(s, range.start as int) + new_text + offsets::after(s, range.end as int)
}

/// Where what is selected and what is marked covers whole characters, every edit
/// is defined: any range can be replaced, and so can what is marked or selected.
pub proof fn whole_fields_can_be_edited(f: Field, range_utf16: Option<Span>)
    requires
        f.wf(),
    ensures
        f.replaceable(range_utf16),
        f.deletable(),
        f.unselected() || spans(f.content, f.selected),
        offsets::boundary(f.content, f.cursor()),
{
    if let Some(r) = range_utf16 {
        offsets::lemma_from_utf16_boundary(f.content, r.start as int);
        offsets::lemma_from_utf16_boundary(f.content, r.end as int);
    }
}

proof fn lemma_replaced(f: Field, range: Span, new_text: Seq<char>)
    requires
        offsets::boundary(f.content, range.start as int),
        offsets::boundary(f.content, range.end as int),
    ensures
        offsets::byte_len(offsets::before(f.content, range.start as int)) == range.start,
        range.start + offsets::byte_len(new_text) <= offsets::byte_len(
            content_with(f.content, range, new_text),
        ),
        offsets::boundary(content_with(f.content, range, new_text), range.start as int),
        offsets::boundary(
            content_with(f.content, range, new_text),
            range.start + offsets::byte_len(new_text),
        ),
{
    let a = offsets::before(f.content, range.start as int);
    let b = offsets::after(f.content, range.end as int);
    offsets::lemma_at_boundary(f.content, range.start as int);
    offsets::lemma_byte_len_concat(a, new_text);
    offsets::lemma_byte_len_concat(a + new_text, b);
    offsets::lemma_prefix_boundary(a + new_text, b);
    offsets::lemma_prefix_boundary(a, new_text + b);
    assert(a + (new_text + b) =~= a + new_text + b);
}

/// What lies a row above or below the cursor.
#[derive(Clone, Copy, PartialEq, Eq, Structural, Debug)]
pub enum RowTarget {
    /// Nothing: the row would be above the first one.
    Above,
    /// Nothing: the row would be below the last one.
    Below,
    /// The offset that the layout gives for the place.
    At(usize),
}

/// Where a move by a row ends: never beyond the text.
pub open spec fn row_offset(content: Seq<char>, to: RowTarget) -> int {
    let len = offsets::byte_len(content) as int;
    match to {
        RowTarget::Above => 0,
        RowTarget::Below => len,
        RowTarget::At(offset) => if offset < len {
            offset as int
        } else {
            len
        },
    }
}

impl TextInput {
    /// An empty input of one line.
    pub fn new(placeholder: String) -> (r: TextInput)
        ensures
            r@ == empty_field(placeholder@, false),
            r@.wf(),
    {
        Self::build(placeholder, false)
    }

    /// An empty input of many lines.
    pub fn multiline(placeholder: String) -> (r: TextInput)
        ensures
            r@ == empty_field(placeholder@, true),
            r@.wf(),
    {
        Self::build(placeholder, true)
    }

    fn build(placeholder: String, multiline: bool) -> (r: TextInput)
        ensures
            r@ == empty_field(placeholder@, multiline),
            r@.wf(),
    {
        let r = TextInput {
            content: String::new(),
            placeholder,
            multiline,
            selected_range: Span { start: 0, end: 0 },
            selection_reversed: false,
            marked_range: None,
            is_selecting: false,
        };
        proof {
            assert(r@.content =~= Seq::<char>::empty());
            offsets::lemma_end_boundaries(r@.content);
        }
        r
    }

    /// Replace the whole content, with the cursor at its end.
    pub fn set_text(&mut self, t: String)
        ensures
            final(self)@ == (Field {
                content: t@,
                selected: caret(offsets::byte_len(t@) as int),
                marked: None,
                ..old(self)@
            }),
            final(self)@.wf(),
    {
        let len: usize = text_len(t.as_str());
        proof {
            offsets::lemma_end_boundaries(t@);
        }
        self.content = t;
        self.selected_range = Span { start: len, end: len };
        self.marked_range = None;
    }

    /// The content.
    pub fn text(&self) -> (r: &str)
        ensures
            r@ == self@.content,
    {
        self.content.as_str()
    }

    /// What to tell the owner when the content is submitted.
    pub fn submit(&self) -> (r: InputEvent)
        ensures
            r matches InputEvent::Submitted(t) && t@ == self@.content,
    {
        InputEvent::Submitted(self.content.clone())
    }

    /// What to tell the owner when the input is given up.
    pub fn cancel(&self) -> (r: InputEvent)
        ensures
            r is Cancelled,
    {
        InputEvent::Cancelled
    }

    /// Where the cursor is.
    pub fn cursor_offset(&self) -> (r: usize)
        ensures
            r == self@.cursor(),
    {
        if self.selection_reversed {
            self.selected_range.start
        } else {
            self.selected_range.end
        }
    }

    /// Put the cursor at an offset.
    pub fn move_to(&mut self, offset: usize)
        ensures
            final(self)@ == old(self)@.moved(offset as int),
            old(self)@.wf() && offsets::boundary(old(self)@.content, offset as int) ==> final(self)@.wf(),
    {
        self.selected_range = Span { start: offset, end: offset };
    }

    /// Move the loose end of the selection to an offset.
    pub fn select_to(&mut self, offset: usize)
        ensures
            final(self)@ == old(self)@.extended(offset as int),
            old(self)@.wf() && offsets::boundary(old(self)@.content, offset as int) ==> final(self)@.wf(),
    {
        if self.selection_reversed {
            self.selected_range.start = offset;
        } else {
            self.selected_range.end = offset;
        }
        if self.selected_range.end < self.selected_range.start {
            self.selection_reversed = !self.selection_reversed;
            self.selected_range = Span {
                start: self.selected_range.end,
                end: self.selected_range.start,
            };
        }
    }

    /// The offset one cluster before `offset`.
    pub fn previous_boundary(&self, offset: usize) -> (r: usize)
        ensures
            r == last_below(cluster_starts(self@.content), offset as int),
            offsets::boundary(self@.content, r as int),
    {
        let starts: Vec<usize> = grapheme_starts(self.content.as_str());
        proof {
            lemma_last_below(starts@, offset as int);
            offsets::lemma_end_boundaries(self.content@);
        }
        previous_start(&starts, offset)
    }

    /// The offset one cluster behind `offset`.
    pub fn next_boundary(&self, offset: usize) -> (r: usize)
        ensures
            r == self@.on(offset as int),
            offsets::boundary(self@.content, r as int),
    {
        let starts: Vec<usize> = grapheme_starts(self.content.as_str());
        let end: usize = text_len(self.content.as_str());
        proof {
            lemma_first_above(starts@, 0, offset as int, end as int);
            offsets::lemma_end_boundaries(self.content@);
        }
        next_start(&starts, offset, end)
    }

    /// One step to the left; a selection is left at its start.
    pub fn left(&mut self)
        ensures
            final(self)@ == (if old(self)@.unselected() {
                old(self)@.moved(old(self)@.back())
            } else {
                old(self)@.moved(old(self)@.selected.start as int)
            }),
            old(self)@.wf() ==> final(self)@.wf(),
    {
        if self.selected_range.start >= self.selected_range.end {
            let to: usize = self.previous_boundary(self.cursor_offset());
            self.move_to(to);
        } else {
            let to: usize = self.selected_range.start;
            self.move_to(to);
        }
    }

    /// One step to the right; a selection is left at its end.
    pub fn right(&mut self)
        ensures
            final(self)@ == (if old(self)@.unselected() {
                old(self)@.moved(old(self)@.on(old(self)@.selected.end as int))
            } else {
                old(self)@.moved(old(self)@.selected.end as int)
            }),
            old(self)@.wf() ==> final(self)@.wf(),
    {
        if self.selected_range.start >= self.selected_range.end {
            let to: usize = self.next_boundary(self.selected_range.end);
            self.move_to(to);
        } else {
            let to: usize = self.selected_range.end;
            self.move_to(to);
        }
    }

    /// Take the selection one step to the left.
    pub fn select_left(&mut self)
        ensures
            final(self)@ == old(self)@.extended(old(self)@.back()),
            old(self)@.wf() ==> final(self)@.wf(),
    {
        let to: usize = self.previous_boundary(self.cursor_offset());
        self.select_to(to);
    }

    /// Take the selection one step to the right.
    pub fn select_right(&mut self)
        ensures
            final(self)@ == old(self)@.extended(old(self)@.on(old(self)@.cursor())),
            old(self)@.wf() ==> final(self)@.wf(),
    {
        let to: usize = self.next_boundary(self.cursor_offset());
        self.select_to(to);
    }

    /// Select everything.
    pub fn select_all(&mut self)
        ensures
            final(self)@ == old(self)@.moved(0).extended(
                offsets::byte_len(old(self)@.content) as int,
            ),
            old(self)@.wf() ==> final(self)@.wf(),
            final(self)@.selected == (Span {
                start: 0,
                end: offsets::byte_len(old(self)@.content) as usize,
            }),
    {
        proof {
            offsets::lemma_end_boundaries(self.content@);
        }
        self.move_to(0);
        let end: usize = text_len(self.content.as_str());
        self.select_to(end);
    }

    /// Move the cursor by a row, to what the layout has there.
    pub fn move_vertically(&mut self, to: RowTarget)
        ensures
            final(self)@ == old(self)@.moved(row_offset(old(self)@.content, to)),
            old(self)@.wf() && offsets::boundary(
                old(self)@.content,
                row_offset(old(self)@.content, to),
            ) ==> final(self)@.wf(),
            old(self)@.wf() && !(to is At) ==> final(self)@.wf(),
    {
        proof {
            offsets::lemma_end_boundaries(self.content@);
        }
        let len: usize = text_len(self.content.as_str());
        match to {
            RowTarget::Above => self.move_to(0),
            RowTarget::Below => self.move_to(len),
            RowTarget::At(offset) => {
                if offset < len {
                    self.move_to(offset);
                } else {
                    self.move_to(len);
                }
            },
        }
    }

    /// To the beginning of the line.
    pub fn home(&mut self)
        requires
            old(self)@.multiline ==> offsets::boundary(old(self)@.content, old(self)@.cursor()),
        ensures
            final(self)@ == old(self)@.moved(old(self)@.line_start()),
            old(self)@.wf() ==> final(self)@.wf(),
    {
        proof {
            offsets::lemma_end_boundaries(self.content@);
        }
        let to: usize = if self.multiline {
            let cursor: usize = self.cursor_offset();
            let (head, _) = split_at(self.content.as_str(), cursor);
            let line: String = after_last_char(head.as_str(), '\n');
            proof {
                let c = self.content@;
                let h = head@;
                let e = text::cut_end(h, h.len() as int, text::but('\n'));
                text::lemma_cut_end(h, h.len() as int, text::but('\n'));
                offsets::lemma_at_boundary(c, cursor as int);
                offsets::lemma_byte_len_concat(h.take(e), h.skip(e));
                assert(h.take(e) + h.skip(e) =~= h);
                assert(c.take(e) =~= h.take(e));
                offsets::lemma_boundary(c, e);
            }
            cursor - text_len(line.as_str())
        } else {
            0
        };
        self.move_to(to);
    }

    /// To the end of the line.
    pub fn end(&mut self)
        requires
            old(self)@.multiline ==> offsets::boundary(old(self)@.content, old(self)@.cursor()),
        ensures
            final(self)@ == old(self)@.moved(old(self)@.line_end()),
            old(self)@.wf() ==> final(self)@.wf(),
    {
        proof {
            offsets::lemma_end_boundaries(self.content@);
        }
        let to: usize = if self.multiline {
            let cursor: usize = self.cursor_offset();
            let (_, rest) = split_at(self.content.as_str(), cursor);
            let v: Vec<char> = to_chars(rest.as_str());
            let k: usize = index_of_char(&v, 0, '\n');
            let line: String = slice_text(&v, 0, k);
            let _fits: usize = text_len(self.content.as_str());
            proof {
                let c = self.content@;
                let n = offsets::chars_before(c, cursor as int);
                offsets::lemma_at_boundary(c, cursor as int);
                assert(line@ =~= rest@.take(k as int));
                assert(c.take(n + k) =~= c.take(n) + line@);
                offsets::lemma_byte_len_concat(c.take(n), line@);
                offsets::lemma_boundary(c, n + k);
            }
            cursor + text_len(line.as_str())
        } else {
            text_len(self.content.as_str())
        };
        self.move_to(to);
    }

    /// Replace a range, or what is marked, or what is selected.
    pub fn replace_text_in_range(&mut self, range_utf16: Option<Span>, new_text: &str)
        requires
            old(self)@.replaceable(range_utf16),
        ensures
            final(self)@ == old(self)@.replaced(range_utf16, new_text@),
            final(self)@.wf(),
    {
        let range: Span = self.target_range(range_utf16);
        proof {
            lemma_replaced(self@, range, new_text@);
        }
        let content: String = self.content_replaced(range, new_text);
        let _fits: usize = text_len(content.as_str());
        let at: usize = range.start + text_len(new_text);
        self.content = content;
        self.selected_range = Span { start: at, end: at };
        self.marked_range = None;
    }

    fn target_range(&self, range_utf16: Option<Span>) -> (r: Span)
        ensures
            r == self@.target(range_utf16),
    {
        match range_utf16 {
            Some(r) => self.range_from_utf16(r),
            None => match self.marked_range {
                Some(m) => m,
                None => self.selected_range,
            },
        }
    }

    fn content_replaced(&self, range: Span, new_text: &str) -> (r: String)
        requires
            offsets::boundary(self@.content, range.start as int),
            offsets::boundary(self@.content, range.end as int),
        ensures
            r@ == content_with(self@.content, range, new_text@),
    {
        let (mut content, _) = split_at(self.content.as_str(), range.start);
        let (_, rest) = split_at(self.content.as_str(), range.end);
        content.push_str(new_text);
        content.push_str(rest.as_str());
        content
    }

    /// Replace a range, or what is marked, or what is selected, and mark the
    /// new text as being composed. A selection within it may be asked for.
    pub fn replace_and_mark_text_in_range(
        &mut self,
        range_utf16: Option<Span>,
        new_text: &str,
        new_selected_range_utf16: Option<Span>,
    )
        requires
            old(self)@.replaceable(range_utf16),
            new_selected_range_utf16 matches Some(s) ==> ({
                let range = old(self)@.target(range_utf16);
                let new_range = span_from_utf16(
                    content_with(old(self)@.content, range, new_text@),
                    s,
                );
                new_range.start + range.start <= usize::MAX && new_range.end + range.end
                    <= usize::MAX
            }),
        ensures
            ({
                let range = old(self)@.target(range_utf16);
                let content = content_with(old(self)@.content, range, new_text@);
                let end = range.start + offsets::byte_len(new_text@);
                final(self)@ == (Field {
                    content,
                    marked: if new_text@.len() == 0 {
                        None
                    } else {
                        Some(Span { start: range.start, end: end as usize })
                    },
                    selected: match new_selected_range_utf16 {
                        Some(s) => Span {
                            start: (span_from_utf16(content, s).start + range.start) as usize,
                            end: (span_from_utf16(content, s).end + range.end) as usize,
                        },
                        None => caret(end),
                    },
                    ..old(self)@
                })
            }),
            new_selected_range_utf16 is None ==> final(self)@.wf(),
    {
        let range: Span = self.target_range(range_utf16);
        proof {
            lemma_replaced(self@, range, new_text@);
        }
        let content: String = self.content_replaced(range, new_text);
        let _fits: usize = text_len(content.as_str());
        let end: usize = range.start + text_len(new_text);
        self.content = content;
        self.marked_range = if new_text.is_empty() {
            None
        } else {
            Some(Span { start: range.start, end })
        };
        self.selected_range = match new_selected_range_utf16 {
            Some(s) => {
                let new_range: Span = self.range_from_utf16(s);
                Span { start: new_range.start + range.start, end: new_range.end + range.end }
            },
            None => Span { start: end, end },
        };
    }

    /// A line break, where there can be one.
    pub fn newline(&mut self)
        requires
            old(self)@.multiline ==> old(self)@.replaceable(None),
        ensures
            final(self)@ == (if old(self)@.multiline {
                old(self)@.replaced(None, "\n"@)
            } else {
                old(self)@
            }),
            old(self)@.multiline || old(self)@.wf() ==> final(self)@.wf(),
    {
        if self.multiline {
            self.replace_text_in_range(None, "\n");
        }
    }

    /// Delete the selection, or the cluster before the cursor.
    pub fn backspace(&mut self)
        requires
            old(self)@.deletable(),
        ensures
            final(self)@ == old(self)@.reaching_back().replaced(None, ""@),
            final(self)@.wf(),
    {
        if self.selected_range.start >= self.selected_range.end {
            let to: usize = self.previous_boundary(self.cursor_offset());
            self.select_to(to);
        }
        self.replace_text_in_range(None, "");
    }

    /// Delete the selection, or the cluster behind the cursor.
    pub fn delete(&mut self)
        requires
            old(self)@.deletable(),
        ensures
            final(self)@ == old(self)@.reaching_on().replaced(None, ""@),
            final(self)@.wf(),
    {
        if self.selected_range.start >= self.selected_range.end {
            let to: usize = self.next_boundary(self.cursor_offset());
            self.select_to(to);
        }
        self.replace_text_in_range(None, "");
    }

    /// Paste a text; in an input of one line its line breaks become spaces.
    pub fn paste(&mut self, clipboard: &str)
        requires
            old(self)@.replaceable(None),
        ensures
            final(self)@ == old(self)@.replaced(
                None,
                if old(self)@.multiline {
                    clipboard@
                } else {
                    text::replaced(clipboard@, '\n', " "@)
                },
            ),
            final(self)@.wf(),
    {
        if self.multiline {
            self.replace_text_in_range(None, clipboard);
        } else {
            let line: String = replace_char(clipboard, '\n', " ");
            self.replace_text_in_range(None, line.as_str());
        }
    }

    /// The selected text, where something is selected.
    pub fn copy(&self) -> (r: Option<String>)
        requires
            self@.unselected() || spans(self@.content, self@.selected),
        ensures
            text::opt_text(r) == (if self@.unselected() {
                None
            } else {
                Some(self@.selection())
            }),
    {
        if self.selected_range.start >= self.selected_range.end {
            None
        } else {
            Some(
                slice_between(
                    self.content.as_str(),
                    self.selected_range.start,
                    self.selected_range.end,
                ),
            )
        }
    }

    /// Take the selected text out, where something is selected.
    pub fn cut(&mut self) -> (r: Option<String>)
        requires
            old(self)@.unselected() || (spans(old(self)@.content, old(self)@.selected)
                && old(self)@.replaceable(None)),
        ensures
            text::opt_text(r) == (if old(self)@.unselected() {
                None
            } else {
                Some(old(self)@.selection())
            }),
            final(self)@ == (if old(self)@.unselected() {
                old(self)@
            } else {
                old(self)@.replaced(None, ""@)
            }),
            !old(self)@.unselected() || old(self)@.wf() ==> final(self)@.wf(),
    {
        let taken: Option<String> = self.copy();
        if taken.is_some() {
            self.replace_text_in_range(None, "");
        }
        taken
    }

    /// A press at an offset: it moves the cursor, or the selection's loose end
    /// where shift is held.
    pub fn on_mouse_down(&mut self, offset: usize, shift: bool)
        ensures
            final(self)@ == (Field {
                selecting: true,
                ..(if shift {
                    old(self)@.extended(offset as int)
                } else {
                    old(self)@.moved(offset as int)
                })
            }),
            old(self)@.wf() && offsets::boundary(old(self)@.content, offset as int) ==> final(self)@.wf(),
    {
        self.is_selecting = true;
        if shift {
            self.select_to(offset);
        } else {
            self.move_to(offset);
        }
    }

    /// The button was let go.
    pub fn on_mouse_up(&mut self)
        ensures
            final(self)@ == (Field { selecting: false, ..old(self)@ }),
    {
        self.is_selecting = false;
    }

    /// The pointer moved to an offset.
    pub fn on_mouse_move(&mut self, offset: usize)
        ensures
            final(self)@ == (if old(self)@.selecting {
                old(self)@.extended(offset as int)
            } else {
                old(self)@
            }),
            old(self)@.wf() && offsets::boundary(old(self)@.content, offset as int) ==> final(self)@.wf(),
    {
        if self.is_selecting {
            self.select_to(offset);
        }
    }

    // ---- Input methods ----

    /// A range of UTF-16 offsets as one of byte offsets.
    pub fn range_from_utf16(&self, r: Span) -> (span: Span)
        ensures
            span == span_from_utf16(self@.content, r),
            offsets::boundary(self@.content, span.start as int),
            offsets::boundary(self@.content, span.end as int),
    {
        Span {
            start: offset_from_utf16(self.content.as_str(), r.start),
            end: offset_from_utf16(self.content.as_str(), r.end),
        }
    }

    /// A range of byte offsets as one of UTF-16 offsets.
    pub fn range_to_utf16(&self, r: Span) -> (span: Span)
        ensures
            span == span_to_utf16(self@.content, r),
    {
        Span {
            start: offset_to_utf16(self.content.as_str(), r.start),
            end: offset_to_utf16(self.content.as_str(), r.end),
        }
    }

    /// The text of a range, and the range it really covers. There is none
    /// where the range runs backwards.
    pub fn text_for_range(&self, range_utf16: Span) -> (r: (Option<String>, Span))
        ensures
            ({
                let range = span_from_utf16(self@.content, range_utf16);
                &&& r.1 == span_to_utf16(self@.content, range)
                &&& text::opt_text(r.0) == (if range.start <= range.end {
                    Some(
                        offsets::between(self@.content, range.start as int, range.end as int),
                    )
                } else {
                    None
                })
            }),
    {
        let range: Span = self.range_from_utf16(range_utf16);
        let actual: Span = self.range_to_utf16(range);
        if range.start <= range.end {
            (Some(slice_between(self.content.as_str(), range.start, range.end)), actual)
        } else {
            (None, actual)
        }
    }

    /// What is selected, in UTF-16 offsets, and whether its start moves.
    pub fn selected_text_range(&self) -> (r: (Span, bool))
        ensures
            r.0 == span_to_utf16(self@.content, self@.selected),
            r.1 == self@.reversed,
    {
        (self.range_to_utf16(self.selected_range), self.selection_reversed)
    }

    /// What is marked, in UTF-16 offsets.
    pub fn marked_text_range(&self) -> (r: Option<Span>)
        ensures
            r == (match self@.marked {
                Some(m) => Some(span_to_utf16(self@.content, m)),
                None => None,
            }),
    {
        match self.marked_range {
            Some(m) => Some(self.range_to_utf16(m)),
            None => None,
        }
    }

    /// Nothing is being composed any more.
    pub fn unmark_text(&mut self)
        ensures
            final(self)@ == (Field { marked: None, ..old(self)@ }),
            old(self)@.wf() ==> final(self)@.wf(),
    {
        self.marked_range = None;
    }

    /// The UTF-16 offset of a byte offset that a pointer hit, if it is within
    /// the content.
    pub fn character_index(&self, utf8_index: usize) -> (r: Option<usize>)
        ensures
            match r {
                Some(i) => utf8_index <= offsets::byte_len(self@.content) && i
                    == offsets::to_utf16(self@.content, utf8_index as int),
                None => utf8_index > offsets::byte_len(self@.content),
            },
    {
        if utf8_index > text_len(self.content.as_str()) {
            None
        } else {
            Some(offset_to_utf16(self.content.as_str(), utf8_index))
        }
    }

    /// What is shown: the content, or the placeholder where there is none.
    pub fn display_text(&self) -> (r: &str)
        ensures
            r@ == (if self@.content.len() == 0 {
                self@.placeholder
            } else {
                self@.content
            }),
    {
        if self.content.as_str().is_empty() {
            self.placeholder.as_str()
        } else {
            self.content.as_str()
        }
    }
}

/// An input without content.
pub open spec fn empty_field(placeholder: Seq<char>, multiline: bool) -> Field {
    Field {
        content: Seq::empty(),
        placeholder,
        multiline,
        selected: Span { start: 0, end: 0 },
        reversed: false,
        marked: None,
        selecting: false,
    }
}

/// Cutting a selection and pasting it back leaves the content as it was.
pub proof fn cut_and_paste_restore(f: Field)
    requires
        f.wf(),
        f.marked is None,
        f.multiline,
    ensures
        f.replaced(None, ""@).replaced(None, f.selection()).content == f.content,
{
    reveal_strlit("");
    let c = f.content;
    let i = offsets::chars_before(c, f.selected.start as int);
    let j = offsets::chars_before(c, f.selected.end as int);
    offsets::lemma_at_boundary(c, f.selected.start as int);
    offsets::lemma_at_boundary(c, f.selected.end as int);
    offsets::lemma_boundary_order(c, f.selected.start as int, f.selected.end as int);
    let a = c.take(i);
    let b = c.skip(j);
    let without = f.replaced(None, ""@);
    assert(without.content =~= a + b);
    offsets::lemma_prefix_boundary(a, b);
    assert(without.selected == caret(f.selected.start as int));
    let back = without.replaced(None, f.selection());
    assert(back.content =~= a + c.subrange(i, j) + b);
    assert(a + c.subrange(i, j) + b =~= c);
}

/// What is typed stands where the cursor was, and the cursor stands behind it.
pub proof fn typing_inserts_at_the_cursor(f: Field, typed: Seq<char>)
    requires
        f.wf(),
        f.marked is None,
        f.selected.start == f.selected.end,
    ensures
        f.replaced(None, typed).content == offsets::before(f.content, f.cursor()) + typed
            + offsets::after(f.content, f.cursor()),
        f.replaced(None, typed).content.len() == f.content.len() + typed.len(),
{
    offsets::lemma_at_boundary(f.content, f.cursor());
}

// ---- Layout ----

/// Runs of the shown text, by length and whether they are being composed: what
/// is marked stands out, and empty runs are left out.
pub open spec fn runs_of(len: int, marked: Option<Span>) -> Seq<(int, bool)> {
    match marked {
        Some(m) => some_run(m.start as int, false) + some_run(m.end - m.start, true) + some_run(
            len - m.end,
            false,
        ),
        None => seq![(len, false)],
    }
}

/// A run, where it is not empty.
pub open spec fn some_run(len: int, marked: bool) -> Seq<(int, bool)> {
    if len > 0 {
        seq![(len, marked)]
    } else {
        Seq::empty()
    }
}

/// Executable runs as mathematical ones.
pub open spec fn run_list(runs: Seq<(usize, bool)>) -> Seq<(int, bool)> {
    runs.map_values(|r: (usize, bool)| (r.0 as int, r.1))
}

fn push_run(runs: &mut Vec<(usize, bool)>, len: usize, marked: bool)
    ensures
        run_list(final(runs)@) == run_list(old(runs)@) + some_run(len as int, marked),
{
    let ghost before = run_list(runs@);
    if len > 0 {
        runs.push((len, marked));
    }
    assert(run_list(runs@) =~= before + some_run(len as int, marked));
}

/// Runs of a shown text of `len` bytes, by length and whether they are being
/// composed.
pub fn text_runs(len: usize, marked: Option<Span>) -> (r: Vec<(usize, bool)>)
    requires
        marked matches Some(m) ==> m.start <= m.end <= len,
    ensures
        run_list(r@) == runs_of(len as int, marked),
{
    let mut runs: Vec<(usize, bool)> = Vec::new();
    match marked {
        Some(m) => {
            assert(run_list(runs@) =~= Seq::<(int, bool)>::empty());
            push_run(&mut runs, m.start, false);
            push_run(&mut runs, m.end - m.start, true);
            push_run(&mut runs, len - m.end, false);
            assert(run_list(runs@) =~= runs_of(len as int, marked));
        },
        None => {
            runs.push((len, false));
            assert(run_list(runs@) =~= runs_of(len as int, marked));
        },
    }
    runs
}

/// Where line `i` of some lines starts, each one byte apart from the next.
pub open spec fn line_start_of(lens: Seq<usize>, i: int) -> int
    decreases i,
{
    if i <= 0 {
        0
    } else {
        line_start_of(lens, i - 1) + lens[i - 1] + 1
    }
}

/// Where each of some lines of these lengths starts.
pub fn line_starts(lens: &Vec<usize>) -> (r: Vec<usize>)
    requires
        line_start_of(lens@, lens@.len() as int) <= usize::MAX,
    ensures
        r@.len() == lens@.len(),
        forall|i: int| 0 <= i < lens@.len() ==> #[trigger] r@[i] == line_start_of(lens@, i),
{
    let mut r: Vec<usize> = Vec::new();
    let mut at: usize = 0;
    let mut i: usize = 0;
    while i < lens.len()
        invariant
            i <= lens@.len(),
            at == line_start_of(lens@, i as int),
            line_start_of(lens@, lens@.len() as int) <= usize::MAX,
            r@.len() == i,
            forall|j: int| 0 <= j < i ==> #[trigger] r@[j] == line_start_of(lens@, j),
        decreases lens@.len() - i,
    {
        r.push(at);
        proof {
            lemma_line_starts_grow(lens@, i + 1, lens@.len() as int);
        }
        at += lens[i] + 1;
        i += 1;
    }
    r
}

proof fn lemma_line_starts_grow(lens: Seq<usize>, i: int, j: int)
    requires
        0 <= i <= j <= lens.len(),
    ensures
        line_start_of(lens, i) <= line_start_of(lens, j),
    decreases j - i,
{
    if i < j {
        lemma_line_starts_grow(lens, i, j - 1);
    }
}

/// The line that an offset is on, looking from line `i` on.
pub open spec fn line_from(starts: Seq<usize>, lens: Seq<usize>, i: int, offset: int) -> Option<int>
    decreases starts.len() - i,
{
    if i < 0 || i >= starts.len() {
        None
    } else if starts[i] <= offset <= starts[i] + lens[i] {
        Some(i)
    } else {
        line_from(starts, lens, i + 1, offset)
    }
}

/// The line that an offset is on.
pub fn line_at(starts: &Vec<usize>, lens: &Vec<usize>, offset: usize) -> (r: Option<usize>)
    requires
        starts@.len() == lens@.len(),
    ensures
        match r {
            Some(i) => line_from(starts@, lens@, 0, offset as int) == Some(i as int),
            None => line_from(starts@, lens@, 0, offset as int) is None,
        },
{
    let mut i: usize = 0;
    while i < starts.len()
        invariant
            i <= starts@.len(),
            starts@.len() == lens@.len(),
            line_from(starts@, lens@, i as int, offset as int) == line_from(
                starts@,
                lens@,
                0,
                offset as int,
            ),
        decreases starts@.len() - i,
    {
        if offset >= starts[i] && offset - starts[i] <= lens[i] {
            return Some(i);
        }
        i += 1;
    }
    None
}

/// The part of a row that is selected, if any: `row` are the offsets at the
/// row's two ends.
pub open spec fn row_part(selected: Span, row: Span) -> Option<Span> {
    let start = if selected.start > row.start {
        selected.start
    } else {
        row.start
    };
    let end = if selected.end < row.end {
        selected.end
    } else {
        row.end
    };
    if start > end || (start == end && !(row.start < selected.end && row.end > selected.start)) {
        None
    } else {
        Some(Span { start, end })
    }
}

/// The part of a visual row that is selected, if any.
pub fn row_selection(selected: Span, row: Span) -> (r: Option<Span>)
    ensures
        r == row_part(selected, row),
{
    let start: usize = if selected.start > row.start {
        selected.start
    } else {
        row.start
    };
    let end: usize = if selected.end < row.end {
        selected.end
    } else {
        row.end
    };
    if start > end || (start == end && !(row.start < selected.end && row.end > selected.start)) {
        None
    } else {
        Some(Span { start, end })
    }
}

} // verus!
