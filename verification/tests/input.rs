use harmonium::input::{
    line_at, line_starts, next_start, previous_start, row_selection, text_runs, InputEvent,
    RowTarget, Span, TextInput,
};

fn field(text: &str) -> TextInput {
    let mut f = TextInput::new("placeholder".into());
    f.set_text(text.into());
    f
}

#[test]
fn typing_and_editing() {
    let mut f = field("");
    assert_eq!(f.display_text(), "placeholder");
    f.replace_text_in_range(None, "hello");
    assert_eq!(f.text(), "hello");
    assert_eq!(f.cursor_offset(), 5);
    f.left();
    f.left();
    f.replace_text_in_range(None, "X");
    assert_eq!(f.text(), "helXlo");
    f.backspace();
    assert_eq!(f.text(), "hello");
    f.delete();
    assert_eq!(f.text(), "helo");
    f.home();
    assert_eq!(f.cursor_offset(), 0);
    f.backspace();
    assert_eq!(f.text(), "helo");
    f.end();
    f.delete();
    assert_eq!(f.text(), "helo");
}

#[test]
fn the_cursor_moves_by_grapheme_clusters() {
    // An e with a combining accent, a flag, and a family: one step each.
    let text = "e\u{301}🇩🇪👨‍👩‍👧x";
    let mut f = field(text);
    f.end();
    f.left();
    assert_eq!(f.cursor_offset(), text.len() - 1);
    f.left();
    assert_eq!(f.cursor_offset(), "e\u{301}🇩🇪".len());
    f.left();
    assert_eq!(f.cursor_offset(), "e\u{301}".len());
    f.left();
    assert_eq!(f.cursor_offset(), 0);
    f.right();
    assert_eq!(f.cursor_offset(), "e\u{301}".len());
    f.backspace();
    assert_eq!(f.text(), "🇩🇪👨‍👩‍👧x");
}

#[test]
fn selections_are_cut_and_pasted_back() {
    let mut f = field("abcdef");
    f.home();
    f.select_right();
    f.select_right();
    assert_eq!(f.copy().as_deref(), Some("ab"));
    assert_eq!(f.cut().as_deref(), Some("ab"));
    assert_eq!(f.text(), "cdef");
    f.paste("ab");
    assert_eq!(f.text(), "abcdef");
    assert_eq!(f.copy(), None);
    // A single-line field takes no line breaks.
    f.select_all();
    f.paste("x\ny");
    assert_eq!(f.text(), "x y");
    let mut m = TextInput::multiline("p".into());
    m.paste("x\ny");
    assert_eq!(m.text(), "x\ny");
}

#[test]
fn a_selection_can_turn_around() {
    let mut f = field("abcdef");
    f.move_to(3);
    f.select_left();
    f.select_left();
    assert_eq!(f.selected_text_range().0, Span { start: 1, end: 3 });
    assert!(f.selected_text_range().1);
    f.select_to(5);
    assert_eq!(f.selected_text_range().0, Span { start: 3, end: 5 });
    assert!(!f.selected_text_range().1);
    // An arrow drops a selection at its end.
    f.right();
    assert_eq!(f.cursor_offset(), 5);
}

#[test]
fn lines_have_a_start_and_an_end() {
    let mut m = TextInput::multiline("p".into());
    m.set_text("one\ntwo".into());
    m.move_to(5);
    m.home();
    assert_eq!(m.cursor_offset(), 4);
    m.move_to(1);
    m.end();
    assert_eq!(m.cursor_offset(), 3);
    m.newline();
    assert_eq!(m.text(), "one\n\ntwo");
    m.move_vertically(RowTarget::Above);
    assert_eq!(m.cursor_offset(), 0);
    m.move_vertically(RowTarget::At(99));
    assert_eq!(m.cursor_offset(), 8);
    m.move_vertically(RowTarget::At(4));
    assert_eq!(m.cursor_offset(), 4);
    m.move_vertically(RowTarget::Below);
    assert_eq!(m.cursor_offset(), 8);
    // In a single line there is nothing to break.
    let mut f = field("a");
    f.newline();
    assert_eq!(f.text(), "a");
}

#[test]
fn composed_text_is_marked() {
    let mut f = field("ab");
    f.end();
    f.replace_and_mark_text_in_range(None, "日本", None);
    assert_eq!(f.text(), "ab日本");
    assert_eq!(f.marked_text_range(), Some(Span { start: 2, end: 4 }));
    // What comes next takes the marked text's place.
    f.replace_text_in_range(None, "日");
    assert_eq!(f.text(), "ab日");
    assert_eq!(f.marked_text_range(), None);
    f.replace_and_mark_text_in_range(Some(Span { start: 0, end: 1 }), "x", Some(Span { start: 0, end: 1 }));
    assert_eq!(f.text(), "xb日");
    f.unmark_text();
    assert_eq!(f.marked_text_range(), None);
}

#[test]
fn offsets_are_translated() {
    let f = field("a😀b");
    assert_eq!(f.range_from_utf16(Span { start: 1, end: 3 }), Span { start: 1, end: 5 });
    assert_eq!(f.range_to_utf16(Span { start: 1, end: 5 }), Span { start: 1, end: 3 });
    let (text, range) = f.text_for_range(Span { start: 1, end: 3 });
    assert_eq!(text.as_deref(), Some("😀"));
    assert_eq!(range, Span { start: 1, end: 3 });
}

#[test]
fn fields_are_submitted_and_cancelled() {
    let f = field("x");
    assert!(matches!(f.submit(), InputEvent::Submitted(t) if t == "x"));
    assert!(matches!(f.cancel(), InputEvent::Cancelled));
}

#[test]
fn the_mouse_selects() {
    let mut f = field("abcdef");
    f.on_mouse_move(3);
    f.on_mouse_down(2, false);
    f.on_mouse_move(5);
    assert_eq!(f.copy().as_deref(), Some("cde"));
    f.on_mouse_up();
    f.on_mouse_move(6);
    assert_eq!(f.copy().as_deref(), Some("cde"));
    f.on_mouse_down(6, true);
    assert_eq!(f.copy().as_deref(), Some("cdef"));
}

#[test]
fn boundaries_among_given_starts() {
    let starts = vec![0, 3, 7];
    assert_eq!(previous_start(&starts, 7), 3);
    assert_eq!(previous_start(&starts, 0), 0);
    assert_eq!(next_start(&starts, 3, 9), 7);
    assert_eq!(next_start(&starts, 7, 9), 9);
}

#[test]
fn marked_text_is_underlined() {
    assert_eq!(text_runs(6, None), vec![(6, false)]);
    assert_eq!(
        text_runs(6, Some(Span { start: 2, end: 4 })),
        vec![(2, false), (2, true), (2, false)]
    );
    assert_eq!(text_runs(4, Some(Span { start: 0, end: 4 })), vec![(4, true)]);
    let starts = line_starts(&vec![3, 0, 5]);
    assert_eq!(starts, vec![0, 4, 5]);
    assert_eq!(line_at(&starts, &vec![3, 0, 5], 4), Some(1));
    assert_eq!(line_at(&starts, &vec![3, 0, 5], 3), Some(0));
    assert_eq!(line_at(&starts, &vec![3, 0, 5], 11), None);
    assert_eq!(
        row_selection(Span { start: 2, end: 9 }, Span { start: 5, end: 12 }),
        Some(Span { start: 5, end: 9 })
    );
    assert_eq!(row_selection(Span { start: 2, end: 4 }, Span { start: 5, end: 12 }), None);
}

#[test]
fn a_selection_past_the_text_can_be_left() {
    // A selection asked for while composing is added to the place of the text,
    // and so can lie past it.
    let mut f = field("ab");
    f.replace_and_mark_text_in_range(None, "xyz", Some(Span { start: 0, end: 5 }));
    assert_eq!(f.text(), "abxyz");
    assert_eq!((f.selected_range.start, f.selected_range.end), (2, 7));
    f.right();
    assert_eq!(f.cursor_offset(), 7);
    assert!(f.copy().is_none());
    f.select_right();
    f.left();
    f.left();
    assert_eq!(f.cursor_offset(), 4);
    // What is being composed goes as a whole.
    f.backspace();
    assert_eq!(f.text(), "ab");
    assert_eq!(f.cursor_offset(), 2);
}
