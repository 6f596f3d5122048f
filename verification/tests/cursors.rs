use token_input::context::WithContext;
use token_input::input::{BorrowInput, Input, SimpleSpan, SliceInput};

#[test]
fn text_cursor_reads_ab() {
    let text: &str = "ab";
    assert_eq!(<&str as Input>::start(&text), 0);
    assert_eq!(<&str as Input>::next(&text, 0), (1, Some('a')));
    assert_eq!(<&str as Input>::next(&text, 1), (2, Some('b')));
    assert_eq!(<&str as Input>::next(&text, 2), (2, None));
}

#[test]
fn text_cursor_moves_by_the_width_of_the_character() {
    let text: &str = "a\u{e9}\u{20ac}\u{1f600}z";
    assert_eq!(<&str as Input>::next(&text, 0), (1, Some('a')));
    assert_eq!(<&str as Input>::next(&text, 1), (3, Some('\u{e9}')));
    assert_eq!(<&str as Input>::next(&text, 3), (6, Some('\u{20ac}')));
    assert_eq!(<&str as Input>::next(&text, 6), (10, Some('\u{1f600}')));
    assert_eq!(<&str as Input>::next(&text, 10), (11, Some('z')));
    assert_eq!(<&str as Input>::next(&text, 11), (11, None));
}

#[test]
fn text_cursor_on_empty_text_is_at_its_end() {
    let text: &str = "";
    assert_eq!(<&str as Input>::next(&text, 0), (0, None));
}

#[test]
fn text_cursor_end_is_idempotent() {
    let text: &str = "ab";
    let first = <&str as Input>::next(&text, 2);
    for _ in 0..10 {
        assert_eq!(<&str as Input>::next(&text, first.0), first);
    }
}

#[test]
fn text_cursor_offsets_never_go_back() {
    let text: &str = "h\u{e9}llo \u{1f600}!";
    let mut offset = <&str as Input>::start(&text);
    loop {
        let (after, token) = <&str as Input>::next(&text, offset);
        assert!(after >= offset);
        if token.is_none() {
            assert_eq!(after, offset);
            break;
        }
        assert!(after > offset);
        offset = after;
    }
    assert_eq!(offset, text.len());
}

#[test]
fn text_cursor_slices_by_byte_offsets() {
    let text: &str = "a\u{e9}bc";
    assert_eq!(<&str as SliceInput>::slice(&text, 1..3), "\u{e9}");
    assert_eq!(<&str as SliceInput>::slice(&text, 0..0), "");
    assert_eq!(<&str as SliceInput>::slice(&text, 1..5), "\u{e9}bc");
    assert_eq!(<&str as SliceInput>::slice_from(&text, 3), "bc");
    assert_eq!(<&str as SliceInput>::slice_from(&text, 5), "");
}

#[test]
fn text_cursor_span_and_index() {
    let text: &str = "abc";
    assert_eq!(<&str as Input>::span(&text, 1..3), SimpleSpan { start: 1, end: 3 });
    assert_eq!(<&str as Input>::index(2), 2);
    assert_eq!(<&str as Input>::reborrow(&text), "abc");
}

#[test]
fn array_cursor_slices() {
    let data = [10, 20, 30];
    let cursor: &[i32] = &data;
    assert_eq!(cursor.slice(1..3), &[20, 30]);
    assert_eq!(cursor.slice_from(1), &[20, 30]);
    assert_eq!(cursor.slice(0..0), &[] as &[i32]);
    assert_eq!(cursor.slice_from(3), &[] as &[i32]);
}

#[test]
fn array_cursor_reads_in_order() {
    let data = [10u8, 20, 30];
    let cursor: &[u8] = &data;
    assert_eq!(Input::start(&cursor), 0);
    assert_eq!(Input::next(&cursor, 0), (1, Some(10)));
    assert_eq!(Input::next(&cursor, 1), (2, Some(20)));
    assert_eq!(Input::next(&cursor, 2), (3, Some(30)));
    assert_eq!(Input::next(&cursor, 3), (3, None));
}

#[test]
fn array_cursor_offset_may_lie_past_the_end() {
    let data = [10u8, 20, 30];
    let cursor: &[u8] = &data;
    assert_eq!(Input::next(&cursor, 7), (7, None));
    assert_eq!(Input::next(&cursor, usize::MAX), (usize::MAX, None));
    assert_eq!(cursor.next_ref(7), (7, None));
}

#[test]
fn array_cursor_end_is_idempotent() {
    let data = [1u32, 2];
    let cursor: &[u32] = &data;
    for _ in 0..10 {
        assert_eq!(Input::next(&cursor, 2), (2, None));
    }
}

#[test]
fn array_cursor_borrowed_and_owned_tokens_agree() {
    let data = [3u64, 1, 4, 1, 5];
    let cursor: &[u64] = &data;
    for offset in 0..8 {
        let (after_owned, owned) = Input::next(&cursor, offset);
        let (after_lent, lent) = cursor.next_ref(offset);
        assert_eq!(after_owned, after_lent);
        assert_eq!(owned, lent.copied());
    }
}

#[test]
fn array_cursor_lends_the_element_itself() {
    let data = [3u64, 1, 4];
    let cursor: &[u64] = &data;
    let (_, lent) = cursor.next_ref(1);
    assert!(std::ptr::eq(lent.unwrap(), &data[1]));
}

#[test]
fn array_cursor_span() {
    let data = [1u8, 2, 3];
    let cursor: &[u8] = &data;
    assert_eq!(Input::span(&cursor, 0..2), SimpleSpan { start: 0, end: 2 });
}

#[test]
fn with_context_pairs_the_context_with_the_span() {
    let text: &str = "ab";
    let wrapped = WithContext::new(42u32, text);
    assert_eq!(wrapped.0, 42);
    assert_eq!(wrapped.1, "ab");
    assert_eq!(wrapped.span(0..2), (42, SimpleSpan { start: 0, end: 2 }));
}

#[test]
fn with_context_reads_as_the_inner_cursor() {
    let text: &str = "a\u{e9}";
    let wrapped = WithContext::new("file.txt", text);
    assert_eq!(wrapped.start(), 0);
    assert_eq!(wrapped.next(0), (1, Some('a')));
    assert_eq!(wrapped.next(1), (3, Some('\u{e9}')));
    assert_eq!(wrapped.next(3), (3, None));
    assert_eq!(wrapped.slice(1..3), "\u{e9}");
    assert_eq!(wrapped.slice_from(1), "\u{e9}");
    let alias = wrapped.reborrow();
    assert_eq!(alias.0, "file.txt");
    assert_eq!(alias.next(0), wrapped.next(0));
}

#[test]
fn with_context_lends_tokens_of_the_inner_cursor() {
    let data = [7u8, 8];
    let cursor: &[u8] = &data;
    let wrapped = WithContext::new((), cursor);
    assert_eq!(wrapped.next_ref(0), (1, Some(&7)));
    assert_eq!(wrapped.next_ref(2), (2, None));
}
