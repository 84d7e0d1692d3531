use kaleidoscope::document::{
    delete_next_char, delete_prev_char, delete_range, get_line_count, get_line_len, next_char,
    next_line, next_word, prev_char, prev_line, prev_word, write_char, DocRange, Document,
};

fn doc_with(text: &str) -> Document {
    let mut doc = Document::new();
    doc.set_content(text.to_string());
    doc
}

fn all_lines(doc: &Document) -> Vec<(usize, usize)> {
    let mut it = doc.get_lines();
    let mut out = vec![];
    while let Some(r) = it.next() {
        out.push((r.a, r.b));
    }
    out
}

#[test]
fn write_write_delete_leaves_first_char() {
    let mut doc = Document::new();
    write_char(&mut doc, 'a');
    write_char(&mut doc, 'b');
    doc.insertion_index = 1;
    doc.delete(1);
    assert_eq!(doc.get_content(), "a");
}

#[test]
fn write_keeps_insertion_point() {
    let mut doc = Document::new();
    doc.write('a');
    doc.write('b');
    assert_eq!(doc.get_content(), "ba");
    assert_eq!(doc.insertion_index, 0);
}

#[test]
fn write_clamps_insertion_point_first() {
    let mut doc = doc_with("xy");
    doc.insertion_index = 40;
    doc.write('z');
    assert_eq!(doc.get_content(), "xyz");
    assert_eq!(doc.insertion_index, 2);
}

#[test]
fn delete_past_end_stops_at_end() {
    let mut doc = doc_with("abc");
    doc.insertion_index = 2;
    doc.delete(10);
    assert_eq!(doc.get_content(), "ab");
    assert_eq!(doc.insertion_index, 2);
}

#[test]
fn delete_at_end_is_no_op() {
    let mut doc = doc_with("abc");
    doc.insertion_index = 3;
    doc.delete(usize::MAX);
    assert_eq!(doc.get_content(), "abc");
}

#[test]
fn delete_clamps_insertion_point() {
    let mut doc = doc_with("abc");
    doc.insertion_index = 99;
    doc.delete(1);
    assert_eq!(doc.get_content(), "abc");
    assert_eq!(doc.insertion_index, 3);
}

#[test]
fn lines_split_on_newline() {
    assert_eq!(all_lines(&doc_with("ab\ncd")), vec![(0, 2), (3, 5)]);
}

#[test]
fn trailing_newline_gives_empty_last_line() {
    assert_eq!(all_lines(&doc_with("abc\n")), vec![(0, 3), (4, 4)]);
    assert_eq!(all_lines(&doc_with("\n")), vec![(0, 0), (1, 1)]);
}

#[test]
fn empty_text_has_no_lines() {
    assert_eq!(all_lines(&doc_with("")), vec![]);
    assert_eq!(get_line_count(&doc_with("")), 0);
}

#[test]
fn blank_lines_are_kept() {
    assert_eq!(all_lines(&doc_with("a\n\nb")), vec![(0, 1), (2, 2), (3, 4)]);
}

#[test]
fn joining_lines_gives_text_back() {
    for text in ["", "a", "ab\ncd", "abc\n", "\n\n", "x\n\ny\n"] {
        let doc = doc_with(text);
        let parts: Vec<String> = all_lines(&doc)
            .iter()
            .map(|&(a, b)| text.chars().skip(a).take(b - a).collect())
            .collect();
        assert_eq!(parts.join("\n"), text);
    }
}

#[test]
fn line_count_and_lengths() {
    let doc = doc_with("hello\nab\n");
    assert_eq!(get_line_count(&doc), 3);
    assert_eq!(get_line_len(&doc, 0), 5);
    assert_eq!(get_line_len(&doc, 1), 2);
    assert_eq!(get_line_len(&doc, 2), 0);
    assert_eq!(get_line_len(&doc, 7), 0);
}

#[test]
fn cursor_of_offset() {
    let mut doc = doc_with("ab\ncd");
    doc.insertion_index = 4;
    assert_eq!(doc.get_insertion_cursor_pos(), (1, 1));
    doc.insertion_index = 2;
    assert_eq!(doc.get_insertion_cursor_pos(), (2, 0));
    doc.insertion_index = 3;
    assert_eq!(doc.get_insertion_cursor_pos(), (0, 1));
    doc.insertion_index = 50;
    assert_eq!(doc.get_insertion_cursor_pos(), (2, 1));
}

#[test]
fn offset_of_cursor_clamps() {
    let mut doc = doc_with("ab\ncd");
    doc.set_insertion_point_from_cursor(1, 1);
    assert_eq!(doc.insertion_index, 4);
    doc.set_insertion_point_from_cursor(10, 0);
    assert_eq!(doc.insertion_index, 2);
    doc.set_insertion_point_from_cursor(0, 5);
    assert_eq!(doc.insertion_index, 5);
}

#[test]
fn cursor_round_trip_every_offset() {
    let mut doc = doc_with("one\n\ntwo lines\n");
    for i in 0..=doc.len() {
        doc.insertion_index = i;
        let (x, y) = doc.get_insertion_cursor_pos();
        doc.set_insertion_point_from_cursor(x, y);
        assert_eq!(doc.insertion_index, i);
    }
}

#[test]
fn next_word_goes_to_end_of_word() {
    let mut doc = doc_with("hello world");
    next_word(&mut doc);
    assert_eq!(doc.insertion_index, 5);
    next_word(&mut doc);
    assert_eq!(doc.insertion_index, 11);
}

#[test]
fn next_word_treats_unicode_spaces_as_whitespace() {
    let mut doc = doc_with("ab\u{3000}cd");
    next_word(&mut doc);
    assert_eq!(doc.insertion_index, 2);
}

#[test]
fn prev_word_goes_to_start_of_word() {
    let mut doc = doc_with("hello world");
    doc.insertion_index = 11;
    prev_word(&mut doc);
    assert_eq!(doc.insertion_index, 6);
}

#[test]
fn prev_word_in_first_word_goes_to_its_start() {
    let mut doc = doc_with("hello");
    doc.insertion_index = 5;
    prev_word(&mut doc);
    assert_eq!(doc.insertion_index, 0);
}

#[test]
fn prev_word_from_second_word_start_goes_to_first_word() {
    let mut doc = doc_with("hello world");
    doc.insertion_index = 6;
    prev_word(&mut doc);
    assert_eq!(doc.insertion_index, 0);
}

#[test]
fn prev_word_at_start_stays() {
    let mut doc = doc_with("ab");
    doc.insertion_index = 0;
    prev_word(&mut doc);
    assert_eq!(doc.insertion_index, 0);
}

#[test]
fn set_content_clamps_insertion_point() {
    let mut doc = doc_with("hello");
    doc.insertion_index = 5;
    doc.set_content(String::new());
    assert_eq!(doc.insertion_index, 0);
    doc.set_content("abcdefg".to_string());
    assert_eq!(doc.insertion_index, 0);
    doc.insertion_index = 3;
    doc.set_content("xy".to_string());
    assert_eq!(doc.insertion_index, 2);
}

#[test]
fn char_moves_clamp() {
    let mut doc = doc_with("ab");
    prev_char(&mut doc);
    assert_eq!(doc.insertion_index, 0);
    next_char(&mut doc);
    next_char(&mut doc);
    next_char(&mut doc);
    assert_eq!(doc.insertion_index, 2);
}

#[test]
fn line_moves_keep_desired_column() {
    let mut doc = doc_with("abcd\nx\nabcd");
    doc.insertion_index = 0;
    next_char(&mut doc);
    next_char(&mut doc);
    next_char(&mut doc);
    next_line(&mut doc);
    assert_eq!(doc.insertion_index, 6);
    next_line(&mut doc);
    assert_eq!(doc.insertion_index, 10);
    prev_line(&mut doc);
    prev_line(&mut doc);
    assert_eq!(doc.insertion_index, 3);
    prev_line(&mut doc);
    assert_eq!(doc.insertion_index, 3);
}

#[test]
fn backspace_and_delete() {
    let mut doc = doc_with("abc");
    doc.insertion_index = 2;
    delete_prev_char(&mut doc);
    assert_eq!(doc.get_content(), "ac");
    assert_eq!(doc.insertion_index, 1);
    delete_next_char(&mut doc);
    assert_eq!(doc.get_content(), "a");
    assert_eq!(doc.insertion_index, 1);
    doc.insertion_index = 0;
    delete_prev_char(&mut doc);
    assert_eq!(doc.get_content(), "a");
}

#[test]
fn delete_range_cuts_and_moves_point() {
    let mut doc = doc_with("abcdef");
    delete_range(&mut doc, DocRange::new(1, 4));
    assert_eq!(doc.get_content(), "aef");
    assert_eq!(doc.insertion_index, 1);
    delete_range(&mut doc, DocRange::new(2, 100));
    assert_eq!(doc.get_content(), "ae");
}

#[test]
fn ranges_are_clamped() {
    let doc = doc_with("abcd");
    assert_eq!(DocRange::new(3, 10).get_limited(&doc), DocRange::new(3, 4));
    assert_eq!(DocRange::new(6, 2).get_limited(&doc), DocRange::new(4, 4));
    assert_eq!(DocRange::new(3, 1).get_limited(&doc), DocRange::new(3, 3));
    let mut r = DocRange::new(1, 9);
    r.limit_range(&doc);
    assert_eq!(r, DocRange::new(1, 4));
    assert_eq!(DocRange::new(1, 3).get_text(&doc), "bc");
}

#[test]
fn word_moves_agree_with_std_whitespace() {
    for code in 0u32..0x10000 {
        let c = match char::from_u32(code) {
            Some(c) => c,
            None => continue,
        };
        let mut text = String::from("a");
        text.push(c);
        text.push('b');
        let mut doc = Document::new();
        doc.set_content(text);
        next_word(&mut doc);
        let expected = if c.is_whitespace() { 1 } else { 3 };
        assert_eq!(doc.insertion_index, expected, "code point {:x}", code);
    }
}
