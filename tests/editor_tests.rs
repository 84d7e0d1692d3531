use kaleidoscope::actions::check_editor_actions;
use kaleidoscope::document::{DocRange, Document};
use kaleidoscope::drawing::{get_digit_count, gutter_label, position_label, selected_label};
use kaleidoscope::editor::CodeEditor;
use kaleidoscope::highlight::ColoredText;
use kaleidoscope::colors::Color;
use kaleidoscope::input::{get_input, Input, Modifiers};
use kaleidoscope::state::{CodeEditorMode, EditorExitRequest, EditorState};
use kaleidoscope::terminal::Terminal;
use kaleidoscope::viewport::DocViewport;

const NONE: Modifiers = Modifiers { control: false, shift: false };

fn state_with(text: &str) -> EditorState {
    let mut s = EditorState::new();
    s.doc.set_content(text.to_string());
    s
}

#[test]
fn select_all_then_delete_selection() {
    let mut s = state_with("ab\ncd");
    s.select_all();
    assert_eq!(*s.get_selection(), Some(DocRange::new(0, 5)));
    s.delete_selection();
    assert_eq!(s.doc.get_content(), "");
    assert!(!s.has_selection());
}

#[test]
fn extend_selection_grows_either_way() {
    let mut s = state_with("abcdef");
    s.doc.insertion_index = 2;
    s.begin_selection();
    assert_eq!(*s.get_selection(), Some(DocRange::new(2, 2)));
    s.doc.insertion_index = 4;
    s.extend_selection();
    assert_eq!(*s.get_selection(), Some(DocRange::new(2, 5)));
    s.doc.insertion_index = 1;
    s.extend_selection();
    assert_eq!(*s.get_selection(), Some(DocRange::new(1, 5)));
    s.doc.insertion_index = 6;
    s.extend_selection();
    assert_eq!(*s.get_selection(), Some(DocRange::new(1, 6)));
}

#[test]
fn exit_takes_two_presses() {
    let mut s = EditorState::new();
    check_editor_actions(Input::Exit, &mut s, NONE);
    assert!(s.is_exit_request_pending());
    check_editor_actions(Input::Exit, &mut s, NONE);
    assert!(s.is_exit_confirmed());
}

#[test]
fn other_input_cancels_exit() {
    let mut s = EditorState::new();
    check_editor_actions(Input::Exit, &mut s, NONE);
    check_editor_actions(Input::Char('a'), &mut s, NONE);
    assert_eq!(s.exit_request, EditorExitRequest::NotRequested);
    assert_eq!(s.doc.get_content(), "a");
    check_editor_actions(Input::Exit, &mut s, NONE);
    check_editor_actions(Input::Unknown, &mut s, NONE);
    assert_eq!(s.exit_request, EditorExitRequest::NotRequested);
}

#[test]
fn exit_key_copies_when_selected() {
    let mut s = state_with("abc");
    s.select_all();
    check_editor_actions(Input::Exit, &mut s, NONE);
    assert_eq!(s.exit_request, EditorExitRequest::NotRequested);
    assert_eq!(s.doc.get_content(), "abc");
    assert!(s.has_selection());
}

#[test]
fn cancel_key_cuts_selection() {
    let mut s = state_with("abc");
    s.select_all();
    check_editor_actions(Input::Cancel, &mut s, NONE);
    assert_eq!(s.doc.get_content(), "");
    assert!(!s.has_selection());
}

#[test]
fn writing_depends_on_mode_and_char() {
    let mut s = EditorState::new();
    check_editor_actions(Input::Char('x'), &mut s, NONE);
    check_editor_actions(Input::Char('\u{7}'), &mut s, NONE);
    check_editor_actions(Input::Char('\n'), &mut s, NONE);
    assert_eq!(s.doc.get_content(), "x\n");
    check_editor_actions(Input::Escape, &mut s, NONE);
    assert_eq!(s.mode(), CodeEditorMode::Command);
    check_editor_actions(Input::Char('y'), &mut s, NONE);
    assert_eq!(s.doc.get_content(), "x\n");
    check_editor_actions(Input::Escape, &mut s, NONE);
    assert_eq!(s.mode(), CodeEditorMode::Edit);
}

#[test]
fn writing_replaces_selection() {
    let mut s = state_with("hello");
    s.select_all();
    check_editor_actions(Input::Char('j'), &mut s, NONE);
    assert_eq!(s.doc.get_content(), "j");
    assert_eq!(s.doc.insertion_index, 1);
}

#[test]
fn backspace_and_delete_keys() {
    let mut s = state_with("abc");
    s.doc.insertion_index = 3;
    check_editor_actions(Input::Backspace, &mut s, NONE);
    assert_eq!(s.doc.get_content(), "ab");
    s.doc.insertion_index = 0;
    check_editor_actions(Input::Delete, &mut s, NONE);
    assert_eq!(s.doc.get_content(), "b");
}

#[test]
fn shift_arrows_select() {
    let mut s = state_with("abcd");
    let shift = Modifiers { control: false, shift: true };
    check_editor_actions(Input::Right, &mut s, shift);
    check_editor_actions(Input::Right, &mut s, shift);
    assert_eq!(*s.get_selection(), Some(DocRange::new(0, 3)));
    check_editor_actions(Input::Left, &mut s, NONE);
    assert!(!s.has_selection());
    assert_eq!(s.doc.insertion_index, 1);
}

#[test]
fn control_arrows_move_by_word() {
    let mut s = state_with("hello world");
    let ctrl = Modifiers { control: true, shift: false };
    check_editor_actions(Input::Right, &mut s, ctrl);
    assert_eq!(s.doc.insertion_index, 5);
    check_editor_actions(Input::Down, &mut s, ctrl);
    assert_eq!(s.doc.insertion_index, 5);
    check_editor_actions(Input::Left, &mut s, ctrl);
    assert_eq!(s.doc.insertion_index, 0);
}

#[test]
fn select_all_key() {
    let mut s = state_with("xyz");
    check_editor_actions(Input::SelectAll, &mut s, NONE);
    assert_eq!(*s.get_selection(), Some(DocRange::new(0, 3)));
    assert_eq!(s.doc.insertion_index, 3);
}

#[test]
fn status_and_transience() {
    let mut s = EditorState::new();
    s.log_error("disk full".to_string());
    assert!(matches!(s.get_status(), kaleidoscope::state::EditorStatus::ERROR(m) if m == "disk full"));
    s.reset_status();
    assert!(matches!(s.get_status(), kaleidoscope::state::EditorStatus::IDLE));
    s.set_transient(true);
    assert!(s.is_transient());
}

#[test]
fn decoding_bytes() {
    let mut debug = String::new();
    assert_eq!(get_input(&mut debug, &[1]), Some(Input::SelectAll));
    assert_eq!(get_input(&mut debug, &[3]), Some(Input::Exit));
    assert_eq!(get_input(&mut debug, &[8]), Some(Input::Backspace));
    assert_eq!(get_input(&mut debug, &[27]), Some(Input::Escape));
    assert_eq!(get_input(&mut debug, &[24]), Some(Input::Cancel));
    assert_eq!(get_input(&mut debug, &[13]), Some(Input::Char('\n')));
    assert_eq!(get_input(&mut debug, &[97]), Some(Input::Char('a')));
    assert_eq!(get_input(&mut debug, &[224]), None);
    assert_eq!(get_input(&mut debug, &[224, 72]), Some(Input::Up));
    assert_eq!(get_input(&mut debug, &[224, 80]), Some(Input::Down));
    assert_eq!(get_input(&mut debug, &[224, 115]), Some(Input::Left));
    assert_eq!(get_input(&mut debug, &[224, 77]), Some(Input::Right));
    assert_eq!(get_input(&mut debug, &[224, 83]), Some(Input::Delete));
    assert_eq!(get_input(&mut debug, &[224, 99]), Some(Input::Unknown));
    assert_eq!(debug, " 224 99");
}

#[test]
fn viewport_keeps_cursor_in_window() {
    let mut doc = Document::new();
    doc.set_content("hello\nworld".to_string());
    doc.insertion_index = 8;
    let mut v = DocViewport::new();
    v.set_size(1, 1);
    v.update(&doc);
    assert_eq!((v.cursor_x(), v.cursor_y()), (2, 1));
    assert_eq!(v.get_window_pos(), (2, 1));
    v.set_size(10, 10);
    v.update(&doc);
    assert_eq!(v.get_window_pos(), (0, 0));
}

#[test]
fn viewport_scrolls_only_as_needed() {
    let mut doc = Document::new();
    doc.set_content("abcdefghij".to_string());
    let mut v = DocViewport::new();
    v.set_size(4, 1);
    doc.insertion_index = 9;
    v.update(&doc);
    assert_eq!(v.get_window_pos(), (6, 0));
    doc.insertion_index = 7;
    v.update(&doc);
    assert_eq!(v.get_window_pos(), (6, 0));
    doc.insertion_index = 2;
    v.update(&doc);
    assert_eq!(v.get_window_pos(), (2, 0));
}

#[test]
fn labels() {
    assert_eq!(get_digit_count(0), 1);
    assert_eq!(get_digit_count(9), 1);
    assert_eq!(get_digit_count(10), 2);
    assert_eq!(get_digit_count(12345), 5);
    assert_eq!(gutter_label(7, 4, 2).iter().collect::<String>(), "   7  ");
    assert_eq!(gutter_label(12345, 4, 1).iter().collect::<String>(), "12345 ");
    assert_eq!(position_label(3, 14).iter().collect::<String>(), "3,14");
    assert_eq!(selected_label(5).iter().collect::<String>(), " (5 selected)");
}

#[test]
fn highlight_splits_runs() {
    let mut t = ColoredText::new("hello".to_string(), 0..5, Color::EditorContent);
    t.highlight(1..3, Color::EditorSelection);
    let s = t.to_colored_str();
    assert_eq!(
        s,
        "\x1b[38;2;180;180;180;48;2;25;25;25mh\x1b[38;2;220;220;220;48;2;35;40;55mel\x1b[38;2;180;180;180;48;2;25;25;25mlo"
    );
}

#[test]
fn editor_round_trip_and_exit() {
    let mut e = CodeEditor::new();
    e.set_content("ab".to_string());
    assert_eq!(e.get_content(), "ab");
    e.set_transient(true);
    let mut term = Terminal::new();
    assert!(term.update_terminal_size(b"\x1b[10;20R"));
    let first: String = e.start(&mut term).iter().collect();
    assert!(first.starts_with("\x1b[2J"));
    assert!(e.step(&mut term, Input::Char('c'), NONE).is_some());
    assert_eq!(e.get_content(), "cab");
    assert!(e.step(&mut term, Input::Exit, NONE).is_some());
    assert!(e.step(&mut term, Input::Exit, NONE).is_none());
    let last: String = e.finish(&mut term).iter().collect();
    assert!(last.contains("\x1b[1;1HG"));
}
