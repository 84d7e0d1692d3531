use kaleidoscope::ansi::{clear, execute_get_size, parse_size_response, set_pos, size_response_complete};
use kaleidoscope::colors::{Color, ColorRGB};
use kaleidoscope::terminal::{Terminal, TerminalContent};

fn text(cs: &[char]) -> String {
    cs.iter().collect()
}

#[test]
fn size_response_is_zero_based() {
    assert_eq!(parse_size_response(b"\x1b[24;80R"), Some((79, 23)));
}

#[test]
fn size_response_accepts_plus_sign() {
    assert_eq!(parse_size_response(b"\x1b[+3;+1R"), Some((0, 2)));
}

#[test]
fn malformed_size_responses_are_refused() {
    assert_eq!(parse_size_response(b"\x1b[24R"), None);
    assert_eq!(parse_size_response(b"\x1b[;80R"), None);
    assert_eq!(parse_size_response(b"\x1b[2a;80R"), None);
    assert_eq!(parse_size_response(b"x[24;80R"), None);
    assert_eq!(parse_size_response(b"\x1b[24;80"), None);
    assert_eq!(parse_size_response(b"\x1b[99999999999999999999999;1R"), None);
}

#[test]
fn size_response_framing() {
    assert!(!size_response_complete(b"\x1b[24"));
    assert!(!size_response_complete(b"\x1b[24;80"));
    assert!(size_response_complete(b"\x1b[24;80R"));
}

#[test]
fn set_pos_is_one_based_line_first() {
    assert_eq!(text(&set_pos(0, 0)), "\x1b[1;1H");
    assert_eq!(text(&set_pos(9, 41)), "\x1b[42;10H");
    assert_eq!(text(&clear()), "\x1b[2J");
}

#[test]
fn size_query_moves_far_then_asks() {
    let mut pending = vec!['a'];
    execute_get_size(&mut pending);
    assert_eq!(text(&pending), "a\x1b[1000;1000H\x1b[6n");
}

#[test]
fn color_commands() {
    assert_eq!(text(&Color::Reset.get_ansi_command()), "\x1b[0m");
    assert_eq!(text(&Color::Default.get_ansi_command()), "\x1b[0m");
    assert_eq!(
        text(&Color::EditorSelection.get_ansi_command()),
        "\x1b[38;2;220;220;220;48;2;35;40;55m"
    );
    assert_eq!(Color::HeaderFilename.get_colors().1, ColorRGB::new(127, 32, 176));
}

#[test]
fn content_write_stops_at_newline_and_edge() {
    let mut c = TerminalContent::new(5, 2);
    assert_eq!(c.write(1, 0, Color::Header, &['a', 'b', 'c', '\n', 'd']), 3);
    assert_eq!(c.write(3, 1, Color::Header, &['x', 'y', 'z']), 2);
    assert_eq!(c.write(5, 0, Color::Header, &['q']), 0);
    assert_eq!(c.write(0, 2, Color::Header, &['q']), 0);
    assert_eq!(c.idx(3, 1), 8);
}

#[test]
fn empty_content_takes_no_write() {
    let mut c = TerminalContent::new(0, 0);
    assert_eq!(c.write(0, 0, Color::Header, &['a']), 0);
}

fn sized(response: &[u8]) -> Terminal {
    let mut t = Terminal::new();
    assert!(t.update_terminal_size(response));
    t
}

#[test]
fn flush_writes_changed_cells_then_only_cursor() {
    let mut t = sized(b"\x1b[1;2R");
    assert_eq!(t.get_size(), (1, 0));
    let mut t = sized(b"\x1b[2;3R");
    assert_eq!(t.get_size(), (2, 1));
    t.set_cursor_pos(0, 0);
    t.write(Color::Header, "hi");
    let first = text(&t.flush());
    assert_eq!(
        first,
        "\x1b[2J\x1b[38;2;130;130;130;48;2;25;25;25m\x1b[1;1Hh\x1b[1;2Hi\x1b[0m\x1b[1;3H"
    );
    let second = text(&t.flush());
    assert_eq!(second, "\x1b[1;3H");
}

#[test]
fn flush_sends_only_the_changed_cell() {
    let mut t = sized(b"\x1b[2;3R");
    t.write(Color::Header, "hi");
    t.flush();
    t.set_cursor_pos(1, 0);
    t.write(Color::Header, "o");
    assert_eq!(text(&t.flush()), "\x1b[38;2;130;130;130;48;2;25;25;25m\x1b[1;2Ho\x1b[0m\x1b[1;3H");
}

#[test]
fn flush_restores_cells_after_clear() {
    let mut t = sized(b"\x1b[2;2R");
    t.write(Color::Header, "x");
    t.flush();
    t.clear();
    assert_eq!(text(&t.flush()), "\x1b[0m\x1b[1;1H \x1b[0m\x1b[1;2H");
}

#[test]
fn draw_rect_is_clipped() {
    let mut t = sized(b"\x1b[2;3R");
    t.draw_rect(Color::Footer, 1, 0, 10, 10);
    let out = text(&t.flush());
    assert_eq!(out, "\x1b[2J\x1b[38;2;220;220;220;48;2;25;25;25m\x1b[1;2H \x1b[0m\x1b[1;1H");
}

#[test]
fn bad_size_response_changes_nothing() {
    let mut t = Terminal::new();
    assert!(!t.update_terminal_size(b"\x1b[a;1R"));
    assert_eq!(t.get_size(), (0, 0));
}

#[test]
fn input_trace_is_recorded() {
    let mut t = Terminal::new();
    assert_eq!(t.get_input(&[224]), None);
    assert_eq!(t.get_input_debug(), " 224");
    t.get_input(&[224, 72]);
    assert_eq!(t.get_input_debug(), " 224 72");
}
