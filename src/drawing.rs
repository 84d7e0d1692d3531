//! Laying out the editor on the terminal: a header line, the lines of code
//! with a gutter of line numbers, a footer with the status, and the cursor.
use vstd::prelude::*;

use crate::ansi::{decimal, push_decimal};
use crate::colors::Color;
use crate::document::{get_line_count, DocRange};
use crate::state::{CodeEditorMode, EditorState, EditorStatus};
use crate::document::limited;
use crate::terminal::{fill_rect, put_run, screen, Screen, Terminal};

verus! {

/// A rectangle: position and size.
#[derive(Clone, Copy, PartialEq, Eq, Debug, Structural)]
pub struct Bounds {
    pub x: usize,
    pub y: usize,
    pub w: usize,
    pub h: usize,
}

impl Bounds {
    pub fn new(x: usize, y: usize, w: usize, h: usize) -> (r: Self)
        ensures
            r == (Bounds { x, y, w, h }),
    {
        Self { x, y, w, h }
    }
}

/// Where the code area and its parts go.
#[derive(Clone, Copy, PartialEq, Eq, Debug, Structural)]
pub struct CodeContentInfo {
    /// The code area.
    pub bounds: Bounds,
    /// The column where text starts.
    pub textarea_start: usize,
    /// The width left for text.
    pub textarea_width: usize,
    /// The width of the line numbers in the gutter.
    pub line_number_w: usize,
    /// The margin between the gutter and the text.
    pub gutter_margin: usize,
}

/// What is drawn on one line of the code area.
#[derive(Clone, Copy, PartialEq, Eq, Debug, Structural)]
pub struct CodeLineInfo {
    /// The line's place in the code area, from 0.
    pub visual_index: usize,
    /// The document line shown there: the window's first line plus
    /// `visual_index`.
    pub editor_index: usize,
    /// Whether a document line is shown; past the end of the text there is
    /// none.
    pub is_text: bool,
    /// The start of the line's text.
    pub content_a: usize,
    /// The end of the line's text.
    pub content_b: usize,
    /// Whether the cursor is on this line.
    pub is_cursor_line: bool,
}

/// The terminal's invariants, and its size and shown grid, are kept.
pub open spec fn drawn(t0: Terminal, t1: Terminal) -> bool {
    &&& t1.wf()
    &&& t1.size() == t0.size()
    &&& t1.shown() == t0.shown()
    &&& t1.debug_trace() == t0.debug_trace()
}

/// The number of decimal digits of `n`.
pub fn get_digit_count(n: usize) -> (r: usize)
    ensures
        r == decimal(n as nat).len(),
{
    proof {
        lemma_decimal_len_bound(n as nat);
    }
    let mut m = n;
    let mut count: usize = 1;
    while m >= 10
        invariant
            1 <= count,
            count + decimal(m as nat).len() - 1 == decimal(n as nat).len(),
            decimal(n as nat).len() <= usize::MAX,
        decreases m,
    {
        assert(decimal(m as nat) == decimal((m / 10) as nat).push(
            crate::ansi::digit_char((m % 10) as int),
        ));
        m = m / 10;
        count = count + 1;
    }
    count
}

/// A number has at most one digit more than a tenth of it has.
proof fn lemma_decimal_len_bound(n: nat)
    ensures
        decimal(n).len() <= n / 10 + 1,
    decreases n,
{
    if n >= 10 {
        let q = n / 10;
        lemma_decimal_len_bound(q);
        assert(q / 10 + 1 <= q) by (nonlinear_arith)
            requires
                q >= 1,
        ;
    }
}

/// The size of the code area for a terminal of `size`.
pub open spec fn content_size(size: (nat, nat)) -> (nat, nat) {
    (size.0, if size.1 >= 4 {
        (size.1 - 4) as nat
    } else {
        0
    })
}

/// The size of the code area: the terminal's width, and its height less the
/// header and footer lines and the margins around them.
pub fn compute_content_size(term: &Terminal) -> (r: (usize, usize))
    ensures
        (r.0 as nat, r.1 as nat) == content_size(term.size()),
{
    let (w, h) = term.get_size();
    let h2 = if h >= 4 {
        h - 4
    } else {
        0
    };
    (w, h2)
}

/// The code area: from line 2, as large as `compute_content_size` says.
pub fn compute_content_bounds(term: &Terminal) -> (r: Bounds)
    ensures
        r.x == 0 && r.y == 2,
        (r.w as nat, r.h as nat) == content_size(term.size()),
{
    let (w, h) = compute_content_size(term);
    Bounds::new(0, 2, w, h)
}

/// The layout of the code area for a document of `line_count` lines: a
/// gutter wide enough for the line numbers (at least two digits) plus two,
/// a margin of two, and the text after them.
pub fn compute_content_metrics(term: &Terminal, line_count: usize) -> (r: CodeContentInfo)
    ensures
        r == content_metrics(term.size(), line_count as nat),
        r.bounds.x == 0 && r.bounds.y == 2,
        (r.bounds.w as nat, r.bounds.h as nat) == content_size(term.size()),
        r.line_number_w == (if decimal(line_count as nat).len() > 2 {
            decimal(line_count as nat).len()
        } else {
            2
        }) + 2,
        r.gutter_margin == 2,
        r.textarea_start == r.line_number_w + r.gutter_margin,
        r.textarea_width == if term.size().0 > r.textarea_start {
            term.size().0 - r.textarea_start
        } else {
            0
        },
{
    let bounds = compute_content_bounds(term);
    let digits = get_digit_count(line_count);
    proof {
        lemma_decimal_len_bound(line_count as nat);
    }
    let gutter_linew = (if digits > 2 {
        digits
    } else {
        2
    }) + 2;
    let gutter_margin: usize = 2;
    let textarea_start = gutter_linew + gutter_margin;
    let (w, _) = term.get_size();
    let textarea_width = w.saturating_sub(textarea_start);
    CodeContentInfo {
        bounds,
        textarea_start,
        textarea_width,
        line_number_w: gutter_linew,
        gutter_margin,
    }
}

/// What line `visual_index` of the code area shows, given the document
/// line there, if any.
pub fn compute_line_metrics(
    visual_index: usize,
    line: Option<DocRange>,
    state: &EditorState,
) -> (r: CodeLineInfo)
    ensures
        r == line_metrics(visual_index, line, *state),
        r.visual_index == visual_index,
        r.editor_index == visual_index.saturating_add(state.view.origin_y() as usize),
        r.is_text == line is Some,
        line is Some ==> r.content_a == line->0.a && r.content_b == line->0.b,
        line is None ==> r.content_a == state.doc.content().len() && r.content_b
            == state.doc.content().len(),
        r.is_cursor_line == (r.editor_index == state.view.line()),
{
    let (_, view_y) = state.view.get_window_pos();
    let editor_index = visual_index.saturating_add(view_y);
    let text_len = state.doc.len();
    let (is_text, content_a, content_b) = match line {
        Some(line) => (true, line.a, line.b),
        None => (false, text_len, text_len),
    };
    let cursor_y = state.view.cursor_y();
    let is_cursor_line = editor_index == cursor_y;
    CodeLineInfo { visual_index, editor_index, content_a, content_b, is_text, is_cursor_line }
}

/// `n` spaces.
pub open spec fn spaces(n: int) -> Seq<char> {
    Seq::new(
        if n > 0 {
            n as nat
        } else {
            0
        },
        |i: int| ' ',
    )
}

fn push_spaces(out: &mut Vec<char>, n: usize)
    ensures
        final(out)@ == old(out)@ + spaces(n as int),
{
    let mut i: usize = 0;
    while i < n
        invariant
            i <= n,
            out@ == old(out)@ + spaces(i as int),
        decreases n - i,
    {
        out.push(' ');
        i = i + 1;
        assert(out@ =~= old(out)@ + spaces(i as int));
    }
}

/// A line number right-aligned in `width` columns, then `margin` spaces.
pub fn gutter_label(line_number: usize, width: usize, margin: usize) -> (r: Vec<char>)
    ensures
        r@ == spaces(width - decimal(line_number as nat).len()) + decimal(line_number as nat)
            + spaces(margin as int),
{
    let digits = get_digit_count(line_number);
    let mut out: Vec<char> = Vec::new();
    let pad = if width > digits {
        width - digits
    } else {
        0
    };
    push_spaces(&mut out, pad);
    push_decimal(&mut out, line_number as u128);
    push_spaces(&mut out, margin);
    assert(spaces(pad as int) =~= spaces(width - decimal(line_number as nat).len()));
    out
}

/// The cursor position shown in the footer: column, a comma, line.
pub fn position_label(x: usize, y: usize) -> (r: Vec<char>)
    ensures
        r@ == decimal(x as nat) + seq![','] + decimal(y as nat),
{
    let mut out: Vec<char> = Vec::new();
    push_decimal(&mut out, x as u128);
    out.push(',');
    push_decimal(&mut out, y as u128);
    assert(out@ =~= decimal(x as nat) + seq![','] + decimal(y as nat));
    out
}

/// The note of how many characters are selected.
pub fn selected_label(n: usize) -> (r: Vec<char>)
    ensures
        r@ == seq![' ', '('] + decimal(n as nat) + seq![' ', 's', 'e', 'l', 'e', 'c', 't', 'e', 'd', ')'],
{
    let mut out: Vec<char> = Vec::new();
    out.push(' ');
    out.push('(');
    push_decimal(&mut out, n as u128);
    out.push(' ');
    out.push('s');
    out.push('e');
    out.push('l');
    out.push('e');
    out.push('c');
    out.push('t');
    out.push('e');
    out.push('d');
    out.push(')');
    assert(out@ =~= seq![' ', '('] + decimal(n as nat) + seq![' ', 's', 'e', 'l', 'e', 'c', 't', 'e', 'd', ')']);
    out
}

/// Draws the whole editor into the terminal's pending grid, and leaves the
/// write cursor where the document's cursor shows.
pub fn draw_editor(term: &mut Terminal, state: &EditorState)
    requires
        old(term).wf(),
        state.doc.wf(),
    ensures
        drawn(*old(term), *final(term)),
        final(term).cursor() == cursor_spot(*old(term), *state),
        final(term).pending().chars() == editor_screen(*old(term), *state).0,
        final(term).pending().colors() == editor_screen(*old(term), *state).1,
{
    let ghost t0 = *term;
    let ghost (w, h) = t0.size();
    draw_bg(term);
    draw_header(term, state);
    let ghost s1 = screen(*term);
    let doc = &state.doc;
    let line_count = get_line_count(doc);
    let content_info = compute_content_metrics(term, line_count);
    let (_, view_y) = state.view.get_window_pos();
    let mut lines = doc.get_lines();
    let ghost ls = state.doc.lines();
    let mut k: usize = 0;
    while k < view_y
        invariant
            lines.wf(),
            lines.doc_content() == state.doc.content(),
            drawn(t0, *term),
            screen(*term) == s1,
            ls == state.doc.lines(),
            k <= view_y,
            lines.remaining() == ls.subrange(if k < ls.len() { k as int } else { ls.len() as int }, ls.len() as int),
        decreases view_y - k,
    {
        lines.next();
        k = k + 1;
    }
    let mut i: usize = 0;
    while i < content_info.bounds.h
        invariant
            lines.wf(),
            lines.doc_content() == state.doc.content(),
            drawn(t0, *term),
            (w, h) == t0.size(),
            ls == state.doc.lines(),
            view_y == state.view.origin_y(),
            i <= content_info.bounds.h,
            screen(*term) == code_lines_screen(w, h, s1, *state, content_info, i as nat),
            lines.remaining() == ls.subrange(
                if view_y + i < ls.len() { view_y + i } else { ls.len() as int },
                ls.len() as int,
            ),
        decreases content_info.bounds.h - i,
    {
        let ghost before = lines.remaining();
        let next = lines.next();
        proof {
            if view_y + i < ls.len() {
                assert(before[0] == ls[view_y + i]);
                let r = next->0;
                assert(r.a == ls[view_y + i].0 as usize && r.b == ls[view_y + i].1 as usize);
                assert(r == (DocRange { a: ls[view_y + i].0 as usize, b: ls[view_y + i].1 as usize }));
                assert(next == shown_line(*state, i as int));
                assert(before.drop_first() =~= ls.subrange(
                    if view_y + i + 1 < ls.len() { view_y + i + 1 } else { ls.len() as int },
                    ls.len() as int,
                ));
            } else {
                assert(before.len() == 0);
                assert(next == shown_line(*state, i as int));
            }
        }
        let line_info = compute_line_metrics(i, next, state);
        draw_code_gutter(term, &content_info, &line_info);
        draw_code_text(term, state, &content_info, &line_info);
        i = i + 1;
    }
    draw_footer(term, state);
    draw_cursor(term, state);
}

/// Paints the code area's background.
fn draw_bg(term: &mut Terminal)
    requires
        old(term).wf(),
    ensures
        drawn(*old(term), *final(term)),
        final(term).cursor() == old(term).cursor(),
        ({
            let (w, h) = content_size(old(term).size());
            (final(term).pending().chars(), final(term).pending().colors()) == fill_rect(
                old(term).size().0,
                old(term).pending().chars(),
                old(term).pending().colors(),
                Color::EditorContent,
                0,
                2,
                w as int,
                h as int,
            )
        }),
{
    let b = compute_content_bounds(term);
    term.draw_rect(Color::EditorContent, b.x, b.y, b.w, b.h);
}

/// Draws the header: the file name, the mode, and either the exit prompt
/// or the help line.
fn draw_header(term: &mut Terminal, state: &EditorState)
    requires
        old(term).wf(),
    ensures
        drawn(*old(term), *final(term)),
        screen(*final(term)) == header_screen(
            old(term).size().0,
            old(term).size().1,
            screen(*old(term)),
            *state,
        ),
        final(term).cursor().1 == 0,
{
    let (w, _) = term.get_size();
    term.draw_rect(Color::Header, 0, 0, w, 1);
    term.set_cursor_pos(0, 0);
    if state.is_transient() {
        term.write(Color::HeaderFilename, " (transient) ");
    } else {
        term.write(Color::HeaderFilename, " demo.via ");
    }
    match state.mode() {
        CodeEditorMode::Command => term.write(Color::HeaderModeCmd, " COMMAND MODE "),
        CodeEditorMode::Edit => term.write(Color::HeaderModeEdit, " EDITING CODE "),
    }
    if state.is_exit_request_pending() {
        term.write(Color::ExitRequest, " Exit requested. Press ");
        term.write(Color::ExitRequestBinding, "Ctrl-C");
        term.write(Color::ExitRequest, " again to confirm.");
    } else {
        term.write(Color::HeaderHelp, " Use ");
        term.write(Color::HeaderHelpBinding, "[ESC R]");
        term.write(Color::HeaderHelp, " to run the program, and ");
        term.write(Color::HeaderHelpBinding, "[ESC, S]");
        term.write(Color::HeaderHelp, " to save it.");
    }
}

/// Draws the footer: the cursor position and the size of the selection, or
/// the error; then the trace of the last input's bytes.
fn draw_footer(term: &mut Terminal, state: &EditorState)
    requires
        old(term).wf(),
    ensures
        drawn(*old(term), *final(term)),
        screen(*final(term)) == footer_screen(
            old(term).size().0,
            old(term).size().1,
            screen(*old(term)),
            *state,
            old(term).debug_trace(),
        ),
        final(term).cursor().1 == last_line(old(term).size().1),
{
    let (w, h) = term.get_size();
    let last = h.saturating_sub(1);
    term.draw_rect(Color::Footer, 0, last, w, 1);
    term.set_cursor_pos(0, last);
    match state.get_status() {
        EditorStatus::IDLE => {
            let cursor_x = state.view.cursor_x();
            let cursor_y = state.view.cursor_y();
            let label = position_label(cursor_x, cursor_y);
            term.write_chars(Color::FooterStatusInfoContent, label.as_slice());
            if let Some(selection) = state.get_selection() {
                let r = selection.get_limited(&state.doc);
                let label = selected_label(r.b - r.a);
                term.write_chars(Color::FooterStatusInfoContent, label.as_slice());
            }
        },
        EditorStatus::ERROR(msg) => {
            term.write(Color::FooterStatusError, " ERROR ");
            term.write(Color::FooterStatusErrorContent, " ");
            term.write(Color::FooterStatusErrorContent, msg.as_str());
            term.write(Color::FooterStatusErrorContent, " ");
        },
    }
    term.write(Color::FooterStatusInfoContent, "        ");
    let debug = crate::chars_of(term.get_input_debug());
    term.write_chars(Color::FooterStatusInfoContent, debug.as_slice());
}

/// Where the document's cursor shows on the terminal: its place in the
/// window, offset by the gutter and the header.
pub open spec fn cursor_spot(term: Terminal, state: EditorState) -> (nat, nat) {
    let metrics_start = (if decimal(state.doc.lines().len()).len() > 2 {
        decimal(state.doc.lines().len()).len()
    } else {
        2
    }) + 4;
    let x = (state.view.column() as usize).saturating_sub(state.view.origin_x() as usize).saturating_add(
        metrics_start as usize,
    );
    let y = (state.view.line() as usize).saturating_sub(state.view.origin_y() as usize).saturating_add(
        2,
    );
    (x as nat, y as nat)
}

/// Moves the write cursor to where the document's cursor shows.
fn draw_cursor(term: &mut Terminal, state: &EditorState)
    requires
        old(term).wf(),
        state.doc.wf(),
    ensures
        drawn(*old(term), *final(term)),
        final(term).pending() == old(term).pending(),
        final(term).cursor() == cursor_spot(*old(term), *state),
{
    let line_count = get_line_count(&state.doc);
    let content_info = compute_content_metrics(term, line_count);
    let abs_x = state.view.cursor_x();
    let abs_y = state.view.cursor_y();
    let (window_x, window_y) = state.view.get_window_pos();
    let x = abs_x.saturating_sub(window_x).saturating_add(content_info.textarea_start);
    let y = abs_y.saturating_sub(window_y).saturating_add(content_info.bounds.y);
    term.set_cursor_pos(x, y);
}

/// Draws the gutter of one line: its number, right-aligned, highlighted on
/// the cursor's line, then the margin.
fn draw_code_gutter(term: &mut Terminal, content: &CodeContentInfo, line: &CodeLineInfo)
    requires
        old(term).wf(),
    ensures
        drawn(*old(term), *final(term)),
        screen(*final(term)) == gutter_screen(
            old(term).size().0,
            old(term).size().1,
            screen(*old(term)),
            *content,
            *line,
        ),
        final(term).cursor().1 == content.bounds.y.saturating_add(line.visual_index),
{
    let line_number = line.editor_index.saturating_add(1);
    let color = if line.is_cursor_line {
        Color::EditorGutterCursor
    } else {
        Color::EditorGutter
    };
    let x = content.bounds.x;
    let y = content.bounds.y.saturating_add(line.visual_index);
    term.set_cursor_pos(x, y);
    let label = gutter_label(line_number, content.line_number_w, content.gutter_margin);
    term.write_chars(color, label.as_slice());
}

/// Draws the text of one line, with the selected part in the selection's
/// color; past the end of the text, a `~` (except on the cursor's line).
fn draw_code_text(
    term: &mut Terminal,
    state: &EditorState,
    content: &CodeContentInfo,
    line: &CodeLineInfo,
)
    requires
        old(term).wf(),
    ensures
        drawn(*old(term), *final(term)),
        screen(*final(term)) == code_text_screen(
            old(term).size().0,
            old(term).size().1,
            screen(*old(term)),
            *state,
            *content,
            *line,
        ),
{
    let doc = &state.doc;
    let (view_x, _) = state.view.get_window_pos();
    let x = content.bounds.x.saturating_add(content.textarea_start);
    let y = content.bounds.y.saturating_add(line.visual_index);
    let w = content.textarea_width;
    term.draw_rect(Color::EditorContent, x, y, w, 1);
    if line.is_text {
        let len = doc.len();
        let a0 = line.content_a.saturating_add(view_x);
        let text_a = if a0 < len {
            a0
        } else {
            len
        };
        let b0 = text_a.saturating_add(content.textarea_width);
        let b1 = if b0 < line.content_b {
            b0
        } else {
            line.content_b
        };
        let text_b = if b1 < len {
            b1
        } else {
            len
        };
        if text_b > text_a {
            let chars = doc.chars().as_slice();
            match state.get_selection() {
                None => {
                    term.set_cursor_pos(x, y);
                    term.write_chars(
                        Color::EditorContent,
                        vstd::slice::slice_subrange(chars, text_a, text_b),
                    );
                },
                Some(selection) => {
                    let start = clamp(selection.a, text_a, text_b);
                    let end = clamp(selection.b, start, text_b);
                    term.set_cursor_pos(x, y);
                    term.write_chars(
                        Color::EditorContent,
                        vstd::slice::slice_subrange(chars, text_a, start),
                    );
                    term.write_chars(
                        Color::EditorSelection,
                        vstd::slice::slice_subrange(chars, start, end),
                    );
                    term.write_chars(
                        Color::EditorContent,
                        vstd::slice::slice_subrange(chars, end, text_b),
                    );
                },
            }
        }
    } else {
        if !line.is_cursor_line {
            term.set_cursor_pos(x, y);
            term.write(Color::EditorDetail, "~");
        }
    }
}

/// The gutter of one line: its number right-aligned, highlighted on the
/// cursor's line, then the margin, written at the code area's left edge.
pub open spec fn gutter_screen(
    w: nat,
    h: nat,
    st: Screen,
    content: CodeContentInfo,
    line: CodeLineInfo,
) -> Screen {
    let y = content.bounds.y.saturating_add(line.visual_index);
    let color = if line.is_cursor_line {
        Color::EditorGutterCursor
    } else {
        Color::EditorGutter
    };
    let n = line.editor_index.saturating_add(1);
    let label = spaces(content.line_number_w - decimal(n as nat).len()) + decimal(n as nat)
        + spaces(content.gutter_margin as int);
    put_run(w, h, (st.0, st.1, content.bounds.x as int), y as int, color, label)
}

/// The layout of the code area for a terminal of `size` and a document of
/// `line_count` lines, as `compute_content_metrics` gives it.
pub open spec fn content_metrics(size: (nat, nat), line_count: nat) -> CodeContentInfo {
    let digits = decimal(line_count).len();
    let lw = (if digits > 2 {
        digits
    } else {
        2
    }) + 2;
    let start = lw + 2;
    let area = content_size(size);
    CodeContentInfo {
        bounds: Bounds { x: 0, y: 2, w: area.0 as usize, h: area.1 as usize },
        textarea_start: start as usize,
        textarea_width: (if size.0 > start {
            size.0 - start
        } else {
            0
        }) as usize,
        line_number_w: lw as usize,
        gutter_margin: 2,
    }
}

/// What line `visual_index` of the code area shows, as
/// `compute_line_metrics` gives it.
pub open spec fn line_metrics(visual_index: usize, line: Option<DocRange>, state: EditorState) -> CodeLineInfo {
    let editor_index = visual_index.saturating_add(state.view.origin_y() as usize);
    let len = state.doc.content().len() as usize;
    CodeLineInfo {
        visual_index,
        editor_index,
        is_text: line is Some,
        content_a: match line {
            Some(r) => r.a,
            None => len,
        },
        content_b: match line {
            Some(r) => r.b,
            None => len,
        },
        is_cursor_line: editor_index == state.view.line(),
    }
}

/// The document line shown on line `vi` of the code area, if any.
pub open spec fn shown_line(state: EditorState, vi: int) -> Option<DocRange> {
    let ls = state.doc.lines();
    let k = state.view.origin_y() + vi;
    if k < ls.len() {
        Some(DocRange { a: ls[k].0 as usize, b: ls[k].1 as usize })
    } else {
        None
    }
}

/// The first `n` lines of the code area drawn in turn: gutter, then text.
pub open spec fn code_lines_screen(
    w: nat,
    h: nat,
    st: Screen,
    state: EditorState,
    content: CodeContentInfo,
    n: nat,
) -> Screen
    decreases n,
{
    if n == 0 {
        st
    } else {
        let prev = code_lines_screen(w, h, st, state, content, (n - 1) as nat);
        let line = line_metrics((n - 1) as usize, shown_line(state, n - 1), state);
        code_text_screen(w, h, gutter_screen(w, h, prev, content, line), state, content, line)
    }
}

/// The whole editor drawn: the code area's background, the header, every
/// line of the code area, and the footer.
pub open spec fn editor_screen(t: Terminal, state: EditorState) -> Screen {
    editor_screen_on(
        t.size().0,
        t.size().1,
        (t.pending().chars(), t.pending().colors(), t.cursor().0 as int),
        t.debug_trace(),
        state,
    )
}

/// The whole editor drawn on a `w` by `h` screen `st`, with `trace` as the
/// last input's bytes.
pub open spec fn editor_screen_on(w: nat, h: nat, st: Screen, trace: Seq<char>, state: EditorState) -> Screen {
    let area = content_size((w, h));
    let bg = fill_rect(
        w,
        st.0,
        st.1,
        Color::EditorContent,
        0,
        2,
        area.0 as int,
        area.1 as int,
    );
    let s1 = header_screen(w, h, (bg.0, bg.1, st.2), state);
    let content = content_metrics((w, h), state.doc.lines().len());
    let s2 = code_lines_screen(w, h, s1, state, content, area.1);
    footer_screen(w, h, s2, state, trace)
}

/// The file name shown in the header.
pub open spec fn filename_text(state: EditorState) -> Seq<char> {
    if state.transient {
        " (transient) "@
    } else {
        " demo.via "@
    }
}

/// The mode shown in the header, and its color.
pub open spec fn mode_run(state: EditorState) -> (Color, Seq<char>) {
    match state.mode {
        CodeEditorMode::Command => (Color::HeaderModeCmd, " COMMAND MODE "@),
        CodeEditorMode::Edit => (Color::HeaderModeEdit, " EDITING CODE "@),
    }
}

/// The header: its line painted, then the file name, the mode, and either
/// the exit prompt or the help, written from column 0.
pub open spec fn header_screen(w: nat, h: nat, st: Screen, state: EditorState) -> Screen {
    let g = fill_rect(w, st.0, st.1, Color::Header, 0, 0, w as int, 1);
    let s1 = put_run(w, h, (g.0, g.1, 0), 0, Color::HeaderFilename, filename_text(state));
    let s2 = put_run(w, h, s1, 0, mode_run(state).0, mode_run(state).1);
    if state.exit_request == crate::state::EditorExitRequest::PendingConfirmation {
        let s3 = put_run(w, h, s2, 0, Color::ExitRequest, " Exit requested. Press "@);
        let s4 = put_run(w, h, s3, 0, Color::ExitRequestBinding, "Ctrl-C"@);
        put_run(w, h, s4, 0, Color::ExitRequest, " again to confirm."@)
    } else {
        let s3 = put_run(w, h, s2, 0, Color::HeaderHelp, " Use "@);
        let s4 = put_run(w, h, s3, 0, Color::HeaderHelpBinding, "[ESC R]"@);
        let s5 = put_run(w, h, s4, 0, Color::HeaderHelp, " to run the program, and "@);
        let s6 = put_run(w, h, s5, 0, Color::HeaderHelpBinding, "[ESC, S]"@);
        put_run(w, h, s6, 0, Color::HeaderHelp, " to save it."@)
    }
}

/// The terminal's last line.
pub open spec fn last_line(h: nat) -> int {
    if h > 0 {
        h - 1
    } else {
        0
    }
}

/// The footer: its line painted, then the cursor position and the size of
/// the selection, or the error; then spaces and the trace of the last
/// input's bytes.
pub open spec fn footer_screen(
    w: nat,
    h: nat,
    st: Screen,
    state: EditorState,
    trace: Seq<char>,
) -> Screen {
    let y = last_line(h);
    let g = fill_rect(w, st.0, st.1, Color::Footer, 0, y, w as int, 1);
    let s0 = (g.0, g.1, 0int);
    let s1 = match state.status {
        EditorStatus::IDLE => {
            let p = put_run(
                w,
                h,
                s0,
                y,
                Color::FooterStatusInfoContent,
                decimal(state.view.column() as nat) + seq![','] + decimal(state.view.line() as nat),
            );
            match state.selection {
                Some(sel) => {
                    let l = limited(sel.a as int, sel.b as int, state.doc.content().len() as int);
                    put_run(
                        w,
                        h,
                        p,
                        y,
                        Color::FooterStatusInfoContent,
                        seq![' ', '('] + decimal((l.1 - l.0) as nat) + seq![' ', 's', 'e', 'l', 'e', 'c', 't', 'e', 'd', ')'],
                    )
                },
                None => p,
            }
        },
        EditorStatus::ERROR(msg) => {
            let label = put_run(w, h, s0, y, Color::FooterStatusError, " ERROR "@);
            let space = put_run(w, h, label, y, Color::FooterStatusErrorContent, " "@);
            let message = put_run(w, h, space, y, Color::FooterStatusErrorContent, msg@);
            put_run(w, h, message, y, Color::FooterStatusErrorContent, " "@)
        },
    };
    let s2 = put_run(w, h, s1, y, Color::FooterStatusInfoContent, "        "@);
    put_run(w, h, s2, y, Color::FooterStatusInfoContent, trace)
}

/// `v` limited to between `lo` and `hi`.
pub open spec fn clamped(v: int, lo: int, hi: int) -> int {
    if v < lo {
        lo
    } else if v > hi {
        hi
    } else {
        v
    }
}

/// One line of the code area: its text area painted, then the part of the
/// line that shows, with the selected part in the selection's color; past
/// the end of the text, a `~`, except on the cursor's line.
pub open spec fn code_text_screen(
    w: nat,
    h: nat,
    st: Screen,
    state: EditorState,
    content: CodeContentInfo,
    line: CodeLineInfo,
) -> Screen {
    let x = content.bounds.x.saturating_add(content.textarea_start);
    let y = content.bounds.y.saturating_add(line.visual_index);
    let g = fill_rect(
        w,
        st.0,
        st.1,
        Color::EditorContent,
        x as int,
        y as int,
        content.textarea_width as int,
        1,
    );
    let s0 = (g.0, g.1, st.2);
    let at_x = (g.0, g.1, x as int);
    let text = state.doc.content();
    let len = text.len() as int;
    if line.is_text {
        let a0 = line.content_a.saturating_add(state.view.origin_x() as usize) as int;
        let a = if a0 < len {
            a0
        } else {
            len
        };
        let b0 = (a as usize).saturating_add(content.textarea_width) as int;
        let b1 = if b0 < line.content_b {
            b0
        } else {
            line.content_b as int
        };
        let b = if b1 < len {
            b1
        } else {
            len
        };
        if b > a {
            match state.selection {
                None => put_run(w, h, at_x, y as int, Color::EditorContent, text.subrange(a, b)),
                Some(sel) => {
                    let start = clamped(sel.a as int, a, b);
                    let end = clamped(sel.b as int, start, b);
                    let before = put_run(w, h, at_x, y as int, Color::EditorContent, text.subrange(a, start));
                    let selected = put_run(w, h, before, y as int, Color::EditorSelection, text.subrange(start, end));
                    put_run(w, h, selected, y as int, Color::EditorContent, text.subrange(end, b))
                },
            }
        } else {
            s0
        }
    } else if !line.is_cursor_line {
        put_run(w, h, at_x, y as int, Color::EditorDetail, "~"@)
    } else {
        s0
    }
}

/// `v` limited to between `lo` and `hi`.
fn clamp(v: usize, lo: usize, hi: usize) -> (r: usize)
    requires
        lo <= hi,
    ensures
        r == if v < lo {
            lo
        } else if v > hi {
            hi
        } else {
            v
        },
{
    if v < lo {
        lo
    } else if v > hi {
        hi
    } else {
        v
    }
}

} // verus!
