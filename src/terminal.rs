//! The terminal as two grids of colored characters: what should be shown
//! next, and what the terminal shows now. Drawing changes only the first;
//! flushing sends the commands that bring the terminal from the second to
//! the first, for the cells that differ and no others.
use vstd::prelude::*;

use crate::ansi::{clear, clear_cmd, parse_size_response, pos_response, push_set_pos, set_pos_cmd};
use crate::chars_of;
use crate::colors::{color_cmd, Color};
use crate::input::{decode, get_input as decode_input, input_bytes, trace, Input};
use vstd::arithmetic::div_mod::lemma_fundamental_div_mod_converse;

verus! {

/// The offset of cell (`x`, `y`) in a grid `w` cells wide.
pub open spec fn cell(w: int, x: int, y: int) -> int {
    x + w * y
}

/// The first line of `s` ends at offset `first_line_end(s, 0)`.
pub open spec fn first_line_end(s: Seq<char>, i: int) -> int
    decreases s.len() - i,
{
    if i >= s.len() {
        s.len() as int
    } else if s[i] == '\n' {
        i
    } else {
        first_line_end(s, i + 1)
    }
}

/// How many cells a write of `content` at column `x`, line `y` fills in a
/// `w` by `h` grid of `len` cells: its first line, cut at the grid's right
/// edge; none when it starts outside.
pub open spec fn put_count(w: nat, h: nat, len: nat, x: int, y: int, content: Seq<char>) -> int {
    if len == 0 || x >= w || y >= h {
        0
    } else {
        let l = first_line_end(content, 0);
        let room = w - x;
        if l < room {
            l
        } else {
            room
        }
    }
}

/// The characters after writing the first `n` of `content` from column `x`,
/// line `y`, in a grid `w` wide.
pub open spec fn put_chars(w: nat, chars: Seq<char>, x: int, y: int, content: Seq<char>, n: int) -> Seq<
    char,
> {
    let start = cell(w as int, x, y);
    Seq::new(
        chars.len(),
        |k: int|
            if start <= k < start + n {
                content[k - start]
            } else {
                chars[k]
            },
    )
}

/// The colors after writing `n` cells in `color` from column `x`, line `y`,
/// in a grid `w` wide.
pub open spec fn put_colors(w: nat, colors: Seq<Color>, x: int, y: int, color: Color, n: int) -> Seq<
    Color,
> {
    let start = cell(w as int, x, y);
    Seq::new(
        colors.len(),
        |k: int|
            if start <= k < start + n {
                color
            } else {
                colors[k]
            },
    )
}

pub open spec fn write_count(c: TerminalContent, x: int, y: int, content: Seq<char>) -> int {
    put_count(c.width(), c.height(), c.chars().len(), x, y, content)
}

pub open spec fn written_chars(c: TerminalContent, x: int, y: int, content: Seq<char>, n: int) -> Seq<
    char,
> {
    put_chars(c.width(), c.chars(), x, y, content, n)
}

pub open spec fn written_colors(c: TerminalContent, x: int, y: int, color: Color, n: int) -> Seq<
    Color,
> {
    put_colors(c.width(), c.colors(), x, y, color, n)
}

/// A grid's characters, colors, and write column.
pub type Screen = (Seq<char>, Seq<Color>, int);

/// The screen after writing `text` in `color` on line `y` from the write
/// column, which then moves past what was written.
pub open spec fn put_run(w: nat, h: nat, st: Screen, y: int, color: Color, text: Seq<char>) -> Screen {
    let n = put_count(w, h, st.0.len(), st.2, y, text);
    (put_chars(w, st.0, st.2, y, text, n), put_colors(w, st.1, st.2, y, color, n), st.2 + n)
}

/// The grid after painting the rectangle at (`x`, `y`) of size `rw` by `rh`
/// blank in `color`, in a grid `w` wide.
pub open spec fn fill_rect(
    w: nat,
    chars: Seq<char>,
    colors: Seq<Color>,
    color: Color,
    x: int,
    y: int,
    rw: int,
    rh: int,
) -> (Seq<char>, Seq<Color>) {
    (
        Seq::new(
            chars.len(),
            |k: int|
                if w > 0 && in_rect(x, y, rw, rh, k % (w as int), k / (w as int)) {
                    ' '
                } else {
                    chars[k]
                },
        ),
        Seq::new(
            colors.len(),
            |k: int|
                if w > 0 && in_rect(x, y, rw, rh, k % (w as int), k / (w as int)) {
                    color
                } else {
                    colors[k]
                },
        ),
    )
}

/// Cell (`x`, `y`) of a grid `w` by `h` lies in its storage.
proof fn lemma_cell_in_grid(w: int, h: int, x: int, y: int)
    requires
        0 <= x < w,
        0 <= y < h,
    ensures
        0 <= cell(w, x, y) < w * h,
        cell(w, x, y) + (w - x) <= w * h,
{
    assert(0 <= w * y) by (nonlinear_arith)
        requires
            0 <= w,
            0 <= y,
    ;
    assert(x + w * y + (w - x) <= w * h) by (nonlinear_arith)
        requires
            0 <= x < w,
            0 <= y < h,
    ;
}

/// Two cells of a grid share storage only when they are the same cell.
proof fn lemma_cell_unique(w: int, x1: int, y1: int, x2: int, y2: int)
    requires
        0 <= x1 < w,
        0 <= x2 < w,
        0 <= y1,
        0 <= y2,
        cell(w, x1, y1) == cell(w, x2, y2),
    ensures
        x1 == x2 && y1 == y2,
{
    if y1 < y2 {
        assert(x1 + w * y1 < x2 + w * y2) by (nonlinear_arith)
            requires
                0 <= x1 < w,
                0 <= x2,
                y1 < y2,
        ;
    } else if y2 < y1 {
        assert(x2 + w * y2 < x1 + w * y1) by (nonlinear_arith)
            requires
                0 <= x2 < w,
                0 <= x1,
                y2 < y1,
        ;
    }
}

/// A fixed-size rectangle of colored characters.
pub struct TerminalContent {
    pub w: usize,
    pub h: usize,
    text: Vec<char>,
    color: Vec<Color>,
}

/// `n` blank characters.
fn blank_text(n: usize) -> (r: Vec<char>)
    ensures
        r@ == Seq::new(n as nat, |k: int| ' '),
{
    let mut r: Vec<char> = Vec::new();
    let mut i: usize = 0;
    while i < n
        invariant
            i <= n,
            r@ == Seq::new(i as nat, |k: int| ' '),
        decreases n - i,
    {
        r.push(' ');
        i = i + 1;
        assert(r@ =~= Seq::new(i as nat, |k: int| ' '));
    }
    r
}

/// `n` cells of the default color.
fn default_colors(n: usize) -> (r: Vec<Color>)
    ensures
        r@ == Seq::new(n as nat, |k: int| Color::Default),
{
    let mut r: Vec<Color> = Vec::new();
    let mut i: usize = 0;
    while i < n
        invariant
            i <= n,
            r@ == Seq::new(i as nat, |k: int| Color::Default),
        decreases n - i,
    {
        r.push(Color::Default);
        i = i + 1;
        assert(r@ =~= Seq::new(i as nat, |k: int| Color::Default));
    }
    r
}

impl TerminalContent {
    pub closed spec fn width(&self) -> nat {
        self.w as nat
    }

    pub closed spec fn height(&self) -> nat {
        self.h as nat
    }

    /// The characters, cell `cell(w, x, y)` for column `x` and line `y`.
    pub closed spec fn chars(&self) -> Seq<char> {
        self.text@
    }

    /// The colors, laid out as `chars`.
    pub closed spec fn colors(&self) -> Seq<Color> {
        self.color@
    }

    pub open spec fn wf(&self) -> bool {
        &&& self.chars().len() == self.width() * self.height()
        &&& self.colors().len() == self.width() * self.height()
        &&& self.width() * self.height() <= usize::MAX
    }

    /// Whether the content is blank and `w` by `h`.
    pub open spec fn is_blank(&self, w: nat, h: nat) -> bool {
        &&& self.width() == w
        &&& self.height() == h
        &&& self.chars() == Seq::new(w * h, |k: int| ' ')
        &&& self.colors() == Seq::new(w * h, |k: int| Color::Default)
        &&& self.wf()
    }

    /// A blank screen of `w` by `h`.
    pub fn new(w: usize, h: usize) -> (r: Self)
        requires
            w * h <= usize::MAX,
        ensures
            r.is_blank(w as nat, h as nat),
    {
        let area = w * h;
        TerminalContent { w, h, text: blank_text(area), color: default_colors(area) }
    }

    /// Makes the content blank, keeping its size.
    pub fn reset(&mut self)
        requires
            old(self).wf(),
        ensures
            final(self).is_blank(old(self).width(), old(self).height()),
    {
        self.resize_and_reset(self.w, self.h)
    }

    /// Gives the content a new size, and makes it blank.
    pub fn resize_and_reset(&mut self, w: usize, h: usize)
        requires
            w * h <= usize::MAX,
        ensures
            final(self).is_blank(w as nat, h as nat),
    {
        self.w = w;
        self.h = h;
        let area = w * h;
        self.text = blank_text(area);
        self.color = default_colors(area);
    }

    /// The offset in storage of column `x`, line `y`.
    pub fn idx(&self, x: usize, y: usize) -> (r: usize)
        requires
            self.wf(),
            x < self.width(),
            y < self.height(),
        ensures
            r == cell(self.width() as int, x as int, y as int),
            r < self.chars().len(),
    {
        proof {
            lemma_cell_in_grid(self.w as int, self.h as int, x as int, y as int);
        }
        x + self.w * y
    }

    /// Writes the first line of `content` from column `x` on line `y`. What
    /// would fall outside the grid is dropped, and nothing after a newline is
    /// written. Returns the number of cells written.
    pub fn write(&mut self, x: usize, y: usize, color: Color, content: &[char]) -> (n: usize)
        requires
            old(self).wf(),
        ensures
            n == write_count(*old(self), x as int, y as int, content@),
            final(self).width() == old(self).width(),
            final(self).height() == old(self).height(),
            final(self).wf(),
            final(self).chars() == written_chars(*old(self), x as int, y as int, content@, n as int),
            final(self).colors() == written_colors(*old(self), x as int, y as int, color, n as int),
    {
        let ghost start = cell(self.w as int, x as int, y as int);
        if self.text.len() == 0 || x >= self.w || y >= self.h {
            assert(self.text@ =~= Seq::new(
                old(self).chars().len(),
                |k: int|
                    if start <= k < start + 0 {
                        content@[k - start]
                    } else {
                        old(self).chars()[k]
                    },
            ));
            assert(self.color@ =~= Seq::new(
                old(self).colors().len(),
                |k: int|
                    if start <= k < start + 0 {
                        color
                    } else {
                        old(self).colors()[k]
                    },
            ));
            return 0;
        }
        let mut first_line_len: usize = 0;
        while first_line_len < content.len() && content[first_line_len] != '\n'
            invariant
                first_line_len <= content@.len(),
                first_line_end(content@, 0) == first_line_end(content@, first_line_len as int),
            decreases content@.len() - first_line_len,
        {
            first_line_len = first_line_len + 1;
        }
        let room = self.w - x;
        let write_len = if first_line_len < room {
            first_line_len
        } else {
            room
        };
        proof {
            lemma_cell_in_grid(self.w as int, self.h as int, x as int, y as int);
        }
        let start_index = x + y * self.w;
        assert(start_index == start) by (nonlinear_arith)
            requires
                start_index == x + y * self.w,
                start == x + self.w * y,
        ;
        assert(start_index + write_len <= self.text@.len());
        let mut i: usize = 0;
        while i < write_len
            invariant
                i <= write_len <= content@.len(),
                old(self).wf(),
                start_index + write_len <= self.text@.len(),
                start_index == start,
                self.w == old(self).w,
                self.h == old(self).h,
                self.text@.len() == old(self).chars().len(),
                self.color@.len() == old(self).colors().len(),
                self.text@ == Seq::new(
                    old(self).chars().len(),
                    |k: int|
                        if start <= k < start + i {
                            content@[k - start]
                        } else {
                            old(self).chars()[k]
                        },
                ),
                self.color@ == Seq::new(
                    old(self).colors().len(),
                    |k: int|
                        if start <= k < start + i {
                            color
                        } else {
                            old(self).colors()[k]
                        },
                ),
            decreases write_len - i,
        {
            self.text.set(start_index + i, content[i]);
            self.color.set(start_index + i, color);
            i = i + 1;
            assert(self.text@ =~= Seq::new(
                old(self).chars().len(),
                |k: int|
                    if start <= k < start + i {
                        content@[k - start]
                    } else {
                        old(self).chars()[k]
                    },
            ));
            assert(self.color@ =~= Seq::new(
                old(self).colors().len(),
                |k: int|
                    if start <= k < start + i {
                        color
                    } else {
                        old(self).colors()[k]
                    },
            ));
        }
        write_len
    }

    /// Paints a rectangle of blank cells in the given color; what falls
    /// outside the grid is dropped.
    pub fn draw_rect(&mut self, color: Color, x: usize, y: usize, w: usize, h: usize)
        requires
            old(self).wf(),
        ensures
            final(self).width() == old(self).width(),
            final(self).height() == old(self).height(),
            final(self).wf(),
            forall|cx: int, cy: int|
                0 <= cx < old(self).width() && 0 <= cy < old(self).height() ==> #[trigger] painted(
                    final(self).chars(),
                    final(self).colors(),
                    old(self).chars(),
                    old(self).colors(),
                    old(self).width() as int,
                    cx,
                    cy,
                    color,
                    in_rect(x as int, y as int, w as int, h as int, cx, cy),
                ),
    {
        let gw = self.w;
        let gh = self.h;
        let rect_x = if x < gw {
            x
        } else {
            gw
        };
        let rect_y = if y < gh {
            y
        } else {
            gh
        };
        let rect_w = if w < gw - rect_x {
            w
        } else {
            gw - rect_x
        };
        let rect_h = if h < gh - rect_y {
            h
        } else {
            gh - rect_y
        };
        let ghost old_text = self.text@;
        let ghost old_color = self.color@;
        let mut i: usize = 0;
        while i < rect_h
            invariant
                i <= rect_h,
                rect_x == if x < gw {
                    x
                } else {
                    gw
                },
                rect_y == if y < gh {
                    y
                } else {
                    gh
                },
                rect_w == if w < gw - rect_x {
                    w
                } else {
                    (gw - rect_x) as usize
                },
                rect_h == if h < gh - rect_y {
                    h
                } else {
                    (gh - rect_y) as usize
                },
                rect_x + rect_w <= gw,
                rect_y + rect_h <= gh,
                gw == self.w == old(self).w,
                gh == self.h == old(self).h,
                old_text == old(self).chars(),
                old_color == old(self).colors(),
                self.wf(),
                forall|cx: int, cy: int|
                    0 <= cx < gw && 0 <= cy < gh ==> painted(
                        self.text@,
                        self.color@,
                        old_text,
                        old_color,
                        gw as int,
                        cx,
                        cy,
                        color,
                        #[trigger] rect_progress(rect_x as int, rect_w as int, rect_y as int, i as int, 0, cx, cy),
                    ),
            decreases rect_h - i,
        {
            let mut j: usize = 0;
            while j < rect_w
                invariant
                    i < rect_h,
                    j <= rect_w,
                    rect_x + rect_w <= gw,
                    rect_y + rect_h <= gh,
                    gw == self.w == old(self).w,
                    gh == self.h == old(self).h,
                    old_text == old(self).chars(),
                    old_color == old(self).colors(),
                    self.wf(),
                    forall|cx: int, cy: int|
                        0 <= cx < gw && 0 <= cy < gh ==> painted(
                            self.text@,
                            self.color@,
                            old_text,
                            old_color,
                            gw as int,
                            cx,
                            cy,
                            color,
                            #[trigger] rect_progress(rect_x as int, rect_w as int, rect_y as int, i as int, j as int, cx, cy),
                        ),
                decreases rect_w - j,
            {
                let cell_index = self.idx(rect_x + j, rect_y + i);
                let ghost pre_text = self.text@;
                let ghost pre_color = self.color@;
                self.text.set(cell_index, ' ');
                self.color.set(cell_index, color);
                proof {
                    assert forall|cx: int, cy: int| 0 <= cx < gw && 0 <= cy < gh implies painted(
                        self.text@,
                        self.color@,
                        old_text,
                        old_color,
                        gw as int,
                        cx,
                        cy,
                        color,
                        #[trigger] rect_progress(rect_x as int, rect_w as int, rect_y as int, i as int, j + 1, cx, cy),
                    ) by {
                        let k = cell(gw as int, cx, cy);
                        lemma_cell_in_grid(gw as int, gh as int, cx, cy);
                        assert(painted(
                            pre_text,
                            pre_color,
                            old_text,
                            old_color,
                            gw as int,
                            cx,
                            cy,
                            color,
                            rect_progress(rect_x as int, rect_w as int, rect_y as int, i as int, j as int, cx, cy),
                        ));
                        if k == cell_index {
                            lemma_cell_unique(gw as int, cx, cy, rect_x + j as int, rect_y + i as int);
                        } else {
                            assert(self.text@[k] == pre_text[k]);
                            assert(self.color@[k] == pre_color[k]);
                        }
                    }
                }
                j = j + 1;
            }
            proof {
                assert forall|cx: int, cy: int| 0 <= cx < gw && 0 <= cy < gh implies painted(
                    self.text@,
                    self.color@,
                    old_text,
                    old_color,
                    gw as int,
                    cx,
                    cy,
                    color,
                    #[trigger] rect_progress(rect_x as int, rect_w as int, rect_y as int, i + 1, 0, cx, cy),
                ) by {
                    assert(painted(
                        self.text@,
                        self.color@,
                        old_text,
                        old_color,
                        gw as int,
                        cx,
                        cy,
                        color,
                        rect_progress(rect_x as int, rect_w as int, rect_y as int, i as int, j as int, cx, cy),
                    ));
                }
            }
            i = i + 1;
        }
        proof {
            assert forall|cx: int, cy: int|
                0 <= cx < old(self).width() && 0 <= cy < old(self).height() implies #[trigger] painted(
                    self.chars(),
                    self.colors(),
                    old(self).chars(),
                    old(self).colors(),
                    old(self).width() as int,
                    cx,
                    cy,
                    color,
                    in_rect(x as int, y as int, w as int, h as int, cx, cy),
                ) by {
                assert(painted(
                    self.text@,
                    self.color@,
                    old_text,
                    old_color,
                    gw as int,
                    cx,
                    cy,
                    color,
                    rect_progress(rect_x as int, rect_w as int, rect_y as int, rect_h as int, 0, cx, cy),
                ));
                assert(rect_progress(rect_x as int, rect_w as int, rect_y as int, rect_h as int, 0, cx, cy)
                    == in_rect(x as int, y as int, w as int, h as int, cx, cy));
            }
        }
    }
}

/// Whether cell (`cx`, `cy`) lies in the rectangle at (`x`, `y`) of size
/// `w` by `h`.
pub open spec fn in_rect(x: int, y: int, w: int, h: int, cx: int, cy: int) -> bool {
    x <= cx < x + w && y <= cy < y + h
}

/// Whether cell (`cx`, `cy`) has been painted once the rows of the
/// rectangle before row `i` and the first `j` cells of row `i` are.
pub open spec fn rect_progress(
    rx: int,
    rw: int,
    ry: int,
    i: int,
    j: int,
    cx: int,
    cy: int,
) -> bool {
    (rx <= cx < rx + rw && ry <= cy < ry + i) || (cy == ry + i && rx <= cx < rx + j)
}

/// Cell (`cx`, `cy`) is blank in `color` when `done`, and as it was otherwise.
pub open spec fn painted(
    text: Seq<char>,
    colors: Seq<Color>,
    old_text: Seq<char>,
    old_colors: Seq<Color>,
    w: int,
    cx: int,
    cy: int,
    color: Color,
    done: bool,
) -> bool {
    let k = cell(w, cx, cy);
    &&& text[k] == if done {
        ' '
    } else {
        old_text[k]
    }
    &&& colors[k] == if done {
        color
    } else {
        old_colors[k]
    }
}

/// The commands and the final color after scanning the first `n` cells, in
/// order of columns and then lines within a column, from the reset color:
/// a cell that is the same in both grids adds nothing; a cell that differs
/// adds a color change when its color is not the current one, a move to the
/// cell, and its character.
pub open spec fn flush_scan(
    next_text: Seq<char>,
    next_color: Seq<Color>,
    shown_text: Seq<char>,
    shown_color: Seq<Color>,
    w: nat,
    h: nat,
    n: nat,
) -> (Seq<char>, Color)
    decreases n,
{
    if n == 0 || h == 0 {
        (seq![], Color::Reset)
    } else {
        let (out, cur) = flush_scan(next_text, next_color, shown_text, shown_color, w, h, (n - 1) as nat);
        let x = (n - 1) / h as int;
        let y = (n - 1) % h as int;
        let k = cell(w as int, x, y);
        if next_text[k] != shown_text[k] || next_color[k] != shown_color[k] {
            let out1 = if cur != next_color[k] {
                out + color_cmd(next_color[k])
            } else {
                out
            };
            (out1 + set_pos_cmd(x as nat, y as nat) + seq![next_text[k]], next_color[k])
        } else {
            (out, cur)
        }
    }
}

/// What `flush` sends: a clear when the size changed (after which the shown
/// grid counts as blank), the commands for every cell that differs, a color
/// reset unless the colors were left reset, and a move to the write cursor.
pub open spec fn flush_output(
    next: TerminalContent,
    shown: TerminalContent,
    cursor_x: nat,
    cursor_y: nat,
) -> Seq<char> {
    let w = next.width();
    let h = next.height();
    let resized = w != shown.width() || h != shown.height();
    let shown_text = if resized {
        Seq::new(w * h, |k: int| ' ')
    } else {
        shown.chars()
    };
    let shown_color = if resized {
        Seq::new(w * h, |k: int| Color::Default)
    } else {
        shown.colors()
    };
    let (out, cur) = flush_scan(next.chars(), next.colors(), shown_text, shown_color, w, h, w * h);
    (if resized {
        clear_cmd()
    } else {
        seq![]
    }) + out + (if cur != Color::Reset {
        color_cmd(Color::Reset)
    } else {
        seq![]
    }) + set_pos_cmd(cursor_x, cursor_y)
}

/// A scan over grids that agree on every cell sends nothing.
pub proof fn lemma_scan_same_silent(
    text: Seq<char>,
    color: Seq<Color>,
    w: nat,
    h: nat,
    n: nat,
)
    ensures
        flush_scan(text, color, text, color, w, h, n) == (Seq::<char>::empty(), Color::Reset),
    decreases n,
{
    if n > 0 && h > 0 {
        lemma_scan_same_silent(text, color, w, h, (n - 1) as nat);
    }
}

/// Whether the cell scanned `m`-th, columns first, differs between the grids.
pub open spec fn scanned_cell_changed(
    next_text: Seq<char>,
    next_color: Seq<Color>,
    shown_text: Seq<char>,
    shown_color: Seq<Color>,
    w: nat,
    h: nat,
    m: int,
) -> bool {
    let k = cell(w as int, m / h as int, m % h as int);
    next_text[k] != shown_text[k] || next_color[k] != shown_color[k]
}

/// Cells that are the same in the pending and the shown grid send nothing:
/// scanning over any stretch of them leaves the commands and the current
/// color as they were.
pub proof fn lemma_unchanged_cells_silent(
    next_text: Seq<char>,
    next_color: Seq<Color>,
    shown_text: Seq<char>,
    shown_color: Seq<Color>,
    w: nat,
    h: nat,
    n1: nat,
    n2: nat,
)
    requires
        n1 <= n2,
        forall|m: int|
            n1 <= m < n2 ==> !#[trigger] scanned_cell_changed(
                next_text,
                next_color,
                shown_text,
                shown_color,
                w,
                h,
                m,
            ),
    ensures
        flush_scan(next_text, next_color, shown_text, shown_color, w, h, n2) == flush_scan(
            next_text,
            next_color,
            shown_text,
            shown_color,
            w,
            h,
            n1,
        ),
    decreases n2 - n1,
{
    if n1 < n2 {
        let m = n2 - 1;
        assert(!scanned_cell_changed(next_text, next_color, shown_text, shown_color, w, h, m));
        lemma_unchanged_cells_silent(
            next_text,
            next_color,
            shown_text,
            shown_color,
            w,
            h,
            n1,
            (n2 - 1) as nat,
        );
    }
}

/// Each cell adds to the commands on its own: a cell that is the same in
/// both grids adds nothing, and one that differs adds a color change when its
/// color is not the current one, one move to that cell, and its character.
pub proof fn lemma_cell_commands(
    next_text: Seq<char>,
    next_color: Seq<Color>,
    shown_text: Seq<char>,
    shown_color: Seq<Color>,
    w: nat,
    h: nat,
    m: nat,
)
    requires
        h > 0,
    ensures
        ({
            let before = flush_scan(next_text, next_color, shown_text, shown_color, w, h, m);
            let after = flush_scan(next_text, next_color, shown_text, shown_color, w, h, m + 1);
            let x = (m as int) / (h as int);
            let y = (m as int) % (h as int);
            let k = cell(w as int, x, y);
            if scanned_cell_changed(next_text, next_color, shown_text, shown_color, w, h, m as int) {
                &&& after.0 == before.0 + (if before.1 != next_color[k] {
                    color_cmd(next_color[k])
                } else {
                    seq![]
                }) + set_pos_cmd(x as nat, y as nat) + seq![next_text[k]]
                &&& after.1 == next_color[k]
            } else {
                after == before
            }
        }),
{
    let before = flush_scan(next_text, next_color, shown_text, shown_color, w, h, m);
    let x = (m as int) / (h as int);
    let y = (m as int) % (h as int);
    let k = cell(w as int, x, y);
    if before.1 == next_color[k] {
        assert(before.0 + Seq::<char>::empty() =~= before.0);
    }
}

/// When the terminal already shows the pending grid, a flush sends no cell
/// and no color: only the move to the write cursor.
pub proof fn lemma_flush_unchanged_silent(
    next: TerminalContent,
    shown: TerminalContent,
    cursor_x: nat,
    cursor_y: nat,
)
    requires
        next.width() == shown.width(),
        next.height() == shown.height(),
        next.chars() == shown.chars(),
        next.colors() == shown.colors(),
    ensures
        flush_output(next, shown, cursor_x, cursor_y) == set_pos_cmd(cursor_x, cursor_y),
{
    lemma_scan_same_silent(
        next.chars(),
        next.colors(),
        next.width(),
        next.height(),
        next.width() * next.height(),
    );
    assert(Seq::<char>::empty() + Seq::<char>::empty() + Seq::<char>::empty() + set_pos_cmd(
        cursor_x,
        cursor_y,
    ) =~= set_pos_cmd(cursor_x, cursor_y));
}

/// The number of cells of a (width, height) size.
pub open spec fn area(size: (nat, nat)) -> nat {
    size.0 * size.1
}

/// The pending grid and the write column.
pub open spec fn screen(t: Terminal) -> Screen {
    (t.pending().chars(), t.pending().colors(), t.cursor().0 as int)
}

/// The effect of writing `content` in `color` at the write cursor: the
/// pending grid takes its first line, cut at the grid's edge, and the
/// cursor moves past what was written; nothing else changes.
pub open spec fn wrote(t0: Terminal, t1: Terminal, color: Color, content: Seq<char>) -> bool {
    let (cx, cy) = t0.cursor();
    let n = write_count(t0.pending(), cx as int, cy as int, content);
    &&& t1.wf()
    &&& t1.size() == t0.size()
    &&& t1.shown() == t0.shown()
    &&& t1.debug_trace() == t0.debug_trace()
    &&& t1.pending().width() == t0.pending().width()
    &&& t1.pending().height() == t0.pending().height()
    &&& t1.pending().chars() == written_chars(t0.pending(), cx as int, cy as int, content, n)
    &&& t1.pending().colors() == written_colors(t0.pending(), cx as int, cy as int, color, n)
    &&& t1.cursor() == ((cx + n) as nat, cy)
    &&& screen(t1) == put_run(t0.size().0, t0.size().1, screen(t0), cy as int, color, content)
}

/// Writing the terminal is done in grids, flushed as a batch of commands.
/// Also keeps a trace of the bytes read for the last input.
pub struct Terminal {
    pub w: usize,
    pub h: usize,
    pub cursor_x: usize,
    pub cursor_y: usize,
    next_content: TerminalContent,
    prev_content: TerminalContent,
    input_debug: String,
}

impl Terminal {
    /// The grid to be shown at the next flush.
    pub closed spec fn pending(&self) -> TerminalContent {
        self.next_content
    }

    /// The grid that the terminal shows.
    pub closed spec fn shown(&self) -> TerminalContent {
        self.prev_content
    }

    pub closed spec fn size(&self) -> (nat, nat) {
        (self.w as nat, self.h as nat)
    }

    /// The write cursor, as (column, line).
    pub closed spec fn cursor(&self) -> (nat, nat) {
        (self.cursor_x as nat, self.cursor_y as nat)
    }

    /// The trace of the bytes read for the last input.
    pub closed spec fn debug_trace(&self) -> Seq<char> {
        self.input_debug@
    }

    pub open spec fn wf(&self) -> bool {
        &&& self.pending().wf()
        &&& self.shown().wf()
        &&& self.pending().width() == self.size().0
        &&& self.pending().height() == self.size().1
    }

    /// A terminal of size zero, until `update_terminal_size` is given the
    /// terminal's answer.
    pub fn new() -> (r: Self)
        ensures
            r.wf(),
            r.size() == (0nat, 0nat),
            r.cursor() == (0nat, 0nat),
            r.pending().is_blank(0, 0),
            r.shown().is_blank(0, 0),
            r.debug_trace() == Seq::<char>::empty(),
    {
        Terminal {
            w: 0,
            h: 0,
            cursor_x: 0,
            cursor_y: 0,
            next_content: TerminalContent::new(0, 0),
            prev_content: TerminalContent::new(0, 0),
            input_debug: String::new(),
        }
    }

    /// The terminal's size, as (columns, lines).
    pub fn get_size(&self) -> (r: (usize, usize))
        ensures
            (r.0 as nat, r.1 as nat) == self.size(),
    {
        (self.w, self.h)
    }

    /// Decodes the bytes read so far for one input, and keeps them in the
    /// debug trace. `None` means a second byte must be read first.
    pub fn get_input(&mut self, consumed: &[u8]) -> (r: Option<Input>)
        requires
            input_bytes(consumed@),
        ensures
            r == decode(consumed@),
            final(self).debug_trace() == trace(consumed@),
            final(self).pending() == old(self).pending(),
            final(self).shown() == old(self).shown(),
            final(self).size() == old(self).size(),
            final(self).cursor() == old(self).cursor(),
    {
        decode_input(&mut self.input_debug, consumed)
    }

    /// The trace of the bytes read for the last input.
    pub fn get_input_debug(&self) -> (r: &str)
        ensures
            r@ == self.debug_trace(),
    {
        self.input_debug.as_str()
    }

    /// Writes text at the write cursor in the given color, up to its first
    /// newline and the edge of the grid, and moves the cursor past it.
    pub fn write(&mut self, color: Color, content: &str)
        requires
            old(self).wf(),
        ensures
            wrote(*old(self), *final(self), color, content@),
    {
        let chars = chars_of(content);
        self.write_chars(color, chars.as_slice());
    }

    /// Writes characters at the write cursor in the given color, as `write`
    /// does.
    pub fn write_chars(&mut self, color: Color, content: &[char])
        requires
            old(self).wf(),
        ensures
            wrote(*old(self), *final(self), color, content@),
    {
        let len_written = self.next_content.write(self.cursor_x, self.cursor_y, color, content);
        self.cursor_x = self.cursor_x + len_written;
    }

    /// Paints a rectangle of the pending grid in the given color.
    pub fn draw_rect(&mut self, color: Color, x: usize, y: usize, w: usize, h: usize)
        requires
            old(self).wf(),
        ensures
            final(self).wf(),
            final(self).size() == old(self).size(),
            final(self).shown() == old(self).shown(),
            final(self).cursor() == old(self).cursor(),
            final(self).debug_trace() == old(self).debug_trace(),
            final(self).pending().width() == old(self).pending().width(),
            final(self).pending().height() == old(self).pending().height(),
            forall|cx: int, cy: int|
                0 <= cx < old(self).size().0 && 0 <= cy < old(self).size().1 ==> #[trigger] painted(
                    final(self).pending().chars(),
                    final(self).pending().colors(),
                    old(self).pending().chars(),
                    old(self).pending().colors(),
                    old(self).size().0 as int,
                    cx,
                    cy,
                    color,
                    in_rect(x as int, y as int, w as int, h as int, cx, cy),
                ),
            (final(self).pending().chars(), final(self).pending().colors()) == fill_rect(
                old(self).size().0,
                old(self).pending().chars(),
                old(self).pending().colors(),
                color,
                x as int,
                y as int,
                w as int,
                h as int,
            ),
    {
        self.next_content.draw_rect(color, x, y, w, h);
        proof {
            let gw = self.w as int;
            let gh = self.h as int;
            let f = fill_rect(
                old(self).size().0,
                old(self).pending().chars(),
                old(self).pending().colors(),
                color,
                x as int,
                y as int,
                w as int,
                h as int,
            );
            assert forall|k: int| 0 <= k < gw * gh implies self.next_content.text@[k] == f.0[k]
                && self.next_content.color@[k] == f.1[k] by {
                assert(gw > 0) by (nonlinear_arith)
                    requires
                        0 <= k < gw * gh,
                        0 <= gw,
                        0 <= gh,
                ;
                let cx = k % gw;
                let cy = k / gw;
                vstd::arithmetic::div_mod::lemma_fundamental_div_mod(k, gw);
                vstd::arithmetic::div_mod::lemma_mod_bound(k, gw);
                assert(0 <= cy < gh) by (nonlinear_arith)
                    requires
                        k == gw * cy + cx,
                        0 <= cx < gw,
                        0 <= k < gw * gh,
                ;
                assert(cell(gw, cx, cy) == k);
                assert(painted(
                    self.next_content.text@,
                    self.next_content.color@,
                    old(self).pending().chars(),
                    old(self).pending().colors(),
                    gw,
                    cx,
                    cy,
                    color,
                    in_rect(x as int, y as int, w as int, h as int, cx, cy),
                ));
            }
            assert(self.next_content.text@ =~= f.0);
            assert(self.next_content.color@ =~= f.1);
        }
    }

    /// Returns the commands that bring the terminal to the pending grid, and
    /// records that it shows it.
    pub fn flush(&mut self) -> (output: Vec<char>)
        requires
            old(self).wf(),
        ensures
            output@ == flush_output(
                old(self).pending(),
                old(self).shown(),
                old(self).cursor().0,
                old(self).cursor().1,
            ),
            final(self).shown().width() == old(self).pending().width(),
            final(self).shown().height() == old(self).pending().height(),
            final(self).shown().chars() == old(self).pending().chars(),
            final(self).shown().colors() == old(self).pending().colors(),
            final(self).pending() == old(self).pending(),
            final(self).size() == old(self).size(),
            final(self).cursor() == old(self).cursor(),
            final(self).debug_trace() == old(self).debug_trace(),
            final(self).wf(),
    {
        let w = self.next_content.w;
        let h = self.next_content.h;
        let mut output: Vec<char> = Vec::new();
        if w != self.prev_content.w || h != self.prev_content.h {
            self.prev_content.resize_and_reset(w, h);
            output = clear();
        }
        let ghost prefix = output@;
        let ghost nt = self.next_content.text@;
        let ghost nc = self.next_content.color@;
        let ghost pt = self.prev_content.text@;
        let ghost pc = self.prev_content.color@;
        let mut current = Color::Reset;
        let mut i: usize = 0;
        while i < w
            invariant
                i <= w,
                w == self.next_content.w,
                h == self.next_content.h,
                self.next_content == old(self).next_content,
                self.w == old(self).w && self.h == old(self).h,
                self.cursor_x == old(self).cursor_x && self.cursor_y == old(self).cursor_y,
                self.input_debug == old(self).input_debug,
                self.next_content.wf(),
                nt == self.next_content.text@,
                nc == self.next_content.color@,
                self.prev_content.w == w && self.prev_content.h == h,
                self.prev_content.wf(),
                pt.len() == w * h && pc.len() == w * h,
                (output@, current) == (
                    prefix + flush_scan(nt, nc, pt, pc, w as nat, h as nat, (i * h) as nat).0,
                    flush_scan(nt, nc, pt, pc, w as nat, h as nat, (i * h) as nat).1,
                ),
                i * h <= w * h,
                forall|cx: int, cy: int|
                    0 <= cx < w && 0 <= cy < h ==> {
                        let k = cell(w as int, cx, cy);
                        &&& #[trigger] self.prev_content.text@[cell(w as int, cx, cy)] == if cx
                            < i {
                            nt[k]
                        } else {
                            pt[k]
                        }
                        &&& self.prev_content.color@[k] == if cx < i {
                            nc[k]
                        } else {
                            pc[k]
                        }
                    },
            decreases w - i,
        {
            let mut j: usize = 0;
            proof {
                assert((i + 1) * h <= w * h) by (nonlinear_arith)
                    requires
                        i < w,
                ;
                assert((i + 1) * h == i * h + h) by (nonlinear_arith);
            }
            while j < h
                invariant
                    i < w,
                    j <= h,
                    w == self.next_content.w,
                    h == self.next_content.h,
                    self.next_content == old(self).next_content,
                    self.w == old(self).w && self.h == old(self).h,
                    self.cursor_x == old(self).cursor_x && self.cursor_y == old(self).cursor_y,
                    self.input_debug == old(self).input_debug,
                    self.next_content.wf(),
                    nt == self.next_content.text@,
                    nc == self.next_content.color@,
                    self.prev_content.w == w && self.prev_content.h == h,
                    self.prev_content.wf(),
                    pt.len() == w * h && pc.len() == w * h,
                    i * h + h <= w * h,
                    (output@, current) == (
                        prefix + flush_scan(nt, nc, pt, pc, w as nat, h as nat, (i * h + j) as nat).0,
                        flush_scan(nt, nc, pt, pc, w as nat, h as nat, (i * h + j) as nat).1,
                    ),
                    forall|cx: int, cy: int|
                        0 <= cx < w && 0 <= cy < h ==> {
                            let k = cell(w as int, cx, cy);
                            let done = cx < i || (cx == i && cy < j);
                            &&& #[trigger] self.prev_content.text@[cell(w as int, cx, cy)] == if done {
                                nt[k]
                            } else {
                                pt[k]
                            }
                            &&& self.prev_content.color@[k] == if done {
                                nc[k]
                            } else {
                                pc[k]
                            }
                        },
                decreases h - j,
            {
                let k = self.next_content.idx(i, j);
                proof {
                    lemma_fundamental_div_mod_converse((i * h + j) as int, h as int, i as int, j as int);
                    assert(self.prev_content.text@[cell(w as int, i as int, j as int)] == pt[k as int]);
                }
                let next_ch = self.next_content.text[k];
                let next_color = self.next_content.color[k];
                let prev_ch = self.prev_content.text[k];
                let prev_color = self.prev_content.color[k];
                let ghost pre_text = self.prev_content.text@;
                let ghost pre_color = self.prev_content.color@;
                if next_ch != prev_ch || next_color != prev_color {
                    if current != next_color {
                        next_color.push_ansi_command(&mut output);
                        current = next_color;
                    }
                    push_set_pos(&mut output, i, j);
                    output.push(next_ch);
                    self.prev_content.text.set(k, next_ch);
                    self.prev_content.color.set(k, next_color);
                }
                proof {
                    let n1 = (i * h + j + 1) as nat;
                    assert((n1 - 1) / (h as int) == i as int);
                    assert((n1 - 1) % (h as int) == j as int);
                    assert(output@ =~= prefix + flush_scan(nt, nc, pt, pc, w as nat, h as nat, n1).0);
                    assert forall|cx: int, cy: int| 0 <= cx < w && 0 <= cy < h implies {
                        let k2 = cell(w as int, cx, cy);
                        let done = cx < i || (cx == i && cy < j + 1);
                        &&& #[trigger] self.prev_content.text@[cell(w as int, cx, cy)] == if done {
                            nt[k2]
                        } else {
                            pt[k2]
                        }
                        &&& self.prev_content.color@[k2] == if done {
                            nc[k2]
                        } else {
                            pc[k2]
                        }
                    } by {
                        let k2 = cell(w as int, cx, cy);
                        lemma_cell_in_grid(w as int, h as int, cx, cy);
                        assert(pre_text[k2] == pre_text[k2]);
                        if k2 == k {
                            lemma_cell_unique(w as int, cx, cy, i as int, j as int);
                        } else {
                            assert(self.prev_content.text@[k2] == pre_text[k2]);
                            assert(self.prev_content.color@[k2] == pre_color[k2]);
                        }
                    }
                }
                j = j + 1;
            }
            i = i + 1;
        }
        if current != Color::Reset {
            Color::Reset.push_ansi_command(&mut output);
        }
        push_set_pos(&mut output, self.cursor_x, self.cursor_y);
        proof {
            assert(i * h == w * h);
            assert forall|k: int| 0 <= k < w * h implies self.prev_content.text@[k] == nt[k]
                && self.prev_content.color@[k] == nc[k] by {
                assert(w > 0) by (nonlinear_arith)
                    requires
                        0 <= k < w * h,
                ;
                let cx = k % (w as int);
                let cy = k / (w as int);
                vstd::arithmetic::div_mod::lemma_fundamental_div_mod(k, w as int);
                vstd::arithmetic::div_mod::lemma_mod_bound(k, w as int);
                assert(0 <= cy < h) by (nonlinear_arith)
                    requires
                        k == w * cy + cx,
                        0 <= cx < w,
                        0 <= k < w * h,
                ;
                assert(cell(w as int, cx, cy) == k);
                assert(self.prev_content.text@[cell(w as int, cx, cy)] == nt[k]);
            }
            assert(self.prev_content.text@ =~= nt);
            assert(self.prev_content.color@ =~= nc);
        }
        output
    }

    /// Blanks the pending grid.
    pub fn clear(&mut self)
        requires
            old(self).wf(),
        ensures
            final(self).wf(),
            final(self).pending().is_blank(old(self).size().0, old(self).size().1),
            final(self).shown() == old(self).shown(),
            final(self).size() == old(self).size(),
            final(self).cursor() == old(self).cursor(),
            final(self).debug_trace() == old(self).debug_trace(),
    {
        self.next_content.reset();
    }

    /// Sets the write cursor; coordinates are zero-based.
    pub fn set_cursor_pos(&mut self, x: usize, y: usize)
        ensures
            final(self).cursor() == (x as nat, y as nat),
            final(self).pending() == old(self).pending(),
            final(self).shown() == old(self).shown(),
            final(self).size() == old(self).size(),
            final(self).debug_trace() == old(self).debug_trace(),
    {
        self.cursor_x = x;
        self.cursor_y = y;
    }

    /// Takes the size from the terminal's answer to the size query, and
    /// makes the pending grid blank at that size. An answer that is not of
    /// the expected shape, or a size too large to store, changes nothing and
    /// gives `false`.
    pub fn update_terminal_size(&mut self, response: &[u8]) -> (ok: bool)
        requires
            old(self).wf(),
        ensures
            final(self).wf(),
            ok == (pos_response(response@) is Some && area(pos_response(response@)->0)
                <= usize::MAX),
            ok ==> final(self).size() == pos_response(response@)->0 && final(self).pending().is_blank(
                final(self).size().0,
                final(self).size().1,
            ),
            !ok ==> *final(self) == *old(self),
            final(self).shown() == old(self).shown(),
            final(self).cursor() == old(self).cursor(),
            final(self).debug_trace() == old(self).debug_trace(),
    {
        match parse_size_response(response) {
            Some((w, h)) => {
                if w > 0 && h > usize::MAX / w {
                    proof {
                        assert(w * h > usize::MAX) by (nonlinear_arith)
                            requires
                                w > 0,
                                h > usize::MAX / w,
                        ;
                    }
                    return false;
                }
                proof {
                    assert(w * h <= usize::MAX) by (nonlinear_arith)
                        requires
                            w == 0 || h <= usize::MAX / w,
                    ;
                }
                self.w = w;
                self.h = h;
                self.next_content.resize_and_reset(w, h);
                true
            },
            None => false,
        }
    }
}

} // verus!
