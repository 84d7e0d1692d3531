//! Text split into runs of color, where a highlight recolors part of the
//! text and splits the runs it crosses.
use vstd::prelude::*;

use crate::chars_of;
use crate::colors::{color_cmd, Color};
use crate::document::string_of;
use std::ops::Range;

verus! {

/// A range of the text in one color.
pub struct ColoredRun {
    pub range: Range<usize>,
    pub color: Color,
}

/// A text and the runs of color that it is drawn in.
pub struct ColoredText {
    source_text: Vec<char>,
    source_range: Range<usize>,
    runs: Vec<ColoredRun>,
}

/// A run as (start, end, color).
pub open spec fn run_view(r: ColoredRun) -> (int, int, Color) {
    (r.range.start as int, r.range.end as int, r.color)
}

/// The runs that a highlight of `b` in color `c` makes of run `r`: where they
/// overlap, the part before `b`, the part inside it in `c`, and the part
/// after it, each only if not empty; otherwise `r` as it is.
pub open spec fn split_run(r: (int, int, Color), b: (int, int), c: Color) -> Seq<(int, int, Color)> {
    if r.0 < b.1 && r.1 > b.0 {
        let before_end = if b.0 > r.0 {
            b.0
        } else {
            r.0
        };
        let within_end = if b.1 < r.1 {
            b.1
        } else {
            r.1
        };
        (if before_end > r.0 {
            seq![(r.0, before_end, r.2)]
        } else {
            seq![]
        }) + (if within_end > before_end {
            seq![(before_end, within_end, c)]
        } else {
            seq![]
        }) + (if r.1 > within_end {
            seq![(within_end, r.1, r.2)]
        } else {
            seq![]
        })
    } else {
        seq![r]
    }
}

/// The runs after a highlight: each run split in turn.
pub open spec fn highlighted(runs: Seq<(int, int, Color)>, b: (int, int), c: Color) -> Seq<
    (int, int, Color),
>
    decreases runs.len(),
{
    if runs.len() == 0 {
        seq![]
    } else {
        highlighted(runs.drop_last(), b, c) + split_run(runs.last(), b, c)
    }
}

/// Each run's color command followed by its text.
pub open spec fn colored(text: Seq<char>, runs: Seq<(int, int, Color)>) -> Seq<char>
    decreases runs.len(),
{
    if runs.len() == 0 {
        seq![]
    } else {
        let r = runs.last();
        colored(text, runs.drop_last()) + color_cmd(r.2) + text.subrange(r.0, r.1)
    }
}

/// Each run lies within a text of length `len`.
pub open spec fn runs_within(runs: Seq<(int, int, Color)>, len: int) -> bool {
    forall|k: int| 0 <= k < runs.len() ==> 0 <= (#[trigger] runs[k]).0 <= runs[k].1 <= len
}

impl ColoredText {
    /// The text.
    pub closed spec fn text(&self) -> Seq<char> {
        self.source_text@
    }

    /// The runs, in order.
    pub closed spec fn runs(&self) -> Seq<(int, int, Color)> {
        self.runs@.map_values(|r: ColoredRun| run_view(r))
    }

    pub open spec fn wf(&self) -> bool {
        runs_within(self.runs(), self.text().len() as int)
    }

    /// The text in one run of `base_color`.
    pub fn new(text: String, range: Range<usize>, base_color: Color) -> (r: Self)
        ensures
            r.text() == text@,
            r.runs() == seq![(0int, text@.len() as int, base_color)],
            r.wf(),
    {
        let chars = chars_of(text.as_str());
        let n = chars.len();
        let runs = vec![ColoredRun { range: Range { start: 0, end: n }, color: base_color }];
        let r = Self { source_text: chars, source_range: range, runs };
        assert(r.runs() =~= seq![(0int, text@.len() as int, base_color)]);
        r
    }

    /// The text with each run's color command before it.
    pub fn to_colored_str(&self) -> (r: String)
        requires
            self.wf(),
        ensures
            r@ == colored(self.text(), self.runs()),
    {
        let mut out: Vec<char> = Vec::new();
        let mut i: usize = 0;
        while i < self.runs.len()
            invariant
                i <= self.runs@.len(),
                self.wf(),
                out@ == colored(self.text(), self.runs().subrange(0, i as int)),
            decreases self.runs@.len() - i,
        {
            let run = &self.runs[i];
            assert(self.runs()[i as int] == run_view(*run));
            assert(self.runs().subrange(0, i + 1).drop_last() =~= self.runs().subrange(0, i as int));
            run.color.push_ansi_command(&mut out);
            let mut k = run.range.start;
            while k < run.range.end
                invariant
                    run.range.start <= k <= run.range.end <= self.source_text@.len(),
                    out@ == colored(self.text(), self.runs().subrange(0, i as int)) + color_cmd(
                        run.color,
                    ) + self.source_text@.subrange(run.range.start as int, k as int),
                decreases run.range.end - k,
            {
                out.push(self.source_text[k]);
                k = k + 1;
                assert(out@ =~= colored(self.text(), self.runs().subrange(0, i as int)) + color_cmd(
                    run.color,
                ) + self.source_text@.subrange(run.range.start as int, k as int));
            }
            i = i + 1;
        }
        assert(self.runs().subrange(0, self.runs@.len() as int) =~= self.runs());
        string_of(out.as_slice())
    }

    /// Recolors `new_range` in `new_color`, splitting the runs it crosses.
    pub fn highlight(&mut self, new_range: Range<usize>, new_color: Color)
        requires
            old(self).wf(),
        ensures
            final(self).text() == old(self).text(),
            final(self).runs() == highlighted(
                old(self).runs(),
                (new_range.start as int, new_range.end as int),
                new_color,
            ),
            final(self).wf(),
    {
        let mut new_runs: Vec<ColoredRun> = Vec::new();
        let ghost b = (new_range.start as int, new_range.end as int);
        let ghost old_runs = self.runs();
        let mut i: usize = 0;
        while i < self.runs.len()
            invariant
                i <= self.runs@.len(),
                self.wf(),
                self.runs() == old_runs,
                b == (new_range.start as int, new_range.end as int),
                new_runs@.map_values(|r: ColoredRun| run_view(r)) == highlighted(
                    old_runs.subrange(0, i as int),
                    b,
                    new_color,
                ),
                runs_within(new_runs@.map_values(|r: ColoredRun| run_view(r)), self.text().len() as int),
            decreases self.runs@.len() - i,
        {
            let existing_run = &self.runs[i];
            let ghost pre = new_runs@.map_values(|r: ColoredRun| run_view(r));
            let ghost rv = run_view(*existing_run);
            assert(old_runs[i as int] == rv);
            assert(old_runs.subrange(0, i + 1).drop_last() =~= old_runs.subrange(0, i as int));
            assert(old_runs.subrange(0, i + 1).last() == rv);
            let a_start = existing_run.range.start;
            let a_end = existing_run.range.end;
            if a_start < new_range.end && a_end > new_range.start {
                let before_end = if new_range.start > a_start {
                    new_range.start
                } else {
                    a_start
                };
                let within_end = if new_range.end < a_end {
                    new_range.end
                } else {
                    a_end
                };
                let ghost piece_before = if before_end > a_start {
                    seq![(a_start as int, before_end as int, rv.2)]
                } else {
                    Seq::<(int, int, Color)>::empty()
                };
                let ghost piece_within = if within_end > before_end {
                    seq![(before_end as int, within_end as int, new_color)]
                } else {
                    Seq::<(int, int, Color)>::empty()
                };
                let ghost piece_after = if a_end > within_end {
                    seq![(within_end as int, a_end as int, rv.2)]
                } else {
                    Seq::<(int, int, Color)>::empty()
                };
                if before_end > a_start {
                    new_runs.push(
                        ColoredRun { range: Range { start: a_start, end: before_end }, color: existing_run.color },
                    );
                }
                assert(new_runs@.map_values(|r: ColoredRun| run_view(r)) =~= pre + piece_before);
                if within_end > before_end {
                    new_runs.push(
                        ColoredRun { range: Range { start: before_end, end: within_end }, color: new_color },
                    );
                }
                assert(new_runs@.map_values(|r: ColoredRun| run_view(r)) =~= pre + piece_before + piece_within);
                if a_end > within_end {
                    new_runs.push(
                        ColoredRun { range: Range { start: within_end, end: a_end }, color: existing_run.color },
                    );
                }
                assert(new_runs@.map_values(|r: ColoredRun| run_view(r)) =~= pre + piece_before + piece_within + piece_after);
                assert(split_run(rv, b, new_color) == piece_before + piece_within + piece_after);
                assert(pre + piece_before + piece_within + piece_after =~= pre + (piece_before + piece_within + piece_after));
            } else {
                new_runs.push(
                    ColoredRun { range: Range { start: a_start, end: a_end }, color: existing_run.color },
                );
            }
            assert(new_runs@.map_values(|r: ColoredRun| run_view(r)) =~= pre + split_run(
                rv,
                b,
                new_color,
            ));
            i = i + 1;
        }
        assert(old_runs.subrange(0, old_runs.len() as int) =~= old_runs);
        self.runs = new_runs;
    }
}

} // verus!
