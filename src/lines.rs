//! The mathematical model of a text split into lines, and of the
//! (column, line) position of an offset within it.
use vstd::prelude::*;

verus! {

/// No line separator in `t[a..b)`.
pub open spec fn no_newline(t: Seq<char>, a: int, b: int) -> bool {
    forall|k: int| a <= k < b ==> #[trigger] t[k] != '\n'
}

/// The lines of `t[a..]`, where the current line started at `a` and the
/// scan for its end has reached `i`. Each line is a half-open range of
/// offsets that excludes its separator.
pub open spec fn lines_scan(t: Seq<char>, a: int, i: int) -> Seq<(int, int)>
    decreases t.len() - i,
{
    if i >= t.len() {
        seq![(a, t.len() as int)]
    } else if t[i] == '\n' {
        seq![(a, i)] + lines_scan(t, i + 1, i + 1)
    } else {
        lines_scan(t, a, i + 1)
    }
}

/// The lines of `t`: the text split on `\n`. An empty text has no lines;
/// a text that ends with `\n` has an empty last line.
pub open spec fn line_ranges(t: Seq<char>) -> Seq<(int, int)> {
    if t.len() == 0 {
        seq![]
    } else {
        lines_scan(t, 0, 0)
    }
}

/// The text of each line, joined back with `\n` between them.
pub open spec fn join_lines(t: Seq<char>, ls: Seq<(int, int)>) -> Seq<char>
    decreases ls.len(),
{
    if ls.len() == 0 {
        seq![]
    } else if ls.len() == 1 {
        t.subrange(ls[0].0, ls[0].1)
    } else {
        t.subrange(ls[0].0, ls[0].1) + seq!['\n'] + join_lines(t, ls.drop_first())
    }
}

/// The (column, line) position of offset `i` in `t`, for `0 <= i <= t.len()`:
/// a `\n` starts a new line at column 0, any other character moves one column on.
pub open spec fn cursor_of(t: Seq<char>, i: int) -> (int, int)
    decreases i,
{
    if i <= 0 {
        (0, 0)
    } else {
        let p = cursor_of(t, i - 1);
        if t[i - 1] == '\n' {
            (0, p.1 + 1)
        } else {
            (p.0 + 1, p.1)
        }
    }
}

/// The offset of column `x` on line `y`: the column is clamped to the end of
/// the line, and a line past the last one means the end of the text.
pub open spec fn offset_of(t: Seq<char>, x: int, y: int) -> int {
    let ls = line_ranges(t);
    if 0 <= y < ls.len() {
        let r = ls[y];
        if x < r.1 - r.0 {
            r.0 + x
        } else {
            r.1
        }
    } else {
        t.len() as int
    }
}

/// The length of line `n`, or 0 past the last line.
pub open spec fn line_len_of(t: Seq<char>, n: int) -> int {
    let ls = line_ranges(t);
    if 0 <= n < ls.len() {
        ls[n].1 - ls[n].0
    } else {
        0
    }
}

/// One line range, well placed in `t`: in bounds, free of separators, and
/// ended by a separator or by the end of the text.
pub open spec fn line_ok(t: Seq<char>, r: (int, int)) -> bool {
    &&& 0 <= r.0 <= r.1 <= t.len()
    &&& no_newline(t, r.0, r.1)
    &&& r.1 < t.len() ==> t[r.1] == '\n'
}

/// A sequence of line ranges that covers `t` from its first start to the end,
/// each one starting just after the separator that ended the previous one.
pub open spec fn lines_ok(t: Seq<char>, ls: Seq<(int, int)>) -> bool {
    &&& ls.len() >= 1
    &&& forall|k: int| 0 <= k < ls.len() ==> line_ok(t, #[trigger] ls[k])
    &&& forall|k: int|
        0 <= k < ls.len() - 1 ==> (#[trigger] ls[k]).1 < t.len() && ls[k + 1].0 == ls[k].1 + 1
    &&& ls[ls.len() - 1].1 == t.len()
}

/// Scanning over characters other than `\n` does not change the lines found.
pub proof fn lemma_scan_skip(t: Seq<char>, a: int, i: int, j: int)
    requires
        0 <= i <= j <= t.len(),
        no_newline(t, i, j),
    ensures
        lines_scan(t, a, i) == lines_scan(t, a, j),
    decreases j - i,
{
    if i < j {
        assert(t[i] != '\n');
        lemma_scan_skip(t, a, i + 1, j);
    }
}

/// The lines found by a scan are well placed, start where the scan's line
/// started, and are at most one more than the characters left.
pub proof fn lemma_scan_ok(t: Seq<char>, a: int, i: int)
    requires
        0 <= a <= i <= t.len(),
        no_newline(t, a, i),
    ensures
        lines_ok(t, lines_scan(t, a, i)),
        lines_scan(t, a, i)[0].0 == a,
        lines_scan(t, a, i).len() <= t.len() - a + 1,
    decreases t.len() - i,
{
    let ls = lines_scan(t, a, i);
    if i >= t.len() {
        assert(line_ok(t, ls[0]));
    } else if t[i] == '\n' {
        let rest = lines_scan(t, i + 1, i + 1);
        lemma_scan_ok(t, i + 1, i + 1);
        assert(ls == seq![(a, i)] + rest);
        assert(ls[0] == (a, i));
        assert forall|k: int| 0 <= k < ls.len() implies line_ok(t, #[trigger] ls[k]) by {
            if k > 0 {
                assert(ls[k] == rest[k - 1]);
            }
        }
        assert forall|k: int| 0 <= k < ls.len() - 1 implies (#[trigger] ls[k]).1 < t.len()
            && ls[k + 1].0 == ls[k].1 + 1 by {
            if k > 0 {
                assert(ls[k] == rest[k - 1]);
                assert(ls[k + 1] == rest[k]);
            } else {
                assert(ls[1] == rest[0]);
            }
        }
        assert(ls[ls.len() - 1] == rest[rest.len() - 1]);
    } else {
        lemma_scan_ok(t, a, i + 1);
    }
}

/// The lines of a non-empty text are well placed and the first starts at 0.
pub proof fn lemma_lines_ok(t: Seq<char>)
    requires
        t.len() > 0,
    ensures
        lines_ok(t, line_ranges(t)),
        line_ranges(t)[0].0 == 0,
        line_ranges(t).len() <= t.len() + 1,
{
    lemma_scan_ok(t, 0, 0);
}

/// Where offset `i` falls: on line `cursor_of(t, i).1`, at that line's start
/// plus the column.
pub proof fn lemma_cursor_on_line(t: Seq<char>, i: int)
    requires
        t.len() > 0,
        0 <= i <= t.len(),
    ensures
        0 <= cursor_of(t, i).0,
        0 <= cursor_of(t, i).1 < line_ranges(t).len(),
        line_ranges(t)[cursor_of(t, i).1].0 + cursor_of(t, i).0 == i,
        i <= line_ranges(t)[cursor_of(t, i).1].1,
    decreases i,
{
    let ls = line_ranges(t);
    lemma_lines_ok(t);
    if i > 0 {
        lemma_cursor_on_line(t, i - 1);
        let p = cursor_of(t, i - 1);
        assert(line_ok(t, ls[p.1]));
        if t[i - 1] == '\n' {
            assert(i - 1 == ls[p.1].1);
            if p.1 == ls.len() - 1 {
                assert(false);
            }
            assert(ls[p.1 + 1].0 == ls[p.1].1 + 1);
            assert(line_ok(t, ls[p.1 + 1]));
        } else {
            if i - 1 == ls[p.1].1 {
                assert(false);
            }
        }
    }
}

/// Offsets and positions convert both ways: the offset of the position of
/// `i` is `i`.
pub proof fn lemma_cursor_round_trip(t: Seq<char>, i: int)
    requires
        0 <= i <= t.len(),
    ensures
        offset_of(t, cursor_of(t, i).0, cursor_of(t, i).1) == i,
{
    if t.len() > 0 {
        lemma_cursor_on_line(t, i);
    }
}

/// The position of an offset is never further than the offset itself.
pub proof fn lemma_cursor_bound(t: Seq<char>, i: int)
    requires
        0 <= i,
    ensures
        0 <= cursor_of(t, i).0 <= i,
        0 <= cursor_of(t, i).1 <= i,
    decreases i,
{
    if i > 0 {
        lemma_cursor_bound(t, i - 1);
    }
}

/// Joining the lines found by a scan gives back the text from the scan's start.
pub proof fn lemma_join_scan(t: Seq<char>, a: int, i: int)
    requires
        0 <= a <= i <= t.len(),
    ensures
        join_lines(t, lines_scan(t, a, i)) == t.subrange(a, t.len() as int),
    decreases t.len() - i,
{
    let ls = lines_scan(t, a, i);
    if i >= t.len() {
    } else if t[i] == '\n' {
        let rest = lines_scan(t, i + 1, i + 1);
        lemma_join_scan(t, i + 1, i + 1);
        lemma_scan_ok(t, i + 1, i + 1);
        assert(ls.drop_first() == rest);
        assert(t.subrange(a, t.len() as int) =~= t.subrange(a, i) + seq!['\n'] + t.subrange(
            i + 1,
            t.len() as int,
        ));
    } else {
        lemma_join_scan(t, a, i + 1);
    }
}

/// Splitting a text into lines and joining them with `\n` gives the text back.
pub proof fn lemma_line_round_trip(t: Seq<char>)
    ensures
        join_lines(t, line_ranges(t)) == t,
{
    if t.len() > 0 {
        lemma_join_scan(t, 0, 0);
        assert(t.subrange(0, t.len() as int) =~= t);
    } else {
        assert(t =~= seq![]);
    }
}

} // verus!
