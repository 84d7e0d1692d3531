//! A block of text being edited, with an insertion point, line iteration,
//! conversion between offsets and (column, line) positions, and the editing
//! and cursor-movement utilities built on them.
use vstd::prelude::*;

use crate::chars_of;
use crate::lines::{
    cursor_of, lemma_cursor_bound, lemma_lines_ok, line_len_of, line_ok, line_ranges,
    lines_scan, lemma_scan_skip, no_newline, offset_of,
};

verus! {

/// Unicode's White_Space property, which `char::is_whitespace` tests.
pub open spec fn is_white_space(c: char) -> bool {
    ||| c == ' '
    ||| ('\t' <= c && c <= '\r')
    ||| c == '\u{85}'
    ||| c == '\u{A0}'
    ||| c == '\u{1680}'
    ||| ('\u{2000}' <= c && c <= '\u{200A}')
    ||| c == '\u{2028}'
    ||| c == '\u{2029}'
    ||| c == '\u{202F}'
    ||| c == '\u{205F}'
    ||| c == '\u{3000}'
}

/// Whether `c` has Unicode's White_Space property.
fn is_whitespace(c: char) -> (r: bool)
    ensures
        r == is_white_space(c),
{
    c == ' ' || ('\t' <= c && c <= '\r') || c == '\u{85}' || c == '\u{A0}' || c == '\u{1680}'
        || ('\u{2000}' <= c && c <= '\u{200A}') || c == '\u{2028}' || c == '\u{2029}' || c
        == '\u{202F}' || c == '\u{205F}' || c == '\u{3000}'
}

/// Relies on `String`'s `FromIterator<char>`: the string holds the characters
/// in order.
#[verifier::external_body]
pub(crate) fn string_of(cs: &[char]) -> (r: String)
    ensures
        r@ == cs@,
{
    cs.iter().collect()
}

/// Contains a text being edited, and keeps track of an insertion point as
/// edits are made. Converts between an (x, y) position and an offset into the
/// text based on the `\n` characters in it.
pub struct Document {
    pub insertion_index: usize,
    text: Vec<char>,
    desired_x: usize,
}

/// A half-open range of offsets into a document.
#[derive(Debug, Clone, Copy, PartialEq, Eq, Structural)]
pub struct DocRange {
    pub a: usize,
    pub b: usize,
}

impl View for DocRange {
    type V = (int, int);

    open spec fn view(&self) -> (int, int) {
        (self.a as int, self.b as int)
    }
}

/// The range `(a, b)` clamped to a text of length `len`.
pub open spec fn limited(a: int, b: int, len: int) -> (int, int) {
    let a2 = if a < len {
        a
    } else {
        len
    };
    let b2 = if b < a2 {
        a2
    } else if b > len {
        len
    } else {
        b
    };
    (a2, b2)
}

/// The first offset at or after `i` whose character is whitespace when
/// `ws` holds and is not whitespace otherwise, or the length when none is.
pub open spec fn find_from(t: Seq<char>, i: int, ws: bool) -> int
    decreases t.len() - i,
{
    if i >= t.len() {
        t.len() as int
    } else if is_white_space(t[i]) == ws {
        i
    } else {
        find_from(t, i + 1, ws)
    }
}

/// The last offset before `i` whose character matches as in `find_from`, or
/// -1 when none does.
pub open spec fn find_before(t: Seq<char>, i: int, ws: bool) -> int
    decreases i,
{
    if i <= 0 {
        -1
    } else if is_white_space(t[i - 1]) == ws {
        i - 1
    } else {
        find_before(t, i - 1, ws)
    }
}

/// A match before `i` lies before `i`.
pub proof fn lemma_find_before_bound(t: Seq<char>, i: int, ws: bool)
    ensures
        -1 <= find_before(t, i, ws) < if i > 0 { i } else { 0 },
    decreases i,
{
    if i > 0 {
        lemma_find_before_bound(t, i - 1, ws);
    }
}

/// The lines still to come from a line iterator whose scan is at `c`.
pub open spec fn remaining_lines(t: Seq<char>, c: int) -> Seq<(int, int)> {
    if c > t.len() {
        seq![]
    } else if c == t.len() {
        if t.len() > 0 && t[t.len() - 1] == '\n' {
            seq![(c, c)]
        } else {
            seq![]
        }
    } else {
        lines_scan(t, c, c)
    }
}

impl Document {
    /// The text.
    pub closed spec fn content(&self) -> Seq<char> {
        self.text@
    }

    /// The insertion point.
    pub closed spec fn index(&self) -> int {
        self.insertion_index as int
    }

    /// The column kept for moves between lines.
    pub closed spec fn desired_column(&self) -> int {
        self.desired_x as int
    }

    /// The text's length leaves room to count its lines.
    pub open spec fn wf(&self) -> bool {
        &&& self.content().len() < usize::MAX
        &&& 0 <= self.index()
    }

    /// The insertion point clamped to the text.
    pub open spec fn index_in_text(&self) -> int {
        if self.index() < self.content().len() {
            self.index()
        } else {
            self.content().len() as int
        }
    }

    /// The lines of the text.
    pub open spec fn lines(&self) -> Seq<(int, int)> {
        line_ranges(self.content())
    }

    /// A new document with empty text.
    pub fn new() -> (r: Document)
        ensures
            r.content() == Seq::<char>::empty(),
            r.index() == 0,
            r.desired_column() == 0,
            r.wf(),
    {
        Document { insertion_index: 0, text: Vec::new(), desired_x: 0 }
    }

    /// The insertion point.
    pub fn get_insertion_index(&self) -> (r: usize)
        ensures
            r == self.index(),
    {
        self.insertion_index
    }

    /// Moves the insertion point, without clamping it.
    pub fn set_insertion_index(&mut self, index: usize)
        ensures
            final(self).index() == index,
            final(self).content() == old(self).content(),
            final(self).desired_column() == old(self).desired_column(),
    {
        self.insertion_index = index;
    }

    /// Sets the text being edited.
    pub fn set_content(&mut self, content: String)
        requires
            content@.len() < usize::MAX,
        ensures
            final(self).content() == content@,
            final(self).index() == if old(self).index() < content@.len() {
                old(self).index()
            } else {
                content@.len() as int
            },
            final(self).index() <= final(self).content().len(),
            final(self).desired_column() == old(self).desired_column(),
            final(self).wf(),
    {
        self.text = chars_of(content.as_str());
        self.check_insertion_index();
    }

    /// The text being edited.
    pub fn get_content(&self) -> (r: String)
        ensures
            r@ == self.content(),
    {
        string_of(self.text.as_slice())
    }

    /// The text's characters.
    pub fn chars(&self) -> (r: &Vec<char>)
        ensures
            r@ == self.content(),
    {
        &self.text
    }

    /// An iterator over the lines of the text.
    pub fn get_lines(&self) -> (r: DocLineIter<'_>)
        requires
            self.wf(),
        ensures
            r.wf(),
            r.doc_content() == self.content(),
            r.remaining() == self.lines(),
    {
        DocLineIter::new(self)
    }

    /// The insertion point as a (column, line) position.
    pub fn get_insertion_cursor_pos(&self) -> (r: (usize, usize))
        ensures
            (r.0 as int, r.1 as int) == cursor_of(self.content(), self.index_in_text()),
    {
        get_cursor(self, self.insertion_index)
    }

    /// Sets the insertion point from a (column, line) position.
    pub fn set_insertion_point_from_cursor(&mut self, x: usize, y: usize)
        requires
            old(self).wf(),
        ensures
            final(self).index() == offset_of(old(self).content(), x as int, y as int),
            final(self).content() == old(self).content(),
            final(self).desired_column() == old(self).desired_column(),
    {
        self.insertion_index = get_insertion_point(self, x, y);
    }

    /// Inserts a character at the insertion point, after clamping the point
    /// to the text. The point itself stays where it is.
    pub fn write(&mut self, ch: char)
        requires
            old(self).content().len() + 1 < usize::MAX,
        ensures
            final(self).index() == old(self).index_in_text(),
            final(self).content() == old(self).content().insert(old(self).index_in_text(), ch),
            final(self).desired_column() == old(self).desired_column(),
            final(self).index() <= final(self).content().len(),
            final(self).wf(),
    {
        self.check_insertion_index();
        self.text.insert(self.insertion_index, ch);
    }

    /// Deletes up to `count` characters from the insertion point, after
    /// clamping the point to the text. Deleting past the end stops there.
    pub fn delete(&mut self, count: usize)
        requires
            old(self).wf(),
        ensures
            final(self).index() == old(self).index_in_text(),
            ({
                let t = old(self).content();
                let i = old(self).index_in_text();
                let b = if i + count > t.len() {
                    t.len() as int
                } else {
                    i + count
                };
                final(self).content() == t.subrange(0, i) + t.subrange(b, t.len() as int)
            }),
            final(self).desired_column() == old(self).desired_column(),
            final(self).index() <= final(self).content().len(),
            old(self).content().len() - final(self).content().len() <= old(self).content().len()
                - old(self).index_in_text(),
            final(self).wf(),
    {
        self.check_insertion_index();
        let i = self.insertion_index;
        let b = if count > self.text.len() - i {
            self.text.len()
        } else {
            i + count
        };
        let r = DocRange::new(i, b).get_limited(self);
        if r.a < self.len() {
            let mut tail = self.text.split_off(r.b);
            self.text.truncate(r.a);
            self.text.append(&mut tail);
        }
        assert(self.text@ =~= old(self).content().subrange(0, i as int) + old(
            self,
        ).content().subrange(b as int, old(self).content().len() as int));
    }

    /// Limits the insertion point to the text.
    fn check_insertion_index(&mut self)
        ensures
            final(self).index() == old(self).index_in_text(),
            final(self).content() == old(self).content(),
            final(self).desired_column() == old(self).desired_column(),
    {
        if self.insertion_index > self.text.len() {
            self.insertion_index = self.text.len();
        }
    }

    /// The length of the text.
    pub fn len(&self) -> (r: usize)
        ensures
            r == self.content().len(),
    {
        self.text.len()
    }
}

impl DocRange {
    /// The range from `a` to `b`.
    pub fn new(a: usize, b: usize) -> (r: DocRange)
        ensures
            r.a == a,
            r.b == b,
    {
        DocRange { a, b }
    }

    /// This range clamped to the document's text: the start to the text's
    /// length, the end to between the start and the text's length.
    pub fn get_limited(&self, doc: &Document) -> (r: DocRange)
        ensures
            r@ == limited(self.a as int, self.b as int, doc.content().len() as int),
            r.a <= r.b <= doc.content().len(),
    {
        let content_len = doc.len();
        let a = if self.a < content_len {
            self.a
        } else {
            content_len
        };
        let b = if self.b < a {
            a
        } else if self.b > content_len {
            content_len
        } else {
            self.b
        };
        DocRange::new(a, b)
    }

    /// Clamps this range to the document's text, as `get_limited` does.
    pub fn limit_range(&mut self, doc: &Document)
        ensures
            final(self)@ == limited(old(self).a as int, old(self).b as int, doc.content().len() as int),
    {
        let r = self.get_limited(doc);
        self.a = r.a;
        self.b = r.b;
    }

    /// The text that this range, clamped, covers.
    pub fn get_text(&self, doc: &Document) -> (r: String)
        ensures
            ({
                let l = limited(self.a as int, self.b as int, doc.content().len() as int);
                r@ == doc.content().subrange(l.0, l.1)
            }),
    {
        let r = self.get_limited(doc);
        string_of(slice_subrange(doc.text.as_slice(), r.a, r.b))
    }
}

/// Iterates over the lines of a document, one range per line.
pub struct DocLineIter<'a> {
    source: &'a Document,
    cursor: usize,
}

impl<'a> DocLineIter<'a> {
    /// The text of the document iterated over.
    pub closed spec fn doc_content(&self) -> Seq<char> {
        self.source.content()
    }

    /// The lines that the iterator has still to give.
    pub closed spec fn remaining(&self) -> Seq<(int, int)> {
        remaining_lines(self.source.content(), self.cursor as int)
    }

    pub closed spec fn wf(&self) -> bool {
        self.source.wf() && self.cursor <= self.source.content().len() + 1
    }

    /// An iterator over all the lines of `source`.
    pub fn new(source: &'a Document) -> (r: Self)
        requires
            source.wf(),
        ensures
            r.wf(),
            r.doc_content() == source.content(),
            r.remaining() == source.lines(),
    {
        DocLineIter { source, cursor: 0 }
    }

    /// The next line, if any is left.
    pub fn next(&mut self) -> (r: Option<DocRange>)
        requires
            old(self).wf(),
        ensures
            final(self).wf(),
            final(self).doc_content() == old(self).doc_content(),
            old(self).remaining().len() == 0 ==> r is None && final(self).remaining().len() == 0,
            old(self).remaining().len() > 0 ==> r is Some && r->0@ == old(self).remaining()[0]
                && final(self).remaining() == old(self).remaining().drop_first(),
    {
        let t = &self.source.text;
        let text_end = t.len();
        if self.cursor > text_end {
            return None;
        }
        if self.cursor == text_end {
            self.cursor = self.cursor + 1;
            if text_end > 0 && t[text_end - 1] == '\n' {
                return Some(DocRange::new(text_end, text_end));
            } else {
                return None;
            }
        }
        let a = self.cursor;
        let mut b = a;
        while b < text_end && t[b] != '\n'
            invariant
                a <= b <= text_end,
                text_end == t@.len(),
                no_newline(t@, a as int, b as int),
            decreases text_end - b,
        {
            b = b + 1;
        }
        proof {
            lemma_scan_skip(t@, a as int, a as int, b as int);
            if b < text_end {
                assert(lines_scan(t@, a as int, b as int) == seq![(a as int, b as int)]
                    + lines_scan(t@, b + 1, b + 1));
                if b + 1 == text_end {
                    assert(lines_scan(t@, b + 1, b + 1) == seq![(text_end as int, text_end as int)]);
                }
            } else {
                assert(t@[text_end - 1] != '\n');
            }
        }
        self.cursor = if b + 1 < text_end {
            b + 1
        } else {
            text_end
        };
        proof {
            let old_rem = lines_scan(t@, a as int, a as int);
            if b >= text_end {
                assert(old_rem.drop_first() =~= seq![]);
            } else {
                assert(old_rem.drop_first() =~= lines_scan(t@, b + 1, b + 1));
            }
        }
        Some(DocRange::new(a, b))
    }
}

/// The effect of `write_char`: the character inserted at the clamped
/// insertion point, which then moves past it.
pub open spec fn write_char_post(d: Document, ch: char, e: Document) -> bool {
    &&& e.content() == d.content().insert(d.index_in_text(), ch)
    &&& e.index() == d.index_in_text() + 1
    &&& e.desired_column() == cursor_of(e.content(), e.index()).0
    &&& e.wf()
}

/// The effect of `delete_next_char`: the character at the clamped insertion
/// point removed, if there is one; the point stays.
pub open spec fn delete_next_post(d: Document, e: Document) -> bool {
    let t = d.content();
    let i = d.index_in_text();
    &&& e.content() == if i < t.len() {
        t.remove(i)
    } else {
        t
    }
    &&& e.index() == i
    &&& e.desired_column() == cursor_of(e.content(), e.index()).0
    &&& e.wf()
}

/// The effect of `delete_prev_char`: nothing at offset 0; else one back and
/// the character there removed, if there is one.
pub open spec fn delete_prev_post(d: Document, e: Document) -> bool {
    let t = d.content();
    let i = d.index();
    &&& if i > 0 {
        let j = if i - 1 < t.len() {
            i - 1
        } else {
            t.len() as int
        };
        &&& e.index() == j
        &&& e.content() == if j < t.len() {
            t.remove(j)
        } else {
            t
        }
    } else {
        e == d
    }
    &&& e.wf()
}

/// The effect of `delete_range`: the clamped range cut out, the point at its
/// start.
pub open spec fn delete_range_post(d: Document, range: (int, int), e: Document) -> bool {
    let t = d.content();
    let l = limited(range.0, range.1, t.len() as int);
    &&& e.content() == t.subrange(0, l.0) + t.subrange(l.1, t.len() as int)
    &&& e.index() == l.0
    &&& e.desired_column() == cursor_of(e.content(), e.index()).0
    &&& e.wf()
}

/// The effect of `next_char`: one forward, clamped to the text, and the new
/// column remembered.
pub open spec fn next_char_post(d: Document, e: Document) -> bool {
    &&& e.index() == if d.index() < d.content().len() {
        d.index() + 1
    } else {
        d.content().len() as int
    }
    &&& e.content() == d.content()
    &&& e.desired_column() == cursor_of(e.content(), e.index()).0
    &&& e.wf()
}

/// The effect of `prev_char`: one back, stopping at 0, and the new column
/// remembered.
pub open spec fn prev_char_post(d: Document, e: Document) -> bool {
    &&& e.index() == if d.index() > 0 {
        d.index() - 1
    } else {
        0
    }
    &&& e.content() == d.content()
    &&& e.desired_column() == cursor_of(e.content(), e.index_in_text()).0
    &&& e.wf()
}

/// The effect of `next_line`: the remembered column on the next line.
pub open spec fn next_line_post(d: Document, e: Document) -> bool {
    let t = d.content();
    let y = cursor_of(t, d.index_in_text()).1;
    &&& e.index() == offset_of(t, d.desired_column(), y + 1)
    &&& e.content() == t
    &&& e.desired_column() == d.desired_column()
    &&& e.wf()
}

/// The effect of `prev_line`: the remembered column on the previous line, or
/// on the first line when already there.
pub open spec fn prev_line_post(d: Document, e: Document) -> bool {
    let t = d.content();
    let y = cursor_of(t, d.index_in_text()).1;
    let y2 = if y > 0 {
        y - 1
    } else {
        0
    };
    &&& e.index() == offset_of(t, d.desired_column(), y2)
    &&& e.content() == t
    &&& e.desired_column() == d.desired_column()
    &&& e.wf()
}

/// The effect of `next_word`: on to the next character that is not
/// whitespace, then on to the next whitespace after it, or the end.
pub open spec fn next_word_post(d: Document, e: Document) -> bool {
    let t = d.content();
    let i = find_from(t, d.index_in_text(), false);
    &&& e.index() == find_from(t, i, true)
    &&& e.content() == t
    &&& e.desired_column() == d.desired_column()
    &&& e.wf()
}

/// The effect of `prev_word`: back to the last character before the point
/// that is not whitespace, then to the start of its word: just after the
/// last whitespace before it, or 0 when there is none.
pub open spec fn prev_word_post(d: Document, e: Document) -> bool {
    let t = d.content();
    let i = find_before(t, d.index_in_text(), false);
    let i1 = if i < 0 {
        0
    } else {
        i
    };
    let j = find_before(t, i1, true);
    &&& e.index() == if j >= 0 {
        j + 1
    } else {
        0
    }
    &&& e.content() == t
    &&& e.wf()
}

/// The elements `s[a..b)` as a slice.
fn slice_subrange(s: &[char], a: usize, b: usize) -> (r: &[char])
    requires
        a <= b <= s@.len(),
    ensures
        r@ == s@.subrange(a as int, b as int),
{
    vstd::slice::slice_subrange(s, a, b)
}

/// Line `n` of the document, if it has that many lines.
fn nth_line(doc: &Document, n: usize) -> (r: Option<DocRange>)
    requires
        doc.wf(),
    ensures
        n < doc.lines().len() ==> r is Some && r->0@ == doc.lines()[n as int],
        n >= doc.lines().len() ==> r is None,
{
    let mut lines = doc.get_lines();
    let ghost ls = doc.lines();
    let mut k: usize = 0;
    while k < n
        invariant
            lines.wf(),
            ls == doc.lines(),
            k <= n,
            k <= ls.len(),
            lines.remaining() == ls.subrange(k as int, ls.len() as int),
        decreases n - k,
    {
        match lines.next() {
            Some(_) => {
                k = k + 1;
            },
            None => {
                assert(ls.subrange(k as int, ls.len() as int).len() == 0);
                return None;
            },
        }
    }
    assert(ls.subrange(k as int, ls.len() as int).len() == ls.len() - k);
    lines.next()
}

/// The number of lines in the document: none for an empty text.
pub fn get_line_count(doc: &Document) -> (r: usize)
    requires
        doc.wf(),
    ensures
        r == doc.lines().len(),
{
    let mut lines = doc.get_lines();
    let ghost ls = doc.lines();
    proof {
        if doc.content().len() > 0 {
            lemma_lines_ok(doc.content());
        }
    }
    let mut k: usize = 0;
    loop
        invariant
            lines.wf(),
            ls == doc.lines(),
            k <= ls.len(),
            ls.len() <= doc.content().len() + 1,
            doc.wf(),
            lines.remaining() == ls.subrange(k as int, ls.len() as int),
        decreases ls.len() - k,
    {
        match lines.next() {
            Some(_) => {
                k = k + 1;
            },
            None => {
                assert(ls.subrange(k as int, ls.len() as int).len() == 0);
                return k;
            },
        }
    }
}

/// The length of line `n`, or 0 past the last line.
pub fn get_line_len(doc: &Document, n: usize) -> (r: usize)
    requires
        doc.wf(),
    ensures
        r == line_len_of(doc.content(), n as int),
{
    proof {
        if doc.content().len() > 0 {
            lemma_lines_ok(doc.content());
        }
    }
    match nth_line(doc, n) {
        Some(line) => {
            proof {
                assert(line_ok(doc.content(), doc.lines()[n as int]));
            }
            line.b - line.a
        },
        None => 0,
    }
}

/// The offset of the (column `x`, line `y`) position.
fn get_insertion_point(doc: &Document, x: usize, y: usize) -> (r: usize)
    requires
        doc.wf(),
    ensures
        r == offset_of(doc.content(), x as int, y as int),
{
    proof {
        if doc.content().len() > 0 {
            lemma_lines_ok(doc.content());
        }
    }
    match nth_line(doc, y) {
        Some(line) => {
            proof {
                assert(line_ok(doc.content(), doc.lines()[y as int]));
            }
            if x < line.b - line.a {
                line.a + x
            } else {
                line.b
            }
        },
        None => doc.len(),
    }
}

/// The (column, line) position of an offset, clamped to the text.
fn get_cursor(doc: &Document, insertion_index: usize) -> (r: (usize, usize))
    ensures
        ({
            let t = doc.content();
            let i = if insertion_index < t.len() {
                insertion_index as int
            } else {
                t.len() as int
            };
            (r.0 as int, r.1 as int) == cursor_of(t, i)
        }),
{
    let t = &doc.text;
    let end = if insertion_index < t.len() {
        insertion_index
    } else {
        t.len()
    };
    let mut x: usize = 0;
    let mut y: usize = 0;
    let mut i: usize = 0;
    while i < end
        invariant
            i <= end <= t@.len(),
            (x as int, y as int) == cursor_of(t@, i as int),
        decreases end - i,
    {
        proof {
            lemma_cursor_bound(t@, i as int);
        }
        if t[i] == '\n' {
            x = 0;
            y = y + 1;
        } else {
            x = x + 1;
        }
        i = i + 1;
    }
    (x, y)
}

/// Remembers the insertion point's column, used to keep the user's column
/// across lines of different lengths.
fn store_desired_x(doc: &mut Document)
    ensures
        final(doc).desired_column() == cursor_of(old(doc).content(), old(doc).index_in_text()).0,
        final(doc).content() == old(doc).content(),
        final(doc).index() == old(doc).index(),
{
    let (x, _) = doc.get_insertion_cursor_pos();
    doc.desired_x = x;
}

/// Writes a character at the insertion point and moves the point past it.
pub fn write_char(doc: &mut Document, ch: char)
    requires
        old(doc).content().len() + 1 < usize::MAX,
    ensures
        write_char_post(*old(doc), ch, *final(doc)),
{
    doc.write(ch);
    next_char(doc);
}

/// Deletes the character after the insertion point, as the DEL key does;
/// the point does not move.
pub fn delete_next_char(doc: &mut Document)
    requires
        old(doc).wf(),
    ensures
        delete_next_post(*old(doc), *final(doc)),
{
    doc.delete(1);
    proof {
        let t = old(doc).content();
        let i = old(doc).index_in_text();
        if i < t.len() {
            assert(t.subrange(0, i) + t.subrange(i + 1, t.len() as int) =~= t.remove(i));
        } else {
            assert(t.subrange(0, i) + t.subrange(t.len() as int, t.len() as int) =~= t);
        }
    }
    store_desired_x(doc);
}

/// Deletes the character before the insertion point, as BACKSPACE does; the
/// point moves back over it.
pub fn delete_prev_char(doc: &mut Document)
    requires
        old(doc).wf(),
    ensures
        delete_prev_post(*old(doc), *final(doc)),
{
    if doc.insertion_index > 0 {
        prev_char(doc);
        doc.delete(1);
        proof {
            let t = old(doc).content();
            let j = if old(doc).index() - 1 < t.len() {
                old(doc).index() - 1
            } else {
                t.len() as int
            };
            if j < t.len() {
                assert(t.subrange(0, j) + t.subrange(j + 1, t.len() as int) =~= t.remove(j));
            } else {
                assert(t.subrange(0, j) + t.subrange(t.len() as int, t.len() as int) =~= t);
            }
        }
    }
}

/// Moves the insertion point to the start of the range, clamped, and deletes
/// the range.
pub fn delete_range(doc: &mut Document, range: DocRange)
    requires
        old(doc).wf(),
    ensures
        delete_range_post(*old(doc), range@, *final(doc)),
{
    let r = range.get_limited(doc);
    doc.insertion_index = r.a;
    doc.delete(r.b - r.a);
    store_desired_x(doc);
}

/// Moves the insertion point one forward, as the right arrow does, and
/// remembers its column.
pub fn next_char(doc: &mut Document)
    requires
        old(doc).wf(),
    ensures
        next_char_post(*old(doc), *final(doc)),
{
    if doc.insertion_index < doc.len() {
        doc.insertion_index = doc.insertion_index + 1;
    } else {
        doc.insertion_index = doc.len();
    }
    store_desired_x(doc);
}

/// Moves the insertion point one back, as the left arrow does, and remembers
/// its column.
pub fn prev_char(doc: &mut Document)
    requires
        old(doc).wf(),
    ensures
        prev_char_post(*old(doc), *final(doc)),
{
    if doc.insertion_index > 0 {
        doc.insertion_index = doc.insertion_index - 1;
    }
    store_desired_x(doc);
}

/// Moves the insertion point to the next line, at the remembered column or
/// the end of that line, as the down arrow does.
pub fn next_line(doc: &mut Document)
    requires
        old(doc).wf(),
    ensures
        next_line_post(*old(doc), *final(doc)),
{
    let (_, y) = doc.get_insertion_cursor_pos();
    proof {
        lemma_cursor_bound(doc.content(), doc.index_in_text());
    }
    let x = doc.desired_x;
    doc.set_insertion_point_from_cursor(x, y + 1);
}

/// Moves the insertion point to the previous line, at the remembered column
/// or the end of that line, as the up arrow does. On the first line it goes
/// to that line's remembered column.
pub fn prev_line(doc: &mut Document)
    requires
        old(doc).wf(),
    ensures
        prev_line_post(*old(doc), *final(doc)),
{
    let (_, y) = doc.get_insertion_cursor_pos();
    let x = doc.desired_x;
    let y2 = if y > 0 {
        y - 1
    } else {
        0
    };
    doc.set_insertion_point_from_cursor(x, y2);
}

/// Moves to the end of the next word: on to the next character that is not
/// whitespace, then on to the next whitespace after it (or the end).
pub fn next_word(doc: &mut Document)
    requires
        old(doc).wf(),
    ensures
        next_word_post(*old(doc), *final(doc)),
{
    skip_to(doc, true, false);
    skip_to(doc, true, true);
}

/// Moves to the start of the previous word: back to the last character
/// before the point that is not whitespace, then to just after the last
/// whitespace before it, or to 0 when there is none.
pub fn prev_word(doc: &mut Document)
    requires
        old(doc).wf(),
    ensures
        prev_word_post(*old(doc), *final(doc)),
        final(doc).index() <= old(doc).index_in_text(),
{
    proof {
        lemma_find_before_bound(doc.content(), doc.index_in_text(), false);
    }
    skip_to(doc, false, false);
    proof {
        lemma_find_before_bound(doc.content(), doc.index_in_text(), true);
    }
    if skip_to(doc, false, true) {
        next_char(doc);
    }
}

/// Moves the insertion point to the next (forwards) or previous character
/// whose whitespace-ness is `ws`. Forwards it stops at the match, or at the
/// end when there is none; backwards at the match, or at 0. Returns whether a
/// match was found.
fn skip_to(doc: &mut Document, forwards: bool, ws: bool) -> (found: bool)
    ensures
        ({
            let t = old(doc).content();
            let i = old(doc).index_in_text();
            if forwards {
                &&& final(doc).index() == find_from(t, i, ws)
                &&& found == (find_from(t, i, ws) < t.len())
            } else {
                let j = find_before(t, i, ws);
                &&& final(doc).index() == if j < 0 { 0 } else { j }
                &&& found == (j >= 0)
            }
        }),
        final(doc).content() == old(doc).content(),
        final(doc).desired_column() == old(doc).desired_column(),
{
    let t = &doc.text;
    let len = t.len();
    let index = if doc.insertion_index < len {
        doc.insertion_index
    } else {
        len
    };
    if forwards {
        let mut i = index;
        while i < len && is_whitespace(t[i]) != ws
            invariant
                index <= i <= len,
                len == t@.len(),
                find_from(t@, index as int, ws) == find_from(t@, i as int, ws),
            decreases len - i,
        {
            i = i + 1;
        }
        doc.insertion_index = i;
        i < len
    } else {
        let mut i = index;
        while i > 0 && is_whitespace(t[i - 1]) != ws
            invariant
                i <= index <= len,
                len == t@.len(),
                find_before(t@, index as int, ws) == find_before(t@, i as int, ws),
            decreases i,
        {
            i = i - 1;
        }
        if i > 0 {
            doc.insertion_index = i - 1;
            true
        } else {
            doc.insertion_index = 0;
            false
        }
    }
}

} // verus!
