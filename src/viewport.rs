//! A window onto a document: a cursor position, and a window origin kept so
//! that the cursor stays in view.
use vstd::prelude::*;

use crate::document::{get_line_count, get_line_len, Document};
use crate::lines::{cursor_of, line_len_of};

verus! {

/// The new origin of a window of `size` cells along one axis, for a cursor
/// at `cur` in content `extent` cells long, starting from `origin`: the
/// window may not leave the cursor behind its far edge, may not scroll past
/// the content unless the cursor needs it, never starts after the cursor, and
/// otherwise stays where it is.
pub open spec fn window_origin(cur: int, size: int, extent: int, origin: int) -> int {
    let lead = if size > 0 {
        size - 1
    } else {
        0
    };
    let lo = cur - if lead < cur {
        lead
    } else {
        cur
    };
    let shown = if size < extent {
        size
    } else {
        extent
    };
    let hi0 = if extent - shown > lo {
        extent - shown
    } else {
        lo
    };
    let hi = if hi0 < cur {
        hi0
    } else {
        cur
    };
    if origin < lo {
        lo
    } else if origin > hi {
        hi
    } else {
        origin
    }
}

/// A window at least one cell wide holds the cursor.
pub proof fn lemma_window_holds_cursor(cur: int, size: int, extent: int, origin: int)
    requires
        0 <= cur,
        1 <= size,
    ensures
        window_origin(cur, size, extent, origin) <= cur < window_origin(cur, size, extent, origin)
            + size,
        0 <= window_origin(cur, size, extent, origin),
{
}

/// Storage for a cursor, and a window into a document that is kept around it.
pub struct DocViewport {
    w: usize,
    h: usize,
    window_x: usize,
    window_y: usize,
    cursor_x: usize,
    cursor_y: usize,
}

impl DocViewport {
    pub closed spec fn width(&self) -> int {
        self.w as int
    }

    pub closed spec fn height(&self) -> int {
        self.h as int
    }

    pub closed spec fn origin_x(&self) -> int {
        self.window_x as int
    }

    pub closed spec fn origin_y(&self) -> int {
        self.window_y as int
    }

    pub closed spec fn column(&self) -> int {
        self.cursor_x as int
    }

    pub closed spec fn line(&self) -> int {
        self.cursor_y as int
    }

    /// An empty viewport at the origin.
    pub fn new() -> (r: Self)
        ensures
            r.width() == 0 && r.height() == 0,
            r.origin_x() == 0 && r.origin_y() == 0,
            r.column() == 0 && r.line() == 0,
    {
        DocViewport { w: 0, h: 0, window_x: 0, window_y: 0, cursor_x: 0, cursor_y: 0 }
    }

    /// Sets the window's size.
    pub fn set_size(&mut self, w: usize, h: usize)
        ensures
            final(self).width() == w && final(self).height() == h,
            final(self).origin_x() == old(self).origin_x(),
            final(self).origin_y() == old(self).origin_y(),
            final(self).column() == old(self).column(),
            final(self).line() == old(self).line(),
    {
        self.w = w;
        self.h = h;
    }

    /// Takes the cursor from the document's insertion point and moves the
    /// window just as far as it must to hold it.
    pub fn update(&mut self, doc: &Document)
        requires
            doc.wf(),
        ensures
            (final(self).column(), final(self).line()) == cursor_of(
                doc.content(),
                doc.index_in_text(),
            ),
            final(self).origin_x() == window_origin(
                final(self).column(),
                old(self).width(),
                line_len_of(doc.content(), final(self).line()),
                old(self).origin_x(),
            ),
            final(self).origin_y() == window_origin(
                final(self).line(),
                old(self).height(),
                doc.lines().len() as int,
                old(self).origin_y(),
            ),
            final(self).width() == old(self).width(),
            final(self).height() == old(self).height(),
            final(self).width() >= 1 ==> final(self).origin_x() <= final(self).column()
                < final(self).origin_x() + final(self).width(),
            final(self).height() >= 1 ==> final(self).origin_y() <= final(self).line()
                < final(self).origin_y() + final(self).height(),
    {
        let (x, y) = doc.get_insertion_cursor_pos();
        self.cursor_x = x;
        self.cursor_y = y;
        limit_window_pos(self, doc);
        proof {
            if self.w >= 1 {
                lemma_window_holds_cursor(
                    self.cursor_x as int,
                    self.w as int,
                    line_len_of(doc.content(), self.cursor_y as int),
                    old(self).window_x as int,
                );
            }
            if self.h >= 1 {
                lemma_window_holds_cursor(
                    self.cursor_y as int,
                    self.h as int,
                    doc.lines().len() as int,
                    old(self).window_y as int,
                );
            }
        }
    }

    /// The cursor's column.
    pub fn cursor_x(&self) -> (r: usize)
        ensures
            r == self.column(),
    {
        self.cursor_x
    }

    /// The cursor's line.
    pub fn cursor_y(&self) -> (r: usize)
        ensures
            r == self.line(),
    {
        self.cursor_y
    }

    /// The window's origin, as (column, line).
    pub fn get_window_pos(&self) -> (r: (usize, usize))
        ensures
            r.0 == self.origin_x() && r.1 == self.origin_y(),
    {
        (self.window_x, self.window_y)
    }
}

/// The origin along one axis, as `window_origin` gives it.
fn limit_axis(cur: usize, size: usize, extent: usize, origin: usize) -> (r: usize)
    ensures
        r == window_origin(cur as int, size as int, extent as int, origin as int),
{
    let lead = if size > 0 {
        size - 1
    } else {
        0
    };
    let lo = cur - if lead < cur {
        lead
    } else {
        cur
    };
    let shown = if size < extent {
        size
    } else {
        extent
    };
    let hi0 = if extent - shown > lo {
        extent - shown
    } else {
        lo
    };
    let hi = if hi0 < cur {
        hi0
    } else {
        cur
    };
    if origin < lo {
        lo
    } else if origin > hi {
        hi
    } else {
        origin
    }
}

/// Moves the window so that it holds the cursor, scrolling no further than
/// needed.
fn limit_window_pos(viewport: &mut DocViewport, doc: &Document)
    requires
        doc.wf(),
    ensures
        final(viewport).origin_x() == window_origin(
            old(viewport).column(),
            old(viewport).width(),
            line_len_of(doc.content(), old(viewport).line()),
            old(viewport).origin_x(),
        ),
        final(viewport).origin_y() == window_origin(
            old(viewport).line(),
            old(viewport).height(),
            doc.lines().len() as int,
            old(viewport).origin_y(),
        ),
        final(viewport).width() == old(viewport).width(),
        final(viewport).height() == old(viewport).height(),
        final(viewport).column() == old(viewport).column(),
        final(viewport).line() == old(viewport).line(),
{
    let content_w = get_line_len(doc, viewport.cursor_y);
    let content_h = get_line_count(doc);
    viewport.window_x = limit_axis(viewport.cursor_x, viewport.w, content_w, viewport.window_x);
    viewport.window_y = limit_axis(viewport.cursor_y, viewport.h, content_h, viewport.window_y);
}

} // verus!
