//! A terminal text editor's engine: a text buffer with a cursor and a
//! selection, a viewport that keeps the cursor in sight, and a screen grid
//! that redraws only the cells that changed.
use vstd::prelude::*;

pub mod lines;
pub mod document;
pub mod viewport;
pub mod ansi;
pub mod input;
pub mod colors;
pub mod terminal;
pub mod state;
pub mod actions;
pub mod drawing;
pub mod editor;
pub mod highlight;

verus! {

/// The characters of `s`, in order.
pub fn chars_of(s: &str) -> (r: Vec<char>)
    ensures
        r@ == s@,
{
    let mut out: Vec<char> = Vec::new();
    for c in it: s.chars()
        invariant
            out@ == it.seq().take(it.index() as int),
            it.seq() == s@,
    {
        out.push(c);
    }
    out
}

} // verus!
