//! The editor as a whole: its state, and the steps of its main loop. Each
//! step takes what was read and returns what is to be written, so the
//! reading and writing stay with the caller.
use vstd::prelude::*;

use crate::actions::{check_editor_actions, dispatch_post, has_room};
use crate::colors::Color;
use crate::drawing::{compute_content_size, content_size, cursor_spot, draw_editor, editor_screen_on};
use crate::lines::{cursor_of, line_len_of};
use crate::viewport::window_origin;
use crate::input::{Input, Modifiers};
use crate::state::{EditorExitRequest, EditorState, EditorStatus};
use crate::terminal::{flush_output, put_run, screen, Screen, Terminal};

verus! {

/// The last frame: a blank screen with a goodbye at the top left, or the
/// error that the status holds.
pub open spec fn goodbye_screen(t: Terminal, state: EditorState) -> Screen {
    let (w, h) = t.size();
    let blank = (Seq::new(w * h, |k: int| ' '), Seq::new(w * h, |k: int| Color::Default), 0int);
    match state.status {
        EditorStatus::IDLE => put_run(w, h, blank, 0, Color::ExitMessage, "Goodbye!"@),
        EditorStatus::ERROR(e) => {
            let s1 = put_run(w, h, blank, 0, Color::FooterStatusError, " ERROR "@);
            let s2 = put_run(w, h, s1, 0, Color::FooterStatusErrorContent, " "@);
            let s3 = put_run(w, h, s2, 0, Color::FooterStatusErrorContent, e@);
            put_run(w, h, s3, 0, Color::FooterStatusErrorContent, " "@)
        },
    }
}

/// A frame of the editor: the whole editor drawn on a blank screen of the
/// terminal's size.
pub open spec fn frame(t: Terminal, state: EditorState) -> Screen {
    let (w, h) = t.size();
    editor_screen_on(
        w,
        h,
        (Seq::new(w * h, |k: int| ' '), Seq::new(w * h, |k: int| Color::Default), t.cursor().0 as int),
        t.debug_trace(),
        state,
    )
}

/// The view once updated for the document: the cursor taken from the
/// insertion point, and the window moved just as far as it must to hold it.
pub open spec fn view_updated(s: EditorState, t: EditorState) -> bool {
    let v = t.view;
    &&& (v.column(), v.line()) == cursor_of(t.doc.content(), t.doc.index_in_text())
    &&& v.width() == s.view.width()
    &&& v.height() == s.view.height()
    &&& v.origin_x() == window_origin(
        v.column(),
        s.view.width(),
        line_len_of(t.doc.content(), v.line()),
        s.view.origin_x(),
    )
    &&& v.origin_y() == window_origin(
        v.line(),
        s.view.height(),
        t.doc.lines().len() as int,
        s.view.origin_y(),
    )
}

/// A terminal editor that can be drawn to the screen and updated with input.
pub struct CodeEditor {
    pub state: EditorState,
}

impl CodeEditor {
    /// An editor with an empty document.
    pub fn new() -> (r: Self)
        ensures
            r.state.doc.content() == Seq::<char>::empty(),
            r.state.doc.wf(),
            r.state.selection is None,
            !r.state.transient,
    {
        Self { state: EditorState::new() }
    }

    /// Sets the text being edited.
    pub fn set_content(&mut self, content: String)
        requires
            content@.len() < usize::MAX,
        ensures
            final(self).state.doc.content() == content@,
            final(self).state.doc.wf(),
    {
        self.state.doc.set_content(content);
    }

    /// The text being edited.
    pub fn get_content(&self) -> (r: String)
        ensures
            r@ == self.state.doc.content(),
    {
        self.state.doc.get_content()
    }

    /// Marks whether the contents are kept from being saved on exit.
    pub fn set_transient(&mut self, val: bool)
        ensures
            final(self).state.transient == val,
            final(self).state.doc == old(self).state.doc,
    {
        self.state.set_transient(val);
    }

    /// The first frame, once the terminal's size is known: sizes the view
    /// to the code area, draws the editor, and returns the output to send.
    pub fn start(&mut self, term: &mut Terminal) -> (output: Vec<char>)
        requires
            old(self).state.doc.wf(),
            old(term).wf(),
        ensures
            final(self).state.doc == old(self).state.doc,
            final(term).wf(),
            final(term).shown().chars() == final(term).pending().chars(),
            final(term).shown().colors() == final(term).pending().colors(),
            output@ == flush_output(
                final(term).pending(),
                old(term).shown(),
                final(term).cursor().0,
                final(term).cursor().1,
            ),
            (final(self).state.view.width() as nat, final(self).state.view.height() as nat)
                == content_size(old(term).size()),
            final(term).size() == old(term).size(),
            final(term).cursor() == cursor_spot(*final(term), final(self).state),
            final(term).pending().chars() == frame(*old(term), final(self).state).0,
            final(term).pending().colors() == frame(*old(term), final(self).state).1,
    {
        let (view_w, view_h) = compute_content_size(term);
        self.state.view.set_size(view_w, view_h);
        term.clear();
        draw_editor(term, &self.state);
        term.flush()
    }

    /// One round of the loop for an input: the status is cleared, the
    /// actions are applied, and unless the exit is confirmed the view is
    /// updated and the editor drawn. Returns the output to send, or `None`
    /// when the editor is to exit. A document with no room left for a
    /// character takes no input.
    pub fn step(&mut self, term: &mut Terminal, input: Input, keys: Modifiers) -> (output: Option<
        Vec<char>,
    >)
        requires
            old(self).state.doc.wf(),
            old(term).wf(),
        ensures
            final(self).state.doc.wf(),
            final(term).wf(),
            output is None <==> final(self).state.exit_request == EditorExitRequest::Confirmed,
            output is Some ==> final(term).shown().chars() == final(term).pending().chars(),
            output is Some ==> final(term).shown().colors() == final(term).pending().colors(),
            output is Some ==> output->0@ == flush_output(
                final(term).pending(),
                old(term).shown(),
                final(term).cursor().0,
                final(term).cursor().1,
            ),
            output is Some ==> view_updated(old(self).state, final(self).state),
            output is Some ==> final(term).cursor() == cursor_spot(*final(term), final(self).state),
            output is Some ==> final(term).pending().chars() == frame(*old(term), final(self).state).0,
            output is Some ==> final(term).pending().colors() == frame(*old(term), final(self).state).1,
            final(term).size() == old(term).size(),
            has_room(old(self).state) ==> dispatch_post(
                input,
                keys,
                EditorState { status: EditorStatus::IDLE, ..old(self).state },
                EditorState { view: old(self).state.view, ..final(self).state },
            ),
    {
        self.state.reset_status();
        if self.state.doc.len() < usize::MAX - 1 {
            check_editor_actions(input, &mut self.state, keys);
        }
        if self.state.is_exit_confirmed() {
            return None;
        }
        self.state.view.update(&self.state.doc);
        term.clear();
        draw_editor(term, &self.state);
        Some(term.flush())
    }

    /// The last frame: a goodbye, or the error if there is one (saving can
    /// fail, for one). Returns the output to send.
    pub fn finish(&mut self, term: &mut Terminal) -> (output: Vec<char>)
        requires
            old(term).wf(),
        ensures
            final(term).wf(),
            final(self).state.doc == old(self).state.doc,
            screen(*final(term)) == goodbye_screen(*old(term), old(self).state),
            final(term).cursor().1 == 0,
            output@ == flush_output(
                final(term).pending(),
                old(term).shown(),
                final(term).cursor().0,
                final(term).cursor().1,
            ),
    {
        term.clear();
        term.set_cursor_pos(0, 0);
        match self.state.get_status() {
            EditorStatus::IDLE => {
                term.write(Color::ExitMessage, "Goodbye!");
            },
            EditorStatus::ERROR(e) => {
                term.write(Color::FooterStatusError, " ERROR ");
                term.write(Color::FooterStatusErrorContent, " ");
                term.write(Color::FooterStatusErrorContent, e.as_str());
                term.write(Color::FooterStatusErrorContent, " ");
            },
        }
        term.flush()
    }
}

} // verus!
