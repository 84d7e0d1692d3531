//! The editor's state, shared by the actions and the drawing: the document,
//! the mode, the selection, the exit request, the status and the viewport.
use vstd::prelude::*;

use crate::document::{delete_range, delete_range_post, limited, DocRange, Document};
use crate::viewport::DocViewport;

verus! {

/// The editor's input mode.
#[derive(Clone, Copy, PartialEq, Eq, Debug, Structural)]
pub enum CodeEditorMode {
    Edit,
    Command,
}

/// Exiting takes the exit key twice in a row: the first press makes the
/// request pending, the second confirms it. Any other input cancels it.
#[derive(Clone, Copy, PartialEq, Eq, Debug, Structural)]
pub enum EditorExitRequest {
    NotRequested,
    PendingConfirmation,
    Confirmed,
}

/// The message shown in the status line.
#[derive(Debug)]
pub enum EditorStatus {
    IDLE,
    ERROR(String),
}

/// All the state of the editor, passed to each action in turn.
pub struct EditorState {
    pub mode: CodeEditorMode,
    pub exit_request: EditorExitRequest,
    pub doc: Document,
    pub selection: Option<DocRange>,
    pub view: DocViewport,
    pub status: EditorStatus,
    pub transient: bool,
}

/// A selection as a pair of offsets.
pub open spec fn sel_view(s: Option<DocRange>) -> Option<(int, int)> {
    match s {
        Some(r) => Some(r@),
        None => None,
    }
}

/// The exit request after one more press of the exit key.
pub open spec fn next_exit(e: EditorExitRequest) -> EditorExitRequest {
    match e {
        EditorExitRequest::NotRequested => EditorExitRequest::PendingConfirmation,
        _ => EditorExitRequest::Confirmed,
    }
}

/// The other mode.
pub open spec fn toggled(m: CodeEditorMode) -> CodeEditorMode {
    match m {
        CodeEditorMode::Edit => CodeEditorMode::Command,
        CodeEditorMode::Command => CodeEditorMode::Edit,
    }
}

/// The selection once one is begun at offset `i`: an empty one there,
/// clamped, unless one exists already.
pub open spec fn begun(sel: Option<(int, int)>, i: int, len: int) -> Option<(int, int)> {
    match sel {
        None => Some(limited(i, i, len)),
        Some(r) => Some(r),
    }
}

/// The selection once extended to offset `i`: an offset before the start
/// moves the start there; otherwise the end moves to just past `i`. The
/// result is clamped to the text.
pub open spec fn extended(sel: Option<(int, int)>, i: int, len: int) -> Option<(int, int)> {
    match sel {
        None => Some(limited(i, i, len)),
        Some(r) => if i < r.0 {
            Some(limited(i, r.1, len))
        } else {
            Some(limited(r.0, i + 1, len))
        },
    }
}

/// The fields other than the document, the selection, the mode and the exit
/// request are the same.
pub open spec fn same_rest(s: EditorState, t: EditorState) -> bool {
    &&& t.view == s.view
    &&& t.status == s.status
    &&& t.transient == s.transient
}

/// The effect of `delete_selection`.
pub open spec fn delete_selection_post(s: EditorState, t: EditorState) -> bool {
    &&& match s.selection {
        Some(r) => delete_range_post(s.doc, r@, t.doc) && t.selection is None,
        None => t.doc == s.doc && t.selection == s.selection,
    }
    &&& t.mode == s.mode
    &&& t.exit_request == s.exit_request
    &&& same_rest(s, t)
}

/// The effect of `select_all`: the point at the end, and the whole text
/// selected.
pub open spec fn select_all_post(s: EditorState, t: EditorState) -> bool {
    &&& t.doc.content() == s.doc.content()
    &&& t.doc.index() == s.doc.content().len()
    &&& t.doc.desired_column() == s.doc.desired_column()
    &&& sel_view(t.selection) == Some((0int, s.doc.content().len() as int))
    &&& t.mode == s.mode
    &&& t.exit_request == s.exit_request
    &&& same_rest(s, t)
}

impl EditorState {
    /// The state of a new editor: editing an empty document, nothing
    /// selected, no exit requested.
    pub fn new() -> (r: Self)
        ensures
            r.mode == CodeEditorMode::Edit,
            r.exit_request == EditorExitRequest::NotRequested,
            r.doc.content() == Seq::<char>::empty(),
            r.doc.index() == 0,
            r.selection is None,
            r.status is IDLE,
            !r.transient,
            r.doc.wf(),
    {
        Self {
            mode: CodeEditorMode::Edit,
            exit_request: EditorExitRequest::NotRequested,
            doc: Document::new(),
            selection: None,
            view: DocViewport::new(),
            status: EditorStatus::IDLE,
            transient: false,
        }
    }

    pub fn mode(&self) -> (r: CodeEditorMode)
        ensures
            r == self.mode,
    {
        self.mode
    }

    /// Switches between edit and command mode.
    pub fn toggle_mode(&mut self)
        ensures
            final(self).mode == toggled(old(self).mode),
            final(self).exit_request == old(self).exit_request,
            final(self).doc == old(self).doc,
            final(self).selection == old(self).selection,
            same_rest(*old(self), *final(self)),
    {
        self.mode = match self.mode {
            CodeEditorMode::Command => CodeEditorMode::Edit,
            CodeEditorMode::Edit => CodeEditorMode::Command,
        };
    }

    pub fn is_exit_request_pending(&self) -> (r: bool)
        ensures
            r == (self.exit_request == EditorExitRequest::PendingConfirmation),
    {
        matches!(self.exit_request, EditorExitRequest::PendingConfirmation)
    }

    pub fn is_exit_confirmed(&self) -> (r: bool)
        ensures
            r == (self.exit_request == EditorExitRequest::Confirmed),
    {
        matches!(self.exit_request, EditorExitRequest::Confirmed)
    }

    /// Moves the exit request one step on: none to pending, pending to
    /// confirmed; confirmed stays.
    pub fn request_exit(&mut self)
        ensures
            final(self).exit_request == next_exit(old(self).exit_request),
            final(self).mode == old(self).mode,
            final(self).doc == old(self).doc,
            final(self).selection == old(self).selection,
            same_rest(*old(self), *final(self)),
    {
        self.exit_request = match self.exit_request {
            EditorExitRequest::NotRequested => EditorExitRequest::PendingConfirmation,
            EditorExitRequest::PendingConfirmation => EditorExitRequest::Confirmed,
            EditorExitRequest::Confirmed => EditorExitRequest::Confirmed,
        };
    }

    /// Drops any exit request.
    pub fn cancel_exit(&mut self)
        ensures
            final(self).exit_request == EditorExitRequest::NotRequested,
            final(self).mode == old(self).mode,
            final(self).doc == old(self).doc,
            final(self).selection == old(self).selection,
            same_rest(*old(self), *final(self)),
    {
        self.exit_request = EditorExitRequest::NotRequested;
    }

    pub fn has_selection(&self) -> (r: bool)
        ensures
            r == self.selection is Some,
    {
        self.selection.is_some()
    }

    pub fn get_selection(&self) -> (r: &Option<DocRange>)
        ensures
            *r == self.selection,
    {
        &self.selection
    }

    /// Selects the whole text, leaving the insertion point at its end.
    pub fn select_all(&mut self)
        requires
            old(self).doc.wf(),
        ensures
            select_all_post(*old(self), *final(self)),
    {
        self.doc.set_insertion_index(0);
        self.clear_selection();
        self.begin_selection();
        let len = self.doc.len();
        self.doc.set_insertion_index(len);
        self.extend_selection();
    }

    /// Opens an empty selection at the insertion point, unless there is one.
    pub fn begin_selection(&mut self)
        ensures
            sel_view(final(self).selection) == begun(
                sel_view(old(self).selection),
                old(self).doc.index(),
                old(self).doc.content().len() as int,
            ),
            final(self).doc == old(self).doc,
            final(self).mode == old(self).mode,
            final(self).exit_request == old(self).exit_request,
            same_rest(*old(self), *final(self)),
    {
        let index = self.doc.get_insertion_index();
        if self.selection.is_none() {
            let mut new_selection = DocRange::new(index, index);
            new_selection.limit_range(&self.doc);
            self.selection = Some(new_selection);
        }
    }

    /// Grows the selection to the insertion point, or opens one there.
    pub fn extend_selection(&mut self)
        requires
            old(self).doc.wf(),
        ensures
            sel_view(final(self).selection) == extended(
                sel_view(old(self).selection),
                old(self).doc.index(),
                old(self).doc.content().len() as int,
            ),
            final(self).doc == old(self).doc,
            final(self).mode == old(self).mode,
            final(self).exit_request == old(self).exit_request,
            same_rest(*old(self), *final(self)),
    {
        let index = self.doc.get_insertion_index();
        match self.selection {
            None => {
                self.begin_selection();
            },
            Some(selection) => {
                let mut s = selection;
                if index < s.a {
                    s.a = index;
                } else {
                    s.b = if index < usize::MAX {
                        index + 1
                    } else {
                        index
                    };
                }
                s.limit_range(&self.doc);
                self.selection = Some(s);
            },
        }
    }

    pub fn clear_selection(&mut self)
        ensures
            final(self).selection is None,
            final(self).doc == old(self).doc,
            final(self).mode == old(self).mode,
            final(self).exit_request == old(self).exit_request,
            same_rest(*old(self), *final(self)),
    {
        self.selection = None;
    }

    /// Deletes the selected text, clamped, and drops the selection.
    pub fn delete_selection(&mut self)
        requires
            old(self).doc.wf(),
        ensures
            delete_selection_post(*old(self), *final(self)),
    {
        if let Some(selection) = self.selection {
            delete_range(&mut self.doc, selection);
            self.selection = None;
        }
    }

    pub fn get_status(&self) -> (r: &EditorStatus)
        ensures
            *r == self.status,
    {
        &self.status
    }

    pub fn reset_status(&mut self)
        ensures
            final(self).status is IDLE,
            final(self).mode == old(self).mode,
            final(self).exit_request == old(self).exit_request,
            final(self).doc == old(self).doc,
            final(self).selection == old(self).selection,
            final(self).view == old(self).view,
            final(self).transient == old(self).transient,
    {
        self.status = EditorStatus::IDLE;
    }

    /// Shows an error in the status line.
    pub fn log_error(&mut self, msg: String)
        ensures
            final(self).status == EditorStatus::ERROR(msg),
            final(self).mode == old(self).mode,
            final(self).exit_request == old(self).exit_request,
            final(self).doc == old(self).doc,
            final(self).selection == old(self).selection,
            final(self).view == old(self).view,
            final(self).transient == old(self).transient,
    {
        self.status = EditorStatus::ERROR(msg);
    }

    /// Marks whether the contents are kept from being saved on exit.
    pub fn set_transient(&mut self, val: bool)
        ensures
            final(self).transient == val,
            final(self).mode == old(self).mode,
            final(self).exit_request == old(self).exit_request,
            final(self).doc == old(self).doc,
            final(self).selection == old(self).selection,
            final(self).view == old(self).view,
            final(self).status == old(self).status,
    {
        self.transient = val;
    }

    pub fn is_transient(&self) -> (r: bool)
        ensures
            r == self.transient,
    {
        self.transient
    }
}

} // verus!
