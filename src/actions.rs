//! The actions that respond to input: each one either applies its effect
//! to the editor and claims the input, or leaves the editor as it is. They
//! are tried in a fixed order, and the first that claims the input ends the
//! round.
use vstd::prelude::*;

use crate::document::{
    delete_next_char, delete_next_post, delete_prev_char, delete_prev_post, next_char,
    next_char_post, next_line, next_line_post, next_word, next_word_post, prev_char,
    prev_char_post, prev_line, prev_line_post, prev_word, prev_word_post, write_char,
    Document,
};
use crate::input::{Input, Modifiers};
use crate::lines::cursor_of;
use crate::state::{
    begun, delete_selection_post, extended, next_exit, same_rest, sel_view, select_all_post,
    toggled, CodeEditorMode, EditorExitRequest, EditorState,
};

verus! {

/// Copies text to the system clipboard. The platform offers no working
/// clipboard here, so this does nothing.
pub fn copy_to_clipboard(text: &str) {
}

/// A character that takes one column and one storage unit, or a newline:
/// the ones the editor writes.
pub open spec fn is_printable(ch: char) -> bool {
    (' ' <= ch && ch <= '~') || ch == '\n'
}

pub open spec fn is_arrow(input: Input) -> bool {
    input == Input::Up || input == Input::Down || input == Input::Left || input == Input::Right
}

/// The document after moving for an arrow key, with or without control.
pub open spec fn moved(input: Input, control: bool, d: Document, e: Document) -> bool {
    match input {
        Input::Up => if control {
            e == d
        } else {
            prev_line_post(d, e)
        },
        Input::Down => if control {
            e == d
        } else {
            next_line_post(d, e)
        },
        Input::Left => if control {
            prev_word_post(d, e)
        } else {
            prev_char_post(d, e)
        },
        _ => if control {
            next_word_post(d, e)
        } else {
            next_char_post(d, e)
        },
    }
}

/// The effect of an arrow key: with shift, the selection is begun before
/// the move and extended after it; without, it is dropped.
pub open spec fn move_post(input: Input, keys: Modifiers, s: EditorState, t: EditorState) -> bool {
    let len = s.doc.content().len() as int;
    &&& moved(input, keys.control, s.doc, t.doc)
    &&& sel_view(t.selection) == if keys.shift {
        extended(begun(sel_view(s.selection), s.doc.index(), len), t.doc.index(), len)
    } else {
        None
    }
    &&& t.mode == s.mode
    &&& t.exit_request == s.exit_request
    &&& same_rest(s, t)
}

/// The text once the selection, if any, is cut out.
pub open spec fn cut_content(s: EditorState) -> Seq<char> {
    match s.selection {
        Some(r) => {
            let l = crate::document::limited(r.a as int, r.b as int, s.doc.content().len() as int);
            s.doc.content().subrange(0, l.0) + s.doc.content().subrange(
                l.1,
                s.doc.content().len() as int,
            )
        },
        None => s.doc.content(),
    }
}

/// The insertion point, clamped, once the selection, if any, is cut out.
pub open spec fn cut_index(s: EditorState) -> int {
    match s.selection {
        Some(r) => crate::document::limited(
            r.a as int,
            r.b as int,
            s.doc.content().len() as int,
        ).0,
        None => s.doc.index_in_text(),
    }
}

/// The effect of writing a character: the selection cut out, then the
/// character inserted at the point, which moves past it.
pub open spec fn write_post(ch: char, s: EditorState, t: EditorState) -> bool {
    &&& t.doc.content() == cut_content(s).insert(cut_index(s), ch)
    &&& t.doc.index() == cut_index(s) + 1
    &&& t.doc.desired_column() == cursor_of(t.doc.content(), t.doc.index()).0
    &&& t.doc.wf()
    &&& t.selection is None
    &&& t.mode == s.mode
    &&& t.exit_request == s.exit_request
    &&& same_rest(s, t)
}

/// The effect of BACKSPACE (`back`) or DEL: the selection cut out if there
/// is one, else one character deleted before or after the point.
pub open spec fn delete_post(back: bool, s: EditorState, t: EditorState) -> bool {
    if s.selection is Some {
        delete_selection_post(s, t)
    } else {
        &&& if back {
            delete_prev_post(s.doc, t.doc)
        } else {
            delete_next_post(s.doc, t.doc)
        }
        &&& t.selection == s.selection
        &&& t.mode == s.mode
        &&& t.exit_request == s.exit_request
        &&& same_rest(s, t)
    }
}

/// The state once any exit request is cancelled.
pub open spec fn exit_cancelled(s: EditorState) -> EditorState {
    EditorState { exit_request: EditorExitRequest::NotRequested, ..s }
}

/// The state once the exit key has been pressed once more.
pub open spec fn exit_advanced(s: EditorState) -> EditorState {
    EditorState { exit_request: next_exit(s.exit_request), ..s }
}

/// The state in the other mode.
pub open spec fn mode_toggled(s: EditorState) -> EditorState {
    EditorState { mode: toggled(s.mode), ..s }
}

/// The effect of one round of actions on `input`. The exit key with no
/// selection moves the exit request on; with a selection it copies. Any
/// other input cancels the exit request, then: cut (with a selection),
/// switch modes, move, write (in edit mode, printable characters only),
/// delete, or select all; anything else does nothing more.
pub open spec fn dispatch_post(input: Input, keys: Modifiers, s: EditorState, t: EditorState) -> bool {
    let s0 = exit_cancelled(s);
    if input == Input::Exit {
        if s.selection is None {
            t == exit_advanced(s)
        } else {
            t == s0
        }
    } else {
        match input {
            Input::Cancel => if s.selection is Some {
                delete_selection_post(s0, t)
            } else {
                t == s0
            },
            Input::Escape => t == mode_toggled(s0),
            Input::Up | Input::Down | Input::Left | Input::Right => move_post(input, keys, s0, t),
            Input::Char(ch) => if s.mode == CodeEditorMode::Edit && is_printable(ch) {
                write_post(ch, s0, t)
            } else {
                t == s0
            },
            Input::Backspace => delete_post(true, s0, t),
            Input::Delete => delete_post(false, s0, t),
            Input::SelectAll => select_all_post(s0, t),
            _ => t == s0,
        }
    }
}

/// Room for one more character, which the write action may add.
pub open spec fn has_room(s: EditorState) -> bool {
    s.doc.content().len() + 1 < usize::MAX
}

/// Tries the editor's actions on `input` in order, until one claims it:
/// exit, copy and cut, mode switch, movement, writing, deletion, select all.
/// `keys` holds the modifier keys that were down.
pub fn check_editor_actions(input: Input, state: &mut EditorState, keys: Modifiers)
    requires
        has_room(*old(state)),
        old(state).doc.wf(),
    ensures
        dispatch_post(input, keys, *old(state), *final(state)),
        final(state).doc.wf(),
{
    if exit_action(input, state) {
        return;
    }
    if ccp_action(input, state) {
        return;
    }
    if mode_action(input, state) {
        return;
    }
    if move_action(input, state, keys) {
        return;
    }
    if write_action(input, state) {
        return;
    }
    if delete_action(input, state) {
        return;
    }
    select_all_action(input, state);
}

/// The exit key, with nothing selected, moves the exit request on. Any
/// other input, or a selection, cancels it.
fn exit_action(input: Input, state: &mut EditorState) -> (claimed: bool)
    ensures
        claimed == (input == Input::Exit && (old(state).selection is None)),
        claimed ==> *final(state) == exit_advanced(*old(state)),
        !claimed ==> *final(state) == exit_cancelled(*old(state)),
{
    if state.has_selection() || !matches!(input, Input::Exit) {
        state.cancel_exit();
        return false;
    }
    state.request_exit();
    true
}

/// Copy and cut, for a selection: the exit key copies it, the cancel key
/// copies and deletes it.
fn ccp_action(input: Input, state: &mut EditorState) -> (claimed: bool)
    requires
        old(state).doc.wf(),
    ensures
        claimed == ((old(state).selection is Some) && (input == Input::Exit || input
            == Input::Cancel)),
        claimed && input == Input::Cancel ==> delete_selection_post(*old(state), *final(state)),
        !(claimed && input == Input::Cancel) ==> *final(state) == *old(state),
{
    if !state.has_selection() {
        return false;
    }
    if matches!(input, Input::Exit) {
        if let Some(selection) = state.get_selection() {
            copy_to_clipboard(selection.get_text(&state.doc).as_str());
        }
        return true;
    }
    if matches!(input, Input::Cancel) {
        if let Some(selection) = state.get_selection() {
            copy_to_clipboard(selection.get_text(&state.doc).as_str());
            state.delete_selection();
        }
        return true;
    }
    false
}

/// ESC switches between command and edit mode.
fn mode_action(input: Input, state: &mut EditorState) -> (claimed: bool)
    ensures
        claimed == (input == Input::Escape),
        claimed ==> *final(state) == mode_toggled(*old(state)),
        !claimed ==> *final(state) == *old(state),
{
    if matches!(input, Input::Escape) {
        state.toggle_mode();
        return true;
    }
    false
}

/// In edit mode, writes a printable character or a newline in place of the
/// selection.
fn write_action(input: Input, state: &mut EditorState) -> (claimed: bool)
    requires
        has_room(*old(state)),
        old(state).doc.wf(),
    ensures
        claimed == ((input is Char) && old(state).mode == CodeEditorMode::Edit && is_printable(
            input->Char_0,
        )),
        claimed ==> write_post(input->Char_0, *old(state), *final(state)),
        !claimed ==> *final(state) == *old(state),
{
    if let Input::Char(ch) = input {
        if matches!(state.mode(), CodeEditorMode::Command) {
            return false;
        }
        if (ch >= ' ' && ch <= '~') || ch == '\n' {
            state.delete_selection();
            write_char(&mut state.doc, ch);
            return true;
        }
    }
    false
}

/// BACKSPACE and DEL delete the selection, or one character before or after
/// the point.
fn delete_action(input: Input, state: &mut EditorState) -> (claimed: bool)
    requires
        old(state).doc.wf(),
    ensures
        claimed == (input == Input::Backspace || input == Input::Delete),
        claimed ==> delete_post(input == Input::Backspace, *old(state), *final(state)),
        !claimed ==> *final(state) == *old(state),
{
    if let Input::Backspace = input {
        if state.has_selection() {
            state.delete_selection();
        } else {
            delete_prev_char(&mut state.doc);
        }
        return true;
    } else if let Input::Delete = input {
        if state.has_selection() {
            state.delete_selection();
        } else {
            delete_next_char(&mut state.doc);
        }
        return true;
    }
    false
}

/// The arrow keys move the point: by character or line, or with control
/// by word (left and right; up and down do nothing with control). With
/// shift the selection follows the point; without, it is dropped.
fn move_action(input: Input, state: &mut EditorState, keys: Modifiers) -> (claimed: bool)
    requires
        old(state).doc.wf(),
    ensures
        claimed == is_arrow(input),
        claimed ==> move_post(input, keys, *old(state), *final(state)),
        !claimed ==> *final(state) == *old(state),
{
    let matched_input = match input {
        Input::Up | Input::Down | Input::Left | Input::Right => true,
        _ => false,
    };
    if !matched_input {
        return false;
    }
    let ctrl = keys.control;
    let shift = keys.shift;
    if shift {
        state.begin_selection();
    } else {
        state.clear_selection();
    }
    match input {
        Input::Up => {
            if !ctrl {
                prev_line(&mut state.doc);
            }
        },
        Input::Down => {
            if !ctrl {
                next_line(&mut state.doc);
            }
        },
        Input::Left => {
            if ctrl {
                prev_word(&mut state.doc);
            } else {
                prev_char(&mut state.doc);
            }
        },
        _ => {
            if ctrl {
                next_word(&mut state.doc);
            } else {
                next_char(&mut state.doc);
            }
        },
    }
    if shift {
        state.extend_selection();
    }
    true
}

/// Ctrl-A selects all.
fn select_all_action(input: Input, state: &mut EditorState) -> (claimed: bool)
    requires
        old(state).doc.wf(),
    ensures
        claimed == (input == Input::SelectAll),
        claimed ==> select_all_post(*old(state), *final(state)),
        !claimed ==> *final(state) == *old(state),
{
    if matches!(input, Input::SelectAll) {
        state.select_all();
        return true;
    }
    false
}

} // verus!
