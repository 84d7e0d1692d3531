//! Turning the bytes that the terminal sends into editing events.
use vstd::prelude::*;

use crate::ansi::{decimal, push_decimal};
use crate::document::string_of;

verus! {

/// A single unit of input: a character, or a key such as ESC or an arrow.
/// Some keys arrive as two bytes, so bytes and inputs do not map one to one.
#[derive(Debug, Clone, Copy, PartialEq, Eq, Structural)]
pub enum Input {
    Char(char),
    Exit,
    Backspace,
    Escape,
    Delete,
    Up,
    Left,
    Right,
    Down,
    Cancel,
    SelectAll,
    Unknown,
}

/// A modifier key whose state the platform can be asked for.
#[derive(Debug, Clone, Copy, PartialEq, Eq, Structural)]
pub enum ModifierKey {
    Shift,
    Control,
    Alt,
}

/// Which modifier keys were down when an input arrived.
#[derive(Debug, Clone, Copy, PartialEq, Eq, Structural)]
pub struct Modifiers {
    pub control: bool,
    pub shift: bool,
}

/// 'Start of Heading', sent for Ctrl-A.
pub const ASCII_SOH: u8 = 1;

/// 'End of Text', sent for Ctrl-C.
pub const ASCII_EOT: u8 = 3;

pub const ASCII_BACKSPACE: u8 = 8;

/// Carriage return, sent for the enter key.
pub const ASCII_CR: u8 = 13;

/// Sent for Ctrl-X.
pub const ASCII_CANCEL: u8 = 24;

pub const ASCII_ESC: u8 = 27;

/// The first byte of the two that the arrow and delete keys send.
pub const ESCAPE_BEGIN: u8 = 224;

pub const ESCAPE_UP: u8 = 72;

pub const ESCAPE_DOWN: u8 = 80;

pub const ESCAPE_LEFT: u8 = 75;

pub const ESCAPE_LEFT2: u8 = 115;

pub const ESCAPE_RIGHT: u8 = 77;

pub const ESCAPE_RIGHT2: u8 = 116;

pub const ESCAPE_DELETE: u8 = 83;

/// The key that the byte after `ESCAPE_BEGIN` names.
pub open spec fn escaped_input(b: u8) -> Input {
    if b == ESCAPE_UP {
        Input::Up
    } else if b == ESCAPE_DOWN {
        Input::Down
    } else if b == ESCAPE_LEFT || b == ESCAPE_LEFT2 {
        Input::Left
    } else if b == ESCAPE_RIGHT || b == ESCAPE_RIGHT2 {
        Input::Right
    } else if b == ESCAPE_DELETE {
        Input::Delete
    } else {
        Input::Unknown
    }
}

/// The input that a single byte stands for; a carriage return is a newline,
/// and a byte with no other meaning is the character with that code.
pub open spec fn single_input(b: u8) -> Input {
    if b == ASCII_SOH {
        Input::SelectAll
    } else if b == ASCII_EOT {
        Input::Exit
    } else if b == ASCII_BACKSPACE {
        Input::Backspace
    } else if b == ASCII_ESC {
        Input::Escape
    } else if b == ASCII_CANCEL {
        Input::Cancel
    } else if b == ASCII_CR {
        Input::Char('\n')
    } else {
        Input::Char(b as char)
    }
}

/// The input that the bytes read so far decode to, or `None` when one more
/// byte must be read first.
pub open spec fn decode(bytes: Seq<u8>) -> Option<Input> {
    if bytes[0] == ESCAPE_BEGIN {
        if bytes.len() == 1 {
            None
        } else {
            Some(escaped_input(bytes[1]))
        }
    } else {
        Some(single_input(bytes[0]))
    }
}

/// The debug trace of the bytes read: each byte as a space and its decimal
/// value.
pub open spec fn trace(bytes: Seq<u8>) -> Seq<char>
    decreases bytes.len(),
{
    if bytes.len() == 0 {
        seq![]
    } else {
        trace(bytes.drop_last()) + seq![' '] + decimal(bytes.last() as nat)
    }
}

/// The bytes read for one input are one byte, or `ESCAPE_BEGIN` and one more.
pub open spec fn input_bytes(bytes: Seq<u8>) -> bool {
    bytes.len() == 1 || (bytes.len() == 2 && bytes[0] == ESCAPE_BEGIN)
}

/// Whether `bytes` may be handed to `get_input`: one byte, or
/// `ESCAPE_BEGIN` and one more.
pub fn input_bytes_ok(bytes: &[u8]) -> (r: bool)
    ensures
        r == input_bytes(bytes@),
{
    bytes.len() == 1 || (bytes.len() == 2 && bytes[0] == ESCAPE_BEGIN)
}

fn escaped(b: u8) -> (r: Input)
    ensures
        r == escaped_input(b),
{
    match b {
        ESCAPE_UP => Input::Up,
        ESCAPE_DOWN => Input::Down,
        ESCAPE_LEFT | ESCAPE_LEFT2 => Input::Left,
        ESCAPE_RIGHT | ESCAPE_RIGHT2 => Input::Right,
        ESCAPE_DELETE => Input::Delete,
        _ => Input::Unknown,
    }
}

/// Decodes the bytes read so far for one input and records them in the
/// debug trace, overwriting the previous one. Returns `None` when the bytes
/// begin a two-byte key and the second must be read first.
pub fn get_input(debug: &mut String, consumed: &[u8]) -> (r: Option<Input>)
    requires
        input_bytes(consumed@),
    ensures
        r == decode(consumed@),
        final(debug)@ == trace(consumed@),
{
    let mut t: Vec<char> = Vec::new();
    let mut i: usize = 0;
    while i < consumed.len()
        invariant
            i <= consumed@.len(),
            t@ == trace(consumed@.subrange(0, i as int)),
        decreases consumed@.len() - i,
    {
        let ghost before = t@;
        t.push(' ');
        push_decimal(&mut t, consumed[i] as u128);
        proof {
            let s = consumed@.subrange(0, i + 1);
            assert(s.drop_last() =~= consumed@.subrange(0, i as int));
            assert(t@ =~= before + seq![' '] + decimal(consumed@[i as int] as nat));
        }
        i = i + 1;
    }
    assert(consumed@.subrange(0, consumed@.len() as int) =~= consumed@);
    *debug = string_of(t.as_slice());
    let first = consumed[0];
    match first {
        ASCII_SOH => Some(Input::SelectAll),
        ASCII_EOT => Some(Input::Exit),
        ASCII_BACKSPACE => Some(Input::Backspace),
        ASCII_ESC => Some(Input::Escape),
        ASCII_CANCEL => Some(Input::Cancel),
        ESCAPE_BEGIN => {
            if consumed.len() == 1 {
                None
            } else {
                Some(escaped(consumed[1]))
            }
        },
        ASCII_CR => Some(Input::Char('\n')),
        other => Some(Input::Char(other as char)),
    }
}

} // verus!
