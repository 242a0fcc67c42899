//! Key events as the window hears them.

use vstd::prelude::*;

verus! {

// Virtual key codes. These are physical positions and do not shift with the
// keyboard layout, which is what navigation keys want.
pub const RETURN: u16 = 36;
/// Enter on the numeric keypad. Its `characters` is U+0003, a control
/// character, so treated as text it would be filtered out and do nothing.
pub const KEYPAD_ENTER: u16 = 76;
pub const TAB: u16 = 48;
pub const DELETE: u16 = 51;
pub const FORWARD_DELETE: u16 = 117;
pub const HOME: u16 = 115;
pub const END: u16 = 119;
pub const PAGE_UP: u16 = 116;
pub const PAGE_DOWN: u16 = 121;
pub const LEFT: u16 = 123;
pub const RIGHT: u16 = 124;
pub const DOWN: u16 = 125;
pub const UP: u16 = 126;
pub const SPACE: u16 = 49;
pub const F1: u16 = 122;
pub const F2: u16 = 120;
pub const F12: u16 = 111;
pub const F: u16 = 3;
pub const G: u16 = 5;
pub const ESCAPE: u16 = 53;
pub const GRAVE: u16 = 50;

/// The modifiers that matter to a shortcut.
#[derive(Clone, Copy, PartialEq, Eq, Structural, Debug)]
pub struct Modifiers {
    pub command: bool,
    pub shift: bool,
    pub option: bool,
    pub control: bool,
}

/// A key going down.
#[derive(Clone, Copy, PartialEq, Eq, Structural, Debug)]
pub struct KeyEvent {
    pub code: u16,
    pub flags: Modifiers,
    /// The first character the key has without its modifiers.
    pub bare: Option<char>,
}

/// Whether a caret movement takes the selection along.
#[derive(Clone, Copy, PartialEq, Eq, Structural, Debug)]
pub enum Motion {
    Move,
    Extend,
}

/// What one key does to a text. Carried out by the text engine, which knows
/// words, graphemes, indentation and undo.
#[derive(Clone, Copy, PartialEq, Eq, Structural, Debug)]
pub enum EditOp {
    LineStart(Motion),
    LineEnd(Motion),
    WordLeft(Motion),
    WordRight(Motion),
    Left(Motion),
    Right(Motion),
    Up(Motion),
    Down(Motion),
    BufferStart(Motion),
    BufferEnd(Motion),
    PageUp(Motion),
    PageDown(Motion),
    DeleteToLineStart,
    DeleteToLineEnd,
    DeleteWordBackward,
    DeleteWordForward,
    DeleteForward,
    Backspace,
    BackspacePaired,
    NewlineIndented,
    Indent,
    Outdent,
    InsertTab,
    SelectAll,
    Undo,
    Redo,
    ToggleComment,
    MoveLinesUp,
    MoveLinesDown,
    DuplicateLines,
    CollapseCursors,
}

/// Shift turns every motion into a selection extension. This is the only
/// place that mapping happens, so nothing else has to know what a modifier
/// key is.
pub open spec fn motion_with(flags: Modifiers) -> Motion {
    if flags.shift {
        Motion::Extend
    } else {
        Motion::Move
    }
}

/// The key code with the keypad's Enter as Return.
pub open spec fn plain_code(code: u16) -> u16 {
    if code == KEYPAD_ENTER {
        RETURN
    } else {
        code
    }
}

/// `c` as a digit from one to nine.
pub open spec fn tab_digit(c: Option<char>) -> Option<usize> {
    match c {
        Some(c) => if '1' <= c <= '9' {
            Some(((c as u32) - 48) as usize)
        } else {
            None
        },
        None => None,
    }
}

/// See [`motion_with`].
pub fn motion_for(flags: Modifiers) -> (m: Motion)
    ensures
        m == motion_with(flags),
{
    if flags.shift {
        Motion::Extend
    } else {
        Motion::Move
    }
}

/// See [`plain_code`].
pub fn code_of(event: &KeyEvent) -> (code: u16)
    ensures
        code == plain_code(event.code),
{
    if event.code == KEYPAD_ENTER {
        RETURN
    } else {
        event.code
    }
}

/// See [`tab_digit`].
pub fn digit_of(c: Option<char>) -> (d: Option<usize>)
    ensures
        d == tab_digit(c),
{
    match c {
        Some(c) => if '1' <= c && c <= '9' {
            Some((c as u8 - 48u8) as usize)
        } else {
            None
        },
        None => None,
    }
}

} // verus!
