//! The events that the keyboard reports.

use vstd::prelude::*;

verus! {

/// A button of the mouse, or a direction of its wheel.
#[derive(Clone, Copy, Debug, PartialEq, Eq, Hash, Structural)]
pub enum MouseButton {
    Left,
    Middle,
    Right,
    WheelUp,
    WheelDown,
}

/// One keystroke, mouse event or terminal report.
///
/// Letters carried by `Ctrl` and `CtrlAlt` are lower case. `CursorPos`
/// carries the row first and the column second, both counted from zero.
/// Mouse events carry the column first and the row second. Those of an SGR
/// report count from zero; those of an X10 or an rxvt report are the numbers
/// that the terminal sent, which count from one.
#[derive(Clone, Copy, Debug, PartialEq, Eq, Hash, Structural)]
pub enum Key {
    ESC,
    Ctrl(char),
    Tab,
    Enter,
    BackTab,
    Backspace,
    Up,
    Down,
    Left,
    Right,
    Home,
    End,
    Insert,
    Delete,
    PageUp,
    PageDown,
    CtrlUp,
    CtrlDown,
    CtrlLeft,
    CtrlRight,
    ShiftUp,
    ShiftDown,
    ShiftLeft,
    ShiftRight,
    F(u8),
    CtrlAlt(char),
    AltEnter,
    AltBackspace,
    AltTab,
    AltUp,
    AltDown,
    AltLeft,
    AltRight,
    AltHome,
    AltEnd,
    AltPageUp,
    AltPageDown,
    AltShiftUp,
    AltShiftDown,
    AltShiftLeft,
    AltShiftRight,
    Char(char),
    Alt(char),
    CursorPos(u16, u16),
    MousePress(MouseButton, u16, u16),
    MouseRelease(u16, u16),
    MouseHold(u16, u16),
}

} // verus!
