//! Terminal input as the curses backend reports it, and its translation
//! into backend-independent keys.

use vstd::prelude::*;

use crate::primitive_types::Key;

verus! {

/// One input read from the curses terminal: a character, an unrecognized
/// code, or one of the named special keys.
#[derive(Debug, Copy, Clone, Hash, PartialEq, Eq, Structural)]
pub enum CursesInput {
    Character(char),
    Unknown(i32),
    KeyCodeYes,
    KeyBreak,
    KeyDown,
    KeyUp,
    KeyLeft,
    KeyRight,
    KeyHome,
    KeyBackspace,
    KeyF0,
    KeyF1,
    KeyF2,
    KeyF3,
    KeyF4,
    KeyF5,
    KeyF6,
    KeyF7,
    KeyF8,
    KeyF9,
    KeyF10,
    KeyF11,
    KeyF12,
    KeyF13,
    KeyF14,
    KeyF15,
    KeyDL,
    KeyIL,
    KeyDC,
    KeyIC,
    KeyEIC,
    KeyClear,
    KeyEOS,
    KeyEOL,
    KeySF,
    KeySR,
    KeyNPage,
    KeyPPage,
    KeySTab,
    KeyCTab,
    KeyCATab,
    KeyEnter,
    KeySReset,
    KeyReset,
    KeyPrint,
    KeyLL,
    KeyAbort,
    KeySHelp,
    KeyLHelp,
    KeyBTab,
    KeyBeg,
    KeyCancel,
    KeyClose,
    KeyCommand,
    KeyCopy,
    KeyCreate,
    KeyEnd,
    KeyExit,
    KeyFind,
    KeyHelp,
    KeyMark,
    KeyMessage,
    KeyMove,
    KeyNext,
    KeyOpen,
    KeyOptions,
    KeyPrevious,
    KeyRedo,
    KeyReference,
    KeyRefresh,
    KeyReplace,
    KeyRestart,
    KeyResume,
    KeySave,
    KeySBeg,
    KeySCancel,
    KeySCommand,
    KeySCopy,
    KeySCreate,
    KeySDC,
    KeySDL,
    KeySelect,
    KeySEnd,
    KeySEOL,
    KeySExit,
    KeySFind,
    KeySHome,
    KeySIC,
    KeySLeft,
    KeySMessage,
    KeySMove,
    KeySNext,
    KeySOptions,
    KeySPrevious,
    KeySPrint,
    KeySRedo,
    KeySReplace,
    KeySRight,
    KeySResume,
    KeySSave,
    KeySSuspend,
    KeySUndo,
    KeySuspend,
    KeyUndo,
    KeyResize,
    KeyEvent,
    KeyMouse,
    KeyA1,
    KeyA3,
    KeyB2,
    KeyC1,
    KeyC3,
}

/// The key that an input stands for: the arrow keys, escape, space and other
/// characters have a key of their own; everything else is `Key::Unknown`.
pub open spec fn key_of(input: CursesInput) -> Key {
    match input {
        CursesInput::KeyLeft => Key::Left,
        CursesInput::KeyRight => Key::Right,
        CursesInput::KeyUp => Key::Up,
        CursesInput::KeyDown => Key::Down,
        CursesInput::Character(c) => if c == '\u{1b}' {
            Key::Escape
        } else if c == ' ' {
            Key::Space
        } else {
            Key::Char(c)
        },
        _ => Key::Unknown,
    }
}

impl CursesInput {
    /// Translates this input into a backend-independent key.
    pub fn into_key(self) -> (key: Key)
        ensures
            key == key_of(self),
    {
        match self {
            CursesInput::KeyLeft => Key::Left,
            CursesInput::KeyRight => Key::Right,
            CursesInput::KeyUp => Key::Up,
            CursesInput::KeyDown => Key::Down,
            CursesInput::Character(c) => if c == '\u{1b}' {
                Key::Escape
            } else if c == ' ' {
                Key::Space
            } else {
                Key::Char(c)
            },
            _ => Key::Unknown,
        }
    }
}

} // verus!
