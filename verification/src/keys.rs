//! Key presses mapped to commands of the user interface.
use vstd::prelude::*;

verus! {

/// The key that was pressed (the keys the interface tells apart).
#[derive(Clone, Copy, Debug, PartialEq, Eq)]
pub enum KeyCode {
    Char(char),
    Esc,
    Enter,
    Backspace,
    Left,
    Right,
    Up,
    Down,
    PageUp,
    PageDown,
    End,
    Tab,
    Other,
}

/// No modifier held.
pub const NONE: u8 = 0;

/// The shift modifier bit.
pub const SHIFT: u8 = 1;

/// The control modifier bit.
pub const CONTROL: u8 = 2;

/// A key press: the key and the set of modifiers held, as bits.
#[derive(Clone, Copy, Debug, PartialEq, Eq)]
pub struct KeyEvent {
    pub code: KeyCode,
    pub modifiers: u8,
}

/// What a key press asks the interface to do.
#[derive(Debug, PartialEq, Eq)]
pub enum UiCommand {
    Quit,
    Cancel,
    Submit,
    InsertNewline,
    InsertChar(char),
    Backspace,
    DeleteWord,
    ClearLine,
    MoveLeft,
    MoveRight,
    MoveToStart,
    MoveToEnd,
    HistoryPrev,
    HistoryNext,
    ScrollUp,
    ScrollDown,
    PageUp,
    PageDown,
    ScrollToBottom,
    ClearHistory,
    Tab,
    PasteImage,
    Paste(String),
    Ignore,
}

/// The command of a key press. Ctrl-C quits and Esc cancels at any time;
/// scrolling works while a reply streams in; every other key is ignored
/// while streaming.
pub open spec fn key_command(key: KeyEvent, streaming: bool) -> UiCommand {
    let m = key.modifiers;
    match key.code {
        KeyCode::Char(c) => if c == 'c' && m == CONTROL {
            UiCommand::Quit
        } else if streaming {
            UiCommand::Ignore
        } else if m == CONTROL && c == 'w' {
            UiCommand::DeleteWord
        } else if m == CONTROL && c == 'u' {
            UiCommand::ClearLine
        } else if m == CONTROL && c == 'a' {
            UiCommand::MoveToStart
        } else if m == CONTROL && c == 'e' {
            UiCommand::MoveToEnd
        } else if m == CONTROL && c == 'l' {
            UiCommand::ClearHistory
        } else if m == CONTROL && c == 'v' {
            UiCommand::PasteImage
        } else {
            UiCommand::InsertChar(c)
        },
        KeyCode::Esc => UiCommand::Cancel,
        KeyCode::Enter => if !streaming && m == SHIFT {
            UiCommand::InsertNewline
        } else if !streaming && m == NONE {
            UiCommand::Submit
        } else {
            UiCommand::Ignore
        },
        KeyCode::Backspace => if streaming {
            UiCommand::Ignore
        } else {
            UiCommand::Backspace
        },
        KeyCode::Left => if streaming {
            UiCommand::Ignore
        } else {
            UiCommand::MoveLeft
        },
        KeyCode::Right => if streaming {
            UiCommand::Ignore
        } else {
            UiCommand::MoveRight
        },
        KeyCode::Up => if m == SHIFT {
            UiCommand::ScrollUp
        } else if streaming {
            UiCommand::Ignore
        } else {
            UiCommand::HistoryPrev
        },
        KeyCode::Down => if m == SHIFT {
            UiCommand::ScrollDown
        } else if streaming {
            UiCommand::Ignore
        } else {
            UiCommand::HistoryNext
        },
        KeyCode::PageUp => UiCommand::PageUp,
        KeyCode::PageDown => UiCommand::PageDown,
        KeyCode::End => UiCommand::ScrollToBottom,
        KeyCode::Tab => if streaming {
            UiCommand::Ignore
        } else {
            UiCommand::Tab
        },
        KeyCode::Other => UiCommand::Ignore,
    }
}

/// The commands that stay available while a reply streams in.
pub open spec fn allowed_while_streaming(c: UiCommand) -> bool {
    ||| c == UiCommand::Quit
    ||| c == UiCommand::Cancel
    ||| c == UiCommand::ScrollUp
    ||| c == UiCommand::ScrollDown
    ||| c == UiCommand::PageUp
    ||| c == UiCommand::PageDown
    ||| c == UiCommand::ScrollToBottom
    ||| c == UiCommand::Ignore
}

/// Maps a key press to a command; `streaming` tells whether a reply is
/// streaming in.
pub fn map_key(key: KeyEvent, streaming: bool) -> (r: UiCommand)
    ensures
        r == key_command(key, streaming),
        key.code == KeyCode::Char('c') && key.modifiers == CONTROL ==> r == UiCommand::Quit,
        key.code == KeyCode::Esc ==> r == UiCommand::Cancel,
        streaming ==> allowed_while_streaming(r),
        streaming && r != UiCommand::Ignore ==> r == key_command(key, false),
{
    let m = key.modifiers;
    match key.code {
        KeyCode::Char(c) => {
            if c == 'c' && m == CONTROL {
                UiCommand::Quit
            } else if streaming {
                UiCommand::Ignore
            } else if m == CONTROL && c == 'w' {
                UiCommand::DeleteWord
            } else if m == CONTROL && c == 'u' {
                UiCommand::ClearLine
            } else if m == CONTROL && c == 'a' {
                UiCommand::MoveToStart
            } else if m == CONTROL && c == 'e' {
                UiCommand::MoveToEnd
            } else if m == CONTROL && c == 'l' {
                UiCommand::ClearHistory
            } else if m == CONTROL && c == 'v' {
                UiCommand::PasteImage
            } else {
                UiCommand::InsertChar(c)
            }
        },
        KeyCode::Esc => UiCommand::Cancel,
        KeyCode::Enter => {
            if !streaming && m == SHIFT {
                UiCommand::InsertNewline
            } else if !streaming && m == NONE {
                UiCommand::Submit
            } else {
                UiCommand::Ignore
            }
        },
        KeyCode::Backspace => {
            if streaming {
                UiCommand::Ignore
            } else {
                UiCommand::Backspace
            }
        },
        KeyCode::Left => {
            if streaming {
                UiCommand::Ignore
            } else {
                UiCommand::MoveLeft
            }
        },
        KeyCode::Right => {
            if streaming {
                UiCommand::Ignore
            } else {
                UiCommand::MoveRight
            }
        },
        KeyCode::Up => {
            if m == SHIFT {
                UiCommand::ScrollUp
            } else if streaming {
                UiCommand::Ignore
            } else {
                UiCommand::HistoryPrev
            }
        },
        KeyCode::Down => {
            if m == SHIFT {
                UiCommand::ScrollDown
            } else if streaming {
                UiCommand::Ignore
            } else {
                UiCommand::HistoryNext
            }
        },
        KeyCode::PageUp => UiCommand::PageUp,
        KeyCode::PageDown => UiCommand::PageDown,
        KeyCode::End => UiCommand::ScrollToBottom,
        KeyCode::Tab => {
            if streaming {
                UiCommand::Ignore
            } else {
                UiCommand::Tab
            }
        },
        KeyCode::Other => UiCommand::Ignore,
    }
}

} // verus!
