use agent::keys::{map_key, KeyCode, KeyEvent, UiCommand, CONTROL, NONE, SHIFT};

fn key(code: KeyCode, modifiers: u8) -> KeyEvent {
    KeyEvent { code, modifiers }
}

#[test]
fn ctrl_c_always_quits() {
    assert_eq!(map_key(key(KeyCode::Char('c'), CONTROL), false), UiCommand::Quit);
    assert_eq!(map_key(key(KeyCode::Char('c'), CONTROL), true), UiCommand::Quit);
}

#[test]
fn esc_cancels_only_when_streaming() {
    assert_eq!(map_key(key(KeyCode::Esc, NONE), true), UiCommand::Cancel);
    assert_eq!(map_key(key(KeyCode::Esc, NONE), false), UiCommand::Cancel);
}

#[test]
fn enter_submits_when_not_streaming() {
    assert_eq!(map_key(key(KeyCode::Enter, NONE), false), UiCommand::Submit);
}

#[test]
fn enter_ignored_when_streaming() {
    assert_eq!(map_key(key(KeyCode::Enter, NONE), true), UiCommand::Ignore);
}

#[test]
fn shift_enter_inserts_newline() {
    assert_eq!(map_key(key(KeyCode::Enter, SHIFT), false), UiCommand::InsertNewline);
}

#[test]
fn char_input_ignored_when_streaming() {
    assert_eq!(map_key(key(KeyCode::Char('a'), NONE), true), UiCommand::Ignore);
}

#[test]
fn char_input_when_not_streaming() {
    assert_eq!(map_key(key(KeyCode::Char('x'), NONE), false), UiCommand::InsertChar('x'));
}

#[test]
fn scroll_works_during_streaming() {
    assert_eq!(map_key(key(KeyCode::Up, SHIFT), true), UiCommand::ScrollUp);
    assert_eq!(map_key(key(KeyCode::PageUp, NONE), true), UiCommand::PageUp);
}

#[test]
fn ctrl_shortcuts_ignored_when_streaming() {
    assert_eq!(map_key(key(KeyCode::Char('w'), CONTROL), true), UiCommand::Ignore);
    assert_eq!(map_key(key(KeyCode::Char('u'), CONTROL), true), UiCommand::Ignore);
}

#[test]
fn backspace_ignored_when_streaming() {
    assert_eq!(map_key(key(KeyCode::Backspace, NONE), true), UiCommand::Ignore);
}

#[test]
fn ctrl_shortcuts_when_not_streaming() {
    assert_eq!(map_key(key(KeyCode::Char('w'), CONTROL), false), UiCommand::DeleteWord);
    assert_eq!(map_key(key(KeyCode::Char('u'), CONTROL), false), UiCommand::ClearLine);
    assert_eq!(map_key(key(KeyCode::Char('a'), CONTROL), false), UiCommand::MoveToStart);
    assert_eq!(map_key(key(KeyCode::Char('e'), CONTROL), false), UiCommand::MoveToEnd);
    assert_eq!(map_key(key(KeyCode::Char('l'), CONTROL), false), UiCommand::ClearHistory);
    assert_eq!(map_key(key(KeyCode::Char('v'), CONTROL), false), UiCommand::PasteImage);
    assert_eq!(map_key(key(KeyCode::Char('z'), CONTROL), false), UiCommand::InsertChar('z'));
}

#[test]
fn arrows_move_or_browse_history() {
    assert_eq!(map_key(key(KeyCode::Up, NONE), false), UiCommand::HistoryPrev);
    assert_eq!(map_key(key(KeyCode::Down, NONE), false), UiCommand::HistoryNext);
    assert_eq!(map_key(key(KeyCode::Up, NONE), true), UiCommand::Ignore);
    assert_eq!(map_key(key(KeyCode::Down, SHIFT), false), UiCommand::ScrollDown);
    assert_eq!(map_key(key(KeyCode::Left, NONE), false), UiCommand::MoveLeft);
    assert_eq!(map_key(key(KeyCode::Right, NONE), true), UiCommand::Ignore);
}

#[test]
fn paging_and_other_keys() {
    assert_eq!(map_key(key(KeyCode::PageDown, NONE), false), UiCommand::PageDown);
    assert_eq!(map_key(key(KeyCode::End, NONE), true), UiCommand::ScrollToBottom);
    assert_eq!(map_key(key(KeyCode::Tab, NONE), false), UiCommand::Tab);
    assert_eq!(map_key(key(KeyCode::Tab, NONE), true), UiCommand::Ignore);
    assert_eq!(map_key(key(KeyCode::Other, NONE), false), UiCommand::Ignore);
    assert_eq!(map_key(key(KeyCode::Enter, CONTROL), false), UiCommand::Ignore);
}
