//! What a key press asks for, given the pane that has the keyboard.
use vstd::prelude::*;

use crate::model::FocusArea;

verus! {

/// A key press, as far as the screen tells keys apart.
#[derive(Clone, Copy, Debug, PartialEq, Eq, Structural)]
pub enum KeyInput {
    Char(char),
    Up,
    Down,
    Esc,
    Backspace,
    Ctrl(char),
    Other,
}

/// What a key press asks the screen to do.
#[derive(Clone, Copy, Debug, PartialEq, Eq, Structural)]
pub enum KeyCommand {
    Quit,
    MoveSelection(isize),
    Refresh,
    Stage,
    Unstage,
    FocusCommit,
    OpenEditor,
    Commit,
    ToggleFocus,
    FocusFileList,
    Backspace,
    Type(char),
    Ignore,
}

/// The control characters (general category Cc), for which
/// `char::is_control` holds.
pub open spec fn is_control(c: char) -> bool {
    let u = c as u32;
    u <= 0x1F || (0x7F <= u && u <= 0x9F)
}

/// The command for a key: in the file list `q` quits, `j`/`k` and the
/// arrows move, `r` refreshes, `s` and `u` stage and unstage,
/// `c` moves to the commit message, `o` opens the selected file in an
/// editor, `g` commits and Tab switches panes; in
/// the commit message `q` quits, Esc returns to the file list, Backspace
/// deletes, Enter commits, Tab switches panes and any other character that
/// is not a control character is typed. Other keys do nothing.
pub open spec fn key_command(focus: FocusArea, key: KeyInput) -> KeyCommand {
    match focus {
        FocusArea::FileList => match key {
            KeyInput::Char('q') => KeyCommand::Quit,
            KeyInput::Char('j') | KeyInput::Down => KeyCommand::MoveSelection(1isize),
            KeyInput::Char('k') | KeyInput::Up => KeyCommand::MoveSelection(-1isize),
            KeyInput::Char('r') => KeyCommand::Refresh,
            KeyInput::Char('s') => KeyCommand::Stage,
            KeyInput::Char('u') => KeyCommand::Unstage,
            KeyInput::Char('c') => KeyCommand::FocusCommit,
            KeyInput::Char('o') => KeyCommand::OpenEditor,
            KeyInput::Char('g') => KeyCommand::Commit,
            KeyInput::Char('\t') => KeyCommand::ToggleFocus,
            _ => KeyCommand::Ignore,
        },
        FocusArea::CommitInput => match key {
            KeyInput::Char('q') => KeyCommand::Quit,
            KeyInput::Esc => KeyCommand::FocusFileList,
            KeyInput::Backspace => KeyCommand::Backspace,
            KeyInput::Char('\n') => KeyCommand::Commit,
            KeyInput::Char('\t') => KeyCommand::ToggleFocus,
            KeyInput::Char(c) => if is_control(c) {
                KeyCommand::Ignore
            } else {
                KeyCommand::Type(c)
            },
            _ => KeyCommand::Ignore,
        },
    }
}

/// Whether `c` is a control character.
pub fn char_is_control(c: char) -> (r: bool)
    ensures
        r == is_control(c),
{
    let u = c as u32;
    u <= 0x1F || (0x7F <= u && u <= 0x9F)
}

/// The command that a key press asks for.
pub fn handle_key(focus: FocusArea, key: KeyInput) -> (r: KeyCommand)
    ensures
        r == key_command(focus, key),
{
    match focus {
        FocusArea::FileList => match key {
            KeyInput::Char('q') => KeyCommand::Quit,
            KeyInput::Char('j') | KeyInput::Down => KeyCommand::MoveSelection(1),
            KeyInput::Char('k') | KeyInput::Up => KeyCommand::MoveSelection(-1),
            KeyInput::Char('r') => KeyCommand::Refresh,
            KeyInput::Char('s') => KeyCommand::Stage,
            KeyInput::Char('u') => KeyCommand::Unstage,
            KeyInput::Char('c') => KeyCommand::FocusCommit,
            KeyInput::Char('o') => KeyCommand::OpenEditor,
            KeyInput::Char('g') => KeyCommand::Commit,
            KeyInput::Char('\t') => KeyCommand::ToggleFocus,
            _ => KeyCommand::Ignore,
        },
        FocusArea::CommitInput => match key {
            KeyInput::Char('q') => KeyCommand::Quit,
            KeyInput::Esc => KeyCommand::FocusFileList,
            KeyInput::Backspace => KeyCommand::Backspace,
            KeyInput::Char('\n') => KeyCommand::Commit,
            KeyInput::Char('\t') => KeyCommand::ToggleFocus,
            KeyInput::Char(c) => if char_is_control(c) {
                KeyCommand::Ignore
            } else {
                KeyCommand::Type(c)
            },
            _ => KeyCommand::Ignore,
        },
    }
}

/// `q` quits from either pane.
pub proof fn lemma_q_quits(focus: FocusArea)
    ensures
        key_command(focus, KeyInput::Char('q')) == KeyCommand::Quit,
{
}

} // verus!
