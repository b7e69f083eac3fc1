//! Editing modes, the command vocabulary, and the mapping from keys to commands.

use vstd::prelude::*;
use crate::state::State;

verus! {

/// The two editing modes of a window.
#[derive(Debug, Copy, Clone, PartialEq, Eq, Structural)]
pub enum Mode {
    Normal,
    Insert,
}

/// Which side of an anchor a deletion removes from.
#[derive(Debug, Copy, Clone, PartialEq, Eq, Structural)]
pub enum Direction {
    /// Forward: the character after the anchor.
    F,
    /// Backward: the character before the anchor.
    B,
}

/// What a key press asks the editor to do.
#[derive(Debug, Copy, Clone, PartialEq, Eq, Structural)]
pub enum Command {
    MoveLeft(i32),
    MoveRight(i32),
    MoveUp(i32),
    MoveDown(i32),
    Scroll(i32),
    Quit,
    Insert(char),
    Delete(Direction),
    NewLine,
    Unknown,
    ChangeMode(Mode),
    RecompileSelf,
    Save,
    Digit(u32),
    FocusWindow(u32),
}

/// A key press as the terminal reports it.
#[derive(Debug, Copy, Clone, PartialEq, Eq, Structural)]
pub enum Key {
    Tab,
    Enter,
    Esc,
    Backspace,
    Right,
    Left,
    Up,
    Down,
    Delete,
    Insert,
    Home,
    End,
    PageUp,
    PageDown,
    Char(char),
    Ctrl(char),
    F(u32),
    Unknown(u16),
}

/// Whether the character is one of the ten decimal digits.
pub open spec fn is_digit(c: char) -> bool {
    '0' <= c <= '9'
}

/// The number that a decimal digit stands for.
pub open spec fn digit_value(c: char) -> u32 {
    (c as u32 - '0' as u32) as u32
}

/// Whether the key, in normal mode, gives a command that holds the repeat count.
pub open spec fn takes_count(key: Key) -> bool {
    match key {
        Key::Char(c) => c == 'j' || c == 'k' || c == 'h' || c == 'l' || c == 'b' || c == 'v',
        Key::Down => true,
        Key::Up => true,
        Key::Left => true,
        Key::Right => true,
        _ => false,
    }
}

/// The command that a key stands for in a mode, given the repeat count typed before it.
pub open spec fn key_command(mode: Mode, key: Key, num_prefix: u32) -> Command {
    match mode {
        Mode::Insert => match key {
            Key::Char(c) => Command::Insert(c),
            Key::Tab => Command::Insert('\t'),
            Key::Esc => Command::ChangeMode(Mode::Normal),
            Key::F(n) => if n == 1 {
                Command::ChangeMode(Mode::Normal)
            } else {
                Command::Unknown
            },
            Key::Backspace => Command::Delete(Direction::B),
            Key::Enter => Command::NewLine,
            Key::Down => Command::MoveDown(1),
            Key::Up => Command::MoveUp(1),
            Key::Left => Command::MoveLeft(1),
            Key::Right => Command::MoveRight(1),
            _ => Command::Unknown,
        },
        Mode::Normal => match key {
            Key::Char(c) => if c == 'q' {
                Command::Quit
            } else if c == 'j' {
                Command::MoveDown(num_prefix as i32)
            } else if c == 'k' {
                Command::MoveUp(num_prefix as i32)
            } else if c == 'h' {
                Command::MoveLeft(num_prefix as i32)
            } else if c == 'l' {
                Command::MoveRight(num_prefix as i32)
            } else if c == 'x' {
                Command::Delete(Direction::F)
            } else if c == 'i' {
                Command::ChangeMode(Mode::Insert)
            } else if c == 'b' {
                Command::Scroll(num_prefix as i32)
            } else if c == 'v' {
                Command::Scroll((-(num_prefix as int)) as i32)
            } else if c == 'r' {
                Command::RecompileSelf
            } else if c == ' ' {
                Command::Save
            } else if is_digit(c) {
                Command::Digit(digit_value(c))
            } else if c == 'w' {
                Command::FocusWindow(num_prefix)
            } else {
                Command::Unknown
            },
            Key::Down => Command::MoveDown(num_prefix as i32),
            Key::Up => Command::MoveUp(num_prefix as i32),
            Key::Left => Command::MoveLeft(num_prefix as i32),
            Key::Right => Command::MoveRight(num_prefix as i32),
            _ => Command::Unknown,
        },
    }
}

/// The command that the key stands for in the mode. In normal mode a digit
/// is a digit of the repeat count, and the keys that move or scroll do so
/// as many times as the repeat count says.
pub fn map(mode: Mode, key: Key, state: &State) -> (command: Command)
    requires
        mode == Mode::Normal && takes_count(key) ==> state.num_prefix <= i32::MAX,
    ensures
        command == key_command(mode, key, state.num_prefix),
{
    match mode {
        Mode::Insert => match key {
            Key::Char(c) => Command::Insert(c),
            Key::Tab => Command::Insert('\t'),
            Key::Esc => Command::ChangeMode(Mode::Normal),
            Key::F(n) => if n == 1 {
                Command::ChangeMode(Mode::Normal)
            } else {
                Command::Unknown
            },
            Key::Backspace => Command::Delete(Direction::B),
            Key::Enter => Command::NewLine,
            Key::Down => Command::MoveDown(1),
            Key::Up => Command::MoveUp(1),
            Key::Left => Command::MoveLeft(1),
            Key::Right => Command::MoveRight(1),
            _ => Command::Unknown,
        },
        Mode::Normal => match key {
            Key::Char(c) => if c == 'q' {
                Command::Quit
            } else if c == 'j' {
                Command::MoveDown(state.num_prefix as i32)
            } else if c == 'k' {
                Command::MoveUp(state.num_prefix as i32)
            } else if c == 'h' {
                Command::MoveLeft(state.num_prefix as i32)
            } else if c == 'l' {
                Command::MoveRight(state.num_prefix as i32)
            } else if c == 'x' {
                Command::Delete(Direction::F)
            } else if c == 'i' {
                Command::ChangeMode(Mode::Insert)
            } else if c == 'b' {
                Command::Scroll(state.num_prefix as i32)
            } else if c == 'v' {
                Command::Scroll(-(state.num_prefix as i32))
            } else if c == 'r' {
                Command::RecompileSelf
            } else if c == ' ' {
                Command::Save
            } else if '0' <= c && c <= '9' {
                Command::Digit(c as u32 - '0' as u32)
            } else if c == 'w' {
                Command::FocusWindow(state.num_prefix)
            } else {
                Command::Unknown
            },
            Key::Down => Command::MoveDown(state.num_prefix as i32),
            Key::Up => Command::MoveUp(state.num_prefix as i32),
            Key::Left => Command::MoveLeft(state.num_prefix as i32),
            Key::Right => Command::MoveRight(state.num_prefix as i32),
            _ => Command::Unknown,
        },
    }
}

} // verus!
