//! Editor-wide settings.

use vstd::prelude::*;

verus! {

/// A terminal colour: one of the eight named ones, a palette entry, or the
/// terminal's own default.
#[derive(Clone, Copy, Debug, PartialEq, Eq, Structural)]
pub enum Color {
    Black,
    Red,
    Green,
    Yellow,
    Blue,
    Magenta,
    Cyan,
    White,
    Byte(u16),
    Default,
}

/// The value of one setting.
#[derive(Debug)]
pub enum Value {
    Color(Color),
    Number(i32),
    String(String),
}

#[derive(Clone, Copy, Debug, PartialEq, Eq, Structural)]
pub struct Settings {
    /// The colour of the line numbers in the gutter.
    pub line_num_color: Color,
    /// Whether the tab key inserts spaces rather than a tab character.
    pub insert_spaces: bool,
    pub num_spaces_per_tab: usize,
    pub tab_width: usize,
}

impl Settings {
    /// The settings that an editing session starts with.
    pub open spec fn initial() -> Settings {
        Settings {
            line_num_color: Color::Yellow,
            insert_spaces: false,
            num_spaces_per_tab: 4,
            tab_width: 4,
        }
    }

    pub fn new() -> (s: Settings)
        ensures
            s == Settings::initial(),
    {
        Settings {
            line_num_color: Color::Yellow,
            insert_spaces: false,
            num_spaces_per_tab: 4,
            tab_width: 4,
        }
    }
}

} // verus!
