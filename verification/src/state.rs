//! The state that all windows of one editing session share.

use vstd::prelude::*;
use crate::settings::Settings;

verus! {

pub struct State {
    pub settings: Settings,
    /// The index that the next window will get.
    pub next_window_index: i32,
    /// The repeat count typed before a command; 1 where none was typed.
    pub num_prefix: u32,
    /// Whether the last key was a digit of the repeat count.
    pub typing_num_prefix: bool,
}

impl State {
    pub fn new() -> (s: State)
        ensures
            s.settings == Settings::initial(),
            s.next_window_index == 1,
            s.num_prefix == 1,
            !s.typing_num_prefix,
    {
        State {
            settings: Settings::new(),
            next_window_index: 1,
            num_prefix: 1,
            typing_num_prefix: false,
        }
    }

    /// The repeat count after the digit `d` is typed: `d` itself where it
    /// opens a count, else the count so far with `d` appended.
    pub open spec fn typed(self, d: u32) -> int {
        if self.typing_num_prefix {
            self.num_prefix * 10 + d
        } else {
            d as int
        }
    }

    /// Takes one more digit of the repeat count.
    pub fn type_num_prefix(&mut self, d: u32)
        requires
            old(self).typed(d) <= u32::MAX,
        ensures
            final(self).num_prefix == old(self).typed(d),
            final(self).typing_num_prefix,
            final(self).settings == old(self).settings,
            final(self).next_window_index == old(self).next_window_index,
    {
        if self.typing_num_prefix {
            self.num_prefix = self.num_prefix * 10 + d;
        } else {
            self.typing_num_prefix = true;
            self.num_prefix = d;
        }
    }

    /// Forgets the repeat count: the next command runs once.
    pub fn end_num_prefix(&mut self)
        ensures
            final(self).num_prefix == 1,
            !final(self).typing_num_prefix,
            final(self).settings == old(self).settings,
            final(self).next_window_index == old(self).next_window_index,
    {
        self.typing_num_prefix = false;
        self.num_prefix = 1;
    }
}

} // verus!
