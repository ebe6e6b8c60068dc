//! The scrollable help window's state: the key table and the selection.

use vstd::prelude::*;

use crate::config::Config;
use crate::keybindings::{build_keybindings, keybindings_rows, row_view, Keybinding};

verus! {

/// The lowest row the highlight may not scroll past: the window's height
/// (minus borders and padding) short of the table's end.
pub open spec fn scroll_limit(block_height: int, len: int) -> int {
    let frame = if block_height >= 6 {
        block_height - 6
    } else {
        0
    };
    if len >= frame {
        len - frame
    } else {
        0
    }
}

/// Where one scroll step down lands.
pub open spec fn scroll_down_target(selected: Option<usize>, len: int, block_height: int) -> int {
    match selected {
        Some(i) => if i >= scroll_limit(block_height, len) {
            i as int
        } else {
            i + 1
        },
        None => 1,
    }
}

/// Where one scroll step up lands.
pub open spec fn scroll_up_target(selected: Option<usize>) -> int {
    match selected {
        Some(i) => if i > 0 {
            i - 1
        } else {
            0
        },
        None => 1,
    }
}

/// The help window: the rows and which one is highlighted.
#[derive(Debug)]
pub struct Help {
    pub block_height: usize,
    pub selected: Option<usize>,
    pub offset: usize,
    pub keys: Vec<Keybinding>,
}

impl Help {
    pub fn new(config: &Config) -> (r: Self)
        ensures
            r.block_height == 0,
            r.selected == Some(0usize),
            r.offset == 0,
            r.keys@.map_values(|k: Keybinding| row_view(k)) == keybindings_rows(*config),
    {
        Help { block_height: 0, selected: Some(0), offset: 0, keys: build_keybindings(config) }
    }

    /// The renderer reports how tall the window came out.
    pub fn set_block_height(&mut self, height: usize)
        ensures
            *final(self) == (Help { block_height: height, ..*old(self) }),
    {
        self.block_height = height;
    }

    /// Moves the highlight one row down, stopping at the last row that still
    /// leaves a full window visible.
    pub fn scroll_down(&mut self)
        ensures
            final(self).block_height == old(self).block_height,
            final(self).keys == old(self).keys,
            final(self).selected == Some(
                scroll_down_target(
                    old(self).selected,
                    old(self).keys@.len() as int,
                    old(self).block_height as int,
                ) as usize,
            ),
            final(self).offset == final(self).selected->Some_0,
    {
        let len = self.keys.len();
        let frame = if self.block_height >= 6 {
            self.block_height - 6
        } else {
            0
        };
        let limit = if len >= frame {
            len - frame
        } else {
            0
        };
        let i = match self.selected {
            Some(i) => if i >= limit {
                i
            } else {
                i + 1
            },
            None => 1,
        };
        self.offset = i;
        self.selected = Some(i);
    }

    /// Moves the highlight one row up, stopping at the top.
    pub fn scroll_up(&mut self)
        ensures
            final(self).block_height == old(self).block_height,
            final(self).keys == old(self).keys,
            final(self).selected == Some(scroll_up_target(old(self).selected) as usize),
            final(self).offset == final(self).selected->Some_0,
    {
        let i = match self.selected {
            Some(i) => if i > 0 {
                i - 1
            } else {
                0
            },
            None => 1,
        };
        self.offset = i;
        self.selected = Some(i);
    }
}

} // verus!
