//! The checkbox list of the terminal: what each key does to the selection.
//!
//! The terminal itself is driven from outside. It hands each key to
//! [`SelectionState::step`] and goes on until that returns a result.

use vstd::prelude::*;

verus! {

/// The result of a selection: the chosen indices, in the order in which
/// they were chosen, or a cancellation.
#[derive(Debug, Clone)]
pub struct TuiSelection {
    pub selected: Vec<usize>,
    pub cancelled: bool,
}

/// The keys that the list reacts to.
#[derive(Debug, Clone, Copy, PartialEq, Eq, Structural)]
pub enum Key {
    /// `q`, `Esc` or `Ctrl-C`.
    Quit,
    Up,
    Down,
    /// The space bar.
    Toggle,
    /// `Enter`.
    Apply,
    Other,
}

/// The state of the list: the row of the cursor, the chosen rows and the
/// number of rows.
#[derive(Debug, Clone)]
pub struct SelectionState {
    pub cursor: Option<usize>,
    pub selected: Vec<usize>,
    pub len: usize,
}

/// The row below `cursor`, the first row below the last.
pub open spec fn row_below(cursor: Option<usize>, len: usize) -> usize {
    match cursor {
        Some(idx) => if idx + 1 >= len {
            0
        } else {
            (idx + 1) as usize
        },
        None => 0,
    }
}

/// The row above `cursor`, the last row above the first.
pub open spec fn row_above(cursor: Option<usize>, len: usize) -> usize {
    match cursor {
        Some(idx) => if idx == 0 {
            (len - 1) as usize
        } else {
            (idx - 1) as usize
        },
        None => 0,
    }
}

/// The chosen rows once row `idx` was toggled: without the first place
/// where `idx` stood, or with `idx` at the end where it did not stand.
pub open spec fn toggled(selected: Seq<usize>, idx: usize) -> Seq<usize> {
    match selected.index_of_first(idx) {
        Some(pos) => selected.remove(pos),
        None => selected.push(idx),
    }
}

impl SelectionState {
    /// The state of a fresh list of `len` rows: the cursor on the first row,
    /// and `preselected` chosen.
    pub fn new(len: usize, preselected: &[usize]) -> (r: Self)
        ensures
            r.cursor == Some(0usize),
            r.selected@ == preselected@,
            r.len == len,
    {
        let mut selected: Vec<usize> = Vec::new();
        let mut i: usize = 0;
        while i < preselected.len()
            invariant
                i <= preselected.len(),
                selected@ == preselected@.take(i as int),
            decreases preselected.len() - i,
        {
            selected.push(preselected[i]);
            i += 1;
        }
        assert(preselected@.take(preselected.len() as int) == preselected@);
        Self { cursor: Some(0), selected, len }
    }

    /// Moves the cursor one row down.
    pub fn next(&mut self)
        ensures
            final(self).cursor == Some(row_below(old(self).cursor, old(self).len)),
            final(self).selected == old(self).selected,
            final(self).len == old(self).len,
    {
        let idx = match self.cursor {
            Some(idx) => {
                if idx >= self.len || idx + 1 >= self.len {
                    0
                } else {
                    idx + 1
                }
            },
            None => 0,
        };
        self.cursor = Some(idx);
    }

    /// Moves the cursor one row up.
    pub fn previous(&mut self)
        requires
            old(self).len > 0,
        ensures
            final(self).cursor == Some(row_above(old(self).cursor, old(self).len)),
            final(self).selected == old(self).selected,
            final(self).len == old(self).len,
    {
        let idx = match self.cursor {
            Some(idx) => {
                if idx == 0 {
                    self.len - 1
                } else {
                    idx - 1
                }
            },
            None => 0,
        };
        self.cursor = Some(idx);
    }

    /// Chooses the row of the cursor, or drops it if it was chosen.
    pub fn toggle(&mut self)
        ensures
            final(self).cursor == old(self).cursor,
            final(self).len == old(self).len,
            final(self).selected@ == match old(self).cursor {
                Some(idx) => toggled(old(self).selected@, idx),
                None => old(self).selected@,
            },
    {
        if let Some(idx) = self.cursor {
            let mut pos: usize = 0;
            let n = self.selected.len();
            while pos < n && self.selected[pos] != idx
                invariant
                    pos <= n,
                    n == self.selected.len(),
                    *self == *old(self),
                    forall|j: int| 0 <= j < pos ==> self.selected@[j] != idx,
                decreases n - pos,
            {
                pos += 1;
            }
            proof {
                self.selected@.index_of_first_ensures(idx);
            }
            if pos < n {
                assert(self.selected@[pos as int] == idx);
                self.selected.remove(pos);
            } else {
                self.selected.push(idx);
            }
        }
    }

    /// What the key `key` does: the result of the selection where the key
    /// ends it, and else nothing, with the state moved on.
    pub fn step(&mut self, key: Key) -> (r: Option<TuiSelection>)
        requires
            old(self).len > 0,
        ensures
            final(self).len == old(self).len,
            key == Key::Quit ==> r is Some && r->0.cancelled && r->0.selected@.len() == 0
                && *final(self) == *old(self),
            key == Key::Apply ==> r is Some && !r->0.cancelled && r->0.selected@ == old(
                self,
            ).selected@ && *final(self) == *old(self),
            key == Key::Up ==> r is None && final(self).selected == old(self).selected
                && final(self).cursor == Some(row_above(old(self).cursor, old(self).len)),
            key == Key::Down ==> r is None && final(self).selected == old(self).selected
                && final(self).cursor == Some(row_below(old(self).cursor, old(self).len)),
            key == Key::Toggle ==> r is None && final(self).cursor == old(self).cursor
                && final(self).selected@ == match old(self).cursor {
                Some(idx) => toggled(old(self).selected@, idx),
                None => old(self).selected@,
            },
            key == Key::Other ==> r is None && *final(self) == *old(self),
    {
        match key {
            Key::Quit => Some(TuiSelection { selected: Vec::new(), cancelled: true }),
            Key::Apply => {
                let mut chosen: Vec<usize> = Vec::new();
                let mut i: usize = 0;
                while i < self.selected.len()
                    invariant
                        i <= self.selected.len(),
                        *self == *old(self),
                        chosen@ == self.selected@.take(i as int),
                    decreases self.selected.len() - i,
                {
                    chosen.push(self.selected[i]);
                    i += 1;
                }
                assert(self.selected@.take(self.selected.len() as int) == self.selected@);
                Some(TuiSelection { selected: chosen, cancelled: false })
            },
            Key::Up => {
                self.previous();
                None
            },
            Key::Down => {
                self.next();
                None
            },
            Key::Toggle => {
                self.toggle();
                None
            },
            Key::Other => None,
        }
    }
}

} // verus!
