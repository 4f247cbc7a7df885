//! The highlighted row of a list that is walked with the arrow keys.

use vstd::prelude::*;

verus! {

/// Which row of a list of `len` rows is highlighted.
pub struct ListView {
    pub selected: nat,
    pub len: nat,
}

impl ListView {
    /// The row above, or the last row from the first.
    pub open spec fn previous(self) -> ListView {
        if self.len == 0 {
            self
        } else if self.selected == 0 {
            ListView { selected: (self.len - 1) as nat, ..self }
        } else {
            ListView { selected: (self.selected - 1) as nat, ..self }
        }
    }

    /// The row below, or the first row from the last.
    pub open spec fn next(self) -> ListView {
        if self.len == 0 {
            self
        } else if self.selected == self.len - 1 {
            ListView { selected: 0, ..self }
        } else {
            ListView { selected: self.selected + 1, ..self }
        }
    }
}

/// The highlighted row of a list. The row exists unless the list is empty.
#[derive(Debug, Clone, Copy)]
pub struct ListState {
    selected: usize,
    len: usize,
}

impl View for ListState {
    type V = ListView;

    closed spec fn view(&self) -> ListView {
        ListView { selected: self.selected as nat, len: self.len as nat }
    }
}

impl ListState {
    #[verifier::type_invariant]
    spec fn selected_in_list(self) -> bool {
        self.selected < self.len || self.selected == 0
    }

    /// The first row of a list of `len` rows.
    pub fn new(len: usize) -> (state: ListState)
        ensures
            state@ == (ListView { selected: 0, len: len as nat }),
    {
        ListState { selected: 0, len }
    }

    /// The highlighted row: below `len` unless the list is empty.
    pub fn selected(&self) -> (row: usize)
        ensures
            row == self@.selected,
            row < self@.len || (row == 0 && self@.len == 0),
    {
        proof {
            use_type_invariant(self);
        }
        self.selected
    }

    /// The number of rows.
    pub fn len(&self) -> (len: usize)
        ensures
            len == self@.len,
    {
        self.len
    }

    /// Moves up one row, from the first row to the last.
    pub fn select_previous(&mut self)
        ensures
            final(self)@ == old(self)@.previous(),
    {
        proof {
            use_type_invariant(&*self);
        }
        if self.len == 0 {
        } else if self.selected == 0 {
            self.selected = self.len - 1;
        } else {
            self.selected = self.selected - 1;
        }
    }

    /// Moves down one row, from the last row to the first.
    pub fn select_next(&mut self)
        ensures
            final(self)@ == old(self)@.next(),
    {
        proof {
            use_type_invariant(&*self);
        }
        if self.len == 0 {
        } else if self.selected == self.len - 1 {
            self.selected = 0;
        } else {
            self.selected = self.selected + 1;
        }
    }
}

} // verus!
