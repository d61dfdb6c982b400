//! Cursors over lists: the selected row, and how it moves.

use vstd::prelude::*;

verus! {

/// The selection of a list or table: the selected row, if any.
#[derive(Clone, Debug, PartialEq, Eq)]
pub struct SelectionState {
    pub selected: Option<usize>,
}

/// An optional position as contracts see it.
pub open spec fn opt_index(position: Option<usize>) -> Option<int> {
    match position {
        Some(i) => Some(i as int),
        None => None,
    }
}

/// Positions as contracts see them.
pub open spec fn indices(positions: Seq<usize>) -> Seq<int> {
    positions.map_values(|i: usize| i as int)
}

impl View for SelectionState {
    type V = Option<int>;

    open spec fn view(&self) -> Option<int> {
        opt_index(self.selected)
    }
}

/// The row cursor after "up": one row higher, stopping at the first row. A
/// cursor that is not set counts as standing on the first row.
pub open spec fn row_up(selected: Option<int>) -> Option<int> {
    match selected {
        Some(i) if i > 0 => Some(i - 1),
        _ => Some(0),
    }
}

/// The row cursor after "down" over `len` rows: one row lower, unless that
/// would leave the rows. A cursor that is not set counts as standing on the
/// first row.
pub open spec fn row_down(selected: Option<int>, len: int) -> Option<int> {
    let at = match selected {
        Some(i) => i,
        None => 0,
    };
    if at + 1 < len {
        Some(at + 1)
    } else {
        selected
    }
}

/// The list cursor after "up": one row higher, stopping at the first row; a
/// cursor that is not set stays so.
pub open spec fn list_up(selected: Option<int>) -> Option<int> {
    match selected {
        Some(i) if i > 0 => Some(i - 1),
        _ => selected,
    }
}

/// The list cursor after "down" over `len` rows: one row lower, stopping at
/// the last row; a cursor that is not set stays so.
pub open spec fn list_down(selected: Option<int>, len: int) -> Option<int> {
    match selected {
        Some(i) if i + 1 < len => Some(i + 1),
        _ => selected,
    }
}

/// The selection among `count` matches after "up": from no selection to the
/// last match, from the first match to no selection, else one match higher.
/// With no match nothing changes.
pub open spec fn selection_up(current: Option<int>, count: int) -> Option<int> {
    if count <= 0 {
        current
    } else {
        match current {
            Some(i) if i > 0 => Some(i - 1),
            Some(_) => None,
            None => Some(count - 1),
        }
    }
}

/// The selection among `count` matches after "down": from no selection to the
/// first match, from the last match (or beyond) to no selection, else one
/// match lower. With no match nothing changes.
pub open spec fn selection_down(current: Option<int>, count: int) -> Option<int> {
    if count <= 0 {
        current
    } else {
        match current {
            Some(i) if i < count - 1 => Some(i + 1),
            Some(_) => None,
            None => Some(0),
        }
    }
}

impl SelectionState {
    /// A selection on `selected`.
    pub fn new(selected: Option<usize>) -> (state: SelectionState)
        ensures
            state.selected == selected,
    {
        SelectionState { selected }
    }

    /// The selected row.
    pub fn selected(&self) -> (selected: Option<usize>)
        ensures
            selected == self.selected,
    {
        self.selected
    }

    /// Selects a row, or none.
    pub fn select(&mut self, index: Option<usize>)
        ensures
            final(self).selected == index,
    {
        self.selected = index;
    }
}

/// Whether two lists hold the same positions in the same order.
pub fn same_positions(a: &Vec<usize>, b: &Vec<usize>) -> (same: bool)
    ensures
        same == (indices(a@) == indices(b@)),
{
    if a.len() != b.len() {
        assert(indices(a@).len() != indices(b@).len());
        return false;
    }
    let mut i: usize = 0;
    while i < a.len()
        invariant
            a.len() == b.len(),
            i <= a.len(),
            forall|k: int| 0 <= k < i ==> a@[k] == b@[k],
        decreases a.len() - i,
    {
        if a[i] != b[i] {
            assert(indices(a@)[i as int] != indices(b@)[i as int]);
            return false;
        }
        i += 1;
    }
    assert(indices(a@) =~= indices(b@));
    true
}

/// Moves a row cursor up.
pub fn move_row_up(selected: Option<usize>) -> (next: Option<usize>)
    ensures
        opt_index(next) == row_up(opt_index(selected)),
{
    match selected {
        Some(i) => if i > 0 {
            Some(i - 1)
        } else {
            Some(0)
        },
        None => Some(0),
    }
}

/// Moves a row cursor down over `len` rows.
pub fn move_row_down(selected: Option<usize>, len: usize) -> (next: Option<usize>)
    ensures
        opt_index(next) == row_down(opt_index(selected), len as int),
{
    let at: usize = match selected {
        Some(i) => i,
        None => 0,
    };
    if at < len && at + 1 < len {
        Some(at + 1)
    } else {
        selected
    }
}

/// Moves a list cursor up.
pub fn move_list_up(selected: Option<usize>) -> (next: Option<usize>)
    ensures
        opt_index(next) == list_up(opt_index(selected)),
{
    match selected {
        Some(i) => if i > 0 {
            Some(i - 1)
        } else {
            selected
        },
        None => None,
    }
}

/// Moves a list cursor down over `len` rows.
pub fn move_list_down(selected: Option<usize>, len: usize) -> (next: Option<usize>)
    ensures
        opt_index(next) == list_down(opt_index(selected), len as int),
{
    match selected {
        Some(i) => if i < len && i + 1 < len {
            Some(i + 1)
        } else {
            selected
        },
        None => None,
    }
}

/// Moves the selection among `count` matches up. From the first match it
/// goes to no selection: it does not wrap around.
pub fn move_selection_up(current: Option<usize>, count: usize) -> (next: Option<usize>)
    ensures
        opt_index(next) == selection_up(opt_index(current), count as int),
        count > 0 && current == Some(0usize) ==> next is None,
{
    if count == 0 {
        current
    } else {
        match current {
            Some(i) => if i > 0 {
                Some(i - 1)
            } else {
                None
            },
            None => Some(count - 1),
        }
    }
}

/// Moves the selection among `count` matches down. From the last match it
/// goes to no selection: it does not wrap around.
pub fn move_selection_down(current: Option<usize>, count: usize) -> (next: Option<usize>)
    ensures
        opt_index(next) == selection_down(opt_index(current), count as int),
        count > 0 && current == Some((count - 1) as usize) ==> next is None,
{
    if count == 0 {
        current
    } else {
        match current {
            Some(i) => if i < count - 1 {
                Some(i + 1)
            } else {
                None
            },
            None => Some(0),
        }
    }
}

} // verus!
