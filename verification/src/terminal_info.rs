//! The size of the terminal window.

use vstd::prelude::*;

verus! {

/// What a window of `columns` columns and `rows` rows is taken for: its
/// size where both are positive, no terminal where one is 0.
pub open spec fn window_size(columns: u16, rows: u16) -> Option<Seq<u16>> {
    if columns > 0 && rows > 0 {
        Some(seq![columns, rows])
    } else {
        None
    }
}

/// The size of the terminal, columns first, from the columns and rows that
/// the system reports for the window; `None` where it reports none.
pub fn get_terminal_size(columns: u16, rows: u16) -> (size: Option<[u16; 2]>)
    ensures
        size is Some <==> window_size(columns, rows) is Some,
        size is Some ==> size->0@ == window_size(columns, rows)->0,
{
    if columns > 0 && rows > 0 {
        let size = [columns, rows];
        assert(size@ =~= seq![columns, rows]);
        Some(size)
    } else {
        None
    }
}

} // verus!
