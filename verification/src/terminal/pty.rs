//! The size of a terminal.
use vstd::prelude::*;

verus! {

/// A size that a terminal can have: neither side is zero. A browser tab that is
/// still laying out reports a size of nothing by nothing.
pub open spec fn usable(cols: u16, rows: u16) -> (u16, u16) {
    (
        if cols == 0 {
            1
        } else {
            cols
        },
        if rows == 0 {
            1
        } else {
            rows
        },
    )
}

/// The window size that is given to the kernel: columns, then rows.
pub fn window(cols: u16, rows: u16) -> (r: (u16, u16))
    ensures
        r == usable(cols, rows),
{
    let c: u16 = if cols == 0 {
        1
    } else {
        cols
    };
    let w: u16 = if rows == 0 {
        1
    } else {
        rows
    };
    (c, w)
}

} // verus!
