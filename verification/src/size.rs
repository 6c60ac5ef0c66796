//! Pseudo-terminal dimensions.

use vstd::prelude::*;

verus! {

/// Fewest columns a newly opened pseudo-terminal may have.
pub const MIN_COLS: u16 = 2;

/// Fewest rows a newly opened pseudo-terminal may have.
pub const MIN_ROWS: u16 = 1;

/// Size of the visible area of a pseudo-terminal, in character cells and in
/// pixels per cell.
#[derive(Clone, Copy, Debug, PartialEq, Eq, Structural)]
pub struct TerminalSize {
    pub rows: u16,
    pub cols: u16,
    pub pixel_width: u16,
    pub pixel_height: u16,
}

/// `value`, raised to `floor` where it lies below it.
pub open spec fn raised_to(value: u16, floor: u16) -> u16 {
    if value < floor {
        floor
    } else {
        value
    }
}

impl TerminalSize {
    /// The size a session is opened with when the caller asks for `cols` by `rows`.
    pub open spec fn opening(cols: u16, rows: u16) -> TerminalSize {
        TerminalSize {
            rows: raised_to(rows, MIN_ROWS),
            cols: raised_to(cols, MIN_COLS),
            pixel_width: 0,
            pixel_height: 0,
        }
    }

    /// The size a resize request for `cols` by `rows` propagates.
    pub open spec fn resizing(cols: u16, rows: u16) -> TerminalSize {
        TerminalSize { rows, cols, pixel_width: 0, pixel_height: 0 }
    }

    /// Size for a new session: both dimensions are raised to their floors, so no
    /// request is refused for being too small.
    pub fn for_open(cols: u16, rows: u16) -> (size: TerminalSize)
        ensures
            size == Self::opening(cols, rows),
            size.cols >= MIN_COLS,
            size.rows >= MIN_ROWS,
            cols >= MIN_COLS ==> size.cols == cols,
            rows >= MIN_ROWS ==> size.rows == rows,
    {
        let rows: u16 = if rows < MIN_ROWS { MIN_ROWS } else { rows };
        let cols: u16 = if cols < MIN_COLS { MIN_COLS } else { cols };
        TerminalSize { rows, cols, pixel_width: 0, pixel_height: 0 }
    }

    /// Size for a resize: the requested dimensions, unchanged.
    pub fn for_resize(cols: u16, rows: u16) -> (size: TerminalSize)
        ensures
            size == Self::resizing(cols, rows),
    {
        TerminalSize { rows, cols, pixel_width: 0, pixel_height: 0 }
    }
}

} // verus!
