//! Footprints on the grid: a drawable [`Placement`], a positioned [`Slot`],
//! and a placed control, [`Instance`].
use vstd::prelude::*;

use super::{TileKey, TileShape};

verus! {

/// Whether two rectangles, each given by its top-left cell and its size, share
/// no cell.
pub open spec fn rects_disjoint(
    c1: int,
    r1: int,
    w1: int,
    h1: int,
    c2: int,
    r2: int,
    w2: int,
    h2: int,
) -> bool {
    c1 + w1 <= c2 || c2 + w2 <= c1 || r1 + h1 <= r2 || r2 + h2 <= r1
}

/// A tile's placement on the grid.
///
/// 1-based column and row indices, the convention of the band cutter that
/// consumes these. `width` and `height` are the tile's shape written out.
#[derive(Debug, Clone, Copy, PartialEq, Eq, Structural)]
pub struct Placement {
    pub column: u16,
    pub row: u16,
    pub width: u16,
    pub height: u16,
}

impl Placement {
    /// Whether the (1-based) cell at column `c`, row `r` lies under this placement.
    pub open spec fn covers(self, c: int, r: int) -> bool {
        &&& self.column <= c < self.column + self.width
        &&& self.row <= r < self.row + self.height
    }

    /// Whether this placement and `other` share no cell.
    pub open spec fn disjoint_from(self, other: Placement) -> bool {
        rects_disjoint(
            self.column as int,
            self.row as int,
            self.width as int,
            self.height as int,
            other.column as int,
            other.row as int,
            other.width as int,
            other.height as int,
        )
    }
}

/// Where something sits on the grid, without saying what it is: a shape and
/// its 0-based top-left cell, `col` in sub-columns.
#[derive(Debug, Clone, Copy, PartialEq, Eq, Hash, Structural)]
pub struct Slot {
    pub shape: TileShape,
    pub col: u16,
    pub row: u16,
}

/// The 1-based placement drawing `shape` with its 0-based top-left at
/// (`col`, `row`).
pub open spec fn placement_of(shape: TileShape, col: u16, row: u16) -> Placement {
    Placement {
        column: (col + 1) as u16,
        row: (row + 1) as u16,
        width: shape.spec_columns() as u16,
        height: shape.spec_rows() as u16,
    }
}

impl Slot {
    /// Whether every cell of this slot has a `u16` index one past it, so that
    /// the arithmetic on its edges cannot overflow.
    pub open spec fn edges_fit(self) -> bool {
        &&& self.col + self.shape.spec_columns() <= u16::MAX
        &&& self.row + self.shape.spec_rows() <= u16::MAX
    }

    /// Whether this slot stays inside the grid's columns.
    pub open spec fn spec_in_bounds(self) -> bool {
        self.col + self.shape.spec_columns() <= super::GRID_COLUMNS
    }

    /// Whether the (0-based) cell at sub-column `c`, row `r` lies under this slot.
    pub open spec fn covers(self, c: int, r: int) -> bool {
        &&& self.col <= c < self.col + self.shape.spec_columns()
        &&& self.row <= r < self.row + self.shape.spec_rows()
    }

    /// Whether this slot and `other` share no cell.
    pub open spec fn clear_of(self, other: Slot) -> bool {
        rects_disjoint(
            self.col as int,
            self.row as int,
            self.shape.spec_columns() as int,
            self.shape.spec_rows() as int,
            other.col as int,
            other.row as int,
            other.shape.spec_columns() as int,
            other.shape.spec_rows() as int,
        )
    }

    pub open spec fn spec_placement(self) -> Placement {
        placement_of(self.shape, self.col, self.row)
    }

    pub fn new(shape: TileShape, col: u16, row: u16) -> (r: Self)
        ensures
            r == (Slot { shape, col, row }),
    {
        Slot { shape, col, row }
    }

    /// The 1-based placement the band cutter draws this slot at.
    pub fn placement(self) -> (r: Placement)
        requires
            self.col < u16::MAX,
            self.row < u16::MAX,
        ensures
            r == self.spec_placement(),
    {
        Placement {
            column: self.col + 1,
            row: self.row + 1,
            width: self.shape.columns() as u16,
            height: self.shape.rows() as u16,
        }
    }

    pub(crate) fn in_bounds(self) -> (r: bool)
        ensures
            r == self.spec_in_bounds(),
    {
        (self.col as usize) + self.shape.columns() <= super::GRID_COLUMNS as usize
    }
}

/// What a placed tile draws: one of the built-in controls, or the user's own
/// launcher at index `custom` of the `[[custom]]` list.
#[derive(Debug, Clone, Copy, PartialEq, Eq, Hash, Structural)]
pub enum Control {
    Builtin(TileKey),
    Custom { custom: usize },
}

impl Control {
    /// The launcher at `index` in the `[[custom]]` list.
    pub fn custom(index: usize) -> (r: Self)
        ensures
            r == (Control::Custom { custom: index }),
    {
        Control::Custom { custom: index }
    }
}

/// One placed tile: a control, the shape it is drawn at, and where its 0-based
/// top-left cell sits. The same control may be placed several times.
#[derive(Debug, Clone, Copy, PartialEq, Eq, Hash, Structural)]
pub struct Instance {
    pub control: Control,
    pub shape: TileShape,
    pub col: u16,
    pub row: u16,
}

impl Instance {
    pub open spec fn spec_slot(self) -> Slot {
        Slot { shape: self.shape, col: self.col, row: self.row }
    }

    /// A built-in control placed at `shape` with its top-left at (`col`, `row`).
    pub fn new(control: TileKey, shape: TileShape, col: u16, row: u16) -> (r: Self)
        ensures
            r == (Instance { control: Control::Builtin(control), shape, col, row }),
    {
        Instance { control: Control::Builtin(control), shape, col, row }
    }

    /// Any control, built-in or custom, placed at `shape` with its top-left at
    /// (`col`, `row`).
    pub fn of(control: Control, shape: TileShape, col: u16, row: u16) -> (r: Self)
        ensures
            r == (Instance { control, shape, col, row }),
    {
        Instance { control, shape, col, row }
    }

    /// This instance's footprint, with the control forgotten.
    pub fn slot(self) -> (r: Slot)
        ensures
            r == self.spec_slot(),
    {
        Slot::new(self.shape, self.col, self.row)
    }

    /// The 1-based placement the band cutter draws this instance at.
    pub fn placement(self) -> (r: Placement)
        requires
            self.col < u16::MAX,
            self.row < u16::MAX,
        ensures
            r == self.spec_slot().spec_placement(),
    {
        self.slot().placement()
    }
}

} // verus!
