//! Editing the layout by hand: picking a tile up, dragging it to a cell and
//! dropping it there, removing one, or adding one at the first free cell.
//!
//! Whatever an edit produces goes through [`super::validate`] before it is
//! kept, so no edit can store an overlapping layout.
use vstd::prelude::*;

use super::geometry::{Control, Instance, Slot};
use super::placing::{
    earlier, edges_fit_all, first_free, free_at, free_spec, layout_bottom, lemma_layout_bottom, valid_layout,
    validate, validate_spec,
};
use super::laws::law_validate_gives_a_valid_layout;
use super::{TileKey, TileShape, GRID_COLUMNS};

verus! {

/// The layout editor's state between events.
#[derive(Debug, Clone)]
pub struct Editor {
    /// The layout being edited while a tile is held; empty otherwise.
    pub working: Vec<Instance>,
    /// Index of the held tile.
    pub picked: Option<usize>,
    /// The tile the pointer is over.
    pub hovered: Option<usize>,
    /// The cell the held tile was last dragged to.
    pub target: Option<(u16, u16)>,
    /// The cell a drop was just refused at, which flashes.
    pub refused: Option<(u16, u16)>,
}

impl Default for Editor {
    fn default() -> (r: Self)
        ensures
            r.working@.len() == 0 && r.picked is None && r.hovered is None && r.target is None && r.refused is None,
    {
        Editor { working: Vec::new(), picked: None, hovered: None, target: None, refused: None }
    }
}

/// What the user did.
#[derive(Debug, Clone, Copy, PartialEq, Eq)]
pub enum Edit {
    Pick(usize),
    Hover(Option<usize>),
    DragTo(u16, u16),
    Drop,
    Remove(usize),
    Add(Control, TileShape),
}

/// (`p.0`, `p.1`) is where [`first_free`] puts `shape` in `layout`: free,
/// and no cell before it in row-major order is.
pub open spec fn first_free_at(layout: Seq<Instance>, shape: TileShape, p: (u16, u16)) -> bool {
    &&& free_spec(layout, Slot { shape, col: p.0, row: p.1 })
    &&& forall|c: int, w: int|
        0 <= c < GRID_COLUMNS && 0 <= w && earlier(c, w, p.0 as int, p.1 as int) ==> !#[trigger] free_spec(
            layout,
            Slot { shape, col: c as u16, row: w as u16 },
        )
}

/// The first free cell, row-major, that fits `shape`: the one cell with
/// [`first_free_at`], which is what [`first_free`] returns.
pub open spec fn first_free_spec(layout: Seq<Instance>, shape: TileShape) -> (u16, u16) {
    choose|p: (u16, u16)| first_free_at(layout, shape, p)
}

/// Only one cell is the first free one.
pub proof fn lemma_first_free_unique(layout: Seq<Instance>, shape: TileShape, p: (u16, u16))
    requires
        first_free_at(layout, shape, p),
    ensures
        first_free_spec(layout, shape) == p,
{
    let q = first_free_spec(layout, shape);
    assert(first_free_at(layout, shape, q));
    if q != p {
        assert(p.0 + shape.spec_columns() <= GRID_COLUMNS);
        assert(q.0 + shape.spec_columns() <= GRID_COLUMNS);
        if earlier(q.0 as int, q.1 as int, p.0 as int, p.1 as int) {
            assert(!free_spec(layout, Slot { shape, col: q.0 as int as u16, row: q.1 as int as u16 }));
        } else {
            assert(earlier(p.0 as int, p.1 as int, q.0 as int, q.1 as int));
            assert(!free_spec(layout, Slot { shape, col: p.0 as int as u16, row: p.1 as int as u16 }));
        }
    }
}

/// Whether the layout may be edited without any edge leaving `u16`: every
/// instance clear of the top row numbers, with room below for one more.
pub open spec fn editable(layout: Seq<Instance>) -> bool {
    &&& edges_fit_all(layout)
    &&& layout_bottom(layout) + 2 <= u16::MAX
}

impl Editor {
    /// The layout to draw: the working copy while a tile is held, else the
    /// stored one.
    pub fn layout(&self, stored: &Vec<Instance>) -> (r: Vec<Instance>)
        ensures
            r@ == (if self.picked is Some && self.working@.len() > 0 { self.working@ } else { stored@ }),
    {
        if self.picked.is_some() && self.working.len() > 0 {
            self.working.clone()
        } else {
            stored.clone()
        }
    }

    /// Take in one edit of the stored `layout`. Returns the layout to store
    /// and save when the edit changes it; it has always been validated.
    pub fn apply(&mut self, layout: &Vec<Instance>, edit: Edit) -> (r: Option<Vec<Instance>>)
        requires
            editable(layout@),
            editable(old(self).working@),
            edit matches Edit::DragTo(c, w) ==> w + 2 <= u16::MAX,
            old(self).target matches Some(t) ==> t.1 + 2 <= u16::MAX,
        ensures
            final(self).target matches Some(t) ==> t.1 + 2 <= u16::MAX,
            editable(final(self).working@),
            // No edit can store an overlapping layout.
            r matches Some(kept) ==> valid_layout(kept@),
            match edit {
                Edit::Pick(i) => {
                    &&& r is None
                    &&& final(self).working@ == layout@
                    &&& final(self).picked == Some(i)
                    &&& final(self).target is None
                    &&& final(self).refused is None
                    &&& final(self).hovered == old(self).hovered
                },
                Edit::Hover(over) => r is None && *final(self) == (Editor { hovered: over, ..*old(self) }),
                Edit::DragTo(c, w) => {
                    &&& r is None
                    &&& old(self).picked is None ==> *final(self) == *old(self)
                    &&& old(self).picked is Some ==> *final(self) == (Editor {
                        target: Some((c, w)),
                        refused: None,
                        ..*old(self)
                    })
                },
                Edit::Drop => old(self).dropped(*final(self), r),
                Edit::Remove(i) => {
                    &&& i < layout@.len() ==> {
                        &&& r matches Some(kept) && kept@ == validate_spec(layout@.remove(i as int))
                        &&& final(self).working@.len() == 0
                        &&& final(self).hovered is None
                        &&& final(self).target is None
                        &&& final(self).picked == old(self).picked
                        &&& final(self).refused == old(self).refused
                    }
                    &&& i >= layout@.len() ==> r is None && *final(self) == *old(self)
                },
                Edit::Add(control, shape) => {
                    &&& exists|p: (u16, u16)|
                        first_free_at(layout@, shape, p) && (r matches Some(kept) && kept@ == validate_spec(
                            layout@.push(Instance { control, shape, col: p.0, row: p.1 }),
                        ))
                    &&& final(self).working@.len() == 0
                    &&& final(self).target is None
                    &&& final(self).picked == old(self).picked
                    &&& final(self).hovered == old(self).hovered
                    &&& final(self).refused == old(self).refused
                },
            },
    {
        match edit {
            Edit::Pick(i) => {
                self.working = layout.clone();
                self.picked = Some(i);
                self.target = None;
                self.refused = None;
                None
            },
            Edit::Hover(over) => {
                self.hovered = over;
                None
            },
            Edit::DragTo(c, w) => {
                if self.picked.is_some() {
                    self.target = Some((c, w));
                    self.refused = None;
                }
                None
            },
            Edit::Drop => {
                let r = self.drop_held();
                proof {
                    if r is Some {
                        let i = old(self).picked->0;
                        let t = old(self).target->0;
                        let held = old(self).working@[i as int];
                        law_validate_gives_a_valid_layout(
                            old(self).working@.update(i as int, Instance { col: t.0, row: t.1, ..held }),
                        );
                    }
                }
                r
            },
            Edit::Remove(i) => {
                if i < layout.len() {
                    let mut rest = layout.clone();
                    rest.remove(i);
                    proof {
                        assert forall|k: int| 0 <= k < rest@.len() implies layout@.contains(#[trigger] rest@[k]) by {
                            if k < i {
                                assert(rest@[k] == layout@[k]);
                            } else {
                                assert(rest@[k] == layout@[k + 1]);
                            }
                        }
                        lemma_editable_sub(layout@, rest@);
                    }
                    self.hovered = None;
                    let kept = validate(rest.as_slice());
                    proof {
                        law_validate_gives_a_valid_layout(rest@);
                    }
                    self.working = Vec::new();
                    self.target = None;
                    Some(kept)
                } else {
                    None
                }
            },
            Edit::Add(control, shape) => {
                let (col, row) = first_free(layout.as_slice(), shape);
                let mut grown = layout.clone();
                grown.push(Instance::of(control, shape, col, row));
                proof {
                    assert(first_free_at(layout@, shape, (col, row)));
                    assert forall|k: int| 0 <= k < grown@.len() implies #[trigger] grown@[k].row
                        + grown@[k].shape.spec_rows() <= u16::MAX by {
                        if k < layout@.len() {
                            assert(grown@[k] == layout@[k]);
                            assert(layout@[k].spec_slot().edges_fit());
                        }
                    }
                }
                let kept = validate(grown.as_slice());
                proof {
                    law_validate_gives_a_valid_layout(grown@);
                }
                self.working = Vec::new();
                self.target = None;
                Some(kept)
            },
        }
    }

    /// What dropping the held tile did: taken from `self` to `after`,
    /// returning `r`.
    ///
    /// With nothing held nothing happens. Otherwise the hold ends; with no
    /// target, or the tile put back where it was, nothing is stored. A move to
    /// a cell the tile fits, its own old cells counting as free, stores the
    /// moved layout; a move anywhere else is refused and that cell flashes.
    pub open spec fn dropped(self, after: Editor, r: Option<Vec<Instance>>) -> bool {
        match self.picked {
            None => r is None && after == self,
            Some(i) => {
                &&& after.picked is None
                &&& after.target is None
                &&& after.working@.len() == 0
                &&& after.hovered == self.hovered
                &&& match self.target {
                    Some(t) if i < self.working@.len() && (t.0, t.1) != (
                        self.working@[i as int].col,
                        self.working@[i as int].row,
                    ) => {
                        let held = self.working@[i as int];
                        if free_spec(self.working@.remove(i as int), Slot { shape: held.shape, col: t.0, row: t.1 }) {
                            &&& r matches Some(kept) && kept@ == validate_spec(
                                self.working@.update(i as int, Instance { col: t.0, row: t.1, ..held }),
                            )
                            &&& after.refused == self.refused
                        } else {
                            r is None && after.refused == Some(t)
                        }
                    },
                    _ => r is None && after.refused == self.refused,
                }
            },
        }
    }

    fn drop_held(&mut self) -> (r: Option<Vec<Instance>>)
        requires
            editable(old(self).working@),
            old(self).target matches Some(t) ==> t.1 + 2 <= u16::MAX,
        ensures
            old(self).dropped(*final(self), r),
            editable(final(self).working@),
    {
        let i = match self.picked {
            Some(i) => i,
            None => return None,
        };
        self.picked = None;
        let target = self.target;
        self.target = None;
        let (c, w) = match target {
            Some(t) => t,
            None => {
                self.working = Vec::new();
                return None;
            },
        };
        if i >= self.working.len() {
            self.working = Vec::new();
            return None;
        }
        let held = self.working[i];
        if c == held.col && w == held.row {
            self.working = Vec::new();
            return None;
        }
        let mut rest = self.working.clone();
        rest.remove(i);
        proof {
            assert forall|k: int| 0 <= k < rest@.len() implies self.working@.contains(#[trigger] rest@[k]) by {
                if k < i {
                    assert(rest@[k] == self.working@[k]);
                } else {
                    assert(rest@[k] == self.working@[k + 1]);
                }
            }
            lemma_editable_sub(self.working@, rest@);
        }
        if free_at(rest.as_slice(), held.shape, c, w) {
            let mut moved = self.working.clone();
            moved.set(i, Instance { col: c, row: w, ..held });
            proof {
                assert forall|k: int| 0 <= k < moved@.len() implies #[trigger] moved@[k].row
                    + moved@[k].shape.spec_rows() <= u16::MAX by {
                    if k != i {
                        assert(moved@[k] == self.working@[k]);
                        assert(self.working@[k].spec_slot().edges_fit());
                    }
                }
            }
            let kept = validate(moved.as_slice());
            self.working = Vec::new();
            Some(kept)
        } else {
            self.refused = Some((c, w));
            self.working = Vec::new();
            None
        }
    }
}

/// Dropping instances keeps a layout editable.
proof fn lemma_editable_sub(whole: Seq<Instance>, part: Seq<Instance>)
    requires
        editable(whole),
        forall|k: int| 0 <= k < part.len() ==> whole.contains(#[trigger] part[k]),
    ensures
        editable(part),
{
    lemma_layout_bottom(whole);
    lemma_layout_bottom_reached(part);
    if layout_bottom(part) > 0 {
        let k = choose|k: int| 0 <= k < part.len() && #[trigger] part[k].row + part[k].shape.spec_rows() == layout_bottom(part);
        assert(whole.contains(part[k]));
        let j = choose|j: int| 0 <= j < whole.len() && whole[j] == part[k];
        assert(whole[j].row + whole[j].shape.spec_rows() <= layout_bottom(whole));
    }
    assert forall|k: int| 0 <= k < part.len() implies (#[trigger] part[k]).spec_slot().edges_fit() by {
        assert(whole.contains(part[k]));
        let j = choose|j: int| 0 <= j < whole.len() && whole[j] == part[k];
        assert(whole[j].spec_slot().edges_fit());
    }
}

/// The bottom of a non-empty layout is where some instance ends.
proof fn lemma_layout_bottom_reached(layout: Seq<Instance>)
    ensures
        layout_bottom(layout) >= 0,
        layout_bottom(layout) > 0 ==> exists|k: int|
            0 <= k < layout.len() && #[trigger] layout[k].row + layout[k].shape.spec_rows() == layout_bottom(layout),
    decreases layout.len(),
{
    if layout.len() > 0 {
        let prev = layout.drop_last();
        lemma_layout_bottom_reached(prev);
        if layout.last().row + layout.last().shape.spec_rows() > layout_bottom(prev) {
            assert(layout[layout.len() - 1] == layout.last());
        } else if layout_bottom(prev) > 0 {
            let k = choose|k: int| 0 <= k < prev.len() && #[trigger] prev[k].row + prev[k].shape.spec_rows() == layout_bottom(prev);
            assert(layout[k] == prev[k]);
        }
    }
}

} // verus!
