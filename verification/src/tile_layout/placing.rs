//! Free placement: instances sit exactly where they were put, gaps and all.
//! [`free_at`] and [`first_free`] answer where a tile may go, [`validate`]
//! drops what overlaps, [`place`] turns slots into something drawable, and
//! [`migrate_from_packed`] builds a layout from the older ordered model.
use vstd::prelude::*;

use super::{
    assoc_map, resolve_order, resolved_by, shape_with_spec, ShapeOverrides, TileKey, TileShape,
    GRID_COLUMNS,
};
use super::geometry::{rects_disjoint, Control, Instance, Placement, Slot};
use super::packing::{
    bottom_of, lemma_bottom_of, lemma_pack_tiles, lemma_rows_fit_short, pack, pack_tiles, pack_view,
    rows_fit, uncovered, uncovered_cells, Pack, PackView,
};

verus! {

/// Whether `control` is on the grid at least once.
pub open spec fn placed(layout: Seq<Instance>, control: Control) -> bool {
    exists|i: int| 0 <= i < layout.len() && (#[trigger] layout[i]).control == control
}

/// Whether `control` is on the grid at least once.
pub fn is_placed(layout: &[Instance], control: Control) -> (r: bool)
    ensures
        r == placed(layout@, control),
{
    let mut i: usize = 0;
    while i < layout.len()
        invariant
            i <= layout@.len(),
            forall|j: int| 0 <= j < i ==> (#[trigger] layout@[j]).control != control,
        decreases layout@.len() - i,
    {
        if layout[i].control == control {
            return true;
        }
        i = i + 1;
    }
    false
}

/// Whether `probe` lies inside the grid's columns and clear of every instance
/// in `layout`.
pub open spec fn free_spec(layout: Seq<Instance>, probe: Slot) -> bool {
    &&& probe.spec_in_bounds()
    &&& forall|i: int| 0 <= i < layout.len() ==> (#[trigger] layout[i]).spec_slot().clear_of(probe)
}

/// Every instance's edges have room in `u16`.
pub open spec fn edges_fit_all(layout: Seq<Instance>) -> bool {
    forall|i: int| 0 <= i < layout.len() ==> (#[trigger] layout[i]).spec_slot().edges_fit()
}

/// One past the last row any instance reaches (0-based), or 0 for none.
pub open spec fn layout_bottom(layout: Seq<Instance>) -> int
    decreases layout.len(),
{
    if layout.len() == 0 {
        0
    } else {
        let below = layout.last().row + layout.last().shape.spec_rows();
        let prev = layout_bottom(layout.drop_last());
        if below > prev {
            below
        } else {
            prev
        }
    }
}

pub(crate) proof fn lemma_layout_bottom(layout: Seq<Instance>)
    ensures
        forall|i: int|
            0 <= i < layout.len() ==> #[trigger] layout[i].row + layout[i].shape.spec_rows()
                <= layout_bottom(layout),
        layout_bottom(layout) >= 0,
    decreases layout.len(),
{
    if layout.len() > 0 {
        lemma_layout_bottom(layout.drop_last());
        assert forall|i: int| 0 <= i < layout.len() implies #[trigger] layout[i].row
            + layout[i].shape.spec_rows() <= layout_bottom(layout) by {
            if i < layout.len() - 1 {
                assert(layout.drop_last()[i] == layout[i]);
            }
        }
    }
}

/// Whether a `shape` dropped with its top-left at (`col`, `row`) would land
/// entirely on free, in-bounds cells of `layout`.
///
/// Rows are unbounded, so only the column edge can be out of bounds.
pub fn free_at(layout: &[Instance], shape: TileShape, col: u16, row: u16) -> (r: bool)
    requires
        edges_fit_all(layout@),
        (Slot { shape, col, row }).spec_in_bounds() ==> row + shape.spec_rows() <= u16::MAX,
    ensures
        r == free_spec(layout@, Slot { shape, col, row }),
{
    let probe = Slot::new(shape, col, row);
    if !probe.in_bounds() {
        return false;
    }
    let w = shape.columns() as u32;
    let h = shape.rows() as u32;
    let mut i: usize = 0;
    while i < layout.len()
        invariant
            i <= layout@.len(),
            probe == (Slot { shape, col, row }),
            w == shape.spec_columns(),
            h == shape.spec_rows(),
            edges_fit_all(layout@),
            forall|k: int| 0 <= k < i ==> (#[trigger] layout@[k]).spec_slot().clear_of(probe),
        decreases layout@.len() - i,
    {
        let other = layout[i];
        let ow = other.shape.columns() as u32;
        let oh = other.shape.rows() as u32;
        let oc = other.col as u32;
        let orow = other.row as u32;
        let c = col as u32;
        let r = row as u32;
        if !(oc + ow <= c || c + w <= oc || orow + oh <= r || r + h <= orow) {
            return false;
        }
        proof {
            assert(other == layout@[i as int]);
            assert(other.spec_slot().clear_of(probe));
        }
        i = i + 1;
    }
    true
}

/// Whether (`c2`, `r2`) comes before (`c1`, `r1`), row by row.
pub open spec fn earlier(c2: int, r2: int, c1: int, r1: int) -> bool {
    r2 < r1 || (r2 == r1 && c2 < c1)
}

/// The first free cell, row-major, that fits `shape`.
///
/// Always succeeds: rows are unbounded, so at worst the answer is the row
/// just below every instance.
pub fn first_free(layout: &[Instance], shape: TileShape) -> (r: (u16, u16))
    requires
        edges_fit_all(layout@),
        layout_bottom(layout@) + shape.spec_rows() <= u16::MAX,
    ensures
        free_spec(layout@, Slot { shape, col: r.0, row: r.1 }),
        forall|c: int, w: int|
            0 <= c < GRID_COLUMNS && 0 <= w && earlier(c, w, r.0 as int, r.1 as int) ==> !#[trigger] free_spec(
                layout@,
                Slot { shape, col: c as u16, row: w as u16 },
            ),
        r.1 <= layout_bottom(layout@),
{
    proof {
        lemma_layout_bottom(layout@);
    }
    let mut last_row: u16 = 0;
    let mut k: usize = 0;
    while k < layout.len()
        invariant
            k <= layout@.len(),
            edges_fit_all(layout@),
            last_row == layout_bottom(layout@.take(k as int)),
        decreases layout@.len() - k,
    {
        let inst = layout[k];
        let below = inst.row + inst.shape.rows() as u16;
        proof {
            assert(layout@.take(k + 1).drop_last() == layout@.take(k as int));
            assert(layout@.take(k + 1).last() == inst);
        }
        if below > last_row {
            last_row = below;
        }
        k = k + 1;
    }
    proof {
        assert(layout@.take(k as int) == layout@);
    }
    let mut row: u16 = 0;
    loop
        invariant
            row <= last_row,
            last_row == layout_bottom(layout@),
            edges_fit_all(layout@),
            layout_bottom(layout@) + shape.spec_rows() <= u16::MAX,
            forall|i: int|
                0 <= i < layout@.len() ==> #[trigger] layout@[i].row + layout@[i].shape.spec_rows()
                    <= layout_bottom(layout@),
            forall|c: int, w: int|
                0 <= c < GRID_COLUMNS && 0 <= w < row ==> !#[trigger] free_spec(
                    layout@,
                    Slot { shape, col: c as u16, row: w as u16 },
                ),
        decreases last_row - row,
    {
        let mut col: u16 = 0;
        while col < GRID_COLUMNS
            invariant
                col <= GRID_COLUMNS,
                row <= last_row,
                last_row == layout_bottom(layout@),
                edges_fit_all(layout@),
                layout_bottom(layout@) + shape.spec_rows() <= u16::MAX,
                forall|c: int, w: int|
                    0 <= c < GRID_COLUMNS && 0 <= w < row ==> !#[trigger] free_spec(
                        layout@,
                        Slot { shape, col: c as u16, row: w as u16 },
                    ),
                forall|c: int|
                    0 <= c < col ==> !#[trigger] free_spec(layout@, Slot { shape, col: c as u16, row }),
            decreases GRID_COLUMNS - col,
        {
            if free_at(layout, shape, col, row) {
                proof {
                    assert forall|c: int, w: int|
                        0 <= c < GRID_COLUMNS && 0 <= w && earlier(c, w, col as int, row as int)
                            implies !#[trigger] free_spec(layout@, Slot { shape, col: c as u16, row: w as u16 }) by {
                        if w == row {
                            assert(w as u16 == row);
                        }
                    }
                }
                return (col, row);
            }
            col = col + 1;
        }
        proof {
            if row == last_row {
                let probe = Slot { shape, col: 0, row };
                assert forall|i: int| 0 <= i < layout@.len() implies (#[trigger] layout@[i]).spec_slot().clear_of(probe) by {
                    assert(layout@[i].row + layout@[i].shape.spec_rows() <= layout_bottom(layout@));
                }
                assert(free_spec(layout@, probe));
                assert(probe == Slot { shape, col: (0int) as u16, row });
                assert(!free_spec(layout@, Slot { shape, col: (0int) as u16, row }));
            }
        }
        row = row + 1;
        proof {
            assert forall|c: int, w: int|
                0 <= c < GRID_COLUMNS && 0 <= w < row implies !#[trigger] free_spec(
                    layout@,
                    Slot { shape, col: c as u16, row: w as u16 },
                ) by {
                if w == row - 1 {
                    assert(Slot { shape, col: c as u16, row: w as u16 } == Slot { shape, col: c as u16, row: (row - 1) as u16 });
                }
            }
        }
    }
}

/// What [`validate`] keeps of `layout`: walking in order, an instance stays
/// when it is inside the grid and clear of everything kept before it.
pub open spec fn validate_spec(layout: Seq<Instance>) -> Seq<Instance>
    decreases layout.len(),
{
    if layout.len() == 0 {
        layout
    } else {
        let kept = validate_spec(layout.drop_last());
        if free_spec(kept, layout.last().spec_slot()) {
            kept.push(layout.last())
        } else {
            kept
        }
    }
}

/// No instance hangs past the grid's right edge and no two overlap.
pub open spec fn valid_layout(layout: Seq<Instance>) -> bool {
    &&& forall|i: int| 0 <= i < layout.len() ==> (#[trigger] layout[i]).spec_slot().spec_in_bounds()
    &&& forall|i: int, j: int|
        0 <= i < j < layout.len() ==> (#[trigger] layout[i]).spec_slot().clear_of(
            (#[trigger] layout[j]).spec_slot(),
        )
}

/// Whether some cell with a row number that leaves room for `shape` below it
/// in `u16` is free for `shape`.
pub open spec fn free_within(layout: Seq<Instance>, shape: TileShape) -> bool {
    exists|c: int, w: int|
        0 <= c < GRID_COLUMNS && 0 <= w && w + shape.spec_rows() <= u16::MAX && #[trigger] free_spec(
            layout,
            Slot { shape, col: c as u16, row: w as u16 },
        )
}

/// The first free cell, row-major, that fits `shape` with its bottom edge
/// still a `u16` row; none when every such cell is taken.
pub fn first_free_within(layout: &[Instance], shape: TileShape) -> (r: Option<(u16, u16)>)
    requires
        edges_fit_all(layout@),
    ensures
        r is None <==> !free_within(layout@, shape),
        r matches Some(p) ==> {
            &&& p.1 + shape.spec_rows() <= u16::MAX
            &&& free_spec(layout@, Slot { shape, col: p.0, row: p.1 })
            &&& forall|c: int, w: int|
                0 <= c < GRID_COLUMNS && 0 <= w && earlier(c, w, p.0 as int, p.1 as int) ==> !#[trigger] free_spec(
                    layout@,
                    Slot { shape, col: c as u16, row: w as u16 },
                )
        },
{
    let last: u32 = u16::MAX as u32 - shape.rows() as u32;
    let mut row: u32 = 0;
    while row <= last
        invariant
            last == u16::MAX - shape.spec_rows(),
            row <= last + 1,
            edges_fit_all(layout@),
            forall|c: int, w: int|
                0 <= c < GRID_COLUMNS && 0 <= w < row ==> !#[trigger] free_spec(
                    layout@,
                    Slot { shape, col: c as u16, row: w as u16 },
                ),
        decreases last + 1 - row,
    {
        let mut col: u16 = 0;
        while col < GRID_COLUMNS
            invariant
                col <= GRID_COLUMNS,
                last == u16::MAX - shape.spec_rows(),
                row <= last,
                edges_fit_all(layout@),
                forall|c: int, w: int|
                    0 <= c < GRID_COLUMNS && 0 <= w < row ==> !#[trigger] free_spec(
                        layout@,
                        Slot { shape, col: c as u16, row: w as u16 },
                    ),
                forall|c: int|
                    0 <= c < col ==> !#[trigger] free_spec(layout@, Slot { shape, col: c as u16, row: row as u16 }),
            decreases GRID_COLUMNS - col,
        {
            if free_at(layout, shape, col, row as u16) {
                proof {
                    assert forall|c: int, w: int|
                        0 <= c < GRID_COLUMNS && 0 <= w && earlier(c, w, col as int, row as int)
                            implies !#[trigger] free_spec(layout@, Slot { shape, col: c as u16, row: w as u16 }) by {
                        if w == row {
                            assert(w as u16 == row as u16);
                        }
                    }
                    assert(free_spec(layout@, Slot { shape, col: (col as int) as u16, row: (row as int) as u16 }));
                }
                return Some((col, row as u16));
            }
            col = col + 1;
        }
        row = row + 1;
        proof {
            assert forall|c: int, w: int|
                0 <= c < GRID_COLUMNS && 0 <= w < row implies !#[trigger] free_spec(
                    layout@,
                    Slot { shape, col: c as u16, row: w as u16 },
                ) by {
                if w == row - 1 {
                    assert(Slot { shape, col: c as u16, row: w as u16 } == Slot { shape, col: c as u16, row: (row - 1) as u16 });
                }
            }
        }
    }
    None
}

/// Drop any instance that overlaps an earlier one or hangs past the right
/// edge. First-placed wins.
pub fn validate(layout: &[Instance]) -> (r: Vec<Instance>)
    requires
        forall|i: int| 0 <= i < layout@.len() ==> #[trigger] layout@[i].row + layout@[i].shape.spec_rows() <= u16::MAX,
    ensures
        r@ == validate_spec(layout@),
{
    let mut kept: Vec<Instance> = Vec::new();
    let mut i: usize = 0;
    while i < layout.len()
        invariant
            i <= layout@.len(),
            forall|k: int| 0 <= k < layout@.len() ==> #[trigger] layout@[k].row + layout@[k].shape.spec_rows() <= u16::MAX,
            kept@ == validate_spec(layout@.take(i as int)),
            edges_fit_all(kept@),
        decreases layout@.len() - i,
    {
        let instance = layout[i];
        proof {
            assert(layout@.take(i + 1).drop_last() == layout@.take(i as int));
            assert(layout@.take(i + 1).last() == instance);
        }
        if instance.slot().in_bounds() {
            if free_at(kept.as_slice(), instance.shape, instance.col, instance.row) {
                kept.push(instance);
            }
        }
        i = i + 1;
    }
    proof {
        assert(layout@.take(i as int) == layout@);
    }
    kept
}

/// What [`place`] produces for `slots`.
pub open spec fn place_view(slots: Seq<Slot>) -> PackView {
    let tiles = slots.map_values(|s: Slot| s.spec_placement());
    PackView {
        tiles,
        ghosts: uncovered(tiles, GRID_COLUMNS as int, bottom_of(tiles)),
        rows: bottom_of(tiles),
    }
}

/// Turn placed slots into the [`Pack`] the band cutter consumes: the slots'
/// placements, every uncovered cell of the rows they reach as a one-cell
/// ghost, and the number of those rows.
pub fn place(layout: &[Slot]) -> (p: Pack)
    requires
        forall|i: int| 0 <= i < layout@.len() ==> (#[trigger] layout@[i]).edges_fit(),
    ensures
        p@ == place_view(layout@),
{
    let ghost tiles_spec = layout@.map_values(|s: Slot| s.spec_placement());
    let mut tiles: Vec<Placement> = Vec::new();
    let mut rows: u16 = 0;
    let mut i: usize = 0;
    while i < layout.len()
        invariant
            i <= layout@.len(),
            forall|k: int| 0 <= k < layout@.len() ==> (#[trigger] layout@[k]).edges_fit(),
            tiles_spec == layout@.map_values(|s: Slot| s.spec_placement()),
            tiles@ == tiles_spec.take(i as int),
            rows == bottom_of(tiles@),
        decreases layout@.len() - i,
    {
        let p = layout[i].placement();
        tiles.push(p);
        if (p.row - 1) + p.height > rows {
            rows = (p.row - 1) + p.height;
        }
        proof {
            assert(tiles@.drop_last() == tiles_spec.take(i as int));
            assert(tiles_spec.take(i + 1) == tiles_spec.take(i as int).push(p));
        }
        i = i + 1;
    }
    proof {
        assert(tiles_spec.take(i as int) == tiles_spec);
    }
    let ghosts = uncovered_cells(&tiles, GRID_COLUMNS, rows);
    Pack { tiles, ghosts, rows }
}

/// The slot a placement of the packer stands for: the shape its size names,
/// at its 0-based top-left cell.
pub open spec fn slot_from_placement(p: Placement) -> Slot {
    let shape = if p.width == 1 {
        TileShape::Half
    } else if p.width == 4 {
        TileShape::Wide
    } else if p.height == 2 {
        TileShape::Tall
    } else {
        TileShape::Small
    };
    Slot { shape, col: (p.column - 1) as u16, row: (p.row - 1) as u16 }
}

impl Slot {
    fn new_from_placement(p: Placement) -> (r: Slot)
        requires
            p.column >= 1,
            p.row >= 1,
        ensures
            r == slot_from_placement(p),
    {
        let shape = if p.width == 1 {
            TileShape::Half
        } else if p.width == 4 {
            TileShape::Wide
        } else if p.height == 2 {
            TileShape::Tall
        } else {
            TileShape::Small
        };
        Slot::new(shape, p.column - 1, p.row - 1)
    }
}

/// Slots for `shapes` laid out by the packer.
pub fn packed_slots(shapes: &[TileShape]) -> (r: Vec<Slot>)
    requires
        rows_fit(shapes@, GRID_COLUMNS as int),
    ensures
        r@ == pack_tiles(shapes@, GRID_COLUMNS as int).map_values(|p: Placement| slot_from_placement(p)),
{
    let packed = pack(shapes, GRID_COLUMNS);
    proof {
        lemma_pack_tiles(shapes@, GRID_COLUMNS as int);
    }
    let ghost want = packed.tiles@.map_values(|p: Placement| slot_from_placement(p));
    let mut out: Vec<Slot> = Vec::new();
    let mut i: usize = 0;
    while i < packed.tiles.len()
        invariant
            i <= packed.tiles@.len(),
            want == packed.tiles@.map_values(|p: Placement| slot_from_placement(p)),
            forall|k: int| 0 <= k < packed.tiles@.len() ==> 1 <= (#[trigger] packed.tiles@[k]).column && 1 <= packed.tiles@[k].row,
            out@ == want.take(i as int),
        decreases packed.tiles@.len() - i,
    {
        let s = Slot::new_from_placement(packed.tiles[i]);
        out.push(s);
        proof {
            assert(want.take(i + 1) == want.take(i as int).push(s));
        }
        i = i + 1;
    }
    proof {
        assert(want.take(i as int) == want);
    }
    out
}

/// The layout [`migrate_from_packed`] builds from already-resolved `keys`:
/// each key at its shape under the overrides `m`, where the packer put it.
pub open spec fn migrated_layout(keys: Seq<TileKey>, m: Map<TileKey, TileShape>) -> Seq<Instance> {
    let shapes = keys.map_values(|k: TileKey| shape_with_spec(k, m));
    let tiles = pack_tiles(shapes, GRID_COLUMNS as int);
    Seq::new(
        keys.len(),
        |i: int|
            Instance {
                control: Control::Builtin(keys[i]),
                shape: shapes[i],
                col: (tiles[i].column - 1) as u16,
                row: (tiles[i].row - 1) as u16,
            },
    )
}

/// Build a layout from the pre-0.2 `order` + `shapes` model.
///
/// Resolves the order as [`resolve_order`] does, gives each key its shape
/// through [`TileKey::shape_with`], and runs the packer once, so a migrated
/// config opens exactly as the ordered model drew it.
pub fn migrate_from_packed<F: Fn(TileKey) -> bool>(
    order: &[TileKey],
    shapes: &ShapeOverrides,
    is_enabled: F,
) -> (r: Vec<Instance>)
    requires
        forall|k: TileKey| call_requires(is_enabled, (k,)),
    ensures
        exists|keys: Seq<TileKey>|
            resolved_by(order@, is_enabled, keys) && r@ == migrated_layout(keys, shapes@),
{
    let keys = resolve_order(order, is_enabled);
    proof {
        lemma_resolved_len(order@, is_enabled, keys@);
    }
    let ghost shapes_spec = keys@.map_values(|k: TileKey| shape_with_spec(k, shapes@));
    let mut key_shapes: Vec<TileShape> = Vec::new();
    let mut i: usize = 0;
    while i < keys.len()
        invariant
            i <= keys@.len(),
            shapes_spec == keys@.map_values(|k: TileKey| shape_with_spec(k, shapes@)),
            key_shapes@ == shapes_spec.take(i as int),
        decreases keys@.len() - i,
    {
        let s = keys[i].shape_with(shapes);
        key_shapes.push(s);
        proof {
            assert(shapes_spec.take(i + 1) == shapes_spec.take(i as int).push(s));
        }
        i = i + 1;
    }
    proof {
        assert(shapes_spec.take(i as int) == shapes_spec);
        lemma_rows_fit_short(shapes_spec, GRID_COLUMNS as int);
    }
    let packed = pack(key_shapes.as_slice(), GRID_COLUMNS);
    proof {
        lemma_pack_tiles(shapes_spec, GRID_COLUMNS as int);
        assert forall|k: int| 0 <= k < shapes_spec.len() implies (#[trigger] shapes_spec[k]).spec_columns() <= GRID_COLUMNS as int by {
        }
    }
    let ghost want = migrated_layout(keys@, shapes@);
    let mut out: Vec<Instance> = Vec::new();
    let mut j: usize = 0;
    while j < keys.len()
        invariant
            j <= keys@.len(),
            key_shapes@ == shapes_spec,
            shapes_spec == keys@.map_values(|k: TileKey| shape_with_spec(k, shapes@)),
            packed.tiles@ == pack_tiles(shapes_spec, GRID_COLUMNS as int),
            packed.tiles@.len() == keys@.len(),
            forall|k: int| 0 <= k < packed.tiles@.len() ==> 1 <= (#[trigger] packed.tiles@[k]).column && 1 <= packed.tiles@[k].row,
            want == migrated_layout(keys@, shapes@),
            out@ == want.take(j as int),
        decreases keys@.len() - j,
    {
        let p = packed.tiles[j];
        let inst = Instance::new(keys[j], key_shapes[j], p.column - 1, p.row - 1);
        out.push(inst);
        proof {
            assert(want.take(j + 1) == want.take(j as int).push(inst));
        }
        j = j + 1;
    }
    proof {
        assert(want.take(j as int) == want);
    }
    out
}

proof fn lemma_kept_by_len<T>(s: Seq<T>, keep: Seq<bool>)
    ensures
        super::kept_by(s, keep).len() <= s.len(),
    decreases s.len(),
{
    if s.len() > 0 {
        lemma_kept_by_len(s.drop_last(), keep);
    }
}

proof fn lemma_resolved_len<F: Fn(TileKey) -> bool>(stored: Seq<TileKey>, is_enabled: F, keys: Seq<TileKey>)
    requires
        resolved_by(stored, is_enabled, keys),
    ensures
        keys.len() <= 17,
{
    let answers = choose|answers: Seq<bool>|
        {
            &&& answers.len() == super::merged_order(stored).len()
            &&& forall|i: int|
                0 <= i < answers.len() ==> call_ensures(
                    is_enabled,
                    (super::merged_order(stored)[i],),
                    #[trigger] answers[i],
                )
            &&& keys == super::kept_by(super::merged_order(stored), answers)
        };
    lemma_kept_by_len(super::merged_order(stored), answers);
    super::lemma_merged_order_len(stored);
}

} // verus!
