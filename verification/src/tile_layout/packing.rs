//! The packer of the ordered, pre-free-placement model: each tile goes to the
//! first position, row-major, where its whole footprint is free.
use vstd::prelude::*;

use super::TileShape;
use super::geometry::{rects_disjoint, Placement};

verus! {

/// Result of packing: where each tile went, and which cells stayed empty.
#[derive(Debug, Clone, PartialEq, Eq)]
pub struct Pack {
    /// One entry per input tile that fits the grid at all, in input order.
    pub tiles: Vec<Placement>,
    /// Every cell no tile covers, as a 1×1 placement, row by row.
    pub ghosts: Vec<Placement>,
    /// Total rows used, so the caller can size its container.
    pub rows: u16,
}

/// What a [`Pack`] holds, as mathematical sequences.
pub ghost struct PackView {
    pub tiles: Seq<Placement>,
    pub ghosts: Seq<Placement>,
    pub rows: int,
}

impl View for Pack {
    type V = PackView;

    open spec fn view(&self) -> PackView {
        PackView { tiles: self.tiles@, ghosts: self.ghosts@, rows: self.rows as int }
    }
}

/// The one list [`ghosts_ok`] allows: the uncovered cells of the first `rows`
/// rows, row by row.
pub open spec fn uncovered(ps: Seq<Placement>, columns: int, rows: int) -> Seq<Placement> {
    choose|g: Seq<Placement>| ghosts_ok(g, ps, columns, rows)
}

/// What [`pack`] produces for `shapes` in a grid `columns` wide.
pub open spec fn pack_view(shapes: Seq<TileShape>, columns: int) -> PackView {
    let tiles = pack_tiles(shapes, columns);
    PackView { tiles, ghosts: uncovered(tiles, columns, bottom_of(tiles)), rows: bottom_of(tiles) }
}

/// Whether a `w`×`h` footprint with its 1-based top-left at (`c`, `r`) stays
/// inside `columns` and clear of every placement in `ps`.
pub open spec fn fits(ps: Seq<Placement>, c: int, r: int, w: int, h: int, columns: int) -> bool {
    &&& 1 <= c
    &&& c + w - 1 <= columns
    &&& 1 <= r
    &&& forall|i: int|
        0 <= i < ps.len() ==> rects_disjoint(
            #[trigger] ps[i].column as int,
            ps[i].row as int,
            ps[i].width as int,
            ps[i].height as int,
            c,
            r,
            w,
            h,
        )
}

/// (`c`, `r`) is where the packer puts a `w`×`h` tile: it fits, and no
/// position before it in row-major order does.
pub open spec fn is_first_fit(ps: Seq<Placement>, c: int, r: int, w: int, h: int, columns: int) -> bool {
    &&& fits(ps, c, r, w, h, columns)
    &&& forall|r2: int, c2: int|
        1 <= r2 < r && 1 <= c2 <= columns - w + 1 ==> !#[trigger] fits(ps, c2, r2, w, h, columns)
    &&& forall|c2: int| 1 <= c2 < c ==> !#[trigger] fits(ps, c2, r, w, h, columns)
}

/// Where the packer puts each of `shapes` in a grid `columns` wide: tiles go
/// in order, each to its first fit among those already placed; a tile wider
/// than the grid is skipped.
pub open spec fn pack_tiles(shapes: Seq<TileShape>, columns: int) -> Seq<Placement>
    decreases shapes.len(),
{
    if shapes.len() == 0 {
        Seq::empty()
    } else {
        let prev = pack_tiles(shapes.drop_last(), columns);
        let w = shapes.last().spec_columns() as int;
        let h = shapes.last().spec_rows() as int;
        if w > columns {
            prev
        } else {
            let (c, r) = choose|c: int, r: int| is_first_fit(prev, c, r, w, h, columns);
            prev.push(Placement { column: c as u16, row: r as u16, width: w as u16, height: h as u16 })
        }
    }
}

/// Whether every row the packer uses for `shapes` has a `u16` number: each
/// tile's first fit, among those placed before it, ends by the last one.
pub open spec fn rows_fit(shapes: Seq<TileShape>, columns: int) -> bool
    decreases shapes.len(),
{
    if shapes.len() == 0 {
        true
    } else {
        let prev = pack_tiles(shapes.drop_last(), columns);
        let w = shapes.last().spec_columns() as int;
        let h = shapes.last().spec_rows() as int;
        &&& rows_fit(shapes.drop_last(), columns)
        &&& w <= columns ==> {
            let (c, r) = choose|c: int, r: int| is_first_fit(prev, c, r, w, h, columns);
            r + h - 1 <= u16::MAX
        }
    }
}

/// The last row any of `ps` reaches (1-based), or 0 when there are none.
pub open spec fn bottom_of(ps: Seq<Placement>) -> int
    decreases ps.len(),
{
    if ps.len() == 0 {
        0
    } else {
        let below = ps.last().row + ps.last().height - 1;
        let prev = bottom_of(ps.drop_last());
        if below > prev {
            below
        } else {
            prev
        }
    }
}

/// Whether some placement in `ps` covers the 1-based cell (`c`, `r`).
pub open spec fn covered(ps: Seq<Placement>, c: int, r: int) -> bool {
    exists|i: int| 0 <= i < ps.len() && #[trigger] ps[i].covers(c, r)
}

/// Whether `a`'s top-left cell comes before `b`'s, row by row.
pub open spec fn cell_before(a: Placement, b: Placement) -> bool {
    a.row < b.row || (a.row == b.row && a.column < b.column)
}

/// `g` lists every cell of the first `rows` rows of a `columns`-wide grid
/// that no placement in `ps` covers, each once, as a 1×1 placement, in
/// row-major order.
pub open spec fn ghosts_ok(g: Seq<Placement>, ps: Seq<Placement>, columns: int, rows: int) -> bool {
    &&& forall|i: int|
        0 <= i < g.len() ==> {
            &&& (#[trigger] g[i]).width == 1
            &&& g[i].height == 1
            &&& 1 <= g[i].column <= columns
            &&& 1 <= g[i].row <= rows
            &&& !covered(ps, g[i].column as int, g[i].row as int)
        }
    &&& forall|i: int, j: int| 0 <= i < j < g.len() ==> cell_before(#[trigger] g[i], #[trigger] g[j])
    &&& forall|c: int, r: int|
        1 <= c <= columns && 1 <= r <= rows && !covered(ps, c, r) ==> exists|i: int|
            0 <= i < g.len() && (#[trigger] g[i]).column == c && g[i].row == r
}

/// Every placement in `ps` lies in columns `1..=columns`, below row 0, and is
/// at least one cell in each direction.
pub open spec fn well_placed(ps: Seq<Placement>, columns: int) -> bool {
    forall|i: int|
        0 <= i < ps.len() ==> {
            &&& 1 <= (#[trigger] ps[i]).column
            &&& ps[i].column + ps[i].width - 1 <= columns
            &&& 1 <= ps[i].row
            &&& 1 <= ps[i].width
            &&& 1 <= ps[i].height
        }
}

pub proof fn lemma_bottom_of(ps: Seq<Placement>)
    ensures
        forall|i: int| 0 <= i < ps.len() ==> #[trigger] ps[i].row + ps[i].height - 1 <= bottom_of(ps),
        bottom_of(ps) >= 0,
        bottom_of(ps) > 0 ==> exists|i: int|
            0 <= i < ps.len() && #[trigger] ps[i].row + ps[i].height - 1 == bottom_of(ps),
    decreases ps.len(),
{
    if ps.len() > 0 {
        lemma_bottom_of(ps.drop_last());
        assert forall|i: int| 0 <= i < ps.len() implies #[trigger] ps[i].row + ps[i].height - 1
            <= bottom_of(ps) by {
            if i < ps.len() - 1 {
                assert(ps.drop_last()[i] == ps[i]);
            }
        }
        let prev = ps.drop_last();
        if ps.last().row + ps.last().height - 1 > bottom_of(prev) {
            assert(ps[ps.len() - 1].row + ps[ps.len() - 1].height - 1 == bottom_of(ps));
        } else if bottom_of(prev) > 0 {
            let k = choose|k: int| 0 <= k < prev.len() && #[trigger] prev[k].row + prev[k].height - 1 == bottom_of(prev);
            assert(ps[k] == prev[k]);
            assert(ps[k].row + ps[k].height - 1 == bottom_of(ps));
        }
    }
}

/// Two first fits are the same position.
pub proof fn lemma_first_fit_unique(
    ps: Seq<Placement>,
    c1: int,
    r1: int,
    c2: int,
    r2: int,
    w: int,
    h: int,
    columns: int,
)
    requires
        is_first_fit(ps, c1, r1, w, h, columns),
        is_first_fit(ps, c2, r2, w, h, columns),
    ensures
        c1 == c2 && r1 == r2,
{
    if r1 < r2 {
        assert(!fits(ps, c1, r1, w, h, columns));
    } else if r2 < r1 {
        assert(!fits(ps, c2, r2, w, h, columns));
    } else if c1 < c2 {
        assert(!fits(ps, c1, r1, w, h, columns));
    } else if c2 < c1 {
        assert(!fits(ps, c2, r2, w, h, columns));
    }
}

proof fn lemma_ghosts_agree_upto(
    g1: Seq<Placement>,
    g2: Seq<Placement>,
    ps: Seq<Placement>,
    columns: int,
    rows: int,
    n: int,
)
    requires
        ghosts_ok(g1, ps, columns, rows),
        ghosts_ok(g2, ps, columns, rows),
        0 <= n <= g1.len(),
        n <= g2.len(),
    ensures
        forall|k: int| 0 <= k < n ==> g1[k] == g2[k],
    decreases n,
{
    if n > 0 {
        let i = n - 1;
        lemma_ghosts_agree_upto(g1, g2, ps, columns, rows, i);
        let a = g1[i];
        let b = g2[i];
        assert(!covered(ps, a.column as int, a.row as int));
        let j = choose|j: int| 0 <= j < g2.len() && (#[trigger] g2[j]).column == a.column && g2[j].row == a.row;
        let j2 = choose|j: int| 0 <= j < g1.len() && (#[trigger] g1[j]).column == b.column && g1[j].row == b.row;
        if j < i {
            assert(g2[j] == g1[j]);
            assert(cell_before(g1[j], g1[i]));
        }
        if j2 < i {
            assert(g1[j2] == g2[j2]);
            assert(cell_before(g2[j2], g2[i]));
        }
        if j > i && j2 > i {
            assert(cell_before(g2[i], g2[j]));
            assert(cell_before(g1[i], g1[j2]));
        }
    }
}

/// Only one list satisfies [`ghosts_ok`].
pub proof fn lemma_ghosts_unique(g1: Seq<Placement>, g2: Seq<Placement>, ps: Seq<Placement>, columns: int, rows: int)
    requires
        ghosts_ok(g1, ps, columns, rows),
        ghosts_ok(g2, ps, columns, rows),
    ensures
        g1 == g2,
{
    if g1.len() <= g2.len() {
        lemma_ghosts_agree_upto(g1, g2, ps, columns, rows, g1.len() as int);
        if g1.len() < g2.len() {
            let b = g2[g1.len() as int];
            assert(!covered(ps, b.column as int, b.row as int));
            let j = choose|j: int| 0 <= j < g1.len() && (#[trigger] g1[j]).column == b.column && g1[j].row == b.row;
            assert(g1[j] == g2[j]);
            assert(cell_before(g2[j], g2[g1.len() as int]));
        }
    } else {
        lemma_ghosts_agree_upto(g1, g2, ps, columns, rows, g2.len() as int);
        let a = g1[g2.len() as int];
        assert(!covered(ps, a.column as int, a.row as int));
        let j = choose|j: int| 0 <= j < g2.len() && (#[trigger] g2[j]).column == a.column && g2[j].row == a.row;
        assert(g1[j] == g2[j]);
        assert(cell_before(g1[j], g1[g2.len() as int]));
    }
    assert(g1 =~= g2);
}

proof fn lemma_first_fit_in_row(ps: Seq<Placement>, c: int, r: int, w: int, h: int, columns: int)
    requires
        1 <= c,
        1 <= r,
        1 <= w <= columns,
        forall|c2: int| 1 <= c2 < c ==> !#[trigger] fits(ps, c2, r, w, h, columns),
        exists|c2: int| c <= c2 && #[trigger] fits(ps, c2, r, w, h, columns),
    ensures
        exists|c2: int| #[trigger] fits(ps, c2, r, w, h, columns) && forall|c3: int|
            1 <= c3 < c2 ==> !#[trigger] fits(ps, c3, r, w, h, columns),
    decreases columns - c,
{
    if !fits(ps, c, r, w, h, columns) {
        let c2 = choose|c2: int| c <= c2 && #[trigger] fits(ps, c2, r, w, h, columns);
        assert(c2 > c);
        assert(c2 + w - 1 <= columns);
        lemma_first_fit_in_row(ps, c + 1, r, w, h, columns);
    }
}

proof fn lemma_first_fit_from_row(ps: Seq<Placement>, r: int, w: int, h: int, columns: int)
    requires
        1 <= r <= bottom_of(ps) + 1,
        1 <= w <= columns,
        1 <= h,
        forall|r2: int, c2: int|
            1 <= r2 < r && 1 <= c2 <= columns - w + 1 ==> !#[trigger] fits(ps, c2, r2, w, h, columns),
    ensures
        exists|c: int, rr: int| is_first_fit(ps, c, rr, w, h, columns),
    decreases bottom_of(ps) + 1 - r,
{
    lemma_bottom_of(ps);
    if exists|c2: int| 1 <= c2 && #[trigger] fits(ps, c2, r, w, h, columns) {
        lemma_first_fit_in_row(ps, 1, r, w, h, columns);
        let c = choose|c2: int| #[trigger] fits(ps, c2, r, w, h, columns) && forall|c3: int|
            1 <= c3 < c2 ==> !#[trigger] fits(ps, c3, r, w, h, columns);
        assert(is_first_fit(ps, c, r, w, h, columns));
    } else {
        if r == bottom_of(ps) + 1 {
            assert(fits(ps, 1, r, w, h, columns));
        }
        assert forall|r2: int, c2: int|
            1 <= r2 < r + 1 && 1 <= c2 <= columns - w + 1 implies !#[trigger] fits(ps, c2, r2, w, h, columns) by {
            if r2 == r {
                assert(1 <= c2);
            }
        }
        lemma_first_fit_from_row(ps, r + 1, w, h, columns);
    }
}

/// A tile no wider than the grid always has a first fit.
pub proof fn lemma_first_fit_exists(ps: Seq<Placement>, w: int, h: int, columns: int)
    requires
        1 <= w <= columns,
        1 <= h,
    ensures
        exists|c: int, r: int| is_first_fit(ps, c, r, w, h, columns),
{
    lemma_bottom_of(ps);
    lemma_first_fit_from_row(ps, 1, w, h, columns);
}

/// What every packing satisfies: each tile lies inside the grid, no two tiles
/// share a cell, and when every shape fits the grid's width each input tile
/// has exactly one placement, at its own size.
pub proof fn lemma_pack_tiles(shapes: Seq<TileShape>, columns: int)
    requires
        1 <= columns <= u16::MAX,
        rows_fit(shapes, columns),
    ensures
        bottom_of(pack_tiles(shapes, columns)) <= 2 * shapes.len(),
        bottom_of(pack_tiles(shapes, columns)) <= u16::MAX,
        well_placed(pack_tiles(shapes, columns), columns),
        forall|i: int, j: int|
            0 <= i < j < pack_tiles(shapes, columns).len() ==> (#[trigger] pack_tiles(shapes, columns)[i]).disjoint_from(
                #[trigger] pack_tiles(shapes, columns)[j],
            ),
        (forall|k: int| 0 <= k < shapes.len() ==> (#[trigger] shapes[k]).spec_columns() <= columns) ==> {
            &&& pack_tiles(shapes, columns).len() == shapes.len()
            &&& forall|i: int|
                0 <= i < shapes.len() ==> (#[trigger] pack_tiles(shapes, columns)[i]).width == shapes[i].spec_columns()
                    && pack_tiles(shapes, columns)[i].height == shapes[i].spec_rows()
        },
    decreases shapes.len(),
{
    if shapes.len() > 0 {
        let init = shapes.drop_last();
        lemma_pack_tiles(init, columns);
        let prev = pack_tiles(init, columns);
        let w = shapes.last().spec_columns() as int;
        let h = shapes.last().spec_rows() as int;
        if (forall|k: int| 0 <= k < shapes.len() ==> (#[trigger] shapes[k]).spec_columns() <= columns) {
            assert forall|k: int| 0 <= k < init.len() implies (#[trigger] init[k]).spec_columns() <= columns by {
                assert(init[k] == shapes[k]);
            }
            assert(shapes[shapes.len() - 1].spec_columns() <= columns);
        }
        if w <= columns {
            lemma_first_fit_exists(prev, w, h, columns);
            let (c, r) = choose|c: int, r: int| is_first_fit(prev, c, r, w, h, columns);
            let all = pack_tiles(shapes, columns);
            assert(all == prev.push(Placement { column: c as u16, row: r as u16, width: w as u16, height: h as u16 }));
            assert(fits(prev, c, r, w, h, columns));
            lemma_bottom_of(prev);
            if r > bottom_of(prev) + 1 {
                assert(fits(prev, 1, bottom_of(prev) + 1, w, h, columns));
            }
            assert(c as u16 == c && r as u16 == r);
            lemma_bottom_of(all);
            assert(all.drop_last() == prev);
            assert forall|i: int, j: int| 0 <= i < j < all.len() implies (#[trigger] all[i]).disjoint_from(#[trigger] all[j]) by {
                if j == all.len() - 1 {
                    assert(all[i] == prev[i]);
                    assert(rects_disjoint(prev[i].column as int, prev[i].row as int, prev[i].width as int, prev[i].height as int, c, r, w, h));
                } else {
                    assert(all[i] == prev[i] && all[j] == prev[j]);
                }
            }
        }
    }
}

/// A few shapes always fit: each tile ends at most two rows below the ones
/// before it.
pub proof fn lemma_rows_fit_short(shapes: Seq<TileShape>, columns: int)
    requires
        1 <= columns <= u16::MAX,
        shapes.len() <= 30000,
    ensures
        rows_fit(shapes, columns),
    decreases shapes.len(),
{
    if shapes.len() > 0 {
        let init = shapes.drop_last();
        lemma_rows_fit_short(init, columns);
        lemma_pack_tiles(init, columns);
        let prev = pack_tiles(init, columns);
        let w = shapes.last().spec_columns() as int;
        let h = shapes.last().spec_rows() as int;
        if w <= columns {
            lemma_first_fit_exists(prev, w, h, columns);
            let (c, r) = choose|c: int, r: int| is_first_fit(prev, c, r, w, h, columns);
            lemma_bottom_of(prev);
            if r > bottom_of(prev) + 1 {
                assert(fits(prev, 1, bottom_of(prev) + 1, w, h, columns));
            }
        }
    }
}

/// What fits for `shapes` fits for any prefix of them.
pub proof fn lemma_rows_fit_prefix(shapes: Seq<TileShape>, columns: int, i: int)
    requires
        rows_fit(shapes, columns),
        0 <= i <= shapes.len(),
    ensures
        rows_fit(shapes.take(i), columns),
    decreases shapes.len() - i,
{
    if i == shapes.len() {
        assert(shapes.take(i) == shapes);
    } else {
        lemma_rows_fit_prefix(shapes, columns, i + 1);
        assert(shapes.take(i + 1).drop_last() == shapes.take(i));
    }
}

/// Whether a `w`×`h` footprint at (`c`, `r`) is clear of every placement.
fn clear_of_all(ps: &Vec<Placement>, c: u32, r: u32, w: u32, h: u32) -> (res: bool)
    ensures
        res == forall|i: int|
            0 <= i < ps@.len() ==> rects_disjoint(
                #[trigger] ps@[i].column as int,
                ps@[i].row as int,
                ps@[i].width as int,
                ps@[i].height as int,
                c as int,
                r as int,
                w as int,
                h as int,
            ),
{
    let mut i: usize = 0;
    while i < ps.len()
        invariant
            i <= ps@.len(),
            forall|k: int|
                0 <= k < i ==> rects_disjoint(
                    #[trigger] ps@[k].column as int,
                    ps@[k].row as int,
                    ps@[k].width as int,
                    ps@[k].height as int,
                    c as int,
                    r as int,
                    w as int,
                    h as int,
                ),
        decreases ps@.len() - i,
    {
        let p = ps[i];
        let pc = p.column as u64;
        let pr = p.row as u64;
        let pw = p.width as u64;
        let ph = p.height as u64;
        let c64 = c as u64;
        let r64 = r as u64;
        let w64 = w as u64;
        let h64 = h as u64;
        if !(pc + pw <= c64 || c64 + w64 <= pc || pr + ph <= r64 || r64 + h64 <= pr) {
            return false;
        }
        i = i + 1;
    }
    true
}

/// Whether some placement covers the 1-based cell (`c`, `r`).
pub(crate) fn covered_at(ps: &Vec<Placement>, c: u32, r: u32) -> (res: bool)
    ensures
        res == covered(ps@, c as int, r as int),
{
    let mut i: usize = 0;
    while i < ps.len()
        invariant
            i <= ps@.len(),
            forall|k: int| 0 <= k < i ==> !(#[trigger] ps@[k]).covers(c as int, r as int),
        decreases ps@.len() - i,
    {
        let p = ps[i];
        if (p.column as u32) <= c && c < (p.column as u32) + (p.width as u32) && (p.row as u32) <= r
            && r < (p.row as u32) + (p.height as u32) {
            assert(ps@[i as int].covers(c as int, r as int));
            return true;
        }
        i = i + 1;
    }
    false
}

/// Every cell of the first `rows` rows of a `columns`-wide grid that `ps`
/// leaves uncovered, row by row.
pub(crate) fn uncovered_cells(ps: &Vec<Placement>, columns: u16, rows: u16) -> (g: Vec<Placement>)
    ensures
        g@ == uncovered(ps@, columns as int, rows as int),
{
    let mut g: Vec<Placement> = Vec::new();
    let mut r: u32 = 1;
    while r <= rows as u32
        invariant
            1 <= r <= rows as u32 + 1,
            forall|i: int|
                0 <= i < g@.len() ==> {
                    &&& (#[trigger] g@[i]).width == 1
                    &&& g@[i].height == 1
                    &&& 1 <= g@[i].column <= columns
                    &&& 1 <= g@[i].row < r
                    &&& !covered(ps@, g@[i].column as int, g@[i].row as int)
                },
            forall|i: int, j: int|
                0 <= i < j < g@.len() ==> cell_before(#[trigger] g@[i], #[trigger] g@[j]),
            forall|c: int, rr: int|
                1 <= c <= columns && 1 <= rr < r && !covered(ps@, c, rr) ==> exists|i: int|
                    0 <= i < g@.len() && (#[trigger] g@[i]).column == c && g@[i].row == rr,
        decreases rows as u32 + 1 - r,
    {
        let mut c: u32 = 1;
        while c <= columns as u32
            invariant
                1 <= r <= rows as u32,
                1 <= c <= columns as u32 + 1,
                forall|i: int|
                    0 <= i < g@.len() ==> {
                        &&& (#[trigger] g@[i]).width == 1
                        &&& g@[i].height == 1
                        &&& 1 <= g@[i].column <= columns
                        &&& 1 <= g@[i].row <= r
                        &&& (g@[i].row == r ==> g@[i].column < c)
                        &&& !covered(ps@, g@[i].column as int, g@[i].row as int)
                    },
                forall|i: int, j: int|
                    0 <= i < j < g@.len() ==> cell_before(#[trigger] g@[i], #[trigger] g@[j]),
                forall|cc: int, rr: int|
                    1 <= cc <= columns && ((1 <= rr < r) || (rr == r && cc < c)) && !covered(
                        ps@,
                        cc,
                        rr,
                    ) ==> exists|i: int|
                        0 <= i < g@.len() && (#[trigger] g@[i]).column == cc && g@[i].row == rr,
            decreases columns as u32 + 1 - c,
        {
            if !covered_at(ps, c, r) {
                let ghost before = g@;
                g.push(Placement { column: c as u16, row: r as u16, width: 1, height: 1 });
                proof {
                    assert forall|cc: int, rr: int|
                        1 <= cc <= columns && ((1 <= rr < r) || (rr == r && cc < c + 1)) && !covered(
                            ps@,
                            cc,
                            rr,
                        ) implies exists|i: int|
                        0 <= i < g@.len() && (#[trigger] g@[i]).column == cc && g@[i].row == rr by {
                        if rr == r && cc == c {
                            assert(g@[g@.len() - 1].column == cc);
                        } else {
                            let i = choose|i: int|
                                0 <= i < before.len() && (#[trigger] before[i]).column == cc
                                    && before[i].row == rr;
                            assert(g@[i] == before[i]);
                        }
                    }
                }
            }
            c = c + 1;
        }
        r = r + 1;
    }
    proof {
        assert(ghosts_ok(g@, ps@, columns as int, rows as int));
        lemma_ghosts_unique(g@, uncovered(ps@, columns as int, rows as int), ps@, columns as int, rows as int);
    }
    g
}

/// Pack tiles into a grid `columns` wide.
///
/// Tiles are placed in the given order, each at the first (row, column) pair,
/// smallest row first, where its whole footprint is free; a tile wider than
/// the grid is skipped. The packer never rearranges tiles to close gaps: every
/// cell left empty becomes a one-cell ghost, and `rows` is the last row any
/// tile reaches.
pub fn pack(shapes: &[TileShape], columns: u16) -> (p: Pack)
    requires
        columns > 0,
        rows_fit(shapes@, columns as int),
    ensures
        p@ == pack_view(shapes@, columns as int),
{
    let mut placements: Vec<Placement> = Vec::new();
    let mut bottom: u16 = 0;
    let mut i: usize = 0;
    while i < shapes.len()
        invariant
            columns > 0,
            rows_fit(shapes@, columns as int),
            i <= shapes@.len(),
            placements@ == pack_tiles(shapes@.take(i as int), columns as int),
            bottom == bottom_of(placements@),
            well_placed(placements@, columns as int),
        decreases shapes@.len() - i,
    {
        let shape = shapes[i];
        let width = shape.columns() as u32;
        let height = shape.rows() as u32;
        proof {
            assert(shapes@.take(i + 1).drop_last() == shapes@.take(i as int));
            assert(shapes@.take(i + 1).last() == shape);
            lemma_bottom_of(placements@);
            lemma_rows_fit_prefix(shapes@, columns as int, i + 1);
        }
        if width <= columns as u32 {
            let mut row: u32 = 1;
            let mut found_col: u32 = 1;
            loop
                invariant
                    columns > 0,
                    1 <= width <= columns,
                    1 <= height <= 2,
                    width == shape.spec_columns(),
                    height == shape.spec_rows(),
                    1 <= row <= bottom as u32 + 1,
                    bottom == bottom_of(placements@),
                    forall|k: int|
                        0 <= k < placements@.len() ==> #[trigger] placements@[k].row
                            + placements@[k].height - 1 <= bottom,
                    forall|r2: int, c2: int|
                        1 <= r2 < row && 1 <= c2 <= columns - width + 1 ==> !#[trigger] fits(
                            placements@,
                            c2,
                            r2,
                            width as int,
                            height as int,
                            columns as int,
                        ),
                ensures
                    1 <= row <= bottom as u32 + 1,
                    is_first_fit(placements@, found_col as int, row as int, width as int, height as int, columns as int),
                decreases bottom as u32 + 1 - row,
            {
                let mut col: u32 = 1;
                let mut hit = false;
                while col + width - 1 <= columns as u32
                    invariant_except_break
                        !hit,
                    invariant
                        1 <= width <= columns,
                        1 <= col <= columns as u32 + 1,
                        1 <= row,
                        forall|c2: int|
                            1 <= c2 < col ==> !#[trigger] fits(
                                placements@,
                                c2,
                                row as int,
                                width as int,
                                height as int,
                                columns as int,
                            ),
                    ensures
                        hit ==> fits(placements@, col as int, row as int, width as int, height as int, columns as int),
                        !hit ==> col + width - 1 > columns,
                    decreases columns as u32 + 1 - col,
                {
                    if clear_of_all(&placements, col, row, width, height) {
                        hit = true;
                        break;
                    }
                    col = col + 1;
                }
                if hit {
                    found_col = col;
                    break;
                }
                proof {
                    if row == bottom as u32 + 1 {
                        assert(fits(placements@, 1, row as int, width as int, height as int, columns as int));
                    }
                }
                row = row + 1;
            }
            let placed = Placement {
                column: found_col as u16,
                row: row as u16,
                width: width as u16,
                height: height as u16,
            };
            proof {
                let prev = placements@;
                assert(is_first_fit(prev, found_col as int, row as int, width as int, height as int, columns as int));
                let (c, r) = choose|c: int, r: int|
                    is_first_fit(prev, c, r, width as int, height as int, columns as int);
                lemma_first_fit_unique(prev, c, r, found_col as int, row as int, width as int, height as int, columns as int);
            }
            placements.push(placed);
            if row + height - 1 > bottom as u32 {
                bottom = (row + height - 1) as u16;
            }
            proof {
                assert(placements@.drop_last() == pack_tiles(shapes@.take(i as int), columns as int));
            }
        }
        i = i + 1;
    }
    proof {
        assert(shapes@.take(i as int) == shapes@);
    }
    let ghosts = uncovered_cells(&placements, columns, bottom);
    Pack { tiles: placements, ghosts, rows: bottom }
}

} // verus!
