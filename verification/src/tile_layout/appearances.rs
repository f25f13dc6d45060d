//! How often each tile is listed once a pack is cut into bands: exactly
//! once, in the band holding its top row, the strip holding its left column
//! and the strip-row of its top row.
use vstd::prelude::*;

use super::GRID_COLUMNS;
use super::cutting::{
    at, band_bottom, bands_from, bands_view, entries, lemma_band_bottom, lemma_strip_right, scan,
    strip_right, strips_from, Entry, StripView,
};
use super::geometry::Placement;
use super::packing::PackView;

verus! {

/// Times `e` is listed in one strip-row.
pub open spec fn in_row(row: Seq<(Entry, u16)>, e: Entry) -> nat
    decreases row.len(),
{
    if row.len() == 0 {
        0
    } else {
        (if row[0].0 == e {
            1nat
        } else {
            0nat
        }) + in_row(row.drop_first(), e)
    }
}

/// Times `e` is listed in the rows of a strip.
pub open spec fn in_rows(rows: Seq<Seq<(Entry, u16)>>, e: Entry) -> nat
    decreases rows.len(),
{
    if rows.len() == 0 {
        0
    } else {
        in_row(rows[0], e) + in_rows(rows.drop_first(), e)
    }
}

/// Times `e` is listed in the strips of a band.
pub open spec fn in_strips(strips: Seq<StripView>, e: Entry) -> nat
    decreases strips.len(),
{
    if strips.len() == 0 {
        0
    } else {
        in_rows(strips[0].rows, e) + in_strips(strips.drop_first(), e)
    }
}

/// Times `e` is listed across all the bands.
pub open spec fn appearances(bands: Seq<Seq<StripView>>, e: Entry) -> nat
    decreases bands.len(),
{
    if bands.len() == 0 {
        0
    } else {
        in_strips(bands[0], e) + appearances(bands.drop_first(), e)
    }
}

/// What the cutter is given by the packer: every placement at least a cell
/// each way and inside the grid's columns and rows, no two sharing a cell,
/// and every tile index one a `usize` can hold.
pub open spec fn laid_out(p: PackView) -> bool {
    &&& p.tiles.len() <= usize::MAX
    &&& forall|k: int|
        0 <= k < entries(p).len() ==> {
            &&& 1 <= (#[trigger] entries(p)[k]).1.width
            &&& 1 <= entries(p)[k].1.height
            &&& 1 <= entries(p)[k].1.column
            &&& entries(p)[k].1.column + entries(p)[k].1.width - 1 <= GRID_COLUMNS
            &&& 1 <= entries(p)[k].1.row
            &&& entries(p)[k].1.row + entries(p)[k].1.height - 1 <= p.rows
        }
    &&& forall|k1: int, k2: int|
        0 <= k1 < k2 < entries(p).len() ==> (#[trigger] entries(p)[k1]).1.disjoint_from(
            (#[trigger] entries(p)[k2]).1,
        )
}

pub proof fn lemma_entry(p: PackView, k: int)
    requires
        0 <= k < entries(p).len(),
    ensures
        k < p.tiles.len() ==> entries(p)[k] == (Entry::Tile(k as usize), p.tiles[k]),
        k >= p.tiles.len() ==> entries(p)[k] == (Entry::Vacant, p.ghosts[k - p.tiles.len()]),
        entries(p).len() == p.tiles.len() + p.ghosts.len(),
{
}

/// Two different entries never share a cell.
proof fn lemma_no_shared_cell(p: PackView, k1: int, k2: int, c: int, r: int)
    requires
        laid_out(p),
        0 <= k1 < entries(p).len(),
        0 <= k2 < entries(p).len(),
        k1 != k2,
    ensures
        !(entries(p)[k1].1.covers(c, r) && entries(p)[k2].1.covers(c, r)),
{
    if k1 < k2 {
        assert(entries(p)[k1].1.disjoint_from(entries(p)[k2].1));
    } else {
        assert(entries(p)[k2].1.disjoint_from(entries(p)[k1].1));
    }
}

/// Entry `k` is listed as tile `i` exactly when it is the `i`th tile.
proof fn lemma_tag(p: PackView, k: int, i: int)
    requires
        laid_out(p),
        0 <= k < entries(p).len(),
        0 <= i < p.tiles.len(),
    ensures
        (entries(p)[k].0 == Entry::Tile(i as usize)) <==> k == i,
{
    lemma_entry(p, k);
    lemma_entry(p, i);
}

proof fn lemma_at(all: Seq<(Entry, Placement)>, r: int, c: int)
    ensures
        at(all, r, c) matches Some(x) ==> exists|k: int|
            0 <= k < all.len() && all[k] == x && x.1.row == r && x.1.column == c,
        at(all, r, c) is None ==> forall|k: int|
            0 <= k < all.len() ==> !((#[trigger] all[k]).1.row == r && all[k].1.column == c),
    decreases all.len(),
{
    if all.len() > 0 {
        lemma_at(all.drop_last(), r, c);
        if !(all.last().1.row == r && all.last().1.column == c) {
            if at(all, r, c) is Some {
                let x = at(all, r, c)->0;
                let prev = all.drop_last();
                let k = choose|k: int| 0 <= k < prev.len() && prev[k] == x && x.1.row == r && x.1.column == c;
                assert(all[k] == prev[k]);
            } else {
                assert forall|k: int| 0 <= k < all.len() implies !((#[trigger] all[k]).1.row == r && all[k].1.column
                    == c) by {
                    if k < all.len() - 1 {
                        assert(all[k] == all.drop_last()[k]);
                    }
                }
            }
        } else {
            assert(all[all.len() - 1] == all.last());
        }
    }
}

/// Walking one strip-row from sub-column `c` to `right`, tile `i` is listed
/// once when its top-left cell is on that row within that span, and not at
/// all otherwise: no entry the walk jumps over can hide its top-left cell.
proof fn lemma_scan(p: PackView, i: int, r: int, c: int, right: int)
    requires
        laid_out(p),
        0 <= i < p.tiles.len(),
    ensures
        in_row(scan(entries(p), r, c, right), Entry::Tile(i as usize)) == (if r == p.tiles[i].row && c
            <= p.tiles[i].column <= right {
            1nat
        } else {
            0nat
        }),
    decreases (if c > right { 0 } else { right + 1 - c }),
{
    let all = entries(p);
    let t = p.tiles[i];
    let e = Entry::Tile(i as usize);
    lemma_entry(p, i);
    if c <= right {
        let found = at(all, r, c);
        lemma_at(all, r, c);
        if found is Some {
            let f = found->0;
            let k = choose|k: int| 0 <= k < all.len() && all[k] == f && f.1.row == r && f.1.column == c;
            let w: int = if f.1.width >= 1 { f.1.width as int } else { 1 };
            assert(f.1.width >= 1);
            let rest = scan(all, r, c + w, right);
            assert((seq![(f.0, f.1.width)] + rest).drop_first() =~= rest);
            lemma_scan(p, i, r, c + w, right);
            lemma_tag(p, k, i);
            if r == t.row && c < t.column && t.column < c + w {
                assert(all[k].1.covers(t.column as int, r));
                assert(all[i].1.covers(t.column as int, r));
                lemma_no_shared_cell(p, k, i, t.column as int, r);
            }
        } else {
            if r == t.row && c == t.column {
                assert(all[i].1.row == r && all[i].1.column == c);
            }
            lemma_scan(p, i, r, c + 1, right);
        }
    }
}

/// Over the rows `top..top + n` of a strip spanning `left..=right`.
proof fn lemma_rows(p: PackView, i: int, top: int, n: nat, left: int, right: int)
    requires
        laid_out(p),
        0 <= i < p.tiles.len(),
    ensures
        in_rows(Seq::new(n, |j: int| scan(entries(p), top + j, left, right)), Entry::Tile(i as usize)) == (
        if top <= p.tiles[i].row < top + n && left <= p.tiles[i].column <= right {
            1nat
        } else {
            0nat
        }),
    decreases n,
{
    let rows = Seq::new(n, |j: int| scan(entries(p), top + j, left, right));
    if n > 0 {
        let rest = Seq::new((n - 1) as nat, |j: int| scan(entries(p), (top + 1) + j, left, right));
        assert(rows.drop_first() =~= rest);
        lemma_scan(p, i, top, left, right);
        lemma_rows(p, i, top + 1, (n - 1) as nat, left, right);
    }
}

/// Over the strips of the band `top..=bottom` from sub-column `left` on.
proof fn lemma_strips(p: PackView, i: int, top: int, bottom: int, left: int)
    requires
        laid_out(p),
        0 <= i < p.tiles.len(),
        top <= bottom,
        1 <= left,
    ensures
        in_strips(strips_from(p, top, bottom, left), Entry::Tile(i as usize)) == (if top <= p.tiles[i].row
            <= bottom && left <= p.tiles[i].column {
            1nat
        } else {
            0nat
        }),
    decreases GRID_COLUMNS + 1 - left,
{
    lemma_entry(p, i);
    assert(entries(p)[i].1 == p.tiles[i]);
    if left <= GRID_COLUMNS {
        let right = strip_right(p, top, bottom, left);
        lemma_strip_right(p, top, bottom, left);
        let rows = Seq::new((bottom - top + 1) as nat, |j: int| scan(entries(p), top + j, left, right));
        let first = StripView { width: right - left + 1, rows };
        let strips = strips_from(p, top, bottom, left);
        assert(strips == seq![first] + strips_from(p, top, bottom, right + 1));
        assert(strips.drop_first() =~= strips_from(p, top, bottom, right + 1));
        lemma_rows(p, i, top, (bottom - top + 1) as nat, left, right);
        lemma_strips(p, i, top, bottom, right + 1);
    }
}

/// Over the bands from row `top` down.
proof fn lemma_bands(p: PackView, i: int, top: int)
    requires
        laid_out(p),
        0 <= i < p.tiles.len(),
        1 <= top,
    ensures
        appearances(bands_from(p, top), Entry::Tile(i as usize)) == (if top <= p.tiles[i].row <= p.rows {
            1nat
        } else {
            0nat
        }),
    decreases p.rows + 1 - top,
{
    lemma_entry(p, i);
    assert(entries(p)[i].1 == p.tiles[i]);
    if top <= p.rows {
        let bottom = band_bottom(p, top);
        lemma_band_bottom(p, top);
        let bands = bands_from(p, top);
        assert(bands == seq![strips_from(p, top, bottom, 1)] + bands_from(p, bottom + 1));
        assert(bands.drop_first() =~= bands_from(p, bottom + 1));
        lemma_strips(p, i, top, bottom, 1);
        lemma_bands(p, i, bottom + 1);
    }
}

/// Every tile of a laid-out pack is listed exactly once across its bands.
pub proof fn lemma_each_tile_listed_once(p: PackView, i: int)
    requires
        laid_out(p),
        0 <= i < p.tiles.len(),
    ensures
        appearances(bands_view(p), Entry::Tile(i as usize)) == 1,
{
    lemma_entry(p, i);
    assert(entries(p)[i].1 == p.tiles[i]);
    lemma_bands(p, i, 1);
}

} // verus!
