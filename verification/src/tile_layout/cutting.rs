//! The band cutter: a [`Pack`] cut into nested rows and columns that plain
//! widgets can draw exactly.
//!
//! The grid is cut into **bands** at every row boundary no placement
//! straddles; each band is cut into **strips** at every sub-column boundary no
//! placement in that band straddles; each strip-row lists the entries whose
//! top-left cell sits in that strip on that grid row, left to right, with
//! their widths.
use vstd::prelude::*;

use super::GRID_COLUMNS;
use super::geometry::Placement;
use super::packing::{Pack, PackView};

verus! {

/// A cell's occupant.
#[derive(Debug, Clone, Copy, PartialEq, Eq, Structural)]
pub enum Entry {
    /// A tile from the input list, by index.
    Tile(usize),
    Vacant,
}

/// One horizontal slice of the grid.
#[derive(Debug, Clone, PartialEq, Eq)]
pub struct Band {
    pub strips: Vec<Strip>,
}

/// A vertical strip inside a band.
#[derive(Debug, Clone, PartialEq, Eq)]
pub struct Strip {
    /// Sub-columns this strip spans.
    pub width: u16,
    /// One inner list per grid row the band covers, top to bottom. A tile
    /// spanning two rows appears in the first and is absent from the second.
    pub rows: Vec<Vec<(Entry, u16)>>,
}

/// A [`Strip`] as mathematical sequences.
pub ghost struct StripView {
    pub width: int,
    pub rows: Seq<Seq<(Entry, u16)>>,
}

impl View for Strip {
    type V = StripView;

    open spec fn view(&self) -> StripView {
        StripView { width: self.width as int, rows: self.rows@.map_values(|r: Vec<(Entry, u16)>| r@) }
    }
}

impl View for Band {
    type V = Seq<StripView>;

    open spec fn view(&self) -> Seq<StripView> {
        self.strips@.map_values(|s: Strip| s@)
    }
}

/// Every placement of the pack, tagged: tiles by index first, then ghosts.
pub open spec fn entries(p: PackView) -> Seq<(Entry, Placement)> {
    p.tiles.map(|i: int, t: Placement| (Entry::Tile(i as usize), t)) + p.ghosts.map(
        |i: int, g: Placement| (Entry::Vacant, g),
    )
}

/// Some placement reaches from row `r` into row `r + 1`.
pub open spec fn straddles_row(p: PackView, r: int) -> bool {
    exists|k: int|
        0 <= k < entries(p).len() && (#[trigger] entries(p)[k]).1.row <= r && r + 1 < entries(p)[k].1.row
            + entries(p)[k].1.height
}

/// The last row of the band that starts at `top`: the first row from `top` on
/// whose lower boundary nothing straddles, or the last row of the grid.
pub open spec fn band_bottom(p: PackView, top: int) -> int
    decreases p.rows - top,
{
    if top >= p.rows || !straddles_row(p, top) {
        top
    } else {
        band_bottom(p, top + 1)
    }
}

/// Some placement with its top row in `top..=bottom` reaches from sub-column
/// `c` into `c + 1`.
pub open spec fn straddles_col(p: PackView, top: int, bottom: int, c: int) -> bool {
    exists|k: int|
        0 <= k < entries(p).len() && top <= (#[trigger] entries(p)[k]).1.row <= bottom
            && entries(p)[k].1.column <= c && c + 1 < entries(p)[k].1.column + entries(p)[k].1.width
}

/// The right-hand sub-column of the strip that starts at `left`.
pub open spec fn strip_right(p: PackView, top: int, bottom: int, left: int) -> int
    decreases GRID_COLUMNS - left,
{
    if left >= GRID_COLUMNS || !straddles_col(p, top, bottom, left) {
        left
    } else {
        strip_right(p, top, bottom, left + 1)
    }
}

/// The last entry of `all` whose top-left cell is (`c`, `r`).
pub open spec fn at(all: Seq<(Entry, Placement)>, r: int, c: int) -> Option<(Entry, Placement)>
    decreases all.len(),
{
    if all.len() == 0 {
        None
    } else if all.last().1.row == r && all.last().1.column == c {
        Some(all.last())
    } else {
        at(all.drop_last(), r, c)
    }
}

/// The entries a strip-row lists: walking row `r` from sub-column `c` to
/// `right`, each entry found at the current cell is listed with its width and
/// the walk jumps past it; an empty cell is stepped over.
pub open spec fn scan(all: Seq<(Entry, Placement)>, r: int, c: int, right: int) -> Seq<(Entry, u16)>
    decreases (if c > right { 0 } else { right + 1 - c }),
{
    if c > right {
        Seq::empty()
    } else {
        let found = at(all, r, c);
        if found is Some {
            let f = found->0;
            let w: int = if f.1.width >= 1 { f.1.width as int } else { 1 };
            seq![(f.0, f.1.width)] + scan(all, r, c + w, right)
        } else {
            scan(all, r, c + 1, right)
        }
    }
}

/// The strips of the band `top..=bottom`, from sub-column `left` on.
pub open spec fn strips_from(p: PackView, top: int, bottom: int, left: int) -> Seq<StripView>
    decreases GRID_COLUMNS + 1 - left,
{
    if left > GRID_COLUMNS || left < 1 {
        Seq::empty()
    } else {
        let right = strip_right(p, top, bottom, left);
        proof {
            lemma_strip_right(p, top, bottom, left);
        }
        let rows = Seq::new(
            (bottom - top + 1) as nat,
            |i: int| scan(entries(p), top + i, left, right),
        );
        seq![StripView { width: right - left + 1, rows }] + strips_from(p, top, bottom, right + 1)
    }
}

/// The bands of the grid, from row `top` down.
pub open spec fn bands_from(p: PackView, top: int) -> Seq<Seq<StripView>>
    decreases p.rows + 1 - top,
{
    if top > p.rows || top < 1 {
        Seq::empty()
    } else {
        let bottom = band_bottom(p, top);
        proof {
            lemma_band_bottom(p, top);
        }
        seq![strips_from(p, top, bottom, 1)] + bands_from(p, bottom + 1)
    }
}

/// What [`bands`] produces for a pack.
pub open spec fn bands_view(p: PackView) -> Seq<Seq<StripView>> {
    bands_from(p, 1)
}

pub proof fn lemma_band_bottom(p: PackView, top: int)
    ensures
        top <= band_bottom(p, top),
        top <= p.rows ==> band_bottom(p, top) <= p.rows,
    decreases p.rows - top,
{
    if !(top >= p.rows || !straddles_row(p, top)) {
        lemma_band_bottom(p, top + 1);
    }
}

pub proof fn lemma_strip_right(p: PackView, top: int, bottom: int, left: int)
    ensures
        left <= strip_right(p, top, bottom, left),
        left <= GRID_COLUMNS ==> strip_right(p, top, bottom, left) <= GRID_COLUMNS,
    decreases GRID_COLUMNS - left,
{
    if !(left >= GRID_COLUMNS || !straddles_col(p, top, bottom, left)) {
        lemma_strip_right(p, top, bottom, left + 1);
    }
}

/// What [`bands`] needs of a pack: every placement at least one sub-column
/// wide, and every edge and the row count with room in `u16`.
pub open spec fn cuttable(p: PackView) -> bool {
    &&& p.rows < u16::MAX
    &&& entries(p).len() <= usize::MAX
    &&& forall|k: int|
        0 <= k < entries(p).len() ==> {
            &&& (#[trigger] entries(p)[k]).1.width >= 1
            &&& entries(p)[k].1.column + entries(p)[k].1.width <= u16::MAX
            &&& entries(p)[k].1.row + entries(p)[k].1.height <= u16::MAX
        }
}

fn entry_at(pack: &Pack, k: usize) -> (r: (Entry, Placement))
    requires
        k < pack.tiles@.len() + pack.ghosts@.len(),
    ensures
        r == entries(pack@)[k as int],
{
    if k < pack.tiles.len() {
        (Entry::Tile(k), pack.tiles[k])
    } else {
        (Entry::Vacant, pack.ghosts[k - pack.tiles.len()])
    }
}

fn straddles_row_exec(pack: &Pack, r: u16) -> (res: bool)
    requires
        cuttable(pack@),
        r < u16::MAX,
    ensures
        res == straddles_row(pack@, r as int),
{
    let n = pack.tiles.len() + pack.ghosts.len();
    let mut k: usize = 0;
    while k < n
        invariant
            n == entries(pack@).len(),
            k <= n,
            cuttable(pack@),
            r < u16::MAX,
            forall|j: int|
                0 <= j < k ==> !((#[trigger] entries(pack@)[j]).1.row <= r && r + 1 < entries(pack@)[j].1.row
                    + entries(pack@)[j].1.height),
        decreases n - k,
    {
        let (_, p) = entry_at(pack, k);
        if p.row <= r && r + 1 < p.row + p.height {
            return true;
        }
        k = k + 1;
    }
    false
}

fn straddles_col_exec(pack: &Pack, top: u16, bottom: u16, c: u16) -> (res: bool)
    requires
        cuttable(pack@),
        c < GRID_COLUMNS,
    ensures
        res == straddles_col(pack@, top as int, bottom as int, c as int),
{
    let n = pack.tiles.len() + pack.ghosts.len();
    let mut k: usize = 0;
    while k < n
        invariant
            n == entries(pack@).len(),
            k <= n,
            cuttable(pack@),
            c < GRID_COLUMNS,
            forall|j: int|
                0 <= j < k ==> !(top <= (#[trigger] entries(pack@)[j]).1.row <= bottom
                    && entries(pack@)[j].1.column <= c && c + 1 < entries(pack@)[j].1.column
                    + entries(pack@)[j].1.width),
        decreases n - k,
    {
        let (_, p) = entry_at(pack, k);
        if top <= p.row && p.row <= bottom && p.column <= c && c + 1 < p.column + p.width {
            return true;
        }
        k = k + 1;
    }
    false
}

proof fn lemma_at_prefix(all: Seq<(Entry, Placement)>, n: int, r: int, c: int)
    requires
        0 <= n <= all.len(),
        forall|j: int|
            n <= j < all.len() ==> !((#[trigger] all[j]).1.row == r && all[j].1.column == c),
    ensures
        at(all, r, c) == at(all.take(n), r, c),
    decreases all.len() - n,
{
    if n < all.len() {
        assert(all.drop_last().take(n) == all.take(n));
        lemma_at_prefix(all.drop_last(), n, r, c);
    } else {
        assert(all.take(n) == all);
    }
}

fn at_exec(pack: &Pack, r: u16, c: u16) -> (res: Option<(Entry, Placement)>)
    requires
        cuttable(pack@),
    ensures
        res == at(entries(pack@), r as int, c as int),
{
    let n = pack.tiles.len() + pack.ghosts.len();
    let ghost all = entries(pack@);
    let mut k: usize = n;
    while k > 0
        invariant
            n == all.len(),
            all == entries(pack@),
            k <= n,
            forall|j: int| k <= j < n ==> !((#[trigger] all[j]).1.row == r && all[j].1.column == c),
        decreases k,
    {
        let e = entry_at(pack, k - 1);
        if e.1.row == r && e.1.column == c {
            proof {
                lemma_at_prefix(all, k as int, r as int, c as int);
                assert(all.take(k as int).last() == e);
            }
            return Some(e);
        }
        k = k - 1;
    }
    proof {
        lemma_at_prefix(all, 0, r as int, c as int);
    }
    None
}

fn scan_exec(pack: &Pack, r: u16, left: u16, right: u16) -> (res: Vec<(Entry, u16)>)
    requires
        cuttable(pack@),
        1 <= left <= right <= GRID_COLUMNS,
    ensures
        res@ == scan(entries(pack@), r as int, left as int, right as int),
{
    let ghost all = entries(pack@);
    let mut out: Vec<(Entry, u16)> = Vec::new();
    let mut c: u16 = left;
    while c <= right
        invariant
            all == entries(pack@),
            cuttable(pack@),
            right <= GRID_COLUMNS,
            left <= c,
            out@ + scan(all, r as int, c as int, right as int) == scan(all, r as int, left as int, right as int),
        decreases (if c > right { 0 } else { right + 1 - c }),
    {
        let ghost before = out@;
        match at_exec(pack, r, c) {
            Some((entry, p)) => {
                proof {
                    lemma_at_member(all, r as int, c as int);
                    let j = choose|j: int| 0 <= j < all.len() && all[j] == (entry, p);
                    assert(entries(pack@)[j] == (entry, p));
                    assert(p.width >= 1);
                }
                out.push((entry, p.width));
                proof {
                    assert(out@ + scan(all, r as int, c + p.width, right as int) == before + scan(
                        all,
                        r as int,
                        c as int,
                        right as int,
                    ));
                }
                c = c + p.width;
            },
            None => {
                c = c + 1;
            },
        }
    }
    proof {
        assert(out@ + scan(all, r as int, c as int, right as int) == out@);
    }
    out
}

proof fn lemma_at_member(all: Seq<(Entry, Placement)>, r: int, c: int)
    ensures
        at(all, r, c) matches Some(found) ==> (exists|j: int| 0 <= j < all.len() && all[j] == found)
            && found.1.row == r && found.1.column == c,
    decreases all.len(),
{
    if all.len() > 0 {
        if !(all.last().1.row == r && all.last().1.column == c) {
            lemma_at_member(all.drop_last(), r, c);
            if let Some(found) = at(all, r, c) {
                let j = choose|j: int| 0 <= j < all.drop_last().len() && all.drop_last()[j] == found;
                assert(all[j] == found);
                assert(exists|j: int| 0 <= j < all.len() && all[j] == found);
            }
        } else {
            assert(all[all.len() - 1] == all.last());
            assert(exists|j: int| 0 <= j < all.len() && all[j] == all.last());
        }
    }
}

/// Cut a [`Pack`] into drawable bands.
pub fn bands(pack: &Pack) -> (r: Vec<Band>)
    requires
        cuttable(pack@),
    ensures
        r@.map_values(|b: Band| b@) == bands_view(pack@),
{
    let mut out: Vec<Band> = Vec::new();
    if pack.rows == 0 {
        proof {
            assert(out@.map_values(|b: Band| b@) == bands_view(pack@));
        }
        return out;
    }
    let cols = GRID_COLUMNS;
    let mut top: u16 = 1;
    while top <= pack.rows
        invariant
            cuttable(pack@),
            cols == GRID_COLUMNS,
            1 <= top <= pack.rows + 1,
            out@.map_values(|b: Band| b@) + bands_from(pack@, top as int) == bands_view(pack@),
        decreases pack.rows + 1 - top,
    {
        let mut bottom = top;
        proof {
            lemma_band_bottom(pack@, top as int);
        }
        while bottom < pack.rows && straddles_row_exec(pack, bottom)
            invariant
                cuttable(pack@),
                top <= bottom <= pack.rows,
                band_bottom(pack@, top as int) == band_bottom(pack@, bottom as int),
            decreases pack.rows - bottom,
        {
            bottom = bottom + 1;
        }
        let ghost band_rows = (bottom - top + 1) as nat;
        let mut strips: Vec<Strip> = Vec::new();
        let mut left: u16 = 1;
        while left <= cols
            invariant
                cuttable(pack@),
                cols == GRID_COLUMNS,
                1 <= top <= bottom <= pack.rows,
                bottom == band_bottom(pack@, top as int),
                1 <= left <= cols + 1,
                strips@.map_values(|s: Strip| s@) + strips_from(pack@, top as int, bottom as int, left as int)
                    == strips_from(pack@, top as int, bottom as int, 1),
            decreases cols + 1 - left,
        {
            let mut right = left;
            proof {
                lemma_strip_right(pack@, top as int, bottom as int, left as int);
            }
            while right < cols && straddles_col_exec(pack, top, bottom, right)
                invariant
                    cuttable(pack@),
                    cols == GRID_COLUMNS,
                    left <= right <= cols,
                    strip_right(pack@, top as int, bottom as int, left as int) == strip_right(
                        pack@,
                        top as int,
                        bottom as int,
                        right as int,
                    ),
                decreases cols - right,
            {
                right = right + 1;
            }
            let ghost want_rows = Seq::new(
                (bottom - top + 1) as nat,
                |i: int| scan(entries(pack@), top + i, left as int, right as int),
            );
            let mut rows: Vec<Vec<(Entry, u16)>> = Vec::new();
            let mut r: u16 = top;
            while r <= bottom
                invariant
                    cuttable(pack@),
                    1 <= top <= r <= bottom + 1,
                    bottom <= pack.rows,
                    1 <= left <= right <= GRID_COLUMNS,
                    want_rows == Seq::new(
                        (bottom - top + 1) as nat,
                        |i: int| scan(entries(pack@), top + i, left as int, right as int),
                    ),
                    rows@.map_values(|v: Vec<(Entry, u16)>| v@) == want_rows.take(r - top),
                decreases bottom + 1 - r,
            {
                let entries_here = scan_exec(pack, r, left, right);
                let ghost before = rows@;
                rows.push(entries_here);
                proof {
                    let f = |v: Vec<(Entry, u16)>| v@;
                    assert(rows@.map_values(f) =~= before.map_values(f).push(entries_here@));
                    assert(want_rows[r - top] == scan(entries(pack@), r as int, left as int, right as int));
                    assert(want_rows.take(r + 1 - top) =~= want_rows.take(r - top).push(want_rows[r - top]));
                    assert(rows@.map_values(|v: Vec<(Entry, u16)>| v@) =~= want_rows.take(r + 1 - top));
                }
                r = r + 1;
            }
            let strip = Strip { width: right - left + 1, rows };
            proof {
                assert(strip@.rows == want_rows);
                let sv = strips@.map_values(|s: Strip| s@);
                assert(strips_from(pack@, top as int, bottom as int, left as int) == seq![strip@]
                    + strips_from(pack@, top as int, bottom as int, right + 1));
            }
            let ghost before = strips@;
            strips.push(strip);
            proof {
                assert(strips@.map_values(|s: Strip| s@) == before.map_values(|s: Strip| s@).push(strip@));
            }
            left = right + 1;
        }
        proof {
            assert(strips_from(pack@, top as int, bottom as int, left as int) == Seq::<StripView>::empty());
        }
        let band = Band { strips };
        proof {
            assert(bands_from(pack@, top as int) == seq![band@] + bands_from(pack@, bottom + 1));
        }
        let ghost before = out@;
        out.push(band);
        proof {
            assert(out@.map_values(|b: Band| b@) == before.map_values(|b: Band| b@).push(band@));
        }
        top = bottom + 1;
    }
    proof {
        assert(bands_from(pack@, top as int) == Seq::<Seq<StripView>>::empty());
    }
    out
}

} // verus!
