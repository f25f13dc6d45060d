//! What holds of the layout functions across calls and for every input.
use vstd::prelude::*;

use super::{
    first_occurrences, kept_by, merged_order, resolved_by, shape_with_spec, TileKey, TileShape,
    DEFAULT_ORDER, GRID_COLUMNS,
};
use super::geometry::{Control, Instance, Placement, Slot};
use super::packing::{
    bottom_of, cell_before, covered, ghosts_ok, lemma_bottom_of, lemma_pack_tiles, lemma_rows_fit_short, pack_tiles, rows_fit,
    pack_view, uncovered, well_placed,
};
use super::placing::{
    edges_fit_all, free_spec, migrated_layout, place_view, slot_from_placement, valid_layout,
    validate_spec,
};
use super::cutting::{
    bands_from, bands_view, lemma_band_bottom, lemma_strip_right, strip_right, strips_from, StripView,
};
use super::geometry::rects_disjoint;
use super::appearances::{appearances, laid_out, lemma_each_tile_listed_once, lemma_entry};
use super::cutting::{entries, Entry};

verus! {

/// Every tile key has a slot in the default order, so [`super::resolve_order`]
/// can always yield it.
pub proof fn law_every_key_is_in_the_default_order(k: TileKey)
    ensures
        DEFAULT_ORDER@.contains(k),
{
    match k {
        TileKey::Connectivity => assert(DEFAULT_ORDER@[0] == k),
        TileKey::Wifi => assert(DEFAULT_ORDER@[1] == k),
        TileKey::Bluetooth => assert(DEFAULT_ORDER@[2] == k),
        TileKey::Vpn => assert(DEFAULT_ORDER@[3] == k),
        TileKey::Battery => assert(DEFAULT_ORDER@[4] == k),
        TileKey::Dns => assert(DEFAULT_ORDER@[5] == k),
        TileKey::DarkMode => assert(DEFAULT_ORDER@[6] == k),
        TileKey::Tiling => assert(DEFAULT_ORDER@[7] == k),
        TileKey::GameMode => assert(DEFAULT_ORDER@[8] == k),
        TileKey::Media => assert(DEFAULT_ORDER@[9] == k),
        TileKey::DoNotDisturb => assert(DEFAULT_ORDER@[10] == k),
        TileKey::KeepAwake => assert(DEFAULT_ORDER@[11] == k),
        TileKey::ChargeThreshold => assert(DEFAULT_ORDER@[12] == k),
        TileKey::KeyboardBacklight => assert(DEFAULT_ORDER@[13] == k),
        TileKey::Volume => assert(DEFAULT_ORDER@[14] == k),
        TileKey::Brightness => assert(DEFAULT_ORDER@[15] == k),
        TileKey::Microphone => assert(DEFAULT_ORDER@[16] == k),
    }
}

pub proof fn lemma_first_occurrences(s: Seq<TileKey>)
    ensures
        first_occurrences(s).no_duplicates(),
        forall|k: TileKey| first_occurrences(s).contains(k) <==> s.contains(k),
    decreases s.len(),
{
    if s.len() > 0 {
        let init = s.drop_last();
        let last = s.last();
        lemma_first_occurrences(init);
        let prev = first_occurrences(init);
        assert forall|k: TileKey| s.contains(k) <==> (init.contains(k) || k == last) by {
            if s.contains(k) && k != last {
                let j = choose|j: int| 0 <= j < s.len() && s[j] == k;
                assert(init[j] == k);
            }
            if init.contains(k) {
                let j = choose|j: int| 0 <= j < init.len() && init[j] == k;
                assert(s[j] == k);
            }
            if k == last {
                assert(s[s.len() - 1] == k);
            }
        }
        if !prev.contains(last) {
            let out = prev.push(last);
            assert forall|k: TileKey| out.contains(k) <==> (prev.contains(k) || k == last) by {
                if out.contains(k) && k != last {
                    let j = choose|j: int| 0 <= j < out.len() && out[j] == k;
                    assert(prev[j] == k);
                }
                if prev.contains(k) {
                    let j = choose|j: int| 0 <= j < prev.len() && prev[j] == k;
                    assert(out[j] == k);
                }
                if k == last {
                    assert(out[out.len() - 1] == k);
                }
            }
            assert forall|i: int, j: int| 0 <= i < out.len() && 0 <= j < out.len() && i != j
                implies out[i] != out[j] by {
                if i == out.len() - 1 {
                    assert(prev[j] == out[j]);
                } else if j == out.len() - 1 {
                    assert(prev[i] == out[i]);
                } else {
                    assert(prev[i] == out[i] && prev[j] == out[j]);
                }
            }
        }
    }
}

pub proof fn lemma_kept_by_sub<T>(s: Seq<T>, keep: Seq<bool>)
    requires
        keep.len() >= s.len(),
    ensures
        forall|x: T| kept_by(s, keep).contains(x) ==> s.contains(x),
        s.no_duplicates() ==> kept_by(s, keep).no_duplicates(),
        forall|i: int| 0 <= i < s.len() && keep[i] ==> kept_by(s, keep).contains(#[trigger] s[i]),
    decreases s.len(),
{
    if s.len() > 0 {
        let init = s.drop_last();
        lemma_kept_by_sub(init, keep);
        let prev = kept_by(init, keep);
        let out = kept_by(s, keep);
        assert forall|x: T| out.contains(x) implies s.contains(x) by {
            if prev.contains(x) {
                assert(init.contains(x));
                let j = choose|j: int| 0 <= j < init.len() && init[j] == x;
                assert(s[j] == x);
            } else {
                let j = choose|j: int| 0 <= j < out.len() && out[j] == x;
                assert(j == out.len() - 1);
                assert(s[s.len() - 1] == x);
            }
        }
        if s.no_duplicates() && keep[s.len() - 1] {
            assert(!prev.contains(s.last())) by {
                if prev.contains(s.last()) {
                    assert(init.contains(s.last()));
                    let j = choose|j: int| 0 <= j < init.len() && init[j] == s.last();
                    assert(s[j] == s[s.len() - 1]);
                }
            }
            assert forall|i: int, j: int| 0 <= i < out.len() && 0 <= j < out.len() && i != j
                implies out[i] != out[j] by {
                if i == out.len() - 1 {
                    assert(prev.contains(out[j]) || j == out.len() - 1);
                    assert(prev[j] == out[j]);
                } else if j == out.len() - 1 {
                    assert(prev[i] == out[i]);
                } else {
                    assert(prev[i] == out[i] && prev[j] == out[j]);
                }
            }
        }
        assert forall|i: int| 0 <= i < s.len() && keep[i] implies out.contains(#[trigger] s[i]) by {
            if i < s.len() - 1 {
                assert(init[i] == s[i]);
                assert(prev.contains(init[i]));
                let j = choose|j: int| 0 <= j < prev.len() && prev[j] == init[i];
                if keep[s.len() - 1] {
                    assert(out[j] == prev[j]);
                }
            } else {
                assert(out[out.len() - 1] == s[i]);
            }
        }
    }
}

/// A predicate that answers each tile one way resolves an order one way:
/// two resolutions of the same stored order agree.
pub proof fn law_resolved_order_is_determined<F: Fn(TileKey) -> bool>(
    stored: Seq<TileKey>,
    is_enabled: F,
    first: Seq<TileKey>,
    second: Seq<TileKey>,
)
    requires
        forall|k: TileKey, a: bool, b: bool|
            call_ensures(is_enabled, (k,), a) && call_ensures(is_enabled, (k,), b) ==> a == b,
        resolved_by(stored, is_enabled, first),
        resolved_by(stored, is_enabled, second),
    ensures
        first == second,
{
    let merged = merged_order(stored);
    let a = choose|answers: Seq<bool>|
        {
            &&& answers.len() == merged.len()
            &&& forall|i: int| 0 <= i < answers.len() ==> call_ensures(is_enabled, (merged[i],), #[trigger] answers[i])
            &&& first == kept_by(merged, answers)
        };
    let b = choose|answers: Seq<bool>|
        {
            &&& answers.len() == merged.len()
            &&& forall|i: int| 0 <= i < answers.len() ==> call_ensures(is_enabled, (merged[i],), #[trigger] answers[i])
            &&& second == kept_by(merged, answers)
        };
    assert forall|i: int| 0 <= i < merged.len() implies a[i] == b[i] by {
        assert(call_ensures(is_enabled, (merged[i],), a[i]));
        assert(call_ensures(is_enabled, (merged[i],), b[i]));
    }
    super::lemma_kept_by_prefix(merged, a, b);
}

/// What [`super::migrate_from_packed`] builds is the migration of the keys a
/// separate [`super::resolve_order`] call gives, for a predicate that answers
/// each tile one way.
pub proof fn law_migration_follows_the_resolved_order<F: Fn(TileKey) -> bool>(
    order: Seq<TileKey>,
    is_enabled: F,
    keys: Seq<TileKey>,
    layout: Seq<Instance>,
    m: Map<TileKey, TileShape>,
)
    requires
        forall|k: TileKey, a: bool, b: bool|
            call_ensures(is_enabled, (k,), a) && call_ensures(is_enabled, (k,), b) ==> a == b,
        resolved_by(order, is_enabled, keys),
        exists|used: Seq<TileKey>| resolved_by(order, is_enabled, used) && layout == migrated_layout(used, m),
    ensures
        layout == migrated_layout(keys, m),
{
    let used = choose|used: Seq<TileKey>| resolved_by(order, is_enabled, used) && layout == migrated_layout(used, m);
    law_resolved_order_is_determined(order, is_enabled, keys, used);
}

/// Migration draws the ordered model exactly as the packer did: one
/// instance per resolved key, at the key's shape, in the packer's cell for
/// it, and already valid.
pub proof fn law_migration_reproduces_the_packer(keys: Seq<TileKey>, m: Map<TileKey, TileShape>)
    requires
        keys.len() <= 30000,
    ensures
        migrated_layout(keys, m).len() == keys.len(),
        forall|i: int|
            0 <= i < keys.len() ==> {
                let inst = #[trigger] migrated_layout(keys, m)[i];
                let shapes = keys.map_values(|k: TileKey| shape_with_spec(k, m));
                &&& inst.control == Control::Builtin(keys[i])
                &&& inst.shape == shapes[i]
                &&& inst.spec_slot().spec_placement() == pack_tiles(shapes, GRID_COLUMNS as int)[i]
            },
        validate_spec(migrated_layout(keys, m)) == migrated_layout(keys, m),
{
    let shapes = keys.map_values(|k: TileKey| shape_with_spec(k, m));
    law_migrated_layout_is_valid(keys, m);
    lemma_rows_fit_short(shapes, GRID_COLUMNS as int);
    law_packed_slots_keep_each_shape_where_packed(shapes);
    let tiles = pack_tiles(shapes, GRID_COLUMNS as int);
    assert forall|i: int| 0 <= i < keys.len() implies {
        let inst = #[trigger] migrated_layout(keys, m)[i];
        &&& inst.control == Control::Builtin(keys[i])
        &&& inst.shape == shapes[i]
        &&& inst.spec_slot().spec_placement() == tiles[i]
    } by {
        let slot = slot_from_placement(tiles[i]);
        assert(slot.shape == shapes[i] && slot.spec_placement() == tiles[i]);
        assert(migrated_layout(keys, m)[i].spec_slot() == Slot { shape: shapes[i], col: slot.col, row: slot.row });
    }
}

/// A resolved order lists each tile at most once, lists only tiles the
/// predicate accepted, and lists every tile the predicate accepted.
pub proof fn law_resolved_order_is_a_selection<F: Fn(TileKey) -> bool>(
    stored: Seq<TileKey>,
    is_enabled: F,
    keys: Seq<TileKey>,
)
    requires
        resolved_by(stored, is_enabled, keys),
    ensures
        keys.no_duplicates(),
        forall|k: TileKey| keys.contains(k) ==> call_ensures(is_enabled, (k,), true),
        forall|k: TileKey|
            !keys.contains(k) ==> exists|answer: bool|
                call_ensures(is_enabled, (k,), answer) && !answer,
{
    let m = merged_order(stored);
    let answers = choose|answers: Seq<bool>|
        {
            &&& answers.len() == m.len()
            &&& forall|i: int| 0 <= i < answers.len() ==> call_ensures(is_enabled, (m[i],), #[trigger] answers[i])
            &&& keys == kept_by(m, answers)
        };
    lemma_first_occurrences(stored + DEFAULT_ORDER@);
    lemma_kept_by_sub(m, answers);
    lemma_kept_by_where(m, answers);
    assert forall|k: TileKey| keys.contains(k) implies call_ensures(is_enabled, (k,), true) by {
        assert(m.contains(k));
        let i = choose|i: int| 0 <= i < m.len() && m[i] == k;
        assert(keys.contains(m[i]));
        assert(answers[i]);
        assert(call_ensures(is_enabled, (m[i],), answers[i]));
    }
    assert forall|k: TileKey| !keys.contains(k) implies exists|answer: bool|
        call_ensures(is_enabled, (k,), answer) && !answer by {
        law_every_key_is_in_the_default_order(k);
        let j = choose|j: int| 0 <= j < DEFAULT_ORDER@.len() && DEFAULT_ORDER@[j] == k;
        assert((stored + DEFAULT_ORDER@)[stored.len() + j] == k);
        assert((stored + DEFAULT_ORDER@).contains(k));
        assert(m.contains(k));
        let i = choose|i: int| 0 <= i < m.len() && m[i] == k;
        assert(call_ensures(is_enabled, (m[i],), answers[i]));
        if answers[i] {
            assert(keys.contains(m[i]));
        }
    }
}

proof fn lemma_kept_by_where<T>(s: Seq<T>, keep: Seq<bool>)
    requires
        keep.len() >= s.len(),
        s.no_duplicates(),
    ensures
        forall|i: int| 0 <= i < s.len() && kept_by(s, keep).contains(#[trigger] s[i]) ==> keep[i],
    decreases s.len(),
{
    if s.len() > 0 {
        let init = s.drop_last();
        assert(init.no_duplicates());
        lemma_kept_by_where(init, keep);
        lemma_kept_by_sub(init, keep);
        let prev = kept_by(init, keep);
        assert forall|i: int| 0 <= i < s.len() && kept_by(s, keep).contains(#[trigger] s[i]) implies keep[i] by {
            if i < s.len() - 1 {
                assert(init[i] == s[i]);
                if !prev.contains(s[i]) {
                    let out = kept_by(s, keep);
                    let j = choose|j: int| 0 <= j < out.len() && out[j] == s[i];
                    assert(keep[s.len() - 1] && j == out.len() - 1);
                    assert(s[i] == s[s.len() - 1]);
                }
            } else if !keep[i] {
                assert(kept_by(s, keep) == prev);
                assert(!init.contains(s[i])) by {
                    if init.contains(s[i]) {
                        let j = choose|j: int| 0 <= j < init.len() && init[j] == s[i];
                        assert(s[j] == s[i]);
                    }
                }
            }
        }
    }
}

/// An override to `Half` is honoured only where the default shape is
/// `Small`: a slider or the Connectivity group is never drawn icon-only.
pub proof fn law_half_only_where_small(key: TileKey, overrides: Map<TileKey, TileShape>)
    ensures
        shape_with_spec(key, overrides) == TileShape::Half ==> key.spec_default_shape() == TileShape::Small,
        !overrides.contains_key(key) ==> shape_with_spec(key, overrides) == key.spec_default_shape(),
{
}

/// A shape override is honoured, except Half on a control whose default is
/// wider than Small, which keeps its default; a control with no override
/// gets its default.
pub proof fn law_an_override_is_honoured(key: TileKey, overrides: Map<TileKey, TileShape>)
    ensures
        overrides.contains_key(key) && overrides[key] != TileShape::Half ==> shape_with_spec(key, overrides)
            == overrides[key],
        overrides.contains_key(key) && overrides[key] == TileShape::Half && key.spec_default_shape()
            == TileShape::Small ==> shape_with_spec(key, overrides) == TileShape::Half,
        overrides.contains_key(key) && overrides[key] == TileShape::Half && key.spec_default_shape()
            != TileShape::Small ==> shape_with_spec(key, overrides) == key.spec_default_shape(),
        !overrides.contains_key(key) ==> shape_with_spec(key, overrides) == key.spec_default_shape(),
{
}

/// The packer never overlaps: its tiles lie inside the grid and share no
/// cell, and together with its ghosts they cover every cell of the rows used
/// exactly once.
pub proof fn law_pack_covers_each_cell_once(shapes: Seq<TileShape>, columns: int)
    requires
        1 <= columns <= u16::MAX,
        rows_fit(shapes, columns),
    ensures
        well_placed(pack_view(shapes, columns).tiles, columns),
        forall|i: int, j: int|
            0 <= i < j < pack_view(shapes, columns).tiles.len() ==> (#[trigger] pack_view(shapes, columns).tiles[i]).disjoint_from(
                #[trigger] pack_view(shapes, columns).tiles[j],
            ),
        forall|i: int, j: int|
            0 <= i < j < pack_view(shapes, columns).ghosts.len() ==> (#[trigger] pack_view(shapes, columns).ghosts[i]) != (#[trigger] pack_view(shapes, columns).ghosts[j]),
        forall|i: int, c: int, r: int|
            0 <= i < pack_view(shapes, columns).ghosts.len() && #[trigger] pack_view(shapes, columns).ghosts[i].covers(c, r)
                ==> !covered(pack_view(shapes, columns).tiles, c, r),
        forall|c: int, r: int|
            1 <= c <= columns && 1 <= r <= pack_view(shapes, columns).rows ==> (covered(pack_view(shapes, columns).tiles, c, r)
                || exists|i: int| 0 <= i < pack_view(shapes, columns).ghosts.len() && #[trigger] pack_view(shapes, columns).ghosts[i].covers(c, r)),
{
    let v = pack_view(shapes, columns);
    lemma_pack_tiles(shapes, columns);
    lemma_uncovered_ok(v.tiles, columns, v.rows);
    assert forall|c: int, r: int|
        1 <= c <= columns && 1 <= r <= v.rows implies (covered(v.tiles, c, r) || exists|i: int|
            0 <= i < v.ghosts.len() && #[trigger] v.ghosts[i].covers(c, r)) by {
        if !covered(v.tiles, c, r) {
            let i = choose|i: int| 0 <= i < v.ghosts.len() && (#[trigger] v.ghosts[i]).column == c && v.ghosts[i].row == r;
            assert(v.ghosts[i].covers(c, r));
        }
    }
    assert forall|i: int, j: int| 0 <= i < j < v.ghosts.len() implies (#[trigger] v.ghosts[i]) != (#[trigger] v.ghosts[j]) by {
        assert(cell_before(v.ghosts[i], v.ghosts[j]));
    }
}

/// Whatever [`super::validate`] returns is a valid layout: inside the grid,
/// no two instances overlapping.
pub proof fn law_validate_gives_a_valid_layout(layout: Seq<Instance>)
    ensures
        valid_layout(validate_spec(layout)),
    decreases layout.len(),
{
    if layout.len() > 0 {
        law_validate_gives_a_valid_layout(layout.drop_last());
        let kept = validate_spec(layout.drop_last());
        if free_spec(kept, layout.last().spec_slot()) {
            let out = kept.push(layout.last());
            assert forall|i: int, j: int| 0 <= i < j < out.len() implies (#[trigger] out[i]).spec_slot().clear_of(
                (#[trigger] out[j]).spec_slot(),
            ) by {
                if j < out.len() - 1 {
                    assert(out[i] == kept[i] && out[j] == kept[j]);
                } else {
                    assert(out[i] == kept[i]);
                }
            }
            assert forall|i: int| 0 <= i < out.len() implies (#[trigger] out[i]).spec_slot().spec_in_bounds() by {
                if i < out.len() - 1 {
                    assert(out[i] == kept[i]);
                }
            }
        }
    }
}

/// A layout that is already valid comes back from [`super::validate`]
/// unchanged: validation only ever drops what overlaps or hangs off the edge.
pub proof fn law_validate_keeps_a_valid_layout(layout: Seq<Instance>)
    requires
        valid_layout(layout),
    ensures
        validate_spec(layout) == layout,
    decreases layout.len(),
{
    if layout.len() > 0 {
        let init = layout.drop_last();
        assert forall|i: int, j: int| 0 <= i < j < init.len() implies (#[trigger] init[i]).spec_slot().clear_of(
            (#[trigger] init[j]).spec_slot(),
        ) by {
            assert(init[i] == layout[i] && init[j] == layout[j]);
        }
        assert forall|i: int| 0 <= i < init.len() implies (#[trigger] init[i]).spec_slot().spec_in_bounds() by {
            assert(init[i] == layout[i]);
        }
        law_validate_keeps_a_valid_layout(init);
        let last = layout.last();
        assert forall|i: int| 0 <= i < init.len() implies (#[trigger] init[i]).spec_slot().clear_of(last.spec_slot()) by {
            assert(init[i] == layout[i]);
            assert(layout[i].spec_slot().clear_of(layout[layout.len() - 1].spec_slot()));
        }
        assert(layout[layout.len() - 1].spec_slot().spec_in_bounds());
        assert(init.push(last) == layout);
    }
}

/// Validating twice is validating once.
pub proof fn law_validate_is_idempotent(layout: Seq<Instance>)
    ensures
        validate_spec(validate_spec(layout)) == validate_spec(layout),
{
    law_validate_gives_a_valid_layout(layout);
    law_validate_keeps_a_valid_layout(validate_spec(layout));
}

/// Validation keeps instances of the input and nothing else.
pub proof fn law_validate_keeps_only_input(layout: Seq<Instance>)
    ensures
        forall|x: Instance| validate_spec(layout).contains(x) ==> layout.contains(x),
    decreases layout.len(),
{
    if layout.len() > 0 {
        let init = layout.drop_last();
        law_validate_keeps_only_input(init);
        assert forall|x: Instance| validate_spec(layout).contains(x) implies layout.contains(x) by {
            if validate_spec(init).contains(x) {
                assert(init.contains(x));
                let j = choose|j: int| 0 <= j < init.len() && init[j] == x;
                assert(layout[j] == x);
            } else {
                assert(x == layout.last());
                assert(layout[layout.len() - 1] == x);
            }
        }
    }
}

/// Dropping a tile where [`super::free_at`] says it fits, which is where
/// [`super::first_free`] puts one, keeps a valid layout valid.
pub proof fn law_placing_where_free_keeps_a_layout_valid(
    layout: Seq<Instance>,
    control: Control,
    shape: TileShape,
    col: u16,
    row: u16,
)
    requires
        valid_layout(layout),
        free_spec(layout, Slot { shape, col, row }),
    ensures
        valid_layout(layout.push(Instance { control, shape, col, row })),
{
    let out = layout.push(Instance { control, shape, col, row });
    assert forall|i: int, j: int| 0 <= i < j < out.len() implies (#[trigger] out[i]).spec_slot().clear_of(
        (#[trigger] out[j]).spec_slot(),
    ) by {
        assert(out[i] == layout[i]);
        if j < out.len() - 1 {
            assert(out[j] == layout[j]);
        }
    }
    assert forall|i: int| 0 <= i < out.len() implies (#[trigger] out[i]).spec_slot().spec_in_bounds() by {
        if i < out.len() - 1 {
            assert(out[i] == layout[i]);
        }
    }
}

/// The layout a migration builds is already valid, so validating it changes
/// nothing: the packer never overlaps and never leaves the grid.
pub proof fn law_migrated_layout_is_valid(keys: Seq<TileKey>, m: Map<TileKey, TileShape>)
    requires
        keys.len() <= 30000,
    ensures
        valid_layout(migrated_layout(keys, m)),
        edges_fit_all(migrated_layout(keys, m)),
        validate_spec(migrated_layout(keys, m)) == migrated_layout(keys, m),
{
    let shapes = keys.map_values(|k: TileKey| shape_with_spec(k, m));
    let tiles = pack_tiles(shapes, GRID_COLUMNS as int);
    lemma_rows_fit_short(shapes, GRID_COLUMNS as int);
    lemma_pack_tiles(shapes, GRID_COLUMNS as int);
    lemma_bottom_of(tiles);
    let out = migrated_layout(keys, m);
    assert forall|k: int| 0 <= k < shapes.len() implies (#[trigger] shapes[k]).spec_columns() <= GRID_COLUMNS as int by {}
    assert forall|i: int| 0 <= i < out.len() implies (#[trigger] out[i]).spec_slot().spec_in_bounds()
        && out[i].spec_slot().edges_fit() by {
        assert(tiles[i].row + tiles[i].height - 1 <= bottom_of(tiles));
    }
    assert forall|i: int, j: int| 0 <= i < j < out.len() implies (#[trigger] out[i]).spec_slot().clear_of(
        (#[trigger] out[j]).spec_slot(),
    ) by {
        assert(tiles[i].disjoint_from(tiles[j]));
    }
    law_validate_keeps_a_valid_layout(out);
}

/// Placing the packer's own slots reproduces the packer's result exactly:
/// the same tiles, the same ghosts, the same number of rows.
pub proof fn law_place_reproduces_pack(shapes: Seq<TileShape>)
    requires
        rows_fit(shapes, GRID_COLUMNS as int),
    ensures
        place_view(
            pack_tiles(shapes, GRID_COLUMNS as int).map_values(|p: Placement| slot_from_placement(p)),
        ) == pack_view(shapes, GRID_COLUMNS as int),
{
    let tiles = pack_tiles(shapes, GRID_COLUMNS as int);
    lemma_pack_tiles(shapes, GRID_COLUMNS as int);
    lemma_bottom_of(tiles);
    assert forall|k: int| 0 <= k < shapes.len() implies (#[trigger] shapes[k]).spec_columns() <= GRID_COLUMNS as int by {}
    let slots = tiles.map_values(|p: Placement| slot_from_placement(p));
    let back = slots.map_values(|s: Slot| s.spec_placement());
    assert forall|i: int| 0 <= i < tiles.len() implies back[i] == tiles[i] by {
        assert(tiles[i].row + tiles[i].height - 1 <= bottom_of(tiles));
        match shapes[i] {
            TileShape::Half => {},
            TileShape::Small => {},
            TileShape::Wide => {},
            TileShape::Tall => {},
        }
    }
    assert(back =~= tiles);
}

/// The total width of the strips of a band.
pub open spec fn strips_width(strips: Seq<StripView>) -> int
    decreases strips.len(),
{
    if strips.len() == 0 {
        0
    } else {
        strips[0].width + strips_width(strips.drop_first())
    }
}

proof fn lemma_strips_from(p: super::packing::PackView, top: int, bottom: int, left: int)
    requires
        1 <= left <= GRID_COLUMNS + 1,
        top <= bottom,
    ensures
        strips_width(strips_from(p, top, bottom, left)) == GRID_COLUMNS + 1 - left,
        forall|i: int|
            0 <= i < strips_from(p, top, bottom, left).len() ==> (#[trigger] strips_from(p, top, bottom, left)[i]).rows.len()
                == bottom - top + 1 && strips_from(p, top, bottom, left)[i].width >= 1,
    decreases GRID_COLUMNS + 1 - left,
{
    if left <= GRID_COLUMNS {
        let right = strip_right(p, top, bottom, left);
        lemma_strip_right(p, top, bottom, left);
        lemma_strips_from(p, top, bottom, right + 1);
        let all = strips_from(p, top, bottom, left);
        assert(all.drop_first() == strips_from(p, top, bottom, right + 1));
        assert forall|i: int| 0 <= i < all.len() implies (#[trigger] all[i]).rows.len() == bottom - top + 1
            && all[i].width >= 1 by {
            if i > 0 {
                assert(all[i] == all.drop_first()[i - 1]);
            }
        }
    }
}

proof fn lemma_bands_from(p: super::packing::PackView, top: int)
    requires
        1 <= top,
    ensures
        forall|i: int|
            0 <= i < bands_from(p, top).len() ==> strips_width(#[trigger] bands_from(p, top)[i]) == GRID_COLUMNS,
    decreases p.rows + 1 - top,
{
    if top <= p.rows {
        let bottom = super::cutting::band_bottom(p, top);
        lemma_band_bottom(p, top);
        lemma_bands_from(p, bottom + 1);
        lemma_strips_from(p, top, bottom, 1);
        let all = bands_from(p, top);
        assert forall|i: int| 0 <= i < all.len() implies strips_width(#[trigger] all[i]) == GRID_COLUMNS by {
            if i > 0 {
                assert(all[i] == bands_from(p, bottom + 1)[i - 1]);
            }
        }
    }
}

/// Every band's strips span the whole grid width, side by side.
pub proof fn law_strip_widths_fill_the_grid(p: super::packing::PackView)
    ensures
        forall|i: int| 0 <= i < bands_view(p).len() ==> strips_width(#[trigger] bands_view(p)[i]) == GRID_COLUMNS,
{
    lemma_bands_from(p, 1);
}

/// The list [`uncovered`] names exists, so it satisfies [`ghosts_ok`].
pub proof fn lemma_uncovered_ok(ps: Seq<Placement>, columns: int, rows: int)
    requires
        0 <= columns <= u16::MAX,
        0 <= rows <= u16::MAX,
    ensures
        ghosts_ok(uncovered(ps, columns, rows), ps, columns, rows),
{
    let g = ghost_list_upto(ps, columns, rows, rows, columns);
    assert(ghosts_ok(g, ps, columns, rows));
}

/// The uncovered cells of every row before `r`, and of row `r` up to column `c`.
proof fn ghost_list_upto(ps: Seq<Placement>, columns: int, rows: int, r: int, c: int) -> (g: Seq<Placement>)
    requires
        columns <= u16::MAX,
        rows <= u16::MAX,
        0 <= r <= rows,
        0 <= c <= columns,
    ensures
        forall|i: int|
            0 <= i < g.len() ==> {
                &&& (#[trigger] g[i]).width == 1
                &&& g[i].height == 1
                &&& 1 <= g[i].column <= columns
                &&& 1 <= g[i].row <= r
                &&& (g[i].row == r ==> g[i].column <= c)
                &&& !covered(ps, g[i].column as int, g[i].row as int)
            },
        forall|i: int, j: int| 0 <= i < j < g.len() ==> cell_before(#[trigger] g[i], #[trigger] g[j]),
        forall|cc: int, rr: int|
            1 <= cc <= columns && 1 <= rr <= r && (rr < r || cc <= c) && !covered(ps, cc, rr)
                ==> exists|i: int| 0 <= i < g.len() && (#[trigger] g[i]).column == cc && g[i].row == rr,
    decreases r, c,
{
    if r == 0 {
        Seq::empty()
    } else if c == 0 {
        let g = ghost_list_upto(ps, columns, rows, r - 1, columns);
        assert forall|cc: int, rr: int|
            1 <= cc <= columns && 1 <= rr <= r && (rr < r || cc <= c) && !covered(ps, cc, rr)
                implies exists|i: int| 0 <= i < g.len() && (#[trigger] g[i]).column == cc && g[i].row == rr by {
            assert(1 <= rr <= r - 1 && (rr < r - 1 || cc <= columns));
        }
        g
    } else {
        let g = ghost_list_upto(ps, columns, rows, r, c - 1);
        if covered(ps, c, r) {
            assert forall|cc: int, rr: int|
                1 <= cc <= columns && 1 <= rr <= r && (rr < r || cc <= c) && !covered(ps, cc, rr)
                    implies exists|i: int| 0 <= i < g.len() && (#[trigger] g[i]).column == cc && g[i].row == rr by {
                assert(1 <= rr <= r && (rr < r || cc <= c - 1));
            }
            g
        } else {
            let cell = Placement { column: c as u16, row: r as u16, width: 1, height: 1 };
            let out = g.push(cell);
            assert forall|cc: int, rr: int|
                1 <= cc <= columns && 1 <= rr <= r && (rr < r || cc <= c) && !covered(ps, cc, rr)
                    implies exists|i: int| 0 <= i < out.len() && (#[trigger] out[i]).column == cc && out[i].row == rr by {
                if rr == r && cc == c {
                    assert(out[out.len() - 1].column == cc);
                } else {
                    assert(1 <= rr <= r && (rr < r || cc <= c - 1));
                    let i = choose|i: int| 0 <= i < g.len() && (#[trigger] g[i]).column == cc && g[i].row == rr;
                    assert(out[i] == g[i]);
                }
            }
            out
        }
    }
}

/// The slots [`super::packed_slots`] gives back are the input shapes, each
/// where the packer drew it: every shape fits four sub-columns, so none is
/// skipped, and a shape is recovered from its width and height.
pub proof fn law_packed_slots_keep_each_shape_where_packed(shapes: Seq<TileShape>)
    requires
        rows_fit(shapes, GRID_COLUMNS as int),
    ensures
        pack_tiles(shapes, GRID_COLUMNS as int).len() == shapes.len(),
        forall|i: int|
            0 <= i < shapes.len() ==> {
                let slot = #[trigger] slot_from_placement(pack_tiles(shapes, GRID_COLUMNS as int)[i]);
                &&& slot.shape == shapes[i]
                &&& slot.spec_placement() == pack_tiles(shapes, GRID_COLUMNS as int)[i]
            },
{
    let columns = GRID_COLUMNS as int;
    assert forall|k: int| 0 <= k < shapes.len() implies (#[trigger] shapes[k]).spec_columns() <= columns by {}
    lemma_pack_tiles(shapes, columns);
    let tiles = pack_tiles(shapes, columns);
    assert forall|i: int| 0 <= i < shapes.len() implies {
        let slot = #[trigger] slot_from_placement(tiles[i]);
        &&& slot.shape == shapes[i]
        &&& slot.spec_placement() == tiles[i]
    } by {
        lemma_bottom_of(tiles);
        assert(tiles[i].width == shapes[i].spec_columns() && tiles[i].height == shapes[i].spec_rows());
        assert(1 <= tiles[i].column && 1 <= tiles[i].row);
        assert(tiles[i].row + tiles[i].height - 1 <= bottom_of(tiles));
    }
}

/// What the packer produces for a grid [`GRID_COLUMNS`] wide is laid out
/// as the band cutter expects.
pub proof fn lemma_pack_is_laid_out(shapes: Seq<TileShape>)
    requires
        rows_fit(shapes, GRID_COLUMNS as int),
        shapes.len() <= usize::MAX,
    ensures
        laid_out(pack_view(shapes, GRID_COLUMNS as int)),
{
    let columns = GRID_COLUMNS as int;
    let v = pack_view(shapes, columns);
    lemma_pack_tiles(shapes, columns);
    lemma_bottom_of(v.tiles);
    lemma_uncovered_ok(v.tiles, columns, v.rows);
    let t = v.tiles.len() as int;
    assert(v.tiles.len() <= shapes.len()) by {
        lemma_pack_tiles_len(shapes, columns);
    }
    assert forall|k: int| 0 <= k < entries(v).len() implies {
        &&& 1 <= (#[trigger] entries(v)[k]).1.width
        &&& 1 <= entries(v)[k].1.height
        &&& 1 <= entries(v)[k].1.column
        &&& entries(v)[k].1.column + entries(v)[k].1.width - 1 <= GRID_COLUMNS
        &&& 1 <= entries(v)[k].1.row
        &&& entries(v)[k].1.row + entries(v)[k].1.height - 1 <= v.rows
    } by {
        lemma_entry(v, k);
        if k < t {
            assert(v.tiles[k].row + v.tiles[k].height - 1 <= bottom_of(v.tiles));
        } else {
            assert(v.ghosts[k - t].width == 1);
        }
    }
    assert forall|k1: int, k2: int| 0 <= k1 < k2 < entries(v).len() implies (#[trigger] entries(v)[k1]).1.disjoint_from(
        (#[trigger] entries(v)[k2]).1,
    ) by {
        lemma_entry(v, k1);
        lemma_entry(v, k2);
        if k2 < t {
        } else if k1 < t {
            let g = v.ghosts[k2 - t];
            assert(!covered(v.tiles, g.column as int, g.row as int));
            assert(!v.tiles[k1].covers(g.column as int, g.row as int));
        } else {
            assert(cell_before(v.ghosts[k1 - t], v.ghosts[k2 - t]));
        }
    }
}

proof fn lemma_pack_tiles_len(shapes: Seq<TileShape>, columns: int)
    ensures
        pack_tiles(shapes, columns).len() <= shapes.len(),
    decreases shapes.len(),
{
    if shapes.len() > 0 {
        lemma_pack_tiles_len(shapes.drop_last(), columns);
    }
}

/// Every tile handed to the packer is listed exactly once across the bands
/// its pack is cut into: none is lost, and none is drawn twice.
pub proof fn law_every_tile_appears_exactly_once_across_bands(shapes: Seq<TileShape>, i: int)
    requires
        rows_fit(shapes, GRID_COLUMNS as int),
        shapes.len() <= usize::MAX,
        0 <= i < shapes.len(),
    ensures
        pack_view(shapes, GRID_COLUMNS as int).tiles.len() == shapes.len(),
        appearances(bands_view(pack_view(shapes, GRID_COLUMNS as int)), Entry::Tile(i as usize)) == 1,
{
    let columns = GRID_COLUMNS as int;
    assert forall|k: int| 0 <= k < shapes.len() implies (#[trigger] shapes[k]).spec_columns() <= columns by {}
    lemma_pack_tiles(shapes, columns);
    lemma_pack_is_laid_out(shapes);
    lemma_each_tile_listed_once(pack_view(shapes, columns), i);
}

} // verus!
