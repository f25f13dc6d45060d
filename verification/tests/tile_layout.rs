use control_center::tile_layout::{
    bands, first_free, first_free_within, free_at, migrate_from_packed, pack, packed_slots, place, resolve_order, validate, Band,
    Control, Entry, Instance, Pack, Placement, ShapeOverrides, Slot, Strip, TileKey, TileShape,
    DEFAULT_ORDER, GRID_COLUMNS,
};
use control_center::tile_layout::Entry::{Tile as T, Vacant};
use control_center::tile_layout::TileKey::{Battery, Dns, Volume};
use control_center::tile_layout::TileShape::{Half, Small, Tall, Wide};
use std::collections::HashSet;

fn every_enabled(_: TileKey) -> bool {
    true
}

fn cells(p: &Placement) -> Vec<(u16, u16)> {
    let mut out = Vec::new();
    for c in p.column..(p.column + p.width) {
        for r in p.row..(p.row + p.height) {
            out.push((c, r));
        }
    }
    out
}

#[test]
fn a_fresh_config_reads_the_default_order() {
    let resolved = resolve_order(&[], every_enabled);
    assert_eq!(resolved, DEFAULT_ORDER);
}

#[test]
fn a_stored_order_is_honoured() {
    let stored = vec![TileKey::Volume, TileKey::Battery, TileKey::Wifi];
    let resolved = resolve_order(&stored, every_enabled);
    assert_eq!(&resolved[..3], stored.as_slice());
}

#[test]
fn missing_tiles_are_appended_in_default_order() {
    let stored = vec![TileKey::Battery];
    let resolved = resolve_order(&stored, every_enabled);
    assert_eq!(resolved.first(), Some(&TileKey::Battery));
    assert!(resolved.contains(&TileKey::Media));
}

#[test]
fn duplicates_in_the_stored_order_are_dropped_first_wins() {
    let stored = vec![TileKey::Volume, TileKey::Battery, TileKey::Volume];
    let resolved = resolve_order(&stored, every_enabled);
    assert_eq!(resolved.iter().filter(|&&k| k == TileKey::Volume).count(), 1);
    assert_eq!(resolved.first(), Some(&TileKey::Volume));
}

#[test]
fn a_disabled_module_is_not_drawn_wherever_it_sits_in_the_order() {
    let stored = vec![TileKey::Wifi, TileKey::Battery, TileKey::Volume];
    let resolved = resolve_order(&stored, |key| key != TileKey::Battery);
    assert!(!resolved.contains(&TileKey::Battery));
}

#[test]
fn shapes_measure_in_sub_columns_where_a_small_is_two() {
    assert_eq!(TileShape::Half.columns(), 1);
    assert_eq!(TileShape::Small.columns(), 2);
    assert_eq!(TileShape::Tall.columns(), 2);
    assert_eq!(TileShape::Wide.columns(), 4);
    assert_eq!(TileShape::Wide.columns(), GRID_COLUMNS as usize);

    assert_eq!(TileShape::Tall.rows(), 2);
    for flat in [TileShape::Half, TileShape::Small, TileShape::Wide] {
        assert_eq!(flat.rows(), 1, "{flat:?}");
    }
}

#[test]
fn every_tile_key_has_a_defined_default_shape() {
    assert_eq!(DEFAULT_ORDER.len(), 17);
}

#[test]
fn every_tile_key_has_a_slot_in_the_default_order() {
    for key in [
        TileKey::Connectivity,
        TileKey::Wifi,
        TileKey::Bluetooth,
        TileKey::Vpn,
        TileKey::Battery,
        TileKey::Dns,
        TileKey::DarkMode,
        TileKey::Tiling,
        TileKey::GameMode,
        TileKey::Media,
        TileKey::DoNotDisturb,
        TileKey::KeepAwake,
        TileKey::ChargeThreshold,
        TileKey::KeyboardBacklight,
        TileKey::Volume,
        TileKey::Brightness,
        TileKey::Microphone,
    ] {
        assert!(
            DEFAULT_ORDER.contains(&key),
            "{key:?} has no slot in DEFAULT_ORDER, so it can never be drawn"
        );
    }
}

#[test]
fn half_is_only_honoured_where_the_default_is_small() {
    let mut o = ShapeOverrides::new();
    o.insert(TileKey::Battery, TileShape::Half);
    o.insert(TileKey::Volume, TileShape::Half);
    o.insert(TileKey::Connectivity, TileShape::Half);
    assert_eq!(TileKey::Battery.shape_with(&o), TileShape::Half);
    assert_eq!(TileKey::Volume.shape_with(&o), TileShape::Wide);
    assert_eq!(TileKey::Connectivity.shape_with(&o), TileShape::Tall);
}

fn at(control: TileKey, shape: TileShape, col: u16, row: u16) -> Instance {
    Instance::new(control, shape, col, row)
}

fn slots(layout: &[Instance]) -> Vec<Slot> {
    layout.iter().map(|i| i.slot()).collect()
}

#[test]
fn an_empty_grid_is_free_everywhere_in_bounds() {
    assert!(free_at(&[], Wide, 0, 0));
    assert!(free_at(&[], Small, 2, 7));
    assert!(!free_at(&[], Small, 3, 0));
    assert!(!free_at(&[], Wide, 1, 0));
    assert!(!free_at(&[], Half, GRID_COLUMNS, 0));
}

#[test]
fn a_footprint_touching_an_occupied_cell_is_not_free() {
    let layout = [at(Battery, Small, 0, 0)];
    assert!(!free_at(&layout, Half, 1, 0));
    assert!(free_at(&layout, Half, 2, 0));
    assert!(!free_at(&layout, Wide, 0, 0));
    assert!(free_at(&layout, Wide, 0, 1));
    let tall = [at(Volume, Tall, 0, 0)];
    assert!(!free_at(&tall, Small, 0, 1));
    assert!(free_at(&tall, Small, 2, 1));
}

#[test]
fn first_free_scans_row_major_and_falls_through_to_a_new_row() {
    let layout = [at(Battery, Small, 0, 0), at(Dns, Small, 2, 0)];
    assert_eq!(first_free(&layout, Half), (0, 1));
    let with_gap = [at(Battery, Half, 0, 0), at(Dns, Small, 2, 0)];
    assert_eq!(first_free(&with_gap, Half), (1, 0));
    assert_eq!(first_free(&with_gap, Small), (0, 1));
    assert_eq!(first_free(&[], Wide), (0, 0));
}

#[test]
fn validate_drops_overlaps_first_wins_and_keeps_gaps() {
    let layout = [
        at(Battery, Small, 0, 0),
        at(Dns, Small, 1, 0),
        at(Dns, Small, 2, 0),
        at(Volume, Wide, 0, 5),
    ];
    let kept = validate(&layout);
    assert_eq!(
        kept,
        vec![at(Battery, Small, 0, 0), at(Dns, Small, 2, 0), at(Volume, Wide, 0, 5)]
    );
}

#[test]
fn validate_drops_out_of_bounds() {
    let kept = validate(&[at(Battery, Small, 3, 0), at(Volume, Wide, 0, 0)]);
    assert_eq!(kept, vec![at(Volume, Wide, 0, 0)]);
}

#[test]
fn validate_allows_duplicates_of_a_control() {
    let layout = [at(Battery, Small, 0, 0), at(Battery, Wide, 0, 1)];
    assert_eq!(validate(&layout), layout.to_vec());
}

#[test]
fn migration_reproduces_the_packer_cell_for_cell() {
    let order = vec![Volume, Battery, Dns];
    let mut shapes = ShapeOverrides::new();
    shapes.insert(Battery, Half);
    let off = [TileKey::Wifi, TileKey::Bluetooth, TileKey::Vpn];
    let layout = migrate_from_packed(&order, &shapes, |k| !off.contains(&k));

    let keys = resolve_order(&order, |k| !off.contains(&k));
    let packed = pack(
        &keys.iter().map(|k| k.shape_with(&shapes)).collect::<Vec<_>>(),
        GRID_COLUMNS,
    );
    assert_eq!(layout.len(), keys.len());
    for (instance, (key, placement)) in layout.iter().zip(keys.iter().zip(packed.tiles)) {
        assert_eq!(instance.control, Control::Builtin(*key));
        assert_eq!(instance.placement(), placement);
    }
    assert_eq!(layout[0], at(Volume, Wide, 0, 0));
    assert_eq!(layout[1], at(Battery, Half, 0, 1));
    assert!(!layout
        .iter()
        .any(|i| off.iter().any(|k| i.control == Control::Builtin(*k))));
    assert_eq!(validate(&layout), layout);
}

#[test]
fn place_matches_the_packer_on_a_gap_free_layout() {
    let shapes = [Wide, Half, Small, Tall, Small];
    let packed = pack(&shapes, GRID_COLUMNS);
    let layout: Vec<Instance> = shapes
        .iter()
        .zip(&packed.tiles)
        .map(|(&shape, p)| Instance::new(Battery, shape, p.column - 1, p.row - 1))
        .collect();
    assert_eq!(place(&slots(&layout)), packed);
}

#[test]
fn place_turns_a_kept_gap_into_ghosts_rather_than_closing_it() {
    let layout = [at(Battery, Small, 0, 0), at(Dns, Small, 2, 2)];
    let packed = place(&slots(&layout));
    assert_eq!(packed.rows, 3);
    assert_eq!(packed.tiles.len(), 2);
    assert_eq!(packed.ghosts.len(), 4 + 2 + 2);
    assert!(packed.ghosts.iter().all(|g| g.width == 1 && g.height == 1));
    let all: HashSet<(u16, u16)> = packed
        .tiles
        .iter()
        .chain(&packed.ghosts)
        .flat_map(cells)
        .collect();
    assert_eq!(all.len(), (GRID_COLUMNS * 3) as usize);
}

#[test]
fn an_empty_layout_places_nothing() {
    let packed = place(&[]);
    assert_eq!(packed.rows, 0);
    assert!(packed.tiles.is_empty() && packed.ghosts.is_empty());
}

fn assert_no_overlaps(pack: &Pack) {
    let mut seen = HashSet::new();
    for placement in pack.tiles.iter().chain(pack.ghosts.iter()) {
        for cell in cells(placement) {
            assert!(seen.insert(cell), "cell {cell:?} covered twice — {placement:?}");
        }
    }
}

fn p(column: u16, row: u16, width: u16, height: u16) -> Placement {
    Placement {
        column,
        row,
        width,
        height,
    }
}

#[test]
fn a_pair_of_smalls_fills_one_row() {
    let pk = pack(&[Small, Small], GRID_COLUMNS);
    assert_eq!(pk.tiles, vec![p(1, 1, 2, 1), p(3, 1, 2, 1)]);
    assert!(pk.ghosts.is_empty());
    assert_eq!(pk.rows, 1);
}

#[test]
fn four_halfs_fill_one_row_and_a_fifth_wraps() {
    let pk = pack(&[Half; 5], GRID_COLUMNS);
    assert_eq!(pk.tiles[4], p(1, 2, 1, 1));
    assert_eq!(pk.ghosts.len(), 3);
    assert_eq!(pk.rows, 2);
}

#[test]
fn a_half_beside_a_small_beside_a_half_is_one_row() {
    let pk = pack(&[Half, Small, Half], GRID_COLUMNS);
    assert_eq!(pk.tiles, vec![p(1, 1, 1, 1), p(2, 1, 2, 1), p(4, 1, 1, 1)]);
    assert!(pk.ghosts.is_empty());
}

#[test]
fn an_odd_small_gets_two_half_ghosts_next_to_it() {
    let pk = pack(&[Small], GRID_COLUMNS);
    assert_eq!(pk.ghosts, vec![p(3, 1, 1, 1), p(4, 1, 1, 1)]);
}

#[test]
fn a_wide_takes_a_whole_row_by_itself() {
    let pk = pack(&[Wide], GRID_COLUMNS);
    assert_eq!(pk.tiles[0], p(1, 1, 4, 1));
    assert!(pk.ghosts.is_empty());
}

#[test]
fn a_wide_after_a_lone_small_starts_a_new_row_and_leaves_ghosts() {
    let pk = pack(&[Small, Wide], GRID_COLUMNS);
    assert_eq!(pk.tiles, vec![p(1, 1, 2, 1), p(1, 2, 4, 1)]);
    assert_eq!(pk.ghosts.len(), 2);
}

#[test]
fn a_tall_reserves_its_columns_across_two_rows() {
    let pk = pack(&[Tall, Small, Small], GRID_COLUMNS);
    assert_eq!(pk.tiles, vec![p(1, 1, 2, 2), p(3, 1, 2, 1), p(3, 2, 2, 1)]);
    assert!(pk.ghosts.is_empty());
    assert_eq!(pk.rows, 2);
}

#[test]
fn a_wide_cannot_slip_past_a_tall_reserving_columns() {
    let pk = pack(&[Tall, Wide], GRID_COLUMNS);
    assert_eq!(pk.tiles[1], p(1, 3, 4, 1));
    assert_eq!(pk.ghosts.len(), 4);
}

#[test]
fn two_talls_sit_side_by_side_not_stacked() {
    let pk = pack(&[Tall, Tall], GRID_COLUMNS);
    assert_eq!(pk.tiles, vec![p(1, 1, 2, 2), p(3, 1, 2, 2)]);
    assert_eq!(pk.rows, 2);
    assert!(pk.ghosts.is_empty());
}

#[test]
fn placements_never_overlap_across_any_of_the_mixed_cases() {
    for shapes in [
        vec![Small, Small, Small, Small],
        vec![Wide, Wide, Small],
        vec![Tall, Small, Small, Small, Tall],
        vec![Small, Tall, Wide, Small, Tall, Small],
        vec![Wide, Small, Tall, Small, Wide, Tall, Small],
        vec![Half, Tall, Half, Half, Small, Half, Wide, Half],
    ] {
        assert_no_overlaps(&pack(&shapes, GRID_COLUMNS));
    }
}

#[test]
fn a_shape_that_cannot_fit_the_grid_at_all_is_skipped() {
    let pk = pack(&[Half, Wide, Half], 2);
    assert_eq!(pk.tiles.len(), 2);
}

fn one_strip(width: u16, rows: Vec<Vec<(Entry, u16)>>) -> Band {
    Band {
        strips: vec![Strip { width, rows }],
    }
}


#[test]
fn two_smalls_are_one_band_of_two_strips() {
    let pk = pack(&[TileShape::Small, TileShape::Small], GRID_COLUMNS);
    assert_eq!(
        bands(&pk),
        vec![Band {
            strips: vec![
                Strip {
                    width: 2,
                    rows: vec![vec![(T(0), 2)]]
                },
                Strip {
                    width: 2,
                    rows: vec![vec![(T(1), 2)]]
                },
            ]
        }]
    );
}

#[test]
fn four_halfs_fill_one_row() {
    let pk = pack(&[TileShape::Half; 4], GRID_COLUMNS);
    let b = bands(&pk);
    assert_eq!(b.len(), 1);
    assert_eq!(b[0].strips.len(), 4);
    assert!(b[0]
        .strips
        .iter()
        .all(|s| s.width == 1 && s.rows == vec![vec![(s.rows[0][0].0, 1)]]));
    assert!(pk.ghosts.is_empty());
}

#[test]
fn a_lone_half_gets_three_ghosts_beside_it() {
    let pk = pack(&[TileShape::Half], GRID_COLUMNS);
    assert_eq!(pk.ghosts.len(), 3);
    let b = bands(&pk);
    assert_eq!(b[0].strips.len(), 4);
    assert_eq!(b[0].strips[0].rows, vec![vec![(T(0), 1)]]);
    assert_eq!(b[0].strips[1].rows, vec![vec![(Vacant, 1)]]);
}

#[test]
fn a_wide_is_one_strip_the_whole_width() {
    let pk = pack(&[TileShape::Wide], GRID_COLUMNS);
    assert_eq!(bands(&pk), vec![one_strip(4, vec![vec![(T(0), 4)]])]);
}

#[test]
fn a_tall_beside_two_halfs_over_a_small_is_one_band_of_two_strips() {
    let pk = pack(
        &[TileShape::Tall, TileShape::Half, TileShape::Half, TileShape::Small],
        GRID_COLUMNS,
    );
    assert_eq!(
        bands(&pk),
        vec![Band {
            strips: vec![
                Strip {
                    width: 2,
                    rows: vec![vec![(T(0), 2)], vec![]]
                },
                Strip {
                    width: 2,
                    rows: vec![vec![(T(1), 1), (T(2), 1)], vec![(T(3), 2)]],
                },
            ]
        }]
    );
}

#[test]
fn a_tall_alone_gets_ghosts_in_both_rows_beside_it() {
    let pk = pack(&[TileShape::Tall], GRID_COLUMNS);
    let b = bands(&pk);
    assert_eq!(b.len(), 1);
    assert_eq!(b[0].strips[0].rows, vec![vec![(T(0), 2)], vec![]]);
    assert!(b[0].strips[1..]
        .iter()
        .all(|s| s.width == 1 && s.rows == vec![vec![(Vacant, 1)], vec![(Vacant, 1)]]));
}

#[test]
fn a_wide_then_a_tall_band_then_a_flat_row_cut_cleanly() {
    let pk = pack(
        &[
            TileShape::Wide,
            TileShape::Tall,
            TileShape::Small,
            TileShape::Small,
            TileShape::Small,
        ],
        GRID_COLUMNS,
    );
    let b = bands(&pk);
    assert_eq!(b.len(), 3, "{b:#?}");
    assert_eq!(b[0], one_strip(4, vec![vec![(T(0), 4)]]));
    assert_eq!(b[1].strips[0].rows, vec![vec![(T(1), 2)], vec![]]);
    assert_eq!(b[1].strips[1].rows, vec![vec![(T(2), 2)], vec![(T(3), 2)]]);
    assert_eq!(b[2].strips[0].rows, vec![vec![(T(4), 2)]]);
}

#[test]
fn every_tile_appears_exactly_once_across_bands() {
    for shapes in [
        vec![TileShape::Small; 5],
        vec![TileShape::Half; 7],
        vec![TileShape::Wide, TileShape::Tall, TileShape::Half, TileShape::Wide],
        vec![
            TileShape::Tall,
            TileShape::Half,
            TileShape::Tall,
            TileShape::Small,
            TileShape::Half,
        ],
        vec![
            TileShape::Half,
            TileShape::Tall,
            TileShape::Half,
            TileShape::Half,
            TileShape::Wide,
        ],
    ] {
        let pk = pack(&shapes, GRID_COLUMNS);
        let mut seen = vec![0usize; shapes.len()];
        for band in bands(&pk) {
            for strip in band.strips {
                for row in strip.rows {
                    for (e, _) in row {
                        if let Entry::Tile(i) = e {
                            seen[i] += 1;
                        }
                    }
                }
            }
        }
        assert!(seen.iter().all(|&n| n == 1), "{shapes:?} → {seen:?}");
    }
}

#[test]
fn strip_widths_always_sum_to_the_grid_width() {
    for shapes in [
        vec![TileShape::Half, TileShape::Small, TileShape::Half],
        vec![TileShape::Tall, TileShape::Half, TileShape::Half, TileShape::Small],
        vec![TileShape::Wide, TileShape::Half],
    ] {
        let pk = pack(&shapes, GRID_COLUMNS);
        for band in bands(&pk) {
            let total: u16 = band.strips.iter().map(|s| s.width).sum();
            assert_eq!(total, GRID_COLUMNS, "{shapes:?}: {band:#?}");
        }
    }
}

#[test]
fn a_slot_far_down_the_grid_still_has_its_placement() {
    let slot = Slot::new(Wide, 65534, 65534);
    assert_eq!(
        slot.placement(),
        Placement { column: 65535, row: 65535, width: 4, height: 1 }
    );
    let instance = Instance::new(Battery, Tall, 3, 65534);
    assert_eq!(
        instance.placement(),
        Placement { column: 4, row: 65535, width: 2, height: 2 }
    );
}

#[test]
fn packed_slots_keep_each_shape_where_the_packer_drew_it() {
    let shapes = [Wide, Half, Tall, Small, Half];
    let slots = packed_slots(&shapes);
    let packed = pack(&shapes, GRID_COLUMNS);
    assert_eq!(slots.len(), shapes.len());
    for ((slot, shape), placement) in slots.iter().zip(shapes.iter()).zip(packed.tiles.iter()) {
        assert_eq!(slot.shape, *shape);
        assert_eq!(slot.placement(), *placement);
    }
}

#[test]
fn the_first_free_cell_within_the_row_numbers_is_found_even_under_a_full_bottom() {
    let layout = vec![
        at(Battery, Tall, 0, 65533),
        at(Dns, Small, 0, 0),
    ];
    assert_eq!(first_free_within(&layout, Small), Some((2, 0)));
    assert_eq!(first_free_within(&layout, Wide), Some((0, 1)));
    let full = vec![at(Volume, Wide, 0, 65534)];
    assert_eq!(first_free_within(&full, Tall), Some((0, 0)));
}
