use control_center::config::{BadgeTimeout, Config, Indicators, PanelIcon, DEFAULT_PRESET};
use control_center::modules::custom;
use control_center::tile_layout::{validate, Control, Instance, TileKey, TileShape};
use std::time::Duration;

#[test]
fn the_default_panel_icon_is_a_shipped_glyph_not_the_system_cog() {
    assert_eq!(
        Config::default().appearance.icon,
        PanelIcon::Preset(DEFAULT_PRESET.to_string())
    );
    assert!(control_center::ui::icons::PRESETS
        .iter()
        .any(|(name, _)| *name == DEFAULT_PRESET));
}

#[test]
fn the_wifi_badge_lapses_unless_it_is_set_to_never() {
    let on = Indicators {
        wifi_disconnected: true,
        wifi_timeout: BadgeTimeout::Minute,
        ..Indicators::default()
    };
    assert!(!on.wifi_badge(None));
    assert!(on.wifi_badge(Some(Duration::from_secs(59))));
    assert!(!on.wifi_badge(Some(Duration::from_secs(61))));

    let forever = Indicators {
        wifi_timeout: BadgeTimeout::Never,
        ..on.clone()
    };
    assert!(forever.wifi_badge(Some(Duration::from_secs(60 * 60))));
    assert!(!forever.wifi_badge(None));

    assert!(!Indicators::default().wifi_badge(Some(Duration::from_secs(1))));
}

#[test]
fn only_never_means_the_badge_has_no_deadline() {
    assert_eq!(BadgeTimeout::Never.duration(), None);
    let mut previous = Duration::ZERO;
    for timeout in [
        BadgeTimeout::HalfMinute,
        BadgeTimeout::Minute,
        BadgeTimeout::FiveMinutes,
    ] {
        let d = timeout.duration().expect("has a deadline");
        assert!(d > previous, "{timeout:?} must be longer than the one before");
        previous = d;
    }
}

#[test]
fn a_fresh_config_migrates_to_the_default_grid() {
    let migrated = Config::default().migrated();
    assert!(!migrated.appearance.layout.is_empty());
    assert_eq!(validate(&migrated.appearance.layout), migrated.appearance.layout);
}

#[test]
fn badge_deadlines_are_the_words_they_are_named_by() {
    assert_eq!(BadgeTimeout::HalfMinute.duration(), Some(Duration::from_secs(30)));
    assert_eq!(BadgeTimeout::Minute.duration(), Some(Duration::from_secs(60)));
    assert_eq!(BadgeTimeout::FiveMinutes.duration(), Some(Duration::from_secs(300)));
    assert_eq!(BadgeTimeout::Minute.l10n_key(), "badge-timeout-1m");
}

#[test]
fn the_wifi_badge_is_down_at_exactly_its_deadline() {
    let on = Indicators {
        wifi_disconnected: true,
        wifi_timeout: BadgeTimeout::HalfMinute,
        ..Indicators::default()
    };
    assert!(on.wifi_badge(Some(Duration::from_millis(29_999))));
    assert!(!on.wifi_badge(Some(Duration::from_secs(30))));
}

#[test]
fn migrating_twice_changes_nothing_more() {
    let once = Config::default().migrated();
    let twice = once.clone().migrated();
    assert_eq!(once.appearance.layout, twice.appearance.layout);
    assert!(twice.appearance.order.is_empty());
}

#[test]
fn a_disabled_module_is_left_out_of_the_migrated_grid() {
    let mut config = Config::default();
    config.modules.battery = false;
    let migrated = config.migrated();
    assert!(!migrated.appearance.layout.iter().any(|i| i.control == Control::Builtin(TileKey::Battery)));
}

#[test]
fn a_first_run_offers_the_launchers_and_lays_out_the_grid() {
    let offered = control_center::modules::custom::default_launchers(None);
    let count = offered.len();
    let fresh = Config::first_run(offered);
    assert_eq!(fresh.custom.len(), count);
    assert_eq!(fresh.custom[0].name, "Settings");
    assert!(!fresh.appearance.layout.is_empty());
    assert!(fresh.appearance.order.is_empty());
    let grid = Config::default().migrated().appearance.layout;
    assert_eq!(fresh.appearance.layout[..grid.len()], grid[..]);
    let launchers = fresh
        .appearance
        .layout
        .iter()
        .filter(|i| matches!(i.control, Control::Custom { .. }))
        .count();
    assert_eq!(launchers, count);
}

fn launcher(name: &str, shape: TileShape, enabled: bool) -> custom::Tile {
    custom::Tile {
        name: name.to_string(),
        icon: custom::default_icon(),
        command: vec!["true".to_string()],
        detail: None,
        shape,
        confirm: false,
        enabled,
    }
}

#[test]
fn custom_tiles_are_placed_on_the_grid_rather_than_appended_after_it() {
    let mut config = Config::default();
    config.custom = vec![
        launcher("Terminal", TileShape::Half, true),
        launcher("Off", custom::default_shape(), false),
    ];
    let migrated = config.migrated();
    let placed: Vec<_> = migrated
        .appearance
        .layout
        .iter()
        .filter(|i| matches!(i.control, Control::Custom { .. }))
        .collect();
    assert_eq!(placed.len(), 1, "only the usable one is placed");
    assert_eq!(placed[0].control, Control::custom(0));
    assert_eq!(placed[0].shape, TileShape::Half);
    let again = migrated.clone().migrated();
    assert_eq!(again.appearance.layout, migrated.appearance.layout);
}

#[test]
fn a_custom_instance_with_no_entry_behind_it_is_dropped() {
    let mut config = Config::default();
    config.appearance.layout = vec![Instance::of(Control::custom(7), TileShape::Half, 0, 0)];
    let migrated = config.migrated();
    assert!(!migrated
        .appearance
        .layout
        .iter()
        .any(|i| matches!(i.control, Control::Custom { .. })));
}

#[test]
fn a_custom_tile_takes_the_first_free_cell_not_the_end_of_the_grid() {
    let mut config = Config::default();
    config.appearance.layout = vec![
        Instance::new(TileKey::Battery, TileShape::Small, 0, 0),
        Instance::new(TileKey::Dns, TileShape::Small, 0, 1),
    ];
    config.custom = vec![launcher("Terminal", TileShape::Small, true)];
    let migrated = config.migrated();
    assert_eq!(
        migrated.appearance.layout,
        vec![
            Instance::new(TileKey::Battery, TileShape::Small, 0, 0),
            Instance::new(TileKey::Dns, TileShape::Small, 0, 1),
            Instance::of(Control::custom(0), TileShape::Small, 2, 0),
        ]
    );
}

#[test]
fn a_live_custom_instance_is_kept_where_it_was_put() {
    let mut config = Config::default();
    config.appearance.layout = vec![Instance::of(Control::custom(0), TileShape::Wide, 0, 3)];
    config.custom = vec![launcher("Terminal", TileShape::Small, true)];
    let migrated = config.migrated();
    assert_eq!(
        migrated.appearance.layout,
        vec![Instance::of(Control::custom(0), TileShape::Wide, 0, 3)]
    );
}

#[test]
fn a_custom_panel_icon_is_stored_trimmed_and_blank_input_is_ignored() {
    let mut config = Config::default();
    config.apply_custom_icon("  \t ");
    assert_eq!(config, Config::default());
    config.apply_custom_icon("  /home/me/icon.svg \n");
    assert_eq!(config.appearance.icon, PanelIcon::Custom("/home/me/icon.svg".to_string()));
    config.apply_custom_icon("\u{3000}weather-clear\u{00A0}");
    assert_eq!(config.appearance.icon, PanelIcon::Custom("weather-clear".to_string()));
}

#[test]
fn a_migrated_layout_stays_within_the_row_numbers() {
    let mut config = Config::default();
    config.appearance.layout = vec![Instance::new(TileKey::Battery, TileShape::Tall, 0, 65533)];
    config.custom = vec![launcher("Terminal", TileShape::Small, true)];
    let migrated = config.migrated();
    assert!(migrated
        .appearance
        .layout
        .iter()
        .all(|i| usize::from(i.row) + i.shape.rows() <= usize::from(u16::MAX)));
    assert_eq!(migrated.appearance.layout.len(), 2);
    assert_eq!(
        migrated.appearance.layout[1],
        Instance::of(Control::custom(0), TileShape::Small, 0, 0)
    );
}
