use control_center::i18n::shown_text;
use control_center::text::trim;
use control_center::ui::icons::{
    self, band, media_player_candidates, preset_name, resolve, signal, Band, FALLBACK,
};
use control_center::ui::{
    connectivity_row_gap_half_px, connectivity_row_height, tall_height_half_px, tile_height_half_px, truncate, Spacing,
    Tile, ICON_SIZE,
};
use control_center::config::TileStyle;

#[test]
fn signal_bands_are_ordered_and_total() {
    assert_eq!(band(0), Band::Weak);
    assert_eq!(band(29), Band::Weak);
    assert_eq!(band(30), Band::Fair);
    assert_eq!(band(54), Band::Fair);
    assert_eq!(band(55), Band::Good);
    assert_eq!(band(79), Band::Good);
    assert_eq!(band(80), Band::Excellent);
    assert_eq!(band(100), Band::Excellent);
    assert_eq!(band(u8::MAX), Band::Excellent);
}

#[test]
fn an_empty_candidate_list_yields_the_spec_fallback() {
    assert_eq!(resolve(&[], &[]), FALLBACK);
}

#[test]
fn the_first_candidate_the_theme_has_wins() {
    let candidates = icons::bluetooth(true, 2);
    assert_eq!(resolve(&candidates, &[false, true, true]), "bluetooth-paired-symbolic");
    // Nothing resolves: keep the most specific name.
    assert_eq!(resolve(&candidates, &[false, false, false]), "bluetooth-active-symbolic");
}

#[test]
fn a_secured_network_shows_the_padlock_first() {
    assert_eq!(signal(90, true)[0], "network-wireless-signal-excellent-secure-symbolic");
    assert_eq!(signal(10, false)[0], "network-wireless-signal-weak-symbolic");
    assert_eq!(
        icons::wifi(false, false, true, true, 60),
        signal(60, false)
    );
    assert_eq!(icons::wifi(true, false, true, true, 60)[0], "airplane-mode-symbolic");
}

#[test]
fn presets_name_the_shipped_glyphs() {
    assert_eq!(preset_name("toggles"), "cosmic-control-center-toggles-symbolic");
}

#[test]
fn a_media_player_is_guessed_from_what_it_says() {
    let names = media_player_candidates(None, "Chromium", "Firefox Nightly");
    assert_eq!(names, vec!["", "chromium", "firefox nightly", "firefox-nightly"]);
    assert_eq!(icons::first_resolving(&names, &[true, false, false, true]), Some(3));
    assert_eq!(icons::first_resolving(&names, &[true, false, false, false]), None);
}

#[test]
fn short_text_is_left_alone() {
    assert_eq!(truncate("HomeNet", 14), "HomeNet");
    assert_eq!(truncate("exactly14chars", 14), "exactly14chars");
}

#[test]
fn long_text_is_shortened_within_the_limit() {
    let out = truncate("BT-HomeHub-2.4GHz-Extended", 14);
    assert_eq!(out.chars().count(), 14);
    assert!(out.ends_with('…'));
}

#[test]
fn multibyte_text_is_not_cut_mid_character() {
    let out = truncate("café-café-café-café-café", 8);
    assert_eq!(out.chars().count(), 8);
    assert!(out.ends_with('…'));
}

#[test]
fn a_tiny_limit_does_not_underflow() {
    assert_eq!(truncate("abcdef", 1), "…");
    assert_eq!(truncate("abcdef", 0), "…");
}

#[test]
fn a_missing_battery_shows_the_missing_glyph() {
    assert_eq!(icons::battery(None, false, false), vec!["battery-missing-symbolic", "battery-symbolic"]);
}

#[test]
fn a_critical_battery_breaks_the_level_progression_unless_charging() {
    assert_eq!(icons::battery(Some(10), false, true)[2], "battery-caution-symbolic");
    assert_eq!(icons::battery(Some(10), false, true)[3], "battery-empty-symbolic");
    assert_eq!(icons::battery(Some(10), true, true)[0], "cosmic-applet-battery-level-10-charging-symbolic");
    assert_eq!(icons::battery(Some(35), false, false)[1], "battery-level-30-symbolic");
    assert_eq!(icons::battery(Some(65), true, false)[1], "battery-level-60-charging-symbolic");
    for level in icons::COSMIC_LEVELS {
        for charging in [false, true] {
            assert_eq!(icons::battery(Some(level), charging, false).last(), Some(&"battery-symbolic"));
        }
    }
}

#[test]
fn slider_icons_follow_the_level() {
    assert_eq!(icons::volume(icons::Level::Off)[0], "audio-volume-muted-symbolic");
    assert_eq!(icons::volume(icons::Level::High), vec!["audio-volume-high-symbolic"]);
    assert_eq!(icons::microphone(icons::Level::Medium)[0], "microphone-sensitivity-medium-symbolic");
    assert_eq!(icons::brightness(icons::Level::Low), icons::brightness(icons::Level::Medium));
    assert_eq!(icons::brightness(icons::Level::Off)[0], "display-brightness-low-symbolic");
}

fn spacing() -> Spacing {
    // The standard-density values from cosmic-theme.
    Spacing { gap: 8, pad_y: 8, pad_x: 12, section: 12 }
}

/// Heights in pixels, as the widgets are given them.
fn tile_height(spacing: Spacing) -> f32 {
    tile_height_half_px(spacing) as f32 / 2.0
}

fn tall_height(spacing: Spacing) -> f32 {
    tall_height_half_px(spacing) as f32 / 2.0
}

#[test]
fn a_tile_is_always_tall_enough_for_its_icon() {
    let height = tile_height(spacing());
    let padding = f32::from(spacing().pad_y) * 2.0;
    assert!(
        height - padding >= f32::from(ICON_SIZE),
        "tile height {height} leaves {} for a {ICON_SIZE}px icon",
        height - padding
    );
}

#[test]
fn three_connectivity_rows_fit_a_tall_tile() {
    for spacing in [
        Spacing { gap: 4, pad_y: 4, pad_x: 8, section: 8 },
        Spacing { gap: 8, pad_y: 8, pad_x: 16, section: 16 },
    ] {
        let inner = tall_height(spacing) - f32::from(spacing.pad_y) * 2.0;
        let needed = connectivity_row_height(spacing) as f32 * 3.0
            + connectivity_row_gap_half_px(spacing) as f32 / 2.0 * 2.0;
        assert!(inner >= needed, "{spacing:?}: Tall tile leaves {inner}px for rows that need {needed}px");
    }
}

#[test]
fn tile_height_grows_with_a_roomier_density() {
    let compact = tile_height(Spacing { pad_y: 4, ..spacing() });
    let spacious = tile_height(Spacing { pad_y: 16, ..spacing() });
    assert!(spacious > compact);
    assert!(compact >= f32::from(ICON_SIZE));
}

#[test]
fn the_standard_density_gives_the_known_heights() {
    // One line: 20 + 2 * 8 + 2 * 4 = 44; three rows: (3 * 28 + 16) / 2 = 50.
    assert_eq!(tile_height_half_px(spacing()), 100);
    assert_eq!(tall_height_half_px(spacing()), 216);
    assert_eq!(connectivity_row_height(spacing()), 28);
}

#[test]
fn a_tile_is_built_up_from_its_parts() {
    let tile: Tile<u8> = Tile::new("bluetooth-active-symbolic", "Bluetooth", "2 devices")
        .style(TileStyle::Medium)
        .active(true)
        .on_press(7)
        .compact(true);
    assert_eq!(tile.name, "Bluetooth");
    assert_eq!(tile.on_press, Some(7));
    assert!(tile.compact && tile.signalled());
    let low = tile.style(TileStyle::Low).on_press_maybe(None);
    assert!(!low.signalled());
    assert_eq!(low.on_press, None);
}

#[test]
fn a_missing_translation_shows_its_key() {
    assert_eq!(shown_text("wifi-off", None), "wifi-off");
    assert_eq!(shown_text("wifi-off", Some(None)), "wifi-off");
    assert_eq!(shown_text("wifi-off", Some(Some("Wi-Fi is off".to_string()))), "Wi-Fi is off");
}

#[test]
fn trimming_drops_unicode_white_space_on_both_sides_only() {
    assert_eq!(trim("  a b  "), "a b");
    assert_eq!(trim("\u{2003}x\u{2028}"), "x");
    assert_eq!(trim("   "), "");
    assert_eq!(trim(""), "");
    assert_eq!(trim("none"), "none");
}
